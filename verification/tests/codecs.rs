use image::ImageEncoder;
use vimg::cli::{Cli, Format};
use vimg::convert::{encode_to_bytes, EncodeError};
use vimg::optimize::optimize_png_in_memory;
use vimg::pipeline::{keeps_copy, optimize_bytes, plan_convert, plan_optimize, Config, Outcome, ProcessError};

fn sample_png(width: u32, height: u32) -> Vec<u8> {
    let img = image::RgbaImage::from_fn(width, height, |x, y| {
        image::Rgba([(x * 7) as u8, (y * 13) as u8, ((x + y) * 3) as u8, 255])
    });
    let mut buf = Vec::new();
    image::DynamicImage::ImageRgba8(img)
        .write_to(&mut std::io::Cursor::new(&mut buf), image::ImageFormat::Png)
        .unwrap();
    buf
}

fn cli(quality: Option<u8>, output: Option<&str>) -> Cli {
    Cli {
        files: vec![],
        format: None,
        output: output.map(|s| s.to_string()),
        quality,
        enable_context_menu: false,
        disable_context_menu: false,
        update: false,
        to_folder: false,
    }
}

#[test]
fn png_output() {
    let src = sample_png(16, 16);
    let out = encode_to_bytes(&src, Format::Png, None, 2).unwrap();
    assert_eq!(&out[..8], b"\x89PNG\r\n\x1a\n");
    assert_ne!(out, src);
}

#[test]
fn jpeg_output_and_default_quality() {
    let src = sample_png(16, 16);
    let out = encode_to_bytes(&src, Format::Jpg, None, 2).unwrap();
    assert_eq!(&out[..2], &[0xFF, 0xD8]);
    assert_eq!(out, encode_to_bytes(&src, Format::Jpg, Some(85), 2).unwrap());
    assert_ne!(out, encode_to_bytes(&src, Format::Jpg, Some(10), 2).unwrap());
}

#[test]
fn webp_output_and_default_quality() {
    let src = sample_png(16, 16);
    let out = encode_to_bytes(&src, Format::Webp, None, 2).unwrap();
    assert_eq!(&out[..4], b"RIFF");
    assert_eq!(&out[8..12], b"WEBP");
    assert_eq!(out, encode_to_bytes(&src, Format::Webp, Some(85), 2).unwrap());
}

#[test]
fn avif_output_and_default_quality() {
    let src = sample_png(8, 8);
    let out = encode_to_bytes(&src, Format::Avif, None, 2).unwrap();
    assert_eq!(&out[4..12], b"ftypavif");
    assert_eq!(out, encode_to_bytes(&src, Format::Avif, Some(80), 2).unwrap());
    assert_eq!(out, encode_to_bytes(&src, Format::Avif, None, 2).unwrap());
}

#[test]
fn undecodable_source() {
    let junk = b"not an image at all".to_vec();
    for f in [Format::Png, Format::Jpg, Format::Webp, Format::Avif] {
        assert_eq!(encode_to_bytes(&junk, f, None, 2), Err(EncodeError::Decode));
    }
}

#[test]
fn lossless_png_pass() {
    let src = sample_png(32, 32);
    let out = optimize_png_in_memory(&src).unwrap();
    assert_eq!(&out[..8], b"\x89PNG\r\n\x1a\n");
    assert!(optimize_png_in_memory(b"junk").is_err());
    assert_eq!(optimize_bytes(b"junk", Format::Png, None, 2), Err(EncodeError::PngPass));
}

#[test]
fn copy_kept_only_when_smaller() {
    assert!(keeps_copy(100, 99));
    assert!(!keeps_copy(100, 100));
    assert!(!keeps_copy(100, 150));
}

#[test]
fn config_quality_range() {
    assert!(Config::from_cli(&cli(None, None)).is_ok());
    assert!(Config::from_cli(&cli(Some(1), None)).is_ok());
    assert!(Config::from_cli(&cli(Some(100), Some("out"))).is_ok());
    assert!(Config::from_cli(&cli(Some(0), None)).is_err());
    assert!(Config::from_cli(&cli(Some(101), None)).is_err());
    let c = Config::from_cli(&cli(Some(50), Some("out"))).unwrap();
    assert_eq!(c.output.as_deref(), Some("out"));
    assert_eq!(c.quality, Some(50));
}

#[test]
fn plans() {
    let cfg = Config::from_cli(&cli(None, None)).unwrap();
    let src = sample_png(16, 16);
    match plan_convert("pics/a.png", Format::Jpg, &src, &cfg, 2).unwrap() {
        Outcome::Write { out, data } => {
            assert_eq!(out, "pics/a.jpg");
            assert_eq!(&data[..2], &[0xFF, 0xD8]);
        }
        Outcome::Unchanged { .. } => panic!("conversion always writes"),
    }
    assert!(matches!(
        plan_convert("pics/a.png", Format::Jpg, b"junk", &cfg, 2),
        Err(ProcessError::Encode(EncodeError::Decode))
    ));
    let unoptimized = {
        let img = image::RgbaImage::from_pixel(64, 64, image::Rgba([10, 20, 30, 255]));
        let mut buf = Vec::new();
        image::codecs::png::PngEncoder::new_with_quality(
            &mut buf,
            image::codecs::png::CompressionType::Fast,
            image::codecs::png::FilterType::NoFilter,
        )
        .write_image(img.as_raw(), 64, 64, image::ExtendedColorType::Rgba8)
        .unwrap();
        buf
    };
    match plan_optimize("pics/b.png", Format::Png, &unoptimized, &cfg, None, None, 2).unwrap() {
        Outcome::Write { out, data } => {
            assert_eq!(out, "pics/b.optimized.png");
            assert!(data.len() < unoptimized.len());
        }
        Outcome::Unchanged { .. } => panic!("a flat image compresses better"),
    }
    let best = optimize_png_in_memory(&unoptimized).unwrap();
    match plan_optimize("pics/b.png", Format::Png, &best, &cfg, None, None, 2).unwrap() {
        Outcome::Unchanged { input_len, optimized_len } => {
            assert_eq!(input_len, best.len());
            assert!(optimized_len >= input_len);
        }
        Outcome::Write { data, .. } => assert!(data.len() < best.len()),
    }
}
