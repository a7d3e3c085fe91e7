//! Where a converted file goes, and how an image is encoded in each format.

use vstd::prelude::*;
use crate::cli::{Format, format_extension, lemma_extension_round_trip};
use crate::optimize::{detected, oxipng_optimization, opt_bytes, optimize_png_in_memory};
use crate::pathname::{
    std_parent, std_path_eq, path_extension, path_stem, std_file_name, std_join, std_set_extension, last_index_of, name_stem, name_extension,
    name_with_extension, lemma_stem_nonempty, file_name, join, set_extension,
};
use vstd::string::*;

verus! {

/// Text of an optional string slice.
pub open spec fn opt_str(o: Option<&str>) -> Option<Seq<char>> {
    match o {
        Some(s) => Some(s@),
        None => None,
    }
}

/// The input has no file name to place into the output directory.
#[derive(Debug)]
pub struct NoFileName;

/// The output path before any extension change: the input's file name inside
/// `dir` when a directory is given, else the input path itself.
pub open spec fn output_base(input: Seq<char>, dir: Option<Seq<char>>) -> Option<Seq<char>> {
    match dir {
        Some(d) => match std_file_name(input) {
            Some(n) => Some(std_join(d, n)),
            None => None,
        },
        None => Some(input),
    }
}

/// Where a converted file is written: the base path, with the target format's
/// extension when a format is given.
pub open spec fn resolved_output(
    input: Seq<char>,
    format: Option<Format>,
    dir: Option<Seq<char>>,
) -> Option<Seq<char>> {
    match output_base(input, dir) {
        Some(b) => match format {
            Some(f) => Some(std_set_extension(b, format_extension(f))),
            None => Some(b),
        },
        None => None,
    }
}

/// Appending text without `c` leaves the last occurrence of `c` where it was.
pub(crate) proof fn lemma_last_index_append(a: Seq<char>, b: Seq<char>, c: char)
    requires
        !b.contains(c),
    ensures
        last_index_of(a + b, c) == last_index_of(a, c),
    decreases b.len(),
{
    if b.len() == 0 {
        assert(a + b =~= a);
    } else {
        assert((a + b).drop_last() =~= a + b.drop_last());
        assert((a + b).last() == b.last());
        assert(b.contains(b.last()) || b.last() != c) by {
            assert(b[b.len() - 1] == b.last());
        }
        assert(!b.drop_last().contains(c)) by {
            if b.drop_last().contains(c) {
                let i: int = choose|i: int| 0 <= i < b.drop_last().len() && b.drop_last()[i] == c;
                assert(b[i] == c);
            }
        }
        lemma_last_index_append(a, b.drop_last(), c);
    }
}

/// A non-empty file name given a dot-free, non-empty extension has exactly that
/// extension afterwards.
pub proof fn lemma_extension_after_set(name: Seq<char>, ext: Seq<char>)
    requires
        name.len() > 0,
        ext.len() > 0,
        !ext.contains('.'),
    ensures
        name_extension(name_with_extension(name, ext)) == Some(ext),
{
    let stem = name_stem(name);
    lemma_stem_nonempty(name);
    let with_dot = stem + seq!['.'];
    assert(last_index_of(with_dot, '.') == stem.len()) by {
        assert(with_dot.last() == '.');
    }
    assert(name_with_extension(name, ext) == with_dot + ext);
    lemma_last_index_append(with_dot, ext, '.');
    assert((with_dot + ext).skip(stem.len() as int + 1) =~= ext);
}

/// The output keeps the input's file name up to its extension: the input has a
/// file name and, when an output directory is given, that name is one plain
/// component (so that joining it to the directory makes it the file name).
pub open spec fn keeps_name(input: Seq<char>, dir: Option<Seq<char>>) -> bool {
    match std_file_name(input) {
        Some(n) => dir is None || std_file_name(n) == Some(n),
        None => false,
    }
}

/// The stem of a name given a dot-free, non-empty extension is the old stem.
pub proof fn lemma_stem_after_set(name: Seq<char>, ext: Seq<char>)
    requires
        name.len() > 0,
        ext.len() > 0,
        !ext.contains('.'),
    ensures
        name_stem(name_with_extension(name, ext)) == name_stem(name),
{
    let stem = name_stem(name);
    lemma_stem_nonempty(name);
    let with_dot = stem + seq!['.'];
    assert(last_index_of(with_dot, '.') == stem.len()) by {
        assert(with_dot.last() == '.');
    }
    assert(name_with_extension(name, ext) == with_dot + ext);
    lemma_last_index_append(with_dot, ext, '.');
    assert((with_dot + ext).take(stem.len() as int) =~= stem);
}

/// Where a converted (or re-encoded) file is written: the input's file name
/// inside `output_dir` when one is given, else the input path; with the target
/// format's extension when one is given. When the output keeps the input's name,
/// a target format gives it exactly that format's extension, keeps the input's
/// stem, makes it detected as that format, and, for a format other than the
/// input's, gives it a file name other than the input's. Such an output lies in
/// the output directory (as a path), or else where the input lies.
pub fn resolve_output(input: &str, format: Option<Format>, output_dir: Option<&str>) -> (r: Result<
    String,
    NoFileName,
>)
    ensures
        match r {
            Ok(p) => resolved_output(input@, format, opt_str(output_dir)) == Some(p@),
            Err(_) => resolved_output(input@, format, opt_str(output_dir)) is None,
        },
        r matches Ok(p) ==> (format matches Some(f) ==> (keeps_name(input@, opt_str(output_dir)) ==> {
            &&& path_extension(p@) == Some(format_extension(f))
            &&& path_stem(p@) == path_stem(input@)
            &&& detected(p@) == Some(f)
            &&& (detected(input@) != Some(f) ==> std_file_name(p@) != std_file_name(input@))
        })),
        r matches Ok(p) ==> (keeps_name(input@, opt_str(output_dir)) ==> match output_dir {
            Some(d) => std_parent(p@) is Some && std_path_eq(std_parent(p@).unwrap(), d@),
            None => std_parent(p@) == std_parent(input@),
        }),
{
    let ghost n = std_file_name(input@);
    let mut path = match output_dir {
        Some(dir) => match file_name(input) {
            Some(n) => join(dir, n.as_str()),
            None => return Err(NoFileName),
        },
        None => String::from_str(input),
    };
    let ghost base = path@;
    proof {
        if keeps_name(input@, opt_str(output_dir)) {
            assert(std_file_name(base) == n);
        }
    }
    if let Some(fmt) = format {
        proof {
            lemma_extension_round_trip(fmt);
        }
        let ext = fmt.extension();
        let named = set_extension(&mut path, ext);
        proof {
            if named {
                let bn = std_file_name(base).unwrap();
                let e = format_extension(fmt);
                lemma_extension_after_set(bn, e);
                lemma_stem_after_set(bn, e);
                if keeps_name(input@, opt_str(output_dir)) && detected(input@) != Some(fmt) {
                    if std_file_name(path@) == n {
                        assert(name_extension(n.unwrap()) == Some(e));
                        assert(detected(input@) == Some(fmt));
                    }
                }
            }
        }
    }
    Ok(path)
}

/// Default quality for JPEG output.
pub const DEFAULT_JPEG_QUALITY: u8 = 85;
/// Default quality for WebP output.
pub const DEFAULT_WEBP_QUALITY: u8 = 85;
/// Default quality for AVIF output.
pub const DEFAULT_AVIF_QUALITY: u8 = 80;
/// Encoder speed used for AVIF output.
pub const AVIF_SPEED: u8 = 6;

/// Which half of a decode-then-encode step failed.
#[derive(Debug, Clone, Copy, PartialEq, Eq, Structural)]
pub enum CodecStage {
    Decode,
    Encode,
}

/// Why an image could not be written in the target format.
#[derive(Debug, Clone, Copy, PartialEq, Eq, Structural)]
pub enum EncodeError {
    /// The source bytes are no image the decoder reads.
    Decode,
    /// The target format's encoder refused the image.
    Encode,
    /// The lossless PNG pass refused the encoded PNG.
    PngPass,
}

/// A decoded image: width, height and its samples, row by row.
pub open spec fn raster_view(o: Option<(u32, u32, Vec<u8>)>) -> Option<(u32, u32, Seq<u8>)> {
    match o {
        Some((w, h, v)) => Some((w, h, v@)),
        None => None,
    }
}

/// `image::load_from_memory` followed by a PNG `write_to`.
pub uninterp spec fn png_reencoding(source: Seq<u8>) -> Result<Seq<u8>, CodecStage>;

/// `image::load_from_memory` followed by `to_rgb8`: width, height, RGB samples.
pub uninterp spec fn rgb8_decoding(source: Seq<u8>) -> Option<(u32, u32, Seq<u8>)>;

/// `image::load_from_memory` followed by `to_rgba8`: width, height, RGBA samples.
pub uninterp spec fn rgba8_decoding(source: Seq<u8>) -> Option<(u32, u32, Seq<u8>)>;

/// `JpegEncoder::new_with_quality(quality).encode(rgb, width, height, Rgb8)`.
pub uninterp spec fn jpeg_encoding(rgb: Seq<u8>, width: u32, height: u32, quality: u8) -> Option<
    Seq<u8>,
>;

/// `image::load_from_memory`, `webp::Encoder::from_image`, then lossy
/// `encode_simple` at `quality`.
pub uninterp spec fn webp_encoding(source: Seq<u8>, quality: u8) -> Result<Seq<u8>, CodecStage>;

/// `ravif::Encoder` with `quality`, `speed` and `threads` worker threads (which
/// also fixes the number of tiles), `encode_rgba` over the pixels.
pub uninterp spec fn avif_encoding(
    pixels: Seq<(u8, u8, u8, u8)>,
    width: usize,
    height: usize,
    quality: u8,
    speed: u8,
    threads: usize,
) -> Option<Seq<u8>>;

/// Wraps `image::load_from_memory` and `DynamicImage::write_to` with
/// `ImageFormat::Png`: the source decoded and written as PNG in its own color
/// type. The result is named; which stage failed is reported.
#[verifier::external_body]
fn reencode_png(source: &[u8]) -> (r: Result<Vec<u8>, CodecStage>)
    ensures
        match r {
            Ok(v) => png_reencoding(source@) == Ok::<Seq<u8>, CodecStage>(v@),
            Err(e) => png_reencoding(source@) == Err::<Seq<u8>, CodecStage>(e),
        },
{
    let img = match image::load_from_memory(source) {
        Ok(img) => img,
        Err(_) => return Err(CodecStage::Decode),
    };
    let mut buf: Vec<u8> = Vec::new();
    match img.write_to(&mut std::io::Cursor::new(&mut buf), image::ImageFormat::Png) {
        Ok(()) => Ok(buf),
        Err(_) => Err(CodecStage::Encode),
    }
}

/// Wraps `image::load_from_memory` and `DynamicImage::to_rgb8`. Beyond the name
/// it claims the documented layout of an RGB buffer: three samples per pixel.
#[verifier::external_body]
fn decode_rgb8(source: &[u8]) -> (r: Option<(u32, u32, Vec<u8>)>)
    ensures
        raster_view(r) == rgb8_decoding(source@),
        r matches Some((w, h, v)) ==> v@.len() == 3 * w * h,
{
    let rgb = image::load_from_memory(source).ok()?.to_rgb8();
    Some((rgb.width(), rgb.height(), rgb.into_raw()))
}

/// Wraps `image::load_from_memory` and `DynamicImage::to_rgba8`. Beyond the
/// name it claims the documented layout of an RGBA buffer: four samples per pixel.
#[verifier::external_body]
fn decode_rgba8(source: &[u8]) -> (r: Option<(u32, u32, Vec<u8>)>)
    ensures
        raster_view(r) == rgba8_decoding(source@),
        r matches Some((w, h, v)) ==> v@.len() == 4 * w * h,
{
    let rgba = image::load_from_memory(source).ok()?.to_rgba8();
    Some((rgba.width(), rgba.height(), rgba.into_raw()))
}

/// Wraps `image::codecs::jpeg::JpegEncoder::new_with_quality` and `encode` with
/// `ExtendedColorType::Rgb8`; the result is named. The encoder panics on a buffer
/// of the wrong length, which `requires` leaves out.
#[verifier::external_body]
fn encode_jpeg(rgb: &[u8], width: u32, height: u32, quality: u8) -> (r: Option<Vec<u8>>)
    requires
        rgb@.len() == 3 * width * height,
    ensures
        opt_bytes(r) == jpeg_encoding(rgb@, width, height, quality),
{
    let mut buf: Vec<u8> = Vec::new();
    let mut encoder = image::codecs::jpeg::JpegEncoder::new_with_quality(&mut buf, quality);
    match encoder.encode(rgb, width, height, image::ExtendedColorType::Rgb8) {
        Ok(()) => Some(buf),
        Err(_) => None,
    }
}

/// Wraps `image::load_from_memory`, `webp::Encoder::from_image` and
/// `Encoder::encode_simple(false, quality)` (the fallible form of `encode`).
/// The result is named; libwebp takes qualities up to 100 only.
#[verifier::external_body]
fn encode_webp(source: &[u8], quality: u8) -> (r: Result<Vec<u8>, CodecStage>)
    requires
        quality <= 100,
    ensures
        match r {
            Ok(v) => webp_encoding(source@, quality) == Ok::<Seq<u8>, CodecStage>(v@),
            Err(e) => webp_encoding(source@, quality) == Err::<Seq<u8>, CodecStage>(e),
        },
{
    let img = match image::load_from_memory(source) {
        Ok(img) => img,
        Err(_) => return Err(CodecStage::Decode),
    };
    let encoder = match webp::Encoder::from_image(&img) {
        Ok(e) => e,
        Err(_) => return Err(CodecStage::Encode),
    };
    match encoder.encode_simple(false, quality.into()) {
        Ok(mem) => Ok(mem.to_vec()),
        Err(_) => Err(CodecStage::Encode),
    }
}

/// Wraps `ravif::Encoder::new().with_quality(..).with_speed(..)
/// .with_num_threads(Some(threads)).encode_rgba(..)` over an `Img` of the pixels;
/// the result is named. The thread count is passed explicitly because it sets the
/// number of tiles, and so the output. The encoder asserts a quality in 1..=100,
/// a speed in 1..=10 and a non-zero thread count, and `Img::new` a non-zero
/// width; `requires` leaves those inputs out.
#[verifier::external_body]
fn encode_avif(
    pixels: &[(u8, u8, u8, u8)],
    width: usize,
    height: usize,
    quality: u8,
    speed: u8,
    threads: usize,
) -> (r: Option<Vec<u8>>)
    requires
        pixels@.len() == width * height,
        width > 0,
        height > 0,
        1 <= quality <= 100,
        1 <= speed <= 10,
        threads > 0,
    ensures
        opt_bytes(r) == avif_encoding(pixels@, width, height, quality, speed, threads),
{
    let px: Vec<rgb::RGBA8> = pixels.iter().map(|&(r, g, b, a)| rgb::RGBA8 { r, g, b, a }).collect();
    let img = ravif::Img::new(px.as_slice(), width, height);
    let encoder = ravif::Encoder::new()
        .with_quality(quality.into())
        .with_speed(speed)
        .with_num_threads(Some(threads));
    encoder.encode_rgba(img).ok().map(|res| res.avif_file)
}

/// The pixels of an RGBA sample buffer, four samples each.
pub open spec fn rgba_pixels(raw: Seq<u8>) -> Seq<(u8, u8, u8, u8)> {
    Seq::new(
        raw.len() / 4,
        |i: int| (raw[4 * i], raw[4 * i + 1], raw[4 * i + 2], raw[4 * i + 3]),
    )
}

/// Groups an RGBA sample buffer into pixels.
pub fn to_pixels(raw: &Vec<u8>) -> (r: Vec<(u8, u8, u8, u8)>)
    ensures
        r@ == rgba_pixels(raw@),
{
    let n: usize = raw.len() / 4;
    let mut out: Vec<(u8, u8, u8, u8)> = Vec::new();
    let mut i: usize = 0;
    while i < n
        invariant
            n == raw@.len() / 4,
            i <= n,
            out@.len() == i,
            forall|k: int| 0 <= k < i ==> out@[k] == rgba_pixels(raw@)[k],
        decreases n - i,
    {
        assert(raw@.len() == raw.len());
        assert(4 * i + 3 < raw@.len()) by (nonlinear_arith)
            requires
                i < n,
                n == raw@.len() / 4,
        ;
        let b: usize = 4 * i;
        out.push((raw[b], raw[b + 1], raw[b + 2], raw[b + 3]));
        i = i + 1;
    }
    assert(out@ =~= rgba_pixels(raw@));
    out
}

/// The quality an encoder gets: the requested one, else the format's default.
pub open spec fn effective_quality(format: Format, quality: Option<u8>) -> u8 {
    match quality {
        Some(q) => q,
        None => match format {
            Format::Jpg => 85,
            Format::Webp => 85,
            Format::Avif => 80,
            Format::Png => 0,
        },
    }
}

/// The qualities each encoder accepts: any for PNG (ignored) and JPEG (clamped to
/// 1..=100), up to 100 for WebP, 1..=100 for AVIF.
pub open spec fn quality_accepted(format: Format, quality: Option<u8>) -> bool {
    match quality {
        Some(q) => match format {
            Format::Webp => q <= 100,
            Format::Avif => 1 <= q <= 100,
            _ => true,
        },
        None => true,
    }
}

fn stage_error(stage: CodecStage) -> (r: EncodeError)
    ensures
        r == stage_error_of(stage),
{
    match stage {
        CodecStage::Decode => EncodeError::Decode,
        CodecStage::Encode => EncodeError::Encode,
    }
}

pub open spec fn stage_error_of(stage: CodecStage) -> EncodeError {
    match stage {
        CodecStage::Decode => EncodeError::Decode,
        CodecStage::Encode => EncodeError::Encode,
    }
}

/// What `source` becomes in `format`: PNG is re-encoded and passed through the
/// lossless optimizer; JPEG is encoded from RGB samples; WebP by libwebp; AVIF
/// from RGBA pixels at the fixed speed on `threads` worker threads, provided the
/// image is not empty.
pub open spec fn encoding(source: Seq<u8>, format: Format, quality: Option<u8>, threads: usize) -> Result<
    Seq<u8>,
    EncodeError,
> {
    let q = effective_quality(format, quality);
    match format {
        Format::Png => match png_reencoding(source) {
            Ok(png) => match oxipng_optimization(png) {
                Some(o) => Ok(o),
                None => Err(EncodeError::PngPass),
            },
            Err(stage) => Err(stage_error_of(stage)),
        },
        Format::Jpg => match rgb8_decoding(source) {
            Some((w, h, rgb)) => match jpeg_encoding(rgb, w, h, q) {
                Some(o) => Ok(o),
                None => Err(EncodeError::Encode),
            },
            None => Err(EncodeError::Decode),
        },
        Format::Webp => match webp_encoding(source, q) {
            Ok(o) => Ok(o),
            Err(stage) => Err(stage_error_of(stage)),
        },
        Format::Avif => match rgba8_decoding(source) {
            Some((w, h, raw)) => if w == 0 || h == 0 {
                Err(EncodeError::Encode)
            } else {
                match avif_encoding(rgba_pixels(raw), w as usize, h as usize, q, 6, threads) {
                    Some(o) => Ok(o),
                    None => Err(EncodeError::Encode),
                }
            },
            None => Err(EncodeError::Decode),
        },
    }
}

/// Encodes the image held in `source` (any format the decoder reads) as
/// `format`, at `quality` or the format's default; the AVIF encoder runs on
/// `threads` worker threads.
pub fn encode_to_bytes(source: &[u8], format: Format, quality: Option<u8>, threads: usize) -> (r: Result<
    Vec<u8>,
    EncodeError,
>)
    requires
        quality_accepted(format, quality),
        threads > 0,
    ensures
        match r {
            Ok(v) => encoding(source@, format, quality, threads) == Ok::<Seq<u8>, EncodeError>(v@),
            Err(e) => encoding(source@, format, quality, threads) == Err::<Seq<u8>, EncodeError>(e),
        },
{
    match format {
        Format::Png => encode_png(source, quality, threads),
        Format::Jpg => encode_jpeg_from(source, quality, threads),
        Format::Webp => encode_webp_from(source, quality, threads),
        Format::Avif => encode_avif_from(source, quality, threads),
    }
}

fn quality_or(quality: Option<u8>, default: u8) -> (r: u8)
    ensures
        r == match quality {
            Some(q) => q,
            None => default,
        },
{
    match quality {
        Some(q) => q,
        None => default,
    }
}

fn encode_png(source: &[u8], quality: Option<u8>, threads: usize) -> (r: Result<Vec<u8>, EncodeError>)
    ensures
        match r {
            Ok(v) => encoding(source@, Format::Png, quality, threads) == Ok::<Seq<u8>, EncodeError>(v@),
            Err(e) => encoding(source@, Format::Png, quality, threads) == Err::<Seq<u8>, EncodeError>(e),
        },
{
    match reencode_png(source) {
        Ok(png) => match optimize_png_in_memory(png.as_slice()) {
            Ok(o) => Ok(o),
            Err(_) => Err(EncodeError::PngPass),
        },
        Err(stage) => Err(stage_error(stage)),
    }
}

fn encode_jpeg_from(source: &[u8], quality: Option<u8>, threads: usize) -> (r: Result<Vec<u8>, EncodeError>)
    ensures
        match r {
            Ok(v) => encoding(source@, Format::Jpg, quality, threads) == Ok::<Seq<u8>, EncodeError>(v@),
            Err(e) => encoding(source@, Format::Jpg, quality, threads) == Err::<Seq<u8>, EncodeError>(e),
        },
{
    let q = quality_or(quality, DEFAULT_JPEG_QUALITY);
    match decode_rgb8(source) {
        Some((w, h, rgb)) => match encode_jpeg(rgb.as_slice(), w, h, q) {
            Some(o) => Ok(o),
            None => Err(EncodeError::Encode),
        },
        None => Err(EncodeError::Decode),
    }
}

fn encode_webp_from(source: &[u8], quality: Option<u8>, threads: usize) -> (r: Result<Vec<u8>, EncodeError>)
    requires
        quality_accepted(Format::Webp, quality),
    ensures
        match r {
            Ok(v) => encoding(source@, Format::Webp, quality, threads) == Ok::<Seq<u8>, EncodeError>(v@),
            Err(e) => encoding(source@, Format::Webp, quality, threads) == Err::<Seq<u8>, EncodeError>(e),
        },
{
    let q = quality_or(quality, DEFAULT_WEBP_QUALITY);
    match encode_webp(source, q) {
        Ok(o) => Ok(o),
        Err(stage) => Err(stage_error(stage)),
    }
}

fn encode_avif_from(source: &[u8], quality: Option<u8>, threads: usize) -> (r: Result<
    Vec<u8>,
    EncodeError,
>)
    requires
        quality_accepted(Format::Avif, quality),
        threads > 0,
    ensures
        match r {
            Ok(v) => encoding(source@, Format::Avif, quality, threads) == Ok::<Seq<u8>, EncodeError>(v@),
            Err(e) => encoding(source@, Format::Avif, quality, threads) == Err::<Seq<u8>, EncodeError>(e),
        },
{
    let q = quality_or(quality, DEFAULT_AVIF_QUALITY);
    match decode_rgba8(source) {
        Some((w, h, raw)) => {
            if w == 0 || h == 0 {
                return Err(EncodeError::Encode);
            }
            let pixels = to_pixels(&raw);
            let wu: usize = w as usize;
            let hu: usize = h as usize;
            proof {
                assert(raw@.len() == 4 * (w * h)) by (nonlinear_arith)
                    requires raw@.len() == 4 * w * h;
                assert(raw@.len() / 4 == w * h);
            }
            match encode_avif(pixels.as_slice(), wu, hu, q, AVIF_SPEED, threads) {
                Some(o) => Ok(o),
                None => Err(EncodeError::Encode),
            }
        },
        None => Err(EncodeError::Decode),
    }
}

/// A requested quality is the quality every encoder receives.
pub proof fn lemma_requested_quality_is_used(format: Format, q: u8)
    ensures
        effective_quality(format, Some(q)) == q,
{
}

/// A JPEG is encoded from the decoded RGB samples at exactly the requested
/// quality.
pub proof fn lemma_jpeg_at_requested_quality(source: Seq<u8>, q: u8, threads: usize)
    ensures
        encoding(source, Format::Jpg, Some(q), threads) == match rgb8_decoding(source) {
            Some((w, h, rgb)) => match jpeg_encoding(rgb, w, h, q) {
                Some(o) => Ok::<Seq<u8>, EncodeError>(o),
                None => Err(EncodeError::Encode),
            },
            None => Err(EncodeError::Decode),
        },
{
}

/// A WebP is encoded by libwebp at exactly the requested quality.
pub proof fn lemma_webp_at_requested_quality(source: Seq<u8>, q: u8, threads: usize)
    ensures
        encoding(source, Format::Webp, Some(q), threads) == match webp_encoding(source, q) {
            Ok(o) => Ok::<Seq<u8>, EncodeError>(o),
            Err(stage) => Err(stage_error_of(stage)),
        },
{
}

/// An AVIF of a decodable, non-empty image is encoded from its RGBA pixels at
/// exactly the requested quality, at speed 6, on `threads` worker threads; an
/// empty image is refused and an undecodable source is a decoding error.
pub proof fn lemma_avif_at_requested_quality(source: Seq<u8>, q: u8, threads: usize)
    ensures
        encoding(source, Format::Avif, Some(q), threads) == match rgba8_decoding(source) {
            Some((width, height, rgba)) => if width == 0 || height == 0 {
                Err::<Seq<u8>, EncodeError>(EncodeError::Encode)
            } else {
                match avif_encoding(rgba_pixels(rgba), width as usize, height as usize, q, 6, threads) {
                    Some(o) => Ok::<Seq<u8>, EncodeError>(o),
                    None => Err(EncodeError::Encode),
                }
            },
            None => Err(EncodeError::Decode),
        },
{
}

/// Without a requested quality, JPEG and WebP are encoded at 85 and AVIF at 80;
/// PNG ignores the quality altogether.
pub proof fn lemma_default_qualities(source: Seq<u8>, quality: Option<u8>, threads: usize)
    ensures
        encoding(source, Format::Jpg, None, threads) == encoding(source, Format::Jpg, Some(85u8), threads),
        encoding(source, Format::Webp, None, threads) == encoding(source, Format::Webp, Some(85u8), threads),
        encoding(source, Format::Avif, None, threads) == encoding(source, Format::Avif, Some(80u8), threads),
        encoding(source, Format::Png, quality, threads) == encoding(source, Format::Png, None, threads),
{
}

} // verus!
