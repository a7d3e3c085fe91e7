use vimg::cli::{format_for_lowercase_extension, Format};
use vimg::convert::resolve_output;
use vimg::optimize::{detect_format, DetectError};
use vimg::pathname::{extension, file_name, file_stem, join, parent, set_extension, split_name};
use vimg::pipeline::{
    choose_action, choose_optimize_output, numbered, optimize_candidate, parent_to_create, resolve_optimize_output,
    to_folder_candidate, with_optimized_suffix, Action,
};

#[test]
fn extensions_of_formats() {
    assert_eq!(Format::Png.extension(), "png");
    assert_eq!(Format::Jpg.extension(), "jpg");
    assert_eq!(Format::Webp.extension(), "webp");
    assert_eq!(Format::Avif.extension(), "avif");
}

#[test]
fn extension_round_trip() {
    for f in [Format::Png, Format::Jpg, Format::Webp, Format::Avif] {
        assert_eq!(format_for_lowercase_extension(f.extension()), Some(f));
    }
    assert_eq!(format_for_lowercase_extension("jpeg"), Some(Format::Jpg));
    assert_eq!(format_for_lowercase_extension("gif"), None);
    assert_eq!(format_for_lowercase_extension("PNG"), None);
}

#[test]
fn detect_format_ignores_case() {
    assert_eq!(detect_format("photo.PNG").unwrap(), Format::Png);
    assert_eq!(detect_format("dir/shot.JpEg").unwrap(), Format::Jpg);
    assert_eq!(detect_format("a.webp").unwrap(), Format::Webp);
    assert_eq!(detect_format("a.b.AVIF").unwrap(), Format::Avif);
}

#[test]
fn detect_format_errors() {
    assert!(matches!(detect_format("noext"), Err(DetectError::MissingExtension)));
    assert!(matches!(detect_format(".bashrc"), Err(DetectError::MissingExtension)));
    match detect_format("anim.GIF") {
        Err(DetectError::Unsupported(e)) => assert_eq!(e, "gif"),
        other => panic!("unexpected {:?}", other),
    }
}

#[test]
fn path_primitives() {
    assert_eq!(file_name("pics/photo.png").as_deref(), Some("photo.png"));
    assert_eq!(file_name("pics/..").as_deref(), None);
    assert_eq!(parent("pics/photo.png").as_deref(), Some("pics"));
    assert_eq!(join("out", "photo.png"), "out/photo.png");
    assert_eq!(extension("pics/photo.tar.gz").as_deref(), Some("gz"));
    assert_eq!(file_stem("pics/photo.tar.gz").as_deref(), Some("photo.tar"));
    assert_eq!(extension(".hidden"), None);
    assert_eq!(file_stem(".hidden").as_deref(), Some(".hidden"));
    assert_eq!(split_name("a."), ("a".to_string(), Some(String::new())));
    let mut p = String::from("pics/photo.png");
    assert!(set_extension(&mut p, "webp"));
    assert_eq!(p, "pics/photo.webp");
    let mut q = String::from("/");
    assert!(!set_extension(&mut q, "webp"));
    assert_eq!(q, "/");
}

#[test]
fn resolve_output_cases() {
    assert_eq!(resolve_output("photo.png", Some(Format::Webp), None).unwrap(), "photo.webp");
    assert_eq!(resolve_output("pics/photo.png", Some(Format::Avif), Some("out")).unwrap(), "out/photo.avif");
    assert_eq!(resolve_output("pics/photo.png", None, Some("out")).unwrap(), "out/photo.png");
    assert_eq!(resolve_output("photo.png", None, None).unwrap(), "photo.png");
    assert!(resolve_output("/", Some(Format::Png), Some("out")).is_err());
    let out = resolve_output("shot.JPEG", Some(Format::Jpg), None).unwrap();
    assert_eq!(out, "shot.jpg");
    assert_eq!(detect_format(&out).unwrap(), Format::Jpg);
}

#[test]
fn optimized_copy_names() {
    assert_eq!(with_optimized_suffix("photo.png"), "photo.optimized.png");
    assert_eq!(with_optimized_suffix("pics/photo.png"), "pics/photo.optimized.png");
    assert_eq!(with_optimized_suffix("pics/photo"), "pics/photo.optimized");
    assert_eq!(with_optimized_suffix("pics/photo."), "pics/photo.optimized");
    assert_eq!(with_optimized_suffix("/"), "output.optimized");
}

#[test]
fn numbered_alternatives() {
    assert_eq!(numbered("name.optimized.png", 0), "name.optimized.png");
    assert_eq!(numbered("name.optimized.png", 1), "name.optimized1.png");
    assert_eq!(numbered("pics/name.optimized.png", 2), "pics/name.optimized2.png");
    assert_eq!(numbered("pics/photo.webp", 12), "pics/photo12.webp");
    assert_eq!(numbered("pics/photo", 3), "pics/photo3");
    assert_ne!(numbered("a.png", 1), numbered("a.png", 11));
}

#[test]
fn folder_candidates() {
    assert_eq!(to_folder_candidate("/home/u/pics", 0), "/home/u/pics_optimized");
    assert_eq!(to_folder_candidate("/home/u/pics", 1), "/home/u/pics_optimized1");
    assert_eq!(to_folder_candidate("pics", 10), "pics_optimized10");
}

#[test]
fn optimize_output_locations() {
    assert_eq!(resolve_optimize_output("photo.png", None, None, None).unwrap(), "photo.optimized.png");
    assert_eq!(optimize_candidate("pics/photo.png", Some("out")).as_deref(), Some("out/photo.png"));
    assert_eq!(optimize_candidate("pics/photo.png", None), None);
    assert_eq!(
        resolve_optimize_output("pics/photo.png", Some("out"), Some("/w/out/photo.png".into()), Some("/w/pics/photo.png".into())).unwrap(),
        "out/photo.png"
    );
    assert_eq!(
        resolve_optimize_output("pics/photo.png", Some("pics"), Some("/w/pics/photo.png".into()), Some("/w/pics/photo.png".into())).unwrap(),
        "pics/photo.optimized.png"
    );
    assert_eq!(resolve_optimize_output("pics/photo.png", Some("out"), None, None).unwrap(), "out/photo.png");
    assert!(resolve_optimize_output("/", Some("out"), None, None).is_err());
    assert_eq!(
        choose_optimize_output("a/p.png", "b/p.png".to_string(), Some("/x/b/p.png".to_string()), Some("/x/a/p.png".to_string())),
        "b/p.png"
    );
    assert_eq!(
        choose_optimize_output("a/p.png", "a//p.png".to_string(), None, None),
        "a/p.optimized.png"
    );
}

#[test]
fn actions() {
    assert_eq!(choose_action("a.png", None), Action::Optimize);
    assert_eq!(choose_action("a.PNG", Some(Format::Png)), Action::OptimizeInsteadOf(Format::Png));
    assert_eq!(choose_action("a.jpeg", Some(Format::Jpg)), Action::OptimizeInsteadOf(Format::Jpg));
    assert_eq!(choose_action("a.png", Some(Format::Webp)), Action::Convert(Format::Webp));
    assert_eq!(choose_action("a.gif", Some(Format::Png)), Action::Convert(Format::Png));
}

#[test]
fn parents_to_create() {
    assert_eq!(parent_to_create("out/a.png").as_deref(), Some("out"));
    assert_eq!(parent_to_create("a.png"), None);
    assert_eq!(parent_to_create("/"), None);
}

#[test]
fn optimized_copy_never_takes_the_input_name() {
    for input in ["photo.png", "pics/a.b.jpg", "pics/noext", ".hidden", "x."] {
        let out = with_optimized_suffix(input);
        assert_ne!(file_name(&out), file_name(input));
    }
}

#[test]
fn conversion_keeps_stem_and_changes_name() {
    let out = resolve_output("pics/shot.png", Some(Format::Webp), Some("out")).unwrap();
    assert_eq!(file_stem(&out), file_stem("pics/shot.png"));
    assert_eq!(extension(&out).as_deref(), Some("webp"));
    assert_ne!(file_name(&out), file_name("pics/shot.png"));
}

#[test]
fn named_files_are_detected_by_extension() {
    for f in [Format::Png, Format::Jpg, Format::Webp, Format::Avif] {
        let p = format!("picture.{}", f.extension());
        assert_eq!(file_name(&p).as_deref(), Some(p.as_str()));
        assert_eq!(detect_format(&p).unwrap(), f);
    }
}

#[test]
fn conversion_output_directory() {
    assert_eq!(parent(&resolve_output("pics/shot.png", Some(Format::Webp), Some("out")).unwrap()).as_deref(), Some("out"));
    assert_eq!(parent(&resolve_output("pics/shot.png", Some(Format::Webp), None).unwrap()).as_deref(), Some("pics"));
    assert_eq!(resolve_output("shot.png", Some(Format::Avif), None).unwrap(), "shot.avif");
}

#[test]
fn colons_in_names() {
    assert_eq!(detect_format("a:b.png").unwrap(), Format::Png);
    assert_eq!(detect_format("C:shot.webp").unwrap(), Format::Webp);
    assert_eq!(file_name("C:shot.webp").as_deref(), Some("C:shot.webp"));
}
