use tt_demo::compress::{default_out, min_cast_name};
use tt_demo::paths::join;
use tt_demo::render::render_target_given;

#[test]
fn default_out_swaps_cast_for_min_cast() {
    let p = default_out("demo/assets/foo.cast").unwrap();
    assert_eq!(p, "demo/assets/foo.min.cast");
}

#[test]
fn default_out_rejects_already_min() {
    let err = default_out("demo/assets/foo.min.cast").unwrap_err();
    assert!(err.message().contains("already"));
}

#[test]
fn default_out_rejects_non_cast_extension() {
    assert!(default_out("demo/assets/foo.gif").is_err());
}

#[test]
fn default_out_output_is_refused_again() {
    let once = default_out("x/a.cast").unwrap();
    assert_eq!(once, "x/a.min.cast");
    let err = default_out(&once).unwrap_err();
    assert!(err.message().contains("already"));
}

#[test]
fn default_out_errors_name_the_file() {
    let e = default_out("demo/notes.txt").unwrap_err();
    assert_eq!(e.message(), "expected a .cast file, got notes.txt");
    let e = default_out("..").unwrap_err();
    assert_eq!(e.message(), "bad cast path: ..");
    let e = default_out("a/b.min.cast").unwrap_err();
    assert_eq!(e.message(), "b.min.cast is already a compressed (.min.cast) file");
}

#[test]
fn default_out_bare_file_name() {
    assert_eq!(default_out("clip.cast").unwrap(), "clip.min.cast");
}

#[test]
fn min_cast_name_from_file_name() {
    assert_eq!(min_cast_name("d/x.cast", Some("x.cast")).unwrap(), "x.min.cast");
    assert_eq!(min_cast_name("..", None).unwrap_err().message(), "bad cast path: ..");
    assert_eq!(
        min_cast_name("d/x.min.cast", Some("x.min.cast")).unwrap_err().message(),
        "x.min.cast is already a compressed (.min.cast) file"
    );
    assert_eq!(
        min_cast_name("d/x.gif", Some("x.gif")).unwrap_err().message(),
        "expected a .cast file, got x.gif"
    );
}

#[test]
fn compressed_cast_is_the_one_render_picks() {
    for dir in ["demo/assets", "demo/assets/", "/abs/assets", ""] {
        let out = default_out(&join(dir, "scene1.cast")).unwrap();
        let (cast, _) = render_target_given("scene1", "gif", dir, true);
        assert_eq!(out, cast);
    }
}

#[test]
fn default_out_keeps_the_directory() {
    assert_eq!(default_out("/tmp/demo/a.cast").unwrap(), "/tmp/demo/a.min.cast");
    assert_ne!(default_out("a.cast").unwrap(), "a.cast");
}
