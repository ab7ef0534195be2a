use tt_demo::manifest::{Defaults, Engine, Layout, Manifest, Pane, Scene};
use tt_demo::publish::{gallery_md, require_published, splice, SpliceError, BEGIN, END};

fn pane(run: &str) -> Pane {
    Pane { run: run.to_string(), ready: None, wait_for: None, keys: None }
}

fn scene(id: &str, title: Option<&str>, caption: Option<&str>) -> Scene {
    Scene {
        id: id.to_string(),
        title: title.map(|t| t.to_string()),
        engine: Engine::Auto,
        layout: Layout::Single,
        server: None,
        left: None,
        right: Some(pane("r")),
        split_ratio: None,
        duration: None,
        caption: caption.map(|c| c.to_string()),
        outputs: None,
        raw_tape: None,
        raw_script: None,
    }
}

fn manifest() -> Manifest {
    let parsed = Manifest {
        project: "d".to_string(),
        theme: "t".to_string(),
        defaults: Defaults::default(),
        servers: vec![],
        scenes: vec![scene("a", Some("Scene A"), Some("It reacts.")), scene("b", None, None)],
    };
    Manifest::from_parsed(parsed).unwrap()
}

#[test]
fn gallery_md_includes_title_caption_and_image() {
    let m = manifest();
    let entries = vec![("a".to_string(), "media/a.gif".to_string())];
    let md = gallery_md(&m, &entries);
    assert!(md.contains("**Scene A**"));
    assert!(md.contains("It reacts."));
    assert!(md.contains("![Scene A](media/a.gif)"));
}

#[test]
fn gallery_md_falls_back_to_id_when_untitled() {
    let m = manifest();
    let entries = vec![("b".to_string(), "media/b.gif".to_string())];
    let md = gallery_md(&m, &entries);
    assert!(md.contains("**b**"));
    assert!(md.contains("![b](media/b.gif)"));
}

#[test]
fn gallery_md_exact_text() {
    let m = manifest();
    let entries = vec![
        ("a".to_string(), "media/a.gif".to_string()),
        ("b".to_string(), "media/b.gif".to_string()),
    ];
    assert_eq!(
        gallery_md(&m, &entries),
        "**Scene A** — It reacts.\n\n![Scene A](media/a.gif)\n\n**b**\n\n![b](media/b.gif)\n\n"
    );
}

#[test]
fn splice_replaces_marker_region_only() {
    let readme = "# Title\n<!-- tt-demo:gallery:begin -->\nold\n<!-- tt-demo:gallery:end -->\ntail\n";
    let out = splice(readme, "NEW BLOCK").unwrap();
    assert!(out.contains("# Title"));
    assert!(out.contains("NEW BLOCK"));
    assert!(!out.contains("old"));
    assert!(out.contains("tail"));
    // markers survive so publish is repeatable
    assert!(out.contains("<!-- tt-demo:gallery:begin -->"));
    assert!(out.contains("<!-- tt-demo:gallery:end -->"));
}

#[test]
fn splice_errors_without_markers() {
    assert!(splice("# no markers here", "X").is_err());
}

#[test]
fn splice_exact_and_repeatable() {
    let readme = format!("a\n{BEGIN}x{END}b");
    let once = splice(&readme, "B1  \n\n").unwrap();
    assert_eq!(once, format!("a\n{BEGIN}\nB1\n{END}b"));
    let twice = splice(&once, "B1  \n\n").unwrap();
    assert_eq!(twice, once);
}

#[test]
fn splice_error_kinds() {
    assert_eq!(splice("nothing", "x").unwrap_err(), SpliceError::MissingBegin);
    assert_eq!(splice(BEGIN, "x").unwrap_err(), SpliceError::MissingEnd);
    let swapped = format!("{END}\n{BEGIN}");
    assert_eq!(splice(&swapped, "x").unwrap_err(), SpliceError::OutOfOrder);
    assert_eq!(SpliceError::OutOfOrder.message(), "gallery markers are out of order");
}

#[test]
fn publishing_nothing_is_refused() {
    let e = require_published(&[]).unwrap_err();
    assert_eq!(e.message(), "nothing published: no scene in the selection has a rendered artifact");
    assert!(require_published(&[("a".to_string(), "site/a.gif".to_string())]).is_ok());
}
