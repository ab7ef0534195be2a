use tt_demo::verify::{artifact_choice, artifact_for};

#[test]
fn artifact_for_prefers_gif_over_mp4() {
    let dir = "/tmp/tt-demo-verify-test";
    // Nothing rendered -> None.
    assert!(artifact_choice("s", dir, false, false).is_none());
    assert!(artifact_for("s", "/nonexistent-tt-demo-dir").is_none());
    // Only mp4 -> mp4.
    assert_eq!(artifact_choice("s", dir, false, true), Some("/tmp/tt-demo-verify-test/s.mp4".to_string()));
    // gif appears -> prefer gif.
    assert_eq!(artifact_choice("s", dir, true, true), Some("/tmp/tt-demo-verify-test/s.gif".to_string()));
}

#[test]
fn artifact_choice_table() {
    assert_eq!(artifact_choice("s", "a", true, true), Some("a/s.gif".to_string()));
    assert_eq!(artifact_choice("s", "a", false, true), Some("a/s.mp4".to_string()));
    assert_eq!(artifact_choice("s", "a", false, false), None);
}
