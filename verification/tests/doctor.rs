use tt_demo::doctor::{check_deps, doctor_verdict, screen_capture_gaps, REQUIRED, SCREEN_CAPTURE};

#[test]
fn detects_present_and_absent_tools() {
    let out = check_deps(&["sh", "tt_demo_definitely_absent_xyz"]);
    assert_eq!(out.len(), 2);
    assert!(out[0].1, "sh should be found on PATH");
    assert!(!out[1].1, "bogus tool must be absent");
}

#[test]
fn check_deps_keeps_names_in_order() {
    let out = check_deps(&["tt_demo_absent_a", "tt_demo_absent_b"]);
    assert_eq!(out[0].0, "tt_demo_absent_a");
    assert_eq!(out[1].0, "tt_demo_absent_b");
}

#[test]
fn screen_capture_needs_a_backend_and_a_verifier() {
    let both = vec![("obs".to_string(), true), ("spectacle".to_string(), true)];
    assert!(screen_capture_gaps(&both, true).is_empty(), "obs + Pillow is usable");

    // One backend is enough; two is not required.
    let one = vec![("obs".to_string(), false), ("spectacle".to_string(), true)];
    assert!(screen_capture_gaps(&one, true).is_empty(), "spectacle alone is usable");

    // No backend at all, or nothing to check the frames with, is a gap.
    assert_eq!(screen_capture_gaps(&[], true).len(), 1);
    assert_eq!(screen_capture_gaps(&both, false).len(), 1);
    assert_eq!(screen_capture_gaps(&[], false).len(), 2);
}

#[test]
fn screen_capture_is_not_required() {
    for tool in SCREEN_CAPTURE.iter() {
        assert!(!REQUIRED.contains(tool), "{tool} must stay optional");
    }
}

#[test]
fn screen_capture_gap_messages() {
    let none = vec![("obs".to_string(), false), ("spectacle".to_string(), false)];
    let gaps = screen_capture_gaps(&none, false);
    assert_eq!(gaps[0], "no capture backend (obs for video, spectacle for stills)");
    assert_eq!(gaps[1], "python3 has no Pillow, so captures can't be verified");
}

#[test]
fn doctor_verdict_order_and_messages() {
    let deps = vec![("tmux".to_string(), true), ("vhs".to_string(), false), ("agg".to_string(), false)];
    let ok_deps = vec![("tmux".to_string(), true)];
    let gaps = vec!["a".to_string(), "b".to_string()];
    let e = doctor_verdict(&deps, &gaps, true).unwrap_err();
    assert_eq!(e.message(), "screen capture unusable: a; b");
    let e = doctor_verdict(&deps, &gaps, false).unwrap_err();
    assert_eq!(e.message(), "missing dependencies: vhs, agg");
    assert!(doctor_verdict(&ok_deps, &gaps, false).is_ok());
    assert!(doctor_verdict(&ok_deps, &[], true).is_ok());
}
