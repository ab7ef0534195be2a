use tt_demo::manifest::{Defaults, Engine, Layout, Manifest, Pane, RenderOpts, Scene, Speed};
use tt_demo::paths::join;
use tt_demo::render::{agg_env, agg_theme_path, render_target, render_target_given};

fn manifest(theme: &str, render: Option<RenderOpts>) -> Manifest {
    let mut defaults = Defaults::default();
    defaults.render = render;
    Manifest {
        project: "d".to_string(),
        theme: theme.to_string(),
        defaults,
        servers: vec![],
        scenes: vec![Scene {
            id: "x".to_string(),
            title: None,
            engine: Engine::Auto,
            layout: Layout::Single,
            server: None,
            left: None,
            right: Some(Pane { run: "r".to_string(), ready: None, wait_for: None, keys: None }),
            split_ratio: None,
            duration: None,
            caption: None,
            outputs: None,
            raw_tape: None,
            raw_script: None,
        }],
    }
}

#[test]
fn render_target_prefers_min_cast() {
    let dir = "/tmp/tt-demo-render-test";
    // Only the raw cast exists -> use it.
    let (cast, out) = render_target_given("s", "gif", dir, false);
    assert_eq!(cast, "/tmp/tt-demo-render-test/s.cast");
    assert_eq!(out, "/tmp/tt-demo-render-test/s.gif");
    // Once the compressed cast shows up too, prefer it.
    let (cast, out) = render_target_given("s", "gif", dir, true);
    assert_eq!(cast, "/tmp/tt-demo-render-test/s.min.cast");
    assert_eq!(out, "/tmp/tt-demo-render-test/s.gif");
    // Nothing on disk: the raw cast is the target.
    let (cast, out) = render_target("s", "gif", "/nonexistent-tt-demo-dir");
    assert_eq!(cast, "/nonexistent-tt-demo-dir/s.cast");
    assert_eq!(out, "/nonexistent-tt-demo-dir/s.gif");
}

#[test]
fn agg_env_includes_theme_and_render_opts() {
    // The theme file of theme `tb` holds this text.
    let theme_text = "0F2A35,E8F0F2,0F2A35\n";
    let speed = Speed { bits: 1.25f32.to_bits(), text: 1.25f32.to_string() };
    let m = manifest("tb", Some(RenderOpts { fps_cap: Some(10), font_size: Some(12), speed: Some(speed) }));
    assert_eq!(agg_theme_path(&m, "/home/me/tt-demo"), "/home/me/tt-demo/themes/tb.agg");
    let env = agg_env(&m, Some(theme_text));
    assert!(env.contains(&("AGG_THEME".into(), "0F2A35,E8F0F2,0F2A35".into())));
    assert!(env.contains(&("AGG_FPS_CAP".into(), "10".into())));
    assert!(env.contains(&("AGG_FONT_SIZE".into(), "12".into())));
    assert!(env.contains(&("AGG_SPEED".into(), "1.25".into())));

    // Unknown theme file -> no AGG_THEME pair, no error.
    let m2 = manifest("ghost", None);
    let env2 = agg_env(&m2, None);
    assert!(env2.iter().all(|(k, _)| k != "AGG_THEME"));
}

#[test]
fn agg_env_order_and_blank_theme() {
    let m = manifest("t", Some(RenderOpts { fps_cap: Some(65535), font_size: None, speed: None }));
    assert_eq!(agg_env(&m, Some(" \n\t")), vec![("AGG_FPS_CAP".to_string(), "65535".to_string())]);
    assert_eq!(
        agg_env(&m, Some("  a b  ")),
        vec![
            ("AGG_THEME".to_string(), "a b".to_string()),
            ("AGG_FPS_CAP".to_string(), "65535".to_string())
        ]
    );
    assert_eq!(agg_theme_path(&m, "/opt/tt"), "/opt/tt/themes/t.agg");
}

#[test]
fn render_target_given_paths() {
    assert_eq!(
        render_target_given("s", "mp4", "demo/assets", true),
        ("demo/assets/s.min.cast".to_string(), "demo/assets/s.mp4".to_string())
    );
    assert_eq!(
        render_target_given("s", "gif", "demo/assets/", false),
        ("demo/assets/s.cast".to_string(), "demo/assets/s.gif".to_string())
    );
}

#[test]
fn join_follows_path_join() {
    assert_eq!(join("a", "b"), "a/b");
    assert_eq!(join("a/", "b"), "a/b");
    assert_eq!(join("", "b"), "b");
    assert_eq!(join("a", "/b"), "/b");
    for (d, n) in [("x/y", "z.gif"), ("/", "q"), ("", ""), ("a", "")] {
        let expected = std::path::Path::new(d).join(n);
        assert_eq!(join(d, n), expected.to_str().unwrap());
    }
}
