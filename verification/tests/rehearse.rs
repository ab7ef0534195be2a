use tt_demo::manifest::{Defaults, Engine, Layout, Manifest, Pane, Scene};
use tt_demo::rehearse::{directive, directive_step, duration_cap_secs, DirectiveStep};

fn pane(run: &str) -> Pane {
    Pane { run: run.to_string(), ready: None, wait_for: None, keys: None }
}

fn scene(id: &str, layout: Layout) -> Scene {
    Scene {
        id: id.to_string(),
        title: None,
        engine: Engine::Auto,
        layout,
        server: None,
        left: None,
        right: None,
        split_ratio: None,
        duration: None,
        caption: None,
        outputs: None,
        raw_tape: None,
        raw_script: None,
    }
}

#[test]
fn directive_is_left_pane_of_split_else_right() {
    let mut defaults = Defaults::default();
    defaults.backend = Some("--host".to_string());
    let m = Manifest { project: "p".into(), theme: "t".into(), defaults, servers: vec![], scenes: vec![] };
    let mut split = scene("a", Layout::Split);
    split.left = Some(pane("load {backend}"));
    split.right = Some(pane("viz"));
    assert_eq!(directive(&m, &split).unwrap(), "load --host");
    let mut single = scene("b", Layout::Single);
    single.left = Some(pane("ignored"));
    single.right = Some(pane("viz {backend}"));
    assert_eq!(directive(&m, &single).unwrap(), "viz --host");
    let mut raw = scene("c", Layout::Single);
    raw.raw_script = Some("k.sh".into());
    assert_eq!(
        directive(&m, &raw).unwrap_err().message(),
        "scene `c` is a raw hatch — rehearse only supports declarative scenes"
    );
    let empty = scene("d", Layout::Split);
    assert_eq!(directive(&m, &empty).unwrap_err().message(), "scene has no pane to rehearse");
}

#[test]
fn duration_cap_adds_thirty_seconds() {
    assert_eq!(duration_cap_secs(None), 38);
    assert_eq!(duration_cap_secs(Some("90s")), 120);
    assert_eq!(duration_cap_secs(Some("5sss")), 35);
    assert_eq!(duration_cap_secs(Some("+7")), 37);
    assert_eq!(duration_cap_secs(Some("1m")), 38);
    assert_eq!(duration_cap_secs(Some("s")), 38);
    assert_eq!(duration_cap_secs(Some("-3s")), 38);
}

#[test]
fn directive_step_finishes_kills_or_samples() {
    assert_eq!(directive_step(Some(true), 3, 38), DirectiveStep::Finished { failed: false });
    assert_eq!(directive_step(Some(false), 99, 38), DirectiveStep::Finished { failed: true });
    assert_eq!(directive_step(None, 38, 38), DirectiveStep::Kill);
    assert_eq!(directive_step(None, 37, 38), DirectiveStep::Sample);
}
