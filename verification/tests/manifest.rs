use tt_demo::manifest::{
    engine_name, Defaults, Engine, Layout, Manifest, Pane, Ready, RenderOpts, Scene, ServerDef, Speed,
};

fn pane(run: &str) -> Pane {
    Pane { run: run.to_string(), ready: None, wait_for: None, keys: None }
}

fn scene(id: &str) -> Scene {
    Scene {
        id: id.to_string(),
        title: None,
        engine: Engine::default(),
        layout: Layout::default(),
        server: None,
        left: None,
        right: None,
        split_ratio: None,
        duration: None,
        caption: None,
        outputs: None,
        raw_tape: None,
        raw_script: None,
    }
}

fn manifest(scenes: Vec<Scene>) -> Manifest {
    Manifest {
        project: "d".to_string(),
        theme: "t".to_string(),
        defaults: Defaults::default(),
        servers: vec![],
        scenes,
    }
}

fn speed(v: f32) -> Speed {
    Speed { bits: v.to_bits(), text: v.to_string() }
}

/// A valid two-scene manifest: a split scene gated on a server, and a raw tape.
fn valid() -> Manifest {
    let mut defaults = Defaults::default();
    defaults.cols = Some(200);
    defaults.rows = Some(50);
    defaults.backend = Some("--host".to_string());
    defaults.outputs = Some(vec!["cast".to_string(), "gif".to_string()]);
    let mut ready = Ready::default();
    ready.health_url = Some("http://h/live".to_string());
    ready.ready_field = Some("model_ready".to_string());
    let qwen3 = ServerDef { start: "srv up".to_string(), stop: None, ready: Some(ready) };
    let mut a = scene("a");
    a.layout = Layout::Split;
    a.server = Some("qwen3".to_string());
    let mut left = pane("srv up");
    left.wait_for = Some("ready".to_string());
    a.left = Some(left);
    a.right = Some(pane("tt-toplike --host"));
    let mut b = scene("b");
    b.raw_tape = Some("demo/raw/b.tape".to_string());
    Manifest {
        project: "demo".to_string(),
        theme: "tt-brand".to_string(),
        defaults,
        servers: vec![("qwen3".to_string(), qwen3)],
        scenes: vec![a, b],
    }
}

#[test]
fn parses_valid_manifest() {
    let m = Manifest::from_parsed(valid()).unwrap();
    assert_eq!(m.scenes.len(), 2);
    // wait_for sugar lands in ready.log
    let a = m.scene("a").unwrap();
    assert_eq!(a.left.as_ref().unwrap().ready.as_ref().unwrap().log.as_deref(), Some("ready"));
    assert!(a.left.as_ref().unwrap().wait_for.is_none());
}

#[test]
fn rejects_scene_with_both_declarative_and_raw() {
    let mut x = scene("x");
    x.right = Some(pane("r"));
    x.raw_tape = Some("t.tape".to_string());
    let err = Manifest::from_parsed(manifest(vec![x])).unwrap_err();
    assert!(err.message().contains("both"));
}

#[test]
fn rejects_scene_with_two_raw_hatches() {
    let mut x = scene("x");
    x.raw_tape = Some("a.tape".to_string());
    x.raw_script = Some("b.sh".to_string());
    let err = Manifest::from_parsed(manifest(vec![x])).unwrap_err();
    assert_eq!(
        err.message(),
        "scene x: has both raw_tape and raw_script; use exactly one raw hatch"
    );
}

#[test]
fn accepts_scene_with_one_raw_hatch() {
    let mut x = scene("x");
    x.raw_script = Some("b.sh".to_string());
    assert!(Manifest::from_parsed(manifest(vec![x])).is_ok());
}

#[test]
fn rejects_unknown_server_ref() {
    let mut x = scene("x");
    x.server = Some("ghost".to_string());
    x.right = Some(pane("r"));
    let err = Manifest::from_parsed(manifest(vec![x])).unwrap_err();
    assert!(err.message().contains("ghost"));
}

#[test]
fn rejects_duplicate_ids() {
    let mut x = scene("x");
    x.right = Some(pane("r"));
    let mut y = scene("x");
    y.right = Some(pane("r2"));
    let err = Manifest::from_parsed(manifest(vec![x, y])).unwrap_err();
    assert!(err.message().contains("duplicate"));
}

#[test]
fn engine_auto_split_is_asciinema() {
    let m = Manifest::from_parsed(valid()).unwrap();
    assert_eq!(m.scene("a").unwrap().resolved_engine(), Engine::Asciinema);
}

#[test]
fn engine_auto_raw_tape_is_vhs() {
    let m = Manifest::from_parsed(valid()).unwrap();
    assert_eq!(m.scene("b").unwrap().resolved_engine(), Engine::Vhs);
}

#[test]
fn parses_render_defaults() {
    let mut x = scene("x");
    x.right = Some(pane("r"));
    let mut m = manifest(vec![x]);
    m.defaults.render = Some(RenderOpts { fps_cap: Some(10), font_size: Some(12), speed: Some(speed(1.25)) });
    let m = Manifest::from_parsed(m).unwrap();
    let r = m.defaults.render.as_ref().unwrap();
    assert_eq!(r.fps_cap, Some(10));
    assert_eq!(r.font_size, Some(12));
    assert_eq!(f32::from_bits(r.speed.as_ref().unwrap().bits), 1.25);
}

#[test]
fn render_defaults_absent_is_none() {
    let m = Manifest::from_parsed(valid()).unwrap();
    assert!(m.defaults.render.is_none());
}

#[test]
fn rejects_zero_fps_cap_and_nonpositive_speed() {
    let mut x = scene("x");
    x.right = Some(pane("r"));
    let mut m = manifest(vec![x]);
    m.defaults.render = Some(RenderOpts { fps_cap: Some(0), font_size: None, speed: None });
    assert!(Manifest::from_parsed(m).unwrap_err().message().contains("fps_cap"));

    let mut x = scene("x");
    x.right = Some(pane("r"));
    let mut m = manifest(vec![x]);
    m.defaults.render = Some(RenderOpts { fps_cap: None, font_size: None, speed: Some(speed(0.0)) });
    assert!(Manifest::from_parsed(m).unwrap_err().message().contains("speed"));
}

#[test]
fn engine_explicit_overrides_auto() {
    let mut x = scene("x");
    x.engine = Engine::Vhs;
    x.layout = Layout::Split;
    x.right = Some(pane("r"));
    let m = Manifest::from_parsed(manifest(vec![x])).unwrap();
    assert_eq!(m.scene("x").unwrap().resolved_engine(), Engine::Vhs);
}

#[test]
fn speed_must_be_finite_and_positive() {
    for bad in [-1.0f32, f32::NAN, f32::INFINITY, -0.0] {
        let mut x = scene("x");
        x.right = Some(pane("r"));
        let mut m = manifest(vec![x]);
        m.defaults.render = Some(RenderOpts { fps_cap: None, font_size: None, speed: Some(speed(bad)) });
        assert_eq!(
            Manifest::from_parsed(m).unwrap_err().message(),
            "defaults.render.speed must be a positive number"
        );
    }
    let mut x = scene("x");
    x.right = Some(pane("r"));
    let mut m = manifest(vec![x]);
    m.defaults.render = Some(RenderOpts { fps_cap: None, font_size: Some(0), speed: Some(speed(f32::MIN_POSITIVE)) });
    assert_eq!(Manifest::from_parsed(m).unwrap_err().message(), "defaults.render.font_size must be >= 1");
}

#[test]
fn validation_error_messages() {
    let err = Manifest::from_parsed(manifest(vec![scene("")])).unwrap_err();
    assert_eq!(err.message(), "scene with empty id");
    let err = Manifest::from_parsed(manifest(vec![scene("lonely")])).unwrap_err();
    assert_eq!(err.message(), "scene lonely: needs a `right` pane or a raw hatch");
    let mut x = scene("x");
    x.right = Some(pane("r"));
    x.server = Some("ghost".to_string());
    let err = Manifest::from_parsed(manifest(vec![x])).unwrap_err();
    assert_eq!(err.message(), "scene x: references unknown server `ghost`");
}

#[test]
fn wait_for_keeps_an_existing_log_pattern() {
    let mut x = scene("x");
    let mut right = pane("r");
    let mut ready = Ready::default();
    ready.log = Some("first".to_string());
    right.ready = Some(ready);
    right.wait_for = Some("second".to_string());
    x.right = Some(right);
    let m = Manifest::from_parsed(manifest(vec![x])).unwrap();
    let p = m.scenes[0].right.as_ref().unwrap();
    assert_eq!(p.ready.as_ref().unwrap().log.as_deref(), Some("first"));
    assert!(p.wait_for.is_none());
}

#[test]
fn engine_auto_rules() {
    let mut x = scene("x");
    x.right = Some(pane("r"));
    assert_eq!(x.resolved_engine(), Engine::Vhs);
    x.right.as_mut().unwrap().keys = Some(vec!["q".to_string()]);
    assert_eq!(x.resolved_engine(), Engine::Asciinema);
    x.right.as_mut().unwrap().keys = Some(vec![]);
    assert_eq!(x.resolved_engine(), Engine::Vhs);
    let mut y = scene("y");
    y.raw_script = Some("demo/raw/k.sh".to_string());
    assert!(y.is_raw());
    assert_eq!(y.resolved_engine(), Engine::Asciinema);
    assert_eq!(engine_name(y.resolved_engine()), "asciinema");
    assert_eq!(engine_name(Engine::default()), "auto");
}

#[test]
fn selecting_scenes() {
    let m = Manifest::from_parsed(valid()).unwrap();
    assert_eq!(m.select_scenes(None).unwrap(), vec!["a".to_string(), "b".to_string()]);
    let picked = m.select_scenes(Some(vec!["b".to_string()])).unwrap();
    assert_eq!(picked, vec!["b".to_string()]);
    let err = m.select_scenes(Some(vec!["b".to_string(), "zz".to_string()])).unwrap_err();
    assert_eq!(err.message(), "unknown scene `zz`; valid: a, b");
    assert!(m.require_scene("a").is_ok());
    assert_eq!(m.require_scene("q").unwrap_err().id, "q");
    assert!(m.scene("nope").is_none());
}

#[test]
fn rejects_servers_out_of_name_order_or_repeated() {
    let srv = |n: &str| (n.to_string(), ServerDef { start: "up".to_string(), stop: None, ready: None });
    let mut m = manifest(vec![]);
    m.servers = vec![srv("b"), srv("a")];
    assert_eq!(
        Manifest::from_parsed(m).unwrap_err().message(),
        "servers: `a` is listed twice or out of name order"
    );
    let mut m = manifest(vec![]);
    m.servers = vec![srv("a"), srv("a")];
    assert!(Manifest::from_parsed(m).is_err());
    let mut m = manifest(vec![]);
    m.servers = vec![srv("Z"), srv("a"), srv("ab")];
    assert!(Manifest::from_parsed(m).is_ok());
}
