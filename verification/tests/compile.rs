use tt_demo::compile::{compile_scene, debug_quote, interp, template_name, CompileError};
use tt_demo::manifest::{Defaults, Engine, Layout, Manifest, Pane, Scene};

const TAPE: &str = "Output {{ out_gif }}\n{% if want_mp4 %}Output {{ out_mp4 }}\n{% endif %}Source {{ theme_tape }}\nSet Width {{ width }}\nSet Height {{ height }}\nSet TypingSpeed {{ typing_speed }}\nSet PlaybackSpeed {{ playback_speed }}\nType \"{{ right_run }}\"\nSleep {{ duration_s }}s\n";

const DRIVER: &str = "ID={{ id }}\nLAYOUT={{ layout }}\nSIZE={{ width }}x{{ height }}\nRATIO={{ split_ratio }}\nLEFT={{ left_run_q }}\nRIGHT={{ right_run_q }}\nDUR={{ duration_s }}\n";

fn pane(run: &str) -> Pane {
    Pane { run: run.to_string(), ready: None, wait_for: None, keys: None }
}

fn scene(id: &str, layout: Layout) -> Scene {
    Scene {
        id: id.to_string(),
        title: None,
        engine: Engine::Auto,
        layout,
        server: None,
        left: None,
        right: None,
        split_ratio: None,
        duration: None,
        caption: None,
        outputs: None,
        raw_tape: None,
        raw_script: None,
    }
}

fn m() -> Manifest {
    let mut defaults = Defaults::default();
    defaults.backend = Some("--host".to_string());
    defaults.cols = Some(180);
    defaults.rows = Some(44);
    let mut single1 = scene("single1", Layout::Single);
    single1.duration = Some("5s".to_string());
    single1.right = Some(pane("tt-toplike {backend}"));
    let mut split1 = scene("split1", Layout::Split);
    split1.left = Some(pane("echo hi"));
    split1.right = Some(pane("tt-toplike {backend}"));
    Manifest::from_parsed(Manifest {
        project: "p".to_string(),
        theme: "tt-brand".to_string(),
        defaults,
        servers: vec![],
        scenes: vec![single1, split1],
    })
    .unwrap()
}

#[test]
fn single_scene_compiles_to_tape_with_backend_interpolated() {
    let man = m();
    let s = man.scene("single1").unwrap();
    assert_eq!(template_name(s.resolved_engine()), "tape.j2");
    let c = compile_scene(s, &man, TAPE).unwrap();
    assert_eq!(c.kind, "tape");
    assert!(c.text.contains("tt-toplike --host"), "backend token must interpolate");
    assert!(c.text.contains("Source"), "must source a theme tape");
}

#[test]
fn split_scene_compiles_to_driver() {
    let man = m();
    let s = man.scene("split1").unwrap();
    assert_eq!(template_name(s.resolved_engine()), "asciinema-driver.sh.j2");
    let c = compile_scene(s, &man, DRIVER).unwrap();
    assert_eq!(c.kind, "driver");
    assert!(c.text.contains("LAYOUT=split"));
    assert!(c.text.contains("echo hi"));
}

#[test]
fn tape_context_values() {
    let man = m();
    let c = compile_scene(man.scene("single1").unwrap(), &man, TAPE).unwrap();
    assert_eq!(c.engine, Engine::Vhs);
    assert_eq!(
        c.text,
        "Output demo/assets/single1.gif\nSource themes/tt-brand.tape\nSet Width 180\nSet Height 44\nSet TypingSpeed 60ms\nSet PlaybackSpeed 1.0\nType \"tt-toplike --host\"\nSleep 5s"
    );
}

#[test]
fn driver_context_values() {
    let man = m();
    let c = compile_scene(man.scene("split1").unwrap(), &man, DRIVER).unwrap();
    assert_eq!(c.engine, Engine::Asciinema);
    assert_eq!(
        c.text,
        "ID=split1\nLAYOUT=split\nSIZE=180x44\nRATIO=40\nLEFT=\"echo hi\"\nRIGHT=\"tt-toplike --host\"\nDUR=8"
    );
}

#[test]
fn compile_errors() {
    let man = m();
    let mut raw = scene("raw", Layout::Single);
    raw.raw_tape = Some("x.tape".to_string());
    let e = compile_scene(&raw, &man, TAPE).unwrap_err();
    assert_eq!(e.message(), "scene needs right pane");
    match compile_scene(man.scene("single1").unwrap(), &man, "{% if %}") {
        Err(CompileError::Template(_)) => {}
        other => panic!("expected a template error, got {other:?}"),
    }
}

#[test]
fn interp_replaces_every_token() {
    assert_eq!(interp("a {backend} b {backend}", "X"), "a X b X");
    assert_eq!(interp("{backend", "X"), "{backend");
    assert_eq!(interp("{{backend}}", ""), "{}");
    assert_eq!(interp("plain", "X"), "plain");
}

#[test]
fn debug_quote_escapes() {
    assert_eq!(debug_quote("say \"hi\"\n"), "\"say \\\"hi\\\"\\n\"");
}
