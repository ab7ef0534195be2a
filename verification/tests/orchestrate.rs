use tt_demo::manifest::{Defaults, Engine, Layout, Manifest, Pane, Scene, ServerDef};
use tt_demo::orchestrate::{plan, Step};

fn scene(id: &str, server: Option<&str>) -> Scene {
    Scene {
        id: id.to_string(),
        title: None,
        engine: Engine::Auto,
        layout: Layout::Single,
        server: server.map(|s| s.to_string()),
        left: None,
        right: Some(Pane { run: "r".to_string(), ready: None, wait_for: None, keys: None }),
        split_ratio: None,
        duration: None,
        caption: None,
        outputs: None,
        raw_tape: None,
        raw_script: None,
    }
}

fn server(start: &str) -> ServerDef {
    ServerDef { start: start.to_string(), stop: None, ready: None }
}

fn m() -> Manifest {
    Manifest::from_parsed(Manifest {
        project: "p".to_string(),
        theme: "t".to_string(),
        defaults: Defaults::default(),
        servers: vec![("qwen3".to_string(), server("x")), ("skyreels".to_string(), server("y"))],
        scenes: vec![
            scene("a", Some("qwen3")),
            scene("b", Some("skyreels")),
            scene("c", Some("qwen3")),
            scene("d", None),
        ],
    })
    .unwrap()
}

#[test]
fn groups_by_server_minimizing_switches() {
    let m = m();
    let ids = vec!["a".to_string(), "b".to_string(), "c".to_string()];
    let steps = plan(&m, &ids);
    // Expect: switch qwen3, record a, record c, switch skyreels, record b
    assert_eq!(
        steps,
        vec![
            Step::Switch { server: Some("qwen3".into()) },
            Step::Record { scene: "a".into() },
            Step::Record { scene: "c".into() },
            Step::Switch { server: Some("skyreels".into()) },
            Step::Record { scene: "b".into() },
        ]
    );
}

#[test]
fn plan_drops_unknown_ids_and_groups_serverless_scenes() {
    let m = m();
    let ids = vec!["d".to_string(), "zz".to_string(), "b".to_string(), "d".to_string()];
    assert_eq!(
        plan(&m, &ids),
        vec![
            Step::Switch { server: None },
            Step::Record { scene: "d".into() },
            Step::Record { scene: "d".into() },
            Step::Switch { server: Some("skyreels".into()) },
            Step::Record { scene: "b".into() },
        ]
    );
    assert!(plan(&m, &[]).is_empty());
}
