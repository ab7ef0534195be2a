use tt_demo::manifest::{Defaults, Engine, Layout, Manifest, Pane, Scene};
use tt_demo::post::{assemble, Narrate};

const POST: &str = "# {{ project }}\n{% for s in scenes %}## {{ s.title }}\n{{ s.directive_clip }}\n{{ s.viz_clip }}\n{{ s.narration }}\n{% endfor %}";

fn manifest() -> Manifest {
    let s1 = Scene {
        id: "s1".to_string(),
        title: Some("Scene One".to_string()),
        engine: Engine::Auto,
        layout: Layout::Single,
        server: None,
        left: None,
        right: Some(Pane { run: "r".to_string(), ready: None, wait_for: None, keys: None }),
        split_ratio: None,
        duration: None,
        caption: Some("the cause and effect".to_string()),
        outputs: None,
        raw_tape: None,
        raw_script: None,
    };
    Manifest::from_parsed(Manifest {
        project: "proj".to_string(),
        theme: "t".to_string(),
        defaults: Defaults::default(),
        servers: vec![],
        scenes: vec![s1],
    })
    .unwrap()
}

#[test]
fn assembles_post_with_captions() {
    let m = manifest();
    let md = assemble(&m, &Narrate::Caption, POST, &vec![]).unwrap();
    assert!(md.contains("# proj"));
    assert!(md.contains("## Scene One"));
    assert!(md.contains("the cause and effect"));
    assert!(md.contains("demo/assets/s1.gif"));
}

#[test]
fn narration_modes() {
    let m = manifest();
    let md = assemble(&m, &Narrate::Agent("writer".to_string()), POST, &vec![]).unwrap();
    assert!(md.contains("<!-- narrate:writer s1 -->the cause and effect"));
    let md = assemble(&m, &Narrate::Local, POST, &vec![Some("Vivid.".to_string())]).unwrap();
    assert!(md.contains("\nVivid.\n"));
    assert!(!md.contains("the cause and effect"));
    let md = assemble(&m, &Narrate::Local, POST, &vec![None]).unwrap();
    assert!(md.contains("the cause and effect"));
    assert_eq!(
        assemble(&m, &Narrate::Caption, POST, &vec![]).unwrap(),
        "# proj\n## Scene One\n![s1 directive](demo/assets/s1-directive.gif)\n![s1 viz](demo/assets/s1.gif)\nthe cause and effect\n"
    );
}
