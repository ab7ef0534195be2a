//! Compile a scene into a VHS tape or an asciinema driver script.
use vstd::prelude::*;
use crate::manifest::{Engine, Layout, Manifest, Scene, resolved_engine_of, str_equal};
use crate::template::{TemplateValue, TemplateValueView, context_view, render_template, rendered};
use crate::text::{chars_of, contains_seq, lemma_replace_absent, replace_all, replace_chars, string_of, trim_end_char, trim_end_char_str};

verus! {

/// A compiled scene: its engine, the kind of text (`tape` or `driver`) and the text.
#[derive(Debug)]
pub struct Compiled {
    pub engine: Engine,
    pub kind: &'static str,
    pub text: String,
}

/// Why a scene did not compile.
#[derive(Debug)]
pub enum CompileError {
    MissingRightPane,
    Template(String),
}

impl CompileError {
    pub fn message(&self) -> (r: String)
        ensures
            self is MissingRightPane ==> r@ == "scene needs right pane"@,
            self matches CompileError::Template(t) ==> r@ == t@,
    {
        match self {
            CompileError::MissingRightPane => String::from_str("scene needs right pane"),
            CompileError::Template(t) => t.clone(),
        }
    }
}

/// `s` with every `{backend}` token replaced by `backend`.
pub open spec fn interpolated(s: Seq<char>, backend: Seq<char>) -> Seq<char> {
    replace_all(s, "{backend}"@, backend)
}

/// Interpolate the `{backend}` token.
pub fn interp(s: &str, backend: &str) -> (r: String)
    ensures
        r@ == interpolated(s@, backend@),
{
    let token = chars_of("{backend}");
    proof {
        reveal_strlit("{backend}");
    }
    let out = replace_chars(&chars_of(s), &token, &chars_of(backend));
    string_of(out.as_slice())
}

/// A command without the `{backend}` token is run as written.
pub proof fn law_interp_without_token(s: Seq<char>, backend: Seq<char>)
    requires
        !contains_seq(s, "{backend}"@),
    ensures
        interpolated(s, backend) == s,
{
    lemma_replace_absent(s, "{backend}"@, backend);
}

/// `format!("{:?}", s)`: `s` in double quotes with `str`'s `Debug` escapes.
pub uninterp spec fn debug_quoted(s: Seq<char>) -> Seq<char>;

/// `str`'s `Debug` formatting.
#[verifier::external_body]
pub fn debug_quote(s: &str) -> (r: String)
    ensures
        r@ == debug_quoted(s@),
{
    format!("{:?}", s)
}

/// The template file used for an engine.
pub fn template_name(engine: Engine) -> (r: &'static str)
    ensures
        engine == Engine::Vhs ==> r@ == "tape.j2"@,
        engine != Engine::Vhs ==> r@ == "asciinema-driver.sh.j2"@,
{
    if engine == Engine::Vhs {
        "tape.j2"
    } else {
        "asciinema-driver.sh.j2"
    }
}

pub open spec fn opt_text(o: Option<String>, default: Seq<char>) -> Seq<char> {
    match o {
        Some(s) => s@,
        None => default,
    }
}

/// The backend token value (empty when unset).
pub open spec fn backend_of(m: Manifest) -> Seq<char> {
    opt_text(m.defaults.backend, Seq::empty())
}

/// The scene duration in seconds as text: the duration (default `8s`) without trailing `s`.
pub open spec fn duration_text(s: Scene) -> Seq<char> {
    trim_end_char(opt_text(s.duration, "8s"@), 's')
}

pub open spec fn width_of(m: Manifest) -> u16 {
    match m.defaults.cols {
        Some(c) => c,
        None => 200,
    }
}

pub open spec fn height_of(m: Manifest) -> u16 {
    match m.defaults.rows {
        Some(r) => r,
        None => 50,
    }
}

/// The scene asks for an mp4 output.
pub open spec fn wants_mp4(s: Scene) -> bool {
    match s.outputs {
        Some(o) => exists|i: int| 0 <= i < o@.len() && (#[trigger] o@[i])@ == "mp4"@,
        None => false,
    }
}

/// The right pane's command, interpolated.
pub open spec fn right_run_of(s: Scene, m: Manifest) -> Seq<char> {
    interpolated(s.right->0.run@, backend_of(m))
}

/// The left pane's command, interpolated (empty without a left pane).
pub open spec fn left_run_of(s: Scene, m: Manifest) -> Seq<char> {
    match s.left {
        Some(p) => interpolated(p.run@, backend_of(m)),
        None => Seq::empty(),
    }
}

pub open spec fn layout_name(l: Layout) -> Seq<char> {
    match l {
        Layout::Single => "single"@,
        Layout::Split => "split"@,
    }
}

/// The variables of the VHS tape template.
pub open spec fn tape_context(s: Scene, m: Manifest) -> Seq<(Seq<char>, TemplateValueView)> {
    seq![
        ("out_gif"@, TemplateValueView::Text("demo/assets/"@ + s.id@ + ".gif"@)),
        ("out_mp4"@, TemplateValueView::Text("demo/assets/"@ + s.id@ + ".mp4"@)),
        ("want_mp4"@, TemplateValueView::Flag(wants_mp4(s))),
        ("theme_tape"@, TemplateValueView::Text("themes/"@ + m.theme@ + ".tape"@)),
        ("width"@, TemplateValueView::UInt(width_of(m) as u64)),
        ("height"@, TemplateValueView::UInt(height_of(m) as u64)),
        ("typing_speed"@, TemplateValueView::Text(opt_text(m.defaults.typing_speed, "60ms"@))),
        ("playback_speed"@, TemplateValueView::Text(opt_text(m.defaults.playback_speed, "1.0"@))),
        ("right_run"@, TemplateValueView::Text(right_run_of(s, m))),
        ("duration_s"@, TemplateValueView::Text(duration_text(s))),
    ]
}

/// The variables of the asciinema driver template.
pub open spec fn driver_context(s: Scene, m: Manifest) -> Seq<(Seq<char>, TemplateValueView)> {
    seq![
        ("id"@, TemplateValueView::Text(s.id@)),
        ("layout"@, TemplateValueView::Text(layout_name(s.layout))),
        ("width"@, TemplateValueView::UInt(width_of(m) as u64)),
        ("height"@, TemplateValueView::UInt(height_of(m) as u64)),
        ("duration_s"@, TemplateValueView::Text(duration_text(s))),
        ("split_ratio"@, TemplateValueView::UInt(
            match s.split_ratio {
                Some(r) => r as u64,
                None => 40,
            },
        )),
        ("left_run_q"@, TemplateValueView::Text(debug_quoted(left_run_of(s, m)))),
        ("right_run_q"@, TemplateValueView::Text(debug_quoted(right_run_of(s, m)))),
    ]
}

/// The context the scene's engine renders with.
pub open spec fn scene_context(s: Scene, m: Manifest) -> Seq<(Seq<char>, TemplateValueView)> {
    if resolved_engine_of(s) == Engine::Vhs {
        tape_context(s, m)
    } else {
        driver_context(s, m)
    }
}

fn opt_or(o: &Option<String>, default: &str) -> (r: String)
    ensures
        r@ == opt_text(*o, default@),
{
    match o {
        Some(s) => s.clone(),
        None => String::from_str(default),
    }
}

fn text(key: &str, value: String) -> (r: (String, TemplateValue))
    ensures
        r.0@ == key@,
        r.1@ == TemplateValueView::Text(value@),
{
    (String::from_str(key), TemplateValue::Text(value))
}

fn uint(key: &str, value: u64) -> (r: (String, TemplateValue))
    ensures
        r.0@ == key@,
        r.1@ == TemplateValueView::UInt(value),
{
    (String::from_str(key), TemplateValue::UInt(value))
}

fn wants_mp4_exec(s: &Scene) -> (b: bool)
    ensures
        b == wants_mp4(*s),
{
    match &s.outputs {
        Some(o) => {
            let mut i: usize = 0;
            while i < o.len()
                invariant
                    i <= o.len(),
                    s.outputs == Some(*o),
                    forall|j: int| 0 <= j < i ==> (#[trigger] o@[j])@ != "mp4"@,
                decreases o.len() - i,
            {
                if str_equal(o[i].as_str(), "mp4") {
                    assert(o@[i as int]@ == "mp4"@);
                    assert(s.outputs->0@[i as int]@ == "mp4"@);
                    assert(exists|j: int| 0 <= j < o@.len() && (#[trigger] o@[j])@ == "mp4"@);
                    return true;
                }
                i = i + 1;
            }
            false
        },
        None => false,
    }
}

fn push_entry(ctx: &mut Vec<(String, TemplateValue)>, e: (String, TemplateValue))
    ensures
        context_view(final(ctx)@) == context_view(old(ctx)@).push((e.0@, e.1@)),
{
    let ghost before = ctx@;
    ctx.push(e);
    assert(context_view(ctx@) =~= context_view(before).push((e.0@, e.1@)));
}

/// Compile `scene` of `m` with `template` (the text of the template file
/// named by `template_name` for the scene's engine).
pub fn compile_scene(scene: &Scene, m: &Manifest, template: &str) -> (r: Result<Compiled, CompileError>)
    ensures
        match r {
            Ok(c) => {
                &&& scene.right is Some
                &&& c.engine == resolved_engine_of(*scene)
                &&& c.kind@ == if c.engine == Engine::Vhs {
                    "tape"@
                } else {
                    "driver"@
                }
                &&& rendered(template@, scene_context(*scene, *m)) == Some(c.text@)
            },
            Err(CompileError::MissingRightPane) => scene.right is None,
            Err(CompileError::Template(_)) => {
                &&& scene.right is Some
                &&& rendered(template@, scene_context(*scene, *m)) is None
            },
        },
{
    let engine = scene.resolved_engine();
    let backend = opt_or(&m.defaults.backend, "");
    proof {
        reveal_strlit("");
        assert(""@ =~= Seq::<char>::empty());
    }
    let width: u16 = match m.defaults.cols {
        Some(c) => c,
        None => 200,
    };
    let height: u16 = match m.defaults.rows {
        Some(r) => r,
        None => 50,
    };
    let duration = opt_or(&scene.duration, "8s");
    let duration_s = trim_end_char_str(duration.as_str(), 's');
    let right_run = match &scene.right {
        Some(p) => interp(p.run.as_str(), backend.as_str()),
        None => {
            return Err(CompileError::MissingRightPane);
        },
    };
    let mut ctx: Vec<(String, TemplateValue)> = Vec::new();
    let kind: &'static str;
    if engine == Engine::Vhs {
        let id = scene.id.as_str();
        push_entry(&mut ctx, text("out_gif", String::from_str("demo/assets/").concat(id).concat(".gif")));
        push_entry(&mut ctx, text("out_mp4", String::from_str("demo/assets/").concat(id).concat(".mp4")));
        push_entry(&mut ctx, (String::from_str("want_mp4"), TemplateValue::Flag(wants_mp4_exec(scene))));
        push_entry(&mut ctx, text("theme_tape", String::from_str("themes/").concat(m.theme.as_str()).concat(".tape")));
        push_entry(&mut ctx, uint("width", width as u64));
        push_entry(&mut ctx, uint("height", height as u64));
        push_entry(&mut ctx, text("typing_speed", opt_or(&m.defaults.typing_speed, "60ms")));
        push_entry(&mut ctx, text("playback_speed", opt_or(&m.defaults.playback_speed, "1.0")));
        push_entry(&mut ctx, text("right_run", right_run));
        push_entry(&mut ctx, text("duration_s", duration_s));
        let ghost cv = context_view(ctx@);
        let ghost tc = tape_context(*scene, *m);
        assert(cv.len() == 10);
        assert(cv[0] == tc[0]);
        assert(cv[1] == tc[1]);
        assert(cv[2] == tc[2]);
        assert(cv[3] == tc[3]);
        assert(cv[4] == tc[4]);
        assert(cv[5] == tc[5]);
        assert(cv[6] == tc[6]);
        assert(cv[7] == tc[7]);
        assert(cv[8] == tc[8]);
        assert(cv[9] == tc[9]);
        assert(context_view(ctx@) =~= tape_context(*scene, *m));
        kind = "tape";
    } else {
        let left_run = match &scene.left {
            Some(p) => interp(p.run.as_str(), backend.as_str()),
            None => String::new(),
        };
        let layout = match scene.layout {
            Layout::Single => "single",
            Layout::Split => "split",
        };
        let split_ratio: u64 = match scene.split_ratio {
            Some(r) => r as u64,
            None => 40,
        };
        push_entry(&mut ctx, text("id", scene.id.clone()));
        push_entry(&mut ctx, text("layout", String::from_str(layout)));
        push_entry(&mut ctx, uint("width", width as u64));
        push_entry(&mut ctx, uint("height", height as u64));
        push_entry(&mut ctx, text("duration_s", duration_s));
        push_entry(&mut ctx, uint("split_ratio", split_ratio));
        push_entry(&mut ctx, text("left_run_q", debug_quote(left_run.as_str())));
        push_entry(&mut ctx, text("right_run_q", debug_quote(right_run.as_str())));
        let ghost cv = context_view(ctx@);
        let ghost dc = driver_context(*scene, *m);
        assert(cv.len() == 8);
        assert(cv[0] == dc[0]);
        assert(cv[1] == dc[1]);
        assert(cv[2] == dc[2]);
        assert(cv[3] == dc[3]);
        assert(cv[4] == dc[4]);
        assert(cv[5] == dc[5]);
        assert(cv[6] == dc[6]);
        assert(cv[7] == dc[7]);
        assert(context_view(ctx@) =~= driver_context(*scene, *m));
        kind = "driver";
    }
    match render_template(template, &ctx) {
        Ok(text) => Ok(Compiled { engine, kind, text }),
        Err(e) => Err(CompileError::Template(e.to_string())),
    }
}

/// A VHS scene asks its tape for an MP4 exactly when `mp4` is one of its
/// outputs, at any position: the tape context has a `want_mp4` flag, and
/// every `want_mp4` entry is true iff some output is `"mp4"`.
pub proof fn law_tape_wants_mp4_iff_listed(s: Scene, m: Manifest)
    requires
        resolved_engine_of(s) == Engine::Vhs,
    ensures
        exists|k: int| 0 <= k < scene_context(s, m).len() && (#[trigger] scene_context(s, m)[k]).0 == "want_mp4"@,
        forall|k: int|
            0 <= k < scene_context(s, m).len() && (#[trigger] scene_context(s, m)[k]).0 == "want_mp4"@
                ==> scene_context(s, m)[k].1 == TemplateValueView::Flag(
                match s.outputs {
                    Some(o) => exists|i: int| 0 <= i < o@.len() && (#[trigger] o@[i])@ == "mp4"@,
                    None => false,
                },
            ),
{
    let ctx = scene_context(s, m);
    reveal_strlit("want_mp4");
    reveal_strlit("out_gif");
    reveal_strlit("out_mp4");
    reveal_strlit("theme_tape");
    reveal_strlit("width");
    reveal_strlit("height");
    reveal_strlit("typing_speed");
    reveal_strlit("playback_speed");
    reveal_strlit("right_run");
    reveal_strlit("duration_s");
    assert(ctx[2].0 == "want_mp4"@);
    assert forall|k: int| 0 <= k < ctx.len() && (#[trigger] ctx[k]).0 == "want_mp4"@ implies k == 2 by {
        if k != 2 {
            assert(ctx[k].0[0] != "want_mp4"@[0] || ctx[k].0.len() != "want_mp4"@.len() || ctx[k].0[1]
                != "want_mp4"@[1] || ctx[k].0[2] != "want_mp4"@[2]);
        }
    }
}

} // verus!
