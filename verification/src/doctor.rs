//! Dependency preflight: the tool lists and the screen-capture verdict.
use vstd::prelude::*;
use crate::text::{join, join_strings, views};

verus! {

/// Whether `name` resolves to an executable (`which::which(name)` is `Ok`).
/// The answer depends on `PATH` and on what is installed, so nothing is stated of it.
#[verifier::external_body]
fn resolves_on_path(name: &str) -> bool {
    which::which(name).is_ok()
}

/// For each tool name, in order, the name and whether it resolves on `PATH`.
pub fn check_deps(names: &[&str]) -> (r: Vec<(String, bool)>)
    ensures
        r@.len() == names@.len(),
        forall|i: int| 0 <= i < names@.len() ==> (#[trigger] r@[i]).0@ == names@[i]@,
{
    let mut r: Vec<(String, bool)> = Vec::new();
    let mut i: usize = 0;
    while i < names.len()
        invariant
            i <= names@.len(),
            r@.len() == i,
            forall|j: int| 0 <= j < i ==> (#[trigger] r@[j]).0@ == names@[j]@,
        decreases names.len() - i,
    {
        let name: &str = names[i];
        let found = resolves_on_path(name);
        r.push((String::from_str(name), found));
        i = i + 1;
    }
    r
}

/// Required external tools for the full pipeline.
pub const REQUIRED: [&'static str; 7] = ["tmux", "asciinema", "agg", "ffmpeg", "vhs", "Xvfb", "xterm"];

/// Tools for the GUI/screen-capture path only (optional).
pub const SCREEN_CAPTURE: [&'static str; 2] = ["obs", "spectacle"];

pub open spec fn no_backend_gap() -> Seq<char> {
    "no capture backend (obs for video, spectacle for stills)"@
}

pub open spec fn no_pillow_gap() -> Seq<char> {
    "python3 has no Pillow, so captures can't be verified"@
}

/// Why the screen-capture path is unusable: no backend found, and/or no
/// Pillow to verify captures with. Empty when it is good to go.
pub open spec fn capture_gaps(found: Seq<(String, bool)>, pillow: bool) -> Seq<Seq<char>> {
    (if exists|i: int| 0 <= i < found.len() && (#[trigger] found[i]).1 {
        Seq::empty()
    } else {
        seq![no_backend_gap()]
    }) + if pillow {
        Seq::empty()
    } else {
        seq![no_pillow_gap()]
    }
}

/// Summarize the screen-capture path from the backend lookup and the Pillow check.
pub fn screen_capture_gaps(found: &[(String, bool)], pillow: bool) -> (gaps: Vec<String>)
    ensures
        views(gaps@) == capture_gaps(found@, pillow),
        gaps@.len() == 0 <==> pillow && exists|i: int| 0 <= i < found@.len() && (#[trigger] found@[i]).1,
{
    let mut gaps: Vec<String> = Vec::new();
    let mut any = false;
    let mut i: usize = 0;
    while i < found.len()
        invariant
            i <= found.len(),
            any == exists|j: int| 0 <= j < i && (#[trigger] found@[j]).1,
        decreases found.len() - i,
    {
        if found[i].1 {
            any = true;
        }
        i = i + 1;
    }
    if !any {
        gaps.push(String::from_str("no capture backend (obs for video, spectacle for stills)"));
    }
    let ghost mid = gaps@;
    if !pillow {
        gaps.push(String::from_str("python3 has no Pillow, so captures can't be verified"));
    }
    assert(views(gaps@) =~= capture_gaps(found@, pillow));
    gaps
}

/// The names of the tools that were not found, in order.
pub open spec fn missing_of(deps: Seq<(String, bool)>) -> Seq<Seq<char>>
    decreases deps.len(),
{
    if deps.len() == 0 {
        Seq::empty()
    } else {
        missing_of(deps.drop_last()) + if deps.last().1 {
            Seq::<Seq<char>>::empty()
        } else {
            seq![deps.last().0@]
        }
    }
}

/// Why the preflight failed.
#[derive(Debug)]
pub enum DoctorError {
    /// `--require-screen` was given and the screen-capture path has gaps.
    ScreenUnusable(Vec<String>),
    /// Required tools are missing.
    Missing(Vec<String>),
}

pub enum DoctorErrorView {
    ScreenUnusable(Seq<Seq<char>>),
    Missing(Seq<Seq<char>>),
}

impl View for DoctorError {
    type V = DoctorErrorView;

    open spec fn view(&self) -> DoctorErrorView {
        match self {
            DoctorError::ScreenUnusable(g) => DoctorErrorView::ScreenUnusable(views(g@)),
            DoctorError::Missing(m) => DoctorErrorView::Missing(views(m@)),
        }
    }
}

impl DoctorError {
    pub fn message(&self) -> (r: String)
        ensures
            r@ == match self@ {
                DoctorErrorView::ScreenUnusable(g) => "screen capture unusable: "@ + join(g, "; "@),
                DoctorErrorView::Missing(m) => "missing dependencies: "@ + join(m, ", "@),
            },
    {
        match self {
            DoctorError::ScreenUnusable(g) => String::from_str("screen capture unusable: ").concat(
                join_strings(g, "; ").as_str(),
            ),
            DoctorError::Missing(m) => String::from_str("missing dependencies: ").concat(
                join_strings(m, ", ").as_str(),
            ),
        }
    }
}

/// The verdict of the preflight: with `require_screen`, any screen-capture
/// gap fails it first; then any missing required tool fails it.
pub open spec fn doctor_verdict_of(
    deps: Seq<(String, bool)>,
    gaps: Seq<Seq<char>>,
    require_screen: bool,
) -> Result<(), DoctorErrorView> {
    if require_screen && gaps.len() > 0 {
        Err(DoctorErrorView::ScreenUnusable(gaps))
    } else if missing_of(deps).len() > 0 {
        Err(DoctorErrorView::Missing(missing_of(deps)))
    } else {
        Ok(())
    }
}

/// Pass or fail the preflight from the required-tool lookups and the
/// screen-capture gaps.
pub fn doctor_verdict(deps: &[(String, bool)], gaps: &[String], require_screen: bool) -> (r: Result<(), DoctorError>)
    ensures
        match r {
            Ok(()) => doctor_verdict_of(deps@, views(gaps@), require_screen) is Ok,
            Err(e) => doctor_verdict_of(deps@, views(gaps@), require_screen) == Err::<(), DoctorErrorView>(e@),
        },
{
    if require_screen && gaps.len() > 0 {
        let mut g: Vec<String> = Vec::new();
        let mut i: usize = 0;
        while i < gaps.len()
            invariant
                i <= gaps.len(),
                views(g@) == views(gaps@).subrange(0, i as int),
            decreases gaps.len() - i,
        {
            let ghost before = g@;
            g.push(gaps[i].clone());
            assert(views(g@) =~= views(before).push(gaps@[i as int]@));
            assert(views(gaps@).subrange(0, i + 1) =~= views(gaps@).subrange(0, i as int).push(gaps@[i as int]@));
            i = i + 1;
        }
        assert(views(gaps@).subrange(0, gaps@.len() as int) =~= views(gaps@));
        return Err(DoctorError::ScreenUnusable(g));
    }
    let mut missing: Vec<String> = Vec::new();
    let mut i: usize = 0;
    while i < deps.len()
        invariant
            i <= deps.len(),
            views(missing@) == missing_of(deps@.subrange(0, i as int)),
        decreases deps.len() - i,
    {
        let ghost before = missing@;
        assert(deps@.subrange(0, i + 1).drop_last() =~= deps@.subrange(0, i as int));
        if !deps[i].1 {
            missing.push(deps[i].0.clone());
            assert(views(missing@) =~= views(before).push(deps@[i as int].0@));
        }
        i = i + 1;
    }
    assert(deps@.subrange(0, deps@.len() as int) =~= deps@);
    if missing.len() > 0 {
        Err(DoctorError::Missing(missing))
    } else {
        Ok(())
    }
}

/// The screen-capture tools stay optional: none of them is required.
pub proof fn law_screen_capture_not_required()
    ensures
        forall|i: int, j: int|
            0 <= i < SCREEN_CAPTURE@.len() && 0 <= j < REQUIRED@.len() ==> (#[trigger] SCREEN_CAPTURE@[i])@
                != (#[trigger] REQUIRED@[j])@,
{
    reveal_strlit("tmux");
    reveal_strlit("asciinema");
    reveal_strlit("agg");
    reveal_strlit("ffmpeg");
    reveal_strlit("vhs");
    reveal_strlit("Xvfb");
    reveal_strlit("xterm");
    reveal_strlit("obs");
    reveal_strlit("spectacle");
    assert(REQUIRED@ =~= seq!["tmux", "asciinema", "agg", "ffmpeg", "vhs", "Xvfb", "xterm"]);
    assert(SCREEN_CAPTURE@ =~= seq!["obs", "spectacle"]);
    assert forall|i: int, j: int|
        0 <= i < SCREEN_CAPTURE@.len() && 0 <= j < REQUIRED@.len() implies (
        #[trigger] SCREEN_CAPTURE@[i])@ != (#[trigger] REQUIRED@[j])@ by {
        let a = SCREEN_CAPTURE@[i]@;
        let b = REQUIRED@[j]@;
        if a.len() == b.len() {
            assert(a[0] != b[0]);
        }
    }
}

} // verus!
