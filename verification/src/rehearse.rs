//! The non-telemetry parts of rehearsing a scene: which command to run and
//! for how long at most.
use vstd::prelude::*;
use crate::compile::{backend_of, interp, interpolated, opt_text};
use crate::manifest::{Layout, Manifest, Scene, scene_is_raw};
use crate::text::{parse_u64, parsed_u64, trim_end_char, trim_end_char_str};

verus! {

/// Why a scene cannot be rehearsed.
#[derive(Debug)]
pub enum RehearseError {
    RawHatch(String),
    NoPane,
}

impl RehearseError {
    pub fn message(&self) -> (r: String)
        ensures
            self matches RehearseError::RawHatch(id) ==> r@ == "scene `"@ + id@
                + "` is a raw hatch — rehearse only supports declarative scenes"@,
            self is NoPane ==> r@ == "scene has no pane to rehearse"@,
    {
        match self {
            RehearseError::RawHatch(id) => String::from_str("scene `").concat(id.as_str()).concat(
                "` is a raw hatch — rehearse only supports declarative scenes",
            ),
            RehearseError::NoPane => String::from_str("scene has no pane to rehearse"),
        }
    }
}

/// The directive of a scene, the command that causes the reaction: the left
/// pane of a split scene, else the right pane; interpolated with the backend.
pub open spec fn directive_of(m: Manifest, s: Scene) -> Option<Seq<char>> {
    if s.layout == Layout::Split && s.left is Some {
        Some(interpolated(s.left->0.run@, backend_of(m)))
    } else if s.right is Some {
        Some(interpolated(s.right->0.run@, backend_of(m)))
    } else {
        None
    }
}

/// The command to rehearse for scene `s` of `m`.
pub fn directive(m: &Manifest, s: &Scene) -> (r: Result<String, RehearseError>)
    ensures
        match r {
            Ok(c) => !scene_is_raw(*s) && directive_of(*m, *s) == Some(c@),
            Err(RehearseError::RawHatch(id)) => scene_is_raw(*s) && id@ == s.id@,
            Err(RehearseError::NoPane) => !scene_is_raw(*s) && directive_of(*m, *s) is None,
        },
{
    if s.is_raw() {
        return Err(RehearseError::RawHatch(s.id.clone()));
    }
    let backend: &str = match &m.defaults.backend {
        Some(b) => b.as_str(),
        None => "",
    };
    proof {
        reveal_strlit("");
        assert(""@ =~= Seq::<char>::empty());
    }
    let pane = if s.layout == Layout::Split && s.left.is_some() {
        match &s.left {
            Some(p) => p,
            None => {
                return Err(RehearseError::NoPane);
            },
        }
    } else {
        match &s.right {
            Some(p) => p,
            None => {
                return Err(RehearseError::NoPane);
            },
        }
    };
    Ok(interp(pane.run.as_str(), backend))
}

/// The hard cap on a rehearsal, in seconds: the scene duration (default 8s,
/// when it parses as whole seconds) plus 30.
pub open spec fn duration_cap_of(duration: Option<Seq<char>>) -> int {
    let secs = match duration {
        Some(d) => match parsed_u64(trim_end_char(d, 's')) {
            Some(n) => n as int,
            None => 8,
        },
        None => 8,
    };
    secs + 30
}

pub fn duration_cap_secs(duration: Option<&str>) -> (r: u64)
    requires
        duration_cap_of(match duration {
            Some(d) => Some(d@),
            None => None,
        }) <= u64::MAX,
    ensures
        r as int == duration_cap_of(match duration {
            Some(d) => Some(d@),
            None => None,
        }),
{
    let secs: u64 = match duration {
        Some(d) => match parse_u64(trim_end_char_str(d, 's').as_str()) {
            Some(n) => n,
            None => 8,
        },
        None => 8,
    };
    secs + 30
}

/// What the rehearsal loop does next.
#[derive(Debug, Clone, Copy, PartialEq, Eq, Structural)]
pub enum DirectiveStep {
    /// The directive exited; `failed` when its status was not success.
    Finished { failed: bool },
    /// The directive outlived its cap: kill it and stop.
    Kill,
    /// Still running within the cap: take a telemetry sample, sleep a second.
    Sample,
}

/// The next step of the rehearsal loop: `exited` is the directive's exit
/// status if it has exited (`Some(success)`), `elapsed_secs` the whole
/// seconds since it started, `cap_secs` the cap from `duration_cap_secs`.
pub fn directive_step(exited: Option<bool>, elapsed_secs: u64, cap_secs: u64) -> (r: DirectiveStep)
    ensures
        r == match exited {
            Some(ok) => DirectiveStep::Finished { failed: !ok },
            None => if elapsed_secs >= cap_secs {
                DirectiveStep::Kill
            } else {
                DirectiveStep::Sample
            },
        },
{
    match exited {
        Some(ok) => DirectiveStep::Finished { failed: !ok },
        None => {
            if elapsed_secs >= cap_secs {
                DirectiveStep::Kill
            } else {
                DirectiveStep::Sample
            }
        },
    }
}

} // verus!
