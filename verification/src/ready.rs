//! Tiered readiness: a log marker (regex) and an HTTP health body (JSON).
use vstd::prelude::*;

verus! {

/// A top-level field of a JSON object, as far as readiness reads it.
#[derive(Debug)]
pub enum JsonScalar {
    Bool(bool),
    Text(String),
    /// A number, as the bit pattern of its `f64` value (`None` when it has none).
    Number(Option<u64>),
    /// An array, object or null.
    Other,
}

pub enum JsonScalarView {
    Bool(bool),
    Text(Seq<char>),
    Number(Option<u64>),
    Other,
}

impl View for JsonScalar {
    type V = JsonScalarView;

    open spec fn view(&self) -> JsonScalarView {
        match self {
            JsonScalar::Bool(b) => JsonScalarView::Bool(*b),
            JsonScalar::Text(s) => JsonScalarView::Text(s@),
            JsonScalar::Number(n) => JsonScalarView::Number(*n),
            JsonScalar::Other => JsonScalarView::Other,
        }
    }
}

/// What `serde_json` reads from `body` under the top-level key `key`: `None`
/// when `body` is not JSON, `Some(None)` when it has no such field.
pub uninterp spec fn json_field_of(body: Seq<char>, key: Seq<char>) -> Option<Option<JsonScalarView>>;

pub open spec fn field_view(r: Option<Option<JsonScalar>>) -> Option<Option<JsonScalarView>> {
    match r {
        None => None,
        Some(None) => Some(None),
        Some(Some(v)) => Some(Some(v@)),
    }
}

/// `serde_json::from_str::<Value>(body)` then `Value::get(key)`.
#[verifier::external_body]
pub fn json_field(body: &str, key: &str) -> (r: Option<Option<JsonScalar>>)
    ensures
        field_view(r) == json_field_of(body@, key@),
{
    let v: serde_json::Value = match serde_json::from_str(body) {
        Ok(v) => v,
        Err(_) => return None,
    };
    Some(v.get(key).map(|x| match x {
        serde_json::Value::Bool(b) => JsonScalar::Bool(*b),
        serde_json::Value::String(s) => JsonScalar::Text(s.clone()),
        serde_json::Value::Number(n) => JsonScalar::Number(n.as_f64().map(|x| x.to_bits())),
        serde_json::Value::Null => JsonScalar::Other,
        serde_json::Value::Array(_) => JsonScalar::Other,
        serde_json::Value::Object(_) => JsonScalar::Other,
    }))
}

/// A field counts as true: `true`, a string other than `""` and `"false"`,
/// or a number other than zero.
pub open spec fn truthy(f: Option<JsonScalarView>) -> bool {
    match f {
        Some(JsonScalarView::Bool(b)) => b,
        Some(JsonScalarView::Text(s)) => s.len() > 0 && s != "false"@,
        Some(JsonScalarView::Number(Some(bits))) => bits & 0x7fff_ffff_ffff_ffffu64 != 0,
        _ => false,
    }
}

/// The health verdict from the two lookups: `runner` is the `runner_in_use`
/// lookup (`None`: the body is not JSON), `ready` the `ready_field` lookup
/// (`None`: no ready field is asked for). Healthy when the body is JSON, the
/// ready field (when asked for) is present and truthy, and `runner_in_use`
/// (when `runner_key` is given) is exactly `runner_key`.
pub open spec fn health_verdict(
    runner: Option<Option<JsonScalarView>>,
    ready: Option<Option<Option<JsonScalarView>>>,
    runner_key: Option<Seq<char>>,
) -> bool {
    match runner {
        None => false,
        Some(r) => {
            &&& match ready {
                None => true,
                Some(Some(v)) => truthy(v),
                Some(None) => false,
            }
            &&& match runner_key {
                None => true,
                Some(k) => r == Some(JsonScalarView::Text(k)),
            }
        },
    }
}

/// The health body is JSON, its `ready_field` (when given) is truthy and its
/// `runner_in_use` (when `runner_key` is given) is exactly `runner_key`.
pub open spec fn health_ok_of(body: Seq<char>, ready_field: Option<Seq<char>>, runner_key: Option<Seq<char>>) -> bool {
    health_verdict(
        json_field_of(body, "runner_in_use"@),
        match ready_field {
            None => None,
            Some(f) => Some(json_field_of(body, f)),
        },
        runner_key,
    )
}

pub open spec fn opt_str_view(o: Option<&str>) -> Option<Seq<char>> {
    match o {
        Some(s) => Some(s@),
        None => None,
    }
}

fn is_truthy(f: &Option<JsonScalar>) -> (b: bool)
    ensures
        b == truthy(match f {
            Some(v) => Some(v@),
            None => None,
        }),
{
    match f {
        Some(JsonScalar::Bool(b)) => *b,
        Some(JsonScalar::Text(s)) => !s.as_str().is_empty() && !crate::manifest::str_equal(
            s.as_str(),
            "false",
        ),
        Some(JsonScalar::Number(Some(bits))) => *bits & 0x7fff_ffff_ffff_ffffu64 != 0,
        _ => false,
    }
}

/// The health verdict, given the two field lookups (see `health_verdict`).
pub fn health_ok_given(
    runner: Option<Option<JsonScalar>>,
    ready: Option<Option<Option<JsonScalar>>>,
    runner_key: Option<&str>,
) -> (b: bool)
    ensures
        b == health_verdict(
            field_view(runner),
            match ready {
                None => None,
                Some(f) => Some(field_view(f)),
            },
            opt_str_view(runner_key),
        ),
{
    let runner = match runner {
        None => {
            return false;
        },
        Some(r) => r,
    };
    match ready {
        Some(Some(v)) => {
            if !is_truthy(&v) {
                return false;
            }
        },
        Some(None) => {
            return false;
        },
        None => {},
    }
    match runner_key {
        Some(k) => match &runner {
            Some(JsonScalar::Text(s)) => crate::manifest::str_equal(s.as_str(), k),
            _ => false,
        },
        None => true,
    }
}

/// Pure predicate over a health JSON body.
pub fn health_ok(body: &str, ready_field: Option<&str>, runner_key: Option<&str>) -> (b: bool)
    ensures
        b == health_ok_of(body@, opt_str_view(ready_field), opt_str_view(runner_key)),
{
    let runner = json_field(body, "runner_in_use");
    let ready = match ready_field {
        Some(f) => Some(json_field(body, f)),
        None => None,
    };
    health_ok_given(runner, ready, runner_key)
}

/// Whether `pattern` (a `regex` crate pattern) matches somewhere in `text`;
/// `None` when the pattern does not compile.
pub uninterp spec fn regex_search_of(pattern: Seq<char>, text: Seq<char>) -> Option<bool>;

#[verifier::external_type_specification]
#[verifier::external_body]
pub struct ExRegexError(regex::Error);

/// `regex::Regex::new(pattern)` then `Regex::is_match(text)`.
#[verifier::external_body]
pub fn regex_is_match(pattern: &str, text: &str) -> (r: Result<bool, regex::Error>)
    ensures
        match r {
            Ok(b) => regex_search_of(pattern@, text@) == Some(b),
            Err(_) => regex_search_of(pattern@, text@) is None,
        },
{
    regex::Regex::new(pattern).map(|re| re.is_match(text))
}

/// A log-marker pattern that does not compile.
#[derive(Debug)]
pub struct BadRegex {
    pub pattern: String,
    /// What the regex compiler said.
    pub cause: String,
}

impl BadRegex {
    pub fn message(&self) -> (r: String)
        ensures
            r@ == "bad regex: "@ + self.pattern@,
    {
        String::from_str("bad regex: ").concat(self.pattern.as_str())
    }
}

/// Does the log match the marker pattern?
pub fn log_matches(log: &str, pattern: &str) -> (r: Result<bool, BadRegex>)
    ensures
        match r {
            Ok(b) => regex_search_of(pattern@, log@) == Some(b),
            Err(e) => regex_search_of(pattern@, log@) is None && e.pattern@ == pattern@,
        },
{
    match regex_is_match(pattern, log) {
        Ok(b) => Ok(b),
        Err(e) => Err(BadRegex { pattern: String::from_str(pattern), cause: e.to_string() }),
    }
}

/// What to do after one health probe.
#[derive(Debug, PartialEq, Eq, Structural)]
pub enum PollOutcome {
    /// The health check passed.
    Ready,
    /// Out of time: a clear failure.
    TimedOut,
    /// Wait and probe again.
    Retry,
}

/// One round of polling: the probe's body (`None` when the request or its
/// body failed) and the time spent so far decide the next move.
pub fn poll_step(
    body: Option<&str>,
    ready_field: Option<&str>,
    runner_key: Option<&str>,
    elapsed_nanos: u128,
    timeout_nanos: u128,
) -> (r: PollOutcome)
    ensures
        r == if body is Some && health_ok_of(
            body->0@,
            opt_str_view(ready_field),
            opt_str_view(runner_key),
        ) {
            PollOutcome::Ready
        } else if elapsed_nanos >= timeout_nanos {
            PollOutcome::TimedOut
        } else {
            PollOutcome::Retry
        },
{
    match body {
        Some(b) => {
            if health_ok(b, ready_field, runner_key) {
                return PollOutcome::Ready;
            }
        },
        None => {},
    }
    if elapsed_nanos >= timeout_nanos {
        PollOutcome::TimedOut
    } else {
        PollOutcome::Retry
    }
}

} // verus!
