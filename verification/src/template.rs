//! Rendering text templates (minijinja) from plain context values.
use vstd::prelude::*;
use minijinja::Value;
use std::collections::BTreeMap;

verus! {

/// A value handed to a template.
#[derive(Debug)]
pub enum TemplateValue {
    Text(String),
    UInt(u64),
    Flag(bool),
    /// A list of records, each a map from field name to text.
    Records(Vec<Vec<(String, String)>>),
}

/// `TemplateValue` over string views.
pub enum TemplateValueView {
    Text(Seq<char>),
    UInt(u64),
    Flag(bool),
    Records(Seq<Seq<(Seq<char>, Seq<char>)>>),
}

pub open spec fn record_view(r: Vec<(String, String)>) -> Seq<(Seq<char>, Seq<char>)> {
    r@.map_values(|p: (String, String)| (p.0@, p.1@))
}

impl View for TemplateValue {
    type V = TemplateValueView;

    open spec fn view(&self) -> TemplateValueView {
        match self {
            TemplateValue::Text(s) => TemplateValueView::Text(s@),
            TemplateValue::UInt(n) => TemplateValueView::UInt(*n),
            TemplateValue::Flag(b) => TemplateValueView::Flag(*b),
            TemplateValue::Records(rs) => TemplateValueView::Records(
                rs@.map_values(|r: Vec<(String, String)>| record_view(r)),
            ),
        }
    }
}

/// The view of a template context.
pub open spec fn context_view(c: Seq<(String, TemplateValue)>) -> Seq<(Seq<char>, TemplateValueView)> {
    c.map_values(|p: (String, TemplateValue)| (p.0@, p.1@))
}

/// What minijinja renders for template `source` (added under the name `t`)
/// with these context values; `None` when the template does not parse or
/// rendering fails.
pub uninterp spec fn rendered(
    source: Seq<char>,
    context: Seq<(Seq<char>, TemplateValueView)>,
) -> Option<Seq<char>>;

#[verifier::external_type_specification]
#[verifier::external_body]
pub struct ExTemplateError(minijinja::Error);

/// `minijinja::Environment::add_template("t", source)`, then
/// `get_template("t")` and `render` with the context (each entry a top-level
/// variable), in a fresh environment. The result is stated only through the
/// name `rendered`.
#[verifier::external_body]
pub fn render_template(source: &str, context: &Vec<(String, TemplateValue)>) -> (r: Result<String, minijinja::Error>)
    ensures
        r is Ok <==> rendered(source@, context_view(context@)) is Some,
        r matches Ok(t) ==> rendered(source@, context_view(context@)) == Some(t@),
{
    let ctx: BTreeMap<&str, Value> = context.iter().map(|(k, v)| (k.as_str(), match v {
        TemplateValue::Text(s) => Value::from(s.as_str()),
        TemplateValue::UInt(n) => Value::from(*n),
        TemplateValue::Flag(b) => Value::from(*b),
        TemplateValue::Records(rs) => Value::from(rs.iter().map(|r| r.iter().map(|(a, b)| (a.clone(), b.clone())).collect::<BTreeMap<String, String>>()).collect::<Vec<_>>()),
    })).collect();
    let mut env = minijinja::Environment::new();
    env.add_template("t", source)?;
    env.get_template("t")?.render(ctx)
}

} // verus!
