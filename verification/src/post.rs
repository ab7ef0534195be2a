//! Assemble the draft post from the manifest, captions and narration.
use vstd::prelude::*;
use crate::compile::opt_text;
use crate::manifest::{Manifest, Scene};
use crate::template::{TemplateValue, TemplateValueView, context_view, record_view, render_template, rendered};

verus! {

/// Where each scene's narration comes from.
#[derive(Debug)]
pub enum Narrate {
    /// The caption verbatim (the `none` mode).
    Caption,
    /// The local prompt-server's expansion of the caption, when it answered.
    Local,
    /// A marker for the named agent to fill, followed by the caption.
    Agent(String),
}

/// The narration of a scene; `local` is the prompt-server's answer for it.
pub open spec fn narration_of(s: Scene, narrate: Narrate, local: Option<Seq<char>>) -> Seq<char> {
    let cap = opt_text(s.caption, Seq::empty());
    match narrate {
        Narrate::Caption => cap,
        Narrate::Agent(name) => "<!-- narrate:"@ + name@ + " "@ + s.id@ + " -->"@ + cap,
        Narrate::Local => match local {
            Some(t) => t,
            None => cap,
        },
    }
}

/// The template record of one scene.
pub open spec fn scene_record(s: Scene, narrate: Narrate, local: Option<Seq<char>>) -> Seq<(Seq<char>, Seq<char>)> {
    seq![
        ("title"@, opt_text(s.title, s.id@)),
        ("directive_clip"@, "!["@ + s.id@ + " directive](demo/assets/"@ + s.id@ + "-directive.gif)"@),
        ("viz_clip"@, "!["@ + s.id@ + " viz](demo/assets/"@ + s.id@ + ".gif)"@),
        ("narration"@, narration_of(s, narrate, local)),
    ]
}

/// The prompt-server answer for scene `i` (none past the end of `local`).
pub open spec fn local_at(local: Seq<Option<String>>, i: int) -> Option<Seq<char>> {
    if 0 <= i < local.len() {
        match local[i] {
            Some(t) => Some(t@),
            None => None,
        }
    } else {
        None
    }
}

/// The post template's variables: the project and one record per scene.
pub open spec fn post_context(m: Manifest, narrate: Narrate, local: Seq<Option<String>>) -> Seq<(Seq<char>, TemplateValueView)> {
    seq![
        ("project"@, TemplateValueView::Text(m.project@)),
        ("scenes"@, TemplateValueView::Records(
            Seq::new(m.scenes@.len(), |i: int| scene_record(m.scenes@[i], narrate, local_at(local, i))),
        )),
    ]
}

/// Why the post could not be assembled.
#[derive(Debug)]
pub enum AssembleError {
    Template(String),
}

fn pair(k: &str, v: String) -> (r: (String, String))
    ensures
        r.0@ == k@,
        r.1@ == v@,
{
    (String::from_str(k), v)
}

fn scene_record_exec(s: &Scene, narrate: &Narrate, local: Option<&String>) -> (r: Vec<(String, String)>)
    ensures
        record_view(r) == scene_record(*s, *narrate, match local {
            Some(t) => Some(t@),
            None => None,
        }),
{
    let id = s.id.as_str();
    let cap = match &s.caption {
        Some(c) => c.clone(),
        None => String::new(),
    };
    let narration = match narrate {
        Narrate::Caption => cap,
        Narrate::Agent(name) => String::from_str("<!-- narrate:").concat(name.as_str()).concat(" ").concat(
            id,
        ).concat(" -->").concat(cap.as_str()),
        Narrate::Local => match local {
            Some(t) => t.clone(),
            None => cap,
        },
    };
    let title = match &s.title {
        Some(t) => t.clone(),
        None => s.id.clone(),
    };
    let mut r: Vec<(String, String)> = Vec::new();
    r.push(pair("title", title));
    r.push(pair("directive_clip", String::from_str("![").concat(id).concat(" directive](demo/assets/").concat(id).concat("-directive.gif)")));
    r.push(pair("viz_clip", String::from_str("![").concat(id).concat(" viz](demo/assets/").concat(id).concat(".gif)")));
    r.push(pair("narration", narration));
    proof {
        reveal_strlit("");
        assert(""@ =~= Seq::<char>::empty());
        let rv = record_view(r);
        let sr = scene_record(*s, *narrate, match local {
            Some(t) => Some(t@),
            None => None,
        });
        assert(rv.len() == 4);
        assert(rv[0] == sr[0]);
        assert(rv[1] == sr[1]);
        assert(rv[2] == sr[2]);
        assert(rv[3] == sr[3]);
        assert(rv =~= sr);
    }
    r
}

/// Render the post template with the manifest; `local` holds the local
/// prompt-server's narration for each scene (by position), used when
/// `narrate` is `Local`.
pub fn assemble(m: &Manifest, narrate: &Narrate, template: &str, local: &Vec<Option<String>>) -> (r: Result<String, AssembleError>)
    ensures
        match r {
            Ok(t) => rendered(template@, post_context(*m, *narrate, local@)) == Some(t@),
            Err(_) => rendered(template@, post_context(*m, *narrate, local@)) is None,
        },
{
    let mut records: Vec<Vec<(String, String)>> = Vec::new();
    let mut i: usize = 0;
    while i < m.scenes.len()
        invariant
            i <= m.scenes.len(),
            records@.len() == i,
            forall|j: int| 0 <= j < i ==> record_view(#[trigger] records@[j]) == scene_record(m.scenes@[j], *narrate, local_at(local@, j)),
        decreases m.scenes.len() - i,
    {
        let l: Option<&String> = if i < local.len() {
            match &local[i] {
                Some(t) => Some(t),
                None => None,
            }
        } else {
            None
        };
        records.push(scene_record_exec(&m.scenes[i], narrate, l));
        i = i + 1;
    }
    let mut ctx: Vec<(String, TemplateValue)> = Vec::new();
    ctx.push((String::from_str("project"), TemplateValue::Text(m.project.clone())));
    ctx.push((String::from_str("scenes"), TemplateValue::Records(records)));
    proof {
        let cv = context_view(ctx@);
        let pc = post_context(*m, *narrate, local@);
        assert(cv[1].1 == pc[1].1) by {
            if let TemplateValueView::Records(a) = cv[1].1 {
                if let TemplateValueView::Records(b) = pc[1].1 {
                    assert(a =~= b);
                }
            }
        }
        assert(cv =~= pc);
    }
    match render_template(template, &ctx) {
        Ok(t) => Ok(t),
        Err(e) => Err(AssembleError::Template(e.to_string())),
    }
}

/// The records of the post context's `scenes` entry (empty if it had none).
pub open spec fn post_records(m: Manifest, narrate: Narrate, local: Seq<Option<String>>) -> Seq<Seq<(Seq<char>, Seq<char>)>> {
    match post_context(m, narrate, local)[1].1 {
        TemplateValueView::Records(rs) => rs,
        _ => Seq::empty(),
    }
}

/// Every scene of the manifest gets a record in the post, in order, and its
/// `title` is the scene's title when it has one and the scene's id otherwise.
pub proof fn law_post_titles(m: Manifest, narrate: Narrate, local: Seq<Option<String>>, i: int)
    requires
        0 <= i < m.scenes@.len(),
    ensures
        post_context(m, narrate, local)[1].0 == "scenes"@,
        post_context(m, narrate, local)[1].1 is Records,
        post_records(m, narrate, local).len() == m.scenes@.len(),
        exists|k: int|
            0 <= k < post_records(m, narrate, local)[i].len() && (#[trigger] post_records(m, narrate, local)[i][k]).0
                == "title"@,
        forall|k: int|
            0 <= k < post_records(m, narrate, local)[i].len() && (#[trigger] post_records(m, narrate, local)[i][k]).0
                == "title"@ ==> post_records(m, narrate, local)[i][k].1 == match m.scenes@[i].title {
                Some(t) => t@,
                None => m.scenes@[i].id@,
            },
{
    let r = post_records(m, narrate, local)[i];
    reveal_strlit("title");
    reveal_strlit("directive_clip");
    reveal_strlit("viz_clip");
    reveal_strlit("narration");
    assert(r == scene_record(m.scenes@[i], narrate, local_at(local, i)));
    assert(r[0].0 == "title"@);
    assert forall|k: int| 0 <= k < r.len() && (#[trigger] r[k]).0 == "title"@ implies k == 0 by {
        if k != 0 {
            assert(r[k].0[0] != "title"@[0]);
        }
    }
}

} // verus!
