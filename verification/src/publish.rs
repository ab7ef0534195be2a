//! The markdown gallery of published artifacts, and splicing it into a README
//! between marker comments.
use vstd::prelude::*;
use crate::manifest::{Manifest, lemma_scene_index_found, scene_index};
use crate::compile::opt_text;
use crate::text::{chars_of, contains_seq, find_chars, find_first, find_from, occurs_at, lemma_find_from_is_first, lemma_trim_end_idempotent, lemma_trim_end_prefix_of, lemma_find_from_found, push_all, slice_chars, string_of, trim_end, trim_end_str};

verus! {

/// Opening marker of the gallery region.
pub const BEGIN: &'static str = "<!-- tt-demo:gallery:begin -->";

/// Closing marker of the gallery region.
pub const END: &'static str = "<!-- tt-demo:gallery:end -->";

/// Why a splice was refused.
#[derive(Debug, PartialEq, Eq, Structural)]
pub enum SpliceError {
    MissingBegin,
    MissingEnd,
    OutOfOrder,
}

impl SpliceError {
    pub fn message(&self) -> (r: String)
        ensures
            *self == SpliceError::MissingBegin ==> r@ == "README is missing the begin marker"@,
            *self == SpliceError::MissingEnd ==> r@ == "README is missing the end marker"@,
            *self == SpliceError::OutOfOrder ==> r@ == "gallery markers are out of order"@,
    {
        match self {
            SpliceError::MissingBegin => String::from_str("README is missing the begin marker"),
            SpliceError::MissingEnd => String::from_str("README is missing the end marker"),
            SpliceError::OutOfOrder => String::from_str("gallery markers are out of order"),
        }
    }
}

/// Publishing refused: no scene of the selection had a rendered artifact.
#[derive(Debug)]
pub struct NothingPublished;

impl NothingPublished {
    pub fn message(&self) -> (r: String)
        ensures
            r@ == "nothing published: no scene in the selection has a rendered artifact"@,
    {
        String::from_str("nothing published: no scene in the selection has a rendered artifact")
    }
}

/// Publishing goes on only when at least one artifact was published.
pub fn require_published(entries: &[(String, String)]) -> (r: Result<(), NothingPublished>)
    ensures
        r is Ok <==> entries@.len() > 0,
{
    if entries.len() == 0 {
        Err(NothingPublished)
    } else {
        Ok(())
    }
}

pub open spec fn begin_marker() -> Seq<char> {
    "<!-- tt-demo:gallery:begin -->"@
}

pub open spec fn end_marker() -> Seq<char> {
    "<!-- tt-demo:gallery:end -->"@
}

/// The README with the text between the markers replaced by the block
/// (without its trailing whitespace) on lines of its own; the markers stay.
pub open spec fn spliced(readme: Seq<char>, block: Seq<char>) -> Result<Seq<char>, SpliceError> {
    match find_first(readme, begin_marker()) {
        None => Err(SpliceError::MissingBegin),
        Some(start) => match find_first(readme, end_marker()) {
            None => Err(SpliceError::MissingEnd),
            Some(end) => if end < start {
                Err(SpliceError::OutOfOrder)
            } else {
                Ok(
                    readme.subrange(0, (start + begin_marker().len()) as int) + seq!['\n'] + trim_end(block)
                        + seq!['\n'] + readme.subrange(end as int, readme.len() as int),
                )
            },
        },
    }
}

/// Replace the text between the gallery markers, keeping the markers.
pub fn splice(readme: &str, block: &str) -> (r: Result<String, SpliceError>)
    ensures
        match r {
            Ok(s) => spliced(readme@, block@) == Ok::<Seq<char>, SpliceError>(s@),
            Err(e) => spliced(readme@, block@) == Err::<Seq<char>, SpliceError>(e),
        },
{
    let text = chars_of(readme);
    let begin = chars_of(BEGIN);
    let end_m = chars_of(END);
    let start = match find_chars(&text, &begin) {
        Some(i) => i,
        None => {
            return Err(SpliceError::MissingBegin);
        },
    };
    let end = match find_chars(&text, &end_m) {
        Some(i) => i,
        None => {
            return Err(SpliceError::MissingEnd);
        },
    };
    if end < start {
        return Err(SpliceError::OutOfOrder);
    }
    proof {
        lemma_find_from_found(text@, begin@, 0);
        lemma_find_from_found(text@, end_m@, 0);
        assert(find_from(text@, begin@, 0) == Some(start as nat));
        assert(occurs_at(text@, begin@, start as int));
        assert(occurs_at(text@, end_m@, end as int));
        assert(start + begin@.len() <= text@.len());
    }
    assert(start + begin.len() <= text.len());
    let mut out = slice_chars(&text, 0, start + begin.len());
    out.push('\n');
    let trimmed = chars_of(trim_end_str(block).as_str());
    push_all(&mut out, &trimmed);
    out.push('\n');
    let tail = slice_chars(&text, end, text.len());
    push_all(&mut out, &tail);
    let r = string_of(out.as_slice());
    assert(r@ =~= text@.subrange(0, start + begin@.len()) + seq!['\n'] + trim_end(block@)
        + seq!['\n'] + text@.subrange(end as int, text@.len() as int));
    Ok(r)
}

/// The markdown for one published entry: bold title (the id when the scene
/// has none), ` — caption` when there is one, then the image.
pub open spec fn entry_md(m: Manifest, id: Seq<char>, path: Seq<char>) -> Seq<char> {
    let s = m.scenes@[scene_index(m.scenes@, id)->0 as int];
    let title = opt_text(s.title, id);
    "**"@ + title + "**"@ + match s.caption {
        Some(c) => " — "@ + c@,
        None => Seq::empty(),
    } + "\n\n!["@ + title + "]("@ + path + ")\n\n"@
}

/// The gallery for the first `n` entries.
pub open spec fn gallery(m: Manifest, entries: Seq<(String, String)>, n: nat) -> Seq<char>
    decreases n,
{
    if n == 0 {
        Seq::empty()
    } else {
        gallery(m, entries, (n - 1) as nat) + entry_md(m, entries[n - 1].0@, entries[n - 1].1@)
    }
}

/// Every entry names a scene of the manifest.
pub open spec fn entries_known(m: Manifest, entries: Seq<(String, String)>) -> bool {
    forall|i: int| 0 <= i < entries.len() ==> scene_index(m.scenes@, (#[trigger] entries[i]).0@) is Some
}

/// Markdown gallery for published entries (scene id, artifact path).
pub fn gallery_md(m: &Manifest, entries: &[(String, String)]) -> (md: String)
    requires
        entries_known(*m, entries@),
    ensures
        md@ == gallery(*m, entries@, entries@.len()),
{
    let mut md = String::new();
    let mut i: usize = 0;
    while i < entries.len()
        invariant
            i <= entries.len(),
            entries_known(*m, entries@),
            md@ == gallery(*m, entries@, i as nat),
        decreases entries.len() - i,
    {
        let id = &entries[i].0;
        let path = &entries[i].1;
        assert(scene_index(m.scenes@, entries@[i as int].0@) is Some);
        let s = match m.scene(id.as_str()) {
            Some(s) => s,
            None => {
                return md;
            },
        };
        let title: &str = match &s.title {
            Some(t) => t.as_str(),
            None => id.as_str(),
        };
        md.append("**");
        md.append(title);
        md.append("**");
        match &s.caption {
            Some(c) => {
                md.append(" — ");
                md.append(c.as_str());
            },
            None => {},
        }
        md.append("\n\n![");
        md.append(title);
        md.append("](");
        md.append(path.as_str());
        md.append(")\n\n");
        proof {
            let e = entry_md(*m, id@, path@);
            assert(md@ =~= gallery(*m, entries@, i as nat) + e);
        }
        i = i + 1;
    }
    md
}

proof fn lemma_gallery_prefix(m: Manifest, entries: Seq<(String, String)>, k: nat, n: nat)
    requires
        k <= n,
    ensures
        gallery(m, entries, n).len() >= gallery(m, entries, k).len(),
        gallery(m, entries, n).subrange(0, gallery(m, entries, k).len() as int) == gallery(m, entries, k),
    decreases n - k,
{
    if k < n {
        lemma_gallery_prefix(m, entries, k, (n - 1) as nat);
        let g = gallery(m, entries, (n - 1) as nat);
        let gk = gallery(m, entries, k);
        assert(gallery(m, entries, n).subrange(0, gk.len() as int) =~= g.subrange(0, gk.len() as int));
    } else {
        assert(gallery(m, entries, n).subrange(0, gallery(m, entries, n).len() as int) =~= gallery(
            m,
            entries,
            n,
        ));
    }
}

/// Each entry of the gallery, in order, right after those before it: the
/// scene's title (its id when it has none) in bold; then, whenever the scene
/// has a caption, whether or not it has a title, ` — ` and the caption; then
/// the image, with the title as its alt text and the entry's path.
pub proof fn law_gallery_entry(m: Manifest, entries: Seq<(String, String)>, k: int)
    requires
        0 <= k < entries.len(),
        scene_index(m.scenes@, entries[k].0@) is Some,
    ensures
        ({
            let s = m.scenes@[scene_index(m.scenes@, entries[k].0@)->0 as int];
            let title = match s.title {
                Some(t) => t@,
                None => entries[k].0@,
            };
            let text = "**"@ + title + "**"@ + match s.caption {
                Some(c) => " — "@ + c@,
                None => Seq::<char>::empty(),
            } + "\n\n!["@ + title + "]("@ + entries[k].1@ + ")\n\n"@;
            let before = gallery(m, entries, k as nat).len();
            &&& s.id@ == entries[k].0@
            &&& before + text.len() <= gallery(m, entries, entries.len()).len()
            &&& gallery(m, entries, entries.len()).subrange(before as int, (before + text.len()) as int) == text
        }),
{
    let n = entries.len();
    lemma_gallery_prefix(m, entries, (k + 1) as nat, n);
    lemma_scene_index_found(m.scenes@, entries[k].0@, 0);
    let gk = gallery(m, entries, k as nat);
    let g1 = gallery(m, entries, (k + 1) as nat);
    let e = entry_md(m, entries[k].0@, entries[k].1@);
    assert(g1 == gk + e);
    let g = gallery(m, entries, n);
    assert(g.subrange(gk.len() as int, (gk.len() + e.len()) as int) =~= g1.subrange(gk.len() as int, g1.len() as int));
    assert(g1.subrange(gk.len() as int, g1.len() as int) =~= e);
}

proof fn lemma_marker_facts()
    ensures
        begin_marker().len() == 30,
        end_marker().len() == 28,
        forall|i: int| 0 <= i < 28 ==> end_marker()[i] != '\n',
        forall|d: int| 0 <= d <= 2 ==> #[trigger] begin_marker().subrange(d, d + 28) != end_marker(),
{
    reveal_strlit("<!-- tt-demo:gallery:begin -->");
    reveal_strlit("<!-- tt-demo:gallery:end -->");
    assert forall|d: int| 0 <= d <= 2 implies #[trigger] begin_marker().subrange(d, d + 28) != end_marker() by {
        if d == 0 {
            assert(begin_marker().subrange(d, d + 28)[21] != end_marker()[21]);
        } else {
            assert(begin_marker().subrange(d, d + 28)[0] != end_marker()[0]);
        }
    }
}

/// Splicing is repeatable: splicing the same block into the result again
/// gives the result back, so both markers survive each splice. (A block that
/// itself holds the end marker would move the region's end; it is left out.)
pub proof fn law_splice_repeatable(readme: Seq<char>, block: Seq<char>)
    requires
        spliced(readme, block) is Ok,
        !contains_seq(block, end_marker()),
    ensures
        spliced(spliced(readme, block)->Ok_0, block) == spliced(readme, block),
        contains_seq(spliced(readme, block)->Ok_0, begin_marker()),
        contains_seq(spliced(readme, block)->Ok_0, end_marker()),
{
    lemma_marker_facts();
    let bm = begin_marker();
    let em = end_marker();
    lemma_find_from_found(readme, bm, 0);
    lemma_find_from_found(readme, em, 0);
    let start = find_first(readme, bm)->0 as int;
    let end = find_first(readme, em)->0 as int;
    let p_part = readme.subrange(0, start + 30);
    let t = trim_end(block);
    let s_part = readme.subrange(end, readme.len() as int);
    let out = p_part + seq!['\n'] + t + seq!['\n'] + s_part;
    assert(spliced(readme, block)->Ok_0 == out);
    let p = start + 30;
    let tl = t.len() as int;
    let end2 = p + 1 + tl + 1;
    lemma_trim_end_prefix_of(block);
    lemma_trim_end_idempotent(block);
    // The begin marker is first found where it was.
    assert(out.subrange(start, start + 30) =~= readme.subrange(start, start + 30));
    assert forall|j: int| 0 <= j < start implies !occurs_at(out, bm, j) by {
        assert(!occurs_at(readme, bm, j));
        assert(out.subrange(j, j + 30) =~= readme.subrange(j, j + 30));
    }
    lemma_find_from_is_first(out, bm, 0, start as nat);
    // The end marker is first found right after the block.
    assert(out.subrange(end2, end2 + 28) =~= readme.subrange(end, end + 28));
    assert forall|j: int| 0 <= j < end2 implies !occurs_at(out, em, j) by {
        if occurs_at(out, em, j) {
            let w = out.subrange(j, j + 28);
            if j + 28 <= p {
                assert(w =~= readme.subrange(j, j + 28));
                if j < start {
                    assert(occurs_at(readme, em, j));
                } else {
                    let d = j - start;
                    assert(bm.subrange(d, d + 28) =~= readme.subrange(j, j + 28));
                }
            } else if j <= p {
                assert(w[p - j] == out[p]);
                assert(out[p] == '\n');
            } else if j + 28 <= p + 1 + tl {
                assert(w =~= t.subrange(j - p - 1, j - p - 1 + 28));
                assert(block.subrange(j - p - 1, j - p - 1 + 28) =~= t.subrange(
                    j - p - 1,
                    j - p - 1 + 28,
                ));
                assert(occurs_at(block, em, j - p - 1));
            } else {
                assert(w[p + 1 + tl - j] == out[p + 1 + tl]);
                assert(out[p + 1 + tl] == '\n');
            }
        }
    }
    lemma_find_from_is_first(out, em, 0, end2 as nat);
    assert(out.subrange(0, start + 30) =~= p_part);
    assert(out.subrange(end2, out.len() as int) =~= s_part);
    assert(occurs_at(out, bm, start));
    assert(occurs_at(out, em, end2));
}

} // verus!
