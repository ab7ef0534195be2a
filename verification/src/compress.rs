//! Output naming for idle-trimmed casts.
use vstd::prelude::*;
use crate::paths::{file_name, file_name_of, joined, plain_component, tidy_dir, with_file_name, with_file_name_of};
use crate::ready::opt_str_view;
use crate::render::min_cast_path;
use crate::text::{chars_of, ends_with, ends_with_str, slice_chars, string_of};

verus! {

/// Why no output path was derived.
#[derive(Debug)]
pub enum DefaultOutError {
    /// The path has no file name.
    BadPath(String),
    /// The file is already a `.min.cast`.
    AlreadyMin(String),
    /// The file is not a `.cast`.
    NotCast(String),
}

pub enum DefaultOutErrorView {
    BadPath(Seq<char>),
    AlreadyMin(Seq<char>),
    NotCast(Seq<char>),
}

impl View for DefaultOutError {
    type V = DefaultOutErrorView;

    open spec fn view(&self) -> DefaultOutErrorView {
        match self {
            DefaultOutError::BadPath(p) => DefaultOutErrorView::BadPath(p@),
            DefaultOutError::AlreadyMin(n) => DefaultOutErrorView::AlreadyMin(n@),
            DefaultOutError::NotCast(n) => DefaultOutErrorView::NotCast(n@),
        }
    }
}

impl DefaultOutError {
    pub fn message(&self) -> (r: String)
        ensures
            r@ == match self@ {
                DefaultOutErrorView::BadPath(p) => "bad cast path: "@ + p,
                DefaultOutErrorView::AlreadyMin(n) => n + " is already a compressed (.min.cast) file"@,
                DefaultOutErrorView::NotCast(n) => "expected a .cast file, got "@ + n,
            },
    {
        match self {
            DefaultOutError::BadPath(p) => String::from_str("bad cast path: ").concat(p.as_str()),
            DefaultOutError::AlreadyMin(n) => n.clone().concat(
                " is already a compressed (.min.cast) file",
            ),
            DefaultOutError::NotCast(n) => String::from_str("expected a .cast file, got ").concat(
                n.as_str(),
            ),
        }
    }
}

/// The trimmed-cast file name for a file named `name` (`None`: `input` has
/// no file name): `x.cast` becomes `x.min.cast`; a `.min.cast` or a
/// non-`.cast` file is refused.
pub open spec fn min_cast_name_of(input: Seq<char>, name: Option<Seq<char>>) -> Result<
    Seq<char>,
    DefaultOutErrorView,
> {
    match name {
        None => Err(DefaultOutErrorView::BadPath(input)),
        Some(name) => if ends_with(name, ".min.cast"@) {
            Err(DefaultOutErrorView::AlreadyMin(name))
        } else if !ends_with(name, ".cast"@) {
            Err(DefaultOutErrorView::NotCast(name))
        } else {
            Ok(name.subrange(0, name.len() - 5) + ".min.cast"@)
        },
    }
}

/// The trimmed-cast path for `input`: `x.cast` becomes `x.min.cast` in the
/// same directory; a `.min.cast` or a non-`.cast` file is refused.
pub open spec fn default_out_of(input: Seq<char>) -> Result<Seq<char>, DefaultOutErrorView> {
    match min_cast_name_of(input, file_name_of(input)) {
        Ok(n) => Ok(with_file_name_of(input, n)),
        Err(e) => Err(e),
    }
}

/// The trimmed-cast file name, given the file name of `input` (if any).
pub fn min_cast_name(input: &str, name: Option<&str>) -> (r: Result<String, DefaultOutError>)
    ensures
        match r {
            Ok(n) => min_cast_name_of(input@, opt_str_view(name)) == Ok::<Seq<char>, DefaultOutErrorView>(n@),
            Err(e) => min_cast_name_of(input@, opt_str_view(name)) == Err::<Seq<char>, DefaultOutErrorView>(e@),
        },
{
    let name = match name {
        Some(n) => n,
        None => {
            return Err(DefaultOutError::BadPath(String::from_str(input)));
        },
    };
    if ends_with_str(name, ".min.cast") {
        return Err(DefaultOutError::AlreadyMin(String::from_str(name)));
    }
    if !ends_with_str(name, ".cast") {
        return Err(DefaultOutError::NotCast(String::from_str(name)));
    }
    proof {
        reveal_strlit(".cast");
    }
    let cs = chars_of(name);
    let stem = string_of(slice_chars(&cs, 0, cs.len() - 5).as_slice());
    Ok(stem.concat(".min.cast"))
}

/// A file name with no `/` keeps none when it becomes its `.min.cast` name,
/// and that name is a normal component that is itself refused as compressed.
proof fn lemma_min_cast_name_plain(n: Seq<char>)
    requires
        plain_component(n),
        ends_with(n, ".cast"@),
    ensures
        plain_component(n.subrange(0, n.len() - 5) + ".min.cast"@),
        ends_with(n.subrange(0, n.len() - 5) + ".min.cast"@, ".min.cast"@),
{
    reveal_strlit(".cast");
    reveal_strlit(".min.cast");
    let stem = n.subrange(0, n.len() - 5);
    let m = stem + ".min.cast"@;
    assert(!m.contains('/')) by {
        if m.contains('/') {
            let i = choose|i: int| 0 <= i < m.len() && m[i] == '/';
            if i < stem.len() {
                assert(n[i] == '/');
            } else {
                assert(".min.cast"@[i - stem.len()] == '/');
            }
        }
    }
    assert(m.len() >= 9);
    assert(m != seq!['.']);
    assert(m != seq!['.', '.']);
    assert(m.subrange(m.len() - 9, m.len() as int) =~= ".min.cast"@);
}

/// Default output path for a trimmed cast.
pub fn default_out(input: &str) -> (r: Result<String, DefaultOutError>)
    ensures
        match r {
            Ok(o) => {
                &&& default_out_of(input@) == Ok::<Seq<char>, DefaultOutErrorView>(o@)
                // compressing never compounds: the output is itself refused as compressed
                &&& default_out_of(o@) matches Err(DefaultOutErrorView::AlreadyMin(_))
                &&& o@ != input@
            },
            Err(e) => default_out_of(input@) == Err::<Seq<char>, DefaultOutErrorView>(e@),
        },
        // a file `a` in a tidy directory `d` gets its output in `d` too
        forall|d: Seq<char>, a: Seq<char>|
            tidy_dir(d) && plain_component(a) && input@ == #[trigger] joined(d, a) && r is Ok ==> r->Ok_0@
                == joined(d, min_cast_name_of(input@, Some(a))->Ok_0),
        // `<dir>/<id>.cast` in a tidy directory becomes `<dir>/<id>.min.cast`,
        // the trimmed cast that rendering prefers
        forall|dir: Seq<char>, id: Seq<char>|
            tidy_dir(dir) && !id.contains('/') && !ends_with(id, ".min"@) && input@ == #[trigger] joined(
                dir,
                id + ".cast"@,
            ) ==> r is Ok && r->Ok_0@ == min_cast_path(id, dir),
{
    let fname = file_name(input);
    let name_ref: Option<&str> = match &fname {
        Some(n) => Some(n.as_str()),
        None => None,
    };
    let new_name = match min_cast_name(input, name_ref) {
        Ok(n) => n,
        Err(e) => {
            proof {
                assert forall|dir: Seq<char>, id: Seq<char>|
                    tidy_dir(dir) && !id.contains('/') && !ends_with(id, ".min"@) && input@
                        == #[trigger] joined(dir, id + ".cast"@) implies false by {
                    lemma_cast_name_plain(id);
                    lemma_cast_name_ends(id);
                }
            }
            return Err(e);
        },
    };
    let name = fname.unwrap();
    proof {
        lemma_min_cast_name_plain(name@);
    }
    let out = with_file_name(input, new_name.as_str());
    proof {
        assert(file_name_of(out@) == Some(new_name@));
        if out@ == input@ {
            assert(ends_with(name@, ".min.cast"@));
        }
        assert forall|d: Seq<char>, a: Seq<char>|
            tidy_dir(d) && plain_component(a) && input@ == #[trigger] joined(d, a) implies out@
                == joined(d, min_cast_name_of(input@, Some(a))->Ok_0) by {
            assert(name@ == a);
        }
        assert forall|dir: Seq<char>, id: Seq<char>|
            tidy_dir(dir) && !id.contains('/') && !ends_with(id, ".min"@) && input@ == #[trigger] joined(
                dir,
                id + ".cast"@,
            ) implies out@ == joined(dir, id + ".min.cast"@) by {
            lemma_cast_name_plain(id);
            assert(name@ == id + ".cast"@);
            reveal_strlit(".cast");
            reveal_strlit(".min.cast");
            assert(name@.subrange(0, name@.len() - 5) =~= id);
            assert(new_name@ == id + ".min.cast"@);
        }
    }
    Ok(out)
}

/// `<id>.cast` ends in `.cast`, and in `.min.cast` only when `id` ends in `.min`.
proof fn lemma_cast_name_ends(id: Seq<char>)
    ensures
        ends_with(id + ".cast"@, ".cast"@),
        ends_with(id + ".cast"@, ".min.cast"@) ==> ends_with(id, ".min"@),
{
    reveal_strlit(".cast");
    reveal_strlit(".min.cast");
    reveal_strlit(".min");
    let n = id + ".cast"@;
    assert(n.subrange(n.len() - 5, n.len() as int) =~= ".cast"@);
    if ends_with(n, ".min.cast"@) {
        assert(id.subrange(id.len() - 4, id.len() as int) =~= n.subrange(n.len() - 9, n.len() - 5));
        assert(".min.cast"@.subrange(0, 4) =~= ".min"@);
        assert(n.subrange(n.len() - 9, n.len() - 5) =~= n.subrange(n.len() - 9, n.len() as int).subrange(0, 4));
    }
}

/// `<id>.cast` is a normal component when `id` holds no `/`.
proof fn lemma_cast_name_plain(id: Seq<char>)
    requires
        !id.contains('/'),
    ensures
        plain_component(id + ".cast"@),
{
    reveal_strlit(".cast");
    let n = id + ".cast"@;
    assert(!n.contains('/')) by {
        if n.contains('/') {
            let i = choose|i: int| 0 <= i < n.len() && n[i] == '/';
            if i < id.len() {
                assert(id[i] == '/');
            } else {
                assert(".cast"@[i - id.len()] == '/');
            }
        }
    }
    assert(n.len() >= 5);
    assert(n != seq!['.']);
    assert(n != seq!['.', '.']);
}

} // verus!
