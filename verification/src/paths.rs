//! Filesystem paths as strings (Unix separators).
use vstd::prelude::*;
use crate::text::{chars_of, string_of};

verus! {

/// `Path::join` on Unix: an absolute `name` replaces `dir`; otherwise `name`
/// is appended, with a `/` between unless `dir` is empty or already ends in one.
pub open spec fn joined(dir: Seq<char>, name: Seq<char>) -> Seq<char> {
    if name.len() > 0 && name[0] == '/' {
        name
    } else if dir.len() == 0 || dir.last() == '/' {
        dir + name
    } else {
        dir + seq!['/'] + name
    }
}

/// `dir` joined with `name`.
pub fn join(dir: &str, name: &str) -> (r: String)
    ensures
        r@ == joined(dir@, name@),
{
    let d = chars_of(dir);
    let n = chars_of(name);
    if n.len() > 0 && n[0] == '/' {
        return String::from_str(name);
    }
    if d.len() == 0 || d[d.len() - 1] == '/' {
        return String::from_str(dir).concat(name);
    }
    let mut sep: Vec<char> = Vec::new();
    sep.push('/');
    let s = string_of(sep.as_slice());
    String::from_str(dir).concat(s.as_str()).concat(name)
}

/// `Path::exists`: whether something is at `path` right now. Nothing is
/// stated of the answer, which depends on the filesystem.
#[verifier::external_body]
pub fn path_exists(path: &str) -> bool {
    std::path::Path::new(path).exists()
}

/// The final component of `path` (`Path::file_name`), `None` when the path
/// ends in `..` or has no normal final component.
pub uninterp spec fn file_name_of(path: Seq<char>) -> Option<Seq<char>>;

/// `path` with its final component replaced by `name` (`Path::with_file_name`).
pub uninterp spec fn with_file_name_of(path: Seq<char>, name: Seq<char>) -> Seq<char>;

/// A single normal path component: non-empty, no separator, not `.` or `..`.
pub open spec fn plain_component(name: Seq<char>) -> bool {
    &&& name.len() > 0
    &&& !name.contains('/')
    &&& name != seq!['.']
    &&& name != seq!['.', '.']
}

/// A directory written plainly: empty, or an optional leading `/` and then
/// normal components separated by single `/`s, with at most one trailing `/`.
/// (No `//`, and no `.` or `..` component.)
pub open spec fn tidy_dir(d: Seq<char>) -> bool {
    &&& forall|i: int| 0 <= i < d.len() - 1 ==> !(#[trigger] d[i] == '/' && d[i + 1] == '/')
    &&& forall|i: int|
        0 <= i < d.len() && #[trigger] d[i] == '.' && (i == 0 || d[i - 1] == '/') ==> {
            &&& !(i + 1 == d.len() || d[i + 1] == '/')
            &&& !(i + 1 < d.len() && d[i + 1] == '.' && (i + 2 == d.len() || d[i + 2] == '/'))
        }
}

/// `Path::file_name`, as text. A file name is a normal component of the path;
/// a normal component joined onto any directory is the file name of the result.
#[verifier::external_body]
pub fn file_name(path: &str) -> (r: Option<String>)
    ensures
        match r {
            Some(n) => file_name_of(path@) == Some(n@) && plain_component(n@),
            None => file_name_of(path@) is None,
        },
        forall|d: Seq<char>, a: Seq<char>|
            plain_component(a) && path@ == #[trigger] joined(d, a) ==> r is Some && r->0@ == a,
{
    std::path::Path::new(path).file_name().map(|n| n.to_string_lossy().into_owned())
}

/// `Path::with_file_name`, as text: the parent of `path` with `name` pushed
/// onto it. Its file name is then `name`, when `name` is a single normal
/// component; and a file `a` in a tidy directory `d` becomes the file `name`
/// in `d`, written the way `joined` writes it.
#[verifier::external_body]
pub fn with_file_name(path: &str, name: &str) -> (r: String)
    ensures
        r@ == with_file_name_of(path@, name@),
        plain_component(name@) ==> file_name_of(r@) == Some(name@),
        forall|d: Seq<char>, a: Seq<char>|
            tidy_dir(d) && plain_component(a) && plain_component(name@) && path@ == #[trigger] joined(d, a)
                ==> r@ == joined(d, name@),
{
    std::path::Path::new(path).with_file_name(name).to_string_lossy().into_owned()
}

} // verus!
