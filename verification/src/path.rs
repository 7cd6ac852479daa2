//! File paths, held as text and read the way `camino` reads a Unix path.
//!
//! Two spellings can name one file (`a/b` and `a//b`): a path is identified
//! by its components, [`path_key`], and not by its text. `camino` compares
//! two paths by their components, and so do the sets and maps of file names
//! in a build file.
//!
//! On a Unix-family target a component is the root, `.`, `..` or a name that
//! is none of these, so the text of a component tells which component it
//! is: two paths have the same components exactly when they have the same
//! key.

use vstd::prelude::*;

verus! {

/// What identifies a path: the text of each of its components.
pub type PathKey = Seq<Seq<char>>;

/// The components of `p`, each by its text, in order: what
/// `camino::Utf8Path::components` yields for `p`, with
/// `Utf8Component::as_str` applied to each component.
pub uninterp spec fn path_key(p: Seq<char>) -> PathKey;

/// What `camino::Utf8Path::parent` returns for `p`: the path without its
/// final component, where it has one.
pub uninterp spec fn path_parent(p: Seq<char>) -> Option<Seq<char>>;

/// What `camino::Utf8Path::join` returns for `base` and `segment`.
pub uninterp spec fn path_join(base: Seq<char>, segment: Seq<char>) -> Seq<char>;

/// The view of each string of a sequence.
pub open spec fn strs(v: Seq<String>) -> Seq<Seq<char>> {
    v.map_values(|s: String| s@)
}

/// The keys of the paths of `paths`, as a set.
pub open spec fn path_keys(paths: Seq<Seq<char>>) -> Set<PathKey> {
    Set::new(|k: PathKey| exists|i: int| 0 <= i < paths.len() && #[trigger] path_key(paths[i]) == k)
}

/// The segment that marks the directory of an output.
pub open spec fn spec_dir_marker() -> Seq<char> {
    ".ninja_dir"@
}

/// The path whose existence stands for the existence of the directory of
/// `p`: the marker inside the parent of `p`, where `p` has a parent.
pub open spec fn spec_ninja_dir(p: Seq<char>) -> Option<Seq<char>> {
    match path_parent(p) {
        Some(dir) => Some(path_join(dir, spec_dir_marker())),
        None => None,
    }
}

/// Calls `camino::Utf8Path::components` and copies out the text of each
/// component (`Utf8Component::as_str`), in order. Believed: the result is
/// what [`path_key`] names.
#[verifier::external_body]
pub(crate) fn components(p: &str) -> (r: Vec<String>)
    ensures
        strs(r@) == path_key(p@),
{
    camino::Utf8Path::new(p).components().map(|c| c.as_str().to_string()).collect()
}

/// Calls `camino::Utf8Path::parent`. Believed: the result is what
/// [`path_parent`] names.
#[verifier::external_body]
pub(crate) fn parent(p: &str) -> (r: Option<String>)
    ensures
        match r {
            Some(dir) => path_parent(p@) == Some(dir@),
            None => path_parent(p@) is None,
        },
{
    camino::Utf8Path::new(p).parent().map(|dir| dir.as_str().to_string())
}

/// Calls `camino::Utf8Path::join`. Believed: the result is what
/// [`path_join`] names.
#[verifier::external_body]
pub(crate) fn join(base: &str, segment: &str) -> (r: String)
    ensures
        r@ == path_join(base@, segment@),
{
    camino::Utf8Path::new(base).join(segment).into_string()
}

/// Whether two sequences of strings hold the same texts in the same order.
fn same_texts(a: &Vec<String>, b: &Vec<String>) -> (r: bool)
    ensures
        r == (strs(a@) == strs(b@)),
{
    if a.len() != b.len() {
        assert(strs(a@).len() != strs(b@).len());
        return false;
    }
    let mut i: usize = 0;
    while i < a.len()
        invariant
            a.len() == b.len(),
            i <= a.len(),
            forall|j: int| 0 <= j < i ==> a@[j]@ == b@[j]@,
        decreases a.len() - i,
    {
        if a[i] != b[i] {
            assert(strs(a@)[i as int] != strs(b@)[i as int]);
            return false;
        }
        i += 1;
    }
    assert(strs(a@) =~= strs(b@));
    true
}

/// Whether `a` and `b` name the same file.
pub fn same_file(a: &str, b: &str) -> (r: bool)
    ensures
        r == (path_key(a@) == path_key(b@)),
{
    let ka = components(a);
    let kb = components(b);
    same_texts(&ka, &kb)
}

/// The marker path inside the directory of `p`; `None` where `p` has no
/// parent (a root, or the empty path).
pub fn ninja_dir(p: &str) -> (r: Option<String>)
    ensures
        match r {
            Some(d) => spec_ninja_dir(p@) == Some(d@),
            None => spec_ninja_dir(p@) is None,
        },
{
    match parent(p) {
        Some(dir) => Some(join(dir.as_str(), ".ninja_dir")),
        None => None,
    }
}

} // verus!
