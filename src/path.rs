//! Paths: expansion of a leading `~`, canonical paths as lists of components,
//! and the descendant relation between them.

use vstd::prelude::*;

verus! {

/// An absolute path with every symbolic link, `.` and `..` resolved, held as
/// the names of its components below the root, outermost first. The root
/// itself has no components.
#[derive(Debug, PartialEq, Eq)]
pub struct CanonicalPath {
    pub components: Vec<String>,
}

impl View for CanonicalPath {
    type V = Seq<Seq<char>>;

    open spec fn view(&self) -> Seq<Seq<char>> {
        self.components@.map_values(|c: String| c@)
    }
}

/// `parent` is `path` itself or one of its ancestors.
pub open spec fn is_within(parent: Seq<Seq<char>>, path: Seq<Seq<char>>) -> bool {
    parent.len() <= path.len() && path.subrange(0, parent.len() as int) == parent
}

/// The result of expanding a leading `~` of `path` to `home`: a `~` that
/// stands alone or before a `/` is replaced, anything else is kept.
pub open spec fn home_expanded(path: Seq<char>, home: Option<Seq<char>>) -> Seq<char> {
    if path.len() > 0 && path[0] == '~' && (path.len() == 1 || path[1] == '/') && home is Some {
        home.unwrap() + path.skip(1)
    } else {
        path
    }
}

/// Relies on `shellexpand::tilde_with_context`: a leading `~` alone or before
/// a `/` becomes the home directory when one is given; a path that does not
/// start with `~`, or starts with `~` and another name, stays as it is.
#[verifier::external_body]
fn tilde(path: &str, home: Option<&str>) -> (r: String)
    ensures
        (path@.len() == 0 || path@[0] != '~' || (path@.len() > 1 && path@[1] != '/' && path@[1] != '\\') || home is None)
            ==> r@ == path@,
        (path@.len() > 0 && path@[0] == '~' && (path@.len() == 1 || path@[1] == '/') && home is Some)
            ==> r@ == home.unwrap()@ + path@.skip(1),
{
    shellexpand::tilde_with_context(path, || home).into_owned()
}

/// `path` with a leading `~` expanded to `home`, the user's home directory if
/// it is known. Whether `~\` counts as a `~` before a separator depends on the
/// platform, so of such a path nothing is said.
pub fn expand_home(path: &str, home: Option<&str>) -> (r: String)
    ensures
        !(path@.len() > 1 && path@[0] == '~' && path@[1] == '\\') ==> r@ == home_expanded(
            path@,
            match home {
                Some(h) => Some(h@),
                None => None,
            },
        ),
{
    tilde(path, home)
}

/// Whether `parent` is `subdir` itself or one of its ancestors.
pub fn is_subdir(parent: &CanonicalPath, subdir: &CanonicalPath) -> (r: bool)
    ensures
        r == is_within(parent@, subdir@),
{
    let n = parent.components.len();
    if n > subdir.components.len() {
        return false;
    }
    let mut i: usize = 0;
    while i < n
        invariant
            n == parent.components.len(),
            n <= subdir.components.len(),
            i <= n,
            forall|j: int| 0 <= j < i ==> parent@[j] == subdir@[j],
        decreases n - i,
    {
        if parent.components[i] != subdir.components[i] {
            assert(subdir@.subrange(0, n as int)[i as int] != parent@[i as int]);
            return false;
        }
        i = i + 1;
    }
    assert(subdir@.subrange(0, n as int) =~= parent@);
    true
}

/// Whether two canonical paths are the same path.
pub fn same_path(a: &CanonicalPath, b: &CanonicalPath) -> (r: bool)
    ensures
        r == (a@ == b@),
{
    if a.components.len() != b.components.len() {
        return false;
    }
    assert(b@.subrange(0, b@.len() as int) =~= b@);
    is_subdir(a, b)
}

} // verus!
