//! Joining relative paths onto the project directory.
use vstd::prelude::*;

verus! {

pub open spec fn is_absolute(p: Seq<char>) -> bool {
    p.len() > 0 && p[0] == '/'
}

/// `path` under `base`: an absolute `path` stands alone, an empty `base`
/// adds nothing, and one `/` separates the two otherwise.
pub open spec fn joined_path(base: Seq<char>, path: Seq<char>) -> Seq<char> {
    if is_absolute(path) || base.len() == 0 {
        path
    } else if base.last() == '/' {
        base + path
    } else {
        base + "/"@ + path
    }
}

fn join(base: &str, path: &str) -> (r: String)
    ensures
        r@ == joined_path(base@, path@),
{
    let n = base.unicode_len();
    let absolute = path.unicode_len() > 0 && path.get_char(0) == '/';
    if absolute || n == 0 {
        return String::from_str(path);
    }
    let mut s = String::from_str(base);
    if base.get_char(n - 1) != '/' {
        s.append("/");
    }
    s.append(path);
    s
}

/// `path` inside the project directory `root`.
pub fn repo_path(root: &str, path: &str) -> (r: String)
    ensures
        r@ == joined_path(root@, path@),
{
    join(root, path)
}

/// An absolute `path` as it is; a relative one inside the project directory `root`.
pub fn resolve_asset_path(root: &str, path: &str) -> (r: String)
    ensures
        is_absolute(path@) ==> r@ == path@,
        !is_absolute(path@) ==> r@ == joined_path(root@, path@),
{
    let absolute = path.unicode_len() > 0 && path.get_char(0) == '/';
    if absolute {
        String::from_str(path)
    } else {
        join(root, path)
    }
}

} // verus!
