//! The repository handle: the canonical worktree root and the shared
//! metadata directory, as plain paths. Discovering these values requires
//! running the backend and is done by the caller; the joining rule for a
//! relative metadata directory is verified here.

use vstd::prelude::*;
use vstd::string::*;

verus! {

/// One version-control repository: the root of its main worktree and its
/// shared metadata directory, both absolute paths.
pub struct GitRepo {
    pub root: String,
    pub common_dir: String,
}

/// Whether a path is absolute, in the POSIX sense.
pub open spec fn spec_is_absolute(p: Seq<char>) -> bool {
    p.len() > 0 && p[0] == '/'
}

/// How a possibly relative metadata directory is anchored at the root:
/// an absolute path is kept, a relative one is joined under the root.
pub open spec fn spec_resolve_common_dir(root: Seq<char>, common: Seq<char>) -> Seq<char> {
    if spec_is_absolute(common) {
        common
    } else {
        root + "/"@ + common
    }
}

impl GitRepo {
    /// Builds the handle from a root path and the metadata directory as the
    /// backend reported it, which may be relative to the root.
    pub fn from_parts(root: String, common_dir: &str) -> (r: GitRepo)
        ensures
            r.root@ == root@,
            r.common_dir@ == spec_resolve_common_dir(root@, common_dir@),
    {
        let resolved = resolve_common_dir(root.as_str(), common_dir);
        GitRepo { root, common_dir: resolved }
    }
}

/// Anchors `common` at `root` when it is not absolute.
pub fn resolve_common_dir(root: &str, common: &str) -> (r: String)
    ensures
        r@ == spec_resolve_common_dir(root@, common@),
{
    let absolute = common.unicode_len() > 0 && common.get_char(0) == '/';
    if absolute {
        let mut r = String::new();
        r.append(common);
        r
    } else {
        let mut r = String::new();
        r.append(root);
        r.append("/");
        r.append(common);
        r
    }
}

} // verus!
