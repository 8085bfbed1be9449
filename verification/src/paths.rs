//! Ignore-root semantics: a path is ignored when it lies under an ignore
//! root, where "under" is a path-component prefix test (`foo` covers
//! `foo` and `foo/bar`, but never `foo2`).

use vstd::prelude::*;

verus! {

/// A root with trailing separators removed; `"dir/"` covers the same tree
/// as `"dir"`.
pub open spec fn strip_trailing_slashes(s: Seq<char>) -> Seq<char>
    decreases s.len(),
{
    if s.len() > 0 && s.last() == '/' {
        strip_trailing_slashes(s.drop_last())
    } else {
        s
    }
}

/// Component-prefix test against an already-stripped root: the root's
/// characters open the path, and the path either ends there or continues
/// with a separator. The empty root covers nothing.
pub open spec fn component_prefix(path: Seq<char>, root: Seq<char>) -> bool {
    &&& root.len() > 0
    &&& root.len() <= path.len()
    &&& path.subrange(0, root.len() as int) == root
    &&& (path.len() == root.len() || path[root.len() as int] == '/')
}

/// Whether `path` lies in the tree rooted at `root`.
pub open spec fn path_under(path: Seq<char>, root: Seq<char>) -> bool {
    component_prefix(path, strip_trailing_slashes(root))
}

/// Whether `path` lies under any of the configured ignore roots.
pub open spec fn ignored_path(path: Seq<char>, ignore_dirs: Seq<Seq<char>>) -> bool {
    exists|i: int| 0 <= i < ignore_dirs.len() && path_under(path, ignore_dirs[i])
}

/// Decide whether `path` lies in the tree rooted at `root`, by path
/// components.
pub fn path_is_under(path: &str, root: &str) -> (b: bool)
    ensures
        b == path_under(path@, root@),
{
    let rn = root.unicode_len();
    let pn = path.unicode_len();
    proof {
        assert(root@.subrange(0, rn as int) =~= root@);
    }
    let mut k = rn;
    while k > 0 && root.get_char(k - 1) == '/'
        invariant
            0 <= k <= rn == root@.len(),
            strip_trailing_slashes(root@) == strip_trailing_slashes(root@.subrange(0, k as int)),
        decreases k,
    {
        proof {
            let cur = root@.subrange(0, k as int);
            assert(cur.last() == root@[k - 1]);
            assert(cur.drop_last() =~= root@.subrange(0, k - 1));
        }
        k = k - 1;
    }
    proof {
        let cur = root@.subrange(0, k as int);
        assert(strip_trailing_slashes(cur) == cur);
    }
    let ghost stripped = strip_trailing_slashes(root@);
    if k == 0 {
        proof {
            assert(stripped.len() == 0);
        }
        return false;
    }
    if k > pn {
        return false;
    }
    let mut i: usize = 0;
    while i < k
        invariant
            0 <= i <= k <= pn == path@.len(),
            k <= root@.len(),
            stripped == strip_trailing_slashes(root@),
            stripped == root@.subrange(0, k as int),
            forall|j: int| 0 <= j < i ==> path@[j] == root@[j],
        decreases k - i,
    {
        if path.get_char(i) != root.get_char(i) {
            proof {
                assert(stripped.len() == k as int);
                assert(stripped[i as int] == root@[i as int]);
                assert(path@.subrange(0, k as int)[i as int] == path@[i as int]);
                assert(path@.subrange(0, k as int) != stripped);
                assert(!component_prefix(path@, stripped));
            }
            return false;
        }
        i = i + 1;
    }
    proof {
        assert(stripped.len() == k as int);
        assert(forall|j: int| 0 <= j < k ==> stripped[j] == root@[j]);
        assert(path@.subrange(0, k as int) =~= stripped);
    }
    if pn == k {
        return true;
    }
    let c = path.get_char(k);
    c == '/'
}

/// The ignore test run on every visited path: a file is processed unless
/// it lies under one of the configured ignore roots.
pub fn should_process_file(path: &str, ignore_dirs: &Vec<String>) -> (b: bool)
    ensures
        b == !ignored_path(path@, ignore_dirs.deep_view()),
{
    let mut i: usize = 0;
    while i < ignore_dirs.len()
        invariant
            0 <= i <= ignore_dirs@.len(),
            ignore_dirs.deep_view().len() == ignore_dirs@.len(),
            forall|j: int| 0 <= j < ignore_dirs@.len() ==> ignore_dirs.deep_view()[j]
                == ignore_dirs@[j]@,
            forall|j: int| 0 <= j < i ==> !path_under(path@, ignore_dirs.deep_view()[j]),
        decreases ignore_dirs@.len() - i,
    {
        if path_is_under(path, ignore_dirs[i].as_str()) {
            assert(path_under(path@, ignore_dirs.deep_view()[i as int]));
            return false;
        }
        i = i + 1;
    }
    true
}

} // verus!
