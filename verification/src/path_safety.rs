//! Path safety for the static-file and upload handlers.
//!
//! A captured path is joined under a fixed root directory.  Before the join,
//! the capture must be a safe relative path: non-empty, relative (no leading
//! slash), with no empty segment, and with no `.` or `..` segment — so the
//! joined path can never resolve outside the root.
use crate::ascii::{DOT, NUL, SLASH};
use crate::bytes::append_bytes;
use vstd::prelude::*;

verus! {

/// A `..` segment starts at position `i` of `p`: it is preceded by nothing
/// or a slash, and followed by nothing or a slash.
pub open spec fn dotdot_at(p: Seq<u8>, i: int) -> bool {
    &&& 0 <= i
    &&& i + 2 <= p.len()
    &&& (i == 0 || p[i - 1] == SLASH)
    &&& p[i] == DOT
    &&& p[i + 1] == DOT
    &&& (i + 2 == p.len() || p[i + 2] == SLASH)
}

/// A `.` segment starts at position `i` of `p`.
pub open spec fn dot_at(p: Seq<u8>, i: int) -> bool {
    &&& 0 <= i
    &&& i + 1 <= p.len()
    &&& (i == 0 || p[i - 1] == SLASH)
    &&& p[i] == DOT
    &&& (i + 1 == p.len() || p[i + 1] == SLASH)
}

/// Whether `p` contains a parent-directory segment.
pub open spec fn has_dotdot_segment(p: Seq<u8>) -> bool {
    exists|i: int| dotdot_at(p, i)
}

/// An empty segment: two adjacent slashes starting at position `i` of `p`.
pub open spec fn double_slash_at(p: Seq<u8>, i: int) -> bool {
    &&& 0 <= i
    &&& i + 2 <= p.len()
    &&& p[i] == SLASH
    &&& p[i + 1] == SLASH
}

/// A safe relative path: non-empty, no NUL byte, relative, no trailing
/// slash, no empty segment, and no `.` or `..` segment.
pub open spec fn is_safe_rel_path(p: Seq<u8>) -> bool {
    &&& p.len() > 0
    &&& p[0] != SLASH
    &&& p[p.len() - 1] != SLASH
    &&& forall|i: int| 0 <= i < p.len() ==> p[i] != NUL
    &&& forall|i: int| !double_slash_at(p, i)
    &&& forall|i: int| !dotdot_at(p, i)
    &&& forall|i: int| !dot_at(p, i)
}

/// A safe path has no parent-directory segment.
pub proof fn lemma_safe_excludes_dotdot(p: Seq<u8>)
    requires
        is_safe_rel_path(p),
    ensures
        !has_dotdot_segment(p),
{
}

/// Decides `is_safe_rel_path` for the captured bytes.
pub fn check_rel_path(p: &Vec<u8>) -> (r: bool)
    ensures
        r == is_safe_rel_path(p@),
{
    let n = p.len();
    if n == 0 {
        return false;
    }
    if p[0] == SLASH {
        return false;
    }
    if p[n - 1] == SLASH {
        return false;
    }
    let mut i: usize = 0;
    while i < n
        invariant
            n == p@.len(),
            0 < n,
            i <= n,
            forall|j: int| 0 <= j < i ==> p@[j] != NUL,
            forall|j: int| j < i ==> !double_slash_at(p@, j),
            forall|j: int| j < i ==> !dotdot_at(p@, j),
            forall|j: int| j < i ==> !dot_at(p@, j),
        decreases n - i,
    {
        let b = p[i];
        if b == NUL {
            return false;
        }
        if b == SLASH && i + 1 < n && p[i + 1] == SLASH {
            proof {
                assert(double_slash_at(p@, i as int));
            }
            return false;
        }
        if b == DOT && (i == 0 || p[i - 1] == SLASH) {
            // a segment starting with '.' at position i
            if i + 1 == n || p[i + 1] == SLASH {
                proof {
                    assert(dot_at(p@, i as int));
                }
                return false;
            }
            if p[i + 1] == DOT && (i + 2 == n || p[i + 2] == SLASH) {
                proof {
                    assert(dotdot_at(p@, i as int));
                }
                return false;
            }
        }
        proof {
            assert(!double_slash_at(p@, i as int));
            assert(!dotdot_at(p@, i as int));
            assert(!dot_at(p@, i as int));
        }
        i = i + 1;
    }
    proof {
        assert(forall|j: int| j >= n ==> !double_slash_at(p@, j));
        assert(forall|j: int| j >= n ==> !dotdot_at(p@, j));
        assert(forall|j: int| j >= n ==> !dot_at(p@, j));
    }
    true
}

/// The capture joined under a root directory: `root`, a slash, the capture.
pub open spec fn joined(root: Seq<u8>, rel: Seq<u8>) -> Seq<u8> {
    root + seq![SLASH] + rel
}

/// What resolving a capture under a root yields: the joined path when the
/// capture is safe, nothing otherwise.
pub open spec fn resolved(root: Seq<u8>, capture: Seq<u8>) -> Option<Seq<u8>> {
    if is_safe_rel_path(capture) {
        Option::Some(joined(root, capture))
    } else {
        Option::None
    }
}

/// Joins a safe capture under a root directory.
pub fn join_under_root(root: &Vec<u8>, rel: &Vec<u8>) -> (r: Vec<u8>)
    ensures
        r@ == joined(root@, rel@),
{
    let mut out: Vec<u8> = Vec::new();
    append_bytes(&mut out, root);
    out.push(SLASH);
    append_bytes(&mut out, rel);
    proof {
        assert(out@ =~= joined(root@, rel@));
    }
    out
}

/// Resolves a captured path under a root: the joined path when the capture
/// is a safe relative path, and nothing — to be treated as not found —
/// when the capture is unsafe.
pub fn resolve_under_root(root: &Vec<u8>, capture: &Vec<u8>) -> (r: Option<Vec<u8>>)
    ensures
        match r {
            Option::Some(v) => resolved(root@, capture@) == Option::Some(v@),
            Option::None => resolved(root@, capture@) is None,
        },
{
    if check_rel_path(capture) {
        Option::Some(join_under_root(root, capture))
    } else {
        Option::None
    }
}

} // verus!
