//! Name-match predicates over byte strings.
//!
//! Two distinct predicates drive name matches, one per entry kind: a
//! directory matches when its full path ends with the query as a literal
//! suffix; a file matches when its base name — the part after the last path
//! separator — contains the query anywhere as a literal substring.

use vstd::prelude::*;

verus! {

/// The path separator byte, `/`.
pub const SLASH: u8 = 47;

/// Whether `q` is a literal suffix of `s`.
pub open spec fn is_suffix(s: Seq<u8>, q: Seq<u8>) -> bool {
    q.len() <= s.len() && s.subrange(s.len() - q.len(), s.len() as int) == q
}

/// Whether `q` occurs as a literal substring of `s` starting at `i`.
pub open spec fn occurs_at(s: Seq<u8>, q: Seq<u8>, i: int) -> bool {
    0 <= i && i + q.len() <= s.len() && s.subrange(i, i + q.len()) == q
}

/// Whether `q` occurs as a literal substring anywhere in `s`.
pub open spec fn contains_seq(s: Seq<u8>, q: Seq<u8>) -> bool {
    exists|i: int| occurs_at(s, q, i)
}

/// The index just after the last separator of `s`; zero when `s` holds no
/// separator.
pub open spec fn base_split(s: Seq<u8>) -> int
    decreases s.len(),
{
    if s.len() == 0 {
        0
    } else if s.last() == SLASH {
        s.len() as int
    } else {
        base_split(s.drop_last())
    }
}

/// The base name of a path: its longest suffix free of separators.
pub open spec fn base_name_of(s: Seq<u8>) -> Seq<u8> {
    s.subrange(base_split(s), s.len() as int)
}

/// Decides whether `q` is a literal suffix of `s`.
pub fn ends_with(s: &Vec<u8>, q: &Vec<u8>) -> (r: bool)
    ensures
        r == is_suffix(s@, q@),
{
    if q.len() > s.len() {
        return false;
    }
    let off = s.len() - q.len();
    let mut j: usize = 0;
    while j < q.len()
        invariant
            q.len() <= s.len(),
            off == s.len() - q.len(),
            j <= q.len(),
            forall|t: int| 0 <= t < j ==> s@[off + t] == q@[t],
        decreases q.len() - j,
    {
        if s[off + j] != q[j] {
            proof {
                assert(s@.subrange(s@.len() - q@.len(), s@.len() as int)[j as int] == s@[off + j]);
            }
            return false;
        }
        j = j + 1;
    }
    proof {
        assert(s@.subrange(s@.len() - q@.len(), s@.len() as int) =~= q@);
    }
    true
}

/// Decides whether `q` occurs as a literal substring anywhere in `s`.
pub fn contains_bytes(s: &Vec<u8>, q: &Vec<u8>) -> (r: bool)
    ensures
        r == contains_seq(s@, q@),
{
    if q.len() > s.len() {
        proof {
            assert(forall|i: int| !occurs_at(s@, q@, i));
        }
        return false;
    }
    if q.len() == 0 {
        proof {
            assert(s@.subrange(0, 0) =~= q@);
            assert(occurs_at(s@, q@, 0));
        }
        return true;
    }
    let last_start = s.len() - q.len();
    let mut i: usize = 0;
    while i <= last_start
        invariant
            1 <= q.len() <= s.len(),
            last_start == s.len() - q.len(),
            i <= last_start + 1,
            forall|t: int| 0 <= t < i ==> !occurs_at(s@, q@, t),
        decreases last_start + 1 - i,
    {
        let mut j: usize = 0;
        let mut mismatch = false;
        while j < q.len()
            invariant
                q.len() <= s.len(),
                i + q.len() <= s.len(),
                j <= q.len(),
                !mismatch ==> forall|t: int| 0 <= t < j ==> s@[i + t] == q@[t],
                mismatch ==> !occurs_at(s@, q@, i as int),
            decreases q.len() - j,
        {
            if s[i + j] != q[j] {
                proof {
                    assert(s@.subrange(i as int, i + q@.len())[j as int] == s@[i + j]);
                }
                mismatch = true;
                j = q.len();
            } else {
                j = j + 1;
            }
        }
        if !mismatch {
            proof {
                assert(s@.subrange(i as int, i + q@.len()) =~= q@);
                assert(occurs_at(s@, q@, i as int));
            }
            return true;
        }
        i = i + 1;
    }
    proof {
        assert forall|t: int| !occurs_at(s@, q@, t) by {
            if 0 <= t <= last_start {
                assert(!occurs_at(s@, q@, t));
            }
        }
    }
    false
}

/// Returns the base name of `path`: everything after the last separator,
/// or the whole path when it holds no separator.
pub fn base_name(path: &Vec<u8>) -> (r: Vec<u8>)
    ensures
        r@ == base_name_of(path@),
{
    let mut i: usize = path.len();
    proof {
        assert(path@.subrange(0, path@.len() as int) =~= path@);
    }
    while i > 0 && path[i - 1] != SLASH
        invariant
            i <= path.len(),
            base_split(path@) == base_split(path@.subrange(0, i as int)),
        decreases i,
    {
        proof {
            assert(path@.subrange(0, i as int).drop_last() =~= path@.subrange(0, i - 1));
            assert(path@.subrange(0, i as int).last() == path@[i - 1]);
        }
        i = i - 1;
    }
    proof {
        if i > 0 {
            assert(path@.subrange(0, i as int).last() == path@[i - 1]);
            assert(base_split(path@.subrange(0, i as int)) == i);
        } else {
            assert(path@.subrange(0, 0) =~= Seq::<u8>::empty());
        }
        assert(base_split(path@) == i);
    }
    let mut r: Vec<u8> = Vec::new();
    let mut j: usize = i;
    proof {
        assert(r@ =~= path@.subrange(i as int, i as int));
    }
    while j < path.len()
        invariant
            i <= j <= path.len(),
            r@ == path@.subrange(i as int, j as int),
        decreases path.len() - j,
    {
        r.push(path[j]);
        proof {
            assert(path@.subrange(i as int, j + 1) =~= path@.subrange(i as int, j as int).push(
                path@[j as int],
            ));
        }
        j = j + 1;
    }
    r
}

/// Copies a byte string.
pub fn copy_bytes(v: &Vec<u8>) -> (r: Vec<u8>)
    ensures
        r@ == v@,
{
    let mut r: Vec<u8> = Vec::new();
    let mut j: usize = 0;
    proof {
        assert(r@ =~= v@.subrange(0, 0));
    }
    while j < v.len()
        invariant
            j <= v.len(),
            r@ == v@.subrange(0, j as int),
        decreases v.len() - j,
    {
        r.push(v[j]);
        proof {
            assert(v@.subrange(0, j + 1) =~= v@.subrange(0, j as int).push(v@[j as int]));
        }
        j = j + 1;
    }
    proof {
        assert(v@.subrange(0, v@.len() as int) =~= v@);
    }
    r
}

} // verus!
