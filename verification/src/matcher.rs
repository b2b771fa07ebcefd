//! The byte-level substring matcher.
//!
//! A single forward pass over the scanned bytes maintains a running
//! match-length counter. When the counter left by the previous byte equals
//! the pattern length, a match is reported at the position of the byte being
//! visited — one past the end of the matched run — and the counter restarts
//! at zero before the current byte is examined. Two consequences are part of
//! the observable behaviour and are stated exactly by the model below:
//!
//! - a match whose final byte is the last byte of the input is never
//!   reported, because detection needs one further byte to be visited;
//! - the counter does not backtrack: a mismatch resets it to zero, so
//!   overlapping occurrences after a completed match are not retried.

use vstd::prelude::*;

verus! {

/// True when a counter value left by the previous byte signals a completed
/// match of the pattern `q`.
pub open spec fn emits_here(c: nat, q: Seq<u8>) -> bool {
    c >= q.len() && c > 0
}

/// The counter after one byte `b` is examined, starting from counter `c`:
/// a completed match resets the counter before the comparison; then the
/// counter advances on a match against `q[c]` and resets to zero otherwise.
pub open spec fn next_count(c: nat, q: Seq<u8>, b: u8) -> nat {
    let c0: nat = if emits_here(c, q) {
        0
    } else {
        c
    };
    if c0 < q.len() && b == q[c0 as int] {
        (c0 + 1) as nat
    } else {
        0
    }
}

/// The counter value after the first `i` bytes of `s` have been examined.
pub open spec fn counter_at(s: Seq<u8>, q: Seq<u8>, i: int) -> nat
    decreases i,
{
    if i <= 0 {
        0
    } else {
        next_count(counter_at(s, q, i - 1), q, s[i - 1])
    }
}

/// The offsets reported while visiting the first `n` bytes of `s`, in the
/// order they are reported: position `p` is reported exactly when the
/// counter left by byte `p - 1` signals a completed match.
pub open spec fn offsets_up_to(s: Seq<u8>, q: Seq<u8>, n: int) -> Seq<int>
    decreases n,
{
    if n <= 0 {
        Seq::empty()
    } else if emits_here(counter_at(s, q, n - 1), q) {
        offsets_up_to(s, q, n - 1).push(n - 1)
    } else {
        offsets_up_to(s, q, n - 1)
    }
}

/// Every offset the matcher reports for pattern `q` over input `s`.
pub open spec fn match_offsets(s: Seq<u8>, q: Seq<u8>) -> Seq<int> {
    offsets_up_to(s, q, s.len() as int)
}

/// A sequence of machine offsets read as mathematical integers.
pub open spec fn to_int_seq(s: Seq<usize>) -> Seq<int> {
    s.map_values(|x: usize| x as int)
}

proof fn lemma_to_int_seq_push(s: Seq<usize>, x: usize)
    ensures
        to_int_seq(s.push(x)) == to_int_seq(s).push(x as int),
{
    assert(to_int_seq(s.push(x)) =~= to_int_seq(s).push(x as int));
}

/// The counter never exceeds the pattern length nor the number of bytes
/// examined, and the bytes just examined end with the matched prefix of the
/// pattern: `s[i - c .. i] == q[0 .. c]`.
proof fn lemma_counter_shape(s: Seq<u8>, q: Seq<u8>, i: int)
    requires
        0 <= i <= s.len(),
    ensures
        counter_at(s, q, i) <= i,
        counter_at(s, q, i) <= q.len(),
        s.subrange(i - counter_at(s, q, i), i) == q.subrange(0, counter_at(s, q, i) as int),
    decreases i,
{
    if i <= 0 {
        assert(s.subrange(0, 0) =~= q.subrange(0, 0));
    } else {
        lemma_counter_shape(s, q, i - 1);
        let cp: nat = counter_at(s, q, i - 1);
        let c0: nat = if emits_here(cp, q) {
            0
        } else {
            cp
        };
        let c: nat = counter_at(s, q, i);
        if c0 < q.len() && s[i - 1] == q[c0 as int] {
            assert(c == c0 + 1);
            if c0 == cp {
                assert(s.subrange(i - c, i) =~= q.subrange(0, c as int)) by {
                    assert(s.subrange(i - 1 - cp, i - 1) == q.subrange(0, cp as int));
                    assert forall|k: int| 0 <= k < c implies s.subrange(i - c, i)[k] == q
                        .subrange(0, c as int)[k] by {
                        if k < c - 1 {
                            assert(s.subrange(i - 1 - cp, i - 1)[k] == q.subrange(0, cp as int)[k]);
                        }
                    }
                }
            } else {
                assert(c0 == 0 && c == 1);
                assert(s.subrange(i - 1, i) =~= q.subrange(0, 1));
            }
        } else {
            assert(c == 0);
            assert(s.subrange(i, i) =~= q.subrange(0, 0));
        }
    }
}

/// Every reported offset lies in `[0, n)`, and the reported offsets are
/// strictly increasing in the order reported.
proof fn lemma_offsets_shape(s: Seq<u8>, q: Seq<u8>, n: int)
    ensures
        forall|j: int|
            0 <= j < offsets_up_to(s, q, n).len() ==> 0 <= #[trigger] offsets_up_to(s, q, n)[j]
                < n,
        forall|j1: int, j2: int|
            0 <= j1 < j2 < offsets_up_to(s, q, n).len() ==> offsets_up_to(s, q, n)[j1]
                < offsets_up_to(s, q, n)[j2],
    decreases n,
{
    if n <= 0 {
    } else {
        lemma_offsets_shape(s, q, n - 1);
        let prev: Seq<int> = offsets_up_to(s, q, n - 1);
        let cur: Seq<int> = offsets_up_to(s, q, n);
        assert forall|j: int| 0 <= j < cur.len() implies 0 <= #[trigger] cur[j] < n by {
            if j < prev.len() {
                assert(cur[j] == prev[j]);
                assert(0 <= prev[j] < n - 1);
            }
        }
        assert forall|j1: int, j2: int| 0 <= j1 < j2 < cur.len() implies cur[j1] < cur[j2] by {
            if j2 < prev.len() {
                assert(cur[j1] == prev[j1] && cur[j2] == prev[j2]);
                assert(prev[j1] < prev[j2]);
            } else {
                assert(cur[j1] == prev[j1]);
                assert(0 <= prev[j1] < n - 1);
            }
        }
    }
}

/// Whether `k` is a sound one-past-the-end match offset: the pattern fits
/// before it, at least one byte of `s` follows the matched run, and the
/// `q.len()` bytes of `s` that end at `k` are exactly `q`.
pub open spec fn offset_is_match(s: Seq<u8>, q: Seq<u8>, k: int) -> bool {
    &&& q.len() <= k < s.len()
    &&& s.subrange(k - q.len(), k) == q
}

/// Soundness of the matcher: for a non-empty pattern, every reported offset
/// `k` marks a real occurrence — the bytes `s[k - q.len() .. k]` are exactly
/// `q` — and the reported offsets are strictly increasing.
pub proof fn lemma_matcher_sound(s: Seq<u8>, q: Seq<u8>)
    requires
        q.len() > 0,
    ensures
        forall|j: int|
            0 <= j < match_offsets(s, q).len() ==> offset_is_match(
                s,
                q,
                #[trigger] match_offsets(s, q)[j],
            ),
        forall|j1: int, j2: int|
            0 <= j1 < j2 < match_offsets(s, q).len() ==> match_offsets(s, q)[j1] < match_offsets(
                s,
                q,
            )[j2],
{
    lemma_offsets_shape(s, q, s.len() as int);
    assert forall|j: int| 0 <= j < match_offsets(s, q).len() implies offset_is_match(
        s,
        q,
        #[trigger] match_offsets(s, q)[j],
    ) by {
        lemma_offset_in_list_is_match(s, q, s.len() as int, j);
    }
}

proof fn lemma_offset_in_list_is_match(s: Seq<u8>, q: Seq<u8>, n: int, j: int)
    requires
        q.len() > 0,
        n <= s.len(),
        0 <= j < offsets_up_to(s, q, n).len(),
    ensures
        offset_is_match(s, q, offsets_up_to(s, q, n)[j]),
    decreases n,
{
    if n <= 0 {
    } else if emits_here(counter_at(s, q, n - 1), q) && j == offsets_up_to(s, q, n - 1).len() {
        let k: int = n - 1;
        lemma_counter_shape(s, q, k);
        let c: nat = counter_at(s, q, k);
        assert(c == q.len());
        assert(s.subrange(k - q.len(), k) == q.subrange(0, q.len() as int));
        assert(q.subrange(0, q.len() as int) =~= q);
    } else {
        lemma_offset_in_list_is_match(s, q, n - 1, j);
    }
}

/// The counter gains at most one per byte examined.
proof fn lemma_counter_growth(s: Seq<u8>, q: Seq<u8>, i: int, j: int)
    requires
        0 <= i <= j,
    ensures
        counter_at(s, q, j) <= counter_at(s, q, i) + (j - i),
    decreases j - i,
{
    if i < j {
        lemma_counter_growth(s, q, i, j - 1);
    }
}

/// Every reported offset is an emission point: the counter left by the
/// byte before it signals a completed match.
proof fn lemma_offset_in_list_emits(s: Seq<u8>, q: Seq<u8>, n: int, j: int)
    requires
        0 <= j < offsets_up_to(s, q, n).len(),
    ensures
        emits_here(counter_at(s, q, offsets_up_to(s, q, n)[j]), q),
    decreases n,
{
    if n <= 0 {
    } else if emits_here(counter_at(s, q, n - 1), q) && j == offsets_up_to(s, q, n - 1).len() {
    } else {
        lemma_offset_in_list_emits(s, q, n - 1, j);
    }
}

/// Non-overlap law: reported occurrences never overlap. Two reported
/// offsets differ by at least the pattern length, so the matched runs
/// `[k - q.len(), k)` are pairwise disjoint: after a completed match the
/// counter restarts from zero rather than retrying a shorter overlap.
pub proof fn lemma_matcher_non_overlap(s: Seq<u8>, q: Seq<u8>)
    requires
        q.len() > 0,
    ensures
        forall|j1: int, j2: int|
            0 <= j1 < j2 < match_offsets(s, q).len() ==> match_offsets(s, q)[j1] + q.len()
                <= match_offsets(s, q)[j2],
{
    let n: int = s.len() as int;
    lemma_offsets_shape(s, q, n);
    assert forall|j1: int, j2: int|
        0 <= j1 < j2 < match_offsets(s, q).len() implies match_offsets(s, q)[j1] + q.len()
        <= match_offsets(s, q)[j2] by {
        let k1: int = match_offsets(s, q)[j1];
        let k2: int = match_offsets(s, q)[j2];
        lemma_offset_in_list_emits(s, q, n, j1);
        lemma_offset_in_list_emits(s, q, n, j2);
        assert(k1 < k2);
        assert(counter_at(s, q, k1 + 1) == next_count(counter_at(s, q, k1), q, s[k1]));
        assert(counter_at(s, q, k1 + 1) <= 1);
        lemma_counter_growth(s, q, k1 + 1, k2);
        assert(q.len() <= counter_at(s, q, k2));
    }
}

/// Boundary law: when the pattern occupies the entire input — the scanned
/// bytes are exactly the pattern — nothing is reported, because detection of
/// a completed match needs one trailing byte that does not exist.
pub proof fn lemma_whole_input_no_match(q: Seq<u8>)
    requires
        q.len() > 0,
    ensures
        match_offsets(q, q) == Seq::<int>::empty(),
{
    lemma_no_offsets_before_pattern_len(q, q, q.len() as int);
}

proof fn lemma_no_offsets_before_pattern_len(s: Seq<u8>, q: Seq<u8>, n: int)
    requires
        q.len() > 0,
        n <= q.len(),
        n <= s.len(),
    ensures
        offsets_up_to(s, q, n) == Seq::<int>::empty(),
    decreases n,
{
    if n <= 0 {
        assert(offsets_up_to(s, q, n) =~= Seq::<int>::empty());
    } else {
        lemma_no_offsets_before_pattern_len(s, q, n - 1);
        lemma_counter_shape(s, q, n - 1);
        assert(counter_at(s, q, n - 1) <= n - 1 < q.len());
        assert(!emits_here(counter_at(s, q, n - 1), q));
    }
}

/// Scans `data` for occurrences of `query` and returns every reported match
/// offset, in the order the single forward pass reports them.
pub fn find_matches(data: &Vec<u8>, query: &Vec<u8>) -> (r: Vec<usize>)
    ensures
        to_int_seq(r@) == match_offsets(data@, query@),
{
    let mut out: Vec<usize> = Vec::new();
    let mut count: usize = 0;
    let mut p: usize = 0;
    proof {
        assert(to_int_seq(out@) =~= offsets_up_to(data@, query@, 0));
    }
    while p < data.len()
        invariant
            p <= data.len(),
            count == counter_at(data@, query@, p as int),
            to_int_seq(out@) == offsets_up_to(data@, query@, p as int),
        decreases data.len() - p,
    {
        if count >= query.len() && count > 0 {
            proof {
                lemma_to_int_seq_push(out@, p);
            }
            out.push(p);
            count = 0;
        }
        if count < query.len() && data[p] == query[count] {
            count = count + 1;
        } else {
            count = 0;
        }
        p = p + 1;
    }
    out
}

} // verus!
