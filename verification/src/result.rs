//! Search results and the reporting format.
//!
//! Results are values flowing from the traversal and the scan tasks to the
//! reporter. The reporter writes one line per match to the output sink:
//! a content match as `<path>::<offset>`, a name match as `<path>`; error
//! results are never written to the output sink — they are handed to the
//! logging collaborator instead.

use crate::errors::AppError;
use crate::matcher::{match_offsets, to_int_seq};
use crate::names::copy_bytes;
use vstd::prelude::*;

verus! {

/// One result of the search.
///
/// A name match carries no entry kind: matches of a directory's path suffix
/// and of a file's base name are reported through the same variant, as the
/// reporting format does not distinguish them.
pub enum SearchResult {
    /// One occurrence of the query inside a file's content, at a
    /// one-past-the-end offset.
    ContentMatch { path: Vec<u8>, offset: usize },
    /// A directory or file whose name satisfies its kind's predicate.
    NameMatch { path: Vec<u8> },
    /// A failure attributable to one work item.
    Error { kind: AppError, path: Vec<u8>, query: Vec<u8> },
}

/// The ASCII digit for `d % 10`.
pub open spec fn dec_digit(d: nat) -> u8 {
    (48 + (d % 10)) as u8
}

/// The decimal digits of `n`, most significant first, as ASCII bytes.
pub open spec fn dec_bytes(n: nat) -> Seq<u8>
    decreases n,
{
    if n < 10 {
        seq![dec_digit(n)]
    } else {
        dec_bytes(n / 10).push(dec_digit(n % 10))
    }
}

/// Writes `n` in decimal, most significant digit first.
pub fn format_usize(n: usize) -> (r: Vec<u8>)
    ensures
        r@ == dec_bytes(n as nat),
    decreases n,
{
    if n < 10 {
        let mut r: Vec<u8> = Vec::new();
        r.push(48 + (n as u8));
        proof {
            assert(r@ =~= dec_bytes(n as nat));
        }
        r
    } else {
        let mut r = format_usize(n / 10);
        r.push(48 + ((n % 10) as u8));
        proof {
            assert(r@ =~= dec_bytes(n as nat));
        }
        r
    }
}

/// The line the reporter writes for a result: path and offset separated by
/// a double colon for a content match, the bare path for a name match, and
/// nothing for an error result.
pub open spec fn output_line(r: SearchResult) -> Option<Seq<u8>> {
    match r {
        SearchResult::ContentMatch { path, offset } => Some(
            path@ + seq![58u8, 58u8] + dec_bytes(offset as nat) + seq![10u8],
        ),
        SearchResult::NameMatch { path } => Some(path@ + seq![10u8]),
        SearchResult::Error { .. } => None,
    }
}

/// Renders one result for the output sink: the full line, newline included,
/// or nothing for an error result, which is only logged.
pub fn format_result(r: &SearchResult) -> (line: Option<Vec<u8>>)
    ensures
        line is Some <==> output_line(*r) is Some,
        line matches Some(v) ==> output_line(*r) matches Some(l) && v@ == l,
{
    match r {
        SearchResult::ContentMatch { path, offset } => {
            let mut v = copy_bytes(path);
            v.push(58);
            v.push(58);
            let digits = format_usize(*offset);
            let mut j: usize = 0;
            proof {
                assert(v@ =~= path@ + seq![58u8, 58u8] + digits@.subrange(0, 0));
            }
            while j < digits.len()
                invariant
                    j <= digits.len(),
                    v@ == path@ + seq![58u8, 58u8] + digits@.subrange(0, j as int),
                decreases digits.len() - j,
            {
                v.push(digits[j]);
                proof {
                    assert(path@ + seq![58u8, 58u8] + digits@.subrange(0, j + 1) =~= (path@
                        + seq![58u8, 58u8] + digits@.subrange(0, j as int)).push(
                        digits@[j as int],
                    ));
                }
                j = j + 1;
            }
            v.push(10);
            proof {
                assert(digits@.subrange(0, digits@.len() as int) =~= digits@);
                assert(v@ =~= path@ + seq![58u8, 58u8] + dec_bytes(*offset as nat) + seq![10u8]);
            }
            Some(v)
        },
        SearchResult::NameMatch { path } => {
            let mut v = copy_bytes(path);
            v.push(10);
            proof {
                assert(v@ =~= path@ + seq![10u8]);
            }
            Some(v)
        },
        SearchResult::Error { .. } => None,
    }
}

/// The results of scanning one file's contents: one content match for every
/// offset the matcher reports, in reported order, each carrying the file's
/// path.
pub fn scan_results(path: &Vec<u8>, query: &Vec<u8>, contents: &Vec<u8>) -> (rs: Vec<SearchResult>)
    ensures
        rs@.len() == match_offsets(contents@, query@).len(),
        forall|j: int|
            0 <= j < rs@.len() ==> ((#[trigger] rs@[j]) matches SearchResult::ContentMatch {
                path: p,
                offset: o,
            } && p@ == path@ && o as int == match_offsets(contents@, query@)[j]),
{
    let offs = crate::matcher::find_matches(contents, query);
    let mut rs: Vec<SearchResult> = Vec::new();
    let mut j: usize = 0;
    while j < offs.len()
        invariant
            j <= offs.len(),
            to_int_seq(offs@) == match_offsets(contents@, query@),
            rs@.len() == j,
            forall|t: int|
                0 <= t < j ==> ((#[trigger] rs@[t]) matches SearchResult::ContentMatch {
                    path: p,
                    offset: o,
                } && p@ == path@ && o as int == match_offsets(contents@, query@)[t]),
        decreases offs.len() - j,
    {
        let p = copy_bytes(path);
        let off: usize = offs[j];
        proof {
            assert(to_int_seq(offs@)[j as int] == offs@[j as int] as int);
        }
        rs.push(SearchResult::ContentMatch { path: p, offset: off });
        j = j + 1;
    }
    rs
}

} // verus!
