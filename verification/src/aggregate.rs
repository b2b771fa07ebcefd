//! The error aggregation combinator.
//!
//! A batch of fallible outcomes is treated atomically: either every outcome
//! succeeded and the successes are kept in order, or the batch as a whole
//! fails with one aggregate error carrying every individual failure in its
//! original relative order. No partial success is ever reported.

use crate::errors::AppError;
use vstd::prelude::*;

verus! {

/// The success values of a batch, in their original relative order.
pub open spec fn oks_of<T>(s: Seq<Result<T, AppError>>) -> Seq<T>
    decreases s.len(),
{
    if s.len() == 0 {
        Seq::empty()
    } else {
        match s.last() {
            Ok(v) => oks_of(s.drop_last()).push(v),
            Err(_) => oks_of(s.drop_last()),
        }
    }
}

/// The failures of a batch, in their original relative order.
pub open spec fn errs_of<T>(s: Seq<Result<T, AppError>>) -> Seq<AppError>
    decreases s.len(),
{
    if s.len() == 0 {
        Seq::empty()
    } else {
        match s.last() {
            Ok(_) => errs_of(s.drop_last()),
            Err(e) => errs_of(s.drop_last()).push(e),
        }
    }
}

/// Turns a batch of fallible outcomes into all of its successes, in order,
/// or — when at least one outcome failed — into a single aggregate error
/// carrying every failure, in order. Successes of a failed batch are
/// discarded.
pub fn lift<T>(results: Vec<Result<T, AppError>>) -> (r: Result<Vec<T>, AppError>)
    ensures
        errs_of(results@).len() == 0 ==> (r matches Ok(v) && v@ == oks_of(results@)),
        errs_of(results@).len() > 0 ==> (r matches Err(e) && e matches AppError::Aggregate(es)
            && es@ == errs_of(results@)),
{
    let ghost orig: Seq<Result<T, AppError>> = results@;
    let mut rest: Vec<Result<T, AppError>> = results;
    let mut oks: Vec<T> = Vec::new();
    let mut errs: Vec<AppError> = Vec::new();
    proof {
        assert(rest@ =~= orig.subrange(orig.len() - rest@.len(), orig.len() as int));
        assert(orig.subrange(0, 0) =~= Seq::<Result<T, AppError>>::empty());
    }
    while rest.len() > 0
        invariant
            rest@.len() <= orig.len(),
            rest@ == orig.subrange(orig.len() - rest@.len(), orig.len() as int),
            oks@ == oks_of(orig.subrange(0, orig.len() - rest@.len())),
            errs@ == errs_of(orig.subrange(0, orig.len() - rest@.len())),
        decreases rest.len(),
    {
        let ghost k: int = orig.len() - rest@.len();
        let x = rest.remove(0);
        proof {
            assert(x == orig[k]);
            assert(rest@ =~= orig.subrange(k + 1, orig.len() as int));
            assert(orig.subrange(0, k + 1).drop_last() =~= orig.subrange(0, k));
            assert(orig.subrange(0, k + 1).last() == orig[k]);
        }
        match x {
            Ok(v) => oks.push(v),
            Err(e) => errs.push(e),
        }
    }
    proof {
        assert(orig.subrange(0, orig.len() as int) =~= orig);
    }
    if errs.len() == 0 {
        Ok(oks)
    } else {
        Err(AppError::Aggregate(errs))
    }
}

} // verus!
