//! The dispatch decisions of the tree walker.
//!
//! The walker drains the work queue and decides, for each pending item,
//! what happens next: a directory is expanded back into the queue, a file
//! is submitted to the worker pool for a content scan, and a failed
//! metadata query yields one error result. Name matches are decided here
//! too, by the kind-specific predicates: a directory matches when its full
//! path ends with the query, a file when its base name contains the query.
//! The walker itself performs no filesystem access: the caller queries the
//! filesystem and hands the classification in as a plain value.

use crate::aggregate::{errs_of, lift};
use crate::errors::AppError;
use crate::names::{base_name, base_name_of, contains_bytes, contains_seq, copy_bytes, ends_with,
    is_suffix};
use crate::result::SearchResult;
use vstd::prelude::*;

verus! {

/// A pending unit of work: a path to classify and the query to search for.
pub struct WorkItem {
    pub path: Vec<u8>,
    pub query: Vec<u8>,
}

/// What the filesystem reported about one path: a directory, any other
/// entry (scanned as a file), or a failed metadata query with its text.
pub enum PathInfo {
    Directory,
    File,
    Failed(String),
}

/// The follow-up work one dispatched item calls for.
pub enum Action {
    /// List the directory's children and enqueue each of them.
    ExpandDir,
    /// Submit a content scan of the file to the worker pool.
    ScanFile,
    /// Nothing further; the item could not be classified.
    Skip,
}

/// The walker's decision for one item: at most one result to emit, and the
/// follow-up work to perform.
pub struct DispatchPlan {
    pub emit: Option<SearchResult>,
    pub action: Action,
}

/// Decides one work item from its classification.
///
/// A directory is always expanded, and yields a name match exactly when its
/// full path ends with the query. A file is always scanned, and yields a
/// name match exactly when its base name contains the query. A failed
/// metadata query yields exactly one error result carrying the item.
pub fn dispatch(item: &WorkItem, info: PathInfo) -> (plan: DispatchPlan)
    ensures
        info matches PathInfo::Failed(m) ==> ({
            &&& plan.action is Skip
            &&& plan.emit matches Some(e)
            &&& e matches SearchResult::Error { kind, path, query }
            &&& kind matches AppError::FileIO(t)
            &&& t@ == m@
            &&& path@ == item.path@
            &&& query@ == item.query@
        }),
        info is Directory ==> plan.action is ExpandDir,
        info is Directory && is_suffix(item.path@, item.query@) ==> ({
            &&& plan.emit matches Some(e)
            &&& e matches SearchResult::NameMatch { path }
            &&& path@ == item.path@
        }),
        info is Directory && !is_suffix(item.path@, item.query@) ==> plan.emit is None,
        info is File ==> plan.action is ScanFile,
        info is File && contains_seq(base_name_of(item.path@), item.query@) ==> ({
            &&& plan.emit matches Some(e)
            &&& e matches SearchResult::NameMatch { path }
            &&& path@ == item.path@
        }),
        info is File && !contains_seq(base_name_of(item.path@), item.query@) ==> plan.emit
            is None,
{
    match info {
        PathInfo::Failed(m) => DispatchPlan {
            emit: Some(
                SearchResult::Error {
                    kind: AppError::FileIO(m),
                    path: copy_bytes(&item.path),
                    query: copy_bytes(&item.query),
                },
            ),
            action: Action::Skip,
        },
        PathInfo::Directory => {
            let emit = if ends_with(&item.path, &item.query) {
                Some(SearchResult::NameMatch { path: copy_bytes(&item.path) })
            } else {
                None
            };
            DispatchPlan { emit, action: Action::ExpandDir }
        },
        PathInfo::File => {
            let base = base_name(&item.path);
            let emit = if contains_bytes(&base, &item.query) {
                Some(SearchResult::NameMatch { path: copy_bytes(&item.path) })
            } else {
                None
            };
            DispatchPlan { emit, action: Action::ScanFile }
        },
    }
}

/// The single outcome of re-enqueuing every child of one directory: no
/// result when every enqueue succeeded, else one error result for the
/// directory aggregating every failure of the listing, in order. Children
/// already enqueued stay enqueued either way.
pub fn dir_children_outcome(item: &WorkItem, sends: Vec<Result<(), AppError>>) -> (r: Option<
    SearchResult,
>)
    ensures
        errs_of(sends@).len() == 0 ==> r is None,
        errs_of(sends@).len() > 0 ==> ({
            &&& r matches Some(res)
            &&& res matches SearchResult::Error { kind, path, query }
            &&& kind matches AppError::Aggregate(es)
            &&& es@ == errs_of(sends@)
            &&& path@ == item.path@
            &&& query@ == item.query@
        }),
{
    match lift(sends) {
        Ok(_) => None,
        Err(e) => Some(
            SearchResult::Error {
                kind: e,
                path: copy_bytes(&item.path),
                query: copy_bytes(&item.query),
            },
        ),
    }
}

} // verus!
