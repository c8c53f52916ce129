//! What the program knows of a session's searches, wherever the session
//! lives.

use crate::proto::{SearchSummary, Searches};
use vstd::prelude::*;

verus! {

/// What a session knows about one search it has run.
///
/// `started_secs_ago` tells a search still collecting from one that has
/// finished; it is `None` when the session cannot say, which is the local
/// case, where the window that ran the search already knows.
#[derive(Debug, Clone, PartialEq, Eq)]
pub struct SessionSearch {
    pub query: String,
    /// Files found so far, across every peer that has answered.
    pub files: usize,
    pub started_secs_ago: Option<u64>,
}

/// A daemon's search list as the searches of a borrowed session: each with
/// the age the daemon reported.
pub fn sessions_searches(listed: Searches) -> (r: Vec<SessionSearch>)
    ensures
        r@.len() == listed.searches@.len(),
        forall|i: int|
            0 <= i < r@.len() ==> {
                let s = #[trigger] r@[i];
                let d = listed.searches@[i];
                &&& s.query == d.query
                &&& s.files == d.files
                &&& s.started_secs_ago == Some(d.started_secs_ago)
            },
{
    let ghost all = listed.searches@;
    let mut rest = listed.searches;
    let mut backwards: Vec<SearchSummary> = Vec::new();
    while rest.len() > 0
        invariant
            backwards@.len() + rest@.len() == all.len(),
            rest@ == all.take(rest@.len() as int),
            forall|k: int| 0 <= k < backwards@.len() ==> #[trigger] backwards@[k] == all[all.len() - 1 - k],
        decreases rest.len(),
    {
        let x = rest.pop().unwrap();
        backwards.push(x);
    }
    let mut out: Vec<SessionSearch> = Vec::new();
    while backwards.len() > 0
        invariant
            backwards@.len() + out@.len() == all.len(),
            forall|k: int| 0 <= k < backwards@.len() ==> #[trigger] backwards@[k] == all[all.len() - 1 - k],
            forall|i: int|
                0 <= i < out@.len() ==> {
                    let s = #[trigger] out@[i];
                    let d = all[i];
                    &&& s.query == d.query
                    &&& s.files == d.files
                    &&& s.started_secs_ago == Some(d.started_secs_ago)
                },
        decreases backwards.len(),
    {
        let d = backwards.pop().unwrap();
        out.push(SessionSearch { query: d.query, files: d.files, started_secs_ago: Some(d.started_secs_ago) });
    }
    out
}

} // verus!
