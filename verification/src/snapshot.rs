//! What of the interface's state survives a restart, and how the pure part
//! of it comes back. Live handles never leave the process; only plain data
//! goes to disk.

use crate::app_state::{AppState, DownloadEntry, SearchEntry, SearchStatus};
use crate::rooms::OpenRoom;
use crate::state::PersistedDownload;
use crate::text::{contains_text, views};
use crate::types::DownloadStatus;
use vstd::prelude::*;

verus! {

/// The part of the interface's state kept between runs.
#[derive(Debug, Clone, PartialEq, Eq)]
pub struct Snapshot {
    pub downloads: Vec<PersistedDownload>,
    pub queries: Vec<String>,
    pub rooms: Vec<String>,
}

/// A download as kept: its peer, file, size and folder, and whether it
/// completed (failed and timed-out ones did not, so the next start queues
/// them again).
pub open spec fn kept_download(e: DownloadEntry) -> (Seq<char>, Seq<char>, u64, Seq<char>, bool) {
    (
        e.download.username@,
        e.download.filename@,
        e.download.size,
        e.download.download_directory@,
        e.download.status is Completed,
    )
}

/// Downloads as kept.
pub open spec fn kept_downloads(v: Seq<DownloadEntry>) -> Seq<(Seq<char>, Seq<char>, u64, Seq<char>, bool)> {
    v.map_values(|e: DownloadEntry| kept_download(e))
}

/// Kept downloads as values.
pub open spec fn persisted_views(v: Seq<PersistedDownload>) -> Seq<(Seq<char>, Seq<char>, u64, Seq<char>, bool)> {
    v.map_values(|d: PersistedDownload| persisted_view(d))
}

/// A kept download as values.
pub open spec fn persisted_view(d: PersistedDownload) -> (Seq<char>, Seq<char>, u64, Seq<char>, bool) {
    (d.username@, d.filename@, d.size, d.download_directory@, d.completed)
}

/// The texts of `v` in order, each only at its first occurrence.
pub open spec fn first_occurrences(v: Seq<Seq<char>>) -> Seq<Seq<char>>
    decreases v.len(),
{
    if v.len() == 0 {
        Seq::empty()
    } else {
        let r = first_occurrences(v.drop_last());
        if r.contains(v.last()) {
            r
        } else {
            r.push(v.last())
        }
    }
}

/// The queries of some searches, in order.
pub open spec fn search_queries(s: Seq<SearchEntry>) -> Seq<Seq<char>> {
    s.map_values(|e: SearchEntry| e.query@)
}

/// The names of some open rooms, in order.
pub open spec fn room_names(r: Seq<OpenRoom>) -> Seq<Seq<char>> {
    r.map_values(|o: OpenRoom| o.name@)
}

/// Whether `r` is what `state` keeps between runs: every download, each
/// marked completed only when it is; the search queries in order without
/// repeats; and the names of the open rooms.
pub open spec fn captures(state: AppState, r: Snapshot) -> bool {
    &&& persisted_views(r.downloads@) == kept_downloads(state.downloads@)
    &&& views(r.queries@) == first_occurrences(search_queries(state.searches@))
    &&& views(r.rooms@) == room_names(state.rooms.open@)
}

/// Whether `after` is `before` with `queries` restored as inert searches
/// started at `now_ms`, and nothing else changed that is kept.
pub open spec fn restores(before: AppState, after: AppState, queries: Seq<String>, now_ms: u64) -> bool {
    &&& search_queries(after.searches@) == search_queries(before.searches@) + views(queries)
    &&& forall|i: int|
        before.searches@.len() <= i < after.searches@.len() ==> {
            let e = #[trigger] after.searches@[i];
            &&& e.status == SearchStatus::Completed
            &&& e.results@.len() == 0
            &&& e.known_files == 0
            &&& !e.owned
            &&& e.started_ms == now_ms
        }
    &&& forall|i: int|
        0 <= i < before.searches@.len() ==> #[trigger] after.searches@[i] == before.searches@[i]
    &&& after.downloads == before.downloads
    &&& after.rooms == before.rooms
}

impl Snapshot {
    /// What should survive a restart: every download, each marked completed
    /// only when it is; the search queries in order without repeats; and
    /// the names of the open rooms.
    pub fn capture(state: &AppState) -> (r: Self)
        ensures
            captures(*state, r),
    {
        let n = state.downloads.len();
        let mut downloads: Vec<PersistedDownload> = Vec::new();
        let mut i: usize = 0;
        while i < n
            invariant
                n == state.downloads@.len(),
                i <= n,
                persisted_views(downloads@) == kept_downloads(state.downloads@.take(i as int)),
            decreases n - i,
        {
            let d = &state.downloads[i].download;
            let completed = match d.status {
                DownloadStatus::Completed => true,
                _ => false,
            };
            let kept = PersistedDownload {
                username: d.username.clone(),
                filename: d.filename.clone(),
                size: d.size,
                download_directory: d.download_directory.clone(),
                completed,
            };
            let ghost before = downloads@;
            downloads.push(kept);
            assert(persisted_view(kept) == kept_download(state.downloads@[i as int]));
            assert(state.downloads@.take(i + 1) =~= state.downloads@.take(i as int).push(
                state.downloads@[i as int],
            ));
            assert(persisted_views(downloads@) =~= persisted_views(before).push(persisted_view(kept)));
            assert(kept_downloads(state.downloads@.take(i + 1)) =~= kept_downloads(
                state.downloads@.take(i as int),
            ).push(kept_download(state.downloads@[i as int])));
            i = i + 1;
        }
        assert(state.downloads@.take(n as int) =~= state.downloads@);
        let m = state.searches.len();
        let mut queries: Vec<String> = Vec::new();
        let mut j: usize = 0;
        assert(search_queries(state.searches@).take(0) =~= Seq::<Seq<char>>::empty());
        assert(views(queries@) =~= Seq::<Seq<char>>::empty());
        while j < m
            invariant
                m == state.searches@.len(),
                j <= m,
                views(queries@) == first_occurrences(search_queries(state.searches@).take(j as int)),
            decreases m - j,
        {
            let q = &state.searches[j].query;
            let ghost before = queries@;
            assert(search_queries(state.searches@).take(j + 1).drop_last() =~= search_queries(
                state.searches@,
            ).take(j as int));
            assert(search_queries(state.searches@).take(j + 1).last() == q@);
            if !contains_text(&queries, q.as_str()) {
                let copy = q.clone();
                queries.push(copy);
                assert(views(queries@) =~= views(before).push(q@));
            }
            j = j + 1;
        }
        assert(search_queries(state.searches@).take(m as int) =~= search_queries(state.searches@));
        let k = state.rooms.open.len();
        let mut rooms: Vec<String> = Vec::new();
        let mut t: usize = 0;
        while t < k
            invariant
                k == state.rooms.open@.len(),
                t <= k,
                views(rooms@) == room_names(state.rooms.open@).take(t as int),
            decreases k - t,
        {
            let name = state.rooms.open[t].name.clone();
            let ghost before = rooms@;
            assert(name@ == state.rooms.open@[t as int].name@);
            rooms.push(name);
            assert(views(rooms@) =~= views(before).push(name@));
            assert(room_names(state.rooms.open@).take(t + 1) =~= room_names(state.rooms.open@).take(
                t as int,
            ).push(state.rooms.open@[t as int].name@));
            t = t + 1;
        }
        assert(room_names(state.rooms.open@).take(k as int) =~= room_names(state.rooms.open@));
        Snapshot { downloads, queries, rooms }
    }
}

/// Rebuilds the search history from kept queries: each becomes an inert
/// search, completed and without results, started at `now_ms`, after the
/// searches already there. Selecting one shows nothing until it is run
/// again.
pub fn restore_searches(state: &mut AppState, queries: &Vec<String>, now_ms: u64)
    ensures
        restores(*old(state), *final(state), queries@, now_ms),
{
    let n = queries.len();
    let mut i: usize = 0;
    let ghost start = state.searches@;
    assert(views(queries@).take(0) =~= Seq::<Seq<char>>::empty());
    assert(search_queries(start) + views(queries@).take(0) =~= search_queries(start));
    while i < n
        invariant
            n == queries@.len(),
            i <= n,
            state.searches@.len() == start.len() + i,
            search_queries(state.searches@) == search_queries(start) + views(queries@).take(
                i as int,
            ),
            forall|k: int|
                start.len() <= k < state.searches@.len() ==> {
                    let e = #[trigger] state.searches@[k];
                    &&& e.status == SearchStatus::Completed
                    &&& e.results@.len() == 0
                    &&& e.known_files == 0
                    &&& !e.owned
                    &&& e.started_ms == now_ms
                },
            forall|k: int| 0 <= k < start.len() ==> #[trigger] state.searches@[k] == start[k],
            state.downloads == old(state).downloads,
            state.rooms == old(state).rooms,
        decreases n - i,
    {
        let entry = SearchEntry {
            query: queries[i].clone(),
            status: SearchStatus::Completed,
            results: Vec::new(),
            known_files: 0,
            owned: false,
            started_ms: now_ms,
        };
        let ghost before = state.searches@;
        state.searches.push(entry);
        assert(search_queries(state.searches@) =~= search_queries(before).push(queries@[i as int]@));
        assert(views(queries@).take(i + 1) =~= views(queries@).take(i as int).push(
            queries@[i as int]@,
        ));
        i = i + 1;
    }
    assert(views(queries@).take(n as int) =~= views(queries@));
}

/// Restoring kept queries into an interface with no searches, then
/// capturing it, gives the queries back in order, each once.
pub proof fn lemma_restore_then_capture(
    before: AppState,
    after: AppState,
    snapshot: Snapshot,
    queries: Seq<String>,
    now_ms: u64,
)
    requires
        before.searches@.len() == 0,
        restores(before, after, queries, now_ms),
        captures(after, snapshot),
    ensures
        views(snapshot.queries@) == first_occurrences(views(queries)),
{
    assert(search_queries(before.searches@) =~= Seq::<Seq<char>>::empty());
    assert(search_queries(after.searches@) =~= views(queries));
}

} // verus!
