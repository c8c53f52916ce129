//! The terminal interface's own state: which panes are on screen, where a
//! scrolling log is being read, and what the command bar is capturing.

use crate::rooms::RoomsState;
use crate::settings::SettingsState;
use crate::text::{owned, str_eq};
use crate::types::{Download, DownloadStatus};
use vstd::prelude::*;

verus! {

/// Whether a search is still collecting answers.
#[derive(Debug, Clone, Copy, PartialEq, Eq, Structural)]
pub enum SearchStatus {
    Active,
    Completed,
}

/// The panes the focus can sit on.
#[derive(Debug, Clone, Copy, PartialEq, Eq, Structural)]
pub enum FocusedPane {
    Searches,
    Results,
    Downloads,
}

/// The number of focusable panes.
pub const PANE_COUNT: usize = 3;

impl FocusedPane {
    /// The pane's place in `Tab` order: the number its legend carries.
    pub open spec fn spec_index(self) -> int {
        match self {
            FocusedPane::Searches => 0,
            FocusedPane::Results => 1,
            FocusedPane::Downloads => 2,
        }
    }

    /// The pane's place in `Tab` order.
    pub fn index(self) -> (i: usize)
        ensures
            i == self.spec_index(),
    {
        match self {
            FocusedPane::Searches => 0,
            FocusedPane::Results => 1,
            FocusedPane::Downloads => 2,
        }
    }

    /// The pane at a place in `Tab` order.
    pub open spec fn spec_at(i: int) -> FocusedPane {
        if i == 0 {
            FocusedPane::Searches
        } else if i == 1 {
            FocusedPane::Results
        } else {
            FocusedPane::Downloads
        }
    }

    /// The pane at place `i` in `Tab` order.
    pub fn at(i: usize) -> (p: FocusedPane)
        requires
            i < PANE_COUNT,
        ensures
            p == Self::spec_at(i as int),
            p.spec_index() == i,
    {
        if i == 0 {
            FocusedPane::Searches
        } else if i == 1 {
            FocusedPane::Results
        } else {
            FocusedPane::Downloads
        }
    }

    /// Every focusable pane, in the order `Tab` walks them.
    pub fn all() -> (r: Vec<FocusedPane>)
        ensures
            r@ == seq![FocusedPane::Searches, FocusedPane::Results, FocusedPane::Downloads],
    {
        vec![FocusedPane::Searches, FocusedPane::Results, FocusedPane::Downloads]
    }
}

/// Which panes are on screen. A hidden pane gives its space to the others;
/// a zoomed one takes the whole content area for itself.
#[derive(Debug, Clone, PartialEq, Eq)]
pub struct PaneLayout {
    hidden: [bool; 3],
    pub zoomed: bool,
}

impl Default for PaneLayout {
    /// Every pane on screen, none zoomed.
    fn default() -> (l: Self)
        ensures
            forall|p: FocusedPane| #[trigger] l.shown(p),
            !l.is_zoomed(),
    {
        PaneLayout { hidden: [false, false, false], zoomed: false }
    }
}

impl PaneLayout {
    /// Whether one pane takes the whole content area.
    pub closed spec fn is_zoomed(self) -> bool {
        self.zoomed
    }

    /// Whether `pane` is on screen.
    pub closed spec fn shown(self, pane: FocusedPane) -> bool {
        !self.hidden@[pane.spec_index()]
    }

    /// How many panes are on screen.
    pub open spec fn shown_count(self) -> int {
        (if self.shown(FocusedPane::Searches) {
            1int
        } else {
            0int
        }) + (if self.shown(FocusedPane::Results) {
            1int
        } else {
            0int
        }) + (if self.shown(FocusedPane::Downloads) {
            1int
        } else {
            0int
        })
    }

    /// Whether `pane` is on screen.
    pub fn is_visible(&self, pane: FocusedPane) -> (b: bool)
        ensures
            b == self.shown(pane),
    {
        !self.hidden[pane.index()]
    }

    /// The panes on screen, in `Tab` order.
    pub open spec fn shown_panes(self) -> Seq<FocusedPane> {
        (if self.shown(FocusedPane::Searches) {
            seq![FocusedPane::Searches]
        } else {
            Seq::empty()
        }) + (if self.shown(FocusedPane::Results) {
            seq![FocusedPane::Results]
        } else {
            Seq::empty()
        }) + (if self.shown(FocusedPane::Downloads) {
            seq![FocusedPane::Downloads]
        } else {
            Seq::empty()
        })
    }

    /// The panes still on screen, in `Tab` order.
    pub fn visible(&self) -> (r: Vec<FocusedPane>)
        ensures
            r@ == self.shown_panes(),
            r@.len() == self.shown_count(),
    {
        let mut r: Vec<FocusedPane> = Vec::new();
        if self.is_visible(FocusedPane::Searches) {
            r.push(FocusedPane::Searches);
        }
        let ghost a = r@;
        if self.is_visible(FocusedPane::Results) {
            r.push(FocusedPane::Results);
        }
        let ghost b = r@;
        if self.is_visible(FocusedPane::Downloads) {
            r.push(FocusedPane::Downloads);
        }
        assert(r@ =~= self.shown_panes());
        r
    }

    /// Takes `pane` off the screen. Refuses, returning `false`, when it is
    /// the last one showing: an empty window has nothing to press a key in.
    pub fn hide_pane(&mut self, pane: FocusedPane) -> (done: bool)
        ensures
            done == (old(self).shown_count() > 1),
            final(self).is_zoomed() == old(self).is_zoomed(),
            done ==> !final(self).shown(pane),
            !done ==> *final(self) == *old(self),
            forall|p: FocusedPane|
                p != pane || !done ==> #[trigger] final(self).shown(p) == old(self).shown(p),
            old(self).shown_count() >= 1 ==> final(self).shown_count() >= 1,
    {
        let count = self.visible().len();
        if count <= 1 {
            return false;
        }
        let i = pane.index();
        self.hidden.set(i, true);
        true
    }

    /// Puts `pane` back on screen.
    pub fn show(&mut self, pane: FocusedPane)
        ensures
            final(self).shown(pane),
            final(self).is_zoomed() == old(self).is_zoomed(),
            forall|p: FocusedPane| p != pane ==> #[trigger] final(self).shown(p) == old(self).shown(p),
    {
        let i = pane.index();
        self.hidden.set(i, false);
    }

    /// The visible pane `k` steps after (or before) `from`, if any of the
    /// first `k` steps lands on one.
    pub open spec fn next_shown(self, from: FocusedPane, forward: bool, k: nat) -> Option<
        FocusedPane,
    >
        decreases k,
    {
        if k == 0 {
            None
        } else {
            match self.next_shown(from, forward, (k - 1) as nat) {
                Some(p) => Some(p),
                None => {
                    let step = if forward {
                        1int
                    } else {
                        2int
                    };
                    let candidate = FocusedPane::spec_at((from.spec_index() + step * k) % 3);
                    if self.shown(candidate) {
                        Some(candidate)
                    } else {
                        None
                    }
                },
            }
        }
    }

    proof fn lemma_next_shown_stable(self, from: FocusedPane, forward: bool, k: nat, m: nat)
        requires
            k <= m,
            self.next_shown(from, forward, k) is Some,
        ensures
            self.next_shown(from, forward, m) == self.next_shown(from, forward, k),
        decreases m - k,
    {
        if k < m {
            self.lemma_next_shown_stable(from, forward, k, (m - 1) as nat);
        }
    }

    /// With a pane on screen, the neighbour of any pane is on screen: the
    /// three steps from `from` visit every place in `Tab` order.
    pub proof fn lemma_neighbour_is_shown(self, from: FocusedPane, forward: bool)
        requires
            self.shown_count() >= 1,
        ensures
            self.shown(self.neighbour_of(from, forward)),
    {
        reveal_with_fuel(PaneLayout::next_shown, 4);
        let step = if forward {
            1int
        } else {
            2int
        };
        let i = from.spec_index();
        let a = FocusedPane::spec_at((i + step * 1) % 3);
        let b = FocusedPane::spec_at((i + step * 2) % 3);
        let c = FocusedPane::spec_at((i + step * 3) % 3);
        assert(a != b && b != c && a != c) by {
            assert(0 <= i < 3);
        }
        assert(self.shown(a) || self.shown(b) || self.shown(c));
    }

    /// The visible pane after (or before) `from`, wrapping around, or
    /// `from` when none is visible.
    pub open spec fn neighbour_of(self, from: FocusedPane, forward: bool) -> FocusedPane {
        match self.next_shown(from, forward, 3) {
            Some(p) => p,
            None => from,
        }
    }

    /// The visible pane after (or before) `from`, wrapping around; `from`
    /// itself may already be hidden, which is how the focus leaves a pane
    /// that was just hidden. With nothing visible the focus stays.
    pub fn neighbour(&self, from: FocusedPane, forward: bool) -> (r: FocusedPane)
        ensures
            r == self.neighbour_of(from, forward),
    {
        let step: usize = if forward {
            1
        } else {
            2
        };
        let mut index = from.index();
        let mut k: usize = 0;
        while k < PANE_COUNT
            invariant
                k <= PANE_COUNT,
                step == (if forward {
                    1int
                } else {
                    2int
                }),
                index < 3,
                index == (from.spec_index() + step * k) % 3,
                self.next_shown(from, forward, k as nat) is None,
            decreases PANE_COUNT - k,
        {
            index = (index + step) % PANE_COUNT;
            assert(index == (from.spec_index() + step * (k + 1)) % 3) by (nonlinear_arith)
                requires
                    index == ((from.spec_index() + step * k) % 3 + step) % 3,
                    0 <= from.spec_index(),
                    0 <= k,
                    step == 1 || step == 2,
            ;
            let candidate = FocusedPane::at(index);
            k = k + 1;
            if self.is_visible(candidate) {
                proof {
                    self.lemma_next_shown_stable(from, forward, k as nat, 3);
                }
                return candidate;
            }
        }
        from
    }
}

/// Where a scrolling log is being read: following its newest line, or held
/// at a row of its history so that arriving lines do not push the reader
/// along. The sizes seen at the last draw let the keys move by a screenful
/// and stop at the ends.
#[derive(Debug, Clone, Copy, PartialEq, Eq, Default)]
pub struct LogView {
    /// The first visible row while held; `None` follows the tail.
    top: Option<usize>,
    /// Rows the log had, and rows the window showed, at the last draw.
    rows: usize,
    height: usize,
}

/// The first row of the last screenful of a log `rows` long shown `height`
/// rows at a time.
pub open spec fn last_top(rows: int, height: int) -> int {
    if rows > height {
        rows - height
    } else {
        0
    }
}

impl LogView {
    /// The row the view is held at, or `None` while following the tail.
    pub closed spec fn held(self) -> Option<usize> {
        self.top
    }

    /// The log's length at the last draw.
    pub closed spec fn rows_seen(self) -> usize {
        self.rows
    }

    /// The window's height at the last draw.
    pub closed spec fn height_seen(self) -> usize {
        self.height
    }

    /// A view that follows the tail of a log not yet drawn.
    pub fn new() -> (v: LogView)
        ensures
            v.held() is None,
            v.rows_seen() == 0,
            v.height_seen() == 0,
    {
        LogView { top: None, rows: 0, height: 0 }
    }

    /// Whether the newest line is on screen, so new lines are being seen.
    pub fn following(&self) -> (b: bool)
        ensures
            b == (self.held() is None),
    {
        self.top.is_none()
    }

    /// Rows a page key moves: what the window showed last time.
    pub fn page(&self) -> (n: usize)
        ensures
            n == self.height_seen(),
    {
        self.height
    }

    fn last_row(&self) -> (n: usize)
        ensures
            n == last_top(self.rows_seen() as int, self.height_seen() as int),
    {
        if self.rows > self.height {
            self.rows - self.height
        } else {
            0
        }
    }

    /// The rows of a log `len` long to draw in a window `height` tall (at
    /// least one row). A held position that has reached the last screenful
    /// goes back to following the tail.
    pub fn window(&mut self, len: usize, height: usize) -> (r: std::ops::Range<usize>)
        ensures
            (r.start as int, r.end as int) == window_range(*old(self), len, height),
            final(self).rows_seen() == len,
            final(self).height_seen() == (if height == 0 {
                1
            } else {
                height
            }),
            ({
                let h = final(self).height_seen() as int;
                let lt = last_top(len as int, h);
                let keep = old(self).held() matches Some(t) && t < lt;
                &&& final(self).held() == (if keep {
                    old(self).held()
                } else {
                    None
                })
                &&& r.start == (if keep {
                    old(self).held().unwrap() as int
                } else {
                    lt
                })
                &&& r.end == (if r.start + h < len {
                    r.start + h
                } else {
                    len as int
                })
            }),
    {
        self.rows = len;
        self.height = if height == 0 {
            1
        } else {
            height
        };
        let lt = self.last_row();
        let top = match self.top {
            Some(t) => {
                if t < lt {
                    t
                } else {
                    self.top = None;
                    lt
                }
            },
            None => lt,
        };
        let end = if len - top > self.height {
            top + self.height
        } else {
            len
        };
        top..end
    }

    /// Moves the window `rows` down the log (up, when negative), clamped at
    /// the top, and holds wherever it lands unless that is the last
    /// screenful.
    pub fn scroll(&mut self, rows: isize)
        ensures
            *final(self) == scrolled(*old(self), rows),
            final(self).rows_seen() == old(self).rows_seen(),
            final(self).height_seen() == old(self).height_seen(),
            ({
                let lt = last_top(old(self).rows_seen() as int, old(self).height_seen() as int);
                let current = match old(self).held() {
                    Some(t) => t as int,
                    None => lt,
                };
                let moved = current + rows;
                let next = if moved < 0 {
                    0
                } else if moved > usize::MAX {
                    usize::MAX as int
                } else {
                    moved
                };
                final(self).held() == (if next < lt {
                    Some(next as usize)
                } else {
                    None
                })
            }),
    {
        let lt = self.last_row();
        let current = match self.top {
            Some(t) => t,
            None => lt,
        };
        let next: usize = if rows < 0 {
            let back: usize = if rows == isize::MIN {
                (isize::MAX as usize) + 1
            } else {
                (-rows) as usize
            };
            if back > current {
                0
            } else {
                current - back
            }
        } else {
            let forward = rows as usize;
            if forward > usize::MAX - current {
                usize::MAX
            } else {
                current + forward
            }
        };
        self.top = if next < lt {
            Some(next)
        } else {
            None
        };
    }

    /// Holds the view at the first row.
    pub fn to_oldest(&mut self)
        ensures
            final(self).held() == Some(0usize),
            final(self).rows_seen() == old(self).rows_seen(),
            final(self).height_seen() == old(self).height_seen(),
    {
        self.top = Some(0);
    }

    /// Follows the tail again.
    pub fn to_newest(&mut self)
        ensures
            final(self).held() is None,
            final(self).rows_seen() == old(self).rows_seen(),
            final(self).height_seen() == old(self).height_seen(),
    {
        self.top = None;
    }
}

/// Where a scroll of `rows` lands, before it is held or let follow: the
/// held row, or the last screenful's first when following, moved by `rows`
/// and clamped to the `usize` range.
pub open spec fn scroll_next(v: LogView, rows: isize) -> int {
    let lt = last_top(v.rows_seen() as int, v.height_seen() as int);
    let current = match v.held() {
        Some(t) => t as int,
        None => lt,
    };
    let moved = current + rows;
    if moved < 0 {
        0
    } else if moved > usize::MAX {
        usize::MAX as int
    } else {
        moved
    }
}

/// The view after a scroll of `rows`: held where it lands unless that is
/// the last screenful, which follows the tail again.
pub closed spec fn scrolled(v: LogView, rows: isize) -> LogView {
    let next = scroll_next(v, rows);
    LogView {
        top: if next < last_top(v.rows_seen() as int, v.height_seen() as int) {
            Some(next as usize)
        } else {
            None
        },
        ..v
    }
}

/// The rows a window `height` tall over a log `len` long shows, from view
/// `v`: from its held row while that is above the last screenful, else the
/// last screenful; a screenful or the rest of the log.
pub open spec fn window_range(v: LogView, len: usize, height: usize) -> (int, int) {
    let h = if height == 0 {
        1int
    } else {
        height as int
    };
    let lt = last_top(len as int, h);
    let start = match v.held() {
        Some(t) => if t < lt {
            t as int
        } else {
            lt
        },
        None => lt,
    };
    (start, if start + h < len {
        start + h
    } else {
        len as int
    })
}

/// Scrolling and then drawing the same log in the same window shows the
/// rows the scroll landed on: it follows the tail exactly when it landed
/// on the last screenful or past it, and otherwise shows a screenful from
/// where it landed (or the rest of the log).
pub proof fn lemma_scroll_then_window(v: LogView, rows: isize)
    requires
        v.height_seen() > 0,
    ensures
        ({
            let next = scroll_next(v, rows);
            let lt = last_top(v.rows_seen() as int, v.height_seen() as int);
            let w = scrolled(v, rows);
            let len = v.rows_seen();
            let h = v.height_seen();
            &&& w.rows_seen() == len
            &&& w.height_seen() == h
            &&& (w.held() is None) == (next >= lt)
            &&& next < lt ==> window_range(w, len, h) == (next, if next + h < len {
                next + h
            } else {
                len as int
            })
        }),
{
}

/// A held view does not move when new lines arrive: drawn again with a
/// longer log, it shows the same rows.
pub proof fn lemma_held_view_ignores_new_rows(t: usize, len: usize, more: usize, h: int)
    requires
        h >= 1,
        len <= more,
        t < last_top(len as int, h),
    ensures
        t < last_top(more as int, h),
{
}

/// A log no taller than its window is never held: whatever the view was,
/// drawing it leaves it following the tail.
pub proof fn lemma_short_log_is_followed(t: usize, len: usize, h: int)
    requires
        h >= 1,
        len <= h,
    ensures
        !(t < last_top(len as int, h)),
{
}

/// What the shared command bar is capturing input for.
#[derive(Debug, Clone, Copy, PartialEq, Eq, Structural)]
pub enum CommandBarMode {
    Search,
    Message,
    Browse,
}

/// Direction of a private message relative to the local user.
#[derive(Debug, Clone, Copy, PartialEq, Eq, Structural)]
pub enum MessageDirection {
    Incoming,
    Outgoing,
}

/// One search result as the interface lists it.
#[derive(Debug, Clone, PartialEq, Eq)]
pub struct FileDisplayData {
    pub filename: String,
    pub size: u64,
    pub username: String,
    pub speed: u32,
    pub slots: u8,
    pub bitrate: Option<u32>,
}

/// A search in the searches pane.
pub struct SearchEntry {
    pub query: String,
    pub status: SearchStatus,
    pub results: Vec<FileDisplayData>,
    /// What the session says this search has found, for a window that has
    /// not fetched the results itself.
    pub known_files: usize,
    /// Whether this window started the search: its own worker knows when it
    /// finishes; for the rest the session is the authority.
    pub owned: bool,
    /// When it started, in milliseconds on the caller's monotonic clock.
    pub started_ms: u64,
}

#[verifier::external_type_specification]
#[verifier::external_body]
#[verifier::reject_recursive_types(T)]
pub struct ExReceiver<T>(std::sync::mpsc::Receiver<T>);

/// A download in the transfers pane, with where its status updates arrive.
pub struct DownloadEntry {
    pub download: Download,
    pub receiver: Option<std::sync::mpsc::Receiver<DownloadStatus>>,
}

/// A private message shown in the chat popup.
pub struct ChatMessage {
    pub direction: MessageDirection,
    /// The other party: the sender of an incoming message, the recipient of
    /// an outgoing one.
    pub peer: String,
    pub text: String,
    /// When it was sent or received, in seconds since the Unix epoch.
    pub at: i64,
}

/// Conversation partners in first-contact order.
pub open spec fn message_peers(msgs: Seq<ChatMessage>) -> Seq<Seq<char>>
    decreases msgs.len(),
{
    if msgs.len() == 0 {
        Seq::empty()
    } else {
        let r = message_peers(msgs.drop_last());
        if r.contains(msgs.last().peer@) {
            r
        } else {
            r.push(msgs.last().peer@)
        }
    }
}

/// The conversations the chat popup can show: those with messages, in
/// first-contact order, then the pinned one if it has none yet.
pub open spec fn conversation_peers(msgs: Seq<ChatMessage>, pinned: Option<Seq<char>>) -> Seq<
    Seq<char>,
> {
    let r = message_peers(msgs);
    match pinned {
        Some(p) => if r.contains(p) {
            r
        } else {
            r.push(p)
        },
        None => r,
    }
}

/// The conversation shown: the pinned peer, else whoever was last talked
/// to.
pub open spec fn active_peer(msgs: Seq<ChatMessage>, pinned: Option<Seq<char>>) -> Option<
    Seq<char>,
> {
    match pinned {
        Some(p) => Some(p),
        None => if msgs.len() == 0 {
            None
        } else {
            Some(msgs.last().peer@)
        },
    }
}

/// Where `active` first stands among `peers`, or 0 when it is absent.
pub open spec fn place_of(peers: Seq<Seq<char>>, active: Option<Seq<char>>) -> int {
    match active {
        Some(a) => if exists|k: int| 0 <= k < peers.len() && peers[k] == a {
            choose|k: int|
                0 <= k < peers.len() && peers[k] == a && forall|j: int|
                    0 <= j < k ==> peers[j] != a
        } else {
            0
        },
        None => 0,
    }
}

/// The place after (or before) `current` among `n`, wrapping around.
pub open spec fn step_place(current: int, n: int, forward: bool) -> int {
    if forward {
        (current + 1) % n
    } else {
        (current + n - 1) % n
    }
}

/// Text of borrowed strings.
pub open spec fn str_views(v: Seq<&str>) -> Seq<Seq<char>> {
    v.map_values(|s: &str| s@)
}

fn has_str(v: &Vec<&str>, s: &str) -> (r: bool)
    ensures
        r == str_views(v@).contains(s@),
{
    let n = v.len();
    let mut i: usize = 0;
    while i < n
        invariant
            n == v@.len(),
            i <= n,
            forall|k: int| 0 <= k < i ==> v@[k]@ != s@,
        decreases n - i,
    {
        if str_eq(v[i], s) {
            assert(str_views(v@)[i as int] == s@);
            return true;
        }
        i = i + 1;
    }
    assert forall|k: int| 0 <= k < str_views(v@).len() implies str_views(v@)[k] != s@ by {
        assert(str_views(v@)[k] == v@[k]@);
    }
    false
}

proof fn lemma_first_place(ps: Seq<Seq<char>>, a: Seq<char>, k: int)
    requires
        0 <= k < ps.len(),
        ps[k] == a,
        forall|j: int| 0 <= j < k ==> ps[j] != a,
    ensures
        place_of(ps, Some(a)) == k,
{
    let c = choose|c: int| 0 <= c < ps.len() && ps[c] == a && forall|j: int| 0 <= j < c ==> ps[j] != a;
    if c < k {
        assert(ps[c] != a);
    }
    if k < c {
        assert(ps[k] != a);
    }
}

/// Where `a` first stands among `v`.
fn first_place(v: &Vec<&str>, a: &str) -> (r: Option<usize>)
    ensures
        match r {
            Some(k) => k < v@.len() && str_views(v@)[k as int] == a@ && forall|j: int|
                0 <= j < k ==> str_views(v@)[j] != a@,
            None => forall|j: int| 0 <= j < v@.len() ==> str_views(v@)[j] != a@,
        },
{
    let n = v.len();
    let mut k: usize = 0;
    while k < n
        invariant
            n == v@.len(),
            k <= n,
            forall|j: int| 0 <= j < k ==> str_views(v@)[j] != a@,
        decreases n - k,
    {
        if str_eq(v[k], a) {
            return Some(k);
        }
        k = k + 1;
    }
    None
}

/// The place after (or before) `current` among `count`, wrapping around.
fn step_in(current: usize, count: usize, forward: bool) -> (r: usize)
    requires
        current < count,
    ensures
        r == step_place(current as int, count as int, forward),
        r < count,
{
    if forward {
        (current + 1) % count
    } else if current == 0 {
        assert((current + count - 1) % (count as int) == count - 1) by (nonlinear_arith)
            requires
                current == 0,
                count > 0,
        ;
        count - 1
    } else {
        assert((current + count - 1) % (count as int) == current - 1) by (nonlinear_arith)
            requires
                0 < current < count,
        ;
        current - 1
    }
}

/// Everything the terminal interface shows and edits, but the widgets'
/// own drawing state.
pub struct AppState {
    pub searches: Vec<SearchEntry>,
    /// The highlighted row of the searches table.
    pub searches_selected: Option<usize>,
    pub selected_search_index: Option<usize>,
    /// Cells the query column is scrolled to the left.
    pub searches_query_offset: usize,
    pub results_items: Vec<FileDisplayData>,
    pub results_filtered_items: Vec<FileDisplayData>,
    pub results_filtered_indices: Vec<usize>,
    /// The highlighted row of the results table.
    pub results_selected: Option<usize>,
    pub results_selected_indices: Vec<usize>,
    pub results_filter_query: String,
    pub results_is_filtering: bool,
    /// Cells the file-name column is scrolled to the left.
    pub results_name_offset: usize,
    pub downloads: Vec<DownloadEntry>,
    /// The highlighted row of the transfers table.
    pub downloads_selected: Option<usize>,
    /// Cells the transfers' file-name column is scrolled to the left.
    pub downloads_name_offset: usize,
    pub active_downloads_count: usize,
    pub focused_pane: FocusedPane,
    pub layout: PaneLayout,
    /// The keys overlay is open.
    pub show_help: bool,
    /// Rows the keys overlay is scrolled down.
    pub help_scroll: usize,
    pub should_exit: bool,
    pub command_bar_active: bool,
    pub command_bar_input: String,
    pub command_bar_cursor_position: usize,
    pub command_bar_mode: CommandBarMode,
    pub messages: Vec<ChatMessage>,
    pub show_messages: bool,
    /// Incoming private messages received while the inbox was closed.
    pub unread_messages: usize,
    /// The conversation the chat popup is pinned to; unset follows the
    /// newest.
    pub chat_peer: Option<String>,
    /// Compose buffer for the active conversation.
    pub chat_input: String,
    pub chat_composing: bool,
    /// Where the conversation is being read.
    pub chat_view: LogView,
    pub show_browse: bool,
    /// The highlighted row of the browse table.
    pub browse_selected: Option<usize>,
    pub rooms: RoomsState,
    pub show_rooms: bool,
    /// The highlighted row of the room list.
    pub rooms_list_selected: Option<usize>,
    /// The settings popup, while open.
    pub settings: Option<SettingsState>,
}

impl AppState {
    /// The pinned conversation's peer, as text.
    pub open spec fn pinned(self) -> Option<Seq<char>> {
        match self.chat_peer {
            Some(p) => Some(p@),
            None => None,
        }
    }

    /// A fresh interface: nothing searched, downloaded or said; the first
    /// row of each table highlighted; every pane on screen, the searches
    /// pane focused; no popup open.
    pub fn new() -> (s: Self)
        ensures
            s.searches@.len() == 0,
            s.searches_selected == Some(0usize),
            s.selected_search_index is None,
            s.searches_query_offset == 0,
            s.results_items@.len() == 0,
            s.results_filtered_items@.len() == 0,
            s.results_filtered_indices@.len() == 0,
            s.results_selected == Some(0usize),
            s.results_selected_indices@.len() == 0,
            s.results_filter_query@.len() == 0,
            !s.results_is_filtering,
            s.results_name_offset == 0,
            s.downloads@.len() == 0,
            s.downloads_selected == Some(0usize),
            s.downloads_name_offset == 0,
            s.active_downloads_count == 0,
            s.focused_pane == FocusedPane::Searches,
            forall|p: FocusedPane| #[trigger] s.layout.shown(p),
            !s.layout.is_zoomed(),
            !s.show_help,
            s.help_scroll == 0,
            !s.should_exit,
            !s.command_bar_active,
            s.command_bar_input@.len() == 0,
            s.command_bar_cursor_position == 0,
            s.command_bar_mode == CommandBarMode::Search,
            s.messages@.len() == 0,
            !s.show_messages,
            s.unread_messages == 0,
            s.chat_peer is None,
            s.chat_input@.len() == 0,
            !s.chat_composing,
            s.chat_view.held() is None,
            s.chat_view.rows_seen() == 0,
            s.chat_view.height_seen() == 0,
            !s.show_browse,
            s.browse_selected is None,
            s.rooms.open@.len() == 0,
            s.rooms.available@.len() == 0,
            s.rooms.active == 0,
            s.rooms.view == crate::rooms::RoomsView::List,
            s.rooms.list_filter@.len() == 0,
            !s.rooms.list_is_filtering,
            s.rooms.list_selected == 0,
            !s.rooms.composing,
            !s.show_rooms,
            s.rooms_list_selected is None,
            s.settings is None,
    {
        AppState {
            searches: Vec::new(),
            searches_selected: Some(0),
            selected_search_index: None,
            searches_query_offset: 0,
            results_items: Vec::new(),
            results_filtered_items: Vec::new(),
            results_filtered_indices: Vec::new(),
            results_selected: Some(0),
            results_selected_indices: Vec::new(),
            results_filter_query: String::new(),
            results_is_filtering: false,
            results_name_offset: 0,
            downloads: Vec::new(),
            downloads_selected: Some(0),
            downloads_name_offset: 0,
            active_downloads_count: 0,
            focused_pane: FocusedPane::Searches,
            layout: PaneLayout::default(),
            show_help: false,
            help_scroll: 0,
            should_exit: false,
            command_bar_active: false,
            command_bar_input: String::new(),
            command_bar_cursor_position: 0,
            command_bar_mode: CommandBarMode::Search,
            messages: Vec::new(),
            show_messages: false,
            unread_messages: 0,
            chat_peer: None,
            chat_input: String::new(),
            chat_composing: false,
            chat_view: LogView::new(),
            show_browse: false,
            browse_selected: None,
            rooms: RoomsState::new(),
            show_rooms: false,
            rooms_list_selected: None,
            settings: None,
        }
    }

    /// How far `pane`'s long column is scrolled sideways.
    pub fn name_offset(&self, pane: FocusedPane) -> (r: usize)
        ensures
            r == match pane {
                FocusedPane::Searches => self.searches_query_offset,
                FocusedPane::Results => self.results_name_offset,
                FocusedPane::Downloads => self.downloads_name_offset,
            },
    {
        match pane {
            FocusedPane::Searches => self.searches_query_offset,
            FocusedPane::Results => self.results_name_offset,
            FocusedPane::Downloads => self.downloads_name_offset,
        }
    }

    /// Scrolls `pane`'s long column sideways to `offset`.
    pub fn set_name_offset(&mut self, pane: FocusedPane, offset: usize)
        ensures
            *final(self) == (match pane {
                FocusedPane::Searches => AppState { searches_query_offset: offset, ..*old(self) },
                FocusedPane::Results => AppState { results_name_offset: offset, ..*old(self) },
                FocusedPane::Downloads => AppState { downloads_name_offset: offset, ..*old(self) },
            }),
    {
        match pane {
            FocusedPane::Searches => self.searches_query_offset = offset,
            FocusedPane::Results => self.results_name_offset = offset,
            FocusedPane::Downloads => self.downloads_name_offset = offset,
        }
    }

    /// Puts the focus on `pane`, bringing it back on screen if it was
    /// hidden: pressing a pane's number is also how it comes back.
    pub fn focus_pane(&mut self, pane: FocusedPane)
        ensures
            final(self).focused_pane == pane,
            final(self).layout.shown(pane),
            forall|p: FocusedPane|
                p != pane ==> (#[trigger] final(self).layout.shown(p) == old(self).layout.shown(p)),
            final(self).layout.is_zoomed() == old(self).layout.is_zoomed(),
    {
        self.layout.show(pane);
        self.focused_pane = pane;
    }

    /// Moves the focus to the next (or previous) pane on screen.
    pub fn cycle_focus(&mut self, forward: bool)
        ensures
            final(self).focused_pane == old(self).layout.neighbour_of(
                old(self).focused_pane,
                forward,
            ),
            final(self).layout == old(self).layout,
            old(self).layout.shown_count() >= 1 ==> final(self).layout.shown(
                final(self).focused_pane,
            ),
    {
        proof {
            if self.layout.shown_count() >= 1 {
                self.layout.lemma_neighbour_is_shown(self.focused_pane, forward);
            }
        }
        self.focused_pane = self.layout.neighbour(self.focused_pane, forward);
    }

    /// Hides the focused pane and moves the focus on to the next one on
    /// screen. The last pane on screen stays, and keeps the focus.
    pub fn hide_focused_pane(&mut self)
        ensures
            old(self).layout.shown_count() <= 1 ==> final(self).layout == old(self).layout
                && final(self).focused_pane == old(self).focused_pane,
            old(self).layout.shown_count() > 1 ==> {
                &&& !final(self).layout.shown(old(self).focused_pane)
                &&& forall|p: FocusedPane|
                    p != old(self).focused_pane ==> (#[trigger] final(self).layout.shown(p)
                        == old(self).layout.shown(p))
                &&& final(self).focused_pane == final(self).layout.neighbour_of(
                    old(self).focused_pane,
                    true,
                )
            },
            final(self).layout.is_zoomed() == old(self).layout.is_zoomed(),
            old(self).layout.shown(old(self).focused_pane) ==> final(self).layout.shown(
                final(self).focused_pane,
            ),
    {
        let pane = self.focused_pane;
        if self.layout.hide_pane(pane) {
            proof {
                self.layout.lemma_neighbour_is_shown(pane, true);
            }
            self.focused_pane = self.layout.neighbour(pane, true);
        }
    }

    /// Zooms the focused pane to the whole content area, or back; hidden
    /// panes stay hidden.
    pub fn toggle_zoom(&mut self)
        ensures
            final(self).layout.is_zoomed() == !old(self).layout.is_zoomed(),
            forall|p: FocusedPane| #[trigger] final(self).layout.shown(p) == old(self).layout.shown(p),
            final(self).focused_pane == old(self).focused_pane,
    {
        self.layout.zoomed = !self.layout.zoomed;
    }

    /// Opens the chat popup on a conversation with `peer`, ready to type.
    pub fn open_chat(&mut self, peer: String)
        ensures
            final(self).chat_peer == Some(peer),
            final(self).chat_input@.len() == 0,
            final(self).chat_view.held() is None,
            final(self).chat_composing,
            final(self).show_messages,
            final(self).unread_messages == 0,
            final(self).messages == old(self).messages,
    {
        self.chat_peer = Some(peer);
        self.chat_input = String::new();
        self.chat_view.to_newest();
        self.chat_composing = true;
        self.show_messages = true;
        self.unread_messages = 0;
    }

    /// The conversation the chat popup shows: the pinned peer, else whoever
    /// was last talked to.
    pub fn active_chat_peer(&self) -> (r: Option<&str>)
        ensures
            match r {
                Some(p) => active_peer(self.messages@, self.pinned()) == Some(p@),
                None => active_peer(self.messages@, self.pinned()) is None,
            },
    {
        match &self.chat_peer {
            Some(p) => Some(p.as_str()),
            None => {
                let n = self.messages.len();
                if n == 0 {
                    None
                } else {
                    Some(self.messages[n - 1].peer.as_str())
                }
            },
        }
    }

    /// Conversation partners in first-contact order, then a pinned peer not
    /// yet written to.
    pub fn chat_peers(&self) -> (r: Vec<&str>)
        ensures
            str_views(r@) == conversation_peers(self.messages@, self.pinned()),
    {
        let n = self.messages.len();
        let mut peers: Vec<&str> = Vec::new();
        let mut i: usize = 0;
        assert(self.messages@.take(0) =~= Seq::<ChatMessage>::empty());
        assert(str_views(peers@) =~= Seq::<Seq<char>>::empty());
        while i < n
            invariant
                n == self.messages@.len(),
                i <= n,
                str_views(peers@) == message_peers(self.messages@.take(i as int)),
            decreases n - i,
        {
            let ghost before = peers@;
            assert(self.messages@.take(i + 1).drop_last() =~= self.messages@.take(i as int));
            let peer = self.messages[i].peer.as_str();
            if !has_str(&peers, peer) {
                peers.push(peer);
                assert(str_views(peers@) =~= str_views(before).push(peer@));
            }
            i = i + 1;
        }
        assert(self.messages@.take(n as int) =~= self.messages@);
        match &self.chat_peer {
            Some(p) => {
                let ghost before = peers@;
                if !has_str(&peers, p.as_str()) {
                    peers.push(p.as_str());
                    assert(str_views(peers@) =~= str_views(before).push(p@));
                }
            },
            None => {},
        }
        peers
    }

    /// Pins the chat popup to the next (or previous) conversation, wrapping
    /// around. Another conversation opens at its end; the same one keeps
    /// its place. With no conversations nothing changes.
    #[verifier::rlimit(40)]
    pub fn cycle_chat_peer(&mut self, forward: bool)
        ensures
            ({
                let ps = conversation_peers(old(self).messages@, old(self).pinned());
                let cur = place_of(ps, active_peer(old(self).messages@, old(self).pinned()));
                let next = step_place(cur, ps.len() as int, forward);
                if ps.len() == 0 {
                    *final(self) == *old(self)
                } else {
                    &&& final(self).pinned() == Some(ps[next])
                    &&& next != cur ==> final(self).chat_view.held() is None
                    &&& next == cur ==> final(self).chat_view == old(self).chat_view
                    &&& *final(self) == AppState {
                        chat_peer: final(self).chat_peer,
                        chat_view: final(self).chat_view,
                        ..*old(self)
                    }
                }
            }),
    {
        let ghost ps = conversation_peers(self.messages@, self.pinned());
        let ghost act = active_peer(self.messages@, self.pinned());
        let peers = self.chat_peers();
        let count = peers.len();
        if count == 0 {
            return;
        }
        let current = match self.active_chat_peer() {
            Some(a) => match first_place(&peers, a) {
                Some(k) => {
                    proof {
                        lemma_first_place(ps, a@, k as int);
                    }
                    k
                },
                None => 0,
            },
            None => 0,
        };
        assert(current == place_of(ps, act));
        let next = step_in(current, count, forward);
        let peer = owned(peers[next]);
        assert(peer@ == ps[next as int]);
        if next != current {
            self.chat_view.to_newest();
        }
        self.chat_peer = Some(peer);
    }
}

} // verus!
