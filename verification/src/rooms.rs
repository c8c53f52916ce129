//! Chat-room UI state: the discoverable room list plus the open rooms (tabs).

use crate::rank::{is_ranked, ranked_copy, Duplicate, Ranked};
use crate::text::{has_substring, lemma_seq_less_order, lowercase, seq_less, str_eq, str_less, to_lowercase, contains_str, owned};
use crate::types::{RoomEvent, RoomInfo};
use vstd::prelude::*;

verus! {

broadcast use vstd::seq_lib::group_to_multiset_ensures;

/// One line in a room's chat log. A `None` username marks a system line
/// (joins and leaves).
#[derive(Debug, Clone, PartialEq, Eq)]
pub struct RoomLine {
    pub username: Option<String>,
    pub text: String,
}

/// A chat room the user has open (a tab).
#[derive(Debug, Clone, Default)]
pub struct OpenRoom {
    pub name: String,
    pub users: Vec<String>,
    pub lines: Vec<RoomLine>,
    /// Unread messages received while this room was not being viewed.
    pub unread: usize,
    /// Per-room compose buffer.
    pub input: String,
}

impl OpenRoom {
    /// Whether this is a tab just opened on `name`: no members, no lines, no
    /// unread count and an empty compose buffer.
    pub open spec fn is_fresh(self, name: Seq<char>) -> bool {
        &&& self.name@ == name
        &&& self.users@ == Seq::<String>::empty()
        &&& self.lines@ == Seq::<RoomLine>::empty()
        &&& self.unread == 0
        &&& self.input@ == Seq::<char>::empty()
    }

    fn fresh(name: &str) -> (r: OpenRoom)
        ensures
            r.is_fresh(name@),
    {
        let r = OpenRoom {
            name: owned(name),
            users: Vec::new(),
            lines: Vec::new(),
            unread: 0,
            input: String::new(),
        };
        assert(r.users@ =~= Seq::<String>::empty());
        assert(r.lines@ =~= Seq::<RoomLine>::empty());
        r
    }
}

/// Which sub-view of the rooms popup is showing.
#[derive(Debug, Clone, Copy, PartialEq, Eq, Structural)]
pub enum RoomsView {
    /// The browsable, filterable list of public rooms.
    List,
    /// The open-room tabs and their chat logs.
    Chat,
}

/// Whether a room is listed under the filter `needle` (already lowercased).
pub open spec fn room_matches(r: RoomInfo, needle: Seq<char>) -> bool {
    needle.len() == 0 || has_substring(lowercase(r.name@), needle)
}

impl Ranked<()> for RoomInfo {
    /// Busiest first, then by name.
    open spec fn before(self, other: Self, by: ()) -> bool {
        self.user_count > other.user_count || (self.user_count == other.user_count && seq_less(
            self.name@,
            other.name@,
        ))
    }

    proof fn lemma_before_asymmetric(a: Self, b: Self, by: ()) {
        lemma_seq_less_order(a.name@, b.name@, b.name@);
    }

    proof fn lemma_before_transitive(a: Self, b: Self, c: Self, by: ()) {
        lemma_seq_less_order(a.name@, b.name@, c.name@);
    }

    fn precedes(&self, other: &Self, by: &()) -> (r: bool) {
        self.user_count > other.user_count || (self.user_count == other.user_count && str_less(
            self.name.as_str(),
            other.name.as_str(),
        ))
    }
}

impl Duplicate for RoomInfo {
    fn duplicate(&self) -> (r: Self) {
        RoomInfo::duplicate(self)
    }
}

/// The index of the first open room called `name`.
pub open spec fn room_position(open: Seq<OpenRoom>, name: Seq<char>) -> Option<int>
    decreases open.len(),
{
    if open.len() == 0 {
        None
    } else {
        match room_position(open.drop_last(), name) {
            Some(i) => Some(i),
            None => if open.last().name@ == name {
                Some(open.len() - 1)
            } else {
                None
            },
        }
    }
}

/// What `room_position` finds: the first room of that name, or no room of it.
pub proof fn lemma_room_position(open: Seq<OpenRoom>, name: Seq<char>)
    ensures
        match room_position(open, name) {
            Some(i) => 0 <= i < open.len() && open[i].name@ == name && forall|j: int|
                0 <= j < i ==> (#[trigger] open[j]).name@ != name,
            None => forall|j: int| 0 <= j < open.len() ==> (#[trigger] open[j]).name@ != name,
        },
    decreases open.len(),
{
    if open.len() > 0 {
        lemma_room_position(open.drop_last(), name);
        assert forall|j: int| 0 <= j < open.len() - 1 implies open[j] == open.drop_last()[j] by {}
    }
}

proof fn lemma_room_position_prefix(open: Seq<OpenRoom>, k: int, name: Seq<char>)
    requires
        0 <= k <= open.len(),
        room_position(open.take(k), name) is Some,
    ensures
        room_position(open, name) == room_position(open.take(k), name),
    decreases open.len() - k,
{
    if k < open.len() {
        assert(open.drop_last().take(k) =~= open.take(k));
        lemma_room_position_prefix(open.drop_last(), k, name);
    } else {
        assert(open.take(k) =~= open);
    }
}

/// All chat-room UI state.
pub struct RoomsState {
    /// Latest public-room snapshot from the server.
    pub available: Vec<RoomInfo>,
    pub list_filter: String,
    pub list_is_filtering: bool,
    /// Selected index into the *filtered* room list.
    pub list_selected: usize,
    /// Rooms the user has joined (tabs).
    pub open: Vec<OpenRoom>,
    /// Index into `open` of the active tab.
    pub active: usize,
    pub view: RoomsView,
    /// Whether the compose input for the active room is capturing keys.
    pub composing: bool,
}

/// The tab after `active` among `len` tabs, wrapping to the first.
pub open spec fn next_index(active: int, len: int) -> int {
    (active + 1) % len
}

/// The tab before `active` among `len` tabs, wrapping to the last.
pub open spec fn prev_index(active: int, len: int) -> int {
    (active + len - 1) % len
}

/// Stepping to the next tab and back, or back and on again, returns to the
/// tab one started from.
pub proof fn lemma_tab_steps_undo_each_other(active: int, len: int)
    requires
        0 <= active < len,
    ensures
        prev_index(next_index(active, len), len) == active,
        next_index(prev_index(active, len), len) == active,
        0 <= next_index(active, len) < len,
        0 <= prev_index(active, len) < len,
{
    if active + 1 < len {
        vstd::arithmetic::div_mod::lemma_small_mod((active + 1) as nat, len as nat);
        vstd::arithmetic::div_mod::lemma_small_mod(active as nat, len as nat);
        assert(next_index(active, len) == active + 1);
        assert(prev_index(active + 1, len) == (active + len) % len);
        vstd::arithmetic::div_mod::lemma_mod_add_multiples_vanish(active, len);
    } else {
        vstd::arithmetic::div_mod::lemma_mod_self_0(len);
        assert(next_index(active, len) == 0);
        vstd::arithmetic::div_mod::lemma_small_mod((len - 1) as nat, len as nat);
    }
    if active > 0 {
        vstd::arithmetic::div_mod::lemma_mod_add_multiples_vanish(active - 1, len);
        vstd::arithmetic::div_mod::lemma_small_mod((active - 1) as nat, len as nat);
        vstd::arithmetic::div_mod::lemma_small_mod(active as nat, len as nat);
    } else {
        vstd::arithmetic::div_mod::lemma_small_mod((len - 1) as nat, len as nat);
        vstd::arithmetic::div_mod::lemma_mod_self_0(len);
    }
}

impl RoomsState {
    /// The public rooms the current filter keeps, in snapshot order.
    pub open spec fn listed(self) -> Seq<RoomInfo> {
        self.available@.filter(|r: RoomInfo| room_matches(r, lowercase(self.list_filter@)))
    }

    /// No rooms, no tabs, the list view.
    pub fn new() -> (s: Self)
        ensures
            s.available@.len() == 0,
            s.list_filter@.len() == 0,
            !s.list_is_filtering,
            s.list_selected == 0,
            s.open@.len() == 0,
            s.active == 0,
            s.view == RoomsView::List,
            !s.composing,
    {
        RoomsState {
            available: Vec::new(),
            list_filter: String::new(),
            list_is_filtering: false,
            list_selected: 0,
            open: Vec::new(),
            active: 0,
            view: RoomsView::List,
            composing: false,
        }
    }

    /// The public rooms matching the current filter (case-insensitively),
    /// busiest first then by name.
    pub fn filtered_rooms(&self) -> (r: Vec<RoomInfo>)
        ensures
            r@.to_multiset() == self.listed().to_multiset(),
            is_ranked(r@, ()),
    {
        let needle = to_lowercase(self.list_filter.as_str());
        let ghost pred = |r: RoomInfo| room_matches(r, lowercase(self.list_filter@));
        let mut kept: Vec<RoomInfo> = Vec::new();
        let n = self.available.len();
        let mut i: usize = 0;
        assert(self.available@.take(0) =~= Seq::<RoomInfo>::empty());
        proof {
            reveal(Seq::filter);
        }
        while i < n
            invariant
                n == self.available@.len(),
                i <= n,
                needle@ == lowercase(self.list_filter@),
                pred == (|r: RoomInfo| room_matches(r, lowercase(self.list_filter@))),
                kept@ == self.available@.take(i as int).filter(pred),
            decreases n - i,
        {
            let room = &self.available[i];
            let keep = if needle.unicode_len() == 0 {
                true
            } else {
                let name = to_lowercase(room.name.as_str());
                contains_str(name.as_str(), needle.as_str())
            };
            assert(keep == pred(self.available@[i as int]));
            proof {
                reveal(Seq::filter);
            }
            assert(self.available@.take(i + 1).drop_last() =~= self.available@.take(i as int));
            assert(self.available@.take(i + 1).last() == self.available@[i as int]);
            if keep {
                kept.push(room.duplicate());
            }
            i = i + 1;
        }
        assert(self.available@.take(n as int) =~= self.available@);
        ranked_copy(&kept, &())
    }
}


impl RoomsState {
    /// The list half of the state is the same in `self` and `other`.
    pub open spec fn same_list(self, other: Self) -> bool {
        &&& self.available == other.available
        &&& self.list_filter == other.list_filter
        &&& self.list_is_filtering == other.list_is_filtering
        &&& self.list_selected == other.list_selected
        &&& self.composing == other.composing
    }

    /// The tabs of `open` with the unread badge of tab `i` cleared.
    pub open spec fn read_at(open: Seq<OpenRoom>, i: int) -> Seq<OpenRoom> {
        if 0 <= i < open.len() {
            open.update(i, OpenRoom { unread: 0, ..open[i] })
        } else {
            open
        }
    }

    /// The room name highlighted in the list view, if any: the entry at
    /// `list_selected` of the ranked, filtered list.
    pub fn selected_room_name(&self) -> (r: Option<String>)
        ensures
            r is Some <==> self.list_selected < self.listed().len(),
            r matches Some(n) ==> exists|s: Seq<RoomInfo>|
                #![trigger is_ranked(s, ())]
                s.to_multiset() == self.listed().to_multiset() && is_ranked(s, ())
                    && s[self.list_selected as int].name == n,
    {
        let rooms = self.filtered_rooms();
        proof {
            rooms@.to_multiset_ensures();
            self.listed().to_multiset_ensures();
        }
        if self.list_selected < rooms.len() {
            Some(rooms[self.list_selected].name.clone())
        } else {
            None
        }
    }

    /// The index of the tab showing `name`.
    pub fn open_index(&self, name: &str) -> (r: Option<usize>)
        ensures
            match r {
                Some(i) => room_position(self.open@, name@) == Some(i as int),
                None => room_position(self.open@, name@) is None,
            },
    {
        let n = self.open.len();
        let mut i: usize = 0;
        assert(self.open@.take(0) =~= Seq::<OpenRoom>::empty());
        while i < n
            invariant
                n == self.open@.len(),
                i <= n,
                room_position(self.open@.take(i as int), name@) is None,
            decreases n - i,
        {
            assert(self.open@.take(i + 1).drop_last() =~= self.open@.take(i as int));
            if str_eq(self.open[i].name.as_str(), name) {
                proof {
                    lemma_room_position_prefix(self.open@, i + 1, name@);
                }
                return Some(i);
            }
            i = i + 1;
        }
        assert(self.open@.take(n as int) =~= self.open@);
        None
    }

    /// The active tab, when there is one.
    pub fn active_room(&self) -> (r: Option<&OpenRoom>)
        ensures
            r == (if self.active < self.open@.len() {
                Some(&self.open@[self.active as int])
            } else {
                None
            }),
    {
        if self.active < self.open.len() {
            Some(&self.open[self.active])
        } else {
            None
        }
    }

    /// Clear the unread badge on the active room.
    pub fn mark_active_read(&mut self)
        ensures
            final(self).open@ == Self::read_at(old(self).open@, old(self).active as int),
            final(self).active == old(self).active,
            final(self).view == old(self).view,
            final(self).same_list(*old(self)),
    {
        if self.active < self.open.len() {
            let mut room = self.open.remove(self.active);
            room.unread = 0;
            self.open.insert(self.active, room);
            assert(self.open@ =~= Self::read_at(old(self).open@, old(self).active as int));
        }
    }

    /// Open (or focus) a room by name, switching to the chat view. Returns
    /// whether the room was newly opened (so the caller should join it).
    pub fn focus_or_open(&mut self, name: &str) -> (opened: bool)
        ensures
            final(self).view == RoomsView::Chat,
            final(self).same_list(*old(self)),
            match room_position(old(self).open@, name@) {
                Some(i) => {
                    &&& !opened
                    &&& final(self).active == i
                    &&& final(self).open@ == Self::read_at(old(self).open@, i)
                },
                None => {
                    &&& opened
                    &&& final(self).open@.len() == old(self).open@.len() + 1
                    &&& final(self).open@.drop_last() == old(self).open@
                    &&& final(self).open@.last().is_fresh(name@)
                    &&& final(self).active == old(self).open@.len()
                },
            },
    {
        self.view = RoomsView::Chat;
        match self.open_index(name) {
            Some(idx) => {
                proof {
                    lemma_room_position(self.open@, name@);
                }
                self.active = idx;
                self.mark_active_read();
                false
            },
            None => {
                self.open.push(OpenRoom::fresh(name));
                self.active = self.open.len() - 1;
                assert(self.open@.drop_last() =~= old(self).open@);
                true
            },
        }
    }

    /// Close the active tab, returning its room name.
    pub fn close_active(&mut self) -> (r: Option<String>)
        ensures
            final(self).same_list(*old(self)),
            old(self).active >= old(self).open@.len() ==> {
                &&& r is None
                &&& final(self).open == old(self).open
                &&& final(self).active == old(self).active
                &&& final(self).view == old(self).view
            },
            old(self).active < old(self).open@.len() ==> {
                let gone = old(self).active as int;
                let rest = old(self).open@.remove(gone);
                &&& r == Some(old(self).open@[gone].name)
                &&& final(self).open@ == rest
                &&& final(self).active == (if gone < rest.len() {
                    gone
                } else if rest.len() == 0 {
                    0
                } else {
                    rest.len() - 1
                })
                &&& final(self).view == (if rest.len() == 0 {
                    RoomsView::List
                } else {
                    old(self).view
                })
            },
    {
        if self.active >= self.open.len() {
            return None;
        }
        let room = self.open.remove(self.active);
        if self.active >= self.open.len() {
            self.active = if self.open.len() == 0 { 0 } else { self.open.len() - 1 };
        }
        if self.open.len() == 0 {
            self.view = RoomsView::List;
        }
        Some(room.name)
    }

    /// Move to the next tab, wrapping around, and mark it read.
    pub fn next_tab(&mut self)
        ensures
            final(self).same_list(*old(self)),
            final(self).view == old(self).view,
            old(self).open@.len() == 0 ==> final(self).open == old(self).open && final(self).active
                == old(self).active,
            old(self).open@.len() > 0 ==> {
                &&& final(self).active == next_index(old(self).active as int, old(self).open@.len() as int)
                &&& final(self).open@ == Self::read_at(old(self).open@, final(self).active as int)
            },
    {
        let n = self.open.len();
        if n > 0 {
            let a = self.active % n;
            proof {
                vstd::arithmetic::div_mod::lemma_add_mod_noop(old(self).active as int, 1, n as int);
                vstd::arithmetic::div_mod::lemma_small_mod(a as nat, n as nat);
                if n > 1 {
                    vstd::arithmetic::div_mod::lemma_small_mod(1, n as nat);
                    if a + 1 < n {
                        vstd::arithmetic::div_mod::lemma_small_mod((a + 1) as nat, n as nat);
                    } else {
                        vstd::arithmetic::div_mod::lemma_mod_self_0(n as int);
                    }
                } else {
                    assert((old(self).active + 1) % 1 == 0);
                }
            }
            self.active = if a + 1 == n {
                0
            } else {
                a + 1
            };
            self.mark_active_read();
        }
    }

    /// Move to the previous tab, wrapping around, and mark it read.
    pub fn prev_tab(&mut self)
        ensures
            final(self).same_list(*old(self)),
            final(self).view == old(self).view,
            old(self).open@.len() == 0 ==> final(self).open == old(self).open && final(self).active
                == old(self).active,
            old(self).open@.len() > 0 ==> {
                &&& final(self).active == prev_index(old(self).active as int, old(self).open@.len() as int)
                &&& final(self).open@ == Self::read_at(old(self).open@, final(self).active as int)
            },
    {
        let n = self.open.len();
        if n > 0 {
            let a = self.active % n;
            proof {
                let len = n as int;
                vstd::arithmetic::div_mod::lemma_add_mod_noop(old(self).active as int, len - 1, len);
                vstd::arithmetic::div_mod::lemma_small_mod((len - 1) as nat, n as nat);
                vstd::arithmetic::div_mod::lemma_small_mod(a as nat, n as nat);
                if a == 0 {
                    assert((a + (len - 1)) % len == len - 1);
                } else {
                    vstd::arithmetic::div_mod::lemma_mod_add_multiples_vanish(a - 1, len);
                    vstd::arithmetic::div_mod::lemma_small_mod((a - 1) as nat, n as nat);
                    assert(a + (len - 1) == len + (a - 1));
                }
            }
            self.active = if a == 0 {
                n - 1
            } else {
                a - 1
            };
            self.mark_active_read();
        }
    }

    /// Total unread messages across all open rooms.
    pub fn total_unread(&self) -> (t: usize)
        requires
            unread_sum(self.open@) <= usize::MAX,
        ensures
            t == unread_sum(self.open@),
    {
        let n = self.open.len();
        let mut t: usize = 0;
        let mut i: usize = 0;
        assert(self.open@.take(0) =~= Seq::<OpenRoom>::empty());
        while i < n
            invariant
                n == self.open@.len(),
                i <= n,
                t == unread_sum(self.open@.take(i as int)),
                unread_sum(self.open@) <= usize::MAX,
            decreases n - i,
        {
            assert(self.open@.take(i + 1).drop_last() =~= self.open@.take(i as int));
            proof {
                lemma_unread_sum_prefix(self.open@, i + 1);
            }
            t = t + self.open[i].unread;
            i = i + 1;
        }
        assert(self.open@.take(n as int) =~= self.open@);
        t
    }
}

/// The unread counts of `open`, added up.
pub open spec fn unread_sum(open: Seq<OpenRoom>) -> nat
    decreases open.len(),
{
    if open.len() == 0 {
        0
    } else {
        unread_sum(open.drop_last()) + open.last().unread as nat
    }
}

proof fn lemma_unread_sum_prefix(open: Seq<OpenRoom>, k: int)
    requires
        0 <= k <= open.len(),
    ensures
        unread_sum(open.take(k)) <= unread_sum(open),
    decreases open.len() - k,
{
    if k < open.len() {
        lemma_unread_sum_prefix(open.drop_last(), k);
        assert(open.drop_last().take(k) =~= open.take(k));
    } else {
        assert(open.take(k) =~= open);
    }
}

/// A line nobody said: a join or a leave.
pub open spec fn is_system_line(l: RoomLine, text: Seq<char>) -> bool {
    l.username is None && l.text@ == text
}

/// `new` is `old` with one more line at the end.
pub open spec fn appended(old: Seq<RoomLine>, new: Seq<RoomLine>) -> bool {
    new.len() == old.len() + 1 && new.drop_last() == old
}

/// The lines a tab had before the change (none for a tab just opened).
pub open spec fn prior_lines(p: Option<OpenRoom>) -> Seq<RoomLine> {
    match p {
        Some(t) => t.lines@,
        None => Seq::empty(),
    }
}

/// The members a tab had before the change.
pub open spec fn prior_users(p: Option<OpenRoom>) -> Seq<String> {
    match p {
        Some(t) => t.users@,
        None => Seq::empty(),
    }
}

/// The unread count a tab had before the change.
pub open spec fn prior_unread(p: Option<OpenRoom>) -> nat {
    match p {
        Some(t) => t.unread as nat,
        None => 0,
    }
}

/// The compose buffer a tab had before the change.
pub open spec fn prior_input(p: Option<OpenRoom>) -> Seq<char> {
    match p {
        Some(t) => t.input@,
        None => Seq::empty(),
    }
}

/// What a room event does to the tab it concerns.
pub enum TabChange {
    /// We joined: the member list is replaced and a join line added.
    Joined(Vec<String>),
    /// We left: a leave line is added.
    Left,
    /// A chat line; `seen` when the user is looking at the room.
    Said { username: String, message: String, seen: bool },
    /// Someone came in.
    Arrived(String),
    /// Someone went out.
    Departed(String),
}

/// Whether tab `t` is what `change` makes of the tab `p` had been (`None`
/// for a tab that had to be opened).
pub open spec fn change_ok(change: TabChange, p: Option<OpenRoom>, t: OpenRoom) -> bool {
    &&& appended(prior_lines(p), t.lines@)
    &&& t.input@ == prior_input(p)
    &&& match change {
        TabChange::Joined(users) => {
            &&& t.users == users
            &&& is_system_line(t.lines@.last(), joined_text())
            &&& t.unread == prior_unread(p)
        },
        TabChange::Left => {
            &&& t.users@ == prior_users(p)
            &&& is_system_line(t.lines@.last(), left_text())
            &&& t.unread == prior_unread(p)
        },
        TabChange::Said { username, message, seen } => {
            &&& t.users@ == prior_users(p)
            &&& t.lines@.last().username == Some(username)
            &&& t.lines@.last().text == message
            &&& t.unread == prior_unread(p) + (if seen {
                0int
            } else {
                1int
            })
        },
        TabChange::Arrived(username) => {
            &&& t.users@ == (if names_of(prior_users(p)).contains(username@) {
                prior_users(p)
            } else {
                prior_users(p).push(username)
            })
            &&& is_system_line(t.lines@.last(), arrival_text(username@))
            &&& t.unread == prior_unread(p)
        },
        TabChange::Departed(username) => {
            &&& t.users@ == prior_users(p).filter(|u: String| u@ != username@)
            &&& is_system_line(t.lines@.last(), departure_text(username@))
            &&& t.unread == prior_unread(p)
        },
    }
}

/// Whether `viewing` names the room `room`.
pub open spec fn is_viewing(viewing: Option<&str>, room: Seq<char>) -> bool {
    match viewing {
        Some(v) => v@ == room,
        None => false,
    }
}

/// The tab called `name` changed as `change` says, opening it first when
/// there is none; every other tab is untouched.
pub open spec fn tab_changed(
    old: Seq<OpenRoom>,
    new: Seq<OpenRoom>,
    name: Seq<char>,
    change: TabChange,
) -> bool {
    match room_position(old, name) {
        Some(i) => {
            &&& new.len() == old.len()
            &&& forall|j: int| 0 <= j < old.len() && j != i ==> new[j] == old[j]
            &&& new[i].name == old[i].name
            &&& change_ok(change, Some(old[i]), new[i])
        },
        None => {
            &&& new.len() == old.len() + 1
            &&& new.drop_last() == old
            &&& new.last().name@ == name
            &&& change_ok(change, None, new.last())
        },
    }
}

/// Like `tab_changed`, but nothing happens when no tab is called `name`.
pub open spec fn open_tab_changed(
    old: Seq<OpenRoom>,
    new: Seq<OpenRoom>,
    name: Seq<char>,
    change: TabChange,
) -> bool {
    match room_position(old, name) {
        Some(i) => tab_changed(old, new, name, change),
        None => new == old,
    }
}

/// The text of the line marking that we joined.
pub open spec fn joined_text() -> Seq<char> {
    "— joined —"@
}

/// The text of the line marking that we left.
pub open spec fn left_text() -> Seq<char> {
    "— left —"@
}

/// The line marking that `user` came in.
pub open spec fn arrival_text(user: Seq<char>) -> Seq<char> {
    "→ "@ + user
}

/// The line marking that `user` went out.
pub open spec fn departure_text(user: Seq<char>) -> Seq<char> {
    "← "@ + user
}

/// Member names as text.
pub open spec fn names_of(users: Seq<String>) -> Seq<Seq<char>> {
    users.map_values(|u: String| u@)
}

fn remove_member(users: &Vec<String>, who: &str) -> (r: Vec<String>)
    ensures
        r@ == users@.filter(|u: String| u@ != who@),
{
    let ghost pred = |u: String| u@ != who@;
    let mut r: Vec<String> = Vec::new();
    let n = users.len();
    let mut i: usize = 0;
    assert(users@.take(0) =~= Seq::<String>::empty());
    proof {
        reveal(Seq::filter);
    }
    while i < n
        invariant
            n == users@.len(),
            i <= n,
            pred == (|u: String| u@ != who@),
            r@ == users@.take(i as int).filter(pred),
        decreases n - i,
    {
        assert(users@.take(i + 1).drop_last() =~= users@.take(i as int));
        proof {
            reveal(Seq::filter);
        }
        if !str_eq(users[i].as_str(), who) {
            r.push(users[i].clone());
        }
        i = i + 1;
    }
    assert(users@.take(n as int) =~= users@);
    r
}

fn has_member(users: &Vec<String>, who: &str) -> (b: bool)
    ensures
        b == names_of(users@).contains(who@),
{
    let n = users.len();
    let mut i: usize = 0;
    while i < n
        invariant
            n == users@.len(),
            i <= n,
            forall|k: int| 0 <= k < i ==> users@[k]@ != who@,
        decreases n - i,
    {
        if str_eq(users[i].as_str(), who) {
            assert(names_of(users@)[i as int] == who@);
            return true;
        }
        i = i + 1;
    }
    assert forall|k: int| 0 <= k < names_of(users@).len() implies names_of(users@)[k] != who@ by {
        assert(names_of(users@)[k] == users@[k]@);
    }
    false
}

impl RoomsState {
    /// The index of the tab `name`, creating an empty one when necessary.
    fn ensure_open(&mut self, name: &str) -> (idx: usize)
        ensures
            final(self).same_list(*old(self)),
            final(self).active == old(self).active,
            final(self).view == old(self).view,
            match room_position(old(self).open@, name@) {
                Some(i) => idx == i && final(self).open == old(self).open,
                None => {
                    &&& idx == old(self).open@.len()
                    &&& final(self).open@.len() == old(self).open@.len() + 1
                    &&& final(self).open@.drop_last() == old(self).open@
                    &&& final(self).open@.last().is_fresh(name@)
                },
            },
    {
        match self.open_index(name) {
            Some(idx) => idx,
            None => {
                self.open.push(OpenRoom::fresh(name));
                assert(self.open@.drop_last() =~= old(self).open@);
                self.open.len() - 1
            },
        }
    }

    /// Apply a room event. `viewing` is the room the user is looking at,
    /// whose incoming messages accrue no unread badge.
    pub fn apply_event(&mut self, event: RoomEvent, viewing: Option<&str>)
        requires
            forall|j: int|
                0 <= j < old(self).open@.len() ==> (#[trigger] old(self).open@[j]).unread
                    < usize::MAX,
        ensures
            final(self).active == old(self).active,
            final(self).view == old(self).view,
            final(self).list_filter == old(self).list_filter,
            final(self).list_is_filtering == old(self).list_is_filtering,
            final(self).composing == old(self).composing,
            event is List ==> {
                &&& final(self).available == event->List_0
                &&& final(self).open == old(self).open
                &&& final(self).list_selected == (if old(self).list_selected
                    < final(self).listed().len() {
                    old(self).list_selected as int
                } else if final(self).listed().len() == 0 {
                    0
                } else {
                    final(self).listed().len() - 1
                })
            },
            !(event is List) ==> final(self).available == old(self).available
                && final(self).list_selected == old(self).list_selected,
            event is Joined ==> tab_changed(
                old(self).open@,
                final(self).open@,
                event->Joined_room@,
                TabChange::Joined(event->Joined_users),
            ),
            event is Left ==> open_tab_changed(
                old(self).open@,
                final(self).open@,
                event->Left_room@,
                TabChange::Left,
            ),
            event is Message ==> tab_changed(
                old(self).open@,
                final(self).open@,
                event->Message_room@,
                TabChange::Said {
                    username: event->Message_username,
                    message: event->message,
                    seen: is_viewing(viewing, event->Message_room@),
                },
            ),
            event is UserJoined ==> open_tab_changed(
                old(self).open@,
                final(self).open@,
                event->UserJoined_room@,
                TabChange::Arrived(event->UserJoined_username),
            ),
            event is UserLeft ==> open_tab_changed(
                old(self).open@,
                final(self).open@,
                event->UserLeft_room@,
                TabChange::Departed(event->UserLeft_username),
            ),
    {
        match event {
            RoomEvent::List(rooms) => {
                let ghost g = rooms;
                self.available = rooms;
                assert(self.available == g);
                assert(event == RoomEvent::List(g));
                let filtered = self.filtered_rooms();
                let count = filtered.len();
                proof {
                    filtered@.to_multiset_ensures();
                    self.listed().to_multiset_ensures();
                    assert(count == self.listed().len());
                }
                let max = if count == 0 { 0 } else { count - 1 };
                if self.list_selected > max {
                    self.list_selected = max;
                }
                assert(self.open == old(self).open);
                assert(self.list_selected == (if old(self).list_selected < self.listed().len() {
                    old(self).list_selected as int
                } else if self.listed().len() == 0 {
                    0
                } else {
                    self.listed().len() - 1
                }));
            },
            RoomEvent::Joined { room, users } => {
                let ghost before = self.open@;
                proof {
                    lemma_room_position(before, room@);
                }
                let idx = self.ensure_open(room.as_str());
                let ghost mid = self.open@;
                let mut tab = self.open.remove(idx);
                tab.users = users;
                let ghost prior_lines_seq = tab.lines@;
                tab.lines.push(RoomLine { username: None, text: owned("— joined —") });
                assert(tab.lines@.drop_last() =~= prior_lines_seq);
                self.open.insert(idx, tab);
                proof {
                    Self::lemma_tab_put(before, mid, self.open@, room@, idx as int);
                }
            },
            RoomEvent::Left { room } => {
                let ghost before = self.open@;
                proof {
                    lemma_room_position(before, room@);
                }
                if let Some(idx) = self.open_index(room.as_str()) {
                    let mut tab = self.open.remove(idx);
                    let ghost prior_lines_seq = tab.lines@;
                    tab.lines.push(RoomLine { username: None, text: owned("— left —") });
                    assert(tab.lines@.drop_last() =~= prior_lines_seq);
                    self.open.insert(idx, tab);
                    proof {
                        Self::lemma_tab_put(before, before, self.open@, room@, idx as int);
                    }
                }
            },
            RoomEvent::Message { room, username, message } => {
                let ghost before = self.open@;
                proof {
                    lemma_room_position(before, room@);
                }
                let idx = self.ensure_open(room.as_str());
                let ghost mid = self.open@;
                let mut tab = self.open.remove(idx);
                let ghost prior_lines_seq = tab.lines@;
                tab.lines.push(RoomLine { username: Some(username), text: message });
                assert(tab.lines@.drop_last() =~= prior_lines_seq);
                let seen = match viewing {
                    Some(v) => str_eq(v, room.as_str()),
                    None => false,
                };
                if !seen {
                    tab.unread = tab.unread + 1;
                }
                self.open.insert(idx, tab);
                proof {
                    Self::lemma_tab_put(before, mid, self.open@, room@, idx as int);
                }
            },
            RoomEvent::UserJoined { room, username } => {
                let ghost before = self.open@;
                proof {
                    lemma_room_position(before, room@);
                }
                if let Some(idx) = self.open_index(room.as_str()) {
                    let mut tab = self.open.remove(idx);
                    if !has_member(&tab.users, username.as_str()) {
                        tab.users.push(username.clone());
                    }
                    let mut text = owned("→ ");
                    text.append(username.as_str());
                    let ghost prior_lines_seq = tab.lines@;
                    tab.lines.push(RoomLine { username: None, text });
                    assert(tab.lines@.drop_last() =~= prior_lines_seq);
                    self.open.insert(idx, tab);
                    proof {
                        Self::lemma_tab_put(before, before, self.open@, room@, idx as int);
                    }
                }
            },
            RoomEvent::UserLeft { room, username } => {
                let ghost before = self.open@;
                proof {
                    lemma_room_position(before, room@);
                }
                if let Some(idx) = self.open_index(room.as_str()) {
                    let mut tab = self.open.remove(idx);
                    let ghost prior = tab.users@;
                    let who = username.as_str();
                    tab.users = remove_member(&tab.users, who);
                    assert((|u: String| u@ != who@) =~= (|u: String| u@ != username@));
                    let mut text = owned("← ");
                    text.append(username.as_str());
                    let ghost prior_lines_seq = tab.lines@;
                    tab.lines.push(RoomLine { username: None, text });
                    assert(tab.lines@.drop_last() =~= prior_lines_seq);
                    self.open.insert(idx, tab);
                    proof {
                        Self::lemma_tab_put(before, before, self.open@, room@, idx as int);
                    }
                }
            },
        }
    }

    /// Taking tab `i` out of `mid` and putting a changed one back leaves the
    /// other tabs as they were in `before`.
    proof fn lemma_tab_put(
        before: Seq<OpenRoom>,
        mid: Seq<OpenRoom>,
        after: Seq<OpenRoom>,
        name: Seq<char>,
        i: int,
    )
        requires
            0 <= i < mid.len(),
            after.len() == mid.len(),
            forall|j: int| 0 <= j < mid.len() && j != i ==> after[j] == mid[j],
            room_position(before, name) is Some ==> mid == before,
            room_position(before, name) is None ==> mid.drop_last() == before && i == before.len(),
        ensures
            room_position(before, name) is Some ==> forall|j: int|
                0 <= j < before.len() && j != i ==> after[j] == before[j],
            room_position(before, name) is None ==> after.drop_last() == before,
    {
        if room_position(before, name) is None {
            assert(after.drop_last() =~= before);
        }
    }
}

} // verus!
