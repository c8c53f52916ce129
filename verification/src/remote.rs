//! Using a daemon from another process: where it listens, and the client's
//! copy of what the daemon pushed.
//!
//! A remote session cannot ask the daemon to drain on its behalf: that is
//! destructive, and with two clients attached the first to ask would steal
//! the other's events. So the daemon pushes, the mirror accumulates, and
//! draining empties the mirror instead: each event is delivered once, to
//! each client.

use crate::paths::{path_from, path_of};
use crate::text::{owned, str_eq};
use crate::types::{RoomEvent, SessionLoss, SharedDirectory, UserMessage};
use vstd::prelude::*;

verus! {

/// Where a daemon listens.
#[derive(Debug, PartialEq, Eq)]
pub enum Endpoint {
    /// A Unix socket path: local, and authenticated by its permissions.
    Socket(std::path::PathBuf),
    /// `host:port`: needs the token.
    Tcp(String),
}

/// `std::path::MAIN_SEPARATOR`, the platform's path separator: std
/// documents it as `/` on Unix and `\\` on Windows, so it is one of the two;
/// which one depends on the platform the crate is built for.
#[verifier::external_body]
fn main_separator() -> (c: char)
    ensures
        c == '/' || c == '\\',
{
    std::path::MAIN_SEPARATOR
}

/// Whether `c` occurs in `s`.
pub open spec fn has_char(s: Seq<char>, c: char) -> bool {
    exists|i: int| 0 <= i < s.len() && s[i] == c
}

fn contains_char(s: &str, c: char) -> (b: bool)
    ensures
        b == has_char(s@, c),
{
    let n = s.unicode_len();
    let mut i: usize = 0;
    while i < n
        invariant
            n == s@.len(),
            i <= n,
            forall|k: int| 0 <= k < i ==> s@[k] != c,
        decreases n - i,
    {
        if s.get_char(i) == c {
            return true;
        }
        i = i + 1;
    }
    false
}

impl Endpoint {
    /// Reads what the user wrote: a socket path always has a separator and
    /// `host:port` never does.
    pub fn parse(value: &str) -> (e: Endpoint)
        ensures
            has_char(value@, '/') ==> e == Endpoint::Socket(path_of(value@)),
            e matches Endpoint::Socket(p) ==> p == path_of(value@),
            e matches Endpoint::Tcp(a) ==> a@ == value@ && !has_char(value@, '/'),
            !has_char(value@, '/') && !has_char(value@, '\\') ==> (e matches Endpoint::Tcp(a)
                && a@ == value@),
            exists|sep: char|
                (sep == '/' || sep == '\\') && (e is Socket) == (#[trigger] has_char(value@, sep)
                    || has_char(value@, '/')),
    {
        let sep = main_separator();
        if contains_char(value, sep) || contains_char(value, '/') {
            return Endpoint::Socket(path_from(value));
        }
        Endpoint::Tcp(owned(value))
    }

    /// Whether the transport itself proves who we are, so that no token has
    /// to be found.
    pub fn self_authenticating(&self) -> (b: bool)
        ensures
            b == (self is Socket),
    {
        match self {
            Endpoint::Socket(_) => true,
            Endpoint::Tcp(_) => false,
        }
    }
}

/// How many undrained events of one kind a client may accumulate: every
/// attached client is sent everything, and a buffer nobody reads must not
/// grow without bound.
pub const BUFFER_LIMIT: usize = 4096;

/// The buffer `b` after `item` arrives: appended, with the oldest dropped
/// once the buffer is at its limit.
pub open spec fn pushed<T>(b: Seq<T>, item: T) -> Seq<T> {
    if b.len() >= BUFFER_LIMIT {
        b.drop_first().push(item)
    } else {
        b.push(item)
    }
}

/// Appends `item`, dropping the oldest once the buffer is at its limit.
pub fn push_bounded<T>(buffer: &mut Vec<T>, item: T)
    requires
        old(buffer)@.len() <= BUFFER_LIMIT,
    ensures
        final(buffer)@ == pushed(old(buffer)@, item),
        final(buffer)@.len() <= BUFFER_LIMIT,
{
    if buffer.len() >= BUFFER_LIMIT {
        buffer.remove(0);
    }
    buffer.push(item);
}

/// A buffer never holds more than its limit, and always holds the newest
/// event that arrived.
pub proof fn lemma_buffer_bounded<T>(b: Seq<T>, item: T)
    requires
        b.len() <= BUFFER_LIMIT,
    ensures
        pushed(b, item).len() <= BUFFER_LIMIT,
        pushed(b, item).last() == item,
        b.len() < BUFFER_LIMIT ==> pushed(b, item).len() == b.len() + 1,
{
}

/// The buffer `b` after `items` arrive one by one, oldest first.
pub open spec fn filed<T>(b: Seq<T>, items: Seq<T>) -> Seq<T>
    decreases items.len(),
{
    if items.len() == 0 {
        b
    } else {
        pushed(filed(b, items.drop_last()), items.last())
    }
}

/// What a drained buffer hands over at the next drain, after `items`
/// arrived: all of them in arrival order, or the newest `BUFFER_LIMIT` of
/// them when more came. (Each drain then empties the buffer, so the next
/// one starts from nothing again: every event is handed over once.)
pub proof fn lemma_filed_after_drain<T>(items: Seq<T>)
    ensures
        filed(Seq::<T>::empty(), items) == (if items.len() <= BUFFER_LIMIT {
            items
        } else {
            items.skip(items.len() - BUFFER_LIMIT)
        }),
    decreases items.len(),
{
    if items.len() > 0 {
        let dl = items.drop_last();
        lemma_filed_after_drain(dl);
        let p = filed(Seq::<T>::empty(), dl);
        let x = items.last();
        assert(filed(Seq::<T>::empty(), items) == pushed(p, x));
        let n = items.len() as int;
        let lim = BUFFER_LIMIT as int;
        if dl.len() >= BUFFER_LIMIT {
            assert(p == dl.skip(n - 1 - lim));
            assert(p.len() == lim);
            assert(pushed(p, x) == p.drop_first().push(x));
            let want = items.skip(n - lim);
            assert forall|k: int| 0 <= k < lim implies #[trigger] p.drop_first().push(x)[k]
                == want[k] by {
                if k < lim - 1 {
                    assert(p.drop_first().push(x)[k] == p[k + 1]);
                    assert(p[k + 1] == dl[n - 1 - lim + k + 1]);
                    assert(want[k] == items[n - lim + k]);
                }
            }
            assert(p.drop_first().push(x) =~= want);
        } else {
            assert(p == dl);
            assert(pushed(p, x) == dl.push(x));
            assert(dl.push(x) =~= items);
        }
    }
}

/// Each room event is handed over once, in arrival order: starting from a
/// mirror just drained (`take_rooms` leaves nothing held), a run of
/// `file_room` calls, each leaving what it says (`pushed`), holds exactly
/// the events filed, or the newest `BUFFER_LIMIT` of them when more came;
/// that is what the next `take_rooms` returns, and a repeated one returns
/// nothing.
pub proof fn lemma_rooms_handed_over_once<U, S>(states: Seq<Mirror<U, S>>, events: Seq<RoomEvent>)
    requires
        states.len() == events.len() + 1,
        states[0].rooms_held().len() == 0,
        forall|i: int|
            0 <= i < events.len() ==> #[trigger] states[i + 1].rooms_held() == pushed(
                states[i].rooms_held(),
                events[i],
            ),
    ensures
        states.last().rooms_held() == (if events.len() <= BUFFER_LIMIT {
            events
        } else {
            events.skip(events.len() - BUFFER_LIMIT)
        }),
{
    assert forall|i: int| 0 <= i <= events.len() implies #[trigger] states[i].rooms_held() == filed(
        Seq::<RoomEvent>::empty(),
        events.take(i),
    ) by {
        lemma_held_after_filings(states, events, i);
    }
    assert(events.take(events.len() as int) =~= events);
    lemma_filed_after_drain(events);
}

proof fn lemma_held_after_filings<U, S>(states: Seq<Mirror<U, S>>, events: Seq<RoomEvent>, i: int)
    requires
        states.len() == events.len() + 1,
        states[0].rooms_held().len() == 0,
        forall|k: int|
            0 <= k < events.len() ==> #[trigger] states[k + 1].rooms_held() == pushed(
                states[k].rooms_held(),
                events[k],
            ),
        0 <= i <= events.len(),
    ensures
        states[i].rooms_held() == filed(Seq::<RoomEvent>::empty(), events.take(i)),
    decreases i,
{
    if i == 0 {
        assert(events.take(0) =~= Seq::<RoomEvent>::empty());
        assert(states[0].rooms_held() =~= Seq::<RoomEvent>::empty());
    } else {
        lemma_held_after_filings(states, events, i - 1);
        assert(events.take(i).drop_last() =~= events.take(i - 1));
        assert(events.take(i).last() == events[i - 1]);
        assert(states[(i - 1) + 1].rooms_held() == pushed(states[i - 1].rooms_held(), events[i - 1]));
    }
}

/// The position of `user`'s listing among the kept listings.
pub open spec fn listing_index<T>(b: Seq<(String, T)>, user: Seq<char>) -> Option<int> {
    if exists|i: int| 0 <= i < b.len() && (#[trigger] b[i]).0@ == user {
        Some(choose|i: int| 0 <= i < b.len() && (#[trigger] b[i]).0@ == user)
    } else {
        None
    }
}

/// No peer has two listings kept.
pub open spec fn distinct_peers<T>(b: Seq<(String, T)>) -> bool {
    forall|i: int, j: int| 0 <= i < j < b.len() ==> (#[trigger] b[i]).0@ != (#[trigger] b[j]).0@
}

/// Whether a watched transfer is `user`'s transfer of `path`.
pub open spec fn is_transfer<S>(e: (String, String, S), user: Seq<char>, path: Seq<char>) -> bool {
    e.0@ == user && e.1@ == path
}

/// No transfer is watched twice: one entry per peer and remote path.
pub open spec fn distinct_transfers<S>(d: Seq<(String, String, S)>) -> bool {
    forall|i: int, j: int|
        0 <= i < j < d.len() ==> !is_transfer(#[trigger] d[i], (#[trigger] d[j]).0@, d[j].1@)
}

/// The watched transfers without `user`'s transfer of `path`, in order.
pub open spec fn without_transfer<S>(d: Seq<(String, String, S)>, user: Seq<char>, path: Seq<char>) -> Seq<
    (String, String, S),
>
    decreases d.len(),
{
    if d.len() == 0 {
        d
    } else {
        let r = without_transfer(d.drop_last(), user, path);
        if is_transfer(d.last(), user, path) {
            r
        } else {
            r.push(d.last())
        }
    }
}

/// Dropping a transfer that is not watched changes nothing.
proof fn lemma_without_absent<S>(d: Seq<(String, String, S)>, user: Seq<char>, path: Seq<char>)
    requires
        forall|k: int| 0 <= k < d.len() ==> !is_transfer(#[trigger] d[k], user, path),
    ensures
        without_transfer(d, user, path) == d,
    decreases d.len(),
{
    if d.len() > 0 {
        lemma_without_absent(d.drop_last(), user, path);
        assert(!is_transfer(d[d.len() - 1], user, path));
        assert(d.drop_last().push(d.last()) =~= d);
    }
}

/// Dropping a transfer watched once, at `i`, removes that one entry.
proof fn lemma_without_once<S>(d: Seq<(String, String, S)>, user: Seq<char>, path: Seq<char>, i: int)
    requires
        0 <= i < d.len(),
        is_transfer(d[i], user, path),
        forall|k: int| 0 <= k < d.len() && k != i ==> !is_transfer(#[trigger] d[k], user, path),
    ensures
        without_transfer(d, user, path) == d.remove(i),
    decreases d.len(),
{
    if i == d.len() - 1 {
        assert(forall|k: int| 0 <= k < d.drop_last().len() ==> d.drop_last()[k] == d[k]);
        lemma_without_absent(d.drop_last(), user, path);
        assert(d.remove(i) =~= d.drop_last());
    } else {
        assert(forall|k: int| 0 <= k < d.drop_last().len() ==> d.drop_last()[k] == d[k]);
        lemma_without_once(d.drop_last(), user, path, i);
        assert(!is_transfer(d[d.len() - 1], user, path));
        assert(d.remove(i) =~= d.drop_last().remove(i).push(d.last()));
    }
}

/// What the mirror holds, with the rules it keeps stated as `wf`.
struct Buffers<U, S> {
    rooms: Vec<RoomEvent>,
    messages: Vec<UserMessage>,
    uploads: Vec<U>,
    browses: Vec<(String, Vec<SharedDirectory>)>,
    /// Where each transfer's status goes, keyed by peer and remote path.
    downloads: Vec<(String, String, S)>,
    loss: Option<SessionLoss>,
}

impl<U, S> Buffers<U, S> {
    /// Nothing received yet.
    fn empty() -> (m: Self)
        ensures
            m.wf(),
            m.rooms_held().len() == 0,
            m.messages_held().len() == 0,
            m.uploads_held().len() == 0,
            m.browses_held().len() == 0,
            m.downloads_held().len() == 0,
            m.loss_held() is None,
    {
        Buffers {
            rooms: Vec::new(),
            messages: Vec::new(),
            uploads: Vec::new(),
            browses: Vec::new(),
            downloads: Vec::new(),
            loss: None,
        }
    }
}

impl<U, S> Buffers<U, S> {
    /// Room events not yet drained, oldest first.
    pub closed spec fn rooms_held(self) -> Seq<RoomEvent> {
        self.rooms@
    }

    /// Private messages not yet drained, oldest first.
    pub closed spec fn messages_held(self) -> Seq<UserMessage> {
        self.messages@
    }

    /// Upload reports not yet drained, oldest first.
    pub closed spec fn uploads_held(self) -> Seq<U> {
        self.uploads@
    }

    /// Listings not yet taken, by peer.
    pub closed spec fn browses_held(self) -> Seq<(String, Vec<SharedDirectory>)> {
        self.browses@
    }

    /// Transfers being watched: peer, remote path, and where updates go.
    pub closed spec fn downloads_held(self) -> Seq<(String, String, S)> {
        self.downloads@
    }

    /// How the session ended, if the daemon said.
    pub closed spec fn loss_held(self) -> Option<SessionLoss> {
        self.loss
    }

    /// Every buffer within its limit, and one listing per peer.
    pub open spec fn wf(self) -> bool {
        &&& self.rooms_held().len() <= BUFFER_LIMIT
        &&& self.messages_held().len() <= BUFFER_LIMIT
        &&& self.uploads_held().len() <= BUFFER_LIMIT
        &&& self.browses_held().len() <= BUFFER_LIMIT
        &&& distinct_peers(self.browses_held())
        &&& distinct_transfers(self.downloads_held())
    }

    /// Files a pushed room event.
    pub fn file_room(&mut self, event: RoomEvent)
        requires
            old(self).wf(),
        ensures
            final(self).wf(),
            final(self).rooms_held() == pushed(old(self).rooms_held(), event),
            final(self).messages_held() == old(self).messages_held(),
            final(self).uploads_held() == old(self).uploads_held(),
            final(self).browses_held() == old(self).browses_held(),
            final(self).downloads_held() == old(self).downloads_held(),
            final(self).loss_held() == old(self).loss_held(),
    {
        push_bounded(&mut self.rooms, event);
    }

    /// Files a pushed private message.
    pub fn file_message(&mut self, message: UserMessage)
        requires
            old(self).wf(),
        ensures
            final(self).wf(),
            final(self).messages_held() == pushed(old(self).messages_held(), message),
            final(self).rooms_held() == old(self).rooms_held(),
            final(self).uploads_held() == old(self).uploads_held(),
            final(self).browses_held() == old(self).browses_held(),
            final(self).downloads_held() == old(self).downloads_held(),
            final(self).loss_held() == old(self).loss_held(),
    {
        push_bounded(&mut self.messages, message);
    }

    /// Files a pushed upload report.
    pub fn file_upload(&mut self, upload: U)
        requires
            old(self).wf(),
        ensures
            final(self).wf(),
            final(self).uploads_held() == pushed(old(self).uploads_held(), upload),
            final(self).rooms_held() == old(self).rooms_held(),
            final(self).messages_held() == old(self).messages_held(),
            final(self).browses_held() == old(self).browses_held(),
            final(self).downloads_held() == old(self).downloads_held(),
            final(self).loss_held() == old(self).loss_held(),
    {
        push_bounded(&mut self.uploads, upload);
    }

    fn browse_index(&self, user: &str) -> (r: Option<usize>)
        requires
            distinct_peers(self.browses@),
        ensures
            match r {
                Some(i) => i < self.browses@.len() && listing_index(self.browses@, user@) == Some(
                    i as int,
                ),
                None => listing_index(self.browses@, user@) is None,
            },
    {
        let n = self.browses.len();
        let mut i: usize = 0;
        while i < n
            invariant
                n == self.browses@.len(),
                i <= n,
                distinct_peers(self.browses@),
                forall|k: int| 0 <= k < i ==> (#[trigger] self.browses@[k]).0@ != user@,
            decreases n - i,
        {
            if str_eq(self.browses[i].0.as_str(), user) {
                proof {
                    let c = choose|k: int|
                        0 <= k < self.browses@.len() && (#[trigger] self.browses@[k]).0@ == user@;
                    if c < i {
                    } else if c > i {
                        assert(self.browses@[i as int].0@ != self.browses@[c].0@);
                    }
                }
                return Some(i);
            }
            i = i + 1;
        }
        None
    }

    /// Files a peer's listing, replacing an earlier one from the same peer;
    /// at the limit, every listing nobody took is dropped first.
    pub fn file_browse(&mut self, user: String, directories: Vec<SharedDirectory>)
        requires
            old(self).wf(),
        ensures
            final(self).wf(),
            final(self).rooms_held() == old(self).rooms_held(),
            final(self).messages_held() == old(self).messages_held(),
            final(self).uploads_held() == old(self).uploads_held(),
            final(self).downloads_held() == old(self).downloads_held(),
            final(self).loss_held() == old(self).loss_held(),
            listing_index(final(self).browses_held(), user@) matches Some(i)
                && final(self).browses_held()[i].1 == directories,
            forall|p: Seq<char>|
                p != user@ && old(self).browses_held().len() < BUFFER_LIMIT ==> (
                #[trigger] listing_index(final(self).browses_held(), p) is Some) == (listing_index(
                    old(self).browses_held(),
                    p,
                ) is Some),
    {
        if self.browses.len() >= BUFFER_LIMIT {
            self.browses = Vec::new();
        }
        let ghost start = self.browses@;
        let ghost u = user@;
        match self.browse_index(user.as_str()) {
            Some(i) => {
                self.browses.set(i, (user, directories));
                proof {
                    assert(self.browses@ == start.update(i as int, self.browses@[i as int]));
                    assert(start[i as int].0@ == u);
                    assert forall|a: int, b: int|
                        0 <= a < b < self.browses@.len() implies (#[trigger] self.browses@[a]).0@
                        != (#[trigger] self.browses@[b]).0@ by {
                        assert(start[a].0@ != start[b].0@);
                    }
                    assert forall|p: Seq<char>|
                        p != u && start.len() < BUFFER_LIMIT implies (#[trigger] listing_index(
                        self.browses@,
                        p,
                    ) is Some) == (listing_index(start, p) is Some) by {
                        if listing_index(start, p) is Some {
                            let k = choose|k: int| 0 <= k < start.len() && (#[trigger] start[k]).0@ == p;
                            assert(self.browses@[k].0@ == p);
                        }
                        if listing_index(self.browses@, p) is Some {
                            let k = choose|k: int|
                                0 <= k < self.browses@.len() && (#[trigger] self.browses@[k]).0@
                                    == p;
                            assert(start[k].0@ == p);
                        }
                    }
                    let c = choose|k: int|
                        0 <= k < self.browses@.len() && (#[trigger] self.browses@[k]).0@ == u;
                    assert(self.browses@[i as int].0@ == u);
                    if c != i as int {
                        if c < i {
                            assert(self.browses@[c].0@ != self.browses@[i as int].0@);
                        } else {
                            assert(self.browses@[i as int].0@ != self.browses@[c].0@);
                        }
                    }
                }
            },
            None => {
                let n = self.browses.len();
                self.browses.push((user, directories));
                proof {
                    assert forall|a: int, b: int|
                        0 <= a < b < self.browses@.len() implies (#[trigger] self.browses@[a]).0@
                        != (#[trigger] self.browses@[b]).0@ by {
                        if b < start.len() {
                            assert(start[a].0@ != start[b].0@);
                        } else {
                            assert(self.browses@[a] == start[a]);
                        }
                    }
                    assert(self.browses@[n as int].0@ == u);
                    assert forall|p: Seq<char>|
                        p != u && start.len() < BUFFER_LIMIT implies (#[trigger] listing_index(
                        self.browses@,
                        p,
                    ) is Some) == (listing_index(start, p) is Some) by {
                        if listing_index(start, p) is Some {
                            let k = choose|k: int| 0 <= k < start.len() && (#[trigger] start[k]).0@ == p;
                            assert(self.browses@[k].0@ == p);
                        }
                        if listing_index(self.browses@, p) is Some {
                            let k = choose|k: int|
                                0 <= k < self.browses@.len() && (#[trigger] self.browses@[k]).0@
                                    == p;
                            assert(k < n);
                            assert(start[k].0@ == p);
                        }
                    }
                    let c = choose|k: int|
                        0 <= k < self.browses@.len() && (#[trigger] self.browses@[k]).0@ == u;
                    assert(c == n as int);
                }
            },
        }
    }

    /// Records why the session ended. The first loss is the one worth
    /// keeping: a displaced session also drops its socket a moment later.
    pub fn file_loss(&mut self, loss: SessionLoss)
        requires
            old(self).wf(),
        ensures
            final(self).wf(),
            final(self).loss_held() == (match old(self).loss_held() {
                Some(l) => Some(l),
                None => Some(loss),
            }),
            final(self).rooms_held() == old(self).rooms_held(),
            final(self).messages_held() == old(self).messages_held(),
            final(self).uploads_held() == old(self).uploads_held(),
            final(self).browses_held() == old(self).browses_held(),
            final(self).downloads_held() == old(self).downloads_held(),
    {
        if self.loss.is_none() {
            self.loss = Some(loss);
        }
    }

    /// Stops tracking every transfer. Dropping the senders is the signal:
    /// whoever waits on a transfer sees a disconnect at once instead of
    /// sitting out its timeout.
    pub fn abandon_downloads(&mut self)
        requires
            old(self).wf(),
        ensures
            final(self).wf(),
            final(self).downloads_held().len() == 0,
            final(self).rooms_held() == old(self).rooms_held(),
            final(self).messages_held() == old(self).messages_held(),
            final(self).uploads_held() == old(self).uploads_held(),
            final(self).browses_held() == old(self).browses_held(),
            final(self).loss_held() == old(self).loss_held(),
    {
        self.downloads = Vec::new();
    }

    fn download_index(&self, username: &str, filename: &str) -> (r: Option<usize>)
        ensures
            match r {
                Some(i) => i < self.downloads@.len() && self.downloads@[i as int].0@ == username@
                    && self.downloads@[i as int].1@ == filename@,
                None => forall|k: int|
                    0 <= k < self.downloads@.len() ==> !((#[trigger] self.downloads@[k]).0@
                        == username@ && self.downloads@[k].1@ == filename@),
            },
    {
        let n = self.downloads.len();
        let mut i: usize = 0;
        while i < n
            invariant
                n == self.downloads@.len(),
                i <= n,
                forall|k: int|
                    0 <= k < i ==> !((#[trigger] self.downloads@[k]).0@ == username@
                        && self.downloads@[k].1@ == filename@),
            decreases n - i,
        {
            if str_eq(self.downloads[i].0.as_str(), username) && str_eq(
                self.downloads[i].1.as_str(),
                filename,
            ) {
                return Some(i);
            }
            i = i + 1;
        }
        None
    }

    /// Registers where a transfer's updates go before asking for it, so an
    /// update that lands at once is not lost.
    pub fn expect_download(&mut self, username: &str, filename: &str, sender: S)
        requires
            old(self).wf(),
        ensures
            final(self).wf(),
            final(self).downloads_held().len() > 0,
            final(self).downloads_held().last().0@ == username@,
            final(self).downloads_held().last().1@ == filename@,
            final(self).downloads_held().last().2 == sender,
            final(self).rooms_held() == old(self).rooms_held(),
            final(self).messages_held() == old(self).messages_held(),
            final(self).uploads_held() == old(self).uploads_held(),
            final(self).browses_held() == old(self).browses_held(),
            final(self).loss_held() == old(self).loss_held(),
    {
        match self.download_index(username, filename) {
            Some(i) => {
                let _ = self.downloads.remove(i);
            },
            None => {},
        }
        self.downloads.push((owned(username), owned(filename), sender));
    }

    /// Where `username`'s transfer of `filename` reports, if it is watched.
    pub fn download_sender(&self, username: &str, filename: &str) -> (r: Option<&S>)
        ensures
            r matches Some(s) ==> exists|k: int|
                0 <= k < self.downloads_held().len() && (#[trigger] self.downloads_held()[k]).0@
                    == username@ && self.downloads_held()[k].1@ == filename@
                    && self.downloads_held()[k].2 == *s,
            r is None ==> forall|k: int|
                0 <= k < self.downloads_held().len() ==> !((
                #[trigger] self.downloads_held()[k]).0@ == username@
                    && self.downloads_held()[k].1@ == filename@),
    {
        match self.download_index(username, filename) {
            Some(i) => {
                assert(self.downloads_held()[i as int] == self.downloads@[i as int]);
                Some(&self.downloads[i].2)
            },
            None => None,
        }
    }

    /// Stops watching `username`'s transfer of `filename`.
    pub fn forget_download(&mut self, username: &str, filename: &str)
        requires
            old(self).wf(),
        ensures
            final(self).wf(),
            final(self).downloads_held().len() <= old(self).downloads_held().len(),
            final(self).rooms_held() == old(self).rooms_held(),
            final(self).messages_held() == old(self).messages_held(),
            final(self).uploads_held() == old(self).uploads_held(),
            final(self).browses_held() == old(self).browses_held(),
            final(self).loss_held() == old(self).loss_held(),
            final(self).downloads_held() == without_transfer(
                old(self).downloads_held(),
                username@,
                filename@,
            ),
    {
        match self.download_index(username, filename) {
            Some(i) => {
                let ghost before = self.downloads@;
                proof {
                    assert forall|k: int| 0 <= k < before.len() && k != i implies !is_transfer(
                        #[trigger] before[k],
                        username@,
                        filename@,
                    ) by {
                        if k < i {
                            assert(!is_transfer(before[k], before[i as int].0@, before[i as int].1@));
                        } else {
                            assert(!is_transfer(before[i as int], before[k].0@, before[k].1@));
                        }
                    }
                    lemma_without_once(before, username@, filename@, i as int);
                }
                let _ = self.downloads.remove(i);
                proof {
                    let after = self.downloads@;
                    assert(after =~= before.remove(i as int));
                    assert forall|a: int, b: int| 0 <= a < b < after.len() implies !is_transfer(
                        #[trigger] after[a],
                        (#[trigger] after[b]).0@,
                        after[b].1@,
                    ) by {
                        let a0 = if a < i { a } else { a + 1 };
                        let b0 = if b < i { b } else { b + 1 };
                        assert(after[a] == before[a0] && after[b] == before[b0]);
                        assert(!is_transfer(before[a0], before[b0].0@, before[b0].1@));
                    }
                }
            },
            None => {
                proof {
                    lemma_without_absent(self.downloads@, username@, filename@);
                }
            },
        }
    }

    /// Hands over the room events received so far, oldest first, and
    /// forgets them: each is delivered once.
    pub fn take_rooms(&mut self) -> (r: Vec<RoomEvent>)
        requires
            old(self).wf(),
        ensures
            final(self).wf(),
            r@ == old(self).rooms_held(),
            final(self).rooms_held().len() == 0,
            final(self).messages_held() == old(self).messages_held(),
            final(self).uploads_held() == old(self).uploads_held(),
            final(self).browses_held() == old(self).browses_held(),
            final(self).downloads_held() == old(self).downloads_held(),
            final(self).loss_held() == old(self).loss_held(),
    {
        let mut r: Vec<RoomEvent> = Vec::new();
        std::mem::swap(&mut r, &mut self.rooms);
        r
    }

    /// Hands over the private messages received so far and forgets them.
    pub fn take_messages(&mut self) -> (r: Vec<UserMessage>)
        requires
            old(self).wf(),
        ensures
            final(self).wf(),
            r@ == old(self).messages_held(),
            final(self).messages_held().len() == 0,
            final(self).rooms_held() == old(self).rooms_held(),
            final(self).uploads_held() == old(self).uploads_held(),
            final(self).browses_held() == old(self).browses_held(),
            final(self).downloads_held() == old(self).downloads_held(),
            final(self).loss_held() == old(self).loss_held(),
    {
        let mut r: Vec<UserMessage> = Vec::new();
        std::mem::swap(&mut r, &mut self.messages);
        r
    }

    /// Hands over the upload reports received so far and forgets them.
    pub fn take_uploads(&mut self) -> (r: Vec<U>)
        requires
            old(self).wf(),
        ensures
            final(self).wf(),
            r@ == old(self).uploads_held(),
            final(self).uploads_held().len() == 0,
            final(self).rooms_held() == old(self).rooms_held(),
            final(self).messages_held() == old(self).messages_held(),
            final(self).browses_held() == old(self).browses_held(),
            final(self).downloads_held() == old(self).downloads_held(),
            final(self).loss_held() == old(self).loss_held(),
    {
        let mut r: Vec<U> = Vec::new();
        std::mem::swap(&mut r, &mut self.uploads);
        r
    }

    /// Hands over `username`'s listing, if one arrived, and forgets it.
    pub fn take_browse(&mut self, username: &str) -> (r: Option<Vec<SharedDirectory>>)
        requires
            old(self).wf(),
        ensures
            final(self).wf(),
            match listing_index(old(self).browses_held(), username@) {
                Some(i) => r == Some(old(self).browses_held()[i].1) && final(self).browses_held()
                    == old(self).browses_held().remove(i),
                None => r is None && final(self).browses_held() == old(self).browses_held(),
            },
            listing_index(final(self).browses_held(), username@) is None,
            final(self).rooms_held() == old(self).rooms_held(),
            final(self).messages_held() == old(self).messages_held(),
            final(self).uploads_held() == old(self).uploads_held(),
            final(self).downloads_held() == old(self).downloads_held(),
            final(self).loss_held() == old(self).loss_held(),
    {
        let ghost start = self.browses@;
        match self.browse_index(username) {
            Some(i) => {
                let entry = self.browses.remove(i);
                proof {
                    assert forall|a: int, b: int|
                        0 <= a < b < self.browses@.len() implies (#[trigger] self.browses@[a]).0@
                        != (#[trigger] self.browses@[b]).0@ by {
                        let a2 = if a < i {
                            a
                        } else {
                            a + 1
                        };
                        let b2 = if b < i {
                            b
                        } else {
                            b + 1
                        };
                        assert(self.browses@[a] == start[a2]);
                        assert(self.browses@[b] == start[b2]);
                        assert(start[a2].0@ != start[b2].0@);
                    }
                    if listing_index(self.browses@, username@) is Some {
                        let k = choose|k: int|
                            0 <= k < self.browses@.len() && (#[trigger] self.browses@[k]).0@
                                == username@;
                        let k2 = if k < i {
                            k
                        } else {
                            k + 1
                        };
                        assert(self.browses@[k] == start[k2]);
                        assert(start[i as int].0@ == username@);
                        if k2 < i {
                            assert(start[k2].0@ != start[i as int].0@);
                        } else {
                            assert(start[i as int].0@ != start[k2].0@);
                        }
                    }
                }
                Some(entry.1)
            },
            None => None,
        }
    }

    /// How the session ended, if the daemon said so.
    pub fn loss(&self) -> (r: Option<SessionLoss>)
        ensures
            r == self.loss_held(),
    {
        self.loss
    }
}

/// The client's copy of what the daemon pushed. `U` is what an upload
/// report carries and `S` where a transfer's status updates are sent; both
/// are carried through untouched.
pub struct Mirror<U, S> {
    inner: Buffers<U, S>,
}

impl<U, S> Default for Mirror<U, S> {
    /// Nothing received yet.
    fn default() -> (m: Self)
        ensures
            m.rooms_held().len() == 0,
            m.messages_held().len() == 0,
            m.uploads_held().len() == 0,
            m.browses_held().len() == 0,
            m.downloads_held().len() == 0,
            m.loss_held() is None,
    {
        Mirror { inner: Buffers::empty() }
    }
}

impl<U, S> Mirror<U, S> {
    /// Every buffer within its limit, one listing per peer, and one entry
    /// per watched transfer.
    #[verifier::type_invariant]
    spec fn inv(self) -> bool {
        self.inner.wf()
    }

    /// Room events not yet drained, oldest first.
    pub closed spec fn rooms_held(self) -> Seq<RoomEvent> {
        self.inner.rooms_held()
    }

    /// Private messages not yet drained, oldest first.
    pub closed spec fn messages_held(self) -> Seq<UserMessage> {
        self.inner.messages_held()
    }

    /// Upload reports not yet drained, oldest first.
    pub closed spec fn uploads_held(self) -> Seq<U> {
        self.inner.uploads_held()
    }

    /// Listings not yet taken, by peer.
    pub closed spec fn browses_held(self) -> Seq<(String, Vec<SharedDirectory>)> {
        self.inner.browses_held()
    }

    /// Transfers being watched: peer, remote path, and where updates go.
    pub closed spec fn downloads_held(self) -> Seq<(String, String, S)> {
        self.inner.downloads_held()
    }

    /// How the session ended, if the daemon said.
    pub closed spec fn loss_held(self) -> Option<SessionLoss> {
        self.inner.loss_held()
    }

    /// Files a pushed room event.
    pub fn file_room(&mut self, event: RoomEvent)
        ensures
            final(self).rooms_held().len() <= BUFFER_LIMIT,
            final(self).rooms_held() == pushed(old(self).rooms_held(), event),
            final(self).messages_held() == old(self).messages_held(),
            final(self).uploads_held() == old(self).uploads_held(),
            final(self).browses_held() == old(self).browses_held(),
            final(self).downloads_held() == old(self).downloads_held(),
            final(self).loss_held() == old(self).loss_held(),
    {
        proof {
            use_type_invariant(&*self);
        }
        let mut b = Buffers::empty();
        std::mem::swap(&mut b, &mut self.inner);
        b.file_room(event);
        self.inner = b;
    }

    /// Files a pushed private message.
    pub fn file_message(&mut self, message: UserMessage)
        ensures
            final(self).messages_held().len() <= BUFFER_LIMIT,
            final(self).messages_held() == pushed(old(self).messages_held(), message),
            final(self).rooms_held() == old(self).rooms_held(),
            final(self).uploads_held() == old(self).uploads_held(),
            final(self).browses_held() == old(self).browses_held(),
            final(self).downloads_held() == old(self).downloads_held(),
            final(self).loss_held() == old(self).loss_held(),
    {
        proof {
            use_type_invariant(&*self);
        }
        let mut b = Buffers::empty();
        std::mem::swap(&mut b, &mut self.inner);
        b.file_message(message);
        self.inner = b;
    }

    /// Files a pushed upload report.
    pub fn file_upload(&mut self, upload: U)
        ensures
            final(self).uploads_held().len() <= BUFFER_LIMIT,
            final(self).uploads_held() == pushed(old(self).uploads_held(), upload),
            final(self).rooms_held() == old(self).rooms_held(),
            final(self).messages_held() == old(self).messages_held(),
            final(self).browses_held() == old(self).browses_held(),
            final(self).downloads_held() == old(self).downloads_held(),
            final(self).loss_held() == old(self).loss_held(),
    {
        proof {
            use_type_invariant(&*self);
        }
        let mut b = Buffers::empty();
        std::mem::swap(&mut b, &mut self.inner);
        b.file_upload(upload);
        self.inner = b;
    }

    /// Files a peer's listing, replacing an earlier one from the same peer;
    /// at the limit, every listing nobody took is dropped first.
    pub fn file_browse(&mut self, user: String, directories: Vec<SharedDirectory>)
        ensures
            final(self).browses_held().len() <= BUFFER_LIMIT,
            final(self).rooms_held() == old(self).rooms_held(),
            final(self).messages_held() == old(self).messages_held(),
            final(self).uploads_held() == old(self).uploads_held(),
            final(self).downloads_held() == old(self).downloads_held(),
            final(self).loss_held() == old(self).loss_held(),
            listing_index(final(self).browses_held(), user@) matches Some(i)
                && final(self).browses_held()[i].1 == directories,
            forall|p: Seq<char>|
                p != user@ && old(self).browses_held().len() < BUFFER_LIMIT ==> (
                #[trigger] listing_index(final(self).browses_held(), p) is Some) == (listing_index(
                    old(self).browses_held(),
                    p,
                ) is Some),
    {
        proof {
            use_type_invariant(&*self);
        }
        let mut b = Buffers::empty();
        std::mem::swap(&mut b, &mut self.inner);
        b.file_browse(user, directories);
        self.inner = b;
    }

    /// Records why the session ended. The first loss is the one worth
    /// keeping: a displaced session also drops its socket a moment later.
    pub fn file_loss(&mut self, loss: SessionLoss)
        ensures
            final(self).loss_held() == (match old(self).loss_held() {
                Some(l) => Some(l),
                None => Some(loss),
            }),
            final(self).rooms_held() == old(self).rooms_held(),
            final(self).messages_held() == old(self).messages_held(),
            final(self).uploads_held() == old(self).uploads_held(),
            final(self).browses_held() == old(self).browses_held(),
            final(self).downloads_held() == old(self).downloads_held(),
    {
        proof {
            use_type_invariant(&*self);
        }
        let mut b = Buffers::empty();
        std::mem::swap(&mut b, &mut self.inner);
        b.file_loss(loss);
        self.inner = b;
    }

    /// Stops tracking every transfer. Dropping the senders is the signal:
    /// whoever waits on a transfer sees a disconnect at once instead of
    /// sitting out its timeout.
    pub fn abandon_downloads(&mut self)
        ensures
            final(self).downloads_held().len() == 0,
            final(self).rooms_held() == old(self).rooms_held(),
            final(self).messages_held() == old(self).messages_held(),
            final(self).uploads_held() == old(self).uploads_held(),
            final(self).browses_held() == old(self).browses_held(),
            final(self).loss_held() == old(self).loss_held(),
    {
        proof {
            use_type_invariant(&*self);
        }
        let mut b = Buffers::empty();
        std::mem::swap(&mut b, &mut self.inner);
        b.abandon_downloads();
        self.inner = b;
    }

    /// Registers where a transfer's updates go before asking for it, so an
    /// update that lands at once is not lost.
    pub fn expect_download(&mut self, username: &str, filename: &str, sender: S)
        ensures
            final(self).downloads_held().len() > 0,
            final(self).downloads_held().last().0@ == username@,
            final(self).downloads_held().last().1@ == filename@,
            final(self).downloads_held().last().2 == sender,
            final(self).rooms_held() == old(self).rooms_held(),
            final(self).messages_held() == old(self).messages_held(),
            final(self).uploads_held() == old(self).uploads_held(),
            final(self).browses_held() == old(self).browses_held(),
            final(self).loss_held() == old(self).loss_held(),
    {
        proof {
            use_type_invariant(&*self);
        }
        let mut b = Buffers::empty();
        std::mem::swap(&mut b, &mut self.inner);
        b.expect_download(username, filename, sender);
        self.inner = b;
    }

    /// Where `username`'s transfer of `filename` reports, if it is watched.
    pub fn download_sender(&self, username: &str, filename: &str) -> (r: Option<&S>)
        ensures
            r matches Some(s) ==> exists|k: int|
                0 <= k < self.downloads_held().len() && (#[trigger] self.downloads_held()[k]).0@
                    == username@ && self.downloads_held()[k].1@ == filename@
                    && self.downloads_held()[k].2 == *s,
            r is None ==> forall|k: int|
                0 <= k < self.downloads_held().len() ==> !((
                #[trigger] self.downloads_held()[k]).0@ == username@
                    && self.downloads_held()[k].1@ == filename@),
    {
        proof {
            use_type_invariant(self);
        }
        let r = self.inner.download_sender(username, filename);
        proof {
            assert(self.downloads_held() == self.inner.downloads_held());
            if r is Some {
                let k = choose|k: int|
                    0 <= k < self.inner.downloads_held().len() && (
                    #[trigger] self.inner.downloads_held()[k]).0@ == username@
                        && self.inner.downloads_held()[k].1@ == filename@
                        && self.inner.downloads_held()[k].2 == *r->0;
                assert(self.downloads_held()[k] == self.inner.downloads_held()[k]);
            }
        }
        r
    }

    /// Stops watching `username`'s transfer of `filename`.
    pub fn forget_download(&mut self, username: &str, filename: &str)
        ensures
            final(self).downloads_held().len() <= old(self).downloads_held().len(),
            final(self).rooms_held() == old(self).rooms_held(),
            final(self).messages_held() == old(self).messages_held(),
            final(self).uploads_held() == old(self).uploads_held(),
            final(self).browses_held() == old(self).browses_held(),
            final(self).loss_held() == old(self).loss_held(),
            final(self).downloads_held() == without_transfer(
                old(self).downloads_held(),
                username@,
                filename@,
            ),
    {
        proof {
            use_type_invariant(&*self);
        }
        let mut b = Buffers::empty();
        std::mem::swap(&mut b, &mut self.inner);
        b.forget_download(username, filename);
        self.inner = b;
    }

    /// Hands over the room events received so far, oldest first, and
    /// forgets them: each is delivered once.
    pub fn take_rooms(&mut self) -> (r: Vec<RoomEvent>)
        ensures
            r@ == old(self).rooms_held(),
            final(self).rooms_held().len() == 0,
            final(self).messages_held() == old(self).messages_held(),
            final(self).uploads_held() == old(self).uploads_held(),
            final(self).browses_held() == old(self).browses_held(),
            final(self).downloads_held() == old(self).downloads_held(),
            final(self).loss_held() == old(self).loss_held(),
    {
        proof {
            use_type_invariant(&*self);
        }
        let mut b = Buffers::empty();
        std::mem::swap(&mut b, &mut self.inner);
        let r = b.take_rooms();
        self.inner = b;
        r
    }

    /// Hands over the private messages received so far and forgets them.
    pub fn take_messages(&mut self) -> (r: Vec<UserMessage>)
        ensures
            r@ == old(self).messages_held(),
            final(self).messages_held().len() == 0,
            final(self).rooms_held() == old(self).rooms_held(),
            final(self).uploads_held() == old(self).uploads_held(),
            final(self).browses_held() == old(self).browses_held(),
            final(self).downloads_held() == old(self).downloads_held(),
            final(self).loss_held() == old(self).loss_held(),
    {
        proof {
            use_type_invariant(&*self);
        }
        let mut b = Buffers::empty();
        std::mem::swap(&mut b, &mut self.inner);
        let r = b.take_messages();
        self.inner = b;
        r
    }

    /// Hands over the upload reports received so far and forgets them.
    pub fn take_uploads(&mut self) -> (r: Vec<U>)
        ensures
            r@ == old(self).uploads_held(),
            final(self).uploads_held().len() == 0,
            final(self).rooms_held() == old(self).rooms_held(),
            final(self).messages_held() == old(self).messages_held(),
            final(self).browses_held() == old(self).browses_held(),
            final(self).downloads_held() == old(self).downloads_held(),
            final(self).loss_held() == old(self).loss_held(),
    {
        proof {
            use_type_invariant(&*self);
        }
        let mut b = Buffers::empty();
        std::mem::swap(&mut b, &mut self.inner);
        let r = b.take_uploads();
        self.inner = b;
        r
    }

    /// Hands over `username`'s listing, if one arrived, and forgets it.
    pub fn take_browse(&mut self, username: &str) -> (r: Option<Vec<SharedDirectory>>)
        ensures
            match listing_index(old(self).browses_held(), username@) {
                Some(i) => r == Some(old(self).browses_held()[i].1) && final(self).browses_held()
                    == old(self).browses_held().remove(i),
                None => r is None && final(self).browses_held() == old(self).browses_held(),
            },
            listing_index(final(self).browses_held(), username@) is None,
            final(self).rooms_held() == old(self).rooms_held(),
            final(self).messages_held() == old(self).messages_held(),
            final(self).uploads_held() == old(self).uploads_held(),
            final(self).downloads_held() == old(self).downloads_held(),
            final(self).loss_held() == old(self).loss_held(),
    {
        proof {
            use_type_invariant(&*self);
        }
        let mut b = Buffers::empty();
        std::mem::swap(&mut b, &mut self.inner);
        let r = b.take_browse(username);
        self.inner = b;
        r
    }

    /// How the session ended, if the daemon said so.
    pub fn loss(&self) -> (r: Option<SessionLoss>)
        ensures
            r == self.loss_held(),
    {
        proof {
            use_type_invariant(self);
        }
        self.inner.loss()
    }
}

/// The first loss reported is the one kept, whatever follows.
pub proof fn lemma_first_loss_kept(before: Option<SessionLoss>, first: SessionLoss, second: SessionLoss)
    requires
        before is None,
    ensures
        ({
            let after_first = match before {
                Some(l) => Some(l),
                None => Some(first),
            };
            let after_second = match after_first {
                Some(l) => Some(l),
                None => Some(second),
            };
            after_second == Some(first)
        }),
{
}

} // verus!
