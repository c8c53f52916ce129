//! Talking to people and looking at what they share: what `browse`, `room`
//! and `message` make of the answers the network gives.

use crate::output::{
    BrowseRecord, CliError, CliResult, Exit, PrivateMessageRecord, RoomEventRecord, RoomRecord,
};
use crate::rank::{is_ranked, ranked_copy};
use crate::text::{decimal, decimal_string, owned, str_eq};
use crate::types::{RoomEvent, RoomInfo, SharedDirectory, UserMessage};
use vstd::prelude::*;

verus! {

/// `s` without the backslashes at its end.
pub open spec fn without_trailing_backslash(s: Seq<char>) -> Seq<char>
    decreases s.len(),
{
    if s.len() > 0 && s.last() == '\\' {
        without_trailing_backslash(s.drop_last())
    } else {
        s
    }
}

/// The remote path of file `basename` in the listed folder `directory`.
pub open spec fn spec_full_path(directory: Seq<char>, basename: Seq<char>) -> Seq<char> {
    let d = without_trailing_backslash(directory);
    if d.len() == 0 {
        basename
    } else {
        d + seq!['\\'] + basename
    }
}

/// Joins a listing's folder and file name into the remote path `download`
/// expects: the protocol reports the two separately.
pub fn full_path(directory: &str, basename: &str) -> (r: String)
    ensures
        r@ == spec_full_path(directory@, basename@),
{
    let mut j = directory.unicode_len();
    assert(directory@.take(j as int) =~= directory@);
    while j > 0 && directory.get_char(j - 1) == '\\'
        invariant
            j <= directory@.len(),
            without_trailing_backslash(directory@) == without_trailing_backslash(
                directory@.take(j as int),
            ),
        decreases j,
    {
        assert(directory@.take(j as int).drop_last() =~= directory@.take(j - 1));
        j = j - 1;
    }
    assert(directory@.take(j as int) =~= directory@.subrange(0, j as int));
    if j == 0 {
        return owned(basename);
    }
    let mut r = owned(directory.substring_char(0, j));
    crate::text::push_char(&mut r, '\\');
    r.append(basename);
    r
}

/// The record of a room event, for events in `room` that a listener shows:
/// messages, and other users coming and going.
pub open spec fn spec_room_event_record(room: Seq<char>, event: RoomEvent) -> Option<(
    Seq<char>,
    Seq<char>,
    Seq<char>,
)> {
    match event {
        RoomEvent::Message { room: name, username, message } => if name@ == room {
            Some(("message"@, username@, message@))
        } else {
            None
        },
        RoomEvent::UserJoined { room: name, username } => if name@ == room {
            Some(("join"@, username@, Seq::empty()))
        } else {
            None
        },
        RoomEvent::UserLeft { room: name, username } => if name@ == room {
            Some(("leave"@, username@, Seq::empty()))
        } else {
            None
        },
        _ => None,
    }
}

/// Turns a room event into a record, ignoring events for other rooms and
/// the bookkeeping ones a listener has no use for.
pub fn room_event_record(room: &str, event: &RoomEvent) -> (r: Option<RoomEventRecord>)
    ensures
        match spec_room_event_record(room@, *event) {
            Some((kind, user, message)) => r matches Some(rec) && rec.kind@ == kind && rec.room@
                == room@ && rec.user@ == user && rec.message@ == message,
            None => r is None,
        },
{
    proof {
        reveal_strlit("message");
        reveal_strlit("join");
        reveal_strlit("leave");
    }
    match event {
        RoomEvent::Message { room: name, username, message } => {
            if str_eq(name.as_str(), room) {
                Some(
                    RoomEventRecord {
                        kind: "message",
                        room: name.clone(),
                        user: username.clone(),
                        message: message.clone(),
                    },
                )
            } else {
                None
            }
        },
        RoomEvent::UserJoined { room: name, username } => {
            if str_eq(name.as_str(), room) {
                Some(
                    RoomEventRecord {
                        kind: "join",
                        room: name.clone(),
                        user: username.clone(),
                        message: String::new(),
                    },
                )
            } else {
                None
            }
        },
        RoomEvent::UserLeft { room: name, username } => {
            if str_eq(name.as_str(), room) {
                Some(
                    RoomEventRecord {
                        kind: "leave",
                        room: name.clone(),
                        user: username.clone(),
                        message: String::new(),
                    },
                )
            } else {
                None
            }
        },
        _ => None,
    }
}

/// What a listener shows of a batch of room events, in order: the record
/// of each event that has one (see `spec_room_event_record`).
pub open spec fn listen_records(room: Seq<char>, events: Seq<RoomEvent>) -> Seq<
    (Seq<char>, Seq<char>, Seq<char>),
>
    decreases events.len(),
{
    if events.len() == 0 {
        Seq::empty()
    } else {
        let r = listen_records(room, events.drop_last());
        match spec_room_event_record(room, events.last()) {
            Some(x) => r.push(x),
            None => r,
        }
    }
}

/// A room event record as kind, user and text.
pub open spec fn event_record_view(r: RoomEventRecord) -> (Seq<char>, Seq<char>, Seq<char>) {
    (r.kind@, r.user@, r.message@)
}

/// Room event records as kind, user and text.
pub open spec fn event_records_view(v: Seq<RoomEventRecord>) -> Seq<(Seq<char>, Seq<char>, Seq<char>)> {
    v.map_values(|r: RoomEventRecord| event_record_view(r))
}

/// The records a listener prints for a batch of room events, in order.
pub fn room_listen(room: &str, events: &Vec<RoomEvent>) -> (r: Vec<RoomEventRecord>)
    ensures
        event_records_view(r@) == listen_records(room@, events@),
        forall|k: int| 0 <= k < r@.len() ==> (#[trigger] r@[k]).room@ == room@,
{
    let mut out: Vec<RoomEventRecord> = Vec::new();
    let n = events.len();
    let mut i: usize = 0;
    assert(events@.take(0) =~= Seq::<RoomEvent>::empty());
    assert(event_records_view(out@) =~= Seq::<(Seq<char>, Seq<char>, Seq<char>)>::empty());
    while i < n
        invariant
            n == events@.len(),
            i <= n,
            event_records_view(out@) == listen_records(room@, events@.take(i as int)),
            forall|k: int| 0 <= k < out@.len() ==> (#[trigger] out@[k]).room@ == room@,
        decreases n - i,
    {
        let ghost before = out@;
        assert(events@.take(i + 1).drop_last() =~= events@.take(i as int));
        assert(events@.take(i + 1).last() == events@[i as int]);
        match room_event_record(room, &events[i]) {
            Some(record) => {
                out.push(record);
                assert(event_records_view(out@) =~= event_records_view(before).push(
                    event_record_view(record),
                ));
            },
            None => {},
        }
        i = i + 1;
    }
    assert(events@.take(n as int) =~= events@);
    out
}

/// One file of a share listing as a `browse` record.
pub open spec fn listing_record(user: Seq<char>, d: SharedDirectory, f: (String, u64)) -> (
    Seq<char>,
    Seq<char>,
    Seq<char>,
    u64,
) {
    (user, d.name@, spec_full_path(d.name@, f.0@), f.1)
}

/// The records of every file of every listed folder, in order.
pub open spec fn listing_records(user: Seq<char>, dirs: Seq<SharedDirectory>) -> Seq<
    (Seq<char>, Seq<char>, Seq<char>, u64),
>
    decreases dirs.len(),
{
    if dirs.len() == 0 {
        Seq::empty()
    } else {
        listing_records(user, dirs.drop_last()) + dirs.last().files@.map_values(
            |f: (String, u64)| listing_record(user, dirs.last(), f),
        )
    }
}

/// The view of a browse record.
pub open spec fn browse_view(r: BrowseRecord) -> (Seq<char>, Seq<char>, Seq<char>, u64) {
    (r.user@, r.directory@, r.path@, r.size)
}

/// What `browse` prints for a peer's share listing: a record per file,
/// folder by folder, or the no-results verdict when the peer shares nothing.
pub fn browse(user: &str, directories: &Vec<SharedDirectory>) -> (r: CliResult<Vec<BrowseRecord>>)
    ensures
        match r {
            Ok(v) => v@.len() > 0 && v@.map_values(|x: BrowseRecord| browse_view(x))
                == listing_records(user@, directories@),
            Err(e) => listing_records(user@, directories@).len() == 0 && e.exit == Exit::NoResults
                && e.message@ == user@ + " shares no files"@,
        },
{
    let mut out: Vec<BrowseRecord> = Vec::new();
    let n = directories.len();
    let mut i: usize = 0;
    assert(directories@.take(0) =~= Seq::<SharedDirectory>::empty());
    assert(out@.map_values(|x: BrowseRecord| browse_view(x)) =~= listing_records(
        user@,
        directories@.take(0),
    ));
    while i < n
        invariant
            n == directories@.len(),
            i <= n,
            out@.map_values(|x: BrowseRecord| browse_view(x)) == listing_records(
                user@,
                directories@.take(i as int),
            ),
        decreases n - i,
    {
        let d = &directories[i];
        let ghost base = listing_records(user@, directories@.take(i as int));
        let ghost add = d.files@.map_values(|f: (String, u64)| listing_record(user@, *d, f));
        assert(directories@.take(i + 1).drop_last() =~= directories@.take(i as int));
        assert(directories@.take(i + 1).last() == *d);
        let m = d.files.len();
        let mut j: usize = 0;
        assert(base + add.take(0) =~= base);
        while j < m
            invariant
                m == d.files@.len(),
                j <= m,
                add == d.files@.map_values(|f: (String, u64)| listing_record(user@, *d, f)),
                out@.map_values(|x: BrowseRecord| browse_view(x)) == base + add.take(j as int),
            decreases m - j,
        {
            let (name, size) = (&d.files[j].0, d.files[j].1);
            let record = BrowseRecord {
                user: owned(user),
                directory: d.name.clone(),
                path: full_path(d.name.as_str(), name.as_str()),
                size,
            };
            let ghost before = out@;
            out.push(record);
            assert(out@.map_values(|x: BrowseRecord| browse_view(x)) =~= before.map_values(
                |x: BrowseRecord| browse_view(x),
            ).push(browse_view(record)));
            assert(add.take(j + 1) =~= add.take(j as int).push(add[j as int]));
            j = j + 1;
        }
        assert(add.take(m as int) =~= add);
        i = i + 1;
    }
    assert(directories@.take(n as int) =~= directories@);
    if out.len() == 0 {
        let mut message = owned(user);
        message.append(" shares no files");
        return Err(CliError { exit: Exit::NoResults, message });
    }
    Ok(out)
}

/// What `room list` prints: the rooms busiest first, then by name, or the
/// timeout verdict when no list came within `timeout_secs`, or the
/// no-results verdict when the server lists no room.
pub fn room_list(rooms: Option<Vec<RoomInfo>>, timeout_secs: u64) -> (r: CliResult<Vec<RoomRecord>>)
    ensures
        match rooms {
            None => r matches Err(e) && e.exit == Exit::Timeout && e.message@
                == "the server sent no room list within "@ + decimal(timeout_secs as nat) + "s"@,
            Some(list) => if list@.len() == 0 {
                r matches Err(e) && e.exit == Exit::NoResults && e.message@
                    == "the server lists no public rooms"@
            } else {
                r matches Ok(v) && exists|sorted: Seq<RoomInfo>|
                    sorted.to_multiset() == list@.to_multiset() && is_ranked(sorted, ())
                        && v@.len() == sorted.len() && (forall|k: int|
                        0 <= k < v@.len() ==> (#[trigger] v@[k]).room@ == sorted[k].name@ && v@[k].users
                            == sorted[k].user_count)
            },
        },
{
    match rooms {
        None => {
            let mut message = owned("the server sent no room list within ");
            message.append(decimal_string(timeout_secs).as_str());
            message.append("s");
            Err(CliError { exit: Exit::Timeout, message })
        },
        Some(list) => {
            if list.len() == 0 {
                return Err(CliError::no_results("the server lists no public rooms"));
            }
            let sorted = ranked_copy(&list, &());
            let mut out: Vec<RoomRecord> = Vec::new();
            let n = sorted.len();
            let mut i: usize = 0;
            while i < n
                invariant
                    n == sorted@.len(),
                    i <= n,
                    out@.len() == i,
                    forall|k: int|
                        0 <= k < i ==> (#[trigger] out@[k]).room@ == sorted@[k].name@ && out@[k].users
                            == sorted@[k].user_count,
                decreases n - i,
            {
                out.push(RoomRecord { room: sorted[i].name.clone(), users: sorted[i].user_count });
                i = i + 1;
            }
            proof {
                list@.to_multiset_ensures();
                sorted@.to_multiset_ensures();
            }
            Ok(out)
        },
    }
}

/// The verdict on posting to `room`: confirmed when the server answered a
/// later request, which proves the message went out before it.
pub fn room_say(room: &str, acknowledged: bool) -> (r: CliResult<String>)
    ensures
        acknowledged ==> (r matches Ok(status) && status@ == "posted to "@ + room@),
        !acknowledged ==> (r matches Err(e) && e.exit == Exit::Timeout && e.message@
            == "the server did not acknowledge the message to "@ + room@),
{
    if acknowledged {
        let mut status = owned("posted to ");
        status.append(room);
        Ok(status)
    } else {
        let mut message = owned("the server did not acknowledge the message to ");
        message.append(room);
        Err(CliError { exit: Exit::Timeout, message })
    }
}

/// The verdict on a private message to `user`, confirmed the same way.
pub fn message_send(user: &str, acknowledged: bool) -> (r: CliResult<String>)
    ensures
        acknowledged ==> (r matches Ok(status) && status@ == "sent to "@ + user@),
        !acknowledged ==> (r matches Err(e) && e.exit == Exit::Timeout && e.message@
            == "the server did not acknowledge the message to "@ + user@),
{
    if acknowledged {
        let mut status = owned("sent to ");
        status.append(user);
        Ok(status)
    } else {
        let mut message = owned("the server did not acknowledge the message to ");
        message.append(user);
        Err(CliError { exit: Exit::Timeout, message })
    }
}

/// The records of a batch of private messages, in order.
pub fn message_read(messages: &Vec<UserMessage>) -> (r: Vec<PrivateMessageRecord>)
    ensures
        r@.len() == messages@.len(),
        forall|k: int|
            0 <= k < r@.len() ==> (#[trigger] r@[k]).timestamp == messages@[k].timestamp
                && r@[k].user == messages@[k].username && r@[k].message == messages@[k].message,
{
    let mut out: Vec<PrivateMessageRecord> = Vec::new();
    let n = messages.len();
    let mut i: usize = 0;
    while i < n
        invariant
            n == messages@.len(),
            i <= n,
            out@.len() == i,
            forall|k: int|
                0 <= k < i ==> (#[trigger] out@[k]).timestamp == messages@[k].timestamp
                    && out@[k].user == messages@[k].username && out@[k].message
                    == messages@[k].message,
        decreases n - i,
    {
        let m = &messages[i];
        out.push(
            PrivateMessageRecord {
                timestamp: m.timestamp,
                user: m.username.clone(),
                message: m.message.clone(),
            },
        );
        i = i + 1;
    }
    out
}

} // verus!
