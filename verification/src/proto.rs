//! The daemon's wire vocabulary: JSON-RPC errors and the exit codes they
//! carry, the names of methods and events, and the data types that cross the
//! wire with their conversions from and to the session's own types.
//!
//! Session types never travel as themselves. Each has an explicit transfer
//! type and a mechanical conversion, so the published shape is versioned
//! independently of the session's types.

use crate::output::Exit;
use crate::text::{decimal, decimal_string, owned, str_eq};
use crate::types::{
    DownloadMetadata, File, RoomEvent, RoomInfo, RoomUserStats, SearchResult, SessionLoss,
    SharedDirectory, UploadStatus, UserInfo, UserMessage, UserPresence, UserStats, UserStatus,
};
use std::collections::HashMap;
use vstd::prelude::*;

verus! {

/// Application errors all share one code; the exit status in `data` is what
/// a caller branches on.
pub const CODE_APPLICATION: i32 = -32000;

pub const CODE_PARSE: i32 = -32700;

pub const CODE_INVALID_REQUEST: i32 = -32600;

pub const CODE_METHOD_NOT_FOUND: i32 = -32601;

pub const CODE_INVALID_PARAMS: i32 = -32602;

/// The version of this protocol; client and daemon must speak the same.
pub const PROTOCOL_VERSION: u32 = 1;

/// Whether a daemon that introduced itself as speaking `theirs` can be
/// talked to: it must speak this client's version, and when it does not
/// the refusal names both and says what to do.
pub fn check_protocol(theirs: u32) -> (r: Result<(), String>)
    ensures
        theirs == PROTOCOL_VERSION ==> r is Ok,
        theirs != PROTOCOL_VERSION ==> (r matches Err(m) && m@ == "the daemon speaks protocol "@
            + decimal(theirs as nat) + " and this client speaks "@ + decimal(PROTOCOL_VERSION as nat)
            + "; upgrade whichever is older"@),
{
    if theirs == PROTOCOL_VERSION {
        return Ok(());
    }
    let mut m = owned("the daemon speaks protocol ");
    m.append(decimal_string(theirs as u64).as_str());
    m.append(" and this client speaks ");
    m.append(decimal_string(PROTOCOL_VERSION as u64).as_str());
    m.append("; upgrade whichever is older");
    Err(m)
}

/// The exit status a failure maps to.
#[derive(Debug, Clone, Copy, PartialEq, Eq, Structural)]
pub struct ErrorData {
    /// The exit code.
    pub exit: u8,
}

/// A failure, carrying the exit code the same command would have produced
/// locally so a remote run exits exactly as a local one does.
#[derive(Debug, Clone, PartialEq, Eq)]
pub struct RpcError {
    pub code: i32,
    pub message: String,
    pub data: Option<ErrorData>,
}

/// The exit status an error's data asks for: a known code gives its status,
/// anything else (or nothing) a generic failure.
pub open spec fn exit_of_data(data: Option<ErrorData>) -> Exit {
    match data {
        Some(d) => if d.exit == 0 {
            Exit::Success
        } else if d.exit == 2 {
            Exit::Usage
        } else if d.exit == 3 {
            Exit::Connection
        } else if d.exit == 4 {
            Exit::NoResults
        } else if d.exit == 5 {
            Exit::Timeout
        } else if d.exit == 6 {
            Exit::Transfer
        } else if d.exit == 7 {
            Exit::SessionLost
        } else {
            Exit::Failure
        },
        None => Exit::Failure,
    }
}

impl RpcError {
    /// An error with a JSON-RPC code and no exit status.
    pub fn new(code: i32, message: &str) -> (e: Self)
        ensures
            e.code == code,
            e.message@ == message@,
            e.data is None,
    {
        RpcError { code, message: owned(message), data: None }
    }

    /// An application failure that should reproduce `exit` on the client.
    pub fn application(exit: Exit, message: &str) -> (e: Self)
        ensures
            e.code == CODE_APPLICATION,
            e.message@ == message@,
            e.data == Some(ErrorData { exit: exit.spec_code() }),
    {
        RpcError {
            code: CODE_APPLICATION,
            message: owned(message),
            data: Some(ErrorData { exit: exit.code() }),
        }
    }

    /// The exit status this error asks the client to produce, a generic
    /// failure when the daemon did not say.
    pub fn exit(&self) -> (x: Exit)
        ensures
            x == exit_of_data(self.data),
    {
        match self.data {
            Some(d) => if d.exit == 0 {
                Exit::Success
            } else if d.exit == 2 {
                Exit::Usage
            } else if d.exit == 3 {
                Exit::Connection
            } else if d.exit == 4 {
                Exit::NoResults
            } else if d.exit == 5 {
                Exit::Timeout
            } else if d.exit == 6 {
                Exit::Transfer
            } else if d.exit == 7 {
                Exit::SessionLost
            } else {
                Exit::Failure
            },
            None => Exit::Failure,
        }
    }
}

/// An application error reproduces on the client exactly the exit status
/// the daemon gave it.
pub proof fn lemma_application_exit_round_trips(exit: Exit)
    ensures
        exit_of_data(Some(ErrorData { exit: exit.spec_code() })) == exit,
{
}

/// Every method the daemon answers.
#[derive(Debug, Clone, Copy, PartialEq, Eq, Hash, Structural)]
pub enum Method {
    Auth,
    DaemonStatus,
    DaemonStop,
    RpcDiscover,
    SearchStart,
    SearchResults,
    SearchWishlist,
    SearchWishlistInterval,
    DownloadStart,
    DownloadList,
    DownloadPause,
    DownloadResume,
    DownloadRemove,
    DownloadRemoveQueued,
    UploadList,
    UploadCancel,
    UploadSlots,
    PrivilegesCheck,
    PrivilegesOwn,
    RoomListRequest,
    RoomJoin,
    RoomLeave,
    RoomSay,
    RoomMembers,
    MessageSend,
    MessageHistory,
    BrowseUser,
    UserRequest,
    UserInfoOf,
    SharesStatusOf,
    SharesSet,
    SharesReindex,
}

impl Method {
    /// The method's name on the wire.
    pub open spec fn spec_wire_name(self) -> Seq<char> {
        match self {
            Method::Auth => "auth"@,
            Method::DaemonStatus => "daemon.status"@,
            Method::DaemonStop => "daemon.stop"@,
            Method::RpcDiscover => "rpc.discover"@,
            Method::SearchStart => "search.start"@,
            Method::SearchResults => "search.results"@,
            Method::SearchWishlist => "search.wishlist"@,
            Method::SearchWishlistInterval => "search.wishlist_interval"@,
            Method::DownloadStart => "download.start"@,
            Method::DownloadList => "download.list"@,
            Method::DownloadPause => "download.pause"@,
            Method::DownloadResume => "download.resume"@,
            Method::DownloadRemove => "download.remove"@,
            Method::DownloadRemoveQueued => "download.remove_queued"@,
            Method::UploadList => "upload.list"@,
            Method::UploadCancel => "upload.cancel"@,
            Method::UploadSlots => "upload.slots"@,
            Method::PrivilegesCheck => "privileges.check"@,
            Method::PrivilegesOwn => "privileges.own"@,
            Method::RoomListRequest => "room.list_request"@,
            Method::RoomJoin => "room.join"@,
            Method::RoomLeave => "room.leave"@,
            Method::RoomSay => "room.say"@,
            Method::RoomMembers => "room.members"@,
            Method::MessageSend => "message.send"@,
            Method::MessageHistory => "message.history"@,
            Method::BrowseUser => "browse.user"@,
            Method::UserRequest => "user.request"@,
            Method::UserInfoOf => "user.info"@,
            Method::SharesStatusOf => "shares.status"@,
            Method::SharesSet => "shares.set"@,
            Method::SharesReindex => "shares.reindex"@,
        }
    }

    /// The method's name on the wire.
    pub fn wire_name(self) -> (r: &'static str)
        ensures
            r@ == self.spec_wire_name(),
    {
        match self {
            Method::Auth => "auth",
            Method::DaemonStatus => "daemon.status",
            Method::DaemonStop => "daemon.stop",
            Method::RpcDiscover => "rpc.discover",
            Method::SearchStart => "search.start",
            Method::SearchResults => "search.results",
            Method::SearchWishlist => "search.wishlist",
            Method::SearchWishlistInterval => "search.wishlist_interval",
            Method::DownloadStart => "download.start",
            Method::DownloadList => "download.list",
            Method::DownloadPause => "download.pause",
            Method::DownloadResume => "download.resume",
            Method::DownloadRemove => "download.remove",
            Method::DownloadRemoveQueued => "download.remove_queued",
            Method::UploadList => "upload.list",
            Method::UploadCancel => "upload.cancel",
            Method::UploadSlots => "upload.slots",
            Method::PrivilegesCheck => "privileges.check",
            Method::PrivilegesOwn => "privileges.own",
            Method::RoomListRequest => "room.list_request",
            Method::RoomJoin => "room.join",
            Method::RoomLeave => "room.leave",
            Method::RoomSay => "room.say",
            Method::RoomMembers => "room.members",
            Method::MessageSend => "message.send",
            Method::MessageHistory => "message.history",
            Method::BrowseUser => "browse.user",
            Method::UserRequest => "user.request",
            Method::UserInfoOf => "user.info",
            Method::SharesStatusOf => "shares.status",
            Method::SharesSet => "shares.set",
            Method::SharesReindex => "shares.reindex",
        }
    }

    /// Every method, in published order.
    pub fn all() -> (r: Vec<Method>)
        ensures
            forall|m: Method| #[trigger] r@.contains(m),
    {
        let r = vec![
            Method::Auth,
            Method::DaemonStatus,
            Method::DaemonStop,
            Method::RpcDiscover,
            Method::SearchStart,
            Method::SearchResults,
            Method::SearchWishlist,
            Method::SearchWishlistInterval,
            Method::DownloadStart,
            Method::DownloadList,
            Method::DownloadPause,
            Method::DownloadResume,
            Method::DownloadRemove,
            Method::DownloadRemoveQueued,
            Method::UploadList,
            Method::UploadCancel,
            Method::UploadSlots,
            Method::PrivilegesCheck,
            Method::PrivilegesOwn,
            Method::RoomListRequest,
            Method::RoomJoin,
            Method::RoomLeave,
            Method::RoomSay,
            Method::RoomMembers,
            Method::MessageSend,
            Method::MessageHistory,
            Method::BrowseUser,
            Method::UserRequest,
            Method::UserInfoOf,
            Method::SharesStatusOf,
            Method::SharesSet,
            Method::SharesReindex,
        ];
        assert forall|m: Method| #[trigger] r@.contains(m) by {
            let i: int = match m {
                Method::Auth => 0,
                Method::DaemonStatus => 1,
                Method::DaemonStop => 2,
                Method::RpcDiscover => 3,
                Method::SearchStart => 4,
                Method::SearchResults => 5,
                Method::SearchWishlist => 6,
                Method::SearchWishlistInterval => 7,
                Method::DownloadStart => 8,
                Method::DownloadList => 9,
                Method::DownloadPause => 10,
                Method::DownloadResume => 11,
                Method::DownloadRemove => 12,
                Method::DownloadRemoveQueued => 13,
                Method::UploadList => 14,
                Method::UploadCancel => 15,
                Method::UploadSlots => 16,
                Method::PrivilegesCheck => 17,
                Method::PrivilegesOwn => 18,
                Method::RoomListRequest => 19,
                Method::RoomJoin => 20,
                Method::RoomLeave => 21,
                Method::RoomSay => 22,
                Method::RoomMembers => 23,
                Method::MessageSend => 24,
                Method::MessageHistory => 25,
                Method::BrowseUser => 26,
                Method::UserRequest => 27,
                Method::UserInfoOf => 28,
                Method::SharesStatusOf => 29,
                Method::SharesSet => 30,
                Method::SharesReindex => 31,
            };
            assert(r@[i] == m);
        }
        r
    }

    /// The method a wire name names, if any.
    pub fn from_wire(name: &str) -> (r: Option<Method>)
        ensures
            match r {
                Some(m) => m.spec_wire_name() == name@,
                None => forall|m: Method| #[trigger] m.spec_wire_name() != name@,
            },
    {
        let all = Method::all();
        let n = all.len();
        let mut i: usize = 0;
        while i < n
            invariant
                n == all@.len(),
                i <= n,
                forall|m: Method| #[trigger] all@.contains(m),
                forall|k: int| 0 <= k < i ==> (#[trigger] all@[k]).spec_wire_name() != name@,
            decreases n - i,
        {
            if str_eq(all[i].wire_name(), name) {
                return Some(all[i]);
            }
            i = i + 1;
        }
        proof {
            assert forall|m: Method| #[trigger] m.spec_wire_name() != name@ by {
                assert(all@.contains(m));
                let k = choose|k: int| 0 <= k < all@.len() && all@[k] == m;
                assert(all@[k].spec_wire_name() != name@);
            }
        }
        None
    }
}

/// Events the daemon pushes without being asked.
#[derive(Debug, Clone, Copy, PartialEq, Eq, Hash, Structural)]
pub enum Event {
    Room,
    Message,
    Upload,
    DownloadStatus,
    Browse,
    SessionLoss,
}

impl Event {
    /// The event's name on the wire.
    pub open spec fn spec_wire_name(self) -> Seq<char> {
        match self {
            Event::Room => "event.room"@,
            Event::Message => "event.message"@,
            Event::Upload => "event.upload"@,
            Event::DownloadStatus => "event.download_status"@,
            Event::Browse => "event.browse"@,
            Event::SessionLoss => "event.session_loss"@,
        }
    }

    /// The event's name on the wire.
    pub fn wire_name(self) -> (r: &'static str)
        ensures
            r@ == self.spec_wire_name(),
    {
        match self {
            Event::Room => "event.room",
            Event::Message => "event.message",
            Event::Upload => "event.upload",
            Event::DownloadStatus => "event.download_status",
            Event::Browse => "event.browse",
            Event::SessionLoss => "event.session_loss",
        }
    }

    /// Every event, in published order.
    pub fn all() -> (r: Vec<Event>)
        ensures
            forall|e: Event| #[trigger] r@.contains(e),
    {
        let r = vec![
            Event::Room,
            Event::Message,
            Event::Upload,
            Event::DownloadStatus,
            Event::Browse,
            Event::SessionLoss,
        ];
        assert forall|e: Event| #[trigger] r@.contains(e) by {
            let i: int = match e {
                Event::Room => 0,
                Event::Message => 1,
                Event::Upload => 2,
                Event::DownloadStatus => 3,
                Event::Browse => 4,
                Event::SessionLoss => 5,
            };
            assert(r@[i] == e);
        }
        r
    }

    /// The event a wire name names, if any.
    pub fn from_wire(name: &str) -> (r: Option<Event>)
        ensures
            match r {
                Some(e) => e.spec_wire_name() == name@,
                None => forall|e: Event| #[trigger] e.spec_wire_name() != name@,
            },
    {
        let all = Event::all();
        let n = all.len();
        let mut i: usize = 0;
        while i < n
            invariant
                n == all@.len(),
                i <= n,
                forall|e: Event| #[trigger] all@.contains(e),
                forall|k: int| 0 <= k < i ==> (#[trigger] all@[k]).spec_wire_name() != name@,
            decreases n - i,
        {
            if str_eq(all[i].wire_name(), name) {
                return Some(all[i]);
            }
            i = i + 1;
        }
        proof {
            assert forall|e: Event| #[trigger] e.spec_wire_name() != name@ by {
                assert(all@.contains(e));
                let k = choose|k: int| 0 <= k < all@.len() && all@[k] == e;
                assert(all@[k].spec_wire_name() != name@);
            }
        }
        None
    }
}

/// The method whose wire name is `s`.
pub open spec fn method_named(s: Seq<char>) -> Option<Method> {
    if s == "auth"@ {
        Some(Method::Auth)
    } else if s == "daemon.status"@ {
        Some(Method::DaemonStatus)
    } else if s == "daemon.stop"@ {
        Some(Method::DaemonStop)
    } else if s == "rpc.discover"@ {
        Some(Method::RpcDiscover)
    } else if s == "search.start"@ {
        Some(Method::SearchStart)
    } else if s == "search.results"@ {
        Some(Method::SearchResults)
    } else if s == "search.wishlist"@ {
        Some(Method::SearchWishlist)
    } else if s == "search.wishlist_interval"@ {
        Some(Method::SearchWishlistInterval)
    } else if s == "download.start"@ {
        Some(Method::DownloadStart)
    } else if s == "download.list"@ {
        Some(Method::DownloadList)
    } else if s == "download.pause"@ {
        Some(Method::DownloadPause)
    } else if s == "download.resume"@ {
        Some(Method::DownloadResume)
    } else if s == "download.remove"@ {
        Some(Method::DownloadRemove)
    } else if s == "download.remove_queued"@ {
        Some(Method::DownloadRemoveQueued)
    } else if s == "upload.list"@ {
        Some(Method::UploadList)
    } else if s == "upload.cancel"@ {
        Some(Method::UploadCancel)
    } else if s == "upload.slots"@ {
        Some(Method::UploadSlots)
    } else if s == "privileges.check"@ {
        Some(Method::PrivilegesCheck)
    } else if s == "privileges.own"@ {
        Some(Method::PrivilegesOwn)
    } else if s == "room.list_request"@ {
        Some(Method::RoomListRequest)
    } else if s == "room.join"@ {
        Some(Method::RoomJoin)
    } else if s == "room.leave"@ {
        Some(Method::RoomLeave)
    } else if s == "room.say"@ {
        Some(Method::RoomSay)
    } else if s == "room.members"@ {
        Some(Method::RoomMembers)
    } else if s == "message.send"@ {
        Some(Method::MessageSend)
    } else if s == "message.history"@ {
        Some(Method::MessageHistory)
    } else if s == "browse.user"@ {
        Some(Method::BrowseUser)
    } else if s == "user.request"@ {
        Some(Method::UserRequest)
    } else if s == "user.info"@ {
        Some(Method::UserInfoOf)
    } else if s == "shares.status"@ {
        Some(Method::SharesStatusOf)
    } else if s == "shares.set"@ {
        Some(Method::SharesSet)
    } else if s == "shares.reindex"@ {
        Some(Method::SharesReindex)
    } else {
        None
    }
}

/// No two methods share a wire name: reading back the name a method was
/// written under gives that same method.
pub proof fn lemma_method_wire_name_round_trips(a: Method, b: Method)
    ensures
        method_named(a.spec_wire_name()) == Some(a),
        a.spec_wire_name() == b.spec_wire_name() ==> a == b,
{
    reveal_strlit("auth");
    reveal_strlit("daemon.status");
    reveal_strlit("daemon.stop");
    reveal_strlit("rpc.discover");
    reveal_strlit("search.start");
    reveal_strlit("search.results");
    reveal_strlit("search.wishlist");
    reveal_strlit("search.wishlist_interval");
    reveal_strlit("download.start");
    reveal_strlit("download.list");
    reveal_strlit("download.pause");
    reveal_strlit("download.resume");
    reveal_strlit("download.remove");
    reveal_strlit("download.remove_queued");
    reveal_strlit("upload.list");
    reveal_strlit("upload.cancel");
    reveal_strlit("upload.slots");
    reveal_strlit("privileges.check");
    reveal_strlit("privileges.own");
    reveal_strlit("room.list_request");
    reveal_strlit("room.join");
    reveal_strlit("room.leave");
    reveal_strlit("room.say");
    reveal_strlit("room.members");
    reveal_strlit("message.send");
    reveal_strlit("message.history");
    reveal_strlit("browse.user");
    reveal_strlit("user.request");
    reveal_strlit("user.info");
    reveal_strlit("shares.status");
    reveal_strlit("shares.set");
    reveal_strlit("shares.reindex");
    assert("daemon.status"@[1] != "download.list"@[1]);
    assert("daemon.status"@[0] != "upload.cancel"@[0]);
    assert("daemon.status"@[0] != "shares.status"@[0]);
    assert("daemon.stop"@[0] != "upload.list"@[0]);
    assert("daemon.stop"@[0] != "browse.user"@[0]);
    assert("rpc.discover"@[0] != "search.start"@[0]);
    assert("rpc.discover"@[0] != "upload.slots"@[0]);
    assert("rpc.discover"@[1] != "room.members"@[1]);
    assert("rpc.discover"@[0] != "message.send"@[0]);
    assert("rpc.discover"@[0] != "user.request"@[0]);
    assert("search.start"@[0] != "upload.slots"@[0]);
    assert("search.start"@[0] != "room.members"@[0]);
    assert("search.start"@[0] != "message.send"@[0]);
    assert("search.start"@[0] != "user.request"@[0]);
    assert("search.results"@[0] != "download.start"@[0]);
    assert("search.results"@[0] != "download.pause"@[0]);
    assert("search.results"@[0] != "privileges.own"@[0]);
    assert("search.results"@[1] != "shares.reindex"@[1]);
    assert("search.wishlist"@[0] != "download.resume"@[0]);
    assert("search.wishlist"@[0] != "download.remove"@[0]);
    assert("search.wishlist"@[0] != "message.history"@[0]);
    assert("download.start"@[9] != "download.pause"@[9]);
    assert("download.start"@[0] != "privileges.own"@[0]);
    assert("download.start"@[0] != "shares.reindex"@[0]);
    assert("download.list"@[0] != "upload.cancel"@[0]);
    assert("download.list"@[0] != "shares.status"@[0]);
    assert("download.pause"@[0] != "privileges.own"@[0]);
    assert("download.pause"@[0] != "shares.reindex"@[0]);
    assert("download.resume"@[11] != "download.remove"@[11]);
    assert("download.resume"@[0] != "message.history"@[0]);
    assert("download.remove"@[0] != "message.history"@[0]);
    assert("upload.list"@[0] != "browse.user"@[0]);
    assert("upload.cancel"@[0] != "shares.status"@[0]);
    assert("upload.slots"@[0] != "room.members"@[0]);
    assert("upload.slots"@[0] != "message.send"@[0]);
    assert("upload.slots"@[1] != "user.request"@[1]);
    assert("privileges.own"@[0] != "shares.reindex"@[0]);
    assert("room.join"@[0] != "user.info"@[0]);
    assert("room.leave"@[0] != "shares.set"@[0]);
    assert("room.members"@[0] != "message.send"@[0]);
    assert("room.members"@[0] != "user.request"@[0]);
    assert("message.send"@[0] != "user.request"@[0]);
    assert("auth"@.len() == 4);
    assert("daemon.status"@.len() == 13);
    assert("daemon.stop"@.len() == 11);
    assert("rpc.discover"@.len() == 12);
    assert("search.start"@.len() == 12);
    assert("search.results"@.len() == 14);
    assert("search.wishlist"@.len() == 15);
    assert("search.wishlist_interval"@.len() == 24);
    assert("download.start"@.len() == 14);
    assert("download.list"@.len() == 13);
    assert("download.pause"@.len() == 14);
    assert("download.resume"@.len() == 15);
    assert("download.remove"@.len() == 15);
    assert("download.remove_queued"@.len() == 22);
    assert("upload.list"@.len() == 11);
    assert("upload.cancel"@.len() == 13);
    assert("upload.slots"@.len() == 12);
    assert("privileges.check"@.len() == 16);
    assert("privileges.own"@.len() == 14);
    assert("room.list_request"@.len() == 17);
    assert("room.join"@.len() == 9);
    assert("room.leave"@.len() == 10);
    assert("room.say"@.len() == 8);
    assert("room.members"@.len() == 12);
    assert("message.send"@.len() == 12);
    assert("message.history"@.len() == 15);
    assert("browse.user"@.len() == 11);
    assert("user.request"@.len() == 12);
    assert("user.info"@.len() == 9);
    assert("shares.status"@.len() == 13);
    assert("shares.set"@.len() == 10);
    assert("shares.reindex"@.len() == 14);
    match a {
        Method::Auth => {},
        Method::DaemonStatus => {},
        Method::DaemonStop => {},
        Method::RpcDiscover => {},
        Method::SearchStart => {},
        Method::SearchResults => {},
        Method::SearchWishlist => {},
        Method::SearchWishlistInterval => {},
        Method::DownloadStart => {},
        Method::DownloadList => {},
        Method::DownloadPause => {},
        Method::DownloadResume => {},
        Method::DownloadRemove => {},
        Method::DownloadRemoveQueued => {},
        Method::UploadList => {},
        Method::UploadCancel => {},
        Method::UploadSlots => {},
        Method::PrivilegesCheck => {},
        Method::PrivilegesOwn => {},
        Method::RoomListRequest => {},
        Method::RoomJoin => {},
        Method::RoomLeave => {},
        Method::RoomSay => {},
        Method::RoomMembers => {},
        Method::MessageSend => {},
        Method::MessageHistory => {},
        Method::BrowseUser => {},
        Method::UserRequest => {},
        Method::UserInfoOf => {},
        Method::SharesStatusOf => {},
        Method::SharesSet => {},
        Method::SharesReindex => {},
    }
}

/// The event whose wire name is `s`.
pub open spec fn event_named(s: Seq<char>) -> Option<Event> {
    if s == "event.room"@ {
        Some(Event::Room)
    } else if s == "event.message"@ {
        Some(Event::Message)
    } else if s == "event.upload"@ {
        Some(Event::Upload)
    } else if s == "event.download_status"@ {
        Some(Event::DownloadStatus)
    } else if s == "event.browse"@ {
        Some(Event::Browse)
    } else if s == "event.session_loss"@ {
        Some(Event::SessionLoss)
    } else {
        None
    }
}

/// No two events share a wire name: reading back the name a event was
/// written under gives that same event.
pub proof fn lemma_event_wire_name_round_trips(a: Event, b: Event)
    ensures
        event_named(a.spec_wire_name()) == Some(a),
        a.spec_wire_name() == b.spec_wire_name() ==> a == b,
{
    reveal_strlit("event.room");
    reveal_strlit("event.message");
    reveal_strlit("event.upload");
    reveal_strlit("event.download_status");
    reveal_strlit("event.browse");
    reveal_strlit("event.session_loss");
    assert("event.upload"@[6] != "event.browse"@[6]);
    assert("event.room"@.len() == 10);
    assert("event.message"@.len() == 13);
    assert("event.upload"@.len() == 12);
    assert("event.download_status"@.len() == 21);
    assert("event.browse"@.len() == 12);
    assert("event.session_loss"@.len() == 18);
    match a {
        Event::Room => {},
        Event::Message => {},
        Event::Upload => {},
        Event::DownloadStatus => {},
        Event::Browse => {},
        Event::SessionLoss => {},
    }
}

/// How a client introduces itself.
#[derive(Debug, Clone, Default)]
pub struct AuthParams {
    /// Required on TCP. Omitted on a Unix socket, where the socket's own
    /// permissions already prove the caller is this user.
    pub token: Option<String>,
    pub protocol: u32,
}

/// What the daemon answers a successful introduction with.
#[derive(Debug, Clone)]
pub struct AuthResult {
    pub protocol: u32,
    pub daemon_version: String,
    /// The Soulseek account the daemon is logged in as.
    pub username: String,
}

/// One file of a search answer on the wire.
#[derive(Debug, Clone)]
pub struct FileDto {
    pub name: String,
    pub size: u64,
    /// Attribute codes (0 = bitrate, 1 = duration in seconds).
    pub attribs: HashMap<u32, u32>,
}

/// One peer's answer to a search on the wire.
#[derive(Debug, Clone)]
pub struct SearchResultDto {
    pub token: u32,
    pub username: String,
    pub slots: u8,
    pub speed: u32,
    pub files: Vec<FileDto>,
}

/// What is kept of a file on the wire: its name, size and attributes.
pub open spec fn file_view(f: File) -> (Seq<char>, u64, Map<u32, u32>) {
    (f.name@, f.size, f.attribs@)
}

/// The same, for a file on the wire.
pub open spec fn file_dto_view(f: FileDto) -> (Seq<char>, u64, Map<u32, u32>) {
    (f.name@, f.size, f.attribs@)
}

fn copy_attribs(m: &HashMap<u32, u32>) -> (r: HashMap<u32, u32>)
    ensures
        r@ == m@,
{
    m.clone()
}

impl SearchResultDto {
    /// A search answer as it travels.
    pub fn of(result: &SearchResult) -> (d: SearchResultDto)
        ensures
            d.token == result.token,
            d.username@ == result.username@,
            d.slots == result.slots,
            d.speed == result.speed,
            d.files@.len() == result.files@.len(),
            forall|k: int|
                0 <= k < d.files@.len() ==> file_dto_view(#[trigger] d.files@[k]) == file_view(
                    result.files@[k],
                ),
    {
        let mut files: Vec<FileDto> = Vec::new();
        let n = result.files.len();
        let mut i: usize = 0;
        while i < n
            invariant
                n == result.files@.len(),
                i <= n,
                files@.len() == i,
                forall|k: int|
                    0 <= k < i ==> file_dto_view(#[trigger] files@[k]) == file_view(
                        result.files@[k],
                    ),
            decreases n - i,
        {
            let f = &result.files[i];
            files.push(
                FileDto { name: f.name.clone(), size: f.size, attribs: copy_attribs(&f.attribs) },
            );
            i = i + 1;
        }
        SearchResultDto {
            token: result.token,
            username: result.username.clone(),
            slots: result.slots,
            speed: result.speed,
            files,
        }
    }

    /// The search answer a transfer value stands for: every file is the
    /// answering peer's.
    pub fn into_result(self) -> (r: SearchResult)
        ensures
            r.token == self.token,
            r.username@ == self.username@,
            r.slots == self.slots,
            r.speed == self.speed,
            r.files@.len() == self.files@.len(),
            forall|k: int|
                0 <= k < r.files@.len() ==> file_view(#[trigger] r.files@[k]) == file_dto_view(
                    self.files@[k],
                ) && r.files@[k].username@ == self.username@,
    {
        let mut files: Vec<File> = Vec::new();
        let n = self.files.len();
        let mut i: usize = 0;
        while i < n
            invariant
                n == self.files@.len(),
                i <= n,
                files@.len() == i,
                forall|k: int|
                    0 <= k < i ==> file_view(#[trigger] files@[k]) == file_dto_view(self.files@[k])
                        && files@[k].username@ == self.username@,
            decreases n - i,
        {
            let f = &self.files[i];
            files.push(
                File {
                    username: self.username.clone(),
                    name: f.name.clone(),
                    size: f.size,
                    attribs: copy_attribs(&f.attribs),
                },
            );
            i = i + 1;
        }
        SearchResult {
            token: self.token,
            files,
            slots: self.slots,
            speed: self.speed,
            username: self.username,
        }
    }
}

/// Where an upload stands, on the wire.
#[derive(Debug, Clone, PartialEq, Eq)]
pub enum UploadStatusDto {
    /// Waiting for a slot, at this 1-based place in the queue.
    Queued { place: u32 },
    InProgress,
    Completed,
    Cancelled,
    Failed { reason: String },
}

/// The upload status a wire value and a session value both describe.
pub open spec fn upload_status_view(s: UploadStatus) -> (int, u32, Seq<char>) {
    match s {
        UploadStatus::Queued(place) => (0, place, Seq::empty()),
        UploadStatus::InProgress => (1, 0, Seq::empty()),
        UploadStatus::Completed => (2, 0, Seq::empty()),
        UploadStatus::Cancelled => (3, 0, Seq::empty()),
        UploadStatus::Failed(reason) => (4, 0, reason@),
    }
}

/// The same, for the wire value.
pub open spec fn upload_status_dto_view(s: UploadStatusDto) -> (int, u32, Seq<char>) {
    match s {
        UploadStatusDto::Queued { place } => (0, place, Seq::empty()),
        UploadStatusDto::InProgress => (1, 0, Seq::empty()),
        UploadStatusDto::Completed => (2, 0, Seq::empty()),
        UploadStatusDto::Cancelled => (3, 0, Seq::empty()),
        UploadStatusDto::Failed { reason } => (4, 0, reason@),
    }
}

impl UploadStatusDto {
    /// An upload status as it travels.
    pub fn of(status: &UploadStatus) -> (d: UploadStatusDto)
        ensures
            upload_status_dto_view(d) == upload_status_view(*status),
    {
        match status {
            UploadStatus::Queued(place) => UploadStatusDto::Queued { place: *place },
            UploadStatus::InProgress => UploadStatusDto::InProgress,
            UploadStatus::Completed => UploadStatusDto::Completed,
            UploadStatus::Cancelled => UploadStatusDto::Cancelled,
            UploadStatus::Failed(reason) => UploadStatusDto::Failed { reason: reason.clone() },
        }
    }

    /// The upload status a wire value stands for.
    pub fn into_status(self) -> (s: UploadStatus)
        ensures
            upload_status_view(s) == upload_status_dto_view(self),
    {
        match self {
            UploadStatusDto::Queued { place } => UploadStatus::Queued(place),
            UploadStatusDto::InProgress => UploadStatus::InProgress,
            UploadStatusDto::Completed => UploadStatus::Completed,
            UploadStatusDto::Cancelled => UploadStatus::Cancelled,
            UploadStatusDto::Failed { reason } => UploadStatus::Failed(reason),
        }
    }
}

/// What is known of a download beyond its name, on the wire.
#[derive(Debug, Clone, Copy, Default, PartialEq, Eq, Structural)]
pub struct DownloadMetadataDto {
    pub bitrate: Option<u32>,
    pub length_seconds: Option<u32>,
    pub peer_upload_speed: Option<u32>,
    pub peer_free_slots: Option<u8>,
}

impl From<DownloadMetadata> for DownloadMetadataDto {
    /// Field for field.
    fn from(m: DownloadMetadata) -> (d: Self) {
        DownloadMetadataDto {
            bitrate: m.bitrate,
            length_seconds: m.length_seconds,
            peer_upload_speed: m.peer_upload_speed,
            peer_free_slots: m.peer_free_slots,
        }
    }
}

impl vstd::std_specs::convert::FromSpecImpl<DownloadMetadata> for DownloadMetadataDto {
    open spec fn obeys_from_spec() -> bool {
        true
    }

    open spec fn from_spec(m: DownloadMetadata) -> Self {
        DownloadMetadataDto {
            bitrate: m.bitrate,
            length_seconds: m.length_seconds,
            peer_upload_speed: m.peer_upload_speed,
            peer_free_slots: m.peer_free_slots,
        }
    }
}

impl From<DownloadMetadataDto> for DownloadMetadata {
    /// Field for field.
    fn from(d: DownloadMetadataDto) -> (m: Self) {
        DownloadMetadata {
            bitrate: d.bitrate,
            length_seconds: d.length_seconds,
            peer_upload_speed: d.peer_upload_speed,
            peer_free_slots: d.peer_free_slots,
        }
    }
}

impl vstd::std_specs::convert::FromSpecImpl<DownloadMetadataDto> for DownloadMetadata {
    open spec fn obeys_from_spec() -> bool {
        true
    }

    open spec fn from_spec(d: DownloadMetadataDto) -> Self {
        DownloadMetadata {
            bitrate: d.bitrate,
            length_seconds: d.length_seconds,
            peer_upload_speed: d.peer_upload_speed,
            peer_free_slots: d.peer_free_slots,
        }
    }
}

/// Reading a download's metadata off the wire keeps every field as it was
/// sent, and sending it back gives the same wire value; writing it to the
/// wire and reading it back gives the same metadata.
pub proof fn lemma_metadata_wire_keeps_fields(d: DownloadMetadataDto, m: DownloadMetadata)
    ensures
        ({
            let read = <DownloadMetadata as vstd::std_specs::convert::FromSpec<
                DownloadMetadataDto,
            >>::from_spec(d);
            &&& read.bitrate == d.bitrate
            &&& read.length_seconds == d.length_seconds
            &&& read.peer_upload_speed == d.peer_upload_speed
            &&& read.peer_free_slots == d.peer_free_slots
            &&& <DownloadMetadataDto as vstd::std_specs::convert::FromSpec<
                DownloadMetadata,
            >>::from_spec(read) == d
        }),
        ({
            let sent = <DownloadMetadataDto as vstd::std_specs::convert::FromSpec<
                DownloadMetadata,
            >>::from_spec(m);
            &&& sent.bitrate == m.bitrate
            &&& sent.length_seconds == m.length_seconds
            &&& sent.peer_upload_speed == m.peer_upload_speed
            &&& sent.peer_free_slots == m.peer_free_slots
            &&& <DownloadMetadata as vstd::std_specs::convert::FromSpec<
                DownloadMetadataDto,
            >>::from_spec(sent) == m
        }),
{
}

/// A public room on the wire.
#[derive(Debug, Clone, PartialEq, Eq)]
pub struct RoomInfoDto {
    pub name: String,
    pub user_count: u32,
}

impl RoomInfoDto {
    /// A room entry as it travels.
    pub fn of(room: &RoomInfo) -> (d: RoomInfoDto)
        ensures
            d.name@ == room.name@,
            d.user_count == room.user_count,
    {
        RoomInfoDto { name: room.name.clone(), user_count: room.user_count }
    }

    /// The room entry a wire value stands for.
    pub fn into_room(self) -> (r: RoomInfo)
        ensures
            r.name@ == self.name@,
            r.user_count == self.user_count,
    {
        RoomInfo { name: self.name, user_count: self.user_count }
    }
}

/// Something that happened in the chat rooms, on the wire.
#[derive(Debug, Clone, PartialEq, Eq)]
pub enum RoomEventDto {
    List { rooms: Vec<RoomInfoDto> },
    Joined { room: String, users: Vec<String> },
    Left { room: String },
    Message { room: String, username: String, message: String },
    UserJoined { room: String, username: String },
    UserLeft { room: String, username: String },
}

/// A room event as values: its kind, the room list, the room, the member
/// list, the user and the message.
pub open spec fn room_event_view(e: RoomEvent) -> (
    int,
    Seq<(Seq<char>, u32)>,
    Seq<char>,
    Seq<Seq<char>>,
    Seq<char>,
    Seq<char>,
) {
    match e {
        RoomEvent::List(rooms) => (
            0,
            rooms@.map_values(|r: RoomInfo| (r.name@, r.user_count)),
            Seq::empty(),
            Seq::empty(),
            Seq::empty(),
            Seq::empty(),
        ),
        RoomEvent::Joined { room, users } => (
            1,
            Seq::empty(),
            room@,
            users@.map_values(|u: String| u@),
            Seq::empty(),
            Seq::empty(),
        ),
        RoomEvent::Left { room } => (2, Seq::empty(), room@, Seq::empty(), Seq::empty(), Seq::empty()),
        RoomEvent::Message { room, username, message } => (
            3,
            Seq::empty(),
            room@,
            Seq::empty(),
            username@,
            message@,
        ),
        RoomEvent::UserJoined { room, username } => (
            4,
            Seq::empty(),
            room@,
            Seq::empty(),
            username@,
            Seq::empty(),
        ),
        RoomEvent::UserLeft { room, username } => (
            5,
            Seq::empty(),
            room@,
            Seq::empty(),
            username@,
            Seq::empty(),
        ),
    }
}

/// The same, for the wire value.
pub open spec fn room_event_dto_view(e: RoomEventDto) -> (
    int,
    Seq<(Seq<char>, u32)>,
    Seq<char>,
    Seq<Seq<char>>,
    Seq<char>,
    Seq<char>,
) {
    match e {
        RoomEventDto::List { rooms } => (
            0,
            rooms@.map_values(|r: RoomInfoDto| (r.name@, r.user_count)),
            Seq::empty(),
            Seq::empty(),
            Seq::empty(),
            Seq::empty(),
        ),
        RoomEventDto::Joined { room, users } => (
            1,
            Seq::empty(),
            room@,
            users@.map_values(|u: String| u@),
            Seq::empty(),
            Seq::empty(),
        ),
        RoomEventDto::Left { room } => (
            2,
            Seq::empty(),
            room@,
            Seq::empty(),
            Seq::empty(),
            Seq::empty(),
        ),
        RoomEventDto::Message { room, username, message } => (
            3,
            Seq::empty(),
            room@,
            Seq::empty(),
            username@,
            message@,
        ),
        RoomEventDto::UserJoined { room, username } => (
            4,
            Seq::empty(),
            room@,
            Seq::empty(),
            username@,
            Seq::empty(),
        ),
        RoomEventDto::UserLeft { room, username } => (
            5,
            Seq::empty(),
            room@,
            Seq::empty(),
            username@,
            Seq::empty(),
        ),
    }
}

fn copy_strings(v: &Vec<String>) -> (r: Vec<String>)
    ensures
        r@.map_values(|u: String| u@) == v@.map_values(|u: String| u@),
{
    let mut r: Vec<String> = Vec::new();
    let n = v.len();
    let mut i: usize = 0;
    while i < n
        invariant
            n == v@.len(),
            i <= n,
            r@.len() == i,
            forall|k: int| 0 <= k < i ==> (#[trigger] r@[k])@ == v@[k]@,
        decreases n - i,
    {
        r.push(v[i].clone());
        i = i + 1;
    }
    assert(r@.map_values(|u: String| u@) =~= v@.map_values(|u: String| u@));
    r
}

impl RoomEventDto {
    /// A room event as it travels.
    pub fn of(event: &RoomEvent) -> (d: RoomEventDto)
        ensures
            room_event_dto_view(d) == room_event_view(*event),
    {
        match event {
            RoomEvent::List(rooms) => {
                let mut out: Vec<RoomInfoDto> = Vec::new();
                let n = rooms.len();
                let mut i: usize = 0;
                while i < n
                    invariant
                        n == rooms@.len(),
                        i <= n,
                        out@.len() == i,
                        forall|k: int|
                            0 <= k < i ==> (#[trigger] out@[k]).name@ == rooms@[k].name@
                                && out@[k].user_count == rooms@[k].user_count,
                    decreases n - i,
                {
                    out.push(RoomInfoDto::of(&rooms[i]));
                    i = i + 1;
                }
                let d = RoomEventDto::List { rooms: out };
                assert(out@.map_values(|r: RoomInfoDto| (r.name@, r.user_count)) =~= rooms@.map_values(
                    |r: RoomInfo| (r.name@, r.user_count),
                ));
                d
            },
            RoomEvent::Joined { room, users } => RoomEventDto::Joined {
                room: room.clone(),
                users: copy_strings(users),
            },
            RoomEvent::Left { room } => RoomEventDto::Left { room: room.clone() },
            RoomEvent::Message { room, username, message } => RoomEventDto::Message {
                room: room.clone(),
                username: username.clone(),
                message: message.clone(),
            },
            RoomEvent::UserJoined { room, username } => RoomEventDto::UserJoined {
                room: room.clone(),
                username: username.clone(),
            },
            RoomEvent::UserLeft { room, username } => RoomEventDto::UserLeft {
                room: room.clone(),
                username: username.clone(),
            },
        }
    }

    /// The room event a wire value stands for.
    pub fn into_event(self) -> (e: RoomEvent)
        ensures
            room_event_view(e) == room_event_dto_view(self),
    {
        match self {
            RoomEventDto::List { rooms } => {
                let mut out: Vec<RoomInfo> = Vec::new();
                let n = rooms.len();
                let mut i: usize = 0;
                while i < n
                    invariant
                        n == rooms@.len(),
                        i <= n,
                        out@.len() == i,
                        forall|k: int|
                            0 <= k < i ==> (#[trigger] out@[k]).name@ == rooms@[k].name@
                                && out@[k].user_count == rooms@[k].user_count,
                    decreases n - i,
                {
                    out.push(RoomInfo { name: rooms[i].name.clone(), user_count: rooms[i].user_count });
                    i = i + 1;
                }
                assert(out@.map_values(|r: RoomInfo| (r.name@, r.user_count)) =~= rooms@.map_values(
                    |r: RoomInfoDto| (r.name@, r.user_count),
                ));
                RoomEvent::List(out)
            },
            RoomEventDto::Joined { room, users } => RoomEvent::Joined { room, users },
            RoomEventDto::Left { room } => RoomEvent::Left { room },
            RoomEventDto::Message { room, username, message } => RoomEvent::Message {
                room,
                username,
                message,
            },
            RoomEventDto::UserJoined { room, username } => RoomEvent::UserJoined { room, username },
            RoomEventDto::UserLeft { room, username } => RoomEvent::UserLeft { room, username },
        }
    }
}

/// A room event survives the trip over the wire: what arrives describes the
/// same event that was sent.
pub proof fn lemma_room_event_round_trip(sent: RoomEvent, wire: RoomEventDto, received: RoomEvent)
    requires
        room_event_dto_view(wire) == room_event_view(sent),
        room_event_view(received) == room_event_dto_view(wire),
    ensures
        room_event_view(received) == room_event_view(sent),
{
}

/// Whether a user is online and privileged, on the wire.
#[derive(Debug, Clone, PartialEq, Eq)]
pub struct UserPresenceDto {
    /// `online`, `away`, or `offline`.
    pub status: String,
    pub privileged: bool,
}

/// What a user shares and how fast they upload, on the wire.
#[derive(Debug, Clone, Copy, PartialEq, Eq, Structural)]
pub struct UserStatsDto {
    pub average_speed: u32,
    pub shared_files: u32,
    pub shared_folders: u32,
}

/// The status a word names: `online`, `away`, and anything else offline,
/// matching how the wire code is decoded.
pub open spec fn spec_status_from_str(s: Seq<char>) -> UserStatus {
    if s == "online"@ {
        UserStatus::Online
    } else if s == "away"@ {
        UserStatus::Away
    } else {
        UserStatus::Offline
    }
}

/// Reads a status word back.
pub fn status_from_str(s: &str) -> (r: UserStatus)
    ensures
        r == spec_status_from_str(s@),
{
    if str_eq(s, "online") {
        UserStatus::Online
    } else if str_eq(s, "away") {
        UserStatus::Away
    } else {
        UserStatus::Offline
    }
}

/// A status written as its word reads back as the same status.
pub proof fn lemma_status_word_round_trips(s: UserStatus)
    ensures
        spec_status_from_str(s.spec_word()) == s,
{
    reveal_strlit("online");
    reveal_strlit("away");
    reveal_strlit("offline");
    assert("online"@.len() == 6);
    assert("away"@.len() == 4);
    assert("offline"@.len() == 7);
}

/// One member of a room on the wire.
#[derive(Debug, Clone, PartialEq, Eq)]
pub struct RoomUserStatsDto {
    pub username: String,
    /// `online`, `away`, or `offline`.
    pub status: String,
    pub average_speed: u32,
    pub shared_files: u32,
    pub shared_folders: u32,
    pub slots_free: u32,
    pub country: Option<String>,
}

/// What the server said about a user, on the wire. Each half is `None` until
/// its reply lands, so a consumer can tell "offline" from "not answered".
#[derive(Debug, Clone, PartialEq, Eq)]
pub struct UserInfoDto {
    pub username: String,
    pub presence: Option<UserPresenceDto>,
    pub stats: Option<UserStatsDto>,
}

impl UserInfoDto {
    /// What the server said about a user, as it travels.
    pub fn of(info: &UserInfo) -> (d: UserInfoDto)
        ensures
            d.username@ == info.username@,
            d.presence is Some <==> info.presence is Some,
            info.presence matches Some(p) ==> d.presence.unwrap().status@ == p.status.spec_word()
                && d.presence.unwrap().privileged == p.privileged,
            d.stats == (match info.stats {
                Some(s) => Some(
                    UserStatsDto {
                        average_speed: s.average_speed,
                        shared_files: s.shared_files,
                        shared_folders: s.shared_folders,
                    },
                ),
                None => None,
            }),
    {
        let presence = match info.presence {
            Some(p) => Some(UserPresenceDto { status: owned(p.status.word()), privileged: p.privileged }),
            None => None,
        };
        let stats = match info.stats {
            Some(s) => Some(
                UserStatsDto {
                    average_speed: s.average_speed,
                    shared_files: s.shared_files,
                    shared_folders: s.shared_folders,
                },
            ),
            None => None,
        };
        UserInfoDto { username: info.username.clone(), presence, stats }
    }

    /// What a wire value says about a user; an unknown status word reads as
    /// offline.
    pub fn into_info(self) -> (r: UserInfo)
        ensures
            r.username@ == self.username@,
            r.presence == (match self.presence {
                Some(p) => Some(
                    UserPresence {
                        status: spec_status_from_str(p.status@),
                        privileged: p.privileged,
                    },
                ),
                None => None,
            }),
            r.stats == (match self.stats {
                Some(s) => Some(
                    UserStats {
                        average_speed: s.average_speed,
                        shared_files: s.shared_files,
                        shared_folders: s.shared_folders,
                    },
                ),
                None => None,
            }),
    {
        let presence = match &self.presence {
            Some(p) => Some(
                UserPresence { status: status_from_str(p.status.as_str()), privileged: p.privileged },
            ),
            None => None,
        };
        let stats = match self.stats {
            Some(s) => Some(
                UserStats {
                    average_speed: s.average_speed,
                    shared_files: s.shared_files,
                    shared_folders: s.shared_folders,
                },
            ),
            None => None,
        };
        UserInfo { username: self.username, presence, stats }
    }
}

/// A user's description survives the trip over the wire, halves that had
/// not been answered included.
pub proof fn lemma_user_info_round_trip(sent: UserInfo, wire: UserInfoDto, received: UserInfo)
    requires
        wire.username@ == sent.username@,
        wire.presence is Some <==> sent.presence is Some,
        sent.presence matches Some(p) ==> wire.presence.unwrap().status@ == p.status.spec_word()
            && wire.presence.unwrap().privileged == p.privileged,
        wire.stats == (match sent.stats {
            Some(s) => Some(
                UserStatsDto {
                    average_speed: s.average_speed,
                    shared_files: s.shared_files,
                    shared_folders: s.shared_folders,
                },
            ),
            None => None,
        }),
        received.username@ == wire.username@,
        received.presence == (match wire.presence {
            Some(p) => Some(
                UserPresence { status: spec_status_from_str(p.status@), privileged: p.privileged },
            ),
            None => None,
        }),
        received.stats == (match wire.stats {
            Some(s) => Some(
                UserStats {
                    average_speed: s.average_speed,
                    shared_files: s.shared_files,
                    shared_folders: s.shared_folders,
                },
            ),
            None => None,
        }),
    ensures
        received.username@ == sent.username@,
        received.presence == sent.presence,
        received.stats == sent.stats,
{
    if let Some(p) = sent.presence {
        lemma_status_word_round_trips(p.status);
    }
}

/// One folder of a share listing on the wire.
#[derive(Debug, Clone, PartialEq, Eq)]
pub struct SharedDirectoryDto {
    pub name: String,
    /// File name and size; join with the folder to get a downloadable path.
    pub files: Vec<(String, u64)>,
}

/// A listed folder's files as values.
pub open spec fn files_view(files: Seq<(String, u64)>) -> Seq<(Seq<char>, u64)> {
    files.map_values(|f: (String, u64)| (f.0@, f.1))
}

fn copy_files(v: &Vec<(String, u64)>) -> (r: Vec<(String, u64)>)
    ensures
        files_view(r@) == files_view(v@),
{
    let mut r: Vec<(String, u64)> = Vec::new();
    let n = v.len();
    let mut i: usize = 0;
    while i < n
        invariant
            n == v@.len(),
            i <= n,
            r@.len() == i,
            forall|k: int| 0 <= k < i ==> (#[trigger] r@[k]).0@ == v@[k].0@ && r@[k].1 == v@[k].1,
        decreases n - i,
    {
        r.push((v[i].0.clone(), v[i].1));
        i = i + 1;
    }
    assert(files_view(r@) =~= files_view(v@));
    r
}

impl SharedDirectoryDto {
    /// A listed folder as it travels.
    pub fn of(d: &SharedDirectory) -> (r: SharedDirectoryDto)
        ensures
            r.name@ == d.name@,
            files_view(r.files@) == files_view(d.files@),
    {
        SharedDirectoryDto { name: d.name.clone(), files: copy_files(&d.files) }
    }

    /// The listed folder a wire value stands for.
    pub fn into_directory(self) -> (r: SharedDirectory)
        ensures
            r.name@ == self.name@,
            files_view(r.files@) == files_view(self.files@),
    {
        SharedDirectory { name: self.name, files: self.files }
    }
}

/// A private message on the wire.
#[derive(Debug, Clone, PartialEq, Eq)]
pub struct UserMessageDto {
    pub id: u32,
    pub timestamp: u32,
    pub username: String,
    pub message: String,
    pub new_message: bool,
}

impl UserMessageDto {
    /// A private message as it travels.
    pub fn of(m: &UserMessage) -> (d: UserMessageDto)
        ensures
            d.id == m.id,
            d.timestamp == m.timestamp,
            d.username@ == m.username@,
            d.message@ == m.message@,
            d.new_message == m.new_message,
    {
        UserMessageDto {
            id: m.id,
            timestamp: m.timestamp,
            username: m.username.clone(),
            message: m.message.clone(),
            new_message: m.new_message,
        }
    }

    /// The private message a wire value stands for.
    pub fn into_message(self) -> (m: UserMessage)
        ensures
            m.id == self.id,
            m.timestamp == self.timestamp,
            m.username@ == self.username@,
            m.message@ == self.message@,
            m.new_message == self.new_message,
    {
        UserMessage {
            id: self.id,
            timestamp: self.timestamp,
            username: self.username,
            message: self.message,
            new_message: self.new_message,
        }
    }
}

/// Why a session ended, on the wire.
#[derive(Debug, Clone, Copy, PartialEq, Eq, Structural)]
pub enum SessionLossDto {
    Displaced,
    Disconnected,
}

impl From<SessionLoss> for SessionLossDto {
    /// Variant for variant.
    fn from(loss: SessionLoss) -> (d: Self) {
        match loss {
            SessionLoss::Displaced => SessionLossDto::Displaced,
            SessionLoss::Disconnected => SessionLossDto::Disconnected,
        }
    }
}

impl vstd::std_specs::convert::FromSpecImpl<SessionLoss> for SessionLossDto {
    open spec fn obeys_from_spec() -> bool {
        true
    }

    open spec fn from_spec(loss: SessionLoss) -> Self {
        match loss {
            SessionLoss::Displaced => SessionLossDto::Displaced,
            SessionLoss::Disconnected => SessionLossDto::Disconnected,
        }
    }
}

impl From<SessionLossDto> for SessionLoss {
    /// Variant for variant.
    fn from(d: SessionLossDto) -> (loss: Self) {
        match d {
            SessionLossDto::Displaced => SessionLoss::Displaced,
            SessionLossDto::Disconnected => SessionLoss::Disconnected,
        }
    }
}

impl vstd::std_specs::convert::FromSpecImpl<SessionLossDto> for SessionLoss {
    open spec fn obeys_from_spec() -> bool {
        true
    }

    open spec fn from_spec(d: SessionLossDto) -> Self {
        match d {
            SessionLossDto::Displaced => SessionLoss::Displaced,
            SessionLossDto::Disconnected => SessionLoss::Disconnected,
        }
    }
}

/// A session loss keeps its kind on the wire: a displaced session is sent
/// as displaced and a dropped connection as disconnected, so reading back
/// what was sent gives the same loss, and two different losses are never
/// sent alike.
pub proof fn lemma_session_loss_wire_round_trips(l: SessionLoss, other: SessionLoss, d: SessionLossDto)
    ensures
        ({
            let sent = <SessionLossDto as vstd::std_specs::convert::FromSpec<
                SessionLoss,
            >>::from_spec(l);
            &&& (sent is Displaced) == (l is Displaced)
            &&& (sent is Disconnected) == (l is Disconnected)
            &&& <SessionLoss as vstd::std_specs::convert::FromSpec<SessionLossDto>>::from_spec(
                sent,
            ) == l
            &&& l != other ==> sent != <SessionLossDto as vstd::std_specs::convert::FromSpec<
                SessionLoss,
            >>::from_spec(other)
        }),
        ({
            let read = <SessionLoss as vstd::std_specs::convert::FromSpec<
                SessionLossDto,
            >>::from_spec(d);
            &&& (read is Displaced) == (d is Displaced)
            &&& (read is Disconnected) == (d is Disconnected)
            &&& <SessionLossDto as vstd::std_specs::convert::FromSpec<
                SessionLoss,
            >>::from_spec(read) == d
        }),
{
}

/// What the daemon is and what its session is doing.
#[derive(Debug, Clone, PartialEq, Eq)]
pub struct DaemonStatus {
    pub username: String,
    pub server: String,
    pub daemon_version: String,
    pub protocol: u32,
    pub listen_port: Option<u16>,
    pub shared_folders: u32,
    pub shared_files: u32,
    pub download_dir: String,
    pub session_loss: Option<SessionLossDto>,
    /// Control connections currently attached.
    pub clients: usize,
    pub uptime_secs: u64,
}

/// What the share index holds.
#[derive(Debug, Clone, PartialEq, Eq)]
pub struct SharesStatus {
    pub folders: u32,
    pub files: u32,
    pub directories: Vec<String>,
}

/// A void result: an object leaves room to add a field later.
#[derive(Debug, Clone, Copy, PartialEq, Eq, Structural)]
pub struct Ack {
    pub ok: bool,
}

/// A search query.
#[derive(Debug, Clone, PartialEq, Eq)]
pub struct QueryParams {
    pub query: String,
}

/// Names one transfer, which is how both directions are addressed.
#[derive(Debug, Clone, PartialEq, Eq)]
pub struct TransferRef {
    pub username: String,
    pub filename: String,
}

/// Names a room.
#[derive(Debug, Clone, PartialEq, Eq)]
pub struct RoomRef {
    pub room: String,
}

/// Names a user.
#[derive(Debug, Clone, PartialEq, Eq)]
pub struct UserRef {
    pub username: String,
}

/// Something to say in a room.
#[derive(Debug, Clone, PartialEq, Eq)]
pub struct SayParams {
    pub room: String,
    pub message: String,
}

/// A private message to send.
#[derive(Debug, Clone, PartialEq, Eq)]
pub struct MessageParams {
    pub username: String,
    pub message: String,
}

/// A transfer to queue.
#[derive(Debug, Clone, PartialEq, Eq)]
pub struct DownloadStartParams {
    pub username: String,
    pub filename: String,
    pub size: u64,
    pub metadata: DownloadMetadataDto,
}

/// How many uploads may run at once.
#[derive(Debug, Clone, PartialEq, Eq)]
pub struct SlotsParams {
    pub slots: usize,
}

/// The folders to share.
#[derive(Debug, Clone, PartialEq, Eq)]
pub struct DirectoriesParams {
    pub directories: Vec<String>,
}

/// One search as the daemon sees it, for a client that did not run it.
#[derive(Debug, Clone, PartialEq, Eq)]
pub struct SearchSummary {
    pub query: String,
    /// Files found so far, across every peer that has answered.
    pub files: usize,
    /// How long ago the query went out.
    pub started_secs_ago: u64,
}

/// Every search this session has run, newest last.
#[derive(Debug, Clone, PartialEq, Eq)]
pub struct Searches {
    pub searches: Vec<SearchSummary>,
}

/// Everything that has answered a search so far.
#[derive(Debug, Clone)]
pub struct SearchResults {
    pub results: Vec<SearchResultDto>,
}

/// A room's members.
#[derive(Debug, Clone, PartialEq, Eq)]
pub struct Members {
    pub users: Vec<String>,
}

/// One line of chat history, with the direction it went.
#[derive(Debug, Clone, PartialEq, Eq)]
pub struct ChatMessageDto {
    /// The other party, whichever way the message went.
    pub peer: String,
    pub outgoing: bool,
    pub text: String,
    /// Unix seconds.
    pub at: i64,
}

/// A conversation's history.
#[derive(Debug, Clone, PartialEq, Eq)]
pub struct Messages {
    pub messages: Vec<ChatMessageDto>,
}

/// What the daemon knows of a user, if anything.
#[derive(Debug, Clone, PartialEq, Eq)]
pub struct UserResult {
    pub user: Option<UserInfoDto>,
}

/// Privilege seconds left, when the server has answered.
#[derive(Debug, Clone, Copy, PartialEq, Eq, Structural)]
pub struct Seconds {
    pub seconds: Option<u32>,
}

/// How long the server wants between wishlist searches.
#[derive(Debug, Clone, Copy, PartialEq, Eq, Structural)]
pub struct IntervalSeconds {
    pub seconds: u64,
}

/// A peer answered a browse request, carried whole.
#[derive(Debug, Clone, PartialEq, Eq)]
pub struct BrowseEvent {
    pub username: String,
    pub directories: Vec<SharedDirectoryDto>,
}

/// The session ended.
#[derive(Debug, Clone, Copy, PartialEq, Eq, Structural)]
pub struct SessionLossEvent {
    pub loss: SessionLossDto,
}

} // verus!
