//! The session's vocabulary: rooms, room events, search results, transfer
//! states and the ways a session can end.

use std::collections::HashMap;
use vstd::prelude::*;

verus! {

/// A public chat room and how many users are in it.
#[derive(Debug, Clone, PartialEq, Eq)]
pub struct RoomInfo {
    pub name: String,
    pub user_count: u32,
}

impl RoomInfo {
    /// A copy of the room entry.
    pub fn duplicate(&self) -> (r: RoomInfo)
        ensures
            r == *self,
    {
        RoomInfo { name: self.name.clone(), user_count: self.user_count }
    }
}

/// Something that happened in the chat rooms.
#[derive(Debug, Clone, PartialEq, Eq)]
pub enum RoomEvent {
    /// The server's list of public rooms.
    List(Vec<RoomInfo>),
    /// We joined `room`, which holds `users`.
    Joined { room: String, users: Vec<String> },
    /// We left `room`.
    Left { room: String },
    /// Someone said something in `room`.
    Message { room: String, username: String, message: String },
    /// Another user entered `room`.
    UserJoined { room: String, username: String },
    /// Another user left `room`.
    UserLeft { room: String, username: String },
}

/// Why a server session ended.
#[derive(Debug, Clone, Copy, PartialEq, Eq, Structural)]
pub enum SessionLoss {
    /// Someone else logged in under the same name.
    Displaced,
    /// The connection dropped.
    Disconnected,
}


/// One file a peer offered in answer to a search.
#[derive(Debug, Clone)]
pub struct File {
    pub username: String,
    /// The remote path.
    pub name: String,
    pub size: u64,
    /// Attributes by the codes the network agrees on (bitrate, duration, …).
    pub attribs: HashMap<u32, u32>,
}

/// One peer's answer to a search.
#[derive(Debug, Clone)]
pub struct SearchResult {
    pub token: u32,
    pub files: Vec<File>,
    /// Free upload slots the peer advertises.
    pub slots: u8,
    /// The peer's average upload speed.
    pub speed: u32,
    pub username: String,
}

/// One folder of a peer's share listing.
#[derive(Debug, Clone)]
pub struct SharedDirectory {
    /// The folder's remote path.
    pub name: String,
    /// Each file's name within the folder and its size.
    pub files: Vec<(String, u64)>,
}

/// A private message from another user.
#[derive(Debug, Clone, PartialEq, Eq)]
pub struct UserMessage {
    /// The server's number for the message, used to acknowledge it.
    pub id: u32,
    /// When the server received it, in seconds since the Unix epoch.
    pub timestamp: u32,
    pub username: String,
    pub message: String,
    /// False when the server is replaying a message sent while we were away.
    pub new_message: bool,
}

/// A user's presence on the server.
#[derive(Debug, Clone, Copy, PartialEq, Eq, Structural)]
pub enum UserStatus {
    Offline,
    Away,
    Online,
}

impl UserStatus {
    /// The word for the status.
    pub open spec fn spec_word(self) -> Seq<char> {
        match self {
            UserStatus::Offline => "offline"@,
            UserStatus::Away => "away"@,
            UserStatus::Online => "online"@,
        }
    }

    /// `online`, `away` or `offline`.
    pub fn word(self) -> (r: &'static str)
        ensures
            r@ == self.spec_word(),
    {
        match self {
            UserStatus::Offline => "offline",
            UserStatus::Away => "away",
            UserStatus::Online => "online",
        }
    }
}

/// Whether a user is online and privileged.
#[derive(Debug, Clone, Copy, PartialEq, Eq, Structural)]
pub struct UserPresence {
    pub status: UserStatus,
    pub privileged: bool,
}

/// What a user shares and how fast they upload.
#[derive(Debug, Clone, Copy, PartialEq, Eq, Structural)]
pub struct UserStats {
    pub average_speed: u32,
    pub shared_files: u32,
    pub shared_folders: u32,
}

/// What the server said about a user; each half stays `None` until its reply
/// lands.
#[derive(Debug, Clone, PartialEq, Eq)]
pub struct UserInfo {
    pub username: String,
    pub presence: Option<UserPresence>,
    pub stats: Option<UserStats>,
}

/// One member of a room, as the join reply described them.
#[derive(Debug, Clone, PartialEq, Eq)]
pub struct RoomUserStats {
    pub username: String,
    pub status: UserStatus,
    pub average_speed: u32,
    pub shared_files: u32,
    pub shared_folders: u32,
    pub slots_free: u32,
    pub country: Option<String>,
}

/// Where an upload stands.
#[derive(Debug, Clone, PartialEq, Eq)]
pub enum UploadStatus {
    /// Waiting for a slot, at this 1-based place in the queue.
    Queued(u32),
    InProgress,
    Completed,
    Cancelled,
    Failed(String),
}

/// What is known of a file being downloaded beyond its name.
#[derive(Debug, Clone, Copy, Default, PartialEq, Eq, Structural)]
pub struct DownloadMetadata {
    pub bitrate: Option<u32>,
    pub length_seconds: Option<u32>,
    pub peer_upload_speed: Option<u32>,
    pub peer_free_slots: Option<u8>,
}

/// Where a download stands.
#[derive(Debug, Clone, PartialEq, Eq)]
pub enum DownloadStatus {
    Queued,
    InProgress,
    Completed,
    /// Failed, with the reason where one was given.
    Failed(Option<String>),
    TimedOut,
    Paused,
}

/// A file being fetched from a peer.
#[derive(Debug, Clone)]
pub struct Download {
    pub username: String,
    pub filename: String,
    pub token: u32,
    pub size: u64,
    pub download_directory: String,
    pub status: DownloadStatus,
    /// Place in the peer's upload queue, where it told.
    pub queue_position: Option<u32>,
    pub metadata: DownloadMetadata,
}

} // verus!
