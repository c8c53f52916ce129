//! What every one-shot command shares: its context, how a verdict is read
//! against the session that produced it, and how long a listener listens.

use crate::output::{CliError, CliResult, DaemonStatusRecord, Exit, Out, TokenRecord};
use crate::proto::{DaemonStatus, SessionLossDto};
use crate::remote::Endpoint;
use crate::text::{decimal, decimal_string, owned};
use crate::types::{RoomEvent, RoomInfo, SessionLoss};
use vstd::prelude::*;

verus! {

/// Everything a one-shot command needs that does not come from its own
/// flags.
pub struct Ctx {
    pub out: Out,
    pub download_dir: String,
    pub max_concurrent_downloads: usize,
    /// How long a search collects answers, in seconds.
    pub search_timeout: u64,
    /// Where to find a daemon, when this run should use one rather than
    /// open its own session.
    pub daemon: Option<Endpoint>,
    /// Token for a remote daemon; a Unix socket needs none.
    pub daemon_token: Option<String>,
}

/// What a session loss is, in words.
pub open spec fn loss_text(loss: SessionLoss) -> Seq<char> {
    match loss {
        SessionLoss::Displaced => "another login under this name displaced it"@,
        SessionLoss::Disconnected => "the server connection dropped"@,
    }
}

/// What to do about a session loss, if anything can be done.
pub open spec fn loss_fix(loss: SessionLoss) -> Seq<char> {
    match loss {
        SessionLoss::Displaced => "; give each concurrent run its own --username"@,
        SessionLoss::Disconnected => Seq::empty(),
    }
}

/// What to tell a caller whose session ended under it.
pub fn session_lost(loss: SessionLoss) -> (e: CliError)
    ensures
        e.exit == Exit::SessionLost,
        e.message@ == "the session ended before this command finished: "@ + loss_text(loss)
            + loss_fix(loss),
{
    let mut message = owned("the session ended before this command finished: ");
    match loss {
        SessionLoss::Displaced => {
            message.append("another login under this name displaced it");
            message.append("; give each concurrent run its own --username");
        },
        SessionLoss::Disconnected => {
            message.append("the server connection dropped");
        },
    }
    CliError { exit: Exit::SessionLost, message }
}

/// Whether a failure could be the silence of a session the server cut off:
/// found nothing, timed out, or a transfer failed.
pub open spec fn loss_could_explain(exit: Exit) -> bool {
    exit == Exit::NoResults || exit == Exit::Timeout || exit == Exit::Transfer
}

impl Ctx {
    /// Re-reads a verdict against the session that produced it. A session
    /// the server cut off sees nothing from that moment on; reported as "no
    /// results" it would read as "this file is not on the network", so a
    /// loss the session reports takes the place of such a failure.
    pub fn checked(&self, result: CliResult, loss: Option<SessionLoss>) -> (r: CliResult)
        ensures
            match result {
                Ok(()) => r is Ok,
                Err(e) => if loss_could_explain(e.exit) && loss is Some {
                    r matches Err(f) && f.exit == Exit::SessionLost && f.message@
                        == "the session ended before this command finished: "@ + loss_text(
                        loss.unwrap(),
                    ) + loss_fix(loss.unwrap())
                } else {
                    r == Err::<(), CliError>(e)
                },
            },
    {
        match result {
            Ok(()) => Ok(()),
            Err(error) => {
                if error.exit == Exit::NoResults || error.exit == Exit::Timeout || error.exit
                    == Exit::Transfer {
                    match loss {
                        Some(l) => Err(session_lost(l)),
                        None => Err(error),
                    }
                } else {
                    Err(error)
                }
            },
        }
    }
}

/// The duration of `secs` seconds (`Duration::from_secs`).
pub uninterp spec fn duration_of_secs(secs: u64) -> std::time::Duration;

/// `Duration::from_secs`: a span of whole seconds, which depends on nothing
/// but the count.
#[verifier::external_body]
fn seconds(secs: u64) -> (d: std::time::Duration)
    ensures
        d == duration_of_secs(secs),
{
    std::time::Duration::from_secs(secs)
}

/// How long a listener listens: `--follow` means until interrupted, a span
/// nothing outlives.
pub fn listen_span(duration: u64, follow: bool) -> (r: Option<std::time::Duration>)
    ensures
        follow ==> r is None,
        !follow ==> r == Some(duration_of_secs(duration)),
{
    if follow {
        None
    } else {
        Some(seconds(duration))
    }
}

/// The status line a listener starts with.
pub fn stream_status(what: &str, span_secs: Option<u64>) -> (r: String)
    ensures
        r@ == what@ + match span_secs {
            Some(n) => " for "@ + decimal(n as nat) + "s…"@,
            None => " until interrupted…"@,
        },
{
    let mut r = owned(what);
    match span_secs {
        Some(n) => {
            r.append(" for ");
            r.append(decimal_string(n).as_str());
            r.append("s…");
        },
        None => r.append(" until interrupted…"),
    }
    r
}

/// The verdict of a port-mapping probe. A router that does not answer is
/// a negative answer, not a crash, so it exits like a search that found
/// nothing.
pub fn portmap(ok: bool, port: u16) -> (r: CliResult)
    ensures
        ok ==> r is Ok,
        !ok ==> (r matches Err(e) && e.exit == Exit::NoResults && e.message@ == "no router mapped TCP "@
            + decimal(port as nat)),
{
    if ok {
        Ok(())
    } else {
        let mut message = owned("no router mapped TCP ");
        message.append(decimal_string(port as u64).as_str());
        Err(CliError { exit: Exit::NoResults, message })
    }
}

/// A session loss by its lower-case name.
pub open spec fn loss_name(loss: SessionLossDto) -> Seq<char> {
    match loss {
        SessionLossDto::Displaced => "displaced"@,
        SessionLossDto::Disconnected => "disconnected"@,
    }
}

/// What `daemon status` reports of a running daemon's answer: listening
/// when it has a port (then that port, else 0), and a session loss by its
/// lower-case name; the rest as the daemon said.
pub fn status(s: DaemonStatus) -> (r: DaemonStatusRecord)
    ensures
        r.user == s.username,
        r.server == s.server,
        r.version == s.daemon_version,
        r.protocol == s.protocol,
        r.listening == s.listen_port is Some,
        r.listen_port == (match s.listen_port {
            Some(p) => p,
            None => 0,
        }),
        r.shared_folders == s.shared_folders,
        r.shared_files == s.shared_files,
        r.download_dir == s.download_dir,
        match s.session_loss {
            Some(l) => r.session_loss matches Some(n) && n@ == loss_name(l),
            None => r.session_loss is None,
        },
        r.clients == s.clients,
        r.uptime_secs == s.uptime_secs,
{
    let listening = s.listen_port.is_some();
    let listen_port = match s.listen_port {
        Some(p) => p,
        None => 0,
    };
    let session_loss = match s.session_loss {
        Some(SessionLossDto::Displaced) => Some(owned("displaced")),
        Some(SessionLossDto::Disconnected) => Some(owned("disconnected")),
        None => None,
    };
    DaemonStatusRecord {
        user: s.username,
        server: s.server,
        version: s.daemon_version,
        protocol: s.protocol,
        listening,
        listen_port,
        shared_folders: s.shared_folders,
        shared_files: s.shared_files,
        download_dir: s.download_dir,
        session_loss,
        clients: s.clients,
        uptime_secs: s.uptime_secs,
    }
}

/// What `daemon token` prints: the token a client on another machine needs.
pub fn token(value: String) -> (r: TokenRecord)
    ensures
        r.token == value,
{
    TokenRecord { token: value }
}

/// What to tell a command that needs a daemon when none is known.
pub fn no_daemon() -> (e: CliError)
    ensures
        e.exit == Exit::Connection,
        e.message@ == "no daemon is running; start one with `soulseek-rs daemon`, or point at a remote one with --daemon"@,
{
    CliError::connection(
        "no daemon is running; start one with `soulseek-rs daemon`, or point at a remote one with --daemon",
    )
}

/// What waiting for the room list does next.
pub enum RoomListStep {
    /// The answer arrived: these are the rooms.
    Found(Vec<RoomInfo>),
    /// Nothing yet: sleep one poll interval and drain again.
    Wait,
    /// The deadline passed without an answer.
    GiveUp,
}

/// One turn of waiting for the server's room list, `elapsed_ms` after the
/// request went out, with the events drained this turn: past the deadline
/// the wait ends with nothing; before it, the first room list among the
/// events is the answer, and without one the wait goes on.
pub fn room_list_step(events: Vec<RoomEvent>, elapsed_ms: u64, timeout_ms: u64) -> (r: RoomListStep)
    ensures
        elapsed_ms >= timeout_ms ==> r is GiveUp,
        elapsed_ms < timeout_ms ==> match first_room_list(events@) {
            Some(rooms) => r == RoomListStep::Found(rooms),
            None => r is Wait,
        },
{
    if elapsed_ms >= timeout_ms {
        return RoomListStep::GiveUp;
    }
    match room_list_in(events) {
        Some(rooms) => RoomListStep::Found(rooms),
        None => RoomListStep::Wait,
    }
}

/// The first room list among some room events, if any.
pub open spec fn first_room_list(events: Seq<RoomEvent>) -> Option<Vec<RoomInfo>>
    decreases events.len(),
{
    if events.len() == 0 {
        None
    } else {
        match events[0] {
            RoomEvent::List(rooms) => Some(rooms),
            _ => first_room_list(events.drop_first()),
        }
    }
}

/// The server's answer to a room-list request among the events drained:
/// the first room list.
pub fn room_list_in(events: Vec<RoomEvent>) -> (r: Option<Vec<RoomInfo>>)
    ensures
        r == first_room_list(events@),
{
    let ghost all = events@;
    let mut rest = events;
    let mut backwards: Vec<RoomEvent> = Vec::new();
    while rest.len() > 0
        invariant
            backwards@.len() + rest@.len() == all.len(),
            rest@ == all.take(rest@.len() as int),
            forall|k: int| 0 <= k < backwards@.len() ==> #[trigger] backwards@[k] == all[all.len() - 1 - k],
        decreases rest.len(),
    {
        let e = rest.pop().unwrap();
        backwards.push(e);
    }
    let n = backwards.len();
    let mut i: usize = 0;
    assert(all.skip(0) =~= all);
    while i < n
        invariant
            n == all.len(),
            all == events@,
            i <= n,
            backwards@.len() == n - i,
            forall|k: int| 0 <= k < backwards@.len() ==> #[trigger] backwards@[k] == all[all.len() - 1 - k],
            first_room_list(all) == first_room_list(all.skip(i as int)),
        decreases n - i,
    {
        let e = backwards.pop().unwrap();
        assert(e == all[i as int]);
        assert(all.skip(i as int)[0] == all[i as int]);
        assert(all.skip(i as int).drop_first() =~= all.skip(i + 1));
        match e {
            RoomEvent::List(rooms) => {
                return Some(rooms);
            },
            _ => {},
        }
        i = i + 1;
    }
    None
}

/// How a login attempt ended, as the session layer reports it.
pub enum LoginOutcome {
    /// The server answered: accepted or not.
    Answered(bool),
    /// The login failed, with the session's own words for why.
    Failed(String),
    /// The server took the connection but did not answer in time.
    Silent,
}

/// The verdict on a login to `address`: accepted is no error; a refusal, a
/// failure and silence are connection errors saying which.
pub fn login_verdict(outcome: LoginOutcome, address: &str) -> (r: CliResult)
    ensures
        match outcome {
            LoginOutcome::Answered(true) => r is Ok,
            LoginOutcome::Answered(false) => r matches Err(e) && e.exit == Exit::Connection
                && e.message@ == "login rejected by the server (wrong password, or the name is taken)"@,
            LoginOutcome::Failed(why) => r matches Err(e) && e.exit == Exit::Connection
                && e.message@ == "login failed: "@ + why@,
            LoginOutcome::Silent => r matches Err(e) && e.exit == Exit::Connection && e.message@
                == address@ + " accepted the connection but did not answer the login within 30s"@,
        },
{
    match outcome {
        LoginOutcome::Answered(true) => Ok(()),
        LoginOutcome::Answered(false) => Err(
            CliError::connection(
                "login rejected by the server (wrong password, or the name is taken)",
            ),
        ),
        LoginOutcome::Failed(why) => {
            let mut message = owned("login failed: ");
            message.append(why.as_str());
            Err(CliError { exit: Exit::Connection, message })
        },
        LoginOutcome::Silent => {
            let mut message = owned(address);
            message.append(" accepted the connection but did not answer the login within 30s");
            Err(CliError { exit: Exit::Connection, message })
        },
    }
}

/// The warning when the listener could not have the port configured: none
/// when it got it, when it listens nowhere, or when any port would do (0).
pub fn listener_port_note(configured: u16, bound: Option<u16>) -> (r: Option<String>)
    ensures
        match bound {
            Some(b) => if configured != 0 && b != configured {
                r matches Some(m) && m@ == "listener port "@ + decimal(configured as nat)
                    + " is in use; listening on "@ + decimal(b as nat) + " instead"@
            } else {
                r is None
            },
            None => r is None,
        },
{
    match bound {
        Some(b) => if configured != 0 && b != configured {
            let mut m = owned("listener port ");
            m.append(decimal_string(configured as u64).as_str());
            m.append(" is in use; listening on ");
            m.append(decimal_string(b as u64).as_str());
            m.append(" instead");
            Some(m)
        } else {
            None
        },
        None => None,
    }
}

} // verus!
