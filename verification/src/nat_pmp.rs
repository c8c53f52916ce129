//! NAT-PMP (RFC 6886) frames and the rules of one exchange with a gateway:
//! what a map request holds, when a reply is accepted, what a reply grants,
//! and when to send again. The sockets stay with the caller, who sends what
//! `Next::Send` asks for and reports back what it heard.

use crate::text::{decimal, decimal_string, owned};
use vstd::prelude::*;

verus! {

/// The well-known NAT-PMP gateway UDP port.
pub const NAT_PMP_PORT: u16 = 5351;

/// The protocol version every frame carries.
pub const PROTO_VERSION: u8 = 0;

/// The opcode of a TCP map request.
pub const OP_MAP_TCP: u8 = 2;

/// A reply's opcode is its request's plus this.
pub const RESPONSE_FLAG: u8 = 128;

/// The mapping lifetime RFC 6886 recommends (two hours).
pub const RECOMMENDED_LIFETIME: u32 = 7200;

/// How long to wait for the first reply, in milliseconds; each silence
/// doubles it.
pub const FIRST_TIMEOUT_MS: u64 = 250;

#[verifier::external_type_specification]
#[verifier::external_body]
pub struct ExIoError(std::io::Error);

/// Why a mapping failed.
#[derive(Debug)]
pub enum NatPmpError {
    Io(std::io::Error),
    ShortResponse,
    BadVersion(u8),
    BadOpcode(u8),
    /// A non-zero RFC 6886 result code.
    ResultCode(u16),
    /// Every retransmission met silence.
    NoResponse,
}

impl From<std::io::Error> for NatPmpError {
    fn from(e: std::io::Error) -> (r: Self) {
        NatPmpError::Io(e)
    }
}

impl vstd::std_specs::convert::FromSpecImpl<std::io::Error> for NatPmpError {
    open spec fn obeys_from_spec() -> bool {
        true
    }

    open spec fn from_spec(e: std::io::Error) -> Self {
        NatPmpError::Io(e)
    }
}

impl NatPmpError {
    /// The failure in words, as the command line prints it. A network
    /// error carries the system's own description after its prefix.
    pub fn message(&self) -> (r: String)
        ensures
            match self {
                NatPmpError::Io(_) => r@.len() >= 15 && r@.take(15) == "network error: "@,
                NatPmpError::ShortResponse => r@ == "truncated gateway response"@,
                NatPmpError::BadVersion(v) => r@ == "unexpected version "@ + decimal(*v as nat),
                NatPmpError::BadOpcode(o) => r@ == "unexpected opcode "@ + decimal(*o as nat),
                NatPmpError::ResultCode(c) => r@ == "gateway result code "@ + decimal(*c as nat),
                NatPmpError::NoResponse => r@ == "no response from gateway"@,
            },
    {
        match self {
            NatPmpError::Io(e) => {
                let mut r = owned("network error: ");
                proof {
                    reveal_strlit("network error: ");
                }
                let ghost head = r@;
                r.append(io_text(e).as_str());
                assert(r@.take(15) =~= head);
                r
            },
            NatPmpError::ShortResponse => owned("truncated gateway response"),
            NatPmpError::BadVersion(v) => {
                let mut r = owned("unexpected version ");
                r.append(decimal_string(*v as u64).as_str());
                r
            },
            NatPmpError::BadOpcode(o) => {
                let mut r = owned("unexpected opcode ");
                r.append(decimal_string(*o as u64).as_str());
                r
            },
            NatPmpError::ResultCode(c) => {
                let mut r = owned("gateway result code ");
                r.append(decimal_string(*c as u64).as_str());
                r
            },
            NatPmpError::NoResponse => owned("no response from gateway"),
        }
    }
}

/// `std::io::Error`'s `Display` text. What it says comes from the system and
/// is not stated here.
#[verifier::external_body]
fn io_text(e: &std::io::Error) -> String {
    e.to_string()
}

/// A granted TCP mapping. The gateway may grant another external port or a
/// shorter lifetime than asked for, so these are the values to use.
#[derive(Debug, Clone, Copy, PartialEq, Eq, Structural)]
pub struct MapResponse {
    /// Seconds since the gateway's port table was set up (shows a reboot).
    pub epoch: u32,
    pub internal_port: u16,
    pub external_port: u16,
    pub lifetime: u32,
}

/// A 16-bit number as two bytes, most significant first.
pub open spec fn be16(x: u16) -> Seq<u8> {
    seq![(x / 256) as u8, (x % 256) as u8]
}

/// A 32-bit number as four bytes, most significant first.
pub open spec fn be32(x: u32) -> Seq<u8> {
    seq![
        (x / 0x100_0000) as u8,
        ((x / 0x1_0000) % 256) as u8,
        ((x / 256) % 256) as u8,
        (x % 256) as u8,
    ]
}

/// The 16-bit number whose bytes, most significant first, start at `at`.
pub open spec fn read16(b: Seq<u8>, at: int) -> u16 {
    (b[at] * 256 + b[at + 1]) as u16
}

/// The 32-bit number whose bytes, most significant first, start at `at`.
pub open spec fn read32(b: Seq<u8>, at: int) -> u32 {
    (b[at] * 0x100_0000 + b[at + 1] * 0x1_0000 + b[at + 2] * 256 + b[at + 3]) as u32
}

/// The request that maps TCP `internal_port`, suggesting
/// `suggested_external` outside, for `lifetime` seconds: version, opcode, two
/// reserved zero bytes, then the three numbers.
pub open spec fn spec_map_request(internal_port: u16, suggested_external: u16, lifetime: u32) -> Seq<
    u8,
> {
    seq![PROTO_VERSION, OP_MAP_TCP, 0u8, 0u8] + be16(internal_port) + be16(suggested_external)
        + be32(lifetime)
}

fn push16(out: &mut Vec<u8>, x: u16)
    ensures
        final(out)@ == old(out)@ + be16(x),
{
    out.push((x / 256) as u8);
    out.push((x % 256) as u8);
    assert(final(out)@ =~= old(out)@ + be16(x));
}

fn push32(out: &mut Vec<u8>, x: u32)
    ensures
        final(out)@ == old(out)@ + be32(x),
{
    out.push((x / 0x100_0000) as u8);
    out.push(((x / 0x1_0000) % 256) as u8);
    out.push(((x / 256) % 256) as u8);
    out.push((x % 256) as u8);
    assert(final(out)@ =~= old(out)@ + be32(x));
}

/// The request that maps TCP `internal_port` (see `spec_map_request`).
pub fn map_request(internal_port: u16, suggested_external: u16, lifetime: u32) -> (r: Vec<u8>)
    ensures
        r@ == spec_map_request(internal_port, suggested_external, lifetime),
{
    let mut r: Vec<u8> = Vec::new();
    r.push(PROTO_VERSION);
    r.push(OP_MAP_TCP);
    r.push(0);
    r.push(0);
    push16(&mut r, internal_port);
    push16(&mut r, suggested_external);
    push32(&mut r, lifetime);
    assert(r@ =~= spec_map_request(internal_port, suggested_external, lifetime));
    r
}

/// The request that removes the mapping of TCP `internal_port`: external
/// port and lifetime both zero.
pub fn unmap_request(internal_port: u16) -> (r: Vec<u8>)
    ensures
        r@ == spec_map_request(internal_port, 0, 0),
{
    map_request(internal_port, 0, 0)
}

/// Reading a map request back field by field gives the version, the opcode,
/// zero reserved bytes, and the ports and lifetime it was made from.
pub proof fn lemma_map_request_reads_back(
    internal_port: u16,
    suggested_external: u16,
    lifetime: u32,
)
    ensures
        ({
            let r = spec_map_request(internal_port, suggested_external, lifetime);
            &&& r.len() == 12
            &&& r[0] == PROTO_VERSION && r[1] == OP_MAP_TCP && r[2] == 0 && r[3] == 0
            &&& read16(r, 4) == internal_port
            &&& read16(r, 6) == suggested_external
            &&& read32(r, 8) == lifetime
        }),
{
    let r = spec_map_request(internal_port, suggested_external, lifetime);
    assert(r[4] == (internal_port / 256) as u8 && r[5] == (internal_port % 256) as u8);
    assert(r[6] == (suggested_external / 256) as u8 && r[7] == (suggested_external % 256) as u8);
    assert(r[8] == (lifetime / 0x100_0000) as u8);
    assert(r[9] == ((lifetime / 0x1_0000) % 256) as u8);
    assert(r[10] == ((lifetime / 256) % 256) as u8);
    assert(r[11] == (lifetime % 256) as u8);
    assert(read16(r, 4) == internal_port) by (nonlinear_arith)
        requires
            r[4] == (internal_port / 256) as u8,
            r[5] == (internal_port % 256) as u8,
    ;
    assert(read16(r, 6) == suggested_external) by (nonlinear_arith)
        requires
            r[6] == (suggested_external / 256) as u8,
            r[7] == (suggested_external % 256) as u8,
    ;
    assert(read32(r, 8) == lifetime) by (nonlinear_arith)
        requires
            r[8] == (lifetime / 0x100_0000) as u8,
            r[9] == ((lifetime / 0x1_0000) % 256) as u8,
            r[10] == ((lifetime / 256) % 256) as u8,
            r[11] == (lifetime % 256) as u8,
    ;
}

/// The verdict on a reply to a request with opcode `op`: too short for a
/// header, another version, another opcode than `op` plus the response
/// flag, or a non-zero result code; else accepted.
pub open spec fn spec_check_reply(reply: Seq<u8>, op: u8) -> Result<(), NatPmpError> {
    if reply.len() < 4 {
        Err(NatPmpError::ShortResponse)
    } else if reply[0] != PROTO_VERSION {
        Err(NatPmpError::BadVersion(reply[0]))
    } else if reply[1] != op + RESPONSE_FLAG {
        Err(NatPmpError::BadOpcode(reply[1]))
    } else if read16(reply, 2) != 0 {
        Err(NatPmpError::ResultCode(read16(reply, 2)))
    } else {
        Ok(())
    }
}

/// Judges a reply to a request with opcode `expected_op`.
pub fn check_reply(reply: &[u8], expected_op: u8) -> (r: Result<(), NatPmpError>)
    requires
        expected_op < RESPONSE_FLAG,
    ensures
        r == spec_check_reply(reply@, expected_op),
{
    if reply.len() < 4 {
        return Err(NatPmpError::ShortResponse);
    }
    if reply[0] != PROTO_VERSION {
        return Err(NatPmpError::BadVersion(reply[0]));
    }
    if reply[1] != expected_op + RESPONSE_FLAG {
        return Err(NatPmpError::BadOpcode(reply[1]));
    }
    let result = (reply[2] as u16) * 256 + (reply[3] as u16);
    if result != 0 {
        return Err(NatPmpError::ResultCode(result));
    }
    Ok(())
}

/// What an accepted map reply grants: the epoch, the ports and the lifetime
/// it reports, or `ShortResponse` when it is too short to hold them.
pub open spec fn spec_parse_map_reply(reply: Seq<u8>) -> Result<MapResponse, NatPmpError> {
    if reply.len() < 16 {
        Err(NatPmpError::ShortResponse)
    } else {
        Ok(
            MapResponse {
                epoch: read32(reply, 4),
                internal_port: read16(reply, 8),
                external_port: read16(reply, 10),
                lifetime: read32(reply, 12),
            },
        )
    }
}

fn take16(b: &[u8], at: usize) -> (r: u16)
    requires
        at + 2 <= b@.len(),
    ensures
        r == read16(b@, at as int),
{
    (b[at] as u16) * 256 + (b[at + 1] as u16)
}

fn take32(b: &[u8], at: usize) -> (r: u32)
    requires
        at + 4 <= b@.len(),
    ensures
        r == read32(b@, at as int),
{
    (b[at] as u32) * 0x100_0000 + (b[at + 1] as u32) * 0x1_0000 + (b[at + 2] as u32) * 256 + (b[at
        + 3] as u32)
}

/// Reads what a map reply grants (see `spec_parse_map_reply`).
pub fn parse_map_reply(reply: &[u8]) -> (r: Result<MapResponse, NatPmpError>)
    ensures
        r == spec_parse_map_reply(reply@),
{
    if reply.len() < 16 {
        return Err(NatPmpError::ShortResponse);
    }
    Ok(
        MapResponse {
            epoch: take32(reply, 4),
            internal_port: take16(reply, 8),
            external_port: take16(reply, 10),
            lifetime: take32(reply, 12),
        },
    )
}

/// What came back after a send.
pub enum Heard {
    /// A datagram from the gateway.
    Reply(Vec<u8>),
    /// Nothing before the timeout.
    Silence,
    /// The socket failed.
    Failed(std::io::Error),
}

/// What to do next.
pub enum Next {
    /// Send the request (again) and wait this long for a reply.
    Send { timeout_ms: u64 },
    /// The exchange is over: the accepted reply, or why there is none.
    Finish(Result<Vec<u8>, NatPmpError>),
}

/// One request's exchange with a gateway: its opcode, the sends still
/// allowed after the current one, and the current wait.
pub struct Exchange {
    pub expected_op: u8,
    pub sends_left: u32,
    pub timeout_ms: u64,
}

impl Exchange {
    /// Starts an exchange that sends at most `attempts` times, and at least
    /// once; the first wait is 250 ms.
    pub fn start(expected_op: u8, attempts: u32) -> (r: (Exchange, Next))
        ensures
            r.0.expected_op == expected_op,
            r.0.sends_left == (if attempts == 0 {
                0
            } else {
                attempts - 1
            }),
            r.0.timeout_ms == FIRST_TIMEOUT_MS,
            r.1 == (Next::Send { timeout_ms: FIRST_TIMEOUT_MS }),
    {
        let sends_left = if attempts == 0 {
            0
        } else {
            attempts - 1
        };
        (
            Exchange { expected_op, sends_left, timeout_ms: FIRST_TIMEOUT_MS },
            Next::Send { timeout_ms: FIRST_TIMEOUT_MS },
        )
    }

    /// What to do after hearing `heard`: a reply ends the exchange, accepted
    /// or not; a socket failure ends it with that failure; silence sends
    /// again with twice the wait (capped at the largest `u64`) while sends
    /// are left, and otherwise ends it with `NoResponse`.
    pub fn hear(&mut self, heard: Heard) -> (r: Next)
        requires
            old(self).expected_op < RESPONSE_FLAG,
        ensures
            final(self).expected_op == old(self).expected_op,
            match heard {
                Heard::Reply(bytes) => *final(self) == *old(self) && r == Next::Finish(
                    match spec_check_reply(bytes@, old(self).expected_op) {
                        Ok(()) => Ok(bytes),
                        Err(e) => Err(e),
                    },
                ),
                Heard::Failed(e) => *final(self) == *old(self) && r == Next::Finish(
                    Err(NatPmpError::Io(e)),
                ),
                Heard::Silence => if old(self).sends_left == 0 {
                    *final(self) == *old(self) && r == Next::Finish(Err(NatPmpError::NoResponse))
                } else {
                    &&& final(self).sends_left == old(self).sends_left - 1
                    &&& final(self).timeout_ms == (if old(self).timeout_ms <= u64::MAX / 2 {
                        old(self).timeout_ms * 2
                    } else {
                        u64::MAX as int
                    })
                    &&& r == Next::Send { timeout_ms: final(self).timeout_ms }
                },
            },
    {
        match heard {
            Heard::Reply(bytes) => match check_reply(bytes.as_slice(), self.expected_op) {
                Ok(()) => Next::Finish(Ok(bytes)),
                Err(e) => Next::Finish(Err(e)),
            },
            Heard::Failed(e) => Next::Finish(Err(NatPmpError::Io(e))),
            Heard::Silence => {
                if self.sends_left == 0 {
                    Next::Finish(Err(NatPmpError::NoResponse))
                } else {
                    self.sends_left = self.sends_left - 1;
                    self.timeout_ms = if self.timeout_ms <= u64::MAX / 2 {
                        self.timeout_ms * 2
                    } else {
                        u64::MAX
                    };
                    Next::Send { timeout_ms: self.timeout_ms }
                }
            },
        }
    }
}

} // verus!
