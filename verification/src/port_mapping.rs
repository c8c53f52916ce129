//! Automatic port mapping's rules: the lease asked for, when to renew it,
//! and what a probe of the router tells the user. Finding the router and
//! talking to it stays with the caller.

use crate::nat_pmp::RECOMMENDED_LIFETIME;
use crate::output::PortmapRecord;
use crate::text::{decimal, decimal_string, owned};
use vstd::prelude::*;

verus! {

/// The lease asked for; both ways of mapping renew at half of it.
pub const LEASE_SECS: u32 = RECOMMENDED_LIFETIME;

/// Sends allowed for one NAT-PMP request: a few seconds at worst, not the
/// full minute RFC 6886 allows.
pub const NATPMP_ATTEMPTS: u32 = 4;

/// The shortest wait between renewals, so a very short lease cannot spin.
pub const MIN_RENEW_SECS: u64 = 30;

/// Seconds to wait before renewing a mapping granted for `lease` seconds:
/// half the lease, and never less than `MIN_RENEW_SECS`.
pub fn renew_after_secs(lease: u32) -> (r: u64)
    ensures
        r == (if lease / 2 < MIN_RENEW_SECS {
            MIN_RENEW_SECS as int
        } else {
            (lease / 2) as int
        }),
{
    let half = (lease / 2) as u64;
    if half < MIN_RENEW_SECS {
        MIN_RENEW_SECS
    } else {
        half
    }
}

/// The lease that paces renewal of a UPnP mapping granted for `granted`
/// seconds: a permanent one (0) is renewed on the requested lease's
/// schedule.
pub fn renewal_lease(granted: u32) -> (r: u32)
    ensures
        r == (if granted == 0 {
            LEASE_SECS
        } else {
            granted
        }),
{
    if granted == 0 {
        LEASE_SECS
    } else {
        granted
    }
}

/// How a probe mapping was made.
pub enum MappedVia {
    /// By UPnP-IGD; the router's external address, where it told it.
    Upnp { external_ip: Option<String> },
    NatPmp,
}

/// What probing the router found.
pub enum ProbeOutcome {
    /// This machine's LAN address could not be found.
    NoLanAddress,
    /// No router mapped the port.
    Unmapped,
    /// A router mapped the port (the probe mapping is removed again).
    Mapped(MappedVia),
}

/// How a mapping was made, in words.
pub open spec fn via_text(via: MappedVia, port: u16) -> Seq<char> {
    match via {
        MappedVia::Upnp { external_ip } => "UPnP-IGD (external address "@ + match external_ip {
            Some(ip) => ip@,
            None => "unknown"@,
        } + ":"@ + decimal(port as nat) + ")"@,
        MappedVia::NatPmp => "NAT-PMP"@,
    }
}

/// The report on a probe of `port`.
pub open spec fn report(outcome: ProbeOutcome, port: u16) -> Seq<char> {
    match outcome {
        ProbeOutcome::NoLanAddress => "Could not determine this machine's LAN IP \u{2014} are you connected to a network?"@,
        ProbeOutcome::Unmapped => "\u{274c} No UPnP/NAT-PMP router responded for TCP "@ + decimal(port as nat)
            + ".\n   Automatic mapping won't work on this network. To browse/download firewalled peers, forward TCP "@
            + decimal(port as nat)
            + " to this machine on your router (or enable UPnP there)."@,
        ProbeOutcome::Mapped(via) => "\u{2705} Automatic port mapping works via "@ + via_text(via, port)
            + ".\n   TCP "@ + decimal(port as nat)
            + " was opened on your router, so firewalled peers and the server can reach you. The app does this automatically while it runs."@,
    }
}

fn describe_via(via: &MappedVia, port: u16) -> (r: String)
    ensures
        r@ == via_text(*via, port),
{
    match via {
        MappedVia::Upnp { external_ip } => {
            let mut r = owned("UPnP-IGD (external address ");
            match external_ip {
                Some(ip) => r.append(ip.as_str()),
                None => r.append("unknown"),
            }
            r.append(":");
            r.append(decimal_string(port as u64).as_str());
            r.append(")");
            r
        },
        MappedVia::NatPmp => owned("NAT-PMP"),
    }
}

/// Tells the user what a probe of automatic port mapping for TCP `port`
/// found, and what to do about it.
pub fn diagnose(outcome: &ProbeOutcome, port: u16) -> (r: String)
    ensures
        r@ == report(*outcome, port),
{
    match outcome {
        ProbeOutcome::NoLanAddress => owned(
            "Could not determine this machine's LAN IP \u{2014} are you connected to a network?",
        ),
        ProbeOutcome::Unmapped => {
            let p = decimal_string(port as u64);
            let mut r = owned("\u{274c} No UPnP/NAT-PMP router responded for TCP ");
            r.append(p.as_str());
            r.append(
                ".\n   Automatic mapping won't work on this network. To browse/download firewalled peers, forward TCP ",
            );
            r.append(p.as_str());
            r.append(" to this machine on your router (or enable UPnP there).");
            r
        },
        ProbeOutcome::Mapped(via) => {
            let p = decimal_string(port as u64);
            let mut r = owned("\u{2705} Automatic port mapping works via ");
            r.append(describe_via(via, port).as_str());
            r.append(".\n   TCP ");
            r.append(p.as_str());
            r.append(
                " was opened on your router, so firewalled peers and the server can reach you. The app does this automatically while it runs.",
            );
            r
        },
    }
}

/// The backend a probe mapped through, by name: `upnp`, `nat-pmp`, or
/// `none` when nothing was mapped.
pub open spec fn backend_name(outcome: ProbeOutcome) -> Seq<char> {
    match outcome {
        ProbeOutcome::Mapped(MappedVia::Upnp { .. }) => "upnp"@,
        ProbeOutcome::Mapped(MappedVia::NatPmp) => "nat-pmp"@,
        _ => "none"@,
    }
}

/// What `portmap` prints of a probe of TCP `port`: whether a router mapped
/// it, through which backend, and the external address the router told
/// (UPnP-IGD only).
pub fn portmap_record(outcome: &ProbeOutcome, port: u16) -> (r: PortmapRecord)
    ensures
        r.ok == (outcome is Mapped),
        r.backend@ == backend_name(*outcome),
        r.external == (match outcome {
            ProbeOutcome::Mapped(MappedVia::Upnp { external_ip }) => *external_ip,
            _ => None,
        }),
        r.port == port,
{
    match outcome {
        ProbeOutcome::Mapped(MappedVia::Upnp { external_ip }) => PortmapRecord {
            ok: true,
            backend: owned("upnp"),
            external: match external_ip {
                Some(ip) => Some(ip.clone()),
                None => None,
            },
            port,
        },
        ProbeOutcome::Mapped(MappedVia::NatPmp) => PortmapRecord {
            ok: true,
            backend: owned("nat-pmp"),
            external: None,
            port,
        },
        _ => PortmapRecord { ok: false, backend: owned("none"), external: None, port },
    }
}

} // verus!
