use soulseek_rs_tui::nat_pmp::{
    check_reply, map_request, parse_map_reply, unmap_request, Exchange, Heard, MapResponse,
    NatPmpError, Next, OP_MAP_TCP, PROTO_VERSION, RESPONSE_FLAG,
};
use soulseek_rs_tui::port_mapping::{
    diagnose, renew_after_secs, renewal_lease, MappedVia, ProbeOutcome, LEASE_SECS,
};

fn map_reply(result: u16, internal: u16, external: u16, lifetime: u32) -> Vec<u8> {
    let mut r = vec![PROTO_VERSION, OP_MAP_TCP + RESPONSE_FLAG];
    r.extend_from_slice(&result.to_be_bytes());
    r.extend_from_slice(&123u32.to_be_bytes()); // epoch
    r.extend_from_slice(&internal.to_be_bytes());
    r.extend_from_slice(&external.to_be_bytes());
    r.extend_from_slice(&lifetime.to_be_bytes());
    r
}

#[test]
fn map_request_has_the_rfc_layout() {
    let req = map_request(2234, 2234, 7200);
    assert_eq!(req.len(), 12);
    assert_eq!(req[0], 0, "version");
    assert_eq!(req[1], 2, "opcode TCP");
    assert_eq!(&req[2..4], &[0, 0], "reserved");
    assert_eq!(u16::from_be_bytes([req[4], req[5]]), 2234, "internal port");
    assert_eq!(u16::from_be_bytes([req[6], req[7]]), 2234, "suggested external");
    assert_eq!(
        u32::from_be_bytes([req[8], req[9], req[10], req[11]]),
        7200,
        "lifetime"
    );
}

#[test]
fn map_request_bytes_are_big_endian() {
    assert_eq!(
        map_request(0x0102, 0xA0B0, 0x0A0B_0C0D),
        vec![0, 2, 0, 0, 0x01, 0x02, 0xA0, 0xB0, 0x0A, 0x0B, 0x0C, 0x0D]
    );
}

#[test]
fn unmap_request_has_zero_lifetime_and_port() {
    let req = unmap_request(2234);
    assert_eq!(u16::from_be_bytes([req[4], req[5]]), 2234);
    assert_eq!(u16::from_be_bytes([req[6], req[7]]), 0, "external port 0 to delete");
    assert_eq!(
        u32::from_be_bytes([req[8], req[9], req[10], req[11]]),
        0,
        "lifetime 0 to delete"
    );
}

#[test]
fn a_reply_reports_what_the_gateway_granted() {
    // The gateway grants a different external port and a shorter lease.
    let reply = map_reply(0, 2234, 40000, 3600);
    assert!(check_reply(&reply, OP_MAP_TCP).is_ok());
    let granted = parse_map_reply(&reply).expect("a full reply");
    assert_eq!(
        granted,
        MapResponse {
            epoch: 123,
            internal_port: 2234,
            external_port: 40000,
            lifetime: 3600,
        }
    );
}

#[test]
fn a_refusing_gateway_surfaces_its_result_code() {
    // Result code 2 = "not authorized/refused" per RFC 6886.
    match check_reply(&map_reply(2, 2234, 0, 0), OP_MAP_TCP) {
        Err(NatPmpError::ResultCode(2)) => {}
        other => panic!("expected ResultCode(2), got {other:?}"),
    }
}

#[test]
fn malformed_replies_are_refused_in_order() {
    assert!(matches!(check_reply(&[0, 130, 0], OP_MAP_TCP), Err(NatPmpError::ShortResponse)));
    assert!(matches!(
        check_reply(&[1, 130, 0, 0], OP_MAP_TCP),
        Err(NatPmpError::BadVersion(1))
    ));
    assert!(matches!(
        check_reply(&[0, 129, 0, 0], OP_MAP_TCP),
        Err(NatPmpError::BadOpcode(129))
    ));
    assert!(matches!(
        check_reply(&[0, 130, 1, 2], OP_MAP_TCP),
        Err(NatPmpError::ResultCode(258))
    ));
    assert!(matches!(parse_map_reply(&[0, 130, 0, 0]), Err(NatPmpError::ShortResponse)));
}

#[test]
fn a_silent_gateway_is_given_up_on_after_the_allowed_sends() {
    let (mut exchange, first) = Exchange::start(OP_MAP_TCP, 2);
    assert!(matches!(first, Next::Send { timeout_ms: 250 }));
    assert!(matches!(exchange.hear(Heard::Silence), Next::Send { timeout_ms: 500 }));
    assert!(matches!(
        exchange.hear(Heard::Silence),
        Next::Finish(Err(NatPmpError::NoResponse))
    ));
}

#[test]
fn no_attempts_still_sends_once() {
    let (mut exchange, first) = Exchange::start(OP_MAP_TCP, 0);
    assert!(matches!(first, Next::Send { .. }));
    assert!(matches!(
        exchange.hear(Heard::Silence),
        Next::Finish(Err(NatPmpError::NoResponse))
    ));
}

#[test]
fn an_accepted_reply_ends_the_exchange_with_its_bytes() {
    let (mut exchange, _) = Exchange::start(OP_MAP_TCP, 4);
    let reply = map_reply(0, 1, 1, 60);
    match exchange.hear(Heard::Reply(reply.clone())) {
        Next::Finish(Ok(bytes)) => assert_eq!(bytes, reply),
        _ => panic!("expected the reply back"),
    }
}

#[test]
fn a_socket_failure_ends_the_exchange() {
    let (mut exchange, _) = Exchange::start(OP_MAP_TCP, 4);
    let failure = std::io::Error::other("boom");
    match exchange.hear(Heard::Failed(failure)) {
        Next::Finish(Err(e @ NatPmpError::Io(_))) => {
            assert_eq!(e.message(), "network error: boom");
        }
        _ => panic!("expected the failure"),
    }
}

#[test]
fn error_messages_name_the_problem() {
    assert_eq!(NatPmpError::ShortResponse.message(), "truncated gateway response");
    assert_eq!(NatPmpError::BadVersion(3).message(), "unexpected version 3");
    assert_eq!(NatPmpError::BadOpcode(7).message(), "unexpected opcode 7");
    assert_eq!(NatPmpError::ResultCode(2).message(), "gateway result code 2");
    assert_eq!(NatPmpError::NoResponse.message(), "no response from gateway");
}

#[test]
fn renewal_waits_half_the_lease_but_at_least_thirty_seconds() {
    assert_eq!(renew_after_secs(7200), 3600);
    assert_eq!(renew_after_secs(40), 30);
    assert_eq!(renew_after_secs(0), 30);
    assert_eq!(renewal_lease(0), LEASE_SECS);
    assert_eq!(renewal_lease(600), 600);
}

#[test]
fn diagnose_reports_each_outcome() {
    assert_eq!(
        diagnose(&ProbeOutcome::Mapped(MappedVia::NatPmp), 2234),
        "\u{2705} Automatic port mapping works via NAT-PMP.\n   TCP 2234 was opened on your router, so firewalled peers and the server can reach you. The app does this automatically while it runs."
    );
    let upnp = diagnose(
        &ProbeOutcome::Mapped(MappedVia::Upnp {
            external_ip: Some("203.0.113.7".to_string()),
        }),
        2234,
    );
    assert!(upnp.contains("via UPnP-IGD (external address 203.0.113.7:2234)."));
    let unknown = diagnose(
        &ProbeOutcome::Mapped(MappedVia::Upnp { external_ip: None }),
        2234,
    );
    assert!(unknown.contains("(external address unknown:2234)"));
    assert_eq!(
        diagnose(&ProbeOutcome::Unmapped, 2234),
        "\u{274c} No UPnP/NAT-PMP router responded for TCP 2234.\n   Automatic mapping won't work on this network. To browse/download firewalled peers, forward TCP 2234 to this machine on your router (or enable UPnP there)."
    );
    assert!(diagnose(&ProbeOutcome::NoLanAddress, 2234).starts_with("Could not determine"));
}

const ROUTE_TABLE: &str = "Iface\tDestination\tGateway \tFlags\tRefCnt\tUse\tMetric\tMask\t\tMTU\tWindow\tIRTT\n\
wlan0\t0002A8C0\t00000000\t0001\t0\t0\t600\t00FFFFFF\t0\t0\t0\n\
wlan0\t00000000\t0102A8C0\t0003\t0\t0\t600\t00000000\t0\t0\t0\n";

#[test]
fn the_default_gateway_is_read_least_significant_byte_first() {
    assert_eq!(
        soulseek_rs_tui::route::default_gateway(ROUTE_TABLE),
        Some((192, 168, 2, 1))
    );
}

#[test]
fn a_table_without_a_default_route_names_no_gateway() {
    let table = "Iface\tDestination\tGateway\nwlan0\t0002A8C0\t00000000\n";
    assert_eq!(soulseek_rs_tui::route::default_gateway(table), None);
    assert_eq!(soulseek_rs_tui::route::default_gateway(""), None);
}

#[test]
fn a_short_line_ends_the_search_for_a_gateway() {
    let table = "Iface\tDestination\tGateway\nwlan0\t0002A8C0\neth0\t00000000\t0101A8C0\n";
    assert_eq!(soulseek_rs_tui::route::default_gateway(table), None);
}

#[test]
fn a_gateway_that_is_not_hexadecimal_names_none() {
    let table = "Iface\tDestination\tGateway\neth0\t00000000\tnothex\n";
    assert_eq!(soulseek_rs_tui::route::default_gateway(table), None);
    assert_eq!(soulseek_rs_tui::route::hex32("+ff"), Some(255));
    assert_eq!(soulseek_rs_tui::route::hex32("+"), None);
    assert_eq!(soulseek_rs_tui::route::hex32("100000000"), None);
    assert_eq!(soulseek_rs_tui::route::hex32("FFFFFFFF"), Some(u32::MAX));
    assert_eq!(
        soulseek_rs_tui::route::split_words("  eth0 \t 00000000  x "),
        vec!["eth0".to_string(), "00000000".to_string(), "x".to_string()]
    );
}

#[test]
fn a_probe_becomes_the_record_portmap_prints() {
    let upnp = ProbeOutcome::Mapped(MappedVia::Upnp { external_ip: Some("203.0.113.5".to_string()) });
    let r = soulseek_rs_tui::port_mapping::portmap_record(&upnp, 2234);
    assert!(r.ok);
    assert_eq!(r.backend, "upnp");
    assert_eq!(r.external.as_deref(), Some("203.0.113.5"));
    assert_eq!(r.port, 2234);
    let r = soulseek_rs_tui::port_mapping::portmap_record(&ProbeOutcome::Mapped(MappedVia::NatPmp), 1);
    assert_eq!((r.ok, r.backend.as_str(), r.external), (true, "nat-pmp", None));
    let r = soulseek_rs_tui::port_mapping::portmap_record(&ProbeOutcome::Unmapped, 1);
    assert_eq!((r.ok, r.backend.as_str(), r.external), (false, "none", None));
}
