use soulseek_rs_tui::cli::parse_server_address;
use soulseek_rs_tui::api::sessions_searches;
use soulseek_rs_tui::commands::{
    listen_span, listener_port_note, login_verdict, no_daemon, portmap, room_list_in,
    session_lost, status, stream_status, token, Ctx, LoginOutcome,
};
use soulseek_rs_tui::proto::{SearchSummary, Searches};
use soulseek_rs_tui::types::{RoomEvent, RoomInfo};
use soulseek_rs_tui::proto::{DaemonStatus, SessionLossDto};
use soulseek_rs_tui::output::{CliError, Exit, Out};
use soulseek_rs_tui::types::SessionLoss;
use std::time::Duration;

#[test]
fn follow_listens_without_a_deadline() {
    assert_eq!(listen_span(30, true), None);
    assert_eq!(listen_span(30, false), Some(Duration::from_secs(30)));
}

#[test]
fn server_address_splits_host_and_port() {
    assert_eq!(
        parse_server_address("server.slsknet.org:2416"),
        Ok(("server.slsknet.org".to_string(), 2416))
    );
    assert!(parse_server_address("noport").is_err());
    assert!(parse_server_address("host:70000").is_err());
    assert!(parse_server_address(":2416").is_err());
}

fn ctx() -> Ctx {
    Ctx {
        out: Out::styled(false, true, false),
        download_dir: "/music".into(),
        max_concurrent_downloads: 2,
        search_timeout: 10,
        daemon: None,
        daemon_token: None,
    }
}

#[test]
fn a_lost_session_explains_an_empty_verdict() {
    let verdict = ctx().checked(Err(CliError::no_results("nothing")), Some(SessionLoss::Displaced));
    let error = verdict.unwrap_err();
    assert_eq!(error.exit, Exit::SessionLost);
    assert!(error.message.contains("--username"));
}

#[test]
fn a_usage_error_is_not_blamed_on_the_session() {
    let verdict = ctx().checked(Err(CliError::usage("bad")), Some(SessionLoss::Disconnected));
    assert_eq!(verdict.unwrap_err().exit, Exit::Usage);
    let verdict = ctx().checked(Err(CliError::timeout("slow")), None);
    assert_eq!(verdict.unwrap_err().exit, Exit::Timeout);
    assert!(ctx().checked(Ok(()), Some(SessionLoss::Displaced)).is_ok());
}

#[test]
fn a_disconnection_offers_no_fix() {
    let error = session_lost(SessionLoss::Disconnected);
    assert!(!error.message.contains("--username"));
    assert!(error.message.starts_with("the session ended before this command finished: "));
}

#[test]
fn a_listener_announces_how_long_it_listens() {
    assert_eq!(stream_status("listening to lobby", Some(30)), "listening to lobby for 30s…");
    assert_eq!(stream_status("reading", None), "reading until interrupted…");
}

#[test]
fn an_unmapped_port_is_the_no_results_verdict() {
    assert!(portmap(true, 2234).is_ok());
    let error = portmap(false, 2234).unwrap_err();
    assert_eq!(error.exit, Exit::NoResults);
    assert_eq!(error.message, "no router mapped TCP 2234");
}

#[test]
fn daemon_status_reports_the_port_and_the_loss_by_name() {
    let answer = DaemonStatus {
        username: "alice".to_string(),
        server: "server.slsknet.org:2242".to_string(),
        daemon_version: "1.0".to_string(),
        protocol: 1,
        listen_port: None,
        shared_folders: 3,
        shared_files: 40,
        download_dir: "/music".to_string(),
        session_loss: Some(SessionLossDto::Displaced),
        clients: 2,
        uptime_secs: 60,
    };
    let record = status(answer);
    assert!(!record.listening);
    assert_eq!(record.listen_port, 0);
    assert_eq!(record.session_loss.as_deref(), Some("displaced"));
    assert_eq!(record.shared_files, 40);
    assert_eq!(token("abc".to_string()).token, "abc");
    assert_eq!(no_daemon().exit, Exit::Connection);
    assert!(no_daemon().message.starts_with("no daemon is running"));
}

#[test]
fn the_first_room_list_answers_the_request() {
    let events = vec![
        RoomEvent::Left { room: "a".into() },
        RoomEvent::List(vec![RoomInfo { name: "indie".into(), user_count: 3 }]),
        RoomEvent::List(vec![]),
    ];
    let rooms = room_list_in(events).expect("a list arrived");
    assert_eq!(rooms.len(), 1);
    assert_eq!(rooms[0].name, "indie");
    assert!(room_list_in(vec![RoomEvent::Left { room: "a".into() }]).is_none());
}

#[test]
fn a_login_verdict_says_what_went_wrong() {
    assert!(login_verdict(LoginOutcome::Answered(true), "h:1").is_ok());
    let refused = login_verdict(LoginOutcome::Answered(false), "h:1").unwrap_err();
    assert_eq!(refused.exit, Exit::Connection);
    assert!(refused.message.starts_with("login rejected"));
    assert_eq!(
        login_verdict(LoginOutcome::Failed("io".into()), "h:1").unwrap_err().message,
        "login failed: io"
    );
    assert_eq!(
        login_verdict(LoginOutcome::Silent, "h:1").unwrap_err().message,
        "h:1 accepted the connection but did not answer the login within 30s"
    );
}

#[test]
fn a_taken_listener_port_is_reported() {
    assert_eq!(
        listener_port_note(2234, Some(2235)).as_deref(),
        Some("listener port 2234 is in use; listening on 2235 instead")
    );
    assert_eq!(listener_port_note(2234, Some(2234)), None);
    assert_eq!(listener_port_note(0, Some(5000)), None);
    assert_eq!(listener_port_note(2234, None), None);
}

#[test]
fn a_daemons_searches_carry_their_age() {
    let listed = Searches {
        searches: vec![SearchSummary { query: "q".into(), files: 4, started_secs_ago: 9 }],
    };
    let searches = sessions_searches(listed);
    assert_eq!(searches[0].query, "q");
    assert_eq!(searches[0].files, 4);
    assert_eq!(searches[0].started_secs_ago, Some(9));
}

#[test]
fn waiting_for_the_room_list_stops_at_the_answer_or_the_deadline() {
    let rooms = vec![RoomInfo { name: "indie".to_string(), user_count: 3 }];
    let events = vec![
        RoomEvent::UserJoined { room: "x".to_string(), username: "a".to_string() },
        RoomEvent::List(rooms.clone()),
    ];
    match soulseek_rs_tui::commands::room_list_step(events, 10, 5000) {
        soulseek_rs_tui::commands::RoomListStep::Found(found) => assert_eq!(found, rooms),
        _ => panic!("the list was there"),
    }
    assert!(matches!(
        soulseek_rs_tui::commands::room_list_step(Vec::new(), 10, 5000),
        soulseek_rs_tui::commands::RoomListStep::Wait
    ));
    assert!(matches!(
        soulseek_rs_tui::commands::room_list_step(vec![RoomEvent::List(rooms)], 5000, 5000),
        soulseek_rs_tui::commands::RoomListStep::GiveUp
    ));
}
