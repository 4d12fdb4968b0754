use predictions::registry::{Auth, Disconnect};
use predictions::session::{
    parse_command, Command, FrameAction, HeartbeatAction, WebSocketSession, WsFrame,
    CLIENT_TIMEOUT_MS,
};

fn session(hb: u64) -> WebSocketSession {
    WebSocketSession { id: "session-1".to_string(), hb, token: None }
}

#[test]
fn new_sessions_get_fresh_ids() {
    let a = WebSocketSession::new(7);
    let b = WebSocketSession::new(7);
    assert_eq!(a.hb, 7);
    assert_eq!(a.id.len(), 36);
    assert_ne!(a.id, b.id);
    assert_eq!(a.token, None);
}

#[test]
fn silent_peers_are_disconnected() {
    let s = session(1000);
    assert_eq!(s.heartbeat(1000 + CLIENT_TIMEOUT_MS), HeartbeatAction::Ping);
    assert_eq!(s.heartbeat(1001 + CLIENT_TIMEOUT_MS), HeartbeatAction::Disconnect);
    assert_eq!(s.heartbeat(10), HeartbeatAction::Ping);
}

#[test]
fn pings_and_pongs_refresh_the_heartbeat() {
    let mut s = session(0);
    assert_eq!(s.handle(WsFrame::Ping(vec![1, 2]), 50), FrameAction::Pong(vec![1, 2]));
    assert_eq!(s.hb, 50);
    assert_eq!(s.handle(WsFrame::Pong, 80), FrameAction::Nothing);
    assert_eq!(s.hb, 80);
    assert_eq!(s.handle(WsFrame::Binary(vec![9]), 90), FrameAction::EchoBinary(vec![9]));
    assert_eq!(s.hb, 80);
}

#[test]
fn auth_frames_ask_the_registry() {
    let mut s = session(0);
    let action = s.handle(WsFrame::Text("  /auth {\"token\":\"abc.def\"}  ".to_string()), 1);
    assert_eq!(
        action,
        FrameAction::Authenticate(Auth { id: "session-1".to_string(), token: "abc.def".to_string() })
    );
}

#[test]
fn malformed_auth_gets_a_local_notice() {
    let mut s = session(0);
    let notice = FrameAction::Reply("Invalid request params".to_string());
    assert_eq!(s.handle(WsFrame::Text("/auth {not json".to_string()), 1), notice);
    assert_eq!(s.handle(WsFrame::Text("/auth {\"token\":5}".to_string()), 1), notice);
    assert_eq!(s.handle(WsFrame::Text("/auth".to_string()), 1), notice);
}

#[test]
fn other_text_is_ignored_or_named_unknown() {
    assert_eq!(parse_command("hello there"), Command::Ignore);
    assert_eq!(parse_command(""), Command::Ignore);
    assert_eq!(
        parse_command("/join now"),
        Command::Unknown("unknown command \"/join now\"".to_string())
    );
    assert_eq!(parse_command("/auth {\"token\":\"t\"}"), Command::Auth("t".to_string()));
}

#[test]
fn close_ends_the_session() {
    let mut s = session(0);
    assert_eq!(
        s.handle(WsFrame::Close, 1),
        FrameAction::Close(Disconnect { id: "session-1".to_string() })
    );
    assert_eq!(s.handle(WsFrame::ProtocolError, 1), FrameAction::Stop);
    assert_eq!(s.handle(WsFrame::Other, 1), FrameAction::Stop);
}

#[test]
fn white_space_around_commands_is_trimmed() {
    let mut s = session(0);
    let action = s.handle(WsFrame::Text("\t\u{a0}/auth {\"token\":\"t\"}\r\n".to_string()), 1);
    assert_eq!(
        action,
        FrameAction::Authenticate(Auth { id: "session-1".to_string(), token: "t".to_string() })
    );
    assert_eq!(parse_command(" \u{3000}hello"), Command::Ignore);
}
