use predictions::auth::{PrivateClaim, Role};
use predictions::dispatch::{channels_after, Channel, Transition};
use predictions::registry::{encode_frame, Auth, AuthOutcome, Connect, Disconnect, MessageToClient, Server};

fn connect(server: &mut Server<u32>, id: &str, handle: u32) {
    server.connect(Connect { addr: handle, id: id.to_string() });
}

fn auth(server: &mut Server<u32>, id: &str, game_id: i32) -> AuthOutcome {
    let claim = PrivateClaim::with_exp(1, "player one".to_string(), game_id, Role::Player, 100);
    server.authenticate(Auth { id: id.to_string(), token: format!("token-{}", game_id) }, Some(claim))
}

fn targets(server: &Server<u32>, game_id: i32) -> Vec<String> {
    server.fanout(game_id)
}

#[test]
fn test_ws_auth_broadcast_no_users() {
    let mut server: Server<u32> = Server::new();
    connect(&mut server, "owner-session", 1);
    let claim = PrivateClaim::with_exp(1, "abc123".to_string(), 1, Role::Owner, 100);
    let outcome = server.authenticate(
        Auth { id: "owner-session".to_string(), token: "tok".to_string() },
        Some(claim),
    );
    assert_eq!(outcome, AuthOutcome::Bound(1));
    let msg = MessageToClient::new(Channel::Players.path(), 1, "[]".to_string());
    assert_eq!(msg.to_json(), "{\"path\":\"/players\",\"data\":[],\"game_id\":1}");
    assert_eq!(targets(&server, 1), vec!["owner-session".to_string()]);
    assert_eq!(server.handle(&"owner-session".to_string()), Some(&1));
}

#[test]
fn test_ws_auth_broadcasts_users() {
    let mut server: Server<u32> = Server::new();
    connect(&mut server, "first", 1);
    connect(&mut server, "second", 2);
    assert_eq!(auth(&mut server, "first", 1), AuthOutcome::Bound(1));
    assert_eq!(auth(&mut server, "second", 1), AuthOutcome::Bound(1));
    let data = "[{\"id\":1,\"user_name\":\"agmcleod\",\"game_id\":1,\"score\":0}]".to_string();
    let msg = MessageToClient::new("/players", 1, data.clone());
    assert_eq!(
        msg.to_json(),
        format!("{{\"path\":\"/players\",\"data\":{},\"game_id\":1}}", data)
    );
    assert_eq!(targets(&server, 1), vec!["first".to_string(), "second".to_string()]);
}

#[test]
fn broadcast_reaches_only_the_game_sessions() {
    let mut server: Server<u32> = Server::new();
    connect(&mut server, "a", 1);
    connect(&mut server, "b", 2);
    connect(&mut server, "c", 3);
    auth(&mut server, "a", 5);
    auth(&mut server, "b", 5);
    auth(&mut server, "c", 7);
    assert_eq!(targets(&server, 5), vec!["a".to_string(), "b".to_string()]);
    assert_eq!(targets(&server, 7), vec!["c".to_string()]);
    assert!(targets(&server, 9).is_empty());
}

#[test]
fn repeated_authentication_is_delivered_once() {
    let mut server: Server<u32> = Server::new();
    connect(&mut server, "a", 1);
    assert_eq!(auth(&mut server, "a", 5), AuthOutcome::Bound(5));
    assert_eq!(auth(&mut server, "a", 5), AuthOutcome::AlreadyBound);
    assert_eq!(targets(&server, 5), vec!["a".to_string()]);
    assert_eq!(server.game_to_sessions[0].session_ids.len(), 1);
    assert_eq!(server.sessions[0].game_ids, vec![5]);
    assert_eq!(server.sessions[0].token, Some("token-5".to_string()));
}

#[test]
fn bad_tokens_and_gone_sessions_change_nothing() {
    let mut server: Server<u32> = Server::new();
    connect(&mut server, "a", 1);
    let outcome = server.authenticate(Auth { id: "a".to_string(), token: "bad".to_string() }, None);
    assert_eq!(outcome, AuthOutcome::Rejected);
    assert_eq!(server.sessions[0].token, None);
    assert_eq!(auth(&mut server, "ghost", 5), AuthOutcome::UnknownSession);
    assert!(server.game_to_sessions.is_empty());
}

#[test]
fn disconnected_sessions_are_skipped() {
    let mut server: Server<u32> = Server::new();
    connect(&mut server, "a", 1);
    connect(&mut server, "b", 2);
    auth(&mut server, "a", 5);
    auth(&mut server, "b", 5);
    server.disconnect(&Disconnect { id: "a".to_string() });
    assert_eq!(targets(&server, 5), vec!["b".to_string()]);
    assert_eq!(server.game_to_sessions[0].session_ids.len(), 2);
    assert_eq!(server.handle(&"a".to_string()), None);
    assert_eq!(auth(&mut server, "a", 5), AuthOutcome::UnknownSession);
}

#[test]
fn reconnecting_with_a_live_id_starts_over() {
    let mut server: Server<u32> = Server::new();
    connect(&mut server, "a", 1);
    auth(&mut server, "a", 5);
    connect(&mut server, "a", 9);
    assert_eq!(server.sessions.len(), 1);
    assert_eq!(server.sessions[0].token, None);
    assert!(server.sessions[0].game_ids.is_empty());
    assert_eq!(server.handle(&"a".to_string()), Some(&9));
}

#[test]
fn frames_quote_the_path_and_keep_negative_ids() {
    let msg = MessageToClient::new("/odd \"path\"", -3, "{}".to_string());
    assert_eq!(msg.to_json(), "{\"path\":\"/odd \\\"path\\\"\",\"data\":{},\"game_id\":-3}");
    assert_eq!(
        encode_frame(&"\"/picks\"".to_string(), &"null".to_string(), 12),
        "{\"path\":\"/picks\",\"data\":null,\"game_id\":12}"
    );
}

#[test]
fn notifications_follow_each_transition() {
    assert_eq!(channels_after(Transition::RoundCreated), vec![Channel::GameStatus, Channel::RoundStatus]);
    assert_eq!(channels_after(Transition::RoundLocked), vec![Channel::GameStatus, Channel::RoundStatus]);
    assert_eq!(channels_after(Transition::RoundScored), vec![Channel::GameStatus, Channel::RoundStatus]);
    assert_eq!(channels_after(Transition::PicksSaved), vec![Channel::Picks]);
    assert_eq!(channels_after(Transition::PlayerBound), vec![Channel::Players]);
    assert_eq!(Channel::GameStatus.path(), "/game-status");
    assert_eq!(Channel::RoundStatus.path(), "/round-status");
    assert_eq!(Channel::Picks.path(), "/picks");
}

#[test]
fn control_characters_in_paths_are_escaped() {
    let msg = MessageToClient::new("/a\u{1}\\\n", 0, "1".to_string());
    assert_eq!(msg.to_json(), "{\"path\":\"/a\\u0001\\\\\\n\",\"data\":1,\"game_id\":0}");
}
