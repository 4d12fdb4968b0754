use predictions::errors::Error;
use predictions::model::UserDetails;
use predictions::store::GameStore;
use predictions::validate::{CreateGameRequest, JoinRequest};

fn store_with_questions() -> (GameStore, i32, i32) {
    let mut store = GameStore::new();
    let q1 = store.add_question("This is the question".to_string()).unwrap().id;
    let q2 = store.add_question("Another question".to_string()).unwrap().id;
    (store, q1, q2)
}

fn join_request(name: &str, slug: &str) -> JoinRequest {
    JoinRequest { name: name.to_string(), slug: slug.to_string() }
}

#[test]
fn create_test_create_game() {
    let (mut store, q1, _) = store_with_questions();
    let game = store.create_game(&CreateGameRequest { question_ids: vec![q1] }).unwrap();
    assert_eq!(game.id, 1);
    assert_eq!(game.slug.as_ref().unwrap().len(), 6);
    assert!(game.slug.as_ref().unwrap().starts_with('1'));
    assert_eq!(game.creator, None);
    assert_eq!(store.game_questions.len(), 1);
    assert_eq!(store.game_questions[0].question_id, q1);
    assert_eq!(store.game_questions[0].game_id, game.id);
    store.set_creator(game.id, "owner-token".to_string()).unwrap();
    assert_eq!(store.games[0].creator, Some("owner-token".to_string()));
}

#[test]
fn create_game_with_unknown_question_writes_nothing() {
    let (mut store, q1, _) = store_with_questions();
    let r = store.create_game(&CreateGameRequest { question_ids: vec![q1, 42] });
    assert_eq!(r, Err(Error::BadRequest("Invalid question id: 42".to_string())));
    assert_eq!(store.games.len(), 0);
    assert_eq!(store.game_questions.len(), 0);
}

#[test]
fn get_all_test_questions_empty() {
    let store = GameStore::new();
    assert_eq!(store.all_questions().len(), 0);
}

#[test]
fn get_all_test_questions_populated() {
    let (store, _, _) = store_with_questions();
    let all = store.all_questions();
    assert_eq!(all.len(), 2);
    assert_eq!(all[0].body, "This is the question");
}

#[test]
fn join_test_join_game() {
    let (mut store, q1, _) = store_with_questions();
    let game = store.create_game(&CreateGameRequest { question_ids: vec![q1] }).unwrap();
    store.games[0].slug = Some("abc123".to_string());
    let user = store.join(&join_request("agmcleod", "abc123")).unwrap();
    assert_eq!(user.user_name, "agmcleod");
    assert_eq!(user.game_id, game.id);
    assert_eq!(user.score, 0);
    store.set_session(user.id, "player-token".to_string()).unwrap();
    assert_eq!(store.users[0].session_id, Some("player-token".to_string()));
}

#[test]
fn join_test_game_not_found() {
    let (mut store, q1, _) = store_with_questions();
    store.create_game(&CreateGameRequest { question_ids: vec![q1] }).unwrap();
    let r = store.join(&join_request("agmcleod", "-fake-"));
    assert_eq!(r.unwrap_err().status_code(), 404);
    assert_eq!(store.users.len(), 0);
}

#[test]
fn join_test_join_game_with_duplicate_name() {
    let (mut store, q1, _) = store_with_questions();
    store.create_game(&CreateGameRequest { question_ids: vec![q1] }).unwrap();
    store.games[0].slug = Some("newgam".to_string());
    store.join(&join_request("agmcleod", "newgam")).unwrap();
    let err = store.join(&join_request("agmcleod", "newgam")).unwrap_err();
    assert_eq!(err.status_code(), 422);
    assert_eq!(err.error_response().errors, vec!["Username is taken".to_string()]);
    assert_eq!(store.users.len(), 1);
}

#[test]
fn join_validates_name_and_slug_lengths() {
    let mut store = GameStore::new();
    let err = store.join(&join_request("ab", "abc12")).unwrap_err();
    assert_eq!(
        err,
        Error::ValidationError(vec!["name is required".to_string(), "slug is required".to_string()])
    );
    assert_eq!(err.status_code(), 422);
    let err = store.join(&join_request("abc", "abc123")).unwrap_err();
    assert!(matches!(err, Error::NotFound(_)));
}

#[test]
fn test_get_players_as_owner() {
    let (mut store, q1, _) = store_with_questions();
    let first = store.create_game(&CreateGameRequest { question_ids: vec![q1] }).unwrap();
    let second = store.create_game(&CreateGameRequest { question_ids: vec![q1] }).unwrap();
    store.games[0].slug = Some("abc123".to_string());
    store.games[1].slug = Some("zzz999".to_string());
    store.join(&join_request("agmcleod", "abc123")).unwrap();
    store.join(&join_request("someone", "zzz999")).unwrap();
    store.join(&join_request("agmcleod2", "abc123")).unwrap();
    let players = store.find_all_by_game_id(first.id);
    assert_eq!(
        players,
        vec![
            UserDetails { id: 1, user_name: "agmcleod".to_string(), game_id: first.id, score: 0 },
            UserDetails { id: 3, user_name: "agmcleod2".to_string(), game_id: first.id, score: 0 },
        ]
    );
    assert_eq!(store.find_all_by_game_id(second.id).len(), 1);
    assert_eq!(store.find_all_by_game_id(99).len(), 0);
}
