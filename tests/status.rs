use predictions::auth::{PrivateClaim, Role};
use predictions::errors::Error;
use predictions::model::{Game, GameQuestion, QuestionDetails, Round, User, UserQuestion};
use predictions::projections::{
    get_game_status, get_round_picks, get_round_status, round_picks_for_owner,
};
use predictions::store::GameStore;

fn game(store: &mut GameStore, slug: &str) -> i32 {
    let id = store.games.len() as i32 + 1;
    store.games.push(Game { id, slug: Some(slug.to_string()), creator: None });
    id
}

fn round(store: &mut GameStore, game_id: i32, one: &str, two: &str, locked: bool, finished: bool) -> i32 {
    let id = store.rounds.len() as i32 + 1;
    store.rounds.push(Round {
        id,
        player_one: one.to_string(),
        player_two: two.to_string(),
        game_id,
        locked,
        finished,
    });
    id
}

fn questions_for(store: &mut GameStore, game_id: i32) -> (QuestionDetails, QuestionDetails) {
    let one = store.add_question("Who will expand first?".to_string()).unwrap();
    let two = store.add_question("Who will strike first?".to_string()).unwrap();
    for q in [&one, &two] {
        let id = store.game_questions.len() as i32 + 1;
        store.game_questions.push(GameQuestion { id, game_id, question_id: q.id });
    }
    (one, two)
}

#[test]
fn status_test_get_game_status() {
    let mut store = GameStore::new();
    let g = game(&mut store, "abc123");
    round(&mut store, g, "one", "two", true, false);
    round(&mut store, g, "one", "two", true, false);
    let other = game(&mut store, "dfg888");
    round(&mut store, other, "one", "two", false, false);
    let status = get_game_status(&store, g).unwrap();
    assert_eq!(status.slug, "abc123");
    assert!(!status.open_round);
    assert!(status.unfinished_round);
}

#[test]
fn test_get_game_status_open_round() {
    let mut store = GameStore::new();
    let g = game(&mut store, "abc123");
    round(&mut store, g, "one", "two", true, true);
    round(&mut store, g, "one", "two", true, true);
    round(&mut store, g, "one", "two", false, true);
    let status = get_game_status(&store, g).unwrap();
    assert_eq!(status.slug, "abc123");
    assert!(status.open_round);
    assert!(!status.unfinished_round);
}

#[test]
fn game_status_of_unknown_game_is_not_found() {
    let mut store = GameStore::new();
    game(&mut store, "abc123");
    assert!(matches!(get_game_status(&store, 2), Err(Error::NotFound(_))));
    store.games[0].slug = None;
    assert_eq!(get_game_status(&store, 1).unwrap().slug, "");
}

#[test]
fn test_status_get_player_names_questions() {
    let mut store = GameStore::new();
    let g = game(&mut store, "abc123");
    let (one, two) = questions_for(&mut store, g);
    let r = round(&mut store, g, "one", "two", false, false);
    let status = get_round_status(&store, Role::Owner, g, g).unwrap();
    assert_eq!(status.player_names, vec!["one", "two"]);
    assert_eq!(status.questions, vec![one, two]);
    assert_eq!(status.round_id, r);
    assert!(!status.locked);
    assert!(!status.finished);
}

#[test]
fn test_status_player_has_picks() {
    let mut store = GameStore::new();
    let g = game(&mut store, "abc123");
    let (one, two) = questions_for(&mut store, g);
    let r = round(&mut store, g, "one", "two", false, false);
    store.users.push(User { id: 1, user_name: "agmcleod".to_string(), game_id: g, session_id: None, score: 0 });
    store.picks.push(UserQuestion { id: 1, user_id: 1, question_id: one.id, round_id: r, answer: "one".to_string() });
    let status = get_round_status(&store, Role::Player, 1, g).unwrap();
    assert_eq!(status.player_names, vec!["one", "two"]);
    assert_eq!(status.questions, vec![one, two]);
    assert_eq!(status.round_id, r);
    assert!(!status.locked);
    assert!(!status.finished);
    assert!(status.picks_chosen);
    let owner_view = get_round_status(&store, Role::Owner, 1, g).unwrap();
    assert!(!owner_view.picks_chosen);
}

#[test]
fn test_current_round_no_active_round() {
    let mut store = GameStore::new();
    let g = game(&mut store, "abc123");
    round(&mut store, g, "boxer", "idra", true, false);
    round(&mut store, g, "mvp", "mc", true, false);
    let status = get_round_status(&store, Role::Owner, g, g).unwrap();
    assert!(status.locked);
    assert_eq!(status.player_names, vec!["mvp", "mc"]);
    assert!(matches!(get_round_status(&store, Role::Owner, g, g + 1), Err(Error::NotFound(_))));
}

fn picks_store() -> (GameStore, i32) {
    let mut store = GameStore::new();
    let g = game(&mut store, "abc123");
    let (one, two) = questions_for(&mut store, g);
    let r = round(&mut store, g, "one", "two", false, false);
    store.users.push(User { id: 1, user_name: "agmcleod".to_string(), game_id: g, session_id: None, score: 0 });
    store.picks.push(UserQuestion { id: 1, user_id: 1, question_id: one.id, round_id: r, answer: "one".to_string() });
    store.picks.push(UserQuestion { id: 2, user_id: 1, question_id: two.id, round_id: r, answer: "two".to_string() });
    (store, g)
}

#[test]
fn test_get_round_picks() {
    let (store, g) = picks_store();
    let owner = PrivateClaim::issued_at(g, "abc123".to_string(), g, Role::Owner, 0);
    let body = round_picks_for_owner(&store, &owner).unwrap();
    assert_eq!(body.data.len(), 2);
    assert_eq!(body.data[0].user_name, "agmcleod");
    assert_eq!(body.data[0].answer, "one");
    assert_eq!(body.data[1].user_name, "agmcleod");
    assert_eq!(body.data[1].answer, "two");
}

#[test]
fn test_get_round_picks_role_not_owner() {
    let (store, g) = picks_store();
    let player = PrivateClaim::issued_at(1, "agmcleod".to_string(), g, Role::Player, 0);
    assert_eq!(round_picks_for_owner(&store, &player).unwrap_err().status_code(), 403);
}

#[test]
fn test_get_round_picks_no_active_round() {
    let (mut store, g) = picks_store();
    store.rounds[0].locked = true;
    assert_eq!(get_round_picks(&store, g).unwrap_err().status_code(), 404);
}
