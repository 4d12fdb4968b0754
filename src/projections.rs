use vstd::prelude::*;
use vstd::string::StringExecFns;

use crate::auth::{require_role, PrivateClaim, Role};
use crate::errors::Error;
use crate::model::{GameQuestion, QuestionDetails, Round, User, UserQuestion};
use crate::store::{game_at, has_picked, open_in, unfinished_in, first_open_from, GameStore};

verus! {

/// Aggregate status of a game, sent on `/game-status`.
#[derive(Clone, Debug, PartialEq)]
pub struct StatusResponse {
    pub slug: String,
    pub open_round: bool,
    pub unfinished_round: bool,
}

/// Status of the latest round of a game as one participant sees it, sent on
/// `/round-status`.
#[derive(Clone, Debug, PartialEq)]
pub struct RoundStatusRepsonse {
    pub player_names: Vec<String>,
    pub questions: Vec<QuestionDetails>,
    pub round_id: i32,
    pub locked: bool,
    pub finished: bool,
    pub picks_chosen: bool,
}

/// A pick together with the name of the player who made it.
#[derive(Clone, Debug, PartialEq)]
pub struct UserAnswer {
    pub id: i32,
    pub user_id: i32,
    pub user_name: String,
    pub question_id: i32,
    pub answer: String,
}

/// The picks of the open round of a game, sent on `/picks`.
#[derive(Clone, Debug, PartialEq)]
pub struct GetRoundPicksResponse {
    pub data: Vec<UserAnswer>,
    pub locked: bool,
}

/// The position of the latest round of game `g` among the first `n` rounds; -1 where
/// there is none.
pub open spec fn latest_round(rounds: Seq<Round>, g: i32, n: int) -> int
    decreases n,
{
    if n <= 0 || n > rounds.len() {
        -1
    } else if rounds[n - 1].game_id == g {
        n - 1
    } else {
        latest_round(rounds, g, n - 1)
    }
}

/// The catalog entries of the questions attached to game `g`, in attachment order;
/// attachments to unknown questions are left out.
pub open spec fn questions_of(gq: Seq<GameQuestion>, qs: Seq<QuestionDetails>, g: i32) -> Seq<
    QuestionDetails,
>
    decreases gq.len(),
{
    if gq.len() == 0 {
        seq![]
    } else {
        let rest = questions_of(gq.drop_last(), qs, g);
        let a = gq.last();
        if a.game_id == g && 1 <= a.question_id <= qs.len() {
            rest.push(qs[a.question_id - 1])
        } else {
            rest
        }
    }
}

/// The picks of round `round_id` with their players' names, in the order they were
/// made; picks of unknown users are left out.
pub open spec fn answers_of(picks: Seq<UserQuestion>, users: Seq<User>, round_id: i32) -> Seq<
    UserAnswer,
>
    decreases picks.len(),
{
    if picks.len() == 0 {
        seq![]
    } else {
        let rest = answers_of(picks.drop_last(), users, round_id);
        let p = picks.last();
        if p.round_id == round_id && 1 <= p.user_id <= users.len() {
            rest.push(
                UserAnswer {
                    id: p.id,
                    user_id: p.user_id,
                    user_name: users[p.user_id - 1].user_name,
                    question_id: p.question_id,
                    answer: p.answer,
                },
            )
        } else {
            rest
        }
    }
}

pub open spec fn game_status_post(store: GameStore, g: i32, r: Result<StatusResponse, Error>) -> bool {
    if !game_at(store, g) {
        r matches Err(Error::NotFound(_))
    } else {
        &&& r matches Ok(status)
        &&& status.slug@ == match store.games@[g - 1].slug {
            Some(s) => s@,
            None => Seq::<char>::empty(),
        }
        &&& status.open_round == exists|k: int| open_in(store.rounds@, g, k)
        &&& status.unfinished_round == exists|k: int| unfinished_in(store.rounds@, g, k)
    }
}

pub open spec fn round_status_post(
    store: GameStore,
    role: Role,
    user_id: i32,
    g: i32,
    r: Result<RoundStatusRepsonse, Error>,
) -> bool {
    let k = latest_round(store.rounds@, g, store.rounds@.len() as int);
    if k < 0 {
        r matches Err(Error::NotFound(_))
    } else {
        let round = store.rounds@[k];
        &&& r matches Ok(status)
        &&& status.player_names@ == seq![round.player_one, round.player_two]
        &&& status.questions@ == questions_of(store.game_questions@, store.questions@, g)
        &&& status.round_id == round.id
        &&& status.locked == round.locked
        &&& status.finished == round.finished
        &&& status.picks_chosen == (role == Role::Player && has_picked(store.picks@, round.id, user_id))
    }
}

pub open spec fn round_picks_post(store: GameStore, g: i32, r: Result<GetRoundPicksResponse, Error>) -> bool {
    let k = first_open_from(store.rounds@, g, 0);
    if k < 0 {
        r matches Err(Error::NotFound(_))
    } else {
        let round = store.rounds@[k];
        &&& r matches Ok(resp)
        &&& resp.data@ == answers_of(store.picks@, store.users@, round.id)
        &&& resp.locked == round.locked
    }
}

/// Computes the aggregate status of game `g`: its slug (empty when it has none),
/// whether a round is open, and whether a round is not finished.
pub fn get_game_status(store: &GameStore, g: i32) -> (r: Result<StatusResponse, Error>)
    ensures
        game_status_post(*store, g, r),
{
    if g < 1 || g as usize > store.games.len() {
        return Err(Error::NotFound(String::from_str("Record not found")));
    }
    let slug = match &store.games[(g - 1) as usize].slug {
        Some(s) => s.clone(),
        None => String::new(),
    };
    let mut open_round = false;
    let mut unfinished_round = false;
    let mut i: usize = 0;
    while i < store.rounds.len()
        invariant
            i <= store.rounds@.len(),
            open_round == exists|k: int| 0 <= k < i && open_in(store.rounds@, g, k),
            unfinished_round == exists|k: int| 0 <= k < i && unfinished_in(store.rounds@, g, k),
        decreases store.rounds.len() - i,
    {
        let round = &store.rounds[i];
        if round.game_id == g && !round.locked {
            open_round = true;
        }
        if round.game_id == g && !round.finished {
            unfinished_round = true;
        }
        proof {
            if open_in(store.rounds@, g, i as int) {
                assert(exists|k: int| 0 <= k < i + 1 && open_in(store.rounds@, g, k));
            }
            if unfinished_in(store.rounds@, g, i as int) {
                assert(exists|k: int| 0 <= k < i + 1 && unfinished_in(store.rounds@, g, k));
            }
        }
        i = i + 1;
    }
    Ok(StatusResponse { slug, open_round, unfinished_round })
}

/// The catalog entries of the questions of game `g`.
pub fn get_questions_by_game_id(store: &GameStore, g: i32) -> (r: Vec<QuestionDetails>)
    ensures
        r@ == questions_of(store.game_questions@, store.questions@, g),
{
    let mut r: Vec<QuestionDetails> = Vec::new();
    let mut i: usize = 0;
    while i < store.game_questions.len()
        invariant
            i <= store.game_questions@.len(),
            r@ == questions_of(store.game_questions@.subrange(0, i as int), store.questions@, g),
        decreases store.game_questions.len() - i,
    {
        proof {
            assert(store.game_questions@.subrange(0, i + 1).drop_last()
                == store.game_questions@.subrange(0, i as int));
        }
        let a = &store.game_questions[i];
        if a.game_id == g && 1 <= a.question_id && a.question_id as usize <= store.questions.len() {
            let q = &store.questions[(a.question_id - 1) as usize];
            r.push(QuestionDetails { id: q.id, body: q.body.clone() });
        }
        i = i + 1;
    }
    proof {
        assert(store.game_questions@.subrange(0, store.game_questions@.len() as int)
            == store.game_questions@);
    }
    r
}

/// Computes the status of the latest round of game `g` for the given participant:
/// its player labels, the game's questions, its state, and whether that participant,
/// when a player, has already picked.
pub fn get_round_status(store: &GameStore, role: Role, user_id: i32, g: i32) -> (r: Result<
    RoundStatusRepsonse,
    Error,
>)
    ensures
        round_status_post(*store, role, user_id, g, r),
{
    let mut n: usize = store.rounds.len();
    while n > 0
        invariant
            n <= store.rounds@.len(),
            latest_round(store.rounds@, g, store.rounds@.len() as int) == latest_round(
                store.rounds@,
                g,
                n as int,
            ),
        ensures
            n <= store.rounds@.len(),
            latest_round(store.rounds@, g, store.rounds@.len() as int) == latest_round(
                store.rounds@,
                g,
                n as int,
            ),
            n > 0 ==> store.rounds@[n - 1].game_id == g,
        decreases n,
    {
        if store.rounds[n - 1].game_id == g {
            break;
        }
        n = n - 1;
    }
    if n == 0 {
        return Err(Error::NotFound(String::from_str("Record not found")));
    }
    let round = &store.rounds[n - 1];
    let mut player_names: Vec<String> = Vec::new();
    player_names.push(round.player_one.clone());
    player_names.push(round.player_two.clone());
    let questions = get_questions_by_game_id(store, g);
    let picks_chosen = if role == Role::Player {
        store.user_has_picked(round.id, user_id)
    } else {
        false
    };
    proof {
        assert(player_names@ =~= seq![round.player_one, round.player_two]);
    }
    Ok(
        RoundStatusRepsonse {
            player_names,
            questions,
            round_id: round.id,
            locked: round.locked,
            finished: round.finished,
            picks_chosen,
        },
    )
}

/// Computes the picks of the open round of game `g`, with their players' names.
pub fn get_round_picks(store: &GameStore, g: i32) -> (r: Result<GetRoundPicksResponse, Error>)
    ensures
        round_picks_post(*store, g, r),
{
    let k = match store.find_open_round(g) {
        Some(k) => k,
        None => return Err(Error::NotFound(String::from_str("Record not found"))),
    };
    let round_id = store.rounds[k].id;
    let mut data: Vec<UserAnswer> = Vec::new();
    let mut i: usize = 0;
    while i < store.picks.len()
        invariant
            i <= store.picks@.len(),
            data@ == answers_of(store.picks@.subrange(0, i as int), store.users@, round_id),
        decreases store.picks.len() - i,
    {
        proof {
            assert(store.picks@.subrange(0, i + 1).drop_last() == store.picks@.subrange(0, i as int));
        }
        let p = &store.picks[i];
        if p.round_id == round_id && 1 <= p.user_id && p.user_id as usize <= store.users.len() {
            data.push(
                UserAnswer {
                    id: p.id,
                    user_id: p.user_id,
                    user_name: store.users[(p.user_id - 1) as usize].user_name.clone(),
                    question_id: p.question_id,
                    answer: p.answer.clone(),
                },
            );
        }
        i = i + 1;
    }
    proof {
        assert(store.picks@.subrange(0, store.picks@.len() as int) == store.picks@);
    }
    Ok(GetRoundPicksResponse { data, locked: store.rounds[k].locked })
}

/// The picks of the open round of the claim's game, for its owner only.
pub fn round_picks_for_owner(store: &GameStore, claim: &PrivateClaim) -> (r: Result<
    GetRoundPicksResponse,
    Error,
>)
    ensures
        claim.role != Role::Owner ==> r == Err::<GetRoundPicksResponse, Error>(Error::Forbidden),
        claim.role == Role::Owner ==> round_picks_post(*store, claim.game_id, r),
{
    require_role(claim, Role::Owner)?;
    get_round_picks(store, claim.game_id)
}

} // verus!
