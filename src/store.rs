use vstd::prelude::*;
use vstd::string::StringExecFns;

use crate::auth::{require_role, PrivateClaim, Role};
use crate::errors::Error;
use crate::model::{
    Game, GameQuestion, NewGameQuestion, NewRound, NewUser, NewUserQuestion, QuestionDetails,
    Round, User, UserDetails, UserQuestion, details_of,
};
use crate::picks::{selection_error, validate_selected_questions, SavePicksParams};
use crate::scoring::{tally, user_tally, Params};
use crate::slug::{create_slug_from_id, is_slug_for};
use crate::validate::{
    join_errors, round_request_errors, validation_result, CreateGameRequest, CreateRoundRequest,
    JoinRequest,
};

verus! {

/// The most records of one kind that the store holds: ids are positive `i32`s.
pub const MAX_RECORDS: usize = 2147483647;

/// The durable state of all games: each record's id is its position plus one.
pub struct GameStore {
    pub games: Vec<Game>,
    pub rounds: Vec<Round>,
    pub users: Vec<User>,
    pub questions: Vec<QuestionDetails>,
    pub game_questions: Vec<GameQuestion>,
    pub picks: Vec<UserQuestion>,
}

pub open spec fn open_in(rounds: Seq<Round>, g: i32, k: int) -> bool {
    0 <= k < rounds.len() && rounds[k].game_id == g && !rounds[k].locked
}

pub open spec fn pending_in(rounds: Seq<Round>, g: i32, k: int) -> bool {
    0 <= k < rounds.len() && rounds[k].game_id == g && rounds[k].locked && !rounds[k].finished
}

pub open spec fn unfinished_in(rounds: Seq<Round>, g: i32, k: int) -> bool {
    0 <= k < rounds.len() && rounds[k].game_id == g && !rounds[k].finished
}

/// The first open round of game `g` at or after position `k`; -1 where there is none.
pub open spec fn first_open_from(rounds: Seq<Round>, g: i32, k: int) -> int
    decreases rounds.len() - k,
{
    if k < 0 || k >= rounds.len() {
        -1
    } else if open_in(rounds, g, k) {
        k
    } else {
        first_open_from(rounds, g, k + 1)
    }
}

/// The first round of game `g` awaiting scoring at or after position `k`; -1 where
/// there is none.
pub open spec fn first_pending_from(rounds: Seq<Round>, g: i32, k: int) -> int
    decreases rounds.len() - k,
{
    if k < 0 || k >= rounds.len() {
        -1
    } else if pending_in(rounds, g, k) {
        k
    } else {
        first_pending_from(rounds, g, k + 1)
    }
}

pub open spec fn has_unfinished_round(rounds: Seq<Round>, g: i32) -> bool {
    exists|k: int| unfinished_in(rounds, g, k)
}

pub open spec fn at_most_one_open(rounds: Seq<Round>) -> bool {
    forall|g: i32, a: int, b: int|
        #![trigger open_in(rounds, g, a), open_in(rounds, g, b)]
        open_in(rounds, g, a) && open_in(rounds, g, b) ==> a == b
}

pub open spec fn at_most_one_pending(rounds: Seq<Round>) -> bool {
    forall|g: i32, a: int, b: int|
        #![trigger pending_in(rounds, g, a), pending_in(rounds, g, b)]
        pending_in(rounds, g, a) && pending_in(rounds, g, b) ==> a == b
}

/// The lifecycle discipline of rounds: finished rounds are locked, and each game has
/// at most one round that is not finished.
pub open spec fn rounds_disciplined(rounds: Seq<Round>) -> bool {
    &&& forall|k: int| 0 <= k < rounds.len() && #[trigger] rounds[k].finished ==> rounds[k].locked
    &&& forall|g: i32, a: int, b: int|
        #![trigger unfinished_in(rounds, g, a), unfinished_in(rounds, g, b)]
        unfinished_in(rounds, g, a) && unfinished_in(rounds, g, b) ==> a == b
}

pub open spec fn locked_round(r: Round) -> Round {
    Round {
        id: r.id,
        player_one: r.player_one,
        player_two: r.player_two,
        game_id: r.game_id,
        locked: true,
        finished: r.finished,
    }
}

pub open spec fn finished_round(r: Round) -> Round {
    Round {
        id: r.id,
        player_one: r.player_one,
        player_two: r.player_two,
        game_id: r.game_id,
        locked: r.locked,
        finished: true,
    }
}

pub open spec fn scored_user(u: User, points: int) -> User {
    User {
        id: u.id,
        user_name: u.user_name,
        game_id: u.game_id,
        session_id: u.session_id,
        score: (u.score + points) as i32,
    }
}

/// Whether `user_id` has recorded any pick in `round_id`.
pub open spec fn has_picked(picks: Seq<UserQuestion>, round_id: i32, user_id: i32) -> bool {
    exists|j: int|
        0 <= j < picks.len() && #[trigger] picks[j].round_id == round_id && picks[j].user_id
            == user_id
}

/// The question ids of game `g`, in the order they were attached.
pub open spec fn game_question_ids(gq: Seq<GameQuestion>, g: i32) -> Seq<i32>
    decreases gq.len(),
{
    if gq.len() == 0 {
        seq![]
    } else if gq.last().game_id == g {
        game_question_ids(gq.drop_last(), g).push(gq.last().question_id)
    } else {
        game_question_ids(gq.drop_last(), g)
    }
}

/// The picks that a submission of `answers` adds, numbered on from `start`.
pub open spec fn new_picks(
    start: int,
    user_id: i32,
    round_id: i32,
    answers: Seq<crate::picks::Answer>,
) -> Seq<UserQuestion> {
    Seq::new(
        answers.len(),
        |j: int|
            UserQuestion {
                id: (start + j + 1) as i32,
                user_id,
                question_id: answers[j].id,
                round_id,
                answer: answers[j].value,
            },
    )
}

pub open spec fn score_overflows(
    users: Seq<User>,
    picks: Seq<UserQuestion>,
    correct: Seq<crate::scoring::Answer>,
    round_id: i32,
) -> bool {
    exists|u: int|
        0 <= u < users.len() && (#[trigger] users[u]).score + tally(
            picks,
            correct,
            round_id,
            users[u].id,
        ) > i32::MAX
}

pub open spec fn same_except_rounds(a: GameStore, b: GameStore) -> bool {
    &&& a.games@ == b.games@
    &&& a.users@ == b.users@
    &&& a.questions@ == b.questions@
    &&& a.game_questions@ == b.game_questions@
    &&& a.picks@ == b.picks@
}

pub open spec fn same_except_games(a: GameStore, b: GameStore) -> bool {
    &&& a.rounds@ == b.rounds@
    &&& a.users@ == b.users@
    &&& a.questions@ == b.questions@
    &&& a.game_questions@ == b.game_questions@
    &&& a.picks@ == b.picks@
}

pub open spec fn game_at(s: GameStore, g: i32) -> bool {
    1 <= g <= s.games@.len()
}

/// Whether `token` is the owner credential that game `g` was created with.
pub open spec fn creator_is(s: GameStore, g: i32, token: Seq<char>) -> bool {
    game_at(s, g) && (s.games@[g - 1].creator matches Some(c) && c@ == token)
}

/// What `lock_round` does: an owner locks the open round of the claim's game.
pub open spec fn lock_round_post(
    old: GameStore,
    new: GameStore,
    claim: PrivateClaim,
    r: Result<(), Error>,
) -> bool {
    let k = first_open_from(old.rounds@, claim.game_id, 0);
    if claim.role != Role::Owner {
        r == Err::<(), Error>(Error::Forbidden) && new == old
    } else if k < 0 {
        (r matches Err(Error::NotFound(_))) && new == old
    } else {
        &&& r is Ok
        &&& new.rounds@ == old.rounds@.update(k, locked_round(old.rounds@[k]))
        &&& same_except_rounds(old, new)
    }
}

/// What `save_picks` does: a player records one pick per answer in the open round of
/// the claim's game, once, after every check has passed.
pub open spec fn save_picks_post(
    old: GameStore,
    new: GameStore,
    claim: PrivateClaim,
    params: SavePicksParams,
    r: Result<(), Error>,
) -> bool {
    let g = claim.game_id;
    let k = first_open_from(old.rounds@, g, 0);
    if claim.role != Role::Player {
        r == Err::<(), Error>(Error::Forbidden) && new == old
    } else if k < 0 {
        (r matches Err(Error::NotFound(_))) && new == old
    } else if has_picked(old.picks@, old.rounds@[k].id, claim.id) {
        &&& r matches Err(Error::BadRequest(m))
        &&& m@ == "User has already chosen picks for this round"@
        &&& new == old
    } else if selection_error(game_question_ids(old.game_questions@, g), params.answers@) is Some {
        &&& r matches Err(Error::BadRequest(m))
        &&& Some(m@) == selection_error(game_question_ids(old.game_questions@, g), params.answers@)
        &&& new == old
    } else if old.picks@.len() + params.answers@.len() > MAX_RECORDS {
        (r matches Err(Error::InternalServerError(_))) && new == old
    } else {
        &&& r is Ok
        &&& new.picks@ == old.picks@ + new_picks(
            old.picks@.len() as int,
            claim.id,
            old.rounds@[k].id,
            params.answers@,
        )
        &&& new.games@ == old.games@
        &&& new.rounds@ == old.rounds@
        &&& new.users@ == old.users@
        &&& new.questions@ == old.questions@
        &&& new.game_questions@ == old.game_questions@
    }
}

/// What `score_round` does: an owner scores the round of the claim's game that awaits
/// scoring, adding each user's tally to their score, then finishes the round.
pub open spec fn score_round_post(
    old: GameStore,
    new: GameStore,
    claim: PrivateClaim,
    params: Params,
    r: Result<(), Error>,
) -> bool {
    let k = first_pending_from(old.rounds@, claim.game_id, 0);
    if claim.role != Role::Owner {
        r == Err::<(), Error>(Error::Forbidden) && new == old
    } else if k < 0 {
        (r matches Err(Error::NotFound(_))) && new == old
    } else if score_overflows(old.users@, old.picks@, params.answers@, old.rounds@[k].id) {
        (r matches Err(Error::InternalServerError(_))) && new == old
    } else {
        &&& r is Ok
        &&& new.rounds@ == old.rounds@.update(k, finished_round(old.rounds@[k]))
        &&& new.users@.len() == old.users@.len()
        &&& forall|u: int|
            0 <= u < old.users@.len() ==> #[trigger] new.users@[u] == scored_user(
                old.users@[u],
                tally(old.picks@, params.answers@, old.rounds@[k].id, old.users@[u].id) as int,
            )
        &&& new.games@ == old.games@
        &&& new.questions@ == old.questions@
        &&& new.game_questions@ == old.game_questions@
        &&& new.picks@ == old.picks@
    }
}

/// The round that `create_round` adds for `req` in game `g`.
pub open spec fn requested_round(id: int, g: i32, req: CreateRoundRequest) -> Round {
    Round {
        id: id as i32,
        player_one: req.player_one,
        player_two: req.player_two,
        game_id: g,
        locked: false,
        finished: false,
    }
}

/// What `create_round` does: the game's owner, holding the very token the game was
/// created with, opens a new round with two valid player labels.
pub open spec fn create_round_post(
    old: GameStore,
    new: GameStore,
    claim: PrivateClaim,
    token: Seq<char>,
    req: CreateRoundRequest,
    r: Result<Round, Error>,
) -> bool {
    let errs = round_request_errors(req.player_one@, req.player_two@);
    if errs.len() > 0 {
        &&& r matches Err(Error::ValidationError(list))
        &&& list@.map_values(|s: String| s@) == errs
        &&& new == old
    } else if claim.role != Role::Owner || !creator_is(old, claim.game_id, token) {
        r == Err::<Round, Error>(Error::Forbidden) && new == old
    } else if old.rounds@.len() >= MAX_RECORDS {
        (r matches Err(Error::InternalServerError(_))) && new == old
    } else {
        let round = requested_round(old.rounds@.len() as int + 1, claim.game_id, req);
        &&& r == Ok::<Round, Error>(round)
        &&& new.rounds@ == old.rounds@.push(round)
        &&& same_except_rounds(old, new)
    }
}

/// The search for a round awaiting scoring finds one exactly when there is one.
pub proof fn lemma_first_pending(rounds: Seq<Round>, g: i32, j: int)
    requires
        0 <= j,
    ensures
        first_pending_from(rounds, g, j) == -1 || (j <= first_pending_from(rounds, g, j)
            && pending_in(rounds, g, first_pending_from(rounds, g, j))),
        first_pending_from(rounds, g, j) == -1 <==> forall|k: int|
            j <= k < rounds.len() ==> !#[trigger] pending_in(rounds, g, k),
    decreases rounds.len() - j,
{
    if j < rounds.len() && !pending_in(rounds, g, j) {
        lemma_first_pending(rounds, g, j + 1);
    }
}

pub open spec fn question_known(s: GameStore, q: i32) -> bool {
    1 <= q <= s.questions@.len()
}

/// The position of the first game at or after `k` whose slug is `slug`; -1 where
/// there is none.
pub open spec fn game_with_slug_from(games: Seq<Game>, slug: Seq<char>, k: int) -> int
    decreases games.len() - k,
{
    if k < 0 || k >= games.len() {
        -1
    } else if games[k].slug matches Some(s) && s@ == slug {
        k
    } else {
        game_with_slug_from(games, slug, k + 1)
    }
}

pub open spec fn name_taken(users: Seq<User>, g: i32, name: Seq<char>) -> bool {
    exists|j: int| 0 <= j < users.len() && #[trigger] users[j].game_id == g && users[j].user_name@ == name
}

/// The players of game `g` as others see them, in the order they joined.
pub open spec fn players_of(users: Seq<User>, g: i32) -> Seq<UserDetails>
    decreases users.len(),
{
    if users.len() == 0 {
        seq![]
    } else if users.last().game_id == g {
        players_of(users.drop_last(), g).push(details_of(users.last()))
    } else {
        players_of(users.drop_last(), g)
    }
}

/// The associations that attach `qids` to game `g`, numbered on from `start`.
pub open spec fn attached_questions(start: int, g: i32, qids: Seq<i32>) -> Seq<GameQuestion> {
    Seq::new(
        qids.len(),
        |j: int| GameQuestion { id: (start + j + 1) as i32, game_id: g, question_id: qids[j] },
    )
}

/// What `create_game` does: a game with a fresh slug, attached to catalog questions.
pub open spec fn create_game_post(
    old: GameStore,
    new: GameStore,
    req: CreateGameRequest,
    r: Result<Game, Error>,
) -> bool {
    if exists|i: int|
        0 <= i < req.question_ids@.len() && !question_known(old, #[trigger] req.question_ids@[i]) {
        (r matches Err(Error::BadRequest(_))) && new == old
    } else if old.games@.len() >= MAX_RECORDS || old.game_questions@.len()
        + req.question_ids@.len() > MAX_RECORDS {
        (r matches Err(Error::InternalServerError(_))) && new == old
    } else {
        &&& r matches Ok(game)
        &&& game.id == old.games@.len() + 1
        &&& game.creator is None
        &&& game.slug matches Some(slug) && is_slug_for(game.id as nat, slug@)
        &&& new.games@ == old.games@.push(game)
        &&& new.game_questions@ == old.game_questions@ + attached_questions(
            old.game_questions@.len() as int,
            game.id,
            req.question_ids@,
        )
        &&& new.rounds@ == old.rounds@
        &&& new.users@ == old.users@
        &&& new.questions@ == old.questions@
        &&& new.picks@ == old.picks@
    }
}

/// What `join` does: a new player with a name not yet taken in the game of the slug.
pub open spec fn join_post(old: GameStore, new: GameStore, req: JoinRequest, r: Result<User, Error>) -> bool {
    let errs = join_errors(req.name@, req.slug@);
    let k = game_with_slug_from(old.games@, req.slug@, 0);
    if errs.len() > 0 {
        &&& r matches Err(Error::ValidationError(list))
        &&& list@.map_values(|s: String| s@) == errs
        &&& new == old
    } else if k < 0 {
        (r matches Err(Error::NotFound(_))) && new == old
    } else if name_taken(old.users@, old.games@[k].id, req.name@) {
        &&& r matches Err(Error::UnprocessableEntity(m))
        &&& m@ == "Username is taken"@
        &&& new == old
    } else if old.users@.len() >= MAX_RECORDS {
        (r matches Err(Error::InternalServerError(_))) && new == old
    } else {
        let user = User {
            id: (old.users@.len() + 1) as i32,
            user_name: req.name,
            game_id: old.games@[k].id,
            session_id: None,
            score: 0,
        };
        &&& r == Ok::<User, Error>(user)
        &&& new.users@ == old.users@.push(user)
        &&& new.games@ == old.games@
        &&& new.rounds@ == old.rounds@
        &&& new.questions@ == old.questions@
        &&& new.game_questions@ == old.game_questions@
        &&& new.picks@ == old.picks@
    }
}

/// Under the lifecycle discipline every game has at most one open round, and, apart
/// from it, at most one locked round that is not finished.
pub proof fn lemma_one_open_one_pending(rounds: Seq<Round>)
    requires
        rounds_disciplined(rounds),
    ensures
        at_most_one_open(rounds),
        at_most_one_pending(rounds),
{
    assert forall|g: i32, a: int, b: int|
        #![trigger open_in(rounds, g, a), open_in(rounds, g, b)]
        open_in(rounds, g, a) && open_in(rounds, g, b) implies a == b by {
        assert(unfinished_in(rounds, g, a) && unfinished_in(rounds, g, b));
    }
    assert forall|g: i32, a: int, b: int|
        #![trigger pending_in(rounds, g, a), pending_in(rounds, g, b)]
        pending_in(rounds, g, a) && pending_in(rounds, g, b) implies a == b by {
        assert(unfinished_in(rounds, g, a) && unfinished_in(rounds, g, b));
    }
}

/// Once a player's picks for the open round are stored, a second submission by the
/// same player for that round fails as a bad request, whatever it holds, and changes
/// nothing.
pub proof fn lemma_second_submission_rejected(
    s0: GameStore,
    s1: GameStore,
    s2: GameStore,
    claim: PrivateClaim,
    first: SavePicksParams,
    second: SavePicksParams,
    r: Result<(), Error>,
)
    requires
        save_picks_post(s0, s1, claim, first, Ok(())),
        first.answers@.len() > 0,
        save_picks_post(s1, s2, claim, second, r),
    ensures
        r matches Err(Error::BadRequest(_)),
        s2 == s1,
{
    let k = first_open_from(s0.rounds@, claim.game_id, 0);
    let round_id = s0.rounds@[k].id;
    let j = s0.picks@.len() as int;
    let added = new_picks(j, claim.id, round_id, first.answers@);
    assert(s1.picks@[j] == added[0]);
    assert(s1.picks@[j].round_id == round_id && s1.picks@[j].user_id == claim.id);
    assert(has_picked(s1.picks@, round_id, claim.id));
}

/// Scoring a round finishes it for good: scoring the same game again right after a
/// successful scoring finds no round awaiting scoring, fails as not found, and changes
/// nothing.
pub proof fn lemma_scoring_is_single_shot(
    s0: GameStore,
    s1: GameStore,
    s2: GameStore,
    claim: PrivateClaim,
    first: Params,
    second: Params,
    r: Result<(), Error>,
)
    requires
        rounds_disciplined(s0.rounds@),
        score_round_post(s0, s1, claim, first, Ok(())),
        score_round_post(s1, s2, claim, second, r),
    ensures
        r matches Err(Error::NotFound(_)),
        s2 == s1,
{
    let g = claim.game_id;
    let k = first_pending_from(s0.rounds@, g, 0);
    lemma_first_pending(s0.rounds@, g, 0);
    lemma_first_pending(s1.rounds@, g, 0);
    assert forall|m: int| 0 <= m < s1.rounds@.len() implies !#[trigger] pending_in(
        s1.rounds@,
        g,
        m,
    ) by {
        if m != k && pending_in(s1.rounds@, g, m) {
            assert(s1.rounds@[m] == s0.rounds@[m]);
            assert(unfinished_in(s0.rounds@, g, m) && unfinished_in(s0.rounds@, g, k));
        }
    }
}

fn not_found() -> (r: Error)
    ensures
        r is NotFound,
{
    Error::NotFound(String::from_str("Record not found"))
}

fn store_full() -> (r: Error)
    ensures
        r is InternalServerError,
{
    Error::InternalServerError(String::from_str("Record store is full"))
}

impl GameStore {
    /// Ids are positions plus one, and no kind of record outgrows the id space.
    pub open spec fn wf(&self) -> bool {
        &&& self.games@.len() <= MAX_RECORDS
        &&& self.rounds@.len() <= MAX_RECORDS
        &&& self.users@.len() <= MAX_RECORDS
        &&& self.questions@.len() <= MAX_RECORDS
        &&& self.game_questions@.len() <= MAX_RECORDS
        &&& self.picks@.len() <= MAX_RECORDS
        &&& forall|k: int| 0 <= k < self.games@.len() ==> #[trigger] self.games@[k].id == k + 1
        &&& forall|k: int| 0 <= k < self.rounds@.len() ==> #[trigger] self.rounds@[k].id == k + 1
        &&& forall|k: int| 0 <= k < self.users@.len() ==> #[trigger] self.users@[k].id == k + 1
        &&& forall|k: int|
            0 <= k < self.questions@.len() ==> #[trigger] self.questions@[k].id == k + 1
        &&& forall|k: int|
            0 <= k < self.game_questions@.len() ==> #[trigger] self.game_questions@[k].id == k + 1
        &&& forall|k: int| 0 <= k < self.picks@.len() ==> #[trigger] self.picks@[k].id == k + 1
    }

    /// An empty store.
    pub fn new() -> (r: GameStore)
        ensures
            r.wf(),
            rounds_disciplined(r.rounds@),
            r.games@.len() == 0,
            r.rounds@.len() == 0,
            r.users@.len() == 0,
            r.questions@.len() == 0,
            r.game_questions@.len() == 0,
            r.picks@.len() == 0,
    {
        GameStore {
            games: Vec::new(),
            rounds: Vec::new(),
            users: Vec::new(),
            questions: Vec::new(),
            game_questions: Vec::new(),
            picks: Vec::new(),
        }
    }

    /// The position of the open round of game `g`, if any.
    pub fn find_open_round(&self, g: i32) -> (r: Option<usize>)
        ensures
            match r {
                Some(k) => k == first_open_from(self.rounds@, g, 0) && k < self.rounds@.len(),
                None => first_open_from(self.rounds@, g, 0) == -1,
            },
    {
        let mut i: usize = 0;
        while i < self.rounds.len()
            invariant
                i <= self.rounds@.len(),
                first_open_from(self.rounds@, g, 0) == first_open_from(self.rounds@, g, i as int),
            decreases self.rounds.len() - i,
        {
            let r = &self.rounds[i];
            if r.game_id == g && !r.locked {
                return Some(i);
            }
            i = i + 1;
        }
        None
    }

    /// The position of the round of game `g` that awaits scoring, if any.
    pub fn find_pending_round(&self, g: i32) -> (r: Option<usize>)
        ensures
            match r {
                Some(k) => k == first_pending_from(self.rounds@, g, 0) && k < self.rounds@.len(),
                None => first_pending_from(self.rounds@, g, 0) == -1,
            },
    {
        let mut i: usize = 0;
        while i < self.rounds.len()
            invariant
                i <= self.rounds@.len(),
                first_pending_from(self.rounds@, g, 0) == first_pending_from(
                    self.rounds@,
                    g,
                    i as int,
                ),
            decreases self.rounds.len() - i,
        {
            let r = &self.rounds[i];
            if r.game_id == g && r.locked && !r.finished {
                return Some(i);
            }
            i = i + 1;
        }
        None
    }

    /// Whether `user_id` has recorded a pick in `round_id`.
    pub fn user_has_picked(&self, round_id: i32, user_id: i32) -> (r: bool)
        ensures
            r == has_picked(self.picks@, round_id, user_id),
    {
        let mut i: usize = 0;
        while i < self.picks.len()
            invariant
                i <= self.picks@.len(),
                forall|j: int|
                    0 <= j < i ==> !(#[trigger] self.picks@[j].round_id == round_id
                        && self.picks@[j].user_id == user_id),
            decreases self.picks.len() - i,
        {
            let p = &self.picks[i];
            if p.round_id == round_id && p.user_id == user_id {
                return true;
            }
            i = i + 1;
        }
        false
    }

    /// The question ids attached to game `g`, in the order they were attached.
    pub fn question_ids_for_game(&self, g: i32) -> (r: Vec<i32>)
        ensures
            r@ == game_question_ids(self.game_questions@, g),
    {
        let mut r: Vec<i32> = Vec::new();
        let mut i: usize = 0;
        while i < self.game_questions.len()
            invariant
                i <= self.game_questions@.len(),
                r@ == game_question_ids(self.game_questions@.subrange(0, i as int), g),
            decreases self.game_questions.len() - i,
        {
            proof {
                assert(self.game_questions@.subrange(0, i + 1).drop_last()
                    == self.game_questions@.subrange(0, i as int));
            }
            if self.game_questions[i].game_id == g {
                r.push(self.game_questions[i].question_id);
            }
            i = i + 1;
        }
        proof {
            assert(self.game_questions@.subrange(0, self.game_questions@.len() as int)
                == self.game_questions@);
        }
        r
    }

    /// Locks the open round of the claim's game; only its owner may.
    pub fn lock_round(&mut self, claim: &PrivateClaim) -> (r: Result<(), Error>)
        requires
            old(self).wf(),
        ensures
            final(self).wf(),
            lock_round_post(*old(self), *final(self), *claim, r),
            rounds_disciplined(old(self).rounds@) ==> rounds_disciplined(final(self).rounds@),
    {
        require_role(claim, Role::Owner)?;
        let k = match self.find_open_round(claim.game_id) {
            Some(k) => k,
            None => return Err(not_found()),
        };
        let ghost before = self.rounds@;
        self.rounds[k].locked = true;
        proof {
            assert(self.rounds@ == before.update(k as int, locked_round(before[k as int])));
            assert forall|g: i32, a: int|
                #[trigger] unfinished_in(self.rounds@, g, a) == unfinished_in(before, g, a) by {
                if 0 <= a < before.len() && a != k {
                    assert(self.rounds@[a] == before[a]);
                }
            }
        }
        Ok(())
    }

    fn insert_round(&mut self, new_round: NewRound) -> (r: Round)
        requires
            old(self).wf(),
            old(self).rounds@.len() < MAX_RECORDS,
        ensures
            final(self).wf(),
            r == (Round {
                id: (old(self).rounds@.len() + 1) as i32,
                player_one: new_round.player_one,
                player_two: new_round.player_two,
                game_id: new_round.game_id,
                locked: false,
                finished: false,
            }),
            final(self).rounds@ == old(self).rounds@.push(r),
            same_except_rounds(*old(self), *final(self)),
    {
        let id = (self.rounds.len() + 1) as i32;
        let stored = Round {
            id,
            player_one: new_round.player_one.clone(),
            player_two: new_round.player_two.clone(),
            game_id: new_round.game_id,
            locked: false,
            finished: false,
        };
        self.rounds.push(stored);
        Round {
            id,
            player_one: new_round.player_one,
            player_two: new_round.player_two,
            game_id: new_round.game_id,
            locked: false,
            finished: false,
        }
    }

    /// Opens a new round in the claim's game. Only the owner holding the token the game
    /// was created with may; an unknown game is reported as forbidden too.
    pub fn create_round(&mut self, claim: &PrivateClaim, token: &String, req: &CreateRoundRequest)
        -> (r: Result<Round, Error>)
        requires
            old(self).wf(),
        ensures
            final(self).wf(),
            create_round_post(*old(self), *final(self), *claim, token@, *req, r),
            rounds_disciplined(old(self).rounds@) && !has_unfinished_round(
                old(self).rounds@,
                claim.game_id,
            ) ==> rounds_disciplined(final(self).rounds@),
    {
        match req.validate() {
            Ok(_) => {},
            Err(e) => return Err(e),
        }
        if claim.role != Role::Owner {
            return Err(Error::Forbidden);
        }
        let g = claim.game_id;
        if g < 1 || g as usize > self.games.len() {
            return Err(Error::Forbidden);
        }
        let matches = match &self.games[(g - 1) as usize].creator {
            Some(c) => *c == *token,
            None => false,
        };
        if !matches {
            return Err(Error::Forbidden);
        }
        if self.rounds.len() >= MAX_RECORDS {
            return Err(store_full());
        }
        let ghost before = self.rounds@;
        let round = self.insert_round(
            NewRound {
                player_one: req.player_one.clone(),
                player_two: req.player_two.clone(),
                game_id: g,
            },
        );
        proof {
            if rounds_disciplined(before) && !has_unfinished_round(before, g) {
                let n = before.len() as int;
                assert forall|h: i32, a: int, b: int|
                    #![trigger unfinished_in(self.rounds@, h, a), unfinished_in(self.rounds@, h, b)]
                    unfinished_in(self.rounds@, h, a) && unfinished_in(
                        self.rounds@,
                        h,
                        b,
                    ) implies a == b by {
                    if a < n {
                        assert(self.rounds@[a] == before[a]);
                        assert(unfinished_in(before, h, a));
                    }
                    if b < n {
                        assert(self.rounds@[b] == before[b]);
                        assert(unfinished_in(before, h, b));
                    }
                }
                assert forall|a: int|
                    0 <= a < self.rounds@.len() && #[trigger] self.rounds@[a].finished implies
                    self.rounds@[a].locked by {
                    if a < n {
                        assert(self.rounds@[a] == before[a]);
                    }
                }
            }
        }
        Ok(round)
    }

    /// Records a player's answers for the open round of the claim's game. A player
    /// picks once per round, one answer for each of the game's questions; nothing is
    /// written unless every check passes.
    pub fn save_picks(&mut self, claim: &PrivateClaim, params: &SavePicksParams) -> (r: Result<
        (),
        Error,
    >)
        requires
            old(self).wf(),
        ensures
            final(self).wf(),
            save_picks_post(*old(self), *final(self), *claim, *params, r),
    {
        require_role(claim, Role::Player)?;
        let k = match self.find_open_round(claim.game_id) {
            Some(k) => k,
            None => return Err(not_found()),
        };
        let round_id = self.rounds[k].id;
        if self.user_has_picked(round_id, claim.id) {
            return Err(
                Error::BadRequest(String::from_str("User has already chosen picks for this round")),
            );
        }
        let question_ids = self.question_ids_for_game(claim.game_id);
        validate_selected_questions(&question_ids, params)?;
        if params.answers.len() > MAX_RECORDS - self.picks.len() {
            return Err(store_full());
        }
        let ghost before = self.picks@;
        let ghost added = new_picks(before.len() as int, claim.id, round_id, params.answers@);
        let mut i: usize = 0;
        while i < params.answers.len()
            invariant
                self.wf(),
                i <= params.answers@.len(),
                before.len() + params.answers@.len() <= MAX_RECORDS,
                added == new_picks(before.len() as int, claim.id, round_id, params.answers@),
                self.picks@ == before + added.subrange(0, i as int),
                self.games@ == old(self).games@,
                self.rounds@ == old(self).rounds@,
                self.users@ == old(self).users@,
                self.questions@ == old(self).questions@,
                self.game_questions@ == old(self).game_questions@,
            decreases params.answers.len() - i,
        {
            let answer = &params.answers[i];
            let pick = NewUserQuestion {
                user_id: claim.id,
                question_id: answer.id,
                round_id,
                answer: answer.value.clone(),
            };
            self.insert_pick(pick);
            proof {
                assert(added.subrange(0, i + 1) == added.subrange(0, i as int).push(added[i as int]));
            }
            i = i + 1;
        }
        proof {
            assert(added.subrange(0, added.len() as int) == added);
        }
        Ok(())
    }

    fn insert_pick(&mut self, pick: NewUserQuestion) -> (r: i32)
        requires
            old(self).wf(),
            old(self).picks@.len() < MAX_RECORDS,
        ensures
            final(self).wf(),
            r == old(self).picks@.len() + 1,
            final(self).picks@ == old(self).picks@.push(
                UserQuestion {
                    id: r,
                    user_id: pick.user_id,
                    question_id: pick.question_id,
                    round_id: pick.round_id,
                    answer: pick.answer,
                },
            ),
            final(self).games@ == old(self).games@,
            final(self).rounds@ == old(self).rounds@,
            final(self).users@ == old(self).users@,
            final(self).questions@ == old(self).questions@,
            final(self).game_questions@ == old(self).game_questions@,
    {
        let id = (self.picks.len() + 1) as i32;
        self.picks.push(
            UserQuestion {
                id,
                user_id: pick.user_id,
                question_id: pick.question_id,
                round_id: pick.round_id,
                answer: pick.answer,
            },
        );
        id
    }

    /// Scores the round of the claim's game that awaits scoring against the supplied
    /// correct answers, then finishes it. Only the owner may; a finished round cannot
    /// be scored again.
    pub fn score_round(&mut self, claim: &PrivateClaim, params: &Params) -> (r: Result<(), Error>)
        requires
            old(self).wf(),
        ensures
            final(self).wf(),
            score_round_post(*old(self), *final(self), *claim, *params, r),
            rounds_disciplined(old(self).rounds@) ==> rounds_disciplined(final(self).rounds@),
    {
        require_role(claim, Role::Owner)?;
        let k = match self.find_pending_round(claim.game_id) {
            Some(k) => k,
            None => return Err(not_found()),
        };
        let round_id = self.rounds[k].id;
        let mut tallies: Vec<u128> = Vec::new();
        let mut u: usize = 0;
        while u < self.users.len()
            invariant
                u <= self.users@.len(),
                tallies@.len() == u,
                forall|j: int|
                    0 <= j < u ==> #[trigger] tallies@[j] == tally(
                        self.picks@,
                        params.answers@,
                        round_id,
                        self.users@[j].id,
                    ),
                forall|j: int|
                    0 <= j < u ==> #[trigger] self.users@[j].score + tally(
                        self.picks@,
                        params.answers@,
                        round_id,
                        self.users@[j].id,
                    ) <= i32::MAX,
                self.wf(),
                *self == *old(self),
                claim.role == Role::Owner,
                k < self.rounds@.len(),
                k == first_pending_from(self.rounds@, claim.game_id, 0),
                round_id == self.rounds@[k as int].id,
            decreases self.users.len() - u,
        {
            let t = user_tally(&self.picks, &params.answers, round_id, self.users[u].id);
            let room: i64 = i32::MAX as i64 - self.users[u].score as i64;
            if t > room as u128 {
                assert(self.users@[u as int].score + tally(
                    self.picks@,
                    params.answers@,
                    round_id,
                    self.users@[u as int].id,
                ) > i32::MAX);
                return Err(Error::InternalServerError(String::from_str("Score out of range")));
            }
            tallies.push(t);
            u = u + 1;
        }
        let ghost before_users = self.users@;
        let mut u: usize = 0;
        while u < self.users.len()
            invariant
                self.wf(),
                u <= self.users@.len(),
                self.users@.len() == before_users.len(),
                tallies@.len() == before_users.len(),
                forall|j: int|
                    0 <= j < before_users.len() ==> #[trigger] tallies@[j] == tally(
                        self.picks@,
                        params.answers@,
                        round_id,
                        before_users[j].id,
                    ),
                forall|j: int|
                    0 <= j < before_users.len() ==> #[trigger] before_users[j].score + tally(
                        self.picks@,
                        params.answers@,
                        round_id,
                        before_users[j].id,
                    ) <= i32::MAX,
                forall|j: int|
                    0 <= j < u ==> #[trigger] self.users@[j] == scored_user(
                        before_users[j],
                        tallies@[j] as int,
                    ),
                forall|j: int| u <= j < before_users.len() ==> #[trigger] self.users@[j] == before_users[j],
                self.games@ == old(self).games@,
                self.rounds@ == old(self).rounds@,
                self.picks@ == old(self).picks@,
                self.questions@ == old(self).questions@,
                self.game_questions@ == old(self).game_questions@,
            decreases self.users.len() - u,
        {
            let t = tallies[u];
            let score = self.users[u].score;
            self.users[u].score = (score as i128 + t as i128) as i32;
            u = u + 1;
        }
        let ghost before_rounds = self.rounds@;
        proof {
            lemma_first_pending(before_rounds, claim.game_id, 0);
        }
        self.rounds[k].finished = true;
        proof {
            assert(self.rounds@ == before_rounds.update(k as int, finished_round(before_rounds[k as int])));
            if rounds_disciplined(before_rounds) {
                assert forall|h: i32, a: int|
                    #[trigger] unfinished_in(self.rounds@, h, a) implies unfinished_in(before_rounds, h, a) by {
                    if a != k {
                        assert(self.rounds@[a] == before_rounds[a]);
                    }
                }
                assert forall|a: int|
                    0 <= a < self.rounds@.len() && #[trigger] self.rounds@[a].finished implies
                    self.rounds@[a].locked by {
                    if a != k {
                        assert(self.rounds@[a] == before_rounds[a]);
                    }
                }
            }
        }
        Ok(())
    }

    /// Adds a question to the shared catalog.
    pub fn add_question(&mut self, body: String) -> (r: Result<QuestionDetails, Error>)
        requires
            old(self).wf(),
        ensures
            final(self).wf(),
            old(self).questions@.len() >= MAX_RECORDS ==> (r matches Err(
                Error::InternalServerError(_),
            )) && *final(self) == *old(self),
            old(self).questions@.len() < MAX_RECORDS ==> {
                let q = QuestionDetails { id: (old(self).questions@.len() + 1) as i32, body };
                &&& r == Ok::<QuestionDetails, Error>(q)
                &&& final(self).questions@ == old(self).questions@.push(q)
                &&& final(self).games@ == old(self).games@
                &&& final(self).rounds@ == old(self).rounds@
                &&& final(self).users@ == old(self).users@
                &&& final(self).game_questions@ == old(self).game_questions@
                &&& final(self).picks@ == old(self).picks@
            },
    {
        if self.questions.len() >= MAX_RECORDS {
            return Err(store_full());
        }
        let id = (self.questions.len() + 1) as i32;
        self.questions.push(QuestionDetails { id, body: body.clone() });
        Ok(QuestionDetails { id, body })
    }

    /// The whole question catalog.
    pub fn all_questions(&self) -> (r: Vec<QuestionDetails>)
        ensures
            r@ == self.questions@,
    {
        let mut r: Vec<QuestionDetails> = Vec::new();
        let mut i: usize = 0;
        while i < self.questions.len()
            invariant
                i <= self.questions@.len(),
                r@ == self.questions@.subrange(0, i as int),
            decreases self.questions.len() - i,
        {
            let q = &self.questions[i];
            r.push(QuestionDetails { id: q.id, body: q.body.clone() });
            proof {
                assert(self.questions@.subrange(0, i + 1) == self.questions@.subrange(0, i as int).push(self.questions@[i as int]));
            }
            i = i + 1;
        }
        proof {
            assert(self.questions@.subrange(0, self.questions@.len() as int) == self.questions@);
        }
        r
    }

    fn attach_question(&mut self, attachment: NewGameQuestion)
        requires
            old(self).wf(),
            old(self).game_questions@.len() < MAX_RECORDS,
        ensures
            final(self).wf(),
            final(self).game_questions@ == old(self).game_questions@.push(
                GameQuestion {
                    id: (old(self).game_questions@.len() + 1) as i32,
                    game_id: attachment.game_id,
                    question_id: attachment.question_id,
                },
            ),
            final(self).games@ == old(self).games@,
            final(self).rounds@ == old(self).rounds@,
            final(self).users@ == old(self).users@,
            final(self).questions@ == old(self).questions@,
            final(self).picks@ == old(self).picks@,
    {
        let id = (self.game_questions.len() + 1) as i32;
        self.game_questions.push(
            GameQuestion { id, game_id: attachment.game_id, question_id: attachment.question_id },
        );
    }

    /// Creates a game with a fresh public slug and attaches the chosen catalog
    /// questions, all or nothing. Its owner credential is set afterwards.
    pub fn create_game(&mut self, req: &CreateGameRequest) -> (r: Result<Game, Error>)
        requires
            old(self).wf(),
        ensures
            final(self).wf(),
            create_game_post(*old(self), *final(self), *req, r),
    {
        let mut i: usize = 0;
        while i < req.question_ids.len()
            invariant
                i <= req.question_ids@.len(),
                self.wf(),
                *self == *old(self),
                forall|j: int| 0 <= j < i ==> question_known(*self, #[trigger] req.question_ids@[j]),
            decreases req.question_ids.len() - i,
        {
            let q = req.question_ids[i];
            if q < 1 || q as usize > self.questions.len() {
                let mut m = String::from_str("Invalid question id: ");
                m.append(crate::text::signed_decimal_string(q as i64).as_str());
                return Err(Error::BadRequest(m));
            }
            i = i + 1;
        }
        if self.games.len() >= MAX_RECORDS || req.question_ids.len() > MAX_RECORDS
            - self.game_questions.len() {
            return Err(store_full());
        }
        let id = (self.games.len() + 1) as i32;
        let slug = create_slug_from_id(id);
        self.games.push(Game { id, slug: Some(slug.clone()), creator: None });
        let ghost before = self.game_questions@;
        let ghost added = attached_questions(before.len() as int, id, req.question_ids@);
        let mut i: usize = 0;
        while i < req.question_ids.len()
            invariant
                self.wf(),
                i <= req.question_ids@.len(),
                before.len() + req.question_ids@.len() <= MAX_RECORDS,
                added == attached_questions(before.len() as int, id, req.question_ids@),
                self.game_questions@ == before + added.subrange(0, i as int),
                self.games@ == old(self).games@.push(Game { id, slug: Some(slug), creator: None }),
                self.rounds@ == old(self).rounds@,
                self.users@ == old(self).users@,
                self.questions@ == old(self).questions@,
                self.picks@ == old(self).picks@,
            decreases req.question_ids.len() - i,
        {
            self.attach_question(NewGameQuestion { game_id: id, question_id: req.question_ids[i] });
            proof {
                assert(added.subrange(0, i + 1) == added.subrange(0, i as int).push(added[i as int]));
            }
            i = i + 1;
        }
        proof {
            assert(added.subrange(0, added.len() as int) == added);
        }
        Ok(Game { id, slug: Some(slug), creator: None })
    }

    /// Records the owner credential of game `game_id`.
    pub fn set_creator(&mut self, game_id: i32, token: String) -> (r: Result<(), Error>)
        requires
            old(self).wf(),
        ensures
            final(self).wf(),
            !game_at(*old(self), game_id) ==> (r matches Err(Error::NotFound(_))) && *final(self)
                == *old(self),
            game_at(*old(self), game_id) ==> {
                &&& r is Ok
                &&& final(self).games@ == old(self).games@.update(
                    game_id - 1,
                    Game {
                        id: old(self).games@[game_id - 1].id,
                        slug: old(self).games@[game_id - 1].slug,
                        creator: Some(token),
                    },
                )
                &&& same_except_games(*old(self), *final(self))
            },
    {
        if game_id < 1 || game_id as usize > self.games.len() {
            return Err(not_found());
        }
        self.games[(game_id - 1) as usize].creator = Some(token);
        Ok(())
    }

    /// The position of the first game whose slug is `slug`.
    pub fn find_by_slug(&self, slug: &String) -> (r: Option<usize>)
        ensures
            match r {
                Some(k) => k == game_with_slug_from(self.games@, slug@, 0) && k < self.games@.len(),
                None => game_with_slug_from(self.games@, slug@, 0) == -1,
            },
    {
        let mut i: usize = 0;
        while i < self.games.len()
            invariant
                i <= self.games@.len(),
                game_with_slug_from(self.games@, slug@, 0) == game_with_slug_from(self.games@, slug@, i as int),
            decreases self.games.len() - i,
        {
            let found = match &self.games[i].slug {
                Some(s) => *s == *slug,
                None => false,
            };
            if found {
                return Some(i);
            }
            i = i + 1;
        }
        None
    }

    /// Whether a player of game `g` already goes by `name`.
    pub fn find_by_game_id_and_name(&self, g: i32, name: &String) -> (r: bool)
        ensures
            r == name_taken(self.users@, g, name@),
    {
        let mut i: usize = 0;
        while i < self.users.len()
            invariant
                i <= self.users@.len(),
                forall|j: int| 0 <= j < i ==> !(#[trigger] self.users@[j].game_id == g && self.users@[j].user_name@ == name@),
            decreases self.users.len() - i,
        {
            let u = &self.users[i];
            if u.game_id == g && u.user_name == *name {
                return true;
            }
            i = i + 1;
        }
        false
    }

    /// Adds a player to the game with the requested slug.
    pub fn join(&mut self, req: &JoinRequest) -> (r: Result<User, Error>)
        requires
            old(self).wf(),
        ensures
            final(self).wf(),
            join_post(*old(self), *final(self), *req, r),
    {
        match req.validate() {
            Ok(_) => {},
            Err(e) => return Err(e),
        }
        let k = match self.find_by_slug(&req.slug) {
            Some(k) => k,
            None => return Err(not_found()),
        };
        let g = self.games[k].id;
        if self.find_by_game_id_and_name(g, &req.name) {
            return Err(Error::UnprocessableEntity(String::from_str("Username is taken")));
        }
        if self.users.len() >= MAX_RECORDS {
            return Err(store_full());
        }
        let new_user = NewUser { user_name: req.name.clone(), game_id: g };
        let id = (self.users.len() + 1) as i32;
        self.users.push(
            User {
                id,
                user_name: new_user.user_name.clone(),
                game_id: new_user.game_id,
                session_id: None,
                score: 0,
            },
        );
        Ok(User { id, user_name: new_user.user_name, game_id: new_user.game_id, session_id: None, score: 0 })
    }

    /// Records the session token of user `user_id`.
    pub fn set_session(&mut self, user_id: i32, token: String) -> (r: Result<(), Error>)
        requires
            old(self).wf(),
        ensures
            final(self).wf(),
            !(1 <= user_id <= old(self).users@.len()) ==> (r matches Err(Error::NotFound(_)))
                && *final(self) == *old(self),
            1 <= user_id <= old(self).users@.len() ==> {
                let u = old(self).users@[user_id - 1];
                &&& r is Ok
                &&& final(self).users@ == old(self).users@.update(
                    user_id - 1,
                    User {
                        id: u.id,
                        user_name: u.user_name,
                        game_id: u.game_id,
                        session_id: Some(token),
                        score: u.score,
                    },
                )
                &&& final(self).games@ == old(self).games@
                &&& final(self).rounds@ == old(self).rounds@
                &&& final(self).questions@ == old(self).questions@
                &&& final(self).game_questions@ == old(self).game_questions@
                &&& final(self).picks@ == old(self).picks@
            },
    {
        if user_id < 1 || user_id as usize > self.users.len() {
            return Err(not_found());
        }
        self.users[(user_id - 1) as usize].session_id = Some(token);
        Ok(())
    }

    /// The players of game `g`, in the order they joined.
    pub fn find_all_by_game_id(&self, g: i32) -> (r: Vec<UserDetails>)
        ensures
            r@ == players_of(self.users@, g),
    {
        let mut r: Vec<UserDetails> = Vec::new();
        let mut i: usize = 0;
        while i < self.users.len()
            invariant
                i <= self.users@.len(),
                r@ == players_of(self.users@.subrange(0, i as int), g),
            decreases self.users.len() - i,
        {
            proof {
                assert(self.users@.subrange(0, i + 1).drop_last() == self.users@.subrange(0, i as int));
            }
            if self.users[i].game_id == g {
                r.push(self.users[i].details());
            }
            i = i + 1;
        }
        proof {
            assert(self.users@.subrange(0, self.users@.len() as int) == self.users@);
        }
        r
    }
}

} // verus!
