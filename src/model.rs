use vstd::prelude::*;

verus! {

/// A game: its public slug, and the owner token that proves who may manage rounds.
#[derive(Clone, Debug, PartialEq)]
pub struct Game {
    pub id: i32,
    pub slug: Option<String>,
    pub creator: Option<String>,
}

/// One scored unit of play in a game: open, then locked, then finished.
#[derive(Clone, Debug, PartialEq)]
pub struct Round {
    pub id: i32,
    pub player_one: String,
    pub player_two: String,
    pub game_id: i32,
    pub locked: bool,
    pub finished: bool,
}

/// The fields of a round that its creator chooses.
#[derive(Clone, Debug, PartialEq)]
pub struct NewRound {
    pub player_one: String,
    pub player_two: String,
    pub game_id: i32,
}

/// A player of one game, with the score that scoring accumulates.
#[derive(Clone, Debug, PartialEq)]
pub struct User {
    pub id: i32,
    pub user_name: String,
    pub game_id: i32,
    pub session_id: Option<String>,
    pub score: i32,
}

/// The fields of a user that joining chooses.
#[derive(Clone, Debug, PartialEq)]
pub struct NewUser {
    pub user_name: String,
    pub game_id: i32,
}

/// What other players may see of a user.
#[derive(Clone, Debug, PartialEq)]
pub struct UserDetails {
    pub id: i32,
    pub user_name: String,
    pub game_id: i32,
    pub score: i32,
}

/// A question of the shared catalog.
#[derive(Clone, Debug, PartialEq)]
pub struct QuestionDetails {
    pub id: i32,
    pub body: String,
}

/// The association of a question with a game.
#[derive(Clone, Debug, PartialEq)]
pub struct GameQuestion {
    pub id: i32,
    pub game_id: i32,
    pub question_id: i32,
}

#[derive(Clone, Debug, PartialEq)]
pub struct NewGameQuestion {
    pub game_id: i32,
    pub question_id: i32,
}

/// A pick: one user's answer to one question within one round.
#[derive(Clone, Debug, PartialEq)]
pub struct UserQuestion {
    pub id: i32,
    pub user_id: i32,
    pub question_id: i32,
    pub round_id: i32,
    pub answer: String,
}

#[derive(Clone, Debug, PartialEq)]
pub struct NewUserQuestion {
    pub user_id: i32,
    pub question_id: i32,
    pub round_id: i32,
    pub answer: String,
}

impl Round {
    pub open spec fn is_open(&self) -> bool {
        !self.locked
    }

    /// Locked and waiting to be scored.
    pub open spec fn is_pending(&self) -> bool {
        self.locked && !self.finished
    }
}

pub open spec fn details_of(u: User) -> UserDetails {
    UserDetails { id: u.id, user_name: u.user_name, game_id: u.game_id, score: u.score }
}

impl User {
    /// What other players may see of this user.
    pub fn details(&self) -> (r: UserDetails)
        ensures
            r == details_of(*self),
    {
        UserDetails {
            id: self.id,
            user_name: self.user_name.clone(),
            game_id: self.game_id,
            score: self.score,
        }
    }
}

} // verus!
