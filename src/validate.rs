use vstd::prelude::*;
use vstd::string::{StrSliceExecFns, StringExecFns};

use crate::errors::Error;

verus! {

/// The questions chosen for a new game.
#[derive(Clone, Debug, PartialEq)]
pub struct CreateGameRequest {
    pub question_ids: Vec<i32>,
}

/// A request to join the game with the given slug under a display name.
#[derive(Clone, Debug, PartialEq)]
pub struct JoinRequest {
    pub name: String,
    pub slug: String,
}

/// The two player labels of a new round.
#[derive(Clone, Debug, PartialEq)]
pub struct CreateRoundRequest {
    pub player_one: String,
    pub player_two: String,
}

/// The shortest display name a player may join with.
pub const MIN_NAME_LEN: usize = 3;

/// The length of a game slug.
pub const SLUG_FIELD_LEN: usize = 6;

pub open spec fn when(cond: bool, message: Seq<char>) -> Seq<Seq<char>> {
    if cond {
        seq![message]
    } else {
        seq![]
    }
}

/// The field errors of a join request, in field order.
pub open spec fn join_errors(name: Seq<char>, slug: Seq<char>) -> Seq<Seq<char>> {
    when(name.len() < MIN_NAME_LEN, "name is required"@) + when(
        slug.len() != SLUG_FIELD_LEN,
        "slug is required"@,
    )
}

/// The field errors of a round request, in field order.
pub open spec fn round_request_errors(one: Seq<char>, two: Seq<char>) -> Seq<Seq<char>> {
    when(one.len() < 1, "player_one is required"@) + when(two.len() < 1, "player_two is required"@)
}

/// The outcome of validating a request whose field errors are `errors`.
pub open spec fn validation_result(r: Result<(), Error>, errors: Seq<Seq<char>>) -> bool {
    if errors.len() == 0 {
        r is Ok
    } else {
        r matches Err(Error::ValidationError(list)) && list@.map_values(|s: String| s@) == errors
    }
}

fn push_if(list: &mut Vec<String>, cond: bool, message: &str)
    ensures
        final(list)@.map_values(|s: String| s@) == old(list)@.map_values(|s: String| s@) + when(
            cond,
            message@,
        ),
{
    let ghost before = list@;
    if cond {
        list.push(String::from_str(message));
        assert(list@.map_values(|s: String| s@) =~= before.map_values(|s: String| s@) + when(
            cond,
            message@,
        ));
    } else {
        assert(list@.map_values(|s: String| s@) =~= before.map_values(|s: String| s@) + when(
            cond,
            message@,
        ));
    }
}

fn finish(list: Vec<String>) -> (r: Result<(), Error>)
    ensures
        validation_result(r, list@.map_values(|s: String| s@)),
{
    if list.len() == 0 {
        Ok(())
    } else {
        Err(Error::ValidationError(list))
    }
}

impl JoinRequest {
    /// Checks the name's and the slug's length, counted in characters.
    pub fn validate(&self) -> (r: Result<(), Error>)
        ensures
            validation_result(r, join_errors(self.name@, self.slug@)),
    {
        let mut list: Vec<String> = Vec::new();
        push_if(&mut list, self.name.as_str().unicode_len() < MIN_NAME_LEN, "name is required");
        push_if(
            &mut list,
            self.slug.as_str().unicode_len() != SLUG_FIELD_LEN,
            "slug is required",
        );
        assert(list@.map_values(|s: String| s@) =~= join_errors(self.name@, self.slug@));
        finish(list)
    }
}

impl CreateRoundRequest {
    /// Checks that both player labels are non-empty.
    pub fn validate(&self) -> (r: Result<(), Error>)
        ensures
            validation_result(r, round_request_errors(self.player_one@, self.player_two@)),
    {
        let mut list: Vec<String> = Vec::new();
        push_if(&mut list, self.player_one.as_str().unicode_len() < 1, "player_one is required");
        push_if(&mut list, self.player_two.as_str().unicode_len() < 1, "player_two is required");
        assert(list@.map_values(|s: String| s@) =~= round_request_errors(
            self.player_one@,
            self.player_two@,
        ));
        finish(list)
    }
}

} // verus!
