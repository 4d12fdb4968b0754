use vstd::prelude::*;

use crate::errors::Error;

verus! {

/// How long a freshly issued claim stays valid, in seconds.
pub const TOKEN_LIFETIME_SECS: i64 = 10800;

/// The two kinds of participant: the one who manages a game, and those who play it.
#[derive(Clone, Copy, Debug, PartialEq, Eq, Structural)]
pub enum Role {
    Player,
    Owner,
}

/// The identity carried by a token: who the bearer is, in which game, in which role,
/// and until when (seconds since the Unix epoch).
#[derive(Clone, Debug, PartialEq)]
pub struct PrivateClaim {
    pub id: i32,
    pub user_name: String,
    pub game_id: i32,
    pub role: Role,
    pub exp: i64,
}

/// The expiry of a claim issued at `now`, saturating at the largest timestamp.
pub open spec fn expiry_after(now: i64) -> i64 {
    if now <= i64::MAX - TOKEN_LIFETIME_SECS {
        (now + TOKEN_LIFETIME_SECS) as i64
    } else {
        i64::MAX
    }
}

impl PrivateClaim {
    /// A claim issued at `now` (seconds since the Unix epoch).
    pub fn issued_at(id: i32, user_name: String, game_id: i32, role: Role, now: i64) -> (r:
        PrivateClaim)
        ensures
            r.id == id,
            r.user_name@ == user_name@,
            r.game_id == game_id,
            r.role == role,
            r.exp() == expiry_after(now),
    {
        let exp = if now <= i64::MAX - TOKEN_LIFETIME_SECS {
            now + TOKEN_LIFETIME_SECS
        } else {
            i64::MAX
        };
        PrivateClaim { id, user_name, game_id, role, exp }
    }

    /// A claim with an explicit expiry, as read back from a token.
    pub fn with_exp(id: i32, user_name: String, game_id: i32, role: Role, exp: i64) -> (r:
        PrivateClaim)
        ensures
            r.id == id,
            r.user_name@ == user_name@,
            r.game_id == game_id,
            r.role == role,
            r.exp() == exp,
    {
        PrivateClaim { id, user_name, game_id, role, exp }
    }

    pub open spec fn spec_exp(&self) -> i64 {
        self.exp
    }

    /// Seconds since the Unix epoch after which the claim is no longer accepted.
    #[verifier::when_used_as_spec(spec_exp)]
    pub fn exp(&self) -> (r: i64)
        ensures
            r == self.exp,
    {
        self.exp
    }

    pub fn set_exp(&mut self, exp: i64)
        ensures
            final(self).exp == exp,
            final(self).id == old(self).id,
            final(self).user_name == old(self).user_name,
            final(self).game_id == old(self).game_id,
            final(self).role == old(self).role,
    {
        self.exp = exp;
    }
}

/// Reads the bearer token out of an `Authorization` header.
pub struct AuthHeaderIdentityPolicy {}

impl AuthHeaderIdentityPolicy {
    pub fn new() -> (r: AuthHeaderIdentityPolicy) {
        AuthHeaderIdentityPolicy {  }
    }
}

/// The one authorization predicate of every operation: the actor must hold `role`.
pub fn require_role(claim: &PrivateClaim, role: Role) -> (r: Result<(), Error>)
    ensures
        r is Ok <==> claim.role == role,
        r is Err ==> r == Err::<(), Error>(Error::Forbidden),
{
    if claim.role == role {
        Ok(())
    } else {
        Err(Error::Forbidden)
    }
}

/// The claim and token of a request: `token` is the bearer token it carried, if any,
/// and `decoded` the claim that token verified to, if it did.
pub fn get_claim_from_identity(token: Option<String>, decoded: Option<PrivateClaim>) -> (r: Result<
    (PrivateClaim, String),
    Error,
>)
    ensures
        match (token, decoded) {
            (Some(t), Some(c)) => r == Ok::<(PrivateClaim, String), Error>((c, t)),
            _ => r == Err::<(PrivateClaim, String), Error>(Error::Unauthorized),
        },
{
    match (token, decoded) {
        (Some(t), Some(c)) => Ok((c, t)),
        _ => Err(Error::Unauthorized),
    }
}

/// A claim may only read the data of its own game.
pub fn identity_matches_game_id(claim: &PrivateClaim, game_id: i32) -> (r: Result<(), Error>)
    ensures
        r is Ok <==> claim.game_id == game_id,
        r is Err ==> r == Err::<(), Error>(Error::Forbidden),
{
    if game_id != claim.game_id {
        return Err(Error::Forbidden);
    }
    Ok(())
}

} // verus!
