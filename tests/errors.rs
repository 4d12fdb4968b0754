use predictions::auth::{get_claim_from_identity, identity_matches_game_id, require_role, PrivateClaim, Role, TOKEN_LIFETIME_SECS};
use predictions::errors::{Error, ErrorResponse};
use predictions::text::{decimal_string, signed_decimal_string};

#[test]
fn statuses_follow_the_taxonomy() {
    assert_eq!(Error::BadRequest("x".to_string()).status_code(), 400);
    assert_eq!(Error::Unauthorized.status_code(), 401);
    assert_eq!(Error::Forbidden.status_code(), 403);
    assert_eq!(Error::NotFound("x".to_string()).status_code(), 404);
    assert_eq!(Error::ValidationError(vec![]).status_code(), 422);
    assert_eq!(Error::UnprocessableEntity("x".to_string()).status_code(), 422);
    assert_eq!(Error::PoolError("x".to_string()).status_code(), 500);
    assert_eq!(Error::CannotDecodeJwtToken("x".to_string()).status_code(), 500);
}

#[test]
fn responses_hide_internal_detail() {
    assert_eq!(
        Error::InternalServerError("db down".to_string()).error_response().errors,
        vec!["Internal Server Error".to_string()]
    );
    assert_eq!(Error::Forbidden.error_response().errors, vec!["Forbidden".to_string()]);
    assert_eq!(Error::Unauthorized.error_response().errors, vec!["Unauthorized".to_string()]);
    assert_eq!(
        Error::ValidationError(vec!["a".to_string(), "b".to_string()]).error_response().errors,
        vec!["a".to_string(), "b".to_string()]
    );
    let from_list: ErrorResponse = vec!["c".to_string()].into();
    assert_eq!(from_list.errors, vec!["c".to_string()]);
}

#[test]
fn decimal_text() {
    assert_eq!(decimal_string(0), "0");
    assert_eq!(decimal_string(1234567890), "1234567890");
    assert_eq!(decimal_string(u64::MAX), u64::MAX.to_string());
    assert_eq!(signed_decimal_string(-15), "-15");
    assert_eq!(signed_decimal_string(i64::MIN), i64::MIN.to_string());
}

#[test]
fn roles_and_games_are_checked() {
    let claim = PrivateClaim::with_exp(1, "agmcleod".to_string(), 2, Role::Owner, 100);
    assert_eq!(require_role(&claim, Role::Owner), Ok(()));
    assert_eq!(require_role(&claim, Role::Player), Err(Error::Forbidden));
    assert_eq!(identity_matches_game_id(&claim, 2), Ok(()));
    assert_eq!(identity_matches_game_id(&claim, 3), Err(Error::Forbidden));
}

#[test]
fn claims_expire_after_their_lifetime() {
    let claim = PrivateClaim::issued_at(1, "agmcleod".to_string(), 2, Role::Player, 1000);
    assert_eq!(claim.exp(), 1000 + TOKEN_LIFETIME_SECS);
    let late = PrivateClaim::issued_at(1, "agmcleod".to_string(), 2, Role::Player, i64::MAX - 5);
    assert_eq!(late.exp(), i64::MAX);
    let mut fresh = PrivateClaim::issued_at(1, "agmcleod".to_string(), 2, Role::Player, 0);
    assert!(fresh.exp() >= TOKEN_LIFETIME_SECS);
    fresh.set_exp(5);
    assert_eq!(fresh.exp, 5);
    assert_eq!(fresh.user_name, "agmcleod");
}

#[test]
fn requests_without_a_valid_token_are_unauthorized() {
    let claim = PrivateClaim::with_exp(1, "agmcleod".to_string(), 2, Role::Player, 100);
    assert_eq!(get_claim_from_identity(None, None), Err(Error::Unauthorized));
    assert_eq!(get_claim_from_identity(Some("t".to_string()), None), Err(Error::Unauthorized));
    assert_eq!(
        get_claim_from_identity(Some("t".to_string()), Some(claim.clone())),
        Ok((claim, "t".to_string()))
    );
}
