use catalog_access::authorize::{admit_identity, bearer_token, check_token, AuthFailure, UNAUTHORIZED};
use catalog_access::codec::uuid_to_base32hex;
use catalog_access::identifier::Identifier;
use catalog_access::token::{
    issue_claims, verify_claims, Claims, VerifyError, ACCESS_TOKEN_TTL, REFRESH_TOKEN_TTL,
};

fn sample_claims(now: usize, ttl: usize) -> Claims {
    issue_claims("SUBJECT".to_string(), "Ada Lovelace".to_string(), "ada".to_string(), now, ttl).unwrap()
}

#[test]
fn issued_claims_hold_issue_and_expiry_times() {
    let c = sample_claims(1_000, 3600);
    assert_eq!(c.iat, 1_000);
    assert_eq!(c.exp, 4_600);
    assert_eq!(c.sub, "SUBJECT");
    assert_eq!(c.name, "Ada Lovelace");
    assert_eq!(c.username, "ada");
}

#[test]
fn ttl_constants() {
    assert_eq!(ACCESS_TOKEN_TTL, 3600);
    assert_eq!(REFRESH_TOKEN_TTL, 604800);
}

#[test]
fn expiry_overflow_gives_no_claims() {
    assert!(issue_claims("s".to_string(), "n".to_string(), "u".to_string(), usize::MAX - 10, 11).is_none());
    assert!(issue_claims("s".to_string(), "n".to_string(), "u".to_string(), usize::MAX - 10, 10).is_some());
}

#[test]
fn verify_accepts_until_expiry_then_refuses() {
    let c = sample_claims(1_000, 3600);
    assert_eq!(verify_claims(Some(c.clone()), 1_000), Ok(c.clone()));
    assert_eq!(verify_claims(Some(c.clone()), 4_600), Ok(c.clone()));
    assert_eq!(verify_claims(Some(c.clone()), 4_601), Err(VerifyError::Expired));
}

#[test]
fn failed_signature_is_malformed_whatever_the_time() {
    assert_eq!(verify_claims(None, 0), Err(VerifyError::Malformed));
    assert_eq!(verify_claims(None, usize::MAX), Err(VerifyError::Malformed));
}

#[test]
fn bearer_header_parsing() {
    assert_eq!(bearer_token(None), Err(AuthFailure::HeaderMissing));
    assert_eq!(bearer_token(Some("Basic abc")), Err(AuthFailure::HeaderMalformed));
    assert_eq!(bearer_token(Some("bearer abc")), Err(AuthFailure::HeaderMalformed));
    assert_eq!(bearer_token(Some("Bearer")), Err(AuthFailure::HeaderMalformed));
    assert_eq!(bearer_token(Some("Bearer abc.def")), Ok("abc.def"));
    assert_eq!(bearer_token(Some("Bearer ")), Ok(""));
}

#[test]
fn token_check_maps_verdicts() {
    let c = sample_claims(10, 5);
    assert_eq!(check_token(None, 10), Err(AuthFailure::TokenMalformed));
    assert_eq!(check_token(Some(c.clone()), 16), Err(AuthFailure::TokenExpired));
    assert_eq!(check_token(Some(c.clone()), 15), Ok(c));
}

#[test]
fn identity_admission() {
    let id = Identifier::from_bytes([7u8; 16]);
    let mut c = sample_claims(0, 10);
    c.sub = uuid_to_base32hex(id);
    assert_eq!(admit_identity(&c, false), Err(AuthFailure::IdentityInactive));
    assert_eq!(admit_identity(&c, true).unwrap().id, id);
    c.sub = "not-an-identifier".to_string();
    assert_eq!(admit_identity(&c, true), Err(AuthFailure::SubjectInvalid));
}

#[test]
fn every_refusal_has_the_same_body() {
    let failures = [
        AuthFailure::HeaderMissing,
        AuthFailure::HeaderMalformed,
        AuthFailure::TokenMalformed,
        AuthFailure::TokenExpired,
        AuthFailure::IdentityInactive,
        AuthFailure::SubjectInvalid,
    ];
    let first = failures[0].to_error();
    for f in failures {
        let e = f.to_error();
        assert_eq!(e.status_code, UNAUTHORIZED);
        assert_eq!(e.status, "error");
        assert_eq!(e, first);
    }
}

