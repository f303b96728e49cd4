//! Tests for the individual components: hasher, hex rendering, challenge
//! manager and token service.

use auth_service::challenge::ChallengeError;
use auth_service::challenge::TwoFactorManager;
use auth_service::challenge::CHALLENGE_TTL_MS;
use auth_service::hasher::hash_password;
use auth_service::hasher::verify_password;
use auth_service::hex::read_hex16;
use auth_service::text::ct_eq;
use auth_service::text::eq_fold;
use auth_service::token::TokenError;
use auth_service::token::TokenService;

#[test]
fn hash_then_verify_round_trips() {
    let h = hash_password("correct horse", 42);
    assert!(verify_password("correct horse", &h));
    assert!(!verify_password("correct horsf", &h));
    assert!(!verify_password("", &h));
}

#[test]
fn empty_password_hashes_and_verifies() {
    let h = hash_password("", 7);
    assert_eq!(h.chars().count(), 20);
    assert!(verify_password("", &h));
    assert!(!verify_password("x", &h));
}

#[test]
fn malformed_stored_hash_matches_nothing() {
    assert!(!verify_password("pw", "pw"));
    assert!(!verify_password("pw", ""));
    assert!(!verify_password("pw", "h1$nothexnothexno$00000000"));
}

#[test]
fn hash_is_salted_and_self_describing() {
    let h1 = hash_password("pw", 1);
    let h2 = hash_password("pw", 2);
    assert_ne!(h1, h2);
    assert!(verify_password("pw", &h1));
    assert!(verify_password("pw", &h2));
}

#[test]
fn hex_field_reads_back() {
    let h = hash_password("abc", 0xdead_beef_1234_5678);
    let (salt, ok) = read_hex16(&h, 3);
    assert!(ok);
    assert_eq!(salt, 0xdead_beef_1234_5678);
    let (_, bad) = read_hex16("zzzzzzzzzzzzzzzzzzzz", 0);
    assert!(!bad);
}

#[test]
fn case_folding_and_constant_time_equality() {
    assert!(eq_fold("AbC@Example.COM", "aBc@exaMple.com"));
    assert!(!eq_fold("abc", "abd"));
    assert!(!eq_fold("abc", "abcd"));
    assert!(ct_eq("same", "same"));
    assert!(!ct_eq("same", "sama"));
    assert!(!ct_eq("same", "sam"));
}

#[test]
fn challenge_lifecycle_is_single_use() {
    let mut tfa = TwoFactorManager::new(99);
    let now: u64 = 1000;
    assert_eq!(
        tfa.verify("mia@example.com", "anything", now),
        Err(ChallengeError::NoChallengePending)
    );
    let code = tfa.issue("mia@example.com", now);
    assert_eq!(
        tfa.verify("mia@example.com", "wrong", now + 1),
        Err(ChallengeError::ChallengeMismatch)
    );
    assert_eq!(tfa.verify("mia@example.com", &code, now + 2), Ok(()));
    assert_eq!(
        tfa.verify("mia@example.com", &code, now + 3),
        Err(ChallengeError::NoChallengePending)
    );
}

#[test]
fn challenge_expiry_is_reported_once() {
    let mut tfa = TwoFactorManager::new(5);
    let now: u64 = 1000;
    let code = tfa.issue("nina@example.com", now);
    assert_eq!(
        tfa.verify("nina@example.com", &code, now + CHALLENGE_TTL_MS),
        Err(ChallengeError::ChallengeExpired)
    );
    // The expired entry was removed.
    assert_eq!(
        tfa.verify("nina@example.com", &code, now + 1),
        Err(ChallengeError::NoChallengePending)
    );
}

#[test]
fn challenges_are_kept_per_account() {
    let mut tfa = TwoFactorManager::new(1);
    let now: u64 = 50;
    let code_a = tfa.issue("a@example.com", now);
    let code_b = tfa.issue("b@example.com", now);
    assert_ne!(code_a, code_b);
    assert_eq!(tfa.verify("a@example.com", &code_b, now + 1), Err(ChallengeError::ChallengeMismatch));
    assert_eq!(tfa.verify("a@example.com", &code_a, now + 1), Ok(()));
    assert_eq!(tfa.verify("b@example.com", &code_b, now + 1), Ok(()));
}

#[test]
fn token_service_issues_and_revokes() {
    let mut svc = TokenService::new(0xfeed);
    let now: u64 = 12345;
    let t = svc.issue("olaf@example.com", now);
    assert_eq!(svc.verify(&t, now), Ok("olaf@example.com".to_string()));
    assert_eq!(svc.revoke(&t), Ok(()));
    assert_eq!(svc.verify(&t, now), Err(TokenError::Revoked));
    assert_eq!(svc.revoke(&t), Ok(()));
    assert_eq!(svc.revoke("short"), Err(TokenError::Malformed));
}

#[test]
fn tokens_from_another_key_are_rejected() {
    let mut issuing = TokenService::new(1);
    let other = TokenService::new(2);
    let now: u64 = 777;
    let t = issuing.issue("pia@example.com", now);
    assert_eq!(issuing.verify(&t, now), Ok("pia@example.com".to_string()));
    assert_eq!(other.verify(&t, now), Err(TokenError::InvalidSignature));
}

#[test]
fn pruning_keeps_live_revocations() {
    let mut svc = TokenService::new(3);
    let now: u64 = 500;
    let t = svc.issue("quin@example.com", now);
    assert_eq!(svc.revoke(&t), Ok(()));
    // The revoked token is not yet expired, so pruning keeps its entry.
    svc.prune(now + 1);
    assert_eq!(svc.verify(&t, now + 2), Err(TokenError::Revoked));
}
