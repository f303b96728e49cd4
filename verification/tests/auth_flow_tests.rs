//! End-to-end flows through the authentication orchestrator.

use auth_service::auth::AuthError;
use auth_service::auth::AuthService;
use auth_service::auth::LoginOutcome;
use auth_service::auth::SignupRequest;
use auth_service::challenge::CHALLENGE_TTL_MS;
use auth_service::token::TokenError;
use auth_service::token::SESSION_TTL_MS;

fn service() -> AuthService {
    AuthService::new(0x5eed_0f_7e57_u64, 0x0dd_5eed_u64)
}

fn request(email: &str, password: &str, requires_2fa: bool) -> SignupRequest {
    SignupRequest {
        email: email.to_string(),
        password: password.to_string(),
        requires_2fa,
    }
}

const NOW: u64 = 1_700_000_000_000;

#[test]
fn alice_full_session_round_trip() {
    let mut auth = service();
    assert_eq!(
        auth.signup(request("alice@example.com", "Secret123", false)),
        Ok(())
    );
    let outcome = auth
        .login("alice@example.com", "Secret123", NOW)
        .expect("login with the right password succeeds");
    let token = match outcome {
        LoginOutcome::Authenticated { token } => token,
        LoginOutcome::AwaitingSecondFactor { .. } => panic!("no second factor was required"),
    };
    assert_eq!(
        auth.verify_token(&token, NOW + 5),
        Ok("alice@example.com".to_string())
    );
    assert_eq!(auth.logout(&token), Ok(()));
    assert_eq!(auth.verify_token(&token, NOW + 10), Err(TokenError::Revoked));
}

#[test]
fn bob_second_factor_flow() {
    let mut auth = service();
    assert_eq!(auth.signup(request("bob@example.com", "Pw1", true)), Ok(()));
    let outcome = auth
        .login("bob@example.com", "Pw1", NOW)
        .expect("login with the right password succeeds");
    let code = match outcome {
        LoginOutcome::AwaitingSecondFactor { challenge } => challenge,
        LoginOutcome::Authenticated { .. } => panic!("a second factor was required"),
    };
    assert_eq!(
        auth.verify_2fa("bob@example.com", "000000", NOW + 1),
        Err(AuthError::InvalidCode)
    );
    let token = auth
        .verify_2fa("bob@example.com", &code, NOW + 2)
        .expect("the right code yields a token");
    assert_eq!(
        auth.verify_token(&token, NOW + 3),
        Ok("bob@example.com".to_string())
    );
    assert_eq!(
        auth.verify_2fa("bob@example.com", &code, NOW + 4),
        Err(AuthError::InvalidCode)
    );
}

#[test]
fn duplicate_signup_fails_case_insensitively() {
    let mut auth = service();
    assert_eq!(auth.signup(request("Carol@Example.COM", "pw", false)), Ok(()));
    assert_eq!(
        auth.signup(request("carol@example.com", "other", true)),
        Err(AuthError::UserAlreadyExists)
    );
}

#[test]
fn login_failures_are_indistinguishable() {
    let mut auth = service();
    assert_eq!(auth.signup(request("dave@example.com", "right", false)), Ok(()));
    let unknown = auth.login("nobody@example.com", "whatever", NOW);
    let wrong_password = auth.login("dave@example.com", "wrong", NOW);
    assert_eq!(unknown, Err(AuthError::IncorrectCredentials));
    assert_eq!(wrong_password, Err(AuthError::IncorrectCredentials));
    assert_eq!(unknown, wrong_password);
}

#[test]
fn login_finds_account_in_other_case() {
    let mut auth = service();
    assert_eq!(auth.signup(request("erin@example.com", "pw", false)), Ok(()));
    let outcome = auth
        .login("ERIN@EXAMPLE.COM", "pw", NOW)
        .expect("case of the identifier does not matter");
    let token = match outcome {
        LoginOutcome::Authenticated { token } => token,
        LoginOutcome::AwaitingSecondFactor { .. } => panic!("no second factor was required"),
    };
    assert_eq!(auth.verify_token(&token, NOW), Ok("erin@example.com".to_string()));
}

#[test]
fn token_expires_after_session_window() {
    let mut auth = service();
    assert_eq!(auth.signup(request("frank@example.com", "pw", false)), Ok(()));
    let outcome = auth.login("frank@example.com", "pw", NOW).expect("login");
    let token = match outcome {
        LoginOutcome::Authenticated { token } => token,
        LoginOutcome::AwaitingSecondFactor { .. } => panic!("no second factor was required"),
    };
    assert_eq!(
        auth.verify_token(&token, NOW + SESSION_TTL_MS - 1),
        Ok("frank@example.com".to_string())
    );
    assert_eq!(
        auth.verify_token(&token, NOW + SESSION_TTL_MS),
        Err(TokenError::Expired)
    );
    assert_eq!(auth.verify_token(&token, NOW - 1), Err(TokenError::Expired));
}

#[test]
fn garbage_token_is_malformed() {
    let auth = service();
    assert_eq!(auth.verify_token("nonsense", NOW), Err(TokenError::Malformed));
    assert_eq!(auth.verify_token("", NOW), Err(TokenError::Malformed));
}

#[test]
fn tampered_token_fails_signature_check() {
    let mut auth = service();
    assert_eq!(auth.signup(request("grace@example.com", "pw", false)), Ok(()));
    let outcome = auth.login("grace@example.com", "pw", NOW).expect("login");
    let token = match outcome {
        LoginOutcome::Authenticated { token } => token,
        LoginOutcome::AwaitingSecondFactor { .. } => panic!("no second factor was required"),
    };
    let tampered = format!("{}x", token);
    assert_eq!(
        auth.verify_token(&tampered, NOW),
        Err(TokenError::InvalidSignature)
    );
}

#[test]
fn challenge_expires_after_its_window() {
    let mut auth = service();
    assert_eq!(auth.signup(request("heidi@example.com", "pw", true)), Ok(()));
    let outcome = auth.login("heidi@example.com", "pw", NOW).expect("login");
    let code = match outcome {
        LoginOutcome::AwaitingSecondFactor { challenge } => challenge,
        LoginOutcome::Authenticated { .. } => panic!("a second factor was required"),
    };
    assert_eq!(
        auth.verify_2fa("heidi@example.com", &code, NOW + CHALLENGE_TTL_MS),
        Err(AuthError::InvalidCode)
    );
    // The expired entry was dropped: the same code now finds no challenge.
    assert_eq!(
        auth.verify_2fa("heidi@example.com", &code, NOW + 1),
        Err(AuthError::InvalidCode)
    );
}

#[test]
fn second_login_replaces_outstanding_challenge() {
    let mut auth = service();
    assert_eq!(auth.signup(request("ivan@example.com", "pw", true)), Ok(()));
    let first = auth.login("ivan@example.com", "pw", NOW).expect("login");
    let first_code = match first {
        LoginOutcome::AwaitingSecondFactor { challenge } => challenge,
        LoginOutcome::Authenticated { .. } => panic!("a second factor was required"),
    };
    let second = auth.login("ivan@example.com", "pw", NOW + 1).expect("login");
    let second_code = match second {
        LoginOutcome::AwaitingSecondFactor { challenge } => challenge,
        LoginOutcome::Authenticated { .. } => panic!("a second factor was required"),
    };
    assert_ne!(first_code, second_code);
    assert_eq!(
        auth.verify_2fa("ivan@example.com", &first_code, NOW + 2),
        Err(AuthError::InvalidCode)
    );
    let token = auth
        .verify_2fa("ivan@example.com", &second_code, NOW + 3)
        .expect("the current code works");
    assert_eq!(auth.verify_token(&token, NOW + 4), Ok("ivan@example.com".to_string()));
}

#[test]
fn verify_2fa_without_login_fails() {
    let mut auth = service();
    assert_eq!(auth.signup(request("judy@example.com", "pw", true)), Ok(()));
    assert_eq!(
        auth.verify_2fa("judy@example.com", "whatever", NOW),
        Err(AuthError::InvalidCode)
    );
}

#[test]
fn logout_is_idempotent_and_checks_shape() {
    let mut auth = service();
    assert_eq!(auth.signup(request("kim@example.com", "pw", false)), Ok(()));
    let outcome = auth.login("kim@example.com", "pw", NOW).expect("login");
    let token = match outcome {
        LoginOutcome::Authenticated { token } => token,
        LoginOutcome::AwaitingSecondFactor { .. } => panic!("no second factor was required"),
    };
    assert_eq!(auth.logout(&token), Ok(()));
    assert_eq!(auth.logout(&token), Ok(()));
    assert_eq!(auth.logout("not a token"), Err(TokenError::Malformed));
    let tampered = format!("{}x", token);
    assert_eq!(auth.logout(&tampered), Err(TokenError::InvalidSignature));
}

#[test]
fn logout_leaves_other_sessions_alone() {
    let mut auth = service();
    assert_eq!(auth.signup(request("lena@example.com", "pw", false)), Ok(()));
    let t1 = match auth.login("lena@example.com", "pw", NOW).expect("login") {
        LoginOutcome::Authenticated { token } => token,
        LoginOutcome::AwaitingSecondFactor { .. } => panic!("no second factor was required"),
    };
    let t2 = match auth.login("lena@example.com", "pw", NOW + 1).expect("login") {
        LoginOutcome::Authenticated { token } => token,
        LoginOutcome::AwaitingSecondFactor { .. } => panic!("no second factor was required"),
    };
    assert_eq!(auth.logout(&t1), Ok(()));
    assert_eq!(auth.verify_token(&t1, NOW + 2), Err(TokenError::Revoked));
    assert_eq!(auth.verify_token(&t2, NOW + 2), Ok("lena@example.com".to_string()));
}
