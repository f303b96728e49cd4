//! The authentication orchestrator: signup, login, second-factor
//! verification, token verification and logout, composed from the
//! credential store, the challenge manager and the token service.
//!
//! Login failures are collapsed to one external error so that a caller
//! cannot tell an unknown identifier from a wrong password, and every
//! challenge failure is collapsed to one "invalid code" error.

use vstd::prelude::*;
use crate::challenge::challenge_outcome;
use crate::challenge::code_of;
use crate::challenge::next_gen;
use crate::challenge::spec_challenge;
use crate::challenge::unique_accounts;
use crate::challenge::ChallengeError;
use crate::challenge::ChallengeView;
use crate::challenge::TwoFactorManager;
use crate::challenge::TwoFactorView;
use crate::challenge::CHALLENGE_TTL_MS;
use crate::hashmap_user_store::add_state;
use crate::hashmap_user_store::spec_get;
use crate::hashmap_user_store::HashmapUserStore;
use crate::hasher::hash_of;
use crate::hasher::pw_matches;
use crate::text::norm;
use crate::token::is_revoked;
use crate::token::parse_token;
use crate::token::revoke_outcome;
use crate::token::tag_of;
use crate::token::token_outcome;
use crate::token::token_str_of;
use crate::token::lemma_fresh_token_verifies;
use crate::token::TokenError;
use crate::token::TokenService;
use crate::token::TokenServiceView;
use crate::token::SESSION_TTL_MS;
use crate::user::salt_for;
use crate::user::User;
use crate::user::UserView;

verus! {

/// The errors the orchestrator reports to the adapter.
#[derive(Debug, PartialEq)]
pub enum AuthError {
    UserAlreadyExists,
    IncorrectCredentials,
    InvalidCode,
}

/// A signup request.
pub struct SignupRequest {
    pub email: String,
    pub password: String,
    pub requires_2fa: bool,
}

/// What a successful login yields: a session token, or a pending second
/// factor whose challenge code the adapter delivers out of band.
#[derive(Debug, PartialEq)]
pub enum LoginOutcome {
    Authenticated { token: String },
    AwaitingSecondFactor { challenge: String },
}

/// The ghost outcome of a login.
pub enum LoginView {
    Denied,
    Awaiting { code: Seq<char> },
    Authenticated { token: Seq<char> },
}

/// The ghost state of the orchestrator.
pub struct AuthView {
    pub users: Seq<UserView>,
    pub challenges: TwoFactorView,
    pub tokens: TokenServiceView,
}

/// The authentication service.
pub struct AuthService {
    users: HashmapUserStore,
    challenges: TwoFactorManager,
    tokens: TokenService,
}

impl View for AuthService {
    type V = AuthView;

    closed spec fn view(&self) -> AuthView {
        AuthView { users: self.users@, challenges: self.challenges@, tokens: self.tokens@ }
    }
}

/// The orchestrator's well-formedness: at most one challenge per account.
pub open spec fn wf(a: AuthView) -> bool {
    unique_accounts(a.challenges.entries)
}

/// What signup returns for a state and identifier.
pub open spec fn signup_outcome(users: Seq<UserView>, id: Seq<char>) -> Result<(), AuthError> {
    if spec_get(users, id) is Some {
        Err(AuthError::UserAlreadyExists)
    } else {
        Ok(())
    }
}

/// The account record a signup request turns into.
pub open spec fn signup_record(id: Seq<char>, pw: Seq<char>, requires_2fa: bool) -> UserView {
    UserView { email: id, password: hash_of(pw, salt_for(id, pw)), requires_2fa }
}

/// What login computes from a state: denial, a pending second factor with
/// the code the generator yields, or a token for the stored identifier.
pub open spec fn login_view(a: AuthView, id: Seq<char>, pw: Seq<char>, now: u64) -> LoginView {
    match spec_get(a.users, id) {
        Option::None => LoginView::Denied,
        Option::Some(u) => if !pw_matches(pw, u.password) {
            LoginView::Denied
        } else if u.requires_2fa {
            LoginView::Awaiting { code: code_of(a.challenges.gen) }
        } else {
            LoginView::Authenticated {
                token: token_str_of(
                    a.tokens.next_id,
                    now,
                    (now + SESSION_TTL_MS) as u64,
                    tag_of(
                        a.tokens.key,
                        a.tokens.next_id,
                        now,
                        (now + SESSION_TTL_MS) as u64,
                        u.email,
                    ),
                    u.email,
                ),
            }
        },
    }
}

/// The ghost value of a login result.
pub open spec fn outcome_view(r: Result<LoginOutcome, AuthError>) -> LoginView {
    match r {
        Ok(LoginOutcome::Authenticated { token }) => LoginView::Authenticated { token: token@ },
        Ok(LoginOutcome::AwaitingSecondFactor { challenge }) => LoginView::Awaiting {
            code: challenge@,
        },
        Err(_) => LoginView::Denied,
    }
}

/// What second-factor verification computes from a state: the token it
/// issues, or one collapsed error for every way the code can be wrong.
pub open spec fn second_factor_view(a: AuthView, id: Seq<char>, code: Seq<char>, now: u64) -> Result<
    Seq<char>,
    AuthError,
> {
    if challenge_outcome(a.challenges.entries, id, code, now) != Ok::<(), ChallengeError>(()) {
        Err(AuthError::InvalidCode)
    } else {
        match spec_get(a.users, id) {
            Option::None => Err(AuthError::InvalidCode),
            Option::Some(u) => Ok(
                token_str_of(
                    a.tokens.next_id,
                    now,
                    (now + SESSION_TTL_MS) as u64,
                    tag_of(
                        a.tokens.key,
                        a.tokens.next_id,
                        now,
                        (now + SESSION_TTL_MS) as u64,
                        u.email,
                    ),
                    u.email,
                ),
            ),
        }
    }
}

impl AuthService {
    /// A fresh service: no accounts, no challenges, nothing revoked.
    /// `signing_key` signs session tokens; `challenge_seed` starts the
    /// challenge code generator.
    pub fn new(signing_key: u64, challenge_seed: u64) -> (r: Self)
        ensures
            r@.users == Seq::<UserView>::empty(),
            r@.challenges.entries == Seq::<ChallengeView>::empty(),
            r@.challenges.gen == challenge_seed,
            r@.tokens.key == signing_key,
            r@.tokens.next_id == 0,
            r@.tokens.revoked == Seq::<(u64, u64)>::empty(),
            wf(r@),
    {
        AuthService {
            users: HashmapUserStore::default(),
            challenges: TwoFactorManager::new(challenge_seed),
            tokens: TokenService::new(signing_key),
        }
    }

    /// Creates an account from a request, hashing the credential before it
    /// is stored; fails on an identifier already taken, up to ASCII case.
    pub fn signup(&mut self, request: SignupRequest) -> (r: Result<(), AuthError>)
        ensures
            r == signup_outcome(old(self)@.users, request.email@),
            final(self)@.users == add_state(
                old(self)@.users,
                signup_record(request.email@, request.password@, request.requires_2fa),
            ),
            final(self)@.challenges == old(self)@.challenges,
            final(self)@.tokens == old(self)@.tokens,
    {
        let u = User::new(request.email, request.password, request.requires_2fa);
        match self.users.add_user(u) {
            Ok(()) => Ok(()),
            Err(_) => Err(AuthError::UserAlreadyExists),
        }
    }

    /// Logs an account in.  An unknown identifier and a wrong password
    /// fail with the same error.  With the right credential, an account
    /// that requires a second factor gets a pending challenge and no
    /// token; any other account gets a fresh session token.
    pub fn login(&mut self, email: &str, password: &str, now: u64) -> (r: Result<
        LoginOutcome,
        AuthError,
    >)
        requires
            wf(old(self)@),
            now <= u64::MAX - SESSION_TTL_MS,
            now <= u64::MAX - CHALLENGE_TTL_MS,
            old(self)@.tokens.next_id < u64::MAX,
        ensures
            outcome_view(r) == login_view(old(self)@, email@, password@, now),
            r is Err ==> r == Err::<LoginOutcome, AuthError>(AuthError::IncorrectCredentials),
            r is Err <==> login_view(old(self)@, email@, password@, now) is Denied,
            wf(final(self)@),
            final(self)@.users == old(self)@.users,
            login_view(old(self)@, email@, password@, now) is Denied
                ==> final(self)@ == old(self)@,
            login_view(old(self)@, email@, password@, now) is Awaiting ==> final(self)@.tokens
                == old(self)@.tokens && final(self)@.challenges.gen == next_gen(
                old(self)@.challenges.gen,
            ) && spec_challenge(final(self)@.challenges.entries, email@) == Some(
                ChallengeView {
                    account: email@,
                    code: code_of(old(self)@.challenges.gen),
                    expires_at: (now + CHALLENGE_TTL_MS) as u64,
                    consumed: false,
                },
            ) && (forall|id2: Seq<char>|
                norm(id2) != norm(email@) ==> spec_challenge(final(self)@.challenges.entries, id2)
                    == spec_challenge(old(self)@.challenges.entries, id2)),
            login_view(old(self)@, email@, password@, now) is Authenticated
                ==> final(self)@.challenges == old(self)@.challenges
                && final(self)@.tokens.key == old(self)@.tokens.key
                && final(self)@.tokens.next_id == old(self)@.tokens.next_id + 1
                && final(self)@.tokens.revoked == old(self)@.tokens.revoked,
    {
        match self.users.validate_user(email, password) {
            Err(_) => Err(AuthError::IncorrectCredentials),
            Ok(()) => {
                match self.users.get_user(email) {
                    Err(_) => Err(AuthError::IncorrectCredentials),
                    Ok(u) => {
                        if u.requires_2fa() {
                            let code = self.challenges.issue(email, now);
                            Ok(LoginOutcome::AwaitingSecondFactor { challenge: code })
                        } else {
                            let t = self.tokens.issue(u.email_ref().as_str(), now);
                            Ok(LoginOutcome::Authenticated { token: t })
                        }
                    },
                }
            },
        }
    }

    /// Consumes the pending challenge for `email` and, when the code
    /// matches an account, issues a session token.  Every challenge
    /// failure comes back as the same "invalid code" error.
    pub fn verify_2fa(&mut self, email: &str, code: &str, now: u64) -> (r: Result<
        String,
        AuthError,
    >)
        requires
            wf(old(self)@),
            now <= u64::MAX - SESSION_TTL_MS,
            old(self)@.tokens.next_id < u64::MAX,
        ensures
            match r {
                Ok(t) => second_factor_view(old(self)@, email@, code@, now) == Ok::<
                    Seq<char>,
                    AuthError,
                >(t@),
                Err(e) => second_factor_view(old(self)@, email@, code@, now) == Err::<
                    Seq<char>,
                    AuthError,
                >(e),
            },
            wf(final(self)@),
            final(self)@.users == old(self)@.users,
            final(self)@.challenges.gen == old(self)@.challenges.gen,
            final(self)@.tokens.key == old(self)@.tokens.key,
            final(self)@.tokens.revoked == old(self)@.tokens.revoked,
            r is Ok ==> final(self)@.tokens.next_id == old(self)@.tokens.next_id + 1,
            r is Err ==> final(self)@.tokens == old(self)@.tokens,
            challenge_outcome(old(self)@.challenges.entries, email@, code@, now) == Ok::<
                (),
                ChallengeError,
            >(()) ==> spec_challenge(final(self)@.challenges.entries, email@) == Some(
                ChallengeView {
                    account: spec_challenge(
                        old(self)@.challenges.entries,
                        email@,
                    ).unwrap().account,
                    code: spec_challenge(old(self)@.challenges.entries, email@).unwrap().code,
                    expires_at: spec_challenge(
                        old(self)@.challenges.entries,
                        email@,
                    ).unwrap().expires_at,
                    consumed: true,
                },
            ),
            challenge_outcome(old(self)@.challenges.entries, email@, code@, now) == Err::<
                (),
                ChallengeError,
            >(ChallengeError::ChallengeExpired) ==> spec_challenge(
                final(self)@.challenges.entries,
                email@,
            ) is None,
            (challenge_outcome(old(self)@.challenges.entries, email@, code@, now) == Err::<
                (),
                ChallengeError,
            >(ChallengeError::NoChallengePending) || challenge_outcome(
                old(self)@.challenges.entries,
                email@,
                code@,
                now,
            ) == Err::<(), ChallengeError>(ChallengeError::ChallengeMismatch))
                ==> final(self)@.challenges == old(self)@.challenges,
            forall|id2: Seq<char>|
                norm(id2) != norm(email@) ==> spec_challenge(final(self)@.challenges.entries, id2)
                    == spec_challenge(old(self)@.challenges.entries, id2),
    {
        match self.challenges.verify(email, code, now) {
            Err(_) => Err(AuthError::InvalidCode),
            Ok(()) => {
                match self.users.get_user(email) {
                    Err(_) => Err(AuthError::InvalidCode),
                    Ok(u) => Ok(self.tokens.issue(u.email_ref().as_str(), now)),
                }
            },
        }
    }

    /// How many session tokens have been issued so far.
    pub fn issued_tokens(&self) -> (r: u64)
        ensures
            r == self@.tokens.next_id,
    {
        self.tokens.issued_count()
    }

    /// Verifies a session token and returns the identifier it asserts.
    pub fn verify_token(&self, token: &str, now: u64) -> (r: Result<String, TokenError>)
        ensures
            match r {
                Ok(s) => token_outcome(self@.tokens.key, self@.tokens.revoked, token@, now)
                    == Ok::<Seq<char>, TokenError>(s@),
                Err(e) => token_outcome(self@.tokens.key, self@.tokens.revoked, token@, now)
                    == Err::<Seq<char>, TokenError>(e),
            },
    {
        self.tokens.verify(token, now)
    }

    /// Revokes a session token.
    pub fn logout(&mut self, token: &str) -> (r: Result<(), TokenError>)
        ensures
            r == revoke_outcome(old(self)@.tokens.key, token@),
            final(self)@.users == old(self)@.users,
            final(self)@.challenges == old(self)@.challenges,
            final(self)@.tokens.key == old(self)@.tokens.key,
            final(self)@.tokens.next_id == old(self)@.tokens.next_id,
            r is Ok ==> is_revoked(final(self)@.tokens.revoked, parse_token(token@).unwrap().id),
            r is Ok ==> forall|x: u64|
                x != parse_token(token@).unwrap().id ==> is_revoked(
                    final(self)@.tokens.revoked,
                    x,
                ) == is_revoked(old(self)@.tokens.revoked, x),
            r is Err ==> final(self)@.tokens.revoked == old(self)@.tokens.revoked,
            wf(old(self)@) ==> wf(final(self)@),
    {
        self.tokens.revoke(token)
    }
}

/// Law: against the record a signup stored, exactly the password that was
/// signed up logs in; every other password is denied.
pub proof fn lemma_signup_password_exact(
    a: AuthView,
    id: Seq<char>,
    e: Seq<char>,
    pw0: Seq<char>,
    requires_2fa: bool,
    pw: Seq<char>,
    now: u64,
)
    requires
        spec_get(a.users, id) == Some(signup_record(e, pw0, requires_2fa)),
    ensures
        login_view(a, id, pw, now) is Denied <==> pw != pw0,
{
    crate::hasher::lemma_hash_exact(pw, pw0, salt_for(e, pw0));
}

/// Law: a login with an unknown identifier and a login with a wrong
/// password for an existing account yield the very same denial.
pub proof fn lemma_login_failures_alike(
    a1: AuthView,
    id1: Seq<char>,
    pw1: Seq<char>,
    now1: u64,
    a2: AuthView,
    id2: Seq<char>,
    pw2: Seq<char>,
    now2: u64,
)
    requires
        spec_get(a1.users, id1) is None,
        spec_get(a2.users, id2) is Some,
        !pw_matches(pw2, spec_get(a2.users, id2).unwrap().password),
    ensures
        login_view(a1, id1, pw1, now1) == LoginView::Denied,
        login_view(a2, id2, pw2, now2) == LoginView::Denied,
        login_view(a1, id1, pw1, now1) == login_view(a2, id2, pw2, now2),
{
}

/// Law: a token handed out by a login that authenticated verifies, at any
/// time in its window, to the stored identifier of the account that logged
/// in, as long as its fresh identifier has not been revoked.
pub proof fn lemma_login_token_verifies(
    a: AuthView,
    id: Seq<char>,
    pw: Seq<char>,
    now: u64,
    now2: u64,
)
    requires
        spec_get(a.users, id) is Some,
        pw_matches(pw, spec_get(a.users, id).unwrap().password),
        !spec_get(a.users, id).unwrap().requires_2fa,
        now <= u64::MAX - SESSION_TTL_MS,
        now <= now2 < now + SESSION_TTL_MS,
        !is_revoked(a.tokens.revoked, a.tokens.next_id),
    ensures
        login_view(a, id, pw, now) == (LoginView::Authenticated {
            token: token_str_of(
                a.tokens.next_id,
                now,
                (now + SESSION_TTL_MS) as u64,
                tag_of(
                    a.tokens.key,
                    a.tokens.next_id,
                    now,
                    (now + SESSION_TTL_MS) as u64,
                    spec_get(a.users, id).unwrap().email,
                ),
                spec_get(a.users, id).unwrap().email,
            ),
        }),
        token_outcome(
            a.tokens.key,
            a.tokens.revoked,
            token_str_of(
                a.tokens.next_id,
                now,
                (now + SESSION_TTL_MS) as u64,
                tag_of(
                    a.tokens.key,
                    a.tokens.next_id,
                    now,
                    (now + SESSION_TTL_MS) as u64,
                    spec_get(a.users, id).unwrap().email,
                ),
                spec_get(a.users, id).unwrap().email,
            ),
            now2,
        ) == Ok::<Seq<char>, TokenError>(spec_get(a.users, id).unwrap().email),
{
    lemma_fresh_token_verifies(
        a.tokens.key,
        a.tokens.revoked,
        a.tokens.next_id,
        now,
        (now + SESSION_TTL_MS) as u64,
        spec_get(a.users, id).unwrap().email,
        now2,
    );
}

} // verus!
