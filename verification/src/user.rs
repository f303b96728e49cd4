//! Account records.

use vstd::prelude::*;
use crate::hasher::hash_of;
use crate::hasher::hash_password;
use crate::text::fold64;
use crate::text::fold_str;

verus! {

/// The seed of the salt derivation fold.
pub const SALT_SEED: u64 = 0x9e3779b97f4a7c15;

/// The ghost value of an account record.
pub struct UserView {
    pub email: Seq<char>,
    pub password: Seq<char>,
    pub requires_2fa: bool,
}

/// The salt a fresh record derives from its inputs.  The derivation is
/// deterministic so that record creation is a pure function; a deployment
/// that wants per-call entropy calls `hash_password` with its own salt.
pub open spec fn salt_for(email: Seq<char>, password: Seq<char>) -> u64 {
    fold64(fold64(SALT_SEED, email), password)
}

/// An account record: identifier, stored credential, and whether a second
/// factor is required at login.  The `password` field never holds the
/// plaintext; `new` stores the salted hash of what it was given.
#[derive(Clone, Debug, PartialEq)]
pub struct User {
    pub email: String,
    pub password: String,
    requires_2fa: bool,
}

impl View for User {
    type V = UserView;

    closed spec fn view(&self) -> UserView {
        UserView {
            email: self.email@,
            password: self.password@,
            requires_2fa: self.requires_2fa,
        }
    }
}

impl User {
    /// Builds a record for `email`, hashing the supplied plaintext
    /// credential before it is stored.
    pub fn new(email: String, password: String, requires_2fa: bool) -> (r: User)
        ensures
            r@.email == email@,
            r@.password == hash_of(password@, salt_for(email@, password@)),
            r@.requires_2fa == requires_2fa,
    {
        let salt = fold_str(fold_str(SALT_SEED, email.as_str()), password.as_str());
        let hashed = hash_password(password.as_str(), salt);
        User { email, password: hashed, requires_2fa }
    }

    /// Whether this account requires a second factor at login.
    pub fn requires_2fa(&self) -> (r: bool)
        ensures
            r == self@.requires_2fa,
    {
        self.requires_2fa
    }

    /// The account identifier.
    pub fn email_ref(&self) -> (r: &String)
        ensures
            r@ == self@.email,
    {
        &self.email
    }

    /// The stored credential hash.
    pub fn password_ref(&self) -> (r: &String)
        ensures
            r@ == self@.password,
    {
        &self.password
    }

    /// A field-for-field copy of the record.
    pub fn duplicate(&self) -> (r: User)
        ensures
            r@ == self@,
    {
        User {
            email: self.email.clone(),
            password: self.password.clone(),
            requires_2fa: self.requires_2fa,
        }
    }
}

} // verus!
