//! The in-memory credential store: account records addressed by their
//! identifier, compared case-insensitively.

use vstd::prelude::*;
use crate::hasher::pw_matches;
use crate::hasher::verify_password;
use crate::text::eq_fold;
use crate::text::norm;
use crate::user::User;
use crate::user::UserView;

verus! {

/// The errors the credential store reports.
#[derive(Debug, PartialEq)]
pub enum UserStoreError {
    UserAlreadyExists,
    UserNotFound,
    InvalidCredentials,
    UnexpectedError,
}

/// An in-memory map from account identifier to account record.
pub struct HashmapUserStore {
    users: Vec<User>,
}

/// The ghost values of a sequence of records.
pub open spec fn user_views(s: Seq<User>) -> Seq<UserView> {
    Seq::new(s.len(), |i: int| s[i]@)
}

impl View for HashmapUserStore {
    type V = Seq<UserView>;

    closed spec fn view(&self) -> Seq<UserView> {
        user_views(self.users@)
    }
}

/// The record stored under identifier `id`, compared up to ASCII case;
/// the first match wins.
pub open spec fn spec_get(s: Seq<UserView>, id: Seq<char>) -> Option<UserView>
    decreases s.len(),
{
    if s.len() == 0 {
        None
    } else if norm(s[0].email) == norm(id) {
        Some(s[0])
    } else {
        spec_get(s.drop_first(), id)
    }
}

/// No two records share an identifier, up to ASCII case.
pub open spec fn unique_ids(s: Seq<UserView>) -> bool {
    forall|i: int, j: int|
        0 <= i < j < s.len() ==> norm(s[i].email) != norm(s[j].email)
}

/// What `add_user` returns.
pub open spec fn add_result(s: Seq<UserView>, u: UserView) -> Result<(), UserStoreError> {
    if spec_get(s, u.email) is Some {
        Err(UserStoreError::UserAlreadyExists)
    } else {
        Ok(())
    }
}

/// The store contents after `add_user`.
pub open spec fn add_state(s: Seq<UserView>, u: UserView) -> Seq<UserView> {
    if spec_get(s, u.email) is Some {
        s
    } else {
        s.push(u)
    }
}

/// What `validate_user` returns.
pub open spec fn validate_result(s: Seq<UserView>, id: Seq<char>, pw: Seq<char>) -> Result<
    (),
    UserStoreError,
> {
    match spec_get(s, id) {
        Option::None => Err(UserStoreError::UserNotFound),
        Option::Some(u) => if pw_matches(pw, u.password) {
            Ok(())
        } else {
            Err(UserStoreError::InvalidCredentials)
        },
    }
}

/// A store without a record for `id` has no record matching `id` anywhere.
pub proof fn lemma_spec_get_none(s: Seq<UserView>, id: Seq<char>)
    requires
        spec_get(s, id) is None,
    ensures
        forall|j: int| 0 <= j < s.len() ==> norm(s[j].email) != norm(id),
    decreases s.len(),
{
    if s.len() > 0 {
        lemma_spec_get_none(s.drop_first(), id);
        assert forall|j: int| 0 <= j < s.len() implies norm(s[j].email) != norm(id) by {
            if j > 0 {
                assert(s.drop_first()[j - 1] == s[j]);
            }
        }
    }
}

/// How a lookup reads through a `push`: an existing record shadows the new
/// one; otherwise the new record answers exactly for its own identifier.
pub proof fn lemma_spec_get_push(s: Seq<UserView>, u: UserView, id: Seq<char>)
    ensures
        spec_get(s.push(u), id) == (if spec_get(s, id) is Some {
            spec_get(s, id)
        } else if norm(u.email) == norm(id) {
            Some(u)
        } else {
            None::<UserView>
        }),
    decreases s.len(),
{
    if s.len() == 0 {
        assert(s.push(u).drop_first() =~= s);
        assert(s.push(u)[0] == u);
    } else {
        assert(s.push(u).drop_first() =~= s.drop_first().push(u));
        assert(s.push(u)[0] == s[0]);
        lemma_spec_get_push(s.drop_first(), u, id);
    }
}

impl Default for HashmapUserStore {
    /// An empty store.
    fn default() -> (r: Self)
        ensures
            r@ == Seq::<UserView>::empty(),
    {
        let r = HashmapUserStore { users: Vec::new() };
        proof {
            assert(r@ =~= Seq::<UserView>::empty());
        }
        r
    }
}

impl HashmapUserStore {
    /// The index of the first record matching `email`, if any.
    fn find_idx(&self, email: &str) -> (r: Option<usize>)
        ensures
            match r {
                Some(i) => i < self@.len() && norm(self@[i as int].email) == norm(email@)
                    && spec_get(self@, email@) == Some(self@[i as int]) && forall|j: int|
                    0 <= j < i ==> norm(self@[j].email) != norm(email@),
                None => spec_get(self@, email@) is None,
            },
    {
        let n = self.users.len();
        let mut i: usize = 0;
        proof {
            assert(self@.skip(0) =~= self@);
        }
        while i < n
            invariant
                n == self.users@.len(),
                i <= n,
                spec_get(self@, email@) == spec_get(self@.skip(i as int), email@),
                forall|j: int| 0 <= j < i ==> norm(self@[j].email) != norm(email@),
            decreases n - i,
        {
            let found = eq_fold(self.users[i].email_ref().as_str(), email);
            proof {
                assert(self@.skip(i as int)[0] == self@[i as int]);
                assert(self@[i as int] == self.users@[i as int]@);
            }
            if found {
                proof {
                    assert(spec_get(self@.skip(i as int), email@) == Some(self@[i as int]));
                }
                return Some(i);
            }
            proof {
                assert(self@.skip(i as int).drop_first() =~= self@.skip(i as int + 1));
            }
            i += 1;
        }
        proof {
            assert(self@.skip(n as int) =~= Seq::<UserView>::empty());
        }
        None
    }

    /// Inserts a record; fails if a record already answers for the same
    /// identifier, up to ASCII case.
    pub fn add_user(&mut self, user: User) -> (r: Result<(), UserStoreError>)
        ensures
            r == add_result(old(self)@, user@),
            final(self)@ == add_state(old(self)@, user@),
            unique_ids(old(self)@) ==> unique_ids(final(self)@),
    {
        match self.find_idx(user.email_ref().as_str()) {
            Some(_) => Err(UserStoreError::UserAlreadyExists),
            None => {
                proof {
                    lemma_spec_get_none(self@, user@.email);
                }
                let ghost pre = self@;
                self.users.push(user);
                proof {
                    assert(self@ =~= pre.push(user@));
                }
                Ok(())
            },
        }
    }

    /// The record stored for `email`, or `UserNotFound`.
    pub fn get_user(&self, email: &str) -> (r: Result<User, UserStoreError>)
        ensures
            match r {
                Ok(u) => spec_get(self@, email@) == Some(u@),
                Err(e) => spec_get(self@, email@) is None && e == UserStoreError::UserNotFound,
            },
    {
        match self.find_idx(email) {
            Some(i) => Ok(self.users[i].duplicate()),
            None => Err(UserStoreError::UserNotFound),
        }
    }

    /// Checks a plaintext credential against the record for `email`:
    /// `UserNotFound` if the identifier is unknown, `InvalidCredentials`
    /// if the stored hash does not match the credential.
    pub fn validate_user(&self, email: &str, password: &str) -> (r: Result<(), UserStoreError>)
        ensures
            r == validate_result(self@, email@, password@),
    {
        match self.get_user(email) {
            Err(_) => Err(UserStoreError::UserNotFound),
            Ok(u) => {
                if verify_password(password, u.password_ref().as_str()) {
                    Ok(())
                } else {
                    Err(UserStoreError::InvalidCredentials)
                }
            },
        }
    }
}

/// A lookup only reads its identifier through `norm`, so identifiers that
/// fold to the same form answer alike.
pub proof fn lemma_spec_get_norm(s: Seq<UserView>, id1: Seq<char>, id2: Seq<char>)
    requires
        norm(id1) == norm(id2),
    ensures
        spec_get(s, id1) == spec_get(s, id2),
    decreases s.len(),
{
    if s.len() > 0 {
        lemma_spec_get_norm(s.drop_first(), id1, id2);
    }
}

/// Law: signing a fresh identifier up succeeds, and signing up any record
/// with the same identifier (up to ASCII case) afterwards fails with
/// `UserAlreadyExists`, the store still answering with the first record.
pub proof fn lemma_signup_once(s: Seq<UserView>, u: UserView, v: UserView)
    requires
        spec_get(s, u.email) is None,
        norm(v.email) == norm(u.email),
    ensures
        add_result(s, u) == Ok::<(), UserStoreError>(()),
        add_result(add_state(s, u), v) == Err::<(), UserStoreError>(
            UserStoreError::UserAlreadyExists,
        ),
        spec_get(add_state(s, u), v.email) == Some(u),
        add_state(add_state(s, u), v) == add_state(s, u),
{
    lemma_spec_get_norm(s, u.email, v.email);
    lemma_spec_get_push(s, u, v.email);
}

} // verus!
