//! Single-use second-factor challenges, at most one outstanding per
//! account.  Issuing a new challenge replaces any prior one; a challenge
//! is consumed exactly once, and expires after a fixed window.

use vstd::prelude::*;
use crate::hex::append_hex16;
use crate::hex::hex16;
use crate::text::ct_eq;
use crate::text::eq_fold;
use crate::text::mix;
use crate::text::mix64;
use crate::text::norm;

verus! {

/// How long a challenge stays valid, in milliseconds.
pub const CHALLENGE_TTL_MS: u64 = 600000;

/// The generator step that yields the code for the current state.
pub const CODE_SALT: u64 = 0xa0761d6478bd642f;

/// The generator step that advances the state after an issue.
pub const GEN_SALT: u64 = 0xe7037ed1a0b428db;

/// The errors the challenge manager reports.
#[derive(Debug, PartialEq)]
pub enum ChallengeError {
    NoChallengePending,
    ChallengeExpired,
    ChallengeMismatch,
}

/// The ghost value of one outstanding challenge.
pub struct ChallengeView {
    pub account: Seq<char>,
    pub code: Seq<char>,
    pub expires_at: u64,
    pub consumed: bool,
}

struct ChallengeEntry {
    account: String,
    code: String,
    expires_at: u64,
    consumed: bool,
}

impl View for ChallengeEntry {
    type V = ChallengeView;

    closed spec fn view(&self) -> ChallengeView {
        ChallengeView {
            account: self.account@,
            code: self.code@,
            expires_at: self.expires_at,
            consumed: self.consumed,
        }
    }
}

/// The ghost state of the challenge manager.
pub struct TwoFactorView {
    pub entries: Seq<ChallengeView>,
    pub gen: u64,
}

/// Issues and consumes second-factor challenges.
pub struct TwoFactorManager {
    entries: Vec<ChallengeEntry>,
    gen: u64,
}

impl View for TwoFactorManager {
    type V = TwoFactorView;

    closed spec fn view(&self) -> TwoFactorView {
        TwoFactorView {
            entries: Seq::new(self.entries@.len(), |i: int| self.entries@[i]@),
            gen: self.gen,
        }
    }
}

/// The challenge outstanding for `id`, compared up to ASCII case; the
/// first match wins.
pub open spec fn spec_challenge(s: Seq<ChallengeView>, id: Seq<char>) -> Option<ChallengeView>
    decreases s.len(),
{
    if s.len() == 0 {
        None
    } else if norm(s[0].account) == norm(id) {
        Some(s[0])
    } else {
        spec_challenge(s.drop_first(), id)
    }
}

/// No two challenges belong to the same account, up to ASCII case.
pub open spec fn unique_accounts(s: Seq<ChallengeView>) -> bool {
    forall|i: int, j: int|
        0 <= i < j < s.len() ==> norm(s[i].account) != norm(s[j].account)
}

/// The code the generator in state `g` issues next.
pub open spec fn code_of(g: u64) -> Seq<char> {
    hex16(mix64(g, CODE_SALT))
}

/// The generator state after an issue.
pub open spec fn next_gen(g: u64) -> u64 {
    mix64(g, GEN_SALT)
}

/// What consuming a challenge returns, per spec state.
pub open spec fn challenge_outcome(
    s: Seq<ChallengeView>,
    id: Seq<char>,
    code: Seq<char>,
    now: u64,
) -> Result<(), ChallengeError> {
    match spec_challenge(s, id) {
        Option::None => Err(ChallengeError::NoChallengePending),
        Option::Some(e) => if e.consumed {
            Err(ChallengeError::NoChallengePending)
        } else if now >= e.expires_at {
            Err(ChallengeError::ChallengeExpired)
        } else if code != e.code {
            Err(ChallengeError::ChallengeMismatch)
        } else {
            Ok(())
        },
    }
}

/// An account no entry matches has no challenge.
proof fn lemma_challenge_absent(s: Seq<ChallengeView>, id: Seq<char>)
    requires
        forall|j: int| 0 <= j < s.len() ==> norm(s[j].account) != norm(id),
    ensures
        spec_challenge(s, id) is None,
    decreases s.len(),
{
    if s.len() > 0 {
        assert forall|j: int|
            0 <= j < s.drop_first().len() implies norm(s.drop_first()[j].account) != norm(id) by {
            assert(s.drop_first()[j] == s[j + 1]);
        }
        lemma_challenge_absent(s.drop_first(), id);
    }
}

/// An account with no challenge has no matching entry.
proof fn lemma_challenge_none(s: Seq<ChallengeView>, id: Seq<char>)
    requires
        spec_challenge(s, id) is None,
    ensures
        forall|j: int| 0 <= j < s.len() ==> norm(s[j].account) != norm(id),
    decreases s.len(),
{
    if s.len() > 0 {
        lemma_challenge_none(s.drop_first(), id);
        assert forall|j: int| 0 <= j < s.len() implies norm(s[j].account) != norm(id) by {
            if j > 0 {
                assert(s.drop_first()[j - 1] == s[j]);
            }
        }
    }
}

/// How a lookup reads through a `push`.
proof fn lemma_challenge_push(s: Seq<ChallengeView>, v: ChallengeView, id: Seq<char>)
    ensures
        spec_challenge(s.push(v), id) == (if spec_challenge(s, id) is Some {
            spec_challenge(s, id)
        } else if norm(v.account) == norm(id) {
            Some(v)
        } else {
            None::<ChallengeView>
        }),
    decreases s.len(),
{
    if s.len() == 0 {
        assert(s.push(v).drop_first() =~= s);
        assert(s.push(v)[0] == v);
    } else {
        assert(s.push(v).drop_first() =~= s.drop_first().push(v));
        assert(s.push(v)[0] == s[0]);
        lemma_challenge_push(s.drop_first(), v, id);
    }
}

/// How a lookup reads through replacing the first matching entry.
proof fn lemma_challenge_update(s: Seq<ChallengeView>, i: int, v: ChallengeView, id: Seq<char>)
    requires
        0 <= i < s.len(),
        forall|j: int| 0 <= j < i ==> norm(s[j].account) != norm(s[i].account),
        norm(v.account) == norm(s[i].account),
    ensures
        norm(id) == norm(s[i].account) ==> spec_challenge(s.update(i, v), id) == Some(v),
        norm(id) != norm(s[i].account) ==> spec_challenge(s.update(i, v), id) == spec_challenge(
            s,
            id,
        ),
    decreases i,
{
    if i == 0 {
        assert(s.update(0, v)[0] == v);
        assert(s.update(0, v).drop_first() =~= s.drop_first());
    } else {
        assert(s.update(i, v)[0] == s[0]);
        assert(s.update(i, v).drop_first() =~= s.drop_first().update(i - 1, v));
        assert forall|j: int|
            0 <= j < i - 1 implies #[trigger] norm(s.drop_first()[j].account) != norm(
            s.drop_first()[i - 1].account,
        ) by {
            assert(s.drop_first()[j] == s[j + 1]);
            assert(s.drop_first()[i - 1] == s[i]);
        }
        lemma_challenge_update(s.drop_first(), i - 1, v, id);
    }
}

/// How a lookup reads through removing the only matching entry.
proof fn lemma_challenge_remove(s: Seq<ChallengeView>, i: int, id: Seq<char>)
    requires
        0 <= i < s.len(),
        forall|j: int|
            0 <= j < s.len() && j != i ==> #[trigger] norm(s[j].account) != norm(s[i].account),
    ensures
        norm(id) == norm(s[i].account) ==> spec_challenge(s.remove(i), id) is None,
        norm(id) != norm(s[i].account) ==> spec_challenge(s.remove(i), id) == spec_challenge(
            s,
            id,
        ),
    decreases i,
{
    if i == 0 {
        assert(s.remove(0) =~= s.drop_first());
        if norm(id) == norm(s[0].account) {
            assert forall|j: int|
                0 <= j < s.drop_first().len() implies norm(s.drop_first()[j].account) != norm(
                id,
            ) by {
                assert(s.drop_first()[j] == s[j + 1]);
            }
            lemma_challenge_absent(s.drop_first(), id);
        }
    } else {
        assert(s.remove(i)[0] == s[0]);
        assert(s.remove(i).drop_first() =~= s.drop_first().remove(i - 1));
        assert forall|j: int|
            0 <= j < s.drop_first().len() && j != i - 1 implies #[trigger] norm(
            s.drop_first()[j].account,
        ) != norm(s.drop_first()[i - 1].account) by {
            assert(s.drop_first()[j] == s[j + 1]);
            assert(s.drop_first()[i - 1] == s[i]);
        }
        lemma_challenge_remove(s.drop_first(), i - 1, id);
    }
}

impl TwoFactorManager {
    /// An empty manager whose code generator starts from `seed`.
    pub fn new(seed: u64) -> (r: Self)
        ensures
            r@.entries == Seq::<ChallengeView>::empty(),
            r@.gen == seed,
            unique_accounts(r@.entries),
    {
        let r = TwoFactorManager { entries: Vec::new(), gen: seed };
        proof {
            assert(r@.entries =~= Seq::<ChallengeView>::empty());
        }
        r
    }

    /// The index of the first entry matching `account`, if any.
    fn find_idx(&self, account: &str) -> (r: Option<usize>)
        ensures
            match r {
                Some(i) => i < self@.entries.len() && norm(self@.entries[i as int].account)
                    == norm(account@) && spec_challenge(self@.entries, account@) == Some(
                    self@.entries[i as int],
                ) && forall|j: int|
                    0 <= j < i ==> norm(self@.entries[j].account) != norm(account@),
                None => spec_challenge(self@.entries, account@) is None,
            },
    {
        let n = self.entries.len();
        let mut i: usize = 0;
        proof {
            assert(self@.entries.skip(0) =~= self@.entries);
        }
        while i < n
            invariant
                n == self@.entries.len(),
                i <= n,
                spec_challenge(self@.entries, account@) == spec_challenge(
                    self@.entries.skip(i as int),
                    account@,
                ),
                forall|j: int| 0 <= j < i ==> norm(self@.entries[j].account) != norm(account@),
            decreases n - i,
        {
            let found = eq_fold(self.entries[i].account.as_str(), account);
            proof {
                assert(self@.entries.skip(i as int)[0] == self@.entries[i as int]);
            }
            if found {
                return Some(i);
            }
            proof {
                assert(self@.entries.skip(i as int).drop_first() =~= self@.entries.skip(
                    i as int + 1,
                ));
            }
            i += 1;
        }
        proof {
            assert(self@.entries.skip(n as int) =~= Seq::<ChallengeView>::empty());
        }
        None
    }

    /// Issues a fresh challenge for `account`, replacing any prior one,
    /// valid until `now + CHALLENGE_TTL_MS`.  The code is returned to the
    /// caller, who hands it to the delivery channel.
    pub fn issue(&mut self, account: &str, now: u64) -> (code: String)
        requires
            now <= u64::MAX - CHALLENGE_TTL_MS,
            unique_accounts(old(self)@.entries),
        ensures
            code@ == code_of(old(self)@.gen),
            final(self)@.gen == next_gen(old(self)@.gen),
            spec_challenge(final(self)@.entries, account@) == Some(
                ChallengeView {
                    account: account@,
                    code: code_of(old(self)@.gen),
                    expires_at: (now + CHALLENGE_TTL_MS) as u64,
                    consumed: false,
                },
            ),
            forall|id2: Seq<char>|
                norm(id2) != norm(account@) ==> spec_challenge(final(self)@.entries, id2)
                    == spec_challenge(old(self)@.entries, id2),
            unique_accounts(final(self)@.entries),
    {
        let mut code = String::new();
        append_hex16(&mut code, mix(self.gen, CODE_SALT));
        proof {
            assert(code@ =~= code_of(self.gen));
        }
        let entry = ChallengeEntry {
            account: account.to_owned(),
            code: code.clone(),
            expires_at: now + CHALLENGE_TTL_MS,
            consumed: false,
        };
        let ghost pre = self@.entries;
        let ghost v = entry@;
        let idx = self.find_idx(account);
        match idx {
            Some(i) => {
                self.entries[i] = entry;
                proof {
                    assert(self@.entries =~= pre.update(i as int, v));
                    lemma_challenge_update(pre, i as int, v, account@);
                    assert forall|id2: Seq<char>| norm(id2) != norm(account@) implies spec_challenge(
                        self@.entries,
                        id2,
                    ) == spec_challenge(pre, id2) by {
                        lemma_challenge_update(pre, i as int, v, id2);
                    }
                    assert(unique_accounts(self@.entries));
                }
            },
            None => {
                proof {
                    lemma_challenge_none(pre, account@);
                }
                self.entries.push(entry);
                proof {
                    assert(self@.entries =~= pre.push(v));
                    lemma_challenge_push(pre, v, account@);
                    assert forall|id2: Seq<char>| norm(id2) != norm(account@) implies spec_challenge(
                        self@.entries,
                        id2,
                    ) == spec_challenge(pre, id2) by {
                        lemma_challenge_push(pre, v, id2);
                    }
                    assert(unique_accounts(self@.entries));
                }
            },
        }
        self.gen = mix(self.gen, GEN_SALT);
        code
    }

    /// Consumes the challenge for `account` if `code` matches: fails
    /// `NoChallengePending` with no entry or a consumed one, drops an
    /// expired entry, leaves the entry untouched on a mismatch, and marks
    /// it consumed on success.
    pub fn verify(&mut self, account: &str, code: &str, now: u64) -> (r: Result<
        (),
        ChallengeError,
    >)
        requires
            unique_accounts(old(self)@.entries),
        ensures
            r == challenge_outcome(old(self)@.entries, account@, code@, now),
            final(self)@.gen == old(self)@.gen,
            unique_accounts(final(self)@.entries),
            r == Ok::<(), ChallengeError>(()) ==> spec_challenge(final(self)@.entries, account@)
                == Some(
                ChallengeView {
                    account: spec_challenge(old(self)@.entries, account@).unwrap().account,
                    code: spec_challenge(old(self)@.entries, account@).unwrap().code,
                    expires_at: spec_challenge(old(self)@.entries, account@).unwrap().expires_at,
                    consumed: true,
                },
            ),
            r == Err::<(), ChallengeError>(ChallengeError::ChallengeExpired) ==> spec_challenge(
                final(self)@.entries,
                account@,
            ) is None,
            (r == Err::<(), ChallengeError>(ChallengeError::NoChallengePending) || r == Err::<
                (),
                ChallengeError,
            >(ChallengeError::ChallengeMismatch)) ==> final(self)@.entries == old(self)@.entries,
            forall|id2: Seq<char>|
                norm(id2) != norm(account@) ==> spec_challenge(final(self)@.entries, id2)
                    == spec_challenge(old(self)@.entries, id2),
    {
        let ghost pre = self@.entries;
        let idx = self.find_idx(account);
        match idx {
            None => Err(ChallengeError::NoChallengePending),
            Some(i) => {
                if self.entries[i].consumed {
                    Err(ChallengeError::NoChallengePending)
                } else if now >= self.entries[i].expires_at {
                    proof {
                        assert forall|j: int|
                            0 <= j < pre.len() && j != i as int implies #[trigger] norm(
                            pre[j].account,
                        ) != norm(pre[i as int].account) by {
                            if j > i as int {
                                assert(norm(pre[i as int].account) == norm(account@));
                            }
                        }
                    }
                    self.entries.remove(i);
                    proof {
                        assert(self@.entries =~= pre.remove(i as int));
                        lemma_challenge_remove(pre, i as int, account@);
                        assert forall|id2: Seq<char>|
                            norm(id2) != norm(account@) implies spec_challenge(
                            self@.entries,
                            id2,
                        ) == spec_challenge(pre, id2) by {
                            lemma_challenge_remove(pre, i as int, id2);
                        }
                    }
                    Err(ChallengeError::ChallengeExpired)
                } else {
                    let same = ct_eq(code, self.entries[i].code.as_str());
                    if !same {
                        Err(ChallengeError::ChallengeMismatch)
                    } else {
                        let upd = ChallengeEntry {
                            account: self.entries[i].account.clone(),
                            code: self.entries[i].code.clone(),
                            expires_at: self.entries[i].expires_at,
                            consumed: true,
                        };
                        let ghost v = upd@;
                        self.entries[i] = upd;
                        proof {
                            assert(self@.entries =~= pre.update(i as int, v));
                            lemma_challenge_update(pre, i as int, v, account@);
                            assert forall|id2: Seq<char>|
                                norm(id2) != norm(account@) implies spec_challenge(
                                self@.entries,
                                id2,
                            ) == spec_challenge(pre, id2) by {
                                lemma_challenge_update(pre, i as int, v, id2);
                            }
                            assert(unique_accounts(self@.entries));
                        }
                        Ok(())
                    }
                }
            },
        }
    }
}

/// Law: a mismatching code fails without consuming: in the same state the
/// stored code still verifies.
pub proof fn lemma_mismatch_keeps_challenge(
    s: Seq<ChallengeView>,
    id: Seq<char>,
    wrong: Seq<char>,
    now: u64,
    now2: u64,
)
    requires
        spec_challenge(s, id) is Some,
        !spec_challenge(s, id).unwrap().consumed,
        now < spec_challenge(s, id).unwrap().expires_at,
        now2 < spec_challenge(s, id).unwrap().expires_at,
        wrong != spec_challenge(s, id).unwrap().code,
    ensures
        challenge_outcome(s, id, wrong, now) == Err::<(), ChallengeError>(
            ChallengeError::ChallengeMismatch,
        ),
        challenge_outcome(s, id, spec_challenge(s, id).unwrap().code, now2) == Ok::<
            (),
            ChallengeError,
        >(()),
{
}

/// Law: a challenge is single-use: in any state whose entry for the
/// account is the consumed copy, the same code fails as no longer pending.
pub proof fn lemma_challenge_single_use(
    s1: Seq<ChallengeView>,
    s2: Seq<ChallengeView>,
    id: Seq<char>,
    code: Seq<char>,
    now: u64,
    now2: u64,
)
    requires
        challenge_outcome(s1, id, code, now) == Ok::<(), ChallengeError>(()),
        spec_challenge(s2, id) == Some(
            ChallengeView {
                account: spec_challenge(s1, id).unwrap().account,
                code: spec_challenge(s1, id).unwrap().code,
                expires_at: spec_challenge(s1, id).unwrap().expires_at,
                consumed: true,
            },
        ),
    ensures
        challenge_outcome(s2, id, code, now2) == Err::<(), ChallengeError>(
            ChallengeError::NoChallengePending,
        ),
{
}

} // verus!
