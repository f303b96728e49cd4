//! Signed, expiring session tokens and their revocation set.
//!
//! A token is a self-describing string: `t1$`, then the token identifier,
//! issued-at, expires-at and tag, each as sixteen hex digits, then `$` and
//! the subject.  The tag is a keyed fold of the other fields; verification
//! recomputes it, so a token altered anywhere fails.  Revocation stores the
//! token identifier (with its expiry, so the set can be pruned) and wins
//! over an otherwise valid token.

use vstd::prelude::*;
use crate::hex::append_hex16;
use crate::hex::hex16;
use crate::hex::hexval16;
use crate::hex::is_hex16;
use crate::hex::lemma_hex16_roundtrip;
use crate::hex::read_hex16;
use crate::text::fold64;
use crate::text::fold_str;
use crate::text::mix;
use crate::text::mix64;

verus! {

/// How long a session token stays valid, in milliseconds.
pub const SESSION_TTL_MS: u64 = 3600000;

/// The seed of the subject fold inside a token tag.
pub const TAG_SEED: u64 = 0x2545f4914f6cdd1d;

/// The errors token verification and revocation report.
#[derive(Debug, PartialEq)]
pub enum TokenError {
    Malformed,
    InvalidSignature,
    Expired,
    Revoked,
}

/// The fields carried by a well-formed token string.
pub struct TokenData {
    pub id: u64,
    pub issued_at: u64,
    pub expires_at: u64,
    pub sig: u64,
    pub subject: Seq<char>,
}

/// The ghost state of the token service.
pub struct TokenServiceView {
    pub key: u64,
    pub next_id: u64,
    pub revoked: Seq<(u64, u64)>,
}

/// Issues, verifies and revokes session tokens.
pub struct TokenService {
    key: u64,
    next_id: u64,
    revoked: Vec<(u64, u64)>,
}

impl View for TokenService {
    type V = TokenServiceView;

    closed spec fn view(&self) -> TokenServiceView {
        TokenServiceView { key: self.key, next_id: self.next_id, revoked: self.revoked@ }
    }
}

/// The three characters every token starts with.
pub open spec fn token_prefix() -> Seq<char> {
    seq!['t', '1', '$']
}

/// The tag a token carries: a keyed fold of its other fields.
pub open spec fn tag_of(key: u64, id: u64, iat: u64, eat: u64, subject: Seq<char>) -> u64 {
    mix64(mix64(mix64(mix64(key, id), iat), eat), fold64(TAG_SEED, subject))
}

/// The token string for the given fields.
pub open spec fn token_str_of(id: u64, iat: u64, eat: u64, sig: u64, subject: Seq<char>) -> Seq<
    char,
> {
    token_prefix() + hex16(id) + hex16(iat) + hex16(eat) + hex16(sig) + seq!['$'] + subject
}

/// The fields read back from a token string, where it is well-formed.
pub open spec fn parse_token(t: Seq<char>) -> Option<TokenData> {
    if t.len() >= 68 && t[0] == 't' && t[1] == '1' && t[2] == '$' && t[67] == '$' && is_hex16(t, 3)
        && is_hex16(t, 19) && is_hex16(t, 35) && is_hex16(t, 51) {
        Some(
            TokenData {
                id: hexval16(t, 3),
                issued_at: hexval16(t, 19),
                expires_at: hexval16(t, 35),
                sig: hexval16(t, 51),
                subject: t.skip(68),
            },
        )
    } else {
        None
    }
}

/// Whether a token identifier stands in the revocation set.
pub open spec fn is_revoked(rv: Seq<(u64, u64)>, id: u64) -> bool {
    exists|i: int| 0 <= i < rv.len() && rv[i].0 == id
}

/// What token verification returns: signature first, then expiry, then
/// revocation, then the embedded subject.
pub open spec fn token_outcome(key: u64, rv: Seq<(u64, u64)>, t: Seq<char>, now: u64) -> Result<
    Seq<char>,
    TokenError,
> {
    match parse_token(t) {
        Option::None => Err(TokenError::Malformed),
        Option::Some(d) => if d.sig != tag_of(key, d.id, d.issued_at, d.expires_at, d.subject) {
            Err(TokenError::InvalidSignature)
        } else if !(d.issued_at <= now && now < d.expires_at) {
            Err(TokenError::Expired)
        } else if is_revoked(rv, d.id) {
            Err(TokenError::Revoked)
        } else {
            Ok(d.subject)
        },
    }
}

/// What revocation returns: only the shape and signature are checked, so
/// revoking is idempotent and works on expired tokens too.
pub open spec fn revoke_outcome(key: u64, t: Seq<char>) -> Result<(), TokenError> {
    match parse_token(t) {
        Option::None => Err(TokenError::Malformed),
        Option::Some(d) => if d.sig != tag_of(key, d.id, d.issued_at, d.expires_at, d.subject) {
            Err(TokenError::InvalidSignature)
        } else {
            Ok(())
        },
    }
}

/// A token built from fields parses back to those fields.
#[verifier::rlimit(100)]
pub proof fn lemma_token_roundtrip(id: u64, iat: u64, eat: u64, sig: u64, subject: Seq<char>)
    ensures
        parse_token(token_str_of(id, iat, eat, sig, subject)) == Some(
            TokenData { id, issued_at: iat, expires_at: eat, sig, subject },
        ),
{
    let t = token_str_of(id, iat, eat, sig, subject);
    let a1 = token_prefix() + hex16(id);
    let a2 = a1 + hex16(iat);
    let a3 = a2 + hex16(eat);
    let a4 = a3 + hex16(sig);
    let a5 = a4 + seq!['$'];
    assert(t =~= a5 + subject);
    assert forall|k: int| 0 <= k < 16 implies t[3 + k] == hex16(id)[k] by {
        assert(a1[3 + k] == hex16(id)[k]);
    }
    assert forall|k: int| 0 <= k < 16 implies t[19 + k] == hex16(iat)[k] by {
        assert(a2[19 + k] == hex16(iat)[k]);
    }
    assert forall|k: int| 0 <= k < 16 implies t[35 + k] == hex16(eat)[k] by {
        assert(a3[35 + k] == hex16(eat)[k]);
    }
    assert forall|k: int| 0 <= k < 16 implies t[51 + k] == hex16(sig)[k] by {
        assert(a4[51 + k] == hex16(sig)[k]);
    }
    lemma_hex16_roundtrip(t, 3, id);
    lemma_hex16_roundtrip(t, 19, iat);
    lemma_hex16_roundtrip(t, 35, eat);
    lemma_hex16_roundtrip(t, 51, sig);
    assert(t[0] == 't');
    assert(t[1] == '1');
    assert(t[2] == '$');
    assert(t[67] == '$');
    assert(t.skip(68) =~= subject);
}

impl TokenService {
    /// A service signing with `key`, with nothing issued or revoked yet.
    pub fn new(key: u64) -> (r: Self)
        ensures
            r@.key == key,
            r@.next_id == 0,
            r@.revoked == Seq::<(u64, u64)>::empty(),
    {
        let r = TokenService { key, next_id: 0, revoked: Vec::new() };
        proof {
            assert(r@.revoked =~= Seq::<(u64, u64)>::empty());
        }
        r
    }

    /// How many tokens have been issued; the next token takes this value
    /// as its identifier.
    pub fn issued_count(&self) -> (r: u64)
        ensures
            r == self@.next_id,
    {
        self.next_id
    }

    /// Whether `id` stands in the revocation set.
    fn contains_revoked(&self, id: u64) -> (r: bool)
        ensures
            r == is_revoked(self@.revoked, id),
    {
        let n = self.revoked.len();
        let mut i: usize = 0;
        while i < n
            invariant
                n == self@.revoked.len(),
                i <= n,
                forall|j: int| 0 <= j < i ==> self@.revoked[j].0 != id,
            decreases n - i,
        {
            if self.revoked[i].0 == id {
                return true;
            }
            i += 1;
        }
        false
    }

    /// Issues a token for `subject`, valid from `now` for the session
    /// window, under a fresh identifier.
    #[verifier::rlimit(60)]
    pub fn issue(&mut self, subject: &str, now: u64) -> (t: String)
        requires
            now <= u64::MAX - SESSION_TTL_MS,
            old(self)@.next_id < u64::MAX,
        ensures
            t@ == token_str_of(
                old(self)@.next_id,
                now,
                (now + SESSION_TTL_MS) as u64,
                tag_of(
                    old(self)@.key,
                    old(self)@.next_id,
                    now,
                    (now + SESSION_TTL_MS) as u64,
                    subject@,
                ),
                subject@,
            ),
            final(self)@.key == old(self)@.key,
            final(self)@.next_id == old(self)@.next_id + 1,
            final(self)@.revoked == old(self)@.revoked,
    {
        let id = self.next_id;
        self.next_id = self.next_id + 1;
        let eat = now + SESSION_TTL_MS;
        let sf = fold_str(TAG_SEED, subject);
        let sig = mix(mix(mix(mix(self.key, id), now), eat), sf);
        let mut t = String::from_str("t1$");
        proof {
            reveal_strlit("t1$");
            assert(t@ =~= token_prefix());
        }
        append_hex16(&mut t, id);
        append_hex16(&mut t, now);
        proof {
            assert(t@ =~= token_prefix() + hex16(id) + hex16(now));
        }
        append_hex16(&mut t, eat);
        append_hex16(&mut t, sig);
        t.append("$");
        proof {
            reveal_strlit("$");
            assert(t@ =~= token_prefix() + hex16(id) + hex16(now) + hex16(eat) + hex16(sig)
                + seq!['$']);
        }
        t.append(subject);
        proof {
            assert(t@ =~= token_str_of(id, now, eat, sig, subject@));
        }
        t
    }

    /// Verifies a token: `Malformed` for a string that is no token,
    /// `InvalidSignature` where the tag does not match, `Expired` outside
    /// `[issued-at, expires-at)`, `Revoked` for a revoked identifier, and
    /// otherwise the embedded subject.
    pub fn verify(&self, token: &str, now: u64) -> (r: Result<String, TokenError>)
        ensures
            match r {
                Ok(s) => token_outcome(self@.key, self@.revoked, token@, now) == Ok::<
                    Seq<char>,
                    TokenError,
                >(s@),
                Err(e) => token_outcome(self@.key, self@.revoked, token@, now) == Err::<
                    Seq<char>,
                    TokenError,
                >(e),
            },
    {
        let n = token.unicode_len();
        if n < 68 {
            return Err(TokenError::Malformed);
        }
        if !(token.get_char(0) == 't' && token.get_char(1) == '1' && token.get_char(2) == '$'
            && token.get_char(67) == '$') {
            return Err(TokenError::Malformed);
        }
        let (id, ok0) = read_hex16(token, 3);
        let (iat, ok1) = read_hex16(token, 19);
        let (eat, ok2) = read_hex16(token, 35);
        let (sig, ok3) = read_hex16(token, 51);
        if !(ok0 && ok1 && ok2 && ok3) {
            return Err(TokenError::Malformed);
        }
        let subject = token.substring_char(68, n);
        proof {
            assert(subject@ =~= token@.skip(68));
        }
        let sf = fold_str(TAG_SEED, subject);
        let expect = mix(mix(mix(mix(self.key, id), iat), eat), sf);
        if sig != expect {
            return Err(TokenError::InvalidSignature);
        }
        if !(iat <= now && now < eat) {
            return Err(TokenError::Expired);
        }
        if self.contains_revoked(id) {
            return Err(TokenError::Revoked);
        }
        Ok(subject.to_owned())
    }

    /// Revokes a token: checks shape and signature, then puts the token
    /// identifier into the revocation set.  Revoking twice is not an
    /// error, and revocation of other identifiers is untouched.
    pub fn revoke(&mut self, token: &str) -> (r: Result<(), TokenError>)
        ensures
            r == revoke_outcome(old(self)@.key, token@),
            final(self)@.key == old(self)@.key,
            final(self)@.next_id == old(self)@.next_id,
            r is Ok ==> is_revoked(final(self)@.revoked, parse_token(token@).unwrap().id),
            r is Ok ==> forall|x: u64|
                x != parse_token(token@).unwrap().id ==> is_revoked(final(self)@.revoked, x)
                    == is_revoked(old(self)@.revoked, x),
            r is Err ==> final(self)@.revoked == old(self)@.revoked,
    {
        let n = token.unicode_len();
        if n < 68 {
            return Err(TokenError::Malformed);
        }
        if !(token.get_char(0) == 't' && token.get_char(1) == '1' && token.get_char(2) == '$'
            && token.get_char(67) == '$') {
            return Err(TokenError::Malformed);
        }
        let (id, ok0) = read_hex16(token, 3);
        let (iat, ok1) = read_hex16(token, 19);
        let (eat, ok2) = read_hex16(token, 35);
        let (sig, ok3) = read_hex16(token, 51);
        if !(ok0 && ok1 && ok2 && ok3) {
            return Err(TokenError::Malformed);
        }
        let subject = token.substring_char(68, n);
        proof {
            assert(subject@ =~= token@.skip(68));
        }
        let sf = fold_str(TAG_SEED, subject);
        let expect = mix(mix(mix(mix(self.key, id), iat), eat), sf);
        if sig != expect {
            return Err(TokenError::InvalidSignature);
        }
        if self.contains_revoked(id) {
            return Ok(());
        }
        let ghost pre = self@.revoked;
        self.revoked.push((id, eat));
        proof {
            assert(self@.revoked == pre.push((id, eat)));
            assert(self@.revoked[pre.len() as int].0 == id);
            assert(is_revoked(self@.revoked, id));
            assert forall|x: u64| x != id implies is_revoked(self@.revoked, x) == is_revoked(
                pre,
                x,
            ) by {
                if is_revoked(pre, x) {
                    let i = choose|i: int| 0 <= i < pre.len() && pre[i].0 == x;
                    assert(self@.revoked[i].0 == x);
                    assert(is_revoked(self@.revoked, x));
                }
                if is_revoked(self@.revoked, x) {
                    let i = choose|i: int|
                        0 <= i < self@.revoked.len() && self@.revoked[i].0 == x;
                    assert(0 <= i < pre.len());
                    assert(pre[i].0 == x);
                    assert(is_revoked(pre, x));
                }
            }
        }
        Ok(())
    }

    /// Drops revocation entries whose token has expired anyway: a pruned
    /// identifier belongs only to tokens that `verify` already rejects as
    /// `Expired` at any time from `now` on.
    pub fn prune(&mut self, now: u64)
        ensures
            final(self)@.key == old(self)@.key,
            final(self)@.next_id == old(self)@.next_id,
            forall|i: int|
                0 <= i < final(self)@.revoked.len() ==> (#[trigger] final(self)@.revoked[i]).1
                    > now && old(self)@.revoked.contains(final(self)@.revoked[i]),
            forall|i: int|
                0 <= i < old(self)@.revoked.len() && (#[trigger] old(self)@.revoked[i]).1 > now
                    ==> final(self)@.revoked.contains(old(self)@.revoked[i]),
    {
        let n = self.revoked.len();
        let mut kept: Vec<(u64, u64)> = Vec::new();
        let mut i: usize = 0;
        while i < n
            invariant
                n == self@.revoked.len(),
                i <= n,
                forall|k: int|
                    0 <= k < kept@.len() ==> (#[trigger] kept@[k]).1 > now
                        && self@.revoked.contains(kept@[k]),
                forall|j: int|
                    0 <= j < i && (#[trigger] self@.revoked[j]).1 > now ==> kept@.contains(
                        self@.revoked[j],
                    ),
            decreases n - i,
        {
            let e = self.revoked[i];
            let ghost kpre = kept@;
            if e.1 > now {
                kept.push(e);
            }
            proof {
                assert forall|k: int|
                    0 <= k < kept@.len() implies (#[trigger] kept@[k]).1 > now
                    && self@.revoked.contains(kept@[k]) by {
                    if k < kpre.len() {
                        assert(kept@[k] == kpre[k]);
                    } else {
                        assert(kept@[k] == self@.revoked[i as int]);
                    }
                }
                assert forall|j: int|
                    0 <= j < i + 1 && (#[trigger] self@.revoked[j]).1 > now implies kept@.contains(
                    self@.revoked[j],
                ) by {
                    if j < i as int {
                        let k = choose|k: int| 0 <= k < kpre.len() && kpre[k] == self@.revoked[j];
                        assert(kept@[k] == self@.revoked[j]);
                    } else {
                        assert(kept@[kept@.len() - 1] == self@.revoked[j]);
                    }
                }
            }
            i += 1;
        }
        self.revoked = kept;
    }
}

/// Law: a token the service issued verifies to its subject, in any state
/// that signs with the same key, at any time inside the token's window,
/// as long as its identifier is not revoked there.
pub proof fn lemma_fresh_token_verifies(
    key: u64,
    rv: Seq<(u64, u64)>,
    id: u64,
    iat: u64,
    eat: u64,
    subject: Seq<char>,
    now: u64,
)
    requires
        !is_revoked(rv, id),
        iat <= now < eat,
    ensures
        token_outcome(
            key,
            rv,
            token_str_of(id, iat, eat, tag_of(key, id, iat, eat, subject), subject),
            now,
        ) == Ok::<Seq<char>, TokenError>(subject),
{
    lemma_token_roundtrip(id, iat, eat, tag_of(key, id, iat, eat, subject), subject);
}

/// Law: a token that verifies in one state fails as `Revoked` in any state
/// with the same key where its identifier stands in the revocation set,
/// while its window still holds.
pub proof fn lemma_revoked_token_rejected(
    key: u64,
    rv1: Seq<(u64, u64)>,
    rv2: Seq<(u64, u64)>,
    t: Seq<char>,
    now: u64,
    now2: u64,
)
    requires
        token_outcome(key, rv1, t, now) is Ok,
        is_revoked(rv2, parse_token(t).unwrap().id),
        parse_token(t).unwrap().issued_at <= now2 < parse_token(t).unwrap().expires_at,
    ensures
        token_outcome(key, rv2, t, now2) == Err::<Seq<char>, TokenError>(TokenError::Revoked),
{
}

} // verus!
