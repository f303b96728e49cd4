//! Salted credential hashing with constant-time verification.
//!
//! A stored credential has the shape `h1$` + sixteen hex digits of the salt
//! + `$` + eight hex digits per password character, each character's scalar
//! value masked with a salt-derived key.  The encoding is self-describing
//! (verification reads the salt back out of the stored value) and injective
//! per salt, which is what makes the exact verification contract provable:
//! a stored credential matches exactly one password.
//!
//! The scheme is deliberately simple so that every step of it is verified;
//! it is where a deployment hardens the format (memory-hard digest, salt
//! from an entropy source) without touching any of the contracts, which
//! speak only of `hash_of` and `pw_matches`.

use vstd::prelude::*;
use crate::hex::append_hex16;
use crate::hex::append_hex_digit;
use crate::hex::hex16;
use crate::hex::hexval16;
use crate::hex::hx;
use crate::hex::lemma_hex16_roundtrip;
use crate::hex::lemma_unhx_hx;
use crate::hex::read_hex16;
use crate::text::ct_eq;

verus! {

/// The three characters every credential hash starts with.
pub open spec fn hash_prefix() -> Seq<char> {
    seq!['h', '1', '$']
}

/// The 32-bit masking key carried by a salt.
pub open spec fn key_of(salt: u64) -> u32 {
    (salt & 0xffff_ffffu64) as u32
}

/// A password character's scalar value, masked with the salt key.
pub open spec fn mask_scalar(c: char, key: u32) -> u32 {
    (c as u32) ^ key
}

/// The eight hex digits of a masked scalar, highest nibble first.
pub open spec fn enc8(w: u32) -> Seq<char> {
    seq![
        hx((((w >> 28u32) & 15) as u64)),
        hx((((w >> 24u32) & 15) as u64)),
        hx((((w >> 20u32) & 15) as u64)),
        hx((((w >> 16u32) & 15) as u64)),
        hx((((w >> 12u32) & 15) as u64)),
        hx((((w >> 8u32) & 15) as u64)),
        hx((((w >> 4u32) & 15) as u64)),
        hx(((w & 15) as u64)),
    ]
}

/// The digest part of a credential hash: one `enc8` block per character.
pub open spec fn digest_of(p: Seq<char>, key: u32) -> Seq<char>
    decreases p.len(),
{
    if p.len() == 0 {
        Seq::empty()
    } else {
        enc8(mask_scalar(p[0], key)) + digest_of(p.drop_first(), key)
    }
}

/// The full credential hash of a password under a salt.
pub open spec fn hash_of(p: Seq<char>, salt: u64) -> Seq<char> {
    hash_prefix() + hex16(salt) + seq!['$'] + digest_of(p, key_of(salt))
}

/// The salt a stored credential carries in its characters 3..19.
pub open spec fn hash_salt_of(h: Seq<char>) -> u64 {
    hexval16(h, 3)
}

/// Whether the stored credential `h` is the hash of password `p` under the
/// salt that `h` itself carries.  A malformed `h` matches no password.
pub open spec fn pw_matches(p: Seq<char>, h: Seq<char>) -> bool {
    h == hash_of(p, hash_salt_of(h))
}

/// A digest has eight characters per password character.
pub proof fn lemma_digest_len(p: Seq<char>, key: u32)
    ensures
        digest_of(p, key).len() == 8 * p.len(),
    decreases p.len(),
{
    if p.len() != 0 {
        lemma_digest_len(p.drop_first(), key);
    }
}

/// Extending a password by one character appends one block to its digest.
pub proof fn lemma_digest_push(p: Seq<char>, c: char, key: u32)
    ensures
        digest_of(p.push(c), key) == digest_of(p, key) + enc8(mask_scalar(c, key)),
    decreases p.len(),
{
    if p.len() == 0 {
        assert(p.push(c).drop_first() =~= p);
        assert(p.push(c)[0] == c);
        assert(digest_of(p.push(c), key) == enc8(mask_scalar(c, key)) + digest_of(p, key));
        assert(digest_of(p, key) == Seq::<char>::empty());
        assert(digest_of(p.push(c), key) =~= digest_of(p, key) + enc8(mask_scalar(c, key)));
    } else {
        assert(p.push(c).drop_first() =~= p.drop_first().push(c));
        assert(p.push(c)[0] == p[0]);
        lemma_digest_push(p.drop_first(), c, key);
        assert(digest_of(p.push(c), key) == enc8(mask_scalar(p[0], key)) + digest_of(
            p.drop_first().push(c),
            key,
        ));
        assert(digest_of(p.push(c), key) =~= digest_of(p, key) + enc8(mask_scalar(c, key)));
    }
}

/// Computes the credential hash of `password` under `salt`.
#[verifier::rlimit(80)]
pub fn hash_password(password: &str, salt: u64) -> (r: String)
    ensures
        r@ == hash_of(password@, salt),
{
    let mut s = String::from_str("h1$");
    proof {
        reveal_strlit("h1$");
        assert(s@ =~= hash_prefix());
    }
    append_hex16(&mut s, salt);
    s.append("$");
    proof {
        reveal_strlit("$");
    }
    let key: u32 = (salt & 0xffff_ffff) as u32;
    let n = password.unicode_len();
    let mut i: usize = 0;
    proof {
        assert(password@.take(0) =~= Seq::<char>::empty());
        assert(s@ =~= hash_prefix() + hex16(salt) + seq!['$'] + digest_of(
            password@.take(0),
            key,
        ));
    }
    while i < n
        invariant
            n == password@.len(),
            i <= n,
            key == key_of(salt),
            s@ == hash_prefix() + hex16(salt) + seq!['$'] + digest_of(
                password@.take(i as int),
                key,
            ),
        decreases n - i,
    {
        let c = password.get_char(i);
        let w: u32 = (c as u32) ^ key;
        let ghost pre = s@;
        append_hex_digit(&mut s, ((w >> 28) & 15) as u64);
        append_hex_digit(&mut s, ((w >> 24) & 15) as u64);
        append_hex_digit(&mut s, ((w >> 20) & 15) as u64);
        append_hex_digit(&mut s, ((w >> 16) & 15) as u64);
        proof {
            assert(s@ =~= pre + seq![
                hx((((w >> 28u32) & 15) as u64)),
                hx((((w >> 24u32) & 15) as u64)),
                hx((((w >> 20u32) & 15) as u64)),
                hx((((w >> 16u32) & 15) as u64)),
            ]);
        }
        append_hex_digit(&mut s, ((w >> 12) & 15) as u64);
        append_hex_digit(&mut s, ((w >> 8) & 15) as u64);
        append_hex_digit(&mut s, ((w >> 4) & 15) as u64);
        append_hex_digit(&mut s, (w & 15) as u64);
        proof {
            assert(s@ =~= pre + enc8(mask_scalar(password@[i as int], key)));
            lemma_digest_push(password@.take(i as int), password@[i as int], key);
            assert(password@.take(i as int + 1) =~= password@.take(i as int).push(
                password@[i as int],
            ));
            assert(s@ =~= hash_prefix() + hex16(salt) + seq!['$'] + digest_of(
                password@.take(i as int + 1),
                key,
            ));
        }
        i += 1;
    }
    proof {
        assert(password@.take(n as int) =~= password@);
    }
    s
}

/// The salt written by `hash_of` reads back out, and the hash has a fixed
/// shape: twenty characters of header plus eight per password character.
pub proof fn lemma_hash_salt_roundtrip(p: Seq<char>, salt: u64)
    ensures
        hash_salt_of(hash_of(p, salt)) == salt,
        hash_of(p, salt).len() == 20 + 8 * p.len(),
{
    lemma_digest_len(p, key_of(salt));
    let h = hash_of(p, salt);
    assert forall|k: int| 0 <= k < 16 implies h[3 + k] == hex16(salt)[k] by {
        assert(h[3 + k] == (hash_prefix() + hex16(salt))[3 + k]);
    }
    lemma_hex16_roundtrip(h, 3, salt);
}

/// Two masked scalars with the same eight digits are the same scalar.
pub proof fn lemma_enc8_inj(w1: u32, w2: u32)
    requires
        enc8(w1) == enc8(w2),
    ensures
        w1 == w2,
{
    assert(((w1 >> 28u32) & 15) < 16 && ((w1 >> 24u32) & 15) < 16 && ((w1 >> 20u32) & 15) < 16 && (
    (w1 >> 16u32) & 15) < 16 && ((w1 >> 12u32) & 15) < 16 && ((w1 >> 8u32) & 15) < 16 && ((w1
        >> 4u32) & 15) < 16 && (w1 & 15) < 16 && ((w2 >> 28u32) & 15) < 16 && ((w2 >> 24u32) & 15)
        < 16 && ((w2 >> 20u32) & 15) < 16 && ((w2 >> 16u32) & 15) < 16 && ((w2 >> 12u32) & 15) < 16
        && ((w2 >> 8u32) & 15) < 16 && ((w2 >> 4u32) & 15) < 16 && (w2 & 15) < 16) by (bit_vector);
    assert(enc8(w1)[0] == enc8(w2)[0]);
    assert(enc8(w1)[1] == enc8(w2)[1]);
    assert(enc8(w1)[2] == enc8(w2)[2]);
    assert(enc8(w1)[3] == enc8(w2)[3]);
    assert(enc8(w1)[4] == enc8(w2)[4]);
    assert(enc8(w1)[5] == enc8(w2)[5]);
    assert(enc8(w1)[6] == enc8(w2)[6]);
    assert(enc8(w1)[7] == enc8(w2)[7]);
    lemma_unhx_hx((((w1 >> 28u32) & 15) as u64));
    lemma_unhx_hx((((w1 >> 24u32) & 15) as u64));
    lemma_unhx_hx((((w1 >> 20u32) & 15) as u64));
    lemma_unhx_hx((((w1 >> 16u32) & 15) as u64));
    lemma_unhx_hx((((w1 >> 12u32) & 15) as u64));
    lemma_unhx_hx((((w1 >> 8u32) & 15) as u64));
    lemma_unhx_hx((((w1 >> 4u32) & 15) as u64));
    lemma_unhx_hx(((w1 & 15) as u64));
    lemma_unhx_hx((((w2 >> 28u32) & 15) as u64));
    lemma_unhx_hx((((w2 >> 24u32) & 15) as u64));
    lemma_unhx_hx((((w2 >> 20u32) & 15) as u64));
    lemma_unhx_hx((((w2 >> 16u32) & 15) as u64));
    lemma_unhx_hx((((w2 >> 12u32) & 15) as u64));
    lemma_unhx_hx((((w2 >> 8u32) & 15) as u64));
    lemma_unhx_hx((((w2 >> 4u32) & 15) as u64));
    lemma_unhx_hx(((w2 & 15) as u64));
    assert(w1 == w2) by (bit_vector)
        requires
            (w1 >> 28u32) & 15 == (w2 >> 28u32) & 15,
            (w1 >> 24u32) & 15 == (w2 >> 24u32) & 15,
            (w1 >> 20u32) & 15 == (w2 >> 20u32) & 15,
            (w1 >> 16u32) & 15 == (w2 >> 16u32) & 15,
            (w1 >> 12u32) & 15 == (w2 >> 12u32) & 15,
            (w1 >> 8u32) & 15 == (w2 >> 8u32) & 15,
            (w1 >> 4u32) & 15 == (w2 >> 4u32) & 15,
            w1 & 15 == w2 & 15,
    ;
}

/// Two passwords of equal length with the same digest are the same password.
pub proof fn lemma_digest_inj(p1: Seq<char>, p2: Seq<char>, key: u32)
    requires
        digest_of(p1, key) == digest_of(p2, key),
        p1.len() == p2.len(),
    ensures
        p1 == p2,
    decreases p1.len(),
{
    if p1.len() == 0 {
        assert(p1 =~= p2);
    } else {
        assert forall|k: int| 0 <= k < 8 implies enc8(mask_scalar(p1[0], key))[k] == enc8(
            mask_scalar(p2[0], key),
        )[k] by {
            assert(digest_of(p1, key)[k] == enc8(mask_scalar(p1[0], key))[k]);
            assert(digest_of(p2, key)[k] == enc8(mask_scalar(p2[0], key))[k]);
        }
        assert(enc8(mask_scalar(p1[0], key)) =~= enc8(mask_scalar(p2[0], key)));
        lemma_enc8_inj(mask_scalar(p1[0], key), mask_scalar(p2[0], key));
        let u1 = p1[0] as u32;
        let u2 = p2[0] as u32;
        assert(u1 == u2) by (bit_vector)
            requires
                u1 ^ key == u2 ^ key,
        ;
        vstd::utf8::char_u32_cast(p1[0], u1);
        vstd::utf8::char_u32_cast(p2[0], u1);
        lemma_digest_len(p1.drop_first(), key);
        lemma_digest_len(p2.drop_first(), key);
        assert(digest_of(p1, key).skip(8) =~= digest_of(p1.drop_first(), key));
        assert(digest_of(p2, key).skip(8) =~= digest_of(p2.drop_first(), key));
        lemma_digest_inj(p1.drop_first(), p2.drop_first(), key);
        assert forall|i: int| 0 <= i < p1.len() implies p1[i] == p2[i] by {
            if i > 0 {
                assert(p1.drop_first()[i - 1] == p2.drop_first()[i - 1]);
            }
        }
        assert(p1 =~= p2);
    }
}

/// The exact verification law: a hash matches the password it was made
/// from, and no other.
pub proof fn lemma_hash_exact(p: Seq<char>, p0: Seq<char>, salt: u64)
    ensures
        pw_matches(p, hash_of(p0, salt)) <==> p == p0,
{
    lemma_hash_salt_roundtrip(p0, salt);
    if pw_matches(p, hash_of(p0, salt)) {
        lemma_hash_salt_roundtrip(p, salt);
        let key = key_of(salt);
        assert(hash_of(p, salt) == hash_of(p0, salt));
        assert(hash_of(p, salt).skip(20) =~= digest_of(p, key));
        assert(hash_of(p0, salt).skip(20) =~= digest_of(p0, key));
        lemma_digest_inj(p, p0, key);
    }
}

/// Whether `password` is the password that `stored` was produced from.
/// A `stored` value that `hash_password` cannot have produced (for the salt
/// it carries) matches nothing.
pub fn verify_password(password: &str, stored: &str) -> (r: bool)
    ensures
        r == pw_matches(password@, stored@),
{
    let sl = stored.unicode_len();
    if sl < 20 {
        proof {
            lemma_hash_salt_roundtrip(password@, hash_salt_of(stored@));
        }
        return false;
    }
    let (salt, _ok) = read_hex16(stored, 3);
    let expected = hash_password(password, salt);
    ct_eq(stored, expected.as_str())
}

} // verus!
