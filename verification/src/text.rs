//! Character-level helpers: ASCII case folding for account identifiers,
//! constant-time string comparison for secrets, and a 64-bit mixing fold
//! used to derive salts, challenge codes and token tags.

use vstd::prelude::*;

verus! {

/// ASCII lower-casing of one character; identifiers are compared under it.
pub open spec fn lower_char(c: char) -> char {
    match c {
        'A' => 'a',
        'B' => 'b',
        'C' => 'c',
        'D' => 'd',
        'E' => 'e',
        'F' => 'f',
        'G' => 'g',
        'H' => 'h',
        'I' => 'i',
        'J' => 'j',
        'K' => 'k',
        'L' => 'l',
        'M' => 'm',
        'N' => 'n',
        'O' => 'o',
        'P' => 'p',
        'Q' => 'q',
        'R' => 'r',
        'S' => 's',
        'T' => 't',
        'U' => 'u',
        'V' => 'v',
        'W' => 'w',
        'X' => 'x',
        'Y' => 'y',
        'Z' => 'z',
        _ => c,
    }
}

/// The ASCII-lower-cased form of a character sequence.
pub open spec fn norm(s: Seq<char>) -> Seq<char> {
    Seq::new(s.len(), |i: int| lower_char(s[i]))
}

/// ASCII lower-casing of one character.
pub fn lower(c: char) -> (r: char)
    ensures
        r == lower_char(c),
{
    match c {
        'A' => 'a',
        'B' => 'b',
        'C' => 'c',
        'D' => 'd',
        'E' => 'e',
        'F' => 'f',
        'G' => 'g',
        'H' => 'h',
        'I' => 'i',
        'J' => 'j',
        'K' => 'k',
        'L' => 'l',
        'M' => 'm',
        'N' => 'n',
        'O' => 'o',
        'P' => 'p',
        'Q' => 'q',
        'R' => 'r',
        'S' => 's',
        'T' => 't',
        'U' => 'u',
        'V' => 'v',
        'W' => 'w',
        'X' => 'x',
        'Y' => 'y',
        'Z' => 'z',
        _ => c,
    }
}

/// Whether two strings are the same identifier up to ASCII case.
pub fn eq_fold(a: &str, b: &str) -> (r: bool)
    ensures
        r == (norm(a@) == norm(b@)),
{
    let al = a.unicode_len();
    let bl = b.unicode_len();
    if al != bl {
        return false;
    }
    let mut i: usize = 0;
    while i < al
        invariant
            al == a@.len(),
            bl == b@.len(),
            al == bl,
            i <= al,
            forall|j: int| 0 <= j < i ==> lower_char(a@[j]) == lower_char(b@[j]),
        decreases al - i,
    {
        let ca = lower(a.get_char(i));
        let cb = lower(b.get_char(i));
        if ca != cb {
            proof {
                assert(norm(a@)[i as int] != norm(b@)[i as int]);
            }
            return false;
        }
        i += 1;
    }
    proof {
        assert(norm(a@) =~= norm(b@));
    }
    true
}

/// Whether two strings are equal, comparing every character so that the
/// time taken does not depend on the position of a mismatch.
pub fn ct_eq(a: &str, b: &str) -> (r: bool)
    ensures
        r == (a@ == b@),
{
    let al = a.unicode_len();
    let bl = b.unicode_len();
    if al != bl {
        proof {
            assert(a@ != b@);
        }
        return false;
    }
    let mut acc: u32 = 0;
    let mut i: usize = 0;
    while i < al
        invariant
            al == a@.len(),
            bl == b@.len(),
            al == bl,
            i <= al,
            (acc == 0) == (forall|j: int| 0 <= j < i ==> a@[j] == b@[j]),
        decreases al - i,
    {
        let ca = a.get_char(i);
        let cb = b.get_char(i);
        let d = (ca as u32) ^ (cb as u32);
        proof {
            let x = ca as u32;
            let y = cb as u32;
            assert((x ^ y == 0) == (x == y)) by (bit_vector);
            if x == y {
                vstd::utf8::char_u32_cast(ca, x);
                vstd::utf8::char_u32_cast(cb, x);
            }
            let a0 = acc;
            assert((a0 | (x ^ y) == 0) == (a0 == 0 && x ^ y == 0)) by (bit_vector);
        }
        acc = acc | d;
        i += 1;
    }
    if acc != 0 {
        proof {
            assert(a@ != b@);
        }
        false
    } else {
        proof {
            assert(a@ =~= b@);
        }
        true
    }
}

/// One round of a 64-bit xorshift-style mixer.
pub open spec fn mix64(h: u64, v: u64) -> u64 {
    let x1 = h ^ v;
    let x2 = x1 ^ (x1 << 13u64);
    let x3 = x2 ^ (x2 >> 7u64);
    x3 ^ (x3 << 17u64)
}

/// One round of a 64-bit xorshift-style mixer.
pub fn mix(h: u64, v: u64) -> (r: u64)
    ensures
        r == mix64(h, v),
{
    let x1 = h ^ v;
    let x2 = x1 ^ (x1 << 13);
    let x3 = x2 ^ (x2 >> 7);
    x3 ^ (x3 << 17)
}

/// Folds a character sequence into an accumulator, one mixer round per
/// character.
pub open spec fn fold64(acc: u64, s: Seq<char>) -> u64
    decreases s.len(),
{
    if s.len() == 0 {
        acc
    } else {
        mix64(fold64(acc, s.drop_last()), (s.last() as u32) as u64)
    }
}

/// Folds a string into an accumulator, one mixer round per character.
pub fn fold_str(acc: u64, s: &str) -> (r: u64)
    ensures
        r == fold64(acc, s@),
{
    let n = s.unicode_len();
    let mut h = acc;
    let mut i: usize = 0;
    while i < n
        invariant
            n == s@.len(),
            i <= n,
            h == fold64(acc, s@.take(i as int)),
        decreases n - i,
    {
        let c = s.get_char(i);
        h = mix(h, (c as u32) as u64);
        proof {
            assert(s@.take(i as int + 1).drop_last() =~= s@.take(i as int));
            assert(s@.take(i as int + 1).last() == s@[i as int]);
        }
        i += 1;
    }
    proof {
        assert(s@.take(n as int) =~= s@);
    }
    h
}

} // verus!
