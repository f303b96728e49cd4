//! Lower-case hexadecimal rendering and parsing of 64-bit values.
//!
//! Credential hashes, challenge codes and session tokens all carry 64-bit
//! fields as sixteen hex digits.  The functions here render such a field,
//! read one back, and prove that the two directions agree.

use vstd::prelude::*;

verus! {

/// The hex digit for a nibble value; values above 15 fall back to '0'.
pub open spec fn hx(n: u64) -> char {
    if n == 0 {
        '0'
    } else if n == 1 {
        '1'
    } else if n == 2 {
        '2'
    } else if n == 3 {
        '3'
    } else if n == 4 {
        '4'
    } else if n == 5 {
        '5'
    } else if n == 6 {
        '6'
    } else if n == 7 {
        '7'
    } else if n == 8 {
        '8'
    } else if n == 9 {
        '9'
    } else if n == 10 {
        'a'
    } else if n == 11 {
        'b'
    } else if n == 12 {
        'c'
    } else if n == 13 {
        'd'
    } else if n == 14 {
        'e'
    } else if n == 15 {
        'f'
    } else {
        '0'
    }
}

/// The value of a hex digit; 16 marks a character that is no hex digit.
pub open spec fn unhx(c: char) -> u64 {
    if c == '0' {
        0
    } else if c == '1' {
        1
    } else if c == '2' {
        2
    } else if c == '3' {
        3
    } else if c == '4' {
        4
    } else if c == '5' {
        5
    } else if c == '6' {
        6
    } else if c == '7' {
        7
    } else if c == '8' {
        8
    } else if c == '9' {
        9
    } else if c == 'a' {
        10
    } else if c == 'b' {
        11
    } else if c == 'c' {
        12
    } else if c == 'd' {
        13
    } else if c == 'e' {
        14
    } else if c == 'f' {
        15
    } else {
        16
    }
}

/// Reading back the digit written for a nibble gives the nibble.
pub proof fn lemma_unhx_hx(n: u64)
    requires
        n < 16,
    ensures
        unhx(hx(n)) == n,
{
}

/// The sixteen hex digits of a 64-bit value, highest nibble first.
pub open spec fn hex16(v: u64) -> Seq<char> {
    seq![
        hx((v >> 60u64) & 15),
        hx((v >> 56u64) & 15),
        hx((v >> 52u64) & 15),
        hx((v >> 48u64) & 15),
        hx((v >> 44u64) & 15),
        hx((v >> 40u64) & 15),
        hx((v >> 36u64) & 15),
        hx((v >> 32u64) & 15),
        hx((v >> 28u64) & 15),
        hx((v >> 24u64) & 15),
        hx((v >> 20u64) & 15),
        hx((v >> 16u64) & 15),
        hx((v >> 12u64) & 15),
        hx((v >> 8u64) & 15),
        hx((v >> 4u64) & 15),
        hx(v & 15),
    ]
}

/// The value read from sixteen characters of `s` starting at `off`.
/// Characters that are no hex digits contribute their low four bits of 16,
/// so the result is only meaningful where `is_hex16` holds.
pub open spec fn hexval16(s: Seq<char>, off: int) -> u64 {
    ((unhx(s[off]) & 15) << 60u64) | ((unhx(s[off + 1]) & 15) << 56u64) | ((unhx(s[off + 2]) & 15)
        << 52u64) | ((unhx(s[off + 3]) & 15) << 48u64) | ((unhx(s[off + 4]) & 15) << 44u64) | ((
    unhx(s[off + 5]) & 15) << 40u64) | ((unhx(s[off + 6]) & 15) << 36u64) | ((unhx(s[off + 7]) & 15)
        << 32u64) | ((unhx(s[off + 8]) & 15) << 28u64) | ((unhx(s[off + 9]) & 15) << 24u64) | ((
    unhx(s[off + 10]) & 15) << 20u64) | ((unhx(s[off + 11]) & 15) << 16u64) | ((unhx(s[off + 12])
        & 15) << 12u64) | ((unhx(s[off + 13]) & 15) << 8u64) | ((unhx(s[off + 14]) & 15) << 4u64) | (
    unhx(s[off + 15]) & 15)
}

/// Sixteen characters of `s` starting at `off` are all hex digits.
pub open spec fn is_hex16(s: Seq<char>, off: int) -> bool {
    &&& unhx(s[off]) < 16
    &&& unhx(s[off + 1]) < 16
    &&& unhx(s[off + 2]) < 16
    &&& unhx(s[off + 3]) < 16
    &&& unhx(s[off + 4]) < 16
    &&& unhx(s[off + 5]) < 16
    &&& unhx(s[off + 6]) < 16
    &&& unhx(s[off + 7]) < 16
    &&& unhx(s[off + 8]) < 16
    &&& unhx(s[off + 9]) < 16
    &&& unhx(s[off + 10]) < 16
    &&& unhx(s[off + 11]) < 16
    &&& unhx(s[off + 12]) < 16
    &&& unhx(s[off + 13]) < 16
    &&& unhx(s[off + 14]) < 16
    &&& unhx(s[off + 15]) < 16
}

/// Appends the hex digit for `n` to `s`.
pub fn append_hex_digit(s: &mut String, n: u64)
    ensures
        final(s)@ == old(s)@ + seq![hx(n)],
{
    proof {
        reveal_strlit("0");
        reveal_strlit("1");
        reveal_strlit("2");
        reveal_strlit("3");
        reveal_strlit("4");
        reveal_strlit("5");
        reveal_strlit("6");
        reveal_strlit("7");
        reveal_strlit("8");
        reveal_strlit("9");
        reveal_strlit("a");
        reveal_strlit("b");
        reveal_strlit("c");
        reveal_strlit("d");
        reveal_strlit("e");
        reveal_strlit("f");
    }
    if n == 0 {
        s.append("0");
    } else if n == 1 {
        s.append("1");
    } else if n == 2 {
        s.append("2");
    } else if n == 3 {
        s.append("3");
    } else if n == 4 {
        s.append("4");
    } else if n == 5 {
        s.append("5");
    } else if n == 6 {
        s.append("6");
    } else if n == 7 {
        s.append("7");
    } else if n == 8 {
        s.append("8");
    } else if n == 9 {
        s.append("9");
    } else if n == 10 {
        s.append("a");
    } else if n == 11 {
        s.append("b");
    } else if n == 12 {
        s.append("c");
    } else if n == 13 {
        s.append("d");
    } else if n == 14 {
        s.append("e");
    } else if n == 15 {
        s.append("f");
    } else {
        s.append("0");
    }
    proof {
        assert(final(s)@ =~= old(s)@ + seq![hx(n)]);
    }
}

/// Appends the sixteen hex digits of `v` to `s`, highest nibble first.
#[verifier::rlimit(60)]
pub fn append_hex16(s: &mut String, v: u64)
    ensures
        final(s)@ == old(s)@ + hex16(v),
{
    append_hex_digit(s, (v >> 60) & 15);
    append_hex_digit(s, (v >> 56) & 15);
    append_hex_digit(s, (v >> 52) & 15);
    append_hex_digit(s, (v >> 48) & 15);
    proof {
        assert(s@ =~= old(s)@ + seq![
            hx((v >> 60u64) & 15),
            hx((v >> 56u64) & 15),
            hx((v >> 52u64) & 15),
            hx((v >> 48u64) & 15),
        ]);
    }
    append_hex_digit(s, (v >> 44) & 15);
    append_hex_digit(s, (v >> 40) & 15);
    append_hex_digit(s, (v >> 36) & 15);
    append_hex_digit(s, (v >> 32) & 15);
    proof {
        assert(s@ =~= old(s)@ + seq![
            hx((v >> 60u64) & 15),
            hx((v >> 56u64) & 15),
            hx((v >> 52u64) & 15),
            hx((v >> 48u64) & 15),
            hx((v >> 44u64) & 15),
            hx((v >> 40u64) & 15),
            hx((v >> 36u64) & 15),
            hx((v >> 32u64) & 15),
        ]);
    }
    append_hex_digit(s, (v >> 28) & 15);
    append_hex_digit(s, (v >> 24) & 15);
    append_hex_digit(s, (v >> 20) & 15);
    append_hex_digit(s, (v >> 16) & 15);
    proof {
        assert(s@ =~= old(s)@ + seq![
            hx((v >> 60u64) & 15),
            hx((v >> 56u64) & 15),
            hx((v >> 52u64) & 15),
            hx((v >> 48u64) & 15),
            hx((v >> 44u64) & 15),
            hx((v >> 40u64) & 15),
            hx((v >> 36u64) & 15),
            hx((v >> 32u64) & 15),
            hx((v >> 28u64) & 15),
            hx((v >> 24u64) & 15),
            hx((v >> 20u64) & 15),
            hx((v >> 16u64) & 15),
        ]);
    }
    append_hex_digit(s, (v >> 12) & 15);
    append_hex_digit(s, (v >> 8) & 15);
    append_hex_digit(s, (v >> 4) & 15);
    append_hex_digit(s, v & 15);
    proof {
        assert(final(s)@ =~= old(s)@ + hex16(v));
    }
}

/// The value of one hex digit character, 16 for any other character.
pub fn unhex_char(c: char) -> (r: u64)
    ensures
        r == unhx(c),
{
    if c == '0' {
        0
    } else if c == '1' {
        1
    } else if c == '2' {
        2
    } else if c == '3' {
        3
    } else if c == '4' {
        4
    } else if c == '5' {
        5
    } else if c == '6' {
        6
    } else if c == '7' {
        7
    } else if c == '8' {
        8
    } else if c == '9' {
        9
    } else if c == 'a' {
        10
    } else if c == 'b' {
        11
    } else if c == 'c' {
        12
    } else if c == 'd' {
        13
    } else if c == 'e' {
        14
    } else if c == 'f' {
        15
    } else {
        16
    }
}

/// Reads sixteen characters of `s` starting at `off` as a 64-bit value,
/// together with whether all sixteen were hex digits.
pub fn read_hex16(s: &str, off: usize) -> (r: (u64, bool))
    requires
        off + 16 <= s@.len(),
    ensures
        r.0 == hexval16(s@, off as int),
        r.1 == is_hex16(s@, off as int),
{
    // Establishes that the character count fits in usize, so the offset
    // arithmetic below cannot overflow.
    let _chars = s.unicode_len();
    let n0 = unhex_char(s.get_char(off));
    let n1 = unhex_char(s.get_char(off + 1));
    let n2 = unhex_char(s.get_char(off + 2));
    let n3 = unhex_char(s.get_char(off + 3));
    let n4 = unhex_char(s.get_char(off + 4));
    let n5 = unhex_char(s.get_char(off + 5));
    let n6 = unhex_char(s.get_char(off + 6));
    let n7 = unhex_char(s.get_char(off + 7));
    let n8 = unhex_char(s.get_char(off + 8));
    let n9 = unhex_char(s.get_char(off + 9));
    let n10 = unhex_char(s.get_char(off + 10));
    let n11 = unhex_char(s.get_char(off + 11));
    let n12 = unhex_char(s.get_char(off + 12));
    let n13 = unhex_char(s.get_char(off + 13));
    let n14 = unhex_char(s.get_char(off + 14));
    let n15 = unhex_char(s.get_char(off + 15));
    let ok = n0 < 16 && n1 < 16 && n2 < 16 && n3 < 16 && n4 < 16 && n5 < 16 && n6 < 16 && n7 < 16
        && n8 < 16 && n9 < 16 && n10 < 16 && n11 < 16 && n12 < 16 && n13 < 16 && n14 < 16 && n15
        < 16;
    let v = ((n0 & 15) << 60) | ((n1 & 15) << 56) | ((n2 & 15) << 52) | ((n3 & 15) << 48) | ((n4
        & 15) << 44) | ((n5 & 15) << 40) | ((n6 & 15) << 36) | ((n7 & 15) << 32) | ((n8 & 15) << 28)
        | ((n9 & 15) << 24) | ((n10 & 15) << 20) | ((n11 & 15) << 16) | ((n12 & 15) << 12) | ((n13
        & 15) << 8) | ((n14 & 15) << 4) | (n15 & 15);
    (v, ok)
}

/// Reading back the sixteen digits written for a value gives the value,
/// and they are all hex digits.
pub proof fn lemma_hex16_roundtrip(s: Seq<char>, off: int, v: u64)
    requires
        0 <= off,
        off + 16 <= s.len(),
        forall|k: int| 0 <= k < 16 ==> s[off + k] == hex16(v)[k],
    ensures
        is_hex16(s, off),
        hexval16(s, off) == v,
{
    assert(((v >> 60u64) & 15) < 16 && ((v >> 56u64) & 15) < 16 && ((v >> 52u64) & 15) < 16 && ((v
        >> 48u64) & 15) < 16 && ((v >> 44u64) & 15) < 16 && ((v >> 40u64) & 15) < 16 && ((v
        >> 36u64) & 15) < 16 && ((v >> 32u64) & 15) < 16 && ((v >> 28u64) & 15) < 16 && ((v
        >> 24u64) & 15) < 16 && ((v >> 20u64) & 15) < 16 && ((v >> 16u64) & 15) < 16 && ((v
        >> 12u64) & 15) < 16 && ((v >> 8u64) & 15) < 16 && ((v >> 4u64) & 15) < 16 && (v & 15) < 16)
        by (bit_vector);
    assert(s[off + 0] == hex16(v)[0]);
    assert(s[off + 1] == hex16(v)[1]);
    assert(s[off + 2] == hex16(v)[2]);
    assert(s[off + 3] == hex16(v)[3]);
    assert(s[off + 4] == hex16(v)[4]);
    assert(s[off + 5] == hex16(v)[5]);
    assert(s[off + 6] == hex16(v)[6]);
    assert(s[off + 7] == hex16(v)[7]);
    assert(s[off + 8] == hex16(v)[8]);
    assert(s[off + 9] == hex16(v)[9]);
    assert(s[off + 10] == hex16(v)[10]);
    assert(s[off + 11] == hex16(v)[11]);
    assert(s[off + 12] == hex16(v)[12]);
    assert(s[off + 13] == hex16(v)[13]);
    assert(s[off + 14] == hex16(v)[14]);
    assert(s[off + 15] == hex16(v)[15]);
    lemma_unhx_hx((v >> 60u64) & 15);
    lemma_unhx_hx((v >> 56u64) & 15);
    lemma_unhx_hx((v >> 52u64) & 15);
    lemma_unhx_hx((v >> 48u64) & 15);
    lemma_unhx_hx((v >> 44u64) & 15);
    lemma_unhx_hx((v >> 40u64) & 15);
    lemma_unhx_hx((v >> 36u64) & 15);
    lemma_unhx_hx((v >> 32u64) & 15);
    lemma_unhx_hx((v >> 28u64) & 15);
    lemma_unhx_hx((v >> 24u64) & 15);
    lemma_unhx_hx((v >> 20u64) & 15);
    lemma_unhx_hx((v >> 16u64) & 15);
    lemma_unhx_hx((v >> 12u64) & 15);
    lemma_unhx_hx((v >> 8u64) & 15);
    lemma_unhx_hx((v >> 4u64) & 15);
    lemma_unhx_hx(v & 15);
    assert(((((v >> 60u64) & 15) & 15) << 60u64) | ((((v >> 56u64) & 15) & 15) << 56u64) | ((((v
        >> 52u64) & 15) & 15) << 52u64) | ((((v >> 48u64) & 15) & 15) << 48u64) | ((((v >> 44u64)
        & 15) & 15) << 44u64) | ((((v >> 40u64) & 15) & 15) << 40u64) | ((((v >> 36u64) & 15) & 15)
        << 36u64) | ((((v >> 32u64) & 15) & 15) << 32u64) | ((((v >> 28u64) & 15) & 15) << 28u64) | (
    (((v >> 24u64) & 15) & 15) << 24u64) | ((((v >> 20u64) & 15) & 15) << 20u64) | ((((v >> 16u64)
        & 15) & 15) << 16u64) | ((((v >> 12u64) & 15) & 15) << 12u64) | ((((v >> 8u64) & 15) & 15)
        << 8u64) | ((((v >> 4u64) & 15) & 15) << 4u64) | ((v & 15) & 15) == v) by (bit_vector);
}

} // verus!
