//! The 128-bit record identifiers, their canonical hyphenated hexadecimal
//! form, and a verified parser for that form.

use vstd::prelude::*;

use crate::text::{hex_seq, lemma_hex_seq_len, push_hex_u128};

verus! {

broadcast use vstd::string::group_string_axioms;

/// 16 to the power `n`.
pub open spec fn pow16(n: nat) -> nat
    decreases n,
{
    if n == 0 {
        1
    } else {
        16 * pow16((n - 1) as nat)
    }
}

/// The canonical form of an identifier: 32 lowercase hexadecimal digits in
/// five hyphen-separated groups of 8, 4, 4, 4 and 12 digits.
pub open spec fn uuid_seq(u: u128) -> Seq<char> {
    let h = hex_seq(u as nat, 32);
    h.subrange(0, 8) + seq!['-'] + h.subrange(8, 12) + seq!['-'] + h.subrange(12, 16)
        + seq!['-'] + h.subrange(16, 20) + seq!['-'] + h.subrange(20, 32)
}

/// Whether `c` is a hexadecimal digit, either case.
pub open spec fn is_hex_char(c: char) -> bool {
    (48 <= c as u32 && c as u32 <= 57) || (97 <= c as u32 && c as u32 <= 102) || (65 <= c as u32
        && c as u32 <= 70)
}

/// The value of one hexadecimal digit.
pub open spec fn hex_val(c: char) -> nat {
    if 48 <= c as u32 && c as u32 <= 57 {
        (c as u32 - 48) as nat
    } else if 97 <= c as u32 && c as u32 <= 102 {
        (c as u32 - 87) as nat
    } else {
        (c as u32 - 55) as nat
    }
}

/// The value of a big-endian sequence of hexadecimal digits.
pub open spec fn hex_num(s: Seq<char>) -> nat
    decreases s.len(),
{
    if s.len() == 0 {
        0
    } else {
        hex_num(s.drop_last()) * 16 + hex_val(s.last())
    }
}

/// Whether `s` is a well-formed hyphenated identifier.
pub open spec fn is_uuid_seq(s: Seq<char>) -> bool {
    &&& s.len() == 36
    &&& s[8] == '-'
    &&& s[13] == '-'
    &&& s[18] == '-'
    &&& s[23] == '-'
    &&& forall|i: int|
        0 <= i < 36 && i != 8 && i != 13 && i != 18 && i != 23 ==> is_hex_char(#[trigger] s[i])
}

/// The 32 hexadecimal digits of a hyphenated identifier, hyphens removed.
pub open spec fn uuid_digits(s: Seq<char>) -> Seq<char> {
    s.subrange(0, 8) + s.subrange(9, 13) + s.subrange(14, 18) + s.subrange(19, 23) + s.subrange(
        24,
        36,
    )
}

/// The value of a well-formed hyphenated identifier.
pub open spec fn uuid_val(s: Seq<char>) -> nat {
    hex_num(uuid_digits(s))
}

pub proof fn lemma_pow16_values()
    ensures
        pow16(4) == 0x10000,
        pow16(8) == 0x100000000,
        pow16(12) == 0x1000000000000,
        pow16(16) == 0x10000000000000000,
        pow16(20) == 0x100000000000000000000,
        pow16(24) == 0x1000000000000000000000000,
        pow16(28) == 0x10000000000000000000000000000,
        pow16(31) == 0x10000000000000000000000000000000,
        pow16(32) == 0x100000000000000000000000000000000,
{
    assert(pow16(0) == 0x1);
    assert(pow16(1) == 0x10);
    assert(pow16(2) == 0x100);
    assert(pow16(3) == 0x1000);
    assert(pow16(4) == 0x10000);
    assert(pow16(5) == 0x100000);
    assert(pow16(6) == 0x1000000);
    assert(pow16(7) == 0x10000000);
    assert(pow16(8) == 0x100000000);
    assert(pow16(9) == 0x1000000000);
    assert(pow16(10) == 0x10000000000);
    assert(pow16(11) == 0x100000000000);
    assert(pow16(12) == 0x1000000000000);
    assert(pow16(13) == 0x10000000000000);
    assert(pow16(14) == 0x100000000000000);
    assert(pow16(15) == 0x1000000000000000);
    assert(pow16(16) == 0x10000000000000000);
    assert(pow16(17) == 0x100000000000000000);
    assert(pow16(18) == 0x1000000000000000000);
    assert(pow16(19) == 0x10000000000000000000);
    assert(pow16(20) == 0x100000000000000000000);
    assert(pow16(21) == 0x1000000000000000000000);
    assert(pow16(22) == 0x10000000000000000000000);
    assert(pow16(23) == 0x100000000000000000000000);
    assert(pow16(24) == 0x1000000000000000000000000);
    assert(pow16(25) == 0x10000000000000000000000000);
    assert(pow16(26) == 0x100000000000000000000000000);
    assert(pow16(27) == 0x1000000000000000000000000000);
    assert(pow16(28) == 0x10000000000000000000000000000);
    assert(pow16(29) == 0x100000000000000000000000000000);
    assert(pow16(30) == 0x1000000000000000000000000000000);
    assert(pow16(31) == 0x10000000000000000000000000000000);
    assert(pow16(32) == 0x100000000000000000000000000000000);
}

pub proof fn lemma_hex_num_concat(a: Seq<char>, b: Seq<char>)
    ensures
        hex_num(a + b) == hex_num(a) * pow16(b.len()) + hex_num(b),
    decreases b.len(),
{
    if b.len() == 0 {
        assert(a + b =~= a);
        assert(pow16(0) == 1);
    } else {
        let b0 = b.drop_last();
        assert((a + b).drop_last() =~= a + b0);
        assert((a + b).last() == b.last());
        lemma_hex_num_concat(a, b0);
        assert(hex_num(a + b) == (hex_num(a) * pow16(b0.len()) + hex_num(b0)) * 16 + hex_val(
            b.last(),
        ));
        assert((hex_num(a) * pow16(b0.len()) + hex_num(b0)) * 16 == hex_num(a) * (pow16(b0.len())
            * 16) + hex_num(b0) * 16) by (nonlinear_arith);
        assert(pow16(b0.len()) * 16 == pow16(b.len()));
    }
}

pub proof fn lemma_digit_char_hex(d: nat)
    requires
        d < 16,
    ensures
        is_hex_char(crate::text::digit_char(d)),
        hex_val(crate::text::digit_char(d)) == d,
{
}

pub proof fn lemma_hex_seq_is_hex(v: nat, w: nat)
    ensures
        forall|i: int| 0 <= i < hex_seq(v, w).len() ==> is_hex_char(#[trigger] hex_seq(v, w)[i]),
    decreases w,
{
    if w > 0 {
        lemma_hex_seq_is_hex(v / 16, (w - 1) as nat);
        lemma_digit_char_hex(v % 16);
        lemma_hex_seq_len(v / 16, (w - 1) as nat);
        assert forall|i: int| 0 <= i < hex_seq(v, w).len() implies is_hex_char(
            #[trigger] hex_seq(v, w)[i],
        ) by {
            if i < w - 1 {
                assert(hex_seq(v, w)[i] == hex_seq(v / 16, (w - 1) as nat)[i]);
            } else {
                assert(hex_seq(v, w)[i] == crate::text::digit_char(v % 16));
            }
        }
    }
}

/// Reading the digits back yields the rendered value, reduced modulo the
/// width.
pub proof fn lemma_hex_num_of_hex_seq(v: nat, w: nat)
    ensures
        hex_num(hex_seq(v, w)) == v % pow16(w),
    decreases w,
{
    if w == 0 {
        assert(pow16(0) == 1);
    } else {
        let h0 = hex_seq(v / 16, (w - 1) as nat);
        lemma_hex_seq_len(v / 16, (w - 1) as nat);
        assert(hex_seq(v, w).drop_last() =~= h0);
        assert(hex_seq(v, w).last() == crate::text::digit_char(v % 16));
        lemma_hex_num_of_hex_seq(v / 16, (w - 1) as nat);
        lemma_digit_char_hex(v % 16);
        lemma_pow16_le(0, (w - 1) as nat);
        assert(pow16(0) == 1);
        vstd::arithmetic::div_mod::lemma_mod_breakdown(
            v as int,
            16,
            pow16((w - 1) as nat) as int,
        );
        assert(pow16(w) == 16 * pow16((w - 1) as nat));
    }
}

/// The canonical form of an identifier is a well-formed hyphenated
/// identifier, and parsing it yields the identifier back: rendering and
/// parsing invert each other.
pub proof fn lemma_uuid_round_trip(u: u128)
    ensures
        is_uuid_seq(uuid_seq(u)),
        uuid_val(uuid_seq(u)) == u,
{
    let h = hex_seq(u as nat, 32);
    lemma_hex_seq_len(u as nat, 32);
    lemma_hex_seq_is_hex(u as nat, 32);
    let t = uuid_seq(u);
    assert(t.len() == 36);
    assert(t[8] == '-');
    assert(t[13] == '-');
    assert(t[18] == '-');
    assert(t[23] == '-');
    assert forall|i: int|
        0 <= i < 36 && i != 8 && i != 13 && i != 18 && i != 23 implies is_hex_char(
        #[trigger] t[i],
    ) by {
        if i < 8 {
            assert(t[i] == h[i]);
        } else if i < 13 {
            assert(t[i] == h[i - 1]);
        } else if i < 18 {
            assert(t[i] == h[i - 2]);
        } else if i < 23 {
            assert(t[i] == h[i - 3]);
        } else {
            assert(t[i] == h[i - 4]);
        }
    }
    assert(uuid_digits(t) =~= h);
    lemma_hex_num_of_hex_seq(u as nat, 32);
    lemma_pow16_values();
    assert((u as nat) % pow16(32) == u as nat);
}

/// Appends the canonical hyphenated form of `u`.
pub fn push_uuid(s: &mut String, u: u128)
    ensures
        final(s)@ == old(s)@ + uuid_seq(u),
{
    proof {
        reveal_strlit("-");
    }
    let mut h = String::new();
    push_hex_u128(&mut h, u, 32);
    proof {
        lemma_hex_seq_len(u as nat, 32);
        assert(h@ =~= hex_seq(u as nat, 32));
    }
    let hs = h.as_str();
    s.append(hs.substring_char(0, 8));
    s.append("-");
    s.append(hs.substring_char(8, 12));
    s.append("-");
    s.append(hs.substring_char(12, 16));
    s.append("-");
    s.append(hs.substring_char(16, 20));
    s.append("-");
    s.append(hs.substring_char(20, 32));
    proof {
        assert(s@ =~= old(s)@ + uuid_seq(u));
    }
}

/// The canonical hyphenated form of `u`.
pub fn format_uuid(u: u128) -> (r: String)
    ensures
        r@ == uuid_seq(u),
{
    let mut s = String::new();
    push_uuid(&mut s, u);
    proof {
        assert(s@ =~= uuid_seq(u));
    }
    s
}

/// Whether `c` is a hexadecimal digit, either case.
pub fn hex_char(c: char) -> (r: bool)
    ensures
        r == is_hex_char(c),
{
    let v = c as u32;
    (48 <= v && v <= 57) || (97 <= v && v <= 102) || (65 <= v && v <= 70)
}

/// The value of one hexadecimal digit.
pub fn hex_char_val(c: char) -> (r: u128)
    requires
        is_hex_char(c),
    ensures
        r as nat == hex_val(c),
        r < 16,
{
    let v = c as u32;
    if 48 <= v && v <= 57 {
        (v - 48) as u128
    } else if 97 <= v && v <= 102 {
        (v - 87) as u128
    } else {
        (v - 55) as u128
    }
}

/// Parses the hexadecimal digits of `s` between the character positions
/// `from` and `to` as a big-endian number.
fn parse_hex_group(s: &str, from: usize, to: usize) -> (r: Option<u128>)
    requires
        from <= to <= s@.len(),
        to - from <= 32,
    ensures
        r is Some <==> (forall|i: int| from <= i < to ==> is_hex_char(#[trigger] s@[i])),
        r matches Some(v) ==> v as nat == hex_num(s@.subrange(from as int, to as int)),
        r matches Some(v) ==> (v as nat) < pow16((to - from) as nat),
{
    let mut acc: u128 = 0;
    let mut j = from;
    while j < to
        invariant
            from <= j <= to <= s@.len(),
            to - from <= 32,
            forall|i: int| from <= i < j ==> is_hex_char(#[trigger] s@[i]),
            acc as nat == hex_num(s@.subrange(from as int, j as int)),
            (acc as nat) < pow16((j - from) as nat),
        decreases to - j,
    {
        let c = s.get_char(j);
        if !hex_char(c) {
            return None;
        }
        let v = hex_char_val(c);
        proof {
            let g = s@.subrange(from as int, j as int);
            lemma_pow16_le((j - from) as nat, 31);
            lemma_pow16_values();
            assert(pow16(31) * 16 == pow16(32));
            assert(acc * 16 + 15 < pow16(32)) by (nonlinear_arith)
                requires
                    (acc as nat) < pow16(31),
                    pow16(31) * 16 == pow16(32),
            ;
            assert(s@.subrange(from as int, j + 1 as int) =~= g.push(s@[j as int]));
            assert(g.push(s@[j as int]).drop_last() =~= g);
        }
        let ghost acc0 = acc;
        acc = acc * 16 + v;
        proof {
            lemma_pow16_mono_step((j - from) as nat, acc0 as nat, v as nat);
        }
        j = j + 1;
    }
    Some(acc)
}

proof fn lemma_pow16_le(m: nat, n: nat)
    requires
        m <= n,
    ensures
        pow16(m) <= pow16(n),
    decreases n,
{
    if m < n {
        lemma_pow16_le(m, (n - 1) as nat);
        assert(pow16((n - 1) as nat) <= 16 * pow16((n - 1) as nat)) by (nonlinear_arith)
            requires
                pow16((n - 1) as nat) >= 0,
        ;
    }
}

proof fn lemma_pow16_mono_step(k: nat, x: nat, v: nat)
    requires
        x < pow16(k),
        v < 16,
    ensures
        x * 16 + v < pow16(k + 1),
{
    assert(x * 16 + v < pow16(k) * 16) by (nonlinear_arith)
        requires
            x < pow16(k),
            v < 16,
    ;
    assert(pow16(k) * 16 == pow16(k + 1));
}

/// Parses a hyphenated identifier; `None` exactly on malformed input.
pub fn parse_uuid(s: &str) -> (r: Option<u128>)
    ensures
        r is Some <==> is_uuid_seq(s@),
        r matches Some(v) ==> v as nat == uuid_val(s@),
{
    proof {
        reveal_strlit("-");
    }
    if s.unicode_len() != 36 {
        return None;
    }
    if s.get_char(8) != '-' || s.get_char(13) != '-' || s.get_char(18) != '-' || s.get_char(23)
        != '-' {
        return None;
    }
    let g1 = match parse_hex_group(s, 0, 8) {
        Some(v) => v,
        None => {
            return None;
        },
    };
    let g2 = match parse_hex_group(s, 9, 13) {
        Some(v) => v,
        None => {
            return None;
        },
    };
    let g3 = match parse_hex_group(s, 14, 18) {
        Some(v) => v,
        None => {
            return None;
        },
    };
    let g4 = match parse_hex_group(s, 19, 23) {
        Some(v) => v,
        None => {
            return None;
        },
    };
    let g5 = match parse_hex_group(s, 24, 36) {
        Some(v) => v,
        None => {
            return None;
        },
    };
    proof {
        assert(is_uuid_seq(s@));
    }
    let ghost d1 = s@.subrange(0, 8);
    let ghost d2 = s@.subrange(9, 13);
    let ghost d3 = s@.subrange(14, 18);
    let ghost d4 = s@.subrange(19, 23);
    let ghost d5 = s@.subrange(24, 36);
    proof {
        lemma_hex_num_concat(d1, d2);
        lemma_hex_num_concat(d1 + d2, d3);
        lemma_hex_num_concat(d1 + d2 + d3, d4);
        lemma_hex_num_concat(d1 + d2 + d3 + d4, d5);
        lemma_pow16_values();
    }
    proof {
        assert(g1 < 0x100000000 && g2 < 0x10000 && g3 < 0x10000 && g4 < 0x10000 && g5
            < 0x1000000000000);
    }
    let a1 = g1 * 0x10000 + g2;
    proof {
        assert(a1 < 0x1000000000000);
    }
    let a2 = a1 * 0x10000 + g3;
    proof {
        assert(a2 < 0x10000000000000000);
    }
    let a3 = a2 * 0x10000 + g4;
    proof {
        assert(a3 < 0x100000000000000000000);
        assert(a3 * 0x1000000000000 + g5 < 0x100000000000000000000000000000000)
            by (nonlinear_arith)
            requires
                a3 < 0x100000000000000000000,
                g5 < 0x1000000000000,
        ;
    }
    let v = a3 * 0x1000000000000 + g5;
    proof {
        assert(uuid_digits(s@) == d1 + d2 + d3 + d4 + d5);
    }
    Some(v)
}


} // verus!
