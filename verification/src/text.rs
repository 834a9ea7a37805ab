//! Rendering of numbers and JSON string escaping, with exact
//! character-sequence specifications.

use vstd::prelude::*;

verus! {

broadcast use vstd::string::group_string_axioms;

/// The character for one digit value (decimal or hexadecimal).
pub open spec fn digit_char(d: nat) -> char {
    if d == 0 {
        '0'
    } else if d == 1 {
        '1'
    } else if d == 2 {
        '2'
    } else if d == 3 {
        '3'
    } else if d == 4 {
        '4'
    } else if d == 5 {
        '5'
    } else if d == 6 {
        '6'
    } else if d == 7 {
        '7'
    } else if d == 8 {
        '8'
    } else if d == 9 {
        '9'
    } else if d == 10 {
        'a'
    } else if d == 11 {
        'b'
    } else if d == 12 {
        'c'
    } else if d == 13 {
        'd'
    } else if d == 14 {
        'e'
    } else {
        'f'
    }
}

/// Decimal digits of `n`, most significant first, with no leading zeros
/// (a single `'0'` for zero).
pub open spec fn dec_seq(n: nat) -> Seq<char>
    decreases n,
{
    if n < 10 {
        seq![digit_char(n)]
    } else {
        dec_seq(n / 10) + seq![digit_char(n % 10)]
    }
}

/// Decimal digits of an integer, with a leading minus sign when negative.
pub open spec fn int_seq(n: int) -> Seq<char> {
    if n < 0 {
        seq!['-'] + dec_seq((-n) as nat)
    } else {
        dec_seq(n as nat)
    }
}

/// Exactly `w` hexadecimal digits of `v`, most significant first.
pub open spec fn hex_seq(v: nat, w: nat) -> Seq<char>
    decreases w,
{
    if w == 0 {
        Seq::empty()
    } else {
        hex_seq(v / 16, (w - 1) as nat) + seq![digit_char(v % 16)]
    }
}

/// Appends the single character for digit value `d`.
pub fn push_digit(s: &mut String, d: u64)
    requires
        d < 16,
    ensures
        final(s)@ == old(s)@ + seq![digit_char(d as nat)],
{
    proof {
        reveal_strlit("0");
        reveal_strlit("1");
        reveal_strlit("2");
        reveal_strlit("3");
        reveal_strlit("4");
        reveal_strlit("5");
        reveal_strlit("6");
        reveal_strlit("7");
        reveal_strlit("8");
        reveal_strlit("9");
        reveal_strlit("a");
        reveal_strlit("b");
        reveal_strlit("c");
        reveal_strlit("d");
        reveal_strlit("e");
        reveal_strlit("f");
    }
    match d {
        0 => s.append("0"),
        1 => s.append("1"),
        2 => s.append("2"),
        3 => s.append("3"),
        4 => s.append("4"),
        5 => s.append("5"),
        6 => s.append("6"),
        7 => s.append("7"),
        8 => s.append("8"),
        9 => s.append("9"),
        10 => s.append("a"),
        11 => s.append("b"),
        12 => s.append("c"),
        13 => s.append("d"),
        14 => s.append("e"),
        _ => s.append("f"),
    }
    proof {
        assert(s@ =~= old(s)@ + seq![digit_char(d as nat)]);
    }
}

/// Appends the decimal rendering of `n`.
pub fn push_dec_u64(s: &mut String, n: u64)
    ensures
        final(s)@ == old(s)@ + dec_seq(n as nat),
    decreases n,
{
    if n >= 10 {
        push_dec_u64(s, n / 10);
    }
    push_digit(s, n % 10);
    proof {
        assert(s@ =~= old(s)@ + dec_seq(n as nat));
    }
}

/// Appends the decimal rendering of a signed integer.
pub fn push_dec_i64(s: &mut String, n: i64)
    ensures
        final(s)@ == old(s)@ + int_seq(n as int),
{
    proof {
        reveal_strlit("-");
    }
    if n < 0 {
        s.append("-");
        let mag: u64 = (-(n as i128)) as u64;
        push_dec_u64(s, mag);
        proof {
            assert(s@ =~= old(s)@ + int_seq(n as int));
        }
    } else {
        push_dec_u64(s, n as u64);
    }
}

pub proof fn lemma_hex_seq_len(v: nat, w: nat)
    ensures
        hex_seq(v, w).len() == w,
    decreases w,
{
    if w > 0 {
        lemma_hex_seq_len(v / 16, (w - 1) as nat);
    }
}

/// The JSON escape of a single character inside a quoted string:
/// quotes and backslashes get a backslash, the common control characters
/// use their short escapes, the remaining control characters use `\u00XX`,
/// and every other character stands for itself.
pub open spec fn esc_char(c: char) -> Seq<char> {
    if c == '"' {
        seq!['\\', '"']
    } else if c == '\\' {
        seq!['\\', '\\']
    } else if c == '\n' {
        seq!['\\', 'n']
    } else if c == '\r' {
        seq!['\\', 'r']
    } else if c == '\t' {
        seq!['\\', 't']
    } else if (c as u32) < 32 {
        seq!['\\', 'u', '0', '0'] + hex_seq((c as u32) as nat, 2)
    } else {
        seq![c]
    }
}

/// The JSON escape of a whole string.
pub open spec fn json_escaped(s: Seq<char>) -> Seq<char>
    decreases s.len(),
{
    if s.len() == 0 {
        Seq::empty()
    } else {
        esc_char(s[0]) + json_escaped(s.drop_first())
    }
}

pub proof fn lemma_json_escaped_push(s: Seq<char>, c: char)
    ensures
        json_escaped(s.push(c)) == json_escaped(s) + esc_char(c),
    decreases s.len(),
{
    let t = s.push(c);
    if s.len() == 0 {
        assert(t[0] == c);
        assert(t.drop_first() =~= Seq::<char>::empty());
        assert(json_escaped(t.drop_first()) == Seq::<char>::empty());
        assert(json_escaped(t) == esc_char(c) + json_escaped(t.drop_first()));
        assert(json_escaped(s) == Seq::<char>::empty());
        assert(json_escaped(t) =~= json_escaped(s) + esc_char(c));
    } else {
        assert(t[0] == s[0]);
        assert(t.drop_first() =~= s.drop_first().push(c));
        lemma_json_escaped_push(s.drop_first(), c);
        assert(json_escaped(t) == esc_char(s[0]) + (json_escaped(s.drop_first()) + esc_char(c)));
        assert(json_escaped(s) == esc_char(s[0]) + json_escaped(s.drop_first()));
        assert(json_escaped(t) =~= json_escaped(s) + esc_char(c));
    }
}

/// Appends the JSON escape of `s`.
pub fn push_escaped(out: &mut String, s: &str)
    ensures
        final(out)@ == old(out)@ + json_escaped(s@),
{
    let n = s.unicode_len();
    let mut i: usize = 0;
    while i < n
        invariant
            i <= n,
            n == s@.len(),
            out@ == old(out)@ + json_escaped(s@.take(i as int)),
        decreases n - i,
    {
        proof {
            reveal_strlit("\\\"");
            reveal_strlit("\\\\");
            reveal_strlit("\\n");
            reveal_strlit("\\r");
            reveal_strlit("\\t");
            reveal_strlit("\\u00");
        }
        let ghost pre = out@;
        let c = s.get_char(i);
        if c == '"' {
            out.append("\\\"");
            proof {
                assert(out@ =~= pre + esc_char(c));
            }
        } else if c == '\\' {
            out.append("\\\\");
            proof {
                assert(out@ =~= pre + esc_char(c));
            }
        } else if c == '\n' {
            out.append("\\n");
            proof {
                assert(out@ =~= pre + esc_char(c));
            }
        } else if c == '\r' {
            out.append("\\r");
            proof {
                assert(out@ =~= pre + esc_char(c));
            }
        } else if c == '\t' {
            out.append("\\t");
            proof {
                assert(out@ =~= pre + esc_char(c));
            }
        } else if (c as u32) < 32 {
            out.append("\\u00");
            push_hex_u128(out, c as u128, 2);
            proof {
                assert((c as u128) as nat == (c as u32) as nat);
                assert(out@ =~= pre + esc_char(c));
            }
        } else {
            let piece = s.substring_char(i, i + 1);
            proof {
                assert(piece@ =~= seq![c]);
            }
            out.append(piece);
            proof {
                assert(out@ =~= pre + esc_char(c));
            }
        }
        proof {
            lemma_json_escaped_push(s@.take(i as int), c);
            assert(s@.take(i + 1 as int) =~= s@.take(i as int).push(c));
            assert(out@ =~= old(out)@ + json_escaped(s@.take(i + 1 as int)));
        }
        i = i + 1;
    }
    proof {
        assert(s@.take(n as int) =~= s@);
    }
}

/// Appends exactly `w` hexadecimal digits of `v`, most significant first.
pub fn push_hex_u128(s: &mut String, v: u128, w: usize)
    ensures
        final(s)@ == old(s)@ + hex_seq(v as nat, w as nat),
    decreases w,
{
    if w == 0 {
        proof {
            assert(s@ =~= old(s)@ + hex_seq(v as nat, 0));
        }
        return ;
    }
    push_hex_u128(s, v / 16, w - 1);
    push_digit(s, (v % 16) as u64);
    proof {
        assert(s@ =~= old(s)@ + hex_seq(v as nat, w as nat));
    }
}

} // verus!
