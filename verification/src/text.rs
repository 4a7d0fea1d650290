//! Decimal and hexadecimal text of integers.
//!
//! The spec functions say which characters stand for a number; the
//! executable functions append exactly those characters to a `String`.

use vstd::prelude::*;
use vstd::string::StringExecFns;

verus! {

/// The character of one decimal digit.
pub open spec fn digit_char(d: int) -> char {
    if d == 0 {
        '0'
    } else if d == 1 {
        '1'
    } else if d == 2 {
        '2'
    } else if d == 3 {
        '3'
    } else if d == 4 {
        '4'
    } else if d == 5 {
        '5'
    } else if d == 6 {
        '6'
    } else if d == 7 {
        '7'
    } else if d == 8 {
        '8'
    } else {
        '9'
    }
}

/// The character of one hexadecimal digit, in lower case.
pub open spec fn hex_char(d: int) -> char {
    if d < 10 {
        digit_char(d)
    } else if d == 10 {
        'a'
    } else if d == 11 {
        'b'
    } else if d == 12 {
        'c'
    } else if d == 13 {
        'd'
    } else if d == 14 {
        'e'
    } else {
        'f'
    }
}

/// The decimal digits of `n`, without leading zeros.
pub open spec fn decimal(n: nat) -> Seq<char>
    decreases n,
{
    if n < 10 {
        seq![digit_char(n as int)]
    } else {
        decimal(n / 10).push(digit_char((n % 10) as int))
    }
}

/// The decimal digits of `n`, with zeros in front up to `width` digits.
pub open spec fn padded(n: nat, width: nat) -> Seq<char>
    decreases width,
{
    if width <= 1 {
        decimal(n)
    } else {
        padded(n / 10, (width - 1) as nat).push(digit_char((n % 10) as int))
    }
}

/// The decimal text of `n`, with `-` in front of a negative number.
pub open spec fn signed_decimal(n: int) -> Seq<char> {
    if n < 0 {
        seq!['-'] + decimal((-n) as nat)
    } else {
        decimal(n as nat)
    }
}

/// The decimal text of `n`, always with its sign in front.
pub open spec fn explicit_sign_decimal(n: int) -> Seq<char> {
    if n < 0 {
        seq!['-'] + decimal((-n) as nat)
    } else {
        seq!['+'] + decimal(n as nat)
    }
}

/// The two lower-case hexadecimal digits of a byte.
pub open spec fn hex2(b: u8) -> Seq<char> {
    seq![hex_char(b as int / 16), hex_char(b as int % 16)]
}

/// The four lower-case hexadecimal digits of a 16-bit number.
pub open spec fn hex4(v: u16) -> Seq<char> {
    hex2((v / 256) as u8) + hex2((v % 256) as u8)
}

/// The text of one hexadecimal digit.
fn hex_digit_str(d: u8) -> (text: &'static str)
    requires
        d < 16,
    ensures
        text@ == seq![hex_char(d as int)],
{
    proof {
        reveal_strlit("0");
        reveal_strlit("1");
        reveal_strlit("2");
        reveal_strlit("3");
        reveal_strlit("4");
        reveal_strlit("5");
        reveal_strlit("6");
        reveal_strlit("7");
        reveal_strlit("8");
        reveal_strlit("9");
        reveal_strlit("a");
        reveal_strlit("b");
        reveal_strlit("c");
        reveal_strlit("d");
        reveal_strlit("e");
        reveal_strlit("f");
    }
    let text = if d == 0 {
        "0"
    } else if d == 1 {
        "1"
    } else if d == 2 {
        "2"
    } else if d == 3 {
        "3"
    } else if d == 4 {
        "4"
    } else if d == 5 {
        "5"
    } else if d == 6 {
        "6"
    } else if d == 7 {
        "7"
    } else if d == 8 {
        "8"
    } else if d == 9 {
        "9"
    } else if d == 10 {
        "a"
    } else if d == 11 {
        "b"
    } else if d == 12 {
        "c"
    } else if d == 13 {
        "d"
    } else if d == 14 {
        "e"
    } else {
        "f"
    };
    assert(text@ =~= seq![hex_char(d as int)]);
    text
}

/// Appends the decimal digits of `n`.
pub fn push_decimal(text: &mut String, n: u128)
    ensures
        final(text)@ == old(text)@ + decimal(n as nat),
    decreases n,
{
    if n >= 10 {
        push_decimal(text, n / 10);
    }
    text.append(hex_digit_str((n % 10) as u8));
    assert(final(text)@ == old(text)@ + decimal(n as nat)) by {
        if n >= 10 {
            assert(old(text)@ + decimal((n / 10) as nat) + seq![digit_char((n % 10) as int)]
                =~= old(text)@ + decimal((n / 10) as nat).push(digit_char((n % 10) as int)));
        }
    }
}

/// Appends the decimal digits of `n`, zero-padded to `width` digits.
pub fn push_padded(text: &mut String, n: u128, width: u8)
    ensures
        final(text)@ == old(text)@ + padded(n as nat, width as nat),
    decreases width,
{
    if width <= 1 {
        push_decimal(text, n);
    } else {
        push_padded(text, n / 10, width - 1);
        text.append(hex_digit_str((n % 10) as u8));
        assert(old(text)@ + padded((n / 10) as nat, (width - 1) as nat) + seq![
            digit_char((n % 10) as int),
        ] =~= old(text)@ + padded((n / 10) as nat, (width - 1) as nat).push(
            digit_char((n % 10) as int),
        ));
    }
}

/// The magnitude of `n`.
pub fn magnitude(n: i128) -> (m: u128)
    ensures
        n < 0 ==> m == -n,
        n >= 0 ==> m == n,
{
    if n == i128::MIN {
        0x8000_0000_0000_0000_0000_0000_0000_0000
    } else if n < 0 {
        (-n) as u128
    } else {
        n as u128
    }
}

/// Appends the decimal text of `n`, with `-` in front of a negative number.
pub fn push_signed(text: &mut String, n: i128)
    ensures
        final(text)@ == old(text)@ + signed_decimal(n as int),
{
    let m: u128 = magnitude(n);
    if n < 0 {
        proof {
            reveal_strlit("-");
        }
        text.append("-");
        push_decimal(text, m);
        assert(old(text)@ + "-"@ + decimal(m as nat) =~= old(text)@ + (seq!['-'] + decimal(
            m as nat,
        )));
    } else {
        push_decimal(text, m);
    }
}

/// Appends the decimal text of `n`, always with its sign in front.
pub fn push_explicit_sign(text: &mut String, n: i128)
    ensures
        final(text)@ == old(text)@ + explicit_sign_decimal(n as int),
{
    let m: u128 = magnitude(n);
    if n < 0 {
        proof {
            reveal_strlit("-");
        }
        text.append("-");
        push_decimal(text, m);
        assert(old(text)@ + "-"@ + decimal(m as nat) =~= old(text)@ + (seq!['-'] + decimal(
            m as nat,
        )));
    } else {
        proof {
            reveal_strlit("+");
        }
        text.append("+");
        push_decimal(text, m);
        assert(old(text)@ + "+"@ + decimal(m as nat) =~= old(text)@ + (seq!['+'] + decimal(
            m as nat,
        )));
    }
}

/// Appends the two hexadecimal digits of `b`.
pub fn push_hex2(text: &mut String, b: u8)
    ensures
        final(text)@ == old(text)@ + hex2(b),
{
    text.append(hex_digit_str(b / 16));
    text.append(hex_digit_str(b % 16));
    assert(old(text)@ + seq![hex_char(b as int / 16)] + seq![hex_char(b as int % 16)] =~= old(
        text,
    )@ + hex2(b));
}

/// Appends the four hexadecimal digits of `v`.
pub fn push_hex4(text: &mut String, v: u16)
    ensures
        final(text)@ == old(text)@ + hex4(v),
{
    push_hex2(text, (v / 256) as u8);
    push_hex2(text, (v % 256) as u8);
    assert(old(text)@ + hex2((v / 256) as u8) + hex2((v % 256) as u8) =~= old(text)@ + hex4(v));
}

/// The decimal digits of `n` as a new string.
pub fn decimal_string(n: u128) -> (text: String)
    ensures
        text@ == decimal(n as nat),
{
    let mut text = String::new();
    push_decimal(&mut text, n);
    assert(Seq::<char>::empty() + decimal(n as nat) =~= decimal(n as nat));
    text
}

/// The rows `key: value`, joined by a comma and a space.
pub open spec fn joined_rows(rows: Seq<(Seq<char>, Seq<char>)>) -> Seq<char>
    decreases rows.len(),
{
    if rows.len() == 0 {
        Seq::empty()
    } else if rows.len() == 1 {
        rows[0].0 + ": "@ + rows[0].1
    } else {
        joined_rows(rows.drop_last()) + ", "@ + rows.last().0 + ": "@ + rows.last().1
    }
}

/// Joins the rows as `key: value`, with a comma and a space between rows.
pub fn format_kv(kv: &Vec<(String, String)>) -> (text: String)
    ensures
        text@ == joined_rows(kv.deep_view()),
{
    let mut text = String::new();
    let mut i: usize = 0;
    while i < kv.len()
        invariant
            i <= kv.len(),
            text@ == joined_rows(kv.deep_view().take(i as int)),
        decreases kv.len() - i,
    {
        let ghost before = text@;
        if i > 0 {
            text.append(", ");
        }
        text.append(kv[i].0.as_str());
        text.append(": ");
        text.append(kv[i].1.as_str());
        proof {
            let rows = kv.deep_view();
            let next = rows.take(i + 1);
            assert(next.drop_last() =~= rows.take(i as int));
            assert(next.last() == rows[i as int]);
            assert(rows[i as int] == (kv[i as int].0@, kv[i as int].1@));
            if i == 0 {
                assert(before =~= Seq::<char>::empty());
                assert(text@ =~= next[0].0 + ": "@ + next[0].1);
            }
        }
        i += 1;
    }
    assert(kv.deep_view().take(kv.len() as int) =~= kv.deep_view());
    text
}

} // verus!
