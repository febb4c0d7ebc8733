//! Numbers as text: upper-case hexadecimal with a minimum width, and decimal.

use vstd::prelude::*;
use vstd::string::StringExecFns;

verus! {

/// The character that stands for one hexadecimal digit.
pub open spec fn hex_char(d: int) -> char {
    if d < 10 {
        (('0' as int) + d) as char
    } else {
        (('A' as int) + d - 10) as char
    }
}

/// The character that stands for one decimal digit.
pub open spec fn dec_char(d: int) -> char {
    (('0' as int) + d) as char
}

/// The hexadecimal digits of `v`, most significant first, without leading
/// zeros; 0 has the one digit `0`.
pub open spec fn hex_digits(v: nat) -> Seq<char>
    decreases v,
{
    if v < 16 {
        seq![hex_char(v as int)]
    } else {
        hex_digits(v / 16).push(hex_char((v % 16) as int))
    }
}

/// The decimal digits of `v`, most significant first, without leading zeros.
pub open spec fn dec_digits(v: nat) -> Seq<char>
    decreases v,
{
    if v < 10 {
        seq![dec_char(v as int)]
    } else {
        dec_digits(v / 10).push(dec_char((v % 10) as int))
    }
}

/// `n` times the character `0`.
pub open spec fn zeros(n: int) -> Seq<char> {
    Seq::new(if n > 0 { n as nat } else { 0 }, |i: int| '0')
}

/// The hexadecimal digits of `v`, with zeros in front up to `width`
/// characters. A value that needs more digits keeps them all.
pub open spec fn hex_padded(v: nat, width: nat) -> Seq<char> {
    zeros(width - hex_digits(v).len()) + hex_digits(v)
}

fn hex_digit_str(d: u32) -> (s: &'static str)
    requires
        d < 16,
    ensures
        s@ == seq![hex_char(d as int)],
{
    let digits = "0123456789ABCDEF";
    proof {
        reveal_strlit("0123456789ABCDEF");
    }
    let s = digits.substring_ascii(d as usize, d as usize + 1);
    assert(s@ =~= seq![hex_char(d as int)]);
    s
}

fn dec_digit_str(d: u32) -> (s: &'static str)
    requires
        d < 10,
    ensures
        s@ == seq![dec_char(d as int)],
{
    let digits = "0123456789";
    proof {
        reveal_strlit("0123456789");
    }
    let s = digits.substring_ascii(d as usize, d as usize + 1);
    assert(s@ =~= seq![dec_char(d as int)]);
    s
}

/// Number of hexadecimal digits of `v`.
fn hex_len(v: u32) -> (n: usize)
    ensures
        n == hex_digits(v as nat).len(),
        1 <= n <= 8,
    decreases v,
{
    if v < 16 {
        1
    } else {
        let n = hex_len(v / 16);
        assert(n <= 7) by {
            lemma_hex_len_bound(v as nat);
        }
        n + 1
    }
}

proof fn lemma_hex_len_bound(v: nat)
    requires
        v <= u32::MAX,
    ensures
        hex_digits(v).len() <= 8,
    decreases v,
{
    reveal_with_fuel(hex_digits, 9);
}

fn push_hex_digits(s: &mut String, v: u32)
    ensures
        final(s)@ == old(s)@ + hex_digits(v as nat),
    decreases v,
{
    if v >= 16 {
        push_hex_digits(s, v / 16);
    }
    s.append(hex_digit_str(v % 16));
    assert(s@ =~= old(s)@ + hex_digits(v as nat));
}

/// Appends `v` in upper-case hexadecimal, with zeros in front up to `width`
/// characters.
pub fn push_hex(s: &mut String, v: u32, width: usize)
    ensures
        final(s)@ == old(s)@ + hex_padded(v as nat, width as nat),
{
    let n = hex_len(v);
    let mut i: usize = n;
    while i < width
        invariant
            n <= i,
            n == hex_digits(v as nat).len(),
            i <= width || i == n,
            s@ == old(s)@ + zeros(i - n),
        decreases width - i,
    {
        s.append("0");
        proof {
            reveal_strlit("0");
            assert(s@ =~= old(s)@ + zeros(i + 1 - n));
        }
        i += 1;
    }
    assert(s@ =~= old(s)@ + zeros(width - n));
    push_hex_digits(s, v);
    assert(s@ =~= old(s)@ + hex_padded(v as nat, width as nat));
}

/// Appends `v` in decimal.
pub fn push_dec(s: &mut String, v: u32)
    ensures
        final(s)@ == old(s)@ + dec_digits(v as nat),
    decreases v,
{
    if v >= 10 {
        push_dec(s, v / 10);
    }
    s.append(dec_digit_str(v % 10));
    assert(s@ =~= old(s)@ + dec_digits(v as nat));
}

} // verus!
