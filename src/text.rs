//! Text building blocks: digits in a radix, zero padding, and the
//! conversion of 7-bit bytes to characters.
use vstd::prelude::*;
use vstd::string::*;

verus! {

/// The character of a digit value below sixteen, upper case.
pub open spec fn digit_char(d: nat) -> char {
    if d < 10 {
        ((d + 48) as u8) as char
    } else {
        ((d + 55) as u8) as char
    }
}

/// The digits of `v` in radix `base`, most significant first, with no
/// leading zeros (zero itself is one digit).
pub open spec fn digits(v: nat, base: nat) -> Seq<char>
    decreases v,
    via digits_decreases
{
    if base < 2 || v < base {
        seq![digit_char(v)]
    } else {
        digits(v / base, base).push(digit_char(v % base))
    }
}

#[via_fn]
proof fn digits_decreases(v: nat, base: nat) {
    if !(base < 2 || v < base) {
        assert(v / base < v) by (nonlinear_arith)
            requires base >= 2, v >= base;
    }
}

pub open spec fn zeros(n: nat) -> Seq<char> {
    Seq::new(n, |i: int| '0')
}

/// The digits of `v` in radix `base`, zero-padded on the left to at least
/// `width` characters.
pub open spec fn padded(v: nat, base: nat, width: nat) -> Seq<char> {
    let d = digits(v, base);
    if d.len() < width {
        zeros((width - d.len()) as nat) + d
    } else {
        d
    }
}

/// Upper-case hexadecimal, at least `width` digits.
pub open spec fn hex(v: nat, width: nat) -> Seq<char> {
    padded(v, 16, width)
}

/// Decimal, no padding.
pub open spec fn dec(v: nat) -> Seq<char> {
    digits(v, 10)
}

/// Bytes read as characters one for one.
pub open spec fn byte_chars(b: Seq<u8>) -> Seq<char> {
    b.map_values(|x: u8| x as char)
}

pub open spec fn all_ascii(b: Seq<u8>) -> bool {
    forall|i: int| 0 <= i < b.len() ==> #[trigger] b[i] < 128
}

/// Relies on `String::from_utf8`: a byte sequence that is all ASCII is
/// valid UTF-8 and becomes the string of those characters.
#[verifier::external_body]
pub(crate) fn string_from_utf8(bytes: Vec<u8>) -> (r: Option<String>)
    ensures
        all_ascii(bytes@) ==> r is Some && r->0@ == byte_chars(bytes@),
{
    String::from_utf8(bytes).ok()
}

fn digit_str(d: u32) -> (r: &'static str)
    requires
        d < 16,
    ensures
        r@ == seq![digit_char(d as nat)],
{
    match d {
        0 => { proof { reveal_strlit("0"); } "0" }
        1 => { proof { reveal_strlit("1"); } "1" }
        2 => { proof { reveal_strlit("2"); } "2" }
        3 => { proof { reveal_strlit("3"); } "3" }
        4 => { proof { reveal_strlit("4"); } "4" }
        5 => { proof { reveal_strlit("5"); } "5" }
        6 => { proof { reveal_strlit("6"); } "6" }
        7 => { proof { reveal_strlit("7"); } "7" }
        8 => { proof { reveal_strlit("8"); } "8" }
        9 => { proof { reveal_strlit("9"); } "9" }
        10 => { proof { reveal_strlit("A"); } "A" }
        11 => { proof { reveal_strlit("B"); } "B" }
        12 => { proof { reveal_strlit("C"); } "C" }
        13 => { proof { reveal_strlit("D"); } "D" }
        14 => { proof { reveal_strlit("E"); } "E" }
        _ => { proof { reveal_strlit("F"); } "F" }
    }
}

fn push_digits(s: &mut String, v: u32, base: u32)
    requires
        base == 10 || base == 16,
    ensures
        final(s)@ == old(s)@ + digits(v as nat, base as nat),
    decreases v,
{
    if v >= base {
        push_digits(s, v / base, base);
    }
    s.append(digit_str(v % base));
    proof {
        assert(old(s)@ + digits(v as nat, base as nat) =~= s@);
    }
}

fn digit_count(v: u32, base: u32) -> (r: u64)
    requires
        base == 10 || base == 16,
    ensures
        r as nat == digits(v as nat, base as nat).len(),
        r <= v as nat + 1,
    decreases v,
{
    if v >= base {
        proof {
            assert(v / base + 1 <= v) by (nonlinear_arith)
                requires base >= 2, v >= base;
        }
        digit_count(v / base, base) + 1
    } else {
        1
    }
}

/// Appends `v` in radix `base`, zero-padded to at least `width` digits.
pub fn push_padded(s: &mut String, v: u32, base: u32, width: u64)
    requires
        base == 10 || base == 16,
    ensures
        final(s)@ == old(s)@ + padded(v as nat, base as nat, width as nat),
{
    let n = digit_count(v, base);
    if n < width {
        let pad = width - n;
        let mut i: u64 = 0;
        while i < pad
            invariant
                i <= pad,
                s@ == old(s)@ + zeros(i as nat),
            decreases pad - i,
        {
            s.append("0");
            proof {
                reveal_strlit("0");
                assert(zeros(i as nat) + seq!['0'] =~= zeros((i + 1) as nat));
            }
            i = i + 1;
        }
    }
    push_digits(s, v, base);
    proof {
        if n < width {
            assert(s@ =~= old(s)@ + padded(v as nat, base as nat, width as nat));
        }
    }
}

/// Appends `v` as upper-case hexadecimal, at least `width` digits.
pub fn push_hex(s: &mut String, v: u32, width: u64)
    ensures
        final(s)@ == old(s)@ + hex(v as nat, width as nat),
{
    push_padded(s, v, 16, width);
}

/// Appends `v` in decimal.
pub fn push_dec(s: &mut String, v: u32)
    ensures
        final(s)@ == old(s)@ + dec(v as nat),
{
    push_digits(s, v, 10);
}

} // verus!
