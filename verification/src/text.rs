//! Decimal rendering of integers and simple text layout, proved against
//! their mathematical definitions.

use vstd::prelude::*;

verus! {

/// The character of a decimal digit.
pub open spec fn digit_char(d: nat) -> char
    recommends
        d < 10,
{
    if d == 0 { '0' }
    else if d == 1 { '1' }
    else if d == 2 { '2' }
    else if d == 3 { '3' }
    else if d == 4 { '4' }
    else if d == 5 { '5' }
    else if d == 6 { '6' }
    else if d == 7 { '7' }
    else if d == 8 { '8' }
    else { '9' }
}

/// The decimal representation of a natural number, without leading zeros.
pub open spec fn dec(n: nat) -> Seq<char>
    decreases n,
{
    if n < 10 {
        seq![digit_char(n)]
    } else {
        dec(n / 10).push(digit_char(n % 10))
    }
}

/// The decimal representation of an integer, with a leading '-' when negative.
pub open spec fn signed_dec(i: int) -> Seq<char> {
    if i < 0 {
        seq!['-'] + dec((-i) as nat)
    } else {
        dec(i as nat)
    }
}

/// The decimal representation of an integer with an explicit sign ('+' or '-').
pub open spec fn plus_dec(i: int) -> Seq<char> {
    if i < 0 {
        seq!['-'] + dec((-i) as nat)
    } else {
        seq!['+'] + dec(i as nat)
    }
}

/// `s`, filled up on the left with `fill` to at least `width` characters.
pub open spec fn pad_left(s: Seq<char>, width: nat, fill: char) -> Seq<char> {
    if s.len() >= width {
        s
    } else {
        Seq::new((width - s.len()) as nat, |_i: int| fill) + s
    }
}

/// `s` with every character `from` replaced by the sequence `to`.
pub open spec fn replace_char(s: Seq<char>, from: char, to: Seq<char>) -> Seq<char>
    decreases s.len(),
{
    if s.len() == 0 {
        Seq::empty()
    } else {
        let head = if s.last() == from { to } else { seq![s.last()] };
        replace_char(s.drop_last(), from, to) + head
    }
}

/// Appends one character to a string.
#[verifier::external_body]
pub(crate) fn push_char(s: &mut String, c: char)
    ensures
        final(s)@ == old(s)@.push(c),
{
    s.push(c);
}

/// The character of the decimal digit `d`.
pub fn digit(d: u64) -> (c: char)
    requires
        d < 10,
    ensures
        c == digit_char(d as nat),
{
    if d == 0 { '0' }
    else if d == 1 { '1' }
    else if d == 2 { '2' }
    else if d == 3 { '3' }
    else if d == 4 { '4' }
    else if d == 5 { '5' }
    else if d == 6 { '6' }
    else if d == 7 { '7' }
    else if d == 8 { '8' }
    else { '9' }
}

/// Appends the decimal representation of `n`.
pub fn push_dec(s: &mut String, n: u64)
    ensures
        final(s)@ == old(s)@ + dec(n as nat),
    decreases n,
{
    if n >= 10 {
        push_dec(s, n / 10);
        push_char(s, digit(n % 10));
        assert(final(s)@ =~= old(s)@ + dec(n as nat)) by {
            assert(dec(n as nat) == dec((n / 10) as nat).push(digit_char((n % 10) as nat)));
        }
    } else {
        push_char(s, digit(n));
        assert(final(s)@ =~= old(s)@ + dec(n as nat));
    }
}

/// The decimal representation of an unsigned integer.
pub fn u64_to_string(n: u64) -> (s: String)
    ensures
        s@ == dec(n as nat),
{
    let mut s = String::new();
    push_dec(&mut s, n);
    assert(s@ =~= dec(n as nat));
    s
}

/// The magnitude of a signed integer, as an unsigned one.
pub fn magnitude(i: i64) -> (m: u64)
    ensures
        m as int == (if i < 0 { -i } else { i as int }),
{
    if i < 0 {
        let j: i64 = -(i + 1);
        (j as u64) + 1
    } else {
        i as u64
    }
}

/// The decimal representation of a signed integer.
pub fn i64_to_string(i: i64) -> (s: String)
    ensures
        s@ == signed_dec(i as int),
{
    let mut s = String::new();
    if i < 0 {
        push_char(&mut s, '-');
    }
    push_dec(&mut s, magnitude(i));
    assert(s@ =~= signed_dec(i as int));
    s
}

/// The decimal representation of a signed integer with an explicit sign.
pub fn i64_to_plus_string(i: i64) -> (s: String)
    ensures
        s@ == plus_dec(i as int),
{
    let mut s = String::new();
    if i < 0 {
        push_char(&mut s, '-');
    } else {
        push_char(&mut s, '+');
    }
    push_dec(&mut s, magnitude(i));
    assert(s@ =~= plus_dec(i as int));
    s
}

/// `s`, filled up on the left with `fill` to at least `width` characters.
pub fn pad_left_string(s: &str, width: usize, fill: char) -> (r: String)
    ensures
        r@ == pad_left(s@, width as nat, fill),
{
    let n = s.unicode_len();
    let mut r = String::new();
    if n < width {
        let missing = width - n;
        let mut i: usize = 0;
        while i < missing
            invariant
                i <= missing,
                r@ == Seq::new(i as nat, |_j: int| fill),
            decreases missing - i,
        {
            push_char(&mut r, fill);
            i = i + 1;
            assert(r@ =~= Seq::new(i as nat, |_j: int| fill));
        }
    }
    r.append(s);
    assert(r@ =~= pad_left(s@, width as nat, fill));
    r
}

/// `s` with every character `from` replaced by `to`.
pub fn replace_char_string(s: &str, from: char, to: &str) -> (r: String)
    ensures
        r@ == replace_char(s@, from, to@),
{
    let n = s.unicode_len();
    let mut r = String::new();
    let mut i: usize = 0;
    while i < n
        invariant
            n == s@.len(),
            i <= n,
            r@ == replace_char(s@.take(i as int), from, to@),
        decreases n - i,
    {
        let c = s.get_char(i);
        assert(s@.take(i + 1).drop_last() =~= s@.take(i as int));
        assert(s@.take(i + 1).last() == c);
        if c == from {
            r.append(to);
        } else {
            push_char(&mut r, c);
        }
        i = i + 1;
    }
    assert(s@.take(n as int) =~= s@);
    r
}

} // verus!
