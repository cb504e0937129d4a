//! Text primitives shared by the log codec and the file-name builders:
//! character access, decimal numbers of fixed and free width.

use vstd::prelude::*;

verus! {

/// Appends one character to a string.
///
/// Calls `String::push`, which std documents as appending the given `char`
/// to the end of the string; the contract states exactly that.
#[verifier::external_body]
pub(crate) fn push_char(s: &mut String, c: char)
    ensures
        final(s)@ == old(s)@.push(c),
{
    s.push(c);
}

/// The characters of a string slice, in order.
pub fn chars_of(s: &str) -> (v: Vec<char>)
    ensures
        v@ == s@,
{
    let mut v: Vec<char> = Vec::new();
    for c in it: s.chars()
        invariant
            v@ == it.seq().take(it.index() as int),
            it.seq() == s@,
    {
        v.push(c);
    }
    v
}

/// The code point of a character.
pub fn code_of(c: char) -> (r: u32)
    ensures
        r as int == c as int,
{
    c as u32
}

/// The character that writes the decimal digit `d`.
pub open spec fn digit_char(d: int) -> char {
    (d + 48) as char
}

pub open spec fn is_digit(c: char) -> bool {
    48 <= c as int <= 57
}

pub open spec fn pow10(n: nat) -> nat
    decreases n,
{
    if n == 0 {
        1
    } else {
        10 * pow10((n - 1) as nat)
    }
}

/// `value` written with exactly `width` decimal digits, zero padded; digits
/// above the width are cut off.
pub open spec fn decimal(value: nat, width: nat) -> Seq<char>
    decreases width,
{
    if width == 0 {
        Seq::empty()
    } else {
        decimal(value / 10, (width - 1) as nat).push(digit_char((value % 10) as int))
    }
}

/// `value` written in decimal with no padding.
pub open spec fn number(value: nat) -> Seq<char>
    decreases value,
{
    if value < 10 {
        seq![digit_char(value as int)]
    } else {
        number(value / 10).push(digit_char((value % 10) as int))
    }
}

pub open spec fn all_digits(t: Seq<char>) -> bool {
    forall|i: int| 0 <= i < t.len() ==> is_digit(#[trigger] t[i])
}

/// The number that a run of decimal digits writes.
pub open spec fn digits_value(t: Seq<char>) -> nat
    decreases t.len(),
{
    if t.len() == 0 {
        0
    } else {
        (digits_value(t.drop_last()) * 10 + (t.last() as int - 48)) as nat
    }
}

/// The number written by `t`, where `t` holds decimal digits only.
pub open spec fn decimal_value(t: Seq<char>) -> Option<nat> {
    if all_digits(t) {
        Some(digits_value(t))
    } else {
        None
    }
}

pub proof fn lemma_decimal_len(value: nat, width: nat)
    ensures
        decimal(value, width).len() == width,
        all_digits(decimal(value, width)),
    decreases width,
{
    if width > 0 {
        lemma_decimal_len(value / 10, (width - 1) as nat);
    }
}

/// Reading back a fixed-width decimal gives the number that was written.
pub proof fn lemma_decimal_round_trip(value: nat, width: nat)
    requires
        value < pow10(width),
    ensures
        decimal_value(decimal(value, width)) == Some(value),
    decreases width,
{
    lemma_decimal_len(value, width);
    if width > 0 {
        let shorter = decimal(value / 10, (width - 1) as nat);
        lemma_decimal_round_trip(value / 10, (width - 1) as nat);
        assert(decimal(value, width).drop_last() == shorter);
    }
}

pub proof fn lemma_digits_value_bound(t: Seq<char>)
    requires
        all_digits(t),
    ensures
        digits_value(t) < pow10(t.len()),
    decreases t.len(),
{
    if t.len() > 0 {
        let head = t.drop_last();
        assert(all_digits(head)) by {
            assert forall|i: int| 0 <= i < head.len() implies is_digit(#[trigger] head[i]) by {
                assert(head[i] == t[i]);
            }
        }
        lemma_digits_value_bound(head);
        assert(is_digit(t[t.len() - 1]));
    }
}

pub fn digit_of(d: u8) -> (c: char)
    requires
        d < 10,
    ensures
        c == digit_char(d as int),
{
    (d + 48) as char
}

/// Appends `value` as exactly `width` decimal digits.
pub fn push_decimal(s: &mut String, value: u32, width: u32)
    ensures
        final(s)@ == old(s)@ + decimal(value as nat, width as nat),
    decreases width,
{
    if width > 0 {
        push_decimal(s, value / 10, width - 1);
        push_char(s, digit_of((value % 10) as u8));
    }
}

/// Appends `value` in decimal with no padding.
pub fn push_number(s: &mut String, value: u32)
    ensures
        final(s)@ == old(s)@ + number(value as nat),
    decreases value,
{
    if value >= 10 {
        push_number(s, value / 10);
    }
    push_char(s, digit_of((value % 10) as u8));
}

/// Reads `width` decimal digits of `chars`, from `start` on.
pub fn read_decimal(chars: &Vec<char>, start: usize, width: usize) -> (r: Option<u32>)
    requires
        start + width <= chars.len(),
        width <= 9,
    ensures
        r matches Some(v) ==> decimal_value(chars@.subrange(start as int, start + width))
            == Some(v as nat),
        r is None ==> decimal_value(chars@.subrange(start as int, start + width)) is None,
{
    let ghost whole = chars@.subrange(start as int, start + width);
    let mut acc: u32 = 0;
    let mut i: usize = 0;
    while i < width
        invariant
            i <= width <= 9,
            start + width <= chars.len(),
            whole == chars@.subrange(start as int, start + width),
            all_digits(whole.take(i as int)),
            acc == digits_value(whole.take(i as int)),
        decreases width - i,
    {
        let c = chars[start + i];
        let code = code_of(c);
        assert(whole[i as int] == c);
        if code < 48 || code > 57 {
            return None;
        }
        proof {
            let next = whole.take(i + 1);
            assert(next.drop_last() == whole.take(i as int));
            assert(next.last() == c);
            assert(all_digits(next)) by {
                assert forall|k: int| 0 <= k < next.len() implies is_digit(#[trigger] next[k]) by {
                    if k < i {
                        assert(whole.take(i as int)[k] == next[k]);
                    } else {
                        assert(next[k] == c);
                    }
                }
            }
            lemma_digits_value_bound(whole.take(i as int));
            lemma_digits_value_bound(next);
            lemma_pow10_at_most(i as nat + 1);
        }
        acc = acc * 10 + (code - 48);
        i += 1;
    }
    assert(whole.take(width as int) == whole);
    Some(acc)
}

pub proof fn lemma_pow10_at_most(n: nat)
    requires
        n <= 9,
    ensures
        pow10(n) <= 1_000_000_000,
{
    reveal_with_fuel(pow10, 10);
}

} // verus!
