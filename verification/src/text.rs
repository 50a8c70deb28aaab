//! Small helpers on strings, seen as sequences of characters.

use vstd::prelude::*;

verus! {

/// The texts of a sequence of strings.
pub open spec fn texts(strings: Seq<String>) -> Seq<Seq<char>> {
    strings.map_values(|s: String| s@)
}

/// `String::push` puts the character at the end of the string and leaves
/// the rest as it was.
///
/// This is not proved: it is what the standard library says of it.
pub assume_specification[ String::push ](s: &mut String, c: char)
    ensures
        final(s)@ == old(s)@.push(c),
;

/// The ten decimal digits, by value.
pub open spec fn decimal_alphabet() -> Seq<char> {
    seq!['0', '1', '2', '3', '4', '5', '6', '7', '8', '9']
}

/// The decimal digits of `value`, most significant first, without leading
/// zeros.
pub open spec fn decimal_digits(value: nat) -> Seq<char>
    decreases value,
{
    if value < 10 {
        seq![decimal_alphabet()[value as int]]
    } else {
        decimal_digits(value / 10).push(decimal_alphabet()[(value % 10) as int])
    }
}

/// The decimal digit of value `digit`.
fn decimal_digit(digit: u8) -> (c: char)
    requires
        digit < 10,
    ensures
        c == decimal_alphabet()[digit as int],
{
    match digit {
        0 => '0',
        1 => '1',
        2 => '2',
        3 => '3',
        4 => '4',
        5 => '5',
        6 => '6',
        7 => '7',
        8 => '8',
        _ => '9',
    }
}

/// The string that holds `chars`.
pub(crate) fn string_of(chars: &Vec<char>) -> (text: String)
    ensures
        text@ == chars@,
{
    let mut text = String::new();
    let mut next: usize = 0;
    while next < chars.len()
        invariant
            next <= chars.len(),
            text@ == chars@.take(next as int),
        decreases chars.len() - next,
    {
        text.push(chars[next]);
        next = next + 1;
    }
    text
}

/// Render `value` in decimal.
pub fn decimal(value: usize) -> (text: String)
    ensures
        text@ == decimal_digits(value as nat),
{
    let mut digits: Vec<char> = Vec::new();
    digits.push(decimal_digit((value % 10) as u8));
    let mut rest: usize = value / 10;
    while rest > 0
        invariant
            digits@.len() > 0,
            decimal_digits(value as nat) == if rest == 0 {
                digits@
            } else {
                decimal_digits(rest as nat) + digits@
            },
        decreases rest,
    {
        let digit = decimal_digit((rest % 10) as u8);
        digits.insert(0, digit);
        rest = rest / 10;
    }
    string_of(&digits)
}

/// Whether two strings hold the same text.
pub fn same_text(a: &str, b: &str) -> (same: bool)
    ensures
        same == (a@ == b@),
{
    let left = chars_of(a);
    let right = chars_of(b);
    if left.len() != right.len() {
        return false;
    }
    let mut next: usize = 0;
    while next < left.len()
        invariant
            left@ == a@,
            right@ == b@,
            left.len() == right.len(),
            next <= left.len(),
            forall|i: int| 0 <= i < next ==> left@[i] == right@[i],
        decreases left.len() - next,
    {
        if left[next] != right[next] {
            return false;
        }
        next = next + 1;
    }
    assert(a@ =~= b@);
    true
}

/// The characters of `s`, in order.
pub(crate) fn chars_of(s: &str) -> (chars: Vec<char>)
    ensures
        chars@ == s@,
{
    let mut chars: Vec<char> = Vec::new();
    for c in it: s.chars()
        invariant
            it.seq() == s@,
            chars@ == it.seq().take(it.index() as int),
    {
        chars.push(c);
    }
    chars
}

} // verus!
