//! Fork-point identities: a value per call site that every process of one
//! executable renders as the same short text.

use std::any::TypeId;
use std::collections::hash_map::DefaultHasher;
use std::hash::Hash;
use std::hash::Hasher;

use vstd::prelude::*;
use vstd::std_specs::hash::DefaultHasherAdditionalSpecFns;

use crate::text::string_of;

verus! {

/// The delimiter with which the text of every identity starts.
pub const DELIMITER: char = ':';

/// Number of hex digits in the text of an identity.
pub const DIGITS: usize = 16;

/// `std::any::TypeId`, as a value that is carried along and never looked
/// into.
#[verifier::external_type_specification]
#[verifier::external_body]
pub struct ExTypeId(TypeId);

/// What `TypeId` feeds into a hasher: the byte strings that its `Hash`
/// impl writes, in order.
pub uninterp spec fn type_id_writes(id: TypeId) -> Seq<Seq<u8>>;

/// Feeds `id` into `hasher`, by `<TypeId as Hash>::hash`.
///
/// This is not proved. It claims that hashing a `TypeId` only writes to the
/// hasher, after what was written before, and that what it writes depends on
/// nothing but the `TypeId`.
#[verifier::external_body]
fn feed_type_id(id: &TypeId, hasher: &mut DefaultHasher)
    ensures
        final(hasher)@ == old(hasher)@ + type_id_writes(*id),
{
    id.hash(hasher)
}

/// The digest of a `TypeId`: what a fresh default hasher makes of it.
pub open spec fn type_id_digest(id: TypeId) -> u64 {
    DefaultHasher::spec_finish(type_id_writes(id))
}

/// The sixteen hex digits, upper case, by value.
pub open spec fn hex_alphabet() -> Seq<char> {
    seq!['0', '1', '2', '3', '4', '5', '6', '7', '8', '9', 'A', 'B', 'C', 'D', 'E', 'F']
}

/// The last `width` hex digits of `value`, most significant first, with
/// leading zeros.
pub open spec fn hex_digits(value: nat, width: nat) -> Seq<char>
    decreases width,
{
    if width == 0 {
        Seq::<char>::empty()
    } else {
        hex_digits(value / 16, (width - 1) as nat).push(hex_alphabet()[(value % 16) as int])
    }
}

/// The text of the identity with digest `digest`: the delimiter, then the
/// digest as sixteen upper-case hex digits.
pub open spec fn identity_text(digest: u64) -> Seq<char> {
    seq![DELIMITER] + hex_digits(digest as nat, DIGITS as nat)
}

/// `c` is one of the sixteen upper-case hex digits.
pub open spec fn is_hex_digit(c: char) -> bool {
    ('0' <= c && c <= '9') || ('A' <= c && c <= 'F')
}

/// The value of the hex digit `c`.
pub open spec fn hex_value(c: char) -> int {
    if '0' <= c && c <= '9' {
        c as int - '0' as int
    } else {
        c as int - 'A' as int + 10
    }
}

/// Each of the sixteen digits is a hex digit, and has the value by which it
/// was chosen.
pub proof fn lemma_hex_alphabet(nibble: int)
    requires
        0 <= nibble < 16,
    ensures
        is_hex_digit(hex_alphabet()[nibble]),
        hex_value(hex_alphabet()[nibble]) == nibble,
{
}

/// The digits of a value are as many as were asked for, and each is a hex
/// digit.
pub proof fn lemma_hex_digits_shape(value: nat, width: nat)
    ensures
        hex_digits(value, width).len() == width,
        forall|i: int| 0 <= i < width ==> is_hex_digit(#[trigger] hex_digits(value, width)[i]),
    decreases width,
{
    if width > 0 {
        lemma_hex_digits_shape(value / 16, (width - 1) as nat);
        lemma_hex_alphabet((value % 16) as int);
    }
}

/// `value` can be written with `width` hex digits.
pub open spec fn fits_hex(value: nat, width: nat) -> bool
    decreases width,
{
    if width == 0 {
        value == 0
    } else {
        fits_hex(value / 16, (width - 1) as nat)
    }
}

/// Two values that `width` digits can hold and that have the same digits
/// are the same value.
pub proof fn lemma_hex_digits_injective(a: nat, b: nat, width: nat)
    requires
        fits_hex(a, width),
        fits_hex(b, width),
        hex_digits(a, width) == hex_digits(b, width),
    ensures
        a == b,
    decreases width,
{
    if width > 0 {
        let rest = (width - 1) as nat;
        let high_a = hex_digits(a / 16, rest);
        let high_b = hex_digits(b / 16, rest);
        let low_a = hex_alphabet()[(a % 16) as int];
        let low_b = hex_alphabet()[(b % 16) as int];
        assert(high_a.push(low_a).last() == low_a);
        assert(high_b.push(low_b).last() == low_b);
        assert(high_a.push(low_a).drop_last() =~= high_a);
        assert(high_b.push(low_b).drop_last() =~= high_b);
        lemma_hex_alphabet((a % 16) as int);
        lemma_hex_alphabet((b % 16) as int);
        lemma_hex_digits_injective(a / 16, b / 16, rest);
    }
}

/// Every digest can be written with sixteen hex digits.
pub proof fn lemma_digest_fits(digest: u64)
    ensures
        fits_hex(digest as nat, DIGITS as nat),
{
    reveal_with_fuel(fits_hex, 17);
}

/// The text of an identity is seventeen characters long: the delimiter,
/// then hex digits, none of which is the delimiter.
pub proof fn lemma_identity_text_shape(digest: u64)
    ensures
        identity_text(digest).len() == DIGITS + 1,
        identity_text(digest)[0] == DELIMITER,
        forall|i: int|
            1 <= i <= DIGITS ==> is_hex_digit(#[trigger] identity_text(digest)[i])
                && identity_text(digest)[i] != DELIMITER,
{
    lemma_hex_digits_shape(digest as nat, DIGITS as nat);
    assert forall|i: int| 1 <= i <= DIGITS implies is_hex_digit(
        #[trigger] identity_text(digest)[i],
    ) && identity_text(digest)[i] != DELIMITER by {
        assert(identity_text(digest)[i] == hex_digits(digest as nat, DIGITS as nat)[i - 1]);
    }
}

/// The texts of two identities are the same text only where their digests
/// are the same: rendering adds no collision to those of the hash.
pub proof fn lemma_identity_text_injective(a: u64, b: u64)
    requires
        identity_text(a) == identity_text(b),
    ensures
        a == b,
{
    let digits_a = hex_digits(a as nat, DIGITS as nat);
    let digits_b = hex_digits(b as nat, DIGITS as nat);
    assert(identity_text(a).skip(1) =~= digits_a);
    assert(identity_text(b).skip(1) =~= digits_b);
    lemma_digest_fits(a);
    lemma_digest_fits(b);
    lemma_hex_digits_injective(a as nat, b as nat, DIGITS as nat);
}

/// The hex digit of value `nibble`.
fn hex_digit(nibble: u8) -> (digit: char)
    requires
        nibble < 16,
    ensures
        digit == hex_alphabet()[nibble as int],
{
    match nibble {
        0 => '0',
        1 => '1',
        2 => '2',
        3 => '3',
        4 => '4',
        5 => '5',
        6 => '6',
        7 => '7',
        8 => '8',
        9 => '9',
        10 => 'A',
        11 => 'B',
        12 => 'C',
        13 => 'D',
        14 => 'E',
        _ => 'F',
    }
}

/// Render the identity with digest `digest`.
pub fn render_identity(digest: u64) -> (text: String)
    ensures
        text@ == identity_text(digest),
{
    let mut digits: Vec<char> = Vec::new();
    let mut rest: u64 = digest;
    let mut done: usize = 0;
    while done < DIGITS
        invariant
            done <= DIGITS,
            digits@.len() == done,
            hex_digits(digest as nat, DIGITS as nat) == hex_digits(
                rest as nat,
                (DIGITS - done) as nat,
            ) + digits@,
        decreases DIGITS - done,
    {
        let digit = hex_digit((rest % 16) as u8);
        digits.insert(0, digit);
        rest = rest / 16;
        done = done + 1;
    }
    digits.insert(0, DELIMITER);
    string_of(&digits)
}

/// The identity of a fork point: the call site, marked by a type that is
/// declared there and nowhere else.
#[derive(Hash, PartialEq, Debug)]
pub struct RustyForkId(TypeId);

impl Clone for RustyForkId {
    fn clone(&self) -> (copy: Self)
        ensures
            copy == *self,
    {
        RustyForkId(self.0)
    }
}

impl RustyForkId {
    /// The marker type of the call site.
    pub closed spec fn site(&self) -> TypeId {
        self.0
    }

    /// The text by which the identity is known, in the trail and in the
    /// environment.
    pub open spec fn text(&self) -> Seq<char> {
        identity_text(type_id_digest(self.site()))
    }

    /// The identity of the call site whose marker type is `id`.
    pub fn of(id: TypeId) -> (fork_id: Self)
        ensures
            fork_id.site() == id,
    {
        RustyForkId(id)
    }

    /// Render the identity: the delimiter, then the digest of the marker
    /// type as sixteen upper-case hex digits.
    pub fn to_string(&self) -> (text: String)
        ensures
            text@ == self.text(),
    {
        let mut hasher = DefaultHasher::new();
        feed_type_id(&self.0, &mut hasher);
        render_identity(hasher.finish())
    }
}

/// The identity of one call site is one text, whenever and in whichever
/// process of the executable it is rendered.
pub proof fn lemma_same_site_same_text(a: RustyForkId, b: RustyForkId)
    requires
        a.site() == b.site(),
    ensures
        a.text() == b.text(),
{
}

/// Two call sites have the same text only where the hash gives their
/// marker types the same digest.
pub proof fn lemma_same_text_same_digest(a: RustyForkId, b: RustyForkId)
    requires
        a.text() == b.text(),
    ensures
        type_id_digest(a.site()) == type_id_digest(b.site()),
{
    lemma_identity_text_injective(type_id_digest(a.site()), type_id_digest(b.site()));
}

} // verus!
