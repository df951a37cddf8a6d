use rustc_apfloat::ieee::Double;
use rustc_apfloat::Float as Ieee;
use crate::text::chars_of;
use vstd::prelude::*;
use vstd::string::StrSliceExecFns;

verus! {

/// The bit pattern of the double that `rustc_apfloat` gives for the sum of the
/// doubles with bit patterns `a` and `b`, rounding to nearest, ties to even.
pub uninterp spec fn sum_bits(a: u64, b: u64) -> u64;

/// The bit pattern of the difference, as `rustc_apfloat` computes it.
pub uninterp spec fn difference_bits(a: u64, b: u64) -> u64;

/// The bit pattern of the product, as `rustc_apfloat` computes it.
pub uninterp spec fn product_bits(a: u64, b: u64) -> u64;

/// The bit pattern of the quotient, as `rustc_apfloat` computes it.
pub uninterp spec fn quotient_bits(a: u64, b: u64) -> u64;

/// What `rustc_apfloat` reads from a text: the bit pattern of the double that
/// it takes the text for, or `None` where it rejects the text.
pub uninterp spec fn decimal_bits(text: Seq<char>) -> Option<u64>;

/// The decimal text that `rustc_apfloat` prints for the double with bit
/// pattern `bits` where it is asked for at most `digits` digits, and to write
/// an exponent rather than more than `zeros` zeros.
pub uninterp spec fn digits_text(bits: u64, zeros: usize, digits: usize) -> Seq<char>;

/// The bit pattern of the double nearest to the integer `n`.
pub uninterp spec fn integer_bits(n: u64) -> u64;

/// Calls `Add::add` of `rustc_apfloat::ieee::Double` on the two doubles with
/// the given bit patterns. The result is a function of the two patterns alone;
/// nothing else is claimed of it.
#[verifier::external_body]
pub(crate) fn ieee_add(a: u64, b: u64) -> (r: u64)
    ensures
        r == sum_bits(a, b),
{
    (Double::from_bits(a as u128) + Double::from_bits(b as u128)).value.to_bits() as u64
}

/// Calls `Sub::sub` of `rustc_apfloat::ieee::Double`; the result is named, not
/// described.
#[verifier::external_body]
pub(crate) fn ieee_sub(a: u64, b: u64) -> (r: u64)
    ensures
        r == difference_bits(a, b),
{
    (Double::from_bits(a as u128) - Double::from_bits(b as u128)).value.to_bits() as u64
}

/// Calls `Mul::mul` of `rustc_apfloat::ieee::Double`; the result is named, not
/// described.
#[verifier::external_body]
pub(crate) fn ieee_mul(a: u64, b: u64) -> (r: u64)
    ensures
        r == product_bits(a, b),
{
    (Double::from_bits(a as u128) * Double::from_bits(b as u128)).value.to_bits() as u64
}

/// Calls `Div::div` of `rustc_apfloat::ieee::Double`; the result is named, not
/// described. Division by zero is no error there: it gives an infinity or a NaN.
#[verifier::external_body]
pub(crate) fn ieee_div(a: u64, b: u64) -> (r: u64)
    ensures
        r == quotient_bits(a, b),
{
    (Double::from_bits(a as u128) / Double::from_bits(b as u128)).value.to_bits() as u64
}

/// The longest text that is handed to `rustc_apfloat` to read: it counts the
/// places between digits in 32 bits and stops where that fails.
pub const LONGEST_NUMBER: usize = 0x1000_0000;

/// Calls `FromStr::from_str` of `rustc_apfloat::ieee::Double`, which reads a
/// number from a text. A rejected text gives `None`; the result is named, not
/// described.
/// Texts beyond `LONGEST_NUMBER` are left out: on them the call may not return.
#[verifier::external_body]
pub(crate) fn ieee_parse(text: &str) -> (r: Option<u64>)
    requires
        text@.len() <= LONGEST_NUMBER,
    ensures
        r == decimal_bits(text@),
{
    match text.parse::<Double>() {
        Ok(value) => Some(value.to_bits() as u64),
        Err(_) => None,
    }
}

/// Calls the `Display` implementation of `rustc_apfloat::ieee::Double` with
/// `zeros` as the width and `digits` as the precision: there the width is the
/// largest number of zeros to write before an exponent is used instead, the
/// precision the largest number of digits. The text is named, not described.
/// No digits at all are left out: asked for none, the call drops every digit
/// of some doubles and then stops on an assertion.
#[verifier::external_body]
pub(crate) fn ieee_text(bits: u64, zeros: usize, digits: usize) -> (r: String)
    requires
        zeros <= MOST_ZEROS,
        1 <= digits <= MOST_DIGITS,
    ensures
        r@ == digits_text(bits, zeros, digits),
{
    format!("{:1$.2$}", Double::from_bits(bits as u128), zeros, digits)
}

/// Calls `Float::from_u128` of `rustc_apfloat::ieee::Double`, which converts an
/// integer to the nearest double.
#[verifier::external_body]
pub(crate) fn ieee_from_integer(n: u64) -> (r: u64)
    ensures
        r == integer_bits(n),
{
    Double::from_u128(n as u128).value.to_bits() as u64
}

/// The sign bit of a double.
pub const SIGN_BIT: u64 = 0x8000_0000_0000_0000;

/// Everything but the sign bit of a double.
pub const MAGNITUDE_MASK: u64 = 0x7fff_ffff_ffff_ffff;

/// The magnitude bits of the infinities; a larger magnitude is a NaN.
pub const INFINITY_BITS: u64 = 0x7ff0_0000_0000_0000;

/// Whether `bits` is the pattern of a NaN.
pub open spec fn is_nan(bits: u64) -> bool {
    (bits & MAGNITUDE_MASK) > INFINITY_BITS
}

/// An integer by which the doubles that are no NaN are ordered as IEEE 754
/// orders them: both zeros get 0, a negative double the negation of its
/// magnitude bits.
pub open spec fn order_key(bits: u64) -> int {
    if bits >= SIGN_BIT {
        -((bits & MAGNITUDE_MASK) as int)
    } else {
        (bits & MAGNITUDE_MASK) as int
    }
}

/// IEEE 754 `<` on bit patterns: false as soon as one side is a NaN.
pub open spec fn less_spec(a: u64, b: u64) -> bool {
    !is_nan(a) && !is_nan(b) && order_key(a) < order_key(b)
}

/// IEEE 754 `<=` on bit patterns: false as soon as one side is a NaN.
pub open spec fn less_equal_spec(a: u64, b: u64) -> bool {
    !is_nan(a) && !is_nan(b) && order_key(a) <= order_key(b)
}

/// The bit pattern with the sign bit flipped.
pub open spec fn negated_bits(bits: u64) -> u64 {
    bits ^ SIGN_BIT
}

fn key_of(bits: u64) -> (r: i128)
    ensures
        r == order_key(bits),
{
    let magnitude: u64 = bits & MAGNITUDE_MASK;
    if bits >= SIGN_BIT {
        -(magnitude as i128)
    } else {
        magnitude as i128
    }
}

fn nan_bits(bits: u64) -> (r: bool)
    ensures
        r == is_nan(bits),
{
    (bits & MAGNITUDE_MASK) > INFINITY_BITS
}

/// Whether the double `a` is less than the double `b`.
pub fn ieee_less(a: u64, b: u64) -> (r: bool)
    ensures
        r == less_spec(a, b),
{
    !nan_bits(a) && !nan_bits(b) && key_of(a) < key_of(b)
}

/// Whether the double `a` is less than or equal to the double `b`.
pub fn ieee_less_equal(a: u64, b: u64) -> (r: bool)
    ensures
        r == less_equal_spec(a, b),
{
    !nan_bits(a) && !nan_bits(b) && key_of(a) <= key_of(b)
}

/// The double `bits` with its sign flipped.
pub fn ieee_negate(bits: u64) -> (r: u64)
    ensures
        r == negated_bits(bits),
{
    bits ^ SIGN_BIT
}

/// The most digits that a text of a double is given: with 17 digits every
/// double is told from every other.
pub const MOST_DIGITS: usize = 17;

/// The most zeros that a text of a double is given before an exponent is
/// written instead.
pub const MOST_ZEROS: usize = 17;

/// Whether `text` has an exponent.
pub open spec fn has_exponent(text: Seq<char>) -> bool {
    exists|i: int| 0 <= i < text.len() && text[i] == 'E'
}

/// The double that a decimal text denotes: what `rustc_apfloat` reads from
/// it, and nothing where the text is longer than `LONGEST_NUMBER`.
pub open spec fn read_bits(text: Seq<char>) -> Option<u64> {
    if text.len() <= LONGEST_NUMBER {
        decimal_bits(text)
    } else {
        None
    }
}

/// Whether the text of `bits` with `digits` digits is read as `bits` again
/// and, where `plain` is asked for, has no exponent.
pub open spec fn suits(bits: u64, digits: usize, plain: bool) -> bool {
    &&& read_bits(digits_text(bits, MOST_ZEROS, digits)) == Some(bits)
    &&& plain ==> !has_exponent(digits_text(bits, MOST_ZEROS, digits))
}

/// The least number of digits from `from` up to 17 that suits; a larger
/// number where none does.
pub open spec fn first_suiting(bits: u64, from: usize, plain: bool) -> usize
    decreases MOST_DIGITS + 1 - from,
{
    if from > MOST_DIGITS || suits(bits, from, plain) {
        from
    } else {
        first_suiting(bits, (from + 1) as usize, plain)
    }
}

/// The number of digits of the text of `bits`: the fewest with which the
/// text has no exponent and is read as the same double again; without such a
/// text, the fewest with which it is read as the same double; 17 otherwise.
pub open spec fn number_digits(bits: u64) -> usize {
    if first_suiting(bits, 1, true) <= MOST_DIGITS {
        first_suiting(bits, 1, true)
    } else if first_suiting(bits, 1, false) <= MOST_DIGITS {
        first_suiting(bits, 1, false)
    } else {
        MOST_DIGITS
    }
}

/// The text of the double `bits`.
pub open spec fn number_text(bits: u64) -> Seq<char> {
    digits_text(bits, MOST_ZEROS, number_digits(bits))
}

/// The double that the decimal text `text` denotes, if it denotes one.
pub fn ieee_read(text: &str) -> (r: Option<u64>)
    ensures
        r == read_bits(text@),
{
    if text.unicode_len() <= LONGEST_NUMBER {
        ieee_parse(text)
    } else {
        None
    }
}

fn exponent_in(text: &str) -> (r: bool)
    ensures
        r == has_exponent(text@),
{
    let chars = chars_of(text);
    let mut i: usize = 0;
    while i < chars.len()
        invariant
            i <= chars.len(),
            chars@ == text@,
            forall|k: int| 0 <= k < i ==> chars@[k] != 'E',
        decreases chars.len() - i,
    {
        if chars[i] == 'E' {
            return true;
        }
        i += 1;
    }
    false
}

/// Whether a text of `bits` suits, given the text and what was read from it:
/// it was read as `bits` again and, where `plain` is asked for, has no
/// exponent.
pub fn suits_text(bits: u64, text: &str, read: Option<u64>, plain: bool) -> (r: bool)
    ensures
        r == (read == Some(bits) && (plain ==> !has_exponent(text@))),
{
    let same = match read {
        Some(found) => found == bits,
        None => false,
    };
    same && !(plain && exponent_in(text))
}

/// Looks for the least number of digits that suits, and gives it with its
/// text; a number above 17 where none suits.
fn suiting_text(bits: u64, plain: bool) -> (r: (usize, Option<String>))
    ensures
        r.0 == first_suiting(bits, 1, plain),
        r.0 <= MOST_DIGITS ==> (r.1 matches Some(text) && text@ == digits_text(
            bits,
            MOST_ZEROS,
            r.0,
        )),
        r.0 > MOST_DIGITS ==> r.1 is None,
{
    let mut digits: usize = 1;
    while digits <= MOST_DIGITS
        invariant
            1 <= digits <= MOST_DIGITS + 1,
            first_suiting(bits, digits, plain) == first_suiting(bits, 1, plain),
        decreases MOST_DIGITS + 1 - digits,
    {
        let text = ieee_text(bits, MOST_ZEROS, digits);
        let read = ieee_read(text.as_str());
        if suits_text(bits, text.as_str(), read, plain) {
            return (digits, Some(text));
        }
        digits += 1;
    }
    (digits, None)
}

/// The text of the double `bits`.
pub fn ieee_shortest_text(bits: u64) -> (text: String)
    ensures
        text@ == number_text(bits),
{
    match suiting_text(bits, true) {
        (_, Some(text)) => text,
        (_, None) => match suiting_text(bits, false) {
            (_, Some(text)) => text,
            (_, None) => ieee_text(bits, MOST_ZEROS, MOST_DIGITS),
        },
    }
}

} // verus!
