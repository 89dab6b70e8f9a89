//! Numeric entry: the running number that the keys build up, its decimal
//! text, and the frames that show it.

use vstd::prelude::*;
use crate::display::frames_of;
use crate::render::{screen_sequence, Renderer};

verus! {

/// The key that resets the running number.
pub const CLEAR_KEY: char = 'e';

/// The value of a decimal digit, or `None` for any other character.
pub open spec fn digit_value(key: char) -> Option<int> {
    if '0' <= key <= '9' {
        Some((key as int) - ('0' as int))
    } else {
        None
    }
}

/// The running number after one key: a digit is appended in base ten, the
/// clear key gives zero, any other key leaves the number as it is.
pub open spec fn accumulate_spec(value: int, key: char) -> int {
    match digit_value(key) {
        Some(digit) => value * 10 + digit,
        None => if key == CLEAR_KEY {
            0
        } else {
            value
        },
    }
}

/// The running number after a run of keys, taken in order.
pub open spec fn accumulate_all(value: int, keys: Seq<char>) -> int
    decreases keys.len(),
{
    if keys.len() == 0 {
        value
    } else {
        accumulate_spec(accumulate_all(value, keys.drop_last()), keys.last())
    }
}

/// The character of a decimal digit.
pub open spec fn digit_char(digit: int) -> char {
    (('0' as int) + digit) as char
}

/// The decimal digits of a natural number, most significant first, without
/// leading zeros.
pub open spec fn natural_digits(n: nat) -> Seq<char>
    decreases n,
{
    if n < 10 {
        seq![digit_char(n as int)]
    } else {
        natural_digits(n / 10).push(digit_char((n % 10) as int))
    }
}

/// The decimal text of an integer: its digits, after a minus sign if it is
/// negative.
pub open spec fn decimal_text(n: int) -> Seq<char> {
    if n < 0 {
        seq!['-'] + natural_digits((-n) as nat)
    } else {
        natural_digits(n as nat)
    }
}

/// Calls `ufmt`'s `<i64 as uDisplay>::fmt` with a `ufmt::Formatter` over a
/// fresh `String`, to which `ufmt`'s writer for `String` appends.
///
/// Not proved: that what `ufmt` writes is the number in decimal, most
/// significant digit first, without leading zeros or padding, with a minus
/// sign in front of a negative number and no sign in front of any other.
#[verifier::external_body]
fn format_decimal(value: i64) -> (text: String)
    ensures
        text@ == decimal_text(value as int),
{
    let mut text = String::new();
    let _ = ufmt::uDisplay::fmt(&value, &mut ufmt::Formatter::new(&mut text));
    text
}

/// The running number of the entry.
pub struct Accumulator {
    value: i64,
}

impl View for Accumulator {
    type V = int;

    closed spec fn view(&self) -> int {
        self.value as int
    }
}

impl Accumulator {
    /// The accumulator as it is at power-on, with the number zero.
    pub fn new() -> (accumulator: Accumulator)
        ensures
            accumulator@ == 0,
    {
        Accumulator { value: 0 }
    }

    /// An accumulator that holds `value`.
    pub fn with_value(value: i64) -> (accumulator: Accumulator)
        ensures
            accumulator@ == value,
    {
        Accumulator { value }
    }

    /// The running number.
    pub fn value(&self) -> (value: i64)
        ensures
            value == self@,
    {
        self.value
    }

    /// Whether the number that `key` leads to can be held. Only a digit can
    /// lead out of range: any other key gives zero or the number as it is.
    pub open spec fn accepts_spec(&self, key: char) -> bool {
        digit_value(key) matches Some(digit) ==> i64::MIN <= self@ * 10 + digit <= i64::MAX
    }

    /// The running number is always one that the accumulator can hold.
    pub proof fn lemma_value_in_range(&self)
        ensures
            i64::MIN <= self@ <= i64::MAX,
    {
    }

    /// Whether the number that `key` leads to can be held.
    pub fn accepts(&self, key: char) -> (accepted: bool)
        ensures
            accepted == self.accepts_spec(key),
    {
        let code: u32 = key as u32;
        if 0x30 <= code && code <= 0x39 {
            let next: i128 = (self.value as i128) * 10 + ((code - 0x30) as i128);
            -0x8000_0000_0000_0000 <= next && next <= 0x7FFF_FFFF_FFFF_FFFF
        } else {
            true
        }
    }

    /// Takes one key into the running number.
    pub fn press(&mut self, key: char)
        requires
            old(self).accepts_spec(key),
        ensures
            final(self)@ == accumulate_spec(old(self)@, key),
    {
        let code: u32 = key as u32;
        if 0x30 <= code && code <= 0x39 {
            let next: i128 = (self.value as i128) * 10 + ((code - 0x30) as i128);
            self.value = next as i64;
        } else if key == CLEAR_KEY {
            self.value = 0;
        }
    }

    /// The running number as decimal text.
    pub fn text(&self) -> (text: String)
        ensures
            text@ == decimal_text(self@),
    {
        format_decimal(self.value)
    }

    /// The frames that replace whatever the panel shows by the running
    /// number's decimal text.
    pub fn screen(&self, renderer: &Renderer) -> (frames: Vec<Vec<u8>>)
        ensures
            frames_of(frames) == screen_sequence(decimal_text(self@)),
    {
        let text = self.text();
        renderer.screen(text.as_str())
    }

    /// Takes one key into the running number and gives the frames that show
    /// the number it has led to.
    pub fn handle_key(&mut self, key: char, renderer: &Renderer) -> (frames: Vec<Vec<u8>>)
        requires
            old(self).accepts_spec(key),
        ensures
            final(self)@ == accumulate_spec(old(self)@, key),
            frames_of(frames) == screen_sequence(decimal_text(final(self)@)),
    {
        self.press(key);
        self.screen(renderer)
    }
}

/// Ten to the power `n`.
pub open spec fn pow10(n: nat) -> int
    decreases n,
{
    if n == 0 {
        1
    } else {
        10 * pow10((n - 1) as nat)
    }
}

/// Whether every key of a run is a decimal digit.
pub open spec fn is_digits(keys: Seq<char>) -> bool {
    forall|i: int| 0 <= i < keys.len() ==> digit_value(#[trigger] keys[i]) is Some
}

/// The number that a run of digits reads as in base ten: each digit counts
/// for its value times ten to the number of digits that follow it.
pub open spec fn decimal_value(digits: Seq<char>) -> int
    decreases digits.len(),
{
    if digits.len() == 0 {
        0
    } else {
        digit_value(digits.first()).unwrap() * pow10((digits.len() - 1) as nat) + decimal_value(
            digits.drop_first(),
        )
    }
}

/// Taking in two runs of keys one after the other is taking in their
/// concatenation.
pub proof fn lemma_accumulate_concat(value: int, first: Seq<char>, second: Seq<char>)
    ensures
        accumulate_all(value, first + second) == accumulate_all(
            accumulate_all(value, first),
            second,
        ),
    decreases second.len(),
{
    if second.len() == 0 {
        assert(first + second =~= first);
    } else {
        lemma_accumulate_concat(value, first, second.drop_last());
        assert((first + second).drop_last() =~= first + second.drop_last());
        assert((first + second).last() == second.last());
    }
}

/// One more digit at the end makes the number ten times as large, plus the
/// digit.
pub proof fn lemma_decimal_value_push(digits: Seq<char>, digit: char)
    requires
        is_digits(digits),
        digit_value(digit) is Some,
    ensures
        is_digits(digits.push(digit)),
        decimal_value(digits.push(digit)) == decimal_value(digits) * 10 + digit_value(
            digit,
        ).unwrap(),
    decreases digits.len(),
{
    let longer = digits.push(digit);
    let last = digit_value(digit).unwrap();
    if digits.len() == 0 {
        assert(longer.drop_first() =~= Seq::<char>::empty());
        assert(decimal_value(longer.drop_first()) == 0);
        assert(pow10(0) == 1);
        assert(decimal_value(longer) == last * pow10(0) + 0);
    } else {
        let tail = digits.drop_first();
        assert(is_digits(tail)) by {
            assert forall|i: int| 0 <= i < tail.len() implies digit_value(
                #[trigger] tail[i],
            ) is Some by {
                assert(tail[i] == digits[i + 1]);
            }
        }
        lemma_decimal_value_push(tail, digit);
        assert(longer.drop_first() =~= tail.push(digit));
        assert(longer.first() == digits.first());
        let head = digit_value(digits.first()).unwrap();
        let weight = pow10((digits.len() - 1) as nat);
        assert(pow10(digits.len()) == 10 * weight);
        assert(decimal_value(longer) == head * (10 * weight) + (decimal_value(tail) * 10 + last));
        assert(decimal_value(digits) == head * weight + decimal_value(tail));
        assert(head * (10 * weight) + (decimal_value(tail) * 10 + last) == (head * weight
            + decimal_value(tail)) * 10 + last) by (nonlinear_arith);
    }
}

/// A run of digits makes the running number the one that its earlier digits
/// followed by the new ones read as. From zero, the running number is the
/// number that the digits read as.
pub proof fn lemma_digits_accumulate(value: int, digits: Seq<char>)
    requires
        is_digits(digits),
    ensures
        accumulate_all(value, digits) == value * pow10(digits.len()) + decimal_value(digits),
        accumulate_all(0, digits) == decimal_value(digits),
    decreases digits.len(),
{
    if digits.len() > 0 {
        let shorter = digits.drop_last();
        let last = digit_value(digits.last()).unwrap();
        assert(is_digits(shorter));
        lemma_digits_accumulate(value, shorter);
        lemma_digits_accumulate(0, shorter);
        lemma_decimal_value_push(shorter, digits.last());
        assert(shorter.push(digits.last()) =~= digits);
        let weight = pow10(shorter.len());
        assert(pow10(digits.len()) == 10 * weight);
        assert(accumulate_all(value, digits) == accumulate_all(value, shorter) * 10 + last);
        assert((value * weight + decimal_value(shorter)) * 10 + last == value * (10 * weight) + (
            decimal_value(shorter) * 10 + last)) by (nonlinear_arith);
    }
}

/// The clear key makes what came before it count for nothing: the running
/// number is what the keys after it give from zero.
pub proof fn lemma_clear_key_resets(value: int, before: Seq<char>, after: Seq<char>)
    ensures
        accumulate_all(value, before.push(CLEAR_KEY) + after) == accumulate_all(0, after),
{
    lemma_accumulate_concat(value, before.push(CLEAR_KEY), after);
    assert(before.push(CLEAR_KEY).drop_last() =~= before);
}

/// The decimal digits of a natural number are digits, and read as that
/// number.
pub proof fn lemma_natural_digits_value(n: nat)
    ensures
        is_digits(natural_digits(n)),
        decimal_value(natural_digits(n)) == n,
    decreases n,
{
    if n < 10 {
        assert(is_digits(Seq::<char>::empty()));
        lemma_decimal_value_push(Seq::empty(), digit_char(n as int));
        assert(Seq::<char>::empty().push(digit_char(n as int)) =~= natural_digits(n));
    } else {
        lemma_natural_digits_value(n / 10);
        lemma_decimal_value_push(natural_digits(n / 10), digit_char((n % 10) as int));
    }
}

/// A natural number below ten to the `places` has at most `places` digits.
pub proof fn lemma_natural_digits_len(n: nat, places: nat)
    requires
        places >= 1,
        n < pow10(places),
    ensures
        1 <= natural_digits(n).len() <= places,
    decreases n,
{
    if n >= 10 {
        assert(pow10(1) == 10) by {
            reveal_with_fuel(pow10, 2);
        }
        assert(places >= 2);
        assert(pow10(places) == 10 * pow10((places - 1) as nat));
        lemma_natural_digits_len(n / 10, (places - 1) as nat);
    }
}

/// The decimal text of a number that the accumulator can hold has at most
/// twenty characters.
pub proof fn lemma_decimal_text_len(value: i64)
    ensures
        1 <= decimal_text(value as int).len() <= 20,
{
    assert(pow10(19) == 10_000_000_000_000_000_000) by {
        reveal_with_fuel(pow10, 20);
    }
    if value < 0 {
        lemma_natural_digits_len((-value) as nat, 19);
    } else {
        lemma_natural_digits_len(value as nat, 19);
    }
}

} // verus!
