//! Short labels, built in place in a `heapless` string.
use vstd::prelude::*;

use core::fmt::Write;

use vstd::utf8::{encode_utf8, is_ascii_chars, is_ascii_chars_encode_utf8};

verus! {

/// How many bytes a label can hold.
pub const LABEL_CAPACITY: usize = 12;

/// The fixed-capacity string type of the `heapless` crate.
#[verifier::external_type_specification]
#[verifier::external_body]
pub struct ExString<const N: usize>(heapless::String<N>);

/// The characters that a label holds.
pub uninterp spec fn label_chars(label: heapless::String<12>) -> Seq<char>;

/// Whether a text is short enough for a label.
pub open spec fn label_holds(text: Seq<char>) -> bool {
    encode_utf8(text).len() <= LABEL_CAPACITY
}

/// Calls `heapless::String::new`, which returns an empty string.
#[verifier::external_body]
pub(crate) fn label_new() -> (label: heapless::String<12>)
    ensures
        label_chars(label) == Seq::<char>::empty(),
{
    heapless::String::new()
}

/// Calls `heapless::String::push_str`: the text is appended if the result fits the
/// capacity, and the string stays as it was if not.
#[verifier::external_body]
pub(crate) fn label_push_str(label: &mut heapless::String<12>, text: &str) -> (pushed: Result<
    (),
    (),
>)
    ensures
        pushed is Ok <==> label_holds(label_chars(*old(label)) + text@),
        label_chars(*final(label)) == if pushed is Ok {
            label_chars(*old(label)) + text@
        } else {
            label_chars(*old(label))
        },
{
    label.push_str(text)
}

/// Formats a number with `{}` into the string, through the `core::fmt::Write` impl
/// of `heapless::String`: the decimal digits are appended if the result fits the
/// capacity. What the string holds if it does not fit is not stated.
#[verifier::external_body]
pub(crate) fn label_write_number(label: &mut heapless::String<12>, n: u16) -> (written: bool)
    ensures
        label_holds(label_chars(*old(label)) + decimal(n as nat)) ==> written && label_chars(
            *final(label),
        ) == label_chars(*old(label)) + decimal(n as nat),
{
    write!(label, "{}", n).is_ok()
}

/// Calls `heapless::String::as_str`, which gives the characters of the string.
#[verifier::external_body]
pub(crate) fn label_as_str(label: &heapless::String<12>) -> (text: &str)
    ensures
        text@ == label_chars(*label),
{
    label.as_str()
}

/// The decimal digit of a number below ten.
pub open spec fn digit(n: nat) -> char {
    (('0' as int) + n) as char
}

/// A number written in decimal, without leading zeros.
pub open spec fn decimal(n: nat) -> Seq<char>
    decreases n,
{
    if n < 10 {
        seq![digit(n)]
    } else {
        decimal(n / 10).push(digit(n % 10))
    }
}

/// A text of ASCII characters takes one byte per character.
pub proof fn lemma_ascii_fits(text: Seq<char>)
    requires
        is_ascii_chars(text),
    ensures
        label_holds(text) <==> text.len() <= LABEL_CAPACITY,
{
    is_ascii_chars_encode_utf8(text);
}

/// The decimal form of a 16-bit number has one to five characters, all of them
/// digits.
pub proof fn lemma_decimal(n: nat)
    requires
        n <= u16::MAX,
    ensures
        1 <= decimal(n).len() <= 5,
        n < 1000 ==> decimal(n).len() <= 3,
        forall|i: int| 0 <= i < decimal(n).len() ==> '0' <= #[trigger] decimal(n)[i] <= '9',
{
    reveal_with_fuel(decimal, 5);
    assert(n / 10 / 10 / 10 / 10 < 10);
}

/// The number that a row of decimal digits stands for.
pub open spec fn decimal_value(text: Seq<char>) -> int
    decreases text.len(),
{
    if text.len() == 0 {
        0
    } else {
        decimal_value(text.drop_last()) * 10 + (text.last() as int - '0' as int)
    }
}

/// What is written reads back as the same number.
pub proof fn law_decimal_reads_back(n: nat)
    ensures
        decimal_value(decimal(n)) == n,
    decreases n,
{
    if n < 10 {
        assert(decimal(n).drop_last() =~= Seq::<char>::empty());
        assert(decimal_value(decimal(n).drop_last()) == 0);
    } else {
        law_decimal_reads_back(n / 10);
        assert(decimal(n).drop_last() =~= decimal(n / 10));
    }
}

/// A row of characters is a number as people write it: at least one digit, nothing but
/// digits, and no zero in front of other digits.
pub open spec fn is_plain_number(text: Seq<char>) -> bool {
    &&& text.len() > 0
    &&& forall|i: int| 0 <= i < text.len() ==> '0' <= #[trigger] text[i] <= '9'
    &&& text.len() > 1 ==> text[0] != '0'
}

/// A number in decimal is written as people write it.
pub proof fn law_decimal_is_a_plain_number(n: nat)
    ensures
        is_plain_number(decimal(n)),
        decimal(n)[0] == '0' ==> n == 0,
    decreases n,
{
    if n >= 10 {
        law_decimal_is_a_plain_number(n / 10);
        let front = decimal(n / 10);
        assert(decimal(n) == front.push(digit(n % 10)));
        assert(decimal(n)[0] == front[0]);
        assert forall|i: int| 0 <= i < decimal(n).len() implies '0' <= #[trigger] decimal(n)[i]
            <= '9' by {
            if i < front.len() {
                assert(decimal(n)[i] == front[i]);
            }
        }
    }
}

/// Appending a digit to a row of digits makes ten times the number plus the digit.
pub proof fn law_decimal_value_grows_by_tens(text: Seq<char>, last: char)
    requires
        '0' <= last <= '9',
    ensures
        decimal_value(Seq::<char>::empty()) == 0,
        decimal_value(text.push(last)) == 10 * decimal_value(text) + (last as int - '0' as int),
{
    assert(text.push(last).drop_last() =~= text);
}

/// A plain number stands for a natural number, and for one that is not zero if it does
/// not start with a zero.
proof fn lemma_plain_number_is_natural(text: Seq<char>)
    requires
        is_plain_number(text),
    ensures
        decimal_value(text) >= 0,
        text[0] != '0' ==> decimal_value(text) > 0,
    decreases text.len(),
{
    let front = text.drop_last();
    assert('0' <= text[text.len() - 1] <= '9');
    if front.len() > 0 {
        assert(is_plain_number(front)) by {
            assert forall|i: int| 0 <= i < front.len() implies '0' <= #[trigger] front[i]
                <= '9' by {
                assert('0' <= text[i] <= '9');
            }
        }
        lemma_plain_number_is_natural(front);
    } else {
        assert(decimal_value(front) == 0);
    }
}

/// There is one way only to write a number: whatever plain number reads as `n` is the
/// decimal form of `n`.
pub proof fn law_decimal_is_the_only_form(text: Seq<char>, n: nat)
    requires
        is_plain_number(text),
        decimal_value(text) == n,
    ensures
        text == decimal(n),
    decreases text.len(),
{
    let front = text.drop_last();
    let last = text.last();
    assert('0' <= text[text.len() - 1] <= '9');
    assert(text =~= front.push(last));
    let d = (last as int - '0' as int) as nat;
    assert(digit(d) == last);
    if front.len() == 0 {
        assert(decimal_value(front) == 0);
        assert(text =~= decimal(n));
    } else {
        assert forall|i: int| 0 <= i < front.len() implies '0' <= #[trigger] front[i] <= '9' by {
            assert('0' <= text[i] <= '9');
        }
        assert(front[0] == text[0]);
        lemma_plain_number_is_natural(front);
        let high = decimal_value(front) as nat;
        law_decimal_is_the_only_form(front, high);
        assert(n == high * 10 + d);
        assert(n / 10 == high && n % 10 == d);
    }
}

} // verus!
