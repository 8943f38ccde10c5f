//! Strings: the few operations of the standard library that the rest needs,
//! and decimal numbers.

use vstd::prelude::*;
use vstd::utf8;

verus! {

/// Declares the error of [`std::string::String::from_utf8`].
#[verifier::external_type_specification]
#[verifier::external_body]
pub struct ExFromUtf8Error(std::string::FromUtf8Error);

/// `String::from_utf8` accepts exactly the byte strings that are valid UTF-8,
/// and gives the text that they encode.
pub assume_specification[ std::string::String::from_utf8 ](vec: Vec<u8>) -> (decoding: Result<
    std::string::String,
    std::string::FromUtf8Error,
>)
    ensures
        match decoding {
            Ok(contents) => utf8::valid_utf8(vec@) && contents@ == utf8::decode_utf8(vec@),
            Err(_) => !utf8::valid_utf8(vec@),
        },
;

/// `String::push` appends one character.
pub assume_specification[ std::string::String::push ](contents: &mut std::string::String, ch: char)
    ensures
        final(contents)@ == old(contents)@.push(ch),
;

/// `String::pop` removes the last character and hands it out; an empty string
/// stays as it is.
pub assume_specification[ std::string::String::pop ](contents: &mut std::string::String) -> (last:
    Option<char>)
    ensures
        old(contents)@.len() == 0 ==> last is None && final(contents)@ == old(contents)@,
        old(contents)@.len() > 0 ==> last == Some(old(contents)@.last()) && final(contents)@
            == old(contents)@.drop_last(),
;

/// How the standard library writes a character between quotes, with escapes.
pub uninterp spec fn debug_text(character: char) -> Seq<char>;

/// Writes a character as `{:?}` of the standard library does: between single
/// quotes, and escaped where it cannot be shown as it is.
#[verifier::external_body]
pub(crate) fn debug_character(character: char) -> (text: String)
    ensures
        text@ == debug_text(character),
{
    format!("{character:?}")
}

/// The text that `bytes` encode, or nothing where they are not valid UTF-8.
pub fn decoded(bytes: Vec<u8>) -> (text: Option<String>)
    ensures
        match text {
            Some(text) => utf8::valid_utf8(bytes@) && text@ == utf8::decode_utf8(bytes@),
            None => !utf8::valid_utf8(bytes@),
        },
{
    match String::from_utf8(bytes) {
        Ok(text) => Some(text),
        Err(_) => None,
    }
}

/// Whether two texts are the same.
pub fn same_text(one: &str, other: &str) -> (same: bool)
    ensures
        same == (one@ == other@),
{
    one.to_owned() == other.to_owned()
}

/// The character that writes a number below ten.
pub open spec fn digit(number: nat) -> char {
    (48 + number) as char
}

/// `number` in decimal, without leading zeros.
pub open spec fn decimal(number: nat) -> Seq<char>
    decreases number,
{
    if number < 10 {
        seq![digit(number)]
    } else {
        decimal(number / 10).push(digit(number % 10))
    }
}

/// Appends `number` in decimal.
pub fn push_decimal(text: &mut String, number: u64)
    ensures
        final(text)@ == old(text)@ + decimal(number as nat),
    decreases number,
{
    if number >= 10 {
        push_decimal(text, number / 10);
    }
    let last: u8 = 48u8 + (number % 10) as u8;
    text.push(last as char);
    assert(text@ =~= old(text)@ + decimal(number as nat));
}

/// One text after another.
pub fn joined(one: &str, other: &str) -> (text: String)
    ensures
        text@ == one@ + other@,
{
    let mut text: String = one.to_owned();
    text.append(other);
    text
}

/// The number that decimal figures write.
pub open spec fn decimal_value(figures: Seq<char>) -> int
    decreases figures.len(),
{
    if figures.len() == 0 {
        0
    } else {
        decimal_value(figures.drop_last()) * 10 + (figures.last() as int - '0' as int)
    }
}

/// A number in decimal is written in figures that read as that number again,
/// without a leading zero.
pub proof fn decimals_read_as_their_numbers(number: nat)
    ensures
        decimal_value(decimal(number)) == number,
        decimal(number).len() > 0,
        forall|i: int| 0 <= i < decimal(number).len() ==> '0' <= #[trigger] decimal(number)[i] <= '9',
        number > 0 ==> decimal(number)[0] != '0',
    decreases number,
{
    let figures = decimal(number);
    reveal_with_fuel(decimal_value, 2);
    if number >= 10 {
        decimals_read_as_their_numbers(number / 10);
        assert(figures.drop_last() =~= decimal(number / 10));
        assert(figures[0] == decimal(number / 10)[0]);
    } else {
        assert(figures.drop_last() =~= Seq::<char>::empty());
    }
}

} // verus!
