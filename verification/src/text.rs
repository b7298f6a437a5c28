//! Fixed-capacity display text.
//!
//! Display strings live in an `arrayvec::ArrayString` and numbers are printed
//! with `itoa`, so rendering never allocates. The contracts of this module
//! are the trusted boundary to those two crates.

use arrayvec::{ArrayString, CapacityError};
use vstd::prelude::*;
use vstd::string::StringSliceAdditionalSpecFns;
use vstd::utf8::{encode_utf8, is_ascii_chars, is_ascii_chars_encode_utf8};

verus! {

/// Number of bytes a display text can hold.
pub const TEXT_CAPACITY: usize = 32;

/// `arrayvec::ArrayString`: a string kept inline in `CAP` bytes. What a
/// value holds is known only through `text_of`.
#[verifier::external_type_specification]
#[verifier::external_body]
pub struct ExArrayString<const CAP: usize>(ArrayString<CAP>);

/// `arrayvec::CapacityError`: the error of an `ArrayString` that is too
/// small, carrying what did not fit. Nothing is claimed of its contents.
#[verifier::external_type_specification]
#[verifier::external_body]
#[verifier::reject_recursive_types(T)]
pub struct ExCapacityError<T>(CapacityError<T>);

/// `itoa::Buffer`: the scratch space into which `itoa` prints an integer.
/// Nothing is claimed of its contents.
#[verifier::external_type_specification]
#[verifier::external_body]
pub struct ExBuffer(itoa::Buffer);

/// Rendering failed because the text does not fit a display buffer.
#[derive(Clone, Copy, Debug, PartialEq, Eq, Structural)]
pub struct CapacityExceeded;

/// The characters held by a display text, in order.
pub uninterp spec fn text_of(text: ArrayString<32>) -> Seq<char>;

/// The decimal digit `d` as a character.
pub open spec fn digit_char(d: nat) -> char
    recommends
        d < 10,
{
    ('0' as nat + d) as char
}

/// The decimal representation of `n`, without sign or leading zeros.
pub open spec fn decimal(n: nat) -> Seq<char>
    decreases n,
{
    if n < 10 {
        seq![digit_char(n)]
    } else {
        decimal(n / 10).push(digit_char(n % 10))
    }
}

/// `ArrayString::new`: the new text is empty.
#[verifier::external_body]
pub(crate) fn empty_text() -> (text: ArrayString<32>)
    ensures
        text_of(text) == Seq::<char>::empty(),
{
    ArrayString::new()
}

/// `ArrayString::from`: succeeds exactly when the UTF-8 encoding of `s` is
/// no longer than the capacity, and the text then holds `s`.
#[verifier::external_body]
pub(crate) fn text_from<'a>(s: &'a str) -> (r: Result<ArrayString<32>, CapacityError<&'a str>>)
    ensures
        r is Ok <==> s.spec_bytes().len() <= TEXT_CAPACITY,
        r matches Ok(text) ==> text_of(text) == s@,
{
    ArrayString::from(s)
}

/// `ArrayString::push_str`: appends `s` to the text. The call panics when
/// the encoded text would outgrow the capacity, so callers must show that it
/// fits.
#[verifier::external_body]
pub(crate) fn push_text(text: &mut ArrayString<32>, s: &str)
    requires
        encode_utf8(text_of(*old(text))).len() + s.spec_bytes().len() <= TEXT_CAPACITY,
    ensures
        text_of(*final(text)) == text_of(*old(text)) + s@,
{
    text.push_str(s)
}

/// `itoa::Buffer::new`: fresh scratch space for printing one integer.
#[verifier::external_body]
pub(crate) fn new_buffer() -> itoa::Buffer {
    itoa::Buffer::new()
}

/// `itoa::Buffer::format`: prints `value` into `buffer` and returns what
/// it printed, which is the decimal representation of `value`.
#[verifier::external_body]
pub(crate) fn format_u16<'a>(buffer: &'a mut itoa::Buffer, value: u16) -> (digits: &'a str)
    ensures
        digits@ == decimal(value as nat),
{
    buffer.format(value)
}

/// The decimal representation consists of ASCII digits, at least one and no
/// more than the magnitude of `n` calls for.
pub proof fn lemma_decimal_shape(n: nat)
    ensures
        is_ascii_chars(decimal(n)),
        decimal(n).len() >= 1,
        n < 10 ==> decimal(n).len() == 1,
        n < 100 ==> decimal(n).len() <= 2,
        n < 1000 ==> decimal(n).len() <= 3,
        n < 10000 ==> decimal(n).len() <= 4,
        n < 100000 ==> decimal(n).len() <= 5,
    decreases n,
{
    if n >= 10 {
        lemma_decimal_shape(n / 10);
    }
}

/// An ASCII text takes one byte per character.
pub proof fn lemma_ascii_bytes(chars: Seq<char>)
    requires
        is_ascii_chars(chars),
    ensures
        encode_utf8(chars).len() == chars.len(),
{
    is_ascii_chars_encode_utf8(chars);
}

/// A display text holding `s`, or `CapacityExceeded` when the UTF-8
/// encoding of `s` takes more bytes than a display text can hold.
pub fn from_str(s: &str) -> (r: Result<ArrayString<32>, CapacityExceeded>)
    ensures
        r is Ok <==> s.spec_bytes().len() <= TEXT_CAPACITY,
        r matches Ok(text) ==> text_of(text) == s@,
{
    match text_from(s) {
        Ok(text) => Ok(text),
        Err(_) => Err(CapacityExceeded),
    }
}

} // verus!
