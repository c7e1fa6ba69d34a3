//! The strings of the display's queue.
//!
//! The display takes its lines from a queue of strings of fixed capacity,
//! which come from `arrayvec`. A text fits such a string when its UTF-8
//! encoding is no longer than `STATUS_LINE_CAPACITY` bytes.

use vstd::prelude::*;
use vstd::utf8::encode_utf8;

verus! {

/// The most bytes that the display's queue takes in one line.
pub const STATUS_LINE_CAPACITY: usize = 40;

#[verifier::external_type_specification]
#[verifier::external_body]
pub struct ExArrayString<const CAP: usize>(arrayvec::ArrayString<CAP>);

/// A line of text as the display's queue takes it.
pub type DisplayString = arrayvec::ArrayString<40>;

/// The characters that a line holds.
pub uninterp spec fn display_text(line: arrayvec::ArrayString<40>) -> Seq<char>;

/// `arrayvec::ArrayString::<40>::from`, with its error dropped. Assumed:
/// the call succeeds exactly when the text is at most 40 bytes long in
/// UTF-8, and the string then holds the text.
#[verifier::external_body]
pub(crate) fn array_string_from(text: &str) -> (line: Option<arrayvec::ArrayString<40>>)
    ensures
        line is Some <==> encode_utf8(text@).len() <= 40,
        line matches Some(l) ==> display_text(l) == text@,
{
    arrayvec::ArrayString::<40>::from(text).ok()
}

} // verus!
