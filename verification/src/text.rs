//! Facts about characters and strings that the rest of the crate builds on.

use vstd::prelude::*;
use vstd::utf8::encode_utf8;

verus! {

/// Whether `c` is alphabetic or numeric, as the standard library's
/// `char::is_alphanumeric` decides it from the Unicode tables.
pub uninterp spec fn unicode_alphanumeric(c: char) -> bool;

/// Whether `c` is white space, as the standard library's
/// `char::is_whitespace` decides it from the Unicode tables.
pub uninterp spec fn unicode_whitespace(c: char) -> bool;

/// `char::is_alphanumeric`: the answer depends on the character alone.
pub assume_specification[ char::is_alphanumeric ](c: char) -> (answer: bool)
    ensures
        answer == unicode_alphanumeric(c),
;

/// `char::is_whitespace`: the answer depends on the character alone.
pub assume_specification[ char::is_whitespace ](c: char) -> (answer: bool)
    ensures
        answer == unicode_whitespace(c),
;

/// `String::push`: appends one character at the end.
pub assume_specification[ String::push ](text: &mut String, ch: char)
    ensures
        final(text)@ == old(text)@.push(ch),
;

/// The lower-case form of `text`, as the standard library's
/// `str::to_lowercase` derives it from the Unicode tables.
pub uninterp spec fn lowercase_of(text: Seq<char>) -> Seq<char>;

/// `str::to_lowercase`: the result depends on the characters alone.
pub assume_specification[ str::to_lowercase ](text: &str) -> (lowered: String)
    ensures
        lowered@ == lowercase_of(text@),
;

/// Whether `needle` occurs in `haystack` as a run of consecutive characters.
/// The empty sequence occurs in every sequence.
pub open spec fn occurs_in(needle: Seq<char>, haystack: Seq<char>) -> bool {
    exists|start: int|
        0 <= start <= haystack.len() - needle.len() && #[trigger] haystack.subrange(
            start,
            start + needle.len(),
        ) == needle
}

/// Calls `str::contains` with a string as the pattern: true exactly when
/// the pattern matches some sub-slice of the text.
#[verifier::external_body]
pub(crate) fn contains_text(haystack: &str, needle: &str) -> (found: bool)
    ensures
        found == occurs_in(needle@, haystack@),
{
    haystack.contains(needle)
}

/// Length in bytes of the UTF-8 encoding of `chars`, which is what
/// `str::len` reports.
pub open spec fn byte_len(chars: Seq<char>) -> nat {
    encode_utf8(chars).len()
}

} // verus!
