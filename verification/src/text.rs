//! Text handling that the standard library does: trimming, decoding UTF-8,
//! and the listing of names. The three functions that call it are not
//! proved; their contracts restate the documentation of what they call.

use vstd::prelude::*;
use vstd::utf8::decode_utf8;
use vstd::utf8::valid_utf8;

verus! {

/// Whether a character has Unicode's White_Space property.
pub open spec fn is_white_space(c: char) -> bool {
    let code = c as u32;
    ||| 0x09 <= code <= 0x0d
    ||| code == 0x20
    ||| code == 0x85
    ||| code == 0xa0
    ||| code == 0x1680
    ||| 0x2000 <= code <= 0x200a
    ||| code == 0x2028
    ||| code == 0x2029
    ||| code == 0x202f
    ||| code == 0x205f
    ||| code == 0x3000
}

/// `text` without the white space at its start.
pub open spec fn trimmed_start(text: Seq<char>) -> Seq<char>
    decreases text.len(),
{
    if text.len() > 0 && is_white_space(text.first()) {
        trimmed_start(text.drop_first())
    } else {
        text
    }
}

/// `text` without the white space at its end.
pub open spec fn trimmed_end(text: Seq<char>) -> Seq<char>
    decreases text.len(),
{
    if text.len() > 0 && is_white_space(text.last()) {
        trimmed_end(text.drop_last())
    } else {
        text
    }
}

/// `text` without the white space on either side.
pub open spec fn trimmed(text: Seq<char>) -> Seq<char> {
    trimmed_end(trimmed_start(text))
}

/// What `{:?}` prints for a list of strings: the names in quotes, with the
/// characters escaped that Rust escapes, between square brackets.
pub uninterp spec fn debug_list(names: Seq<Seq<char>>) -> Seq<char>;

/// Calls `str::trim`, which returns the text without leading and trailing
/// white space, as Unicode's White_Space property defines it.
#[verifier::external_body]
pub(crate) fn trim(text: &str) -> (inner: &str)
    ensures
        inner@ == trimmed(text@),
{
    text.trim()
}

/// Calls `std::str::from_utf8`, which accepts exactly the byte strings that
/// are well-formed UTF-8 and returns the text that they encode.
#[verifier::external_body]
pub(crate) fn from_utf8(bytes: &[u8]) -> (text: Option<String>)
    ensures
        text is Some <==> valid_utf8(bytes@),
        text matches Some(decoded) ==> decoded@ == decode_utf8(bytes@),
{
    std::str::from_utf8(bytes).ok().map(String::from)
}

/// Formats a list of names with `{:?}`. The text depends on the names
/// alone.
#[verifier::external_body]
pub(crate) fn format_names(names: &Vec<String>) -> (line: String)
    ensures
        line@ == debug_list(names.deep_view()),
{
    format!("{:?}", names)
}

/// What is left of a text without the white space at its start does not
/// start with white space.
pub proof fn lemma_trimmed_start_plain(text: Seq<char>)
    ensures
        trimmed_start(text).len() > 0 ==> !is_white_space(trimmed_start(text).first()),
    decreases text.len(),
{
    if text.len() > 0 && is_white_space(text.first()) {
        lemma_trimmed_start_plain(text.drop_first());
    }
}

/// What is left of a text without the white space at its end is the start
/// of the text, and does not end with white space.
pub proof fn lemma_trimmed_end_plain(text: Seq<char>)
    ensures
        trimmed_end(text).len() <= text.len(),
        trimmed_end(text) == text.subrange(0, trimmed_end(text).len() as int),
        trimmed_end(text).len() > 0 ==> !is_white_space(trimmed_end(text).last()),
    decreases text.len(),
{
    if text.len() > 0 && is_white_space(text.last()) {
        let front = text.drop_last();
        lemma_trimmed_end_plain(front);
        let kept = trimmed_end(front);
        assert(kept =~= text.subrange(0, kept.len() as int));
    } else {
        assert(text =~= text.subrange(0, text.len() as int));
    }
}

/// A trimmed text has no white space around it, so trimming it again
/// changes nothing.
pub proof fn lemma_trimmed_plain(text: Seq<char>)
    ensures
        trimmed(text).len() > 0 ==> !is_white_space(trimmed(text).first()) && !is_white_space(
            trimmed(text).last(),
        ),
        trimmed(trimmed(text)) == trimmed(text),
{
    let inner = trimmed_start(text);
    let both = trimmed(text);
    lemma_trimmed_start_plain(text);
    lemma_trimmed_end_plain(inner);
    if both.len() > 0 {
        assert(both.first() == inner.first());
    }
}

} // verus!
