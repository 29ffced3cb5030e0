//! Byte-order marks: the character U+FEFF at the head of a text, and the
//! byte pairs that announce UTF-16 at the head of a file.

use vstd::prelude::*;
use vstd::string::StrSliceExecFns;

verus! {

/// The byte-order mark as a character.
pub const MARK: char = '\u{feff}';

/// The three bytes that encode the byte-order mark in UTF-8.
pub open spec fn utf8_mark() -> Seq<u8> {
    seq![0xEFu8, 0xBBu8, 0xBFu8]
}

/// Whether `bytes` begins with the UTF-8 form of the byte-order mark.
pub open spec fn utf8_marked(bytes: Seq<u8>) -> bool {
    bytes.len() >= 3 && bytes[0] == 0xEF && bytes[1] == 0xBB && bytes[2] == 0xBF
}

/// Whether `text` begins with the byte-order mark.
pub open spec fn begins_with_mark(text: Seq<char>) -> bool {
    text.len() > 0 && text[0] == MARK
}

/// `text` without its first character when that character is the byte-order
/// mark, and `text` itself otherwise. Never more than one mark is removed.
pub open spec fn without_leading_mark(text: Seq<char>) -> Seq<char> {
    if begins_with_mark(text) {
        text.drop_first()
    } else {
        text
    }
}

/// Whether `bytes` begins with the pair `FF FE`, the mark of little-endian
/// UTF-16.
pub open spec fn utf16le_marked(bytes: Seq<u8>) -> bool {
    bytes.len() >= 2 && bytes[0] == 0xFF && bytes[1] == 0xFE
}

/// Whether `bytes` begins with the pair `FE FF`, the mark of big-endian
/// UTF-16.
pub open spec fn utf16be_marked(bytes: Seq<u8>) -> bool {
    bytes.len() >= 2 && bytes[0] == 0xFE && bytes[1] == 0xFF
}

/// Removes one leading byte-order mark from `text`, if there is one.
pub fn strip_leading_mark(text: String) -> (out: String)
    ensures
        out@ == without_leading_mark(text@),
{
    let s = text.as_str();
    if !s.is_empty() && s.get_char(0) == MARK {
        let n: usize = s.unicode_len();
        s.substring_char(1, n).to_owned()
    } else {
        text
    }
}

/// Tests for the little-endian UTF-16 mark at the head of `bytes`.
pub fn is_utf16le_marked(bytes: &[u8]) -> (marked: bool)
    ensures
        marked == utf16le_marked(bytes@),
{
    bytes.len() >= 2 && bytes[0] == 0xFF && bytes[1] == 0xFE
}

/// Tests for the big-endian UTF-16 mark at the head of `bytes`.
pub fn is_utf16be_marked(bytes: &[u8]) -> (marked: bool)
    ensures
        marked == utf16be_marked(bytes@),
{
    bytes.len() >= 2 && bytes[0] == 0xFE && bytes[1] == 0xFF
}

} // verus!
