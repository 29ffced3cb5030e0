//! What holds of the decoding pipeline on every input.

use crate::charset::{decoded, gb18030_name, utf16be_name, utf16le_name};
use crate::decode::{
    can_be_decoded, guess_decoded, guessed_name, marked_utf16be, marked_utf16le,
    resolved_encoding, resolved_text, strict_gb18030, strict_utf8, GuessModel,
};
use crate::marks::{
    begins_with_mark, utf16be_marked, utf16le_marked, utf8_mark, utf8_marked,
    without_leading_mark, MARK,
};
use vstd::prelude::*;
use vstd::utf8::*;

verus! {

/// The three bytes `EF BB BF` decode to U+FEFF, and nothing else does.
proof fn lemma_mark_codepoint(b0: u8, b1: u8, b2: u8)
    by (bit_vector)
    requires
        is_leading_byte_width_3(b0),
        is_continuation_byte(b1),
        is_continuation_byte(b2),
    ensures
        codepoint_width_3(b0, b1, b2) == 0xFEFFu32 <==> (b0 == 0xEF && b1 == 0xBB && b2 == 0xBF),
{
}

/// A codepoint of two bytes lies below U+0800.
proof fn lemma_width_2_range(b0: u8, b1: u8)
    by (bit_vector)
    requires
        is_leading_byte_width_2(b0),
        is_continuation_byte(b1),
    ensures
        codepoint_width_2(b0, b1) < 0x800u32,
{
}

/// A codepoint of three bytes lies below U+10000.
proof fn lemma_width_3_range(b0: u8, b1: u8, b2: u8)
    by (bit_vector)
    requires
        is_leading_byte_width_3(b0),
        is_continuation_byte(b1),
        is_continuation_byte(b2),
    ensures
        codepoint_width_3(b0, b1, b2) <= 0xFFFFu32,
{
}

/// A codepoint of one byte lies below U+0080.
proof fn lemma_width_1_range(b0: u8)
    by (bit_vector)
    requires
        is_leading_byte_width_1(b0),
    ensures
        codepoint_width_1(b0) < 0x80u32,
{
}

/// In well-formed UTF-8 the text begins with the byte-order mark exactly
/// when the bytes begin with `EF BB BF`.
pub proof fn lemma_mark_in_bytes(bytes: Seq<u8>)
    requires
        valid_utf8(bytes),
    ensures
        begins_with_mark(decode_utf8(bytes)) <==> utf8_marked(bytes),
{
    if bytes.len() > 0 {
        let first = decode_first_scalar(bytes);
        assert(decode_utf8(bytes)[0] == first as char);
        if is_leading_byte_width_1(bytes[0]) {
            lemma_width_1_range(bytes[0]);
        } else if is_leading_byte_width_2(bytes[0]) {
            lemma_width_2_range(bytes[0], bytes[1]);
        } else if is_leading_byte_width_3(bytes[0]) {
            lemma_mark_codepoint(bytes[0], bytes[1], bytes[2]);
            lemma_width_3_range(bytes[0], bytes[1], bytes[2]);
        }
    }
}

/// The byte-order mark in UTF-8, followed by well-formed UTF-8, is
/// well-formed UTF-8 and decodes to the mark followed by the text of the
/// rest.
pub proof fn lemma_mark_prefixed(rest: Seq<u8>)
    requires
        valid_utf8(rest),
    ensures
        valid_utf8(utf8_mark() + rest),
        decode_utf8(utf8_mark() + rest) == seq![MARK] + decode_utf8(rest),
{
    let bytes = utf8_mark() + rest;
    lemma_mark_codepoint(0xEF, 0xBB, 0xBF);
    assert(pop_first_scalar(bytes) =~= rest);
}

/// Well-formed UTF-8 that does not begin with the byte-order mark decodes to
/// exactly the text that it encodes.
pub proof fn law_utf8_unchanged(bytes: Seq<u8>)
    requires
        valid_utf8(bytes),
        !utf8_marked(bytes),
    ensures
        resolved_encoding(bytes) == GuessModel::Utf8,
        resolved_text(bytes) == decode_utf8(bytes),
{
    lemma_mark_in_bytes(bytes);
}

/// Well-formed UTF-8 behind a byte-order mark decodes to the text that
/// follows the mark: the one mark is dropped and nothing else is touched,
/// not even a second mark.
pub proof fn law_utf8_mark_dropped(rest: Seq<u8>)
    requires
        valid_utf8(rest),
    ensures
        resolved_encoding(utf8_mark() + rest) == GuessModel::Utf8,
        resolved_text(utf8_mark() + rest) == decode_utf8(rest),
{
    lemma_mark_prefixed(rest);
    assert((seq![MARK] + decode_utf8(rest)).drop_first() =~= decode_utf8(rest));
}

/// A text written out as UTF-8 and decoded again comes back as it was, but
/// for a byte-order mark at its head, which is dropped.
pub proof fn law_round_trip(text: Seq<char>)
    ensures
        can_be_decoded(encode_utf8(text)),
        resolved_encoding(encode_utf8(text)) == GuessModel::Utf8,
        resolved_text(encode_utf8(text)) == without_leading_mark(text),
        !begins_with_mark(text) ==> resolved_text(encode_utf8(text)) == text,
{
    encode_utf8_valid_utf8(text);
    encode_utf8_decode_utf8(text);
}

/// No well-formed UTF-8 begins with `FF` or `FE`.
pub proof fn lemma_utf16_marks_not_utf8(bytes: Seq<u8>)
    requires
        utf16le_marked(bytes) || utf16be_marked(bytes),
    ensures
        !valid_utf8(bytes),
{
}

/// Bytes that begin with `FF FE` are decoded as little-endian UTF-16 from
/// the third byte on. The pair itself has no part in the text.
pub proof fn law_utf16le_marked(bytes: Seq<u8>)
    requires
        utf16le_marked(bytes),
    ensures
        resolved_encoding(bytes) == GuessModel::Utf16Le,
        resolved_text(bytes) == decoded(utf16le_name(), bytes.skip(2)).0,
{
    lemma_utf16_marks_not_utf8(bytes);
}

/// Bytes that begin with `FE FF` are decoded as big-endian UTF-16 from the
/// third byte on. The pair itself has no part in the text.
pub proof fn law_utf16be_marked(bytes: Seq<u8>)
    requires
        utf16be_marked(bytes),
    ensures
        resolved_encoding(bytes) == GuessModel::Utf16Be,
        resolved_text(bytes) == decoded(utf16be_name(), bytes.skip(2)).0,
{
    lemma_utf16_marks_not_utf8(bytes);
}

/// Bytes that are not UTF-8, carry no UTF-16 mark, and hold no sequence that
/// is malformed in GB18030 are decoded as GB18030.
pub proof fn law_gb18030_clean(bytes: Seq<u8>)
    requires
        !valid_utf8(bytes),
        !utf16le_marked(bytes),
        !utf16be_marked(bytes),
        !decoded(gb18030_name(), bytes).1,
    ensures
        resolved_encoding(bytes) == GuessModel::Gb18030,
        resolved_text(bytes) == decoded(gb18030_name(), bytes).0,
{
}

/// Bytes that every strict decoder refuses still have a text: the one that
/// the guessed encoding makes of them.
pub proof fn law_guess_accepts_the_rest(bytes: Seq<u8>)
    requires
        strict_utf8(bytes) is None,
        marked_utf16le(bytes) is None,
        marked_utf16be(bytes) is None,
        strict_gb18030(bytes) is None,
    ensures
        resolved_encoding(bytes) == GuessModel::Statistical(guessed_name(bytes)),
        resolved_text(bytes) == guess_decoded(bytes),
{
}

} // verus!
