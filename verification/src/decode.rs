//! The decoding pipeline: a fixed cascade of candidate decoders, of which
//! the first that accepts the bytes of a file gives its text.
//!
//! The order is: strict UTF-8; UTF-16 announced by a byte-order mark, little
//! endian and then big endian; GB18030 if it decodes without a single
//! malformed sequence; and at last whatever a statistical detector guesses.
//! The last step accepts every input, so the pipeline as a whole does.

use crate::charset::{
    decode_with, decoded, encoding_name, fits_decode_limit, gb18030, gb18030_name, name_of,
    utf16be_name, utf16le_name, utf_16be, utf_16le, within_decode_limit,
};
use crate::detector::{feeds, guessed};
use crate::marks::{
    is_utf16be_marked, is_utf16le_marked, strip_leading_mark, utf16be_marked, utf16le_marked,
    without_leading_mark,
};
use crate::utf8::text_of_utf8;
use chardetng::EncodingDetector;
use encoding_rs::Encoding;
use vstd::prelude::*;
use vstd::slice::slice_subrange;
use vstd::string::StringExecFns;
use vstd::utf8::*;

verus! {

/// Which decoder gave the text. Only diagnostics read it.
#[derive(Clone, Debug, PartialEq, Eq)]
pub enum EncodingGuess {
    Utf8,
    Utf16Le,
    Utf16Be,
    Gb18030,
    /// The detector's guess, by the name of the encoding it chose.
    Statistical(String),
}

/// An `EncodingGuess` as a mathematical value.
pub enum GuessModel {
    Utf8,
    Utf16Le,
    Utf16Be,
    Gb18030,
    Statistical(Seq<char>),
}

impl View for EncodingGuess {
    type V = GuessModel;

    open spec fn view(&self) -> GuessModel {
        match self {
            EncodingGuess::Utf8 => GuessModel::Utf8,
            EncodingGuess::Utf16Le => GuessModel::Utf16Le,
            EncodingGuess::Utf16Be => GuessModel::Utf16Be,
            EncodingGuess::Gb18030 => GuessModel::Gb18030,
            EncodingGuess::Statistical(name) => GuessModel::Statistical(name@),
        }
    }
}

impl GuessModel {
    /// The name under which the encoding is reported.
    pub open spec fn label(self) -> Seq<char> {
        match self {
            GuessModel::Utf8 => "UTF-8"@,
            GuessModel::Utf16Le => utf16le_name(),
            GuessModel::Utf16Be => utf16be_name(),
            GuessModel::Gb18030 => gb18030_name(),
            GuessModel::Statistical(name) => name,
        }
    }
}

/// The words that open the note on a guessed encoding.
pub open spec fn note_prefix() -> Seq<char> {
    "此文件编码识别困难，最终猜测为: "@
}

impl EncodingGuess {
    /// The name under which the encoding is reported.
    pub fn label(&self) -> (name: String)
        ensures
            name@ == self@.label(),
    {
        match self {
            EncodingGuess::Utf8 => String::from_str("UTF-8"),
            EncodingGuess::Utf16Le => String::from_str("UTF-16LE"),
            EncodingGuess::Utf16Be => String::from_str("UTF-16BE"),
            EncodingGuess::Gb18030 => String::from_str("gb18030"),
            EncodingGuess::Statistical(name) => name.clone(),
        }
    }

    /// The note to leave in the log: one is due exactly when the encoding
    /// had to be guessed, and it names the guess.
    pub fn note(&self) -> (line: Option<String>)
        ensures
            line.deep_view() == match self@ {
                GuessModel::Statistical(name) => Some(note_prefix() + name),
                _ => None,
            },
    {
        match self {
            EncodingGuess::Statistical(name) => {
                let line = String::from_str("此文件编码识别困难，最终猜测为: ");
                Some(line.concat(name.as_str()))
            },
            _ => None,
        }
    }
}

/// A decoded file: its text, and the decoder that gave it.
#[derive(Clone, Debug, PartialEq, Eq)]
pub struct Decoded {
    pub text: String,
    pub encoding: EncodingGuess,
}

/// The strict UTF-8 decoder: the text of well-formed UTF-8, less one leading
/// byte-order mark; nothing for bytes that are malformed anywhere.
pub open spec fn strict_utf8(bytes: Seq<u8>) -> Option<Seq<char>> {
    if valid_utf8(bytes) {
        Some(without_leading_mark(decode_utf8(bytes)))
    } else {
        None
    }
}

/// The little-endian UTF-16 decoder: for bytes that begin with `FF FE`, what
/// follows the pair, decoded as little-endian UTF-16; nothing for others.
pub open spec fn marked_utf16le(bytes: Seq<u8>) -> Option<Seq<char>> {
    if utf16le_marked(bytes) {
        Some(decoded(utf16le_name(), bytes.skip(2)).0)
    } else {
        None
    }
}

/// The big-endian UTF-16 decoder: for bytes that begin with `FE FF`, what
/// follows the pair, decoded as big-endian UTF-16; nothing for others.
pub open spec fn marked_utf16be(bytes: Seq<u8>) -> Option<Seq<char>> {
    if utf16be_marked(bytes) {
        Some(decoded(utf16be_name(), bytes.skip(2)).0)
    } else {
        None
    }
}

/// What a lossy decoder is taken at: its text if nothing was malformed,
/// nothing at all if anything was.
pub open spec fn clean(outcome: (Seq<char>, bool)) -> Option<Seq<char>> {
    if outcome.1 {
        None
    } else {
        Some(outcome.0)
    }
}

/// The strict GB18030 decoder: all the bytes decoded as GB18030, if not one
/// sequence in them is malformed. GB18030 takes plain ASCII and much else
/// without complaint, which is why it stands behind UTF-8 and UTF-16.
pub open spec fn strict_gb18030(bytes: Seq<u8>) -> Option<Seq<char>> {
    clean(decoded(gb18030_name(), bytes))
}

/// The name of the encoding that a detector settles on when it is fed a
/// whole file at once, with UTF-8 among the permitted answers.
pub open spec fn guessed_name(bytes: Seq<u8>) -> Seq<char> {
    guessed(seq![(bytes, true)], true)
}

/// The decoder of last resort: all the bytes decoded in the guessed
/// encoding, malformed sequences replaced.
pub open spec fn guess_decoded(bytes: Seq<u8>) -> Seq<char> {
    decoded(guessed_name(bytes), bytes).0
}

/// The decoder that the pipeline settles on for `bytes`: the first in the
/// cascade that accepts them.
pub open spec fn resolved_encoding(bytes: Seq<u8>) -> GuessModel {
    if strict_utf8(bytes) is Some {
        GuessModel::Utf8
    } else if marked_utf16le(bytes) is Some {
        GuessModel::Utf16Le
    } else if marked_utf16be(bytes) is Some {
        GuessModel::Utf16Be
    } else if strict_gb18030(bytes) is Some {
        GuessModel::Gb18030
    } else {
        GuessModel::Statistical(guessed_name(bytes))
    }
}

/// The text of `bytes`: what the first accepting decoder of the cascade
/// makes of them.
pub open spec fn resolved_text(bytes: Seq<u8>) -> Seq<char> {
    if let Some(text) = strict_utf8(bytes) {
        text
    } else if let Some(text) = marked_utf16le(bytes) {
        text
    } else if let Some(text) = marked_utf16be(bytes) {
        text
    } else if let Some(text) = strict_gb18030(bytes) {
        text
    } else {
        guess_decoded(bytes)
    }
}

/// The inputs that the pipeline takes: well-formed UTF-8 of any length, and
/// other bytes up to the limit of the decoders, which panic beyond it.
pub open spec fn can_be_decoded(bytes: Seq<u8>) -> bool {
    valid_utf8(bytes) || within_decode_limit(bytes.len())
}

/// Tests whether the pipeline takes `bytes`.
pub fn is_decodable(bytes: &[u8]) -> (decodable: bool)
    ensures
        decodable == can_be_decoded(bytes@),
{
    fits_decode_limit(bytes.len()) || text_of_utf8(bytes).is_some()
}

/// Takes the outcome of a lossy decoder only if nothing in it was replaced.
pub fn accept_clean(text: String, malformed: bool) -> (out: Option<String>)
    ensures
        out.deep_view() == clean((text@, malformed)),
{
    if malformed {
        None
    } else {
        Some(text)
    }
}

/// Tries the strict UTF-8 decoder.
pub fn decode_strict_utf8(bytes: &[u8]) -> (out: Option<String>)
    ensures
        out.deep_view() == strict_utf8(bytes@),
{
    match text_of_utf8(bytes) {
        Some(text) => Some(strip_leading_mark(text)),
        None => None,
    }
}

/// Tries the little-endian UTF-16 decoder.
pub fn decode_marked_utf16le(bytes: &[u8]) -> (out: Option<String>)
    requires
        within_decode_limit(bytes@.len()),
    ensures
        out.deep_view() == marked_utf16le(bytes@),
{
    if is_utf16le_marked(bytes) {
        let rest = slice_subrange(bytes, 2, bytes.len());
        let (text, _) = decode_with(utf_16le(), rest);
        Some(text)
    } else {
        None
    }
}

/// Tries the big-endian UTF-16 decoder.
pub fn decode_marked_utf16be(bytes: &[u8]) -> (out: Option<String>)
    requires
        within_decode_limit(bytes@.len()),
    ensures
        out.deep_view() == marked_utf16be(bytes@),
{
    if is_utf16be_marked(bytes) {
        let rest = slice_subrange(bytes, 2, bytes.len());
        let (text, _) = decode_with(utf_16be(), rest);
        Some(text)
    } else {
        None
    }
}

/// Tries the strict GB18030 decoder.
pub fn decode_strict_gb18030(bytes: &[u8]) -> (out: Option<String>)
    requires
        within_decode_limit(bytes@.len()),
    ensures
        out.deep_view() == strict_gb18030(bytes@),
{
    let (text, malformed) = decode_with(gb18030(), bytes);
    accept_clean(text, malformed)
}

/// Asks a fresh detector for the encoding of a whole file.
fn guess_encoding(bytes: &[u8]) -> (encoding: &'static Encoding)
    ensures
        encoding_name(encoding) == guessed_name(bytes@),
{
    let mut detector = EncodingDetector::new();
    detector.feed(bytes, true);
    assert(feeds(&detector) =~= seq![(bytes@, true)]);
    detector.guess(None, true)
}

/// The decoder of last resort, which accepts every input: the name of the
/// guessed encoding, and the text that it makes of the bytes.
pub fn decode_by_guess(bytes: &[u8]) -> (out: (String, String))
    requires
        within_decode_limit(bytes@.len()),
    ensures
        out.0@ == guessed_name(bytes@),
        out.1@ == guess_decoded(bytes@),
{
    let encoding = guess_encoding(bytes);
    let (text, _) = decode_with(encoding, bytes);
    (name_of(encoding), text)
}

/// Decodes the bytes of a file. Every input has a text: what cannot be
/// decoded strictly is decoded by guess, with U+FFFD for what is malformed.
pub fn decode_text(bytes: &[u8]) -> (out: Decoded)
    requires
        can_be_decoded(bytes@),
    ensures
        out.text@ == resolved_text(bytes@),
        out.encoding@ == resolved_encoding(bytes@),
{
    if let Some(text) = decode_strict_utf8(bytes) {
        return Decoded { text, encoding: EncodingGuess::Utf8 };
    }
    if let Some(text) = decode_marked_utf16le(bytes) {
        return Decoded { text, encoding: EncodingGuess::Utf16Le };
    }
    if let Some(text) = decode_marked_utf16be(bytes) {
        return Decoded { text, encoding: EncodingGuess::Utf16Be };
    }
    if let Some(text) = decode_strict_gb18030(bytes) {
        return Decoded { text, encoding: EncodingGuess::Gb18030 };
    }
    let (name, text) = decode_by_guess(bytes);
    Decoded { text, encoding: EncodingGuess::Statistical(name) }
}

} // verus!
