//! The encodings of the `encoding_rs` crate, as far as the decoding pipeline
//! uses them. An `Encoding` is carried through verified code as an opaque
//! value; all that contracts say of it goes through its name.

use encoding_rs::Encoding;
use vstd::prelude::*;

verus! {

/// `encoding_rs::Encoding`. Of one of its values verified code knows the
/// name and nothing more.
#[verifier::external_type_specification]
#[verifier::external_body]
pub struct ExEncoding(Encoding);

/// The name of an encoding: what `Encoding::name` returns for it.
pub uninterp spec fn encoding_name(encoding: &Encoding) -> Seq<char>;

/// What `Encoding::decode_without_bom_handling` returns for `bytes` on the
/// encoding called `name`: the decoded text, and whether a malformed sequence
/// was met and replaced by U+FFFD.
pub uninterp spec fn decoded(name: Seq<char>, bytes: Seq<u8>) -> (Seq<char>, bool);

/// The name of little-endian UTF-16.
pub open spec fn utf16le_name() -> Seq<char> {
    "UTF-16LE"@
}

/// The name of big-endian UTF-16.
pub open spec fn utf16be_name() -> Seq<char> {
    "UTF-16BE"@
}

/// The name of GB18030.
pub open spec fn gb18030_name() -> Seq<char> {
    "gb18030"@
}

/// Inputs of `len` bytes that the decoders can size their output for. A
/// decoder reserves at most three bytes of output for a byte of input, plus a
/// few, and may reserve that a second time on top of what it has written; it
/// panics when such a sum does not fit.
pub open spec fn within_decode_limit(len: nat) -> bool {
    8 * len + 64 <= isize::MAX
}

/// Tests a length against the limit of the decoders.
pub fn fits_decode_limit(len: usize) -> (fits: bool)
    ensures
        fits == within_decode_limit(len as nat),
{
    let most: usize = (isize::MAX as usize - 64) / 8;
    len <= most
}

/// The static `encoding_rs::UTF_16LE`, whose name is "UTF-16LE".
#[verifier::external_body]
pub(crate) fn utf_16le() -> (encoding: &'static Encoding)
    ensures
        encoding_name(encoding) == utf16le_name(),
{
    encoding_rs::UTF_16LE
}

/// The static `encoding_rs::UTF_16BE`, whose name is "UTF-16BE".
#[verifier::external_body]
pub(crate) fn utf_16be() -> (encoding: &'static Encoding)
    ensures
        encoding_name(encoding) == utf16be_name(),
{
    encoding_rs::UTF_16BE
}

/// The static `encoding_rs::GB18030`, whose name is "gb18030".
#[verifier::external_body]
pub(crate) fn gb18030() -> (encoding: &'static Encoding)
    ensures
        encoding_name(encoding) == gb18030_name(),
{
    encoding_rs::GB18030
}

/// `Encoding::name`, copied into a `String`.
#[verifier::external_body]
pub(crate) fn name_of(encoding: &'static Encoding) -> (name: String)
    ensures
        name@ == encoding_name(encoding),
{
    encoding.name().to_string()
}

/// `Encoding::decode_without_bom_handling`: decodes all of `bytes` in the
/// given encoding, looking for no byte-order mark, and puts U+FFFD in place
/// of each malformed sequence. The flag says whether there was one. The
/// result depends on the encoding and the bytes alone, and the contract
/// claims no more than that. The call panics when a buffer size overflows,
/// which the limit on the length keeps from happening.
#[verifier::external_body]
pub(crate) fn decode_with(encoding: &'static Encoding, bytes: &[u8]) -> (out: (String, bool))
    requires
        within_decode_limit(bytes@.len()),
    ensures
        (out.0@, out.1) == decoded(encoding_name(encoding), bytes@),
{
    let (text, malformed) = encoding.decode_without_bom_handling(bytes);
    (text.into_owned(), malformed)
}

} // verus!
