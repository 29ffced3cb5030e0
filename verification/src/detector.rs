//! The statistical detector of the `chardetng` crate. A detector is fed a
//! stream of bytes, buffer by buffer, and can then be asked for its guess.
//! Contracts speak of the feeds that a detector has had: each buffer, and
//! with it the flag that told whether it was the last.

use crate::charset::encoding_name;
use chardetng::EncodingDetector;
use encoding_rs::Encoding;
use vstd::prelude::*;

verus! {

/// `chardetng::EncodingDetector`. Of one of its values verified code knows
/// the feeds that it has had and nothing more.
#[verifier::external_type_specification]
#[verifier::external_body]
pub struct ExEncodingDetector(EncodingDetector);

/// The feeds that a detector has had so far, in order: the bytes of each
/// buffer, and whether it was declared the last of the stream.
pub uninterp spec fn feeds(detector: &EncodingDetector) -> Seq<(Seq<u8>, bool)>;

/// The name of the encoding that `EncodingDetector::guess` returns after
/// the given feeds when it is asked without a top-level domain; `allow_utf8`
/// says whether UTF-8 is a permitted answer.
pub uninterp spec fn guessed(feeds: Seq<(Seq<u8>, bool)>, allow_utf8: bool) -> Seq<char>;

/// Whether a detector has been told that its stream is complete.
pub open spec fn is_closed(detector: &EncodingDetector) -> bool {
    feeds(detector).len() > 0 && feeds(detector).last().1
}

/// A new detector has had no feed.
pub assume_specification[ EncodingDetector::new ]() -> (detector: EncodingDetector)
    ensures
        feeds(&detector) == Seq::<(Seq<u8>, bool)>::empty(),
;

/// A feed is added to those that the detector has had. A detector whose
/// stream was declared complete must not be fed again: the call would panic.
/// Nothing is claimed of the flag that comes back.
pub assume_specification[ EncodingDetector::feed ](
    detector: &mut EncodingDetector,
    buffer: &[u8],
    last: bool,
) -> (non_ascii: bool)
    requires
        !is_closed(old(detector)),
    ensures
        feeds(final(detector)) == feeds(old(detector)).push((buffer@, last)),
;

/// The guess depends on the feeds that the detector has had and on
/// `allow_utf8`, and on nothing else. It is specified without a top-level
/// domain only; with one the call may panic.
pub assume_specification[ EncodingDetector::guess ](
    detector: &EncodingDetector,
    tld: Option<&[u8]>,
    allow_utf8: bool,
) -> (encoding: &'static Encoding)
    requires
        tld is None,
    ensures
        encoding_name(encoding) == guessed(feeds(detector), allow_utf8),
;

} // verus!
