//! The file layer of a markdown editor: the text of a file whatever its
//! encoding, the bytes of a text to write, and the listing of a directory.
//!
//! The library touches no file. Its caller reads and writes, and hands over
//! bytes, entries, and the words of the file system's errors.
//!
//! - `access`: the three operations, from the answer of the file system on,
//!   and their errors.
//! - `decode`: the cascade of decoders that gives every file a text;
//!   `decode_laws`: what holds of it on every input.
//! - `listing`: which entries of a directory are shown, and in what order;
//!   `listing_laws`: what holds of every listing.
//! - `marks`, `utf8`, `names`: byte-order marks, strict UTF-8, and names as
//!   sequences of characters.
//! - `charset`, `detector`: the decoders of `encoding_rs` and the detector of
//!   `chardetng`, with what is taken on trust of them.

pub mod access;
pub mod charset;
pub mod decode;
pub mod decode_laws;
pub mod detector;
pub mod listing;
pub mod listing_laws;
pub mod marks;
pub mod names;
pub mod utf8;
