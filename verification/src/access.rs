//! The three operations on files, each from the point where the file system
//! has answered: reading a file, writing one, and listing a directory.
//!
//! The caller does the reading and writing itself and hands over what came
//! back, bytes or entries, or the words of the system's error. A failure of
//! the file system becomes an error that names the operation, the path and
//! the cause; nothing is retried, and decoding is never a failure.

use crate::decode::{can_be_decoded, decode_text, resolved_encoding, resolved_text, Decoded};
use crate::listing::{list_entries, listing, shows, Entry, FileNode};
use vstd::prelude::*;
use vstd::string::{StrSliceExecFns, StringExecFns};
use vstd::utf8::encode_utf8;

verus! {

/// The operation that failed.
#[derive(Clone, Copy, Debug, PartialEq, Eq, Structural)]
pub enum Operation {
    Read,
    Write,
    List,
}

/// A failure of the file system: what was being done, on which path, and
/// what the system said.
#[derive(Clone, Debug, PartialEq, Eq)]
pub struct AccessError {
    pub operation: Operation,
    pub path: String,
    pub cause: String,
}

/// Whether `part` stands somewhere in `text`, whole and unbroken.
pub open spec fn holds(text: Seq<char>, part: Seq<char>) -> bool {
    exists|at: int|
        0 <= at && at + part.len() <= text.len() && #[trigger] text.subrange(
            at,
            at + part.len(),
        ) == part
}

/// The words that open the message of a failed operation, up to the path.
pub open spec fn opening(operation: Operation) -> Seq<char> {
    match operation {
        Operation::Read => "无法读取文件 '"@,
        Operation::Write => "无法保存文件 '"@,
        Operation::List => "无法读取目录 ["@,
    }
}

/// The words between the path and the cause.
pub open spec fn joint(operation: Operation) -> Seq<char> {
    match operation {
        Operation::Read => "': "@,
        Operation::Write => "': "@,
        Operation::List => "]: "@,
    }
}

/// The message of a failure, as it is shown to the user.
pub open spec fn message_text(operation: Operation, path: Seq<char>, cause: Seq<char>) -> Seq<
    char,
> {
    opening(operation) + path + joint(operation) + cause
}

/// The message of every failure holds the path and the cause, unaltered.
pub proof fn law_message_holds_path_and_cause(
    operation: Operation,
    path: Seq<char>,
    cause: Seq<char>,
)
    ensures
        holds(message_text(operation, path, cause), path),
        holds(message_text(operation, path, cause), cause),
{
    let text = message_text(operation, path, cause);
    let before_path = opening(operation).len() as int;
    let before_cause = before_path + path.len() + joint(operation).len();
    assert(text.subrange(before_path, before_path + path.len()) =~= path);
    assert(text.subrange(before_cause, before_cause + cause.len()) =~= cause);
}

impl AccessError {
    /// The message of the failure, as it is shown to the user.
    pub fn message(&self) -> (text: String)
        ensures
            text@ == message_text(self.operation, self.path@, self.cause@),
            holds(text@, self.path@),
            holds(text@, self.cause@),
    {
        proof {
            law_message_holds_path_and_cause(self.operation, self.path@, self.cause@);
        }
        let (opening, joint) = match self.operation {
            Operation::Read => ("无法读取文件 '", "': "),
            Operation::Write => ("无法保存文件 '", "': "),
            Operation::List => ("无法读取目录 [", "]: "),
        };
        String::from_str(opening).concat(self.path.as_str()).concat(joint).concat(
            self.cause.as_str(),
        )
    }
}

/// Whether `error` is the failure of `operation` on `path` for `cause`.
pub open spec fn is_failure(
    error: AccessError,
    operation: Operation,
    path: Seq<char>,
    cause: Seq<char>,
) -> bool {
    error.operation == operation && error.path@ == path && error.cause@ == cause
}

/// The failure of `operation` on `path` for `cause`.
pub fn failure(operation: Operation, path: &str, cause: String) -> (error: AccessError)
    ensures
        is_failure(error, operation, path@, cause@),
{
    AccessError { operation, path: String::from_str(path), cause }
}

/// Finishes the reading of a file. `read` is what the file system gave:
/// the bytes of the file, or the words of its error. Every file that could
/// be read has a text.
pub fn read_outcome(path: &str, read: Result<Vec<u8>, String>) -> (out: Result<
    Decoded,
    AccessError,
>)
    requires
        read matches Ok(bytes) ==> can_be_decoded(bytes@),
    ensures
        match read {
            Ok(bytes) => out matches Ok(decoded) && decoded.text@ == resolved_text(bytes@)
                && decoded.encoding@ == resolved_encoding(bytes@),
            Err(cause) => out matches Err(error) && is_failure(
                error,
                Operation::Read,
                path@,
                cause@,
            ),
        },
{
    match read {
        Ok(bytes) => Ok(decode_text(bytes.as_slice())),
        Err(cause) => Err(failure(Operation::Read, path, cause)),
    }
}

/// The bytes to write for `content`: its UTF-8 encoding, with nothing added
/// and nothing taken away.
pub fn bytes_to_write(content: &str) -> (bytes: Vec<u8>)
    ensures
        bytes@ == encode_utf8(content@),
{
    content.as_bytes_vec()
}

/// Finishes the writing of a file. `written` is what the file system gave:
/// nothing, or the words of its error.
pub fn write_outcome(path: &str, written: Result<(), String>) -> (out: Result<(), AccessError>)
    ensures
        match written {
            Ok(_) => out is Ok,
            Err(cause) => out matches Err(error) && is_failure(
                error,
                Operation::Write,
                path@,
                cause@,
            ),
        },
{
    match written {
        Ok(_) => Ok(()),
        Err(cause) => Err(failure(Operation::Write, path, cause)),
    }
}

/// Finishes the listing of a directory. `scanned` is what the file system
/// gave: the entries of the directory, or the words of its error.
pub fn list_outcome(path: &str, scanned: Result<Vec<Entry>, String>) -> (out: Result<
    Vec<FileNode>,
    AccessError,
>)
    ensures
        match scanned {
            Ok(entries) => out matches Ok(nodes) && shows(nodes@, listing(entries.deep_view())),
            Err(cause) => out matches Err(error) && is_failure(
                error,
                Operation::List,
                path@,
                cause@,
            ),
        },
{
    match scanned {
        Ok(entries) => Ok(list_entries(entries.as_slice())),
        Err(cause) => Err(failure(Operation::List, path, cause)),
    }
}

} // verus!
