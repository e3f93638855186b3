//! The files that state is kept in: what is read of them and how they are replaced.
use vstd::prelude::*;
use vstd::string::*;
use vstd::utf8::*;

use crate::ids::{hyphenated, is_random_uuid, NodeId};
use crate::ports::{port_error, PortError};
use crate::strings::{byte_len, decimal, push_decimal};

verus! {

pub const MAX_STATE_BYTES: usize = 1_048_576;

/// Why a file was not read or written.
#[derive(Debug, PartialEq, Eq)]
pub enum StateError {
    MissingParent,
    NotARegularFile,
    TooLarge { limit: usize },
    NotUtf8,
    Io(String),
    Json(String),
}

pub open spec fn state_message(e: StateError) -> Seq<char> {
    match e {
        StateError::MissingParent => "state path has no parent directory"@,
        StateError::NotARegularFile => "state path is not a regular file"@,
        StateError::TooLarge { limit } => "state file is larger than "@ + decimal(limit as nat)
            + " bytes"@,
        StateError::NotUtf8 => "state file is not valid UTF-8"@,
        StateError::Io(detail) => detail@,
        StateError::Json(detail) => detail@,
    }
}

impl StateError {
    pub fn message(&self) -> (r: String)
        ensures
            r@ == state_message(*self),
    {
        match self {
            StateError::MissingParent => "state path has no parent directory".to_owned(),
            StateError::NotARegularFile => "state path is not a regular file".to_owned(),
            StateError::TooLarge { limit } => {
                let mut text = "state file is larger than ".to_owned();
                push_decimal(&mut text, *limit as u64);
                text.append(" bytes");
                text
            },
            StateError::NotUtf8 => "state file is not valid UTF-8".to_owned(),
            StateError::Io(detail) => detail.clone(),
            StateError::Json(detail) => detail.clone(),
        }
    }
}

/// Whether a file may be read, by what the system tells of it: only a regular file that is not too
/// large.
pub fn check_file(is_file: bool, size: u64, limit: usize) -> (r: Result<(), StateError>)
    ensures
        r == (if !is_file {
            Err::<(), StateError>(StateError::NotARegularFile)
        } else if size > limit {
            Err(StateError::TooLarge { limit })
        } else {
            Ok(())
        }),
{
    if !is_file {
        return Err(StateError::NotARegularFile);
    }
    if size > limit as u64 {
        return Err(StateError::TooLarge { limit });
    }
    Ok(())
}

/// What was read of a file counts only where it did not grow beyond the limit meanwhile.
pub fn read_limited(contents: Vec<u8>, limit: usize) -> (r: Result<Vec<u8>, StateError>)
    ensures
        r == (if contents@.len() > limit {
            Err::<Vec<u8>, StateError>(StateError::TooLarge { limit })
        } else {
            Ok(contents)
        }),
{
    if contents.len() > limit {
        return Err(StateError::TooLarge { limit });
    }
    Ok(contents)
}

/// The text of a file, by what the system tells of it and the bytes that were read: those of a
/// regular file that is not too large, where they are valid UTF-8. No text is cut.
pub fn read_limited_to_string(is_file: bool, size: u64, contents: Vec<u8>, limit: usize) -> (r: Result<
    String,
    StateError,
>)
    ensures
        if !is_file {
            r == Err::<String, StateError>(StateError::NotARegularFile)
        } else if size > limit || contents@.len() > limit {
            r == Err::<String, StateError>(StateError::TooLarge { limit })
        } else if !valid_utf8(contents@) {
            r == Err::<String, StateError>(StateError::NotUtf8)
        } else {
            r matches Ok(text) && encode_utf8(text@) == contents@
        },
        r matches Ok(text) ==> byte_len(text@) <= limit,
{
    match check_file(is_file, size, limit) {
        Ok(()) => {},
        Err(error) => {
            return Err(error);
        },
    }
    let contents = match read_limited(contents, limit) {
        Ok(contents) => contents,
        Err(error) => {
            return Err(error);
        },
    };
    match String::from_utf8(contents) {
        Ok(text) => Ok(text),
        Err(_) => Err(StateError::NotUtf8),
    }
}

/// Who may read a file: a secret only its owner.
pub fn file_mode(secret: bool) -> (r: u32)
    ensures
        r == if secret {
            0o600u32
        } else {
            0o644u32
        },
{
    if secret {
        0o600
    } else {
        0o644
    }
}

/// The name under which a file is written before it takes the place of the old one: hidden, beside
/// it, and new each time.
pub fn temporary_name(file_name: Option<&str>) -> (r: String)
    ensures
        exists|id: u128| #[trigger]
            is_random_uuid(id) && r@ == "."@ + (match file_name {
                Some(name) => name@,
                None => "state"@,
            }) + ".tmp-"@ + hyphenated(id),
{
    let name = match file_name {
        Some(name) => name,
        None => "state",
    };
    let id = NodeId::new();
    assert(is_random_uuid(id.0));
    ".".to_owned().concat(name).concat(".tmp-").concat(id.to_text().as_str())
}

/// What a failure of the allowlist's file is reported as.
pub fn access_store_error(detail: &str) -> (r: PortError)
    ensures
        r@ == port_error("ACCESS_STORE_FAILED"@, detail@, false),
{
    PortError::plain("ACCESS_STORE_FAILED", detail, false)
}

/// A file is read exactly when it is a regular file, is not larger than the limit by what the system
/// says and by what was read, and is text; then nothing of it is lost.
pub proof fn law_a_file_is_read_whole_or_not_at_all(
    is_file: bool,
    size: u64,
    contents: Vec<u8>,
    limit: usize,
    r: Result<String, StateError>,
)
    requires
        call_ensures(read_limited_to_string, (is_file, size, contents, limit), r),
    ensures
        r is Ok <==> is_file && size <= limit && contents@.len() <= limit && valid_utf8(contents@),
        r matches Ok(text) ==> encode_utf8(text@) == contents@,
        !is_file ==> r matches Err(StateError::NotARegularFile),
        is_file && (size > limit || contents@.len() > limit) ==> r matches Err(
            StateError::TooLarge { limit: _ },
        ),
        is_file && size <= limit && contents@.len() <= limit && !valid_utf8(contents@) ==> r matches Err(
            StateError::NotUtf8,
        ),
{
}

/// Only the owner reads a secret; anyone may read what is not one, and only the owner writes either.
pub proof fn law_secrets_are_for_their_owner(secret: bool, r: u32)
    requires
        call_ensures(file_mode, (secret,), r),
    ensures
        r / 64 == 6,
        secret ==> r % 64 == 0,
        !secret ==> r % 64 == 8 * 4 + 4,
{
}

/// A state file is at most a mebibyte, and what is wrong with one is said in words of its own.
pub proof fn law_state_errors_are_said_in_words(error: StateError, r: String)
    requires
        call_ensures(StateError::message, (&error,), r),
    ensures
        MAX_STATE_BYTES == 1024 * 1024,
        error is MissingParent ==> r@ == "state path has no parent directory"@,
        error is NotARegularFile ==> r@ == "state path is not a regular file"@,
        error matches StateError::TooLarge { limit } ==> r@ == "state file is larger than "@ + decimal(
            limit as nat,
        ) + " bytes"@,
        error is NotUtf8 ==> r@ == "state file is not valid UTF-8"@,
        error matches StateError::Io(detail) ==> r@ == detail@,
        error matches StateError::Json(detail) ==> r@ == detail@,
{
}

/// A failure of the allowlist's file has its own code and keeps its detail.
pub proof fn law_a_lost_allowlist_has_its_code(detail: &str, r: PortError)
    requires
        call_ensures(access_store_error, (detail,), r),
    ensures
        r.code@ == "ACCESS_STORE_FAILED"@,
        r.message@ == detail@,
        !r.retryable,
{
    assert(r@.code == r.code@);
    assert(r@.message == r.message@);
    assert(r@.retryable == r.retryable);
}

/// Only a regular file that is not larger than its limit is read.
pub proof fn law_only_small_regular_files_are_read(is_file: bool, size: u64, limit: usize, r: Result<(), StateError>)
    requires
        call_ensures(check_file, (is_file, size, limit), r),
    ensures
        r is Ok <==> is_file && size <= limit,
        !is_file ==> r == Err::<(), StateError>(StateError::NotARegularFile),
        is_file && size > limit ==> r == Err::<(), StateError>(StateError::TooLarge { limit }),
{
}

} // verus!
