//! The file upload route: its query and the reasons it refuses a request.

use vstd::prelude::*;
use crate::diagnostics::{decimal, decimal_string};

verus! {
/// Query of the file upload route: the signed token and the directory to
/// upload into (empty for the server's root).
pub struct Params {
    pub token: String,
    pub directory: String,
}

/// Why the upload route refuses a request.
#[derive(Clone, Copy, Debug, PartialEq, Eq, Structural)]
pub enum UploadRejection {
    InvalidToken,
    TokenAlreadyUsed,
    ServerNotFound,
    NotADirectory,
    MissingFileName,
    FileIgnored,
    TooLarge { limit_mb: usize },
}

/// The HTTP status of a refusal.
pub open spec fn rejection_status_spec(r: UploadRejection) -> u16 {
    match r {
        UploadRejection::InvalidToken => 401,
        UploadRejection::TokenAlreadyUsed => 401,
        UploadRejection::ServerNotFound => 404,
        UploadRejection::NotADirectory => 417,
        UploadRejection::MissingFileName => 417,
        UploadRejection::FileIgnored => 404,
        UploadRejection::TooLarge { .. } => 417,
    }
}

/// The message of a refusal.
pub open spec fn rejection_message_spec(r: UploadRejection) -> Seq<char> {
    match r {
        UploadRejection::InvalidToken => "invalid token"@,
        UploadRejection::TokenAlreadyUsed => "token has already been used"@,
        UploadRejection::ServerNotFound => "server not found"@,
        UploadRejection::NotADirectory => "directory is not a directory"@,
        UploadRejection::MissingFileName => "file name not found"@,
        UploadRejection::FileIgnored => "file not found"@,
        UploadRejection::TooLarge { limit_mb } => "file size is larger than "@ + decimal(
            limit_mb as nat,
        ) + "MB"@,
    }
}

impl UploadRejection {
    /// The HTTP status that answers the refusal.
    pub fn status(&self) -> (r: u16)
        ensures
            r == rejection_status_spec(*self),
    {
        match self {
            UploadRejection::InvalidToken => 401,
            UploadRejection::TokenAlreadyUsed => 401,
            UploadRejection::ServerNotFound => 404,
            UploadRejection::NotADirectory => 417,
            UploadRejection::MissingFileName => 417,
            UploadRejection::FileIgnored => 404,
            UploadRejection::TooLarge { .. } => 417,
        }
    }

    /// The error message that answers the refusal.
    pub fn message(&self) -> (r: String)
        ensures
            r@ == rejection_message_spec(*self),
    {
        let mut out = String::new();
        match self {
            UploadRejection::InvalidToken => out.append("invalid token"),
            UploadRejection::TokenAlreadyUsed => out.append("token has already been used"),
            UploadRejection::ServerNotFound => out.append("server not found"),
            UploadRejection::NotADirectory => out.append("directory is not a directory"),
            UploadRejection::MissingFileName => out.append("file name not found"),
            UploadRejection::FileIgnored => out.append("file not found"),
            UploadRejection::TooLarge { limit_mb } => {
                out.append("file size is larger than ");
                let digits = decimal_string(*limit_mb as u64);
                out.append(digits.as_str());
                out.append("MB");
            },
        }
        out
    }
}

/// The target directory is refused only when it exists and is not a
/// directory; `is_dir` is what its metadata says, if it could be read.
pub fn check_directory(is_dir: Option<bool>) -> (r: Result<(), UploadRejection>)
    ensures
        r is Err <==> is_dir == Some(false),
        r matches Err(e) ==> e == UploadRejection::NotADirectory,
{
    match is_dir {
        Some(false) => Err(UploadRejection::NotADirectory),
        _ => Ok(()),
    }
}

/// Checks the upload token: its signature, its claims, and that it was not
/// used before, in that order.
pub fn check_token(signature_valid: bool, claims_valid: bool, first_use: bool) -> (r: Result<
    (),
    UploadRejection,
>)
    ensures
        !signature_valid ==> r == Err::<(), UploadRejection>(UploadRejection::InvalidToken),
        signature_valid && !claims_valid ==> r == Err::<(), UploadRejection>(
            UploadRejection::InvalidToken,
        ),
        signature_valid && claims_valid && !first_use ==> r == Err::<(), UploadRejection>(
            UploadRejection::TokenAlreadyUsed,
        ),
        signature_valid && claims_valid && first_use ==> r is Ok,
{
    if !signature_valid || !claims_valid {
        Err(UploadRejection::InvalidToken)
    } else if !first_use {
        Err(UploadRejection::TokenAlreadyUsed)
    } else {
        Ok(())
    }
}

/// Checks one uploaded file: it must carry a name, and neither the token's
/// ignore list nor the server's may hide it.
pub fn check_file(has_name: bool, ignored_by_token: bool, ignored_by_server: bool) -> (r: Result<
    (),
    UploadRejection,
>)
    ensures
        !has_name ==> r == Err::<(), UploadRejection>(UploadRejection::MissingFileName),
        has_name && (ignored_by_token || ignored_by_server) ==> r == Err::<(), UploadRejection>(
            UploadRejection::FileIgnored,
        ),
        has_name && !ignored_by_token && !ignored_by_server ==> r is Ok,
{
    if !has_name {
        Err(UploadRejection::MissingFileName)
    } else if ignored_by_token || ignored_by_server {
        Err(UploadRejection::FileIgnored)
    } else {
        Ok(())
    }
}

/// Accounts for a chunk of `chunk_len` bytes after `written` bytes of the
/// same file: refused when the file would exceed `limit_mb` megabytes
/// (of a million bytes each), otherwise the new count of written bytes.
pub fn check_chunk(written: usize, chunk_len: usize, limit_mb: usize) -> (r: Result<
    usize,
    UploadRejection,
>)
    requires
        written + chunk_len <= usize::MAX,
        limit_mb * 1000000 <= usize::MAX,
    ensures
        written + chunk_len > limit_mb * 1000000 <==> r is Err,
        r matches Err(e) ==> e == (UploadRejection::TooLarge { limit_mb }),
        r matches Ok(n) ==> n == written + chunk_len,
{
    let limit = limit_mb * 1000 * 1000;
    if crate::unlikely(written + chunk_len > limit) {
        Err(UploadRejection::TooLarge { limit_mb })
    } else {
        Ok(written + chunk_len)
    }
}

} // verus!
