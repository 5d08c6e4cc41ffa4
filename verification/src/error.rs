//! Errors of the HTTP layer.
//!
//! A missing file maps to 404; a busy, forbidden or malformed request to 400;
//! an oversized upload to 413; everything else to 500.  The response body is
//! `{"error": message}` with an optional `kind` that lets the front end tell
//! cases such as an expired UC cookie apart.
use vstd::prelude::*;

verus! {

/// An error answered to an HTTP client.
#[derive(Debug, Clone)]
pub struct ApiError {
    pub status: u16,
    pub message: String,
    pub kind: Option<String>,
}

/// The kinds of `std::io::Error` that the library tells apart.
#[derive(Debug, Clone, Copy, PartialEq, Eq, Structural)]
pub enum IoKind {
    NotFound,
    PermissionDenied,
    InvalidInput,
    InvalidFilename,
    WouldBlock,
    ResourceBusy,
    CrossesDevices,
    TimedOut,
    Other,
}

/// The plain facts of a failed file-system operation: its kind, the raw OS
/// error code when there is one, and its message.
#[derive(Debug, Clone)]
pub struct IoFailure {
    pub kind: IoKind,
    pub raw_os_error: Option<i32>,
    pub message: String,
}

/// The status that an I/O failure is answered with: 404 for a missing file;
/// 400 for a busy resource (EBUSY), a refused permission (EPERM, EACCES), an
/// invalid argument (EINVAL) and the sharing and lock violations of Windows;
/// 500 otherwise.
pub open spec fn io_status(kind: IoKind, raw: Option<i32>) -> u16 {
    match kind {
        IoKind::NotFound => 404,
        IoKind::PermissionDenied | IoKind::ResourceBusy => 400,
        IoKind::InvalidInput | IoKind::InvalidFilename => 400,
        _ => if raw == Some(16i32) || raw == Some(32i32) || raw == Some(33i32) || raw == Some(5i32) {
            400
        } else {
            500
        },
    }
}

/// `r` is the error with this status and message, and no kind.
pub open spec fn is_error<T>(r: Result<T, ApiError>, status: u16, msg: Seq<char>) -> bool {
    match r {
        Err(e) => e.status == status && e.message@ == msg && e.kind is None,
        Ok(_) => false,
    }
}

/// `r` is the error with this status, message and kind.
pub open spec fn is_kind_error<T>(r: Result<T, ApiError>, status: u16, msg: Seq<char>, kind: Seq<char>) -> bool {
    match r {
        Err(e) => e.status == status && e.message@ == msg && match e.kind {
            Some(k) => k@ == kind,
            None => false,
        },
        Ok(_) => false,
    }
}

/// The failure means that source and destination lie on different volumes.
pub open spec fn cross_device_spec(err: IoFailure) -> bool {
    err.raw_os_error == Some(17i32) || err.kind == IoKind::CrossesDevices
}

/// The failure means that the file is in use by someone else.
pub open spec fn busy_spec(err: IoFailure) -> bool {
    err.kind == IoKind::PermissionDenied || err.kind == IoKind::WouldBlock || err.raw_os_error
        == Some(16i32) || err.raw_os_error == Some(32i32) || err.raw_os_error == Some(33i32)
}

impl ApiError {
    pub fn not_found(msg: &str) -> (e: ApiError)
        ensures
            e.status == 404,
            e.message@ == msg@,
            e.kind is None,
    {
        ApiError { status: 404, message: msg.to_owned(), kind: None }
    }

    pub fn bad_request(msg: &str) -> (e: ApiError)
        ensures
            e.status == 400,
            e.message@ == msg@,
            e.kind is None,
    {
        ApiError { status: 400, message: msg.to_owned(), kind: None }
    }

    pub fn too_large(msg: &str) -> (e: ApiError)
        ensures
            e.status == 413,
            e.message@ == msg@,
            e.kind is None,
    {
        ApiError { status: 413, message: msg.to_owned(), kind: None }
    }

    /// Business errors default to 500.
    pub fn internal(msg: &str) -> (e: ApiError)
        ensures
            e.status == 500,
            e.message@ == msg@,
            e.kind is None,
    {
        ApiError { status: 500, message: msg.to_owned(), kind: None }
    }

    pub fn with_kind(status: u16, msg: &str, kind: &str) -> (e: ApiError)
        ensures
            e.status == status,
            e.message@ == msg@,
            e.kind matches Some(k) && k@ == kind@,
    {
        ApiError { status, message: msg.to_owned(), kind: Some(kind.to_owned()) }
    }

    /// The closest status for an I/O failure, with its message.
    pub fn from_io(err: &IoFailure) -> (e: ApiError)
        ensures
            e.status == io_status(err.kind, err.raw_os_error),
            e.message@ == err.message@,
            e.kind is None,
    {
        let msg = err.message.as_str();
        match err.kind {
            IoKind::NotFound => ApiError::not_found(msg),
            IoKind::PermissionDenied | IoKind::ResourceBusy => ApiError::bad_request(msg),
            IoKind::InvalidInput | IoKind::InvalidFilename => ApiError::bad_request(msg),
            _ => {
                if let Some(c) = err.raw_os_error {
                    if c == 16 || c == 32 || c == 33 || c == 5 {
                        return ApiError::bad_request(msg);
                    }
                }
                ApiError::internal(msg)
            },
        }
    }

    /// As [`ApiError::from_io`], with a message of the caller's.
    pub fn from_io_msg(err: &IoFailure, msg: &str) -> (e: ApiError)
        ensures
            e.status == io_status(err.kind, err.raw_os_error),
            e.message@ == msg@,
            e.kind is None,
    {
        let mut e = ApiError::from_io(err);
        e.message = msg.to_owned();
        e
    }
}

/// Source and destination of a rename lie on different volumes.
pub fn is_cross_device(err: &IoFailure) -> (r: bool)
    ensures
        r == cross_device_spec(*err),
{
    let raw17 = match err.raw_os_error {
        Some(c) => c == 17,
        None => false,
    };
    raw17 || matches!(err.kind, IoKind::CrossesDevices)
}

/// The file is held open by another process (worth one retry).
pub fn busy_io(err: &IoFailure) -> (r: bool)
    ensures
        r == busy_spec(*err),
{
    let busy_kind = matches!(err.kind, IoKind::PermissionDenied | IoKind::WouldBlock);
    let busy_code = match err.raw_os_error {
        Some(c) => c == 16 || c == 32 || c == 33,
        None => false,
    };
    busy_kind || busy_code
}

} // verus!
