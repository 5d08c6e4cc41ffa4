//! What the HTTP handlers decide about a request before they act on it:
//! missing or invalid fields, upload limits, and the names of uploaded
//! files.  Reading bodies and answering is the server's part.
use vstd::prelude::*;

use crate::error::{is_error, ApiError};
use crate::models::ParentRef;
use crate::tasks::{is_torrent_path, is_torrent_path_spec};
use crate::text::{
    after_last, basename_of, norm_seq, push_all, push_char, push_decimal_i64, signed_decimal,
    trim, trim_str,
};

verus! {

/// The largest file an upload may hold: 4 GiB.
pub const MAX_UPLOAD_FILE_SIZE: u64 = 4294967296;

/// Files one upload request may carry at most.
pub const MAX_UPLOAD_FILES: usize = 100;

/// Bytes received so far of an uploaded file after one more chunk: refused
/// with 413 `文件过大` once beyond 4 GiB.
pub fn add_upload_chunk(total: u64, chunk_len: u64) -> (r: Result<u64, ApiError>)
    ensures
        ({
            let t = if total + chunk_len > u64::MAX {
                u64::MAX as int
            } else {
                total + chunk_len
            };
            &&& t > MAX_UPLOAD_FILE_SIZE ==> is_error(r, 413, "文件过大"@)
            &&& t <= MAX_UPLOAD_FILE_SIZE ==> r == Ok::<u64, ApiError>(t as u64)
        }),
{
    let t = total.saturating_add(chunk_len);
    if t > MAX_UPLOAD_FILE_SIZE {
        return Err(ApiError::too_large("文件过大"));
    }
    Ok(t)
}

/// After one more file of an upload was received: more than a hundred are
/// refused with 500 `Unexpected field`.
pub fn check_upload_count(received: usize) -> (r: Result<(), ApiError>)
    ensures
        received > MAX_UPLOAD_FILES ==> is_error(r, 500, "Unexpected field"@),
        received <= MAX_UPLOAD_FILES ==> r is Ok,
{
    if received > MAX_UPLOAD_FILES {
        return Err(ApiError::internal("Unexpected field"));
    }
    Ok(())
}

/// An upload must carry at least one file: else 400 `未收到文件`.
pub fn require_files(received: usize) -> (r: Result<(), ApiError>)
    ensures
        received == 0 ==> is_error(r, 400, "未收到文件"@),
        received > 0 ==> r is Ok,
{
    if received == 0 {
        return Err(ApiError::bad_request("未收到文件"));
    }
    Ok(())
}

/// A temporary upload must be a torrent file: else 400 `仅支持 .torrent 文件`.
pub fn check_torrent_upload(upload_name: &str) -> (r: Result<(), ApiError>)
    ensures
        is_torrent_path_spec(upload_name@) ==> r is Ok,
        !is_torrent_path_spec(upload_name@) ==> is_error(r, 400, "仅支持 .torrent 文件"@),
{
    if !is_torrent_path(upload_name) {
        return Err(ApiError::bad_request("仅支持 .torrent 文件"));
    }
    Ok(())
}

/// Lower-case hex digits of a number, without leading zeros (`{:x}`).
pub open spec fn hex_text(n: nat) -> Seq<char>
    decreases n,
{
    if n < 16 {
        seq![hex_char(n)]
    } else {
        hex_text(n / 16).push(hex_char(n % 16))
    }
}

pub open spec fn hex_char(d: nat) -> char {
    if d < 10 {
        ((d + 48) as u8) as char
    } else {
        ((d + 87) as u8) as char
    }
}

/// Appends the lower-case hex digits of `n`.
pub fn push_hex(out: &mut String, n: u64)
    ensures
        final(out)@ == old(out)@ + hex_text(n as nat),
    decreases n,
{
    if n < 16 {
        let c = if n < 10 {
            ((n + 48) as u8) as char
        } else {
            ((n + 87) as u8) as char
        };
        push_char(out, c);
        assert(old(out)@ + hex_text(n as nat) =~= old(out)@.push(hex_char(n as nat)));
    } else {
        push_hex(out, n / 16);
        let ghost mid = out@;
        let d = n % 16;
        let c = if d < 10 {
            ((d + 48) as u8) as char
        } else {
            ((d + 87) as u8) as char
        };
        push_char(out, c);
        assert(old(out)@ + hex_text(n as nat) =~= mid.push(hex_char((n % 16) as nat)));
    }
}

/// A random number from the thread-local generator of `rand` (`Rng::gen::<u64>`).
#[verifier::external_body]
fn random_u64() -> (r: u64) {
    rand::Rng::gen::<u64>(&mut rand::thread_rng())
}

/// A random suffix for temporary names: a random number in lower-case hex.
pub fn random_suffix() -> (s: String)
    ensures
        exists|n: u64| s@ == hex_text(n as nat),
{
    let n = random_u64();
    let mut s = String::new();
    push_hex(&mut s, n);
    assert(s@ =~= hex_text(n as nat));
    s
}

/// The temporary name of an uploaded file: `{stamp}-{suffix}-{base name}`.
pub open spec fn upload_tmp_name_spec(stamp: i64, suffix: Seq<char>, upload_name: Seq<char>) -> Seq<char> {
    signed_decimal(stamp as int) + "-"@ + suffix + "-"@ + after_last(norm_seq(upload_name), '/')
}

/// The temporary name of an uploaded file.
pub fn upload_tmp_name(stamp: i64, suffix: &str, upload_name: &str) -> (n: String)
    ensures
        n@ == upload_tmp_name_spec(stamp, suffix@, upload_name@),
{
    let mut n = String::new();
    push_decimal_i64(&mut n, stamp);
    push_all(&mut n, "-");
    push_all(&mut n, suffix);
    push_all(&mut n, "-");
    let b = basename_of(upload_name);
    push_all(&mut n, b.as_str());
    n
}

/// What a rename request changes: it must carry a name or a parent; a
/// parent names the root, a directory, or nothing (404 `目录不存在`).  The
/// result is the parent part of the patch.
pub fn patch_parent(has_name: bool, parent: Option<ParentRef>) -> (r: Result<Option<Option<i64>>, ApiError>)
    ensures
        !has_name && parent is None ==> is_error(r, 400, "没有可更新的字段"@),
        has_name || parent is Some ==> match parent {
            None => r == Ok::<Option<Option<i64>>, ApiError>(None),
            Some(ParentRef::Root) => r == Ok::<Option<Option<i64>>, ApiError>(Some(None)),
            Some(ParentRef::Id(id)) => r == Ok::<Option<Option<i64>>, ApiError>(Some(Some(id))),
            Some(ParentRef::Invalid) => is_error(r, 404, "目录不存在"@),
        },
{
    if !has_name && parent.is_none() {
        return Err(ApiError::bad_request("没有可更新的字段"));
    }
    match parent {
        None => Ok(None),
        Some(ParentRef::Root) => Ok(Some(None)),
        Some(ParentRef::Id(id)) => Ok(Some(Some(id))),
        Some(ParentRef::Invalid) => Err(ApiError::not_found("目录不存在")),
    }
}

/// A new directory needs a name: else 400 `缺少目录名`.
pub fn require_dir_name(name: Option<String>) -> (r: Result<String, ApiError>)
    ensures
        match name {
            Some(n) => r == Ok::<String, ApiError>(n),
            None => is_error(r, 400, "缺少目录名"@),
        },
{
    match name {
        Some(n) => Ok(n),
        None => Err(ApiError::bad_request("缺少目录名")),
    }
}

/// A download settings request needs at least one field: else 400 `没有可更新的参数`.
pub fn require_config_fields(fields: usize) -> (r: Result<(), ApiError>)
    ensures
        fields == 0 ==> is_error(r, 400, "没有可更新的参数"@),
        fields > 0 ==> r is Ok,
{
    if fields == 0 {
        return Err(ApiError::bad_request("没有可更新的参数"));
    }
    Ok(())
}

/// A cookie to save must not be blank: else 400 `Cookie 不能为空`.
pub fn check_cookie_input(cookie: &str) -> (r: Result<(), ApiError>)
    ensures
        trim(cookie@).len() == 0 ==> is_error(r, 400, "Cookie 不能为空"@),
        trim(cookie@).len() > 0 ==> r is Ok,
{
    let t = trim_str(cookie);
    if t.as_str().is_empty() {
        return Err(ApiError::bad_request("Cookie 不能为空"));
    }
    Ok(())
}

/// The text of a search: the trimmed query; `None` (no results) when blank.
pub fn search_text(q: Option<&str>) -> (r: Option<String>)
    ensures
        match q {
            None => r is None,
            Some(s) => if trim(s@).len() == 0 {
                r is None
            } else {
                (r matches Some(t) && t@ == trim(s@))
            },
        },
{
    match q {
        None => None,
        Some(s) => {
            let t = trim_str(s);
            if t.as_str().is_empty() {
                None
            } else {
                Some(t)
            }
        },
    }
}

/// Results a search returns at most.
pub const SEARCH_LIMIT: i64 = 50;

} // verus!
