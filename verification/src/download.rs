//! Planning of a file download: the `Range` header, the status, and the
//! headers of the reply.  The file is streamed by the caller.
use vstd::prelude::*;

use crate::error::{is_error, ApiError};
use crate::text::{
    chars_eq_str, decimal, encode_bytes, encode_uri_component, from_char_range, parse_u64_chars,
    parse_u64_spec, push_all, push_decimal, starts_with_chars, to_chars, trim, trim_bounds,
};
use crate::mime::{is_previewable, is_previewable_spec, mime_of, mime_spec};
use vstd::string::StringSliceAdditionalSpecFns;

verus! {

/// What a `Range` request header asks for.
#[derive(Debug, Clone, Copy, PartialEq, Eq, Structural)]
pub enum ParsedRange {
    /// No usable range: the whole file is sent.
    NoRange,
    /// A range that lies outside the file: answered with 416.
    Invalid,
    /// The bytes `start..=end`.
    Partial { start: u64, end: u64 },
}

/// The first position of `c` in `s`.
pub open spec fn first_index(s: Seq<char>, c: char) -> Option<int>
    decreases s.len(),
{
    if s.len() == 0 {
        None
    } else if s[0] == c {
        Some(0)
    } else {
        match first_index(s.drop_first(), c) {
            Some(i) => Some(i + 1),
            None => None,
        }
    }
}

pub open spec fn sat_sub(a: u64, b: u64) -> u64 {
    if a >= b {
        (a - b) as u64
    } else {
        0
    }
}

pub open spec fn checked_range(start: u64, end: u64, size: u64) -> ParsedRange {
    if start > end || start >= size {
        ParsedRange::Invalid
    } else {
        ParsedRange::Partial { start, end }
    }
}

/// The meaning of `bytes=start-end`, `bytes=start-` and `bytes=-suffix` for a
/// file of `size` bytes; anything else asks for no range.
pub open spec fn range_spec(value: Option<Seq<char>>, size: u64) -> ParsedRange {
    match value {
        None => ParsedRange::NoRange,
        Some(v) => {
            let t = trim(v);
            let p = "bytes="@;
            if !p.is_prefix_of(t) {
                ParsedRange::NoRange
            } else {
                let raw = t.skip(p.len() as int);
                match first_index(raw, '-') {
                    None => ParsedRange::NoRange,
                    Some(k) => {
                        let sr = raw.take(k);
                        let er = raw.skip(k + 1);
                        if sr.len() == 0 && er.len() == 0 {
                            ParsedRange::NoRange
                        } else if sr.len() == 0 {
                            match parse_u64_spec(er) {
                                None => ParsedRange::NoRange,
                                Some(suffix) => checked_range(
                                    sat_sub(size, suffix),
                                    sat_sub(size, 1),
                                    size,
                                ),
                            }
                        } else {
                            match parse_u64_spec(sr) {
                                None => ParsedRange::NoRange,
                                Some(start) => if er.len() == 0 {
                                    checked_range(start, sat_sub(size, 1), size)
                                } else {
                                    match parse_u64_spec(er) {
                                        None => ParsedRange::NoRange,
                                        Some(e) => checked_range(
                                            start,
                                            if e <= sat_sub(size, 1) {
                                                e
                                            } else {
                                                sat_sub(size, 1)
                                            },
                                            size,
                                        ),
                                    }
                                },
                            }
                        }
                    },
                }
            }
        },
    }
}

pub(crate) proof fn lemma_first_index(s: Seq<char>, c: char, k: int)
    requires
        0 <= k <= s.len(),
        forall|j: int| 0 <= j < k ==> s[j] != c,
        k < s.len() ==> s[k] == c,
    ensures
        first_index(s, c) == (if k < s.len() {
            Some(k)
        } else {
            None::<int>
        }),
    decreases k,
{
    if k > 0 {
        lemma_first_index(s.drop_first(), c, k - 1);
    }
}

pub(crate) fn find_char_from(v: &[char], from: usize, to: usize, c: char) -> (k: usize)
    requires
        from <= to <= v.len(),
    ensures
        from <= k <= to,
        forall|j: int| from <= j < k ==> v@[j] != c,
        k < to ==> v@[k as int] == c,
{
    let mut k = from;
    while k < to && v[k] != c
        invariant
            from <= k <= to <= v.len(),
            forall|j: int| from <= j < k ==> v@[j] != c,
        decreases to - k,
    {
        k = k + 1;
    }
    k
}

fn sat_sub_exec(a: u64, b: u64) -> (r: u64)
    ensures
        r == sat_sub(a, b),
{
    if a >= b {
        a - b
    } else {
        0
    }
}

fn checked_range_exec(start: u64, end: u64, size: u64) -> (r: ParsedRange)
    ensures
        r == checked_range(start, end, size),
{
    if start > end || start >= size {
        ParsedRange::Invalid
    } else {
        ParsedRange::Partial { start, end }
    }
}

/// Reads a `Range` header (`None` when absent or not visible ASCII).
/// A range that is served lies inside the file: its first byte is not after
/// its last, and its last byte exists.
pub proof fn law_range_within_file(value: Option<Seq<char>>, size: u64)
    ensures
        range_spec(value, size) matches ParsedRange::Partial { start, end } ==> start <= end
            && end < size,
{
}

proof fn lemma_number_has_no_dash(sr: Seq<char>)
    requires
        parse_u64_spec(sr) is Some,
    ensures
        forall|j: int| 0 <= j < sr.len() ==> sr[j] != '-',
{
    let body = if sr.len() > 0 && sr[0] == '+' {
        sr.drop_first()
    } else {
        sr
    };
    assert forall|j: int| 0 <= j < sr.len() implies sr[j] != '-' by {
        if sr.len() > 0 && sr[0] == '+' {
            if j > 0 {
                assert(sr[j] == body[j - 1]);
                assert(crate::text::is_digit(body[j - 1]));
            }
        } else {
            assert(crate::text::is_digit(body[j]));
        }
    }
}

/// A range `bytes=start-end` is served whenever its first byte lies in the
/// file and does not come after its last byte: the bytes `start..=end'` are
/// sent, where `end'` is `end` cut back to the last byte of the file.  Only a
/// start beyond the file or after the end is refused (416).
pub proof fn law_byte_range_served(v: Seq<char>, sr: Seq<char>, er: Seq<char>, size: u64)
    requires
        trim(v) == "bytes="@ + sr + "-"@ + er,
        parse_u64_spec(sr) is Some,
        parse_u64_spec(er) is Some,
    ensures
        ({
            let start = parse_u64_spec(sr)->0;
            let end = parse_u64_spec(er)->0;
            let last = if end < size { end } else { (size - 1) as u64 };
            &&& (start <= end && start < size) ==> range_spec(Some(v), size)
                == ParsedRange::Partial { start, end: last }
            &&& !(start <= end && start < size) ==> range_spec(Some(v), size) == ParsedRange::Invalid
        }),
{
    reveal_strlit("bytes=");
    reveal_strlit("-");
    lemma_number_has_no_dash(sr);
    let t = trim(v);
    let p = "bytes="@;
    assert(p.is_prefix_of(t)) by {
        assert(t.take(p.len() as int) =~= p);
    }
    let raw = t.skip(p.len() as int);
    assert(raw =~= sr + "-"@ + er);
    lemma_first_index(raw, '-', sr.len() as int);
    assert(raw.take(sr.len() as int) =~= sr);
    assert(raw.skip(sr.len() as int + 1) =~= er);
}

/// An open range `bytes=start-` is served up to the last byte of the file
/// when its first byte lies in the file, and refused otherwise.
pub proof fn law_open_range_served(v: Seq<char>, sr: Seq<char>, size: u64)
    requires
        trim(v) == "bytes="@ + sr + "-"@,
        parse_u64_spec(sr) is Some,
    ensures
        ({
            let start = parse_u64_spec(sr)->0;
            &&& start < size ==> range_spec(Some(v), size) == ParsedRange::Partial {
                start,
                end: (size - 1) as u64,
            }
            &&& start >= size ==> range_spec(Some(v), size) == ParsedRange::Invalid
        }),
{
    reveal_strlit("bytes=");
    reveal_strlit("-");
    lemma_number_has_no_dash(sr);
    let t = trim(v);
    let p = "bytes="@;
    assert(p.is_prefix_of(t)) by {
        assert(t.take(p.len() as int) =~= p);
    }
    let raw = t.skip(p.len() as int);
    assert(raw =~= sr + "-"@);
    lemma_first_index(raw, '-', sr.len() as int);
    assert(raw.take(sr.len() as int) =~= sr);
    assert(raw.skip(sr.len() as int + 1) =~= Seq::<char>::empty());
}

/// A suffix range `bytes=-n` with `n > 0` on a non-empty file is served: the
/// last `n` bytes, or the whole file when it is shorter.
pub proof fn law_suffix_range_served(v: Seq<char>, er: Seq<char>, size: u64)
    requires
        trim(v) == "bytes=-"@ + er,
        parse_u64_spec(er) is Some,
        parse_u64_spec(er)->0 > 0,
        size > 0,
    ensures
        ({
            let n = parse_u64_spec(er)->0;
            range_spec(Some(v), size) == ParsedRange::Partial {
                start: if n <= size { (size - n) as u64 } else { 0 },
                end: (size - 1) as u64,
            }
        }),
{
    reveal_strlit("bytes=");
    reveal_strlit("bytes=-");
    let t = trim(v);
    let p = "bytes="@;
    assert(p.is_prefix_of(t)) by {
        assert(t.take(p.len() as int) =~= p);
    }
    let raw = t.skip(p.len() as int);
    assert(raw =~= seq!['-'] + er);
    lemma_first_index(raw, '-', 0);
    assert(raw.take(0) =~= Seq::<char>::empty());
    assert(raw.skip(1) =~= er);
    if er.len() == 0 {
        assert(parse_u64_spec(er) is None);
    }
}

pub fn parse_range(value: Option<&str>, size: u64) -> (r: ParsedRange)
    ensures
        r == range_spec(
            match value {
                Some(s) => Some(s@),
                None => None,
            },
            size,
        ),
{
    let s = match value {
        None => {
            return ParsedRange::NoRange;
        },
        Some(s) => s,
    };
    let v = to_chars(s);
    let (a, b) = trim_bounds(&v);
    let ghost t = trim(s@);
    let tv: Vec<char> = to_chars(from_char_range(&v, a, b).as_str());
    assert(tv@ == t);
    let p = to_chars("bytes=");
    if !starts_with_chars(&tv, &p) {
        return ParsedRange::NoRange;
    }
    let plen = p.len();
    let ghost raw = t.skip(plen as int);
    let k = find_char_from(&tv, plen, tv.len(), '-');
    proof {
        assert forall|j: int| 0 <= j < k - plen implies raw[j] != '-' by {
            assert(raw[j] == tv@[plen + j]);
        }
        if k < tv.len() {
            assert(raw[k - plen] == tv@[k as int]);
        }
        lemma_first_index(raw, '-', k - plen);
    }
    if k == tv.len() {
        return ParsedRange::NoRange;
    }
    let sr = from_char_range(&tv, plen, k);
    let er = from_char_range(&tv, k + 1, tv.len());
    let srv = to_chars(sr.as_str());
    let erv = to_chars(er.as_str());
    assert(srv@ =~= raw.take(k - plen));
    assert(erv@ =~= raw.skip(k - plen + 1));
    if srv.len() == 0 && erv.len() == 0 {
        return ParsedRange::NoRange;
    }
    let last = sat_sub_exec(size, 1);
    if srv.len() == 0 {
        match parse_u64_chars(&erv) {
            None => ParsedRange::NoRange,
            Some(suffix) => checked_range_exec(sat_sub_exec(size, suffix), last, size),
        }
    } else {
        match parse_u64_chars(&srv) {
            None => ParsedRange::NoRange,
            Some(start) => {
                if erv.len() == 0 {
                    checked_range_exec(start, last, size)
                } else {
                    match parse_u64_chars(&erv) {
                        None => ParsedRange::NoRange,
                        Some(e) => checked_range_exec(
                            start,
                            if e <= last {
                                e
                            } else {
                                last
                            },
                            size,
                        ),
                    }
                }
            },
        }
    }
}

/// The reply to a download request, short of the file's bytes.
#[derive(Debug, Clone)]
pub enum DownloadPlan {
    /// 416 with `Content-Range: bytes */size`.
    Unsatisfiable { unsatisfied_range: String },
    /// 200 or 206: `content_length` bytes from offset `start`.
    Send {
        status: u16,
        content_type: String,
        content_disposition: String,
        content_range: Option<String>,
        content_length: u64,
        start: u64,
    },
}

/// `bytes start-end/size`.
pub open spec fn content_range_spec(start: u64, end: u64, size: u64) -> Seq<char> {
    "bytes "@ + decimal(start as nat) + "-"@ + decimal(end as nat) + "/"@ + decimal(size as nat)
}

/// `inline` or `attachment`, then the RFC 5987 encoded file name.
pub open spec fn disposition_spec(preview: bool, name: Seq<char>, name_bytes: Seq<u8>) -> Seq<char> {
    (if preview {
        "inline"@
    } else {
        "attachment"@
    }) + "; filename*=UTF-8''"@ + encode_bytes(name_bytes)
}

/// The reply for a stored file of `size` bytes named `name` with recorded type `mime`.
pub open spec fn download_plan_ok(
    plan: DownloadPlan,
    mime: Seq<char>,
    name: Seq<char>,
    name_bytes: Seq<u8>,
    size: u64,
    range: Option<Seq<char>>,
    preview_query: Option<Seq<char>>,
) -> bool {
    let preview = preview_query == Some("1"@) || is_previewable_spec(mime);
    let ctype = if mime.len() == 0 {
        mime_spec(name)
    } else {
        mime
    };
    match (range_spec(range, size), plan) {
        (ParsedRange::Invalid, DownloadPlan::Unsatisfiable { unsatisfied_range }) => unsatisfied_range@
            == "bytes */"@ + decimal(size as nat),
        (
            ParsedRange::NoRange,
            DownloadPlan::Send {
                status,
                content_type,
                content_disposition,
                content_range,
                content_length,
                start,
            },
        ) => {
            &&& status == 200
            &&& content_range is None
            &&& content_length == size
            &&& start == 0
            &&& content_type@ == ctype
            &&& content_disposition@ == disposition_spec(preview, name, name_bytes)
        },
        (
            ParsedRange::Partial { start: s, end: e },
            DownloadPlan::Send {
                status,
                content_type,
                content_disposition,
                content_range,
                content_length,
                start,
            },
        ) => {
            &&& status == 206
            &&& (match content_range {
                Some(cr) => cr@ == content_range_spec(s, e, size),
                None => false,
            })
            &&& content_length == e - s + 1
            &&& start == s
            &&& content_type@ == ctype
            &&& content_disposition@ == disposition_spec(preview, name, name_bytes)
        },
        _ => false,
    }
}

/// Refuses to download what is no file on disk.
pub fn check_downloadable(is_dir: bool, exists_on_disk: bool) -> (r: Result<(), ApiError>)
    ensures
        is_dir ==> is_error(r, 400, "目录不可下载"@),
        !is_dir && !exists_on_disk ==> is_error(r, 404, "文件在磁盘上不存在"@),
        !is_dir && exists_on_disk ==> r is Ok,
{
    if is_dir {
        return Err(ApiError::bad_request("目录不可下载"));
    }
    if !exists_on_disk {
        return Err(ApiError::not_found("文件在磁盘上不存在"));
    }
    Ok(())
}

/// Status, length and headers of a download.
pub fn plan_download(
    mime: &str,
    name: &str,
    size: u64,
    range: Option<&str>,
    preview_query: Option<&str>,
) -> (plan: DownloadPlan)
    ensures
        download_plan_ok(
            plan,
            mime@,
            name@,
            name.spec_bytes(),
            size,
            match range {
                Some(s) => Some(s@),
                None => None,
            },
            match preview_query {
                Some(s) => Some(s@),
                None => None,
            },
        ),
{
    let parsed = parse_range(range, size);
    if let ParsedRange::Invalid = parsed {
        let mut cr = String::new();
        push_all(&mut cr, "bytes */");
        push_decimal(&mut cr, size);
        return DownloadPlan::Unsatisfiable { unsatisfied_range: cr };
    }
    let preview_flag = match preview_query {
        Some(q) => {
            let qv = to_chars(q);
            chars_eq_str(&qv, "1")
        },
        None => false,
    };
    let preview = preview_flag || is_previewable(mime);
    let mut disposition = String::new();
    if preview {
        push_all(&mut disposition, "inline");
    } else {
        push_all(&mut disposition, "attachment");
    }
    push_all(&mut disposition, "; filename*=UTF-8''");
    let encoded = encode_uri_component(name);
    push_all(&mut disposition, encoded.as_str());
    let content_type = if mime.is_empty() {
        mime_of(name).to_owned()
    } else {
        mime.to_owned()
    };
    match parsed {
        ParsedRange::Partial { start, end } => {
            let mut cr = String::new();
            push_all(&mut cr, "bytes ");
            push_decimal(&mut cr, start);
            push_all(&mut cr, "-");
            push_decimal(&mut cr, end);
            push_all(&mut cr, "/");
            push_decimal(&mut cr, size);
            DownloadPlan::Send {
                status: 206,
                content_type,
                content_disposition: disposition,
                content_range: Some(cr),
                content_length: end - start + 1,
                start,
            }
        },
        _ => DownloadPlan::Send {
            status: 200,
            content_type,
            content_disposition: disposition,
            content_range: None,
            content_length: size,
            start: 0,
        },
    }
}

} // verus!
