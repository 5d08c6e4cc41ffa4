//! UC cloud drive shares: what the library decides while the caller talks
//! HTTP to UC.  Share links are taken apart, `Set-Cookie` headers merged into
//! the session, the share listing is paged and walked, and a probe of a
//! direct link is classified.
use vstd::prelude::*;

use crate::download::{find_char_from, first_index, lemma_first_index};
use crate::error::{is_error, is_kind_error, ApiError};
use crate::models::UcFileDto;
use crate::text::{
    char_range, chars_eq_str, contains_chars, contains_seq, from_chars, opt_seq, decimal, encode_bytes, encode_uri_component, from_char_range,
    lower_text, occurs_at, occurs_at_exec, push_all, push_char, push_decimal, str_contains, to_chars,
    to_lowercase, str_eq,
};
use vstd::string::StringSliceAdditionalSpecFns;
use vstd::utf8::encode_utf8;

verus! {

/// The UC cloud drive API.
pub const UC_API: &'static str = "https://pc-api.uc.cn/1/clouddrive";

/// The desktop client's user agent, which the UC API insists on.
pub const UA: &'static str = "Mozilla/5.0 (Windows NT 10.0; Win64; x64) AppleWebKit/537.36 (KHTML, like Gecko) uc-cloud-drive/2.5.20 Chrome/100.0.4896.160 Electron/18.3.5.4-b478491100 Safari/537.36 Channel/pckk_other_ch";

/// Entries per page of a share listing.
pub const PAGE_SIZE: usize = 50;

// ---------------------------------------------------------------------------
// Share links
// ---------------------------------------------------------------------------

/// The first position from `i` on where `needle` occurs.
pub open spec fn first_occurrence_from(hay: Seq<char>, needle: Seq<char>, i: int) -> Option<int>
    decreases hay.len() + 1 - i,
{
    if i < 0 || i > hay.len() {
        None
    } else if occurs_at(hay, needle, i) {
        Some(i)
    } else {
        first_occurrence_from(hay, needle, i + 1)
    }
}

/// Length of the run of characters satisfying `[?#]`-freedom from the start.
pub open spec fn until_query(s: Seq<char>) -> int
    decreases s.len(),
{
    if s.len() == 0 || s[0] == '?' || s[0] == '#' {
        0
    } else {
        1 + until_query(s.drop_first())
    }
}

/// The share id: what follows the first `/s/` up to `?`, `#` or the end, when not empty.
pub open spec fn share_id_spec(link: Seq<char>) -> Option<Seq<char>> {
    match first_occurrence_from(link, "/s/"@, 0) {
        None => None,
        Some(st) => {
            let rest = link.skip(st + 3);
            let end = until_query(rest);
            if end == 0 {
                None
            } else {
                Some(rest.take(end))
            }
        },
    }
}

pub open spec fn is_lower_hex(c: char) -> bool {
    ('a' <= c && c <= 'f') || ('0' <= c && c <= '9')
}

/// Length of the run of `[a-f0-9]` characters of `s` from `from` on.
pub open spec fn hex_run(s: Seq<char>, from: int) -> int
    decreases s.len() - from,
{
    if from < 0 || from >= s.len() || !is_lower_hex(s[from]) {
        0
    } else {
        1 + hex_run(s, from + 1)
    }
}

/// Position of the first `/` of `s` from `from` on.
pub open spec fn slash_from(s: Seq<char>, from: int) -> Option<int>
    decreases s.len() - from,
{
    if from < 0 || from >= s.len() {
        None
    } else if s[from] == '/' {
        Some(from)
    } else {
        slash_from(s, from + 1)
    }
}

/// A match of `#/list/share/[^/]*/([a-f0-9]+)-` that starts at `i`, and its group.
pub open spec fn dir_match_at(s: Seq<char>, i: int) -> Option<Seq<char>> {
    if !occurs_at(s, "#/list/share/"@, i) {
        None
    } else {
        match slash_from(s, i + 13) {
            None => None,
            Some(k) => {
                let m = hex_run(s, k + 1);
                if m > 0 && k + 1 + m < s.len() && s[k + 1 + m] == '-' {
                    Some(s.subrange(k + 1, k + 1 + m))
                } else {
                    None
                }
            },
        }
    }
}

/// The group of the leftmost match from `i` on.
pub open spec fn dir_match_from(s: Seq<char>, i: int) -> Option<Seq<char>>
    decreases s.len() + 1 - i,
{
    if i < 0 || i > s.len() {
        None
    } else {
        match dir_match_at(s, i) {
            Some(g) => Some(g),
            None => dir_match_from(s, i + 1),
        }
    }
}

/// The directory fid of a share link: the group of the leftmost match of
/// `#/list/share/[^/]*/([a-f0-9]+)-`.
pub open spec fn dir_fid_spec(link: Seq<char>) -> Option<Seq<char>> {
    dir_match_from(link, 0)
}

fn first_occurrence_exec(hay: &[char], needle: &[char]) -> (r: Option<usize>)
    ensures
        match r {
            Some(k) => first_occurrence_from(hay@, needle@, 0) == Some(k as int) && occurs_at(
                hay@,
                needle@,
                k as int,
            ),
            None => first_occurrence_from(hay@, needle@, 0) is None,
        },
{
    let mut i: usize = hay.len();
    let mut found: Option<usize> = if occurs_at_exec(hay, needle, i) {
        Some(i)
    } else {
        None
    };
    proof {
        assert(first_occurrence_from(hay@, needle@, hay@.len() as int + 1) is None);
    }
    while i > 0
        invariant
            i <= hay.len(),
            match found {
                Some(k) => first_occurrence_from(hay@, needle@, i as int) == Some(k as int)
                    && occurs_at(hay@, needle@, k as int),
                None => first_occurrence_from(hay@, needle@, i as int) is None,
            },
        decreases i,
    {
        i = i - 1;
        if occurs_at_exec(hay, needle, i) {
            found = Some(i);
        }
    }
    found
}

proof fn lemma_until_query(s: Seq<char>, k: int)
    requires
        0 <= k <= s.len(),
        forall|j: int| 0 <= j < k ==> s[j] != '?' && s[j] != '#',
        k < s.len() ==> (s[k] == '?' || s[k] == '#'),
    ensures
        until_query(s) == k,
    decreases k,
{
    if k > 0 {
        lemma_until_query(s.drop_first(), k - 1);
    }
}

/// The share id of a share link (`…/s/{id}?…`).
pub fn share_id_of(link: &str) -> (r: Option<String>)
    ensures
        opt_seq(r) == share_id_spec(link@),
{
    let v = to_chars(link);
    let needle = to_chars("/s/");
    proof {
        reveal_strlit("/s/");
    }
    let st = match first_occurrence_exec(&v, &needle) {
        None => {
            return None;
        },
        Some(st) => st,
    };
    let vl = v.len();
    let nl = needle.len();
    assert(st + nl <= vl);
    let start = st + nl;
    let mut end = start;
    while end < v.len() && v[end] != '?' && v[end] != '#'
        invariant
            start <= end <= v.len(),
            forall|j: int| start <= j < end ==> v@[j] != '?' && v@[j] != '#',
        decreases v.len() - end,
    {
        end = end + 1;
    }
    let ghost rest = v@.skip(start as int);
    proof {
        assert forall|j: int| 0 <= j < end - start implies rest[j] != '?' && rest[j] != '#' by {
            assert(rest[j] == v@[start + j]);
        }
        if end < v.len() {
            assert(rest[end - start] == v@[end as int]);
        }
        lemma_until_query(rest, end - start);
    }
    if end == start {
        return None;
    }
    let id = from_char_range(&v, start, end);
    assert(id@ =~= rest.take(end - start));
    Some(id)
}

fn hex_run_exec(v: &[char], from: usize) -> (m: usize)
    requires
        from <= v.len(),
    ensures
        m == hex_run(v@, from as int),
        from + m <= v.len(),
{
    let mut k = v.len();
    let mut m: usize = 0;
    while k > from
        invariant
            from <= k <= v.len(),
            m == hex_run(v@, k as int),
            k + m <= v.len(),
        decreases k,
    {
        k = k - 1;
        let c = v[k];
        if ('a' <= c && c <= 'f') || ('0' <= c && c <= '9') {
            m = m + 1;
        } else {
            m = 0;
        }
    }
    m
}

fn slash_from_exec(v: &[char], from: usize) -> (r: Option<usize>)
    requires
        from <= v.len(),
    ensures
        match r {
            Some(k) => slash_from(v@, from as int) == Some(k as int) && k < v.len(),
            None => slash_from(v@, from as int) is None,
        },
{
    let mut k = v.len();
    let mut found: Option<usize> = None;
    while k > from
        invariant
            from <= k <= v.len(),
            match found {
                Some(x) => slash_from(v@, k as int) == Some(x as int) && x < v.len(),
                None => slash_from(v@, k as int) is None,
            },
        decreases k,
    {
        k = k - 1;
        if v[k] == '/' {
            found = Some(k);
        }
    }
    found
}

fn dir_match_at_exec(v: &[char], i: usize) -> (r: Option<String>)
    requires
        i <= v.len(),
    ensures
        opt_seq(r) == dir_match_at(v@, i as int),
{
    let prefix = to_chars("#/list/share/");
    proof {
        reveal_strlit("#/list/share/");
    }
    if !occurs_at_exec(v, &prefix, i) {
        return None;
    }
    let k = match slash_from_exec(v, i + 13) {
        None => {
            return None;
        },
        Some(k) => k,
    };
    let m = hex_run_exec(v, k + 1);
    if m > 0 && k + 1 + m < v.len() && v[k + 1 + m] == '-' {
        Some(from_char_range(v, k + 1, k + 1 + m))
    } else {
        None
    }
}

/// The directory fid of a share link, when it points into a sub-directory.
pub fn dir_fid_of(link: &str) -> (r: Option<String>)
    ensures
        opt_seq(r) == dir_fid_spec(link@),
{
    let v = to_chars(link);
    let mut i: usize = v.len();
    let mut found: Option<String> = dir_match_at_exec(&v, i);
    proof {
        assert(dir_match_from(v@, v@.len() as int) == dir_match_at(v@, v@.len() as int)) by {
            assert(dir_match_from(v@, v@.len() as int + 1) is None);
        }
    }
    while i > 0
        invariant
            i <= v.len(),
            opt_seq(found) == dir_match_from(v@, i as int),
        decreases i,
    {
        i = i - 1;
        let here = dir_match_at_exec(&v, i);
        if here.is_some() {
            found = here;
        }
    }
    found
}

/// Share id and directory fid of a share link.
pub fn extract_ids(share_link: &str) -> (r: (Option<String>, Option<String>))
    ensures
        opt_seq(r.0) == share_id_spec(share_link@),
        opt_seq(r.1) == dir_fid_spec(share_link@),
{
    (share_id_of(share_link), dir_fid_of(share_link))
}


// ---------------------------------------------------------------------------
// Session cookies
// ---------------------------------------------------------------------------

/// A UC share session: the share token, the CSRF token and the cookies sent along.
#[derive(Debug, Clone)]
pub struct UcSession {
    pub stoken: String,
    pub ctoken: String,
    pub cookies: String,
}

/// The `name=value` part of a `Set-Cookie` header: what comes before its first `;`.
pub open spec fn cookie_pair(header: Seq<char>) -> Seq<char> {
    match first_index(header, ';') {
        Some(k) => header.take(k),
        None => header,
    }
}

/// Cookies and CSRF token after one `Set-Cookie` header.  A header whose pair
/// has no `=` changes nothing; a `ctoken` cookie sets the CSRF token; a pair
/// with a non-empty name and value is appended (after `; `) unless the
/// cookies already hold `name=`.
pub open spec fn merge_one(cookies: Seq<char>, ctoken: Seq<char>, header: Seq<char>) -> (
    Seq<char>,
    Seq<char>,
) {
    let pair = cookie_pair(header);
    match first_index(pair, '=') {
        None => (cookies, ctoken),
        Some(k) => {
            let name = pair.take(k);
            let value = pair.skip(k + 1);
            let t = if name == "ctoken"@ {
                value
            } else {
                ctoken
            };
            let c = if name.len() > 0 && value.len() > 0 && !contains_seq(cookies, name + "="@) {
                (if cookies.len() > 0 {
                    cookies + "; "@
                } else {
                    cookies
                }) + pair
            } else {
                cookies
            };
            (c, t)
        },
    }
}

/// Cookies and CSRF token after the headers, taken in order.
pub open spec fn merge_all(cookies: Seq<char>, ctoken: Seq<char>, headers: Seq<String>) -> (
    Seq<char>,
    Seq<char>,
)
    decreases headers.len(),
{
    if headers.len() == 0 {
        (cookies, ctoken)
    } else {
        let prev = merge_all(cookies, ctoken, headers.drop_last());
        merge_one(prev.0, prev.1, headers.last()@)
    }
}

fn merge_one_exec(cookies: &mut String, ctoken: &mut String, header: &String)
    ensures
        (final(cookies)@, final(ctoken)@) == merge_one(old(cookies)@, old(ctoken)@, header@),
{
    let v = to_chars(header.as_str());
    let semi = find_char_from(&v, 0, v.len(), ';');
    let ghost pair = v@.take(semi as int);
    proof {
        lemma_first_index(v@, ';', semi as int);
        assert(cookie_pair(header@) == pair);
    }
    let eq = find_char_from(&v, 0, semi, '=');
    proof {
        assert forall|j: int| 0 <= j < eq implies pair[j] != '=' by {
            assert(pair[j] == v@[j]);
        }
        if eq < semi {
            assert(pair[eq as int] == v@[eq as int]);
        }
        lemma_first_index(pair, '=', eq as int);
    }
    if eq == semi {
        return;
    }
    let name = char_range(&v, 0, eq);
    let value = from_char_range(&v, eq + 1, semi);
    assert(name@ =~= pair.take(eq as int));
    assert(value@ =~= pair.skip(eq + 1));
    if chars_eq_str(&name, "ctoken") {
        *ctoken = value.clone();
    }
    if eq > 0 && semi > eq + 1 {
        let mut needle = from_chars(&name);
        push_char(&mut needle, '=');
        proof {
            reveal_strlit("=");
            assert(needle@ =~= name@ + "="@);
        }
        let cv = to_chars(cookies.as_str());
        let nv = to_chars(needle.as_str());
        if !contains_chars(&cv, &nv) {
            if cv.len() > 0 {
                push_all(cookies, "; ");
            }
            let pair_s = from_char_range(&v, 0, semi);
            assert(pair_s@ =~= pair);
            push_all(cookies, pair_s.as_str());
        }
    }
}

/// Merges the `Set-Cookie` headers of a response into the session's cookies
/// and CSRF token, in order.
pub fn merge_set_cookies(cookies: &mut String, ctoken: &mut String, set_cookies: &[String])
    ensures
        (final(cookies)@, final(ctoken)@) == merge_all(old(cookies)@, old(ctoken)@, set_cookies@),
{
    let ghost c0 = cookies@;
    let ghost t0 = ctoken@;
    let mut i: usize = 0;
    while i < set_cookies.len()
        invariant
            i <= set_cookies.len(),
            (cookies@, ctoken@) == merge_all(c0, t0, set_cookies@.take(i as int)),
        decreases set_cookies.len() - i,
    {
        merge_one_exec(cookies, ctoken, &set_cookies[i]);
        assert(set_cookies@.take(i + 1).drop_last() =~= set_cookies@.take(i as int));
        i = i + 1;
    }
    assert(set_cookies@.take(set_cookies.len() as int) =~= set_cookies@);
}


// ---------------------------------------------------------------------------
// Visiting the share page
// ---------------------------------------------------------------------------

/// What `url::Url::parse` gives for a text: the URL's serialisation, or the
/// message of the parse error.
pub uninterp spec fn parsed_url(text: Seq<char>) -> Result<Seq<char>, Seq<char>>;

/// What `url::Url::join` gives for a reference against the URL that
/// `url::Url::parse` reads from `base`: the serialisation, or the error's message.
pub uninterp spec fn joined_url(base: Seq<char>, reference: Seq<char>) -> Result<Seq<char>, Seq<char>>;

/// The characters of a result whose both sides are strings.
pub open spec fn text_result(r: Result<String, String>) -> Result<Seq<char>, Seq<char>> {
    match r {
        Ok(s) => Ok(s@),
        Err(e) => Err(e@),
    }
}

/// `url::Url::parse`, the URL given back as its serialisation.
#[verifier::external_body]
fn url_parse(text: &str) -> (r: Result<String, String>)
    ensures
        text_result(r) == parsed_url(text@),
{
    match url::Url::parse(text) {
        Ok(u) => Ok(String::from(u)),
        Err(e) => Err(e.to_string()),
    }
}

/// `url::Url::join` against the URL that `url::Url::parse` reads from `base`,
/// the result given back as its serialisation.
#[verifier::external_body]
fn url_join(base: &str, reference: &str) -> (r: Result<String, String>)
    ensures
        text_result(r) == joined_url(base@, reference@),
{
    match url::Url::parse(base) {
        Ok(u) => match u.join(reference) {
            Ok(joined) => Ok(String::from(joined)),
            Err(e) => Err(e.to_string()),
        },
        Err(e) => Err(e.to_string()),
    }
}

/// Requests made to the share page at most, redirects included.
pub const SHARE_PAGE_REQUESTS: u32 = 9;

/// A share link without its `#` fragment.
pub open spec fn before_fragment(link: Seq<char>) -> Seq<char> {
    match first_index(link, '#') {
        Some(k) => link.take(k),
        None => link,
    }
}

/// The share page being visited to obtain the CSRF token, redirects being
/// followed by hand so that no intermediate `Set-Cookie` is lost.
#[derive(Debug, Clone)]
pub struct CtokenFetch {
    /// The URL to request next.
    pub current: String,
    pub cookies: String,
    pub ctoken: String,
    /// Requests answered so far.
    pub requests: u32,
}

/// What follows an answer of the share page.
#[derive(Debug, Clone)]
pub enum CtokenStep {
    /// Request this URL (a redirect's target) next.
    Fetch(String),
    /// The visit is over: the session, without a share token yet.
    Done(UcSession),
    /// The visit failed with this message.
    Failed(String),
}

/// The string option's characters.
pub open spec fn opt_str(o: Option<&str>) -> Option<Seq<char>> {
    match o {
        Some(s) => Some(s@),
        None => None,
    }
}

pub open spec fn fetch_started(r: Result<CtokenFetch, String>, share_link: Seq<char>, cookie: Seq<char>) -> bool {
    match parsed_url(before_fragment(share_link)) {
        Ok(u) => match r {
            Ok(f) => f.current@ == u && f.cookies@ == cookie && f.ctoken@.len() == 0 && f.requests == 0,
            Err(_) => false,
        },
        Err(e) => match r {
            Ok(_) => false,
            Err(m) => m@ == e,
        },
    }
}

/// The step after an answer: done without a redirect; else the redirect's
/// target joined to the current URL, unless joining fails or the requests
/// are used up.
pub open spec fn ctoken_step_ok(
    step: CtokenStep,
    old_current: Seq<char>,
    new_current: Seq<char>,
    requests: u32,
    cookies: Seq<char>,
    ctoken: Seq<char>,
    location: Option<Seq<char>>,
) -> bool {
    match location {
        None => new_current == old_current && match step {
            CtokenStep::Done(s) => s.stoken@.len() == 0 && s.ctoken@ == ctoken && s.cookies@ == cookies,
            _ => false,
        },
        Some(loc) => match joined_url(old_current, loc) {
            Err(e) => new_current == old_current && match step {
                CtokenStep::Failed(m) => m@ == e,
                _ => false,
            },
            Ok(next) => if requests >= SHARE_PAGE_REQUESTS {
                new_current == old_current && match step {
                    CtokenStep::Failed(m) => m@ == "分享页重定向次数过多"@,
                    _ => false,
                }
            } else {
                new_current == next && match step {
                    CtokenStep::Fetch(u) => u@ == next,
                    _ => false,
                }
            },
        },
    }
}

impl CtokenFetch {
    /// Starts a visit of the share page (the link without its fragment) with
    /// the user's cookie, or fails with the URL parser's message.
    pub fn start(share_link: &str, cookie: &str) -> (r: Result<CtokenFetch, String>)
        ensures
            fetch_started(r, share_link@, cookie@),
    {
        let v = to_chars(share_link);
        let k = find_char_from(&v, 0, v.len(), '#');
        proof {
            lemma_first_index(v@, '#', k as int);
        }
        let first = from_char_range(&v, 0, k);
        assert(first@ =~= before_fragment(share_link@));
        match url_parse(first.as_str()) {
            Ok(u) => Ok(CtokenFetch {
                current: u,
                cookies: cookie.to_owned(),
                ctoken: String::new(),
                requests: 0,
            }),
            Err(e) => Err(e),
        }
    }

    /// Takes in an answer of the share page: its `Set-Cookie` headers and,
    /// when it is a redirect, its `Location`.
    pub fn on_response(&mut self, set_cookies: &[String], location: Option<&str>) -> (step: CtokenStep)
        requires
            old(self).requests < SHARE_PAGE_REQUESTS,
        ensures
            (final(self).cookies@, final(self).ctoken@) == merge_all(
                old(self).cookies@,
                old(self).ctoken@,
                set_cookies@,
            ),
            final(self).requests == old(self).requests + 1,
            ctoken_step_ok(
                step,
                old(self).current@,
                final(self).current@,
                final(self).requests,
                final(self).cookies@,
                final(self).ctoken@,
                opt_str(location),
            ),
    {
        merge_set_cookies(&mut self.cookies, &mut self.ctoken, set_cookies);
        self.requests = self.requests + 1;
        match location {
            None => CtokenStep::Done(
                UcSession { stoken: String::new(), ctoken: self.ctoken.clone(), cookies: self.cookies.clone() },
            ),
            Some(loc) => match url_join(self.current.as_str(), loc) {
                Err(e) => CtokenStep::Failed(e),
                Ok(next) => {
                    if self.requests >= SHARE_PAGE_REQUESTS {
                        CtokenStep::Failed("分享页重定向次数过多".to_owned())
                    } else {
                        self.current = next.clone();
                        CtokenStep::Fetch(next)
                    }
                },
            },
        }
    }
}


// ---------------------------------------------------------------------------
// Share listings
// ---------------------------------------------------------------------------

/// One entry of a share listing as UC sends it: each field as far as it is
/// present with the expected JSON type (`size` read as an integer).
#[derive(Debug, Clone)]
pub struct UcItem {
    pub fid: Option<String>,
    pub file_name: Option<String>,
    pub size: Option<i64>,
    pub file: Option<bool>,
    pub format_type: Option<String>,
    pub share_fid_token: Option<String>,
}

/// The value of a [`UcItem`].
pub struct UcItemView {
    pub fid: Option<Seq<char>>,
    pub file_name: Option<Seq<char>>,
    pub size: Option<i64>,
    pub file: Option<bool>,
    pub format_type: Option<Seq<char>>,
    pub share_fid_token: Option<Seq<char>>,
}

/// The value of a [`UcFileDto`].
pub struct UcFileView {
    pub fid: Seq<char>,
    pub name: Seq<char>,
    pub size: i64,
    pub file: bool,
    pub format_type: Seq<char>,
    pub share_fid_token: Seq<char>,
}

impl View for UcItem {
    type V = UcItemView;

    open spec fn view(&self) -> UcItemView {
        UcItemView {
            fid: opt_seq(self.fid),
            file_name: opt_seq(self.file_name),
            size: self.size,
            file: self.file,
            format_type: opt_seq(self.format_type),
            share_fid_token: opt_seq(self.share_fid_token),
        }
    }
}

impl View for UcFileDto {
    type V = UcFileView;

    open spec fn view(&self) -> UcFileView {
        UcFileView {
            fid: self.fid@,
            name: self.name@,
            size: self.size,
            file: self.file,
            format_type: self.format_type@,
            share_fid_token: self.share_fid_token@,
        }
    }
}

pub open spec fn or_empty(o: Option<Seq<char>>) -> Seq<char> {
    match o {
        Some(s) => s,
        None => Seq::empty(),
    }
}

/// A listing entry as the front end sees it: absent text is empty, an absent
/// size 0, an absent `file` flag false.
pub open spec fn normalize_spec(item: UcItemView) -> UcFileView {
    UcFileView {
        fid: or_empty(item.fid),
        name: or_empty(item.file_name),
        size: match item.size {
            Some(n) => n,
            None => 0,
        },
        file: match item.file {
            Some(b) => b,
            None => false,
        },
        format_type: or_empty(item.format_type),
        share_fid_token: or_empty(item.share_fid_token),
    }
}

/// The views of a sequence of entries.
pub open spec fn item_views(items: Seq<UcItem>) -> Seq<UcItemView> {
    items.map_values(|i: UcItem| i@)
}

/// The views of a sequence of files.
pub open spec fn file_views(files: Seq<UcFileDto>) -> Seq<UcFileView> {
    files.map_values(|f: UcFileDto| f@)
}

fn text_or_empty(o: &Option<String>) -> (s: String)
    ensures
        s@ == or_empty(opt_seq(*o)),
{
    match o {
        Some(t) => t.clone(),
        None => String::new(),
    }
}

/// A listing entry as the front end sees it.
pub fn normalize_item(item: &UcItem) -> (f: UcFileDto)
    ensures
        f@ == normalize_spec(item@),
{
    UcFileDto {
        fid: text_or_empty(&item.fid),
        name: text_or_empty(&item.file_name),
        size: match item.size {
            Some(n) => n,
            None => 0,
        },
        file: match item.file {
            Some(b) => b,
            None => false,
        },
        format_type: text_or_empty(&item.format_type),
        share_fid_token: text_or_empty(&item.share_fid_token),
    }
}

/// All entries of a listing as the front end sees them, in order.
pub fn normalize_items(items: &Vec<UcItem>) -> (out: Vec<UcFileDto>)
    ensures
        file_views(out@) == item_views(items@).map_values(|v: UcItemView| normalize_spec(v)),
{
    let mut out: Vec<UcFileDto> = Vec::new();
    let mut i: usize = 0;
    while i < items.len()
        invariant
            i <= items.len(),
            file_views(out@) == item_views(items@.take(i as int)).map_values(
                |v: UcItemView| normalize_spec(v),
            ),
        decreases items.len() - i,
    {
        let ghost before = out@;
        let f = normalize_item(&items[i]);
        out.push(f);
        proof {
            assert(out@ == before.push(f));
            assert(file_views(out@) =~= file_views(before).push(f@));
            assert(items@.take(i + 1) =~= items@.take(i as int).push(items@[i as int]));
            assert(item_views(items@.take(i + 1)) =~= item_views(items@.take(i as int)).push(
                items@[i as int]@,
            ));
        }
        i = i + 1;
        assert(file_views(out@) =~= item_views(items@.take(i as int)).map_values(
            |v: UcItemView| normalize_spec(v),
        ));
    }
    assert(items@.take(items.len() as int) =~= items@);
    out
}

/// At most the first `n` characters of `s`.
pub open spec fn first_chars(s: Seq<char>, n: nat) -> Seq<char> {
    if s.len() <= n {
        s
    } else {
        s.take(n as int)
    }
}

/// At most the first `n` characters of `text`.
pub fn first_chars_of(text: &str, n: usize) -> (r: String)
    ensures
        r@ == first_chars(text@, n as nat),
{
    let v = to_chars(text);
    let end = if v.len() <= n {
        v.len()
    } else {
        n
    };
    let r = from_char_range(&v, 0, end);
    assert(r@ =~= first_chars(text@, n as nat));
    r
}

/// Characters of a JSON answer quoted in an error message.
pub const PREVIEW_CHARS: usize = 200;

/// The outcome of asking for a share token: the token when the answer holds
/// `data.token_info.stoken`, else an error quoting the answer's first two
/// hundred characters.
pub fn stoken_outcome(stoken: Option<String>, answer: &str) -> (r: Result<String, String>)
    ensures
        match stoken {
            Some(t) => r == Ok::<String, String>(t),
            None => match r {
                Ok(_) => false,
                Err(m) => m@ == "获取 stoken 失败: "@ + first_chars(answer@, 200),
            },
        },
{
    match stoken {
        Some(t) => Ok(t),
        None => {
            let mut m = "获取 stoken 失败: ".to_owned();
            let p = first_chars_of(answer, PREVIEW_CHARS);
            push_all(&mut m, p.as_str());
            Err(m)
        },
    }
}

/// The outcome of asking for a direct link: the `download_url` of the
/// answer's first `data` entry when there is one, else an error quoting the
/// answer's first two hundred characters.
pub fn download_url_outcome(url: Option<String>, answer: &str) -> (r: Result<String, String>)
    ensures
        match url {
            Some(u) => r == Ok::<String, String>(u),
            None => match r {
                Ok(_) => false,
                Err(m) => m@ == "获取下载链接失败: "@ + first_chars(answer@, 200),
            },
        },
{
    match url {
        Some(u) => Ok(u),
        None => {
            let mut m = "获取下载链接失败: ".to_owned();
            let p = first_chars_of(answer, PREVIEW_CHARS);
            push_all(&mut m, p.as_str());
            Err(m)
        },
    }
}


// ---------------------------------------------------------------------------
// Paging through a directory of a share
// ---------------------------------------------------------------------------

/// The listing request of one page of a share directory.
pub open spec fn list_url_spec(share_id: Seq<char>, stoken: Seq<char>, pdir_fid: Option<Seq<char>>, page: nat) -> Seq<char> {
    let base = UC_API@ + "/share/sharepage/detail?pr=UCBrowser&fr=pc&pwd_id="@ + encode_bytes(
        encode_utf8(share_id),
    ) + "&stoken="@ + encode_bytes(encode_utf8(stoken)) + "&force=0&_page="@ + decimal(page)
        + "&_size=50&_fetch_banner=0&_fetch_share=0&_fetch_total=1&_sort=file_type:asc,file_name:asc"@;
    match pdir_fid {
        Some(f) => base + "&pdir_fid="@ + encode_bytes(encode_utf8(f)),
        None => base,
    }
}

/// Every page of a listing asks for the same share, token and directory:
/// the requests of two pages differ only in the `_page` value, and when a
/// directory `f` is listed, every page's request ends with `&pdir_fid=`
/// and the URI encoding of `f`.
pub proof fn law_listing_pages_same_directory(
    share_id: Seq<char>,
    stoken: Seq<char>,
    pdir_fid: Option<Seq<char>>,
    p: nat,
    q: nat,
)
    ensures
        exists|a: Seq<char>, b: Seq<char>|
            #![trigger a + decimal(p) + b, a + decimal(q) + b]
            list_url_spec(share_id, stoken, pdir_fid, p) == a + decimal(p) + b && list_url_spec(
                share_id,
                stoken,
                pdir_fid,
                q,
            ) == a + decimal(q) + b,
        pdir_fid matches Some(f) ==> ({
            let tail = "&pdir_fid="@ + encode_bytes(encode_utf8(f));
            let u = list_url_spec(share_id, stoken, pdir_fid, p);
            u.len() >= tail.len() && u.skip(u.len() - tail.len()) == tail
        }),
{
    let a = UC_API@ + "/share/sharepage/detail?pr=UCBrowser&fr=pc&pwd_id="@ + encode_bytes(
        encode_utf8(share_id),
    ) + "&stoken="@ + encode_bytes(encode_utf8(stoken)) + "&force=0&_page="@;
    let mid = "&_size=50&_fetch_banner=0&_fetch_share=0&_fetch_total=1&_sort=file_type:asc,file_name:asc"@;
    let b = match pdir_fid {
        Some(f) => mid + "&pdir_fid="@ + encode_bytes(encode_utf8(f)),
        None => mid,
    };
    assert(list_url_spec(share_id, stoken, pdir_fid, p) =~= a + decimal(p) + b);
    assert(list_url_spec(share_id, stoken, pdir_fid, q) =~= a + decimal(q) + b);
    if let Some(f) = pdir_fid {
        let tail = "&pdir_fid="@ + encode_bytes(encode_utf8(f));
        let u = list_url_spec(share_id, stoken, pdir_fid, p);
        assert(u =~= (a + decimal(p) + mid) + tail);
        assert(u.skip(u.len() - tail.len()) =~= tail);
    }
}

/// A directory of a share being listed page by page until a short page.
#[derive(Debug, Clone)]
pub struct ListPager {
    pub share_id: String,
    pub stoken: String,
    pub pdir_fid: Option<String>,
    /// The page to request next, from 1.
    pub page: u64,
    /// The entries of the pages received so far, in order.
    pub items: Vec<UcItem>,
}

/// What follows a page of a listing.
#[derive(Debug, Clone, Copy, PartialEq, Eq, Structural)]
pub enum PageStep {
    /// Request [`ListPager::page_url`] next.
    Next,
    /// The listing is complete: [`ListPager::items`].
    Done,
}

impl ListPager {
    /// A listing of the share's directory `pdir_fid` (its root when `None`), from page 1.
    pub fn new(share_id: &str, stoken: &str, pdir_fid: Option<&str>) -> (p: ListPager)
        ensures
            p.share_id@ == share_id@,
            p.stoken@ == stoken@,
            opt_seq(p.pdir_fid) == opt_str(pdir_fid),
            p.page == 1,
            p.items@.len() == 0,
    {
        ListPager {
            share_id: share_id.to_owned(),
            stoken: stoken.to_owned(),
            pdir_fid: match pdir_fid {
                Some(f) => Some(f.to_owned()),
                None => None,
            },
            page: 1,
            items: Vec::new(),
        }
    }

    /// The request of the current page.
    pub fn page_url(&self) -> (u: String)
        ensures
            u@ == list_url_spec(self.share_id@, self.stoken@, opt_seq(self.pdir_fid), self.page as nat),
    {
        let mut u = UC_API.to_owned();
        push_all(&mut u, "/share/sharepage/detail?pr=UCBrowser&fr=pc&pwd_id=");
        let a = encode_uri_component(self.share_id.as_str());
        push_all(&mut u, a.as_str());
        push_all(&mut u, "&stoken=");
        let b = encode_uri_component(self.stoken.as_str());
        push_all(&mut u, b.as_str());
        push_all(&mut u, "&force=0&_page=");
        push_decimal(&mut u, self.page);
        push_all(
            &mut u,
            "&_size=50&_fetch_banner=0&_fetch_share=0&_fetch_total=1&_sort=file_type:asc,file_name:asc",
        );
        match &self.pdir_fid {
            Some(f) => {
                push_all(&mut u, "&pdir_fid=");
                let c = encode_uri_component(f.as_str());
                push_all(&mut u, c.as_str());
            },
            None => {},
        }
        u
    }

    /// Takes in the answer to the current page: its `data.list` when it has
    /// one, and the answer's text.  An answer without a list fails the
    /// listing when no entry came before and ends it otherwise; a full page
    /// asks for the next one.
    pub fn on_page(&mut self, list: Option<Vec<UcItem>>, answer: &str) -> (r: Result<PageStep, String>)
        requires
            old(self).page < u64::MAX,
        ensures
            final(self).share_id == old(self).share_id,
            final(self).stoken == old(self).stoken,
            final(self).pdir_fid == old(self).pdir_fid,
            match list {
                None => final(self).items@ == old(self).items@ && final(self).page == old(self).page
                    && if old(self).items@.len() == 0 {
                    match r {
                        Ok(_) => false,
                        Err(m) => m@ == "获取文件列表失败: "@ + first_chars(answer@, 200),
                    }
                } else {
                    r == Ok::<PageStep, String>(PageStep::Done)
                },
                Some(l) => final(self).items@ == old(self).items@ + l@ && if l@.len() < PAGE_SIZE {
                    r == Ok::<PageStep, String>(PageStep::Done) && final(self).page == old(self).page
                } else {
                    r == Ok::<PageStep, String>(PageStep::Next) && final(self).page == old(self).page + 1
                },
            },
    {
        match list {
            None => {
                if self.items.len() == 0 {
                    let mut m = "获取文件列表失败: ".to_owned();
                    let p = first_chars_of(answer, PREVIEW_CHARS);
                    push_all(&mut m, p.as_str());
                    Err(m)
                } else {
                    Ok(PageStep::Done)
                }
            },
            Some(l) => {
                let n = l.len();
                let mut l = l;
                self.items.append(&mut l);
                if n < PAGE_SIZE {
                    Ok(PageStep::Done)
                } else {
                    self.page = self.page + 1;
                    Ok(PageStep::Next)
                }
            },
        }
    }
}

// ---------------------------------------------------------------------------
// Walking a whole share
// ---------------------------------------------------------------------------

/// The files of a listing, as the front end sees them, in order.
pub open spec fn listed_files(items: Seq<UcItemView>) -> Seq<UcFileView>
    decreases items.len(),
{
    if items.len() == 0 {
        Seq::empty()
    } else {
        let last = items.last();
        listed_files(items.drop_last()) + if last.file == Some(true) {
            seq![normalize_spec(last)]
        } else {
            Seq::empty()
        }
    }
}

/// The sub-directories of a listing that are walked next, in order: the
/// entries that are not files and have a fid.
pub open spec fn listed_dirs(items: Seq<UcItemView>) -> Seq<Option<Seq<char>>>
    decreases items.len(),
{
    if items.len() == 0 {
        Seq::empty()
    } else {
        let last = items.last();
        listed_dirs(items.drop_last()) + if last.file != Some(true) && last.fid is Some {
            seq![last.fid]
        } else {
            Seq::empty()
        }
    }
}

/// The directories of a share waiting to be listed.
pub open spec fn dir_views(dirs: Seq<Option<String>>) -> Seq<Option<Seq<char>>> {
    dirs.map_values(|d: Option<String>| opt_seq(d))
}

/// A depth-first walk over a share that collects every file: directories
/// wait on a stack, the last one found is listed first.
#[derive(Debug, Clone)]
pub struct ShareWalk {
    /// Directories still to list (`None` is the share's root).
    pub pending: Vec<Option<String>>,
    /// Files found so far, in the order found.
    pub files: Vec<UcFileDto>,
}

impl ShareWalk {
    /// A walk from the directory `pdir_fid` (the share's root when `None`).
    pub fn new(pdir_fid: Option<String>) -> (w: ShareWalk)
        ensures
            dir_views(w.pending@) == seq![opt_seq(pdir_fid)],
            w.files@.len() == 0,
    {
        let mut pending: Vec<Option<String>> = Vec::new();
        pending.push(pdir_fid);
        assert(dir_views(pending@) =~= seq![opt_seq(pdir_fid)]);
        ShareWalk { pending, files: Vec::new() }
    }

    /// The directory to list next, taken off the stack; `None` when the walk is over.
    pub fn next_dir(&mut self) -> (d: Option<Option<String>>)
        ensures
            final(self).files == old(self).files,
            old(self).pending@.len() == 0 ==> d is None && final(self).pending@ == old(self).pending@,
            old(self).pending@.len() > 0 ==> d == Some(old(self).pending@.last())
                && final(self).pending@ == old(self).pending@.drop_last(),
    {
        self.pending.pop()
    }

    /// Takes in the listing of a directory: its files are collected and its
    /// sub-directories pushed on the stack.
    pub fn on_listing(&mut self, items: &Vec<UcItem>)
        ensures
            file_views(final(self).files@) == file_views(old(self).files@) + listed_files(
                item_views(items@),
            ),
            dir_views(final(self).pending@) == dir_views(old(self).pending@) + listed_dirs(
                item_views(items@),
            ),
    {
        let ghost f0 = self.files@;
        let ghost p0 = self.pending@;
        let mut i: usize = 0;
        while i < items.len()
            invariant
                i <= items.len(),
                file_views(self.files@) == file_views(f0) + listed_files(item_views(items@.take(i as int))),
                dir_views(self.pending@) == dir_views(p0) + listed_dirs(item_views(items@.take(i as int))),
            decreases items.len() - i,
        {
            let item = &items[i];
            let ghost fb = self.files@;
            let ghost pb = self.pending@;
            proof {
                assert(items@.take(i + 1) =~= items@.take(i as int).push(items@[i as int]));
                assert(item_views(items@.take(i + 1)) =~= item_views(items@.take(i as int)).push(
                    items@[i as int]@,
                ));
                assert(item_views(items@.take(i + 1)).drop_last() =~= item_views(items@.take(i as int)));
            }
            let is_file = match item.file {
                Some(b) => b,
                None => false,
            };
            if is_file {
                let f = normalize_item(item);
                self.files.push(f);
                assert(file_views(self.files@) =~= file_views(fb).push(f@));
                assert(dir_views(self.pending@) =~= dir_views(pb));
            } else {
                match &item.fid {
                    Some(fid) => {
                        self.pending.push(Some(fid.clone()));
                        assert(dir_views(self.pending@) =~= dir_views(pb).push(item@.fid));
                    },
                    None => {
                        assert(dir_views(self.pending@) =~= dir_views(pb));
                    },
                }
                assert(file_views(self.files@) =~= file_views(fb));
            }
            i = i + 1;
            assert(file_views(self.files@) =~= file_views(f0) + listed_files(
                item_views(items@.take(i as int)),
            ));
            assert(dir_views(self.pending@) =~= dir_views(p0) + listed_dirs(
                item_views(items@.take(i as int)),
            ));
        }
        assert(items@.take(items.len() as int) =~= items@);
    }
}


// ---------------------------------------------------------------------------
// Parsing a share link
// ---------------------------------------------------------------------------

/// A parsed share: the files of the linked directory and the session that
/// lists it.
#[derive(Debug, Clone)]
pub struct UcParseResult {
    pub platform: String,
    pub share_id: String,
    pub pdir_fid: Option<String>,
    pub files: Vec<UcFileDto>,
    pub session: UcSession,
    pub share_link: String,
}

/// The share id and directory fid of a share link, or the error given when
/// the link names no share.
pub fn share_target(share_link: &str) -> (r: Result<(String, Option<String>), String>)
    ensures
        match share_id_spec(share_link@) {
            None => match r {
                Ok(_) => false,
                Err(m) => m@ == "无法提取 share_id，请检查链接格式"@,
            },
            Some(id) => match r {
                Ok(t) => t.0@ == id && opt_seq(t.1) == dir_fid_spec(share_link@),
                Err(_) => false,
            },
        },
{
    let (share_id, pdir_fid) = extract_ids(share_link);
    match share_id {
        None => Err("无法提取 share_id，请检查链接格式".to_owned()),
        Some(id) => Ok((id, pdir_fid)),
    }
}

/// The result of parsing a share once its directory was listed: an error when
/// the directory is empty.
pub fn parse_result(
    share_link: &str,
    share_id: String,
    pdir_fid: Option<String>,
    session: UcSession,
    items: &Vec<UcItem>,
) -> (r: Result<UcParseResult, String>)
    ensures
        items@.len() == 0 ==> match r {
            Ok(_) => false,
            Err(m) => m@ == "未找到文件"@,
        },
        items@.len() > 0 ==> match r {
            Ok(p) => p.platform@ == "uc"@ && p.share_id == share_id && p.pdir_fid == pdir_fid
                && p.session == session && p.share_link@ == share_link@ && file_views(p.files@)
                == item_views(items@).map_values(|v: UcItemView| normalize_spec(v)),
            Err(_) => false,
        },
{
    if items.len() == 0 {
        return Err("未找到文件".to_owned());
    }
    Ok(UcParseResult {
        platform: "uc".to_owned(),
        share_id,
        pdir_fid,
        files: normalize_items(items),
        session,
        share_link: share_link.to_owned(),
    })
}

/// The cookie a parse uses: the one supplied with the request, else the saved one.
pub fn choose_cookie(supplied: &str, saved: String) -> (c: String)
    ensures
        c@ == (if supplied@.len() == 0 {
            saved@
        } else {
            supplied@
        }),
{
    if supplied.is_empty() {
        saved
    } else {
        supplied.to_owned()
    }
}

/// A parse request must carry a share link.
pub fn require_share_link(share_link: Option<&str>) -> (r: Result<String, ApiError>)
    ensures
        match share_link {
            Some(l) => match r {
                Ok(s) => s@ == l@,
                Err(_) => false,
            },
            None => is_error(r, 400, "缺少分享链接"@),
        },
{
    match share_link {
        Some(l) => Ok(l.to_owned()),
        None => Err(ApiError::bad_request("缺少分享链接")),
    }
}

/// A folder listing needs the share id and the share token.
pub fn check_folder_params(share_id: &str, stoken: &str) -> (r: Result<(), ApiError>)
    ensures
        share_id@.len() == 0 || stoken@.len() == 0 ==> is_error(r, 400, "缺少目录参数"@),
        share_id@.len() > 0 && stoken@.len() > 0 ==> r is Ok,
{
    if share_id.is_empty() || stoken.is_empty() {
        Err(ApiError::bad_request("缺少目录参数"))
    } else {
        Ok(())
    }
}

// ---------------------------------------------------------------------------
// Probing a direct link
// ---------------------------------------------------------------------------

/// How a probe of a direct link (its first 4 KiB) turned out.
#[derive(Debug, Clone)]
pub struct ProbeResult {
    pub ok: bool,
    /// `ok`, `cookie_expired`, `url_invalid`, `http` or `network`.
    pub kind: &'static str,
    pub detail: Option<String>,
}

/// The body says that the cookie no longer logs in.
pub open spec fn says_login_gone(low: Seq<char>) -> bool {
    contains_seq(low, "require login"@) || contains_seq(low, "auth expired"@) || contains_seq(
        low,
        "auth not found"@,
    ) || contains_seq(low, "not logged"@) || contains_seq(low, "login required"@)
}

/// The body says that the link's signature is refused or stale.
pub open spec fn says_link_refused(low: Seq<char>) -> bool {
    contains_seq(low, "signaturedoesnotmatch"@) || contains_seq(low, "accessdenied"@)
        || contains_seq(low, "request has expired"@) || contains_seq(low, "expired"@)
}

/// The kind of a probe answered with `status` and `body`: 200 and 206 are
/// fine; a 403 whose lower-cased body speaks of login is an expired cookie,
/// one that speaks of signatures or expiry an invalid link; anything else is
/// an HTTP failure.
pub open spec fn probe_kind_spec(status: u16, body: Seq<char>) -> Seq<char> {
    if status == 200 || status == 206 {
        "ok"@
    } else if status == 403 && says_login_gone(lower_text(body)) {
        "cookie_expired"@
    } else if status == 403 && says_link_refused(lower_text(body)) {
        "url_invalid"@
    } else {
        "http"@
    }
}

/// The detail of a probe: none when fine, the body's first 120 characters
/// for a refused cookie or link, else `HTTP {status}`.
pub open spec fn probe_detail_spec(status: u16, body: Seq<char>) -> Option<Seq<char>> {
    let kind = probe_kind_spec(status, body);
    if kind == "ok"@ {
        None
    } else if kind == "http"@ {
        Some("HTTP "@ + decimal(status as nat))
    } else {
        Some(first_chars(body, 120))
    }
}

/// Classifies the answer to a probe of a direct link.
pub fn classify_probe(status: u16, body: &str) -> (p: ProbeResult)
    ensures
        p.kind@ == probe_kind_spec(status, body@),
        p.ok == (p.kind@ == "ok"@),
        opt_seq(p.detail) == probe_detail_spec(status, body@),
{
    proof {
        reveal_strlit("ok");
        reveal_strlit("http");
        reveal_strlit("cookie_expired");
        reveal_strlit("url_invalid");
    }
    if status == 200 || status == 206 {
        return ProbeResult { ok: true, kind: "ok", detail: None };
    }
    let low = to_lowercase(body);
    assert(low@ == lower_text(body@));
    let lv = to_chars(low.as_str());
    let login_gone = str_contains(&lv, "require login") || str_contains(&lv, "auth expired")
        || str_contains(&lv, "auth not found") || str_contains(&lv, "not logged") || str_contains(
        &lv,
        "login required",
    );
    if status == 403 && login_gone {
        return ProbeResult { ok: false, kind: "cookie_expired", detail: Some(first_chars_of(body, 120)) };
    }
    let refused = str_contains(&lv, "signaturedoesnotmatch") || str_contains(&lv, "accessdenied")
        || str_contains(&lv, "request has expired") || str_contains(&lv, "expired");
    if status == 403 && refused {
        return ProbeResult { ok: false, kind: "url_invalid", detail: Some(first_chars_of(body, 120)) };
    }
    let mut d = "HTTP ".to_owned();
    push_decimal(&mut d, status as u64);
    ProbeResult { ok: false, kind: "http", detail: Some(d) }
}

/// The probe of a link that could not be reached at all.
pub fn network_probe() -> (p: ProbeResult)
    ensures
        p.kind@ == "network"@,
        !p.ok,
        p.detail is None,
{
    ProbeResult { ok: false, kind: "network", detail: None }
}

// ---------------------------------------------------------------------------
// Downloading a file of a share
// ---------------------------------------------------------------------------

/// A download request must name the share and the file.
pub fn check_download_params(share_id: &str, fid: &str) -> (r: Result<(), ApiError>)
    ensures
        share_id@.len() == 0 || fid@.len() == 0 ==> is_error(r, 400, "缺少下载参数"@),
        share_id@.len() > 0 && fid@.len() > 0 ==> r is Ok,
{
    if share_id.is_empty() || fid.is_empty() {
        Err(ApiError::bad_request("缺少下载参数"))
    } else {
        Ok(())
    }
}

/// The answer to a download whose direct link was probed: an expired cookie
/// is refused with 403, an invalid link with 502; any other outcome lets the
/// download go ahead.
pub fn probe_gate(kind: &str) -> (r: Result<(), ApiError>)
    ensures
        kind@ == "cookie_expired"@ ==> is_kind_error(
            r,
            403,
            "UC Cookie 已失效，请在设置中更新后重试"@,
            "cookie_expired"@,
        ),
        kind@ == "url_invalid"@ ==> is_kind_error(r, 502, "直链校验失败（签名无效），请重试"@, "url_invalid"@),
        kind@ != "cookie_expired"@ && kind@ != "url_invalid"@ ==> r is Ok,
{
    proof {
        reveal_strlit("cookie_expired");
        reveal_strlit("url_invalid");
        assert("cookie_expired"@.len() != "url_invalid"@.len());
    }
    if str_eq(kind, "cookie_expired") {
        Err(ApiError::with_kind(403, "UC Cookie 已失效，请在设置中更新后重试", "cookie_expired"))
    } else if str_eq(kind, "url_invalid") {
        Err(ApiError::with_kind(502, "直链校验失败（签名无效），请重试", "url_invalid"))
    } else {
        Ok(())
    }
}

} // verus!
