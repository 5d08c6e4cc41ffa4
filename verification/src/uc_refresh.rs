//! Refreshing the direct link of a UC download whose link went stale.
//!
//! The refresh alternates HTTP requests (UC share page, UC API, link probe,
//! gopeed) with decisions.  [`UcRefresh`] holds the decisions: the caller
//! performs each [`RefreshAction`] and reports its outcome as a
//! [`RefreshEvent`].  A refresh is refused after five attempts and within
//! thirty seconds of the previous one; every attempt, failed or not, is
//! counted and time-stamped.
use vstd::prelude::*;

use crate::models::UcFileDto;
use crate::text::{chars_eq_str, push_all, to_chars};

verus! {

/// At most this many refresh attempts per task.
pub const MAX_REFRESH_ATTEMPTS: i64 = 5;

/// Milliseconds that must pass between two refresh attempts of a task.
pub const REFRESH_INTERVAL_MS: i64 = 30000;

/// The `uc` part of a task's metadata, with absent fields read as empty or 0.
#[derive(Debug, Clone)]
pub struct UcMeta {
    pub share_id: String,
    pub stoken: String,
    pub fid: String,
    pub share_fid_token: String,
    pub share_link: String,
    pub filename: String,
    pub retry_count: i64,
    pub last_refresh_at: i64,
}

/// Where a refresh stands: the outcome it waits for.
#[derive(Debug, Clone, Copy, PartialEq, Eq, Structural)]
pub enum RefreshPhase {
    Session,
    DirectUrl,
    Stoken,
    Files,
    NewUrl,
    Probe,
    Remove,
    Create,
    Over,
}

/// The outcome of the action that the refresh waited for.
#[derive(Debug)]
pub enum RefreshEvent {
    /// The share page was visited: `(ctoken, cookies)`, or an error message.
    Session(Result<(String, String), String>),
    /// A direct link was asked for.
    Url(Result<String, String>),
    /// A fresh share token was asked for.
    Stoken(Result<String, String>),
    /// The share was listed recursively.
    Files(Result<Vec<UcFileDto>, String>),
    /// The new link was probed: `ok`, `cookie_expired`, `url_invalid`, `http` or `network`.
    Probed(String),
    /// The old gopeed task was removed (whatever the answer).
    Removed,
    /// A gopeed task was created: its id, or an error message.
    Created(Result<String, String>),
}

/// What the caller does next.
#[derive(Debug, Clone)]
pub enum RefreshAction {
    /// Nothing more; `handled` is what the refresh reports to the sync round.
    Stop { handled: bool },
    /// Mark the task `cookie_expired` with this message.  The refresh is over and handled.
    MarkCookieExpired { error: String },
    /// Visit the share page with this cookie.
    FetchSession { share_link: String, cookie: String },
    /// Ask UC for the direct link of a file.
    FetchDirectUrl {
        share_id: String,
        stoken: String,
        fid: String,
        share_fid_token: String,
        ctoken: String,
        cookies: String,
    },
    /// Ask UC for a fresh share token.
    FetchStoken { share_id: String, ctoken: String, cookies: String },
    /// List all files of the share.
    FetchFiles { share_id: String, stoken: String, ctoken: String, cookies: String },
    /// Probe the new link with the session's cookies.
    Probe { url: String, cookies: String },
    /// Record this error on the task.  The refresh is over and not handled.
    MarkSignatureInvalid { error: String },
    /// Remove the old gopeed task, keeping its files.
    RemoveOld { gopeed_id: String },
    /// Create a gopeed task for the new link into the task's directory.
    CreateTask { url: String, cookies: String, ctoken: String, path: String, name: Option<String> },
    /// Record the failure and the new counters.  The refresh is over and not handled.
    RecordFailure { error: String, retry_count: i64, last_refresh_at: i64 },
    /// Switch the task to the new gopeed task and link.  The refresh is over and handled.
    Commit {
        gopeed_id: String,
        url: String,
        stoken: String,
        share_fid_token: String,
        retry_count: i64,
        last_refresh_at: i64,
    },
}

/// A refresh under way for one task.
#[derive(Debug, Clone)]
pub struct UcRefresh {
    pub phase: RefreshPhase,
    pub meta: UcMeta,
    pub gopeed_id: String,
    pub target_dir: String,
    pub ctoken: String,
    pub cookies: String,
    pub stoken: String,
    pub share_fid_token: String,
    pub url: String,
}

/// A refresh may start: the task names a share and a file, has attempts left,
/// and its last attempt is at least thirty seconds old.
pub open spec fn may_refresh(meta: UcMeta, now: i64) -> bool {
    &&& meta.share_id@.len() > 0
    &&& meta.fid@.len() > 0
    &&& meta.retry_count < MAX_REFRESH_ATTEMPTS
    &&& now - meta.last_refresh_at >= REFRESH_INTERVAL_MS
}

/// The share page of the task: its recorded link, else the canonical one.
pub open spec fn share_link_spec(meta: UcMeta) -> Seq<char> {
    if meta.share_link@.len() > 0 {
        meta.share_link@
    } else {
        "https://drive.uc.cn/s/"@ + meta.share_id@
    }
}

/// How a refresh starts.
pub open spec fn start_spec(
    meta: Option<UcMeta>,
    now: i64,
    cookie: Seq<char>,
    gopeed_id: Seq<char>,
    target_dir: Seq<char>,
    machine: Option<UcRefresh>,
    a: RefreshAction,
) -> bool {
    let stop = match a {
        RefreshAction::Stop { handled } => !handled,
        _ => false,
    };
    match meta {
        None => machine is None && stop,
        Some(m) => if !may_refresh(m, now) {
            machine is None && stop
        } else if cookie.len() == 0 {
            &&& machine is None
            &&& match a {
                RefreshAction::MarkCookieExpired { error } => error@
                    == "需要 UC Cookie 才能刷新下载链接"@,
                _ => false,
            }
        } else {
            &&& match machine {
                Some(x) => x.wf() && x.phase == RefreshPhase::Session && x.meta == m
                    && x.gopeed_id@ == gopeed_id && x.target_dir@ == target_dir,
                None => false,
            }
            &&& match a {
                RefreshAction::FetchSession { share_link, cookie: c } => share_link@
                    == share_link_spec(m) && c@ == cookie,
                _ => false,
            }
        },
    }
}

/// The first listed file with this id.
pub open spec fn find_fid(files: Seq<UcFileDto>, fid: Seq<char>) -> Option<int>
    decreases files.len(),
{
    if files.len() == 0 {
        None
    } else if files[0].fid@ == fid {
        Some(0)
    } else {
        match find_fid(files.drop_first(), fid) {
            Some(i) => Some(i + 1),
            None => None,
        }
    }
}

/// The counters written by a failed or completed attempt.
pub open spec fn counted(action: RefreshAction, meta: UcMeta, now: i64) -> bool {
    match action {
        RefreshAction::RecordFailure { retry_count, last_refresh_at, .. } => retry_count
            == meta.retry_count + 1 && last_refresh_at == now,
        RefreshAction::Commit { retry_count, last_refresh_at, .. } => retry_count
            == meta.retry_count + 1 && last_refresh_at == now,
        _ => true,
    }
}

/// A failure recorded with the given cause.
pub open spec fn failure_is(action: RefreshAction, cause: Seq<char>, meta: UcMeta, now: i64) -> bool {
    match action {
        RefreshAction::RecordFailure { error, retry_count, last_refresh_at } => error@
            == "刷新链接失败: "@ + cause && retry_count == meta.retry_count + 1 && last_refresh_at
            == now,
        _ => false,
    }
}

/// The value of a [`UcRefresh`].
pub struct RefreshView {
    pub phase: RefreshPhase,
    pub meta: UcMeta,
    pub gopeed_id: Seq<char>,
    pub target_dir: Seq<char>,
    pub ctoken: Seq<char>,
    pub cookies: Seq<char>,
    pub stoken: Seq<char>,
    pub share_fid_token: Seq<char>,
    pub url: Seq<char>,
}

impl View for UcRefresh {
    type V = RefreshView;

    open spec fn view(&self) -> RefreshView {
        RefreshView {
            phase: self.phase,
            meta: self.meta,
            gopeed_id: self.gopeed_id@,
            target_dir: self.target_dir@,
            ctoken: self.ctoken@,
            cookies: self.cookies@,
            stoken: self.stoken@,
            share_fid_token: self.share_fid_token@,
            url: self.url@,
        }
    }
}

/// The same refresh, now in `phase`.
pub open spec fn in_phase(v: RefreshView, phase: RefreshPhase) -> RefreshView {
    RefreshView { phase, ..v }
}

/// The transition of a refresh: what each outcome leads to, and the new
/// state; every field that an arm does not name is kept.
pub open spec fn step_spec(
    pre: UcRefresh,
    post: UcRefresh,
    event: RefreshEvent,
    now: i64,
    a: RefreshAction,
) -> bool {
    let over = in_phase(pre@, RefreshPhase::Over);
    match (pre.phase, event) {
        // every error reported by UC or gopeed ends the attempt as a counted failure
        (RefreshPhase::Session, RefreshEvent::Session(Err(e))) => failure_is(a, e@, pre.meta, now)
            && post@ == over,
        (RefreshPhase::Stoken, RefreshEvent::Stoken(Err(e))) => failure_is(a, e@, pre.meta, now)
            && post@ == over,
        (RefreshPhase::Files, RefreshEvent::Files(Err(e))) => failure_is(a, e@, pre.meta, now)
            && post@ == over,
        (RefreshPhase::NewUrl, RefreshEvent::Url(Err(e))) => failure_is(a, e@, pre.meta, now)
            && post@ == over,
        (RefreshPhase::Create, RefreshEvent::Created(Err(e))) => failure_is(a, e@, pre.meta, now)
            && post@ == over,
        // a session leads to asking for the link with the tokens on record
        (RefreshPhase::Session, RefreshEvent::Session(Ok(s))) => {
            &&& post@ == RefreshView {
                phase: RefreshPhase::DirectUrl,
                ctoken: s.0@,
                cookies: s.1@,
                ..pre@
            }
            &&& match a {
                RefreshAction::FetchDirectUrl {
                    share_id,
                    stoken,
                    fid,
                    share_fid_token,
                    ctoken,
                    cookies,
                } => share_id@ == pre.meta.share_id@ && stoken@ == pre.meta.stoken@ && fid@
                    == pre.meta.fid@ && share_fid_token@ == pre.meta.share_fid_token@ && ctoken@
                    == s.0@ && cookies@ == s.1@,
                _ => false,
            }
        },
        // a link from the recorded tokens is probed as it is
        (RefreshPhase::DirectUrl, RefreshEvent::Url(Ok(u))) => {
            &&& post@ == RefreshView {
                phase: RefreshPhase::Probe,
                stoken: pre.meta.stoken@,
                share_fid_token: pre.meta.share_fid_token@,
                url: u@,
                ..pre@
            }
            &&& match a {
                RefreshAction::Probe { url, cookies } => url@ == u@ && cookies@ == pre.cookies@,
                _ => false,
            }
        },
        // a refused link leads to a fresh share token
        (RefreshPhase::DirectUrl, RefreshEvent::Url(Err(_))) => {
            &&& post@ == in_phase(pre@, RefreshPhase::Stoken)
            &&& match a {
                RefreshAction::FetchStoken { share_id, ctoken, cookies } => share_id@
                    == pre.meta.share_id@ && ctoken@ == pre.ctoken@ && cookies@ == pre.cookies@,
                _ => false,
            }
        },
        (RefreshPhase::Stoken, RefreshEvent::Stoken(Ok(st))) => {
            &&& post@ == RefreshView { phase: RefreshPhase::Files, stoken: st@, ..pre@ }
            &&& match a {
                RefreshAction::FetchFiles { share_id, stoken, ctoken, cookies } => share_id@
                    == pre.meta.share_id@ && stoken@ == st@ && ctoken@ == pre.ctoken@ && cookies@
                    == pre.cookies@,
                _ => false,
            }
        },
        // the file is looked up again by its id; a file no longer shared ends the attempt
        (RefreshPhase::Files, RefreshEvent::Files(Ok(fs))) => match find_fid(fs@, pre.meta.fid@) {
            None => failure_is(a, "分享文件已失效"@, pre.meta, now) && post@ == over,
            Some(i) => {
                &&& post@ == RefreshView {
                    phase: RefreshPhase::NewUrl,
                    share_fid_token: fs@[i].share_fid_token@,
                    ..pre@
                }
                &&& match a {
                    RefreshAction::FetchDirectUrl {
                        share_id,
                        stoken,
                        fid,
                        share_fid_token,
                        ctoken,
                        cookies,
                    } => share_id@ == pre.meta.share_id@ && stoken@ == pre.stoken@ && fid@
                        == pre.meta.fid@ && share_fid_token@ == fs@[i].share_fid_token@ && ctoken@
                        == pre.ctoken@ && cookies@ == pre.cookies@,
                    _ => false,
                }
            },
        },
        (RefreshPhase::NewUrl, RefreshEvent::Url(Ok(u))) => {
            &&& post@ == RefreshView { phase: RefreshPhase::Probe, url: u@, ..pre@ }
            &&& match a {
                RefreshAction::Probe { url, cookies } => url@ == u@ && cookies@ == pre.cookies@,
                _ => false,
            }
        },
        // the probe decides between giving up and replacing the gopeed task
        (RefreshPhase::Probe, RefreshEvent::Probed(k)) => if k@ == "cookie_expired"@ {
            &&& post@ == over
            &&& match a {
                RefreshAction::MarkCookieExpired { error } => error@
                    == "UC Cookie 已失效，请在设置中更新"@,
                _ => false,
            }
        } else if k@ == "url_invalid"@ {
            &&& post@ == over
            &&& match a {
                RefreshAction::MarkSignatureInvalid { error } => error@
                    == "刷新链接后签名仍无效，请稍后重试"@,
                _ => false,
            }
        } else {
            &&& post@ == in_phase(pre@, RefreshPhase::Remove)
            &&& match a {
                RefreshAction::RemoveOld { gopeed_id } => gopeed_id@ == pre.gopeed_id@,
                _ => false,
            }
        },
        (RefreshPhase::Remove, RefreshEvent::Removed) => {
            &&& post@ == in_phase(pre@, RefreshPhase::Create)
            &&& match a {
                RefreshAction::CreateTask { url, cookies, ctoken, path, name } => url@ == pre.url@
                    && cookies@ == pre.cookies@ && ctoken@ == pre.ctoken@ && path@
                    == pre.target_dir@ && (if pre.meta.filename@.len() > 0 {
                    match name {
                        Some(n) => n@ == pre.meta.filename@,
                        None => false,
                    }
                } else {
                    name is None
                }),
                _ => false,
            }
        },
        // success switches the task over and is counted
        (RefreshPhase::Create, RefreshEvent::Created(Ok(g))) => post@ == over && match a {
            RefreshAction::Commit {
                gopeed_id,
                url,
                stoken,
                share_fid_token,
                retry_count,
                last_refresh_at,
            } => gopeed_id@ == g@ && url@ == pre.url@ && stoken@ == pre.stoken@
                && share_fid_token@ == pre.share_fid_token@ && retry_count == pre.meta.retry_count
                + 1 && last_refresh_at == now,
            _ => false,
        },
        // an outcome that was not waited for ends the refresh unhandled
        _ => post@ == over && match a {
            RefreshAction::Stop { handled } => !handled,
            _ => false,
        },
    }
}

fn share_link_of(meta: &UcMeta) -> (l: String)
    ensures
        l@ == share_link_spec(*meta),
{
    if meta.share_link.as_str().is_empty() {
        let mut l = "https://drive.uc.cn/s/".to_owned();
        push_all(&mut l, meta.share_id.as_str());
        l
    } else {
        meta.share_link.clone()
    }
}

fn find_fid_exec(files: &Vec<UcFileDto>, fid: &str) -> (r: Option<usize>)
    ensures
        r matches Some(i) ==> i < files@.len(),
        match r {
            Some(k) => find_fid(files@, fid@) == Some(k as int),
            None => find_fid(files@, fid@) is None,
        },
{
    let mut i: usize = 0;
    while i < files.len()
        invariant
            i <= files.len(),
            forall|j: int| 0 <= j < i ==> files@[j].fid@ != fid@,
        decreases files.len() - i,
    {
        let v = to_chars(files[i].fid.as_str());
        if chars_eq_str(&v, fid) {
            proof {
                lemma_find_fid(files@, fid@, i as int);
            }
            return Some(i);
        }
        i = i + 1;
    }
    proof {
        lemma_find_fid(files@, fid@, files.len() as int);
    }
    None
}

proof fn lemma_find_fid(files: Seq<UcFileDto>, fid: Seq<char>, k: int)
    requires
        0 <= k <= files.len(),
        forall|j: int| 0 <= j < k ==> files[j].fid@ != fid,
        k < files.len() ==> files[k].fid@ == fid,
    ensures
        find_fid(files, fid) == (if k < files.len() {
            Some(k)
        } else {
            None::<int>
        }),
    decreases k,
{
    if k > 0 {
        lemma_find_fid(files.drop_first(), fid, k - 1);
    }
}

impl UcRefresh {
    /// The machine keeps the counters of the attempt it was started for.
    pub open spec fn wf(&self) -> bool {
        self.meta.retry_count < MAX_REFRESH_ATTEMPTS
    }

    fn failure(&mut self, cause: &str, now: i64) -> (a: RefreshAction)
        requires
            old(self).wf(),
        ensures
            failure_is(a, cause@, old(self).meta, now),
            final(self)@ == in_phase(old(self)@, RefreshPhase::Over),
            final(self).wf(),
    {
        self.phase = RefreshPhase::Over;
        let mut error = "刷新链接失败: ".to_owned();
        push_all(&mut error, cause);
        RefreshAction::RecordFailure {
            error,
            retry_count: self.meta.retry_count + 1,
            last_refresh_at: now,
        }
    }

    /// Decides whether a refresh starts.  `meta` is the task's `uc` metadata
    /// (absent when the task is no UC download), `cookie` the saved UC cookie.
    pub fn start(
        meta: Option<UcMeta>,
        now: i64,
        cookie: &str,
        gopeed_id: &str,
        target_dir: &str,
    ) -> (r: (Option<UcRefresh>, RefreshAction))
        ensures
            start_spec(meta, now, cookie@, gopeed_id@, target_dir@, r.0, r.1),
    {
        let m = match meta {
            None => {
                return (None, RefreshAction::Stop { handled: false });
            },
            Some(m) => m,
        };
        if m.share_id.as_str().is_empty() || m.fid.as_str().is_empty() {
            return (None, RefreshAction::Stop { handled: false });
        }
        if m.retry_count >= MAX_REFRESH_ATTEMPTS {
            return (None, RefreshAction::Stop { handled: false });
        }
        let elapsed: i128 = now as i128 - m.last_refresh_at as i128;
        if elapsed < REFRESH_INTERVAL_MS as i128 {
            return (None, RefreshAction::Stop { handled: false });
        }
        if cookie.is_empty() {
            return (
                None,
                RefreshAction::MarkCookieExpired { error: "需要 UC Cookie 才能刷新下载链接".to_owned() },
            );
        }
        let share_link = share_link_of(&m);
        let machine = UcRefresh {
            phase: RefreshPhase::Session,
            meta: m,
            gopeed_id: gopeed_id.to_owned(),
            target_dir: target_dir.to_owned(),
            ctoken: String::new(),
            cookies: String::new(),
            stoken: String::new(),
            share_fid_token: String::new(),
            url: String::new(),
        };
        (Some(machine), RefreshAction::FetchSession { share_link, cookie: cookie.to_owned() })
    }

    /// Takes the outcome of the last action; `now` is the current time in milliseconds.
    pub fn step(&mut self, event: RefreshEvent, now: i64) -> (a: RefreshAction)
        requires
            old(self).wf(),
        ensures
            final(self).wf(),
            final(self).meta == old(self).meta,
            counted(a, old(self).meta, now),
            step_spec(*old(self), *final(self), event, now, a),
    {
        match (self.phase, event) {
            (RefreshPhase::Session, RefreshEvent::Session(Err(e))) => self.failure(e.as_str(), now),
            (RefreshPhase::Session, RefreshEvent::Session(Ok((ctoken, cookies)))) => {
                self.ctoken = ctoken;
                self.cookies = cookies;
                self.phase = RefreshPhase::DirectUrl;
                RefreshAction::FetchDirectUrl {
                    share_id: self.meta.share_id.clone(),
                    stoken: self.meta.stoken.clone(),
                    fid: self.meta.fid.clone(),
                    share_fid_token: self.meta.share_fid_token.clone(),
                    ctoken: self.ctoken.clone(),
                    cookies: self.cookies.clone(),
                }
            },
            (RefreshPhase::DirectUrl, RefreshEvent::Url(Ok(u))) => {
                self.stoken = self.meta.stoken.clone();
                self.share_fid_token = self.meta.share_fid_token.clone();
                self.url = u;
                self.phase = RefreshPhase::Probe;
                RefreshAction::Probe { url: self.url.clone(), cookies: self.cookies.clone() }
            },
            (RefreshPhase::DirectUrl, RefreshEvent::Url(Err(_))) => {
                self.phase = RefreshPhase::Stoken;
                RefreshAction::FetchStoken {
                    share_id: self.meta.share_id.clone(),
                    ctoken: self.ctoken.clone(),
                    cookies: self.cookies.clone(),
                }
            },
            (RefreshPhase::Stoken, RefreshEvent::Stoken(Err(e))) => self.failure(e.as_str(), now),
            (RefreshPhase::Stoken, RefreshEvent::Stoken(Ok(st))) => {
                self.stoken = st;
                self.phase = RefreshPhase::Files;
                RefreshAction::FetchFiles {
                    share_id: self.meta.share_id.clone(),
                    stoken: self.stoken.clone(),
                    ctoken: self.ctoken.clone(),
                    cookies: self.cookies.clone(),
                }
            },
            (RefreshPhase::Files, RefreshEvent::Files(Err(e))) => self.failure(e.as_str(), now),
            (RefreshPhase::Files, RefreshEvent::Files(Ok(files))) => {
                match find_fid_exec(&files, self.meta.fid.as_str()) {
                    None => self.failure("分享文件已失效", now),
                    Some(i) => {
                        self.share_fid_token = files[i].share_fid_token.clone();
                        self.phase = RefreshPhase::NewUrl;
                        RefreshAction::FetchDirectUrl {
                            share_id: self.meta.share_id.clone(),
                            stoken: self.stoken.clone(),
                            fid: self.meta.fid.clone(),
                            share_fid_token: self.share_fid_token.clone(),
                            ctoken: self.ctoken.clone(),
                            cookies: self.cookies.clone(),
                        }
                    },
                }
            },
            (RefreshPhase::NewUrl, RefreshEvent::Url(Err(e))) => self.failure(e.as_str(), now),
            (RefreshPhase::NewUrl, RefreshEvent::Url(Ok(u))) => {
                self.url = u;
                self.phase = RefreshPhase::Probe;
                RefreshAction::Probe { url: self.url.clone(), cookies: self.cookies.clone() }
            },
            (RefreshPhase::Probe, RefreshEvent::Probed(kind)) => {
                let k = to_chars(kind.as_str());
                if chars_eq_str(&k, "cookie_expired") {
                    self.phase = RefreshPhase::Over;
                    RefreshAction::MarkCookieExpired { error: "UC Cookie 已失效，请在设置中更新".to_owned() }
                } else if chars_eq_str(&k, "url_invalid") {
                    self.phase = RefreshPhase::Over;
                    RefreshAction::MarkSignatureInvalid { error: "刷新链接后签名仍无效，请稍后重试".to_owned() }
                } else {
                    self.phase = RefreshPhase::Remove;
                    RefreshAction::RemoveOld { gopeed_id: self.gopeed_id.clone() }
                }
            },
            (RefreshPhase::Remove, RefreshEvent::Removed) => {
                self.phase = RefreshPhase::Create;
                let name = if self.meta.filename.as_str().is_empty() {
                    None
                } else {
                    Some(self.meta.filename.clone())
                };
                RefreshAction::CreateTask {
                    url: self.url.clone(),
                    cookies: self.cookies.clone(),
                    ctoken: self.ctoken.clone(),
                    path: self.target_dir.clone(),
                    name,
                }
            },
            (RefreshPhase::Create, RefreshEvent::Created(Err(e))) => self.failure(e.as_str(), now),
            (RefreshPhase::Create, RefreshEvent::Created(Ok(g))) => {
                self.phase = RefreshPhase::Over;
                RefreshAction::Commit {
                    gopeed_id: g,
                    url: self.url.clone(),
                    stoken: self.stoken.clone(),
                    share_fid_token: self.share_fid_token.clone(),
                    retry_count: self.meta.retry_count + 1,
                    last_refresh_at: now,
                }
            },
            _ => {
                self.phase = RefreshPhase::Over;
                RefreshAction::Stop { handled: false }
            },
        }
    }
}

/// A task is never counted beyond five refresh attempts, and its attempts
/// lie at least thirty seconds apart.  A refresh that [`UcRefresh::start`]
/// starts belongs to a task with fewer than five counted attempts, the last
/// of them thirty seconds old or more; its steps keep that task's counters
/// ([`UcRefresh::step`] keeps `meta`); and a step that records counters
/// records exactly one attempt more, stamped with the time of that step.
pub proof fn law_refresh_attempts_bounded(
    meta: Option<UcMeta>,
    now: i64,
    cookie: Seq<char>,
    gopeed_id: Seq<char>,
    target_dir: Seq<char>,
    started: UcRefresh,
    first: RefreshAction,
    later: RefreshAction,
    t: i64,
)
    requires
        start_spec(meta, now, cookie, gopeed_id, target_dir, Some(started), first),
        counted(later, started.meta, t),
    ensures
        meta == Some(started.meta),
        started.meta.retry_count < MAX_REFRESH_ATTEMPTS,
        now - started.meta.last_refresh_at >= REFRESH_INTERVAL_MS,
        later matches RefreshAction::RecordFailure { retry_count, last_refresh_at, .. } ==> (
        retry_count == started.meta.retry_count + 1 && retry_count <= MAX_REFRESH_ATTEMPTS
            && last_refresh_at == t),
        later matches RefreshAction::Commit { retry_count, last_refresh_at, .. } ==> (retry_count
            == started.meta.retry_count + 1 && retry_count <= MAX_REFRESH_ATTEMPTS
            && last_refresh_at == t),
{
}

} // verus!
