//! Decisions of the download task service: how a task's gopeed state is
//! folded into the local task row, how UC errors are classified, and which
//! links and torrents a new task accepts.  Database access, HTTP calls and
//! file moves are carried out by the caller, step by step.
use vstd::prelude::*;

use crate::error::{is_error, ApiError};
use crate::gopeed::{map_status_spec, GopeedManager};
use crate::text::{
    after_last, basename_of, chars_eq_str, contains_seq, ends_with, ends_with_chars, lower_text,
    norm_seq, norm_str, push_all, push_decimal_i64, signed_decimal, starts_with_chars, str_contains,
    str_eq,
    to_chars, to_lowercase,
};

verus! {

// ---------------------------------------------------------------------------
// UC error classification
// ---------------------------------------------------------------------------

/// How a failed UC download is to be treated.
#[derive(Debug, Clone, Copy, PartialEq, Eq, Structural)]
pub enum UcErrorClass {
    /// The saved UC cookie no longer logs in: the user has to renew it.
    CookieExpired,
    /// The direct link went stale: fetch a new one.
    Retry,
    /// The message does not tell; probe the link.
    Unknown,
}

/// Classification of gopeed's error message, compared in lower case.
pub open spec fn message_class_spec(msg: Seq<char>) -> UcErrorClass {
    let low = lower_text(msg);
    if contains_seq(low, "cookie"@) || contains_seq(low, "require login"@) || contains_seq(
        low,
        "authentication failed"@,
    ) || contains_seq(low, "login required"@) {
        UcErrorClass::CookieExpired
    } else if contains_seq(low, "401"@) || contains_seq(low, "403"@) || contains_seq(low, "404"@)
        || contains_seq(low, "expired"@) || contains_seq(low, "signature"@) || contains_seq(
        low,
        "error code 22"@,
    ) {
        UcErrorClass::Retry
    } else {
        UcErrorClass::Unknown
    }
}

/// Classifies the error message of a failed UC download.
pub fn classify_error_message(msg: &str) -> (c: UcErrorClass)
    ensures
        c == message_class_spec(msg@),
{
    let low_s = to_lowercase(msg);
    let low = to_chars(low_s.as_str());
    if str_contains(&low, "cookie") || str_contains(&low, "require login") || str_contains(
        &low,
        "authentication failed",
    ) || str_contains(&low, "login required") {
        UcErrorClass::CookieExpired
    } else if str_contains(&low, "401") || str_contains(&low, "403") || str_contains(&low, "404")
        || str_contains(&low, "expired") || str_contains(&low, "signature") || str_contains(
        &low,
        "error code 22",
    ) {
        UcErrorClass::Retry
    } else {
        UcErrorClass::Unknown
    }
}

// ---------------------------------------------------------------------------
// One round of synchronisation for one task
// ---------------------------------------------------------------------------

/// What the sync reads of a local task row.
#[derive(Debug, Clone)]
pub struct LocalTask {
    pub status: String,
    pub error: String,
    /// The metadata holds a `uc` object: a UC download.
    pub is_uc: bool,
    /// The metadata already records the total size.
    pub has_total: bool,
}

/// What the sync reads of the matching gopeed task.
#[derive(Debug, Clone)]
pub struct RemoteTask {
    pub status: String,
    pub error: String,
    pub name: Option<String>,
    /// `size`, when it is a number.
    pub size: Option<u64>,
    /// `meta.res.size`, when it is a number.
    pub res_size: Option<u64>,
    /// `progress.downloaded`, when it is a number.
    pub downloaded: Option<u64>,
}

/// The values that a sync writes into a task row.
#[derive(Debug, Clone)]
pub struct RowUpdate {
    pub status: String,
    pub total: u64,
    /// The total size is to be recorded in the metadata.
    pub record_total: bool,
    /// Downloaded bytes, never more than `total`.
    pub downloaded: u64,
    pub running: bool,
    pub done: bool,
    pub error: String,
}

/// The next thing to do for a task during a sync round.
#[derive(Debug, Clone)]
pub enum SyncAction {
    /// Probe the UC direct link, then call [`RowSync::after_probe`].
    Probe,
    /// Mark the task `cookie_expired` with this message; the task is done for this round.
    MarkCookieExpired { error: String },
    /// Refresh the UC direct link, then call [`RowSync::after_refresh`].
    Refresh,
    /// Nothing more this round.
    Skip,
    /// Move the finished download into the file tree, then call [`RowSync::after_register`].
    Register { name: String },
    /// Mark the task failed with this message; the task is done for this round.
    MarkRegisterFailed { error: String },
    /// Write these values into the row.
    Finish(RowUpdate),
}

pub struct RowUpdateView {
    pub status: Seq<char>,
    pub total: u64,
    pub record_total: bool,
    pub downloaded: u64,
    pub running: bool,
    pub done: bool,
    pub error: Seq<char>,
}

pub enum SyncActionView {
    Probe,
    MarkCookieExpired { error: Seq<char> },
    Refresh,
    Skip,
    Register { name: Seq<char> },
    MarkRegisterFailed { error: Seq<char> },
    Finish(RowUpdateView),
}

impl View for RowUpdate {
    type V = RowUpdateView;

    open spec fn view(&self) -> RowUpdateView {
        RowUpdateView {
            status: self.status@,
            total: self.total,
            record_total: self.record_total,
            downloaded: self.downloaded,
            running: self.running,
            done: self.done,
            error: self.error@,
        }
    }
}

impl View for SyncAction {
    type V = SyncActionView;

    open spec fn view(&self) -> SyncActionView {
        match self {
            SyncAction::Probe => SyncActionView::Probe,
            SyncAction::MarkCookieExpired { error } => SyncActionView::MarkCookieExpired {
                error: error@,
            },
            SyncAction::Refresh => SyncActionView::Refresh,
            SyncAction::Skip => SyncActionView::Skip,
            SyncAction::Register { name } => SyncActionView::Register { name: name@ },
            SyncAction::MarkRegisterFailed { error } => SyncActionView::MarkRegisterFailed {
                error: error@,
            },
            SyncAction::Finish(u) => SyncActionView::Finish(u@),
        }
    }
}

pub open spec fn cookie_expired_message() -> Seq<char> {
    "UC Cookie 已失效，请在设置中更新"@
}

/// The total size reported by gopeed: `size`, else `meta.res.size`, else 0.
pub open spec fn total_spec(remote: RemoteTask) -> u64 {
    match remote.size {
        Some(s) => s,
        None => match remote.res_size {
            Some(s) => s,
            None => 0,
        },
    }
}

/// The row values after a sync.
pub open spec fn update_spec(local: LocalTask, remote: RemoteTask) -> RowUpdateView {
    let mapped = map_status_spec(remote.status@);
    let total = total_spec(remote);
    let raw = match remote.downloaded {
        Some(d) => d,
        None => 0,
    };
    RowUpdateView {
        status: mapped,
        total,
        record_total: total > 0 && !local.has_total,
        downloaded: if raw <= total {
            raw
        } else {
            total
        },
        running: mapped == "running"@,
        done: mapped == "done"@,
        error: if mapped == "done"@ {
            Seq::empty()
        } else if mapped == "error"@ {
            "下载失败"@
        } else {
            local.error@
        },
    }
}

/// A finished download is registered once, when gopeed first reports it done.
pub open spec fn register_or_finish_spec(local: LocalTask, remote: RemoteTask) -> SyncActionView {
    if map_status_spec(remote.status@) == "done"@ && local.status@ != "done"@ {
        SyncActionView::Register {
            name: match remote.name {
                Some(n) => n@,
                None => "离线任务"@,
            },
        }
    } else {
        SyncActionView::Finish(update_spec(local, remote))
    }
}

/// The first action for a task: a failed UC download is classified first.
pub open spec fn start_spec(local: LocalTask, remote: RemoteTask) -> SyncActionView {
    if map_status_spec(remote.status@) == "error"@ && local.status@ != "cookie_expired"@
        && local.is_uc {
        match message_class_spec(remote.error@) {
            UcErrorClass::CookieExpired => SyncActionView::MarkCookieExpired {
                error: cookie_expired_message(),
            },
            UcErrorClass::Retry => SyncActionView::Refresh,
            UcErrorClass::Unknown => SyncActionView::Probe,
        }
    } else {
        register_or_finish_spec(local, remote)
    }
}

/// The sync of one task row against its gopeed task.
#[derive(Debug, Clone)]
pub struct RowSync {
    pub local: LocalTask,
    pub remote: RemoteTask,
}

impl RowSync {
    fn update(&self) -> (u: RowUpdate)
        ensures
            u@ == update_spec(self.local, self.remote),
    {
        let mapped = GopeedManager::map_status(self.remote.status.as_str());
        let total: u64 = match self.remote.size {
            Some(s) => s,
            None => match self.remote.res_size {
                Some(s) => s,
                None => 0,
            },
        };
        let raw: u64 = match self.remote.downloaded {
            Some(d) => d,
            None => 0,
        };
        let done = str_eq(mapped, "done");
        let failed = str_eq(mapped, "error");
        let error = if done {
            String::new()
        } else if failed {
            "下载失败".to_owned()
        } else {
            self.local.error.clone()
        };
        RowUpdate {
            status: mapped.to_owned(),
            total,
            record_total: total > 0 && !self.local.has_total,
            downloaded: if raw <= total {
                raw
            } else {
                total
            },
            running: str_eq(mapped, "running"),
            done,
            error,
        }
    }

    fn register_or_finish(&self) -> (a: SyncAction)
        ensures
            a@ == register_or_finish_spec(self.local, self.remote),
    {
        let mapped = GopeedManager::map_status(self.remote.status.as_str());
        if str_eq(mapped, "done") && !str_eq(self.local.status.as_str(), "done") {
            let name = match &self.remote.name {
                Some(n) => n.clone(),
                None => "离线任务".to_owned(),
            };
            SyncAction::Register { name }
        } else {
            SyncAction::Finish(self.update())
        }
    }

    /// What to do first with the task when gopeed reports on it.
    pub fn start(&self) -> (a: SyncAction)
        ensures
            a@ == start_spec(self.local, self.remote),
    {
        let mapped = GopeedManager::map_status(self.remote.status.as_str());
        if str_eq(mapped, "error") && !str_eq(self.local.status.as_str(), "cookie_expired")
            && self.local.is_uc {
            match classify_error_message(self.remote.error.as_str()) {
                UcErrorClass::CookieExpired => SyncAction::MarkCookieExpired {
                    error: "UC Cookie 已失效，请在设置中更新".to_owned(),
                },
                UcErrorClass::Retry => SyncAction::Refresh,
                UcErrorClass::Unknown => SyncAction::Probe,
            }
        } else {
            self.register_or_finish()
        }
    }

    /// After a probe of the direct link answered `kind`.
    pub fn after_probe(&self, kind: &str) -> (a: SyncAction)
        ensures
            a@ == (if kind@ == "cookie_expired"@ {
                SyncActionView::MarkCookieExpired { error: cookie_expired_message() }
            } else if kind@ == "url_invalid"@ {
                SyncActionView::Refresh
            } else {
                register_or_finish_spec(self.local, self.remote)
            }),
    {
        if str_eq(kind, "cookie_expired") {
            SyncAction::MarkCookieExpired { error: "UC Cookie 已失效，请在设置中更新".to_owned() }
        } else if str_eq(kind, "url_invalid") {
            SyncAction::Refresh
        } else {
            self.register_or_finish()
        }
    }

    /// After a refresh of the direct link; `handled` when the refresh took care of the task.
    pub fn after_refresh(&self, handled: bool) -> (a: SyncAction)
        ensures
            a@ == (if handled {
                SyncActionView::Skip
            } else {
                register_or_finish_spec(self.local, self.remote)
            }),
    {
        if handled {
            SyncAction::Skip
        } else {
            self.register_or_finish()
        }
    }

    /// After the download was moved into the file tree, or failed to be with `failure`.
    pub fn after_register(&self, failure: Option<&str>) -> (a: SyncAction)
        ensures
            a@ == (match failure {
                Some(msg) => SyncActionView::MarkRegisterFailed { error: "文件登记失败: "@ + msg@ },
                None => SyncActionView::Finish(update_spec(self.local, self.remote)),
            }),
    {
        match failure {
            Some(msg) => {
                let mut error = "文件登记失败: ".to_owned();
                push_all(&mut error, msg);
                SyncAction::MarkRegisterFailed { error }
            },
            None => SyncAction::Finish(self.update()),
        }
    }
}

/// Whatever a sync round writes into a row, the downloaded byte count never
/// exceeds the total, a finished task carries no error, and the row is
/// marked running exactly when gopeed runs the task.
pub proof fn law_sync_update_consistent(local: LocalTask, remote: RemoteTask)
    ensures
        update_spec(local, remote).downloaded <= update_spec(local, remote).total,
        update_spec(local, remote).done ==> update_spec(local, remote).error.len() == 0,
        update_spec(local, remote).running <==> (remote.status@ == "ready"@ || remote.status@
            == "running"@),
        update_spec(local, remote).done <==> remote.status@ == "done"@,
{
    reveal_strlit("ready");
    reveal_strlit("pause");
    reveal_strlit("wait");
    reveal_strlit("running");
    reveal_strlit("paused");
    reveal_strlit("queued");
    reveal_strlit("error");
    reveal_strlit("done");
    assert("running"@.len() == 7 && "paused"@.len() == 6 && "queued"@.len() == 6);
    assert("error"@.len() == 5 && "done"@.len() == 4);
    assert("paused"@[0] != "queued"@[0]);
    assert("wait"@[0] != "done"@[0]);
}

/// The size and progress a sync round writes: the total is gopeed's `size`
/// when it reports one, else `meta.res.size`, else 0; the downloaded count
/// is `progress.downloaded` cut back to that total; the total is recorded
/// once it is known.  A task that gopeed neither failed nor finished gets
/// exactly these values written.
pub proof fn law_sync_totals(local: LocalTask, remote: RemoteTask)
    ensures
        ({
            let u = update_spec(local, remote);
            let raw: u64 = match remote.downloaded {
                Some(d) => d,
                None => 0,
            };
            &&& remote.size matches Some(s) ==> u.total == s
            &&& remote.size is None ==> (remote.res_size matches Some(n) ==> u.total == n)
            &&& (remote.size is None && remote.res_size is None) ==> u.total == 0
            &&& u.downloaded <= raw && u.downloaded <= u.total
            &&& (u.downloaded == raw || u.downloaded == u.total)
            &&& u.record_total <==> (u.total > 0 && !local.has_total)
            &&& (remote.status@ != "error"@ && remote.status@ != "done"@) ==> start_spec(
                local,
                remote,
            ) == SyncActionView::Finish(u)
        }),
{
    reveal_strlit("ready");
    reveal_strlit("pause");
    reveal_strlit("wait");
    reveal_strlit("running");
    reveal_strlit("paused");
    reveal_strlit("queued");
    reveal_strlit("error");
    reveal_strlit("done");
    assert("running"@.len() == 7 && "paused"@.len() == 6 && "queued"@.len() == 6);
    assert("error"@.len() == 5 && "done"@.len() == 4);
    assert("running"@[0] != "error"@[0] && "paused"@[0] != "error"@[0] && "queued"@[0] != "error"@[0]);
    assert("running"@[0] != "done"@[0] && "paused"@[0] != "done"@[0] && "queued"@[0] != "done"@[0]);
}

// ---------------------------------------------------------------------------
// New tasks
// ---------------------------------------------------------------------------

/// The link kinds that gopeed accepts.
pub open spec fn valid_task_url_spec(url: Seq<char>) -> bool {
    let low = lower_text(url);
    url.len() > 0 && ("http://"@.is_prefix_of(low) || "https://"@.is_prefix_of(low)
        || "magnet:"@.is_prefix_of(low) || "file://"@.is_prefix_of(low))
}

/// A new task's link is one that gopeed accepts: http, https, magnet or file, in any case.
pub fn valid_task_url(url: &str) -> (r: bool)
    ensures
        r == valid_task_url_spec(url@),
{
    if url.is_empty() {
        return false;
    }
    let low_s = to_lowercase(url);
    let low = to_chars(low_s.as_str());
    let http = to_chars("http://");
    let https = to_chars("https://");
    let magnet = to_chars("magnet:");
    let file = to_chars("file://");
    starts_with_chars(&low, &http) || starts_with_chars(&low, &https) || starts_with_chars(
        &low,
        &magnet,
    ) || starts_with_chars(&low, &file)
}

/// The path names a torrent file (case-insensitive `.torrent` ending).
pub open spec fn is_torrent_path_spec(path: Seq<char>) -> bool {
    ends_with(lower_text(path), ".torrent"@)
}

pub fn is_torrent_path(path: &str) -> (r: bool)
    ensures
        r == is_torrent_path_spec(path@),
{
    let low_s = to_lowercase(path);
    let low = to_chars(low_s.as_str());
    let suffix = to_chars(".torrent");
    ends_with_chars(&low, &suffix)
}

/// `file:///` and the path with forward slashes.
pub open spec fn file_url_spec(path: Seq<char>) -> Seq<char> {
    "file:///"@ + norm_seq(path)
}

pub fn file_url(path: &str) -> (u: String)
    ensures
        u@ == file_url_spec(path@),
{
    let mut u = "file:///".to_owned();
    let n = norm_str(path);
    push_all(&mut u, n.as_str());
    u
}

/// The torrent a new task refers to, as far as the caller has looked it up.
#[derive(Debug, Clone)]
pub enum TorrentRef {
    /// No torrent: the task's own link is used.
    NoTorrent,
    /// An uploaded temporary torrent, at `path`, which exists or not.
    Uploaded { path: String, exists: bool },
    /// A torrent of the file tree: the recorded path of the file row, if there is a row.
    Stored { row_path: Option<String> },
}

/// The link a new task downloads, and the temporary torrent to delete afterwards.
#[derive(Debug, Clone)]
pub struct TaskLink {
    pub url: String,
    pub temporary_torrent: Option<String>,
}

/// Error of a torrent reference that names no torrent file.
pub open spec fn bad_torrent_spec(t: TorrentRef) -> bool {
    match t {
        TorrentRef::NoTorrent => false,
        TorrentRef::Uploaded { path, exists } => !is_torrent_path_spec(path@) || !exists,
        TorrentRef::Stored { row_path } => match row_path {
            Some(p) => !is_torrent_path_spec(p@),
            None => true,
        },
    }
}

/// The link of a new task: for a torrent, the `file:///` link of the torrent file.
pub open spec fn task_url_spec(url: Seq<char>, t: TorrentRef) -> Seq<char> {
    match t {
        TorrentRef::NoTorrent => url,
        TorrentRef::Uploaded { path, exists } => file_url_spec(path@),
        TorrentRef::Stored { row_path } => file_url_spec(row_path->0@),
    }
}

/// `r` is the link decided for `url` and `t`, with the uploaded torrent to delete.
pub open spec fn link_ok(r: Result<TaskLink, ApiError>, url: Seq<char>, t: TorrentRef) -> bool {
    match r {
        Ok(link) => {
            &&& link.url@ == task_url_spec(url, t)
            &&& match t {
                TorrentRef::Uploaded { path, exists } => match link.temporary_torrent {
                    Some(p) => p@ == path@,
                    None => false,
                },
                _ => link.temporary_torrent is None,
            }
        },
        Err(_) => false,
    }
}

/// Decides the link of a new task.  A torrent must name an existing `.torrent`
/// file; the resulting link must be one that gopeed accepts.
pub fn resolve_task_link(url: &str, torrent: &TorrentRef) -> (r: Result<TaskLink, ApiError>)
    ensures
        bad_torrent_spec(*torrent) ==> is_error(r, 500, "无效的 torrent 文件"@),
        !bad_torrent_spec(*torrent) && !valid_task_url_spec(task_url_spec(url@, *torrent))
            ==> is_error(r, 500, "链接不合法"@),
        !bad_torrent_spec(*torrent) && valid_task_url_spec(task_url_spec(url@, *torrent))
            ==> link_ok(r, url@, *torrent),
{
    let (link_url, temporary) = match torrent {
        TorrentRef::NoTorrent => (url.to_owned(), None),
        TorrentRef::Uploaded { path, exists } => {
            if !is_torrent_path(path.as_str()) || !*exists {
                return Err(ApiError::internal("无效的 torrent 文件"));
            }
            (file_url(path.as_str()), Some(path.clone()))
        },
        TorrentRef::Stored { row_path } => match row_path {
            Some(p) => {
                if !is_torrent_path(p.as_str()) {
                    return Err(ApiError::internal("无效的 torrent 文件"));
                }
                (file_url(p.as_str()), None)
            },
            None => {
                return Err(ApiError::internal("无效的 torrent 文件"));
            },
        },
    };
    if !valid_task_url(link_url.as_str()) {
        return Err(ApiError::internal("链接不合法"));
    }
    Ok(TaskLink { url: link_url, temporary_torrent: temporary })
}

/// Connections asked of gopeed: the task's own number, else the configured
/// number for UC or plain links, else none.  Only UC and plain links get one,
/// and only a positive number is passed on.
pub open spec fn connections_spec(
    explicit: Option<i64>,
    source: Seq<char>,
    uc_connections: i64,
    http_connections: i64,
) -> Option<i64> {
    let n = match explicit {
        Some(v) => v,
        None => if source == "uc"@ {
            uc_connections
        } else if source == "url"@ {
            http_connections
        } else {
            0
        },
    };
    if n > 0 && (source == "uc"@ || source == "url"@) {
        Some(n)
    } else {
        None
    }
}

pub fn task_connections(
    explicit: Option<i64>,
    source: &str,
    uc_connections: i64,
    http_connections: i64,
) -> (r: Option<i64>)
    ensures
        r == connections_spec(explicit, source@, uc_connections, http_connections),
{
    let is_uc = str_eq(source, "uc");
    let is_url = str_eq(source, "url");
    let n = match explicit {
        Some(v) => v,
        None => if is_uc {
            uc_connections
        } else if is_url {
            http_connections
        } else {
            0
        },
    };
    if n > 0 && (is_uc || is_url) {
        Some(n)
    } else {
        None
    }
}

/// `task-{id}` or `task-{stamp}-{random}`: the working directory name of a task.
pub open spec fn task_dir_name_spec(a: i64, b: Option<u32>) -> Seq<char> {
    match b {
        Some(r) => "task-"@ + signed_decimal(a as int) + "-"@ + signed_decimal(r as int),
        None => "task-"@ + signed_decimal(a as int),
    }
}

pub fn task_dir_name(a: i64, b: Option<u32>) -> (s: String)
    ensures
        s@ == task_dir_name_spec(a, b),
{
    let mut s = "task-".to_owned();
    push_decimal_i64(&mut s, a);
    if let Some(r) = b {
        push_all(&mut s, "-");
        push_decimal_i64(&mut s, r as i64);
    }
    s
}

/// The name of the directory that a multi-file download is registered under:
/// the task's name (or `任务-{id}` when it has none) with forbidden
/// characters replaced by `_`.
pub open spec fn clean_task_name_spec(task_name: Seq<char>, task_id: i64) -> Seq<char> {
    let base = if task_name.len() == 0 {
        "任务-"@ + signed_decimal(task_id as int)
    } else {
        task_name
    };
    base.map_values(|c: char| if crate::text::forbidden_name_char(c) { '_' } else { c })
}

pub fn clean_task_name(task_name: &str, task_id: i64) -> (s: String)
    ensures
        s@ == clean_task_name_spec(task_name@, task_id),
{
    let mut base = String::new();
    if task_name.is_empty() {
        push_all(&mut base, "任务-");
        push_decimal_i64(&mut base, task_id);
    } else {
        push_all(&mut base, task_name);
    }
    let mut out = String::new();
    for c in it: base.as_str().chars()
        invariant
            out@ == it.seq().take(it.index() as int).map_values(
                |c: char| if crate::text::forbidden_name_char(c) { '_' } else { c },
            ),
    {
        let ghost before = it.seq().take(it.index() as int);
        let d = if c == '\\' || c == '/' || c == ':' || c == '*' || c == '?' || c == '"' || c
            == '<' || c == '>' || c == '|' {
            '_'
        } else {
            c
        };
        crate::text::push_char(&mut out, d);
        assert(it.seq().take(it.index() + 1) =~= before.push(c));
        assert(before.push(c).map_values(
            |c: char| if crate::text::forbidden_name_char(c) { '_' } else { c },
        ) =~= before.map_values(
            |c: char| if crate::text::forbidden_name_char(c) { '_' } else { c },
        ).push(d));
    }
    out
}


// ---------------------------------------------------------------------------
// Small decisions of the task service
// ---------------------------------------------------------------------------

/// After gopeed (re)started, an interrupted task is resumed when gopeed holds
/// it as ready, paused or waiting.
pub fn should_resume(gopeed_status: &str) -> (r: bool)
    ensures
        r == (gopeed_status@ == "ready"@ || gopeed_status@ == "pause"@ || gopeed_status@ == "wait"@),
{
    str_eq(gopeed_status, "ready") || str_eq(gopeed_status, "pause") || str_eq(gopeed_status, "wait")
}

/// gopeed's configuration is updated when its `maxRunning` (0 when absent)
/// differs from the configured number.
pub fn config_needs_update(current: Option<i64>, max_running: i64) -> (r: bool)
    ensures
        r == (match current {
            Some(c) => c,
            None => 0,
        } != max_running),
{
    let c = match current {
        Some(c) => c,
        None => 0,
    };
    c != max_running
}

/// Pausing or resuming needs a task that gopeed knows: else 500 `任务不存在`.
pub fn require_gopeed_id(gopeed_id: &str) -> (r: Result<(), ApiError>)
    ensures
        gopeed_id@.len() == 0 ==> is_error(r, 500, "任务不存在"@),
        gopeed_id@.len() > 0 ==> r is Ok,
{
    if gopeed_id.is_empty() {
        return Err(ApiError::internal("任务不存在"));
    }
    Ok(())
}

/// A task with a gopeed id is removed from gopeed too.
pub fn remove_from_gopeed(gopeed_id: &str) -> (r: bool)
    ensures
        r == (gopeed_id@.len() > 0),
{
    !gopeed_id.is_empty()
}

/// Configured connections for UC links when none are saved.
pub const DEFAULT_UC_CONNECTIONS: i64 = 300;

/// Configured connections for plain links when none are saved.
pub const DEFAULT_HTTP_CONNECTIONS: i64 = 0;

/// Tasks gopeed runs at once when nothing is saved.
pub const DEFAULT_MAX_RUNNING: i64 = 3;

/// A configured number kept within its bounds (`clamp`).
pub fn clamp_i64(n: i64, min: i64, max: i64) -> (r: i64)
    requires
        min <= max,
    ensures
        r == (if n < min {
            min
        } else if n > max {
            max
        } else {
            n
        }),
{
    if n < min {
        min
    } else if n > max {
        max
    } else {
        n
    }
}

} // verus!
