//! State of the gopeed-web download engine that the backend supervises:
//! its endpoint, its process, and the policy for restarting it after a crash.
//! Spawning the process and talking to its REST API is the caller's part.
use vstd::prelude::*;

use crate::text::{chars_eq_str, decimal, encode_bytes, encode_uri_component, push_all, push_char, push_decimal, to_chars};
use vstd::string::StringSliceAdditionalSpecFns;

verus! {

/// gopeed listens on the loopback interface only.
pub const HOST: &'static str = "127.0.0.1";

/// A crashed engine is restarted at most this many times.
pub const MAX_RESTARTS: u32 = 5;

/// What the supervisor announces to its subscribers.
#[derive(Debug, Clone, PartialEq, Eq, Structural)]
pub enum GopeedEvent {
    /// The engine answers on its REST API.
    Started,
    /// The process ended, with its exit code where it had one.
    Exited { code: Option<i32> },
}

/// Random bytes from the thread-local generator of `rand` (`RngCore::fill_bytes`).
#[verifier::external_body]
fn random_bytes_16() -> (r: [u8; 16]) {
    let mut bytes = [0u8; 16];
    rand::RngCore::fill_bytes(&mut rand::thread_rng(), &mut bytes);
    bytes
}

/// Two lower-case hex digits per byte (`format!("{b:02x}")`).
pub open spec fn hex_lower(b: Seq<u8>) -> Seq<char>
    decreases b.len(),
{
    if b.len() == 0 {
        Seq::empty()
    } else {
        hex_lower(b.drop_last()) + seq![lower_hex_digit(b.last() / 16), lower_hex_digit(b.last() % 16)]
    }
}

pub open spec fn lower_hex_digit(n: u8) -> char {
    if n < 10 {
        ((n + 0x30) as u8) as char
    } else {
        ((n + 0x57) as u8) as char
    }
}

/// Lower-case hex text of some bytes.
pub fn to_hex_lower(b: &[u8]) -> (s: String)
    ensures
        s@ == hex_lower(b@),
{
    let mut s = String::new();
    let mut i: usize = 0;
    while i < b.len()
        invariant
            i <= b.len(),
            s@ == hex_lower(b@.take(i as int)),
        decreases b.len() - i,
    {
        let x = b[i];
        let hi = x / 16;
        let lo = x % 16;
        let ghost before = s@;
        push_char(&mut s, if hi < 10 { (hi + 0x30) as char } else { (hi + 0x57) as char });
        push_char(&mut s, if lo < 10 { (lo + 0x30) as char } else { (lo + 0x57) as char });
        i = i + 1;
        assert(b@.take(i as int).drop_last() =~= b@.take((i - 1) as int));
        assert(s@ =~= before + seq![lower_hex_digit(x / 16), lower_hex_digit(x % 16)]);
    }
    assert(b@.take(b.len() as int) =~= b@);
    s
}

/// Engine state after `mapped_status`: gopeed's own status names mapped to the
/// task statuses of this application.
pub open spec fn map_status_spec(s: Seq<char>) -> Seq<char> {
    if s == "ready"@ || s == "running"@ {
        "running"@
    } else if s == "pause"@ {
        "paused"@
    } else if s == "wait"@ {
        "queued"@
    } else if s == "error"@ {
        "error"@
    } else if s == "done"@ {
        "done"@
    } else {
        "queued"@
    }
}

/// `http://127.0.0.1:port`.
pub open spec fn base_url_spec(port: u16) -> Seq<char> {
    "http://"@ + HOST@ + ":"@ + decimal(port as nat)
}

/// REST path of one gopeed task.
pub open spec fn task_path_spec(id_bytes: Seq<u8>) -> Seq<char> {
    "/api/v1/tasks/"@ + encode_bytes(id_bytes)
}

/// The engine supervisor: API token, current endpoint and process, and the
/// restart bookkeeping.
#[derive(Debug)]
pub struct GopeedManager {
    token: String,
    pid: Option<u32>,
    port: Option<u16>,
    base: Option<String>,
    stopping: bool,
    restarts: u32,
}

impl GopeedManager {
    pub closed spec fn token_view(&self) -> Seq<char> {
        self.token@
    }

    pub closed spec fn pid_view(&self) -> Option<u32> {
        self.pid
    }

    pub closed spec fn port_view(&self) -> Option<u16> {
        self.port
    }

    pub closed spec fn base_view(&self) -> Option<Seq<char>> {
        match self.base {
            Some(b) => Some(b@),
            None => None,
        }
    }

    pub closed spec fn stopping_view(&self) -> bool {
        self.stopping
    }

    pub closed spec fn restarts_view(&self) -> u32 {
        self.restarts
    }

    /// The bookkeeping is consistent: at most `MAX_RESTARTS` restarts, and an
    /// endpoint URL only together with its port.
    pub open spec fn wf(&self) -> bool {
        &&& self.restarts_view() <= MAX_RESTARTS
        &&& (self.base_view() matches Some(b) ==> self.port_view() matches Some(p) && b
            == base_url_spec(p))
    }

    /// A supervisor with the given API token and nothing started.
    pub fn with_token(token: String) -> (m: GopeedManager)
        ensures
            m.wf(),
            m.token_view() == token@,
            m.pid_view() is None,
            m.port_view() is None,
            m.base_view() is None,
            !m.stopping_view(),
            m.restarts_view() == 0,
    {
        GopeedManager { token, pid: None, port: None, base: None, stopping: false, restarts: 0 }
    }

    /// A supervisor with a fresh random token: 16 random bytes in lower-case hex.
    pub fn new() -> (m: GopeedManager)
        ensures
            m.wf(),
            m.token_view().len() == 32,
            m.pid_view() is None,
            m.base_view() is None,
            m.restarts_view() == 0,
            !m.stopping_view(),
    {
        let bytes = random_bytes_16();
        let token = to_hex_lower(&bytes);
        proof {
            lemma_hex_lower_len(bytes@);
        }
        GopeedManager::with_token(token)
    }

    pub fn token(&self) -> (t: String)
        ensures
            t@ == self.token_view(),
    {
        self.token.clone()
    }

    /// A process is alive.
    pub fn running(&self) -> (r: bool)
        ensures
            r == self.pid_view() is Some,
    {
        self.pid.is_some()
    }

    /// A process is alive and its endpoint is known.
    pub fn ready(&self) -> (r: bool)
        ensures
            r == (self.pid_view() is Some && self.base_view() is Some),
    {
        self.pid.is_some() && self.base.is_some()
    }

    pub fn pid(&self) -> (r: Option<u32>)
        ensures
            r == self.pid_view(),
    {
        self.pid
    }

    pub fn port(&self) -> (r: Option<u16>)
        ensures
            r == self.port_view(),
    {
        self.port
    }

    pub fn base(&self) -> (r: Option<String>)
        ensures
            r matches Some(b) ==> self.base_view() == Some(b@),
            r is None ==> self.base_view() is None,
    {
        match &self.base {
            Some(b) => Some(b.clone()),
            None => None,
        }
    }

    /// A start is asked for: nothing to do when a process runs; otherwise a
    /// stop that was asked for before is forgotten.
    pub fn begin_start(&mut self) -> (already_running: bool)
        requires
            old(self).wf(),
        ensures
            final(self).wf(),
            call_effect(*old(self), SupervisorCall::Start, *final(self), false),
            already_running == old(self).pid_view() is Some,
            already_running ==> *final(self) == *old(self),
            !already_running ==> !final(self).stopping_view() && final(self).restarts_view()
                == old(self).restarts_view() && final(self).pid_view() == old(self).pid_view()
                && final(self).base_view() == old(self).base_view() && final(self).port_view()
                == old(self).port_view() && final(self).token_view() == old(self).token_view(),
    {
        if self.pid.is_some() {
            return true;
        }
        self.stopping = false;
        false
    }

    /// The engine is to listen on `port`.
    pub fn set_endpoint(&mut self, port: u16)
        requires
            old(self).wf(),
        ensures
            final(self).wf(),
            call_effect(*old(self), SupervisorCall::Other, *final(self), false),
            final(self).port_view() == Some(port),
            final(self).base_view() == Some(base_url_spec(port)),
            final(self).pid_view() == old(self).pid_view(),
            final(self).stopping_view() == old(self).stopping_view(),
            final(self).restarts_view() == old(self).restarts_view(),
            final(self).token_view() == old(self).token_view(),
    {
        let mut base = String::new();
        push_all(&mut base, "http://");
        push_all(&mut base, HOST);
        push_all(&mut base, ":");
        push_decimal(&mut base, port as u64);
        self.port = Some(port);
        self.base = Some(base);
    }

    /// A process was spawned (its id, when the OS gave one).
    pub fn record_spawned(&mut self, pid: Option<u32>)
        requires
            old(self).wf(),
        ensures
            final(self).wf(),
            call_effect(*old(self), SupervisorCall::Other, *final(self), false),
            final(self).pid_view() == pid,
            final(self).base_view() == old(self).base_view(),
            final(self).port_view() == old(self).port_view(),
            final(self).stopping_view() == old(self).stopping_view(),
            final(self).restarts_view() == old(self).restarts_view(),
            final(self).token_view() == old(self).token_view(),
    {
        self.pid = pid;
    }

    /// The process could not be spawned, or is gone: no process, no endpoint.
    pub fn mark_exited(&mut self)
        requires
            old(self).wf(),
        ensures
            final(self).wf(),
            call_effect(*old(self), SupervisorCall::Other, *final(self), false),
            final(self).pid_view() is None,
            final(self).base_view() is None,
            final(self).port_view() == old(self).port_view(),
            final(self).stopping_view() == old(self).stopping_view(),
            final(self).restarts_view() == old(self).restarts_view(),
            final(self).token_view() == old(self).token_view(),
    {
        self.pid = None;
        self.base = None;
    }

    /// The child process exited.  Returns whether a restart should be scheduled:
    /// only when no stop was asked for and the restart budget is not used up.
    pub fn child_exited(&mut self) -> (should_restart: bool)
        requires
            old(self).wf(),
        ensures
            final(self).wf(),
            call_effect(*old(self), SupervisorCall::Other, *final(self), false),
            final(self).pid_view() is None,
            final(self).base_view() is None,
            final(self).port_view() == old(self).port_view(),
            final(self).stopping_view() == old(self).stopping_view(),
            final(self).restarts_view() == old(self).restarts_view(),
            final(self).token_view() == old(self).token_view(),
            should_restart == (!old(self).stopping_view() && old(self).restarts_view()
                < MAX_RESTARTS),
    {
        self.pid = None;
        self.base = None;
        !self.stopping && self.restarts < MAX_RESTARTS
    }

    /// Books one restart.  Returns false, and books nothing, when a stop was
    /// asked for or the budget is used up.
    pub fn schedule_restart(&mut self) -> (scheduled: bool)
        requires
            old(self).wf(),
        ensures
            final(self).wf(),
            call_effect(*old(self), SupervisorCall::Schedule, *final(self), scheduled),
            scheduled == (!old(self).stopping_view() && old(self).restarts_view() < MAX_RESTARTS),
            scheduled ==> final(self).restarts_view() == old(self).restarts_view() + 1,
            !scheduled ==> final(self).restarts_view() == old(self).restarts_view(),
            final(self).pid_view() == old(self).pid_view(),
            final(self).base_view() == old(self).base_view(),
            final(self).port_view() == old(self).port_view(),
            final(self).stopping_view() == old(self).stopping_view(),
            final(self).token_view() == old(self).token_view(),
    {
        if self.stopping || self.restarts >= MAX_RESTARTS {
            false
        } else {
            self.restarts = self.restarts + 1;
            true
        }
    }

    /// A stop is asked for.  Returns the process to terminate, if any.
    pub fn begin_stop(&mut self) -> (pid: Option<u32>)
        requires
            old(self).wf(),
        ensures
            final(self).wf(),
            call_effect(*old(self), SupervisorCall::Stop, *final(self), false),
            final(self).stopping_view(),
            pid == old(self).pid_view(),
            final(self).pid_view() == old(self).pid_view(),
            final(self).base_view() == old(self).base_view(),
            final(self).port_view() == old(self).port_view(),
            final(self).restarts_view() == old(self).restarts_view(),
            final(self).token_view() == old(self).token_view(),
    {
        self.stopping = true;
        self.pid
    }

    /// Maps a gopeed task status to a task status of this application.
    pub fn map_status(status: &str) -> (r: &'static str)
        ensures
            r@ == map_status_spec(status@),
    {
        let v = to_chars(status);
        if chars_eq_str(&v, "ready") || chars_eq_str(&v, "running") {
            "running"
        } else if chars_eq_str(&v, "pause") {
            "paused"
        } else if chars_eq_str(&v, "wait") {
            "queued"
        } else if chars_eq_str(&v, "error") {
            "error"
        } else if chars_eq_str(&v, "done") {
            "done"
        } else {
            "queued"
        }
    }
}

proof fn lemma_hex_lower_len(b: Seq<u8>)
    ensures
        hex_lower(b).len() == 2 * b.len(),
    decreases b.len(),
{
    if b.len() > 0 {
        lemma_hex_lower_len(b.drop_last());
    }
}

/// `/api/v1/tasks/{id}`, the id percent-encoded.
pub fn task_path(id: &str) -> (p: String)
    ensures
        p@ == task_path_spec(id.spec_bytes()),
{
    let mut p = String::new();
    push_all(&mut p, "/api/v1/tasks/");
    let e = encode_uri_component(id);
    push_all(&mut p, e.as_str());
    p
}

/// `/api/v1/tasks/{id}/pause`.
pub fn pause_path(id: &str) -> (p: String)
    ensures
        p@ == task_path_spec(id.spec_bytes()) + "/pause"@,
{
    let mut p = task_path(id);
    push_all(&mut p, "/pause");
    p
}

/// `/api/v1/tasks/{id}/continue`.
pub fn continue_path(id: &str) -> (p: String)
    ensures
        p@ == task_path_spec(id.spec_bytes()) + "/continue"@,
{
    let mut p = task_path(id);
    push_all(&mut p, "/continue");
    p
}

/// `/api/v1/tasks/{id}?force=true|false`.
pub fn delete_path(id: &str, force: bool) -> (p: String)
    ensures
        p@ == task_path_spec(id.spec_bytes()) + "?force="@ + (if force {
            "true"@
        } else {
            "false"@
        }),
{
    let mut p = task_path(id);
    push_all(&mut p, "?force=");
    if force {
        push_all(&mut p, "true");
    } else {
        push_all(&mut p, "false");
    }
    p
}

/// The calls that change the restart bookkeeping of a [`GopeedManager`].
pub enum SupervisorCall {
    /// [`GopeedManager::begin_start`].
    Start,
    /// [`GopeedManager::begin_stop`].
    Stop,
    /// [`GopeedManager::schedule_restart`].
    Schedule,
    /// Any other call of the supervisor, which keeps the bookkeeping.
    Other,
}

/// What one call does to the stop flag and the restart count, and whether it
/// booked a restart.
pub open spec fn call_effect(pre: GopeedManager, call: SupervisorCall, post: GopeedManager, scheduled: bool) -> bool {
    match call {
        SupervisorCall::Start => !scheduled && post.restarts_view() == pre.restarts_view() && (
        post.stopping_view() ==> pre.stopping_view()),
        SupervisorCall::Stop => !scheduled && post.restarts_view() == pre.restarts_view()
            && post.stopping_view(),
        SupervisorCall::Schedule => scheduled == (!pre.stopping_view() && pre.restarts_view()
            < MAX_RESTARTS) && post.stopping_view() == pre.stopping_view() && post.restarts_view()
            == pre.restarts_view() + (if scheduled {
            1int
        } else {
            0int
        }),
        SupervisorCall::Other => !scheduled && post.restarts_view() == pre.restarts_view()
            && post.stopping_view() == pre.stopping_view(),
    }
}

/// How many of the flags are set.
pub open spec fn count_set(flags: Seq<bool>) -> nat
    decreases flags.len(),
{
    if flags.len() == 0 {
        0
    } else {
        count_set(flags.drop_last()) + (if flags.last() {
            1nat
        } else {
            0nat
        })
    }
}

/// `states[0]`, `calls[0]`, `states[1]`, … is a run of the supervisor in
/// which call `i` took `states[i]` to `states[i + 1]` and booked a restart
/// when `booked[i]`.
pub open spec fn supervisor_run(states: Seq<GopeedManager>, calls: Seq<SupervisorCall>, booked: Seq<bool>) -> bool {
    &&& states.len() == calls.len() + 1
    &&& booked.len() == calls.len()
    &&& forall|i: int| 0 <= i < calls.len() ==> call_effect(
        #[trigger] states[i],
        calls[i],
        states[i + 1],
        booked[i],
    )
}

proof fn lemma_run_counts(states: Seq<GopeedManager>, calls: Seq<SupervisorCall>, booked: Seq<bool>)
    requires
        supervisor_run(states, calls, booked),
        states[0].restarts_view() <= MAX_RESTARTS,
    ensures
        states.last().restarts_view() == states[0].restarts_view() + count_set(booked),
        states.last().restarts_view() <= MAX_RESTARTS,
    decreases calls.len(),
{
    if calls.len() > 0 {
        let n = calls.len() - 1;
        assert(supervisor_run(states.drop_last(), calls.drop_last(), booked.drop_last())) by {
            assert forall|i: int| 0 <= i < calls.drop_last().len() implies call_effect(
                #[trigger] states.drop_last()[i],
                calls.drop_last()[i],
                states.drop_last()[i + 1],
                booked.drop_last()[i],
            ) by {
                assert(call_effect(states[i], calls[i], states[i + 1], booked[i]));
            }
        }
        lemma_run_counts(states.drop_last(), calls.drop_last(), booked.drop_last());
        assert(call_effect(states[n], calls[n], states[n + 1], booked[n]));
    }
}

proof fn lemma_stop_holds(states: Seq<GopeedManager>, calls: Seq<SupervisorCall>, booked: Seq<bool>, j: int, k: int)
    requires
        supervisor_run(states, calls, booked),
        0 <= j < k <= calls.len(),
        calls[j] is Stop,
        forall|m: int| j < m < k ==> !(#[trigger] calls[m] is Start),
    ensures
        states[k].stopping_view(),
    decreases k - j,
{
    assert(call_effect(states[k - 1], calls[k - 1], states[k], booked[k - 1]));
    if k - 1 > j {
        lemma_stop_holds(states, calls, booked, j, k - 1);
    }
}

/// Crash restarts of gopeed are bounded and a stop wins: over any run of
/// the supervisor, the restarts booked are exactly what the count grew by,
/// so a supervisor that starts with `r` booked restarts books at most
/// `MAX_RESTARTS - r` more; and after a stop, no restart is booked until a
/// start is asked for again.
pub proof fn law_restarts_bounded(states: Seq<GopeedManager>, calls: Seq<SupervisorCall>, booked: Seq<bool>)
    requires
        supervisor_run(states, calls, booked),
        states[0].wf(),
    ensures
        count_set(booked) == states.last().restarts_view() - states[0].restarts_view(),
        count_set(booked) <= MAX_RESTARTS - states[0].restarts_view(),
        forall|j: int, i: int|
            0 <= j < i < calls.len() && calls[j] is Stop && (forall|m: int|
                j < m < i ==> !(#[trigger] calls[m] is Start)) ==> !booked[i],
{
    lemma_run_counts(states, calls, booked);
    assert forall|j: int, i: int|
        0 <= j < i < calls.len() && calls[j] is Stop && (forall|m: int|
            j < m < i ==> !(#[trigger] calls[m] is Start)) implies !booked[i] by {
        lemma_stop_holds(states, calls, booked, j, i);
        assert(call_effect(states[i], calls[i], states[i + 1], booked[i]));
    }
}

/// Whether a stop asked for meanwhile cancels a restart that is due now.
pub fn restart_still_wanted(m: &GopeedManager) -> (r: bool)
    ensures
        r == !m.stopping_view(),
{
    !m.stopping
}


/// The command line gopeed is started with: address, port, API token and
/// storage directory.
pub fn spawn_args(host: &str, port: u16, token: &str, storage_dir: &str) -> (v: Vec<String>)
    ensures
        v@.map_values(|s: String| s@) == seq![
            "-A"@,
            host@,
            "-P"@,
            decimal(port as nat),
            "-T"@,
            token@,
            "-d"@,
            storage_dir@,
        ],
{
    let mut v: Vec<String> = Vec::new();
    v.push("-A".to_owned());
    v.push(host.to_owned());
    v.push("-P".to_owned());
    let mut p = String::new();
    push_decimal(&mut p, port as u64);
    assert(p@ =~= decimal(port as nat));
    v.push(p);
    v.push("-T".to_owned());
    v.push(token.to_owned());
    v.push("-d".to_owned());
    v.push(storage_dir.to_owned());
    assert(v@.map_values(|s: String| s@) =~= seq![
        "-A"@,
        host@,
        "-P"@,
        decimal(port as nat),
        "-T"@,
        token@,
        "-d"@,
        storage_dir@,
    ]);
    v
}

/// The URL of a REST call: the engine's base followed by the path, or
/// `gopeed 未就绪` while the engine has no endpoint.
pub fn request_url(base: Option<&str>, path: &str) -> (r: Result<String, String>)
    ensures
        match base {
            Some(b) => match r {
                Ok(u) => u@ == b@ + path@,
                Err(_) => false,
            },
            None => match r {
                Ok(_) => false,
                Err(m) => m@ == "gopeed 未就绪"@,
            },
        },
{
    match base {
        Some(b) => {
            let mut u = b.to_owned();
            push_all(&mut u, path);
            Ok(u)
        },
        None => Err("gopeed 未就绪".to_owned()),
    }
}

/// The outcome of a REST call from its answer's `code` (absent, or not an
/// integer, reads as -1; an answer that is not JSON has `code` -1 and `msg`
/// `bad response`) and `msg`: success on code 0, else the message, or
/// `gopeed 请求失败` when there is none.
pub fn reply_outcome(code: Option<i64>, msg: Option<String>) -> (r: Result<(), String>)
    ensures
        ({
            let c: int = match code {
                Some(c) => c as int,
                None => -1,
            };
            &&& c == 0 ==> r is Ok
            &&& c != 0 ==> match r {
                Ok(_) => false,
                Err(m) => m@ == match msg {
                    Some(t) => t@,
                    None => "gopeed 请求失败"@,
                },
            }
        }),
{
    let c = match code {
        Some(c) => c,
        None => -1,
    };
    if c != 0 {
        return Err(
            match msg {
                Some(t) => t,
                None => "gopeed 请求失败".to_owned(),
            },
        );
    }
    Ok(())
}

/// What waiting for the engine to answer does next.
#[derive(Debug, Clone, Copy, PartialEq, Eq, Structural)]
pub enum ReadyStep {
    /// Give up: `gopeed 启动超时`.
    TimedOut,
    /// No process yet: look again after 200 ms.
    WaitForProcess,
    /// Ask the engine for its info.
    Probe,
}

/// Milliseconds between two looks for the process.
pub const PROCESS_POLL_MS: u64 = 200;

/// Milliseconds between two probes of the engine.
pub const PROBE_POLL_MS: u64 = 400;

/// The next step of waiting for the engine, at time `now` with the deadline
/// `deadline`: time out at the deadline, wait while no process runs, probe
/// otherwise.  (A probe that answers ends the wait; one that fails is tried
/// again after 400 ms.)
pub fn ready_step(now: u64, deadline: u64, running: bool) -> (s: ReadyStep)
    ensures
        now >= deadline ==> s == ReadyStep::TimedOut,
        now < deadline && !running ==> s == ReadyStep::WaitForProcess,
        now < deadline && running ==> s == ReadyStep::Probe,
{
    if now >= deadline {
        ReadyStep::TimedOut
    } else if !running {
        ReadyStep::WaitForProcess
    } else {
        ReadyStep::Probe
    }
}

} // verus!
