use uc_drive2::access_log::{AccessLog, FLUSH_LINES};
use uc_drive2::config::{
    default_storage_dir, parse_port, port_file_path, requested_storage_dir, saved_storage_dir,
    settings_dirs, startup_dirs, strip_verbatim, Paths, PortSearch, Storage, BASE_PORT,
    PORT_TRIES,
};
use uc_drive2::gopeed::{
    continue_path, delete_path, pause_path, ready_step, reply_outcome, request_url,
    restart_still_wanted, spawn_args, task_path, GopeedManager, ReadyStep, MAX_RESTARTS,
};

#[test]
fn status_mapping() {
    assert_eq!(GopeedManager::map_status("ready"), "running");
    assert_eq!(GopeedManager::map_status("pause"), "paused");
    assert_eq!(GopeedManager::map_status("wait"), "queued");
    assert_eq!(GopeedManager::map_status("error"), "error");
    assert_eq!(GopeedManager::map_status("done"), "done");
}

#[test]
fn unknown_gopeed_status_is_queued() {
    assert_eq!(GopeedManager::map_status("running"), "running");
    assert_eq!(GopeedManager::map_status("whatever"), "queued");
}

#[test]
fn access_log_hands_out_a_full_buffer_at_once() {
    let mut log = AccessLog::new("/d/access.log");
    assert_eq!(log.path(), "/d/access.log");
    let mut expected = String::new();
    for i in 0..(FLUSH_LINES - 1) {
        let url = format!("/api/x/{i}");
        assert_eq!(log.push_line("T", "GET", &url), None);
        expected.push_str(&format!("T GET {url}\n"));
    }
    let chunk = log.push_line("T", "POST", "/last").unwrap();
    expected.push_str("T POST /last\n");
    assert_eq!(chunk, expected);
    assert_eq!(log.flush(), None);
}

#[test]
fn access_log_flush_hands_out_what_waits() {
    let mut log = AccessLog::new("a.log");
    assert_eq!(log.flush(), None);
    log.push_line("2026-01-01T00:00:00.000Z", "GET", "/api/health");
    log.push_line("2026-01-01T00:00:01.000Z", "PUT", "/api/cookie");
    assert_eq!(
        log.flush().unwrap(),
        "2026-01-01T00:00:00.000Z GET /api/health\n2026-01-01T00:00:01.000Z PUT /api/cookie\n"
    );
    assert_eq!(log.flush(), None);
    let stamped = log.push("GET", "/api/tree");
    assert_eq!(stamped, None);
    let text = log.flush().unwrap();
    assert!(text.ends_with(" GET /api/tree\n"));
}

#[test]
fn data_directory_layout() {
    let p = Paths::new("/home/u/.uc-drive2");
    assert_eq!(p.data_dir, "/home/u/.uc-drive2");
    assert_eq!(p.gopeed_dir, "/home/u/.uc-drive2/gopeed");
    assert_eq!(p.db_dir, "/home/u/.uc-drive2/data");
    assert_eq!(p.db_file, "/home/u/.uc-drive2/data/uc-drive.db");
    assert_eq!(p.port_file, "/home/u/.uc-drive2/server.port");
    assert_eq!(port_file_path("/d"), "/d/server.port");
    assert_eq!(default_storage_dir("/d", None), "/d/storage");
    assert_eq!(default_storage_dir("/d", Some("/x")), "/x");
}

#[test]
fn storage_root_can_move() {
    let mut s = Storage::new("/d/storage");
    assert_eq!(s.get(), "/d/storage");
    assert_eq!(s.offline_dir(), "/d/storage/offline");
    s.set("/e/store/");
    assert_eq!(s.get(), "/e/store/");
    assert_eq!(s.offline_dir(), "/e/store/offline");
    let p = Paths::new("/d");
    assert_eq!(
        startup_dirs(&p, &s),
        vec!["/d", "/d/gopeed", "/e/store/", "/e/store/offline", "/d/tmp"]
    );
    assert_eq!(
        settings_dirs(&p, &s),
        vec!["/d", "/d/data", "/d/gopeed", "/e/store/", "/e/store/offline", "/d/tmp"]
    );
    assert_eq!(requested_storage_dir(None), None);
    assert_eq!(requested_storage_dir(Some("   ")), None);
    assert_eq!(requested_storage_dir(Some(" /x ")).as_deref(), Some("/x"));
    assert_eq!(saved_storage_dir(""), None);
    assert_eq!(saved_storage_dir("/y").as_deref(), Some("/y"));
}

#[test]
fn port_search_moves_on_while_ports_are_taken() {
    let mut s = PortSearch::new(BASE_PORT, PORT_TRIES);
    assert_eq!(s.port(), 17210);
    assert!(s.on_refused(true));
    assert_eq!(s.port(), 17211);
    assert!(!s.on_refused(false));
    assert_eq!(s.port(), 17211);
    let mut one = PortSearch::new(100, 0);
    assert_eq!(one.tries, 1);
    assert!(!one.on_refused(true));
    let mut two = PortSearch::new(100, 2);
    assert!(two.on_refused(true));
    assert_eq!(two.port(), 101);
    assert!(!two.on_refused(true));
    let mut top = PortSearch::new(65535, 3);
    assert!(top.on_refused(true));
    assert_eq!(top.port(), 65535);
}

#[test]
fn port_file_is_read_back() {
    assert_eq!(parse_port(" 17211\n"), Some(17211));
    assert_eq!(parse_port("+80"), Some(80));
    assert_eq!(parse_port("70000"), None);
    assert_eq!(parse_port("abc"), None);
    assert_eq!(parse_port(""), None);
    assert_eq!(strip_verbatim("\\\\?\\C:\\app\\x"), "C:\\app\\x");
    assert_eq!(strip_verbatim("C:\\app"), "C:\\app");
}

#[test]
fn gopeed_restarts_are_bounded_and_stop_wins() {
    let mut m = GopeedManager::with_token("tok".to_string());
    assert!(!m.running());
    assert!(!m.begin_start());
    m.set_endpoint(9999);
    assert_eq!(m.port(), Some(9999));
    assert_eq!(m.base().as_deref(), Some("http://127.0.0.1:9999"));
    assert!(!m.ready());
    m.record_spawned(Some(42));
    assert!(m.ready());
    assert_eq!(m.pid(), Some(42));
    assert!(m.begin_start());
    assert!(m.child_exited());
    assert!(!m.running());
    assert_eq!(m.base(), None);
    for _ in 0..MAX_RESTARTS {
        assert!(m.schedule_restart());
    }
    assert!(!m.schedule_restart());
    assert!(!m.child_exited());
    let mut n = GopeedManager::with_token("t".to_string());
    n.record_spawned(Some(7));
    assert_eq!(n.begin_stop(), Some(7));
    assert!(!restart_still_wanted(&n));
    assert!(!n.schedule_restart());
    assert!(!n.child_exited());
    n.mark_exited();
    assert_eq!(n.pid(), None);
}

#[test]
fn gopeed_token_is_32_hex_digits() {
    let m = GopeedManager::new();
    let t = m.token();
    assert_eq!(t.len(), 32);
    assert!(t.chars().all(|c| c.is_ascii_hexdigit() && !c.is_ascii_uppercase()));
}

#[test]
fn gopeed_rest_paths() {
    assert_eq!(task_path("a b"), "/api/v1/tasks/a%20b");
    assert_eq!(pause_path("x"), "/api/v1/tasks/x/pause");
    assert_eq!(continue_path("x"), "/api/v1/tasks/x/continue");
    assert_eq!(delete_path("x", true), "/api/v1/tasks/x?force=true");
    assert_eq!(delete_path("x", false), "/api/v1/tasks/x?force=false");
    assert_eq!(
        spawn_args("127.0.0.1", 8080, "tk", "/s"),
        vec!["-A", "127.0.0.1", "-P", "8080", "-T", "tk", "-d", "/s"]
    );
    assert_eq!(request_url(Some("http://127.0.0.1:1"), "/api/v1/info").unwrap(), "http://127.0.0.1:1/api/v1/info");
    assert_eq!(request_url(None, "/x").unwrap_err(), "gopeed 未就绪");
    assert!(reply_outcome(Some(0), None).is_ok());
    assert_eq!(reply_outcome(Some(3), Some("bad".into())).unwrap_err(), "bad");
    assert_eq!(reply_outcome(None, None).unwrap_err(), "gopeed 请求失败");
    assert_eq!(ready_step(10, 10, true), ReadyStep::TimedOut);
    assert_eq!(ready_step(5, 10, false), ReadyStep::WaitForProcess);
    assert_eq!(ready_step(5, 10, true), ReadyStep::Probe);
}
