use uc_drive2::download::{check_downloadable, parse_range, plan_download, DownloadPlan, ParsedRange};
use uc_drive2::error::{busy_io, is_cross_device, ApiError, IoFailure, IoKind};
use uc_drive2::mime::{is_previewable, mime_of};
use uc_drive2::models::{parent_from_query, parse_parent_string, JsonParent, ParentRef};
use uc_drive2::routes::{
    add_upload_chunk, check_cookie_input, check_torrent_upload, check_upload_count, patch_parent,
    push_hex, random_suffix, require_config_fields, require_dir_name, require_files, search_text,
    upload_tmp_name, MAX_UPLOAD_FILE_SIZE,
};
use uc_drive2::tasks::{
    classify_error_message, clamp_i64, clean_task_name, config_needs_update, file_url,
    is_torrent_path, remove_from_gopeed, require_gopeed_id, resolve_task_link, should_resume,
    task_connections, task_dir_name, valid_task_url, LocalTask, RemoteTask, RowSync, SyncAction,
    TorrentRef, UcErrorClass,
};
use uc_drive2::text::{basename_of, encode_uri_component, norm_path, parse_i64, trim_str};

#[test]
fn range_parsing() {
    assert!(matches!(parse_range(None, 20), ParsedRange::NoRange));
    assert!(matches!(parse_range(Some("bytes=2-5"), 20), ParsedRange::Partial { start: 2, end: 5 }));
    assert!(matches!(parse_range(Some("bytes=-4"), 20), ParsedRange::Partial { start: 16, end: 19 }));
    assert!(matches!(parse_range(Some("bytes=50-60"), 20), ParsedRange::Invalid));
}

#[test]
fn more_ranges() {
    assert!(matches!(parse_range(Some("bytes=5-"), 20), ParsedRange::Partial { start: 5, end: 19 }));
    assert!(matches!(parse_range(Some("bytes=5-100"), 20), ParsedRange::Partial { start: 5, end: 19 }));
    assert!(matches!(parse_range(Some("bytes=-"), 20), ParsedRange::NoRange));
    assert!(matches!(parse_range(Some("items=1-2"), 20), ParsedRange::NoRange));
    assert!(matches!(parse_range(Some("bytes=0-0"), 0), ParsedRange::Invalid));
    assert!(matches!(parse_range(Some("bytes=x-2"), 20), ParsedRange::NoRange));
}

#[test]
fn download_replies() {
    assert_eq!(check_downloadable(true, true).unwrap_err().message, "目录不可下载");
    assert_eq!(check_downloadable(false, false).unwrap_err().status, 404);
    assert!(check_downloadable(false, true).is_ok());
    match plan_download("text/plain", "说明.txt", 20, Some("bytes=2-5"), None) {
        DownloadPlan::Send { status, content_type, content_disposition, content_range, content_length, start } => {
            assert_eq!(status, 206);
            assert_eq!(content_type, "text/plain");
            assert_eq!(content_disposition, "inline; filename*=UTF-8''%E8%AF%B4%E6%98%8E.txt");
            assert_eq!(content_range.as_deref(), Some("bytes 2-5/20"));
            assert_eq!(content_length, 4);
            assert_eq!(start, 2);
        }
        other => panic!("unexpected {other:?}"),
    }
    match plan_download("", "a.zip", 20, None, None) {
        DownloadPlan::Send { status, content_type, content_disposition, content_range, content_length, start } => {
            assert_eq!(status, 200);
            assert_eq!(content_type, "application/zip");
            assert_eq!(content_disposition, "attachment; filename*=UTF-8''a.zip");
            assert_eq!(content_range, None);
            assert_eq!(content_length, 20);
            assert_eq!(start, 0);
        }
        other => panic!("unexpected {other:?}"),
    }
    match plan_download("application/zip", "a.zip", 20, None, Some("1")) {
        DownloadPlan::Send { content_disposition, .. } => assert!(content_disposition.starts_with("inline;")),
        other => panic!("unexpected {other:?}"),
    }
    match plan_download("text/plain", "a", 20, Some("bytes=50-60"), None) {
        DownloadPlan::Unsatisfiable { unsatisfied_range } => assert_eq!(unsatisfied_range, "bytes */20"),
        other => panic!("unexpected {other:?}"),
    }
}

#[test]
fn io_failures_become_answers() {
    let e = ApiError::from_io(&IoFailure { kind: IoKind::PermissionDenied, raw_os_error: Some(5), message: "denied".into() });
    assert_eq!(e.status, 400);
    assert!(is_cross_device(&IoFailure { kind: IoKind::Other, raw_os_error: Some(17), message: String::new() }));
    assert!(is_cross_device(&IoFailure { kind: IoKind::CrossesDevices, raw_os_error: None, message: String::new() }));
    assert!(busy_io(&IoFailure { kind: IoKind::WouldBlock, raw_os_error: None, message: String::new() }));
    assert!(!busy_io(&IoFailure { kind: IoKind::NotFound, raw_os_error: Some(2), message: String::new() }));
    let k = ApiError::with_kind(403, "m", "cookie_expired");
    assert_eq!(k.kind.as_deref(), Some("cookie_expired"));
    assert_eq!(ApiError::too_large("big").status, 413);
}

#[test]
fn busy_resources_are_bad_requests() {
    let by_kind = ApiError::from_io(&IoFailure { kind: IoKind::ResourceBusy, raw_os_error: None, message: "busy".into() });
    assert_eq!(by_kind.status, 400);
    let by_code = ApiError::from_io(&IoFailure { kind: IoKind::Other, raw_os_error: Some(16), message: "busy".into() });
    assert_eq!(by_code.status, 400);
    assert_eq!(by_code.message, "busy");
    let other = ApiError::from_io(&IoFailure { kind: IoKind::Other, raw_os_error: Some(28), message: "full".into() });
    assert_eq!(other.status, 500);
    assert_eq!(ApiError::from_io(&IoFailure { kind: IoKind::NotFound, raw_os_error: Some(2), message: "gone".into() }).status, 404);
}

#[test]
fn types_of_files() {
    assert_eq!(mime_of("a.PNG"), "image/png");
    assert_eq!(mime_of("说明.txt"), "text/plain");
    assert_eq!(mime_of("noext"), "application/octet-stream");
    assert_eq!(mime_of("a."), "application/octet-stream");
    assert_eq!(mime_of("x.unknown"), "application/octet-stream");
    assert!(is_previewable("image/png"));
    assert!(is_previewable("text/markdown"));
    assert!(!is_previewable("application/pdf"));
}

#[test]
fn parent_arguments() {
    assert_eq!(ParentRef::parse(&JsonParent::Missing), ParentRef::Root);
    assert_eq!(ParentRef::parse(&JsonParent::Null), ParentRef::Root);
    assert_eq!(ParentRef::parse(&JsonParent::Str("root".into())), ParentRef::Root);
    assert_eq!(ParentRef::parse(&JsonParent::Str(" 12 ".into())), ParentRef::Id(12));
    assert_eq!(ParentRef::parse(&JsonParent::Str("x".into())), ParentRef::Invalid);
    assert_eq!(ParentRef::parse(&JsonParent::Int(-3)), ParentRef::Id(-3));
    assert_eq!(ParentRef::parse(&JsonParent::OtherNumber), ParentRef::Invalid);
    assert_eq!(parent_from_query(None), ParentRef::Root);
    assert_eq!(parent_from_query(Some("root")), ParentRef::Root);
    assert_eq!(parent_from_query(Some("7")), ParentRef::Id(7));
    assert_eq!(parent_from_query(Some(" 7")), ParentRef::Invalid);
    assert_eq!(parse_parent_string(Some(" 8 ")), ParentRef::Id(8));
    assert_eq!(parse_parent_string(Some("x")), ParentRef::Invalid);
}

#[test]
fn upload_checks() {
    assert_eq!(add_upload_chunk(10, 5).unwrap(), 15);
    assert_eq!(add_upload_chunk(MAX_UPLOAD_FILE_SIZE, 1).unwrap_err().message, "文件过大");
    assert_eq!(add_upload_chunk(u64::MAX, 1).unwrap_err().status, 413);
    assert!(add_upload_chunk(MAX_UPLOAD_FILE_SIZE - 1, 1).is_ok());
    assert_eq!(check_upload_count(101).unwrap_err().message, "Unexpected field");
    assert!(check_upload_count(100).is_ok());
    assert_eq!(require_files(0).unwrap_err().message, "未收到文件");
    assert!(check_torrent_upload("x.TORRENT").is_ok());
    assert_eq!(check_torrent_upload("not.txt").unwrap_err().message, "仅支持 .torrent 文件");
    let mut h = String::new();
    push_hex(&mut h, 255);
    assert_eq!(h, "ff");
    let s = random_suffix();
    assert!(!s.is_empty() && s.len() <= 16 && s.chars().all(|c| c.is_ascii_hexdigit()));
    assert_eq!(upload_tmp_name(12, "ab", "C:\\x\\y.txt"), "12-ab-y.txt");
}

#[test]
fn request_field_checks() {
    assert_eq!(patch_parent(false, None).unwrap_err().message, "没有可更新的字段");
    assert_eq!(patch_parent(true, None).unwrap(), None);
    assert_eq!(patch_parent(false, Some(ParentRef::Root)).unwrap(), Some(None));
    assert_eq!(patch_parent(false, Some(ParentRef::Id(4))).unwrap(), Some(Some(4)));
    assert_eq!(patch_parent(true, Some(ParentRef::Invalid)).unwrap_err().status, 404);
    assert_eq!(require_dir_name(None).unwrap_err().message, "缺少目录名");
    assert_eq!(require_dir_name(Some("d".into())).unwrap(), "d");
    assert_eq!(require_config_fields(0).unwrap_err().message, "没有可更新的参数");
    assert_eq!(check_cookie_input(" \t").unwrap_err().message, "Cookie 不能为空");
    assert!(check_cookie_input("a=1").is_ok());
    assert_eq!(search_text(Some("  改名 ")).as_deref(), Some("改名"));
    assert_eq!(search_text(Some("   ")), None);
    assert_eq!(search_text(None), None);
}

#[test]
fn uc_errors_are_classified() {
    assert_eq!(classify_error_message("Require Login"), UcErrorClass::CookieExpired);
    assert_eq!(classify_error_message("HTTP 403 Forbidden"), UcErrorClass::Retry);
    assert_eq!(classify_error_message("unexpected eof"), UcErrorClass::Unknown);
}

#[test]
fn new_task_links() {
    assert!(valid_task_url("HTTP://example.com/a"));
    assert!(valid_task_url("magnet:?xt=1"));
    assert!(!valid_task_url("not-a-url"));
    assert!(!valid_task_url(""));
    assert!(is_torrent_path("C:/t/A.Torrent"));
    assert_eq!(file_url("C:\\a\\b.torrent"), "file:///C:/a/b.torrent");
    let link = resolve_task_link("http://example.com/data.bin", &TorrentRef::NoTorrent).unwrap();
    assert_eq!(link.url, "http://example.com/data.bin");
    assert_eq!(link.temporary_torrent, None);
    let e = resolve_task_link("not-a-url", &TorrentRef::NoTorrent).unwrap_err();
    assert_eq!(e.status, 500);
    assert_eq!(e.message, "链接不合法");
    let up = TorrentRef::Uploaded { path: "/d/tmp/torrents/x.torrent".into(), exists: true };
    let link = resolve_task_link("", &up).unwrap();
    assert_eq!(link.url, "file:////d/tmp/torrents/x.torrent");
    assert_eq!(link.temporary_torrent.as_deref(), Some("/d/tmp/torrents/x.torrent"));
    let missing = TorrentRef::Uploaded { path: "/d/x.torrent".into(), exists: false };
    assert_eq!(resolve_task_link("", &missing).unwrap_err().message, "无效的 torrent 文件");
    let stored = TorrentRef::Stored { row_path: Some("/s/a.txt".into()) };
    assert_eq!(resolve_task_link("", &stored).unwrap_err().message, "无效的 torrent 文件");
}

#[test]
fn task_settings_and_names() {
    assert_eq!(task_connections(None, "uc", 300, 0), Some(300));
    assert_eq!(task_connections(None, "url", 300, 0), None);
    assert_eq!(task_connections(Some(64), "url", 300, 0), Some(64));
    assert_eq!(task_connections(Some(64), "magnet", 300, 0), None);
    assert_eq!(task_dir_name(5, None), "task-5");
    assert_eq!(task_dir_name(1700000000000, Some(7)), "task-1700000000000-7");
    assert_eq!(clean_task_name("a:b/c", 1), "a_b_c");
    assert_eq!(clean_task_name("", 7), "任务-7");
    assert!(should_resume("pause"));
    assert!(!should_resume("running"));
    assert!(config_needs_update(None, 3));
    assert!(!config_needs_update(Some(3), 3));
    assert_eq!(require_gopeed_id("").unwrap_err().message, "任务不存在");
    assert!(require_gopeed_id("g").is_ok());
    assert!(remove_from_gopeed("g"));
    assert!(!remove_from_gopeed(""));
    assert_eq!(clamp_i64(99, 1, 10), 10);
    assert_eq!(clamp_i64(-5, 0, 1000), 0);
    assert_eq!(clamp_i64(7, 1, 10), 7);
}

fn local(status: &str, is_uc: bool) -> LocalTask {
    LocalTask { status: status.into(), error: "old".into(), is_uc, has_total: false }
}

fn remote(status: &str, size: Option<u64>, downloaded: Option<u64>) -> RemoteTask {
    RemoteTask { status: status.into(), error: String::new(), name: Some("speed.bin".into()), size, res_size: None, downloaded }
}

#[test]
fn sync_round_decisions() {
    let sync = RowSync { local: local("queued", false), remote: remote("running", Some(2048), Some(4096)) };
    match sync.start() {
        SyncAction::Finish(u) => {
            assert_eq!(u.status, "running");
            assert_eq!(u.total, 2048);
            assert_eq!(u.downloaded, 2048);
            assert!(u.record_total);
            assert!(u.running);
            assert_eq!(u.error, "old");
        }
        other => panic!("unexpected {other:?}"),
    }
    let done = RowSync { local: local("running", false), remote: remote("done", None, None) };
    match done.start() {
        SyncAction::Register { name } => assert_eq!(name, "speed.bin"),
        other => panic!("unexpected {other:?}"),
    }
    match done.after_register(Some("boom")) {
        SyncAction::MarkRegisterFailed { error } => assert_eq!(error, "文件登记失败: boom"),
        other => panic!("unexpected {other:?}"),
    }
    match done.after_register(None) {
        SyncAction::Finish(u) => {
            assert!(u.done);
            assert_eq!(u.error, "");
        }
        other => panic!("unexpected {other:?}"),
    }
    let failed = RowSync {
        local: local("running", true),
        remote: RemoteTask { status: "error".into(), error: "signature expired".into(), name: None, size: None, res_size: None, downloaded: None },
    };
    assert!(matches!(failed.start(), SyncAction::Refresh));
    assert!(matches!(failed.after_probe("cookie_expired"), SyncAction::MarkCookieExpired { .. }));
    assert!(matches!(failed.after_refresh(true), SyncAction::Skip));
}

#[test]
fn text_helpers() {
    assert_eq!(encode_uri_component("a b/中-_.!~*'()"), "a%20b%2F%E4%B8%AD-_.!~*'()");
    assert_eq!(basename_of("a\\b/c.txt"), "c.txt");
    assert_eq!(trim_str("  x y \n"), "x y");
    assert_eq!(parse_i64("-12"), Some(-12));
    assert_eq!(parse_i64("9223372036854775808"), None);
    assert_eq!(norm_path("C:\\a\\b"), "C:/a/b");
}
