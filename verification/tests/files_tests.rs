use uc_drive2::error::{IoFailure, IoKind};
use uc_drive2::files::{
    after_delete_failure, assert_inside, assert_inside_checked, build_tree, check_dir_name,
    check_move_target, dir_of_path, download_layout, entries_path_contains, entry_path_of,
    file_name_or_empty, finished_row, io_error, move_destination, moved_path,
    multi_destination, parent_chain, parent_id, plan_list_sync, plan_storage_move, relative_suffix,
    relative_suffix_checked, rename_name, rename_new_parent, rewrite_descendants,
    same_storage_root, scan_order, single_destination, unique_dir, unique_path, DirEntryInfo, FreeNameSearch,
    DirRow, DownloadLayout, FileRow, RemoveStep,
};
use uc_drive2::models::ParentRef;
use uc_drive2::text::valid_name;

#[test]
fn name_validation_and_unique_paths() {
    let p = "/tmp/dir/a.txt";
    let candidate = unique_path(p, 1);
    assert_eq!(file_name_or_empty(&candidate), "a (1).txt");
    assert!(!valid_name("a/b"));
    assert!(valid_name("中文文件"));
}

#[test]
fn unique_names_number_the_stem() {
    assert_eq!(unique_path("/s/a.txt", 0), "/s/a.txt");
    assert_eq!(unique_path("/s/a.txt", 2), "/s/a (2).txt");
    assert_eq!(unique_path("/s/archive.tar.gz", 1), "/s/archive.tar (1).gz");
    assert_eq!(unique_path("/s/noext", 3), "/s/noext (3)");
    assert_eq!(unique_path("/s/.hidden", 1), "/s/.hidden (1)");
    let names: Vec<String> = (1..6).map(|i| unique_path("/s/x.md", i)).collect();
    for i in 0..names.len() {
        for j in 0..names.len() {
            if i != j {
                assert_ne!(names[i], names[j]);
            }
        }
    }
    assert_eq!(unique_dir("/s", "任务", 0), "/s/任务");
    assert_eq!(unique_dir("/s", "任务", 2), "/s/任务 (2)");
}

#[test]
fn suffix_relative_to_the_root() {
    assert_eq!(relative_suffix("C:/Data", "c:/data/a/b.txt").as_deref(), Some("a/b.txt"));
    assert_eq!(relative_suffix("C:/Data/", "C:\\Data").as_deref(), Some(""));
    assert_eq!(relative_suffix("", "x/y").as_deref(), Some("x/y"));
    assert_eq!(relative_suffix("/data", "/database/x"), None);
    assert_eq!(relative_suffix("/data", "/data"), Some(String::new()));
    assert_eq!(relative_suffix("/data", "/other"), None);
    assert_eq!(relative_suffix_checked("/data", "/data/中文"), Some(Some("中文".to_string())));
}

#[test]
fn paths_outside_the_root_are_refused() {
    assert!(assert_inside("/s", "/s/x").is_ok());
    let e = assert_inside("/s", "/t/x").unwrap_err();
    assert_eq!(e.status, 400);
    assert_eq!(e.message, "非法路径");
    assert!(assert_inside_checked("/s", "/s").unwrap().is_ok());
}

#[test]
fn rows_become_transfer_objects() {
    let row = FileRow {
        id: 3,
        name: "a.txt".into(),
        parent_id: Some(1),
        is_dir: false,
        path: "/s/a.txt".into(),
        size: 12,
        mime: "text/plain".into(),
        created_at: "c".into(),
        updated_at: "u".into(),
    };
    let d = row.dto();
    assert_eq!(d.id, 3);
    assert_eq!(d.name, "a.txt");
    assert_eq!(d.parent_id, Some(1));
    assert_eq!(d.path, "/s/a.txt");
    assert_eq!(d.size, 12);
    assert_eq!(d.mime, "text/plain");
    assert_eq!(d.created_at, "c");
    assert_eq!(d.updated_at, "u");
}

#[test]
fn parent_references_become_columns() {
    assert_eq!(parent_id(&ParentRef::Root).unwrap(), None);
    assert_eq!(parent_id(&ParentRef::Id(4)).unwrap(), Some(4));
    let e = parent_id(&ParentRef::Invalid).unwrap_err();
    assert_eq!(e.status, 404);
    assert_eq!(e.message, "目录不存在");
    let e = io_error(&IoFailure { kind: IoKind::NotFound, raw_os_error: Some(2), message: "gone".into() });
    assert_eq!(e.status, 404);
    assert_eq!(e.message, "gone");
}

#[test]
fn joining_paths() {
    assert_eq!(entry_path_of("/s", "x"), "/s/x");
    assert_eq!(entry_path_of("/s/", "x"), "/s/x");
    assert_eq!(entry_path_of("C:\\s", "x"), "C:/s/x");
    assert_eq!(dir_of_path("/s/a.txt"), "/s");
    assert_eq!(dir_of_path("/"), ".");
}

fn entry(name: &str, is_dir: bool, size: u64) -> DirEntryInfo {
    DirEntryInfo { name: name.to_string(), is_dir, size }
}

fn row(id: i64, path: &str) -> FileRow {
    FileRow {
        id,
        name: String::new(),
        parent_id: None,
        is_dir: false,
        path: path.to_string(),
        size: 0,
        mime: String::new(),
        created_at: String::new(),
        updated_at: String::new(),
    }
}

#[test]
fn listing_sync_upserts_entries_and_drops_stale_rows() {
    let entries = vec![entry("offline", true, 0), entry("a.txt", false, 5), entry("sub", true, 0)];
    let existing = vec![row(1, "/s/a.txt"), row(2, "/s/gone.txt"), row(3, "/s/offline")];
    let plan = plan_list_sync("/s", "/s", &entries, &existing);
    assert_eq!(plan.upserts.len(), 2);
    assert_eq!(plan.upserts[0].name, "a.txt");
    assert_eq!(plan.upserts[0].path, "/s/a.txt");
    assert_eq!(plan.upserts[0].size, 5);
    assert_eq!(plan.upserts[0].mime, "text/plain");
    assert_eq!(plan.upserts[1].name, "sub");
    assert!(plan.upserts[1].is_dir);
    assert_eq!(plan.upserts[1].mime, "");
    assert_eq!(plan.deletes, vec![2, 3]);
    assert!(entries_path_contains("/s", "/s/sub", &entries));
    assert!(!entries_path_contains("/s", "/s/none", &entries));
}

#[test]
fn listing_of_a_sub_directory_keeps_its_offline_entry() {
    let entries = vec![entry("offline", true, 0)];
    let plan = plan_list_sync("/s", "/s/sub", &entries, &vec![row(9, "/s/sub/offline")]);
    assert_eq!(plan.upserts.len(), 1);
    assert_eq!(plan.upserts[0].path, "/s/sub/offline");
    assert!(plan.deletes.is_empty());
}

#[test]
fn moving_into_itself_is_refused() {
    let desc = vec![(7, "/s/a/b".to_string())];
    let e = check_move_target(5, true, Some(Some(5)), &desc).unwrap_err();
    assert_eq!(e.status, 400);
    assert_eq!(e.message, "不能移动到自身或其子目录");
    assert!(check_move_target(5, true, Some(Some(7)), &desc).is_err());
    assert!(check_move_target(5, true, Some(Some(8)), &desc).is_ok());
    assert!(check_move_target(5, false, Some(Some(5)), &desc).is_ok());
    assert!(check_move_target(5, true, Some(None), &desc).is_ok());
    assert!(check_move_target(5, true, None, &desc).is_ok());
}

#[test]
fn rename_patch_decisions() {
    assert_eq!(move_destination(None), None);
    assert_eq!(move_destination(Some(None)), Some(ParentRef::Root));
    assert_eq!(move_destination(Some(Some(3))), Some(ParentRef::Id(3)));
    assert_eq!(rename_name(None, "old.txt").unwrap(), "old.txt");
    assert_eq!(rename_name(Some("改名.md".into()), "old.txt").unwrap(), "改名.md");
    let e = rename_name(Some("a:b".into()), "old").unwrap_err();
    assert_eq!(e.message, "名称不合法");
    assert_eq!(rename_new_parent(None, Some(2)), Some(2));
    assert_eq!(rename_new_parent(Some(None), Some(2)), None);
    assert_eq!(rename_new_parent(Some(Some(4)), Some(2)), Some(4));
    assert_eq!(check_dir_name("").unwrap_err().message, "目录名不合法");
    assert!(check_dir_name("子目录").is_ok());
}

#[test]
fn descendants_follow_their_directory() {
    let desc = vec![(1, "/s/a/x".to_string()), (2, "/t/y".to_string()), (3, "/s/a".to_string())];
    let r = rewrite_descendants(true, "/s/a", "/s/b", &desc);
    assert_eq!(r, vec![(1, "/s/b/x".to_string()), (3, "/s/b".to_string())]);
    assert!(rewrite_descendants(true, "/s/a", "/s/a", &desc).is_empty());
    assert!(rewrite_descendants(false, "/s/a", "/s/b", &desc).is_empty());
}

#[test]
fn storage_root_moves() {
    assert!(same_storage_root("C:\\Data", "c:/data"));
    assert!(!same_storage_root("/a", "/b"));
    assert!(!same_storage_root("/a", "/a/"));
    assert_eq!(moved_path("/new", ""), "/new");
    assert_eq!(moved_path("/new", "a/b"), "/new/a/b");
    assert_eq!(moved_path("D:\\new", "a"), "D:/new/a");
}

#[test]
fn storage_move_plan_carries_rows_below_the_old_root() {
    let mut dir = row(1, "/old/docs");
    dir.is_dir = true;
    let rows = vec![dir, row(2, "/old/docs/a.txt"), row(3, "/elsewhere/b.txt"), row(4, "/OLD/c.txt")];
    let plan = plan_storage_move("/old", "/new", &rows).unwrap();
    let got: Vec<(i64, bool, &str, &str)> =
        plan.iter().map(|m| (m.id, m.is_dir, m.from.as_str(), m.to.as_str())).collect();
    assert_eq!(
        got,
        vec![
            (1, true, "/old/docs", "/new/docs"),
            (2, false, "/old/docs/a.txt", "/new/docs/a.txt"),
            (4, false, "/OLD/c.txt", "/new/c.txt"),
        ]
    );
    assert!(plan_storage_move("/old", "/new", &Vec::new()).unwrap().is_empty());
}

#[test]
fn finished_files_get_their_parent_chain() {
    let chain = parent_chain("/s", "a//b/");
    assert_eq!(
        chain,
        vec![("a".to_string(), "/s/a".to_string()), ("b".to_string(), "/s/a/b".to_string())]
    );
    assert!(parent_chain("/s", "").is_empty());
    let f = finished_row("/s/a/file.TXT", false, 7);
    assert_eq!(f.name, "file.TXT");
    assert_eq!(f.path, "/s/a/file.TXT");
    assert_eq!(f.size, 7);
    assert_eq!(f.mime, "text/plain");
    let d = finished_row("C:\\s\\dir", true, 4096);
    assert_eq!(d.path, "C:/s/dir");
    assert_eq!(d.size, 0);
    assert_eq!(d.mime, "");
}

#[test]
fn tree_of_directories() {
    let rows = vec![
        DirRow { id: 1, name: "a".into(), path: "/s/a".into(), parent_id: None },
        DirRow { id: 2, name: "b".into(), path: "/s/a/b".into(), parent_id: Some(1) },
        DirRow { id: 3, name: "c".into(), path: "/s/c".into(), parent_id: None },
    ];
    let tree = build_tree(&rows);
    assert_eq!(tree.len(), 2);
    assert_eq!(tree[0].name, "a");
    assert_eq!(tree[0].children.len(), 1);
    assert_eq!(tree[0].children[0].path, "/s/a/b");
    assert!(tree[0].children[0].children.is_empty());
    assert_eq!(tree[1].id, 3);
    assert!(tree[1].children.is_empty());
}

#[test]
fn finished_downloads_choose_their_layout() {
    let target = "/s/offline/task-1";
    assert_eq!(download_layout(&vec![], target), DownloadLayout::Nothing);
    assert_eq!(download_layout(&vec!["/s/offline/task-1/x.bin".to_string()], target), DownloadLayout::Single);
    assert_eq!(download_layout(&vec!["/s/offline/task-1/d/x.bin".to_string()], target), DownloadLayout::Multi);
    assert_eq!(
        download_layout(&vec!["/s/offline/task-1/a".to_string(), "/s/offline/task-1/b".to_string()], target),
        DownloadLayout::Multi
    );
    assert_eq!(single_destination("/s", "/s/offline/task-1/x.bin"), "/s/x.bin");
    assert_eq!(multi_destination("/s/任务", "d/x.bin"), "/s/任务/d/x.bin");
}

#[test]
fn busy_files_are_tried_twice() {
    let busy = IoFailure { kind: IoKind::Other, raw_os_error: Some(32), message: "busy".into() };
    assert!(matches!(after_delete_failure(true, &busy), RemoveStep::RetryAfter(300)));
    match after_delete_failure(false, &busy) {
        RemoveStep::Fail(e) => {
            assert_eq!(e.status, 400);
            assert_eq!(e.message, "文件正被占用（可能正在预览或下载中），请稍后重试");
        }
        other => panic!("unexpected {other:?}"),
    }
    let gone = IoFailure { kind: IoKind::NotFound, raw_os_error: None, message: "nope".into() };
    match after_delete_failure(true, &gone) {
        RemoveStep::Fail(e) => {
            assert_eq!(e.status, 404);
            assert_eq!(e.message, "nope");
        }
        other => panic!("unexpected {other:?}"),
    }
}

#[test]
fn directory_listing_order() {
    let entries = vec![
        entry(".hidden", false, 1),
        entry("b.txt", false, 2),
        entry("A", true, 0),
        entry("a", true, 0),
        entry("C.txt", false, 3),
    ];
    let out = scan_order(&entries);
    let names: Vec<&str> = out.iter().map(|e| e.name.as_str()).collect();
    assert_eq!(names, vec!["A", "a", "C.txt", "b.txt"]);
}

#[test]
fn free_name_search_numbers_in_order() {
    let (mut search, first) = FreeNameSearch::new("/tmp/dir/a.txt");
    assert_eq!(first, "/tmp/dir/a.txt");
    assert_eq!(search.on_taken().unwrap(), "/tmp/dir/a (1).txt");
    assert_eq!(search.on_taken().unwrap(), "/tmp/dir/a (2).txt");
    let (mut plain, _) = FreeNameSearch::new("/tmp/dir/notes");
    assert_eq!(plain.on_taken().unwrap(), "/tmp/dir/notes (1)");
}
