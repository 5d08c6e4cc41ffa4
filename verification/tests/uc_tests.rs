use uc_drive2::uc::{
    check_download_params, check_folder_params, choose_cookie, classify_probe,
    download_url_outcome, extract_ids, first_chars_of, merge_set_cookies, network_probe,
    normalize_item, normalize_items, parse_result, probe_gate, require_share_link, share_target,
    stoken_outcome, CtokenFetch, CtokenStep, ListPager, PageStep, ShareWalk, UcItem, UcSession,
    SHARE_PAGE_REQUESTS,
};

#[test]
fn share_link_parsing() {
    let (share, dir) = extract_ids(
        "https://drive.uc.cn/s/abc123xyz?public=1#/list/share/x/9f86d081884c7d659a2feaa0c55ad015-8e0/-1",
    );
    assert_eq!(share.as_deref(), Some("abc123xyz"));
    assert_eq!(dir.as_deref(), Some("9f86d081884c7d659a2feaa0c55ad015"));
    assert_eq!(extract_ids("https://example.com/not-uc").0, None);
}

#[test]
fn share_link_without_directory_has_no_fid() {
    let (share, dir) = extract_ids("https://drive.uc.cn/s/xyz#/list/share");
    assert_eq!(share.as_deref(), Some("xyz"));
    assert_eq!(dir, None);
    assert_eq!(extract_ids("https://drive.uc.cn/s/?a=1").0, None);
}

fn item(fid: Option<&str>, name: Option<&str>, file: Option<bool>) -> UcItem {
    UcItem {
        fid: fid.map(str::to_string),
        file_name: name.map(str::to_string),
        size: Some(7),
        file,
        format_type: None,
        share_fid_token: Some("tok".to_string()),
    }
}

#[test]
fn set_cookie_headers_are_merged_in_order() {
    let mut cookies = "a=1".to_string();
    let mut ctoken = String::new();
    let headers = vec![
        "ctoken=abc; Path=/".to_string(),
        "a=2; Path=/".to_string(),
        "b=3".to_string(),
        "noeq".to_string(),
        "c=; Max-Age=0".to_string(),
    ];
    merge_set_cookies(&mut cookies, &mut ctoken, &headers);
    assert_eq!(ctoken, "abc");
    assert_eq!(cookies, "a=1; ctoken=abc; b=3");
}

#[test]
fn merging_into_empty_cookies_adds_no_separator() {
    let mut cookies = String::new();
    let mut ctoken = "old".to_string();
    merge_set_cookies(&mut cookies, &mut ctoken, &["x=1".to_string()]);
    assert_eq!(cookies, "x=1");
    assert_eq!(ctoken, "old");
}

#[test]
fn share_page_visit_follows_redirects() {
    let mut fetch = CtokenFetch::start("https://drive.uc.cn/s/abc#/list/share", "k=v").unwrap();
    assert_eq!(fetch.current, "https://drive.uc.cn/s/abc");
    match fetch.on_response(&[], Some("/s/def")) {
        CtokenStep::Fetch(url) => assert_eq!(url, "https://drive.uc.cn/s/def"),
        other => panic!("unexpected step {other:?}"),
    }
    match fetch.on_response(&["ctoken=t1; Path=/".to_string()], None) {
        CtokenStep::Done(UcSession { stoken, ctoken, cookies }) => {
            assert_eq!(stoken, "");
            assert_eq!(ctoken, "t1");
            assert_eq!(cookies, "k=v; ctoken=t1");
        }
        other => panic!("unexpected step {other:?}"),
    }
}

#[test]
fn share_page_visit_gives_up_after_nine_redirects() {
    let mut fetch = CtokenFetch::start("https://drive.uc.cn/s/abc", "").unwrap();
    for _ in 0..(SHARE_PAGE_REQUESTS - 1) {
        assert!(matches!(fetch.on_response(&[], Some("/s/next")), CtokenStep::Fetch(_)));
    }
    match fetch.on_response(&[], Some("/s/next")) {
        CtokenStep::Failed(msg) => assert_eq!(msg, "分享页重定向次数过多"),
        other => panic!("unexpected step {other:?}"),
    }
}

#[test]
fn share_page_visit_refuses_a_bad_link() {
    assert!(CtokenFetch::start("not a url", "").is_err());
}

#[test]
fn listing_entry_defaults() {
    let f = normalize_item(&UcItem {
        fid: None,
        file_name: None,
        size: None,
        file: None,
        format_type: None,
        share_fid_token: None,
    });
    assert_eq!(f.fid, "");
    assert_eq!(f.name, "");
    assert_eq!(f.size, 0);
    assert!(!f.file);
    let all = normalize_items(&vec![item(Some("1"), Some("a.txt"), Some(true))]);
    assert_eq!(all.len(), 1);
    assert_eq!(all[0].name, "a.txt");
    assert_eq!(all[0].size, 7);
    assert_eq!(all[0].share_fid_token, "tok");
}

#[test]
fn failed_answers_are_quoted_up_to_two_hundred_characters() {
    let answer: String = std::iter::repeat('x').take(250).collect();
    let err = stoken_outcome(None, &answer).unwrap_err();
    assert_eq!(err, format!("获取 stoken 失败: {}", "x".repeat(200)));
    assert_eq!(stoken_outcome(Some("st".to_string()), "{}").unwrap(), "st");
    let err = download_url_outcome(None, "{\"code\":1}").unwrap_err();
    assert_eq!(err, "获取下载链接失败: {\"code\":1}");
    assert_eq!(download_url_outcome(Some("u".to_string()), "").unwrap(), "u");
    assert_eq!(first_chars_of("中文abc", 3), "中文a");
}

#[test]
fn listing_pages_until_a_short_page() {
    let mut pager = ListPager::new("abc", "st tok", Some("f1"));
    assert_eq!(
        pager.page_url(),
        "https://pc-api.uc.cn/1/clouddrive/share/sharepage/detail?pr=UCBrowser&fr=pc&pwd_id=abc&stoken=st%20tok&force=0&_page=1&_size=50&_fetch_banner=0&_fetch_share=0&_fetch_total=1&_sort=file_type:asc,file_name:asc&pdir_fid=f1"
    );
    let full: Vec<UcItem> = (0..50).map(|i| item(Some(&i.to_string()), None, Some(true))).collect();
    assert_eq!(pager.on_page(Some(full), "").unwrap(), PageStep::Next);
    assert_eq!(pager.page, 2);
    assert!(pager.page_url().contains("&_page=2&"));
    let short = vec![item(Some("x"), None, Some(true))];
    assert_eq!(pager.on_page(Some(short), "").unwrap(), PageStep::Done);
    assert_eq!(pager.items.len(), 51);
}

#[test]
fn listing_without_list_fails_only_at_first() {
    let mut pager = ListPager::new("abc", "st", None);
    assert!(!pager.page_url().contains("pdir_fid"));
    let err = pager.on_page(None, "{\"code\":31001}").unwrap_err();
    assert_eq!(err, "获取文件列表失败: {\"code\":31001}");
    let full: Vec<UcItem> = (0..50).map(|_| item(None, None, None)).collect();
    assert_eq!(pager.on_page(Some(full), "").unwrap(), PageStep::Next);
    assert_eq!(pager.on_page(None, "").unwrap(), PageStep::Done);
    assert_eq!(pager.items.len(), 50);
}

#[test]
fn walking_a_share_collects_files_depth_first() {
    let mut walk = ShareWalk::new(None);
    assert_eq!(walk.next_dir(), Some(None));
    walk.on_listing(&vec![
        item(Some("f1"), Some("one"), Some(true)),
        item(Some("d1"), Some("dir"), Some(false)),
        item(None, Some("nofid"), None),
        item(Some("d2"), Some("dir2"), None),
        item(Some("f2"), Some("two"), Some(true)),
    ]);
    assert_eq!(walk.files.len(), 2);
    assert_eq!(walk.files[1].fid, "f2");
    assert_eq!(walk.next_dir(), Some(Some("d2".to_string())));
    walk.on_listing(&vec![item(Some("f3"), Some("three"), Some(true))]);
    assert_eq!(walk.next_dir(), Some(Some("d1".to_string())));
    walk.on_listing(&vec![]);
    assert_eq!(walk.next_dir(), None);
    let names: Vec<&str> = walk.files.iter().map(|f| f.name.as_str()).collect();
    assert_eq!(names, vec!["one", "two", "three"]);
}

#[test]
fn parsing_needs_a_share_id_and_files() {
    assert_eq!(
        share_target("https://example.com/x").unwrap_err(),
        "无法提取 share_id，请检查链接格式"
    );
    let (id, dir) = share_target("https://drive.uc.cn/s/abc").unwrap();
    assert_eq!(id, "abc");
    assert_eq!(dir, None);
    let session = UcSession { stoken: "s".into(), ctoken: "c".into(), cookies: "k".into() };
    let err = parse_result("link", "abc".into(), None, session.clone(), &vec![]).unwrap_err();
    assert_eq!(err, "未找到文件");
    let ok = parse_result("link", "abc".into(), Some("d".into()), session, &vec![item(Some("1"), Some("a"), Some(true))]).unwrap();
    assert_eq!(ok.platform, "uc");
    assert_eq!(ok.share_link, "link");
    assert_eq!(ok.pdir_fid.as_deref(), Some("d"));
    assert_eq!(ok.files.len(), 1);
}

#[test]
fn probes_are_classified() {
    let p = classify_probe(200, "");
    assert!(p.ok);
    assert_eq!(p.kind, "ok");
    assert_eq!(p.detail, None);
    assert_eq!(classify_probe(206, "x").kind, "ok");
    let p = classify_probe(403, "Require Login please");
    assert_eq!(p.kind, "cookie_expired");
    assert_eq!(p.detail.as_deref(), Some("Require Login please"));
    assert!(!p.ok);
    assert_eq!(classify_probe(403, "<Code>SignatureDoesNotMatch</Code>").kind, "url_invalid");
    assert_eq!(classify_probe(403, "auth expired").kind, "cookie_expired");
    let p = classify_probe(404, "expired");
    assert_eq!(p.kind, "http");
    assert_eq!(p.detail.as_deref(), Some("HTTP 404"));
    assert_eq!(classify_probe(403, "nothing").detail.as_deref(), Some("HTTP 403"));
    let long: String = format!("expired{}", "y".repeat(200));
    assert_eq!(classify_probe(403, &long).detail.unwrap().chars().count(), 120);
    let n = network_probe();
    assert_eq!(n.kind, "network");
    assert!(n.detail.is_none());
}

#[test]
fn download_requests_are_checked() {
    assert_eq!(check_download_params("", "f").unwrap_err().message, "缺少下载参数");
    assert!(check_download_params("s", "f").is_ok());
    let e = probe_gate("cookie_expired").unwrap_err();
    assert_eq!(e.status, 403);
    assert_eq!(e.message, "UC Cookie 已失效，请在设置中更新后重试");
    assert_eq!(e.kind.as_deref(), Some("cookie_expired"));
    let e = probe_gate("url_invalid").unwrap_err();
    assert_eq!(e.status, 502);
    assert_eq!(e.kind.as_deref(), Some("url_invalid"));
    assert!(probe_gate("http").is_ok());
    assert!(probe_gate("network").is_ok());
    assert_eq!(check_folder_params("s", "").unwrap_err().message, "缺少目录参数");
    assert!(check_folder_params("s", "t").is_ok());
    assert_eq!(require_share_link(None).unwrap_err().message, "缺少分享链接");
    assert_eq!(require_share_link(Some("l")).unwrap(), "l");
    assert_eq!(choose_cookie("", "saved".into()), "saved");
    assert_eq!(choose_cookie("mine", "saved".into()), "mine");
}
