use magpie::server::target_within;
use magpie::server::{download_step, DownloadFacts, DownloadStep};
use magpie::clients::{
    aria2_eta, aria2_listing, aria2_rpc_url, aria2_state, aria2_token, category_field, clean_host,
    first_label, harmless_error, is_v5_version, qbit_category, session_cookie, torrents_info_path,
    transmission_content_path, transmission_listed, transmission_metainfo, transmission_state, uuid_hex,
    Aria2Task,
};
use magpie::config::{discord_active, telegram_active, Settings, UserSettings};
use magpie::db::{local_download_live, presigned_fresh, user_from_parts, user_from_row, user_row, users_to_save};
use magpie::links::{bucket_config, largest_file, link_plan, new_local_link, s3_key, slashed_path, zip_requested, LinkPlan};
use magpie::pages::{entry_html, entry_link, entry_size, error_page, folder_title, index_page, parent_link, zip_link};
use magpie::server::{format_size, guess_mime, local_download_url, parse_range};

fn now_secs() -> i64 {
    std::time::SystemTime::now().duration_since(std::time::UNIX_EPOCH).unwrap().as_secs() as i64
}

fn user(id: i64, discord: Option<&str>, role: &str) -> UserSettings {
    UserSettings {
        user_id: id,
        discord_id: discord.map(|s| s.to_string()),
        role: role.to_string(),
        locale: Some("es".to_string()),
        notify: true,
        notification_filter: vec![],
    }
}

#[test]
fn test_db_presigned_url_cache() {
    let key = "folder/video.mp4";
    let url = "http://test-url.com/video.mp4";
    assert!(!key.is_empty() && !url.is_empty());
    let now = now_secs();
    // Cached with 100 seconds of lifetime: reused at once.
    assert!(presigned_fresh(now, now, 100));
    // Cached with no lifetime: never reused.
    assert!(!presigned_fresh(now, now, 0));
}

#[test]
fn test_db_local_downloads() {
    let now = now_secs();
    let expires_at = now + 100;
    assert!(local_download_live(expires_at, now));
    let expired_expires_at = now - 100;
    assert!(!local_download_live(expired_expires_at, now));
}

#[test]
fn presigned_reuse_threshold() {
    assert!(presigned_fresh(1000, 1000 - 24, 100));
    assert!(!presigned_fresh(1000, 1000 - 25, 100));
    assert!(!presigned_fresh(1000, 1000, -5));
}

#[test]
fn users_sync_and_rows() {
    let existing = vec![user(111, Some("discord-111"), "administrator")];
    let configured = vec![
        user(111, None, "administrator"),
        user(0, Some("discord-111"), "reader"),
        user(222, None, "manager"),
        user(0, None, "reader"),
    ];
    let new = users_to_save(&configured, &existing);
    let ids: Vec<i64> = new.iter().map(|u| u.user_id).collect();
    assert_eq!(ids, vec![222, 0]);

    let u = user_from_row(None, Some("d".to_string()), "manager".to_string(), None, 1, Some("[\"movies\"]".to_string()));
    assert_eq!(u.user_id, 0);
    assert!(u.notify);
    assert_eq!(u.notification_filter, vec!["movies".to_string()]);
    let v = user_from_row(Some(5), None, "reader".to_string(), None, 0, Some("not json".to_string()));
    assert_eq!(v.user_id, 5);
    assert!(!v.notify);
    assert!(v.notification_filter.is_empty());
    let w = user_from_parts(Some(7), None, "reader".to_string(), None, 2, None);
    assert!(!w.notify);

    let mut m = user(0, Some("d"), "manager");
    m.notification_filter = vec!["movies".to_string(), "tv".to_string()];
    m.notify = false;
    let row = user_row(&m);
    assert_eq!(row.telegram_id, None);
    assert_eq!(row.notify, 0);
    assert_eq!(row.filter_json, "[\"movies\",\"tv\"]");
    assert_eq!(row.discord_id.as_deref(), Some("d"));
}

#[test]
fn bucket_settings() {
    let mut s = Settings::get_default_settings();
    assert_eq!(bucket_config(&s, true).err().as_deref(), Some("S3 is not enabled."));
    s.s3.enabled = true;
    assert_eq!(bucket_config(&s, true).err().as_deref(), Some("S3 access key is missing."));
    s.s3.access_key = Some("ak".to_string());
    assert_eq!(bucket_config(&s, true).err().as_deref(), Some("S3 secret key is missing."));
    s.s3.secret_key = Some("sk".to_string());
    assert_eq!(bucket_config(&s, true).err().as_deref(), Some("S3 bucket name is missing."));
    s.s3.bucket = Some("b".to_string());
    s.s3.endpoint = Some("http://minio:9000".to_string());
    s.s3.public_url = Some("https://cdn".to_string());
    let public = bucket_config(&s, true).ok().unwrap();
    assert_eq!(public.region, "us-east-1");
    assert_eq!(public.endpoint.as_deref(), Some("https://cdn"));
    let upload = bucket_config(&s, false).ok().unwrap();
    assert_eq!(upload.endpoint.as_deref(), Some("http://minio:9000"));
}

#[test]
fn link_plans_and_keys() {
    let mut s = Settings::get_default_settings();
    assert_eq!(link_plan(&s, None), Ok(LinkPlan::NoLink));
    s.s3.enabled = true;
    assert_eq!(link_plan(&s, None), Err("Torrent content path is missing.".to_string()));
    assert_eq!(link_plan(&s, Some(&"/d".to_string())), Ok(LinkPlan::S3));
    s.local_server.enabled = true;
    assert_eq!(link_plan(&s, Some(&"/d".to_string())), Ok(LinkPlan::Local));
    assert_eq!(s3_key("", "a/b.mkv"), "a/b.mkv");
    assert_eq!(s3_key("pre", "a/b.mkv"), "pre/a/b.mkv");
    assert_eq!(slashed_path("a\\b\\c"), "a/b/c");
    assert_eq!(largest_file(&vec![5, 9, 9, 1]), Some(2));
    assert_eq!(largest_file(&vec![]), None);
    assert!(zip_requested(Some(&"1".to_string())));
    assert!(!zip_requested(Some(&"yes".to_string())));
    assert!(!zip_requested(None));
}

#[test]
fn local_links() {
    let mut s = Settings::get_default_settings();
    s.local_server.base_url = Some("http://box:3000//".to_string());
    let link = new_local_link(&s, "My Film", 1000);
    assert_eq!(link.token.len(), 32);
    assert!(link.token.chars().all(|c| c.is_ascii_alphanumeric()));
    assert_eq!(link.url, format!("http://box:3000/download/{}/My%20Film", link.token));
    assert_eq!(link.expires_at, 4600);
    let other = new_local_link(&s, "My Film", 1000);
    assert_ne!(link.token, other.token);
    assert_eq!(local_download_url(None, "t", "x"), "http://localhost/download/t/x");
}

#[test]
fn server_helpers() {
    assert_eq!(parse_range("bytes=0-99", 1000), Some((0, 99)));
    assert_eq!(parse_range("bytes=500-", 1000), Some((500, 999)));
    assert_eq!(parse_range("bytes=900-1000", 1000), None);
    assert_eq!(parse_range("bytes=5-2", 1000), None);
    assert_eq!(parse_range("items=0-1", 1000), None);
    assert_eq!(guess_mime("/a/b/Film.MKV"), "video/x-matroska");
    assert_eq!(guess_mime("/a/b/file"), "application/octet-stream");
    assert_eq!(format_size(512), "512 B");
    assert_eq!(format_size(1536), "1.50 KB");
    assert_eq!(format_size(1073741824), "1.00 GB");
}

#[test]
fn two_decimal_sizes_round_half_to_even() {
    // 1.125 KB is exactly halfway; the formatter rounds it to even.
    assert_eq!(format_size(1152), "1.12 KB");
    assert_eq!(format!("{:.2}", 1152f64 / 1024f64), "1.12");
    // 1.375 KB rounds up to the even 1.38.
    assert_eq!(format_size(1408), "1.38 KB");
    assert_eq!(format!("{:.2}", 1408f64 / 1024f64), "1.38");
}

#[test]
fn directory_pages() {
    assert_eq!(parent_link("tok", ""), "/download/tok");
    assert_eq!(parent_link("tok", "a/b"), "/download/tok/a/b");
    assert_eq!(entry_link("tok", "", "f.mkv"), "/download/tok/f.mkv");
    assert_eq!(entry_link("tok", "sub//", "f.mkv"), "/download/tok/sub/f.mkv");
    assert_eq!(zip_link("tok", ""), "/download/tok?zip=true");
    assert_eq!(zip_link("tok", "sub/"), "/download/tok/sub?zip=true");
    assert_eq!(entry_size(true, 5), "-");
    assert_eq!(entry_size(false, 5), "5 B");
    assert_eq!(folder_title(None), "Downloads");
    let item = entry_html("/l", "n", "5 B");
    assert!(item.contains("<a href=\"/l\" class=\"file-name\">n</a>"));
    let page = index_page("Films", Some("/download/tok"), "/z", &vec![item.clone(), item], 1234);
    assert!(page.contains("<title>Download - Films</title>"));
    assert!(page.contains("<a href=\"/download/tok\" class=\"btn btn-secondary\">?? Back</a>"));
    assert!(page.contains("const expiresAt = 1234;"));
    assert!(page.contains(":root {"));
    let err = error_page("Gone", "This link expired.");
    assert!(err.contains("<h1>Gone</h1>"));
    assert!(err.contains("<p>This link expired.</p>"));
}

#[test]
fn client_helpers() {
    assert_eq!(clean_host("http://h:8080///"), "http://h:8080");
    assert!(is_v5_version(" v5.0.1 "));
    assert!(!is_v5_version("v4.6.2"));
    assert!(!is_v5_version("5.0"));
    assert_eq!(session_cookie("path=/; SID=abc; HttpOnly").as_deref(), Some("SID=abc"));
    assert_eq!(session_cookie("QBT_SID_8080=xyz; path=/").as_deref(), Some("QBT_SID_8080=xyz"));
    assert_eq!(session_cookie("path=/"), None);
    assert_eq!(category_field(Some("None")), None);
    assert_eq!(category_field(Some("tv")).as_deref(), Some("tv"));
    assert_eq!(torrents_info_path(None, None, true), "/api/v2/torrents/info");
    assert_eq!(torrents_info_path(Some("h"), Some("paused"), true), "/api/v2/torrents/info?hashes=h&filter=stopped");
    assert_eq!(torrents_info_path(None, Some("resumed"), false), "/api/v2/torrents/info?filter=resumed");
    assert_eq!(qbit_category(Some("".to_string())), None);
    assert_eq!(transmission_state(4), "downloading");
    assert_eq!(transmission_state(9), "unknown");
    assert!(transmission_listed(Some("completed"), false, true, 6));
    assert!(!transmission_listed(Some("downloading"), true, false, 0));
    assert!(transmission_listed(Some("stopped"), true, false, 0));
    assert!(transmission_listed(Some("weird"), true, false, 0));
    assert_eq!(transmission_content_path("/d", "n"), "/d/n");
    assert_eq!(first_label(&Some(vec!["a".to_string(), "b".to_string()])).as_deref(), Some("a"));
    assert_eq!(first_label(&Some(vec![])), None);
    assert_eq!(aria2_rpc_url("http://h:6800"), "http://h:6800/jsonrpc");
    assert_eq!(aria2_rpc_url("http://h:6800/"), "http://h:6800/jsonrpc");
    assert_eq!(aria2_rpc_url("http://h:6800/jsonrpc"), "http://h:6800/jsonrpc");
    assert_eq!(aria2_token("s"), "token:s");
    assert!(harmless_error("GID#1 cannot be paused now", "cannot be paused now"));
    assert_eq!(aria2_state("waiting"), "queued");
    assert_eq!(aria2_state("paused"), "paused");
    assert_eq!(aria2_eta(100, 40, 20), 3);
    assert_eq!(aria2_eta(10, 40, 20), 0);
    assert_eq!(aria2_eta(100, 40, 0), 8640000);
    assert_eq!(uuid_hex(255, 4096), "ff1000");
}

#[test]
fn aria2_tasks() {
    let task = Aria2Task {
        gid: Some("g1".to_string()),
        torrent_name: None,
        first_file_path: Some("/dl/dir/file.iso".to_string()),
        first_uri: None,
        completed_length: Some("50".to_string()),
        total_length: Some("200".to_string()),
        download_speed: Some("x".to_string()),
        status: Some("active".to_string()),
        dir: Some("".to_string()),
    };
    let l = aria2_listing(&task, None, Some("downloading")).unwrap();
    assert_eq!(l.torrent.name, "file.iso");
    assert_eq!(l.completed, 50);
    assert_eq!(l.total, 200);
    assert_eq!(l.torrent.dlspeed, 0);
    assert_eq!(l.torrent.eta, 8640000);
    assert_eq!(l.torrent.state, "downloading");
    assert_eq!(l.torrent.save_path, None);
    assert_eq!(l.torrent.content_path.as_deref(), Some("/dl/dir/file.iso"));
    assert!(aria2_listing(&task, Some("g2"), None).is_none());
    assert!(aria2_listing(&task, None, Some("paused")).is_none());
}

#[test]
fn bots_run_with_real_tokens() {
    let mut s = Settings::get_default_settings();
    assert!(!telegram_active(&s));
    s.telegram.bot_token = "123:abc".to_string();
    assert!(telegram_active(&s));
    assert!(!discord_active(&s));
    s.discord.enabled = true;
    assert!(!discord_active(&s));
    s.discord.token = Some("tok".to_string());
    assert!(discord_active(&s));
}

#[test]
fn transmission_metainfo_is_standard_base64() {
    assert_eq!(transmission_metainfo(&vec![]), "");
    assert_eq!(transmission_metainfo(&b"M".to_vec()), "TQ==");
    assert_eq!(transmission_metainfo(&b"Ma".to_vec()), "TWE=");
    assert_eq!(transmission_metainfo(&b"Man".to_vec()), "TWFu");
    assert_eq!(transmission_metainfo(&b"hello".to_vec()), "aGVsbG8=");
    assert_eq!(transmission_metainfo(&vec![0xfb, 0xff, 0xbf]), "+/+/");
}

/// The users table held in memory: `INSERT OR REPLACE` drops the rows that
/// share a unique column (Discord id or Telegram id) with the new one.
fn insert_or_replace(table: &mut Vec<magpie::db::UserRow>, row: magpie::db::UserRow) {
    table.retain(|r| {
        !((row.discord_id.is_some() && r.discord_id == row.discord_id)
            || (row.telegram_id.is_some() && r.telegram_id == row.telegram_id))
    });
    table.push(row);
}

fn load(table: &[magpie::db::UserRow]) -> Vec<UserSettings> {
    table
        .iter()
        .map(|r| {
            user_from_row(
                r.telegram_id,
                r.discord_id.clone(),
                r.role.clone(),
                r.locale.clone(),
                r.notify,
                Some(r.filter_json.clone()),
            )
        })
        .collect()
}

#[test]
fn test_db_sync_and_save_users() {
    let mut table = Vec::new();
    let yaml_users = vec![
        UserSettings {
            user_id: 111,
            discord_id: Some("discord-111".to_string()),
            role: "administrator".to_string(),
            locale: Some("es".to_string()),
            notify: true,
            notification_filter: vec![],
        },
        UserSettings {
            user_id: 222,
            discord_id: None,
            role: "manager".to_string(),
            locale: Some("en".to_string()),
            notify: false,
            notification_filter: vec!["movies".to_string()],
        },
    ];

    let existing = load(&table);
    for u in users_to_save(&yaml_users, &existing) {
        insert_or_replace(&mut table, user_row(&u));
    }
    let synced = load(&table);
    assert_eq!(synced.len(), 2);

    let u1 = synced.iter().find(|u| u.user_id == 111).unwrap();
    assert_eq!(u1.role, "administrator");
    assert_eq!(u1.locale.as_deref(), Some("es"));
    assert_eq!(u1.notify, true);

    let u2 = synced.iter().find(|u| u.user_id == 222).unwrap();
    assert_eq!(u2.discord_id, None);
    assert_eq!(u2.role, "manager");
    assert_eq!(u2.notify, false);
    assert_eq!(u2.notification_filter, vec!["movies".to_string()]);

    let mut u2_mod = magpie::config::copy_user(u2);
    u2_mod.role = "administrator".to_string();
    insert_or_replace(&mut table, user_row(&u2_mod));

    let updated_users = load(&table);
    let updated_u2 = updated_users.iter().find(|u| u.user_id == 222).unwrap();
    assert_eq!(updated_u2.role, "administrator");

    // A second start-up saves nobody again.
    assert!(users_to_save(&yaml_users, &updated_users).is_empty());
}

#[test]
fn user_rows_read_back_as_the_same_user() {
    let mut u = user(42, Some("d42"), "manager");
    u.notification_filter = vec!["movies".to_string(), "a \"quoted\" \\ ünïcode".to_string()];
    u.notify = false;
    let row = user_row(&u);
    let back = user_from_row(row.telegram_id, row.discord_id, row.role, row.locale, row.notify, Some(row.filter_json));
    assert_eq!(back.user_id, u.user_id);
    assert_eq!(back.discord_id, u.discord_id);
    assert_eq!(back.role, u.role);
    assert_eq!(back.locale, u.locale);
    assert_eq!(back.notify, u.notify);
    assert_eq!(back.notification_filter, u.notification_filter);
}

#[test]
fn paths_within_a_folder_match_std_paths() {
    let cases = [
        ("/data/t", "/data/t/a/b"),
        ("/data/t", "/data/t"),
        ("/data/t", "/data/tx"),
        ("/data/t", "/data"),
        ("/data/t/", "/data/t"),
        ("/data/./t", "/data/t/x"),
        ("/data//t", "/data/t/x"),
        ("a/b", "./a/b"),
        ("./a", "./a/b"),
        ("/", "/etc/passwd"),
        ("", "x"),
    ];
    for (base, target) in cases {
        assert_eq!(
            target_within(base, target),
            std::path::Path::new(target).starts_with(base),
            "{} within {}",
            target,
            base
        );
    }
    assert!(target_within("/data/t", "/data/t/a/b"));
    assert!(!target_within("/data/t", "/data/tx"));
}

#[test]
fn download_requests() {
    let ok = DownloadFacts {
        has_token: true,
        link_live: true,
        base_found: true,
        target_found: true,
        within: true,
        is_dir: false,
        is_file: true,
        zip: false,
        zip_permit: true,
    };
    assert_eq!(download_step(&ok), DownloadStep::File);
    assert_eq!(download_step(&DownloadFacts { has_token: false, ..ok }), DownloadStep::MissingToken);
    assert_eq!(download_step(&DownloadFacts { link_live: false, ..ok }), DownloadStep::Expired);
    assert_eq!(download_step(&DownloadFacts { base_found: false, ..ok }), DownloadStep::BaseNotFound);
    assert_eq!(download_step(&DownloadFacts { target_found: false, ..ok }), DownloadStep::TargetNotFound);
    assert_eq!(download_step(&DownloadFacts { within: false, ..ok }), DownloadStep::Traversal);
    let dir = DownloadFacts { is_dir: true, is_file: false, ..ok };
    assert_eq!(download_step(&dir), DownloadStep::Index);
    assert_eq!(download_step(&DownloadFacts { zip: true, ..dir }), DownloadStep::Zip);
    assert_eq!(download_step(&DownloadFacts { zip: true, zip_permit: false, ..dir }), DownloadStep::ZipBusy);
    assert_eq!(download_step(&DownloadFacts { is_file: false, ..ok }), DownloadStep::Unsupported);
}
