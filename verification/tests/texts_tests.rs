use magpie::bot::category_add_pending;
use magpie::config::{Settings, TelegramProxySettings};
use magpie::i18n::Translations;
use magpie::keyboards::category_list_rows;
use magpie::messages::{
    access_request_text, add_refused_text, approve_button_id, approved_text, confirmed_kind,
    denied_text, deny_button_id, discord_added_placeholder, telegram_added_placeholder,
    welcome_text, AddKind,
};
use magpie::torrent_client::Torrent;
use magpie::utils::{try_extract_clean_magnet, try_extract_hash_from_magnet};
use magpie::views::{delete_confirmation_ids, list_description, offers_link, select_description};

#[test]
fn refusals_and_placeholders_name_the_kind() {
    assert_eq!(add_refused_text(AddKind::MagnetLink), "❌ Failed to add magnet link.");
    assert_eq!(add_refused_text(AddKind::TorrentFile), "❌ Failed to add torrent file.");
    assert_eq!(telegram_added_placeholder(AddKind::MagnetLink), "✅ *Magnet link added successfully!*");
    assert_eq!(telegram_added_placeholder(AddKind::TorrentFile), "✅ *Torrent file added successfully\\!*");
    assert_eq!(discord_added_placeholder(AddKind::MagnetLink), "✅ **Magnet link added successfully!**");
    assert_eq!(discord_added_placeholder(AddKind::TorrentFile), "✅ Torrent file added successfully!");
}

#[test]
fn confirmation_tells_magnets_from_files() {
    assert!(matches!(confirmed_kind("✅ *Magnet link added successfully!*"), AddKind::MagnetLink));
    assert!(matches!(confirmed_kind("✅ Torrent file added successfully!"), AddKind::TorrentFile));
    assert!(matches!(confirmed_kind(""), AddKind::TorrentFile));
}

#[test]
fn access_request_texts() {
    assert_eq!(
        access_request_text("bob", "42"),
        "🔔 User **bob** (ID: `42`) is requesting access to the bot."
    );
    assert_eq!(approve_button_id("manager", "42", "bob"), "dc_auth:approve:manager:42:bob");
    assert_eq!(deny_button_id("42", "bob"), "dc_auth:deny:42:bob");
    assert_eq!(approved_text("bob", "42", "reader"), "✅ Authorized **bob** (ID: `42`) as **reader**.");
    assert_eq!(
        welcome_text("reader"),
        "🎉 Your access request has been approved! You now have **reader** role."
    );
    assert_eq!(denied_text("bob", "42"), "❌ Access request for **bob** (ID: `42`) was denied.");
}

#[test]
fn pending_category_step() {
    assert_eq!(category_add_pending("movies"), "category_dir_add#movies");
}

#[test]
fn category_listing_keyboard() {
    let tr = Translations::new();
    let cats = vec!["movies".to_string(), "tv".to_string()];
    let rows = category_list_rows(&tr, None, &cats, "category_remove");
    let flat: Vec<Vec<(&str, &str)>> =
        rows.iter().map(|r| r.iter().map(|(a, b)| (a.as_str(), b.as_str())).collect()).collect();
    assert_eq!(
        flat,
        vec![
            vec![("movies", "category_remove:movies")],
            vec![("tv", "category_remove:tv")],
            vec![("🔙 Menu", "menu:")],
        ]
    );
}

#[test]
fn checked_magnet_extraction() {
    assert_eq!(
        try_extract_hash_from_magnet("magnet:?xt=urn:btih:ABC&dn=x"),
        Some(Some("ABC".to_string()))
    );
    assert_eq!(try_extract_hash_from_magnet("no hash here"), Some(None));
    assert_eq!(try_extract_hash_from_magnet("İxt=urn:btih:éa"), None);
    assert_eq!(
        try_extract_clean_magnet("see magnet:?xt=urn:btih:abc&dn=x"),
        Some(Some("magnet:?xt=urn:btih:abc&dn=x".to_string()))
    );
    assert_eq!(try_extract_clean_magnet("no link"), Some(None));
    assert_eq!(try_extract_clean_magnet("ẞémagnet:?xt=urn:btih:a"), None);
}

fn torrent(size: u64, state: &str) -> Torrent {
    Torrent {
        hash: "h".to_string(),
        name: "n".to_string(),
        progress_bits: 0,
        dlspeed: 0,
        state: state.to_string(),
        size,
        eta: 0,
        category: None,
        save_path: None,
        content_path: None,
        num_seeds: None,
        num_peers: None,
    }
}

#[test]
fn discord_selection_texts_are_cut() {
    assert_eq!(select_description(&torrent(1536, "paused")), "Size: 1.5 KB | Status: paused");
    let long_state = "x".repeat(120);
    let d = select_description(&torrent(0, &long_state));
    assert_eq!(d.len(), 97);
    assert_eq!(d, format!("Size: 0 B | Status: {}", "x".repeat(77)));
    assert_eq!(list_description("short"), "short");
    let long = "y".repeat(5000);
    let cut = list_description(&long);
    assert_eq!(cut.len(), 4096);
    assert!(cut.ends_with("y..."));
}

#[test]
fn links_are_offered_for_finished_torrents_only() {
    let mut s = Settings::get_default_settings();
    assert!(!offers_link(&s, true));
    s.local_server.enabled = true;
    assert!(offers_link(&s, true));
    assert!(!offers_link(&s, false));
    s.local_server.enabled = false;
    s.s3.enabled = true;
    assert!(offers_link(&s, true));
}

#[test]
fn deletion_buttons() {
    let (keep, wipe, back) = delete_confirmation_ids("abc");
    assert_eq!(keep, "dc_cldel:abc:false");
    assert_eq!(wipe, "dc_cldel:abc:true");
    assert_eq!(back, "dc_detail:abc");
}

#[test]
fn connection_strings() {
    let s = Settings::get_default_settings();
    let (host, user, pass) = s.get_client_connection_string();
    assert_eq!((host.as_str(), user.as_str(), pass.as_str()), ("http://localhost:8080", "admin", "adminadmin"));
    let mut proxy = TelegramProxySettings {
        scheme: "socks5".to_string(),
        hostname: "proxy.local".to_string(),
        port: 1080,
        username: Some("u".to_string()),
        password: Some("p".to_string()),
    };
    assert_eq!(Settings::get_proxy_connection_string(&proxy), "socks5://u:p@proxy.local:1080");
    proxy.password = None;
    assert_eq!(Settings::get_proxy_connection_string(&proxy), "socks5://proxy.local:1080");
}
