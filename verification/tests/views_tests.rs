use magpie::i18n::Translations;
use magpie::keyboards::{category_choice_rows, keyboard, torrent_list_rows, translate_rows, Keyboard};
use magpie::messages::{
    add_error_text, add_link_kind, current_seeding_text, deleted_text, discord_added_summary_text,
    discord_added_text, discord_link_text, metadata_ready, peers_summary, seed_policy_label,
    seeding_updated_text, speed_limit_text, telegram_added_text, telegram_info_text,
    telegram_link_text, url_torrent_name, AddKind, AddLinkKind,
};
use magpie::torrent_client::Torrent;
use magpie::views::{
    client_settings_text, component_piece, delete_request, discord_component, discord_detail_fields,
    discord_empty_status_text, discord_list_entry, list_button_label, select_label, status_filter,
    telegram_details_text, DiscordComponent,
};

fn torrent(name: &str) -> Torrent {
    Torrent {
        hash: "abc".to_string(),
        name: name.to_string(),
        progress_bits: 0,
        dlspeed: 2048,
        state: "stalledDL".to_string(),
        size: 1048576,
        eta: 61,
        category: Some("tv".to_string()),
        save_path: None,
        content_path: None,
        num_seeds: Some(3),
        num_peers: None,
    }
}

fn rows(v: &Vec<Vec<(String, String)>>) -> Vec<Vec<(&str, &str)>> {
    v.iter().map(|r| r.iter().map(|(a, b)| (a.as_str(), b.as_str())).collect()).collect()
}

#[test]
fn main_menu_depends_on_role() {
    let reader = keyboard(Keyboard::Main, "reader", "");
    assert_eq!(rows(&reader), vec![vec![("📝 List", "list:")]]);
    let manager = keyboard(Keyboard::Main, "manager", "");
    assert_eq!(manager.len(), 3);
    let admin = keyboard(Keyboard::Main, "administrator", "");
    assert_eq!(admin.len(), 6);
    assert_eq!(admin[5][0].1, "settings:");
}

#[test]
fn static_keyboards_carry_hash() {
    let k = keyboard(Keyboard::DeleteOne, "reader", "h1");
    assert_eq!(k[0][0].1, "delete_one_no_data:h1");
    assert_eq!(k[1][0].1, "delete_one_data:h1");
    let d = keyboard(Keyboard::TorrentDetails, "reader", "h1");
    assert_eq!(d.len(), 6);
    assert_eq!(d[3][0].1, "resume:h1");
    let tr = Translations::new();
    let t = translate_rows(&tr, None, &k);
    assert_eq!(rows(&t), rows(&k));
}

#[test]
fn category_keyboard() {
    let tr = Translations::new();
    let cats = vec!["movies".to_string(), "tv".to_string()];
    let r = category_choice_rows(&tr, None, &cats, "add_magnet");
    assert_eq!(
        rows(&r),
        vec![
            vec![("movies", "add_magnet:movies")],
            vec![("tv", "add_magnet:tv")],
            vec![("None", "add_magnet:None")],
            vec![("?? Menu", "menu:")],
        ]
    );
}

#[test]
fn torrent_list_keyboard() {
    let tr = Translations::new();
    let long = "x".repeat(45);
    let ts = vec![torrent("short"), torrent(&long)];
    let filter = "paused".to_string();
    let r = torrent_list_rows(&tr, None, Some(&filter), &ts, Some("pause"));
    assert_eq!(r.len(), 4);
    assert_eq!(r[0][2].0, "⏸️ * Paused");
    assert_eq!(r[0][0].0, "⏳  Downloading");
    assert_eq!(r[1][0], ("short".to_string(), "pause:abc".to_string()));
    assert_eq!(r[2][0].0, format!("{}...", "x".repeat(37)));
    assert_eq!(r[3][0].1, "menu:");
    assert_eq!(list_button_label("short"), "short");
}

#[test]
fn texts_of_additions() {
    assert_eq!(add_error_text("409 Conflict"), "⚠️ This torrent/magnet link is already in the download list.");
    assert_eq!(add_error_text("boom"), "❌ Error: boom");
    assert_eq!(peers_summary(Some(1), Some(2)), "Seeds: 1 | Peers: 2");
    assert_eq!(peers_summary(None, None), "Unknown");
    let t = torrent("a.b");
    assert_eq!(
        telegram_added_text(AddKind::MagnetLink, &t),
        "✅ *Magnet link added successfully\\!*\n\n*Name:* a\\.b\n*Size:* 1 MB\n*Status:* `stalledDL`\n*Peers:* Seeds: 3\n*Hash:* `abc`"
    );
    assert_eq!(
        discord_added_text(AddKind::TorrentFile, &t),
        "✅ **Torrent file added successfully!**\n\n**Name:** a.b\n**Size:** 1 MB\n**Status:** `stalledDL`\n**Peers:** Seeds: `3`\n**Hash:** `abc`"
    );
    assert_eq!(
        discord_added_summary_text(AddKind::MagnetLink, &t),
        "✅ **Magnet link added successfully!**\n\n**Name:** a.b\n**Size:** 1 MB\n**Status:** `stalledDL`\n**Peers:** Seeds: `3`\n**Hash:** `abc`"
    );
    assert!(metadata_ready(&t, "zzz"));
    assert!(!metadata_ready(&t, "a.b"));
}

#[test]
fn texts_of_details_and_links() {
    let t = torrent("n");
    assert_eq!(
        telegram_info_text(&t, "bar", 50),
        "📌 *n*\nProgress: bar 50%\nState: `stalledDL`\nSize: `1 MB`\nSpeed: `2 KB/s`\nETA: `00:01:01`\nPeers: `Seeds: 3`\nHash: `abc`"
    );
    assert_eq!(telegram_link_text("a.b", "http://h/x", true), "🔗 Here is your download link for *a\\.b*:\nhttp://h/x");
    assert_eq!(discord_link_text("n", false), "🔗 Here is your temporary download link for **n**:\n*(Expires in 1 hour)*");
    let tr = Translations::new();
    assert_eq!(
        telegram_details_text(&tr, None, &t, false, "BAR\n"),
        "n\nBAR\n**Size:** 1 MB\n**Category:** tv\n"
    );
    let mut t2 = torrent("n");
    t2.state = "downloading".to_string();
    t2.category = None;
    assert_eq!(
        telegram_details_text(&tr, None, &t2, true, "unused"),
        "n\n**COMPLETED**\n**State:** Downloading \n**Download Speed:** 2 KB/s\n**Size:** 1 MB\n**ETA:** 00:01:01\n"
    );
    assert_eq!(
        client_settings_text(&tr, None, "qbittorrent", true),
        "Edit Qbittorrent client settings \n\n**Speed Limit**: ✅ Enabled"
    );
}

#[test]
fn seeding_and_speed_texts() {
    assert_eq!(seed_policy_label("never"), "🚫 Never");
    assert_eq!(seed_policy_label("odd"), "odd");
    assert_eq!(current_seeding_text("admin_only"), "**Current seeding policy:** 👑 Admin Only (seed only when an admin downloads)");
    assert_eq!(seeding_updated_text("always", "never"), "✅ Seeding policy updated:\n**🌱 Always** → **🚫 Never**");
    assert_eq!(speed_limit_text(true), "Alternate speed limits toggled: **ON**");
    assert_eq!(deleted_text(true), "🗑️ Torrent deleted successfully (including files).");
}

#[test]
fn add_links() {
    assert_eq!(add_link_kind("MAGNET:?xt=urn:btih:abc"), AddLinkKind::Magnet);
    assert_eq!(add_link_kind("HTTPS://x/y.torrent"), AddLinkKind::TorrentUrl);
    assert_eq!(add_link_kind("ftp://x"), AddLinkKind::Invalid);
    assert_eq!(url_torrent_name("https://x/y/file.torrent"), "file.torrent");
    assert_eq!(url_torrent_name("https://x/y/download?id=3"), "downloaded.torrent");
}

#[test]
fn discord_views() {
    assert_eq!(status_filter(Some("all")), None);
    assert_eq!(status_filter(Some("paused")).as_deref(), Some("paused"));
    assert_eq!(discord_empty_status_text(Some("paused")).as_deref(), Some("No torrents found with status: **Paused**"));
    assert_eq!(discord_empty_status_text(None), None);
    let t = torrent("n");
    assert_eq!(
        discord_list_entry(&t, "bar", 7),
        "**n**\nbar 7%\nState: `StalledDL` | Size: `1 MB` | Speed: `2 KB/s`\nHash: `abc`\n\n"
    );
    let f = discord_detail_fields(&t, "bar", 7);
    assert_eq!(f.len(), 7);
    assert_eq!(f[5], ("Category".to_string(), "`tv`".to_string(), true));
    assert_eq!(f[3], ("Download Speed".to_string(), "`2 KB/s`".to_string(), true));
    let long = format!("a{}", "é".repeat(60));
    assert_eq!(select_label(&long), format!("a{}", "é".repeat(48)));
    assert_eq!(select_label("short"), "short");
}

#[test]
fn discord_components() {
    assert_eq!(discord_component("dc_pause:abc", "reader"), DiscordComponent::Unauthorized);
    assert_eq!(discord_component("dc_pause:abc", "manager"), DiscordComponent::Pause);
    assert_eq!(discord_component("dc_delete:abc", "manager"), DiscordComponent::UnauthorizedDelete);
    assert_eq!(discord_component("dc_cldel:abc:true", "administrator"), DiscordComponent::Delete);
    assert_eq!(discord_component("dc_auth:approve:reader:1:bob", "reader"), DiscordComponent::Approve);
    assert_eq!(discord_component("dc_auth:deny:1:bob", "reader"), DiscordComponent::Deny);
    assert_eq!(discord_component("select_torrent", "reader"), DiscordComponent::SelectTorrent);
    assert_eq!(discord_component("zzz", "reader"), DiscordComponent::Unhandled);
    assert_eq!(component_piece("dc_cldel:abc:true", 2).as_deref(), Some("true"));
    assert_eq!(component_piece("dc_cldel:abc", 2), None);
}

#[test]
fn confirmed_deletion_carries_the_data_flag() {
    assert_eq!(delete_request("dc_cldel:h1:true"), Some(("h1".to_string(), true)));
    assert_eq!(delete_request("dc_cldel:h1:false"), Some(("h1".to_string(), false)));
    assert_eq!(delete_request("dc_cldel:h1:TRUE"), Some(("h1".to_string(), false)));
    assert_eq!(delete_request("dc_cldel:h1"), None);
    assert_eq!(delete_request("dc_cldel"), None);
}
