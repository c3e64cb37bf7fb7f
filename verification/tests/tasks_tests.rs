use magpie::tasks::{finish_action, FinishAction, LinkOutcome};
use magpie::tasks::progress_record;
use magpie::config::{Settings, UserSettings};
use magpie::i18n::Translations;
use magpie::mock_client::FileState;
use magpie::redis_client::RedisEmulator;
use magpie::tasks::{
    discord_channel, finished_notices, link_step, pause_after_finish, progress_candidate,
    progress_key, progress_texts, should_pause, should_report, telegram_target, user_filters,
    LinkStep, FINISHED_MARK_SECS,
};
use magpie::torrent_client::Torrent;

fn user(id: i64, role: &str, notify: bool, filter: Vec<&str>) -> UserSettings {
    UserSettings {
        user_id: id,
        discord_id: None,
        role: role.to_string(),
        locale: Some("en".to_string()),
        notify,
        notification_filter: filter.into_iter().map(|s| s.to_string()).collect(),
    }
}

fn test_settings() -> Settings {
    let mut s = Settings::get_default_settings();
    s.telegram.enabled = false;
    s.discord.enabled = false;
    s.users = vec![user(111, "administrator", true, vec![]), user(222, "reader", false, vec![])];
    s.seed_after_download = "always".to_string();
    s
}

fn completed_torrent(hash: &str, name: &str) -> Torrent {
    Torrent {
        hash: hash.to_string(),
        name: name.to_string(),
        progress_bits: 1.0f64.to_bits(),
        dlspeed: 0,
        state: "completed".to_string(),
        size: 1024 * 1024 * 500,
        eta: 0,
        category: None,
        save_path: Some("/downloads".to_string()),
        content_path: Some(format!("/downloads/{}", name)),
        num_seeds: Some(3),
        num_peers: Some(0),
    }
}

/// One round of the finished-download task against the mock client, the
/// notification marks kept in the Redis stand-in.
fn finished_round(client: &mut FileState, redis: &mut RedisEmulator, settings: &Settings) {
    let tr = Translations::new();
    let done = client.get_torrents(None, Some("completed")).unwrap();
    for t in done {
        if redis.key_exists(&t.hash) {
            continue;
        }
        assert_eq!(link_step(settings, t.content_path.as_ref()), LinkStep::NoLink);
        let targets = user_filters(&settings.users, t.category.as_deref());
        let _notices = finished_notices(&tr, &targets, &t.name, "", settings.local_server.enabled);
        if pause_after_finish(settings, &targets) {
            client.pause(&t.hash).unwrap();
        }
        redis.set(&t.hash, "true", Some(FINISHED_MARK_SECS));
    }
}

#[test]
fn test_finished_never_policy_pauses_torrent() {
    let mut client = FileState::new();
    let hash = "cccccccccccccccccccccccccccccccccccccccc";
    client.seed_torrent(completed_torrent(hash, "Finished Film"));
    let mut settings = test_settings();
    settings.seed_after_download = "never".to_string();
    settings.users[0].notify = false;
    let mut redis = RedisEmulator::new();
    finished_round(&mut client, &mut redis, &settings);
    let t = client.get_torrent(hash).unwrap().unwrap();
    assert_eq!(t.state, "paused");
}

#[test]
fn test_finished_always_policy_does_not_pause() {
    let mut client = FileState::new();
    let hash = "dddddddddddddddddddddddddddddddddddddddd";
    client.seed_torrent(completed_torrent(hash, "Keep Seeding"));
    let mut settings = test_settings();
    settings.seed_after_download = "always".to_string();
    settings.users[0].notify = false;
    let mut redis = RedisEmulator::new();
    finished_round(&mut client, &mut redis, &settings);
    let t = client.get_torrent(hash).unwrap().unwrap();
    assert_eq!(t.state, "completed");
}

#[test]
fn test_finished_deduplicates_notifications_via_sqlite() {
    let mut client = FileState::new();
    let hash = "eeeeeeeeeeeeeeeeeeeeeeeeeeeeeeeeeeeeeeee";
    client.seed_torrent(completed_torrent(hash, "Already Notified"));
    let mut settings = test_settings();
    settings.seed_after_download = "never".to_string();
    settings.users[0].notify = false;
    let mut redis = RedisEmulator::new();
    finished_round(&mut client, &mut redis, &settings);
    client.seed_torrent(completed_torrent(hash, "Already Notified"));
    finished_round(&mut client, &mut redis, &settings);
    let t = client.get_torrent(hash).unwrap().unwrap();
    assert_eq!(t.state, "completed");
}

#[test]
fn users_are_filtered_by_category() {
    let users = vec![
        user(1, "reader", true, vec![]),
        user(2, "reader", true, vec!["movies"]),
        user(3, "reader", true, vec!["tv"]),
    ];
    let ids = |v: Vec<UserSettings>| v.iter().map(|u| u.user_id).collect::<Vec<i64>>();
    assert_eq!(ids(user_filters(&users, Some("movies"))), vec![1, 2]);
    assert_eq!(ids(user_filters(&users, None)), vec![1]);
}

#[test]
fn admin_only_policy_depends_on_admins() {
    let admin = vec![user(1, "administrator", true, vec![])];
    let readers = vec![user(2, "reader", true, vec![])];
    assert!(!should_pause("admin_only", &admin));
    assert!(should_pause("admin_only", &readers));
    assert!(!should_pause("always", &readers));
    assert!(should_pause("never", &admin));
}

#[test]
fn upload_mode_keeps_torrent_seeding() {
    let mut s = test_settings();
    s.seed_after_download = "never".to_string();
    s.s3.enabled = true;
    s.s3.mode = "upload".to_string();
    assert!(!pause_after_finish(&s, &s.users));
    assert_eq!(link_step(&s, Some(&"/d/x".to_string())), LinkStep::UploadThenLink);
    assert_eq!(link_step(&s, Some(&"".to_string())), LinkStep::MissingContentPath);
    s.local_server.enabled = true;
    assert_eq!(link_step(&s, None), LinkStep::Link);
}

#[test]
fn finished_notice_texts() {
    let tr = Translations::new();
    let mut u = user(5, "reader", true, vec![]);
    let notices = finished_notices(&tr, &vec![u.clone_for_test()], "a_b", "http://x/y", false);
    assert_eq!(notices.len(), 1);
    assert_eq!(notices[0].telegram_chat, Some(5));
    assert_eq!(notices[0].discord_user, None);
    assert_eq!(
        notices[0].text,
        "Torrent a\\_b has finished downloading!\n\n🔗 **[Download Link](http://x/y)** *(Expires in 1 hour)*"
    );
    u.user_id = 0;
    u.discord_id = Some("42".to_string());
    let notices = finished_notices(&tr, &vec![u], "n", "http://x/y", true);
    assert_eq!(notices[0].telegram_chat, None);
    assert_eq!(notices[0].discord_user, Some(42));
    assert_eq!(notices[0].text, "Torrent n has finished downloading!");
    let quiet = user(6, "reader", false, vec![]);
    assert_eq!(finished_notices(&tr, &vec![quiet], "n", "", true).len(), 0);
}

trait CloneForTest {
    fn clone_for_test(&self) -> Self;
}

impl CloneForTest for UserSettings {
    fn clone_for_test(&self) -> Self {
        magpie::config::copy_user(self)
    }
}

#[test]
fn progress_milestones() {
    assert_eq!(progress_candidate(2000, 1000, 23, 10), Some(20));
    assert_eq!(progress_candidate(500, 1000, 23, 10), None);
    assert_eq!(progress_candidate(2000, 1000, 5, 10), None);
    assert_eq!(progress_candidate(2000, 1000, 100, 10), None);
    assert_eq!(progress_candidate(2000, 1000, 99, 0), Some(99));
    assert_eq!(progress_candidate(2000, 1000, 99, 250), None);
    assert!(should_report(20, Some(&"10".to_string())));
    assert!(!should_report(20, Some(&"20".to_string())));
    assert!(should_report(20, None));
    assert!(should_report(20, Some(&"junk".to_string())));
    assert_eq!(progress_key("abc"), "progress_notified:abc");
}

#[test]
fn progress_report_texts() {
    let mut t = completed_torrent("h.1", "My.Film");
    t.state = "downloading".to_string();
    t.size = 1024;
    t.dlspeed = 1536;
    let (tg, dc) = progress_texts(&t, "bar", 42);
    assert_eq!(tg, "✅ *My\\.Film*\nbar42\n*State:* `Downloading` \\| *Size:* `1 KB` \\| *Speed:* `1\\.5 KB/s`\n*Hash:* `h\\.1`");
    assert_eq!(dc, "**My.Film**\nbar42\nState: `Downloading` | Size: `1 KB` | Speed: `1.5 KB/s`\nHash: `h.1`");
}

#[test]
fn stored_message_targets() {
    assert_eq!(telegram_target("17", Some(&"-100".to_string())), Some((17, -100)));
    assert_eq!(telegram_target("x", Some(&"1".to_string())), None);
    assert_eq!(telegram_target("1", None), None);
    assert_eq!(telegram_target("2147483648", Some(&"1".to_string())), None);
    assert_eq!(discord_channel(Some(&"dc:123".to_string())), Some(123));
    assert_eq!(discord_channel(Some(&"123".to_string())), None);
    assert_eq!(discord_channel(None), None);
}

#[test]
fn finished_torrents_are_handled_once() {
    assert_eq!(finish_action(false, false, LinkOutcome::Made), FinishAction::NotifyAndRecord);
    assert_eq!(finish_action(false, false, LinkOutcome::NoLink), FinishAction::NotifyAndRecord);
    assert_eq!(finish_action(false, false, LinkOutcome::Failed), FinishAction::TryAgain);
    assert_eq!(finish_action(true, false, LinkOutcome::Made), FinishAction::AlreadyHandled);
    assert_eq!(finish_action(false, true, LinkOutcome::Failed), FinishAction::AlreadyHandled);
}

#[test]
fn a_recorded_milestone_is_not_reported_again() {
    let rec = progress_record(30);
    assert_eq!(rec, "30");
    assert!(!should_report(30, Some(&rec)));
    assert!(!should_report(20, Some(&rec)));
    assert!(should_report(40, Some(&rec)));
}
