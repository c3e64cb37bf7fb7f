use magpie::bot::{discord_command_step, seeding_step, set_seed_policy, DiscordCommandKind, DiscordCommandStep, SeedingStep};
use magpie::bot::{
    access_flow, action_key, approve_user, category_choice_prefix, category_from_pending,
    discord_access, first_administrator, get_resolved_discord_user, get_resolved_user,
    is_telegram_authorized, pending_category_name, pending_value, reply_command, role_flags,
    slash_command, split_callback, telegram_action, text_step, DiscordAccess, ReplyCommand,
    SlashCommand, TelegramAction, TextStep,
};
use magpie::config::{Settings, UserSettings};

fn user(id: i64, discord: Option<&str>, role: &str) -> UserSettings {
    UserSettings {
        user_id: id,
        discord_id: discord.map(|s| s.to_string()),
        role: role.to_string(),
        locale: Some("it".to_string()),
        notify: true,
        notification_filter: vec![],
    }
}

fn settings_with(users: Vec<UserSettings>) -> Settings {
    let mut s = Settings::get_default_settings();
    s.users = users;
    s
}

#[test]
fn roles() {
    assert_eq!(role_flags("administrator"), (true, true));
    assert_eq!(role_flags("manager"), (true, false));
    assert_eq!(role_flags("reader"), (false, false));
}

#[test]
fn telegram_user_resolution() {
    let s = settings_with(vec![user(5, None, "manager"), user(0, None, "reader"), user(5, None, "administrator")]);
    assert_eq!(get_resolved_user(&s, 5).role, "manager");
    let wildcard = get_resolved_user(&s, 77);
    assert_eq!(wildcard.user_id, 0);
    assert!(is_telegram_authorized(&s, 77));
    let s2 = settings_with(vec![user(5, None, "manager")]);
    let unknown = get_resolved_user(&s2, 77);
    assert_eq!(unknown.user_id, 77);
    assert_eq!(unknown.role, "reader");
    assert_eq!(unknown.locale.as_deref(), Some("en"));
    assert!(!is_telegram_authorized(&s2, 77));
    assert!(is_telegram_authorized(&s2, 5));
}

#[test]
fn discord_user_resolution_and_access() {
    let s = settings_with(vec![user(1, Some("9876543210123"), "administrator"), user(2, Some("55"), "manager")]);
    assert_eq!(discord_access(&s, "55", false), DiscordAccess::FirstAdministrator);
    let first = first_administrator(&s, "99");
    assert_eq!(first.role, "administrator");
    assert_eq!(first.discord_id.as_deref(), Some("99"));
    let s2 = settings_with(vec![user(1, Some("10"), "administrator"), user(2, None, "manager")]);
    assert_eq!(discord_access(&s2, "10", false), DiscordAccess::Proceed);
    assert_eq!(discord_access(&s2, "77", false), DiscordAccess::NotAuthorized);
    assert_eq!(discord_access(&s2, "77", true), DiscordAccess::Proceed);
    assert_eq!(get_resolved_discord_user(&s2, "77").user_id, 2);
    let s3 = settings_with(vec![user(1, Some("10"), "administrator")]);
    let unknown = get_resolved_discord_user(&s3, "77");
    assert_eq!(unknown.discord_id.as_deref(), Some("77"));
    assert_eq!(unknown.role, "reader");
    assert!(access_flow("dc_request_access"));
    assert!(access_flow("dc_auth:approve:reader:1:x"));
    assert!(!access_flow("dc_pause:abc"));
}

#[test]
fn approval_updates_or_adds() {
    let mut users = vec![user(1, Some("10"), "reader")];
    let u = approve_user(&mut users, "10", "manager");
    assert_eq!(u.role, "manager");
    assert_eq!(users.len(), 1);
    assert_eq!(users[0].role, "manager");
    let v = approve_user(&mut users, "20", "reader");
    assert_eq!(users.len(), 2);
    assert_eq!(v.discord_id.as_deref(), Some("20"));
    assert_eq!(v.user_id, 0);
    assert_eq!(users[1].role, "reader");
}

#[test]
fn callback_data_splits() {
    let p = split_callback("torrent_cat:h1|h2:movies:extra");
    assert_eq!((p.prefix.as_str(), p.arg1.as_str(), p.arg2.as_str()), ("torrent_cat", "h1|h2", "movies"));
    let q = split_callback("menu:");
    assert_eq!((q.prefix.as_str(), q.arg1.as_str(), q.arg2.as_str()), ("menu", "", ""));
    let r = split_callback("list");
    assert_eq!((r.prefix.as_str(), r.arg1.as_str(), r.arg2.as_str()), ("list", "", ""));
}

#[test]
fn actions_by_role() {
    assert_eq!(telegram_action("pause", "", "manager"), TelegramAction::ListToPause);
    assert_eq!(telegram_action("pause", "abc", "manager"), TelegramAction::Pause);
    assert_eq!(telegram_action("pause", "abc", "reader"), TelegramAction::Unauthorized);
    assert_eq!(telegram_action("delete_one", "abc", "manager"), TelegramAction::Unauthorized);
    assert_eq!(telegram_action("delete_one", "abc", "administrator"), TelegramAction::ConfirmDelete);
    assert_eq!(telegram_action("torrentInfo", "abc", "reader"), TelegramAction::Details);
    assert_eq!(telegram_action("settings", "", "administrator"), TelegramAction::SettingsMenu);
    assert_eq!(telegram_action("dc_retry", "", "administrator"), TelegramAction::Unhandled);
    assert_eq!(telegram_action("menu", "", "reader"), TelegramAction::Menu);
}

#[test]
fn managers_add_and_pause_but_do_not_administer() {
    assert_eq!(telegram_action("add_magnet", "", "manager"), TelegramAction::AwaitMagnet);
    assert_eq!(telegram_action("add_torrent", "", "manager"), TelegramAction::AwaitTorrentFile);
    assert_eq!(telegram_action("pause_all", "", "manager"), TelegramAction::PauseAll);
    assert_eq!(telegram_action("resume_all", "", "manager"), TelegramAction::ResumeAll);
    for prefix in ["menu_delete", "delete_all_data", "menu_categories", "remove_category", "settings", "reload_settings"] {
        assert_eq!(telegram_action(prefix, "x", "manager"), TelegramAction::Unauthorized);
    }
}

#[test]
fn pending_actions() {
    assert_eq!(action_key(-42), "action:-42");
    assert_eq!(pending_value(TelegramAction::AwaitMagnet, "movies").as_deref(), Some("magnet#movies"));
    assert_eq!(pending_value(TelegramAction::AwaitTorrentFile, "None").as_deref(), Some("torrent#None"));
    assert_eq!(pending_value(TelegramAction::AwaitCategoryName, "x").as_deref(), Some("category_name"));
    assert_eq!(pending_value(TelegramAction::AwaitCategoryPath, "tv").as_deref(), Some("category_dir_modify#tv"));
    assert_eq!(pending_value(TelegramAction::Menu, "x"), None);
    assert_eq!(category_from_pending("magnet#movies", "magnet#").as_deref(), Some("movies"));
    assert_eq!(category_from_pending("magnet#None", "magnet#"), None);
    assert_eq!(category_from_pending("magnet#magnet#tv", "magnet#").as_deref(), Some("tv"));
    assert_eq!(category_from_pending("torrent#tv", "magnet#"), None);
    assert_eq!(pending_category_name("category_dir_add#films", "category_dir_add#"), "films");
    assert_eq!(category_choice_prefix("add_magnet"), "add_magnet");
    assert_eq!(category_choice_prefix("other"), "add_torrent");
}

#[test]
fn text_steps() {
    assert_eq!(text_step("reader", "", "/start"), TextStep::Command);
    assert_eq!(text_step("reader", "", "hello"), TextStep::Unauthorized);
    assert_eq!(text_step("manager", "category_name", "films"), TextStep::Ignore);
    assert_eq!(text_step("administrator", "category_name", "films"), TextStep::NameCategory);
    assert_eq!(text_step("administrator", "category_dir_add#films", "/x"), TextStep::Command);
    assert_eq!(text_step("administrator", "category_dir_add#films", "d"), TextStep::CreateCategory);
    assert_eq!(text_step("administrator", "category_dir_modify#films", "d"), TextStep::ModifyCategory);
    assert_eq!(text_step("manager", "magnet#tv", "magnet:?xt=urn:btih:ab"), TextStep::AddMagnet);
    assert_eq!(slash_command("/start"), SlashCommand::Start);
    assert_eq!(slash_command("//stats"), SlashCommand::Stats);
    assert_eq!(slash_command("/help"), SlashCommand::Other);
    assert_eq!(reply_command("  INFO "), Some(ReplyCommand::Info));
    assert_eq!(reply_command("/link"), Some(ReplyCommand::Link));
    assert_eq!(reply_command("links"), None);
}

#[test]
fn discord_commands_by_role() {
    let chat = DiscordCommandKind::ChatInput;
    assert_eq!(discord_command_step(chat, "speedlimit", "reader"), DiscordCommandStep::Unauthorized);
    assert_eq!(discord_command_step(chat, "speedlimit", "manager"), DiscordCommandStep::SpeedLimit);
    assert_eq!(discord_command_step(chat, "add", "reader"), DiscordCommandStep::Unauthorized);
    assert_eq!(discord_command_step(chat, "add", "manager"), DiscordCommandStep::Add);
    assert_eq!(discord_command_step(chat, "seeding", "manager"), DiscordCommandStep::Unauthorized);
    assert_eq!(discord_command_step(chat, "seeding", "administrator"), DiscordCommandStep::Seeding);
    assert_eq!(discord_command_step(chat, "list", "reader"), DiscordCommandStep::List);
    assert_eq!(discord_command_step(chat, "unknown", "administrator"), DiscordCommandStep::Ignored);
    assert_eq!(discord_command_step(DiscordCommandKind::Message, "Torrent Info", "reader"), DiscordCommandStep::MessageInfo);
    assert_eq!(discord_command_step(DiscordCommandKind::Message, "list", "reader"), DiscordCommandStep::Ignored);
    assert_eq!(discord_command_step(DiscordCommandKind::Other, "list", "reader"), DiscordCommandStep::Ignored);
}

#[test]
fn seeding_command_steps() {
    assert_eq!(
        discord_command_step(DiscordCommandKind::ChatInput, "seeding", "administrator"),
        DiscordCommandStep::Seeding
    );
    assert_eq!(
        discord_command_step(DiscordCommandKind::ChatInput, "seeding", "reader"),
        DiscordCommandStep::Unauthorized
    );
    assert_eq!(seeding_step("reader", Some("never")), SeedingStep::Unauthorized);
    assert_eq!(seeding_step("manager", None), SeedingStep::Unauthorized);
    assert_eq!(seeding_step("administrator", None), SeedingStep::ShowCurrent);
    assert_eq!(
        seeding_step("administrator", Some("never")),
        SeedingStep::SetPolicy("never".to_string())
    );
}

#[test]
fn storing_a_seed_policy_changes_only_that_setting() {
    let mut s = settings_with(vec![user(1, Some("d1"), "administrator")]);
    let before = format!("{:?}", s.users);
    assert_eq!(s.seed_after_download, "always");
    set_seed_policy(&mut s, "never");
    assert_eq!(s.seed_after_download, "never");
    assert_eq!(format!("{:?}", s.users), before);
}
