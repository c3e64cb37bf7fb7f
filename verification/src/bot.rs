//! What the chat bots decide, apart from talking to the chat services: who
//! the user is and what the user may do, which action a button press or a
//! message asks for, and the pending action remembered between messages.
use vstd::prelude::*;
use crate::config::{copy_user, Settings, UserSettings, UserSpec};
use crate::tasks::users_view;
use crate::text::{
    chars_eq, chars_of, chars_starts_with, lowercase, owned, push_all, push_str_chars,
    signed_decimal, signed_decimal_chars, split_char, split_on_char, starts_with, string_of,
    to_lowercase, trim_start_all, trim_start_all_exec, trim_whitespace, trim_ws,
};

verus! {

/// Whether `v` holds the text of `lit`.
pub fn eq_lit(v: &Vec<char>, lit: &str) -> (r: bool)
    ensures
        r == (v@ == lit@),
{
    let l = chars_of(lit);
    chars_eq(v, &l)
}

// ---------------------------------------------------------------------------
// Roles
// ---------------------------------------------------------------------------

/// The role is `administrator`.
pub open spec fn is_admin_role(role: Seq<char>) -> bool {
    role == "administrator"@
}

/// The role is `manager` or `administrator`.
pub open spec fn is_manager_role(role: Seq<char>) -> bool {
    role == "manager"@ || role == "administrator"@
}

/// The role is `reader`.
pub open spec fn is_reader_role(role: Seq<char>) -> bool {
    role == "reader"@
}

/// Whether a role may manage torrents, and whether it administers the bot.
pub fn role_flags(role: &str) -> (r: (bool, bool))
    ensures
        r.0 == is_manager_role(role@),
        r.1 == is_admin_role(role@),
{
    let v = chars_of(role);
    let admin = eq_lit(&v, "administrator");
    let manager = eq_lit(&v, "manager") || admin;
    (manager, admin)
}

/// Whether the role is `reader`.
pub fn is_reader(role: &str) -> (r: bool)
    ensures
        r == is_reader_role(role@),
{
    let v = chars_of(role);
    eq_lit(&v, "reader")
}

// ---------------------------------------------------------------------------
// Users
// ---------------------------------------------------------------------------

/// The index of the first element of `s` that satisfies `p`.
pub open spec fn first_match<A>(s: Seq<A>, p: spec_fn(A) -> bool) -> Option<int>
    decreases s.len(),
{
    if s.len() == 0 {
        None
    } else if p(s[0]) {
        Some(0)
    } else {
        match first_match(s.drop_first(), p) {
            Some(i) => Some(i + 1),
            None => None,
        }
    }
}

/// `first_match` finds the first element that satisfies the test, and
/// nothing where none does.
pub proof fn lemma_first_match<A>(s: Seq<A>, p: spec_fn(A) -> bool)
    ensures
        match first_match(s, p) {
            Some(i) => 0 <= i < s.len() && p(s[i]) && forall|k: int| 0 <= k < i ==> !p(#[trigger] s[k]),
            None => forall|k: int| 0 <= k < s.len() ==> !p(#[trigger] s[k]),
        },
    decreases s.len(),
{
    if s.len() > 0 && !p(s[0]) {
        lemma_first_match(s.drop_first(), p);
        assert forall|k: int| 0 < k < s.len() implies s[k] == s.drop_first()[k - 1] by {}
    }
}

/// An element that satisfies the test, with none before it, is what
/// `first_match` finds.
pub proof fn lemma_first_match_at<A>(s: Seq<A>, p: spec_fn(A) -> bool, i: int)
    requires
        0 <= i < s.len(),
        p(s[i]),
        forall|k: int| 0 <= k < i ==> !p(#[trigger] s[k]),
    ensures
        first_match(s, p) == Some(i),
{
    lemma_first_match(s, p);
    match first_match(s, p) {
        Some(j) => {
            if j < i {
                assert(!p(s[j]));
            } else if j > i {
                assert(!p(s[i]));
            }
        },
        None => {
            assert(!p(s[i]));
        },
    }
}

/// The user with Telegram id `id`.
pub open spec fn has_telegram_id(id: i64) -> spec_fn(UserSpec) -> bool {
    |u: UserSpec| u.user_id == id
}

/// The user a Telegram user who is not configured is taken for: a reader
/// in English who is notified of everything.
pub open spec fn unknown_telegram_user(id: i64) -> UserSpec {
    UserSpec {
        user_id: id,
        discord_id: None,
        role: "reader"@,
        locale: Some("en"@),
        notify: true,
        notification_filter: seq![],
    }
}

/// The settings that apply to Telegram user `id`: the user configured with
/// that id, else the wildcard user (id 0), else an unknown reader.
pub open spec fn resolved_telegram_user(us: Seq<UserSpec>, id: i64) -> UserSpec {
    match first_match(us, has_telegram_id(id)) {
        Some(i) => us[i],
        None => match first_match(us, has_telegram_id(0)) {
            Some(j) => us[j],
            None => unknown_telegram_user(id),
        },
    }
}

/// The index of the first user with Telegram id `id`.
fn find_telegram_user(users: &Vec<UserSettings>, id: i64) -> (r: Option<usize>)
    ensures
        match r {
            Some(i) => i < users@.len() && first_match(users_view(users@), has_telegram_id(id)) == Some(i as int),
            None => first_match(users_view(users@), has_telegram_id(id)) is None,
        },
{
    let ghost us = users_view(users@);
    let ghost p = has_telegram_id(id);
    let mut i: usize = 0;
    while i < users.len()
        invariant
            i <= users.len(),
            us == users_view(users@),
            p == has_telegram_id(id),
            forall|k: int| 0 <= k < i ==> !p(#[trigger] us[k]),
        decreases users.len() - i,
    {
        if users[i].user_id == id {
            proof {
                assert(p(us[i as int]));
                lemma_first_match_at(us, p, i as int);
            }
            return Some(i);
        }
        assert(!p(us[i as int]));
        i = i + 1;
    }
    proof {
        lemma_first_match(us, p);
        if first_match(us, p) is Some {
            let j = first_match(us, p).unwrap();
            assert(p(us[j]));
        }
    }
    None
}

/// The settings that apply to Telegram user `telegram_id`.
pub fn get_resolved_user(settings: &Settings, telegram_id: i64) -> (r: UserSettings)
    ensures
        r@ == resolved_telegram_user(users_view(settings.users@), telegram_id),
{
    match find_telegram_user(&settings.users, telegram_id) {
        Some(i) => copy_user(&settings.users[i]),
        None => match find_telegram_user(&settings.users, 0) {
            Some(j) => copy_user(&settings.users[j]),
            None => {
                let r = UserSettings {
                    user_id: telegram_id,
                    discord_id: None,
                    role: owned("reader"),
                    locale: Some(owned("en")),
                    notify: true,
                    notification_filter: Vec::new(),
                };
                assert(r@.notification_filter =~= Seq::<Seq<char>>::empty());
                r
            },
        },
    }
}

/// Telegram user `id` may use the bot: it is configured, or a wildcard user
/// (id 0) is.
pub open spec fn telegram_authorized(us: Seq<UserSpec>, id: i64) -> bool {
    exists|i: int| 0 <= i < us.len() && (#[trigger] us[i].user_id == id || us[i].user_id == 0)
}

/// Whether Telegram user `telegram_id` may use the bot.
pub fn is_telegram_authorized(settings: &Settings, telegram_id: i64) -> (r: bool)
    ensures
        r == telegram_authorized(users_view(settings.users@), telegram_id),
{
    let ghost us = users_view(settings.users@);
    let mut i: usize = 0;
    while i < settings.users.len()
        invariant
            i <= settings.users.len(),
            us == users_view(settings.users@),
            forall|k: int| 0 <= k < i ==> #[trigger] us[k].user_id != telegram_id && us[k].user_id != 0,
        decreases settings.users.len() - i,
    {
        let uid = settings.users[i].user_id;
        assert(us[i as int].user_id == uid);
        if uid == telegram_id || uid == 0 {
            return true;
        }
        i = i + 1;
    }
    false
}

/// The user with Discord id `id`.
pub open spec fn has_discord_id(id: Seq<char>) -> spec_fn(UserSpec) -> bool {
    |u: UserSpec| u.discord_id == Some(id)
}

/// A user without a Discord id.
pub open spec fn without_discord_id() -> spec_fn(UserSpec) -> bool {
    |u: UserSpec| u.discord_id is None
}

/// The user a Discord user who is not configured is taken for.
pub open spec fn unknown_discord_user(id: Seq<char>) -> UserSpec {
    UserSpec {
        user_id: 0,
        discord_id: Some(id),
        role: "reader"@,
        locale: Some("en"@),
        notify: true,
        notification_filter: seq![],
    }
}

/// The settings that apply to Discord user `id`: the user configured with
/// that Discord id, else the first user without a Discord id, else an
/// unknown reader.
pub open spec fn resolved_discord_user(us: Seq<UserSpec>, id: Seq<char>) -> UserSpec {
    match first_match(us, has_discord_id(id)) {
        Some(i) => us[i],
        None => match first_match(us, without_discord_id()) {
            Some(j) => us[j],
            None => unknown_discord_user(id),
        },
    }
}

/// The index of the first user with Discord id `id`, or, with `id` absent,
/// of the first user without one.
fn find_discord_user(users: &Vec<UserSettings>, id: Option<&Vec<char>>) -> (r: Option<usize>)
    ensures
        ({
            let p = match id {
                Some(v) => has_discord_id(v@),
                None => without_discord_id(),
            };
            match r {
                Some(i) => i < users@.len() && first_match(users_view(users@), p) == Some(i as int),
                None => first_match(users_view(users@), p) is None,
            }
        }),
{
    let ghost us = users_view(users@);
    let ghost p = match id {
        Some(v) => has_discord_id(v@),
        None => without_discord_id(),
    };
    let mut i: usize = 0;
    while i < users.len()
        invariant
            i <= users.len(),
            us == users_view(users@),
            p == (match id {
                Some(v) => has_discord_id(v@),
                None => without_discord_id(),
            }),
            forall|k: int| 0 <= k < i ==> !p(#[trigger] us[k]),
        decreases users.len() - i,
    {
        let hit = match (&users[i].discord_id, id) {
            (Some(d), Some(v)) => {
                let dv = chars_of(d.as_str());
                chars_eq(&dv, v)
            },
            (None, None) => true,
            _ => false,
        };
        assert(us[i as int].discord_id == users@[i as int].discord_id.deep_view());
        if hit {
            proof {
                assert(p(us[i as int]));
                lemma_first_match_at(us, p, i as int);
            }
            return Some(i);
        }
        assert(!p(us[i as int]));
        i = i + 1;
    }
    proof {
        lemma_first_match(us, p);
        if first_match(us, p) is Some {
            let j = first_match(us, p).unwrap();
            assert(p(us[j]));
        }
    }
    None
}

/// The settings that apply to Discord user `discord_id`.
pub fn get_resolved_discord_user(settings: &Settings, discord_id: &str) -> (r: UserSettings)
    ensures
        r@ == resolved_discord_user(users_view(settings.users@), discord_id@),
{
    let id = chars_of(discord_id);
    match find_discord_user(&settings.users, Some(&id)) {
        Some(i) => copy_user(&settings.users[i]),
        None => match find_discord_user(&settings.users, None) {
            Some(j) => copy_user(&settings.users[j]),
            None => {
                let r = UserSettings {
                    user_id: 0,
                    discord_id: Some(owned(discord_id)),
                    role: owned("reader"),
                    locale: Some(owned("en")),
                    notify: true,
                    notification_filter: Vec::new(),
                };
                assert(r@.notification_filter =~= Seq::<Seq<char>>::empty());
                r
            },
        },
    }
}

/// The Discord id that stands in the shipped example configuration.
pub open spec fn example_discord_id() -> Seq<char> {
    "9876543210123"@
}

/// A real administrator is configured: one whose Discord id is not the
/// example one.
pub open spec fn has_real_admin(us: Seq<UserSpec>) -> bool {
    exists|i: int|
        0 <= i < us.len() && #[trigger] us[i].role == "administrator"@ && match us[i].discord_id {
            Some(d) => d != example_discord_id(),
            None => true,
        }
}

/// The Discord id `id` is configured.
pub open spec fn discord_known(us: Seq<UserSpec>, id: Seq<char>) -> bool {
    exists|i: int| 0 <= i < us.len() && #[trigger] us[i].discord_id == Some(id)
}

/// What happens to a Discord user's interaction or message before it is
/// handled.
#[derive(Debug, Clone, Copy, PartialEq, Eq, Structural)]
pub enum DiscordAccess {
    /// No real administrator is configured: the user becomes the first one.
    FirstAdministrator,
    /// The user is not configured: access can be requested.
    NotAuthorized,
    /// The interaction or message is handled.
    Proceed,
}

/// How Discord user `id` is let in; `access_flow` tells an interaction that
/// requests or grants access, which passes for unknown users.
pub open spec fn discord_access_of(us: Seq<UserSpec>, id: Seq<char>, access_flow: bool) -> DiscordAccess {
    if !has_real_admin(us) {
        DiscordAccess::FirstAdministrator
    } else if !discord_known(us, id) && !access_flow {
        DiscordAccess::NotAuthorized
    } else {
        DiscordAccess::Proceed
    }
}

/// Whether a real administrator is configured.
fn real_admin_exists(users: &Vec<UserSettings>) -> (r: bool)
    ensures
        r == has_real_admin(users_view(users@)),
{
    let ghost us = users_view(users@);
    let example = chars_of("9876543210123");
    let mut i: usize = 0;
    while i < users.len()
        invariant
            i <= users.len(),
            us == users_view(users@),
            example@ == example_discord_id(),
            forall|k: int|
                0 <= k < i ==> !(#[trigger] us[k].role == "administrator"@ && match us[k].discord_id {
                    Some(d) => d != example_discord_id(),
                    None => true,
                }),
        decreases users.len() - i,
    {
        let role = chars_of(users[i].role.as_str());
        let is_admin = eq_lit(&role, "administrator");
        let not_example = match &users[i].discord_id {
            Some(d) => {
                let dv = chars_of(d.as_str());
                !chars_eq(&dv, &example)
            },
            None => true,
        };
        assert(us[i as int].role == role@);
        assert(us[i as int].discord_id == users@[i as int].discord_id.deep_view());
        if is_admin && not_example {
            assert(has_real_admin(us));
            return true;
        }
        i = i + 1;
    }
    false
}

/// Whether Discord id `id` is configured.
fn discord_id_known(users: &Vec<UserSettings>, id: &Vec<char>) -> (r: bool)
    ensures
        r == discord_known(users_view(users@), id@),
{
    match find_discord_user(users, Some(id)) {
        Some(i) => {
            proof {
                lemma_first_match(users_view(users@), has_discord_id(id@));
                assert(users_view(users@)[i as int].discord_id == Some(id@));
            }
            true
        },
        None => {
            proof {
                lemma_first_match(users_view(users@), has_discord_id(id@));
                if discord_known(users_view(users@), id@) {
                    let k = choose|k: int| 0 <= k < users_view(users@).len() && #[trigger] users_view(users@)[k].discord_id == Some(id@);
                    assert(has_discord_id(id@)(users_view(users@)[k]));
                }
            }
            false
        },
    }
}

/// How Discord user `discord_id` is let in.
pub fn discord_access(settings: &Settings, discord_id: &str, access_flow: bool) -> (r: DiscordAccess)
    ensures
        r == discord_access_of(users_view(settings.users@), discord_id@, access_flow),
{
    if !real_admin_exists(&settings.users) {
        return DiscordAccess::FirstAdministrator;
    }
    let id = chars_of(discord_id);
    if !discord_id_known(&settings.users, &id) && !access_flow {
        DiscordAccess::NotAuthorized
    } else {
        DiscordAccess::Proceed
    }
}

/// A component interaction that requests or grants access.
pub open spec fn is_access_flow(custom_id: Seq<char>) -> bool {
    custom_id == "dc_request_access"@ || starts_with(custom_id, "dc_auth:"@)
}

/// Whether a component's custom id requests or grants access.
pub fn access_flow(custom_id: &str) -> (r: bool)
    ensures
        r == is_access_flow(custom_id@),
{
    let v = chars_of(custom_id);
    let auth = chars_of("dc_auth:");
    eq_lit(&v, "dc_request_access") || chars_starts_with(&v, &auth)
}

/// The first administrator: the resolved user, made administrator under
/// the Discord id.
pub fn first_administrator(settings: &Settings, discord_id: &str) -> (r: UserSettings)
    ensures
        r@ == (UserSpec {
            role: "administrator"@,
            discord_id: Some(discord_id@),
            ..resolved_discord_user(users_view(settings.users@), discord_id@)
        }),
{
    let mut u = get_resolved_discord_user(settings, discord_id);
    u.role = owned("administrator");
    u.discord_id = Some(owned(discord_id));
    u
}

/// A newly approved Discord user.
pub open spec fn approved_user(id: Seq<char>, role: Seq<char>) -> UserSpec {
    UserSpec {
        user_id: 0,
        discord_id: Some(id),
        role,
        locale: Some("en"@),
        notify: true,
        notification_filter: seq![],
    }
}

/// The users after approving Discord user `id` with `role`: the first user
/// with that Discord id gets the role, or, where there is none, a new user
/// is added at the end.
pub open spec fn users_after_approval(us: Seq<UserSpec>, id: Seq<char>, role: Seq<char>) -> Seq<UserSpec> {
    match first_match(us, has_discord_id(id)) {
        Some(i) => us.update(i, UserSpec { role, ..us[i] }),
        None => us.push(approved_user(id, role)),
    }
}

/// Approves Discord user `discord_id` with `role`, and returns the user as
/// it now stands.
pub fn approve_user(users: &mut Vec<UserSettings>, discord_id: &str, role: &str) -> (r: UserSettings)
    ensures
        users_view(final(users)@) == users_after_approval(users_view(old(users)@), discord_id@, role@),
        r@ == match first_match(users_view(old(users)@), has_discord_id(discord_id@)) {
            Some(i) => UserSpec { role: role@, ..users_view(old(users)@)[i] },
            None => approved_user(discord_id@, role@),
        },
{
    let id = chars_of(discord_id);
    let ghost before = users_view(users@);
    match find_discord_user(users, Some(&id)) {
        Some(i) => {
            let mut u = copy_user(&users[i]);
            u.role = owned(role);
            let r = copy_user(&u);
            users.set(i, u);
            assert(users_view(users@) =~= before.update(i as int, UserSpec { role: role@, ..before[i as int] }));
            r
        },
        None => {
            let u = UserSettings {
                user_id: 0,
                discord_id: Some(owned(discord_id)),
                role: owned(role),
                locale: Some(owned("en")),
                notify: true,
                notification_filter: Vec::new(),
            };
            assert(u@.notification_filter =~= Seq::<Seq<char>>::empty());
            let r = copy_user(&u);
            users.push(u);
            assert(users_view(users@) =~= before.push(approved_user(discord_id@, role@)));
            r
        },
    }
}

// ---------------------------------------------------------------------------
// Telegram button presses
// ---------------------------------------------------------------------------

/// The prefix and the first two arguments of a button's data: the pieces
/// between `:`s, an argument that is not there being empty.
pub open spec fn callback_parts(data: Seq<char>) -> (Seq<char>, Seq<char>, Seq<char>) {
    let p = split_char(data, ':');
    (
        p[0],
        if p.len() > 1 {
            p[1]
        } else {
            seq![]
        },
        if p.len() > 2 {
            p[2]
        } else {
            seq![]
        },
    )
}

/// The pieces of a button's data.
pub struct CallbackParts {
    pub prefix: String,
    pub arg1: String,
    pub arg2: String,
}

/// Splits a button's data into its prefix and first two arguments.
pub fn split_callback(data: &str) -> (r: CallbackParts)
    ensures
        (r.prefix@, r.arg1@, r.arg2@) == callback_parts(data@),
{
    let v = chars_of(data);
    let pieces = split_on_char(&v, ':');
    let ghost all = pieces@.map_values(|w: Vec<char>| w@);
    assert(all[0] == pieces@[0]@);
    let prefix = string_of(&pieces[0]);
    let arg1 = if pieces.len() > 1 {
        assert(all[1] == pieces@[1]@);
        string_of(&pieces[1])
    } else {
        String::new()
    };
    let arg2 = if pieces.len() > 2 {
        assert(all[2] == pieces@[2]@);
        string_of(&pieces[2])
    } else {
        String::new()
    };
    CallbackParts { prefix, arg1, arg2 }
}

/// What a Telegram button press asks for.  The arguments that go with it
/// are those of the button's data (`arg1`, and for `SetTorrentCategory` the
/// hashes in `arg1` and the category in `arg2`).
#[derive(Debug, Clone, Copy, PartialEq, Eq, Structural)]
pub enum TelegramAction {
    Menu,
    List,
    ListByStatus,
    Unauthorized,
    PauseResumeMenu,
    PauseAll,
    ResumeAll,
    ListToPause,
    Pause,
    ListToResume,
    Resume,
    DeleteMenu,
    ListToDelete,
    ConfirmDelete,
    DeleteKeepData,
    DeleteWithData,
    DeleteAllMenu,
    DeleteAllKeepData,
    DeleteAllWithData,
    Details,
    Export,
    ChooseCategory,
    AwaitMagnet,
    AwaitTorrentFile,
    CategoriesMenu,
    AwaitCategoryName,
    SelectCategory,
    RemoveCategory,
    AwaitCategoryPath,
    EditTorrentCategory,
    SetTorrentCategory,
    SettingsMenu,
    ClientSettings,
    ToggleSpeedLimit,
    CheckConnection,
    ReloadSettings,
    Unhandled,
}

/// `a` for a user allowed to, else `Unauthorized`.
pub open spec fn allowed(ok: bool, a: TelegramAction) -> TelegramAction {
    if ok {
        a
    } else {
        TelegramAction::Unauthorized
    }
}

/// The action of a Telegram button press with prefix `prefix` and first
/// argument `arg1`, for a user of role `role`: menus and listings are open
/// to all, pausing, resuming and adding need a manager, deleting,
/// categories and settings an administrator; the details, export and
/// category change of one torrent are open to all.
pub open spec fn telegram_action_of(prefix: Seq<char>, arg1: Seq<char>, role: Seq<char>) -> TelegramAction {
    let m = is_manager_role(role);
    let a = is_admin_role(role);
    if prefix == "menu"@ {
        TelegramAction::Menu
    } else if prefix == "list"@ {
        TelegramAction::List
    } else if prefix == "by_status_list"@ {
        TelegramAction::ListByStatus
    } else if prefix == "menu_pause_resume"@ {
        allowed(m, TelegramAction::PauseResumeMenu)
    } else if prefix == "pause_all"@ {
        allowed(m, TelegramAction::PauseAll)
    } else if prefix == "resume_all"@ {
        allowed(m, TelegramAction::ResumeAll)
    } else if prefix == "pause"@ {
        allowed(m, if arg1.len() == 0 { TelegramAction::ListToPause } else { TelegramAction::Pause })
    } else if prefix == "resume"@ {
        allowed(m, if arg1.len() == 0 { TelegramAction::ListToResume } else { TelegramAction::Resume })
    } else if prefix == "menu_delete"@ {
        allowed(a, TelegramAction::DeleteMenu)
    } else if prefix == "delete_one"@ {
        allowed(a, if arg1.len() == 0 { TelegramAction::ListToDelete } else { TelegramAction::ConfirmDelete })
    } else if prefix == "delete_one_no_data"@ {
        allowed(a, TelegramAction::DeleteKeepData)
    } else if prefix == "delete_one_data"@ {
        allowed(a, TelegramAction::DeleteWithData)
    } else if prefix == "delete_all"@ {
        allowed(a, TelegramAction::DeleteAllMenu)
    } else if prefix == "delete_all_no_data"@ {
        allowed(a, TelegramAction::DeleteAllKeepData)
    } else if prefix == "delete_all_data"@ {
        allowed(a, TelegramAction::DeleteAllWithData)
    } else if prefix == "torrentInfo"@ {
        TelegramAction::Details
    } else if prefix == "export"@ {
        TelegramAction::Export
    } else if prefix == "category"@ {
        allowed(m, TelegramAction::ChooseCategory)
    } else if prefix == "add_magnet"@ {
        allowed(m, TelegramAction::AwaitMagnet)
    } else if prefix == "add_torrent"@ {
        allowed(m, TelegramAction::AwaitTorrentFile)
    } else if prefix == "menu_categories"@ {
        allowed(a, TelegramAction::CategoriesMenu)
    } else if prefix == "add_category"@ {
        allowed(a, TelegramAction::AwaitCategoryName)
    } else if prefix == "select_category"@ {
        allowed(a, TelegramAction::SelectCategory)
    } else if prefix == "remove_category"@ {
        allowed(a, TelegramAction::RemoveCategory)
    } else if prefix == "modify_category"@ {
        allowed(a, TelegramAction::AwaitCategoryPath)
    } else if prefix == "edit_torrent_cat"@ {
        TelegramAction::EditTorrentCategory
    } else if prefix == "torrent_cat"@ {
        TelegramAction::SetTorrentCategory
    } else if prefix == "settings"@ {
        allowed(a, TelegramAction::SettingsMenu)
    } else if prefix == "edit_client"@ {
        allowed(a, TelegramAction::ClientSettings)
    } else if prefix == "toggle_speed_limit"@ {
        allowed(a, TelegramAction::ToggleSpeedLimit)
    } else if prefix == "check_connection"@ {
        allowed(a, TelegramAction::CheckConnection)
    } else if prefix == "reload_settings"@ {
        allowed(a, TelegramAction::ReloadSettings)
    } else {
        TelegramAction::Unhandled
    }
}

/// `a` where `ok`, else `Unauthorized`.
fn allow(ok: bool, a: TelegramAction) -> (r: TelegramAction)
    ensures
        r == allowed(ok, a),
{
    if ok {
        a
    } else {
        TelegramAction::Unauthorized
    }
}

/// The action of a Telegram button press, for a user of role `role`.
pub fn telegram_action(prefix: &str, arg1: &str, role: &str) -> (r: TelegramAction)
    ensures
        r == telegram_action_of(prefix@, arg1@, role@),
{
    let (m, a) = role_flags(role);
    let p = chars_of(prefix);
    let empty = chars_of(arg1).len() == 0;
    if eq_lit(&p, "menu") {
        TelegramAction::Menu
    } else if eq_lit(&p, "list") {
        TelegramAction::List
    } else if eq_lit(&p, "by_status_list") {
        TelegramAction::ListByStatus
    } else if eq_lit(&p, "menu_pause_resume") {
        allow(m, TelegramAction::PauseResumeMenu)
    } else if eq_lit(&p, "pause_all") {
        allow(m, TelegramAction::PauseAll)
    } else if eq_lit(&p, "resume_all") {
        allow(m, TelegramAction::ResumeAll)
    } else if eq_lit(&p, "pause") {
        allow(m, if empty { TelegramAction::ListToPause } else { TelegramAction::Pause })
    } else if eq_lit(&p, "resume") {
        allow(m, if empty { TelegramAction::ListToResume } else { TelegramAction::Resume })
    } else if eq_lit(&p, "menu_delete") {
        allow(a, TelegramAction::DeleteMenu)
    } else if eq_lit(&p, "delete_one") {
        allow(a, if empty { TelegramAction::ListToDelete } else { TelegramAction::ConfirmDelete })
    } else if eq_lit(&p, "delete_one_no_data") {
        allow(a, TelegramAction::DeleteKeepData)
    } else if eq_lit(&p, "delete_one_data") {
        allow(a, TelegramAction::DeleteWithData)
    } else if eq_lit(&p, "delete_all") {
        allow(a, TelegramAction::DeleteAllMenu)
    } else if eq_lit(&p, "delete_all_no_data") {
        allow(a, TelegramAction::DeleteAllKeepData)
    } else if eq_lit(&p, "delete_all_data") {
        allow(a, TelegramAction::DeleteAllWithData)
    } else if eq_lit(&p, "torrentInfo") {
        TelegramAction::Details
    } else if eq_lit(&p, "export") {
        TelegramAction::Export
    } else if eq_lit(&p, "category") {
        allow(m, TelegramAction::ChooseCategory)
    } else if eq_lit(&p, "add_magnet") {
        allow(m, TelegramAction::AwaitMagnet)
    } else if eq_lit(&p, "add_torrent") {
        allow(m, TelegramAction::AwaitTorrentFile)
    } else if eq_lit(&p, "menu_categories") {
        allow(a, TelegramAction::CategoriesMenu)
    } else if eq_lit(&p, "add_category") {
        allow(a, TelegramAction::AwaitCategoryName)
    } else if eq_lit(&p, "select_category") {
        allow(a, TelegramAction::SelectCategory)
    } else if eq_lit(&p, "remove_category") {
        allow(a, TelegramAction::RemoveCategory)
    } else if eq_lit(&p, "modify_category") {
        allow(a, TelegramAction::AwaitCategoryPath)
    } else if eq_lit(&p, "edit_torrent_cat") {
        TelegramAction::EditTorrentCategory
    } else if eq_lit(&p, "torrent_cat") {
        TelegramAction::SetTorrentCategory
    } else if eq_lit(&p, "settings") {
        allow(a, TelegramAction::SettingsMenu)
    } else if eq_lit(&p, "edit_client") {
        allow(a, TelegramAction::ClientSettings)
    } else if eq_lit(&p, "toggle_speed_limit") {
        allow(a, TelegramAction::ToggleSpeedLimit)
    } else if eq_lit(&p, "check_connection") {
        allow(a, TelegramAction::CheckConnection)
    } else if eq_lit(&p, "reload_settings") {
        allow(a, TelegramAction::ReloadSettings)
    } else {
        TelegramAction::Unhandled
    }
}

// ---------------------------------------------------------------------------
// The pending action between Telegram messages
// ---------------------------------------------------------------------------

/// The key under which a user's pending action is kept.
pub fn action_key(user_id: i64) -> (r: String)
    ensures
        r@ == "action:"@ + signed_decimal(user_id as int),
{
    let mut out = chars_of("action:");
    let d = signed_decimal_chars(user_id);
    push_all(&mut out, &d);
    string_of(&out)
}

/// The pending action that a button press leaves, if it leaves one: a
/// magnet link or a torrent file to add to category `arg1`, a category
/// name to read, or a new path for category `arg1`.
pub open spec fn pending_after(action: TelegramAction, arg1: Seq<char>) -> Option<Seq<char>> {
    match action {
        TelegramAction::AwaitMagnet => Some("magnet#"@ + arg1),
        TelegramAction::AwaitTorrentFile => Some("torrent#"@ + arg1),
        TelegramAction::AwaitCategoryName => Some("category_name"@),
        TelegramAction::AwaitCategoryPath => Some("category_dir_modify#"@ + arg1),
        _ => None,
    }
}

/// The pending action that a button press leaves.
pub fn pending_value(action: TelegramAction, arg1: &str) -> (r: Option<String>)
    ensures
        match r {
            Some(s) => pending_after(action, arg1@) == Some(s@),
            None => pending_after(action, arg1@) is None,
        },
{
    let head: &str = match action {
        TelegramAction::AwaitMagnet => "magnet#",
        TelegramAction::AwaitTorrentFile => "torrent#",
        TelegramAction::AwaitCategoryName => {
            return Some(owned("category_name"));
        },
        TelegramAction::AwaitCategoryPath => "category_dir_modify#",
        _ => {
            return None;
        },
    };
    let mut out = chars_of(head);
    push_str_chars(&mut out, arg1);
    Some(string_of(&out))
}

/// The prefix of the buttons that choose a category for an addition: adding
/// a magnet link where the first argument says so, else a torrent file.
pub fn category_choice_prefix(arg1: &str) -> (r: String)
    ensures
        r@ == if arg1@ == "add_magnet"@ {
            "add_magnet"@
        } else {
            "add_torrent"@
        },
{
    let v = chars_of(arg1);
    if eq_lit(&v, "add_magnet") {
        owned("add_magnet")
    } else {
        owned("add_torrent")
    }
}

/// The category that a pending action starting with `head` names: what
/// follows the (repeated) head, none where that is `None`; none where the
/// pending action is another.
pub open spec fn pending_category(pending: Seq<char>, head: Seq<char>) -> Option<Seq<char>> {
    if starts_with(pending, head) {
        let cat = trim_start_all(pending, head);
        if cat == "None"@ {
            None
        } else {
            Some(cat)
        }
    } else {
        None
    }
}

/// The category to add to, from the pending action and its head
/// (`magnet#` or `torrent#`).
pub fn category_from_pending(pending: &str, head: &str) -> (r: Option<String>)
    ensures
        match r {
            Some(c) => pending_category(pending@, head@) == Some(c@),
            None => pending_category(pending@, head@) is None,
        },
{
    let p = chars_of(pending);
    let h = chars_of(head);
    if !chars_starts_with(&p, &h) {
        return None;
    }
    let cat = trim_start_all_exec(&p, &h);
    if eq_lit(&cat, "None") {
        None
    } else {
        Some(string_of(&cat))
    }
}

/// What a text message asks for, once it is known that it is not a reply
/// command.
#[derive(Debug, Clone, Copy, PartialEq, Eq, Structural)]
pub enum TextStep {
    /// A `/` command.
    Command,
    /// A reader may only use commands.
    Unauthorized,
    /// Nothing is done (a category step by a user who is not an administrator).
    Ignore,
    /// The text is a new category's name: its path is asked for next.
    NameCategory,
    /// The text is the path of the category being added.
    CreateCategory,
    /// The text is the new path of the category being changed.
    ModifyCategory,
    /// The text may hold a magnet link to add.
    AddMagnet,
}

/// The step for a text message from a user of role `role` with pending
/// action `pending`.
pub open spec fn text_step_of(role: Seq<char>, pending: Seq<char>, text: Seq<char>) -> TextStep {
    if starts_with(text, seq!['/']) {
        TextStep::Command
    } else if is_reader_role(role) {
        TextStep::Unauthorized
    } else if pending == "category_name"@ || starts_with(pending, "category_dir_add#"@)
        || starts_with(pending, "category_dir_modify#"@) {
        if !is_admin_role(role) {
            TextStep::Ignore
        } else if pending == "category_name"@ {
            TextStep::NameCategory
        } else if starts_with(pending, "category_dir_add#"@) {
            TextStep::CreateCategory
        } else {
            TextStep::ModifyCategory
        }
    } else {
        TextStep::AddMagnet
    }
}

/// The step for a text message.
pub fn text_step(role: &str, pending: &str, text: &str) -> (r: TextStep)
    ensures
        r == text_step_of(role@, pending@, text@),
{
    let t = chars_of(text);
    let slash = vec!['/'];
    assert(slash@ == seq!['/']);
    if chars_starts_with(&t, &slash) {
        return TextStep::Command;
    }
    if is_reader(role) {
        return TextStep::Unauthorized;
    }
    let p = chars_of(pending);
    let add = chars_of("category_dir_add#");
    let modify = chars_of("category_dir_modify#");
    let is_name = eq_lit(&p, "category_name");
    let is_add = chars_starts_with(&p, &add);
    let is_modify = chars_starts_with(&p, &modify);
    if is_name || is_add || is_modify {
        let (_, admin) = role_flags(role);
        if !admin {
            TextStep::Ignore
        } else if is_name {
            TextStep::NameCategory
        } else if is_add {
            TextStep::CreateCategory
        } else {
            TextStep::ModifyCategory
        }
    } else {
        TextStep::AddMagnet
    }
}

/// The pending action after a category's name was sent.
pub fn category_add_pending(name: &str) -> (r: String)
    ensures
        r@ == "category_dir_add#"@ + name@,
{
    let mut out = chars_of("category_dir_add#");
    push_str_chars(&mut out, name);
    string_of(&out)
}

/// The category name of a pending category step with head `head`.
pub fn pending_category_name(pending: &str, head: &str) -> (r: String)
    ensures
        r@ == trim_start_all(pending@, head@),
{
    let p = chars_of(pending);
    let h = chars_of(head);
    let c = trim_start_all_exec(&p, &h);
    string_of(&c)
}

/// A `/` command.
#[derive(Debug, Clone, Copy, PartialEq, Eq, Structural)]
pub enum SlashCommand {
    Start,
    Stats,
    Other,
}

/// The command of a text that starts with `/`: the text after its leading
/// `/`s.
pub open spec fn slash_command_of(text: Seq<char>) -> SlashCommand {
    let cmd = trim_start_all(text, seq!['/']);
    if cmd == "start"@ {
        SlashCommand::Start
    } else if cmd == "stats"@ {
        SlashCommand::Stats
    } else {
        SlashCommand::Other
    }
}

/// The command of a `/` text.
pub fn slash_command(text: &str) -> (r: SlashCommand)
    ensures
        r == slash_command_of(text@),
{
    let t = chars_of(text);
    let slash = vec!['/'];
    assert(slash@ == seq!['/']);
    let cmd = trim_start_all_exec(&t, &slash);
    if eq_lit(&cmd, "start") {
        SlashCommand::Start
    } else if eq_lit(&cmd, "stats") {
        SlashCommand::Stats
    } else {
        SlashCommand::Other
    }
}

/// A command given in reply to a message about a torrent.
#[derive(Debug, Clone, Copy, PartialEq, Eq, Structural)]
pub enum ReplyCommand {
    /// The torrent's details.
    Info,
    /// The torrent's download link.
    Link,
}

/// The reply command of a text: trimmed and in lower case, `info` or
/// `/info` asks for the details, `link` or `/link` for the link.
pub open spec fn reply_command_of(text: Seq<char>) -> Option<ReplyCommand> {
    let cmd = lowercase(trim_ws(text));
    if cmd == "info"@ || cmd == "/info"@ {
        Some(ReplyCommand::Info)
    } else if cmd == "link"@ || cmd == "/link"@ {
        Some(ReplyCommand::Link)
    } else {
        None
    }
}

/// The reply command of a text, if it is one.
pub fn reply_command(text: &str) -> (r: Option<ReplyCommand>)
    ensures
        r == reply_command_of(text@),
{
    let t = chars_of(text);
    let trimmed = trim_whitespace(&t);
    let ts = string_of(&trimmed);
    let lower = to_lowercase(ts.as_str());
    let c = chars_of(lower.as_str());
    if eq_lit(&c, "info") || eq_lit(&c, "/info") {
        Some(ReplyCommand::Info)
    } else if eq_lit(&c, "link") || eq_lit(&c, "/link") {
        Some(ReplyCommand::Link)
    } else {
        None
    }
}

// ---------------------------------------------------------------------------
// Discord application commands
// ---------------------------------------------------------------------------

/// The kind of a Discord application command.
#[derive(Debug, Clone, Copy, PartialEq, Eq, Structural)]
pub enum DiscordCommandKind {
    /// A slash command.
    ChatInput,
    /// A command from a message's context menu.
    Message,
    /// Any other kind.
    Other,
}

/// What a Discord application command leads to.
#[derive(Debug, Clone, Copy, PartialEq, Eq, Structural)]
pub enum DiscordCommandStep {
    List,
    Stats,
    SpeedLimit,
    Seeding,
    Add,
    Info,
    Link,
    /// `Torrent Info` on a message.
    MessageInfo,
    /// `Get Download Link` on a message.
    MessageLink,
    /// The user may not run it: "You are not authorized to use this bot".
    Unauthorized,
    /// Nothing is done.
    Ignored,
}

/// The step of a Discord command `name` of kind `kind` for a user of role
/// `role`: readers may not toggle the speed limit or add torrents, and only
/// administrators set the seeding policy; the other commands are open to all.
pub open spec fn discord_command_step_of(kind: DiscordCommandKind, name: Seq<char>, role: Seq<char>) -> DiscordCommandStep {
    match kind {
        DiscordCommandKind::ChatInput => if name == "list"@ {
            DiscordCommandStep::List
        } else if name == "stats"@ {
            DiscordCommandStep::Stats
        } else if name == "speedlimit"@ {
            if is_reader_role(role) { DiscordCommandStep::Unauthorized } else { DiscordCommandStep::SpeedLimit }
        } else if name == "seeding"@ {
            if !is_admin_role(role) { DiscordCommandStep::Unauthorized } else { DiscordCommandStep::Seeding }
        } else if name == "add"@ {
            if is_reader_role(role) { DiscordCommandStep::Unauthorized } else { DiscordCommandStep::Add }
        } else if name == "info"@ {
            DiscordCommandStep::Info
        } else if name == "link"@ {
            DiscordCommandStep::Link
        } else {
            DiscordCommandStep::Ignored
        },
        DiscordCommandKind::Message => if name == "Torrent Info"@ {
            DiscordCommandStep::MessageInfo
        } else if name == "Get Download Link"@ {
            DiscordCommandStep::MessageLink
        } else {
            DiscordCommandStep::Ignored
        },
        DiscordCommandKind::Other => DiscordCommandStep::Ignored,
    }
}

/// The step of a Discord command for a user of role `role`.
pub fn discord_command_step(kind: DiscordCommandKind, name: &str, role: &str) -> (r: DiscordCommandStep)
    ensures
        r == discord_command_step_of(kind, name@, role@),
{
    let n = chars_of(name);
    let reader = is_reader(role);
    let (_, admin) = role_flags(role);
    match kind {
        DiscordCommandKind::ChatInput => if eq_lit(&n, "list") {
            DiscordCommandStep::List
        } else if eq_lit(&n, "stats") {
            DiscordCommandStep::Stats
        } else if eq_lit(&n, "speedlimit") {
            if reader { DiscordCommandStep::Unauthorized } else { DiscordCommandStep::SpeedLimit }
        } else if eq_lit(&n, "seeding") {
            if !admin { DiscordCommandStep::Unauthorized } else { DiscordCommandStep::Seeding }
        } else if eq_lit(&n, "add") {
            if reader { DiscordCommandStep::Unauthorized } else { DiscordCommandStep::Add }
        } else if eq_lit(&n, "info") {
            DiscordCommandStep::Info
        } else if eq_lit(&n, "link") {
            DiscordCommandStep::Link
        } else {
            DiscordCommandStep::Ignored
        },
        DiscordCommandKind::Message => if eq_lit(&n, "Torrent Info") {
            DiscordCommandStep::MessageInfo
        } else if eq_lit(&n, "Get Download Link") {
            DiscordCommandStep::MessageLink
        } else {
            DiscordCommandStep::Ignored
        },
        DiscordCommandKind::Other => DiscordCommandStep::Ignored,
    }
}

/// What the `/seeding` command does.
#[derive(Debug, Clone, PartialEq, Eq)]
pub enum SeedingStep {
    /// Not an administrator: "You are not authorized to use this bot".
    Unauthorized,
    /// No policy given: the current policy is shown.
    ShowCurrent,
    /// The given policy is stored in `seed_after_download`, the settings
    /// exported, and the change reported.
    SetPolicy(String),
}

/// The `/seeding` step as plain values.
pub enum SeedingStepSpec {
    Unauthorized,
    ShowCurrent,
    SetPolicy(Seq<char>),
}

impl SeedingStep {
    /// The step as plain values.
    pub open spec fn spec_view(&self) -> SeedingStepSpec {
        match self {
            SeedingStep::Unauthorized => SeedingStepSpec::Unauthorized,
            SeedingStep::ShowCurrent => SeedingStepSpec::ShowCurrent,
            SeedingStep::SetPolicy(p) => SeedingStepSpec::SetPolicy(p@),
        }
    }
}

/// The `/seeding` step for a user of role `role`, with the `policy` option
/// where one was given.
pub open spec fn seeding_step_of(role: Seq<char>, policy: Option<Seq<char>>) -> SeedingStepSpec {
    if !is_admin_role(role) {
        SeedingStepSpec::Unauthorized
    } else {
        match policy {
            None => SeedingStepSpec::ShowCurrent,
            Some(p) => SeedingStepSpec::SetPolicy(p),
        }
    }
}

/// The `/seeding` step for a user of role `role`.
pub fn seeding_step(role: &str, policy: Option<&str>) -> (r: SeedingStep)
    ensures
        r.spec_view() == seeding_step_of(role@, match policy {
            Some(p) => Some(p@),
            None => None,
        }),
{
    let (_, admin) = role_flags(role);
    if !admin {
        SeedingStep::Unauthorized
    } else {
        match policy {
            None => SeedingStep::ShowCurrent,
            Some(p) => SeedingStep::SetPolicy(owned(p)),
        }
    }
}

/// Stores the seeding policy `policy`, leaving every other setting as it was.
pub fn set_seed_policy(s: &mut Settings, policy: &str)
    ensures
        final(s).seed_after_download@ == policy@,
        final(s).client == old(s).client,
        final(s).telegram == old(s).telegram,
        final(s).discord == old(s).discord,
        final(s).users == old(s).users,
        final(s).redis == old(s).redis,
        final(s).s3 == old(s).s3,
        final(s).local_server == old(s).local_server,
        final(s).notifications == old(s).notifications,
{
    s.seed_after_download = owned(policy);
}

} // verus!
