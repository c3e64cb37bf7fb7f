//! The decisions of the periodic tasks: who hears of a finished download and
//! what they are told, whether a finished torrent keeps seeding, and which
//! progress milestones are reported, where and with what text.  Talking to
//! the torrent client, the chat services, Redis and the database is left to
//! the caller, which hands the results in as plain values.
use vstd::prelude::*;
use crate::config::{copy_user, Settings, UserSettings, UserSpec};
use crate::i18n::{english, translate, translated, Translations};
use crate::text::{
    capitalize, capitalized, chars_eq, chars_of, chars_starts_with, decimal, decimal_chars,
    owned, parse_signed, parse_signed_chars, parse_unsigned, parse_unsigned_chars, push_all,
    push_str_chars, starts_with, string_of, sub_chars,
};
use crate::torrent_client::Torrent;
use crate::utils::{convert_size, escape_markdown, markdown_escaped, size_text};

verus! {

/// How long a finished torrent stays marked as notified, in seconds (ten days).
pub const FINISHED_MARK_SECS: u64 = 864000u64;

/// How long a reported progress milestone is remembered, in seconds (thirty days).
pub const PROGRESS_MARK_SECS: u64 = 2592000u64;

/// The users as plain values.
pub open spec fn users_view(us: Seq<UserSettings>) -> Seq<UserSpec> {
    Seq::new(us.len(), |i: int| us[i]@)
}

/// An optional string slice as plain values.
pub open spec fn opt_str(o: Option<&str>) -> Option<Seq<char>> {
    match o {
        Some(s) => Some(s@),
        None => None,
    }
}

// ---------------------------------------------------------------------------
// Who is notified of a finished download
// ---------------------------------------------------------------------------

/// A user wants to hear of a torrent of `category`: one without a filter
/// hears of every torrent, one with a filter of the torrents whose category
/// is in it (so never of one without a category).
pub open spec fn wants_category(u: UserSpec, category: Option<Seq<char>>) -> bool {
    u.notification_filter.len() == 0 || match category {
        Some(c) => u.notification_filter.contains(c),
        None => false,
    }
}

/// The test of `wants_category` for one category.
pub open spec fn wants(category: Option<Seq<char>>) -> spec_fn(UserSpec) -> bool {
    |u: UserSpec| wants_category(u, category)
}

/// Whether `cat` is one of the entries of `filter`.
fn filter_has(filter: &Vec<String>, cat: &str) -> (r: bool)
    ensures
        r == filter.deep_view().contains(cat@),
{
    let c = chars_of(cat);
    let mut i: usize = 0;
    while i < filter.len()
        invariant
            i <= filter.len(),
            c@ == cat@,
            forall|k: int| 0 <= k < i ==> filter.deep_view()[k] != cat@,
        decreases filter.len() - i,
    {
        let f = chars_of(filter[i].as_str());
        assert(filter.deep_view()[i as int] == filter@[i as int]@);
        if chars_eq(&f, &c) {
            return true;
        }
        i = i + 1;
    }
    false
}

/// The users to notify of a finished torrent of `category`, in their order.
pub fn user_filters(users: &Vec<UserSettings>, category: Option<&str>) -> (r: Vec<UserSettings>)
    ensures
        users_view(r@) == users_view(users@).filter(wants(opt_str(category))),
{
    let ghost all = users_view(users@);
    let ghost pred = wants(opt_str(category));
    let mut out: Vec<UserSettings> = Vec::new();
    let mut i: usize = 0;
    assert(all.take(0) =~= Seq::<UserSpec>::empty());
    while i < users.len()
        invariant
            i <= users.len(),
            all == users_view(users@),
            pred == wants(opt_str(category)),
            users_view(out@) == all.take(i as int).filter(pred),
        decreases users.len() - i,
    {
        proof {
            assert(all.take(i + 1) =~= all.take(i as int).push(all[i as int]));
            all.take(i as int).lemma_filter_push(all[i as int], pred);
        }
        let u = &users[i];
        let wanted = u.notification_filter.len() == 0 || match category {
            Some(c) => filter_has(&u.notification_filter, c),
            None => false,
        };
        assert(wanted == wants_category(all[i as int], opt_str(category)));
        if wanted {
            let ghost before = users_view(out@);
            out.push(copy_user(u));
            assert(users_view(out@) =~= before.push(all[i as int]));
        }
        i = i + 1;
    }
    assert(all.take(users.len() as int) =~= all);
    out
}

// ---------------------------------------------------------------------------
// Seeding after download
// ---------------------------------------------------------------------------

/// One of the users is an administrator.
pub open spec fn has_administrator(us: Seq<UserSpec>) -> bool {
    exists|i: int| 0 <= i < us.len() && #[trigger] us[i].role == "administrator"@
}

/// The seeding policy stops a finished torrent: `never` always does,
/// `admin_only` does unless an administrator is among those notified.
pub open spec fn pause_for_policy(policy: Seq<char>, targets: Seq<UserSpec>) -> bool {
    policy == "never"@ || (policy == "admin_only"@ && !has_administrator(targets))
}

/// Whether the seeding policy stops a finished torrent whose notified users
/// are `target_users`.
pub fn should_pause(seed_policy: &str, target_users: &Vec<UserSettings>) -> (r: bool)
    ensures
        r == pause_for_policy(seed_policy@, users_view(target_users@)),
{
    let p = chars_of(seed_policy);
    let never = chars_of("never");
    if chars_eq(&p, &never) {
        return true;
    }
    let admin_only = chars_of("admin_only");
    if !chars_eq(&p, &admin_only) {
        return false;
    }
    let admin = chars_of("administrator");
    let ghost us = users_view(target_users@);
    let mut i: usize = 0;
    while i < target_users.len()
        invariant
            i <= target_users.len(),
            us == users_view(target_users@),
            admin@ == "administrator"@,
            seed_policy@ != "never"@,
            seed_policy@ == "admin_only"@,
            forall|k: int| 0 <= k < i ==> #[trigger] us[k].role != "administrator"@,
        decreases target_users.len() - i,
    {
        let role = chars_of(target_users[i].role.as_str());
        assert(us[i as int].role == role@);
        if chars_eq(&role, &admin) {
            assert(us[i as int].role == "administrator"@);
            assert(has_administrator(us));
            return false;
        }
        i = i + 1;
    }
    true
}

/// Finished downloads are uploaded to S3 and their local data deleted: the
/// local server is off, S3 is on and in `upload` mode.
pub open spec fn uploads_to_s3(local_enabled: bool, s3_enabled: bool, mode: Seq<char>) -> bool {
    !local_enabled && s3_enabled && mode == "upload"@
}

/// Whether S3 is on and in `upload` mode.
pub fn s3_upload_mode(settings: &Settings) -> (r: bool)
    ensures
        r == (settings.s3.enabled && settings.s3.mode@ == "upload"@),
{
    let m = chars_of(settings.s3.mode.as_str());
    let up = chars_of("upload");
    settings.s3.enabled && chars_eq(&m, &up)
}

/// Whether a finished torrent is paused: the policy stops it, and its data
/// was not uploaded to S3 and removed (S3 on in `upload` mode).
pub fn pause_after_finish(settings: &Settings, target_users: &Vec<UserSettings>) -> (r: bool)
    ensures
        r == (pause_for_policy(settings.seed_after_download@, users_view(target_users@)) && !(
        settings.s3.enabled && settings.s3.mode@ == "upload"@)),
{
    let pause = should_pause(settings.seed_after_download.as_str(), target_users);
    pause && !s3_upload_mode(settings)
}

/// What happens about a download link for a finished torrent.
#[derive(Debug, Clone, Copy, PartialEq, Eq, Structural)]
pub enum LinkStep {
    /// Neither the local server nor S3 is on: no link.
    NoLink,
    /// A link is asked for as it is.
    Link,
    /// The content is uploaded to S3 first, and the local data deleted
    /// once a link was made.
    UploadThenLink,
    /// An upload is due but the torrent has no content path: the torrent
    /// is left for the next round.
    MissingContentPath,
}

/// The link step for a torrent with the given content path.
pub open spec fn link_step_of(
    local_enabled: bool,
    s3_enabled: bool,
    mode: Seq<char>,
    content_path: Option<Seq<char>>,
) -> LinkStep {
    if !local_enabled && !s3_enabled {
        LinkStep::NoLink
    } else if uploads_to_s3(local_enabled, s3_enabled, mode) {
        match content_path {
            Some(p) => if p.len() > 0 {
                LinkStep::UploadThenLink
            } else {
                LinkStep::MissingContentPath
            },
            None => LinkStep::MissingContentPath,
        }
    } else {
        LinkStep::Link
    }
}

/// The link step for a finished torrent.
pub fn link_step(settings: &Settings, content_path: Option<&String>) -> (r: LinkStep)
    ensures
        r == link_step_of(
            settings.local_server.enabled,
            settings.s3.enabled,
            settings.s3.mode@,
            match content_path {
                Some(p) => Some(p@),
                None => None,
            },
        ),
{
    let local = settings.local_server.enabled;
    let s3 = settings.s3.enabled;
    if !local && !s3 {
        return LinkStep::NoLink;
    }
    if !local && s3_upload_mode(settings) {
        match content_path {
            Some(p) => {
                let v = chars_of(p.as_str());
                if v.len() > 0 {
                    LinkStep::UploadThenLink
                } else {
                    LinkStep::MissingContentPath
                }
            },
            None => LinkStep::MissingContentPath,
        }
    } else {
        LinkStep::Link
    }
}

// ---------------------------------------------------------------------------
// Each finished download is handled once
// ---------------------------------------------------------------------------

/// How getting the download link of a finished torrent went.
#[derive(Debug, Clone, Copy, PartialEq, Eq, Structural)]
pub enum LinkOutcome {
    /// No link was asked for, or none was made (`Ok(None)`).
    NoLink,
    /// A link was made.
    Made,
    /// The upload, the content path or the link failed.
    Failed,
}

/// What is done with a finished torrent in one round.
#[derive(Debug, Clone, Copy, PartialEq, Eq, Structural)]
pub enum FinishAction {
    /// It is recorded as handled, in Redis or in the database: nothing is done.
    AlreadyHandled,
    /// Its link failed: nothing is sent or recorded, and the next round tries again.
    TryAgain,
    /// The users are told, the seeding policy applied, and the torrent
    /// recorded as handled in Redis (for `FINISHED_MARK_SECS`) and in the
    /// database.
    NotifyAndRecord,
}

/// What is done with a finished torrent, from whether Redis and the
/// database record it as handled and how its link went.
pub open spec fn finish_action_of(recorded_redis: bool, recorded_db: bool, link: LinkOutcome) -> FinishAction {
    if recorded_redis || recorded_db {
        FinishAction::AlreadyHandled
    } else if link == LinkOutcome::Failed {
        FinishAction::TryAgain
    } else {
        FinishAction::NotifyAndRecord
    }
}

/// What is done with a finished torrent in this round.
pub fn finish_action(recorded_redis: bool, recorded_db: bool, link: LinkOutcome) -> (r: FinishAction)
    ensures
        r == finish_action_of(recorded_redis, recorded_db, link),
{
    if recorded_redis || recorded_db {
        FinishAction::AlreadyHandled
    } else {
        match link {
            LinkOutcome::Failed => FinishAction::TryAgain,
            _ => FinishAction::NotifyAndRecord,
        }
    }
}

// ---------------------------------------------------------------------------
// The finished-download notices
// ---------------------------------------------------------------------------

/// A notice of a finished download for one user: the Telegram chat to send
/// it to (the user's id, where it is not 0), the Discord user to send it to
/// (the user's Discord id where it is a number), and the text.
pub struct Notice {
    pub telegram_chat: Option<i64>,
    pub discord_user: Option<u64>,
    pub text: String,
}

/// A notice as plain values.
pub struct NoticeSpec {
    pub telegram_chat: Option<i64>,
    pub discord_user: Option<u64>,
    pub text: Seq<char>,
}

impl View for Notice {
    type V = NoticeSpec;

    open spec fn view(&self) -> NoticeSpec {
        NoticeSpec { telegram_chat: self.telegram_chat, discord_user: self.discord_user, text: self.text@ }
    }
}

/// The notices as plain values.
pub open spec fn notices_view(ns: Seq<Notice>) -> Seq<NoticeSpec> {
    Seq::new(ns.len(), |i: int| ns[i]@)
}

/// A user's locale, English where none is set.
pub open spec fn locale_or_english(l: Option<Seq<char>>) -> Seq<char> {
    match l {
        Some(x) => x,
        None => english(),
    }
}

/// The text telling `u` that `name` finished: the translated announcement,
/// then, where there is a link and the user is not a Discord user, the link
/// (marked as expiring in an hour where it is not the local server's).
pub open spec fn finished_text(
    tables: Seq<(Seq<char>, Seq<(Seq<char>, Seq<char>)>)>,
    u: UserSpec,
    name: Seq<char>,
    link: Seq<char>,
    local_enabled: bool,
) -> Seq<char> {
    let base = translated(
        tables,
        "Torrent {name} has finished downloading!"@,
        locale_or_english(u.locale),
        Some(seq![("name"@, markdown_escaped(name))]),
    );
    if link.len() > 0 && u.discord_id is None {
        if local_enabled {
            base + "\n\n🔗 **[Download Link]("@ + link + ")**"@
        } else {
            base + "\n\n🔗 **[Download Link]("@ + link + ")** *(Expires in 1 hour)*"@
        }
    } else {
        base
    }
}

/// The Discord user that a configured Discord id names, where it is a number.
pub open spec fn discord_user_of(d: Option<Seq<char>>) -> Option<u64> {
    match d {
        Some(s) => match parse_unsigned(s, u64::MAX as nat) {
            Some(v) => Some(v as u64),
            None => None,
        },
        None => None,
    }
}

/// The notice for one user.
pub open spec fn notice_for(
    tables: Seq<(Seq<char>, Seq<(Seq<char>, Seq<char>)>)>,
    u: UserSpec,
    name: Seq<char>,
    link: Seq<char>,
    local_enabled: bool,
) -> NoticeSpec {
    NoticeSpec {
        telegram_chat: if u.user_id != 0 {
            Some(u.user_id)
        } else {
            None
        },
        discord_user: discord_user_of(u.discord_id),
        text: finished_text(tables, u, name, link, local_enabled),
    }
}

/// The users that asked for notices.
pub open spec fn notify_pred() -> spec_fn(UserSpec) -> bool {
    |u: UserSpec| u.notify
}

/// `notice_for` for one torrent.
pub open spec fn notice_fn(
    tables: Seq<(Seq<char>, Seq<(Seq<char>, Seq<char>)>)>,
    name: Seq<char>,
    link: Seq<char>,
    local_enabled: bool,
) -> spec_fn(UserSpec) -> NoticeSpec {
    |u: UserSpec| notice_for(tables, u, name, link, local_enabled)
}

/// The text telling `u` that `name` finished.
fn finished_text_exec(
    tr: &Translations,
    u: &UserSettings,
    name: &str,
    link: &str,
    local_enabled: bool,
) -> (r: String)
    ensures
        r@ == finished_text(tr.tables(), u@, name@, link@, local_enabled),
{
    let esc = escape_markdown(name);
    let ghost esc_v = esc@;
    let vars: Vec<(String, String)> = vec![(owned("name"), esc)];
    assert(vars.deep_view() =~= seq![("name"@, markdown_escaped(name@))]);
    let loc: Option<&String> = match &u.locale {
        Some(l) => Some(l),
        None => None,
    };
    let base = translate(tr, loc, "Torrent {name} has finished downloading!", Some(&vars));
    assert(base@ == translated(
        tr.tables(),
        "Torrent {name} has finished downloading!"@,
        locale_or_english(u@.locale),
        Some(seq![("name"@, markdown_escaped(name@))]),
    ));
    let l = chars_of(link);
    if l.len() > 0 && u.discord_id.is_none() {
        let mut out = chars_of(base.as_str());
        push_str_chars(&mut out, "\n\n🔗 **[Download Link](");
        push_all(&mut out, &l);
        if local_enabled {
            push_str_chars(&mut out, ")**");
        } else {
            push_str_chars(&mut out, ")** *(Expires in 1 hour)*");
        }
        string_of(&out)
    } else {
        base
    }
}

/// The Discord user named by a configured Discord id.
fn discord_user_exec(d: &Option<String>) -> (r: Option<u64>)
    ensures
        r == discord_user_of(d.deep_view()),
{
    match d {
        Some(s) => {
            let v = chars_of(s.as_str());
            parse_unsigned_chars(&v, u64::MAX)
        },
        None => None,
    }
}

/// The notices of a finished torrent: one for each of the notified users
/// that asked for notices, in their order.
pub fn finished_notices(
    tr: &Translations,
    target_users: &Vec<UserSettings>,
    torrent_name: &str,
    download_link: &str,
    local_server_enabled: bool,
) -> (r: Vec<Notice>)
    ensures
        notices_view(r@) == users_view(target_users@).filter(notify_pred()).map_values(
            notice_fn(tr.tables(), torrent_name@, download_link@, local_server_enabled),
        ),
{
    let ghost all = users_view(target_users@);
    let ghost f = notice_fn(tr.tables(), torrent_name@, download_link@, local_server_enabled);
    let mut out: Vec<Notice> = Vec::new();
    let mut i: usize = 0;
    assert(all.take(0) =~= Seq::<UserSpec>::empty());
    while i < target_users.len()
        invariant
            i <= target_users.len(),
            all == users_view(target_users@),
            f == notice_fn(tr.tables(), torrent_name@, download_link@, local_server_enabled),
            notices_view(out@) == all.take(i as int).filter(notify_pred()).map_values(f),
        decreases target_users.len() - i,
    {
        proof {
            assert(all.take(i + 1) =~= all.take(i as int).push(all[i as int]));
            all.take(i as int).lemma_filter_push(all[i as int], notify_pred());
        }
        let u = &target_users[i];
        if u.notify {
            let text = finished_text_exec(tr, u, torrent_name, download_link, local_server_enabled);
            let n = Notice {
                telegram_chat: if u.user_id != 0 {
                    Some(u.user_id)
                } else {
                    None
                },
                discord_user: discord_user_exec(&u.discord_id),
                text,
            };
            let ghost before = notices_view(out@);
            proof {
                assert(n@ == f(all[i as int]));
                assert(all.take(i as int).filter(notify_pred()).push(all[i as int]).map_values(f) =~= all.take(
                    i as int,
                ).filter(notify_pred()).map_values(f).push(f(all[i as int])));
            }
            out.push(n);
            assert(notices_view(out@) =~= before.push(f(all[i as int])));
        }
        i = i + 1;
    }
    assert(all.take(target_users.len() as int) =~= all);
    out
}

// ---------------------------------------------------------------------------
// Progress milestones
// ---------------------------------------------------------------------------

/// The report interval in percent, kept within `1..=100`.
pub open spec fn clamped_interval(raw: u32) -> nat {
    if raw < 1 {
        1
    } else if raw > 100 {
        100
    } else {
        raw as nat
    }
}

/// The milestone that a whole percentage has reached: the largest multiple
/// of the interval not above it.
pub open spec fn milestone_of(percent: nat, interval: nat) -> nat {
    percent / interval * interval
}

/// The milestone a downloading torrent may be reported at: none for a
/// torrent smaller than `min_bytes`, none at 0 and none from 100 percent on
/// (finishing is reported otherwise).
pub open spec fn progress_candidate_of(size: nat, min_bytes: nat, percent: nat, raw_interval: u32) -> Option<nat> {
    if size < min_bytes {
        None
    } else {
        let m = milestone_of(percent, clamped_interval(raw_interval));
        if m == 0 || percent >= 100 {
            None
        } else {
            Some(m)
        }
    }
}

/// The milestone a downloading torrent may be reported at, from its size,
/// the smallest size reported, its whole percentage done and the configured
/// interval.
pub fn progress_candidate(size: u64, min_bytes: u64, percent: u32, raw_interval: u32) -> (r: Option<u32>)
    ensures
        match r {
            Some(m) => progress_candidate_of(size as nat, min_bytes as nat, percent as nat, raw_interval) == Some(m as nat),
            None => progress_candidate_of(size as nat, min_bytes as nat, percent as nat, raw_interval) is None,
        },
{
    if size < min_bytes {
        return None;
    }
    let interval: u32 = if raw_interval < 1 {
        1
    } else if raw_interval > 100 {
        100
    } else {
        raw_interval
    };
    let q = percent / interval;
    assert(q * interval <= percent) by (nonlinear_arith)
        requires
            q == percent / interval,
            interval >= 1,
    ;
    let m = q * interval;
    if m == 0 || percent >= 100 {
        None
    } else {
        Some(m)
    }
}

/// The milestone last reported, from what was stored for the torrent: its
/// number where it parses as one, else 0.
pub open spec fn last_reported_of(stored: Option<Seq<char>>) -> nat {
    let text = match stored {
        Some(s) => s,
        None => seq![],
    };
    match parse_unsigned(text, u32::MAX as nat) {
        Some(v) => v,
        None => 0,
    }
}

/// Whether `milestone` is past the one last reported.
pub fn should_report(milestone: u32, stored: Option<&String>) -> (r: bool)
    ensures
        r == (milestone as nat > last_reported_of(
            match stored {
                Some(s) => Some(s@),
                None => None,
            },
        )),
{
    let text: Vec<char> = match stored {
        Some(s) => chars_of(s.as_str()),
        None => Vec::new(),
    };
    let last: u64 = match parse_unsigned_chars(&text, 0xFFFF_FFFFu64) {
        Some(v) => v,
        None => 0,
    };
    (milestone as u64) > last
}

/// What is stored for a torrent once `milestone` is reported: its decimal text.
pub fn progress_record(milestone: u32) -> (r: String)
    ensures
        r@ == decimal(milestone as nat),
{
    let v = decimal_chars(milestone as u64);
    string_of(&v)
}

/// The key under which the last reported milestone of a torrent is kept.
pub fn progress_key(hash: &str) -> (r: String)
    ensures
        r@ == "progress_notified:"@ + hash@,
{
    let mut out = chars_of("progress_notified:");
    push_str_chars(&mut out, hash);
    string_of(&out)
}

/// The Telegram text of a progress report.
pub open spec fn telegram_progress_text(
    name: Seq<char>,
    bar: Seq<char>,
    percent: nat,
    state: Seq<char>,
    size: nat,
    speed: nat,
    hash: Seq<char>,
) -> Seq<char> {
    "✅ *"@ + markdown_escaped(name) + "*\n"@ + markdown_escaped(bar) + decimal(percent)
        + "\n*State:* `"@ + markdown_escaped(capitalized(state)) + "` \\| *Size:* `"@
        + markdown_escaped(size_text(size)) + "` \\| *Speed:* `"@ + markdown_escaped(size_text(speed))
        + "/s`\n*Hash:* `"@ + markdown_escaped(hash) + "`"@
}

/// The Discord text of a progress report.
pub open spec fn discord_progress_text(
    name: Seq<char>,
    bar: Seq<char>,
    percent: nat,
    state: Seq<char>,
    size: nat,
    speed: nat,
    hash: Seq<char>,
) -> Seq<char> {
    "**"@ + name + "**\n"@ + bar + decimal(percent) + "\nState: `"@ + capitalized(state)
        + "` | Size: `"@ + size_text(size) + "` | Speed: `"@ + size_text(speed) + "/s`\nHash: `"@
        + hash + "`"@
}

/// Appends the escaped form of `s`.
fn push_escaped(out: &mut Vec<char>, s: &str)
    ensures
        final(out)@ == old(out)@ + markdown_escaped(s@),
{
    let e = escape_markdown(s);
    push_str_chars(out, e.as_str());
}

/// The Telegram and the Discord texts of a progress report of `t`, with the
/// rendered bar and the whole percentage.
pub fn progress_texts(t: &Torrent, bar: &str, percent: u32) -> (r: (String, String))
    ensures
        r.0@ == telegram_progress_text(t.name@, bar@, percent as nat, t.state@, t.size as nat, t.dlspeed as nat, t.hash@),
        r.1@ == discord_progress_text(t.name@, bar@, percent as nat, t.state@, t.size as nat, t.dlspeed as nat, t.hash@),
{
    let state_cap = capitalize(t.state.as_str());
    let size_str = convert_size(t.size);
    let speed_str = convert_size(t.dlspeed);
    let digits = decimal_chars(percent as u64);

    let mut tg = chars_of("✅ *");
    push_escaped(&mut tg, t.name.as_str());
    push_str_chars(&mut tg, "*\n");
    push_escaped(&mut tg, bar);
    push_all(&mut tg, &digits);
    push_str_chars(&mut tg, "\n*State:* `");
    push_escaped(&mut tg, state_cap.as_str());
    push_str_chars(&mut tg, "` \\| *Size:* `");
    push_escaped(&mut tg, size_str.as_str());
    push_str_chars(&mut tg, "` \\| *Speed:* `");
    push_escaped(&mut tg, speed_str.as_str());
    push_str_chars(&mut tg, "/s`\n*Hash:* `");
    push_escaped(&mut tg, t.hash.as_str());
    push_str_chars(&mut tg, "`");

    let mut dc = chars_of("**");
    push_str_chars(&mut dc, t.name.as_str());
    push_str_chars(&mut dc, "**\n");
    push_str_chars(&mut dc, bar);
    push_all(&mut dc, &digits);
    push_str_chars(&mut dc, "\nState: `");
    push_str_chars(&mut dc, state_cap.as_str());
    push_str_chars(&mut dc, "` | Size: `");
    push_str_chars(&mut dc, size_str.as_str());
    push_str_chars(&mut dc, "` | Speed: `");
    push_str_chars(&mut dc, speed_str.as_str());
    push_str_chars(&mut dc, "/s`\nHash: `");
    push_str_chars(&mut dc, t.hash.as_str());
    push_str_chars(&mut dc, "`");
    (string_of(&tg), string_of(&dc))
}

/// The Telegram message to edit for a stored association: its message id
/// and chat id, where both parse.
pub open spec fn telegram_target_of(msg_id: Seq<char>, chat_id: Option<Seq<char>>) -> Option<(int, int)> {
    match parse_signed(msg_id, i32::MIN as int, i32::MAX as int) {
        Some(m) => match chat_id {
            Some(c) => match parse_signed(c, i64::MIN as int, i64::MAX as int) {
                Some(ci) => Some((m, ci)),
                None => None,
            },
            None => None,
        },
        None => None,
    }
}

/// The Telegram message and chat of a stored association.
pub fn telegram_target(msg_id: &str, chat_id: Option<&String>) -> (r: Option<(i32, i64)>)
    ensures
        match r {
            Some((m, c)) => telegram_target_of(
                msg_id@,
                match chat_id {
                    Some(s) => Some(s@),
                    None => None,
                },
            ) == Some((m as int, c as int)),
            None => telegram_target_of(
                msg_id@,
                match chat_id {
                    Some(s) => Some(s@),
                    None => None,
                },
            ) is None,
        },
{
    let mv = chars_of(msg_id);
    match parse_signed_chars(&mv, -2147483648i64, 2147483647i64) {
        Some(m) => match chat_id {
            Some(c) => {
                let cv = chars_of(c.as_str());
                match parse_signed_chars(&cv, i64::MIN, i64::MAX) {
                    Some(ci) => Some((m as i32, ci)),
                    None => None,
                }
            },
            None => None,
        },
        None => None,
    }
}

/// The Discord channel of a stored association: the number after a leading
/// `dc:`, where there is one.
pub open spec fn discord_channel_of(chat_id: Option<Seq<char>>) -> Option<nat> {
    match chat_id {
        Some(c) => if starts_with(c, seq!['d', 'c', ':']) {
            parse_unsigned(c.skip(3), u64::MAX as nat)
        } else {
            None
        },
        None => None,
    }
}

/// The Discord channel of a stored association.
pub fn discord_channel(chat_id: Option<&String>) -> (r: Option<u64>)
    ensures
        match r {
            Some(v) => discord_channel_of(
                match chat_id {
                    Some(s) => Some(s@),
                    None => None,
                },
            ) == Some(v as nat),
            None => discord_channel_of(
                match chat_id {
                    Some(s) => Some(s@),
                    None => None,
                },
            ) is None,
        },
{
    match chat_id {
        Some(c) => {
            let v = chars_of(c.as_str());
            let prefix = vec!['d', 'c', ':'];
            assert(prefix@ == seq!['d', 'c', ':']);
            if chars_starts_with(&v, &prefix) {
                let rest = sub_chars(&v, 3, v.len());
                assert(rest@ == v@.skip(3));
                parse_unsigned_chars(&rest, u64::MAX)
            } else {
                None
            }
        },
        None => None,
    }
}

} // verus!
