//! Properties of the library that relate several operations or hold of
//! every input, stated over the same spec functions as the operations'
//! contracts and proved.
use vstd::prelude::*;
use crate::bot::{
    discord_command_step_of, seeding_step_of, DiscordCommandKind, DiscordCommandStep, SeedingStepSpec,
    callback_parts, discord_known, first_match, has_discord_id, lemma_first_match,
    lemma_first_match_at, resolved_discord_user, telegram_action_of, users_after_approval,
    TelegramAction,
};
use crate::config::UserSpec;
use crate::clients::{aria2_state_of, transmission_listed_of, transmission_state_of};
use crate::tasks::wants;
use crate::views::{delete_request_of, discord_component_of, DiscordComponent};
use crate::text::{split_char, starts_with};
use crate::text::{all_digits, digit_char, digits_value, is_digit, lemma_decimal_value, rfind_char, rfind_char_before};
use crate::utils::{eta_text, pow1024, size_text, size_unit, unit_name};
use crate::text::decimal_padded;
use crate::db::{link_live, presigned_fresh_of};
use crate::links::expiry_as_i64;
use crate::server::local_link;
use crate::text::{ascii_lower, is_ascii, trim_end_char};
use crate::utils::{clean_magnet, lemma_clean_magnet_idempotent, magnet_marker, no_whitespace, lemma_percent_decode_append, percent_decoded, percent_encoded};
use vstd::utf8::encode_utf8;
use crate::i18n::{assoc, english, template, SpecTable};
use crate::mock_client::{
    conflict_message, lookup, pause_fn, resume_fn, spec_add_magnet, spec_change_one,
    spec_delete_one, take_error, wf_view, MockMethod, MockView, lemma_insert, lemma_remove,
    lemma_update, errors_without,
};
use crate::redis_client::{expiry_after, live, store_get, store_set, Store, MAX_EXPIRY_SECS, NANOS_PER_SEC};
use crate::server::{download_step_of, path_components, path_within, requested_range, DownloadFacts, DownloadStep};
use crate::tasks::{clamped_interval, last_reported_of, milestone_of, progress_candidate_of, finish_action_of, pause_for_policy, FinishAction, LinkOutcome};
use crate::text::{decimal, lemma_find_from_first, lemma_parse_decimal, matches_at, split_from};
use crate::utils::{before_ampersand, extracted_hash};

verus! {

// ---------------------------------------------------------------------------
// The Redis stand-in
// ---------------------------------------------------------------------------

/// A value set under a key is what reading the key gives back, at any time
/// from the setting until its expiry (at any later time where it has none).
pub proof fn law_get_after_set(st: Store, key: Seq<char>, value: Seq<char>, ex: Option<u64>, set_at: u128, get_at: u128)
    requires
        set_at <= get_at,
        match expiry_after(set_at, ex) {
            Some(e) => get_at <= e,
            None => true,
        },
    ensures
        store_get(store_set(st, key, value, ex, set_at), key, get_at) == Some(value),
{
}

/// A value set with an expiry is gone once the expiry has passed.
pub proof fn law_gone_after_expiry(st: Store, key: Seq<char>, value: Seq<char>, sec: u64, set_at: u128, get_at: u128)
    requires
        get_at > expiry_after(set_at, Some(sec))->0,
    ensures
        store_get(store_set(st, key, value, Some(sec), set_at), key, get_at) is None,
{
}

/// An expiry is at most one day: however long the expiry asked for, a value
/// is gone a day after it was set.
pub proof fn law_expiry_capped(st: Store, key: Seq<char>, value: Seq<char>, sec: u64, set_at: u128, get_at: u128)
    requires
        get_at > set_at + MAX_EXPIRY_SECS * NANOS_PER_SEC,
    ensures
        store_get(store_set(st, key, value, Some(sec), set_at), key, get_at) is None,
{
}

/// Setting a key again without an expiry drops the earlier expiry: the new
/// value stays at every later time.
pub proof fn law_overwrite_clears_expiry(
    st: Store,
    key: Seq<char>,
    first: Seq<char>,
    second: Seq<char>,
    ex: Option<u64>,
    t1: u128,
    t2: u128,
    t3: u128,
)
    requires
        t2 <= t3,
    ensures
        store_get(store_set(store_set(st, key, first, ex, t1), key, second, None, t2), key, t3) == Some(second),
{
}

/// Deleting a key leaves nothing under it.
pub proof fn law_get_after_delete(st: Store, key: Seq<char>, now: u128)
    ensures
        store_get(st.remove(key), key, now) is None,
        !live(st.remove(key), key, now),
{
}

/// Setting one key leaves what another key gives unchanged.
pub proof fn law_set_other_key(st: Store, key: Seq<char>, other: Seq<char>, value: Seq<char>, ex: Option<u64>, t: u128, now: u128)
    requires
        key != other,
    ensures
        store_get(store_set(st, key, value, ex, t), other, now) == store_get(st, other, now),
{
    assert(store_set(st, key, value, ex, t).contains_key(other) == st.contains_key(other));
}

/// A key exists exactly when reading it gives a value.
pub proof fn law_exists_is_get(st: Store, key: Seq<char>, now: u128)
    ensures
        live(st, key, now) == (store_get(st, key, now) is Some),
{
}

// ---------------------------------------------------------------------------
// The mock client
// ---------------------------------------------------------------------------

/// Pausing a torrent that is there, with no error injected, succeeds and
/// leaves it paused.
pub proof fn law_pause_pauses(v: MockView, hash: Seq<char>)
    requires
        wf_view(v),
        take_error(v, MockMethod::Pause).1 is None,
        lookup(v.torrents, hash) is Some,
    ensures
        spec_change_one(v, MockMethod::Pause, hash, pause_fn()).1 is Ok,
        lookup(spec_change_one(v, MockMethod::Pause, hash, pause_fn()).0.torrents, hash) matches Some(t) && t.state == "paused"@,
{
    lemma_update(v.torrents, hash, pause_fn());
}

/// Resuming a torrent that is there, with no error injected, succeeds and
/// leaves it downloading.
pub proof fn law_resume_resumes(v: MockView, hash: Seq<char>)
    requires
        wf_view(v),
        take_error(v, MockMethod::Resume).1 is None,
        lookup(v.torrents, hash) is Some,
    ensures
        spec_change_one(v, MockMethod::Resume, hash, resume_fn()).1 is Ok,
        lookup(spec_change_one(v, MockMethod::Resume, hash, resume_fn()).0.torrents, hash) matches Some(t) && t.state == "downloading"@,
{
    lemma_update(v.torrents, hash, resume_fn());
}

/// Pausing or resuming a torrent that is not there fails with the "not
/// found" message and changes no torrent.
pub proof fn law_change_missing(v: MockView, m: MockMethod, hash: Seq<char>, f: spec_fn(crate::torrent_client::TorrentSpec) -> crate::torrent_client::TorrentSpec)
    requires
        take_error(v, m).1 is None,
        lookup(v.torrents, hash) is None,
    ensures
        spec_change_one(v, m, hash, f) == (v, Err::<(), Seq<char>>("Torrent not found: "@ + hash)),
{
}

/// Deleting a torrent, with no error injected, leaves no torrent of that
/// hash and the others as they were.
pub proof fn law_delete_removes(v: MockView, m: MockMethod, hash: Seq<char>)
    requires
        wf_view(v),
        take_error(v, m).1 is None,
    ensures
        spec_delete_one(v, m, hash).1 is Ok,
        lookup(spec_delete_one(v, m, hash).0.torrents, hash) is None,
        forall|other: Seq<char>| other != hash ==> #[trigger] lookup(spec_delete_one(v, m, hash).0.torrents, other) == lookup(v.torrents, other),
{
    lemma_remove(v.torrents, hash);
}

/// An injected error fires once: the next call of its method fails with it,
/// and the call after that finds no error; other methods keep theirs.
pub proof fn law_error_fires_once(v: MockView, m: MockMethod, e: Seq<char>)
    requires
        wf_view(v),
        assoc(v.errors, m) == Some(e),
    ensures
        take_error(v, m).1 == Some(e),
        take_error(take_error(v, m).0, m).1 is None,
        forall|other: MockMethod| other != m ==> #[trigger] assoc(take_error(v, m).0.errors, other) == assoc(v.errors, other),
{
    crate::mock_client::lemma_errors_without(v.errors, m);
    crate::i18n::lemma_assoc_absent(errors_without(v.errors, m), m);
}

/// Adding the same magnet link twice, with no error injected, adds it once:
/// the second addition is a conflict.
pub proof fn law_add_twice_conflicts(v: MockView, magnet: Seq<char>, c1: Option<Seq<char>>, c2: Option<Seq<char>>)
    requires
        wf_view(v),
        take_error(v, MockMethod::AddMagnet).1 is None,
        extracted_hash(magnet) is Some,
        spec_add_magnet(v, magnet, c1).1 is Ok,
    ensures
        take_error(spec_add_magnet(v, magnet, c1).0, MockMethod::AddMagnet).1 is None,
        spec_add_magnet(spec_add_magnet(v, magnet, c1).0, magnet, c2).1 == Err::<bool, Seq<char>>(conflict_message()),
{
    let h = extracted_hash(magnet)->0;
    let t = crate::mock_client::magnet_torrent(h, c1);
    lemma_insert(v.torrents, t);
}

/// Flipping the speed limit twice, with no error injected either time,
/// leaves it as it was.
pub proof fn law_toggle_twice(v: MockView)
    requires
        take_error(v, MockMethod::ToggleSpeedLimit).1 is None,
    ensures
        ({
            let once = MockView { speed: !v.speed, ..v };
            take_error(once, MockMethod::ToggleSpeedLimit).1 is None && (MockView { speed: !once.speed, ..once }) == v
        }),
{
}

// ---------------------------------------------------------------------------
// Translations
// ---------------------------------------------------------------------------

/// A key that neither the locale's table nor the English one translates is
/// shown as it is.
pub proof fn law_untranslated_key(tables: Seq<(Seq<char>, SpecTable)>, key: Seq<char>, locale: Seq<char>)
    requires
        match assoc(tables, locale) {
            Some(t) => assoc(t, key) is None,
            None => match assoc(tables, english()) {
                Some(t) => assoc(t, key) is None,
                None => true,
            },
        },
    ensures
        template(tables, key, locale) == key,
{
}

/// A locale without a table is answered in English.
pub proof fn law_unknown_locale_is_english(tables: Seq<(Seq<char>, SpecTable)>, key: Seq<char>, locale: Seq<char>)
    requires
        assoc(tables, locale) is None,
    ensures
        template(tables, key, locale) == template(tables, key, english()),
{
}

// ---------------------------------------------------------------------------
// Seeding, access, links
// ---------------------------------------------------------------------------

/// The `always` policy never pauses a finished torrent, `never` always does,
/// and `admin_only` does unless an administrator is notified.
pub proof fn law_seeding_policies(targets: Seq<UserSpec>)
    ensures
        !pause_for_policy("always"@, targets),
        pause_for_policy("never"@, targets),
        pause_for_policy("admin_only"@, targets) == !crate::tasks::has_administrator(targets),
{
    reveal_strlit("always");
    reveal_strlit("never");
    reveal_strlit("admin_only");
    assert("always"@.len() == 6 && "never"@.len() == 5 && "admin_only"@.len() == 10);
}

/// A finished torrent is handled once: one recorded as handled (in the
/// database, or in Redis while that record lasts) is never told of or
/// recorded again, whatever its link; one not recorded is told of and
/// recorded unless its link failed, in which case it is left for the next
/// round.  Handling it records it, so every later round leaves it alone.
pub proof fn law_finished_once(recorded_redis: bool, link: LinkOutcome, later_link: LinkOutcome)
    ensures
        finish_action_of(recorded_redis, true, link) == FinishAction::AlreadyHandled,
        finish_action_of(true, false, link) == FinishAction::AlreadyHandled,
        (finish_action_of(false, false, link) == FinishAction::NotifyAndRecord) <==> link != LinkOutcome::Failed,
        finish_action_of(false, false, link) == FinishAction::NotifyAndRecord
            ==> finish_action_of(recorded_redis, true, later_link) == FinishAction::AlreadyHandled,
{
}

/// Progress reports only go forward: a milestone offered for a torrent is a
/// positive multiple of the interval below 100; it is reported only past
/// the milestone stored, and once its record is stored, reading that record
/// back gives it, so the same milestone (or a lower one) is never reported
/// again while the record lasts.
pub proof fn law_progress_milestones_grow(size: nat, min_bytes: nat, percent: nat, raw_interval: u32, stored: Option<Seq<char>>)
    ensures
        progress_candidate_of(size, min_bytes, percent, raw_interval) matches Some(m)
            ==> 0 < m < 100 && m % clamped_interval(raw_interval) == 0,
        progress_candidate_of(size, min_bytes, percent, raw_interval) matches Some(m)
            ==> last_reported_of(Some(decimal(m))) == m,
        progress_candidate_of(size, min_bytes, percent, raw_interval) matches Some(m)
            ==> !(m > last_reported_of(Some(decimal(m)))),
{
    let i = clamped_interval(raw_interval);
    let m = milestone_of(percent, i);
    assert(m % i == 0 && m <= percent) by (nonlinear_arith)
        requires
            m == percent / i * i,
            i >= 1,
    ;
    if progress_candidate_of(size, min_bytes, percent, raw_interval) is Some {
        lemma_parse_decimal(m, u32::MAX as nat);
    }
}

/// A local download link made at `now` for a lifetime of `link_expiry`
/// seconds (at most `i64::MAX`) is found live at every time before
/// `now + link_expiry` and at none from then on; its address is the base
/// address without trailing `/`, `/download/`, its token and the
/// percent-encoded name.
pub proof fn law_local_link_lifetime(
    now: int,
    link_expiry: u64,
    base_url: Option<Seq<char>>,
    token: Seq<char>,
    name: Seq<char>,
    t: int,
)
    requires
        link_expiry <= i64::MAX,
    ensures
        link_live(now + expiry_as_i64(link_expiry), t) <==> t < now + link_expiry,
        local_link(base_url, token, name) == trim_end_char(
            match base_url {
                Some(b) => b,
                None => "http://localhost/"@,
            },
            '/',
        ) + "/download/"@ + token + seq!['/'] + percent_encoded(encode_utf8(name)),
{
}

/// Percent-decoding undoes percent-encoding: the text that a byte string
/// encodes to decodes back to exactly those bytes.
pub proof fn law_percent_round_trip(bytes: Seq<u8>)
    ensures
        percent_decoded(percent_encoded(bytes)) == bytes,
{
    lemma_percent_decode_append(bytes, seq![]);
    assert(percent_encoded(bytes) + Seq::<char>::empty() =~= percent_encoded(bytes));
    assert(bytes + percent_decoded(Seq::<char>::empty()) =~= bytes);
}

/// A download request is served (a file, a folder's listing or a zip) only
/// with a live link and only for a path that lies within the link's folder;
/// a folder lies within itself.
pub proof fn law_download_served_within(f: DownloadFacts, base: Seq<char>)
    ensures
        ({
            let r = download_step_of(f);
            (r == DownloadStep::File || r == DownloadStep::Index || r == DownloadStep::Zip)
                ==> f.has_token && f.link_live && f.base_found && f.target_found && f.within
        }),
        path_within(base, base),
{
    let b = path_components(base);
    assert(b.subrange(0, b.len() as int) =~= b);
}

/// On ASCII text (lower-cased as ASCII, which is what lower-casing does to
/// it), the clean magnet link is ASCII again, holds no whitespace, starts
/// with `magnet:?` in some mix of cases, and cleaning it again gives it back
/// unchanged.
pub proof fn law_clean_magnet_idempotent(text: Seq<char>)
    requires
        is_ascii(text),
        clean_magnet(text, ascii_lower(text)) is Some,
    ensures
        ({
            let r = clean_magnet(text, ascii_lower(text))->0;
            &&& is_ascii(r)
            &&& no_whitespace(r)
            &&& ascii_lower(r).take(8) == magnet_marker()
            &&& clean_magnet(r, ascii_lower(r)) == Some(r)
        }),
{
    lemma_clean_magnet_idempotent(text);
}

/// The actions open to readers: menus, lists, a torrent's details, export
/// and category change; every other button is refused to them.
pub open spec fn open_to_all(a: TelegramAction) -> bool {
    match a {
        TelegramAction::Menu | TelegramAction::List | TelegramAction::ListByStatus | TelegramAction::Details
        | TelegramAction::Export | TelegramAction::EditTorrentCategory | TelegramAction::SetTorrentCategory
        | TelegramAction::Unauthorized | TelegramAction::Unhandled => true,
        _ => false,
    }
}

/// A reader's button press never pauses, resumes, adds, deletes, or
/// touches categories or settings.
pub proof fn law_reader_refused(prefix: Seq<char>, arg1: Seq<char>)
    ensures
        open_to_all(telegram_action_of(prefix, arg1, "reader"@)),
{
    reveal_strlit("reader");
    reveal_strlit("manager");
    reveal_strlit("administrator");
    assert("reader"@.len() == 6 && "manager"@.len() == 7 && "administrator"@.len() == 13);
}

/// The actions that only administrators get: deleting, the categories and
/// the settings.
pub open spec fn admin_only(a: TelegramAction) -> bool {
    match a {
        TelegramAction::DeleteMenu | TelegramAction::ListToDelete | TelegramAction::ConfirmDelete
        | TelegramAction::DeleteKeepData | TelegramAction::DeleteWithData | TelegramAction::DeleteAllMenu
        | TelegramAction::DeleteAllKeepData | TelegramAction::DeleteAllWithData
        | TelegramAction::CategoriesMenu | TelegramAction::AwaitCategoryName | TelegramAction::SelectCategory
        | TelegramAction::RemoveCategory | TelegramAction::AwaitCategoryPath | TelegramAction::SettingsMenu
        | TelegramAction::ClientSettings | TelegramAction::ToggleSpeedLimit | TelegramAction::CheckConnection
        | TelegramAction::ReloadSettings => true,
        _ => false,
    }
}

/// A manager's button press never deletes or touches the categories or the
/// settings, while pausing, resuming and adding are open to a manager.
pub proof fn law_manager_limits(prefix: Seq<char>, arg1: Seq<char>)
    ensures
        !admin_only(telegram_action_of(prefix, arg1, "manager"@)),
        telegram_action_of("pause_all"@, arg1, "manager"@) == TelegramAction::PauseAll,
        telegram_action_of("resume_all"@, arg1, "manager"@) == TelegramAction::ResumeAll,
        telegram_action_of("add_magnet"@, arg1, "manager"@) == TelegramAction::AwaitMagnet,
        telegram_action_of("add_torrent"@, arg1, "manager"@) == TelegramAction::AwaitTorrentFile,
{
    reveal_strlit("manager");
    reveal_strlit("administrator");
    reveal_strlit("menu");
    reveal_strlit("list");
    reveal_strlit("by_status_list");
    reveal_strlit("menu_pause_resume");
    reveal_strlit("pause_all");
    reveal_strlit("resume_all");
    reveal_strlit("pause");
    reveal_strlit("resume");
    reveal_strlit("menu_delete");
    reveal_strlit("delete_one");
    reveal_strlit("delete_one_no_data");
    reveal_strlit("delete_one_data");
    reveal_strlit("delete_all");
    reveal_strlit("delete_all_no_data");
    reveal_strlit("delete_all_data");
    reveal_strlit("torrentInfo");
    reveal_strlit("export");
    reveal_strlit("category");
    reveal_strlit("add_magnet");
    reveal_strlit("add_torrent");
    assert("manager"@.len() != "administrator"@.len());
    assert("menu"@.len() == 4 && "list"@.len() == 4 && "by_status_list"@.len() == 14
        && "menu_pause_resume"@.len() == 17 && "pause_all"@.len() == 9 && "resume_all"@.len() == 10);
    assert("pause"@.len() == 5 && "resume"@.len() == 6 && "menu_delete"@.len() == 11 && "delete_one"@.len() == 10
        && "delete_one_no_data"@.len() == 18 && "delete_one_data"@.len() == 15 && "delete_all"@.len() == 10
        && "delete_all_no_data"@.len() == 18 && "delete_all_data"@.len() == 15 && "torrentInfo"@.len() == 11
        && "export"@.len() == 6 && "category"@.len() == 8 && "add_magnet"@.len() == 10 && "add_torrent"@.len() == 11);
    assert("resume_all"@ != "add_magnet"@) by {
        assert("resume_all"@[0] != "add_magnet"@[0]);
    }
    assert("delete_one"@ != "add_magnet"@) by {
        assert("delete_one"@[0] != "add_magnet"@[0]);
    }
    assert("delete_all"@ != "add_magnet"@) by {
        assert("delete_all"@[0] != "add_magnet"@[0]);
    }
    assert("torrentInfo"@ != "add_torrent"@) by {
        assert("torrentInfo"@[0] != "add_torrent"@[0]);
    }
    assert("menu_delete"@ != "add_torrent"@) by {
        assert("menu_delete"@[0] != "add_torrent"@[0]);
    }
}

/// Of the Discord commands, readers may neither toggle the speed limit, add
/// torrents nor set the seeding policy; managers may not set the seeding
/// policy; administrators are never refused.
pub proof fn law_discord_command_gate(kind: DiscordCommandKind, name: Seq<char>)
    ensures
        ({
            let r = discord_command_step_of(kind, name, "reader"@);
            r != DiscordCommandStep::SpeedLimit && r != DiscordCommandStep::Add && r != DiscordCommandStep::Seeding
        }),
        discord_command_step_of(kind, name, "manager"@) != DiscordCommandStep::Seeding,
        discord_command_step_of(kind, name, "administrator"@) != DiscordCommandStep::Unauthorized,
{
    reveal_strlit("reader");
    reveal_strlit("manager");
    reveal_strlit("administrator");
    assert("reader"@.len() == 6 && "manager"@.len() == 7 && "administrator"@.len() == 13);
}

/// `/seeding` gets past the command gate exactly for the users whose
/// seeding step is not refused; a policy is stored only at an
/// administrator's request and is then the very policy given, and without
/// one the current policy is only shown.
pub proof fn law_seeding_policy_stored(role: Seq<char>, policy: Option<Seq<char>>)
    ensures
        (discord_command_step_of(DiscordCommandKind::ChatInput, "seeding"@, role) == DiscordCommandStep::Seeding)
            <==> !(seeding_step_of(role, policy) is Unauthorized),
        seeding_step_of(role, policy) matches SeedingStepSpec::SetPolicy(p) ==> policy == Some(p),
        policy is None ==> !(seeding_step_of(role, policy) is SetPolicy),
        discord_command_step_of(DiscordCommandKind::ChatInput, "seeding"@, role) == DiscordCommandStep::Seeding
            ==> (policy matches Some(p) ==> seeding_step_of(role, policy) == SeedingStepSpec::SetPolicy(p)),
{
    reveal_strlit("seeding");
    reveal_strlit("list");
    reveal_strlit("stats");
    reveal_strlit("speedlimit");
    assert("seeding"@.len() == 7 && "list"@.len() == 4 && "stats"@.len() == 5 && "speedlimit"@.len() == 10);
}

/// An administrator's button press is never refused.
pub proof fn law_admin_never_refused(prefix: Seq<char>, arg1: Seq<char>)
    ensures
        telegram_action_of(prefix, arg1, "administrator"@) != TelegramAction::Unauthorized,
{
}

/// A range that is served lies within the file, start before end.
pub proof fn law_range_within_file(header: Seq<char>, file_size: nat)
    ensures
        requested_range(header, file_size) matches Some((s, e)) ==> s <= e && e < file_size,
{
}

/// A cached presigned link is reused right after it was made (where it has a
/// lifetime), and never where it has none.
pub proof fn law_presigned_reuse(now: int, created_at: int, expires_in: int)
    ensures
        expires_in > 0 ==> presigned_fresh_of(now, now, expires_in),
        !presigned_fresh_of(now, created_at, 0),
{
}

/// The info-hash found in a magnet link holds no `&`.
pub proof fn law_hash_has_no_ampersand(magnet: Seq<char>)
    ensures
        extracted_hash(magnet) matches Some(h) ==> forall|i: int| 0 <= i < h.len() ==> h[i] != '&',
{
    if extracted_hash(magnet) is Some {
        let h = extracted_hash(magnet)->0;
        let k = crate::utils::offset_after_marker(magnet, crate::text::lowercase(magnet), crate::utils::btih_marker(), 12)->0;
        let s = magnet.skip(k);
        assert(h == before_ampersand(s));
        lemma_before_ampersand(s);
    }
}

/// What comes before the first `&` holds none.
proof fn lemma_before_ampersand(s: Seq<char>)
    ensures
        forall|i: int| 0 <= i < before_ampersand(s).len() ==> before_ampersand(s)[i] != '&',
{
    crate::text::lemma_find_from_first_bound(s, seq!['&'], 0);
    assert forall|i: int| 0 <= i < before_ampersand(s).len() implies before_ampersand(s)[i] != '&' by {
        assert(i < s.len());
        assert(before_ampersand(s)[i] == s[i]);
        if s[i] == '&' {
            assert(s.subrange(i, i + 1) =~= seq!['&']);
            assert(matches_at(s, seq!['&'], i));
            lemma_find_from_first(s, seq!['&'], 0, i);
        }
    }
}


/// After a Discord user is approved with a role, the user is known under
/// the Discord id and is resolved with that role.
pub proof fn law_approval_grants_role(us: Seq<UserSpec>, id: Seq<char>, role: Seq<char>)
    ensures
        discord_known(users_after_approval(us, id, role), id),
        resolved_discord_user(users_after_approval(us, id, role), id).role == role,
{
    let p = has_discord_id(id);
    let after = users_after_approval(us, id, role);
    lemma_first_match(us, p);
    match first_match(us, p) {
        Some(i) => {
            assert(p(after[i]));
            assert forall|k: int| 0 <= k < i implies !p(#[trigger] after[k]) by {
                assert(after[k] == us[k]);
            }
            lemma_first_match_at(after, p, i);
            assert(after[i].discord_id == Some(id));
        },
        None => {
            let n = us.len() as int;
            assert(after[n].discord_id == Some(id));
            assert(p(after[n]));
            assert forall|k: int| 0 <= k < n implies !p(#[trigger] after[k]) by {
                assert(after[k] == us[k]);
            }
            lemma_first_match_at(after, p, n);
        },
    }
}

/// Button data made of a prefix and one argument, neither holding `:`,
/// splits back into that prefix and argument (the second argument empty).
pub proof fn law_button_data_round_trip(prefix: Seq<char>, arg: Seq<char>)
    requires
        forall|i: int| 0 <= i < prefix.len() ==> prefix[i] != ':',
        forall|i: int| 0 <= i < arg.len() ==> arg[i] != ':',
    ensures
        callback_parts(prefix + seq![':'] + arg) == (prefix, arg, Seq::<char>::empty()),
{
    let d = prefix + seq![':'] + arg;
    let n = prefix.len() as int;
    lemma_split_no_sep(d, ':', n + 1, n + 1);
    lemma_split_scan(d, ':', 0, 0, n);
    assert(d.subrange(0, n) =~= prefix);
    assert(d.subrange(n + 1, d.len() as int) =~= arg);
}

/// With no separator from `i` on, the scan gives one last piece.
proof fn lemma_split_no_sep(s: Seq<char>, c: char, start: int, i: int)
    requires
        0 <= start <= i <= s.len(),
        forall|k: int| i <= k < s.len() ==> s[k] != c,
    ensures
        split_from(s, c, start, i) == seq![s.subrange(start, s.len() as int)],
    decreases s.len() - i,
{
    if i < s.len() {
        lemma_split_no_sep(s, c, start, i + 1);
    }
}

/// The scan passes over characters other than the separator up to the
/// first separator at `n`.
proof fn lemma_split_scan(s: Seq<char>, c: char, start: int, i: int, n: int)
    requires
        0 <= start <= i <= n < s.len(),
        s[n] == c,
        forall|k: int| i <= k < n ==> s[k] != c,
    ensures
        split_from(s, c, start, i) == seq![s.subrange(start, n)] + split_from(s, c, n + 1, n + 1),
    decreases n - i,
{
    if i < n {
        lemma_split_scan(s, c, start, i + 1, n);
    }
}

/// The lengths and a few characters of the button prefixes, command names,
/// roles and state names that the dispatch laws speak of: enough to tell
/// any two of them apart.
proof fn lemma_dispatch_literals()
    ensures
        "menu"@.len() == 4 && "menu"@[0] == 'm' && "menu"@[1] == 'e' && "menu"@[2] == 'n',
        "list"@.len() == 4 && "list"@[0] == 'l' && "list"@[1] == 'i' && "list"@[2] == 's',
        "by_status_list"@.len() == 14 && "by_status_list"@[0] == 'b' && "by_status_list"@[1] == 'y' && "by_status_list"@[2] == '_' && "by_status_list"@[7] == 'u',
        "menu_pause_resume"@.len() == 17 && "menu_pause_resume"@[0] == 'm' && "menu_pause_resume"@[1] == 'e' && "menu_pause_resume"@[2] == 'n' && "menu_pause_resume"@[7] == 'u',
        "pause_all"@.len() == 9 && "pause_all"@[0] == 'p' && "pause_all"@[1] == 'a' && "pause_all"@[2] == 'u' && "pause_all"@[7] == 'l',
        "resume_all"@.len() == 10 && "resume_all"@[0] == 'r' && "resume_all"@[1] == 'e' && "resume_all"@[2] == 's' && "resume_all"@[7] == 'a',
        "menu_delete"@.len() == 11 && "menu_delete"@[0] == 'm' && "menu_delete"@[1] == 'e' && "menu_delete"@[2] == 'n' && "menu_delete"@[7] == 'l',
        "delete_one_no_data"@.len() == 18 && "delete_one_no_data"@[0] == 'd' && "delete_one_no_data"@[1] == 'e' && "delete_one_no_data"@[2] == 'l' && "delete_one_no_data"@[7] == 'o',
        "delete_one_data"@.len() == 15 && "delete_one_data"@[0] == 'd' && "delete_one_data"@[1] == 'e' && "delete_one_data"@[2] == 'l' && "delete_one_data"@[7] == 'o',
        "delete_all"@.len() == 10 && "delete_all"@[0] == 'd' && "delete_all"@[1] == 'e' && "delete_all"@[2] == 'l' && "delete_all"@[7] == 'a',
        "delete_all_no_data"@.len() == 18 && "delete_all_no_data"@[0] == 'd' && "delete_all_no_data"@[1] == 'e' && "delete_all_no_data"@[2] == 'l' && "delete_all_no_data"@[7] == 'a',
        "delete_all_data"@.len() == 15 && "delete_all_data"@[0] == 'd' && "delete_all_data"@[1] == 'e' && "delete_all_data"@[2] == 'l' && "delete_all_data"@[7] == 'a',
        "torrentInfo"@.len() == 11 && "torrentInfo"@[0] == 't' && "torrentInfo"@[1] == 'o' && "torrentInfo"@[2] == 'r' && "torrentInfo"@[7] == 'I',
        "export"@.len() == 6 && "export"@[0] == 'e' && "export"@[1] == 'x' && "export"@[2] == 'p',
        "category"@.len() == 8 && "category"@[0] == 'c' && "category"@[1] == 'a' && "category"@[2] == 't' && "category"@[7] == 'y',
        "add_magnet"@.len() == 10 && "add_magnet"@[0] == 'a' && "add_magnet"@[1] == 'd' && "add_magnet"@[2] == 'd' && "add_magnet"@[7] == 'n',
        "add_torrent"@.len() == 11 && "add_torrent"@[0] == 'a' && "add_torrent"@[1] == 'd' && "add_torrent"@[2] == 'd' && "add_torrent"@[7] == 'r',
        "menu_categories"@.len() == 15 && "menu_categories"@[0] == 'm' && "menu_categories"@[1] == 'e' && "menu_categories"@[2] == 'n' && "menu_categories"@[7] == 't',
        "add_category"@.len() == 12 && "add_category"@[0] == 'a' && "add_category"@[1] == 'd' && "add_category"@[2] == 'd' && "add_category"@[7] == 'e',
        "select_category"@.len() == 15 && "select_category"@[0] == 's' && "select_category"@[1] == 'e' && "select_category"@[2] == 'l' && "select_category"@[7] == 'c',
        "remove_category"@.len() == 15 && "remove_category"@[0] == 'r' && "remove_category"@[1] == 'e' && "remove_category"@[2] == 'm' && "remove_category"@[7] == 'c',
        "modify_category"@.len() == 15 && "modify_category"@[0] == 'm' && "modify_category"@[1] == 'o' && "modify_category"@[2] == 'd' && "modify_category"@[7] == 'c',
        "edit_torrent_cat"@.len() == 16 && "edit_torrent_cat"@[0] == 'e' && "edit_torrent_cat"@[1] == 'd' && "edit_torrent_cat"@[2] == 'i' && "edit_torrent_cat"@[7] == 'r',
        "torrent_cat"@.len() == 11 && "torrent_cat"@[0] == 't' && "torrent_cat"@[1] == 'o' && "torrent_cat"@[2] == 'r' && "torrent_cat"@[7] == '_',
        "settings"@.len() == 8 && "settings"@[0] == 's' && "settings"@[1] == 'e' && "settings"@[2] == 't' && "settings"@[7] == 's',
        "edit_client"@.len() == 11 && "edit_client"@[0] == 'e' && "edit_client"@[1] == 'd' && "edit_client"@[2] == 'i' && "edit_client"@[7] == 'i',
        "toggle_speed_limit"@.len() == 18 && "toggle_speed_limit"@[0] == 't' && "toggle_speed_limit"@[1] == 'o' && "toggle_speed_limit"@[2] == 'g' && "toggle_speed_limit"@[7] == 's',
        "check_connection"@.len() == 16 && "check_connection"@[0] == 'c' && "check_connection"@[1] == 'h' && "check_connection"@[2] == 'e' && "check_connection"@[7] == 'o',
        "reload_settings"@.len() == 15 && "reload_settings"@[0] == 'r' && "reload_settings"@[1] == 'e' && "reload_settings"@[2] == 'l' && "reload_settings"@[7] == 's',
        "pause"@.len() == 5 && "pause"@[0] == 'p' && "pause"@[1] == 'a' && "pause"@[2] == 'u',
        "resume"@.len() == 6 && "resume"@[0] == 'r' && "resume"@[1] == 'e' && "resume"@[2] == 's',
        "delete_one"@.len() == 10 && "delete_one"@[0] == 'd' && "delete_one"@[1] == 'e' && "delete_one"@[2] == 'l' && "delete_one"@[7] == 'o',
        "stats"@.len() == 5 && "stats"@[0] == 's' && "stats"@[1] == 't' && "stats"@[2] == 'a',
        "speedlimit"@.len() == 10 && "speedlimit"@[0] == 's' && "speedlimit"@[1] == 'p' && "speedlimit"@[2] == 'e' && "speedlimit"@[7] == 'm',
        "seeding"@.len() == 7 && "seeding"@[0] == 's' && "seeding"@[1] == 'e' && "seeding"@[2] == 'e',
        "add"@.len() == 3 && "add"@[0] == 'a' && "add"@[1] == 'd' && "add"@[2] == 'd',
        "info"@.len() == 4 && "info"@[0] == 'i' && "info"@[1] == 'n' && "info"@[2] == 'f',
        "link"@.len() == 4 && "link"@[0] == 'l' && "link"@[1] == 'i' && "link"@[2] == 'n',
        "Torrent Info"@.len() == 12 && "Torrent Info"@[0] == 'T' && "Torrent Info"@[1] == 'o' && "Torrent Info"@[2] == 'r' && "Torrent Info"@[7] == ' ',
        "Get Download Link"@.len() == 17 && "Get Download Link"@[0] == 'G' && "Get Download Link"@[1] == 'e' && "Get Download Link"@[2] == 't' && "Get Download Link"@[7] == 'n',
        "reader"@.len() == 6 && "reader"@[0] == 'r' && "reader"@[1] == 'e' && "reader"@[2] == 'a',
        "manager"@.len() == 7 && "manager"@[0] == 'm' && "manager"@[1] == 'a' && "manager"@[2] == 'n',
        "administrator"@.len() == 13 && "administrator"@[0] == 'a' && "administrator"@[1] == 'd' && "administrator"@[2] == 'm' && "administrator"@[7] == 't',
        "paused"@.len() == 6 && "paused"@[0] == 'p' && "paused"@[1] == 'a' && "paused"@[2] == 'u',
        "checking"@.len() == 8 && "checking"@[0] == 'c' && "checking"@[1] == 'h' && "checking"@[2] == 'e' && "checking"@[7] == 'g',
        "downloading"@.len() == 11 && "downloading"@[0] == 'd' && "downloading"@[1] == 'o' && "downloading"@[2] == 'w' && "downloading"@[7] == 'd',
        "unknown"@.len() == 7 && "unknown"@[0] == 'u' && "unknown"@[1] == 'n' && "unknown"@[2] == 'k',
        "active"@.len() == 6 && "active"@[0] == 'a' && "active"@[1] == 'c' && "active"@[2] == 't',
        "waiting"@.len() == 7 && "waiting"@[0] == 'w' && "waiting"@[1] == 'a' && "waiting"@[2] == 'i',
        "complete"@.len() == 8 && "complete"@[0] == 'c' && "complete"@[1] == 'o' && "complete"@[2] == 'm' && "complete"@[7] == 'e',
        "queued"@.len() == 6 && "queued"@[0] == 'q' && "queued"@[1] == 'u' && "queued"@[2] == 'e',
        "completed"@.len() == 9 && "completed"@[0] == 'c' && "completed"@[1] == 'o' && "completed"@[2] == 'm' && "completed"@[7] == 'e',
        "stopped"@.len() == 7 && "stopped"@[0] == 's' && "stopped"@[1] == 't' && "stopped"@[2] == 'o',
        "error"@.len() == 5 && "error"@[0] == 'e' && "error"@[1] == 'r' && "error"@[2] == 'r',
        "removed"@.len() == 7 && "removed"@[0] == 'r' && "removed"@[1] == 'e' && "removed"@[2] == 'm',
{
    reveal_strlit("active");
    reveal_strlit("waiting");
    reveal_strlit("complete");
    reveal_strlit("queued");
    reveal_strlit("completed");
    reveal_strlit("stopped");
    reveal_strlit("error");
    reveal_strlit("removed");
    reveal_strlit("menu");
    reveal_strlit("list");
    reveal_strlit("by_status_list");
    reveal_strlit("menu_pause_resume");
    reveal_strlit("pause_all");
    reveal_strlit("resume_all");
    reveal_strlit("menu_delete");
    reveal_strlit("delete_one_no_data");
    reveal_strlit("delete_one_data");
    reveal_strlit("delete_all");
    reveal_strlit("delete_all_no_data");
    reveal_strlit("delete_all_data");
    reveal_strlit("torrentInfo");
    reveal_strlit("export");
    reveal_strlit("category");
    reveal_strlit("add_magnet");
    reveal_strlit("add_torrent");
    reveal_strlit("menu_categories");
    reveal_strlit("add_category");
    reveal_strlit("select_category");
    reveal_strlit("remove_category");
    reveal_strlit("modify_category");
    reveal_strlit("edit_torrent_cat");
    reveal_strlit("torrent_cat");
    reveal_strlit("settings");
    reveal_strlit("edit_client");
    reveal_strlit("toggle_speed_limit");
    reveal_strlit("check_connection");
    reveal_strlit("reload_settings");
    reveal_strlit("pause");
    reveal_strlit("resume");
    reveal_strlit("delete_one");
    reveal_strlit("stats");
    reveal_strlit("speedlimit");
    reveal_strlit("seeding");
    reveal_strlit("add");
    reveal_strlit("info");
    reveal_strlit("link");
    reveal_strlit("Torrent Info");
    reveal_strlit("Get Download Link");
    reveal_strlit("reader");
    reveal_strlit("manager");
    reveal_strlit("administrator");
    reveal_strlit("paused");
    reveal_strlit("checking");
    reveal_strlit("downloading");
    reveal_strlit("unknown");
}

/// What each Telegram button does, for every role: menus, listings, a
/// torrent's details, export and category change are open to all; the
/// pause/resume menu, pausing, resuming, choosing a category and adding need
/// a manager or an administrator; deleting, the categories and the settings
/// need an administrator.  In particular the button that deletes a torrent
/// and keeps its data never deletes data, and the one that deletes the data
/// does.  Any role not allowed gets `Unauthorized`.
pub proof fn law_telegram_buttons(arg1: Seq<char>, role: Seq<char>)
    ensures
        ({
            let adm = role == "administrator"@;
            let mgr = role == "manager"@ || role == "administrator"@;
            &&& telegram_action_of("menu"@, arg1, role) == TelegramAction::Menu
            &&& telegram_action_of("list"@, arg1, role) == TelegramAction::List
            &&& telegram_action_of("by_status_list"@, arg1, role) == TelegramAction::ListByStatus
            &&& telegram_action_of("menu_pause_resume"@, arg1, role) == (if mgr { TelegramAction::PauseResumeMenu } else { TelegramAction::Unauthorized })
            &&& telegram_action_of("pause_all"@, arg1, role) == (if mgr { TelegramAction::PauseAll } else { TelegramAction::Unauthorized })
            &&& telegram_action_of("resume_all"@, arg1, role) == (if mgr { TelegramAction::ResumeAll } else { TelegramAction::Unauthorized })
            &&& telegram_action_of("menu_delete"@, arg1, role) == (if adm { TelegramAction::DeleteMenu } else { TelegramAction::Unauthorized })
            &&& telegram_action_of("delete_one_no_data"@, arg1, role) == (if adm { TelegramAction::DeleteKeepData } else { TelegramAction::Unauthorized })
            &&& telegram_action_of("delete_one_data"@, arg1, role) == (if adm { TelegramAction::DeleteWithData } else { TelegramAction::Unauthorized })
            &&& telegram_action_of("delete_all"@, arg1, role) == (if adm { TelegramAction::DeleteAllMenu } else { TelegramAction::Unauthorized })
            &&& telegram_action_of("delete_all_no_data"@, arg1, role) == (if adm { TelegramAction::DeleteAllKeepData } else { TelegramAction::Unauthorized })
            &&& telegram_action_of("delete_all_data"@, arg1, role) == (if adm { TelegramAction::DeleteAllWithData } else { TelegramAction::Unauthorized })
            &&& telegram_action_of("torrentInfo"@, arg1, role) == TelegramAction::Details
            &&& telegram_action_of("export"@, arg1, role) == TelegramAction::Export
            &&& telegram_action_of("category"@, arg1, role) == (if mgr { TelegramAction::ChooseCategory } else { TelegramAction::Unauthorized })
            &&& telegram_action_of("add_magnet"@, arg1, role) == (if mgr { TelegramAction::AwaitMagnet } else { TelegramAction::Unauthorized })
            &&& telegram_action_of("add_torrent"@, arg1, role) == (if mgr { TelegramAction::AwaitTorrentFile } else { TelegramAction::Unauthorized })
            &&& telegram_action_of("menu_categories"@, arg1, role) == (if adm { TelegramAction::CategoriesMenu } else { TelegramAction::Unauthorized })
            &&& telegram_action_of("add_category"@, arg1, role) == (if adm { TelegramAction::AwaitCategoryName } else { TelegramAction::Unauthorized })
            &&& telegram_action_of("select_category"@, arg1, role) == (if adm { TelegramAction::SelectCategory } else { TelegramAction::Unauthorized })
            &&& telegram_action_of("remove_category"@, arg1, role) == (if adm { TelegramAction::RemoveCategory } else { TelegramAction::Unauthorized })
            &&& telegram_action_of("modify_category"@, arg1, role) == (if adm { TelegramAction::AwaitCategoryPath } else { TelegramAction::Unauthorized })
            &&& telegram_action_of("edit_torrent_cat"@, arg1, role) == TelegramAction::EditTorrentCategory
            &&& telegram_action_of("torrent_cat"@, arg1, role) == TelegramAction::SetTorrentCategory
            &&& telegram_action_of("settings"@, arg1, role) == (if adm { TelegramAction::SettingsMenu } else { TelegramAction::Unauthorized })
            &&& telegram_action_of("edit_client"@, arg1, role) == (if adm { TelegramAction::ClientSettings } else { TelegramAction::Unauthorized })
            &&& telegram_action_of("toggle_speed_limit"@, arg1, role) == (if adm { TelegramAction::ToggleSpeedLimit } else { TelegramAction::Unauthorized })
            &&& telegram_action_of("check_connection"@, arg1, role) == (if adm { TelegramAction::CheckConnection } else { TelegramAction::Unauthorized })
            &&& telegram_action_of("reload_settings"@, arg1, role) == (if adm { TelegramAction::ReloadSettings } else { TelegramAction::Unauthorized })
            &&& telegram_action_of("pause"@, arg1, role) == (if !mgr { TelegramAction::Unauthorized } else if arg1.len() == 0 { TelegramAction::ListToPause } else { TelegramAction::Pause })
            &&& telegram_action_of("resume"@, arg1, role) == (if !mgr { TelegramAction::Unauthorized } else if arg1.len() == 0 { TelegramAction::ListToResume } else { TelegramAction::Resume })
            &&& telegram_action_of("delete_one"@, arg1, role) == (if !adm { TelegramAction::Unauthorized } else if arg1.len() == 0 { TelegramAction::ListToDelete } else { TelegramAction::ConfirmDelete })
        }),
        telegram_action_of("delete_one_no_data"@, arg1, role) != TelegramAction::DeleteWithData,
        telegram_action_of("delete_all_no_data"@, arg1, role) != TelegramAction::DeleteAllWithData,
{
    lemma_dispatch_literals();
}

/// What each Discord command does, for every role: `/list`, `/stats`,
/// `/info` and `/link` are open to all and each leads to its own step;
/// `/speedlimit` and `/add` are refused to readers only; `/seeding` is for
/// administrators only; of the message commands, `Torrent Info` shows the
/// details and `Get Download Link` the link; any other kind of command is
/// ignored.
pub proof fn law_discord_commands(name: Seq<char>, role: Seq<char>)
    ensures
        discord_command_step_of(DiscordCommandKind::ChatInput, "list"@, role) == DiscordCommandStep::List,
        discord_command_step_of(DiscordCommandKind::ChatInput, "stats"@, role) == DiscordCommandStep::Stats,
        discord_command_step_of(DiscordCommandKind::ChatInput, "info"@, role) == DiscordCommandStep::Info,
        discord_command_step_of(DiscordCommandKind::ChatInput, "link"@, role) == DiscordCommandStep::Link,
        discord_command_step_of(DiscordCommandKind::ChatInput, "speedlimit"@, role)
            == (if role == "reader"@ { DiscordCommandStep::Unauthorized } else { DiscordCommandStep::SpeedLimit }),
        discord_command_step_of(DiscordCommandKind::ChatInput, "add"@, role)
            == (if role == "reader"@ { DiscordCommandStep::Unauthorized } else { DiscordCommandStep::Add }),
        discord_command_step_of(DiscordCommandKind::ChatInput, "seeding"@, role)
            == (if role == "administrator"@ { DiscordCommandStep::Seeding } else { DiscordCommandStep::Unauthorized }),
        discord_command_step_of(DiscordCommandKind::Message, "Torrent Info"@, role) == DiscordCommandStep::MessageInfo,
        discord_command_step_of(DiscordCommandKind::Message, "Get Download Link"@, role) == DiscordCommandStep::MessageLink,
        discord_command_step_of(DiscordCommandKind::Other, name, role) == DiscordCommandStep::Ignored,
{
    lemma_dispatch_literals();
}

/// Each Transmission status code maps to its state: 0 paused, 1 and 2
/// checking, 3 and 4 downloading, 5 and 6 seeding, and only the other codes
/// to unknown.
pub proof fn law_transmission_states(status: i64)
    ensures
        (transmission_state_of(status) == "paused"@) <==> status == 0,
        (transmission_state_of(status) == "checking"@) <==> (status == 1 || status == 2),
        (transmission_state_of(status) == "downloading"@) <==> (status == 3 || status == 4),
        (transmission_state_of(status) == "seeding"@) <==> (status == 5 || status == 6),
        (transmission_state_of(status) == "unknown"@) <==> (status < 0 || status > 6),
{
    lemma_dispatch_literals();
}

/// A user hears of a finished torrent of `category` exactly when the user is
/// among the users and either has no notification filter, or the torrent
/// has a category and that category is one of the filter's entries, at any
/// position.
pub proof fn law_notified_users(users: Seq<UserSpec>, category: Option<Seq<char>>, u: UserSpec)
    ensures
        users.filter(wants(category)).contains(u) <==> (users.contains(u) && (u.notification_filter.len() == 0
            || (category matches Some(c) && exists|k: int| 0 <= k < u.notification_filter.len()
                && u.notification_filter[k] == c))),
{
    broadcast use vstd::seq_lib::group_filter_ensures;
    let pred = wants(category);
    if users.filter(pred).contains(u) {
        users.lemma_filter_contains_rev(pred, u);
        let i = choose|i: int| 0 <= i < users.filter(pred).len() && users.filter(pred)[i] == u;
        users.lemma_filter_pred(pred, i);
        assert(pred(u));
        if u.notification_filter.len() != 0 {
            let c = category->0;
            assert(u.notification_filter.contains(c));
        }
    }
    if users.contains(u) && (u.notification_filter.len() == 0
        || (category matches Some(c) && exists|k: int| 0 <= k < u.notification_filter.len()
            && u.notification_filter[k] == c)) {
        let i = choose|i: int| 0 <= i < users.len() && users[i] == u;
        if u.notification_filter.len() != 0 {
            let c = category->0;
            let k = choose|k: int| 0 <= k < u.notification_filter.len() && u.notification_filter[k] == c;
            assert(u.notification_filter.contains(c));
        }
        assert(pred(users[i]));
        users.lemma_filter_contains(pred, i);
    }
}

/// The value, in hundredths, of a number written `W` or `W.F`: `W` one or
/// more decimal digits, `F` one or two (one digit counts tenths).
pub open spec fn hundredths_read(t: Seq<char>) -> Option<nat> {
    match rfind_char(t, '.') {
        None => if t.len() > 0 && all_digits(t) {
            Some(digits_value(t) * 100)
        } else {
            None
        },
        Some(i) => {
            let w = t.take(i);
            let f = t.skip(i + 1);
            if w.len() > 0 && all_digits(w) && 1 <= f.len() <= 2 && all_digits(f) {
                Some(digits_value(w) * 100 + if f.len() == 1 { digits_value(f) * 10 } else { digits_value(f) })
            } else {
                None
            }
        },
    }
}

/// A text of digits holds no `.`.
proof fn lemma_no_dot_in_digits(s: Seq<char>, n: int)
    requires
        all_digits(s),
        n <= s.len(),
    ensures
        rfind_char_before(s, '.', n) is None,
    decreases n,
{
    if n > 0 {
        assert(is_digit(s[n - 1]));
        lemma_no_dot_in_digits(s, n - 1);
    }
}

/// A digit character: its code and its value as a one-digit text.
proof fn lemma_digit(x: int)
    requires
        0 <= x <= 9,
    ensures
        (digit_char(x) as u32) == ('0' as u32) + x,
        is_digit(digit_char(x)),
        digit_char(x) != '.',
        digit_char(x) == '0' <==> x == 0,
        digits_value(seq![digit_char(x)]) == x,
{
    assert(((('0' as u32) + x) as char) as u32 == ('0' as u32) + x);
    let s = seq![digit_char(x)];
    assert(s.drop_last() =~= Seq::<char>::empty());
    assert(digits_value(s.drop_last()) == 0);
    assert(s.last() == digit_char(x));
    assert(((s.last() as u32) - ('0' as u32)) as nat == x);
}

/// The pieces of `1024^k` for the units that sizes are written in.
proof fn lemma_pow1024_values()
    ensures
        pow1024(0) == 1,
        pow1024(1) == 1024,
        pow1024(2) == 1048576,
        pow1024(3) == 1073741824,
        pow1024(4) == 1099511627776,
        pow1024(5) == 1125899906842624,
        pow1024(6) == 1152921504606846976,
        pow1024(7) == 1180591620717411303424,
{
    assert(pow1024(0) == 1);
    assert(pow1024(1) == 1024);
    assert(pow1024(2) == 1048576);
    assert(pow1024(3) == 1073741824);
    assert(pow1024(4) == 1099511627776);
    assert(pow1024(5) == 1125899906842624);
    assert(pow1024(6) == 1152921504606846976);
    assert(pow1024(7) == 1180591620717411303424);
}

/// A size is written as a number, a space and the unit: the unit is the
/// largest power of 1024 (up to the sixth) that the size reaches, and the
/// number reads back as the size divided by that power, rounded to the
/// nearest hundredth with halves up (so `1075` bytes is `1.05 KB`), with no
/// trailing zero after the point.  No bytes at all are `0 B`.
pub proof fn law_size_text_reads_back(n: nat)
    ensures
        size_text(0) == seq!['0', ' ', 'B'],
        n > 0 ==> ({
            let k = size_unit(n);
            let d = pow1024(k);
            let u = unit_name(k);
            let t = size_text(n);
            let num = t.take(t.len() - u.len() - 1);
            &&& k <= 6
            &&& t == num + seq![' '] + u
            &&& d <= n
            &&& (k == 6 || n < 1024 * d)
            &&& hundredths_read(num) matches Some(h) && h * (2 * d) <= 200 * n + d && 200 * n + d < (h + 1) * (2 * d)
            &&& (rfind_char(num, '.') is Some ==> num.last() != '0')
        }),
{
    if n > 0 {
        lemma_pow1024_values();
        let k = size_unit(n);
        let d = pow1024(k);
        let u = unit_name(k);
        assert(k <= 6 && d <= n && (k == 6 || n < 1024 * d)) by {
            assert(pow1024(k + 1) == 1024 * pow1024(k));
        }
        let h = ((n * 200 + d) / (2 * d)) as nat;
        assert(h * (2 * d) <= 200 * n + d && 200 * n + d < (h + 1) * (2 * d)) by (nonlinear_arith)
            requires
                d >= 1,
                h == (n * 200 + d) / (2 * d),
        ;
        let whole = h / 100;
        let frac = h % 100;
        let num = crate::utils::hundredths_text(h);
        let t = size_text(n);
        assert(t == num + seq![' '] + u);
        assert(t.take(t.len() - u.len() - 1) =~= num);
        lemma_decimal_value(whole);
        let w = crate::text::decimal(whole);
        if frac == 0 {
            lemma_no_dot_in_digits(num, num.len() as int);
            assert(hundredths_read(num) == Some(h));
        } else if frac % 10 == 0 {
            let a = (frac / 10) as int;
            lemma_digit(a);
            assert(num == w + seq!['.', digit_char(a)]);
            let len = num.len() as int;
            assert(num[len - 1] == digit_char(a));
            assert(num[len - 2] == '.');
            assert(rfind_char_before(num, '.', len - 1) == Some(len - 2));
            assert(rfind_char(num, '.') == Some(len - 2));
            assert(num.take(len - 2) =~= w);
            assert(num.skip(len - 1) =~= seq![digit_char(a)]);
            assert(all_digits(seq![digit_char(a)]));
            assert(hundredths_read(num) == Some(h));
        } else {
            let a = (frac / 10) as int;
            let b = (frac % 10) as int;
            lemma_digit(a);
            lemma_digit(b);
            assert(num == w + seq!['.', digit_char(a), digit_char(b)]);
            let len = num.len() as int;
            assert(num[len - 1] == digit_char(b));
            assert(num[len - 2] == digit_char(a));
            assert(num[len - 3] == '.');
            assert(rfind_char_before(num, '.', len - 2) == Some(len - 3));
            assert(rfind_char_before(num, '.', len - 1) == Some(len - 3));
            assert(rfind_char(num, '.') == Some(len - 3));
            assert(num.take(len - 3) =~= w);
            let f = num.skip(len - 2);
            assert(f =~= seq![digit_char(a), digit_char(b)]);
            assert(f.drop_last() =~= seq![digit_char(a)]);
            assert(digits_value(f) == a * 10 + b);
            assert(all_digits(f));
            assert(hundredths_read(num) == Some(h));
        }
    }
}

/// aria2's states as the bot names them: `active` is downloading, `waiting`
/// is queued, `complete` is completed, and every other status (`paused`,
/// `error`, `removed`, or one not known) keeps its own name.
pub proof fn law_aria2_states(status: Seq<char>)
    ensures
        aria2_state_of("active"@) == "downloading"@,
        aria2_state_of("waiting"@) == "queued"@,
        aria2_state_of("complete"@) == "completed"@,
        aria2_state_of("paused"@) == "paused"@,
        aria2_state_of("error"@) == "error"@,
        aria2_state_of("removed"@) == "removed"@,
        status != "active"@ && status != "waiting"@ && status != "complete"@ ==> aria2_state_of(status) == status,
{
    lemma_dispatch_literals();
}

/// Which Transmission torrents a state filter lists: `completed` those done
/// in full, `downloading` those not done with status 3 or 4, `paused` and
/// `stopped` those with status 0, `seeding` and `active` those with status 5
/// or 6; no filter lists all.
pub proof fn law_transmission_filters(below_one: bool, at_least_one: bool, status: i64)
    ensures
        transmission_listed_of(None, below_one, at_least_one, status),
        transmission_listed_of(Some("completed"@), below_one, at_least_one, status) == !below_one,
        transmission_listed_of(Some("downloading"@), below_one, at_least_one, status)
            == (!at_least_one && (status == 3 || status == 4)),
        transmission_listed_of(Some("paused"@), below_one, at_least_one, status) == (status == 0),
        transmission_listed_of(Some("stopped"@), below_one, at_least_one, status) == (status == 0),
        transmission_listed_of(Some("seeding"@), below_one, at_least_one, status) == (status == 5 || status == 6),
        transmission_listed_of(Some("active"@), below_one, at_least_one, status) == (status == 5 || status == 6),
{
    lemma_dispatch_literals();
}

/// A number below 100 padded to two columns: two digits that read back as
/// the number.
proof fn lemma_two_digits(x: nat)
    requires
        x < 100,
    ensures
        decimal_padded(x, 2).len() == 2,
        all_digits(decimal_padded(x, 2)),
        digits_value(decimal_padded(x, 2)) == x,
{
    lemma_decimal_value(x);
    let d = crate::text::decimal(x);
    let p = decimal_padded(x, 2);
    if x < 10 {
        assert(d.len() == 1);
        assert(p =~= seq!['0'] + d);
        assert(p.drop_last() =~= seq!['0']);
        assert(p.last() == d[0]);
        assert(d.drop_last() =~= Seq::<char>::empty());
        assert(digits_value(seq!['0']) == 0) by {
            assert(seq!['0'].drop_last() =~= Seq::<char>::empty());
        }
        assert(digits_value(d) == ((d.last() as u32) - ('0' as u32)) as nat);
    } else {
        lemma_decimal_value(x / 10);
        assert(d == crate::text::decimal(x / 10).push(digit_char((x % 10) as int)));
        assert(d.len() == 2);
        assert(p == d);
    }
}

/// A remaining time is written `HH:MM:SS`, after `N day, ` or `N days, `
/// where it is at least a day: the three fields read back as the hours
/// (below 24), minutes and seconds (below 60) of the part below a day, the
/// day count reads back as the whole days, and "days" is plural from two
/// days on.  A negative time, and the client's "no estimate" value 8640000,
/// are written `∞`.
pub proof fn law_eta_text_reads_back(seconds: int)
    ensures
        (seconds < 0 || seconds == 8640000) ==> eta_text(seconds) == seq!['\u{221e}'],
        (0 <= seconds && seconds != 8640000) ==> ({
            let t = eta_text(seconds);
            let clock = t.skip(t.len() - 8);
            let head = t.take(t.len() - 8);
            let days = seconds / 86400;
            let suffix = if days > 1 { seq![' ', 'd', 'a', 'y', 's', ',', ' '] } else { seq![' ', 'd', 'a', 'y', ',', ' '] };
            let count = head.take(head.len() - suffix.len());
            &&& t.len() >= 8
            &&& clock[2] == ':' && clock[5] == ':'
            &&& all_digits(clock.take(2)) && all_digits(clock.subrange(3, 5)) && all_digits(clock.skip(6))
            &&& digits_value(clock.take(2)) < 24
            &&& digits_value(clock.subrange(3, 5)) < 60
            &&& digits_value(clock.skip(6)) < 60
            &&& digits_value(clock.take(2)) * 3600 + digits_value(clock.subrange(3, 5)) * 60
                + digits_value(clock.skip(6)) == seconds % 86400
            &&& (days == 0 ==> head.len() == 0)
            &&& (days > 0 ==> head == count + suffix && count.len() > 0 && all_digits(count)
                && digits_value(count) == days)
        }),
{
    if 0 <= seconds && seconds != 8640000 {
        let days = seconds / 86400;
        let hours = (seconds % 86400) / 3600;
        let minutes = (seconds % 3600) / 60;
        let secs = seconds % 60;
        assert(hours * 3600 + minutes * 60 + secs == seconds % 86400);
        assert(hours < 24 && minutes < 60 && secs < 60);
        lemma_two_digits(hours as nat);
        lemma_two_digits(minutes as nat);
        lemma_two_digits(secs as nat);
        let hh = decimal_padded(hours as nat, 2);
        let mm = decimal_padded(minutes as nat, 2);
        let ss = decimal_padded(secs as nat, 2);
        let time = hh + seq![':'] + mm + seq![':'] + ss;
        assert(time.len() == 8);
        assert(time.take(2) =~= hh);
        assert(time.subrange(3, 5) =~= mm);
        assert(time.skip(6) =~= ss);
        let t = eta_text(seconds);
        if days > 0 {
            lemma_decimal_value(days as nat);
            let dd = crate::text::decimal(days as nat);
            let suffix = if days > 1 { seq![' ', 'd', 'a', 'y', 's', ',', ' '] } else { seq![' ', 'd', 'a', 'y', ',', ' '] };
            assert(t =~= dd + suffix + time);
            assert(t.skip(t.len() - 8) =~= time);
            assert(t.take(t.len() - 8) =~= dd + suffix);
            assert((dd + suffix).take(dd.len() as int) =~= dd);
        } else {
            assert(t == time);
            assert(t.skip(0) =~= time);
            assert(t.take(0) =~= Seq::<char>::empty());
        }
    }
}

/// `s` does not start with, and is not, `q` where they differ at `i`.
proof fn lemma_not_prefix(s: Seq<char>, q: Seq<char>, i: int)
    requires
        0 <= i < q.len(),
        i < s.len(),
        s[i] != q[i],
    ensures
        !starts_with(s, q),
        s != q,
{
    if starts_with(s, q) {
        assert(s.take(q.len() as int)[i] == s[i]);
    }
}

/// What each Discord torrent button does, whatever follows its prefix:
/// status, link and detail buttons are open to all; pausing and resuming
/// are refused to readers only; asking to delete and confirming a deletion
/// are for administrators only (others are told that only administrators
/// delete, or refused).
pub proof fn law_discord_buttons(rest: Seq<char>, role: Seq<char>)
    ensures
        discord_component_of("dc_status:"@ + rest, role) == DiscordComponent::ShowStatus,
        discord_component_of("dc_get_link:"@ + rest, role) == DiscordComponent::GetLink,
        discord_component_of("dc_pause:"@ + rest, role) == (if role == "reader"@ { DiscordComponent::Unauthorized } else { DiscordComponent::Pause }),
        discord_component_of("dc_resume:"@ + rest, role) == (if role == "reader"@ { DiscordComponent::Unauthorized } else { DiscordComponent::Resume }),
        discord_component_of("dc_delete:"@ + rest, role) == (if role == "administrator"@ { DiscordComponent::ConfirmDelete } else { DiscordComponent::UnauthorizedDelete }),
        discord_component_of("dc_cldel:"@ + rest, role) == (if role == "administrator"@ { DiscordComponent::Delete } else { DiscordComponent::Unauthorized }),
        discord_component_of("dc_detail:"@ + rest, role) == DiscordComponent::Detail,
{
    reveal_strlit("dc_auth:");
    reveal_strlit("dc_back_list");
    reveal_strlit("dc_cldel:");
    reveal_strlit("dc_delete:");
    reveal_strlit("dc_detail:");
    reveal_strlit("dc_get_link:");
    reveal_strlit("dc_pause:");
    reveal_strlit("dc_request_access");
    reveal_strlit("dc_resume:");
    reveal_strlit("dc_status:");
    reveal_strlit("select_torrent");
    assert(("dc_status:"@ + rest).take(10) =~= "dc_status:"@);
    lemma_not_prefix("dc_status:"@ + rest, "select_torrent"@, 0);
    lemma_not_prefix("dc_status:"@ + rest, "dc_back_list"@, 3);
    lemma_not_prefix("dc_status:"@ + rest, "dc_request_access"@, 3);
    lemma_not_prefix("dc_status:"@ + rest, "dc_auth:"@, 3);
    assert(("dc_get_link:"@ + rest).take(12) =~= "dc_get_link:"@);
    lemma_not_prefix("dc_get_link:"@ + rest, "select_torrent"@, 0);
    lemma_not_prefix("dc_get_link:"@ + rest, "dc_back_list"@, 3);
    lemma_not_prefix("dc_get_link:"@ + rest, "dc_request_access"@, 3);
    lemma_not_prefix("dc_get_link:"@ + rest, "dc_auth:"@, 3);
    lemma_not_prefix("dc_get_link:"@ + rest, "dc_status:"@, 3);
    assert(("dc_pause:"@ + rest).take(9) =~= "dc_pause:"@);
    lemma_not_prefix("dc_pause:"@ + rest, "select_torrent"@, 0);
    lemma_not_prefix("dc_pause:"@ + rest, "dc_back_list"@, 3);
    lemma_not_prefix("dc_pause:"@ + rest, "dc_request_access"@, 3);
    lemma_not_prefix("dc_pause:"@ + rest, "dc_auth:"@, 3);
    lemma_not_prefix("dc_pause:"@ + rest, "dc_status:"@, 3);
    lemma_not_prefix("dc_pause:"@ + rest, "dc_get_link:"@, 3);
    assert(("dc_resume:"@ + rest).take(10) =~= "dc_resume:"@);
    lemma_not_prefix("dc_resume:"@ + rest, "select_torrent"@, 0);
    lemma_not_prefix("dc_resume:"@ + rest, "dc_back_list"@, 3);
    lemma_not_prefix("dc_resume:"@ + rest, "dc_request_access"@, 5);
    lemma_not_prefix("dc_resume:"@ + rest, "dc_auth:"@, 3);
    lemma_not_prefix("dc_resume:"@ + rest, "dc_status:"@, 3);
    lemma_not_prefix("dc_resume:"@ + rest, "dc_get_link:"@, 3);
    lemma_not_prefix("dc_resume:"@ + rest, "dc_pause:"@, 3);
    assert(("dc_delete:"@ + rest).take(10) =~= "dc_delete:"@);
    lemma_not_prefix("dc_delete:"@ + rest, "select_torrent"@, 0);
    lemma_not_prefix("dc_delete:"@ + rest, "dc_back_list"@, 3);
    lemma_not_prefix("dc_delete:"@ + rest, "dc_request_access"@, 3);
    lemma_not_prefix("dc_delete:"@ + rest, "dc_auth:"@, 3);
    lemma_not_prefix("dc_delete:"@ + rest, "dc_status:"@, 3);
    lemma_not_prefix("dc_delete:"@ + rest, "dc_get_link:"@, 3);
    lemma_not_prefix("dc_delete:"@ + rest, "dc_pause:"@, 3);
    lemma_not_prefix("dc_delete:"@ + rest, "dc_resume:"@, 3);
    assert(("dc_cldel:"@ + rest).take(9) =~= "dc_cldel:"@);
    lemma_not_prefix("dc_cldel:"@ + rest, "select_torrent"@, 0);
    lemma_not_prefix("dc_cldel:"@ + rest, "dc_back_list"@, 3);
    lemma_not_prefix("dc_cldel:"@ + rest, "dc_request_access"@, 3);
    lemma_not_prefix("dc_cldel:"@ + rest, "dc_auth:"@, 3);
    lemma_not_prefix("dc_cldel:"@ + rest, "dc_status:"@, 3);
    lemma_not_prefix("dc_cldel:"@ + rest, "dc_get_link:"@, 3);
    lemma_not_prefix("dc_cldel:"@ + rest, "dc_pause:"@, 3);
    lemma_not_prefix("dc_cldel:"@ + rest, "dc_resume:"@, 3);
    lemma_not_prefix("dc_cldel:"@ + rest, "dc_delete:"@, 3);
    assert(("dc_detail:"@ + rest).take(10) =~= "dc_detail:"@);
    lemma_not_prefix("dc_detail:"@ + rest, "select_torrent"@, 0);
    lemma_not_prefix("dc_detail:"@ + rest, "dc_back_list"@, 3);
    lemma_not_prefix("dc_detail:"@ + rest, "dc_request_access"@, 3);
    lemma_not_prefix("dc_detail:"@ + rest, "dc_auth:"@, 3);
    lemma_not_prefix("dc_detail:"@ + rest, "dc_status:"@, 3);
    lemma_not_prefix("dc_detail:"@ + rest, "dc_get_link:"@, 3);
    lemma_not_prefix("dc_detail:"@ + rest, "dc_pause:"@, 3);
    lemma_not_prefix("dc_detail:"@ + rest, "dc_resume:"@, 3);
    lemma_not_prefix("dc_detail:"@ + rest, "dc_delete:"@, 5);
    lemma_not_prefix("dc_detail:"@ + rest, "dc_cldel:"@, 3);
    lemma_dispatch_literals();
}

/// A confirmed Discord deletion `dc_cldel:HASH:FLAG` (hash and flag without
/// `:`) deletes torrent `HASH`, together with its data exactly when the flag
/// is `true`; without a flag piece there is no deletion to make.
pub proof fn law_confirmed_deletion(hash: Seq<char>, flag: Seq<char>)
    requires
        forall|i: int| 0 <= i < hash.len() ==> hash[i] != ':',
        forall|i: int| 0 <= i < flag.len() ==> flag[i] != ':',
    ensures
        delete_request_of("dc_cldel"@ + seq![':'] + hash + seq![':'] + flag) == Some((hash, flag == "true"@)),
        delete_request_of("dc_cldel"@ + seq![':'] + hash) is None,
{
    reveal_strlit("dc_cldel");
    let p = "dc_cldel"@;
    assert(p.len() == 8);
    assert(forall|i: int| 0 <= i < 8 ==> p[i] != ':');
    let d = p + seq![':'] + hash + seq![':'] + flag;
    let n1 = 8int;
    let n2: int = 9 + hash.len() as int;
    lemma_split_scan(d, ':', 0, 0, n1);
    lemma_split_scan(d, ':', n1 + 1, n1 + 1, n2);
    lemma_split_no_sep(d, ':', n2 + 1, n2 + 1);
    assert(d.subrange(n1 + 1, n2) =~= hash);
    assert(d.subrange(n2 + 1, d.len() as int) =~= flag);
    let e = p + seq![':'] + hash;
    lemma_split_scan(e, ':', 0, 0, n1);
    lemma_split_no_sep(e, ':', n1 + 1, n1 + 1);
    assert(split_char(e, ':').len() == 2);
}

} // verus!
