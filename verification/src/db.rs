//! What the bot decides about its database: whether a cached presigned link
//! may be reused and a local download link is still live, which configured
//! users are added on start-up, and how a user maps to and from a row of
//! the users table.  The SQL itself is run by the caller.
use vstd::prelude::*;
use crate::config::{copy_opt_string, UserSettings, UserSpec};
use crate::tasks::users_view;
use crate::text::owned;

verus! {

// ---------------------------------------------------------------------------
// Expiry
// ---------------------------------------------------------------------------

/// A cached presigned link is reused while more than three quarters of its
/// lifetime remain (and it has a positive lifetime).
pub open spec fn presigned_fresh_of(now: int, created_at: int, expires_in: int) -> bool {
    let remaining = expires_in - (now - created_at);
    expires_in > 0 && 4 * remaining > 3 * expires_in
}

/// Whether a presigned link cached at `created_at` with lifetime
/// `expires_in` (seconds) may be reused at `now`: more than three quarters
/// of its lifetime is left.  (Taken in floating point, the share left gives
/// this comparison exactly for the magnitudes of a clock in seconds, below
/// 2^50.)  Where `now - created_at` or the remaining time overflows `i64`,
/// the subtraction panics, so those inputs are left out.
pub fn presigned_fresh(now: i64, created_at: i64, expires_in: i64) -> (r: bool)
    requires
        i64::MIN <= now - created_at <= i64::MAX,
        i64::MIN <= expires_in - (now - created_at) <= i64::MAX,
    ensures
        r == presigned_fresh_of(now as int, created_at as int, expires_in as int),
{
    let elapsed = now - created_at;
    let remaining = expires_in - elapsed;
    expires_in > 0 && 4 * (remaining as i128) > 3 * (expires_in as i128)
}

/// A stored local download link that expires at `expires_at` is live at `now`.
pub open spec fn link_live(expires_at: int, now: int) -> bool {
    expires_at > now
}

/// Whether a local download link that expires at `expires_at` is live at `now`.
pub fn local_download_live(expires_at: i64, now: i64) -> (r: bool)
    ensures
        r == link_live(expires_at as int, now as int),
{
    expires_at > now
}

// ---------------------------------------------------------------------------
// Users
// ---------------------------------------------------------------------------

/// A configured user and a stored one are the same: by a Discord id that
/// the configured user has, or by a Telegram id other than 0.
pub open spec fn same_user(configured: UserSpec, stored: UserSpec) -> bool {
    (configured.discord_id is Some && configured.discord_id == stored.discord_id) || (configured.user_id
        != 0 && configured.user_id == stored.user_id)
}

/// A configured user is not stored yet.
pub open spec fn is_new_user(existing: Seq<UserSpec>) -> spec_fn(UserSpec) -> bool {
    |u: UserSpec| !(exists|k: int| 0 <= k < existing.len() && same_user(u, #[trigger] existing[k]))
}

/// Whether two optional strings are equal.
fn opt_eq(a: &Option<String>, b: &Option<String>) -> (r: bool)
    ensures
        r == (a.deep_view() == b.deep_view()),
{
    match (a, b) {
        (Some(x), Some(y)) => {
            let xv = crate::text::chars_of(x.as_str());
            let yv = crate::text::chars_of(y.as_str());
            crate::text::chars_eq(&xv, &yv)
        },
        (None, None) => true,
        _ => false,
    }
}

/// Whether the configured user `u` is among the stored ones.
fn stored_already(u: &UserSettings, existing: &Vec<UserSettings>) -> (r: bool)
    ensures
        r == exists|k: int| 0 <= k < existing@.len() && same_user(u@, #[trigger] users_view(existing@)[k]),
{
    let ghost ev = users_view(existing@);
    let mut i: usize = 0;
    while i < existing.len()
        invariant
            i <= existing.len(),
            ev == users_view(existing@),
            forall|k: int| 0 <= k < i ==> !same_user(u@, #[trigger] ev[k]),
        decreases existing.len() - i,
    {
        let e = &existing[i];
        assert(ev[i as int] == e@);
        let by_discord = u.discord_id.is_some() && opt_eq(&u.discord_id, &e.discord_id);
        let by_telegram = u.user_id != 0 && u.user_id == e.user_id;
        if by_discord || by_telegram {
            assert(same_user(u@, ev[i as int]));
            return true;
        }
        i = i + 1;
    }
    false
}

/// The configured users to store on start-up: those not stored yet, in
/// their order.
pub fn users_to_save(configured: &Vec<UserSettings>, existing: &Vec<UserSettings>) -> (r: Vec<UserSettings>)
    ensures
        users_view(r@) == users_view(configured@).filter(is_new_user(users_view(existing@))),
{
    let ghost all = users_view(configured@);
    let ghost pred = is_new_user(users_view(existing@));
    let mut out: Vec<UserSettings> = Vec::new();
    let mut i: usize = 0;
    assert(all.take(0) =~= Seq::<UserSpec>::empty());
    while i < configured.len()
        invariant
            i <= configured.len(),
            all == users_view(configured@),
            pred == is_new_user(users_view(existing@)),
            users_view(out@) == all.take(i as int).filter(pred),
        decreases configured.len() - i,
    {
        proof {
            assert(all.take(i + 1) =~= all.take(i as int).push(all[i as int]));
            all.take(i as int).lemma_filter_push(all[i as int], pred);
        }
        let u = &configured[i];
        let stored = stored_already(u, existing);
        assert(stored == !pred(all[i as int]));
        if !stored {
            let ghost before = users_view(out@);
            out.push(crate::config::copy_user(u));
            assert(users_view(out@) =~= before.push(all[i as int]));
        }
        i = i + 1;
    }
    assert(all.take(configured.len() as int) =~= all);
    out
}

/// The list of strings that `serde_json` reads from a JSON text, where the
/// text is an array of strings.
pub uninterp spec fn json_string_list(text: Seq<char>) -> Option<Seq<Seq<char>>>;

/// `serde_json::from_str::<Vec<String>>`, its error dropped: the result is
/// a function of the text alone.
#[verifier::external_body]
fn parse_string_list(text: &str) -> (r: Option<Vec<String>>)
    ensures
        r.deep_view() == json_string_list(text@),
{
    serde_json::from_str::<Vec<String>>(text).ok()
}

/// The JSON text that `serde_json` writes for a list of strings.
pub uninterp spec fn json_of_string_list(list: Seq<Seq<char>>) -> Seq<char>;

/// `serde_json::to_string` of a list of strings, its error dropped.  It
/// writes into a `Vec<u8>`, which cannot fail, and strings always serialize,
/// so it succeeds; the text is a function of the list alone, and
/// `serde_json::from_str::<Vec<String>>` reads the same list back from it
/// (every string is written as a JSON string literal that reads back as
/// itself).
#[verifier::external_body]
fn string_list_json(list: &Vec<String>) -> (r: Option<String>)
    ensures
        r is Some,
        r matches Some(s) ==> s@ == json_of_string_list(list.deep_view()),
        r matches Some(s) ==> json_string_list(s@) == Some(list.deep_view()),
{
    serde_json::to_string(list).ok()
}

/// The user a stored row gives, from the columns and the parsed filter: no
/// Telegram id is 0, notifications are on where the column holds 1, and a
/// filter that is missing or not a list of strings is empty.
pub open spec fn user_of_row(
    telegram_id: Option<i64>,
    discord_id: Option<Seq<char>>,
    role: Seq<char>,
    locale: Option<Seq<char>>,
    notify: i32,
    filter: Option<Seq<Seq<char>>>,
) -> UserSpec {
    UserSpec {
        user_id: match telegram_id {
            Some(t) => t,
            None => 0,
        },
        discord_id,
        role,
        locale,
        notify: notify == 1,
        notification_filter: match filter {
            Some(f) => f,
            None => seq![],
        },
    }
}

/// The user a stored row gives, with its filter already parsed.
pub fn user_from_parts(
    telegram_id: Option<i64>,
    discord_id: Option<String>,
    role: String,
    locale: Option<String>,
    notify: i32,
    filter: Option<Vec<String>>,
) -> (r: UserSettings)
    ensures
        r@ == user_of_row(telegram_id, discord_id.deep_view(), role@, locale.deep_view(), notify, filter.deep_view()),
{
    let f = match filter {
        Some(f) => f,
        None => Vec::new(),
    };
    let r = UserSettings {
        user_id: match telegram_id {
            Some(t) => t,
            None => 0,
        },
        discord_id,
        role,
        locale,
        notify: notify == 1,
        notification_filter: f,
    };
    assert(r@.notification_filter =~= user_of_row(telegram_id, discord_id.deep_view(), role@, locale.deep_view(), notify, filter.deep_view()).notification_filter);
    r
}

/// The user a stored row gives, its filter column read as JSON.
pub fn user_from_row(
    telegram_id: Option<i64>,
    discord_id: Option<String>,
    role: String,
    locale: Option<String>,
    notify: i32,
    filter_json: Option<String>,
) -> (r: UserSettings)
    ensures
        r@ == user_of_row(telegram_id, discord_id.deep_view(), role@, locale.deep_view(), notify, match filter_json {
            Some(s) => json_string_list(s@),
            None => None,
        }),
{
    let filter = match &filter_json {
        Some(s) => parse_string_list(s.as_str()),
        None => None,
    };
    user_from_parts(telegram_id, discord_id, role, locale, notify, filter)
}

/// The columns of a user's row.
pub struct UserRow {
    pub discord_id: Option<String>,
    pub telegram_id: Option<i64>,
    pub role: String,
    pub locale: Option<String>,
    pub notify: i32,
    pub filter_json: String,
}

/// The row of a user, with the filter's JSON text given: a Telegram id of 0
/// is stored as none, notifications as 1 or 0.
pub open spec fn row_matches(r: UserRow, u: UserSpec, filter_json: Seq<char>) -> bool {
    &&& r.discord_id.deep_view() == u.discord_id
    &&& r.telegram_id == if u.user_id != 0 {
        Some(u.user_id)
    } else {
        None
    }
    &&& r.role@ == u.role
    &&& r.locale.deep_view() == u.locale
    &&& r.notify == if u.notify {
        1i32
    } else {
        0i32
    }
    &&& r.filter_json@ == filter_json
}

/// The row of a user, with the filter written as JSON.  Reading the row
/// back (`user_from_row`) gives the same user.
pub fn user_row(u: &UserSettings) -> (r: UserRow)
    ensures
        row_matches(r, u@, json_of_string_list(u@.notification_filter)),
        user_of_row(r.telegram_id, r.discord_id.deep_view(), r.role@, r.locale.deep_view(), r.notify,
            json_string_list(r.filter_json@)) == u@,
{
    let filter_json = match string_list_json(&u.notification_filter) {
        Some(s) => s,
        None => owned("[]"),
    };
    UserRow {
        discord_id: copy_opt_string(&u.discord_id),
        telegram_id: if u.user_id != 0 {
            Some(u.user_id)
        } else {
            None
        },
        role: u.role.clone(),
        locale: copy_opt_string(&u.locale),
        notify: if u.notify {
            1
        } else {
            0
        },
        filter_json,
    }
}

} // verus!
