//! What the bots show of torrents: the status filter of a list, the labels
//! and data of list entries, the Discord list and detail texts, the
//! Telegram detail and settings texts, and the Discord component that a
//! button press names.
use vstd::prelude::*;
use crate::bot::{eq_lit, is_admin_role, is_reader_role};
use crate::config::Settings;
use crate::i18n::{translate, translated, Translations};
use crate::tasks::locale_or_english;
use crate::text::{
    capitalize, capitalized, char_index_of_byte, char_index_of_byte_exec, chars_contains, chars_of,
    chars_starts_with, contains, owned, push_all, push_str_chars, signed_decimal,
    signed_decimal_chars, split_char, split_on_char, starts_with, string_of, sub_chars, utf8_len,
    utf8_len_prefix,
};
use crate::torrent_client::Torrent;
use crate::utils::{convert_eta, convert_size, escape_markdown, eta_text, markdown_escaped, size_text};

verus! {

/// The optional locale of a user, as plain values.
pub open spec fn opt_string(o: Option<&String>) -> Option<Seq<char>> {
    match o {
        Some(s) => Some(s@),
        None => None,
    }
}

// ---------------------------------------------------------------------------
// Byte-limited labels
// ---------------------------------------------------------------------------

/// `s` cut to its first `n` bytes, where `n` falls on a character boundary.
pub open spec fn byte_prefix(s: Seq<char>, n: int) -> Seq<char> {
    match char_index_of_byte(s, n) {
        Some(k) => s.take(k),
        None => s,
    }
}

/// The characters of `s` that make up its first `n` bytes (`&s[..n]`);
/// `n` must fall on a character boundary.
pub fn byte_prefix_exec(s: &Vec<char>, n: u128) -> (r: Vec<char>)
    requires
        char_index_of_byte(s@, n as int) is Some,
    ensures
        r@ == byte_prefix(s@, n as int),
{
    match char_index_of_byte_exec(s, n) {
        Some(k) => {
            proof {
                lemma_char_index_le(s@, n as int);
            }
            sub_chars(s, 0, k)
        },
        None => s.clone(),
    }
}

/// A character index found for a byte offset is within the text.
proof fn lemma_char_index_le(s: Seq<char>, n: int)
    requires
        char_index_of_byte(s, n) is Some,
    ensures
        0 <= char_index_of_byte(s, n).unwrap() <= s.len(),
{
}

/// A label of at most `max` bytes: a longer text is cut to its first `keep`
/// bytes and, where `ellipsis`, followed by `...`.
pub open spec fn short_label_of(s: Seq<char>, max: nat, keep: nat, ellipsis: bool) -> Seq<char> {
    if utf8_len(s) > max {
        byte_prefix(s, keep as int) + if ellipsis {
            "..."@
        } else {
            seq![]
        }
    } else {
        s
    }
}

/// The text `s` can be cut as `short_label_of` cuts it without splitting a
/// character (the string is sliced there, which panics inside a
/// character).
pub open spec fn cuttable(s: Seq<char>, max: nat, keep: nat) -> bool {
    utf8_len(s) > max ==> char_index_of_byte(s, keep as int) is Some
}

/// A label of at most `max` bytes.
fn short_label(s: &str, max: u128, keep: u128, ellipsis: bool) -> (r: String)
    requires
        cuttable(s@, max as nat, keep as nat),
    ensures
        r@ == short_label_of(s@, max as nat, keep as nat, ellipsis),
{
    let v = chars_of(s);
    let len = utf8_len_prefix(&v, v.len());
    assert(v@.take(v.len() as int) == v@);
    if len > max {
        let mut out = byte_prefix_exec(&v, keep);
        if ellipsis {
            push_str_chars(&mut out, "...");
        }
        string_of(&out)
    } else {
        owned(s)
    }
}

// ---------------------------------------------------------------------------
// Lists
// ---------------------------------------------------------------------------

/// The status a list is filtered by: none for `all` or no status.
pub open spec fn status_filter_of(status: Option<Seq<char>>) -> Option<Seq<char>> {
    match status {
        Some(s) => if s == "all"@ {
            None
        } else {
            Some(s)
        },
        None => None,
    }
}

/// The status a list is filtered by.
pub fn status_filter(status: Option<&str>) -> (r: Option<String>)
    ensures
        match r {
            Some(s) => status_filter_of(match status {
                Some(x) => Some(x@),
                None => None,
            }) == Some(s@),
            None => status_filter_of(match status {
                Some(x) => Some(x@),
                None => None,
            }) is None,
        },
{
    match status {
        Some(s) => {
            let v = chars_of(s);
            if eq_lit(&v, "all") {
                None
            } else {
                Some(owned(s))
            }
        },
        None => None,
    }
}

/// The mark of the status button that is the current filter: `*`, else nothing.
pub fn status_mark(filter: Option<&String>, status: &str) -> (r: String)
    ensures
        r@ == if opt_string(filter) == Some(status@) {
            "*"@
        } else {
            ""@
        },
{
    match filter {
        Some(f) => {
            let a = chars_of(f.as_str());
            let b = chars_of(status);
            if crate::text::chars_eq(&a, &b) {
                owned("*")
            } else {
                owned("")
            }
        },
        None => owned(""),
    }
}

/// The label of a torrent in a Telegram list: names over 40 bytes are cut
/// to 37 bytes and `...`.
pub fn list_button_label(name: &str) -> (r: String)
    requires
        cuttable(name@, 40, 37),
    ensures
        r@ == short_label_of(name@, 40, 37, true),
{
    short_label(name, 40, 37, true)
}

/// The data of a torrent's button in a list.
pub open spec fn list_data_of(prefix: Option<Seq<char>>, hash: Seq<char>) -> Seq<char> {
    let head = match prefix {
        Some(p) => p,
        None => "torrentInfo"@,
    };
    head + ":"@ + hash
}

/// The data of a torrent's button in a Telegram list: the given prefix, or
/// `torrentInfo`, then `:` and the hash.
pub fn list_button_data(prefix: Option<&str>, hash: &str) -> (r: String)
    ensures
        r@ == list_data_of(
            match prefix {
                Some(p) => Some(p@),
                None => None,
            },
            hash@,
        ),
{
    let mut out = match prefix {
        Some(p) => chars_of(p),
        None => chars_of("torrentInfo"),
    };
    push_str_chars(&mut out, ":");
    push_str_chars(&mut out, hash);
    string_of(&out)
}

/// The Discord text of an empty list filtered by a status: none where the
/// list is not filtered (the translated "no torrents" text is shown then).
pub fn discord_empty_status_text(filter: Option<&str>) -> (r: Option<String>)
    ensures
        match r {
            Some(s) => filter matches Some(f) && s@ == "No torrents found with status: **"@
                + capitalized(f@) + "**"@,
            None => filter is None,
        },
{
    match filter {
        Some(f) => {
            let mut out = chars_of("No torrents found with status: **");
            let c = capitalize(f);
            push_str_chars(&mut out, c.as_str());
            push_str_chars(&mut out, "**");
            Some(string_of(&out))
        },
        None => None,
    }
}

/// The entry of a torrent in the Discord list, with its rendered progress
/// bar and rounded percentage.
pub open spec fn discord_list_entry_of(name: Seq<char>, bar: Seq<char>, percent: int, state: Seq<char>, size: nat, speed: nat, hash: Seq<char>) -> Seq<char> {
    "**"@ + name + "**\n"@ + bar + " "@ + signed_decimal(percent) + "%\n"@ + "State: `"@ + capitalized(
        state,
    ) + "` | Size: `"@ + size_text(size) + "` | Speed: `"@ + size_text(speed) + "/s`\n"@ + "Hash: `"@
        + hash + "`\n\n"@
}

/// The entry of `t` in the Discord list.
pub fn discord_list_entry(t: &Torrent, bar: &str, percent: i32) -> (r: String)
    ensures
        r@ == discord_list_entry_of(t.name@, bar@, percent as int, t.state@, t.size as nat, t.dlspeed as nat, t.hash@),
{
    let mut out = chars_of("**");
    push_str_chars(&mut out, t.name.as_str());
    push_str_chars(&mut out, "**\n");
    push_str_chars(&mut out, bar);
    push_str_chars(&mut out, " ");
    let d = signed_decimal_chars(percent as i64);
    push_all(&mut out, &d);
    push_str_chars(&mut out, "%\n");
    push_str_chars(&mut out, "State: `");
    let st = capitalize(t.state.as_str());
    push_str_chars(&mut out, st.as_str());
    push_str_chars(&mut out, "` | Size: `");
    let size = convert_size(t.size);
    push_str_chars(&mut out, size.as_str());
    push_str_chars(&mut out, "` | Speed: `");
    let speed = convert_size(t.dlspeed);
    push_str_chars(&mut out, speed.as_str());
    push_str_chars(&mut out, "/s`\n");
    push_str_chars(&mut out, "Hash: `");
    push_str_chars(&mut out, t.hash.as_str());
    push_str_chars(&mut out, "`\n\n");
    string_of(&out)
}

/// The Discord list's description, at most 4096 bytes: a longer one is cut
/// to 4093 bytes and `...`.
pub fn list_description(desc: &str) -> (r: String)
    requires
        cuttable(desc@, 4096, 4093),
    ensures
        r@ == short_label_of(desc@, 4096, 4093, true),
{
    short_label(desc, 4096, 4093, true)
}

/// The label of a torrent in the Discord selection: names over 100 bytes
/// are cut to 97 bytes.
pub fn select_label(name: &str) -> (r: String)
    requires
        cuttable(name@, 100, 97),
    ensures
        r@ == short_label_of(name@, 100, 97, false),
{
    short_label(name, 100, 97, false)
}

/// The description of a torrent in the Discord selection before it is cut.
pub open spec fn select_description_text(size: nat, state: Seq<char>) -> Seq<char> {
    "Size: "@ + size_text(size) + " | Status: "@ + state
}

/// The description of a torrent in the Discord selection, cut to 97 bytes
/// where it is over 100.
pub fn select_description(t: &Torrent) -> (r: String)
    requires
        cuttable(select_description_text(t.size as nat, t.state@), 100, 97),
    ensures
        r@ == short_label_of(select_description_text(t.size as nat, t.state@), 100, 97, false),
{
    let mut out = chars_of("Size: ");
    let size = convert_size(t.size);
    push_str_chars(&mut out, size.as_str());
    push_str_chars(&mut out, " | Status: ");
    push_str_chars(&mut out, t.state.as_str());
    let s = string_of(&out);
    short_label(s.as_str(), 100, 97, false)
}

// ---------------------------------------------------------------------------
// Details
// ---------------------------------------------------------------------------

/// The fields of the Discord details of a torrent: name, value, inline.
pub open spec fn discord_detail_fields_of(bar: Seq<char>, percent: int, state: Seq<char>, size: nat, speed: nat, eta: int, category: Option<Seq<char>>, hash: Seq<char>) -> Seq<(Seq<char>, Seq<char>, bool)> {
    seq![
        ("Progress"@, bar + " "@ + signed_decimal(percent) + "%"@, false),
        ("State"@, "`"@ + capitalized(state) + "`"@, true),
        ("Size"@, "`"@ + size_text(size) + "`"@, true),
        ("Download Speed"@, "`"@ + size_text(speed) + "/s`"@, true),
        ("ETA"@, "`"@ + eta_text(eta) + "`"@, true),
        ("Category"@, "`"@ + match category {
            Some(c) => c,
            None => "None"@,
        } + "`"@, true),
        ("Hash"@, "`"@ + hash + "`"@, false),
    ]
}

/// A text between backquotes.
fn code(s: &str) -> (r: String)
    ensures
        r@ == "`"@ + s@ + "`"@,
{
    let mut out = chars_of("`");
    push_str_chars(&mut out, s);
    push_str_chars(&mut out, "`");
    string_of(&out)
}

/// Fields as plain values.
pub open spec fn fields_view(f: Seq<(String, String, bool)>) -> Seq<(Seq<char>, Seq<char>, bool)> {
    Seq::new(f.len(), |i: int| (f[i].0@, f[i].1@, f[i].2))
}

/// The fields of the Discord details of `t`.
pub fn discord_detail_fields(t: &Torrent, bar: &str, percent: i32) -> (r: Vec<(String, String, bool)>)
    ensures
        fields_view(r@) == discord_detail_fields_of(bar@, percent as int, t.state@, t.size as nat, t.dlspeed as nat, t.eta as int, t.category.deep_view(), t.hash@),
{
    let mut progress = chars_of(bar);
    push_str_chars(&mut progress, " ");
    let d = signed_decimal_chars(percent as i64);
    push_all(&mut progress, &d);
    push_str_chars(&mut progress, "%");
    let st = capitalize(t.state.as_str());
    let size = convert_size(t.size);
    let mut speed = chars_of("`");
    push_str_chars(&mut speed, convert_size(t.dlspeed).as_str());
    push_str_chars(&mut speed, "/s`");
    let speed_s = string_of(&speed);
    let eta = convert_eta(t.eta);
    let cat: String = match &t.category {
        Some(c) => c.clone(),
        None => owned("None"),
    };
    let mut r: Vec<(String, String, bool)> = Vec::new();
    r.push((owned("Progress"), string_of(&progress), false));
    r.push((owned("State"), code(st.as_str()), true));
    r.push((owned("Size"), code(size.as_str()), true));
    r.push((owned("Download Speed"), speed_s, true));
    r.push((owned("ETA"), code(eta.as_str()), true));
    r.push((owned("Category"), code(cat.as_str()), true));
    r.push((owned("Hash"), code(t.hash.as_str()), false));
    proof {
        let want = discord_detail_fields_of(bar@, percent as int, t.state@, t.size as nat, t.dlspeed as nat, t.eta as int, t.category.deep_view(), t.hash@);
        let got = fields_view(r@);
        assert(got.len() == want.len());
        assert(got[0] == want[0]);
        assert(got[1] == want[1]);
        assert(got[2] == want[2]);
        assert(got[3] == want[3]);
        assert(got[4] == want[4]);
        assert(got[5] == want[5]);
        assert(got[6] == want[6]);
        assert(got =~= want);
    }
    r
}

/// A finished torrent gets a link button where S3 or the local server is on.
pub fn offers_link(settings: &Settings, completed: bool) -> (r: bool)
    ensures
        r == ((settings.s3.enabled || settings.local_server.enabled) && completed),
{
    (settings.s3.enabled || settings.local_server.enabled) && completed
}

/// The Telegram details of a torrent: its name, then `COMPLETED` or the
/// progress bar, then (unless it is stalled) its state and speed, its
/// size, (unless stalled) its ETA, and its category where it has one.
pub open spec fn telegram_details_text_of(
    tables: Seq<(Seq<char>, Seq<(Seq<char>, Seq<char>)>)>,
    locale: Seq<char>,
    name: Seq<char>,
    completed: bool,
    bar: Seq<char>,
    state: Seq<char>,
    speed: nat,
    size: nat,
    eta: int,
    category: Option<Seq<char>>,
) -> Seq<char> {
    let stalled = contains(state, "stalled"@);
    markdown_escaped(name) + "\n"@ + (if completed {
        translated(tables, "**COMPLETED**\n"@, locale, None)
    } else {
        bar
    }) + (if !stalled {
        translated(
            tables,
            "**State:** {current_state} \n**Download Speed:** {download_speed}/s\n"@,
            locale,
            Some(seq![("current_state"@, capitalized(state)), ("download_speed"@, size_text(speed))]),
        )
    } else {
        seq![]
    }) + translated(tables, "**Size:** {torrent_size}\n"@, locale, Some(seq![("torrent_size"@, size_text(size))]))
        + (if !stalled {
        translated(tables, "**ETA:** {torrent_eta}\n"@, locale, Some(seq![("torrent_eta"@, eta_text(eta))]))
    } else {
        seq![]
    }) + match category {
        Some(c) => translated(
            tables,
            "**Category:** {torrent_category}\n"@,
            locale,
            Some(seq![("torrent_category"@, c)]),
        ),
        None => seq![],
    }
}

/// One variable for a translation.
fn var1(name: &str, value: String) -> (r: Vec<(String, String)>)
    ensures
        r.deep_view() == seq![(name@, value@)],
{
    let r = vec![(owned(name), value)];
    assert(r.deep_view() =~= seq![(name@, r@[0].1@)]);
    r
}

/// The Telegram details of `t`, for a user of locale `locale`, where
/// `completed` tells a finished torrent and `bar` is its progress bar.
pub fn telegram_details_text(tr: &Translations, locale: Option<&String>, t: &Torrent, completed: bool, bar: &str) -> (r: String)
    ensures
        r@ == telegram_details_text_of(tr.tables(), locale_or_english(opt_string(locale)), t.name@, completed, bar@, t.state@, t.dlspeed as nat, t.size as nat, t.eta as int, t.category.deep_view()),
{
    let mut out = chars_of(escape_markdown(t.name.as_str()).as_str());
    push_str_chars(&mut out, "\n");
    if completed {
        let c = translate(tr, locale, "**COMPLETED**\n", None);
        push_str_chars(&mut out, c.as_str());
    } else {
        push_str_chars(&mut out, bar);
    }
    let st = chars_of(t.state.as_str());
    let stalled_word = chars_of("stalled");
    let stalled = chars_contains(&st, &stalled_word);
    if !stalled {
        let cap = capitalize(t.state.as_str());
        let speed = convert_size(t.dlspeed);
        let ghost cap_v = cap@;
        let ghost speed_v = speed@;
        let vars = vec![(owned("current_state"), cap), (owned("download_speed"), speed)];
        assert(vars.deep_view() =~= seq![("current_state"@, cap_v), ("download_speed"@, speed_v)]);
        let s = translate(tr, locale, "**State:** {current_state} \n**Download Speed:** {download_speed}/s\n", Some(&vars));
        push_str_chars(&mut out, s.as_str());
    }
    let size_vars = var1("torrent_size", convert_size(t.size));
    let s = translate(tr, locale, "**Size:** {torrent_size}\n", Some(&size_vars));
    push_str_chars(&mut out, s.as_str());
    if !stalled {
        let eta_vars = var1("torrent_eta", convert_eta(t.eta));
        let s = translate(tr, locale, "**ETA:** {torrent_eta}\n", Some(&eta_vars));
        push_str_chars(&mut out, s.as_str());
    }
    match &t.category {
        Some(c) => {
            let cat_vars = var1("torrent_category", c.clone());
            let s = translate(tr, locale, "**Category:** {torrent_category}\n", Some(&cat_vars));
            push_str_chars(&mut out, s.as_str());
        },
        None => {},
    }
    string_of(&out)
}

/// The Telegram text of the client settings: the client type with its
/// first letter in upper case and whether the speed limit is on.
pub open spec fn client_settings_text_of(
    tables: Seq<(Seq<char>, Seq<(Seq<char>, Seq<char>)>)>,
    locale: Seq<char>,
    client_type: Seq<char>,
    speed_limit: bool,
) -> Seq<char> {
    let status = if speed_limit {
        translated(tables, "✅ Enabled"@, locale, None)
    } else {
        translated(tables, "❌ Disabled"@, locale, None)
    };
    let confs = translated(tables, "**Speed Limit**: {speed_limit_status}"@, locale, Some(seq![("speed_limit_status"@, status)]));
    translated(
        tables,
        "Edit {client_type} client settings \n\n{configs}"@,
        locale,
        Some(seq![("client_type"@, capitalized(client_type)), ("configs"@, confs)]),
    )
}

/// The Telegram text of the client settings.
pub fn client_settings_text(tr: &Translations, locale: Option<&String>, client_type: &str, speed_limit: bool) -> (r: String)
    ensures
        r@ == client_settings_text_of(tr.tables(), locale_or_english(opt_string(locale)), client_type@, speed_limit),
{
    let status = if speed_limit {
        translate(tr, locale, "✅ Enabled", None)
    } else {
        translate(tr, locale, "❌ Disabled", None)
    };
    let status_vars = var1("speed_limit_status", status);
    let confs = translate(tr, locale, "**Speed Limit**: {speed_limit_status}", Some(&status_vars));
    let cap = capitalize(client_type);
    let ghost cap_v = cap@;
    let ghost confs_v = confs@;
    let vars = vec![(owned("client_type"), cap), (owned("configs"), confs)];
    assert(vars.deep_view() =~= seq![("client_type"@, cap_v), ("configs"@, confs_v)]);
    translate(tr, locale, "Edit {client_type} client settings \n\n{configs}", Some(&vars))
}

// ---------------------------------------------------------------------------
// Discord buttons
// ---------------------------------------------------------------------------

/// What a Discord button press or selection asks for.
#[derive(Debug, Clone, Copy, PartialEq, Eq, Structural)]
pub enum DiscordComponent {
    SelectTorrent,
    BackToList,
    RequestAccess,
    Approve,
    Deny,
    ShowStatus,
    GetLink,
    Pause,
    Resume,
    ConfirmDelete,
    Delete,
    Detail,
    /// Refused with `Unauthorized.`
    Unauthorized,
    /// Refused with a note that only administrators delete.
    UnauthorizedDelete,
    Unhandled,
}

/// The piece `n` of a button's data, split at `:`.
pub open spec fn piece(id: Seq<char>, n: int) -> Option<Seq<char>> {
    let p = split_char(id, ':');
    if 0 <= n < p.len() {
        Some(p[n])
    } else {
        None
    }
}

/// What a Discord button with data `id` asks for, from a user of role
/// `role`: pausing and resuming are refused to readers, deleting to all but
/// administrators.
pub open spec fn discord_component_of(id: Seq<char>, role: Seq<char>) -> DiscordComponent {
    if id == "select_torrent"@ {
        DiscordComponent::SelectTorrent
    } else if id == "dc_back_list"@ {
        DiscordComponent::BackToList
    } else if id == "dc_request_access"@ {
        DiscordComponent::RequestAccess
    } else if starts_with(id, "dc_auth:"@) {
        if piece(id, 1) == Some("approve"@) {
            DiscordComponent::Approve
        } else if piece(id, 1) == Some("deny"@) {
            DiscordComponent::Deny
        } else {
            DiscordComponent::Unhandled
        }
    } else if starts_with(id, "dc_status:"@) {
        DiscordComponent::ShowStatus
    } else if starts_with(id, "dc_get_link:"@) {
        DiscordComponent::GetLink
    } else if starts_with(id, "dc_pause:"@) {
        if is_reader_role(role) {
            DiscordComponent::Unauthorized
        } else {
            DiscordComponent::Pause
        }
    } else if starts_with(id, "dc_resume:"@) {
        if is_reader_role(role) {
            DiscordComponent::Unauthorized
        } else {
            DiscordComponent::Resume
        }
    } else if starts_with(id, "dc_delete:"@) {
        if is_admin_role(role) {
            DiscordComponent::ConfirmDelete
        } else {
            DiscordComponent::UnauthorizedDelete
        }
    } else if starts_with(id, "dc_cldel:"@) {
        if is_admin_role(role) {
            DiscordComponent::Delete
        } else {
            DiscordComponent::Unauthorized
        }
    } else if starts_with(id, "dc_detail:"@) {
        DiscordComponent::Detail
    } else {
        DiscordComponent::Unhandled
    }
}

/// The piece `n` of a button's data.
pub fn component_piece(id: &str, n: usize) -> (r: Option<String>)
    ensures
        match r {
            Some(s) => piece(id@, n as int) == Some(s@),
            None => piece(id@, n as int) is None,
        },
{
    let v = chars_of(id);
    let pieces = split_on_char(&v, ':');
    let ghost all = pieces@.map_values(|w: Vec<char>| w@);
    if n < pieces.len() {
        assert(all[n as int] == pieces@[n as int]@);
        Some(string_of(&pieces[n]))
    } else {
        None
    }
}

/// The torrent and the data flag of a confirmed Discord deletion
/// (`dc_cldel:HASH:FLAG`): the hash is piece 1, and the data is deleted too
/// exactly where piece 2 is `true`; `None` where either piece is missing
/// (indexing the pieces would panic there).
pub open spec fn delete_request_of(id: Seq<char>) -> Option<(Seq<char>, bool)> {
    match (piece(id, 1), piece(id, 2)) {
        (Some(h), Some(f)) => Some((h, f == "true"@)),
        _ => None,
    }
}

/// The torrent and the data flag of a confirmed Discord deletion.
pub fn delete_request(id: &str) -> (r: Option<(String, bool)>)
    ensures
        match r {
            Some((h, d)) => delete_request_of(id@) == Some((h@, d)),
            None => delete_request_of(id@) is None,
        },
{
    let hash = component_piece(id, 1);
    let flag = component_piece(id, 2);
    match (hash, flag) {
        (Some(h), Some(f)) => {
            let with_data = eq_lit(&chars_of(f.as_str()), "true");
            Some((h, with_data))
        },
        _ => None,
    }
}

/// What a Discord button press asks for.
pub fn discord_component(id: &str, role: &str) -> (r: DiscordComponent)
    ensures
        r == discord_component_of(id@, role@),
{
    let v = chars_of(id);
    let reader = eq_lit(&chars_of(role), "reader");
    let admin = eq_lit(&chars_of(role), "administrator");
    if eq_lit(&v, "select_torrent") {
        return DiscordComponent::SelectTorrent;
    }
    if eq_lit(&v, "dc_back_list") {
        return DiscordComponent::BackToList;
    }
    if eq_lit(&v, "dc_request_access") {
        return DiscordComponent::RequestAccess;
    }
    if chars_starts_with(&v, &chars_of("dc_auth:")) {
        let action = component_piece(id, 1);
        return match action {
            Some(a) => {
                let av = chars_of(a.as_str());
                if eq_lit(&av, "approve") {
                    DiscordComponent::Approve
                } else if eq_lit(&av, "deny") {
                    DiscordComponent::Deny
                } else {
                    DiscordComponent::Unhandled
                }
            },
            None => DiscordComponent::Unhandled,
        };
    }
    if chars_starts_with(&v, &chars_of("dc_status:")) {
        DiscordComponent::ShowStatus
    } else if chars_starts_with(&v, &chars_of("dc_get_link:")) {
        DiscordComponent::GetLink
    } else if chars_starts_with(&v, &chars_of("dc_pause:")) {
        if reader {
            DiscordComponent::Unauthorized
        } else {
            DiscordComponent::Pause
        }
    } else if chars_starts_with(&v, &chars_of("dc_resume:")) {
        if reader {
            DiscordComponent::Unauthorized
        } else {
            DiscordComponent::Resume
        }
    } else if chars_starts_with(&v, &chars_of("dc_delete:")) {
        if admin {
            DiscordComponent::ConfirmDelete
        } else {
            DiscordComponent::UnauthorizedDelete
        }
    } else if chars_starts_with(&v, &chars_of("dc_cldel:")) {
        if admin {
            DiscordComponent::Delete
        } else {
            DiscordComponent::Unauthorized
        }
    } else if chars_starts_with(&v, &chars_of("dc_detail:")) {
        DiscordComponent::Detail
    } else {
        DiscordComponent::Unhandled
    }
}

/// The data of the buttons that confirm a deletion: keeping the files,
/// deleting them too, and going back to the details.
pub fn delete_confirmation_ids(hash: &str) -> (r: (String, String, String))
    ensures
        r.0@ == "dc_cldel:"@ + hash@ + ":false"@,
        r.1@ == "dc_cldel:"@ + hash@ + ":true"@,
        r.2@ == "dc_detail:"@ + hash@,
{
    let mut a = chars_of("dc_cldel:");
    push_str_chars(&mut a, hash);
    let mut b = a.clone();
    push_str_chars(&mut a, ":false");
    push_str_chars(&mut b, ":true");
    let mut c = chars_of("dc_detail:");
    push_str_chars(&mut c, hash);
    (string_of(&a), string_of(&b), string_of(&c))
}

} // verus!
