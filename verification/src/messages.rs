//! The texts that the bots send: confirmations of additions, torrent
//! details, download links, seeding policy, access requests and the
//! labels of lists.  Telegram texts are in MarkdownV2, with the values
//! escaped; Discord texts are in Discord's Markdown, with the values as
//! they are.
use vstd::prelude::*;
use crate::text::{
    chars_contains, chars_eq, chars_ends_with, chars_of, chars_starts_with, contains,
    decimal, ends_with, lowercase, owned, push_all, push_str_chars, signed_decimal,
    signed_decimal_chars, split_char, split_on_char, starts_with, string_of, to_lowercase,
};
use crate::bot::eq_lit;
use crate::torrent_client::Torrent;
use crate::utils::{convert_eta, convert_size, escape_markdown, eta_text, markdown_escaped, size_text};

verus! {

/// Appends the MarkdownV2-escaped form of `s`.
fn push_escaped(out: &mut Vec<char>, s: &str)
    ensures
        final(out)@ == old(out)@ + markdown_escaped(s@),
{
    let e = escape_markdown(s);
    push_str_chars(out, e.as_str());
}

/// Appends the decimal form of a signed number.
fn push_signed(out: &mut Vec<char>, n: i64)
    ensures
        final(out)@ == old(out)@ + signed_decimal(n as int),
{
    let d = signed_decimal_chars(n);
    push_all(out, &d);
}

// ---------------------------------------------------------------------------
// Adding torrents
// ---------------------------------------------------------------------------

/// What was added.
#[derive(Debug, Clone, Copy, PartialEq, Eq, Structural)]
pub enum AddKind {
    MagnetLink,
    TorrentFile,
}

/// The text of a failed addition: a conflict (an error mentioning `409`)
/// means the torrent is already there, anything else is shown as it is.
pub open spec fn add_error_text_of(e: Seq<char>) -> Seq<char> {
    if contains(e, "409"@) {
        "⚠️ This torrent/magnet link is already in the download list."@
    } else {
        "❌ Error: "@ + e
    }
}

/// The text of a failed addition.
pub fn add_error_text(e: &str) -> (r: String)
    ensures
        r@ == add_error_text_of(e@),
{
    let v = chars_of(e);
    let code = chars_of("409");
    if chars_contains(&v, &code) {
        owned("⚠️ This torrent/magnet link is already in the download list.")
    } else {
        let mut out = chars_of("❌ Error: ");
        push_all(&mut out, &v);
        string_of(&out)
    }
}

/// The text of an addition that the client refused without an error.
pub fn add_refused_text(kind: AddKind) -> (r: String)
    ensures
        r@ == match kind {
            AddKind::MagnetLink => "❌ Failed to add magnet link."@,
            AddKind::TorrentFile => "❌ Failed to add torrent file."@,
        },
{
    match kind {
        AddKind::MagnetLink => owned("❌ Failed to add magnet link."),
        AddKind::TorrentFile => owned("❌ Failed to add torrent file."),
    }
}

/// The seeds and peers of a torrent, in words: `Unknown` where neither is known.
pub open spec fn peers_summary_of(seeds: Option<i64>, peers: Option<i64>) -> Seq<char> {
    match (seeds, peers) {
        (Some(s), Some(p)) => "Seeds: "@ + signed_decimal(s as int) + " | Peers: "@ + signed_decimal(p as int),
        (None, Some(p)) => "Peers: "@ + signed_decimal(p as int),
        (Some(s), None) => "Seeds: "@ + signed_decimal(s as int),
        (None, None) => "Unknown"@,
    }
}

/// The seeds and peers of a torrent, in words.
pub fn peers_summary(seeds: Option<i64>, peers: Option<i64>) -> (r: String)
    ensures
        r@ == peers_summary_of(seeds, peers),
{
    let mut out: Vec<char> = Vec::new();
    match (seeds, peers) {
        (Some(s), Some(p)) => {
            push_str_chars(&mut out, "Seeds: ");
            push_signed(&mut out, s);
            push_str_chars(&mut out, " | Peers: ");
            push_signed(&mut out, p);
        },
        (None, Some(p)) => {
            push_str_chars(&mut out, "Peers: ");
            push_signed(&mut out, p);
        },
        (Some(s), None) => {
            push_str_chars(&mut out, "Seeds: ");
            push_signed(&mut out, s);
        },
        (None, None) => {
            push_str_chars(&mut out, "Unknown");
        },
    }
    string_of(&out)
}

/// The seeds and peers of a torrent for Discord, with the numbers as code.
pub open spec fn discord_peers_summary_of(seeds: Option<i64>, peers: Option<i64>) -> Seq<char> {
    match (seeds, peers) {
        (Some(s), Some(p)) => "Seeds: `"@ + signed_decimal(s as int) + "` | Peers: `"@ + signed_decimal(
            p as int,
        ) + "`"@,
        (None, Some(p)) => "Peers: `"@ + signed_decimal(p as int) + "`"@,
        (Some(s), None) => "Seeds: `"@ + signed_decimal(s as int) + "`"@,
        (None, None) => "Unknown"@,
    }
}

/// The seeds and peers of a torrent for Discord.
pub fn discord_peers_summary(seeds: Option<i64>, peers: Option<i64>) -> (r: String)
    ensures
        r@ == discord_peers_summary_of(seeds, peers),
{
    let mut out: Vec<char> = Vec::new();
    match (seeds, peers) {
        (Some(s), Some(p)) => {
            push_str_chars(&mut out, "Seeds: `");
            push_signed(&mut out, s);
            push_str_chars(&mut out, "` | Peers: `");
            push_signed(&mut out, p);
            push_str_chars(&mut out, "`");
        },
        (None, Some(p)) => {
            push_str_chars(&mut out, "Peers: `");
            push_signed(&mut out, p);
            push_str_chars(&mut out, "`");
        },
        (Some(s), None) => {
            push_str_chars(&mut out, "Seeds: `");
            push_signed(&mut out, s);
            push_str_chars(&mut out, "`");
        },
        (None, None) => {
            push_str_chars(&mut out, "Unknown");
        },
    }
    string_of(&out)
}

/// The Telegram line of seeds and peers after an addition: none where
/// neither is known.
pub open spec fn telegram_peers_line_of(seeds: Option<i64>, peers: Option<i64>) -> Seq<char> {
    match (seeds, peers) {
        (None, None) => seq![],
        _ => "\n*Peers:* "@ + markdown_escaped(peers_summary_of(seeds, peers)),
    }
}

/// The heading of a Telegram confirmation of an addition.
pub open spec fn telegram_added_heading(kind: AddKind) -> Seq<char> {
    match kind {
        AddKind::MagnetLink => "✅ *Magnet link added successfully\\!*"@,
        AddKind::TorrentFile => "✅ *Torrent file added successfully\\!*"@,
    }
}

/// The Telegram confirmation of an addition, with the added torrent's
/// name, size, state, seeds and peers, and hash.
pub open spec fn telegram_added_text_of(
    kind: AddKind,
    name: Seq<char>,
    size: nat,
    state: Seq<char>,
    seeds: Option<i64>,
    peers: Option<i64>,
    hash: Seq<char>,
) -> Seq<char> {
    telegram_added_heading(kind) + "\n\n*Name:* "@ + markdown_escaped(name) + "\n*Size:* "@
        + markdown_escaped(size_text(size)) + "\n*Status:* `"@ + markdown_escaped(state) + "`"@
        + telegram_peers_line_of(seeds, peers) + "\n*Hash:* `"@ + markdown_escaped(hash) + "`"@
}

/// The Telegram confirmation of an addition of `t`.
pub fn telegram_added_text(kind: AddKind, t: &Torrent) -> (r: String)
    ensures
        r@ == telegram_added_text_of(kind, t.name@, t.size as nat, t.state@, t.num_seeds, t.num_peers, t.hash@),
{
    let mut out = match kind {
        AddKind::MagnetLink => chars_of("✅ *Magnet link added successfully\\!*"),
        AddKind::TorrentFile => chars_of("✅ *Torrent file added successfully\\!*"),
    };
    push_str_chars(&mut out, "\n\n*Name:* ");
    push_escaped(&mut out, t.name.as_str());
    push_str_chars(&mut out, "\n*Size:* ");
    let size = convert_size(t.size);
    push_escaped(&mut out, size.as_str());
    push_str_chars(&mut out, "\n*Status:* `");
    push_escaped(&mut out, t.state.as_str());
    push_str_chars(&mut out, "`");
    match (t.num_seeds, t.num_peers) {
        (None, None) => {},
        _ => {
            push_str_chars(&mut out, "\n*Peers:* ");
            let summary = peers_summary(t.num_seeds, t.num_peers);
            push_escaped(&mut out, summary.as_str());
        },
    }
    push_str_chars(&mut out, "\n*Hash:* `");
    push_escaped(&mut out, t.hash.as_str());
    push_str_chars(&mut out, "`");
    string_of(&out)
}

/// The Telegram confirmation of an addition before the torrent is known.
pub fn telegram_added_placeholder(kind: AddKind) -> (r: String)
    ensures
        r@ == match kind {
            AddKind::MagnetLink => "✅ *Magnet link added successfully!*"@,
            AddKind::TorrentFile => "✅ *Torrent file added successfully\\!*"@,
        },
{
    match kind {
        AddKind::MagnetLink => owned("✅ *Magnet link added successfully!*"),
        AddKind::TorrentFile => owned("✅ *Torrent file added successfully\\!*"),
    }
}

/// The heading of a Discord confirmation of an addition.
pub open spec fn discord_added_heading(kind: AddKind) -> Seq<char> {
    match kind {
        AddKind::MagnetLink => "✅ **Magnet link added successfully!**"@,
        AddKind::TorrentFile => "✅ **Torrent file added successfully!**"@,
    }
}

/// The Discord confirmation of an addition, with a line of seeds and peers
/// only where one of them is known (the `/add` command).
pub open spec fn discord_added_text_of(
    kind: AddKind,
    name: Seq<char>,
    size: nat,
    state: Seq<char>,
    seeds: Option<i64>,
    peers: Option<i64>,
    hash: Seq<char>,
) -> Seq<char> {
    discord_added_heading(kind) + "\n\n**Name:** "@ + name + "\n**Size:** "@ + size_text(size)
        + "\n**Status:** `"@ + state + "`"@ + (match (seeds, peers) {
        (None, None) => seq![],
        _ => "\n**Peers:** "@ + discord_peers_summary_of(seeds, peers),
    }) + "\n**Hash:** `"@ + hash + "`"@
}

/// The Discord confirmation of an addition of `t` by the `/add` command.
pub fn discord_added_text(kind: AddKind, t: &Torrent) -> (r: String)
    ensures
        r@ == discord_added_text_of(kind, t.name@, t.size as nat, t.state@, t.num_seeds, t.num_peers, t.hash@),
{
    let mut out = match kind {
        AddKind::MagnetLink => chars_of("✅ **Magnet link added successfully!**"),
        AddKind::TorrentFile => chars_of("✅ **Torrent file added successfully!**"),
    };
    push_str_chars(&mut out, "\n\n**Name:** ");
    push_str_chars(&mut out, t.name.as_str());
    push_str_chars(&mut out, "\n**Size:** ");
    let size = convert_size(t.size);
    push_str_chars(&mut out, size.as_str());
    push_str_chars(&mut out, "\n**Status:** `");
    push_str_chars(&mut out, t.state.as_str());
    push_str_chars(&mut out, "`");
    match (t.num_seeds, t.num_peers) {
        (None, None) => {},
        _ => {
            push_str_chars(&mut out, "\n**Peers:** ");
            let summary = discord_peers_summary(t.num_seeds, t.num_peers);
            push_str_chars(&mut out, summary.as_str());
        },
    }
    push_str_chars(&mut out, "\n**Hash:** `");
    push_str_chars(&mut out, t.hash.as_str());
    push_str_chars(&mut out, "`");
    string_of(&out)
}

/// The Discord confirmation of an addition with a line of seeds and peers
/// that is always there (messages, and the later update of a confirmation).
pub open spec fn discord_added_summary_text_of(
    kind: AddKind,
    name: Seq<char>,
    size: nat,
    state: Seq<char>,
    seeds: Option<i64>,
    peers: Option<i64>,
    hash: Seq<char>,
) -> Seq<char> {
    discord_added_heading(kind) + "\n\n**Name:** "@ + name + "\n**Size:** "@ + size_text(size)
        + "\n**Status:** `"@ + state + "`\n**Peers:** "@ + discord_peers_summary_of(seeds, peers)
        + "\n**Hash:** `"@ + hash + "`"@
}

/// The Discord confirmation of an addition of `t` with its seeds and peers.
pub fn discord_added_summary_text(kind: AddKind, t: &Torrent) -> (r: String)
    ensures
        r@ == discord_added_summary_text_of(kind, t.name@, t.size as nat, t.state@, t.num_seeds, t.num_peers, t.hash@),
{
    let mut out = match kind {
        AddKind::MagnetLink => chars_of("✅ **Magnet link added successfully!**"),
        AddKind::TorrentFile => chars_of("✅ **Torrent file added successfully!**"),
    };
    push_str_chars(&mut out, "\n\n**Name:** ");
    push_str_chars(&mut out, t.name.as_str());
    push_str_chars(&mut out, "\n**Size:** ");
    let size = convert_size(t.size);
    push_str_chars(&mut out, size.as_str());
    push_str_chars(&mut out, "\n**Status:** `");
    push_str_chars(&mut out, t.state.as_str());
    push_str_chars(&mut out, "`\n**Peers:** ");
    let summary = discord_peers_summary(t.num_seeds, t.num_peers);
    push_str_chars(&mut out, summary.as_str());
    push_str_chars(&mut out, "\n**Hash:** `");
    push_str_chars(&mut out, t.hash.as_str());
    push_str_chars(&mut out, "`");
    string_of(&out)
}

/// The Discord confirmation of an addition before the torrent is known.
pub fn discord_added_placeholder(kind: AddKind) -> (r: String)
    ensures
        r@ == match kind {
            AddKind::MagnetLink => "✅ **Magnet link added successfully!**"@,
            AddKind::TorrentFile => "✅ Torrent file added successfully!"@,
        },
{
    match kind {
        AddKind::MagnetLink => owned("✅ **Magnet link added successfully!**"),
        AddKind::TorrentFile => owned("✅ Torrent file added successfully!"),
    }
}

/// The kind of an addition that a Discord confirmation announces: a magnet
/// link where its text says so.
pub fn confirmed_kind(confirmation: &str) -> (r: AddKind)
    ensures
        r == if contains(confirmation@, "Magnet link"@) {
            AddKind::MagnetLink
        } else {
            AddKind::TorrentFile
        },
{
    let v = chars_of(confirmation);
    let m = chars_of("Magnet link");
    if chars_contains(&v, &m) {
        AddKind::MagnetLink
    } else {
        AddKind::TorrentFile
    }
}

/// A torrent's metadata has arrived: it has a size, and a name that is
/// neither empty nor its hash.
pub open spec fn metadata_ready_of(size: nat, name: Seq<char>, hash: Seq<char>) -> bool {
    size > 0 && name != hash && name.len() > 0
}

/// Whether the metadata of the torrent added under `hash` has arrived.
pub fn metadata_ready(t: &Torrent, hash: &str) -> (r: bool)
    ensures
        r == metadata_ready_of(t.size as nat, t.name@, hash@),
{
    let n = chars_of(t.name.as_str());
    let h = chars_of(hash);
    t.size > 0 && !chars_eq(&n, &h) && n.len() > 0
}

// ---------------------------------------------------------------------------
// Details and links
// ---------------------------------------------------------------------------

/// The Telegram details of a torrent given in reply to a message about it.
pub open spec fn telegram_info_text_of(t_name: Seq<char>, bar: Seq<char>, percent: int, state: Seq<char>, size: nat, speed: nat, eta: int, seeds: Option<i64>, peers: Option<i64>, hash: Seq<char>) -> Seq<char> {
    "📌 *"@ + markdown_escaped(t_name) + "*\nProgress: "@ + markdown_escaped(bar) + " "@
        + signed_decimal(percent) + "%\nState: `"@ + markdown_escaped(state) + "`\nSize: `"@
        + markdown_escaped(size_text(size)) + "`\nSpeed: `"@ + markdown_escaped(size_text(speed))
        + "/s`\nETA: `"@ + markdown_escaped(eta_text(eta)) + "`\nPeers: `"@ + markdown_escaped(
        peers_summary_of(seeds, peers),
    ) + "`\nHash: `"@ + markdown_escaped(hash) + "`"@
}

/// The Telegram details of `t`, with its rendered progress bar and its
/// rounded percentage.
pub fn telegram_info_text(t: &Torrent, bar: &str, percent: i32) -> (r: String)
    ensures
        r@ == telegram_info_text_of(t.name@, bar@, percent as int, t.state@, t.size as nat, t.dlspeed as nat, t.eta as int, t.num_seeds, t.num_peers, t.hash@),
{
    let mut out = chars_of("📌 *");
    push_escaped(&mut out, t.name.as_str());
    push_str_chars(&mut out, "*\nProgress: ");
    push_escaped(&mut out, bar);
    push_str_chars(&mut out, " ");
    push_signed(&mut out, percent as i64);
    push_str_chars(&mut out, "%\nState: `");
    push_escaped(&mut out, t.state.as_str());
    push_str_chars(&mut out, "`\nSize: `");
    let size = convert_size(t.size);
    push_escaped(&mut out, size.as_str());
    push_str_chars(&mut out, "`\nSpeed: `");
    let speed = convert_size(t.dlspeed);
    push_escaped(&mut out, speed.as_str());
    push_str_chars(&mut out, "/s`\nETA: `");
    let eta = convert_eta(t.eta);
    push_escaped(&mut out, eta.as_str());
    push_str_chars(&mut out, "`\nPeers: `");
    let peers = peers_summary(t.num_seeds, t.num_peers);
    push_escaped(&mut out, peers.as_str());
    push_str_chars(&mut out, "`\nHash: `");
    push_escaped(&mut out, t.hash.as_str());
    push_str_chars(&mut out, "`");
    string_of(&out)
}

/// The Telegram text that hands out a download link: the local server's
/// links last, other links expire in an hour.
pub open spec fn telegram_link_text_of(name: Seq<char>, url: Seq<char>, local_enabled: bool) -> Seq<char> {
    if local_enabled {
        "🔗 Here is your download link for *"@ + markdown_escaped(name) + "*:\n"@ + markdown_escaped(url)
    } else {
        "🔗 Here is your temporary download link for *"@ + markdown_escaped(name) + "*:\n"@
            + markdown_escaped(url) + "\n*(Expires in 1 hour)*"@
    }
}

/// The Telegram text that hands out a download link.
pub fn telegram_link_text(name: &str, url: &str, local_enabled: bool) -> (r: String)
    ensures
        r@ == telegram_link_text_of(name@, url@, local_enabled),
{
    let mut out = if local_enabled {
        chars_of("🔗 Here is your download link for *")
    } else {
        chars_of("🔗 Here is your temporary download link for *")
    };
    push_escaped(&mut out, name);
    push_str_chars(&mut out, "*:\n");
    push_escaped(&mut out, url);
    if !local_enabled {
        push_str_chars(&mut out, "\n*(Expires in 1 hour)*");
    }
    string_of(&out)
}

/// The Discord text that goes with a download button.
pub open spec fn discord_link_text_of(name: Seq<char>, local_enabled: bool) -> Seq<char> {
    if local_enabled {
        "🔗 Here is your download link for **"@ + name + "**:"@
    } else {
        "🔗 Here is your temporary download link for **"@ + name + "**:\n*(Expires in 1 hour)*"@
    }
}

/// The Discord text that goes with a download button.
pub fn discord_link_text(name: &str, local_enabled: bool) -> (r: String)
    ensures
        r@ == discord_link_text_of(name@, local_enabled),
{
    let mut out = if local_enabled {
        chars_of("🔗 Here is your download link for **")
    } else {
        chars_of("🔗 Here is your temporary download link for **")
    };
    push_str_chars(&mut out, name);
    if local_enabled {
        push_str_chars(&mut out, "**:");
    } else {
        push_str_chars(&mut out, "**:\n*(Expires in 1 hour)*");
    }
    string_of(&out)
}

// ---------------------------------------------------------------------------
// Seeding policy and speed limit
// ---------------------------------------------------------------------------

/// The short label of a seeding policy; an unknown policy is shown as it is.
pub open spec fn seed_policy_label_of(p: Seq<char>) -> Seq<char> {
    if p == "always"@ {
        "🌱 Always"@
    } else if p == "never"@ {
        "🚫 Never"@
    } else if p == "admin_only"@ {
        "👑 Admin Only"@
    } else {
        p
    }
}

/// The short label of a seeding policy.
pub fn seed_policy_label(policy: &str) -> (r: String)
    ensures
        r@ == seed_policy_label_of(policy@),
{
    let v = chars_of(policy);
    if eq_lit(&v, "always") {
        owned("🌱 Always")
    } else if eq_lit(&v, "never") {
        owned("🚫 Never")
    } else if eq_lit(&v, "admin_only") {
        owned("👑 Admin Only")
    } else {
        owned(policy)
    }
}

/// The long label of a seeding policy; an unknown policy is shown as it is.
pub open spec fn seed_policy_description_of(p: Seq<char>) -> Seq<char> {
    if p == "always"@ {
        "🌱 Always (seed after every download)"@
    } else if p == "never"@ {
        "🚫 Never (stop seeding immediately)"@
    } else if p == "admin_only"@ {
        "👑 Admin Only (seed only when an admin downloads)"@
    } else {
        p
    }
}

/// The text that tells the current seeding policy.
pub fn current_seeding_text(policy: &str) -> (r: String)
    ensures
        r@ == "**Current seeding policy:** "@ + seed_policy_description_of(policy@),
{
    let v = chars_of(policy);
    let mut out = chars_of("**Current seeding policy:** ");
    if eq_lit(&v, "always") {
        push_str_chars(&mut out, "🌱 Always (seed after every download)");
    } else if eq_lit(&v, "never") {
        push_str_chars(&mut out, "🚫 Never (stop seeding immediately)");
    } else if eq_lit(&v, "admin_only") {
        push_str_chars(&mut out, "👑 Admin Only (seed only when an admin downloads)");
    } else {
        push_all(&mut out, &v);
    }
    string_of(&out)
}

/// The text that confirms a change of seeding policy.
pub fn seeding_updated_text(previous: &str, policy: &str) -> (r: String)
    ensures
        r@ == "✅ Seeding policy updated:\n**"@ + seed_policy_label_of(previous@) + "** → **"@
            + seed_policy_label_of(policy@) + "**"@,
{
    let mut out = chars_of("✅ Seeding policy updated:\n**");
    let a = seed_policy_label(previous);
    push_str_chars(&mut out, a.as_str());
    push_str_chars(&mut out, "** → **");
    let b = seed_policy_label(policy);
    push_str_chars(&mut out, b.as_str());
    push_str_chars(&mut out, "**");
    string_of(&out)
}

/// The text that tells the new state of the alternative speed limits.
pub fn speed_limit_text(active: bool) -> (r: String)
    ensures
        r@ == "Alternate speed limits toggled: **"@ + (if active {
            "ON"@
        } else {
            "OFF"@
        }) + "**"@,
{
    let mut out = chars_of("Alternate speed limits toggled: **");
    if active {
        push_str_chars(&mut out, "ON");
    } else {
        push_str_chars(&mut out, "OFF");
    }
    push_str_chars(&mut out, "**");
    string_of(&out)
}

// ---------------------------------------------------------------------------
// The link of Discord's `/add`
// ---------------------------------------------------------------------------

/// What a link given to `/add` is.
#[derive(Debug, Clone, Copy, PartialEq, Eq, Structural)]
pub enum AddLinkKind {
    /// A magnet link (`magnet:?xt=urn:`, in any case).
    Magnet,
    /// An `http://` or `https://` URL of a torrent file (in any case).
    TorrentUrl,
    /// Anything else.
    Invalid,
}

/// What a link given to `/add` is.
pub open spec fn add_link_kind_of(link: Seq<char>) -> AddLinkKind {
    let l = lowercase(link);
    if starts_with(l, "magnet:?xt=urn:"@) {
        AddLinkKind::Magnet
    } else if starts_with(l, "http://"@) || starts_with(l, "https://"@) {
        AddLinkKind::TorrentUrl
    } else {
        AddLinkKind::Invalid
    }
}

/// What a link given to `/add` is.
pub fn add_link_kind(link: &str) -> (r: AddLinkKind)
    ensures
        r == add_link_kind_of(link@),
{
    let lower = to_lowercase(link);
    let l = chars_of(lower.as_str());
    let magnet = chars_of("magnet:?xt=urn:");
    let http = chars_of("http://");
    let https = chars_of("https://");
    if chars_starts_with(&l, &magnet) {
        AddLinkKind::Magnet
    } else if chars_starts_with(&l, &http) || chars_starts_with(&l, &https) {
        AddLinkKind::TorrentUrl
    } else {
        AddLinkKind::Invalid
    }
}

/// The file name of a torrent downloaded from a URL: the URL's last piece
/// after `/` where it ends in `.torrent`, else `downloaded.torrent`.
pub open spec fn url_torrent_name_of(link: Seq<char>) -> Seq<char> {
    let pieces = split_char(link, '/');
    let last = pieces[pieces.len() - 1];
    if ends_with(last, ".torrent"@) {
        last
    } else {
        "downloaded.torrent"@
    }
}

/// The file name of a torrent downloaded from `link`.
pub fn url_torrent_name(link: &str) -> (r: String)
    ensures
        r@ == url_torrent_name_of(link@),
{
    let v = chars_of(link);
    let pieces = split_on_char(&v, '/');
    let ghost all = pieces@.map_values(|w: Vec<char>| w@);
    let last = &pieces[pieces.len() - 1];
    assert(all[all.len() - 1] == last@);
    let suffix = chars_of(".torrent");
    if chars_ends_with(last, &suffix) {
        string_of(last)
    } else {
        owned("downloaded.torrent")
    }
}

// ---------------------------------------------------------------------------
// Access requests on Discord
// ---------------------------------------------------------------------------

/// The text that asks the administrators to let a user in.
pub fn access_request_text(username: &str, user_id: &str) -> (r: String)
    ensures
        r@ == "🔔 User **"@ + username@ + "** (ID: `"@ + user_id@ + "`) is requesting access to the bot."@,
{
    let mut out = chars_of("🔔 User **");
    push_str_chars(&mut out, username);
    push_str_chars(&mut out, "** (ID: `");
    push_str_chars(&mut out, user_id);
    push_str_chars(&mut out, "`) is requesting access to the bot.");
    string_of(&out)
}

/// The button data that approves a user with `role`.
pub fn approve_button_id(role: &str, user_id: &str, username: &str) -> (r: String)
    ensures
        r@ == "dc_auth:approve:"@ + role@ + ":"@ + user_id@ + ":"@ + username@,
{
    let mut out = chars_of("dc_auth:approve:");
    push_str_chars(&mut out, role);
    push_str_chars(&mut out, ":");
    push_str_chars(&mut out, user_id);
    push_str_chars(&mut out, ":");
    push_str_chars(&mut out, username);
    string_of(&out)
}

/// The button data that denies a user.
pub fn deny_button_id(user_id: &str, username: &str) -> (r: String)
    ensures
        r@ == "dc_auth:deny:"@ + user_id@ + ":"@ + username@,
{
    let mut out = chars_of("dc_auth:deny:");
    push_str_chars(&mut out, user_id);
    push_str_chars(&mut out, ":");
    push_str_chars(&mut out, username);
    string_of(&out)
}

/// The text that confirms an approval to the administrator.
pub fn approved_text(username: &str, user_id: &str, role: &str) -> (r: String)
    ensures
        r@ == "✅ Authorized **"@ + username@ + "** (ID: `"@ + user_id@ + "`) as **"@ + role@ + "**."@,
{
    let mut out = chars_of("✅ Authorized **");
    push_str_chars(&mut out, username);
    push_str_chars(&mut out, "** (ID: `");
    push_str_chars(&mut out, user_id);
    push_str_chars(&mut out, "`) as **");
    push_str_chars(&mut out, role);
    push_str_chars(&mut out, "**.");
    string_of(&out)
}

/// The text that tells an approved user the role granted.
pub fn welcome_text(role: &str) -> (r: String)
    ensures
        r@ == "🎉 Your access request has been approved! You now have **"@ + role@ + "** role."@,
{
    let mut out = chars_of("🎉 Your access request has been approved! You now have **");
    push_str_chars(&mut out, role);
    push_str_chars(&mut out, "** role.");
    string_of(&out)
}

/// The text that confirms a denial to the administrator.
pub fn denied_text(username: &str, user_id: &str) -> (r: String)
    ensures
        r@ == "❌ Access request for **"@ + username@ + "** (ID: `"@ + user_id@ + "`) was denied."@,
{
    let mut out = chars_of("❌ Access request for **");
    push_str_chars(&mut out, username);
    push_str_chars(&mut out, "** (ID: `");
    push_str_chars(&mut out, user_id);
    push_str_chars(&mut out, "`) was denied.");
    string_of(&out)
}

/// The text that confirms a deletion.
pub fn deleted_text(with_files: bool) -> (r: String)
    ensures
        r@ == "🗑️ Torrent deleted successfully"@ + (if with_files {
            " (including files)"@
        } else {
            seq![]
        }) + "."@,
{
    let mut out = chars_of("🗑️ Torrent deleted successfully");
    if with_files {
        push_str_chars(&mut out, " (including files)");
    }
    push_str_chars(&mut out, ".");
    string_of(&out)
}

} // verus!
