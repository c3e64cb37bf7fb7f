//! What the torrent-client adapters decide, apart from the HTTP and RPC
//! calls: addresses and query paths, the session cookie, the version test,
//! the mapping of each client's states, and the reading of an aria2 task.
use vstd::prelude::*;
use base64::Engine;
use crate::bot::{eq_lit, first_match, lemma_first_match, lemma_first_match_at};
use crate::text::{
    chars_of, chars_ends_with, chars_starts_with, contains, chars_contains, ends_with, hex_lower,
    lowercase, owned, parse_unsigned, parse_unsigned_chars, push_all, push_str_chars, split_char,
    split_on_char, starts_with, string_of, to_lowercase, trim_end_char, trim_end_char_exec,
    trim_whitespace, trim_ws,
};
use crate::torrent_client::Torrent;

verus! {

// ---------------------------------------------------------------------------
// qBittorrent
// ---------------------------------------------------------------------------

/// The host of a client without its trailing slashes.
pub fn clean_host(host: &str) -> (r: String)
    ensures
        r@ == trim_end_char(host@, '/'),
{
    let v = chars_of(host);
    let t = trim_end_char_exec(&v, '/');
    string_of(&t)
}

/// A qBittorrent version string names version 5 or later: trimmed and in
/// lower case, it starts with `v` followed by a character from `5` on.
pub open spec fn is_v5_of(version: Seq<char>) -> bool {
    let v = lowercase(trim_ws(version));
    v.len() >= 2 && v[0] == 'v' && v[1] >= '5'
}

/// Whether a qBittorrent version string names version 5 or later.
pub fn is_v5_version(version: &str) -> (r: bool)
    ensures
        r == is_v5_of(version@),
{
    let t = trim_whitespace(&chars_of(version));
    let l = to_lowercase(string_of(&t).as_str());
    let v = chars_of(l.as_str());
    v.len() >= 2 && v[0] == 'v' && v[1] >= '5'
}

/// A piece of a `Set-Cookie` header that holds the session id.
pub open spec fn is_sid_piece(p: Seq<char>) -> bool {
    let l = lowercase(trim_ws(p));
    starts_with(l, "qbt_sid_"@) || starts_with(l, "sid="@)
}

/// The test of `is_sid_piece`.
pub open spec fn sid_piece() -> spec_fn(Seq<char>) -> bool {
    |p: Seq<char>| is_sid_piece(p)
}

/// The session cookie in a `Set-Cookie` header: its first `;`-separated
/// piece that names the session id, trimmed.
pub open spec fn session_cookie_of(header: Seq<char>) -> Option<Seq<char>> {
    let pieces = split_char(header, ';');
    match first_match(pieces, sid_piece()) {
        Some(i) => Some(trim_ws(pieces[i])),
        None => None,
    }
}

/// The session cookie in a `Set-Cookie` header.
pub fn session_cookie(header: &str) -> (r: Option<String>)
    ensures
        match r {
            Some(s) => session_cookie_of(header@) == Some(s@),
            None => session_cookie_of(header@) is None,
        },
{
    let pieces = split_on_char(&chars_of(header), ';');
    let ghost all = pieces@.map_values(|w: Vec<char>| w@);
    let ghost p = sid_piece();
    let mut i: usize = 0;
    while i < pieces.len()
        invariant
            i <= pieces.len(),
            all == pieces@.map_values(|w: Vec<char>| w@),
            all == split_char(header@, ';'),
            p == sid_piece(),
            forall|k: int| 0 <= k < i ==> !p(#[trigger] all[k]),
        decreases pieces.len() - i,
    {
        let t = trim_whitespace(&pieces[i]);
        let ts = string_of(&t);
        let l = chars_of(to_lowercase(ts.as_str()).as_str());
        let hit = chars_starts_with(&l, &chars_of("qbt_sid_")) || chars_starts_with(&l, &chars_of("sid="));
        assert(all[i as int] == pieces@[i as int]@);
        if hit {
            proof {
                assert(p(all[i as int]));
                lemma_first_match_at(all, p, i as int);
            }
            return Some(ts);
        }
        assert(!p(all[i as int]));
        i = i + 1;
    }
    proof {
        lemma_first_match(all, p);
        if first_match(all, p) is Some {
            let j = first_match(all, p).unwrap();
            assert(p(all[j]));
        }
    }
    None
}

/// The category sent with an addition: none for no category or `None`.
pub fn category_field(category: Option<&str>) -> (r: Option<String>)
    ensures
        r.deep_view() == match category {
            Some(x) => if x@ == "None"@ {
                None
            } else {
                Some(x@)
            },
            None => None,
        },
{
    match category {
        Some(c) => {
            if eq_lit(&chars_of(c), "None") {
                None
            } else {
                Some(owned(c))
            }
        },
        None => None,
    }
}

/// The filter qBittorrent is asked for: from version 5 on, `paused` is
/// called `stopped` and `resumed` is called `running`.
pub open spec fn qbit_filter_of(filter: Seq<char>, is_v5: bool) -> Seq<char> {
    if is_v5 && filter == "paused"@ {
        "stopped"@
    } else if is_v5 && filter == "resumed"@ {
        "running"@
    } else {
        filter
    }
}

/// The path of qBittorrent's torrent list for an optional hash and filter.
pub open spec fn torrents_info_path_of(hash: Option<Seq<char>>, filter: Option<Seq<char>>, is_v5: bool) -> Seq<char> {
    let h = match hash {
        Some(x) => seq!["hashes="@ + x],
        None => seq![],
    };
    let f = match filter {
        Some(x) => seq!["filter="@ + qbit_filter_of(x, is_v5)],
        None => seq![],
    };
    let params = h + f;
    "/api/v2/torrents/info"@ + if params.len() == 0 {
        seq![]
    } else if params.len() == 1 {
        seq!['?'] + params[0]
    } else {
        seq!['?'] + params[0] + seq!['&'] + params[1]
    }
}

/// The path of qBittorrent's torrent list.
pub fn torrents_info_path(hash: Option<&str>, filter: Option<&str>, is_v5: bool) -> (r: String)
    ensures
        r@ == torrents_info_path_of(
            match hash {
                Some(x) => Some(x@),
                None => None,
            },
            match filter {
                Some(x) => Some(x@),
                None => None,
            },
            is_v5,
        ),
{
    let mut out = chars_of("/api/v2/torrents/info");
    let mut first = true;
    match hash {
        Some(h) => {
            out.push('?');
            push_str_chars(&mut out, "hashes=");
            push_str_chars(&mut out, h);
            first = false;
        },
        None => {},
    }
    match filter {
        Some(f) => {
            let fv = chars_of(f);
            if first {
                out.push('?');
            } else {
                out.push('&');
            }
            push_str_chars(&mut out, "filter=");
            if is_v5 && eq_lit(&fv, "paused") {
                push_str_chars(&mut out, "stopped");
            } else if is_v5 && eq_lit(&fv, "resumed") {
                push_str_chars(&mut out, "running");
            } else {
                push_all(&mut out, &fv);
            }
        },
        None => {},
    }
    string_of(&out)
}

/// A qBittorrent category: none where it is empty.
pub fn qbit_category(category: Option<String>) -> (r: Option<String>)
    ensures
        r.deep_view() == match category.deep_view() {
            Some(c) => if c.len() == 0 {
                None
            } else {
                Some(c)
            },
            None => None,
        },
{
    match category {
        Some(c) => {
            if chars_of(c.as_str()).len() == 0 {
                None
            } else {
                Some(c)
            }
        },
        None => None,
    }
}

// ---------------------------------------------------------------------------
// Transmission
// ---------------------------------------------------------------------------

/// The state name of a Transmission status code.
pub open spec fn transmission_state_of(status: i64) -> Seq<char> {
    if status == 0 {
        "paused"@
    } else if status == 1 || status == 2 {
        "checking"@
    } else if status == 3 || status == 4 {
        "downloading"@
    } else if status == 5 || status == 6 {
        "seeding"@
    } else {
        "unknown"@
    }
}

/// The state name of a Transmission status code.
pub fn transmission_state(status: i64) -> (r: String)
    ensures
        r@ == transmission_state_of(status),
{
    if status == 0 {
        owned("paused")
    } else if status == 1 || status == 2 {
        owned("checking")
    } else if status == 3 || status == 4 {
        owned("downloading")
    } else if status == 5 || status == 6 {
        owned("seeding")
    } else {
        owned("unknown")
    }
}

/// A Transmission torrent is listed under a state filter.  `below_one` and
/// `at_least_one` tell how its fraction done compares with 1 (both false for
/// a fraction that is not a number).
pub open spec fn transmission_listed_of(filter: Option<Seq<char>>, below_one: bool, at_least_one: bool, status: i64) -> bool {
    match filter {
        None => true,
        Some(f) => if f == "completed"@ {
            !below_one
        } else if f == "downloading"@ {
            !(at_least_one || (status != 3 && status != 4))
        } else if f == "paused"@ || f == "stopped"@ {
            status == 0
        } else if f == "seeding"@ || f == "active"@ {
            status == 5 || status == 6
        } else {
            true
        },
    }
}

/// Whether a Transmission torrent is listed under a state filter.
pub fn transmission_listed(filter: Option<&str>, below_one: bool, at_least_one: bool, status: i64) -> (r: bool)
    ensures
        r == transmission_listed_of(
            match filter {
                Some(f) => Some(f@),
                None => None,
            },
            below_one,
            at_least_one,
            status,
        ),
{
    match filter {
        None => true,
        Some(f) => {
            let v = chars_of(f);
            if eq_lit(&v, "completed") {
                !below_one
            } else if eq_lit(&v, "downloading") {
                !(at_least_one || (status != 3 && status != 4))
            } else if eq_lit(&v, "paused") || eq_lit(&v, "stopped") {
                status == 0
            } else if eq_lit(&v, "seeding") || eq_lit(&v, "active") {
                status == 5 || status == 6
            } else {
                true
            }
        },
    }
}

/// The content path of a Transmission torrent: its folder, `/`, its name.
pub fn transmission_content_path(download_dir: &str, name: &str) -> (r: String)
    ensures
        r@ == download_dir@ + seq!['/'] + name@,
{
    let mut out = chars_of(download_dir);
    out.push('/');
    push_str_chars(&mut out, name);
    string_of(&out)
}

/// The category of a Transmission torrent: its first label.
pub fn first_label(labels: &Option<Vec<String>>) -> (r: Option<String>)
    ensures
        r.deep_view() == match labels.deep_view() {
            Some(l) => if l.len() > 0 {
                Some(l[0])
            } else {
                None
            },
            None => None,
        },
{
    match labels {
        Some(l) => {
            if l.len() > 0 {
                assert(l.deep_view()[0] == l@[0]@);
                Some(l[0].clone())
            } else {
                None
            }
        },
        None => None,
    }
}

// ---------------------------------------------------------------------------
// aria2
// ---------------------------------------------------------------------------

/// The character of a six-bit value in the standard base64 alphabet
/// (`A`-`Z`, `a`-`z`, `0`-`9`, `+`, `/`).
pub open spec fn base64_digit(v: int) -> char {
    if v < 26 {
        (65 + v) as char
    } else if v < 52 {
        (97 + v - 26) as char
    } else if v < 62 {
        (48 + v - 52) as char
    } else if v == 62 {
        '+'
    } else {
        '/'
    }
}

/// Standard base64 with padding (RFC 4648, section 4): each group of three
/// bytes gives four characters, a last group of one or two bytes is padded
/// with `=`.
pub open spec fn base64_of(b: Seq<u8>) -> Seq<char>
    decreases b.len(),
{
    let x0 = b[0] as int;
    let x1 = b[1] as int;
    let x2 = b[2] as int;
    if b.len() == 0 {
        seq![]
    } else if b.len() == 1 {
        seq![base64_digit(x0 / 4), base64_digit((x0 % 4) * 16), '=', '=']
    } else if b.len() == 2 {
        seq![
            base64_digit(x0 / 4),
            base64_digit((x0 % 4) * 16 + x1 / 16),
            base64_digit((x1 % 16) * 4),
            '=',
        ]
    } else {
        seq![
            base64_digit(x0 / 4),
            base64_digit((x0 % 4) * 16 + x1 / 16),
            base64_digit((x1 % 16) * 4 + x2 / 64),
            base64_digit(x2 % 64),
        ] + base64_of(b.skip(3))
    }
}

/// `base64::engine::general_purpose::STANDARD.encode`: the standard base64
/// text of the bytes, with padding.  It panics where the length of that text
/// overflows `usize`, which `requires` leaves out.
#[verifier::external_body]
fn base64_standard(bytes: &Vec<u8>) -> (r: String)
    requires
        4 * ((bytes@.len() + 2) / 3) <= usize::MAX,
    ensures
        r@ == base64_of(bytes@),
{
    base64::engine::general_purpose::STANDARD.encode(bytes)
}

/// The `metainfo` argument that adds a torrent file to Transmission: the
/// file's bytes in standard base64.
pub fn transmission_metainfo(file_bytes: &Vec<u8>) -> (r: String)
    requires
        4 * ((file_bytes@.len() + 2) / 3) <= usize::MAX,
    ensures
        r@ == base64_of(file_bytes@),
{
    base64_standard(file_bytes)
}

/// The JSON-RPC address of aria2 from its configured host.
pub open spec fn aria2_rpc_url_of(host: Seq<char>) -> Seq<char> {
    if ends_with(host, "/jsonrpc"@) {
        host
    } else if ends_with(host, seq!['/']) {
        host + "jsonrpc"@
    } else {
        host + "/jsonrpc"@
    }
}

/// The JSON-RPC address of aria2.
pub fn aria2_rpc_url(host: &str) -> (r: String)
    ensures
        r@ == aria2_rpc_url_of(host@),
{
    let h = chars_of(host);
    let slash = vec!['/'];
    assert(slash@ == seq!['/']);
    if chars_ends_with(&h, &chars_of("/jsonrpc")) {
        owned(host)
    } else if chars_ends_with(&h, &slash) {
        let mut out = h;
        push_str_chars(&mut out, "jsonrpc");
        string_of(&out)
    } else {
        let mut out = h;
        push_str_chars(&mut out, "/jsonrpc");
        string_of(&out)
    }
}

/// The token aria2 is called with.
pub fn aria2_token(secret: &str) -> (r: String)
    ensures
        r@ == "token:"@ + secret@,
{
    let mut out = chars_of("token:");
    push_str_chars(&mut out, secret);
    string_of(&out)
}

/// An error of pausing or resuming that aria2 gives for a task already in
/// that state, which counts as success.
pub fn harmless_error(error: &str, phrase: &str) -> (r: bool)
    ensures
        r == contains(error@, phrase@),
{
    chars_contains(&chars_of(error), &chars_of(phrase))
}

/// The hexadecimal digits of `n`, without leading zeros (`{:x}`).
pub open spec fn hex_text(n: nat) -> Seq<char>
    decreases n,
{
    if n < 16 {
        seq![hex_lower(n as int)]
    } else {
        hex_text(n / 16).push(hex_lower((n % 16) as int))
    }
}

/// The hexadecimal digits of `n`.
pub fn hex_chars(n: u64) -> (r: Vec<char>)
    ensures
        r@ == hex_text(n as nat),
    decreases n,
{
    if n < 16 {
        let c = crate::text::hex_lower_char(n);
        vec![c]
    } else {
        let mut r = hex_chars(n / 16);
        let c = crate::text::hex_lower_char(n % 16);
        r.push(c);
        r
    }
}

/// A name for a temporary file: the nanoseconds of the clock and an
/// address, both in hexadecimal.
pub fn uuid_hex(nanos: u32, address: u64) -> (r: String)
    ensures
        r@ == hex_text(nanos as nat) + hex_text(address as nat),
{
    let mut out = hex_chars(nanos as u64);
    let a = hex_chars(address);
    push_all(&mut out, &a);
    string_of(&out)
}

/// The state name of an aria2 status.
pub open spec fn aria2_state_of(status: Seq<char>) -> Seq<char> {
    if status == "active"@ {
        "downloading"@
    } else if status == "waiting"@ {
        "queued"@
    } else if status == "complete"@ {
        "completed"@
    } else {
        status
    }
}

/// The state name of an aria2 status (`paused`, `error` and `removed` keep
/// their names, as do unknown ones).
pub fn aria2_state(status: &str) -> (r: String)
    ensures
        r@ == aria2_state_of(status@),
{
    let v = chars_of(status);
    if eq_lit(&v, "active") {
        owned("downloading")
    } else if eq_lit(&v, "waiting") {
        owned("queued")
    } else if eq_lit(&v, "complete") {
        owned("completed")
    } else {
        owned(status)
    }
}

/// The fields of an aria2 task that the torrent list reads.
pub struct Aria2Task {
    pub gid: Option<String>,
    pub torrent_name: Option<String>,
    pub first_file_path: Option<String>,
    pub first_uri: Option<String>,
    pub completed_length: Option<String>,
    pub total_length: Option<String>,
    pub download_speed: Option<String>,
    pub status: Option<String>,
    pub dir: Option<String>,
}

/// A length field of aria2: its number, 0 where it is missing or does not parse.
pub open spec fn length_of(field: Option<Seq<char>>) -> nat {
    let text = match field {
        Some(s) => s,
        None => seq!['0'],
    };
    match parse_unsigned(text, u64::MAX as nat) {
        Some(v) => v,
        None => 0,
    }
}

/// A length field of aria2.
fn length_field(field: &Option<String>) -> (r: u64)
    ensures
        r as nat == length_of(field.deep_view()),
{
    let text = match field {
        Some(s) => chars_of(s.as_str()),
        None => vec!['0'],
    };
    assert(field is None ==> text@ == seq!['0']);
    match parse_unsigned_chars(&text, u64::MAX) {
        Some(v) => v,
        None => 0,
    }
}

/// The name of an aria2 task: the last `/`-separated piece of the torrent's
/// name, else of its first file's path, else of its first address, else of
/// `Unknown`.
pub open spec fn aria2_name_of(torrent_name: Option<Seq<char>>, first_file_path: Option<Seq<char>>, first_uri: Option<Seq<char>>) -> Seq<char> {
    let full = match torrent_name {
        Some(n) => n,
        None => match first_file_path {
            Some(p) => p,
            None => match first_uri {
                Some(u) => u,
                None => "Unknown"@,
            },
        },
    };
    let pieces = split_char(full, '/');
    pieces[pieces.len() - 1]
}

/// The last `/`-separated piece of a text.
fn last_piece(s: &Vec<char>) -> (r: String)
    ensures
        r@ == split_char(s@, '/')[split_char(s@, '/').len() - 1],
{
    let pieces = split_on_char(s, '/');
    let ghost all = pieces@.map_values(|w: Vec<char>| w@);
    assert(all[all.len() - 1] == pieces@[pieces.len() - 1]@);
    string_of(&pieces[pieces.len() - 1])
}

/// The estimated time left of an aria2 task: the bytes left divided by the
/// speed, converted with `as i64` (which wraps above `i64::MAX`), or the "unknown"
/// value 8640000 while nothing is downloaded.
pub open spec fn aria2_eta_of(total: nat, completed: nat, speed: nat) -> int {
    if speed > 0 {
        let left: nat = if total >= completed {
            (total - completed) as nat
        } else {
            0
        };
        let q = left / speed;
        if q <= i64::MAX {
            q as int
        } else {
            q - 0x1_0000_0000_0000_0000int
        }
    } else {
        8640000
    }
}

/// The estimated time left of an aria2 task.
pub fn aria2_eta(total: u64, completed: u64, speed: u64) -> (r: i64)
    ensures
        r as int == aria2_eta_of(total as nat, completed as nat, speed as nat),
{
    if speed > 0 {
        let left = total.saturating_sub(completed);
        let q = left / speed;
        if q <= 0x7FFF_FFFF_FFFF_FFFFu64 {
            q as i64
        } else {
            ((q as i128) - 0x1_0000_0000_0000_0000i128) as i64
        }
    } else {
        8640000
    }
}

/// A torrent read from an aria2 task, with the completed and total lengths
/// that its fraction done is computed from (its `progress_bits` is left 0
/// for the caller, which holds floating-point numbers, to fill in).
pub struct Aria2Listing {
    pub torrent: Torrent,
    pub completed: u64,
    pub total: u64,
}

/// The state of an aria2 task: its status mapped, `unknown` where missing.
pub open spec fn aria2_task_state(status: Option<Seq<char>>) -> Seq<char> {
    match status {
        Some(s) => aria2_state_of(s),
        None => "unknown"@,
    }
}

/// Whether an aria2 task is listed for an optional gid and state filter.
pub open spec fn aria2_listed_of(gid: Seq<char>, state: Seq<char>, hash: Option<Seq<char>>, filter: Option<Seq<char>>) -> bool {
    (match hash {
        Some(h) => h == gid,
        None => true,
    }) && (match filter {
        Some(f) => state == f,
        None => true,
    })
}

/// The torrent an aria2 task gives, where it passes the gid and state
/// filters: named as `aria2_name_of` says, with its size and speed from the
/// length fields, the state mapped, its folder and first file as save and
/// content paths where they are not empty, no category, seeds or peers.
pub fn aria2_listing(task: &Aria2Task, hash: Option<&str>, status_filter: Option<&str>) -> (r: Option<Aria2Listing>)
    ensures
        ({
            let gid = match task.gid.deep_view() {
                Some(g) => g,
                None => seq![],
            };
            let state = aria2_task_state(task.status.deep_view());
            let listed = aria2_listed_of(
                gid,
                state,
                match hash {
                    Some(h) => Some(h@),
                    None => None,
                },
                match status_filter {
                    Some(f) => Some(f@),
                    None => None,
                },
            );
            match r {
                None => !listed,
                Some(l) => {
                    &&& listed
                    &&& l.torrent.hash@ == gid
                    &&& l.torrent.name@ == aria2_name_of(task.torrent_name.deep_view(), task.first_file_path.deep_view(), task.first_uri.deep_view())
                    &&& l.completed as nat == length_of(task.completed_length.deep_view())
                    &&& l.total as nat == length_of(task.total_length.deep_view())
                    &&& l.torrent.size == l.total
                    &&& l.torrent.dlspeed as nat == length_of(task.download_speed.deep_view())
                    &&& l.torrent.progress_bits == 0
                    &&& l.torrent.state@ == state
                    &&& l.torrent.eta as int == aria2_eta_of(l.total as nat, l.completed as nat, l.torrent.dlspeed as nat)
                    &&& l.torrent.category is None
                    &&& l.torrent.save_path.deep_view() == match task.dir.deep_view() {
                        Some(d) => if d.len() > 0 {
                            Some(d)
                        } else {
                            None
                        },
                        None => None,
                    }
                    &&& l.torrent.content_path.deep_view() == match task.first_file_path.deep_view() {
                        Some(p) => if p.len() > 0 {
                            Some(p)
                        } else {
                            None
                        },
                        None => None,
                    }
                    &&& l.torrent.num_seeds is None
                    &&& l.torrent.num_peers is None
                },
            }
        }),
{
    let gid = match &task.gid {
        Some(g) => g.clone(),
        None => String::new(),
    };
    let state = match &task.status {
        Some(s) => aria2_state(s.as_str()),
        None => owned("unknown"),
    };
    let gv = chars_of(gid.as_str());
    match hash {
        Some(h) => {
            if !crate::text::chars_eq(&chars_of(h), &gv) {
                return None;
            }
        },
        None => {},
    }
    match status_filter {
        Some(f) => {
            if !crate::text::chars_eq(&chars_of(state.as_str()), &chars_of(f)) {
                return None;
            }
        },
        None => {},
    }
    let full: Vec<char> = match &task.torrent_name {
        Some(n) => chars_of(n.as_str()),
        None => match &task.first_file_path {
            Some(p) => chars_of(p.as_str()),
            None => match &task.first_uri {
                Some(u) => chars_of(u.as_str()),
                None => chars_of("Unknown"),
            },
        },
    };
    let name = last_piece(&full);
    let completed = length_field(&task.completed_length);
    let total = length_field(&task.total_length);
    let speed = length_field(&task.download_speed);
    let eta = aria2_eta(total, completed, speed);
    let save_path = match &task.dir {
        Some(d) => if chars_of(d.as_str()).len() > 0 {
            Some(d.clone())
        } else {
            None
        },
        None => None,
    };
    let content_path = match &task.first_file_path {
        Some(p) => if chars_of(p.as_str()).len() > 0 {
            Some(p.clone())
        } else {
            None
        },
        None => None,
    };
    let torrent = Torrent {
        hash: gid,
        name,
        progress_bits: 0,
        dlspeed: speed,
        state,
        size: total,
        eta,
        category: None,
        save_path,
        content_path,
        num_seeds: None,
        num_peers: None,
    };
    Some(Aria2Listing { torrent, completed, total })
}

} // verus!
