//! The decisions of the download web server: byte ranges, content types,
//! human-readable sizes and the links it hands out.
use vstd::prelude::*;
use crate::text::{
    chars_eq, chars_of, chars_rfind_before, chars_starts_with, decimal, decimal_chars,
    decimal_padded, decimal_padded_chars, lowercase, parse_unsigned, parse_unsigned_chars,
    push_all, rfind_char, split_char, split_on_char, starts_with, string_of, sub_chars,
    to_lowercase, lemma_rfind_char_before_bound, trim_start_all, trim_start_all_exec,
    trim_end_char, trim_end_char_exec,
};
use crate::utils::{percent_encode, percent_encoded};
use vstd::utf8::encode_utf8;

verus! {

// ---------------------------------------------------------------------------
// Range requests
// ---------------------------------------------------------------------------

/// The prefix of a byte-range header.
pub open spec fn bytes_prefix() -> Seq<char> {
    seq!['b', 'y', 't', 'e', 's', '=']
}

/// The two pieces of the range header around its single `-`, if it is a
/// `bytes=` header with exactly one `-`.
pub open spec fn range_pieces(h: Seq<char>) -> Option<(Seq<char>, Seq<char>)> {
    if !starts_with(h, bytes_prefix()) {
        None
    } else {
        let parts = split_char(trim_start_all(h, bytes_prefix()), '-');
        if parts.len() != 2 {
            None
        } else {
            Some((parts[0], parts[1]))
        }
    }
}

/// The header asks for the range to run to the end of the file (`bytes=N-`)
/// with a valid start: the end is then the last byte, `file_size - 1`.
pub open spec fn range_runs_to_end(h: Seq<char>) -> bool {
    match range_pieces(h) {
        Some((a, b)) => parse_unsigned(a, u64::MAX as nat) is Some && b.len() == 0,
        None => false,
    }
}

/// The inclusive byte range that a `Range` header asks for, where it is a
/// satisfiable `bytes=START-END` or `bytes=START-` range.
pub open spec fn requested_range(h: Seq<char>, file_size: nat) -> Option<(nat, nat)> {
    match range_pieces(h) {
        None => None,
        Some((a, b)) => match parse_unsigned(a, u64::MAX as nat) {
            None => None,
            Some(start) => {
                let end = if b.len() == 0 {
                    Some((file_size - 1) as nat)
                } else {
                    parse_unsigned(b, u64::MAX as nat)
                };
                match end {
                    None => None,
                    Some(e) => if start <= e && e < file_size {
                        Some((start, e))
                    } else {
                        None
                    },
                }
            },
        },
    }
}

/// Parses a `Range: bytes=START-END` header against a file of `file_size`
/// bytes.  For `bytes=START-` the end is the last byte of the file,
/// `file_size - 1`, which underflows for an empty file, so that input is
/// left out.
pub fn parse_range(range_header: &str, file_size: u64) -> (r: Option<(u64, u64)>)
    requires
        !(file_size == 0 && range_runs_to_end(range_header@)),
    ensures
        match r {
            Some((s, e)) => requested_range(range_header@, file_size as nat) == Some((s as nat, e as nat)),
            None => requested_range(range_header@, file_size as nat) is None,
        },
{
    let h = chars_of(range_header);
    let prefix = vec!['b', 'y', 't', 'e', 's', '='];
    assert(prefix@ == bytes_prefix());
    if !chars_starts_with(&h, &prefix) {
        return None;
    }
    let range = trim_start_all_exec(&h, &prefix);
    let parts = split_on_char(&range, '-');
    assert(parts@.map_values(|w: Vec<char>| w@).len() == parts@.len());
    if parts.len() != 2 {
        return None;
    }
    assert(parts@.map_values(|w: Vec<char>| w@)[0] == parts@[0]@);
    assert(parts@.map_values(|w: Vec<char>| w@)[1] == parts@[1]@);
    let start = match parse_unsigned_chars(&parts[0], u64::MAX) {
        Some(v) => v,
        None => return None,
    };
    let end = if parts[1].len() == 0 {
        file_size - 1
    } else {
        match parse_unsigned_chars(&parts[1], u64::MAX) {
            Some(v) => v,
            None => return None,
        }
    };
    if start <= end && end < file_size {
        Some((start, end))
    } else {
        None
    }
}

// ---------------------------------------------------------------------------
// Content types
// ---------------------------------------------------------------------------

/// The last component of a path that names a file or directory
/// (`Path::file_name`): empty and `.` components are ignored, and a path that
/// ends in `..` (or has no component) has none.
pub open spec fn file_name(path: Seq<char>) -> Option<Seq<char>> {
    let comps = split_char(path, '/').filter(|c: Seq<char>| c.len() > 0 && c != seq!['.']);
    if comps.len() == 0 {
        None
    } else if comps.last() == seq!['.', '.'] {
        None
    } else {
        Some(comps.last())
    }
}

/// The extension of a file name (`Path::extension`): what follows its last
/// `.`, unless there is no `.` or the only one starts the name.
pub open spec fn extension_of(name: Seq<char>) -> Option<Seq<char>> {
    match rfind_char(name, '.') {
        Some(k) => if k > 0 {
            Some(name.skip(k + 1))
        } else {
            None
        },
        None => None,
    }
}

/// The extension of the file a path names, or the empty text.
pub open spec fn path_extension(path: Seq<char>) -> Seq<char> {
    match file_name(path) {
        Some(n) => match extension_of(n) {
            Some(e) => e,
            None => seq![],
        },
        None => seq![],
    }
}

/// The content type for a lower-case extension.
pub open spec fn mime_for(ext: Seq<char>) -> Seq<char> {
    if ext == seq!['m', 'p', '4'] {
        "video/mp4"@
    } else if ext == seq!['m', 'k', 'v'] {
        "video/x-matroska"@
    } else if ext == seq!['a', 'v', 'i'] {
        "video/x-msvideo"@
    } else if ext == seq!['m', 'p', '3'] {
        "audio/mpeg"@
    } else if ext == seq!['f', 'l', 'a', 'c'] {
        "audio/flac"@
    } else if ext == seq!['j', 'p', 'g'] || ext == seq!['j', 'p', 'e', 'g'] {
        "image/jpeg"@
    } else if ext == seq!['p', 'n', 'g'] {
        "image/png"@
    } else if ext == seq!['g', 'i', 'f'] {
        "image/gif"@
    } else if ext == seq!['t', 'x', 't'] {
        "text/plain; charset=utf-8"@
    } else if ext == seq!['h', 't', 'm', 'l'] {
        "text/html; charset=utf-8"@
    } else if ext == seq!['c', 's', 's'] {
        "text/css"@
    } else if ext == seq!['j', 's'] {
        "application/javascript"@
    } else if ext == seq!['j', 's', 'o', 'n'] {
        "application/json"@
    } else if ext == seq!['p', 'd', 'f'] {
        "application/pdf"@
    } else if ext == seq!['z', 'i', 'p'] {
        "application/zip"@
    } else {
        "application/octet-stream"@
    }
}

/// The last component of a path, computed from its `/`-separated pieces.
fn file_name_exec(path: &Vec<char>) -> (r: Option<Vec<char>>)
    ensures
        match r {
            Some(n) => file_name(path@) == Some(n@),
            None => file_name(path@) is None,
        },
{
    let pieces = split_on_char(path, '/');
    let ghost all = pieces@.map_values(|w: Vec<char>| w@);
    let ghost pred = |c: Seq<char>| c.len() > 0 && c != seq!['.'];
    let mut last: Option<usize> = None;
    let mut i: usize = 0;
    let dot = vec!['.'];
    assert(dot@ == seq!['.']);
    while i < pieces.len()
        invariant
            i <= pieces.len(),
            all == pieces@.map_values(|w: Vec<char>| w@),
            all.len() == pieces.len(),
            pred == (|c: Seq<char>| c.len() > 0 && c != seq!['.']),
            dot@ == seq!['.'],
            match last {
                Some(j) => j < i && all.take(i as int).filter(pred).len() > 0
                    && all.take(i as int).filter(pred).last() == all[j as int],
                None => all.take(i as int).filter(pred).len() == 0,
            },
        decreases pieces.len() - i,
    {
        proof {
            assert(all.take(i + 1).drop_last() == all.take(i as int));
            assert(all.take(i + 1).last() == all[i as int]);
            all.take(i as int).lemma_filter_push(all[i as int], pred);
            assert(all.take(i + 1) == all.take(i as int).push(all[i as int]));
            assert(all[i as int] == pieces@[i as int]@);
        }
        if pieces[i].len() > 0 && !chars_eq(&pieces[i], &dot) {
            last = Some(i);
        }
        i = i + 1;
    }
    assert(all.take(pieces.len() as int) == all);
    match last {
        None => None,
        Some(j) => {
            let dd = vec!['.', '.'];
            assert(dd@ == seq!['.', '.']);
            assert(all[j as int] == pieces@[j as int]@);
            if chars_eq(&pieces[j], &dd) {
                None
            } else {
                Some(sub_chars(&pieces[j], 0, pieces[j].len()))
            }
        },
    }
}

/// The extension of a file name.
fn extension_exec(name: &Vec<char>) -> (r: Option<Vec<char>>)
    ensures
        match r {
            Some(e) => extension_of(name@) == Some(e@),
            None => extension_of(name@) is None,
        },
{
    match chars_rfind_before(name, '.', name.len()) {
        Some(k) => {
            proof {
                lemma_rfind_char_before_bound(name@, '.', name@.len() as int);
            }
            if k > 0 {
                Some(sub_chars(name, k + 1, name.len()))
            } else {
                None
            }
        },
        None => None,
    }
}

/// The content type served for a file, from its extension without regard to case.
pub fn guess_mime(path: &str) -> (r: &'static str)
    ensures
        r@ == mime_for(lowercase(path_extension(path@))),
{
    let p = chars_of(path);
    let ext: Vec<char> = match file_name_exec(&p) {
        Some(n) => match extension_exec(&n) {
            Some(e) => e,
            None => Vec::new(),
        },
        None => Vec::new(),
    };
    assert(ext@ == path_extension(path@));
    let ext_s = string_of(&ext);
    let low_s = to_lowercase(ext_s.as_str());
    let e = chars_of(low_s.as_str());
    mime_for_exec(&e)
}

/// The content type for a lower-case extension.
fn mime_for_exec(e: &Vec<char>) -> (r: &'static str)
    ensures
        r@ == mime_for(e@),
{
    let mp4 = vec!['m', 'p', '4'];
    let mkv = vec!['m', 'k', 'v'];
    let avi = vec!['a', 'v', 'i'];
    let mp3 = vec!['m', 'p', '3'];
    let flac = vec!['f', 'l', 'a', 'c'];
    let jpg = vec!['j', 'p', 'g'];
    let jpeg = vec!['j', 'p', 'e', 'g'];
    let png = vec!['p', 'n', 'g'];
    let gif = vec!['g', 'i', 'f'];
    let txt = vec!['t', 'x', 't'];
    let html = vec!['h', 't', 'm', 'l'];
    let css = vec!['c', 's', 's'];
    let js = vec!['j', 's'];
    let json = vec!['j', 's', 'o', 'n'];
    let pdf = vec!['p', 'd', 'f'];
    let zip = vec!['z', 'i', 'p'];
    assert(mp4@ == seq!['m', 'p', '4']);
    assert(mkv@ == seq!['m', 'k', 'v']);
    assert(avi@ == seq!['a', 'v', 'i']);
    assert(mp3@ == seq!['m', 'p', '3']);
    assert(flac@ == seq!['f', 'l', 'a', 'c']);
    assert(jpg@ == seq!['j', 'p', 'g']);
    assert(jpeg@ == seq!['j', 'p', 'e', 'g']);
    assert(png@ == seq!['p', 'n', 'g']);
    assert(gif@ == seq!['g', 'i', 'f']);
    assert(txt@ == seq!['t', 'x', 't']);
    assert(html@ == seq!['h', 't', 'm', 'l']);
    assert(css@ == seq!['c', 's', 's']);
    assert(js@ == seq!['j', 's']);
    assert(json@ == seq!['j', 's', 'o', 'n']);
    assert(pdf@ == seq!['p', 'd', 'f']);
    assert(zip@ == seq!['z', 'i', 'p']);
    if chars_eq(e, &mp4) {
        "video/mp4"
    } else if chars_eq(e, &mkv) {
        "video/x-matroska"
    } else if chars_eq(e, &avi) {
        "video/x-msvideo"
    } else if chars_eq(e, &mp3) {
        "audio/mpeg"
    } else if chars_eq(e, &flac) {
        "audio/flac"
    } else if chars_eq(e, &jpg) || chars_eq(e, &jpeg) {
        "image/jpeg"
    } else if chars_eq(e, &png) {
        "image/png"
    } else if chars_eq(e, &gif) {
        "image/gif"
    } else if chars_eq(e, &txt) {
        "text/plain; charset=utf-8"
    } else if chars_eq(e, &html) {
        "text/html; charset=utf-8"
    } else if chars_eq(e, &css) {
        "text/css"
    } else if chars_eq(e, &js) {
        "application/javascript"
    } else if chars_eq(e, &json) {
        "application/json"
    } else if chars_eq(e, &pdf) {
        "application/pdf"
    } else if chars_eq(e, &zip) {
        "application/zip"
    } else {
        "application/octet-stream"
    }
}

// ---------------------------------------------------------------------------
// Sizes
// ---------------------------------------------------------------------------

/// `2` to the power `k`.
pub open spec fn pow2(k: nat) -> nat
    decreases k,
{
    if k == 0 {
        1
    } else {
        2 * pow2((k - 1) as nat)
    }
}

/// The number of binary digits of `n` (0 for 0).
pub open spec fn bit_len(n: nat) -> nat
    decreases n,
{
    if n == 0 {
        0
    } else {
        1 + bit_len(n / 2)
    }
}

/// The double nearest to `n` (ties to even), as an integer: `n as f64` for
/// an integer `n`, whose significand holds 53 bits.
pub open spec fn nearest_double(n: nat) -> nat {
    if bit_len(n) <= 53 {
        n
    } else {
        let sh = (bit_len(n) - 53) as nat;
        let q = n / pow2(sh);
        let rem = n % pow2(sh);
        let half = pow2((sh - 1) as nat);
        if rem > half || (rem == half && q % 2 == 1) {
            (q + 1) * pow2(sh)
        } else {
            q * pow2(sh)
        }
    }
}

/// `n / d` in hundredths, rounded to the nearest with ties to even (the
/// rounding of `{:.2}`, which formats the exact value of the double).
pub open spec fn hundredths_even(n: nat, d: nat) -> nat {
    let q = n * 100 / d;
    let rem = n * 100 % d;
    if 2 * rem > d || (2 * rem == d && q % 2 == 1) {
        q + 1
    } else {
        q
    }
}

/// A number of hundredths with exactly two decimals.
pub open spec fn two_decimals(h: nat) -> Seq<char> {
    decimal(h / 100) + seq!['.'] + decimal_padded(h % 100, 2)
}

/// The size in the largest of TB, GB, MB and KB that it reaches, with two
/// decimals, or in bytes below one kilobyte.
pub open spec fn size_label(bytes: nat) -> Seq<char> {
    let kb = 1024nat;
    if bytes >= kb * kb * kb * kb {
        two_decimals(hundredths_even(nearest_double(bytes), kb * kb * kb * kb)) + seq![' ', 'T', 'B']
    } else if bytes >= kb * kb * kb {
        two_decimals(hundredths_even(nearest_double(bytes), kb * kb * kb)) + seq![' ', 'G', 'B']
    } else if bytes >= kb * kb {
        two_decimals(hundredths_even(nearest_double(bytes), kb * kb)) + seq![' ', 'M', 'B']
    } else if bytes >= kb {
        two_decimals(hundredths_even(nearest_double(bytes), kb)) + seq![' ', 'K', 'B']
    } else {
        decimal(bytes) + seq![' ', 'B']
    }
}

/// The number of binary digits of `n`.
fn bit_len_exec(n: u64) -> (r: u64)
    ensures
        r == bit_len(n as nat),
        r <= 64,
{
    let mut m = n;
    let mut k: u64 = 0;
    proof {
        lemma_pow2_value_63();
        assert(pow2(64) == 2 * pow2(63));
        lemma_bit_len_le(n as nat, 64);
    }
    while m > 0
        invariant
            bit_len(n as nat) == k + bit_len(m as nat),
            k + bit_len(m as nat) <= 64,
        decreases m,
    {
        m = m / 2;
        k = k + 1;
    }
    k
}

/// `2^k` for `k < 64`.
fn pow2_exec(k: u64) -> (r: u128)
    requires
        k <= 64,
    ensures
        r == pow2(k as nat),
{
    let mut r: u128 = 1;
    let mut i: u64 = 0;
    while i < k
        invariant
            i <= k <= 64,
            r == pow2(i as nat),
            r <= 0x1_0000_0000_0000_0000u128,
        decreases k - i,
    {
        proof {
            lemma_pow2_bound((i + 1) as nat);
        }
        r = r * 2;
        i = i + 1;
    }
    r
}

/// `2^k <= 2^64` for `k <= 64`, and `2^k < 2^64` below that.
proof fn lemma_pow2_bound(k: nat)
    ensures
        k < 64 ==> pow2(k) < 0x1_0000_0000_0000_0000,
        k <= 64 ==> pow2(k) <= 0x1_0000_0000_0000_0000,
        pow2(k) >= 1,
{
    lemma_pow2_pos(k);
    lemma_pow2_value_63();
    if k <= 63 {
        lemma_pow2_mono(k, 63);
    } else if k == 64 {
        assert(pow2(64) == 2 * pow2(63));
    }
}

/// A number below `2^k` has at most `k` binary digits.
proof fn lemma_bit_len_le(n: nat, k: nat)
    requires
        n < pow2(k),
    ensures
        bit_len(n) <= k,
    decreases k,
{
    if n > 0 {
        if k == 0 {
            assert(pow2(0) == 1);
        } else {
            assert(pow2(k) == 2 * pow2((k - 1) as nat));
            lemma_bit_len_le(n / 2, (k - 1) as nat);
        }
    }
}

/// `pow2` is monotonic.
proof fn lemma_pow2_mono(a: nat, b: nat)
    requires
        a <= b,
    ensures
        pow2(a) <= pow2(b),
    decreases b - a,
{
    if a < b {
        lemma_pow2_mono(a, (b - 1) as nat);
        lemma_pow2_pos((b - 1) as nat);
    }
}

/// `pow2` is positive.
proof fn lemma_pow2_pos(a: nat)
    ensures
        pow2(a) >= 1,
    decreases a,
{
    if a > 0 {
        lemma_pow2_pos((a - 1) as nat);
    }
}

/// `2^63`.
proof fn lemma_pow2_value_63()
    ensures
        pow2(63) == 0x8000_0000_0000_0000,
{
    reveal_with_fuel(pow2, 64);
}

/// `n as f64`, as an integer.
fn nearest_double_exec(n: u64) -> (r: u128)
    ensures
        r == nearest_double(n as nat),
        r <= 0x2_0000_0000_0000_0000u128,
{
    let bl = bit_len_exec(n);
    if bl <= 53 {
        return n as u128;
    }
    let sh = bl - 53;
    let p = pow2_exec(sh);
    let half = pow2_exec(sh - 1);
    proof {
        lemma_pow2_bound(sh as nat);
        assert(pow2(sh as nat) == 2 * pow2((sh - 1) as nat));
    }
    let nn = n as u128;
    let q = nn / p;
    let rem = nn % p;
    if rem > half || (rem == half && q % 2 == 1) {
        proof {
            assert((q + 1) * p <= nn + p) by (nonlinear_arith)
                requires
                    q == nn / p,
                    p >= 1,
            ;
        }
        (q + 1) * p
    } else {
        proof {
            assert(q * p <= nn) by (nonlinear_arith)
                requires
                    q == nn / p,
                    p >= 1,
            ;
        }
        q * p
    }
}

/// Renders a byte count with two decimals in TB, GB, MB or KB, or in bytes.
pub fn format_size(bytes: u64) -> (r: String)
    ensures
        r@ == size_label(bytes as nat),
{
    let kb: u128 = 1024;
    let b = bytes as u128;
    let (unit, d): (Vec<char>, u128) = if b >= kb * kb * kb * kb {
        (vec![' ', 'T', 'B'], kb * kb * kb * kb)
    } else if b >= kb * kb * kb {
        (vec![' ', 'G', 'B'], kb * kb * kb)
    } else if b >= kb * kb {
        (vec![' ', 'M', 'B'], kb * kb)
    } else if b >= kb {
        (vec![' ', 'K', 'B'], kb)
    } else {
        let mut out = decimal_chars(bytes);
        out.push(' ');
        out.push('B');
        return string_of(&out);
    };
    let m = nearest_double_exec(bytes);
    let q = m * 100 / d;
    let rem = m * 100 % d;
    let h: u128 = if 2 * rem > d || (2 * rem == d && q % 2 == 1) {
        q + 1
    } else {
        q
    };
    assert(h == hundredths_even(nearest_double(bytes as nat), d as nat));
    proof {
        assert(q <= 0xFFFF_FFFF_FFFF_FFFFu128) by (nonlinear_arith)
            requires
                q as int == (m as int * 100) / (d as int),
                d >= 1024,
                m <= 0x2_0000_0000_0000_0000u128,
        ;
    }
    let whole = (h / 100) as u64;
    let frac = (h % 100) as u64;
    proof {
        assert(h / 100 <= 0xFFFF_FFFF_FFFF_FFFFu128);
    }
    let mut out = decimal_chars(whole);
    out.push('.');
    let f = decimal_padded_chars(frac, 2);
    push_all(&mut out, &f);
    let ghost uv = unit@;
    push_all(&mut out, &unit);
    string_of(&out)
}

// ---------------------------------------------------------------------------
// Links
// ---------------------------------------------------------------------------

/// The local download link of a torrent: the base URL (default
/// `http://localhost/`) without trailing slashes, then `/download/`, the
/// token, `/` and the percent-encoded torrent name.
pub open spec fn local_link(base_url: Option<Seq<char>>, token: Seq<char>, name: Seq<char>) -> Seq<char> {
    let base = match base_url {
        Some(b) => b,
        None => "http://localhost/"@,
    };
    trim_end_char(base, '/') + "/download/"@ + token + seq!['/'] + percent_encoded(encode_utf8(name))
}

/// The download link that the local server serves for a torrent.
pub fn local_download_url(base_url: Option<&String>, token: &str, torrent_name: &str) -> (r: String)
    ensures
        r@ == local_link(match base_url {
            Some(b) => Some(b@),
            None => None,
        }, token@, torrent_name@),
{
    let base: Vec<char> = match base_url {
        Some(b) => chars_of(b.as_str()),
        None => chars_of("http://localhost/"),
    };
    let mut out = trim_end_char_exec(&base, '/');
    let dl = chars_of("/download/");
    push_all(&mut out, &dl);
    let t = chars_of(token);
    push_all(&mut out, &t);
    out.push('/');
    let enc = percent_encode(torrent_name);
    let e = chars_of(enc.as_str());
    push_all(&mut out, &e);
    string_of(&out)
}

// ---------------------------------------------------------------------------
// Serving a download link
// ---------------------------------------------------------------------------

/// A piece of a path between `/` that `Path::components` keeps: not empty,
/// and not `.` unless it is the first piece of a relative path.
pub open spec fn keep_piece(p: Seq<char>, i: int, relative: bool) -> bool {
    p.len() > 0 && !(p == seq!['.'] && !(relative && i == 0))
}

/// The pieces that `Path::components` keeps, in order.
pub open spec fn kept_pieces(ps: Seq<Seq<char>>, relative: bool) -> Seq<Seq<char>>
    decreases ps.len(),
{
    if ps.len() == 0 {
        seq![]
    } else {
        let rest = kept_pieces(ps.drop_last(), relative);
        if keep_piece(ps.last(), ps.len() - 1, relative) {
            rest.push(ps.last())
        } else {
            rest
        }
    }
}

/// The components of a Unix path, as `Path::components` gives them: the
/// root (written `/`) where the path starts with `/`, then the names
/// between separators, repeated separators and `.` dropped (but a leading
/// `.` of a relative path).
pub open spec fn path_components(p: Seq<char>) -> Seq<Seq<char>> {
    if p.len() > 0 && p[0] == '/' {
        seq![seq!['/']] + kept_pieces(split_char(p, '/'), false)
    } else {
        kept_pieces(split_char(p, '/'), true)
    }
}

/// `target` lies within `base` (`Path::starts_with`): the components of
/// `base` are the first components of `target`.
pub open spec fn path_within(base: Seq<char>, target: Seq<char>) -> bool {
    let b = path_components(base);
    let t = path_components(target);
    b.len() <= t.len() && t.subrange(0, b.len() as int) == b
}

/// The components of a path.
fn path_components_exec(p: &Vec<char>) -> (r: Vec<Vec<char>>)
    ensures
        r@.map_values(|w: Vec<char>| w@) == path_components(p@),
{
    let pieces = split_on_char(p, '/');
    let ghost ps = pieces@.map_values(|w: Vec<char>| w@);
    let absolute = p.len() > 0 && p[0] == '/';
    let mut out: Vec<Vec<char>> = Vec::new();
    let ghost head: Seq<Seq<char>> = if absolute { seq![seq!['/']] } else { seq![] };
    if absolute {
        let root = vec!['/'];
        assert(root@ == seq!['/']);
        out.push(root);
    }
    assert(ps.take(0) =~= Seq::<Seq<char>>::empty());
    assert(kept_pieces(ps.take(0), !absolute) =~= Seq::<Seq<char>>::empty());
    assert(out@.map_values(|w: Vec<char>| w@) =~= head + kept_pieces(ps.take(0), !absolute));
    let dot = vec!['.'];
    let mut i: usize = 0;
    while i < pieces.len()
        invariant
            i <= pieces.len(),
            ps == pieces@.map_values(|w: Vec<char>| w@),
            dot@ == seq!['.'],
            head == (if absolute { seq![seq!['/']] } else { Seq::<Seq<char>>::empty() }),
            out@.map_values(|w: Vec<char>| w@) == head + kept_pieces(ps.take(i as int), !absolute),
        decreases pieces.len() - i,
    {
        let ghost before = out@.map_values(|w: Vec<char>| w@);
        let ghost pt = ps.take(i + 1);
        assert(pt.drop_last() == ps.take(i as int));
        assert(pt.last() == pieces@[i as int]@);
        let piece = &pieces[i];
        let keep = piece.len() > 0 && !(chars_eq(piece, &dot) && !(!absolute && i == 0));
        if keep {
            out.push(piece.clone());
            assert(out@.map_values(|w: Vec<char>| w@) =~= before.push(pieces@[i as int]@));
        } else {
            assert(out@.map_values(|w: Vec<char>| w@) =~= before);
        }
        i = i + 1;
    }
    assert(ps.take(pieces.len() as int) == ps);
    out
}

/// Whether the path `target` lies within the path `base` (`Path::starts_with`);
/// used on the canonical forms of a link's folder and of the requested path.
pub fn target_within(base: &str, target: &str) -> (r: bool)
    ensures
        r == path_within(base@, target@),
{
    let bc = chars_of(base);
    let tc = chars_of(target);
    let b = path_components_exec(&bc);
    let t = path_components_exec(&tc);
    let ghost bv = b@.map_values(|w: Vec<char>| w@);
    let ghost tv = t@.map_values(|w: Vec<char>| w@);
    assert(bv.len() == b.len() && tv.len() == t.len());
    if b.len() > t.len() {
        return false;
    }
    let mut i: usize = 0;
    while i < b.len()
        invariant
            i <= b.len() <= t.len(),
            bv == b@.map_values(|w: Vec<char>| w@),
            tv == t@.map_values(|w: Vec<char>| w@),
            bv == path_components(base@),
            tv == path_components(target@),
            forall|k: int| 0 <= k < i ==> tv[k] == bv[k],
        decreases b.len() - i,
    {
        assert(bv[i as int] == b@[i as int]@);
        assert(tv[i as int] == t@[i as int]@);
        if !chars_eq(&b[i], &t[i]) {
            assert(tv.subrange(0, bv.len() as int)[i as int] != bv[i as int]);
            assert(tv.subrange(0, bv.len() as int) != bv);
            return false;
        }
        i = i + 1;
    }
    assert(tv.subrange(0, bv.len() as int) =~= bv);
    true
}

/// What a request for a download link leads to.
#[derive(Debug, Clone, Copy, PartialEq, Eq, Structural)]
pub enum DownloadStep {
    /// No token in the path: 400 "Missing token".
    MissingToken,
    /// The token is unknown or its link has expired.
    Expired,
    /// The link's folder is not on the server.
    BaseNotFound,
    /// The requested file or folder does not exist.
    TargetNotFound,
    /// The requested path lies outside the link's folder: 403.
    Traversal,
    /// A zip is asked for while another one is being made.
    ZipBusy,
    /// The folder is sent as a zip.
    Zip,
    /// The folder's listing is shown.
    Index,
    /// The file is sent.
    File,
    /// The path is neither a file nor a folder.
    Unsupported,
}

/// What the server found for a download request, in the order it looks.
pub struct DownloadFacts {
    /// The path holds a token.
    pub has_token: bool,
    /// The token names a link that is still live.
    pub link_live: bool,
    /// The link's folder resolves to a canonical path.
    pub base_found: bool,
    /// The requested path resolves to a canonical path.
    pub target_found: bool,
    /// The canonical requested path lies within the canonical folder.
    pub within: bool,
    /// The requested path is a folder.
    pub is_dir: bool,
    /// The requested path is a file.
    pub is_file: bool,
    /// `zip=true` or `zip=1` was asked.
    pub zip: bool,
    /// The single zipping permit was free.
    pub zip_permit: bool,
}

/// The step of a download request.
pub open spec fn download_step_of(f: DownloadFacts) -> DownloadStep {
    if !f.has_token {
        DownloadStep::MissingToken
    } else if !f.link_live {
        DownloadStep::Expired
    } else if !f.base_found {
        DownloadStep::BaseNotFound
    } else if !f.target_found {
        DownloadStep::TargetNotFound
    } else if !f.within {
        DownloadStep::Traversal
    } else if f.is_dir {
        if f.zip {
            if f.zip_permit { DownloadStep::Zip } else { DownloadStep::ZipBusy }
        } else {
            DownloadStep::Index
        }
    } else if f.is_file {
        DownloadStep::File
    } else {
        DownloadStep::Unsupported
    }
}

/// The step of a download request.
pub fn download_step(f: &DownloadFacts) -> (r: DownloadStep)
    ensures
        r == download_step_of(*f),
{
    if !f.has_token {
        DownloadStep::MissingToken
    } else if !f.link_live {
        DownloadStep::Expired
    } else if !f.base_found {
        DownloadStep::BaseNotFound
    } else if !f.target_found {
        DownloadStep::TargetNotFound
    } else if !f.within {
        DownloadStep::Traversal
    } else if f.is_dir {
        if f.zip {
            if f.zip_permit { DownloadStep::Zip } else { DownloadStep::ZipBusy }
        } else {
            DownloadStep::Index
        }
    } else if f.is_file {
        DownloadStep::File
    } else {
        DownloadStep::Unsupported
    }
}

} // verus!
