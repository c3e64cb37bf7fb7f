//! Text utilities: magnet links, sizes, durations, Markdown escaping and
//! percent-encoding.
use vstd::prelude::*;
use vstd::utf8::encode_utf8;
use crate::text::{
    char_from_digit, decimal, decimal_chars, decimal_padded, decimal_padded_chars, digit_char,
    hex_upper, hex_upper_char, char_index_of_byte, char_index_of_byte_exec, chars_contains, chars_ends_with, chars_find,
    chars_of, chars_rfind_before, chars_starts_with, contains, ends_with, find,
    lemma_find_from_first_bound, lemma_rfind_char_before_bound, lowercase, push_all, rfind_char,
    split_words, starts_with, string_of, sub_chars, to_lowercase, utf8_len, utf8_len_prefix, words,
    parse_signed, parse_signed_chars, signed_decimal, signed_decimal_chars, trim_whitespace, trim_ws,
    ascii_lower, is_ascii, lemma_ascii_char_index, lemma_ascii_lower, lemma_utf8_len_ascii,
    is_whitespace, lemma_char_index_of_byte_unique, lemma_word_len_bound, lemma_word_len_run, matches_at,
    word_len,
};

verus! {

// ---------------------------------------------------------------------------
// Magnet links
// ---------------------------------------------------------------------------

/// The marker that precedes the info-hash of a magnet link.
pub open spec fn btih_marker() -> Seq<char> {
    seq!['x', 't', '=', 'u', 'r', 'n', ':', 'b', 't', 'i', 'h', ':']
}

/// The start of a magnet link.
pub open spec fn magnet_marker() -> Seq<char> {
    seq!['m', 'a', 'g', 'n', 'e', 't', ':', '?']
}

/// The exact-topic marker that a usable magnet link carries.
pub open spec fn xt_urn() -> Seq<char> {
    seq!['x', 't', '=', 'u', 'r', 'n', ':']
}

/// Where `marker` first occurs in `lowered` (a lower-cased copy of `text`), the
/// position in `text` of the byte `extra` bytes past it, when that byte
/// position falls on a character boundary of `text`.  The marker is looked
/// for in the lower-cased copy, and `text` is cut at the same byte offset.
pub open spec fn offset_after_marker(
    text: Seq<char>,
    lowered: Seq<char>,
    marker: Seq<char>,
    extra: int,
) -> Option<int> {
    match find(lowered, marker) {
        None => None,
        Some(j) => char_index_of_byte(text, utf8_len(lowered.take(j)) + extra),
    }
}

/// Slicing `text` at the offset found in `lowered` does not panic: either the
/// marker is absent, or the offset is a character boundary of `text`.
pub open spec fn marker_slice_ok(
    text: Seq<char>,
    lowered: Seq<char>,
    marker: Seq<char>,
    extra: int,
) -> bool {
    find(lowered, marker) is None || offset_after_marker(text, lowered, marker, extra) is Some
}

/// The characters of `s` before its first `&` (all of `s` where there is none).
pub open spec fn before_ampersand(s: Seq<char>) -> Seq<char> {
    match find(s, seq!['&']) {
        Some(e) => s.take(e),
        None => s,
    }
}

/// The info-hash of a magnet link: what follows `xt=urn:btih:` up to the next `&`.
pub open spec fn magnet_hash(text: Seq<char>, lowered: Seq<char>) -> Option<Seq<char>> {
    match offset_after_marker(text, lowered, btih_marker(), 12) {
        None => None,
        Some(k) => Some(before_ampersand(text.skip(k))),
    }
}

/// The keys that start a magnet-link parameter.
pub open spec fn parameter_keys() -> Seq<Seq<char>> {
    seq![
        seq!['x', 't', '='],
        seq!['d', 'n', '='],
        seq!['t', 'r', '='],
        seq!['x', 'l', '='],
        seq!['k', 't', '='],
        seq!['w', 's', '='],
        seq!['a', 's', '='],
        seq!['x', 's', '='],
    ]
}

/// A piece of text starts a new magnet-link parameter.
pub open spec fn spec_starts_parameter(part: Seq<char>) -> bool {
    starts_with(part, seq!['&']) || starts_with(part, seq!['?']) || exists|i: int|
        0 <= i < 8 && starts_with(part, #[trigger] parameter_keys()[i])
}

/// A piece of text is a tracker URL.
pub open spec fn is_tracker_url(part: Seq<char>) -> bool {
    starts_with(part, seq!['h', 't', 't', 'p', ':', '/', '/']) || starts_with(
        part,
        seq!['h', 't', 't', 'p', 's', ':', '/', '/'],
    ) || starts_with(part, seq!['u', 'd', 'p', ':', '/', '/']) || starts_with(
        part,
        seq!['w', 's', 's', ':', '/', '/'],
    )
}

/// The value being written into the link is the display name: the key before
/// the last `=` (after the last `&`, or else the last `?`) is `dn`.
pub open spec fn spec_is_dn_active(link: Seq<char>) -> bool {
    match rfind_char(link, '=') {
        None => false,
        Some(e) => {
            let prefix = link.take(e);
            let sep = match rfind_char(prefix, '&') {
                Some(a) => Some(a),
                None => rfind_char(prefix, '?'),
            };
            match sep {
                Some(a) => prefix.skip(a + 1) == seq!['d', 'n'],
                None => false,
            }
        },
    }
}

/// Joins the words that follow the first word of a magnet link back into it:
/// parameters and tracker URLs are joined with `&`, words of a display name
/// with `%20`; the first other word ends the link.
pub open spec fn assemble(acc: Seq<char>, rest: Seq<Seq<char>>) -> Seq<char>
    decreases rest.len(),
{
    if rest.len() == 0 {
        acc
    } else {
        let part = rest[0];
        if spec_starts_parameter(part) || is_tracker_url(part) {
            let sep = if !starts_with(part, seq!['&']) && !ends_with(acc, seq!['&'])
                && !ends_with(acc, seq!['?']) {
                seq!['&']
            } else {
                seq![]
            };
            assemble(acc + sep + part, rest.drop_first())
        } else if spec_is_dn_active(acc) {
            let space = if !ends_with(acc, seq!['%']) && !starts_with(part, seq!['%']) {
                seq!['%', '2', '0']
            } else {
                seq![]
            };
            assemble(acc + space + part, rest.drop_first())
        } else {
            acc
        }
    }
}

/// The magnet link put back together from the words that follow `magnet:?`,
/// before it is tested for an exact topic.
pub open spec fn assembled_link(text: Seq<char>, lowered: Seq<char>) -> Option<Seq<char>> {
    match offset_after_marker(text, lowered, magnet_marker(), 0) {
        None => None,
        Some(k) => {
            let parts = words(text.skip(k));
            if parts.len() == 0 {
                None
            } else {
                Some(assemble(parts[0], parts.drop_first()))
            }
        },
    }
}

/// The clean magnet link found in `text`, given a lower-cased copy of it.
pub open spec fn clean_magnet(text: Seq<char>, lowered: Seq<char>) -> Option<Seq<char>> {
    match assembled_link(text, lowered) {
        Some(link) => if contains(lowercase(link), xt_urn()) {
            Some(link)
        } else {
            None
        },
        None => None,
    }
}

/// No character of `s` is whitespace.
pub open spec fn no_whitespace(s: Seq<char>) -> bool {
    forall|i: int| 0 <= i < s.len() ==> !is_whitespace(#[trigger] s[i])
}

/// A text whose first `m` characters are not whitespace has a first word
/// of at least `m` characters.
proof fn lemma_word_len_at_least(s: Seq<char>, m: int)
    requires
        0 <= m <= s.len(),
        forall|i: int| 0 <= i < m ==> !is_whitespace(#[trigger] s[i]),
    ensures
        word_len(s) >= m,
    decreases m,
{
    if m > 0 {
        assert forall|i: int| 0 <= i < m - 1 implies !is_whitespace(#[trigger] s.drop_first()[i]) by {
            assert(s.drop_first()[i] == s[i + 1]);
        }
        lemma_word_len_at_least(s.drop_first(), m - 1);
    }
}

/// The first word of a text holds no whitespace.
proof fn lemma_first_word(s: Seq<char>)
    ensures
        word_len(s) <= s.len(),
        no_whitespace(s.take(word_len(s) as int)),
    decreases s.len(),
{
    lemma_word_len_bound(s);
    if s.len() > 0 && !is_whitespace(s[0]) {
        lemma_first_word(s.drop_first());
        let n = word_len(s) as int;
        assert forall|i: int| 0 <= i < n implies !is_whitespace(#[trigger] s.take(n)[i]) by {
            if i > 0 {
                assert(s.take(n)[i] == s.drop_first().take(n - 1)[i - 1]);
            }
        }
    }
}

/// Every word of a text is non-empty and holds no whitespace.
proof fn lemma_words_clean(s: Seq<char>)
    ensures
        forall|i: int| 0 <= i < words(s).len() ==> #[trigger] words(s)[i].len() > 0 && no_whitespace(words(s)[i]),
    decreases s.len(),
{
    if s.len() > 0 {
        if is_whitespace(s[0]) {
            lemma_words_clean(s.drop_first());
            assert(words(s) == words(s.drop_first()));
        } else {
            let n = word_len(s);
            lemma_word_len_bound(s);
            lemma_first_word(s);
            lemma_words_clean(s.skip(n as int));
            let ws = words(s);
            assert(ws == seq![s.take(n as int)] + words(s.skip(n as int)));
            assert(ws[0] == s.take(n as int));
            assert forall|i: int| 0 <= i < ws.len() implies #[trigger] ws[i].len() > 0 && no_whitespace(ws[i]) by {
                if i > 0 {
                    assert(ws[i] == words(s.skip(n as int))[i - 1]);
                }
            }
        }
    }
}

/// A non-empty text without whitespace is one word.
proof fn lemma_one_word(s: Seq<char>)
    requires
        s.len() > 0,
        no_whitespace(s),
    ensures
        words(s) == seq![s],
{
    assert(forall|m: int| 0 <= m < s.len() ==> !is_whitespace(#[trigger] s[m]));
    lemma_word_len_run(s, 0, s.len() as int);
    assert(s.skip(0) == s);
    assert(!is_whitespace(s[0]));
    assert(word_len(s) == s.len());
    assert(s.take(s.len() as int) == s);
    assert(s.skip(s.len() as int) == Seq::<char>::empty());
    assert(words(Seq::<char>::empty()) == Seq::<Seq<char>>::empty());
    assert(words(s) == seq![s.take(s.len() as int)] + words(s.skip(s.len() as int)));
}

/// Joining words onto a link keeps the link as its start, and adds no
/// whitespace where the link and the words hold none.
proof fn lemma_assemble(acc: Seq<char>, rest: Seq<Seq<char>>)
    ensures
        assemble(acc, rest).len() >= acc.len(),
        assemble(acc, rest).take(acc.len() as int) == acc,
        no_whitespace(acc) && (forall|i: int| 0 <= i < rest.len() ==> no_whitespace(#[trigger] rest[i]))
            ==> no_whitespace(assemble(acc, rest)),
    decreases rest.len(),
{
    if rest.len() > 0 {
        let part = rest[0];
        let tail = rest.drop_first();
        assert forall|i: int| 0 <= i < tail.len() implies #[trigger] tail[i] == rest[i + 1] by {}
        if spec_starts_parameter(part) || is_tracker_url(part) {
            let sep: Seq<char> = if !starts_with(part, seq!['&']) && !ends_with(acc, seq!['&'])
                && !ends_with(acc, seq!['?']) {
                seq!['&']
            } else {
                seq![]
            };
            let a2 = acc + sep + part;
            lemma_assemble(a2, tail);
            assert(a2.take(acc.len() as int) =~= acc);
            assert(assemble(acc, rest).take(acc.len() as int) =~= assemble(a2, tail).take(a2.len() as int).take(acc.len() as int));
            if no_whitespace(acc) && (forall|i: int| 0 <= i < rest.len() ==> no_whitespace(#[trigger] rest[i])) {
                assert(no_whitespace(rest[0]));
                assert forall|i: int| 0 <= i < a2.len() implies !is_whitespace(#[trigger] a2[i]) by {
                    if i < acc.len() {
                        assert(a2[i] == acc[i]);
                    } else if i < acc.len() + sep.len() {
                        assert(a2[i] == sep[i - acc.len()]);
                    } else {
                        assert(a2[i] == part[i - acc.len() - sep.len()]);
                    }
                }
                assert forall|i: int| 0 <= i < tail.len() implies no_whitespace(#[trigger] tail[i]) by {
                    assert(no_whitespace(rest[i + 1]));
                }
            }
        } else if spec_is_dn_active(acc) {
            let space: Seq<char> = if !ends_with(acc, seq!['%']) && !starts_with(part, seq!['%']) {
                seq!['%', '2', '0']
            } else {
                seq![]
            };
            let a2 = acc + space + part;
            lemma_assemble(a2, tail);
            assert(a2.take(acc.len() as int) =~= acc);
            assert(assemble(acc, rest).take(acc.len() as int) =~= assemble(a2, tail).take(a2.len() as int).take(acc.len() as int));
            if no_whitespace(acc) && (forall|i: int| 0 <= i < rest.len() ==> no_whitespace(#[trigger] rest[i])) {
                assert(no_whitespace(rest[0]));
                assert forall|i: int| 0 <= i < a2.len() implies !is_whitespace(#[trigger] a2[i]) by {
                    if i < acc.len() {
                        assert(a2[i] == acc[i]);
                    } else if i < acc.len() + space.len() {
                        assert(a2[i] == space[i - acc.len()]);
                    } else {
                        assert(a2[i] == part[i - acc.len() - space.len()]);
                    }
                }
                assert forall|i: int| 0 <= i < tail.len() implies no_whitespace(#[trigger] tail[i]) by {
                    assert(no_whitespace(rest[i + 1]));
                }
            }
        } else {
            assert(acc.take(acc.len() as int) =~= acc);
        }
    } else {
        assert(acc.take(acc.len() as int) =~= acc);
    }
}

/// Every word of an ASCII text is ASCII.
proof fn lemma_words_ascii(s: Seq<char>)
    requires
        is_ascii(s),
    ensures
        forall|i: int| 0 <= i < words(s).len() ==> is_ascii(#[trigger] words(s)[i]),
    decreases s.len(),
{
    if s.len() > 0 {
        if is_whitespace(s[0]) {
            assert(is_ascii(s.drop_first())) by {
                assert forall|i: int| 0 <= i < s.drop_first().len() implies (#[trigger] s.drop_first()[i] as u32) < 128 by {
                    assert(s.drop_first()[i] == s[i + 1]);
                }
            }
            lemma_words_ascii(s.drop_first());
            assert(words(s) == words(s.drop_first()));
        } else {
            let n = word_len(s) as int;
            lemma_word_len_bound(s);
            assert(is_ascii(s.skip(n))) by {
                assert forall|i: int| 0 <= i < s.skip(n).len() implies (#[trigger] s.skip(n)[i] as u32) < 128 by {
                    assert(s.skip(n)[i] == s[i + n]);
                }
            }
            assert(is_ascii(s.take(n))) by {
                assert forall|i: int| 0 <= i < s.take(n).len() implies (#[trigger] s.take(n)[i] as u32) < 128 by {
                    assert(s.take(n)[i] == s[i]);
                }
            }
            lemma_words_ascii(s.skip(n));
            let ws = words(s);
            assert(ws == seq![s.take(n)] + words(s.skip(n)));
            assert forall|i: int| 0 <= i < ws.len() implies is_ascii(#[trigger] ws[i]) by {
                if i > 0 {
                    assert(ws[i] == words(s.skip(n))[i - 1]);
                } else {
                    assert(ws[0] == s.take(n));
                }
            }
        }
    }
}

/// Joining ASCII words onto an ASCII link gives an ASCII link: the
/// separators `&` and `%20` are ASCII.
proof fn lemma_assemble_ascii(acc: Seq<char>, rest: Seq<Seq<char>>)
    requires
        is_ascii(acc),
        forall|i: int| 0 <= i < rest.len() ==> is_ascii(#[trigger] rest[i]),
    ensures
        is_ascii(assemble(acc, rest)),
    decreases rest.len(),
{
    if rest.len() > 0 {
        let part = rest[0];
        let tail = rest.drop_first();
        assert(is_ascii(part));
        assert forall|i: int| 0 <= i < tail.len() implies is_ascii(#[trigger] tail[i]) by {
            assert(tail[i] == rest[i + 1]);
        }
        if spec_starts_parameter(part) || is_tracker_url(part) {
            let sep: Seq<char> = if !starts_with(part, seq!['&']) && !ends_with(acc, seq!['&'])
                && !ends_with(acc, seq!['?']) {
                seq!['&']
            } else {
                seq![]
            };
            let a2 = acc + sep + part;
            assert forall|i: int| 0 <= i < a2.len() implies (#[trigger] a2[i] as u32) < 128 by {
                if i < acc.len() {
                    assert(a2[i] == acc[i]);
                } else if i < acc.len() + sep.len() {
                    assert(a2[i] == sep[i - acc.len()]);
                } else {
                    assert(a2[i] == part[i - acc.len() - sep.len()]);
                }
            }
            lemma_assemble_ascii(a2, tail);
        } else if spec_is_dn_active(acc) {
            let space: Seq<char> = if !ends_with(acc, seq!['%']) && !starts_with(part, seq!['%']) {
                seq!['%', '2', '0']
            } else {
                seq![]
            };
            let a2 = acc + space + part;
            assert forall|i: int| 0 <= i < a2.len() implies (#[trigger] a2[i] as u32) < 128 by {
                if i < acc.len() {
                    assert(a2[i] == acc[i]);
                } else if i < acc.len() + space.len() {
                    assert(a2[i] == space[i - acc.len()]);
                } else {
                    assert(a2[i] == part[i - acc.len() - space.len()]);
                }
            }
            lemma_assemble_ascii(a2, tail);
        }
    }
}

/// On ASCII text, the clean magnet link is ASCII, holds no whitespace,
/// starts with `magnet:?` in some mix of cases, and cleaning it again gives
/// it back.
pub proof fn lemma_clean_magnet_idempotent(text: Seq<char>)
    requires
        is_ascii(text),
        clean_magnet(text, ascii_lower(text)) is Some,
    ensures
        ({
            let r = clean_magnet(text, ascii_lower(text))->0;
            &&& is_ascii(r)
            &&& no_whitespace(r)
            &&& r.len() >= 8
            &&& ascii_lower(r).take(8) == magnet_marker()
            &&& clean_magnet(r, ascii_lower(r)) == Some(r)
        }),
{
    let low = ascii_lower(text);
    let marker = magnet_marker();
    lemma_ascii_lower(text);
    lemma_find_from_first_bound(low, marker, 0);
    let j = find(low, marker)->0;
    assert(matches_at(low, marker, j));
    assert(is_ascii(low.take(j))) by {
        assert forall|i: int| 0 <= i < low.take(j).len() implies (#[trigger] low.take(j)[i] as u32) < 128 by {
            assert(low.take(j)[i] == low[i]);
        }
    }
    lemma_utf8_len_ascii(low.take(j));
    assert(is_ascii(text.take(j))) by {
        assert forall|i: int| 0 <= i < text.take(j).len() implies (#[trigger] text.take(j)[i] as u32) < 128 by {
            assert(text.take(j)[i] == text[i]);
        }
    }
    lemma_utf8_len_ascii(text.take(j));
    lemma_char_index_of_byte_unique(text, j, j);
    assert(offset_after_marker(text, low, marker, 0) == Some(j));
    let t2 = text.skip(j);
    assert forall|m: int| 0 <= m < 8 implies !is_whitespace(#[trigger] t2[m]) by {
        assert(t2[m] == text[j + m]);
        assert(low[j + m] == marker[m]);
        let c = text[j + m];
        if 'A' <= c && c <= 'Z' {
        } else {
            assert(low[j + m] == c);
        }
    }
    lemma_word_len_at_least(t2, 8);
    lemma_word_len_bound(t2);
    let parts = words(t2);
    let n = word_len(t2);
    assert(parts == seq![t2.take(n as int)] + words(t2.skip(n as int)));
    lemma_words_clean(t2);
    let r = assemble(parts[0], parts.drop_first());
    assert forall|i: int| 0 <= i < parts.drop_first().len() implies no_whitespace(#[trigger] parts.drop_first()[i]) by {
        assert(parts.drop_first()[i] == parts[i + 1]);
    }
    lemma_assemble(parts[0], parts.drop_first());
    assert(is_ascii(t2)) by {
        assert forall|i: int| 0 <= i < t2.len() implies (#[trigger] t2[i] as u32) < 128 by {
            assert(t2[i] == text[i + j]);
        }
    }
    lemma_words_ascii(t2);
    assert forall|i: int| 0 <= i < parts.drop_first().len() implies is_ascii(#[trigger] parts.drop_first()[i]) by {
        assert(parts.drop_first()[i] == parts[i + 1]);
    }
    lemma_assemble_ascii(parts[0], parts.drop_first());
    assert(clean_magnet(text, low) == Some(r));
    assert forall|m: int| 0 <= m < 8 implies #[trigger] r[m] == text[j + m] by {
        assert(r[m] == r.take(parts[0].len() as int)[m]);
        assert(parts[0][m] == t2[m]);
    }
    let lr = ascii_lower(r);
    assert(lr.take(8) =~= marker) by {
        assert forall|m: int| 0 <= m < 8 implies lr.take(8)[m] == marker[m] by {
            assert(lr[m] == low[j + m]);
        }
    }
    assert(matches_at(lr, marker, 0)) by {
        assert(lr.subrange(0, 8) =~= lr.take(8));
    }
    assert(find(lr, marker) == Some(0int));
    assert(lr.take(0) =~= Seq::<char>::empty());
    assert(r.take(0) =~= Seq::<char>::empty());
    lemma_char_index_of_byte_unique(r, 0, 0);
    assert(offset_after_marker(r, lr, marker, 0) == Some(0int));
    assert(r.skip(0) =~= r);
    lemma_one_word(r);
    assert(seq![r].drop_first() =~= Seq::<Seq<char>>::empty());
    assert(assembled_link(r, lr) == Some(r));
}

fn btih_marker_chars() -> (r: Vec<char>)
    ensures
        r@ == btih_marker(),
{
    vec!['x', 't', '=', 'u', 'r', 'n', ':', 'b', 't', 'i', 'h', ':']
}

fn magnet_marker_chars() -> (r: Vec<char>)
    ensures
        r@ == magnet_marker(),
{
    vec!['m', 'a', 'g', 'n', 'e', 't', ':', '?']
}

/// The position in `text` just after where `marker` occurs in `lowered`,
/// `extra` bytes on, where that position is a character boundary.
fn offset_after_marker_exec(text: &Vec<char>, lowered: &Vec<char>, marker: &Vec<char>, extra: u128) -> (r: (bool, Option<usize>))
    requires
        extra <= 16,
    ensures
        r.0 == (find(lowered@, marker@) is Some),
        match r.1 {
            Some(k) => offset_after_marker(text@, lowered@, marker@, extra as int) == Some(k as int),
            None => offset_after_marker(text@, lowered@, marker@, extra as int) is None,
        },
{
    match chars_find(lowered, marker) {
        None => (false, None),
        Some(j) => {
            let b = utf8_len_prefix(lowered, j) + extra;
            (true, char_index_of_byte_exec(text, b))
        },
    }
}

/// The characters of `s` before its first `&`.
fn before_ampersand_exec(s: &Vec<char>) -> (r: Vec<char>)
    ensures
        r@ == before_ampersand(s@),
{
    let amp = vec!['&'];
    assert(amp@ == seq!['&']);
    match chars_find(s, &amp) {
        Some(e) => {
            proof {
                lemma_find_from_first_bound(s@, seq!['&'], 0);
            }
            sub_chars(s, 0, e)
        },
        None => {
            let r = sub_chars(s, 0, s.len());
            assert(s@.subrange(0, s@.len() as int) == s@);
            r
        },
    }
}

/// The info-hash of a magnet link, given a lower-cased copy of it, where
/// slicing at the offset found in the copy does not panic.
pub fn hash_in_magnet(magnet: &str, lowered: &str) -> (r: Option<String>)
    requires
        marker_slice_ok(magnet@, lowered@, btih_marker(), 12),
    ensures
        match r {
            Some(h) => magnet_hash(magnet@, lowered@) == Some(h@),
            None => magnet_hash(magnet@, lowered@) is None,
        },
{
    let text = chars_of(magnet);
    let low = chars_of(lowered);
    let marker = btih_marker_chars();
    let (_, off) = offset_after_marker_exec(&text, &low, &marker, 12);
    match off {
        None => None,
        Some(k) => {
            let rest = sub_chars(&text, k, text.len());
            assert(rest@ == magnet@.skip(k as int));
            let h = before_ampersand_exec(&rest);
            Some(string_of(&h))
        },
    }
}

/// What `extract_hash_from_magnet` gives for a text.
pub open spec fn extracted_hash(magnet: Seq<char>) -> Option<Seq<char>> {
    if marker_slice_ok(magnet, lowercase(magnet), btih_marker(), 12) {
        magnet_hash(magnet, lowercase(magnet))
    } else {
        None
    }
}

/// Whether the info-hash of `magnet` can be cut out: the marker is absent,
/// or the offset past it found in the lower-cased text is a character
/// boundary of `magnet` (else cutting there panics).
pub fn magnet_hash_sliceable(magnet: &str) -> (r: bool)
    ensures
        r == marker_slice_ok(magnet@, lowercase(magnet@), btih_marker(), 12),
{
    let lower = to_lowercase(magnet);
    let (found, off) = offset_after_marker_exec(&chars_of(magnet), &chars_of(lower.as_str()), &btih_marker_chars(), 12);
    !found || off.is_some()
}

/// An ASCII text, with its ASCII lower-cased copy, can always be cut at the
/// offsets found in that copy: the `requires` of `extract_hash_from_magnet`
/// and `extract_clean_magnet` hold of every ASCII text.
pub proof fn lemma_ascii_magnet_sliceable(text: Seq<char>)
    requires
        is_ascii(text),
    ensures
        marker_slice_ok(text, ascii_lower(text), btih_marker(), 12),
        marker_slice_ok(text, ascii_lower(text), magnet_marker(), 0),
{
    let low = ascii_lower(text);
    lemma_ascii_lower(text);
    lemma_find_from_first_bound(low, btih_marker(), 0);
    lemma_find_from_first_bound(low, magnet_marker(), 0);
    if find(low, btih_marker()) is Some {
        let j = find(low, btih_marker())->0;
        assert(is_ascii(low.take(j))) by {
            assert forall|i: int| 0 <= i < low.take(j).len() implies (#[trigger] low.take(j)[i] as u32) < 128 by {
                assert(low.take(j)[i] == low[i]);
            }
        }
        lemma_utf8_len_ascii(low.take(j));
        lemma_ascii_char_index(text, j + 12);
    }
    if find(low, magnet_marker()) is Some {
        let j = find(low, magnet_marker())->0;
        assert(is_ascii(low.take(j))) by {
            assert forall|i: int| 0 <= i < low.take(j).len() implies (#[trigger] low.take(j)[i] as u32) < 128 by {
                assert(low.take(j)[i] == low[i]);
            }
        }
        lemma_utf8_len_ascii(low.take(j));
        lemma_ascii_char_index(text, j);
    }
}

/// The info-hash of a magnet link: what follows `xt=urn:btih:` (found without
/// regard to case) up to the next `&`.  The text is cut at the byte offset
/// found in its lower-cased copy; where that offset is not a character
/// boundary of the text, cutting panics, so those texts are left out (an
/// ASCII text is always cut cleanly).
pub fn extract_hash_from_magnet(magnet: &str) -> (r: Option<String>)
    requires
        is_ascii(magnet@) || marker_slice_ok(magnet@, lowercase(magnet@), btih_marker(), 12),
    ensures
        match r {
            Some(h) => magnet_hash(magnet@, lowercase(magnet@)) == Some(h@),
            None => magnet_hash(magnet@, lowercase(magnet@)) is None,
        },
        r.deep_view() == extracted_hash(magnet@),
        is_ascii(magnet@) ==> r.deep_view() == magnet_hash(magnet@, ascii_lower(magnet@)),
{
    let lower = to_lowercase(magnet);
    proof {
        if is_ascii(magnet@) {
            lemma_ascii_magnet_sliceable(magnet@);
        }
    }
    hash_in_magnet(magnet, lower.as_str())
}

/// The info-hash of a magnet link where it can be cut out without a panic:
/// `Some` of what `extract_hash_from_magnet` gives, `None` where the offset
/// found in the lower-cased text is not a character boundary of `magnet`.
pub fn try_extract_hash_from_magnet(magnet: &str) -> (r: Option<Option<String>>)
    ensures
        match r {
            Some(h) => marker_slice_ok(magnet@, lowercase(magnet@), btih_marker(), 12)
                && h.deep_view() == extracted_hash(magnet@),
            None => !marker_slice_ok(magnet@, lowercase(magnet@), btih_marker(), 12),
        },
{
    if magnet_hash_sliceable(magnet) {
        Some(extract_hash_from_magnet(magnet))
    } else {
        None
    }
}

/// The `i`-th key that starts a magnet-link parameter.
fn parameter_key(i: usize) -> (r: Vec<char>)
    requires
        i < 8,
    ensures
        r@ == parameter_keys()[i as int],
{
    match i {
        0 => vec!['x', 't', '='],
        1 => vec!['d', 'n', '='],
        2 => vec!['t', 'r', '='],
        3 => vec!['x', 'l', '='],
        4 => vec!['k', 't', '='],
        5 => vec!['w', 's', '='],
        6 => vec!['a', 's', '='],
        _ => vec!['x', 's', '='],
    }
}

/// Whether a piece of text starts a new magnet-link parameter.
pub fn starts_parameter(part: &Vec<char>) -> (r: bool)
    ensures
        r == spec_starts_parameter(part@),
{
    let amp = vec!['&'];
    assert(amp@ == seq!['&']);
    let q = vec!['?'];
    assert(q@ == seq!['?']);
    if chars_starts_with(part, &amp) {
        return true;
    }
    if chars_starts_with(part, &q) {
        return true;
    }
    let mut i: usize = 0;
    while i < 8
        invariant
            i <= 8,
            forall|m: int| 0 <= m < i ==> !starts_with(part@, #[trigger] parameter_keys()[m]),
        decreases 8 - i,
    {
        let key = parameter_key(i);
        if chars_starts_with(part, &key) {
            return true;
        }
        i = i + 1;
    }
    false
}

/// Whether a piece of text is a tracker URL.
fn tracker_url(part: &Vec<char>) -> (r: bool)
    ensures
        r == is_tracker_url(part@),
{
    let http = vec!['h', 't', 't', 'p', ':', '/', '/'];
    let https = vec!['h', 't', 't', 'p', 's', ':', '/', '/'];
    let udp = vec!['u', 'd', 'p', ':', '/', '/'];
    let wss = vec!['w', 's', 's', ':', '/', '/'];
    assert(http@ == seq!['h', 't', 't', 'p', ':', '/', '/']);
    assert(https@ == seq!['h', 't', 't', 'p', 's', ':', '/', '/']);
    assert(udp@ == seq!['u', 'd', 'p', ':', '/', '/']);
    assert(wss@ == seq!['w', 's', 's', ':', '/', '/']);
    chars_starts_with(part, &http) || chars_starts_with(part, &https) || chars_starts_with(part, &udp)
        || chars_starts_with(part, &wss)
}

/// Whether the value being written at the end of `link` is its display name.
pub fn is_dn_active(link: &Vec<char>) -> (r: bool)
    ensures
        r == spec_is_dn_active(link@),
{
    match chars_rfind_before(link, '=', link.len()) {
        None => false,
        Some(e) => {
            proof {
                lemma_rfind_char_before_bound(link@, '=', link@.len() as int);
            }
            let prefix = sub_chars(link, 0, e);
            assert(prefix@ == link@.take(e as int));
            let sep = match chars_rfind_before(&prefix, '&', prefix.len()) {
                Some(a) => Some(a),
                None => chars_rfind_before(&prefix, '?', prefix.len()),
            };
            match sep {
                Some(a) => {
                    proof {
                        lemma_rfind_char_before_bound(prefix@, '&', prefix@.len() as int);
                        lemma_rfind_char_before_bound(prefix@, '?', prefix@.len() as int);
                    }
                    let key = sub_chars(&prefix, a + 1, prefix.len());
                    assert(key@ == prefix@.skip(a + 1));
                    key.len() == 2 && key[0] == 'd' && key[1] == 'n' && {
                        assert(key@ == seq!['d', 'n']);
                        true
                    }
                },
                None => false,
            }
        },
    }
}

/// Builds the magnet link from its first word and the words after it.
fn assemble_exec(first: &Vec<char>, parts: &Vec<Vec<char>>) -> (r: Vec<char>)
    requires
        parts.len() >= 1,
        parts@[0]@ == first@,
    ensures
        r@ == assemble(first@, parts@.map_values(|w: Vec<char>| w@).drop_first()),
{
    let ghost all = parts@.map_values(|w: Vec<char>| w@);
    let mut link: Vec<char> = Vec::new();
    push_all(&mut link, first);
    let mut i: usize = 1;
    assert(all.skip(1) == all.drop_first());
    while i < parts.len()
        invariant
            1 <= i <= parts.len(),
            all == parts@.map_values(|w: Vec<char>| w@),
            assemble(link@, all.skip(i as int)) == assemble(first@, all.drop_first()),
        decreases parts.len() - i,
    {
        let part = &parts[i];
        let ghost before = link@;
        assert(all.skip(i as int)[0] == part@);
        assert(all.skip(i as int).drop_first() == all.skip(i + 1));
        if starts_parameter(part) || tracker_url(part) {
            let amp = vec!['&'];
            assert(amp@ == seq!['&']);
            let q = vec!['?'];
            assert(q@ == seq!['?']);
            let ghost sep: Seq<char> = if !starts_with(part@, seq!['&']) && !ends_with(before, seq!['&'])
                && !ends_with(before, seq!['?']) {
                seq!['&']
            } else {
                seq![]
            };
            if !chars_starts_with(part, &amp) && !chars_ends_with(&link, &amp)
                && !chars_ends_with(&link, &q) {
                link.push('&');
            }
            assert(link@ == before + sep);
            push_all(&mut link, part);
            assert(link@ == before + sep + part@);
        } else if is_dn_active(&link) {
            let pct = vec!['%'];
            assert(pct@ == seq!['%']);
            let ghost space: Seq<char> = if !ends_with(before, seq!['%']) && !starts_with(part@, seq!['%']) {
                seq!['%', '2', '0']
            } else {
                seq![]
            };
            if !chars_ends_with(&link, &pct) && !chars_starts_with(part, &pct) {
                link.push('%');
                link.push('2');
                link.push('0');
            }
            assert(link@ == before + space);
            push_all(&mut link, part);
            assert(link@ == before + space + part@);
        } else {
            return link;
        }
        i = i + 1;
    }
    assert(all.skip(i as int) == Seq::<Seq<char>>::empty());
    link
}

/// The clean magnet link in `text`, given a lower-cased copy of it, where
/// slicing at the offset found in the copy does not panic.
pub fn clean_magnet_in(text: &str, lowered: &str) -> (r: Option<String>)
    requires
        marker_slice_ok(text@, lowered@, magnet_marker(), 0),
    ensures
        match r {
            Some(m) => clean_magnet(text@, lowered@) == Some(m@),
            None => clean_magnet(text@, lowered@) is None,
        },
{
    let t = chars_of(text);
    let low = chars_of(lowered);
    let marker = magnet_marker_chars();
    let (_, off) = offset_after_marker_exec(&t, &low, &marker, 0);
    match off {
        None => None,
        Some(k) => {
            let rest = sub_chars(&t, k, t.len());
            assert(rest@ == text@.skip(k as int));
            let parts = split_words(&rest);
            if parts.len() == 0 {
                return None;
            }
            let first = sub_chars(&parts[0], 0, parts[0].len());
            assert(first@ == parts@[0]@);
            let link = assemble_exec(&first, &parts);
            let link_str = string_of(&link);
            let low_link = to_lowercase(link_str.as_str());
            let low_chars = chars_of(low_link.as_str());
            let xt = vec!['x', 't', '=', 'u', 'r', 'n', ':'];
            assert(xt@ == seq!['x', 't', '=', 'u', 'r', 'n', ':']);
            if chars_contains(&low_chars, &xt) {
                Some(link_str)
            } else {
                None
            }
        },
    }
}

/// Extracts a magnet link from free text: from `magnet:?` (found without regard
/// to case), the whitespace-separated words are joined back into one link
/// (parameters and trackers with `&`, display-name words with `%20`) up to the
/// first word that belongs to neither; the link is returned where it carries
/// `xt=urn:`.  The text is cut at the byte offset of `magnet:?` found in
/// its lower-cased copy; where that offset is not a character boundary of the
/// text, cutting panics, so those texts are left out (an ASCII text is
/// always cut cleanly).
pub fn extract_clean_magnet(text: &str) -> (r: Option<String>)
    requires
        is_ascii(text@) || marker_slice_ok(text@, lowercase(text@), magnet_marker(), 0),
    ensures
        match r {
            Some(m) => clean_magnet(text@, lowercase(text@)) == Some(m@),
            None => clean_magnet(text@, lowercase(text@)) is None,
        },
        is_ascii(text@) ==> r.deep_view() == clean_magnet(text@, ascii_lower(text@)),
        is_ascii(text@) ==> (r matches Some(m) ==> is_ascii(m@)),
{
    let lower = to_lowercase(text);
    proof {
        if is_ascii(text@) {
            lemma_ascii_magnet_sliceable(text@);
        }
    }
    let r = clean_magnet_in(text, lower.as_str());
    proof {
        if is_ascii(text@) && r is Some {
            lemma_clean_magnet_idempotent(text@);
        }
    }
    r
}

/// Whether a magnet link can be cut out of `text`: `magnet:?` is absent, or
/// its offset found in the lower-cased text is a character boundary of
/// `text` (else cutting there panics).
pub fn magnet_text_sliceable(text: &str) -> (r: bool)
    ensures
        r == marker_slice_ok(text@, lowercase(text@), magnet_marker(), 0),
{
    let lower = to_lowercase(text);
    let (found, off) = offset_after_marker_exec(&chars_of(text), &chars_of(lower.as_str()), &magnet_marker_chars(), 0);
    !found || off.is_some()
}

/// The clean magnet link in `text` where it can be cut out without a panic:
/// `Some` of what `extract_clean_magnet` gives, `None` where the offset of
/// `magnet:?` found in the lower-cased text is not a character boundary of
/// `text`.
pub fn try_extract_clean_magnet(text: &str) -> (r: Option<Option<String>>)
    ensures
        match r {
            Some(m) => marker_slice_ok(text@, lowercase(text@), magnet_marker(), 0)
                && m.deep_view() == clean_magnet(text@, lowercase(text@)),
            None => !marker_slice_ok(text@, lowercase(text@), magnet_marker(), 0),
        },
{
    if magnet_text_sliceable(text) {
        Some(extract_clean_magnet(text))
    } else {
        None
    }
}

// ---------------------------------------------------------------------------
// CPU temperature
// ---------------------------------------------------------------------------

/// `t / 1000`, rounded toward zero.
pub open spec fn thousandths_truncated(t: int) -> int {
    if t >= 0 {
        t / 1000
    } else {
        -((-t) / 1000)
    }
}

/// The CPU temperature in whole degrees, from the contents of the thermal
/// zone's file (millidegrees): the trimmed text parsed as an `i64` and
/// divided by 1000, or `N/A` where the file could not be read or does not
/// hold such a number.
pub open spec fn cpu_temp_of(content: Option<Seq<char>>) -> Seq<char> {
    match content {
        Some(c) => match parse_signed(trim_ws(c), i64::MIN as int, i64::MAX as int) {
            Some(t) => signed_decimal(thousandths_truncated(t)),
            None => "N/A"@,
        },
        None => "N/A"@,
    }
}

/// The CPU temperature text from the thermal zone's file contents, where
/// they could be read.
pub fn cpu_temp_text(content: Option<&str>) -> (r: String)
    ensures
        r@ == cpu_temp_of(match content {
            Some(c) => Some(c@),
            None => None,
        }),
{
    match content {
        Some(c) => {
            let t = trim_whitespace(&chars_of(c));
            match parse_signed_chars(&t, i64::MIN, i64::MAX) {
                Some(v) => {
                    let m: u64 = if v >= 0 {
                        v as u64
                    } else {
                        (-(v as i128)) as u64
                    };
                    let q: u64 = m / 1000;
                    assert(q <= 0x7FFF_FFFF_FFFF_FFFFu64 / 1000 + 1);
                    let d: i64 = if v >= 0 {
                        q as i64
                    } else {
                        -(q as i64)
                    };
                    let out = signed_decimal_chars(d);
                    string_of(&out)
                },
                None => String::from_str("N/A"),
            }
        },
        None => String::from_str("N/A"),
    }
}

// ---------------------------------------------------------------------------
// Markdown and URLs
// ---------------------------------------------------------------------------

/// The characters that Telegram's MarkdownV2 reserves.
pub open spec fn is_markdown_special(c: char) -> bool {
    c == '_' || c == '*' || c == '[' || c == ']' || c == '(' || c == ')' || c == '~' || c == '`'
        || c == '>' || c == '#' || c == '+' || c == '-' || c == '=' || c == '|' || c == '{' || c
        == '}' || c == '.' || c == '!'
}

/// `s` with a backslash before each reserved character.
pub open spec fn markdown_escaped(s: Seq<char>) -> Seq<char>
    decreases s.len(),
{
    if s.len() == 0 {
        seq![]
    } else {
        let c = s.last();
        markdown_escaped(s.drop_last()) + if is_markdown_special(c) {
            seq!['\\', c]
        } else {
            seq![c]
        }
    }
}

/// Escapes the characters that Telegram's MarkdownV2 reserves.
pub fn escape_markdown(text: &str) -> (r: String)
    ensures
        r@ == markdown_escaped(text@),
{
    let v = chars_of(text);
    let mut out: Vec<char> = Vec::new();
    let mut i: usize = 0;
    while i < v.len()
        invariant
            i <= v.len(),
            out@ == markdown_escaped(v@.take(i as int)),
        decreases v.len() - i,
    {
        let c = v[i];
        assert(v@.take(i + 1).drop_last() == v@.take(i as int));
        if c == '_' || c == '*' || c == '[' || c == ']' || c == '(' || c == ')' || c == '~' || c
            == '`' || c == '>' || c == '#' || c == '+' || c == '-' || c == '=' || c == '|' || c
            == '{' || c == '}' || c == '.' || c == '!' {
            out.push('\\');
        }
        out.push(c);
        i = i + 1;
    }
    assert(v@.take(v.len() as int) == v@);
    string_of(&out)
}

/// The bytes that percent-encoding leaves as they are.
pub open spec fn is_unreserved(b: u8) -> bool {
    (65 <= b <= 90) || (97 <= b <= 122) || (48 <= b <= 57) || b == 45 || b == 95 || b == 46
        || b == 126 || b == 47
}

/// The percent-encoding of a byte sequence, with upper-case hexadecimal digits.
pub open spec fn percent_encoded(bytes: Seq<u8>) -> Seq<char>
    decreases bytes.len(),
{
    if bytes.len() == 0 {
        seq![]
    } else {
        let b = bytes.last();
        percent_encoded(bytes.drop_last()) + if is_unreserved(b) {
            seq![b as char]
        } else {
            seq!['%', hex_upper((b / 16) as int), hex_upper((b % 16) as int)]
        }
    }
}

/// The value of a hexadecimal digit (either case); 0 for another character.
pub open spec fn hex_value(c: char) -> int {
    if '0' <= c && c <= '9' {
        (c as u32) - ('0' as u32)
    } else if 'A' <= c && c <= 'F' {
        (c as u32) - ('A' as u32) + 10
    } else if 'a' <= c && c <= 'f' {
        (c as u32) - ('a' as u32) + 10
    } else {
        0
    }
}

/// Percent-decoding of an ASCII text, from the left: `%` and two
/// hexadecimal digits give the byte they write, any other character its
/// own code.
pub open spec fn percent_decoded(s: Seq<char>) -> Seq<u8>
    decreases s.len(),
{
    if s.len() == 0 {
        seq![]
    } else if s[0] == '%' && s.len() >= 3 {
        seq![(hex_value(s[1]) * 16 + hex_value(s[2])) as u8] + percent_decoded(s.skip(3))
    } else {
        seq![s[0] as u8] + percent_decoded(s.skip(1))
    }
}

/// An upper-case hexadecimal digit reads back as its value.
pub proof fn lemma_hex_upper_value(d: int)
    requires
        0 <= d < 16,
    ensures
        hex_value(hex_upper(d)) == d,
        (hex_upper(d) as u32) < 128,
{
    if d < 10 {
        assert(((('0' as u32) + d) as char) as u32 == ('0' as u32) + d);
    } else {
        assert(((('A' as u32) + (d - 10)) as char) as u32 == ('A' as u32) + (d - 10));
    }
}

/// Decoding an encoding followed by more text gives the bytes, then what
/// the rest decodes to.
pub proof fn lemma_percent_decode_append(bytes: Seq<u8>, rest: Seq<char>)
    ensures
        percent_decoded(percent_encoded(bytes) + rest) == bytes + percent_decoded(rest),
    decreases bytes.len(),
{
    if bytes.len() == 0 {
        assert(percent_encoded(bytes) + rest =~= rest);
        assert(bytes + percent_decoded(rest) =~= percent_decoded(rest));
    } else {
        let b = bytes.last();
        let pre = bytes.drop_last();
        let item: Seq<char> = if is_unreserved(b) {
            seq![b as char]
        } else {
            seq!['%', hex_upper((b / 16) as int), hex_upper((b % 16) as int)]
        };
        assert(percent_encoded(bytes) == percent_encoded(pre) + item);
        assert(percent_encoded(bytes) + rest =~= percent_encoded(pre) + (item + rest));
        lemma_percent_decode_append(pre, item + rest);
        let ir = item + rest;
        if is_unreserved(b) {
            assert((b as char) as u32 == b as u32);
            assert(ir[0] == b as char);
            assert(ir[0] != '%');
            assert(ir.skip(1) =~= rest);
            assert(percent_decoded(ir) == seq![b] + percent_decoded(rest));
        } else {
            lemma_hex_upper_value((b / 16) as int);
            lemma_hex_upper_value((b % 16) as int);
            assert(ir[0] == '%' && ir[1] == hex_upper((b / 16) as int) && ir[2] == hex_upper((b % 16) as int));
            assert(ir.skip(3) =~= rest);
            assert((b / 16) * 16 + b % 16 == b);
            assert(percent_decoded(ir) == seq![b] + percent_decoded(rest));
        }
        assert(pre + (seq![b] + percent_decoded(rest)) =~= bytes + percent_decoded(rest));
    }
}

/// Percent-encodes the UTF-8 bytes of `input`, keeping letters, digits and `-_.~/`.
pub fn percent_encode(input: &str) -> (r: String)
    ensures
        r@ == percent_encoded(encode_utf8(input@)),
{
    let bytes = input.as_bytes();
    let mut out: Vec<char> = Vec::new();
    let mut i: usize = 0;
    while i < bytes.len()
        invariant
            i <= bytes.len(),
            bytes@ == encode_utf8(input@),
            out@ == percent_encoded(bytes@.take(i as int)),
        decreases bytes.len() - i,
    {
        let b = bytes[i];
        assert(bytes@.take(i + 1).drop_last() == bytes@.take(i as int));
        if (65 <= b && b <= 90) || (97 <= b && b <= 122) || (48 <= b && b <= 57) || b == 45 || b
            == 95 || b == 46 || b == 126 || b == 47 {
            out.push(b as char);
        } else {
            out.push('%');
            let hi = hex_upper_char(b / 16);
            let lo = hex_upper_char(b % 16);
            out.push(hi);
            out.push(lo);
        }
        i = i + 1;
    }
    assert(bytes@.take(bytes.len() as int) == bytes@);
    string_of(&out)
}

// ---------------------------------------------------------------------------
// Durations and sizes
// ---------------------------------------------------------------------------

/// The rendering of a remaining time in seconds: `∞` for the "unknown" value
/// 8640000 and for negative values, else `HH:MM:SS`, preceded by
/// `N day, ` or `N days, ` when there is at least one whole day.
pub open spec fn eta_text(seconds: int) -> Seq<char> {
    if seconds == 8640000 || seconds < 0 {
        seq!['\u{221e}']
    } else {
        let days = seconds / 86400;
        let hours = (seconds % 86400) / 3600;
        let minutes = (seconds % 3600) / 60;
        let secs = seconds % 60;
        let time = decimal_padded(hours as nat, 2) + seq![':'] + decimal_padded(minutes as nat, 2)
            + seq![':'] + decimal_padded(secs as nat, 2);
        if days > 0 {
            decimal(days as nat) + seq![' ', 'd', 'a', 'y'] + (if days > 1 {
                seq!['s']
            } else {
                seq![]
            }) + seq![',', ' '] + time
        } else {
            time
        }
    }
}

/// Renders a remaining time given in seconds.
pub fn convert_eta(seconds: i64) -> (r: String)
    ensures
        r@ == eta_text(seconds as int),
{
    if seconds == 8640000 || seconds < 0 {
        let v = vec!['\u{221e}'];
        return string_of(&v);
    }
    let days = seconds / 86400;
    let hours = (seconds % 86400) / 3600;
    let minutes = (seconds % 3600) / 60;
    let secs = seconds % 60;
    let mut time = decimal_padded_chars(hours as u64, 2);
    time.push(':');
    let m = decimal_padded_chars(minutes as u64, 2);
    push_all(&mut time, &m);
    time.push(':');
    let sc = decimal_padded_chars(secs as u64, 2);
    push_all(&mut time, &sc);
    if days > 0 {
        let mut out = decimal_chars(days as u64);
        out.push(' ');
        out.push('d');
        out.push('a');
        out.push('y');
        if days > 1 {
            out.push('s');
        }
        out.push(',');
        out.push(' ');
        push_all(&mut out, &time);
        string_of(&out)
    } else {
        string_of(&time)
    }
}

/// `1024` to the power `k`.
pub open spec fn pow1024(k: nat) -> nat
    decreases k,
{
    if k == 0 {
        1
    } else {
        1024 * pow1024((k - 1) as nat)
    }
}

/// The unit that `convert_size` picks: the largest `k <= 6` with `1024^k <= n`.
pub open spec fn size_unit(n: nat) -> nat {
    if n >= pow1024(6) {
        6
    } else if n >= pow1024(5) {
        5
    } else if n >= pow1024(4) {
        4
    } else if n >= pow1024(3) {
        3
    } else if n >= pow1024(2) {
        2
    } else if n >= pow1024(1) {
        1
    } else {
        0
    }
}

/// The name of the unit `k`.
pub open spec fn unit_name(k: nat) -> Seq<char> {
    if k == 0 {
        seq!['B']
    } else if k == 1 {
        seq!['K', 'B']
    } else if k == 2 {
        seq!['M', 'B']
    } else if k == 3 {
        seq!['G', 'B']
    } else if k == 4 {
        seq!['T', 'B']
    } else if k == 5 {
        seq!['P', 'B']
    } else {
        seq!['E', 'B']
    }
}

/// `n / d` in hundredths, rounded to the nearest with halves rounded up.
pub open spec fn hundredths_rounded(n: nat, d: nat) -> nat {
    (n * 200 + d) / (2 * d)
}

/// A number of hundredths written as a decimal without trailing zeros.
pub open spec fn hundredths_text(h: nat) -> Seq<char> {
    let whole = h / 100;
    let frac = h % 100;
    if frac == 0 {
        decimal(whole)
    } else if frac % 10 == 0 {
        decimal(whole) + seq!['.', digit_char((frac / 10) as int)]
    } else {
        decimal(whole) + seq!['.', digit_char((frac / 10) as int), digit_char((frac % 10) as int)]
    }
}

/// The human-readable size: `0 B`, or the size in the largest unit of 1024
/// that it reaches (up to `EB`), rounded to two decimals, trailing zeros dropped.
pub open spec fn size_text(n: nat) -> Seq<char> {
    if n == 0 {
        seq!['0', ' ', 'B']
    } else {
        let k = size_unit(n);
        hundredths_text(hundredths_rounded(n, pow1024(k))) + seq![' '] + unit_name(k)
    }
}

/// The characters of a number of hundredths, without trailing zeros.
fn hundredths_chars(h: u64) -> (r: Vec<char>)
    ensures
        r@ == hundredths_text(h as nat),
{
    let whole = h / 100;
    let frac = h % 100;
    let mut out = decimal_chars(whole);
    if frac == 0 {
    } else if frac % 10 == 0 {
        out.push('.');
        let c = char_from_digit((frac / 10) as u32);
        out.push(c);
    } else {
        out.push('.');
        let c1 = char_from_digit((frac / 10) as u32);
        let c2 = char_from_digit((frac % 10) as u32);
        out.push(c1);
        out.push(c2);
    }
    out
}

/// The characters of the name of unit `k`.
fn unit_name_chars(k: u64) -> (r: Vec<char>)
    requires
        k <= 6,
    ensures
        r@ == unit_name(k as nat),
{
    let r = match k {
        0 => vec!['B'],
        1 => vec!['K', 'B'],
        2 => vec!['M', 'B'],
        3 => vec!['G', 'B'],
        4 => vec!['T', 'B'],
        5 => vec!['P', 'B'],
        _ => vec!['E', 'B'],
    };
    assert(r@ == unit_name(k as nat));
    r
}

/// Renders a byte count with binary units (`1.5 KB`, `1 GB`): the unit is
/// the largest power of 1024 not above the count, and the quotient is
/// rounded exactly to hundredths, halves up.
pub fn convert_size(size_bytes: u64) -> (r: String)
    ensures
        r@ == size_text(size_bytes as nat),
{
    if size_bytes == 0 {
        let v = vec!['0', ' ', 'B'];
        assert(v@ == seq!['0', ' ', 'B']);
        return string_of(&v);
    }
    assert(pow1024(0) == 1);
    assert(pow1024(1) == 1024);
    assert(pow1024(2) == 1048576);
    assert(pow1024(3) == 1073741824);
    assert(pow1024(4) == 1099511627776);
    assert(pow1024(5) == 1125899906842624);
    assert(pow1024(6) == 1152921504606846976);
    let mut k: u64 = 0;
    let mut p: u64 = 1;
    let ghost n = size_bytes as nat;
    if size_bytes >= 1152921504606846976 {
        k = 6;
        p = 1152921504606846976;
    } else if size_bytes >= 1125899906842624 {
        k = 5;
        p = 1125899906842624;
    } else if size_bytes >= 1099511627776 {
        k = 4;
        p = 1099511627776;
    } else if size_bytes >= 1073741824 {
        k = 3;
        p = 1073741824;
    } else if size_bytes >= 1048576 {
        k = 2;
        p = 1048576;
    } else if size_bytes >= 1024 {
        k = 1;
        p = 1024;
    }
    assert(k == size_unit(n) && p == pow1024(k as nat));
    let num: u128 = (size_bytes as u128) * 200 + (p as u128);
    let den: u128 = 2 * (p as u128);
    let h128 = num / den;
    assert(h128 == hundredths_rounded(n, p as nat));
    assert(h128 <= num);
    let h: u64 = if h128 <= 0xFFFF_FFFF_FFFF_FFFF {
        h128 as u64
    } else {
        0
    };
    proof {
        assert(h128 <= 0xFFFF_FFFF_FFFF_FFFFu128) by (nonlinear_arith)
            requires
                h128 == num / den,
                num == (size_bytes as u128) * 200 + (p as u128),
                den == 2 * (p as u128),
                p >= 1,
                size_bytes <= 0xFFFF_FFFF_FFFF_FFFFu64,
                size_bytes >= p || p == 1,
                p == 1 ==> size_bytes < 1024,
                p > 1 ==> p >= 1024,
        ;
    }
    let mut out = hundredths_chars(h);
    out.push(' ');
    let u = unit_name_chars(k);
    push_all(&mut out, &u);
    string_of(&out)
}

/// The text of a progress bar: the percentage right-aligned in three columns,
/// then `filled` full blocks and `width - filled` light blocks between bars,
/// then a line break.
pub open spec fn progress_bar_text(percent: nat, filled: nat, width: nat) -> Seq<char> {
    let digits = decimal(percent);
    let pad = if digits.len() < 3 {
        Seq::new((3 - digits.len()) as nat, |i: int| ' ')
    } else {
        seq![]
    };
    pad + digits + seq!['%', '|'] + Seq::new(filled, |i: int| '\u{2588}') + Seq::new(
        (width - filled) as nat,
        |i: int| '\u{2591}',
    ) + seq!['|', '\n']
}

/// Renders a progress bar from the whole percentage and the number of filled
/// cells (the floating-point part of `format_progress`, clamping the fraction
/// to `0..=1` and taking the floors, is done by the caller).
pub fn render_progress_bar(percent: u32, filled: usize, width: usize) -> (r: String)
    requires
        filled <= width,
    ensures
        r@ == progress_bar_text(percent as nat, filled as nat, width as nat),
{
    let digits = decimal_chars(percent as u64);
    let mut out: Vec<char> = Vec::new();
    let pad: usize = if digits.len() < 3 {
        3 - digits.len()
    } else {
        0
    };
    let mut i: usize = 0;
    while i < pad
        invariant
            i <= pad,
            out@ == Seq::new(i as nat, |m: int| ' '),
        decreases pad - i,
    {
        out.push(' ');
        i = i + 1;
        assert(out@ == Seq::new(i as nat, |m: int| ' '));
    }
    assert(digits@.len() >= 3 ==> out@ == Seq::<char>::empty());
    push_all(&mut out, &digits);
    out.push('%');
    out.push('|');
    let ghost head = out@;
    let mut j: usize = 0;
    while j < filled
        invariant
            j <= filled,
            out@ == head + Seq::new(j as nat, |m: int| '\u{2588}'),
        decreases filled - j,
    {
        out.push('\u{2588}');
        j = j + 1;
        assert(out@ == head + Seq::new(j as nat, |m: int| '\u{2588}'));
    }
    let ghost head2 = out@;
    let mut k: usize = 0;
    while k < width - filled
        invariant
            k <= width - filled,
            out@ == head2 + Seq::new(k as nat, |m: int| '\u{2591}'),
        decreases width - filled - k,
    {
        out.push('\u{2591}');
        k = k + 1;
        assert(out@ == head2 + Seq::new(k as nat, |m: int| '\u{2591}'));
    }
    out.push('|');
    out.push('\n');
    string_of(&out)
}

} // verus!
