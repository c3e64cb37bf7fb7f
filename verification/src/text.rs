//! Character-level helpers shared by the rest of the library: searching,
//! slicing, UTF-8 widths, decimal and hexadecimal rendering, and the
//! conversions between `String` and `Vec<char>`.
use vstd::prelude::*;
use vstd::utf8::*;

verus! {

// ---------------------------------------------------------------------------
// Specifications
// ---------------------------------------------------------------------------

/// `s` begins with `p`.
pub open spec fn starts_with(s: Seq<char>, p: Seq<char>) -> bool {
    p.len() <= s.len() && s.take(p.len() as int) == p
}

/// `s` ends with `p`.
pub open spec fn ends_with(s: Seq<char>, p: Seq<char>) -> bool {
    p.len() <= s.len() && s.skip(s.len() - p.len()) == p
}

/// `p` occurs in `s` at position `j`.
pub open spec fn matches_at(s: Seq<char>, p: Seq<char>, j: int) -> bool {
    0 <= j && j + p.len() <= s.len() && s.subrange(j, j + p.len()) == p
}

/// The first position at or after `j` where `p` occurs in `s`.
pub open spec fn find_from(s: Seq<char>, p: Seq<char>, j: int) -> Option<int>
    decreases s.len() + 1 - j,
{
    if j < 0 || j + p.len() > s.len() {
        None
    } else if matches_at(s, p, j) {
        Some(j)
    } else {
        find_from(s, p, j + 1)
    }
}

/// The first position where `p` occurs in `s` (`str::find`).
pub open spec fn find(s: Seq<char>, p: Seq<char>) -> Option<int> {
    find_from(s, p, 0)
}

/// `p` occurs somewhere in `s` (`str::contains`).
pub open spec fn contains(s: Seq<char>, p: Seq<char>) -> bool {
    find(s, p) is Some
}

/// The last position of `c` among the first `n` characters of `s`.
pub open spec fn rfind_char_before(s: Seq<char>, c: char, n: int) -> Option<int>
    decreases n,
{
    if n <= 0 {
        None
    } else if s[n - 1] == c {
        Some(n - 1)
    } else {
        rfind_char_before(s, c, n - 1)
    }
}

/// The last position of `c` in `s` (`str::rfind` with a `char`).
pub open spec fn rfind_char(s: Seq<char>, c: char) -> Option<int> {
    rfind_char_before(s, c, s.len() as int)
}

/// The number of bytes that UTF-8 takes for `c`.
pub open spec fn char_width(c: char) -> nat {
    if (c as u32) < 0x80 {
        1
    } else if (c as u32) < 0x800 {
        2
    } else if (c as u32) < 0x10000 {
        3
    } else {
        4
    }
}

/// The number of bytes of the UTF-8 encoding of `s`.
pub open spec fn utf8_len(s: Seq<char>) -> nat
    decreases s.len(),
{
    if s.len() == 0 {
        0
    } else {
        char_width(s[0]) + utf8_len(s.drop_first())
    }
}

/// Where the byte offset `b` of the UTF-8 encoding of `s` falls on a character
/// boundary, the number of characters before it.
pub open spec fn char_index_of_byte(s: Seq<char>, b: int) -> Option<int> {
    if exists|k: int| 0 <= k <= s.len() && utf8_len(s.take(k)) == b {
        Some(choose|k: int| 0 <= k <= s.len() && utf8_len(s.take(k)) == b)
    } else {
        None
    }
}

/// The decimal digit character of `d`.
pub open spec fn digit_char(d: int) -> char {
    (('0' as u32) + d) as char
}

/// The decimal rendering of `n`, without leading zeros (`0` is `"0"`).
pub open spec fn decimal(n: nat) -> Seq<char>
    decreases n,
{
    if n < 10 {
        seq![digit_char(n as int)]
    } else {
        decimal(n / 10).push(digit_char((n % 10) as int))
    }
}

/// The decimal rendering of `n` padded on the left with zeros to at least `w` characters.
pub open spec fn decimal_padded(n: nat, w: nat) -> Seq<char> {
    let d = decimal(n);
    if d.len() >= w {
        d
    } else {
        Seq::new((w - d.len()) as nat, |i: int| '0') + d
    }
}

/// The decimal rendering of a signed integer (`Display` for integers).
pub open spec fn signed_decimal(n: int) -> Seq<char> {
    if n < 0 {
        seq!['-'] + decimal((-n) as nat)
    } else {
        decimal(n as nat)
    }
}

/// The upper-case hexadecimal digit of `d`.
pub open spec fn hex_upper(d: int) -> char {
    if d < 10 {
        digit_char(d)
    } else {
        (('A' as u32) + (d - 10)) as char
    }
}

/// The lower-case hexadecimal digit of `d`.
pub open spec fn hex_lower(d: int) -> char {
    if d < 10 {
        digit_char(d)
    } else {
        (('a' as u32) + (d - 10)) as char
    }
}

/// The last `w` lower-case hexadecimal digits of `n`, most significant first.
pub open spec fn hex_lower_digits(n: nat, w: nat) -> Seq<char>
    decreases w,
{
    if w == 0 {
        seq![]
    } else {
        hex_lower_digits(n / 16, (w - 1) as nat).push(hex_lower((n % 16) as int))
    }
}

/// `c` is an ASCII decimal digit.
pub open spec fn is_digit(c: char) -> bool {
    '0' <= c && c <= '9'
}

/// The value of a sequence of decimal digits.
pub open spec fn digits_value(s: Seq<char>) -> nat
    decreases s.len(),
{
    if s.len() == 0 {
        0
    } else {
        digits_value(s.drop_last()) * 10 + ((s.last() as u32) - ('0' as u32)) as nat
    }
}

/// Every character of `s` is an ASCII digit.
pub open spec fn all_digits(s: Seq<char>) -> bool {
    forall|i: int| 0 <= i < s.len() ==> is_digit(#[trigger] s[i])
}

/// The text of a number after its optional leading `+`.
pub open spec fn unsigned_body(s: Seq<char>) -> Seq<char> {
    if s.len() > 0 && s[0] == '+' {
        s.drop_first()
    } else {
        s
    }
}

/// What `str::parse::<u64>` (and the other unsigned parsers, through `max`)
/// gives: an optional `+`, then one or more ASCII digits, whose value fits.
pub open spec fn parse_unsigned(s: Seq<char>, max: nat) -> Option<nat> {
    if unsigned_body(s).len() > 0 && all_digits(unsigned_body(s)) && digits_value(
        unsigned_body(s),
    ) <= max {
        Some(digits_value(unsigned_body(s)))
    } else {
        None
    }
}

/// `c` has the Unicode `White_Space` property (`char::is_whitespace`).
pub open spec fn is_whitespace(c: char) -> bool {
    let u = c as u32;
    (0x9 <= u && u <= 0xD) || u == 0x20 || u == 0x85 || u == 0xA0 || u == 0x1680 || (0x2000 <= u
        && u <= 0x200A) || u == 0x2028 || u == 0x2029 || u == 0x202F || u == 0x205F || u == 0x3000
}

/// The length of the run of non-whitespace characters at the start of `s`.
pub open spec fn word_len(s: Seq<char>) -> nat
    decreases s.len(),
{
    if s.len() == 0 || is_whitespace(s[0]) {
        0
    } else {
        1 + word_len(s.drop_first())
    }
}

/// The words of `s`: its maximal runs of non-whitespace characters (`str::split_whitespace`).
pub open spec fn words(s: Seq<char>) -> Seq<Seq<char>>
    decreases s.len(),
{
    if s.len() == 0 {
        seq![]
    } else if is_whitespace(s[0]) {
        words(s.drop_first())
    } else {
        let n = word_len(s);
        proof {
            lemma_word_len_bound(s);
        }
        seq![s.take(n as int)] + words(s.skip(n as int))
    }
}

/// A leading word is no longer than the text, and not empty where the text
/// starts with a non-whitespace character.
pub proof fn lemma_word_len_bound(s: Seq<char>)
    ensures
        word_len(s) <= s.len(),
        s.len() > 0 && !is_whitespace(s[0]) ==> word_len(s) >= 1,
    decreases s.len(),
{
    if s.len() > 0 && !is_whitespace(s[0]) {
        lemma_word_len_bound(s.drop_first());
    }
}

/// The pieces of `s[start..]` between occurrences of `c`, where the current
/// piece began at `start` and the scan has reached `i`.
pub open spec fn split_from(s: Seq<char>, c: char, start: int, i: int) -> Seq<Seq<char>>
    decreases s.len() - i,
{
    if i >= s.len() {
        seq![s.subrange(start, s.len() as int)]
    } else if s[i] == c {
        seq![s.subrange(start, i)] + split_from(s, c, i + 1, i + 1)
    } else {
        split_from(s, c, start, i + 1)
    }
}

/// The pieces of `s` between occurrences of `c` (`str::split` with a `char`).
pub open spec fn split_char(s: Seq<char>, c: char) -> Seq<Seq<char>> {
    split_from(s, c, 0, 0)
}

/// `a` comes before `b` in the order of `String` (character by character,
/// a proper prefix first).
pub open spec fn lex_lt(a: Seq<char>, b: Seq<char>) -> bool
    decreases a.len(),
{
    if a.len() == 0 {
        b.len() > 0
    } else if b.len() == 0 {
        false
    } else if a[0] != b[0] {
        (a[0] as u32) < (b[0] as u32)
    } else {
        lex_lt(a.drop_first(), b.drop_first())
    }
}

// ---------------------------------------------------------------------------
// Lemmas
// ---------------------------------------------------------------------------

/// The string order is irreflexive.
pub proof fn lemma_lex_irrefl(a: Seq<char>)
    ensures
        !lex_lt(a, a),
    decreases a.len(),
{
    if a.len() > 0 {
        lemma_lex_irrefl(a.drop_first());
    }
}

/// The string order is transitive.
pub proof fn lemma_lex_trans(a: Seq<char>, b: Seq<char>, c: Seq<char>)
    requires
        lex_lt(a, b),
        lex_lt(b, c),
    ensures
        lex_lt(a, c),
    decreases a.len(),
{
    if a.len() > 0 && b.len() > 0 && c.len() > 0 {
        if a[0] == b[0] && b[0] == c[0] {
            lemma_lex_trans(a.drop_first(), b.drop_first(), c.drop_first());
        }
    }
}

/// Two different strings are ordered one way or the other, and not both.
pub proof fn lemma_lex_total(a: Seq<char>, b: Seq<char>)
    ensures
        a != b ==> (lex_lt(a, b) || lex_lt(b, a)),
        !(lex_lt(a, b) && lex_lt(b, a)),
    decreases a.len(),
{
    if a.len() > 0 && b.len() > 0 {
        lemma_lex_total(a.drop_first(), b.drop_first());
        if a[0] == b[0] && a.drop_first() == b.drop_first() {
            assert(a == seq![a[0]] + a.drop_first());
            assert(b == seq![b[0]] + b.drop_first());
        }
        if a[0] != b[0] {
            vstd::utf8::char_u32_cast(a[0], a[0] as u32);
            vstd::utf8::char_u32_cast(b[0], b[0] as u32);
            assert((a[0] as u32) != (b[0] as u32));
        }
    } else if a.len() == 0 && b.len() == 0 {
        assert(a == b);
    }
}

/// The UTF-8 length of a concatenation is the sum of the lengths.
pub proof fn lemma_utf8_len_add(a: Seq<char>, b: Seq<char>)
    ensures
        utf8_len(a + b) == utf8_len(a) + utf8_len(b),
    decreases a.len(),
{
    if a.len() == 0 {
        assert(a + b == b);
    } else {
        assert((a + b).drop_first() == a.drop_first() + b);
        lemma_utf8_len_add(a.drop_first(), b);
    }
}

/// The UTF-8 length of a prefix grows by the width of the next character.
pub proof fn lemma_utf8_len_take_succ(s: Seq<char>, k: int)
    requires
        0 <= k < s.len(),
    ensures
        utf8_len(s.take(k + 1)) == utf8_len(s.take(k)) + char_width(s[k]),
{
    assert(s.take(k + 1) == s.take(k) + seq![s[k]]);
    lemma_utf8_len_add(s.take(k), seq![s[k]]);
    assert(seq![s[k]].drop_first() == Seq::<char>::empty());
    assert(utf8_len(seq![s[k]]) == char_width(s[k]) + utf8_len(Seq::<char>::empty()));
}

/// Longer prefixes have longer encodings.
pub proof fn lemma_utf8_len_take_mono(s: Seq<char>, i: int, j: int)
    requires
        0 <= i <= j <= s.len(),
    ensures
        utf8_len(s.take(i)) + (j - i) <= utf8_len(s.take(j)),
    decreases j - i,
{
    if i < j {
        lemma_utf8_len_take_mono(s, i, j - 1);
        lemma_utf8_len_take_succ(s, j - 1);
    }
}

/// `utf8_len` agrees with the length of vstd's UTF-8 encoding.
pub proof fn lemma_utf8_len_is_encoding_len(s: Seq<char>)
    ensures
        utf8_len(s) == encode_utf8(s).len(),
    decreases s.len(),
{
    if s.len() > 0 {
        lemma_utf8_len_is_encoding_len(s.drop_first());
        let c = s[0];
        vstd::utf8::char_is_scalar(c);
        assert(encode_scalar(c as u32).len() == char_width(c));
    }
}

/// A prefix-sum position that is reached is reached by exactly one prefix.
pub proof fn lemma_char_index_of_byte_unique(s: Seq<char>, b: int, k: int)
    requires
        0 <= k <= s.len(),
        utf8_len(s.take(k)) == b,
    ensures
        char_index_of_byte(s, b) == Some(k),
{
    let k2 = choose|k2: int| 0 <= k2 <= s.len() && utf8_len(s.take(k2)) == b;
    if k2 < k {
        lemma_utf8_len_take_mono(s, k2, k);
    } else if k < k2 {
        lemma_utf8_len_take_mono(s, k, k2);
    }
}

/// `find_from` finds the first match at or after its start.
pub proof fn lemma_find_from_first(s: Seq<char>, p: Seq<char>, j: int, k: int)
    requires
        0 <= j <= k,
        matches_at(s, p, k),
    ensures
        find_from(s, p, j) is Some,
        find_from(s, p, j)->0 <= k,
        matches_at(s, p, find_from(s, p, j)->0),
    decreases k - j,
{
    if !matches_at(s, p, j) {
        lemma_find_from_first(s, p, j + 1, k);
    }
}

/// A position that `find_from` returns holds a match at or after the start.
pub proof fn lemma_find_from_first_bound(s: Seq<char>, p: Seq<char>, j: int)
    ensures
        find_from(s, p, j) matches Some(k) ==> j <= k && matches_at(s, p, k),
    decreases s.len() + 1 - j,
{
    if !(j < 0 || j + p.len() > s.len()) && !matches_at(s, p, j) {
        lemma_find_from_first_bound(s, p, j + 1);
    }
}

/// A position that `rfind_char_before` returns is before the bound and holds the character.
pub proof fn lemma_rfind_char_before_bound(s: Seq<char>, c: char, n: int)
    ensures
        rfind_char_before(s, c, n) matches Some(k) ==> 0 <= k < n && s[k] == c,
    decreases n,
{
    if n > 0 && s[n - 1] != c {
        lemma_rfind_char_before_bound(s, c, n - 1);
    }
}

/// The decimal rendering is never empty and has only digits.
pub proof fn lemma_decimal_digits(n: nat)
    ensures
        decimal(n).len() >= 1,
        forall|i: int| 0 <= i < decimal(n).len() ==> is_digit(#[trigger] decimal(n)[i]),
    decreases n,
{
    if n >= 10 {
        lemma_decimal_digits(n / 10);
    }
}

/// The digits of `n` read back give `n`.
pub proof fn lemma_decimal_value(n: nat)
    ensures
        digits_value(decimal(n)) == n,
        unsigned_body(decimal(n)) == decimal(n),
        all_digits(decimal(n)),
        decimal(n).len() >= 1,
    decreases n,
{
    lemma_decimal_digits(n);
    let d = (n % 10) as int;
    assert(((('0' as u32) + d) as char) as u32 == ('0' as u32) + d);
    if n < 10 {
        let s = decimal(n);
        assert(s.drop_last().len() == 0);
        assert(s.last() == digit_char(n as int));
    } else {
        lemma_decimal_value(n / 10);
        let t = decimal(n);
        assert(t.drop_last() == decimal(n / 10));
        assert(t.last() == digit_char((n % 10) as int));
    }
    let s = decimal(n);
    assert(s.last() == digit_char(d));
    assert((s.last() as u32) == ('0' as u32) + d);
    assert(((s.last() as u32) - ('0' as u32)) as nat == d);
    assert(n == (n / 10) * 10 + d);
    assert(digits_value(s.drop_last()) == n / 10);
    assert(digits_value(s) == digits_value(s.drop_last()) * 10 + ((s.last() as u32) - ('0' as u32)) as nat);
    assert(is_digit(decimal(n)[0]));
}

/// ASCII text takes one byte per character.
pub proof fn lemma_utf8_len_ascii(s: Seq<char>)
    requires
        is_ascii(s),
    ensures
        utf8_len(s) == s.len(),
    decreases s.len(),
{
    if s.len() > 0 {
        assert(s[0] as u32 == s[0] as u32);
        assert(is_ascii(s.drop_first())) by {
            assert forall|i: int| 0 <= i < s.drop_first().len() implies (#[trigger] s.drop_first()[i] as u32) < 128 by {
                assert(s.drop_first()[i] == s[i + 1]);
            }
        }
        lemma_utf8_len_ascii(s.drop_first());
    }
}

/// In ASCII text every byte offset up to its length is a character boundary,
/// at the same index.
pub proof fn lemma_ascii_char_index(s: Seq<char>, b: int)
    requires
        is_ascii(s),
        0 <= b <= s.len(),
    ensures
        char_index_of_byte(s, b) is Some,
{
    assert(is_ascii(s.take(b))) by {
        assert forall|i: int| 0 <= i < s.take(b).len() implies (#[trigger] s.take(b)[i] as u32) < 128 by {
            assert(s.take(b)[i] == s[i]);
        }
    }
    lemma_utf8_len_ascii(s.take(b));
    assert(utf8_len(s.take(b)) == b);
}

/// ASCII lower-casing keeps the length and keeps the text ASCII.
pub proof fn lemma_ascii_lower(s: Seq<char>)
    requires
        is_ascii(s),
    ensures
        ascii_lower(s).len() == s.len(),
        is_ascii(ascii_lower(s)),
{
    assert forall|i: int| 0 <= i < ascii_lower(s).len() implies (#[trigger] ascii_lower(s)[i] as u32) < 128 by {
        if 'A' <= s[i] && s[i] <= 'Z' {
            assert((((s[i] as u32) + 32) as char) as u32 == (s[i] as u32) + 32);
        }
    }
}

/// The decimal text of a number no larger than `max` parses back to it.
pub proof fn lemma_parse_decimal(n: nat, max: nat)
    requires
        n <= max,
    ensures
        parse_unsigned(decimal(n), max) == Some(n),
{
    lemma_decimal_value(n);
}

// ---------------------------------------------------------------------------
// Conversions
// ---------------------------------------------------------------------------

/// Every character is ASCII.
pub open spec fn is_ascii(s: Seq<char>) -> bool {
    forall|i: int| 0 <= i < s.len() ==> (#[trigger] s[i] as u32) < 128
}

/// ASCII lower-casing: `A`-`Z` become `a`-`z`, every other character stays.
pub open spec fn ascii_lower(s: Seq<char>) -> Seq<char> {
    Seq::new(s.len(), |i: int| if 'A' <= s[i] && s[i] <= 'Z' { ((s[i] as u32) + 32) as char } else { s[i] })
}

/// The Unicode lower-case form of a string, as `str::to_lowercase` gives it.
pub uninterp spec fn lowercase(s: Seq<char>) -> Seq<char>;

/// `str::to_lowercase`: the result is the lower-case form of the argument,
/// a function of the argument alone (the mapping does not depend on a
/// locale).  On ASCII text the Unicode lower-case mapping is ASCII
/// lower-casing: `A`-`Z` become `a`-`z` and every other ASCII character
/// maps to itself, one character for one.
#[verifier::external_body]
pub(crate) fn to_lowercase(s: &str) -> (r: String)
    ensures
        r@ == lowercase(s@),
        is_ascii(s@) ==> r@ == ascii_lower(s@),
{
    s.to_lowercase()
}

/// The Unicode upper-case form of a character, as `char::to_uppercase`
/// gives it (one to three characters).
pub uninterp spec fn uppercase(c: char) -> Seq<char>;

/// `char::to_uppercase`, collected into a string: the result is the
/// upper-case form of the character, a function of the character alone.
#[verifier::external_body]
pub(crate) fn char_to_uppercase(c: char) -> (r: String)
    ensures
        r@ == uppercase(c),
{
    c.to_uppercase().collect()
}

/// `s` with its first character in upper case.
pub open spec fn capitalized(s: Seq<char>) -> Seq<char> {
    if s.len() == 0 {
        seq![]
    } else {
        uppercase(s[0]) + s.drop_first()
    }
}

/// `s` with its first character in upper case, the rest as it is.
pub fn capitalize(s: &str) -> (r: String)
    ensures
        r@ == capitalized(s@),
{
    let v = chars_of(s);
    if v.len() == 0 {
        return String::new();
    }
    let first = char_to_uppercase(v[0]);
    let mut out = chars_of(first.as_str());
    let rest = sub_chars(&v, 1, v.len());
    push_all(&mut out, &rest);
    assert(rest@ == s@.drop_first());
    string_of(&out)
}

/// The number of bytes that UTF-8 takes for `c`.
pub fn char_width_of(c: char) -> (w: u128)
    ensures
        w == char_width(c),
{
    let u = c as u32;
    if u < 0x80 {
        1
    } else if u < 0x800 {
        2
    } else if u < 0x10000 {
        3
    } else {
        4
    }
}

/// The number of bytes of the UTF-8 encoding of `s[..n]`.
pub fn utf8_len_prefix(s: &Vec<char>, n: usize) -> (r: u128)
    requires
        n <= s.len(),
    ensures
        r == utf8_len(s@.take(n as int)),
        r <= 4 * n,
{
    let mut acc: u128 = 0;
    let mut k: usize = 0;
    assert(s@.take(0) == Seq::<char>::empty());
    while k < n
        invariant
            k <= n <= s.len(),
            acc == utf8_len(s@.take(k as int)),
            acc <= 4 * k,
        decreases n - k,
    {
        proof {
            lemma_utf8_len_take_succ(s@, k as int);
        }
        acc = acc + char_width_of(s[k]);
        k = k + 1;
    }
    acc
}

/// Where the byte offset `b` of the UTF-8 encoding of `s` is a character
/// boundary, the number of characters before it.
pub fn char_index_of_byte_exec(s: &Vec<char>, b: u128) -> (r: Option<usize>)
    ensures
        match r {
            Some(k) => char_index_of_byte(s@, b as int) == Some(k as int),
            None => char_index_of_byte(s@, b as int) is None,
        },
{
    let mut acc: u128 = 0;
    let mut k: usize = 0;
    assert(s@.take(0) == Seq::<char>::empty());
    while k < s.len() && acc < b
        invariant
            k <= s.len(),
            acc == utf8_len(s@.take(k as int)),
            acc <= 4 * k,
            forall|m: int| 0 <= m < k ==> utf8_len(s@.take(m)) < b,
        decreases s.len() - k,
    {
        proof {
            lemma_utf8_len_take_succ(s@, k as int);
        }
        acc = acc + char_width_of(s[k]);
        k = k + 1;
    }
    if acc == b {
        proof {
            lemma_char_index_of_byte_unique(s@, b as int, k as int);
        }
        Some(k)
    } else {
        proof {
            assert forall|m: int| 0 <= m <= s@.len() implies utf8_len(s@.take(m)) != b by {
                if m > k {
                    lemma_utf8_len_take_mono(s@, k as int, m);
                }
            }
        }
        None
    }
}

/// Appends one character to a string: `String::push`.
#[verifier::external_body]
pub(crate) fn push_char(s: &mut String, c: char)
    ensures
        final(s)@ == old(s)@.push(c),
{
    s.push(c);
}

/// The characters of a string slice, in order.
pub fn chars_of(s: &str) -> (v: Vec<char>)
    ensures
        v@ == s@,
{
    broadcast use vstd::string::group_string_axioms;

    let mut v: Vec<char> = Vec::new();
    for c in it: s.chars()
        invariant
            v@ == it.seq().take(it.index() as int),
    {
        v.push(c);
    }
    v
}

/// A string made of the given characters.
pub fn string_of(v: &Vec<char>) -> (s: String)
    ensures
        s@ == v@,
{
    let mut s = String::new();
    let mut i: usize = 0;
    while i < v.len()
        invariant
            i <= v.len(),
            s@ == v@.take(i as int),
        decreases v.len() - i,
    {
        push_char(&mut s, v[i]);
        assert(v@.take(i + 1) == v@.take(i as int).push(v@[i as int]));
        i = i + 1;
    }
    assert(v@.take(v.len() as int) == v@);
    s
}

/// An owned copy of a string slice.
pub fn owned(s: &str) -> (r: String)
    ensures
        r@ == s@,
{
    s.to_owned()
}

/// The characters `a[from..to]`.
pub fn sub_chars(a: &Vec<char>, from: usize, to: usize) -> (r: Vec<char>)
    requires
        from <= to <= a.len(),
    ensures
        r@ == a@.subrange(from as int, to as int),
{
    let mut r: Vec<char> = Vec::new();
    let mut i = from;
    while i < to
        invariant
            from <= i <= to <= a.len(),
            r@ == a@.subrange(from as int, i as int),
        decreases to - i,
    {
        r.push(a[i]);
        i = i + 1;
    }
    r
}

/// Appends all of `b` to `a`.
pub fn push_all(a: &mut Vec<char>, b: &Vec<char>)
    ensures
        final(a)@ == old(a)@ + b@,
{
    let mut i: usize = 0;
    while i < b.len()
        invariant
            i <= b.len(),
            a@ == old(a)@ + b@.take(i as int),
        decreases b.len() - i,
    {
        a.push(b[i]);
        assert(b@.take(i + 1) == b@.take(i as int).push(b@[i as int]));
        i = i + 1;
    }
    assert(b@.take(b.len() as int) == b@);
}

/// Appends all characters of a string slice to `a`.
pub fn push_str_chars(a: &mut Vec<char>, b: &str)
    ensures
        final(a)@ == old(a)@ + b@,
{
    let v = chars_of(b);
    push_all(a, &v);
}

// ---------------------------------------------------------------------------
// Searching
// ---------------------------------------------------------------------------

/// Whether `p` occurs in `s` at position `j`.
pub fn chars_match_at(s: &Vec<char>, p: &Vec<char>, j: usize) -> (r: bool)
    ensures
        r == matches_at(s@, p@, j as int),
{
    if j > s.len() || p.len() > s.len() - j {
        return false;
    }
    let mut i: usize = 0;
    while i < p.len()
        invariant
            i <= p.len(),
            j + p.len() <= s.len(),
            forall|m: int| 0 <= m < i ==> s@[j + m] == p@[m],
        decreases p.len() - i,
    {
        if s[j + i] != p[i] {
            assert(s@.subrange(j as int, j + p.len())[i as int] != p@[i as int]);
            return false;
        }
        i = i + 1;
    }
    assert(s@.subrange(j as int, j + p.len()) == p@);
    true
}

/// Whether `s` begins with `p`.
pub fn chars_starts_with(s: &Vec<char>, p: &Vec<char>) -> (r: bool)
    ensures
        r == starts_with(s@, p@),
{
    let r = chars_match_at(s, p, 0);
    proof {
        if p@.len() <= s@.len() {
            assert(s@.subrange(0, p@.len() as int) == s@.take(p@.len() as int));
        }
    }
    r
}

/// Whether two character sequences are equal.
pub fn chars_eq(a: &Vec<char>, b: &Vec<char>) -> (r: bool)
    ensures
        r == (a@ == b@),
{
    if a.len() != b.len() {
        return false;
    }
    let r = chars_starts_with(a, b);
    proof {
        assert(a@.take(b@.len() as int) == a@);
    }
    r
}

/// Whether `a` comes before `b` in the order of `String`.
pub fn chars_lt(a: &Vec<char>, b: &Vec<char>) -> (r: bool)
    ensures
        r == lex_lt(a@, b@),
{
    let mut i: usize = 0;
    assert(a@.skip(0) == a@);
    assert(b@.skip(0) == b@);
    while i < a.len() && i < b.len() && a[i] == b[i]
        invariant
            i <= a.len(),
            i <= b.len(),
            lex_lt(a@, b@) == lex_lt(a@.skip(i as int), b@.skip(i as int)),
        decreases a.len() - i,
    {
        assert(a@.skip(i as int).drop_first() == a@.skip(i + 1));
        assert(b@.skip(i as int).drop_first() == b@.skip(i + 1));
        i = i + 1;
    }
    if i == a.len() {
        i < b.len()
    } else if i == b.len() {
        false
    } else {
        (a[i] as u32) < (b[i] as u32)
    }
}

/// Whether `s` ends with `p`.
pub fn chars_ends_with(s: &Vec<char>, p: &Vec<char>) -> (r: bool)
    ensures
        r == ends_with(s@, p@),
{
    if p.len() > s.len() {
        return false;
    }
    let r = chars_match_at(s, p, s.len() - p.len());
    proof {
        assert(s@.subrange(s@.len() - p@.len(), s@.len() as int) == s@.skip(s@.len() - p@.len()));
    }
    r
}

/// The first position where `p` occurs in `s`.
pub fn chars_find(s: &Vec<char>, p: &Vec<char>) -> (r: Option<usize>)
    ensures
        match r {
            Some(j) => find(s@, p@) == Some(j as int),
            None => find(s@, p@) is None,
        },
        r matches Some(j) ==> j + p@.len() <= s@.len() && matches_at(s@, p@, j as int),
{
    if p.len() > s.len() {
        return None;
    }
    let mut j: usize = 0;
    while p.len() <= s.len() - j
        invariant
            j <= s.len(),
            find(s@, p@) == find_from(s@, p@, j as int),
        decreases s.len() - j,
    {
        if chars_match_at(s, p, j) {
            return Some(j);
        }
        if p.len() == 0 {
            assert(s@.subrange(j as int, j as int) == p@);
        }
        j = j + 1;
    }
    None
}

/// Whether `p` occurs in `s`.
pub fn chars_contains(s: &Vec<char>, p: &Vec<char>) -> (r: bool)
    ensures
        r == contains(s@, p@),
{
    chars_find(s, p).is_some()
}

/// The last position of `c` among the first `n` characters of `s`.
pub fn chars_rfind_before(s: &Vec<char>, c: char, n: usize) -> (r: Option<usize>)
    requires
        n <= s.len(),
    ensures
        match r {
            Some(k) => rfind_char_before(s@, c, n as int) == Some(k as int),
            None => rfind_char_before(s@, c, n as int) is None,
        },
{
    let mut m = n;
    while m > 0
        invariant
            m <= n <= s.len(),
            rfind_char_before(s@, c, n as int) == rfind_char_before(s@, c, m as int),
        decreases m,
    {
        if s[m - 1] == c {
            return Some(m - 1);
        }
        m = m - 1;
    }
    None
}

/// Whether a character has the Unicode `White_Space` property.
pub fn char_is_whitespace(c: char) -> (r: bool)
    ensures
        r == is_whitespace(c),
{
    let u = c as u32;
    (0x9 <= u && u <= 0xD) || u == 0x20 || u == 0x85 || u == 0xA0 || u == 0x1680 || (0x2000 <= u
        && u <= 0x200A) || u == 0x2028 || u == 0x2029 || u == 0x202F || u == 0x205F || u == 0x3000
}

/// The length of the leading non-whitespace run of `s.skip(i)` is `j - i`.
pub proof fn lemma_word_len_run(s: Seq<char>, i: int, j: int)
    requires
        0 <= i <= j <= s.len(),
        forall|m: int| i <= m < j ==> !is_whitespace(#[trigger] s[m]),
        j == s.len() || is_whitespace(s[j]),
    ensures
        word_len(s.skip(i)) == j - i,
    decreases j - i,
{
    if i < j {
        assert(s.skip(i).drop_first() == s.skip(i + 1));
        lemma_word_len_run(s, i + 1, j);
    }
}

/// The words of `s`, as `str::split_whitespace` yields them.
pub fn split_words(s: &Vec<char>) -> (r: Vec<Vec<char>>)
    ensures
        r@.map_values(|w: Vec<char>| w@) == words(s@),
{
    let mut r: Vec<Vec<char>> = Vec::new();
    let mut i: usize = 0;
    assert(s@.skip(0) == s@);
    while i < s.len()
        invariant
            i <= s.len(),
            r@.map_values(|w: Vec<char>| w@) + words(s@.skip(i as int)) == words(s@),
        decreases s.len() - i,
    {
        assert(s@.skip(i as int).drop_first() == s@.skip(i + 1));
        if char_is_whitespace(s[i]) {
            i = i + 1;
        } else {
            let mut j = i;
            while j < s.len() && !char_is_whitespace(s[j])
                invariant
                    i <= j <= s.len(),
                    forall|m: int| i <= m < j ==> !is_whitespace(#[trigger] s@[m]),
                decreases s.len() - j,
            {
                j = j + 1;
            }
            proof {
                lemma_word_len_run(s@, i as int, j as int);
                assert(s@.skip(i as int).take(j - i) == s@.subrange(i as int, j as int));
                assert(s@.skip(i as int).skip(j - i) == s@.skip(j as int));
            }
            let w = sub_chars(s, i, j);
            let ghost old_r = r@.map_values(|w: Vec<char>| w@);
            r.push(w);
            assert(r@.map_values(|w: Vec<char>| w@) == old_r.push(w@));
            assert(old_r.push(w@) + words(s@.skip(j as int)) == old_r + (seq![w@] + words(
                s@.skip(j as int),
            )));
            i = j;
        }
    }
    assert(words(s@.skip(i as int)) == Seq::<Seq<char>>::empty());
    assert(r@.map_values(|w: Vec<char>| w@) + Seq::<Seq<char>>::empty() == r@.map_values(
        |w: Vec<char>| w@,
    ));
    r
}

/// The pieces of `s` between occurrences of `c`, as `str::split` gives them.
pub fn split_on_char(s: &Vec<char>, c: char) -> (r: Vec<Vec<char>>)
    ensures
        r@.map_values(|w: Vec<char>| w@) == split_char(s@, c),
        r@.len() >= 1,
{
    let mut r: Vec<Vec<char>> = Vec::new();
    let mut start: usize = 0;
    let mut i: usize = 0;
    while i < s.len()
        invariant
            start <= i <= s.len(),
            r@.map_values(|w: Vec<char>| w@) + split_from(s@, c, start as int, i as int) == split_char(s@, c),
        decreases s.len() - i,
    {
        if s[i] == c {
            let piece = sub_chars(s, start, i);
            let ghost before = r@.map_values(|w: Vec<char>| w@);
            r.push(piece);
            assert(r@.map_values(|w: Vec<char>| w@) == before.push(piece@));
            assert(before.push(piece@) + split_from(s@, c, i + 1, i + 1) == before + (seq![piece@]
                + split_from(s@, c, i + 1, i + 1)));
            start = i + 1;
        }
        i = i + 1;
    }
    let piece = sub_chars(s, start, s.len());
    let ghost before = r@.map_values(|w: Vec<char>| w@);
    r.push(piece);
    assert(r@.map_values(|w: Vec<char>| w@) == before.push(piece@));
    r
}

// ---------------------------------------------------------------------------
// Numbers
// ---------------------------------------------------------------------------

/// The decimal digits of `n`.
pub fn decimal_chars(n: u64) -> (r: Vec<char>)
    ensures
        r@ == decimal(n as nat),
    decreases n,
{
    if n < 10 {
        let c = char_from_digit(n as u32);
        vec![c]
    } else {
        let mut r = decimal_chars(n / 10);
        let c = char_from_digit((n % 10) as u32);
        r.push(c);
        r
    }
}

/// The character of a decimal digit.
pub fn char_from_digit(d: u32) -> (c: char)
    requires
        d < 10,
    ensures
        c == digit_char(d as int),
{
    let c = match d {
        0 => '0',
        1 => '1',
        2 => '2',
        3 => '3',
        4 => '4',
        5 => '5',
        6 => '6',
        7 => '7',
        8 => '8',
        _ => '9',
    };
    c
}

/// The decimal digits of `n`, padded with zeros on the left to `w` characters.
pub fn decimal_padded_chars(n: u64, w: usize) -> (r: Vec<char>)
    ensures
        r@ == decimal_padded(n as nat, w as nat),
{
    let d = decimal_chars(n);
    if d.len() >= w {
        d
    } else {
        let mut r: Vec<char> = Vec::new();
        let k = w - d.len();
        let mut i: usize = 0;
        while i < k
            invariant
                i <= k,
                r@ == Seq::new(i as nat, |m: int| '0'),
            decreases k - i,
        {
            r.push('0');
            i = i + 1;
            assert(r@ == Seq::new(i as nat, |m: int| '0'));
        }
        push_all(&mut r, &d);
        r
    }
}

/// The decimal rendering of a signed integer.
pub fn signed_decimal_chars(n: i64) -> (r: Vec<char>)
    ensures
        r@ == signed_decimal(n as int),
{
    if n < 0 {
        let m: u64 = if n == i64::MIN {
            9223372036854775808u64
        } else {
            (-n) as u64
        };
        let d = decimal_chars(m);
        let mut r = vec!['-'];
        push_all(&mut r, &d);
        r
    } else {
        decimal_chars(n as u64)
    }
}

/// The character of a lower-case hexadecimal digit.
pub fn hex_lower_char(d: u64) -> (c: char)
    requires
        d < 16,
    ensures
        c == hex_lower(d as int),
{
    if d < 10 {
        char_from_digit(d as u32)
    } else {
        let c = match d {
            10 => 'a',
            11 => 'b',
            12 => 'c',
            13 => 'd',
            14 => 'e',
            _ => 'f',
        };
        c
    }
}

/// The character of an upper-case hexadecimal digit.
pub fn hex_upper_char(d: u8) -> (c: char)
    requires
        d < 16,
    ensures
        c == hex_upper(d as int),
{
    if d < 10 {
        char_from_digit(d as u32)
    } else {
        let c = match d {
            10 => 'A',
            11 => 'B',
            12 => 'C',
            13 => 'D',
            14 => 'E',
            _ => 'F',
        };
        c
    }
}

/// The last `w` lower-case hexadecimal digits of `n` (`{:0w$x}` where `n` fits).
pub fn hex_lower_digits_chars(n: u64, w: usize) -> (r: Vec<char>)
    ensures
        r@ == hex_lower_digits(n as nat, w as nat),
    decreases w,
{
    if w == 0 {
        Vec::new()
    } else {
        let mut r = hex_lower_digits_chars(n / 16, w - 1);
        let c = hex_lower_char(n % 16);
        r.push(c);
        r
    }
}

/// Parses an unsigned decimal number no larger than `max`, as `str::parse` does.
pub fn parse_unsigned_chars(s: &Vec<char>, max: u64) -> (r: Option<u64>)
    ensures
        match r {
            Some(v) => parse_unsigned(s@, max as nat) == Some(v as nat),
            None => parse_unsigned(s@, max as nat) is None,
        },
{
    let start: usize = if s.len() > 0 && s[0] == '+' {
        1
    } else {
        0
    };
    let ghost body = unsigned_body(s@);
    assert(body == s@.skip(start as int));
    if start >= s.len() {
        return None;
    }
    let mut v: u64 = 0;
    let mut i = start;
    while i < s.len()
        invariant
            start <= i <= s.len(),
            body == s@.skip(start as int),
            body == unsigned_body(s@),
            forall|m: int| start <= m < i ==> is_digit(#[trigger] s@[m]),
            v as nat == digits_value(s@.subrange(start as int, i as int)),
            v <= max,
        decreases s.len() - i,
    {
        let c = s[i];
        if !('0' <= c && c <= '9') {
            proof {
                assert(!is_digit(body[i - start]));
                assert(!all_digits(body));
            }
            return None;
        }
        let d = (c as u32 - '0' as u32) as u64;
        assert(s@.subrange(start as int, i + 1).drop_last() == s@.subrange(start as int, i as int));
        if d > max || v > (max - d) / 10 {
            proof {
                let pre = s@.subrange(start as int, i + 1);
                assert(pre.last() == c);
                assert(digits_value(pre) == v * 10 + d);
                if d <= max {
                    assert(v * 10 + d > max) by (nonlinear_arith)
                        requires
                            v > (max - d) / 10,
                            d <= max,
                    ;
                }
                if all_digits(body) {
                    lemma_digits_value_prefix_mono(body, (i + 1 - start) as int);
                    assert(body.take(i + 1 - start) == pre);
                    assert(digits_value(body) > max);
                }
                assert(parse_unsigned(s@, max as nat) is None);
            }
            return None;
        }
        proof {
            assert(v * 10 + d <= max) by (nonlinear_arith)
                requires
                    v <= (max - d) / 10,
                    d <= max,
            ;
        }
        v = v * 10 + d;
        i = i + 1;
    }
    assert(s@.subrange(start as int, s.len() as int) == body);
    Some(v)
}

/// Whether a signed number's text is negative, and its digits after the
/// optional sign.
pub open spec fn signed_body(s: Seq<char>) -> (bool, Seq<char>) {
    if s.len() > 0 && s[0] == '-' {
        (true, s.drop_first())
    } else if s.len() > 0 && s[0] == '+' {
        (false, s.drop_first())
    } else {
        (false, s)
    }
}

/// What `str::parse` gives for a signed integer type of range `min..=max`:
/// an optional sign, then one or more ASCII digits, whose value fits.
pub open spec fn parse_signed(s: Seq<char>, min: int, max: int) -> Option<int> {
    let (neg, body) = signed_body(s);
    if body.len() > 0 && all_digits(body) {
        let v = if neg {
            -(digits_value(body) as int)
        } else {
            digits_value(body) as int
        };
        if min <= v && v <= max {
            Some(v)
        } else {
            None
        }
    } else {
        None
    }
}

/// Parses a signed decimal number in `min..=max`, as `str::parse` does.
pub fn parse_signed_chars(s: &Vec<char>, min: i64, max: i64) -> (r: Option<i64>)
    requires
        min <= 0 <= max,
    ensures
        match r {
            Some(v) => parse_signed(s@, min as int, max as int) == Some(v as int),
            None => parse_signed(s@, min as int, max as int) is None,
        },
{
    let neg = s.len() > 0 && s[0] == '-';
    let body = if s.len() > 0 && (s[0] == '-' || s[0] == '+') {
        sub_chars(s, 1, s.len())
    } else {
        sub_chars(s, 0, s.len())
    };
    assert(body@ == signed_body(s@).1);
    assert(neg == signed_body(s@).0);
    if body.len() > 0 && body[0] == '+' {
        proof {
            assert(!is_digit(body@[0]));
        }
        return None;
    }
    assert(unsigned_body(body@) == body@);
    let bound: u64 = if neg {
        (0i128 - (min as i128)) as u64
    } else {
        max as u64
    };
    match parse_unsigned_chars(&body, bound) {
        Some(v) => {
            if neg {
                let r = (0i128 - (v as i128)) as i64;
                Some(r)
            } else {
                Some(v as i64)
            }
        },
        None => {
            proof {
                if body@.len() > 0 && all_digits(body@) {
                    assert(digits_value(body@) > bound);
                }
            }
            None
        },
    }
}

/// Values of digit sequences only grow as digits are appended.
proof fn lemma_digits_value_prefix_mono(s: Seq<char>, k: int)
    requires
        0 <= k <= s.len(),
        forall|i: int| 0 <= i < s.len() ==> is_digit(#[trigger] s[i]),
    ensures
        digits_value(s.take(k)) <= digits_value(s),
    decreases s.len() - k,
{
    if k < s.len() {
        lemma_digits_value_prefix_mono(s, k + 1);
        assert(s.take(k + 1).drop_last() == s.take(k));
        let a = digits_value(s.take(k));
        let b = digits_value(s.take(k + 1));
        let d: nat = ((s.take(k + 1).last() as u32) - ('0' as u32)) as nat;
        assert(b == a * 10 + d);
        assert(a <= b) by (nonlinear_arith)
            requires
                b == a * 10 + d,
        ;
    } else {
        assert(s.take(k) == s);
    }
}

// ---------------------------------------------------------------------------
// Trimming
// ---------------------------------------------------------------------------

/// `s` with every leading repetition of `p` removed (`str::trim_start_matches`).
pub open spec fn trim_start_all(s: Seq<char>, p: Seq<char>) -> Seq<char>
    decreases s.len(),
{
    if p.len() > 0 && starts_with(s, p) {
        trim_start_all(s.skip(p.len() as int), p)
    } else {
        s
    }
}

/// `s` with every trailing repetition of `p` removed (`str::trim_end_matches`).
pub open spec fn trim_end_all(s: Seq<char>, p: Seq<char>) -> Seq<char>
    decreases s.len(),
{
    if p.len() > 0 && ends_with(s, p) {
        trim_end_all(s.take(s.len() - p.len()), p)
    } else {
        s
    }
}

/// `s` without leading and trailing whitespace (`str::trim`).
pub open spec fn trim_ws(s: Seq<char>) -> Seq<char> {
    trim_ws_end(trim_ws_start(s))
}

/// `s` without leading whitespace.
pub open spec fn trim_ws_start(s: Seq<char>) -> Seq<char>
    decreases s.len(),
{
    if s.len() > 0 && is_whitespace(s[0]) {
        trim_ws_start(s.drop_first())
    } else {
        s
    }
}

/// `s` without trailing whitespace.
pub open spec fn trim_ws_end(s: Seq<char>) -> Seq<char>
    decreases s.len(),
{
    if s.len() > 0 && is_whitespace(s.last()) {
        trim_ws_end(s.drop_last())
    } else {
        s
    }
}

/// Removes every leading repetition of `p` from `s`.
pub fn trim_start_all_exec(s: &Vec<char>, p: &Vec<char>) -> (r: Vec<char>)
    ensures
        r@ == trim_start_all(s@, p@),
{
    let mut cur = sub_chars(s, 0, s.len());
    assert(cur@ == s@);
    while p.len() > 0 && chars_starts_with(&cur, p)
        invariant
            trim_start_all(cur@, p@) == trim_start_all(s@, p@),
        decreases cur.len(),
    {
        cur = sub_chars(&cur, p.len(), cur.len());
    }
    cur
}

/// `s` without leading and trailing whitespace.
pub fn trim_whitespace(s: &Vec<char>) -> (r: Vec<char>)
    ensures
        r@ == trim_ws(s@),
{
    let mut a: usize = 0;
    assert(s@.skip(0) == s@);
    while a < s.len() && char_is_whitespace(s[a])
        invariant
            a <= s.len(),
            trim_ws_start(s@.skip(a as int)) == trim_ws_start(s@),
        decreases s.len() - a,
    {
        assert(s@.skip(a as int).drop_first() == s@.skip(a + 1));
        a = a + 1;
    }
    let mid = sub_chars(s, a, s.len());
    assert(mid@ == s@.skip(a as int));
    let mut b = mid.len();
    assert(mid@.take(b as int) == mid@);
    while b > 0 && char_is_whitespace(mid[b - 1])
        invariant
            b <= mid.len(),
            trim_ws_end(mid@.take(b as int)) == trim_ws_end(mid@),
        decreases b,
    {
        assert(mid@.take(b as int).drop_last() == mid@.take(b - 1));
        b = b - 1;
    }
    let r = sub_chars(&mid, 0, b);
    assert(r@ == mid@.take(b as int));
    r
}

/// `s` with every trailing `c` removed (`str::trim_end_matches` with a `char`).
pub open spec fn trim_end_char(s: Seq<char>, c: char) -> Seq<char>
    decreases s.len(),
{
    if s.len() > 0 && s.last() == c {
        trim_end_char(s.drop_last(), c)
    } else {
        s
    }
}

/// Removes every trailing `c` from `s`.
pub fn trim_end_char_exec(s: &Vec<char>, c: char) -> (r: Vec<char>)
    ensures
        r@ == trim_end_char(s@, c),
{
    let mut n = s.len();
    assert(s@.take(n as int) == s@);
    while n > 0 && s[n - 1] == c
        invariant
            n <= s.len(),
            trim_end_char(s@.take(n as int), c) == trim_end_char(s@, c),
        decreases n,
    {
        assert(s@.take(n as int).drop_last() == s@.take(n - 1));
        n = n - 1;
    }
    assert(s@.take(n as int) == s@.subrange(0, n as int));
    sub_chars(s, 0, n)
}

} // verus!
