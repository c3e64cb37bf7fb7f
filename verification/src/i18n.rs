//! Translation of interface texts: look a text up in the user's locale,
//! fall back to English and then to the text itself, and fill in the
//! `{name}` placeholders.
use vstd::prelude::*;
use crate::text::{
    chars_eq, chars_find, chars_lt, chars_of, find, lex_lt, push_all, string_of, sub_chars,
};

verus! {

/// The translations of every locale: for each locale name, the pairs of
/// (English text, translated text).
pub struct Translations {
    pub locales: Vec<(String, Vec<(String, String)>)>,
}

/// The table of one locale as plain sequences.
pub type SpecTable = Seq<(Seq<char>, Seq<char>)>;

impl Translations {
    /// The locales and their tables.
    pub open spec fn tables(&self) -> Seq<(Seq<char>, SpecTable)> {
        self.locales.deep_view()
    }

    /// No locale appears twice, and no text appears twice in one table.
    pub open spec fn wf(&self) -> bool {
        &&& distinct_firsts(self.tables())
        &&& forall|i: int| 0 <= i < self.tables().len() ==> distinct_firsts(#[trigger] self.tables()[i].1)
    }

    /// An empty set of translations.
    pub fn new() -> (r: Translations)
        ensures
            r.tables() == Seq::<(Seq<char>, SpecTable)>::empty(),
            r.wf(),
    {
        let r = Translations { locales: Vec::new() };
        assert(r.tables() =~= Seq::<(Seq<char>, SpecTable)>::empty());
        r
    }
}

/// The first components of `s` are pairwise distinct.
pub open spec fn distinct_firsts<A, B>(s: Seq<(A, B)>) -> bool {
    forall|i: int, j: int| 0 <= i < j < s.len() ==> s[i].0 != s[j].0
}

/// The second component paired with the first occurrence of `k`.
pub open spec fn assoc<A, B>(s: Seq<(A, B)>, k: A) -> Option<B>
    decreases s.len(),
{
    if s.len() == 0 {
        None
    } else if s[0].0 == k {
        Some(s[0].1)
    } else {
        assoc(s.drop_first(), k)
    }
}

/// The English locale name.
pub open spec fn english() -> Seq<char> {
    seq!['e', 'n']
}

/// The template for `key` in `locale`: the locale's table, or else the
/// English one, gives the translation; without one, the key itself.
pub open spec fn template(tables: Seq<(Seq<char>, SpecTable)>, key: Seq<char>, locale: Seq<char>) -> Seq<char> {
    let table = match assoc(tables, locale) {
        Some(t) => Some(t),
        None => assoc(tables, english()),
    };
    match table {
        Some(t) => match assoc(t, key) {
            Some(v) => v,
            None => key,
        },
        None => key,
    }
}

/// Every occurrence of `pat` in `s` replaced by `rep`, scanning from the left
/// (`str::replace`; the patterns used here are never empty).
pub open spec fn replace_all(s: Seq<char>, pat: Seq<char>, rep: Seq<char>) -> Seq<char>
    decreases s.len(),
{
    if pat.len() == 0 {
        s
    } else {
        match find(s, pat) {
            None => s,
            Some(j) => if 0 <= j && j + pat.len() <= s.len() {
                s.take(j) + rep + replace_all(s.skip(j + pat.len()), pat, rep)
            } else {
                s
            },
        }
    }
}

/// The placeholder of a variable: its name in braces.
pub open spec fn placeholder(name: Seq<char>) -> Seq<char> {
    seq!['{'] + name + seq!['}']
}

/// The index of the variable with the smallest name (names compared by
/// code point, as a `BTreeMap<String, _>` orders them); of several with that
/// name, the last one.
pub open spec fn min_key_index(s: Seq<(Seq<char>, Seq<char>)>) -> int
    decreases s.len(),
{
    if s.len() <= 1 {
        0
    } else {
        let j = min_key_index(s.drop_last());
        if !lex_lt(s[j].0, s.last().0) {
            s.len() - 1
        } else {
            j
        }
    }
}

/// The variables without those named `k`, in their order.
pub open spec fn without_key(s: Seq<(Seq<char>, Seq<char>)>, k: Seq<char>) -> Seq<(Seq<char>, Seq<char>)>
    decreases s.len(),
{
    if s.len() == 0 {
        s
    } else if s.last().0 == k {
        without_key(s.drop_last(), k)
    } else {
        without_key(s.drop_last(), k).push(s.last())
    }
}

/// `min_key_index` is an index of a non-empty sequence.
pub proof fn lemma_min_key_index(s: Seq<(Seq<char>, Seq<char>)>)
    requires
        s.len() > 0,
    ensures
        0 <= min_key_index(s) < s.len(),
    decreases s.len(),
{
    if s.len() > 1 {
        lemma_min_key_index(s.drop_last());
    }
}

/// Dropping the variables named `k` keeps no more of them, and fewer where
/// one is named `k`.
pub proof fn lemma_without_key_len(s: Seq<(Seq<char>, Seq<char>)>, k: Seq<char>)
    ensures
        without_key(s, k).len() <= s.len(),
        (exists|i: int| 0 <= i < s.len() && s[i].0 == k) ==> without_key(s, k).len() < s.len(),
    decreases s.len(),
{
    if s.len() > 0 {
        lemma_without_key_len(s.drop_last(), k);
        if exists|i: int| 0 <= i < s.len() && s[i].0 == k {
            let i = choose|i: int| 0 <= i < s.len() && s[i].0 == k;
            if i < s.len() - 1 {
                assert(s.drop_last()[i].0 == k);
            }
        }
    }
}

/// The template with each variable's placeholder replaced by its value, the
/// variables taken in ascending order of name (as iterating a map keyed by
/// name does; of several with one name, the last one's value counts).
pub open spec fn substitute(t: Seq<char>, vars: Seq<(Seq<char>, Seq<char>)>) -> Seq<char>
    decreases vars.len(),
{
    if vars.len() == 0 {
        t
    } else {
        let i = min_key_index(vars);
        proof {
            lemma_min_key_index(vars);
            lemma_without_key_len(vars, vars[i].0);
        }
        substitute(replace_all(t, placeholder(vars[i].0), vars[i].1), without_key(vars, vars[i].0))
    }
}

/// What `t` gives.
pub open spec fn translated(
    tables: Seq<(Seq<char>, SpecTable)>,
    key: Seq<char>,
    locale: Seq<char>,
    vars: Option<Seq<(Seq<char>, Seq<char>)>>,
) -> Seq<char> {
    match vars {
        Some(v) => substitute(template(tables, key, locale), v),
        None => template(tables, key, locale),
    }
}

/// Where the first components are distinct, the pair at `i` is what its
/// first component finds.
pub proof fn lemma_assoc_at<A, B>(s: Seq<(A, B)>, i: int)
    requires
        distinct_firsts(s),
        0 <= i < s.len(),
    ensures
        assoc(s, s[i].0) == Some(s[i].1),
    decreases s.len(),
{
    if i > 0 {
        assert(s.drop_first()[i - 1] == s[i]);
        lemma_assoc_at(s.drop_first(), i - 1);
    }
}

/// A first component that occurs nowhere finds nothing.
pub proof fn lemma_assoc_absent<A, B>(s: Seq<(A, B)>, k: A)
    requires
        forall|i: int| 0 <= i < s.len() ==> s[i].0 != k,
    ensures
        assoc(s, k) is None,
    decreases s.len(),
{
    if s.len() > 0 {
        assert forall|i: int| 0 <= i < s.drop_first().len() implies s.drop_first()[i].0 != k by {
            assert(s.drop_first()[i] == s[i + 1]);
        }
        lemma_assoc_absent(s.drop_first(), k);
    }
}

/// What a first component finds is paired with it somewhere.
pub proof fn lemma_assoc_found<A, B>(s: Seq<(A, B)>, k: A)
    requires
        assoc(s, k) is Some,
    ensures
        exists|i: int| 0 <= i < s.len() && s[i].0 == k && Some(s[i].1) == assoc(s, k),
    decreases s.len(),
{
    if s[0].0 != k {
        lemma_assoc_found(s.drop_first(), k);
        let i = choose|i: int| 0 <= i < s.drop_first().len() && s.drop_first()[i].0 == k && Some(s.drop_first()[i].1) == assoc(s.drop_first(), k);
        assert(s[i + 1] == s.drop_first()[i]);
    } else {
        assert(s[0].0 == k);
    }
}

/// The fields of a JSON object, each name paired with its value where the
/// value is a string, as serde_json parses the text; `None` where the text is
/// not a JSON object.
pub uninterp spec fn json_object_fields(content: Seq<char>) -> Option<Seq<(Seq<char>, Option<Seq<char>>)>>;

/// `serde_json::from_str::<serde_json::Value>`, keeping an object's fields
/// with the string values told apart from the others.  The contract claims
/// that the result is a function of the text alone and that an object's
/// field names are distinct (a `serde_json::Map` holds each key once).
#[verifier::external_body]
fn parse_json_object_fields(content: &str) -> (r: Option<Vec<(String, Option<String>)>>)
    ensures
        r.deep_view() == json_object_fields(content@),
        r matches Some(f) ==> distinct_firsts(f.deep_view()),
{
    match serde_json::from_str::<serde_json::Value>(content) {
        Ok(serde_json::Value::Object(obj)) => Some(
            obj.into_iter().map(|(k, v)| match v {
                serde_json::Value::String(s) => (k, Some(s)),
                _ => (k, None),
            }).collect(),
        ),
        _ => None,
    }
}

/// The fields whose values are strings.
pub open spec fn string_fields(f: Seq<(Seq<char>, Option<Seq<char>>)>) -> SpecTable
    decreases f.len(),
{
    if f.len() == 0 {
        seq![]
    } else {
        let rest = string_fields(f.drop_last());
        match f.last().1 {
            Some(v) => rest.push((f.last().0, v)),
            None => rest,
        }
    }
}

/// The table that loading `sources` (pairs of locale name and JSON text)
/// leaves for `locale`: that of the last source with that name whose text is
/// a JSON object.
pub open spec fn loaded_table(sources: Seq<(Seq<char>, Seq<char>)>, locale: Seq<char>) -> Option<SpecTable>
    decreases sources.len(),
{
    if sources.len() == 0 {
        None
    } else {
        let last = sources.last();
        if last.0 == locale && json_object_fields(last.1) is Some {
            Some(string_fields(json_object_fields(last.1)->0))
        } else {
            loaded_table(sources.drop_last(), locale)
        }
    }
}

/// Every name in `string_fields(f)` is a name of `f`, and they stay distinct.
proof fn lemma_string_fields_names(f: Seq<(Seq<char>, Option<Seq<char>>)>)
    requires
        distinct_firsts(f),
    ensures
        distinct_firsts(string_fields(f)),
        forall|i: int| 0 <= i < string_fields(f).len() ==> exists|j: int| 0 <= j < f.len() && f[j].0 == #[trigger] string_fields(f)[i].0,
    decreases f.len(),
{
    if f.len() > 0 {
        let g = f.drop_last();
        assert(distinct_firsts(g));
        lemma_string_fields_names(g);
        let rest = string_fields(g);
        assert forall|i: int| 0 <= i < rest.len() implies exists|j: int| 0 <= j < f.len() && f[j].0 == #[trigger] rest[i].0 by {
            let j = choose|j: int| 0 <= j < g.len() && g[j].0 == rest[i].0;
            assert(f[j] == g[j]);
        }
        if f.last().1 is Some {
            assert forall|i: int| 0 <= i < rest.len() implies rest[i].0 != f.last().0 by {
                let j = choose|j: int| 0 <= j < g.len() && g[j].0 == rest[i].0;
                assert(f[j] == g[j]);
            }
            let r = string_fields(f);
            assert forall|i: int| 0 <= i < r.len() implies exists|j: int| 0 <= j < f.len() && f[j].0 == #[trigger] r[i].0 by {
                if i < rest.len() {
                    assert(r[i] == rest[i]);
                } else {
                    assert(f[f.len() - 1].0 == r[i].0);
                }
            }
        }
    }
}

/// The string-valued fields of a JSON object's fields, in order.
fn keep_string_fields(f: &Vec<(String, Option<String>)>) -> (r: Vec<(String, String)>)
    ensures
        r.deep_view() == string_fields(f.deep_view()),
{
    let mut r: Vec<(String, String)> = Vec::new();
    let mut i: usize = 0;
    while i < f.len()
        invariant
            i <= f.len(),
            f.deep_view().len() == f.len(),
            r.deep_view() == string_fields(f.deep_view().take(i as int)),
        decreases f.len() - i,
    {
        assert(f.deep_view().take(i + 1).drop_last() == f.deep_view().take(i as int));
        assert(f.deep_view().take(i + 1).last() == f.deep_view()[i as int]);
        let ghost before = r.deep_view();
        match &f[i].1 {
            Some(v) => {
                let k = f[i].0.clone();
                let vv = v.clone();
                r.push((k, vv));
                assert(r.deep_view() == before.push((f.deep_view()[i as int].0, v@)));
            },
            None => {},
        }
        i = i + 1;
    }
    assert(f.deep_view().take(f.len() as int) == f.deep_view());
    r
}

impl Translations {
    /// Sets the table of `name`, replacing the one it had.
    pub fn insert_locale(&mut self, name: String, table: Vec<(String, String)>)
        requires
            old(self).wf(),
            distinct_firsts(table.deep_view()),
        ensures
            final(self).wf(),
            forall|l: Seq<char>| #[trigger] assoc(final(self).tables(), l) == if l == name@ {
                Some(table.deep_view())
            } else {
                assoc(old(self).tables(), l)
            },
    {
        let n = chars_of(name.as_str());
        let ghost old_t = self.tables();
        let ghost tv = table.deep_view();
        match find_table(self, &n) {
            Some(i) => {
                proof {
                    lemma_assoc_found(old_t, name@);
                    let j = choose|j: int| 0 <= j < old_t.len() && old_t[j].0 == name@ && Some(old_t[j].1) == assoc(old_t, name@);
                    if j != i {
                        lemma_assoc_at(old_t, i as int);
                        lemma_assoc_at(old_t, j);
                    }
                }
                self.locales.set(i, (name, table));
                proof {
                    let new_t = self.tables();
                    assert(new_t == old_t.update(i as int, (name@, tv)));
                    assert forall|a: int, b: int| 0 <= a < b < new_t.len() implies new_t[a].0 != new_t[b].0 by {
                        assert(new_t[a].0 == old_t[a].0);
                        assert(new_t[b].0 == old_t[b].0);
                    }
                    assert forall|l: Seq<char>| #[trigger] assoc(new_t, l) == if l == name@ {
                        Some(tv)
                    } else {
                        assoc(old_t, l)
                    } by {
                        if l == name@ {
                            lemma_assoc_at(new_t, i as int);
                        } else {
                            if assoc(old_t, l) is Some {
                                lemma_assoc_found(old_t, l);
                                let j = choose|j: int| 0 <= j < old_t.len() && old_t[j].0 == l && Some(old_t[j].1) == assoc(old_t, l);
                                lemma_assoc_at(old_t, j);
                                lemma_assoc_at(new_t, j);
                            } else {
                                assert forall|j: int| 0 <= j < new_t.len() implies new_t[j].0 != l by {
                                    if j != i && old_t[j].0 == l {
                                        lemma_assoc_at(old_t, j);
                                    }
                                }
                                lemma_assoc_absent(new_t, l);
                            }
                        }
                    }
                    assert forall|k: int| 0 <= k < new_t.len() implies distinct_firsts(#[trigger] new_t[k].1) by {
                        if k != i {
                            assert(new_t[k] == old_t[k]);
                        }
                    }
                }
            },
            None => {
                self.locales.push((name, table));
                proof {
                    let new_t = self.tables();
                    assert(new_t == old_t.push((name@, tv)));
                    assert forall|j: int| 0 <= j < old_t.len() implies old_t[j].0 != name@ by {
                        if old_t[j].0 == name@ {
                            lemma_assoc_at(old_t, j);
                        }
                    }
                    assert forall|l: Seq<char>| #[trigger] assoc(new_t, l) == if l == name@ {
                        Some(tv)
                    } else {
                        assoc(old_t, l)
                    } by {
                        if l == name@ {
                            lemma_assoc_at(new_t, old_t.len() as int);
                        } else {
                            lemma_assoc_push_other(old_t, (name@, tv), l);
                        }
                    }
                    assert forall|k: int| 0 <= k < new_t.len() implies distinct_firsts(#[trigger] new_t[k].1) by {
                        if k < old_t.len() {
                            assert(new_t[k] == old_t[k]);
                        }
                    }
                }
            },
        }
    }

    /// Loads the translations from pairs of locale name and JSON text: each
    /// text that is a JSON object gives its string-valued fields as the table
    /// of its locale (a later source of the same name replaces an earlier one);
    /// other texts are skipped.
    pub fn from_json_sources(sources: &Vec<(String, String)>) -> (r: Translations)
        ensures
            r.wf(),
            forall|l: Seq<char>| #[trigger] assoc(r.tables(), l) == loaded_table(sources.deep_view(), l),
    {
        let mut tr = Translations::new();
        let mut i: usize = 0;
        while i < sources.len()
            invariant
                i <= sources.len(),
                sources.deep_view().len() == sources.len(),
                tr.wf(),
                forall|l: Seq<char>| #[trigger] assoc(tr.tables(), l) == loaded_table(sources.deep_view().take(i as int), l),
            decreases sources.len() - i,
        {
            let ghost pre = sources.deep_view().take(i as int);
            let ghost cur = sources.deep_view().take(i + 1);
            assert(cur.drop_last() == pre);
            assert(cur.last() == sources.deep_view()[i as int]);
            let parsed = parse_json_object_fields(sources[i].1.as_str());
            match parsed {
                Some(fields) => {
                    proof {
                        lemma_string_fields_names(fields.deep_view());
                    }
                    let table = keep_string_fields(&fields);
                    let name = sources[i].0.clone();
                    tr.insert_locale(name, table);
                },
                None => {},
            }
            i = i + 1;
        }
        assert(sources.deep_view().take(sources.len() as int) == sources.deep_view());
        tr
    }
}

/// Pushing a pair does not change what other first components find.
pub proof fn lemma_assoc_push_other<A, B>(s: Seq<(A, B)>, x: (A, B), k: A)
    requires
        x.0 != k,
    ensures
        assoc(s.push(x), k) == assoc(s, k),
    decreases s.len(),
{
    let t = s.push(x);
    if s.len() > 0 {
        assert(t[0] == s[0]);
        assert(t.drop_first() == s.drop_first().push(x));
        lemma_assoc_push_other(s.drop_first(), x, k);
        if s[0].0 != k {
            assert(assoc(t, k) == assoc(t.drop_first(), k));
            assert(assoc(s, k) == assoc(s.drop_first(), k));
        }
    } else {
        assert(t[0] == x);
        assert(t.drop_first() == Seq::<(A, B)>::empty());
        assert(assoc(t, k) == assoc(t.drop_first(), k));
    }
}

/// The table paired with `name`, if any.
fn find_table<'a>(tr: &'a Translations, name: &Vec<char>) -> (r: Option<usize>)
    ensures
        match r {
            Some(i) => i < tr.tables().len() && assoc(tr.tables(), name@) == Some(tr.tables()[i as int].1)
                && tr.tables()[i as int].0 == name@,
            None => assoc(tr.tables(), name@) is None,
        },
{
    let mut i: usize = 0;
    assert(tr.tables().skip(0) == tr.tables());
    while i < tr.locales.len()
        invariant
            i <= tr.locales.len(),
            tr.tables().len() == tr.locales.len(),
            assoc(tr.tables(), name@) == assoc(tr.tables().skip(i as int), name@),
        decreases tr.locales.len() - i,
    {
        let n = chars_of(tr.locales[i].0.as_str());
        assert(tr.tables()[i as int].0 == tr.locales@[i as int].0@);
        assert(tr.tables().skip(i as int).drop_first() == tr.tables().skip(i + 1));
        assert(tr.tables().skip(i as int)[0].0 == n@);
        if chars_eq(&n, name) {
            return Some(i);
        }
        i = i + 1;
    }
    None
}

/// The translation paired with `key` in a table, if any.
fn find_entry(table: &Vec<(String, String)>, key: &Vec<char>) -> (r: Option<usize>)
    ensures
        match r {
            Some(i) => i < table.len() && assoc(table.deep_view(), key@) == Some(table.deep_view()[i as int].1),
            None => assoc(table.deep_view(), key@) is None,
        },
{
    let mut i: usize = 0;
    assert(table.deep_view().skip(0) == table.deep_view());
    while i < table.len()
        invariant
            i <= table.len(),
            table.deep_view().len() == table.len(),
            assoc(table.deep_view(), key@) == assoc(table.deep_view().skip(i as int), key@),
        decreases table.len() - i,
    {
        let n = chars_of(table[i].0.as_str());
        assert(table.deep_view()[i as int].0 == table@[i as int].0@);
        assert(table.deep_view().skip(i as int).drop_first() == table.deep_view().skip(i + 1));
        assert(table.deep_view().skip(i as int)[0].0 == n@);
        if chars_eq(&n, key) {
            return Some(i);
        }
        i = i + 1;
    }
    None
}

/// Replaces every occurrence of `pat` in `s` by `rep`, from the left.
pub fn replace_chars(s: &Vec<char>, pat: &Vec<char>, rep: &Vec<char>) -> (r: Vec<char>)
    requires
        pat.len() > 0,
    ensures
        r@ == replace_all(s@, pat@, rep@),
{
    let mut out: Vec<char> = Vec::new();
    let mut rest = sub_chars(s, 0, s.len());
    assert(rest@ == s@);
    loop
        invariant
            pat.len() > 0,
            out@ + replace_all(rest@, pat@, rep@) == replace_all(s@, pat@, rep@),
        decreases rest.len(),
    {
        match chars_find(&rest, pat) {
            None => {
                push_all(&mut out, &rest);
                return out;
            },
            Some(j) => {
                let head = sub_chars(&rest, 0, j);
                let tail = sub_chars(&rest, j + pat.len(), rest.len());
                assert(head@ == rest@.take(j as int));
                assert(tail@ == rest@.skip(j + pat@.len()));
                let ghost before = out@;
                push_all(&mut out, &head);
                push_all(&mut out, rep);
                assert(out@ + replace_all(tail@, pat@, rep@) == before + (rest@.take(j as int) + rep@
                    + replace_all(rest@.skip(j + pat@.len()), pat@, rep@)));
                rest = tail;
            },
        }
    }
}

/// The index of the variable with the smallest name (the last of equals).
fn min_key_index_exec(vars: &Vec<(Vec<char>, Vec<char>)>) -> (r: usize)
    requires
        vars.len() > 0,
    ensures
        r == min_key_index(pairs_view(vars@)),
        r < vars.len(),
{
    let ghost s = pairs_view(vars@);
    let mut best: usize = 0;
    let mut i: usize = 1;
    assert(s.take(1).len() == 1);
    while i < vars.len()
        invariant
            1 <= i <= vars.len(),
            s == pairs_view(vars@),
            best < i,
            best == min_key_index(s.take(i as int)),
        decreases vars.len() - i,
    {
        let ghost st = s.take(i + 1);
        assert(st.drop_last() == s.take(i as int));
        assert(st.last() == s[i as int]);
        assert(st[best as int] == s[best as int]);
        if !chars_lt(&vars[best].0, &vars[i].0) {
            best = i;
        }
        i = i + 1;
    }
    assert(s.take(vars.len() as int) == s);
    best
}

/// The pairs of character vectors as plain values.
pub open spec fn pairs_view(v: Seq<(Vec<char>, Vec<char>)>) -> Seq<(Seq<char>, Seq<char>)> {
    Seq::new(v.len(), |i: int| (v[i].0@, v[i].1@))
}

/// The variables without those named `k`.
fn without_key_exec(vars: &Vec<(Vec<char>, Vec<char>)>, k: &Vec<char>) -> (r: Vec<(Vec<char>, Vec<char>)>)
    ensures
        pairs_view(r@) == without_key(pairs_view(vars@), k@),
{
    let ghost s = pairs_view(vars@);
    let mut out: Vec<(Vec<char>, Vec<char>)> = Vec::new();
    let mut i: usize = 0;
    assert(pairs_view(out@) =~= without_key(s.take(0), k@));
    while i < vars.len()
        invariant
            i <= vars.len(),
            s == pairs_view(vars@),
            pairs_view(out@) == without_key(s.take(i as int), k@),
        decreases vars.len() - i,
    {
        let ghost st = s.take(i + 1);
        assert(st.drop_last() == s.take(i as int));
        assert(st.last() == s[i as int]);
        if !chars_eq(&vars[i].0, k) {
            let ghost before = pairs_view(out@);
            out.push((vars[i].0.clone(), vars[i].1.clone()));
            assert(pairs_view(out@) =~= before.push(s[i as int]));
        }
        i = i + 1;
    }
    assert(s.take(vars.len() as int) == s);
    out
}

/// Replaces the placeholder of each variable by its value, the variables in
/// ascending order of name.
fn substitute_exec(t: Vec<char>, vars: &Vec<(String, String)>) -> (r: Vec<char>)
    ensures
        r@ == substitute(t@, vars.deep_view()),
{
    let mut rest: Vec<(Vec<char>, Vec<char>)> = Vec::new();
    let mut i: usize = 0;
    while i < vars.len()
        invariant
            i <= vars.len(),
            vars.deep_view().len() == vars.len(),
            pairs_view(rest@) == vars.deep_view().take(i as int),
        decreases vars.len() - i,
    {
        let ghost before = pairs_view(rest@);
        let a = chars_of(vars[i].0.as_str());
        let b = chars_of(vars[i].1.as_str());
        rest.push((a, b));
        assert(vars.deep_view()[i as int] == (vars@[i as int].0@, vars@[i as int].1@));
        assert(pairs_view(rest@) =~= before.push((a@, b@)));
        assert(vars.deep_view().take(i + 1) =~= vars.deep_view().take(i as int).push(vars.deep_view()[i as int]));
        i = i + 1;
    }
    assert(vars.deep_view().take(vars.len() as int) == vars.deep_view());
    let mut cur = t;
    while rest.len() > 0
        invariant
            substitute(cur@, pairs_view(rest@)) == substitute(t@, vars.deep_view()),
        decreases rest.len(),
    {
        let ghost s = pairs_view(rest@);
        let m = min_key_index_exec(&rest);
        let name = rest[m].0.clone();
        let value = rest[m].1.clone();
        assert(name@ == s[m as int].0 && value@ == s[m as int].1);
        let mut pat = vec!['{'];
        push_all(&mut pat, &name);
        pat.push('}');
        assert(pat@ == placeholder(name@));
        cur = replace_chars(&cur, &pat, &value);
        let next = without_key_exec(&rest, &name);
        proof {
            lemma_without_key_len(s, name@);
        }
        rest = next;
    }
    assert(pairs_view(rest@) =~= Seq::<(Seq<char>, Seq<char>)>::empty());
    cur
}

/// Translates `key` into `locale` (falling back to English, then to the key
/// itself) and fills in the `{name}` placeholders of the given variables,
/// taken in ascending order of name.
pub fn t(tr: &Translations, key: &str, locale: &str, vars: Option<&Vec<(String, String)>>) -> (r: String)
    ensures
        r@ == translated(tr.tables(), key@, locale@, match vars {
            Some(v) => Some(v.deep_view()),
            None => None,
        }),
{
    let loc = chars_of(locale);
    let en = vec!['e', 'n'];
    assert(en@ == english());
    let k = chars_of(key);
    let table = match find_table(tr, &loc) {
        Some(i) => Some(i),
        None => find_table(tr, &en),
    };
    let templ: Vec<char> = match table {
        Some(i) => {
            let tab = &tr.locales[i].1;
            assert(tr.tables()[i as int].1 == tab.deep_view());
            match find_entry(tab, &k) {
                Some(j) => {
                    assert(tab.deep_view()[j as int].1 == tab@[j as int].1@);
                    chars_of(tab[j].1.as_str())
                },
                None => k,
            }
        },
        None => k,
    };
    assert(templ@ == template(tr.tables(), key@, locale@));
    match vars {
        Some(v) => {
            let r = substitute_exec(templ, v);
            string_of(&r)
        },
        None => string_of(&templ),
    }
}

/// The translation of `key` for a user, in the user's locale (English where
/// the user has none).
pub fn translate(tr: &Translations, user_locale: Option<&String>, key: &str, vars: Option<&Vec<(String, String)>>) -> (r: String)
    ensures
        r@ == translated(tr.tables(), key@, match user_locale {
            Some(l) => l@,
            None => english(),
        }, match vars {
            Some(v) => Some(v.deep_view()),
            None => None,
        }),
{
    match user_locale {
        Some(l) => t(tr, key, l.as_str(), vars),
        None => {
            let en = string_of(&vec!['e', 'n']);
            proof {
                assert(en@ == english());
            }
            t(tr, key, en.as_str(), vars)
        },
    }
}

} // verus!
