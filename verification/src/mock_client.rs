//! The state machine of the mock torrent client used by the command-line
//! tool and the tests: torrents kept in hash order, errors injected per
//! method that fire once, and the alternative speed-limit flag.  Reading and
//! writing the state file is left to the caller.
use vstd::prelude::*;
use crate::i18n::{assoc, distinct_firsts, lemma_assoc_absent, lemma_assoc_at, lemma_assoc_found};
use crate::text::{
    chars_eq, chars_lt, chars_of, hex_lower_digits, hex_lower_digits_chars, lowercase,
    lemma_lex_irrefl, lemma_lex_total, lemma_lex_trans, lex_lt, push_all, split_char,
    split_on_char, string_of, sub_chars, chars_ends_with, owned, trim_end_all, trim_ws,
    trim_whitespace,
};
use crate::torrent_client::{Torrent, TorrentSpec};
use crate::utils::{btih_marker, extract_hash_from_magnet, extracted_hash, magnet_hash_sliceable, marker_slice_ok};

verus! {

/// The methods of the mock client that an error can be injected into.
#[derive(Debug, Clone, Copy, PartialEq, Eq, Structural, Hash, PartialOrd, Ord)]
pub enum MockMethod {
    AddMagnet,
    AddTorrent,
    GetTorrent,
    GetTorrents,
    Pause,
    Resume,
    PauseAll,
    ResumeAll,
    DeleteOneNoData,
    DeleteOneData,
    CheckConnection,
    ToggleSpeedLimit,
}

/// The state of the mock client.
pub struct FileState {
    pub torrents: Vec<Torrent>,
    pub next_errors: Vec<(MockMethod, String)>,
    pub speed_limit_active: bool,
    pub next_id: u64,
}

/// The state of the mock client as plain values.
pub struct MockView {
    pub torrents: Seq<TorrentSpec>,
    pub errors: Seq<(MockMethod, Seq<char>)>,
    pub speed: bool,
    pub next_id: u64,
}

impl View for FileState {
    type V = MockView;

    open spec fn view(&self) -> MockView {
        MockView {
            torrents: Seq::new(self.torrents@.len(), |i: int| self.torrents@[i]@),
            errors: Seq::new(self.next_errors@.len(), |i: int| (self.next_errors@[i].0, self.next_errors@[i].1@)),
            speed: self.speed_limit_active,
            next_id: self.next_id,
        }
    }
}

// ---------------------------------------------------------------------------
// The torrents, in hash order
// ---------------------------------------------------------------------------

/// The torrents are in strictly increasing hash order.
pub open spec fn sorted(ts: Seq<TorrentSpec>) -> bool {
    forall|i: int, j: int| 0 <= i < j < ts.len() ==> lex_lt(ts[i].hash, ts[j].hash)
}

/// The number of torrents whose hash comes before `h`.
pub open spec fn pos(ts: Seq<TorrentSpec>, h: Seq<char>) -> nat
    decreases ts.len(),
{
    if ts.len() == 0 {
        0
    } else if lex_lt(ts.last().hash, h) {
        ts.len()
    } else {
        pos(ts.drop_last(), h)
    }
}

/// The torrent with hash `h`.
pub open spec fn lookup(ts: Seq<TorrentSpec>, h: Seq<char>) -> Option<TorrentSpec> {
    let i = pos(ts, h) as int;
    if i < ts.len() && ts[i].hash == h {
        Some(ts[i])
    } else {
        None
    }
}

/// The torrents with `t` added, replacing the one with the same hash.
pub open spec fn insert_torrent(ts: Seq<TorrentSpec>, t: TorrentSpec) -> Seq<TorrentSpec> {
    let i = pos(ts, t.hash) as int;
    if i < ts.len() && ts[i].hash == t.hash {
        ts.update(i, t)
    } else {
        ts.insert(i, t)
    }
}

/// The torrents without the one with hash `h`.
pub open spec fn remove_torrent(ts: Seq<TorrentSpec>, h: Seq<char>) -> Seq<TorrentSpec> {
    let i = pos(ts, h) as int;
    if i < ts.len() && ts[i].hash == h {
        ts.remove(i)
    } else {
        ts
    }
}

/// The torrent with its state replaced.
pub open spec fn with_state(t: TorrentSpec, s: Seq<char>) -> TorrentSpec {
    TorrentSpec { state: s, ..t }
}

/// The torrent with its category replaced.
pub open spec fn with_category(t: TorrentSpec, c: Seq<char>) -> TorrentSpec {
    TorrentSpec { category: Some(c), ..t }
}

/// The torrents with the one of hash `h` changed by `f`, if there is one.
pub open spec fn update_torrent(ts: Seq<TorrentSpec>, h: Seq<char>, f: spec_fn(TorrentSpec) -> TorrentSpec) -> Seq<TorrentSpec> {
    let i = pos(ts, h) as int;
    if i < ts.len() && ts[i].hash == h {
        ts.update(i, f(ts[i]))
    } else {
        ts
    }
}

/// Where `pos` falls in a sorted sequence: before it all hashes are smaller,
/// from it on none is.
pub proof fn lemma_pos(ts: Seq<TorrentSpec>, h: Seq<char>)
    requires
        sorted(ts),
    ensures
        pos(ts, h) <= ts.len(),
        forall|k: int| 0 <= k < pos(ts, h) ==> lex_lt(#[trigger] ts[k].hash, h),
        forall|k: int| pos(ts, h) <= k < ts.len() ==> !lex_lt(#[trigger] ts[k].hash, h),
    decreases ts.len(),
{
    if ts.len() > 0 {
        let p = ts.drop_last();
        assert(sorted(p)) by {
            assert forall|i: int, j: int| 0 <= i < j < p.len() implies lex_lt(p[i].hash, p[j].hash) by {
                assert(p[i] == ts[i] && p[j] == ts[j]);
            }
        }
        lemma_pos(p, h);
        if lex_lt(ts.last().hash, h) {
            assert forall|k: int| 0 <= k < ts.len() implies lex_lt(#[trigger] ts[k].hash, h) by {
                if k < ts.len() - 1 {
                    lemma_lex_trans(ts[k].hash, ts.last().hash, h);
                }
            }
        } else {
            assert forall|k: int| 0 <= k < pos(ts, h) implies lex_lt(#[trigger] ts[k].hash, h) by {
                assert(ts[k] == p[k]);
            }
            assert forall|k: int| pos(ts, h) <= k < ts.len() implies !lex_lt(#[trigger] ts[k].hash, h) by {
                if k < ts.len() - 1 {
                    assert(ts[k] == p[k]);
                }
            }
        }
    }
}

/// In a sorted sequence, a hash found at any index is found by `lookup`.
pub proof fn lemma_lookup_at(ts: Seq<TorrentSpec>, k: int)
    requires
        sorted(ts),
        0 <= k < ts.len(),
    ensures
        lookup(ts, ts[k].hash) == Some(ts[k]),
        pos(ts, ts[k].hash) == k,
{
    let h = ts[k].hash;
    lemma_pos(ts, h);
    lemma_lex_irrefl(h);
    let p = pos(ts, h) as int;
    if p < k {
        assert(!lex_lt(ts[p].hash, h));
        lemma_lex_total(ts[p].hash, h);
        assert(lex_lt(ts[p].hash, ts[k].hash));
    } else if p > k {
        assert(lex_lt(ts[k].hash, h));
    }
}

/// Adding a torrent keeps the torrents sorted, finds it under its hash and
/// leaves the other hashes as they were.
pub proof fn lemma_insert(ts: Seq<TorrentSpec>, t: TorrentSpec)
    requires
        sorted(ts),
    ensures
        sorted(insert_torrent(ts, t)),
        lookup(insert_torrent(ts, t), t.hash) == Some(t),
        forall|h: Seq<char>| h != t.hash ==> #[trigger] lookup(insert_torrent(ts, t), h) == lookup(ts, h),
{
    let h = t.hash;
    lemma_pos(ts, h);
    let i = pos(ts, h) as int;
    let r = insert_torrent(ts, t);
    if i < ts.len() && ts[i].hash == h {
        assert(r == ts.update(i, t));
        assert forall|a: int, b: int| 0 <= a < b < r.len() implies lex_lt(r[a].hash, r[b].hash) by {
            assert(r[a].hash == ts[a].hash);
            assert(r[b].hash == ts[b].hash);
        }
        lemma_lookup_at(r, i);
        assert forall|g: Seq<char>| g != h implies #[trigger] lookup(r, g) == lookup(ts, g) by {
            lemma_pos(r, g);
            lemma_pos(ts, g);
            assert forall|k: int| 0 <= k < r.len() implies r[k].hash == ts[k].hash by {}
            if lookup(ts, g) is Some {
                let k = pos(ts, g) as int;
                assert(ts[k].hash == g);
                lemma_lookup_at(r, k);
                lemma_lookup_at(ts, k);
            } else {
                assert forall|k: int| 0 <= k < r.len() implies r[k].hash != g by {
                    if r[k].hash == g {
                        lemma_lookup_at(ts, k);
                    }
                }
            }
        }
    } else {
        assert(r == ts.insert(i, t));
        assert forall|a: int, b: int| 0 <= a < b < r.len() implies lex_lt(r[a].hash, r[b].hash) by {
            if b < i {
                assert(r[a] == ts[a] && r[b] == ts[b]);
            } else if b == i {
                assert(r[a] == ts[a]);
            } else if a < i {
                assert(r[a] == ts[a] && r[b] == ts[b - 1]);
                lemma_lex_total(ts[b - 1].hash, h);
                if ts[b - 1].hash != h {
                    lemma_lex_trans(ts[a].hash, h, ts[b - 1].hash);
                } else {
                    lemma_lookup_at(ts, b - 1);
                }
            } else if a == i {
                assert(r[b] == ts[b - 1]);
                lemma_lex_total(ts[b - 1].hash, h);
                if ts[b - 1].hash == h {
                    lemma_lookup_at(ts, b - 1);
                }
            } else {
                assert(r[a] == ts[a - 1] && r[b] == ts[b - 1]);
            }
        }
        assert(r[i] == t);
        lemma_lookup_at(r, i);
        assert forall|g: Seq<char>| g != h implies #[trigger] lookup(r, g) == lookup(ts, g) by {
            if lookup(ts, g) is Some {
                lemma_pos(ts, g);
                let k = pos(ts, g) as int;
                lemma_lookup_at(ts, k);
                let k2 = if k < i { k } else { k + 1 };
                assert(r[k2] == ts[k]);
                lemma_lookup_at(r, k2);
            } else {
                assert forall|k: int| 0 <= k < r.len() implies r[k].hash != g by {
                    if k != i {
                        let k0 = if k < i { k } else { k - 1 };
                        assert(r[k] == ts[k0]);
                        if ts[k0].hash == g {
                            lemma_lookup_at(ts, k0);
                        }
                    }
                }
                lemma_pos(r, g);
            }
        }
    }
}

/// Removing a torrent keeps the torrents sorted, loses its hash and leaves
/// the other hashes as they were.
pub proof fn lemma_remove(ts: Seq<TorrentSpec>, h: Seq<char>)
    requires
        sorted(ts),
    ensures
        sorted(remove_torrent(ts, h)),
        lookup(remove_torrent(ts, h), h) is None,
        forall|g: Seq<char>| g != h ==> #[trigger] lookup(remove_torrent(ts, h), g) == lookup(ts, g),
{
    lemma_pos(ts, h);
    let i = pos(ts, h) as int;
    let r = remove_torrent(ts, h);
    if i < ts.len() && ts[i].hash == h {
        assert(r == ts.remove(i));
        assert forall|a: int, b: int| 0 <= a < b < r.len() implies lex_lt(r[a].hash, r[b].hash) by {
            let a0 = if a < i { a } else { a + 1 };
            let b0 = if b < i { b } else { b + 1 };
            assert(r[a] == ts[a0] && r[b] == ts[b0]);
        }
        assert forall|k: int| 0 <= k < r.len() implies r[k].hash != h by {
            let k0 = if k < i { k } else { k + 1 };
            assert(r[k] == ts[k0]);
            lemma_lookup_at(ts, k0);
        }
        assert forall|g: Seq<char>| g != h implies #[trigger] lookup(r, g) == lookup(ts, g) by {
            if lookup(ts, g) is Some {
                lemma_pos(ts, g);
                let k = pos(ts, g) as int;
                lemma_lookup_at(ts, k);
                assert(k != i);
                let k2 = if k < i { k } else { k - 1 };
                assert(r[k2] == ts[k]);
                lemma_lookup_at(r, k2);
            } else {
                assert forall|k: int| 0 <= k < r.len() implies r[k].hash != g by {
                    let k0 = if k < i { k } else { k + 1 };
                    assert(r[k] == ts[k0]);
                    if ts[k0].hash == g {
                        lemma_lookup_at(ts, k0);
                    }
                }
            }
        }
    } else {
        assert forall|k: int| 0 <= k < ts.len() implies ts[k].hash != h by {
            if ts[k].hash == h {
                lemma_lookup_at(ts, k);
            }
        }
    }
}

/// Changing one torrent by a function that keeps hashes keeps the
/// torrents sorted.
pub proof fn lemma_update(ts: Seq<TorrentSpec>, h: Seq<char>, f: spec_fn(TorrentSpec) -> TorrentSpec)
    requires
        sorted(ts),
        forall|t: TorrentSpec| #[trigger] f(t).hash == t.hash,
    ensures
        sorted(update_torrent(ts, h, f)),
        update_torrent(ts, h, f).len() == ts.len(),
        forall|k: int| 0 <= k < ts.len() ==> #[trigger] update_torrent(ts, h, f)[k].hash == ts[k].hash,
        lookup(ts, h) matches Some(t) ==> lookup(update_torrent(ts, h, f), h) == Some(f(t)),
        lookup(ts, h) is None ==> update_torrent(ts, h, f) == ts,
{
    lemma_pos(ts, h);
    let i = pos(ts, h) as int;
    let r = update_torrent(ts, h, f);
    if i < ts.len() && ts[i].hash == h {
        assert forall|k: int| 0 <= k < ts.len() implies #[trigger] r[k].hash == ts[k].hash by {}
        assert forall|a: int, b: int| 0 <= a < b < r.len() implies lex_lt(r[a].hash, r[b].hash) by {
            assert(r[a].hash == ts[a].hash);
            assert(r[b].hash == ts[b].hash);
        }
        lemma_lookup_at(r, i);
    }
}

// ---------------------------------------------------------------------------
// The state machine
// ---------------------------------------------------------------------------

/// The state is well formed: torrents in strictly increasing hash order, and
/// at most one injected error per method.
pub open spec fn wf_view(v: MockView) -> bool {
    sorted(v.torrents) && distinct_firsts(v.errors)
}

/// An error injected into another method than `m`.
pub open spec fn method_is_not(m: MockMethod) -> spec_fn((MockMethod, Seq<char>)) -> bool {
    |p: (MockMethod, Seq<char>)| p.0 != m
}

/// The errors with the one of method `m` removed.
pub open spec fn errors_without(errs: Seq<(MockMethod, Seq<char>)>, m: MockMethod) -> Seq<(MockMethod, Seq<char>)> {
    errs.filter(method_is_not(m))
}

/// The state with the error of `m` consumed, and that error.
pub open spec fn take_error(v: MockView, m: MockMethod) -> (MockView, Option<Seq<char>>) {
    match assoc(v.errors, m) {
        Some(e) => (MockView { errors: errors_without(v.errors, m), ..v }, Some(e)),
        None => (v, None),
    }
}

/// The hash that the next generated identifier gives: sixteen lower-case
/// hexadecimal digits.
pub open spec fn id_hash(id: u64) -> Seq<char> {
    hex_lower_digits(id as nat, 16)
}

/// The torrent that adding a magnet link creates.
pub open spec fn magnet_torrent(hash: Seq<char>, category: Option<Seq<char>>) -> TorrentSpec {
    TorrentSpec {
        hash,
        name: "Mock Torrent"@,
        progress_bits: 0,
        dlspeed: 524288,
        state: "downloading"@,
        size: 104857600,
        eta: 200,
        category,
        save_path: Some("/downloads"@),
        content_path: Some("/downloads/mock"@),
        num_seeds: Some(5),
        num_peers: Some(10),
    }
}

/// The torrent that adding a torrent file creates.
pub open spec fn file_torrent(hash: Seq<char>, filename: Seq<char>, category: Option<Seq<char>>) -> TorrentSpec {
    TorrentSpec {
        hash,
        name: trim_end_all(filename, ".torrent"@),
        progress_bits: 0,
        dlspeed: 0,
        state: "downloading"@,
        size: 209715200,
        eta: 3600,
        category,
        save_path: Some("/downloads"@),
        content_path: None,
        num_seeds: None,
        num_peers: None,
    }
}

/// The message of a conflicting add.
pub open spec fn conflict_message() -> Seq<char> {
    "409 Conflict: torrent already exists"@
}

/// The message of a missing torrent.
pub open spec fn not_found_message(h: Seq<char>) -> Seq<char> {
    "Torrent not found: "@ + h
}

/// What adding a magnet link does: an injected error fires; otherwise the
/// hash is the link's info-hash or, without one, a new identifier; an
/// existing hash is a conflict; else the mock torrent is added.
pub open spec fn spec_add_magnet(v: MockView, magnet: Seq<char>, category: Option<Seq<char>>) -> (MockView, Result<bool, Seq<char>>) {
    let (v1, err) = take_error(v, MockMethod::AddMagnet);
    match err {
        Some(e) => (v1, Err(e)),
        None => {
            let (v2, hash) = match extracted_hash(magnet) {
                Some(h) => (v1, h),
                None => (MockView { next_id: (v1.next_id + 1) as u64, ..v1 }, id_hash(v1.next_id)),
            };
            if lookup(v2.torrents, hash) is Some {
                (v2, Err(conflict_message()))
            } else {
                (MockView { torrents: insert_torrent(v2.torrents, magnet_torrent(hash, category)), ..v2 }, Ok(true))
            }
        },
    }
}

/// Adding the magnet link `magnet` to `v` runs without a panic: an injected
/// error fires, or the hash can be cut out of the link and, where the link
/// names none, a new identifier is left below the last `u64`.
pub open spec fn add_magnet_runs(v: MockView, magnet: Seq<char>) -> bool {
    take_error(v, MockMethod::AddMagnet).1 is None ==> {
        &&& marker_slice_ok(magnet, lowercase(magnet), btih_marker(), 12)
        &&& extracted_hash(magnet) is None ==> v.next_id < u64::MAX
    }
}

/// What adding a torrent file does: an injected error fires; otherwise a new
/// identifier names the torrent, which is added (replacing one of that hash).
pub open spec fn spec_add_torrent(v: MockView, filename: Seq<char>, category: Option<Seq<char>>) -> (MockView, Result<bool, Seq<char>>) {
    let (v1, err) = take_error(v, MockMethod::AddTorrent);
    match err {
        Some(e) => (v1, Err(e)),
        None => {
            let hash = id_hash(v1.next_id);
            (MockView {
                next_id: (v1.next_id + 1) as u64,
                torrents: insert_torrent(v1.torrents, file_torrent(hash, filename, category)),
                ..v1
            }, Ok(true))
        },
    }
}

/// The state after a change by one torrent, where an injected error of `m`
/// fires first and a missing torrent is an error.
pub open spec fn spec_change_one(v: MockView, m: MockMethod, h: Seq<char>, f: spec_fn(TorrentSpec) -> TorrentSpec) -> (MockView, Result<(), Seq<char>>) {
    let (v1, err) = take_error(v, m);
    match err {
        Some(e) => (v1, Err(e)),
        None => if lookup(v1.torrents, h) is Some {
            (MockView { torrents: update_torrent(v1.torrents, h, f), ..v1 }, Ok(()))
        } else {
            (v1, Err(not_found_message(h)))
        },
    }
}

/// Setting the state to `s`.
pub open spec fn state_fn(s: Seq<char>) -> spec_fn(TorrentSpec) -> TorrentSpec {
    |t: TorrentSpec| with_state(t, s)
}

/// Setting the category to `c`.
pub open spec fn category_fn(c: Seq<char>) -> spec_fn(TorrentSpec) -> TorrentSpec {
    |t: TorrentSpec| with_category(t, c)
}

/// Pausing sets the state to `paused`.
pub open spec fn pause_fn() -> spec_fn(TorrentSpec) -> TorrentSpec {
    state_fn("paused"@)
}

/// Resuming sets the state to `downloading`.
pub open spec fn resume_fn() -> spec_fn(TorrentSpec) -> TorrentSpec {
    state_fn("downloading"@)
}

/// Resuming everything turns each paused torrent to `downloading`.
pub open spec fn resume_if_paused(t: TorrentSpec) -> TorrentSpec {
    if t.state == "paused"@ {
        with_state(t, "downloading"@)
    } else {
        t
    }
}

/// A torrent after a change of state by all: only paused ones resume, or
/// all take state `s`.
pub open spec fn state_change(only_paused: bool, s: Seq<char>, t: TorrentSpec) -> TorrentSpec {
    if only_paused {
        resume_if_paused(t)
    } else {
        with_state(t, s)
    }
}

/// What deleting one torrent does.
pub open spec fn spec_delete_one(v: MockView, m: MockMethod, h: Seq<char>) -> (MockView, Result<(), Seq<char>>) {
    let (v1, err) = take_error(v, m);
    match err {
        Some(e) => (v1, Err(e)),
        None => (MockView { torrents: remove_torrent(v1.torrents, h), ..v1 }, Ok(())),
    }
}

/// A torrent is listed for an optional hash and an optional state.
pub open spec fn listed(t: TorrentSpec, hash: Option<Seq<char>>, status: Option<Seq<char>>) -> bool {
    (match hash {
        Some(h) => t.hash == h,
        None => true,
    }) && (match status {
        Some(s) => t.state == s,
        None => true,
    })
}

/// The test that `get_torrents` lists by.
pub open spec fn listed_by(hash: Option<Seq<char>>, status: Option<Seq<char>>) -> spec_fn(TorrentSpec) -> bool {
    |t: TorrentSpec| listed(t, hash, status)
}

/// The torrents after setting `category` on each of the hashes, in order.
pub open spec fn set_categories(ts: Seq<TorrentSpec>, category: Seq<char>, hashes: Seq<Seq<char>>) -> Seq<TorrentSpec>
    decreases hashes.len(),
{
    if hashes.len() == 0 {
        ts
    } else {
        set_categories(
            update_torrent(ts, trim_ws(hashes[0]), category_fn(category)),
            category,
            hashes.drop_first(),
        )
    }
}

impl FileState {
    /// The state is well formed.
    pub open spec fn wf(&self) -> bool {
        wf_view(self@)
    }

    /// An empty state: no torrents, no errors, speed limit off, identifiers from 0.
    pub fn new() -> (r: FileState)
        ensures
            r.wf(),
            r@.torrents == Seq::<TorrentSpec>::empty(),
            r@.errors == Seq::<(MockMethod, Seq<char>)>::empty(),
            !r@.speed,
            r@.next_id == 0,
    {
        let r = FileState { torrents: Vec::new(), next_errors: Vec::new(), speed_limit_active: false, next_id: 0 };
        assert(r@.torrents =~= Seq::<TorrentSpec>::empty());
        assert(r@.errors =~= Seq::<(MockMethod, Seq<char>)>::empty());
        r
    }

    /// The position where hash `h` belongs.
    fn position(&self, h: &Vec<char>) -> (r: usize)
        requires
            self.wf(),
        ensures
            r == pos(self@.torrents, h@),
    {
        let ghost ts = self@.torrents;
        let mut i: usize = 0;
        proof {
            lemma_pos(ts, h@);
        }
        while i < self.torrents.len()
            invariant
                ts == self@.torrents,
                i <= self.torrents.len(),
                sorted(ts),
                forall|k: int| 0 <= k < i ==> lex_lt(#[trigger] ts[k].hash, h@),
                pos(ts, h@) <= ts.len(),
                forall|k: int| 0 <= k < pos(ts, h@) ==> lex_lt(#[trigger] ts[k].hash, h@),
                forall|k: int| pos(ts, h@) <= k < ts.len() ==> !lex_lt(#[trigger] ts[k].hash, h@),
            decreases self.torrents.len() - i,
        {
            let k = chars_of(self.torrents[i].hash.as_str());
            assert(ts[i as int].hash == k@);
            if !chars_lt(&k, h) {
                proof {
                    let p = pos(ts, h@) as int;
                    if p < i {
                        assert(lex_lt(ts[p].hash, h@));
                    }
                }
                return i;
            }
            i = i + 1;
        }
        proof {
            let p = pos(ts, h@) as int;
            if p < ts.len() {
                assert(lex_lt(ts[p].hash, h@));
            }
        }
        i
    }

    /// The index of the torrent with hash `h`, if any.
    fn index_of(&self, h: &Vec<char>) -> (r: Option<usize>)
        requires
            self.wf(),
        ensures
            match r {
                Some(i) => i < self@.torrents.len() && i == pos(self@.torrents, h@) && self@.torrents[i as int].hash == h@
                    && lookup(self@.torrents, h@) == Some(self@.torrents[i as int]),
                None => lookup(self@.torrents, h@) is None && (pos(self@.torrents, h@) == self@.torrents.len()
                    || self@.torrents[pos(self@.torrents, h@) as int].hash != h@),
            },
    {
        let i = self.position(h);
        proof {
            lemma_pos(self@.torrents, h@);
        }
        if i < self.torrents.len() {
            let k = chars_of(self.torrents[i].hash.as_str());
            assert(self@.torrents[i as int].hash == k@);
            if chars_eq(&k, h) {
                return Some(i);
            }
        }
        None
    }

    /// Consumes the error injected into `m`, if any.
    fn take_error_exec(&mut self, m: MockMethod) -> (r: Option<String>)
        requires
            old(self).wf(),
        ensures
            final(self).wf(),
            (final(self)@, r.deep_view()) == take_error(old(self)@, m),
    {
        let ghost errs = self@.errors;
        let ghost pred = method_is_not(m);
        let mut found: Option<String> = None;
        let mut kept: Vec<(MockMethod, String)> = Vec::new();
        let mut i: usize = 0;
        assert(errs.take(0) == Seq::<(MockMethod, Seq<char>)>::empty());
        while i < self.next_errors.len()
            invariant
                errs == self@.errors,
                distinct_firsts(errs),
                i <= errs.len(),
                pred == method_is_not(m),
                Seq::new(kept@.len(), |k: int| (kept@[k].0, kept@[k].1@)) == errs.take(i as int).filter(pred),
                match found {
                    Some(e) => assoc(errs, m) == Some(e@),
                    None => forall|k: int| 0 <= k < i ==> errs[k].0 != m,
                },
            decreases self.next_errors.len() - i,
        {
            let ghost before = Seq::new(kept@.len(), |k: int| (kept@[k].0, kept@[k].1@));
            proof {
                assert(errs.take(i + 1) == errs.take(i as int).push(errs[i as int]));
                errs.take(i as int).lemma_filter_push(errs[i as int], pred);
            }
            let (mm, ref e) = self.next_errors[i];
            assert(errs[i as int] == (mm, e@));
            if mm == m {
                proof {
                    lemma_assoc_at(errs, i as int);
                }
                found = Some(e.clone());
            } else {
                kept.push((mm, e.clone()));
                assert(Seq::new(kept@.len(), |k: int| (kept@[k].0, kept@[k].1@)) =~= before.push((mm, e@)));
            }
            i = i + 1;
        }
        assert(errs.take(errs.len() as int) == errs);
        match found {
            Some(e) => {
                self.next_errors = kept;
                proof {
                    let nv = self@.errors;
                    assert(nv =~= Seq::new(kept@.len(), |k: int| (kept@[k].0, kept@[k].1@)));
                    lemma_filter_distinct(errs, pred);
                }
                Some(e)
            },
            None => {
                proof {
                    lemma_assoc_absent(errs, m);
                }
                None
            },
        }
    }

    /// Adds `t`, replacing the torrent of the same hash.
    fn insert(&mut self, t: Torrent)
        requires
            old(self).wf(),
        ensures
            final(self).wf(),
            final(self)@ == (MockView { torrents: insert_torrent(old(self)@.torrents, t@), ..old(self)@ }),
    {
        let h = chars_of(t.hash.as_str());
        let i = self.position(&h);
        let ghost ts = self@.torrents;
        let ghost tv = t@;
        proof {
            lemma_insert(ts, tv);
            lemma_pos(ts, h@);
        }
        let replace = if i < self.torrents.len() {
            let k = chars_of(self.torrents[i].hash.as_str());
            assert(ts[i as int].hash == k@);
            chars_eq(&k, &h)
        } else {
            false
        };
        if replace {
            self.torrents.set(i, t);
            assert(self@.torrents =~= ts.update(i as int, tv));
        } else {
            self.torrents.insert(i, t);
            assert(self@.torrents =~= ts.insert(i as int, tv));
        }
    }

    /// Seeds a torrent directly into the state, replacing one of the same hash.
    pub fn seed_torrent(&mut self, t: Torrent)
        requires
            old(self).wf(),
        ensures
            final(self).wf(),
            final(self)@ == (MockView { torrents: insert_torrent(old(self)@.torrents, t@), ..old(self)@ }),
    {
        self.insert(t)
    }

    /// Injects an error into the next call of `method`, replacing an earlier one.
    pub fn set_next_error(&mut self, method: MockMethod, message: String)
        requires
            old(self).wf(),
        ensures
            final(self).wf(),
            final(self)@.torrents == old(self)@.torrents,
            final(self)@.speed == old(self)@.speed,
            final(self)@.next_id == old(self)@.next_id,
            assoc(final(self)@.errors, method) == Some(message@),
            forall|m: MockMethod| m != method ==> #[trigger] assoc(final(self)@.errors, m) == assoc(old(self)@.errors, m),
    {
        let ghost old_errs = self@.errors;
        proof {
            lemma_errors_without(old_errs, method);
        }
        let _ = self.take_error_exec(method);
        let ghost errs = self@.errors;
        self.next_errors.push((method, message));
        proof {
            let nv = self@.errors;
            assert(nv =~= errs.push((method, message@)));
            assert forall|k: int| 0 <= k < errs.len() implies errs[k].0 != method by {
                if errs[k].0 == method && assoc(old_errs, method) is None {
                    lemma_assoc_at(errs, k);
                }
            }
            assert(distinct_firsts(nv));
            lemma_assoc_at(nv, errs.len() as int);
            assert forall|m: MockMethod| m != method implies #[trigger] assoc(nv, m) == assoc(errs, m) by {
                crate::i18n::lemma_assoc_push_other(errs, (method, message@), m);
            }
        }
    }

    /// Every torrent, in hash order.
    pub fn all_torrents(&self) -> (r: Vec<Torrent>)
        ensures
            Seq::new(r@.len(), |i: int| r@[i]@) == self@.torrents,
    {
        let mut r: Vec<Torrent> = Vec::new();
        let mut i: usize = 0;
        while i < self.torrents.len()
            invariant
                i <= self.torrents.len(),
                Seq::new(r@.len(), |k: int| r@[k]@) == self@.torrents.take(i as int),
            decreases self.torrents.len() - i,
        {
            let t = self.torrents[i].copy();
            let ghost before = Seq::new(r@.len(), |k: int| r@[k]@);
            r.push(t);
            assert(Seq::new(r@.len(), |k: int| r@[k]@) =~= before.push(self@.torrents[i as int]));
            assert(self@.torrents.take(i + 1) =~= self@.torrents.take(i as int).push(self@.torrents[i as int]));
            i = i + 1;
        }
        assert(self@.torrents.take(self.torrents.len() as int) =~= self@.torrents);
        r
    }

    /// The next identifier's hash, consuming it.
    fn next_hash(&mut self) -> (r: String)
        requires
            old(self).next_id < u64::MAX,
        ensures
            r@ == id_hash(old(self)@.next_id),
            final(self)@ == (MockView { next_id: (old(self)@.next_id + 1) as u64, ..old(self)@ }),
            final(self).torrents@ == old(self).torrents@,
            final(self).next_errors@ == old(self).next_errors@,
    {
        let id = self.next_id;
        self.next_id = id + 1;
        let v = hex_lower_digits_chars(id, 16);
        string_of(&v)
    }

    /// Adds a magnet link (see `spec_add_magnet`).  Cutting out a hash that
    /// does not fall on a character boundary panics, as does generating an
    /// identifier past the last `u64`, so those cases are left out.
    pub fn add_magnet(&mut self, magnet_link: &str, category: Option<&str>) -> (r: Result<bool, String>)
        requires
            old(self).wf(),
            add_magnet_runs(old(self)@, magnet_link@),
        ensures
            final(self).wf(),
            (final(self)@, match r {
                Ok(b) => Ok(b),
                Err(e) => Err(e@),
            }) == spec_add_magnet(old(self)@, magnet_link@, match category {
                Some(c) => Some(c@),
                None => None,
            }),
    {
        if let Some(e) = self.take_error_exec(MockMethod::AddMagnet) {
            return Err(e);
        }
        let hash = match extract_hash_from_magnet(magnet_link) {
            Some(h) => h,
            None => self.next_hash(),
        };
        let hc = chars_of(hash.as_str());
        if self.index_of(&hc).is_some() {
            return Err(owned("409 Conflict: torrent already exists"));
        }
        let cat = match category {
            Some(c) => Some(owned(c)),
            None => None,
        };
        let t = Torrent {
            hash,
            name: owned("Mock Torrent"),
            progress_bits: 0,
            dlspeed: 1024 * 512,
            state: owned("downloading"),
            size: 1024 * 1024 * 100,
            eta: 200,
            category: cat,
            save_path: Some(owned("/downloads")),
            content_path: Some(owned("/downloads/mock")),
            num_seeds: Some(5),
            num_peers: Some(10),
        };
        self.insert(t);
        Ok(true)
    }

    /// Adds by URL: the mock treats a URL as a magnet link.
    pub fn add_url(&mut self, url: &str, category: Option<&str>) -> (r: Result<bool, String>)
        requires
            old(self).wf(),
            add_magnet_runs(old(self)@, url@),
        ensures
            final(self).wf(),
            (final(self)@, match r {
                Ok(b) => Ok(b),
                Err(e) => Err(e@),
            }) == spec_add_magnet(old(self)@, url@, match category {
                Some(c) => Some(c@),
                None => None,
            }),
    {
        self.add_magnet(url, category)
    }

    /// Whether an error is injected into `m`.
    fn error_waiting(&self, m: MockMethod) -> (r: bool)
        requires
            self.wf(),
        ensures
            r == (take_error(self@, m).1 is Some),
    {
        let ghost errs = self@.errors;
        let mut i: usize = 0;
        while i < self.next_errors.len()
            invariant
                errs == self@.errors,
                distinct_firsts(errs),
                i <= errs.len(),
                forall|k: int| 0 <= k < i ==> errs[k].0 != m,
            decreases self.next_errors.len() - i,
        {
            assert(errs[i as int].0 == self.next_errors@[i as int].0);
            if self.next_errors[i].0 == m {
                proof {
                    lemma_assoc_at(errs, i as int);
                }
                return true;
            }
            i = i + 1;
        }
        proof {
            lemma_assoc_absent(errs, m);
        }
        false
    }

    /// Adds a magnet link where that runs without a panic (see `add_magnet`
    /// and `add_magnet_runs`); `None`, with the state unchanged, elsewhere.
    pub fn try_add_magnet(&mut self, magnet_link: &str, category: Option<&str>) -> (r: Option<Result<bool, String>>)
        requires
            old(self).wf(),
        ensures
            final(self).wf(),
            match r {
                Some(res) => add_magnet_runs(old(self)@, magnet_link@) && (final(self)@, match res {
                    Ok(b) => Ok(b),
                    Err(e) => Err(e@),
                }) == spec_add_magnet(old(self)@, magnet_link@, match category {
                    Some(c) => Some(c@),
                    None => None,
                }),
                None => !add_magnet_runs(old(self)@, magnet_link@) && final(self)@ == old(self)@,
            },
    {
        if !self.error_waiting(MockMethod::AddMagnet) {
            if !magnet_hash_sliceable(magnet_link) {
                return None;
            }
            if self.next_id == u64::MAX && extract_hash_from_magnet(magnet_link).is_none() {
                return None;
            }
        }
        Some(self.add_magnet(magnet_link, category))
    }

    /// Adds by URL where that runs without a panic (see `try_add_magnet`).
    pub fn try_add_url(&mut self, url: &str, category: Option<&str>) -> (r: Option<Result<bool, String>>)
        requires
            old(self).wf(),
        ensures
            final(self).wf(),
            match r {
                Some(res) => add_magnet_runs(old(self)@, url@) && (final(self)@, match res {
                    Ok(b) => Ok(b),
                    Err(e) => Err(e@),
                }) == spec_add_magnet(old(self)@, url@, match category {
                    Some(c) => Some(c@),
                    None => None,
                }),
                None => !add_magnet_runs(old(self)@, url@) && final(self)@ == old(self)@,
            },
    {
        self.try_add_magnet(url, category)
    }

    /// Removes every trailing `.torrent` from a file name.
    fn trim_torrent_suffix(name: &str) -> (r: String)
        ensures
            r@ == trim_end_all(name@, ".torrent"@),
    {
        let suffix = chars_of(".torrent");
        let mut cur = chars_of(name);
        while suffix.len() > 0 && chars_ends_with(&cur, &suffix)
            invariant
                trim_end_all(cur@, suffix@) == trim_end_all(name@, suffix@),
            decreases cur.len(),
        {
            cur = sub_chars(&cur, 0, cur.len() - suffix.len());
        }
        string_of(&cur)
    }

    /// Adds a torrent file (see `spec_add_torrent`).
    pub fn add_torrent(&mut self, file_bytes: &Vec<u8>, filename: &str, category: Option<&str>) -> (r: Result<bool, String>)
        requires
            old(self).wf(),
            take_error(old(self)@, MockMethod::AddTorrent).1 is None ==> old(self)@.next_id < u64::MAX,
        ensures
            final(self).wf(),
            (final(self)@, match r {
                Ok(b) => Ok(b),
                Err(e) => Err(e@),
            }) == spec_add_torrent(old(self)@, filename@, match category {
                Some(c) => Some(c@),
                None => None,
            }),
    {
        if let Some(e) = self.take_error_exec(MockMethod::AddTorrent) {
            return Err(e);
        }
        let hash = self.next_hash();
        let cat = match category {
            Some(c) => Some(owned(c)),
            None => None,
        };
        let t = Torrent {
            hash,
            name: Self::trim_torrent_suffix(filename),
            progress_bits: 0,
            dlspeed: 0,
            state: owned("downloading"),
            size: 1024 * 1024 * 200,
            eta: 3600,
            category: cat,
            save_path: Some(owned("/downloads")),
            content_path: None,
            num_seeds: None,
            num_peers: None,
        };
        self.insert(t);
        Ok(true)
    }

    /// Sets the state of every torrent (or of the paused ones only) to `state`.
    fn set_states(&mut self, state: &str, only_paused: bool)
        requires
            old(self).wf(),
        ensures
            final(self).wf(),
            final(self)@ == (MockView {
                torrents: old(self)@.torrents.map_values(|t: TorrentSpec| state_change(only_paused, state@, t)),
                ..old(self)@
            }),
    {
        let ghost ts = self@.torrents;
        let paused = chars_of("paused");
        let mut i: usize = 0;
        while i < self.torrents.len()
            invariant
                i <= self.torrents.len(),
                self.torrents@.len() == ts.len(),
                paused@ == "paused"@,
                forall|k: int| 0 <= k < i ==> #[trigger] self@.torrents[k] == state_change(only_paused, state@, ts[k]),
                forall|k: int| i <= k < ts.len() ==> #[trigger] self@.torrents[k] == ts[k],
                self.next_errors@ == old(self).next_errors@,
                self.speed_limit_active == old(self).speed_limit_active,
                self.next_id == old(self).next_id,
            decreases self.torrents.len() - i,
        {
            assert(self@.torrents[i as int] == self.torrents@[i as int]@);
            assert(self@.torrents[i as int] == ts[i as int]);
            let s = chars_of(self.torrents[i].state.as_str());
            let change = if only_paused {
                chars_eq(&s, &paused)
            } else {
                true
            };
            if change {
                let new_state = if only_paused {
                    owned("downloading")
                } else {
                    owned(state)
                };
                let mut t = self.torrents[i].copy();
                t.state = new_state;
                assert(t@ == state_change(only_paused, state@, ts[i as int]));
                let ghost pre = self@.torrents;
                let ghost tv = t@;
                self.torrents.set(i, t);
                assert(self@.torrents =~= pre.update(i as int, tv));
            }
            assert(self@.torrents[i as int] == state_change(only_paused, state@, ts[i as int]));
            i = i + 1;
        }
        assert(self@.torrents =~= ts.map_values(|t: TorrentSpec| state_change(only_paused, state@, t)));
        assert(sorted(self@.torrents)) by {
            assert forall|a: int, b: int| 0 <= a < b < ts.len() implies lex_lt(self@.torrents[a].hash, self@.torrents[b].hash) by {
                assert(self@.torrents[a].hash == ts[a].hash);
                assert(self@.torrents[b].hash == ts[b].hash);
            }
        }
    }

    /// Sets every paused torrent downloading, unless an error was injected.
    pub fn resume_all(&mut self) -> (r: Result<(), String>)
        requires
            old(self).wf(),
        ensures
            final(self).wf(),
            match take_error(old(self)@, MockMethod::ResumeAll).1 {
                Some(e) => r matches Err(m) && m@ == e && final(self)@ == take_error(old(self)@, MockMethod::ResumeAll).0,
                None => r is Ok && final(self)@ == (MockView {
                    torrents: old(self)@.torrents.map_values(|t: TorrentSpec| resume_if_paused(t)),
                    ..old(self)@
                }),
            },
    {
        if let Some(e) = self.take_error_exec(MockMethod::ResumeAll) {
            return Err(e);
        }
        self.set_states("downloading", true);
        assert(self@.torrents =~= old(self)@.torrents.map_values(|t: TorrentSpec| resume_if_paused(t)));
        Ok(())
    }

    /// Pauses every torrent, unless an error was injected.
    pub fn pause_all(&mut self) -> (r: Result<(), String>)
        requires
            old(self).wf(),
        ensures
            final(self).wf(),
            match take_error(old(self)@, MockMethod::PauseAll).1 {
                Some(e) => r matches Err(m) && m@ == e && final(self)@ == take_error(old(self)@, MockMethod::PauseAll).0,
                None => r is Ok && final(self)@ == (MockView {
                    torrents: old(self)@.torrents.map_values(|t: TorrentSpec| with_state(t, "paused"@)),
                    ..old(self)@
                }),
            },
    {
        if let Some(e) = self.take_error_exec(MockMethod::PauseAll) {
            return Err(e);
        }
        self.set_states("paused", false);
        assert(self@.torrents =~= old(self)@.torrents.map_values(|t: TorrentSpec| with_state(t, "paused"@)));
        Ok(())
    }

    /// Sets the state of the torrent of hash `hash`.
    fn set_state_of(&mut self, m: MockMethod, hash: &str, state: &str) -> (r: Result<(), String>)
        requires
            old(self).wf(),
        ensures
            final(self).wf(),
            (final(self)@, match r {
                Ok(u) => Ok(u),
                Err(e) => Err(e@),
            }) == spec_change_one(old(self)@, m, hash@, state_fn(state@)),
    {
        if let Some(e) = self.take_error_exec(m) {
            return Err(e);
        }
        let h = chars_of(hash);
        let ghost ts = self@.torrents;
        let ghost f = state_fn(state@);
        proof {
            lemma_update(ts, hash@, f);
        }
        match self.index_of(&h) {
            Some(i) => {
                let mut t = self.torrents[i].copy();
                t.state = owned(state);
                self.torrents.set(i, t);
                assert(self@.torrents =~= update_torrent(ts, hash@, f));
                Ok(())
            },
            None => {
                let mut msg = chars_of("Torrent not found: ");
                push_all(&mut msg, &h);
                Err(string_of(&msg))
            },
        }
    }

    /// Sets a torrent downloading (see `spec_change_one`).
    pub fn resume(&mut self, hash: &str) -> (r: Result<(), String>)
        requires
            old(self).wf(),
        ensures
            final(self).wf(),
            (final(self)@, match r {
                Ok(u) => Ok(u),
                Err(e) => Err(e@),
            }) == spec_change_one(old(self)@, MockMethod::Resume, hash@, resume_fn()),
    {
        let r = self.set_state_of(MockMethod::Resume, hash, "downloading");
        r
    }

    /// Pauses a torrent (see `spec_change_one`).
    pub fn pause(&mut self, hash: &str) -> (r: Result<(), String>)
        requires
            old(self).wf(),
        ensures
            final(self).wf(),
            (final(self)@, match r {
                Ok(u) => Ok(u),
                Err(e) => Err(e@),
            }) == spec_change_one(old(self)@, MockMethod::Pause, hash@, pause_fn()),
    {
        let r = self.set_state_of(MockMethod::Pause, hash, "paused");
        r
    }

    /// Removes a torrent.
    fn delete_one(&mut self, m: MockMethod, hash: &str) -> (r: Result<(), String>)
        requires
            old(self).wf(),
        ensures
            final(self).wf(),
            (final(self)@, match r {
                Ok(u) => Ok(u),
                Err(e) => Err(e@),
            }) == spec_delete_one(old(self)@, m, hash@),
    {
        if let Some(e) = self.take_error_exec(m) {
            return Err(e);
        }
        let h = chars_of(hash);
        let ghost ts = self@.torrents;
        proof {
            lemma_remove(ts, hash@);
        }
        match self.index_of(&h) {
            Some(i) => {
                self.torrents.remove(i);
                assert(self@.torrents =~= ts.remove(i as int));
            },
            None => {},
        }
        Ok(())
    }

    /// Removes a torrent, keeping its data (the mock keeps none).
    pub fn delete_one_no_data(&mut self, hash: &str) -> (r: Result<(), String>)
        requires
            old(self).wf(),
        ensures
            final(self).wf(),
            (final(self)@, match r {
                Ok(u) => Ok(u),
                Err(e) => Err(e@),
            }) == spec_delete_one(old(self)@, MockMethod::DeleteOneNoData, hash@),
    {
        self.delete_one(MockMethod::DeleteOneNoData, hash)
    }

    /// Removes a torrent and its data.
    pub fn delete_one_data(&mut self, hash: &str) -> (r: Result<(), String>)
        requires
            old(self).wf(),
        ensures
            final(self).wf(),
            (final(self)@, match r {
                Ok(u) => Ok(u),
                Err(e) => Err(e@),
            }) == spec_delete_one(old(self)@, MockMethod::DeleteOneData, hash@),
    {
        self.delete_one(MockMethod::DeleteOneData, hash)
    }

    /// Removes every torrent.
    pub fn delete_all_no_data(&mut self) -> (r: Result<(), String>)
        requires
            old(self).wf(),
        ensures
            final(self).wf(),
            r is Ok,
            final(self)@ == (MockView { torrents: Seq::empty(), ..old(self)@ }),
    {
        self.torrents = Vec::new();
        assert(self@.torrents =~= Seq::<TorrentSpec>::empty());
        Ok(())
    }

    /// Removes every torrent and its data.
    pub fn delete_all_data(&mut self) -> (r: Result<(), String>)
        requires
            old(self).wf(),
        ensures
            final(self).wf(),
            r is Ok,
            final(self)@ == (MockView { torrents: Seq::empty(), ..old(self)@ }),
    {
        self.delete_all_no_data()
    }

    /// The categories: `movies` and `tv`.
    pub fn get_categories(&self) -> (r: Result<Option<Vec<String>>, String>)
        ensures
            r matches Ok(Some(v)) && v.deep_view() == seq!["movies"@, "tv"@],
    {
        let mut v: Vec<String> = Vec::new();
        v.push(owned("movies"));
        v.push(owned("tv"));
        assert(v.deep_view() =~= seq!["movies"@, "tv"@]);
        Ok(Some(v))
    }

    /// Sets `category` on each torrent whose hash is among the `|`-separated
    /// `hashes` (each without surrounding whitespace).
    pub fn set_torrents_category(&mut self, category: &str, hashes: &str) -> (r: Result<(), String>)
        requires
            old(self).wf(),
        ensures
            final(self).wf(),
            r is Ok,
            final(self)@ == (MockView {
                torrents: set_categories(old(self)@.torrents, category@, split_char(hashes@, '|')),
                ..old(self)@
            }),
    {
        let hs = chars_of(hashes);
        let pieces = split_on_char(&hs, '|');
        let ghost all = pieces@.map_values(|w: Vec<char>| w@);
        let ghost f = category_fn(category@);
        let mut i: usize = 0;
        assert(all.skip(0) == all);
        while i < pieces.len()
            invariant
                i <= pieces.len(),
                all == pieces@.map_values(|w: Vec<char>| w@),
                all.len() == pieces.len(),
                f == category_fn(category@),
                self.wf(),
                set_categories(self@.torrents, category@, all.skip(i as int)) == set_categories(old(self)@.torrents, category@, all),
                self.next_errors@ == old(self).next_errors@,
                self.speed_limit_active == old(self).speed_limit_active,
                self.next_id == old(self).next_id,
            decreases pieces.len() - i,
        {
            let h = trim_whitespace(&pieces[i]);
            assert(all.skip(i as int)[0] == pieces@[i as int]@);
            assert(all.skip(i as int).drop_first() == all.skip(i + 1));
            let ghost ts = self@.torrents;
            proof {
                lemma_update(ts, h@, f);
            }
            match self.index_of(&h) {
                Some(k) => {
                    let mut t = self.torrents[k].copy();
                    t.category = Some(owned(category));
                    self.torrents.set(k, t);
                    assert(self@.torrents =~= update_torrent(ts, h@, f));
                },
                None => {},
            }
            i = i + 1;
        }
        assert(all.skip(i as int) == Seq::<Seq<char>>::empty());
        Ok(())
    }

    /// The torrent of hash `hash`, unless an error was injected.
    pub fn get_torrent(&mut self, hash: &str) -> (r: Result<Option<Torrent>, String>)
        requires
            old(self).wf(),
        ensures
            final(self).wf(),
            final(self)@ == take_error(old(self)@, MockMethod::GetTorrent).0,
            match take_error(old(self)@, MockMethod::GetTorrent).1 {
                Some(e) => r matches Err(m) && m@ == e,
                None => r matches Ok(o) && (match o {
                    Some(t) => lookup(old(self)@.torrents, hash@) == Some(t@),
                    None => lookup(old(self)@.torrents, hash@) is None,
                }),
            },
    {
        if let Some(e) = self.take_error_exec(MockMethod::GetTorrent) {
            return Err(e);
        }
        let h = chars_of(hash);
        match self.index_of(&h) {
            Some(i) => Ok(Some(self.torrents[i].copy())),
            None => Ok(None),
        }
    }

    /// The torrents of an optional hash and state, in hash order, unless an
    /// error was injected.
    pub fn get_torrents(&mut self, hash: Option<&str>, status_filter: Option<&str>) -> (r: Result<Vec<Torrent>, String>)
        requires
            old(self).wf(),
        ensures
            final(self).wf(),
            final(self)@ == take_error(old(self)@, MockMethod::GetTorrents).0,
            match take_error(old(self)@, MockMethod::GetTorrents).1 {
                Some(e) => r matches Err(m) && m@ == e,
                None => r matches Ok(v) && Seq::new(v@.len(), |i: int| v@[i]@)
                    == old(self)@.torrents.filter(listed_by(match hash {
                        Some(h) => Some(h@),
                        None => None,
                    }, match status_filter {
                        Some(s) => Some(s@),
                        None => None,
                    })),
            },
    {
        if let Some(e) = self.take_error_exec(MockMethod::GetTorrents) {
            return Err(e);
        }
        let hv: Option<Vec<char>> = match hash {
            Some(h) => Some(chars_of(h)),
            None => None,
        };
        let sv: Option<Vec<char>> = match status_filter {
            Some(s) => Some(chars_of(s)),
            None => None,
        };
        let ghost hs = match hash {
            Some(h) => Some(h@),
            None => None,
        };
        let ghost ss = match status_filter {
            Some(s) => Some(s@),
            None => None,
        };
        let ghost pred = listed_by(hs, ss);
        let ghost ts = self@.torrents;
        let mut out: Vec<Torrent> = Vec::new();
        let mut i: usize = 0;
        assert(ts.take(0) == Seq::<TorrentSpec>::empty());
        while i < self.torrents.len()
            invariant
                i <= self.torrents.len(),
                ts == self@.torrents,
                pred == listed_by(hs, ss),
                match hv {
                    Some(h) => hs == Some(h@),
                    None => hs is None,
                },
                match sv {
                    Some(s) => ss == Some(s@),
                    None => ss is None,
                },
                Seq::new(out@.len(), |k: int| out@[k]@) == ts.take(i as int).filter(pred),
            decreases self.torrents.len() - i,
        {
            proof {
                assert(ts.take(i + 1) == ts.take(i as int).push(ts[i as int]));
                ts.take(i as int).lemma_filter_push(ts[i as int], pred);
            }
            let th = chars_of(self.torrents[i].hash.as_str());
            let tst = chars_of(self.torrents[i].state.as_str());
            let ok_hash = match &hv {
                Some(h) => chars_eq(&th, h),
                None => true,
            };
            let ok_state = match &sv {
                Some(s) => chars_eq(&tst, s),
                None => true,
            };
            let ghost before = Seq::new(out@.len(), |k: int| out@[k]@);
            if ok_hash && ok_state {
                let t = self.torrents[i].copy();
                out.push(t);
                assert(Seq::new(out@.len(), |k: int| out@[k]@) =~= before.push(ts[i as int]));
            }
            i = i + 1;
        }
        assert(ts.take(ts.len() as int) == ts);
        Ok(out)
    }

    /// Always succeeds: the mock keeps no categories.
    pub fn edit_category(&self, name: &str, save_path: &str) -> (r: Result<(), String>)
        ensures
            r is Ok,
    {
        Ok(())
    }

    /// Always succeeds: the mock keeps no categories.
    pub fn create_category(&self, name: &str, save_path: &str) -> (r: Result<(), String>)
        ensures
            r is Ok,
    {
        Ok(())
    }

    /// Always succeeds: the mock keeps no categories.
    pub fn remove_category(&self, name: &str) -> (r: Result<(), String>)
        ensures
            r is Ok,
    {
        Ok(())
    }

    /// The client's version, unless an error was injected.
    pub fn check_connection(&mut self) -> (r: Result<String, String>)
        requires
            old(self).wf(),
        ensures
            final(self).wf(),
            final(self)@ == take_error(old(self)@, MockMethod::CheckConnection).0,
            match take_error(old(self)@, MockMethod::CheckConnection).1 {
                Some(e) => r matches Err(m) && m@ == e,
                None => r matches Ok(v) && v@ == "MockTorrentClient v1.0"@,
            },
    {
        if let Some(e) = self.take_error_exec(MockMethod::CheckConnection) {
            return Err(e);
        }
        Ok(owned("MockTorrentClient v1.0"))
    }

    /// Exporting is not supported.
    pub fn export_torrent(&self, hash: &str) -> (r: Result<(Vec<u8>, String), String>)
        ensures
            r matches Err(m) && m@ == "Export not supported by mock client"@,
    {
        Err(owned("Export not supported by mock client"))
    }

    /// Whether the alternative speed limit is on.
    pub fn get_speed_limit_mode(&self) -> (r: Result<bool, String>)
        ensures
            r == Ok::<bool, String>(self@.speed),
    {
        Ok(self.speed_limit_active)
    }

    /// Flips the alternative speed limit, unless an error was injected, and
    /// returns the new setting.
    pub fn toggle_speed_limit(&mut self) -> (r: Result<bool, String>)
        requires
            old(self).wf(),
        ensures
            final(self).wf(),
            match take_error(old(self)@, MockMethod::ToggleSpeedLimit).1 {
                Some(e) => r matches Err(m) && m@ == e && final(self)@ == take_error(old(self)@, MockMethod::ToggleSpeedLimit).0,
                None => r == Ok::<bool, String>(!old(self)@.speed) && final(self)@ == (MockView { speed: !old(self)@.speed, ..old(self)@ }),
            },
    {
        if let Some(e) = self.take_error_exec(MockMethod::ToggleSpeedLimit) {
            return Err(e);
        }
        self.speed_limit_active = !self.speed_limit_active;
        Ok(self.speed_limit_active)
    }
}

/// Every entry that a filter keeps comes from the sequence filtered.
proof fn lemma_filter_contained<A>(s: Seq<A>, pred: spec_fn(A) -> bool, i: int)
    requires
        0 <= i < s.filter(pred).len(),
    ensures
        exists|j: int| 0 <= j < s.len() && s[j] == s.filter(pred)[i],
    decreases s.len(),
{
    reveal(Seq::filter);
    let d = s.drop_last();
    let sub = d.filter(pred);
    if pred(s.last()) && i == sub.len() {
        assert(s[s.len() - 1] == s.filter(pred)[i]);
    } else {
        lemma_filter_contained(d, pred, i);
        let j = choose|j: int| 0 <= j < d.len() && d[j] == sub[i];
        assert(s[j] == s.filter(pred)[i]);
    }
}

/// A filter keeps the first components distinct where they were.
proof fn lemma_filter_distinct<A, B>(s: Seq<(A, B)>, pred: spec_fn((A, B)) -> bool)
    requires
        distinct_firsts(s),
    ensures
        distinct_firsts(s.filter(pred)),
    decreases s.len(),
{
    reveal(Seq::filter);
    if s.len() > 0 {
        let d = s.drop_last();
        assert(distinct_firsts(d)) by {
            assert forall|a: int, b: int| 0 <= a < b < d.len() implies d[a].0 != d[b].0 by {
                assert(d[a] == s[a] && d[b] == s[b]);
            }
        }
        lemma_filter_distinct(d, pred);
        let sub = d.filter(pred);
        if pred(s.last()) {
            let f = s.filter(pred);
            assert(f == sub.push(s.last()));
            assert forall|a: int, b: int| 0 <= a < b < f.len() implies f[a].0 != f[b].0 by {
                if b == sub.len() {
                    lemma_filter_contained(d, pred, a);
                    let j = choose|j: int| 0 <= j < d.len() && d[j] == sub[a];
                    assert(s[j] == f[a]);
                    assert(f[b] == s[s.len() - 1]);
                } else {
                    assert(f[a] == sub[a] && f[b] == sub[b]);
                }
            }
        }
    }
}

/// Removing the error of `method` keeps the others as they were.
pub proof fn lemma_errors_without(errs: Seq<(MockMethod, Seq<char>)>, method: MockMethod)
    requires
        distinct_firsts(errs),
    ensures
        distinct_firsts(errors_without(errs, method)),
        forall|k: int| 0 <= k < errors_without(errs, method).len() ==> #[trigger] errors_without(errs, method)[k].0 != method,
        forall|m: MockMethod| m != method ==> #[trigger] assoc(errors_without(errs, method), m) == assoc(errs, m),
{
    let pred = method_is_not(method);
    let nv = errs.filter(pred);
    lemma_filter_distinct(errs, pred);
    assert forall|k: int| 0 <= k < nv.len() implies #[trigger] nv[k].0 != method by {
        errs.lemma_filter_pred(pred, k);
    }
    assert forall|m: MockMethod| m != method implies #[trigger] assoc(nv, m) == assoc(errs, m) by {
        if assoc(errs, m) is Some {
            lemma_assoc_found(errs, m);
            let i = choose|i: int| 0 <= i < errs.len() && errs[i].0 == m && Some(errs[i].1) == assoc(errs, m);
            errs.lemma_filter_contains(pred, i);
            let j = choose|j: int| 0 <= j < nv.len() && nv[j] == errs[i];
            lemma_assoc_at(nv, j);
        } else {
            assert forall|k: int| 0 <= k < nv.len() implies nv[k].0 != m by {
                lemma_filter_contained(errs, pred, k);
                let i = choose|i: int| 0 <= i < errs.len() && errs[i] == nv[k];
                if errs[i].0 == m {
                    lemma_assoc_at(errs, i);
                }
            }
            lemma_assoc_absent(nv, m);
        }
    }
}

} // verus!
