//! The Telegram keyboards: each button is a label and the data it sends
//! back, which `bot::split_callback` and `bot::telegram_action` read.
//! Static keyboards are given with untranslated labels (`translate_rows`
//! translates them); the keyboards built from lists are given translated.
use vstd::prelude::*;
use crate::bot::{is_admin_role, is_manager_role, role_flags};
use crate::i18n::{translate, translated, Translations};
use crate::tasks::locale_or_english;
use crate::text::{chars_of, owned, push_str_chars, string_of};
use crate::torrent_client::Torrent;
use crate::views::{
    cuttable, list_button_data, list_button_label, list_data_of, opt_string, short_label_of, status_mark,
};

verus! {

/// A row of buttons, as plain values: label and data of each.
pub type RowSpec = Seq<(Seq<char>, Seq<char>)>;

/// A static keyboard.
#[derive(Debug, Clone, Copy, PartialEq, Eq, Structural)]
pub enum Keyboard {
    /// The main menu, which depends on the user's role.
    Main,
    PauseResume,
    Delete,
    /// The choice between deleting one torrent with or without its data.
    DeleteOne,
    DeleteAll,
    Categories,
    Settings,
    ClientSettings,
    /// The actions on one torrent.
    TorrentDetails,
    /// A single button back to the main menu.
    BackToMenu,
}

/// A button as plain values.
pub open spec fn b(label: Seq<char>, data: Seq<char>) -> (Seq<char>, Seq<char>) {
    (label, data)
}

/// The main menu for a user of role `role`: the list for everyone, adding
/// and pausing for managers, deleting, categories and settings for
/// administrators.
pub open spec fn main_menu_of(role: Seq<char>) -> Seq<RowSpec> {
    seq![seq![b("📝 List"@, "list:"@)]] + (if is_manager_role(role) {
        seq![
            seq![b("➕ Add Magnet"@, "category:add_magnet"@), b("➕ Add Torrent"@, "category:add_torrent"@)],
            seq![b("⏯ Pause/Resume"@, "menu_pause_resume:"@)],
        ]
    } else {
        seq![]
    }) + (if is_admin_role(role) {
        seq![
            seq![b("🗑 Delete"@, "menu_delete:"@)],
            seq![b("📂 Categories"@, "menu_categories:"@)],
            seq![b("⚙️ Settings"@, "settings:"@)],
        ]
    } else {
        seq![]
    })
}

/// A static keyboard, for a user of role `role` and, where it acts on one
/// torrent, the torrent's hash.
pub open spec fn keyboard_of(k: Keyboard, role: Seq<char>, hash: Seq<char>) -> Seq<RowSpec> {
    match k {
        Keyboard::Main => main_menu_of(role),
        Keyboard::PauseResume => seq![
            seq![b("? Pause"@, "pause:"@), b("?? Resume"@, "resume:"@)],
            seq![b("? Pause All"@, "pause_all:"@), b("?? Resume All"@, "resume_all:"@)],
            seq![b("?? Menu"@, "menu:"@)],
        ],
        Keyboard::Delete => seq![
            seq![b("?? Delete"@, "delete_one:"@)],
            seq![b("?? Delete All"@, "delete_all:"@)],
            seq![b("?? Menu"@, "menu:"@)],
        ],
        Keyboard::DeleteOne => seq![
            seq![b("?? Delete torrent"@, "delete_one_no_data:"@ + hash)],
            seq![b("?? Delete torrent and data"@, "delete_one_data:"@ + hash)],
            seq![b("?? Menu"@, "menu:"@)],
        ],
        Keyboard::DeleteAll => seq![
            seq![b("?? Delete all torrents"@, "delete_all_no_data:"@)],
            seq![b("?? Delete all torrents and data"@, "delete_all_data:"@)],
            seq![b("?? Menu"@, "menu:"@)],
        ],
        Keyboard::Categories => seq![
            seq![b("? Add Category"@, "add_category:"@)],
            seq![b("?? Remove Category"@, "select_category:remove_category"@)],
            seq![b("?? Modify Category"@, "select_category:modify_category"@)],
            seq![b("?? Menu"@, "menu:"@)],
        ],
        Keyboard::Settings => seq![
            seq![b("?? Client Settings"@, "edit_client:"@)],
            seq![b("?? Reload Settings"@, "reload_settings:"@)],
            seq![b("?? Menu"@, "menu:"@)],
        ],
        Keyboard::ClientSettings => seq![
            seq![b("🐢 Toggle Speed Limit"@, "toggle_speed_limit:"@)],
            seq![b("✅ Check Client connection"@, "check_connection:"@)],
            seq![b("🔙 Settings"@, "settings:"@)],
        ],
        Keyboard::TorrentDetails => seq![
            seq![b("💾 Export torrent"@, "export:"@ + hash)],
            seq![b("📝 Edit Category"@, "edit_torrent_cat:"@ + hash)],
            seq![b("⏸ Pause"@, "pause:"@ + hash)],
            seq![b("▶️ Resume"@, "resume:"@ + hash)],
            seq![b("🗑 Delete"@, "delete_one:"@ + hash)],
            seq![b("🔙 Menu"@, "menu:"@)],
        ],
        Keyboard::BackToMenu => seq![seq![b("?? Menu"@, "menu:"@)]],
    }
}

/// A button.
fn button(label: &str, data: &str) -> (r: (String, String))
    ensures
        r.0@ == label@,
        r.1@ == data@,
{
    (owned(label), owned(data))
}

/// A button whose data ends in a hash.
fn hash_button(label: &str, head: &str, hash: &str) -> (r: (String, String))
    ensures
        r.0@ == label@,
        r.1@ == head@ + hash@,
{
    let mut d = chars_of(head);
    push_str_chars(&mut d, hash);
    (owned(label), string_of(&d))
}

/// A row of one button.
fn row1(x: (String, String)) -> (r: Vec<(String, String)>)
    ensures
        r.deep_view() == seq![(x.0@, x.1@)],
{
    let ghost v = (x.0@, x.1@);
    let r = vec![x];
    assert(r.deep_view() =~= seq![v]);
    r
}

/// A row of two buttons.
fn row2(x: (String, String), y: (String, String)) -> (r: Vec<(String, String)>)
    ensures
        r.deep_view() == seq![(x.0@, x.1@), (y.0@, y.1@)],
{
    let ghost v = (x.0@, x.1@);
    let ghost w = (y.0@, y.1@);
    let r = vec![x, y];
    assert(r.deep_view() =~= seq![v, w]);
    r
}

/// Appends a row, keeping the rows' plain values in step.
fn push_row(rows: &mut Vec<Vec<(String, String)>>, row: Vec<(String, String)>)
    ensures
        final(rows).deep_view() == old(rows).deep_view().push(row.deep_view()),
{
    let ghost rv = row.deep_view();
    let ghost before = rows.deep_view();
    rows.push(row);
    assert(rows.deep_view() =~= before.push(rv));
}

/// The main menu for a user of role `role`.
fn main_menu(role: &str) -> (r: Vec<Vec<(String, String)>>)
    ensures
        r.deep_view() == main_menu_of(role@),
{
    let (manager, admin) = role_flags(role);
    let mut rows: Vec<Vec<(String, String)>> = Vec::new();
    push_row(&mut rows, row1(button("📝 List", "list:")));
    let ghost first = rows.deep_view();
    if manager {
        push_row(
            &mut rows,
            row2(button("➕ Add Magnet", "category:add_magnet"), button("➕ Add Torrent", "category:add_torrent")),
        );
        push_row(&mut rows, row1(button("⏯ Pause/Resume", "menu_pause_resume:")));
    }
    let ghost second = rows.deep_view();
    if admin {
        push_row(&mut rows, row1(button("🗑 Delete", "menu_delete:")));
        push_row(&mut rows, row1(button("📂 Categories", "menu_categories:")));
        push_row(&mut rows, row1(button("⚙️ Settings", "settings:")));
    }
    proof {
        let m: Seq<RowSpec> = if is_manager_role(role@) {
            seq![
                seq![b("➕ Add Magnet"@, "category:add_magnet"@), b("➕ Add Torrent"@, "category:add_torrent"@)],
                seq![b("⏯ Pause/Resume"@, "menu_pause_resume:"@)],
            ]
        } else {
            seq![]
        };
        let a: Seq<RowSpec> = if is_admin_role(role@) {
            seq![
                seq![b("🗑 Delete"@, "menu_delete:"@)],
                seq![b("📂 Categories"@, "menu_categories:"@)],
                seq![b("⚙️ Settings"@, "settings:"@)],
            ]
        } else {
            seq![]
        };
        assert(first =~= seq![seq![b("📝 List"@, "list:"@)]]);
        assert(second =~= first + m);
        assert(rows.deep_view() =~= second + a);
    }
    rows
}

/// A static keyboard for a user of role `role` and the torrent `hash`.
pub fn keyboard(k: Keyboard, role: &str, hash: &str) -> (r: Vec<Vec<(String, String)>>)
    ensures
        r.deep_view() == keyboard_of(k, role@, hash@),
{
    let mut rows: Vec<Vec<(String, String)>> = Vec::new();
    match k {
        Keyboard::Main => {
            return main_menu(role);
        },
        Keyboard::PauseResume => {
            push_row(&mut rows, row2(button("? Pause", "pause:"), button("?? Resume", "resume:")));
            push_row(&mut rows, row2(button("? Pause All", "pause_all:"), button("?? Resume All", "resume_all:")));
            push_row(&mut rows, row1(button("?? Menu", "menu:")));
        },
        Keyboard::Delete => {
            push_row(&mut rows, row1(button("?? Delete", "delete_one:")));
            push_row(&mut rows, row1(button("?? Delete All", "delete_all:")));
            push_row(&mut rows, row1(button("?? Menu", "menu:")));
        },
        Keyboard::DeleteOne => {
            push_row(&mut rows, row1(hash_button("?? Delete torrent", "delete_one_no_data:", hash)));
            push_row(&mut rows, row1(hash_button("?? Delete torrent and data", "delete_one_data:", hash)));
            push_row(&mut rows, row1(button("?? Menu", "menu:")));
        },
        Keyboard::DeleteAll => {
            push_row(&mut rows, row1(button("?? Delete all torrents", "delete_all_no_data:")));
            push_row(&mut rows, row1(button("?? Delete all torrents and data", "delete_all_data:")));
            push_row(&mut rows, row1(button("?? Menu", "menu:")));
        },
        Keyboard::Categories => {
            push_row(&mut rows, row1(button("? Add Category", "add_category:")));
            push_row(&mut rows, row1(button("?? Remove Category", "select_category:remove_category")));
            push_row(&mut rows, row1(button("?? Modify Category", "select_category:modify_category")));
            push_row(&mut rows, row1(button("?? Menu", "menu:")));
        },
        Keyboard::Settings => {
            push_row(&mut rows, row1(button("?? Client Settings", "edit_client:")));
            push_row(&mut rows, row1(button("?? Reload Settings", "reload_settings:")));
            push_row(&mut rows, row1(button("?? Menu", "menu:")));
        },
        Keyboard::ClientSettings => {
            push_row(&mut rows, row1(button("🐢 Toggle Speed Limit", "toggle_speed_limit:")));
            push_row(&mut rows, row1(button("✅ Check Client connection", "check_connection:")));
            push_row(&mut rows, row1(button("🔙 Settings", "settings:")));
        },
        Keyboard::TorrentDetails => {
            push_row(&mut rows, row1(hash_button("💾 Export torrent", "export:", hash)));
            push_row(&mut rows, row1(hash_button("📝 Edit Category", "edit_torrent_cat:", hash)));
            push_row(&mut rows, row1(hash_button("⏸ Pause", "pause:", hash)));
            push_row(&mut rows, row1(hash_button("▶️ Resume", "resume:", hash)));
            push_row(&mut rows, row1(hash_button("🗑 Delete", "delete_one:", hash)));
            push_row(&mut rows, row1(button("🔙 Menu", "menu:")));
        },
        Keyboard::BackToMenu => {
            push_row(&mut rows, row1(button("?? Menu", "menu:")));
        },
    }
    assert(rows.deep_view() =~= keyboard_of(k, role@, hash@));
    rows
}

/// A row with its labels translated.
pub open spec fn translated_row(
    tables: Seq<(Seq<char>, Seq<(Seq<char>, Seq<char>)>)>,
    locale: Seq<char>,
    row: RowSpec,
) -> RowSpec {
    Seq::new(row.len(), |i: int| (translated(tables, row[i].0, locale, None), row[i].1))
}

/// Rows with their labels translated.
pub open spec fn translated_rows(
    tables: Seq<(Seq<char>, Seq<(Seq<char>, Seq<char>)>)>,
    locale: Seq<char>,
    rows: Seq<RowSpec>,
) -> Seq<RowSpec> {
    Seq::new(rows.len(), |i: int| translated_row(tables, locale, rows[i]))
}

/// The rows with each label translated for a user of locale `locale`.
pub fn translate_rows(tr: &Translations, locale: Option<&String>, rows: &Vec<Vec<(String, String)>>) -> (r: Vec<Vec<(String, String)>>)
    ensures
        r.deep_view() == translated_rows(tr.tables(), locale_or_english(opt_string(locale)), rows.deep_view()),
{
    let ghost loc = locale_or_english(opt_string(locale));
    let ghost want = translated_rows(tr.tables(), loc, rows.deep_view());
    let mut out: Vec<Vec<(String, String)>> = Vec::new();
    let mut i: usize = 0;
    while i < rows.len()
        invariant
            i <= rows.len(),
            loc == locale_or_english(opt_string(locale)),
            want == translated_rows(tr.tables(), loc, rows.deep_view()),
            out.deep_view() == want.take(i as int),
        decreases rows.len() - i,
    {
        let row = &rows[i];
        let ghost rv = rows.deep_view()[i as int];
        assert(rv == row.deep_view());
        let mut new_row: Vec<(String, String)> = Vec::new();
        let mut j: usize = 0;
        while j < row.len()
            invariant
                j <= row.len(),
                rv == row.deep_view(),
                loc == locale_or_english(opt_string(locale)),
                new_row.deep_view() == translated_row(tr.tables(), loc, rv).take(j as int),
            decreases row.len() - j,
        {
            let label = translate(tr, locale, row[j].0.as_str(), None);
            let data = row[j].1.clone();
            assert(rv[j as int] == (row@[j as int].0@, row@[j as int].1@));
            let ghost before = new_row.deep_view();
            let ghost item = (label@, data@);
            new_row.push((label, data));
            assert(new_row.deep_view() =~= before.push(item));
            assert(translated_row(tr.tables(), loc, rv).take(j + 1) =~= translated_row(tr.tables(), loc, rv).take(j as int).push(item));
            j = j + 1;
        }
        assert(translated_row(tr.tables(), loc, rv).take(row.len() as int) =~= translated_row(tr.tables(), loc, rv));
        let ghost before = out.deep_view();
        let ghost nr = new_row.deep_view();
        out.push(new_row);
        assert(out.deep_view() =~= before.push(nr));
        assert(want.take(i + 1) =~= want.take(i as int).push(want[i as int]));
        i = i + 1;
    }
    assert(want.take(rows.len() as int) =~= want);
    out
}

/// The keyboard that chooses a category for an addition: one button per
/// category (`prefix:category`), one for no category (`prefix:None`), and
/// the translated way back to the menu.
pub open spec fn category_choice_rows_of(
    tables: Seq<(Seq<char>, Seq<(Seq<char>, Seq<char>)>)>,
    locale: Seq<char>,
    categories: Seq<Seq<char>>,
    prefix: Seq<char>,
) -> Seq<RowSpec> {
    Seq::new(categories.len(), |i: int| seq![b(categories[i], prefix + ":"@ + categories[i])])
        + seq![seq![b("None"@, prefix + ":None"@)], seq![b(translated(tables, "?? Menu"@, locale, None), "menu:"@)]]
}

/// A button `label` with data `prefix:label`.
fn prefixed_button(label: &str, prefix: &str) -> (r: (String, String))
    ensures
        r.0@ == label@,
        r.1@ == prefix@ + ":"@ + label@,
{
    let mut d = chars_of(prefix);
    push_str_chars(&mut d, ":");
    push_str_chars(&mut d, label);
    (owned(label), string_of(&d))
}

/// One button per category, each sending `prefix:category`.
fn category_rows(categories: &Vec<String>, prefix: &str) -> (r: Vec<Vec<(String, String)>>)
    ensures
        r.deep_view() == Seq::new(categories@.len(), |i: int| seq![b(categories@[i]@, prefix@ + ":"@ + categories@[i]@)]),
{
    let ghost want = Seq::new(categories@.len(), |i: int| seq![b(categories@[i]@, prefix@ + ":"@ + categories@[i]@)]);
    let mut rows: Vec<Vec<(String, String)>> = Vec::new();
    let mut i: usize = 0;
    while i < categories.len()
        invariant
            i <= categories.len(),
            want == Seq::new(categories@.len(), |i: int| seq![b(categories@[i]@, prefix@ + ":"@ + categories@[i]@)]),
            rows.deep_view() == want.take(i as int),
        decreases categories.len() - i,
    {
        push_row(&mut rows, row1(prefixed_button(categories[i].as_str(), prefix)));
        assert(want.take(i + 1) =~= want.take(i as int).push(want[i as int]));
        i = i + 1;
    }
    assert(want.take(categories.len() as int) =~= want);
    rows
}

/// The keyboard that chooses a category for an addition.
pub fn category_choice_rows(tr: &Translations, locale: Option<&String>, categories: &Vec<String>, prefix: &str) -> (r: Vec<Vec<(String, String)>>)
    ensures
        r.deep_view() == category_choice_rows_of(tr.tables(), locale_or_english(opt_string(locale)), categories.deep_view(), prefix@),
{
    let mut rows = category_rows(categories, prefix);
    let ghost head = rows.deep_view();
    let mut none_data = chars_of(prefix);
    push_str_chars(&mut none_data, ":None");
    push_row(&mut rows, row1((owned("None"), string_of(&none_data))));
    let menu = translate(tr, locale, "?? Menu", None);
    push_row(&mut rows, row1((menu, owned("menu:"))));
    proof {
        assert(categories.deep_view().len() == categories@.len());
        assert forall|i: int| 0 <= i < categories@.len() implies categories.deep_view()[i] == #[trigger] categories@[i]@ by {}
        assert(head =~= Seq::new(categories.deep_view().len(), |i: int| seq![b(categories.deep_view()[i], prefix@ + ":"@ + categories.deep_view()[i])]));
        assert(rows.deep_view() =~= category_choice_rows_of(tr.tables(), locale_or_english(opt_string(locale)), categories.deep_view(), prefix@));
    }
    rows
}

/// The keyboard of a category listing: one button per category
/// (`prefix:category`), then the translated way back to the menu.
pub open spec fn category_list_rows_of(
    tables: Seq<(Seq<char>, Seq<(Seq<char>, Seq<char>)>)>,
    locale: Seq<char>,
    categories: Seq<Seq<char>>,
    prefix: Seq<char>,
) -> Seq<RowSpec> {
    Seq::new(categories.len(), |i: int| seq![b(categories[i], prefix + ":"@ + categories[i])])
        + seq![seq![b(translated(tables, "🔙 Menu"@, locale, None), "menu:"@)]]
}

/// The keyboard of a category listing.
pub fn category_list_rows(tr: &Translations, locale: Option<&String>, categories: &Vec<String>, prefix: &str) -> (r: Vec<Vec<(String, String)>>)
    ensures
        r.deep_view() == category_list_rows_of(tr.tables(), locale_or_english(opt_string(locale)), categories.deep_view(), prefix@),
{
    let mut rows = category_rows(categories, prefix);
    let ghost head = rows.deep_view();
    let menu = translate(tr, locale, "🔙 Menu", None);
    push_row(&mut rows, row1((menu, owned("menu:"))));
    proof {
        assert forall|i: int| 0 <= i < categories@.len() implies categories.deep_view()[i] == #[trigger] categories@[i]@ by {}
        assert(head =~= Seq::new(categories.deep_view().len(), |i: int| seq![b(categories.deep_view()[i], prefix@ + ":"@ + categories.deep_view()[i])]));
        assert(rows.deep_view() =~= category_list_rows_of(tr.tables(), locale_or_english(opt_string(locale)), categories.deep_view(), prefix@));
    }
    rows
}


/// The mark of the status button that is the current filter.
pub open spec fn mark_of(filter: Option<Seq<char>>, status: Seq<char>) -> Seq<char> {
    if filter == Some(status) {
        "*"@
    } else {
        ""@
    }
}

/// The row of status filters of a Telegram list, the current one marked.
pub open spec fn status_row_of(
    tables: Seq<(Seq<char>, Seq<(Seq<char>, Seq<char>)>)>,
    locale: Seq<char>,
    filter: Option<Seq<char>>,
) -> RowSpec {
    seq![
        b(translated(tables, "⏳ {active} Downloading"@, locale, Some(seq![("active"@, mark_of(filter, "downloading"@))])), "by_status_list:downloading"@),
        b(translated(tables, "✔️ {active} Completed"@, locale, Some(seq![("active"@, mark_of(filter, "completed"@))])), "by_status_list:completed"@),
        b(translated(tables, "⏸️ {active} Paused"@, locale, Some(seq![("active"@, mark_of(filter, "paused"@))])), "by_status_list:paused"@),
    ]
}

/// The keyboard of a Telegram torrent list: the status filters, one button
/// per torrent (its shortened name, sending the prefix or `torrentInfo`
/// with its hash), and the way back to the menu.
pub open spec fn torrent_list_rows_of(
    tables: Seq<(Seq<char>, Seq<(Seq<char>, Seq<char>)>)>,
    locale: Seq<char>,
    filter: Option<Seq<char>>,
    names: Seq<Seq<char>>,
    hashes: Seq<Seq<char>>,
    prefix: Option<Seq<char>>,
) -> Seq<RowSpec> {
    seq![status_row_of(tables, locale, filter)] + Seq::new(
        names.len(),
        |i: int| seq![b(short_label_of(names[i], 40, 37, true), list_data_of(prefix, hashes[i]))],
    ) + seq![seq![b(translated(tables, "🔙 Menu"@, locale, None), "menu:"@)]]
}

/// The names of torrents.
pub open spec fn names_of(ts: Seq<Torrent>) -> Seq<Seq<char>> {
    Seq::new(ts.len(), |i: int| ts[i].name@)
}

/// The hashes of torrents.
pub open spec fn hashes_of(ts: Seq<Torrent>) -> Seq<Seq<char>> {
    Seq::new(ts.len(), |i: int| ts[i].hash@)
}

/// A status button with its mark.
fn status_button(tr: &Translations, locale: Option<&String>, filter: Option<&String>, key: &str, status: &str, data: &str) -> (r: (String, String))
    ensures
        r.0@ == translated(tr.tables(), key@, locale_or_english(opt_string(locale)), Some(seq![("active"@, mark_of(opt_string(filter), status@))])),
        r.1@ == data@,
{
    let mark = status_mark(filter, status);
    let ghost mv = mark@;
    let vars = vec![(owned("active"), mark)];
    assert(vars.deep_view() =~= seq![("active"@, mv)]);
    (translate(tr, locale, key, Some(&vars)), owned(data))
}

/// The keyboard of a Telegram torrent list.
pub fn torrent_list_rows(
    tr: &Translations,
    locale: Option<&String>,
    filter: Option<&String>,
    torrents: &Vec<Torrent>,
    prefix: Option<&str>,
) -> (r: Vec<Vec<(String, String)>>)
    requires
        forall|i: int| 0 <= i < torrents@.len() ==> cuttable(#[trigger] torrents@[i].name@, 40, 37),
    ensures
        r.deep_view() == torrent_list_rows_of(
            tr.tables(),
            locale_or_english(opt_string(locale)),
            opt_string(filter),
            names_of(torrents@),
            hashes_of(torrents@),
            match prefix {
                Some(p) => Some(p@),
                None => None,
            },
        ),
{
    let ghost loc = locale_or_english(opt_string(locale));
    let ghost pv = match prefix {
        Some(p) => Some(p@),
        None => None,
    };
    let ghost items = Seq::new(
        torrents@.len(),
        |i: int| seq![b(short_label_of(names_of(torrents@)[i], 40, 37, true), list_data_of(pv, hashes_of(torrents@)[i]))],
    );
    let mut rows: Vec<Vec<(String, String)>> = Vec::new();
    let dl = status_button(tr, locale, filter, "⏳ {active} Downloading", "downloading", "by_status_list:downloading");
    let comp = status_button(tr, locale, filter, "✔️ {active} Completed", "completed", "by_status_list:completed");
    let pause = status_button(tr, locale, filter, "⏸️ {active} Paused", "paused", "by_status_list:paused");
    let ghost (d0, d1, c0, c1, p0, p1) = (dl.0@, dl.1@, comp.0@, comp.1@, pause.0@, pause.1@);
    let status = vec![dl, comp, pause];
    assert(status.deep_view() =~= seq![(d0, d1), (c0, c1), (p0, p1)]);
    push_row(&mut rows, status);
    let ghost head = rows.deep_view();
    let mut i: usize = 0;
    while i < torrents.len()
        invariant
            i <= torrents.len(),
            pv == (match prefix {
                Some(p) => Some(p@),
                None => None,
            }),
            items == Seq::new(
                torrents@.len(),
                |i: int| seq![b(short_label_of(names_of(torrents@)[i], 40, 37, true), list_data_of(pv, hashes_of(torrents@)[i]))],
            ),
            forall|i: int| 0 <= i < torrents@.len() ==> cuttable(#[trigger] torrents@[i].name@, 40, 37),
            rows.deep_view() == head + items.take(i as int),
        decreases torrents.len() - i,
    {
        let t = &torrents[i];
        let label = list_button_label(t.name.as_str());
        let data = list_button_data(prefix, t.hash.as_str());
        assert((label@, data@) == b(short_label_of(names_of(torrents@)[i as int], 40, 37, true), list_data_of(pv, hashes_of(torrents@)[i as int])));
        push_row(&mut rows, row1((label, data)));
        assert(items.take(i + 1) =~= items.take(i as int).push(items[i as int]));
        assert(head + items.take(i + 1) =~= (head + items.take(i as int)).push(items[i as int]));
        i = i + 1;
    }
    assert(items.take(torrents.len() as int) =~= items);
    let menu = translate(tr, locale, "🔙 Menu", None);
    push_row(&mut rows, row1((menu, owned("menu:"))));
    assert(rows.deep_view() =~= torrent_list_rows_of(tr.tables(), loc, opt_string(filter), names_of(torrents@), hashes_of(torrents@), pv));
    rows
}

} // verus!
