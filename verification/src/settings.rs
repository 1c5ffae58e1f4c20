use vstd::prelude::*;
use crate::labels::{yes_label, yes_text};
use crate::paths::{file_name_outcome, file_name_text};
use crate::tables::{Table, TableView, cell, has_row, cell_text, row2, row3, make_row};

verus! {

/// The user table the settings dialog starts with: SUPERVISOR at level 10
/// and USER at level 1, neither described.
pub open spec fn initial_users_table() -> TableView {
    seq![seq!["SUPERVISOR"@, "10"@, ""@], seq!["USER"@, "1"@, ""@]]
}

/// The user table the settings dialog starts with.
pub fn initial_user_rows() -> (t: Table)
    ensures
        t.deep_view() == initial_users_table(),
{
    let mut t: Table = Vec::new();
    let supervisor = make_row(&["SUPERVISOR", "10", ""]);
    let user = make_row(&["USER", "1", ""]);
    let ghost a = supervisor.deep_view();
    let ghost b = user.deep_view();
    t.push(supervisor);
    t.push(user);
    assert(a =~= seq!["SUPERVISOR"@, "10"@, ""@]);
    assert(b =~= seq!["USER"@, "1"@, ""@]);
    assert(t.deep_view() =~= initial_users_table());
    t
}

/// The level shown for the user selected at `idx`: the level cell of that
/// row, or the empty text when `idx` names no row.
pub open spec fn user_level(t: TableView, idx: int) -> Seq<char> {
    if has_row(t, idx) {
        cell(t[idx], 1)
    } else {
        Seq::empty()
    }
}

/// The user table after the level of row `idx` is set to `level`.
pub open spec fn with_user_level(t: TableView, idx: int, level: Seq<char>) -> TableView {
    if has_row(t, idx) {
        t.update(idx, seq![cell(t[idx], 0), level, cell(t[idx], 2)])
    } else {
        t
    }
}

/// The level to show for the user selected at `idx`.
pub fn selected_user_level(rows: &Table, idx: i32) -> (s: String)
    ensures
        s@ == user_level(rows.deep_view(), idx as int),
        0 <= idx < rows.deep_view().len() && rows.deep_view()[idx as int].len() > 1 ==> s@
            == rows.deep_view()[idx as int][1],
        !(0 <= idx < rows.deep_view().len() && rows.deep_view()[idx as int].len() > 1) ==> s@.len() == 0,
{
    if idx >= 0 && (idx as usize) < rows.len() {
        cell_text(&rows[idx as usize], 1)
    } else {
        String::new()
    }
}

/// Sets the level of the user at `idx`, keeping name and description.
pub fn update_user_level(rows: &mut Table, idx: i32, level: &str)
    ensures
        final(rows).deep_view() == with_user_level(old(rows).deep_view(), idx as int, level@),
        final(rows).deep_view().len() == old(rows).deep_view().len(),
        forall|j: int| 0 <= j < old(rows).deep_view().len() && j != idx ==> #[trigger] final(rows).deep_view()[j]
            == old(rows).deep_view()[j],
        0 <= idx < old(rows).deep_view().len() ==> final(rows).deep_view()[idx as int] == seq![
            cell(old(rows).deep_view()[idx as int], 0),
            level@,
            cell(old(rows).deep_view()[idx as int], 2),
        ],
{
    if idx >= 0 && (idx as usize) < rows.len() {
        let i = idx as usize;
        let name = cell_text(&rows[i], 0);
        let desc = cell_text(&rows[i], 2);
        let r = row3(name, String::from_str(level), desc);
        let ghost before = rows.deep_view();
        rows.set(i, r);
        assert(rows.deep_view() =~= before.update(i as int, r.deep_view()));
    }
}

/// Adds a channel-base node by name, marked as used.
pub fn add_chbase_node(rows: &mut Table, name: String)
    ensures
        final(rows).deep_view() == old(rows).deep_view().push(seq![name@, yes_label()]),
{
    let r = row2(name, yes_text());
    let ghost before = rows.deep_view();
    rows.push(r);
    assert(rows.deep_view() =~= before.push(r.deep_view()));
}

/// Adds the folder at `path` as a channel-base node, shown by its name.
pub fn add_chbase_folder(rows: &mut Table, path: &str)
    ensures
        final(rows).deep_view().len() == old(rows).deep_view().len() + 1,
        final(rows).deep_view().drop_last() == old(rows).deep_view(),
        final(rows).deep_view().last() == seq![final(rows).deep_view().last()[0], yes_label()],
        file_name_outcome(final(rows).deep_view().last()[0], path@),
{
    let name = file_name_text(path);
    add_chbase_node(rows, name);
    assert(rows.deep_view().drop_last() =~= old(rows).deep_view());
}

/// The channel-base table for a projects folder: one used row per entry of
/// the folder, or, for an empty folder, one used row for the folder itself.
pub open spec fn source_table(folder_name: Seq<char>, entries: Seq<Seq<char>>) -> TableView {
    if entries.len() == 0 {
        seq![seq![folder_name, yes_label()]]
    } else {
        Seq::new(entries.len(), |i: int| seq![entries[i], yes_label()])
    }
}

/// Builds the channel-base table for a projects folder named `folder_name`
/// with the given entries.
pub fn source_rows(folder_name: String, entries: &Vec<String>) -> (t: Table)
    ensures
        t.deep_view() == source_table(folder_name@, entries.deep_view()),
        entries@.len() == 0 ==> t.deep_view() == seq![seq![folder_name@, yes_label()]],
        entries@.len() > 0 ==> t.deep_view().len() == entries@.len() && forall|i: int|
            0 <= i < entries@.len() ==> #[trigger] t.deep_view()[i] == seq![entries@[i]@, yes_label()],
{
    let mut t: Table = Vec::new();
    if entries.len() == 0 {
        let r = row2(folder_name, yes_text());
        t.push(r);
        assert(t.deep_view() =~= source_table(folder_name@, entries.deep_view()));
        return t;
    }
    let mut i: usize = 0;
    while i < entries.len()
        invariant
            i <= entries@.len(),
            t.deep_view() =~= Seq::new(i as nat, |k: int| seq![entries.deep_view()[k], yes_label()]),
        decreases entries@.len() - i,
    {
        let r = row2(entries[i].clone(), yes_text());
        assert(entries.deep_view()[i as int] == entries@[i as int]@);
        let ghost before = t.deep_view();
        t.push(r);
        assert(t.deep_view() =~= before.push(r.deep_view()));
        i = i + 1;
    }
    t
}

/// Builds the channel-base table for the projects folder at `folder_path`
/// with the given entries; the folder is shown by its name.
pub fn projects_source_rows(folder_path: &str, entries: &Vec<String>) -> (t: Table)
    ensures
        entries@.len() > 0 ==> t.deep_view() == Seq::new(
            entries@.len(),
            |i: int| seq![entries.deep_view()[i], yes_label()],
        ),
        entries@.len() == 0 ==> t.deep_view().len() == 1 && t.deep_view()[0] == seq![
            t.deep_view()[0][0],
            yes_label(),
        ] && file_name_outcome(t.deep_view()[0][0], folder_path@),
{
    let name = file_name_text(folder_path);
    let ghost n = name@;
    let t = source_rows(name, entries);
    proof {
        if entries@.len() == 0 {
            assert(t.deep_view()[0] == seq![n, yes_label()]);
        }
    }
    t
}

/// The level shown for a selected user is the level cell of that user's row,
/// for every row of the table (the last one too); nothing is shown when no
/// row is selected.
pub proof fn lemma_user_level_of_row(t: TableView, idx: int)
    ensures
        0 <= idx < t.len() && t[idx].len() > 1 ==> user_level(t, idx) == t[idx][1],
        !(0 <= idx < t.len()) ==> user_level(t, idx).len() == 0,
{
}

/// Setting a user's level changes only that user's row: name and description
/// stay, the level is the given one; every other row, and the length, stay.
pub proof fn lemma_user_level_changes_only_row(t: TableView, idx: int, level: Seq<char>)
    ensures
        with_user_level(t, idx, level).len() == t.len(),
        forall|j: int| 0 <= j < t.len() && j != idx ==> #[trigger] with_user_level(t, idx, level)[j] == t[j],
        has_row(t, idx) ==> with_user_level(t, idx, level)[idx] == seq![cell(t[idx], 0), level, cell(t[idx], 2)],
        has_row(t, idx) ==> user_level(with_user_level(t, idx, level), idx) == level,
{
}

} // verus!
