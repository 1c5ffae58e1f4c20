use vstd::prelude::*;
use crate::labels::{
    lemma_labels_distinct, checked_label, unchecked_label, checked_text, unchecked_text, is_checked,
    is_unchecked,
};
use crate::paths::{file_name_outcome, file_name_text};
use crate::tables::{Row, Table, RowView, TableView, cell, has_row, cell_text, make_row};
use crate::text::{decimal, decimal_text};

verus! {

/// The row of the log table for a file added from disk: its number, its
/// name, and the placeholders the table starts such a log with.
pub open spec fn log_file_row(id: Seq<char>, name: Seq<char>) -> RowView {
    seq![id, name, "Object"@, "Value"@, "Tag"@, "1"@, "00:00:00"@, "0.0"@, "False"@]
}

/// The log table after files with the given names are added: each gets the
/// next number, counting from the table's length.
pub open spec fn with_log_files(t: TableView, names: Seq<Seq<char>>) -> TableView {
    t + Seq::new(names.len(), |k: int| log_file_row(decimal((t.len() + k + 1) as nat), names[k]))
}

/// Every row is numbered by its position: row `i` has the text of `i + 1`
/// in its first cell.
pub open spec fn numbered(t: TableView) -> bool {
    forall|i: int| 0 <= i < t.len() ==> #[trigger] t[i].len() > 0 && t[i][0] == decimal((i + 1) as nat)
}

fn log_file_row_of(id: String, name: String) -> (r: Row)
    ensures
        r.deep_view() == log_file_row(id@, name@),
{
    let mut r: Row = Vec::new();
    r.push(id);
    r.push(name);
    let rest = make_row(&["Object", "Value", "Tag", "1", "00:00:00", "0.0", "False"]);
    let ghost a = r.deep_view();
    let ghost b = rest.deep_view();
    let mut rest = rest;
    r.append(&mut rest);
    assert(r.deep_view() =~= a + b);
    assert(r.deep_view() =~= log_file_row(id@, name@));
    r
}

/// Adds log files with the given names to the log table.
pub fn append_log_rows(rows: &mut Table, names: &Vec<String>)
    ensures
        final(rows).deep_view() == with_log_files(old(rows).deep_view(), names.deep_view()),
        final(rows).deep_view().len() == old(rows).deep_view().len() + names@.len(),
        final(rows).deep_view().subrange(0, old(rows).deep_view().len() as int) == old(rows).deep_view(),
        forall|k: int| #![trigger names@[k]] 0 <= k < names@.len() ==> {
            let r = final(rows).deep_view()[old(rows).deep_view().len() + k];
            &&& r.len() == 9
            &&& r[0] == decimal((old(rows).deep_view().len() + k + 1) as nat)
            &&& r[1] == names@[k]@
            &&& r.subrange(2, 9) == seq!["Object"@, "Value"@, "Tag"@, "1"@, "00:00:00"@, "0.0"@, "False"@]
        },
{
    let ghost start = rows.deep_view();
    let mut k: usize = 0;
    while k < names.len()
        invariant
            k <= names@.len(),
            rows.deep_view() == with_log_files(start, names.deep_view().subrange(0, k as int)),
        decreases names@.len() - k,
    {
        assert(rows.deep_view().len() == start.len() + k);
        let id = decimal_text(rows.len() as u128 + 1);
        let r = log_file_row_of(id, names[k].clone());
        let ghost before = rows.deep_view();
        rows.push(r);
        assert(rows.deep_view() =~= before.push(r.deep_view()));
        k = k + 1;
        assert(rows.deep_view() =~= with_log_files(start, names.deep_view().subrange(0, k as int)));
    }
    assert(names.deep_view().subrange(0, k as int) =~= names.deep_view());
    assert(rows.deep_view().subrange(0, start.len() as int) =~= start);
    assert forall|k: int| #![trigger names@[k]] 0 <= k < names@.len() implies {
        let r = rows.deep_view()[start.len() + k];
        &&& r.len() == 9
        &&& r[0] == decimal((start.len() + k + 1) as nat)
        &&& r[1] == names@[k]@
        &&& r.subrange(2, 9) == seq!["Object"@, "Value"@, "Tag"@, "1"@, "00:00:00"@, "0.0"@, "False"@]
    } by {
        let r = rows.deep_view()[start.len() + k];
        assert(names.deep_view()[k] == names@[k]@);
        assert(r.subrange(2, 9) =~= seq!["Object"@, "Value"@, "Tag"@, "1"@, "00:00:00"@, "0.0"@, "False"@]);
    }
}

/// Adds the files at the given paths to the log table, each shown by its
/// file name.
pub fn add_log_files(rows: &mut Table, paths: &Vec<String>)
    ensures
        final(rows).deep_view().len() == old(rows).deep_view().len() + paths@.len(),
        final(rows).deep_view().subrange(0, old(rows).deep_view().len() as int) == old(rows).deep_view(),
        forall|k: int| #![trigger paths@[k]] 0 <= k < paths@.len() ==> {
            let r = final(rows).deep_view()[old(rows).deep_view().len() + k];
            &&& r == log_file_row(decimal((old(rows).deep_view().len() + k + 1) as nat), r[1])
            &&& r.len() == 9
            &&& r[0] == decimal((old(rows).deep_view().len() + k + 1) as nat)
            &&& r.subrange(2, 9) == seq!["Object"@, "Value"@, "Tag"@, "1"@, "00:00:00"@, "0.0"@, "False"@]
            &&& file_name_outcome(r[1], paths@[k]@)
        },
{
    let mut names: Vec<String> = Vec::new();
    let mut k: usize = 0;
    while k < paths.len()
        invariant
            k <= paths@.len(),
            names@.len() == k,
            forall|j: int| 0 <= j < k ==> file_name_outcome(#[trigger] names@[j]@, paths@[j]@),
        decreases paths@.len() - k,
    {
        let path: &str = paths[k].as_str();
        names.push(file_name_text(path));
        k = k + 1;
    }
    let ghost old_t = rows.deep_view();
    append_log_rows(rows, &names);
    assert(rows.deep_view().subrange(0, old_t.len() as int) =~= old_t);
    assert forall|k: int| #![trigger paths@[k]] 0 <= k < paths@.len() implies {
        let r = rows.deep_view()[old_t.len() + k];
        &&& r == log_file_row(decimal((old_t.len() + k + 1) as nat), r[1])
        &&& r.len() == 9
        &&& r[0] == decimal((old_t.len() + k + 1) as nat)
        &&& r.subrange(2, 9) == seq!["Object"@, "Value"@, "Tag"@, "1"@, "00:00:00"@, "0.0"@, "False"@]
        &&& file_name_outcome(r[1], paths@[k]@)
    } by {
        assert(names.deep_view()[k] == names@[k]@);
        assert(names@[k] == names@[k]);
        let r = rows.deep_view()[old_t.len() + k];
        assert(r.subrange(2, 9) =~= seq!["Object"@, "Value"@, "Tag"@, "1"@, "00:00:00"@, "0.0"@, "False"@]);
        assert(file_name_outcome(names@[k]@, paths@[k]@));
    }
}

/// The candidate logs offered by "Add...": four state properties of the
/// AppComb project, each already tagged, none chosen yet.
pub open spec fn add_logs_table() -> TableView {
    seq![
        seq!["1"@, "AppComb"@, "C11LS1"@, "State"@, "☑"@, "0100005D"@, "☐"@],
        seq!["2"@, "AppComb"@, "C11LS2"@, "State"@, "☑"@, "0100005E"@, "☐"@],
        seq!["3"@, "AppComb"@, "C11N1"@, "State"@, "☑"@, "01000038"@, "☐"@],
        seq!["4"@, "AppComb"@, "C11V1"@, "State"@, "☑"@, "01000047"@, "☐"@],
    ]
}

/// The candidate logs offered by "Import...": two properties of the Alkali
/// project, untagged, none chosen yet.
pub open spec fn import_logs_table() -> TableView {
    seq![
        seq!["1"@, "Alkali"@, "LT1"@, "V_Recalc"@, "☐"@, "00000000"@, "☐"@],
        seq!["2"@, "Alkali"@, "TANK10V4"@, "ladd"@, "☐"@, "00000000"@, "☐"@],
    ]
}

/// The candidates offered by "Add...".
pub fn add_logs_candidates() -> (t: Table)
    ensures
        t.deep_view() == add_logs_table(),
{
    let mut t: Table = Vec::new();
    let r1 = make_row(&["1", "AppComb", "C11LS1", "State", "☑", "0100005D", "☐"]);
    let r2 = make_row(&["2", "AppComb", "C11LS2", "State", "☑", "0100005E", "☐"]);
    let r3 = make_row(&["3", "AppComb", "C11N1", "State", "☑", "01000038", "☐"]);
    let r4 = make_row(&["4", "AppComb", "C11V1", "State", "☑", "01000047", "☐"]);
    let ghost (a, b, c, d) = (r1.deep_view(), r2.deep_view(), r3.deep_view(), r4.deep_view());
    t.push(r1);
    t.push(r2);
    t.push(r3);
    t.push(r4);
    assert(a =~= add_logs_table()[0]);
    assert(b =~= add_logs_table()[1]);
    assert(c =~= add_logs_table()[2]);
    assert(d =~= add_logs_table()[3]);
    assert(t.deep_view() =~= add_logs_table());
    t
}

/// The candidates offered by "Import...".
pub fn import_logs_candidates() -> (t: Table)
    ensures
        t.deep_view() == import_logs_table(),
{
    let mut t: Table = Vec::new();
    let r1 = make_row(&["1", "Alkali", "LT1", "V_Recalc", "☐", "00000000", "☐"]);
    let r2 = make_row(&["2", "Alkali", "TANK10V4", "ladd", "☐", "00000000", "☐"]);
    let ghost (a, b) = (r1.deep_view(), r2.deep_view());
    t.push(r1);
    t.push(r2);
    assert(a =~= import_logs_table()[0]);
    assert(b =~= import_logs_table()[1]);
    assert(t.deep_view() =~= import_logs_table());
    t
}

/// A candidate row with its choice flipped: the first seven cells (missing
/// ones empty), the seventh ticked exactly when it was an empty box.
pub open spec fn toggled_row(r: RowView) -> RowView {
    seq![
        cell(r, 0),
        cell(r, 1),
        cell(r, 2),
        cell(r, 3),
        cell(r, 4),
        cell(r, 5),
        if cell(r, 6) == unchecked_label() { checked_label() } else { unchecked_label() },
    ]
}

/// The candidate table after the choice of row `idx` is flipped.
pub open spec fn with_toggle(t: TableView, idx: int) -> TableView {
    if has_row(t, idx) {
        t.update(idx, toggled_row(t[idx]))
    } else {
        t
    }
}

/// Flips the choice of candidate `idx`.
pub fn toggle_log_selection(rows: &mut Table, idx: i32)
    ensures
        final(rows).deep_view() == with_toggle(old(rows).deep_view(), idx as int),
        final(rows).deep_view().len() == old(rows).deep_view().len(),
        forall|j: int| 0 <= j < old(rows).deep_view().len() && j != idx ==> #[trigger] final(rows).deep_view()[j]
            == old(rows).deep_view()[j],
        0 <= idx < old(rows).deep_view().len() ==> {
            let r = final(rows).deep_view()[idx as int];
            let o = old(rows).deep_view()[idx as int];
            &&& r.len() == 7
            &&& forall|k: int| 0 <= k < 6 ==> #[trigger] r[k] == cell(o, k)
            &&& r[6] == checked_label() || r[6] == unchecked_label()
            &&& (r[6] == checked_label() <==> cell(o, 6) == unchecked_label())
        },
{
    proof {
        lemma_labels_distinct();
    }
    if idx >= 0 && (idx as usize) < rows.len() {
        let i = idx as usize;
        let ghost src = rows.deep_view()[i as int];
        let mut r: Row = Vec::new();
        let mut c: usize = 0;
        while c < 6
            invariant
                c <= 6,
                i < rows@.len(),
                src == rows.deep_view()[i as int],
                r.deep_view() =~= Seq::new(c as nat, |j: int| cell(src, j)),
            decreases 6 - c,
        {
            let s = cell_text(&rows[i], c);
            let ghost before = r.deep_view();
            r.push(s);
            assert(r.deep_view() =~= before.push(s@));
            c = c + 1;
        }
        let box_cell = cell_text(&rows[i], 6);
        let flipped = if is_unchecked(&box_cell) {
            checked_text()
        } else {
            unchecked_text()
        };
        let ghost before = r.deep_view();
        r.push(flipped);
        assert(r.deep_view() =~= before.push(flipped@));
        assert(r.deep_view() =~= toggled_row(src));
        let ghost t0 = rows.deep_view();
        rows.set(i, r);
        assert(rows.deep_view() =~= t0.update(i as int, toggled_row(src)));
    }
}

/// The log row for a chosen candidate: the next number, the candidate's
/// project, object, property, tag and channel cells, zero counters and an
/// empty box.
pub open spec fn committed_row(id: Seq<char>, r: RowView) -> RowView {
    seq![id, cell(r, 1), cell(r, 2), cell(r, 3), cell(r, 4), cell(r, 5), "0"@, "0"@, "☐"@]
}

/// The log table after the chosen candidates are added, in order, each with
/// the next number.
pub open spec fn with_committed(available: TableView, logs: TableView) -> TableView
    decreases available.len(),
{
    if available.len() == 0 {
        logs
    } else {
        let t = with_committed(available.drop_last(), logs);
        let r = available.last();
        if cell(r, 6) == checked_label() {
            t.push(committed_row(decimal((t.len() + 1) as nat), r))
        } else {
            t
        }
    }
}

fn committed_row_of(id: String, r: &Row) -> (out: Row)
    ensures
        out.deep_view() == committed_row(id@, r.deep_view()),
        out.deep_view().len() == 9,
        out.deep_view()[0] == id@,
        forall|k: int| 1 <= k <= 5 ==> #[trigger] out.deep_view()[k] == cell(r.deep_view(), k),
        out.deep_view().subrange(6, 9) == seq!["0"@, "0"@, "☐"@],
{
    let mut out: Row = Vec::new();
    out.push(id);
    let mut c: usize = 1;
    while c < 6
        invariant
            1 <= c <= 6,
            out.deep_view() =~= seq![id@] + Seq::new((c - 1) as nat, |j: int| cell(r.deep_view(), j + 1)),
        decreases 6 - c,
    {
        let s = cell_text(r, c);
        let ghost before = out.deep_view();
        out.push(s);
        assert(out.deep_view() =~= before.push(s@));
        c = c + 1;
    }
    let tail = make_row(&["0", "0", "☐"]);
    let ghost a = out.deep_view();
    let ghost b = tail.deep_view();
    let mut tail = tail;
    out.append(&mut tail);
    assert(out.deep_view() =~= a + b);
    assert(out.deep_view() =~= committed_row(id@, r.deep_view()));
    assert(out.deep_view().subrange(6, 9) =~= seq!["0"@, "0"@, "☐"@]);
    out
}

/// Adds the chosen candidates to the log table.
pub fn commit_added_logs(available: &Table, logs: &mut Table)
    ensures
        final(logs).deep_view() == with_committed(available.deep_view(), old(logs).deep_view()),
{
    let ghost start = logs.deep_view();
    let mut i: usize = 0;
    while i < available.len()
        invariant
            i <= available@.len(),
            logs.deep_view() == with_committed(available.deep_view().subrange(0, i as int), start),
        decreases available@.len() - i,
    {
        let ghost prefix = available.deep_view().subrange(0, i + 1);
        assert(prefix.drop_last() =~= available.deep_view().subrange(0, i as int));
        assert(prefix.last() == available.deep_view()[i as int]);
        let row = &available[i];
        let box_cell = cell_text(row, 6);
        if is_checked(&box_cell) {
            let id = decimal_text(logs.len() as u128 + 1);
            let r = committed_row_of(id, row);
            let ghost before = logs.deep_view();
            logs.push(r);
            assert(logs.deep_view() =~= before.push(r.deep_view()));
        }
        i = i + 1;
    }
    assert(available.deep_view().subrange(0, i as int) =~= available.deep_view());
}

/// The table after the selected row is deleted: row `idx` goes when it
/// exists.
pub open spec fn without_row(t: TableView, idx: int) -> TableView {
    if has_row(t, idx) {
        t.remove(idx)
    } else {
        t
    }
}

/// Deletes the selected row of the server or log table. Returns whether the
/// selection is to be cleared (whenever `idx` is not negative).
pub fn delete_selected_row(rows: &mut Table, idx: i32) -> (clear: bool)
    ensures
        final(rows).deep_view() == without_row(old(rows).deep_view(), idx as int),
        0 <= idx < old(rows).deep_view().len() ==> final(rows).deep_view() == old(rows).deep_view().remove(
            idx as int,
        ) && final(rows).deep_view().len() == old(rows).deep_view().len() - 1,
        !(0 <= idx < old(rows).deep_view().len()) ==> final(rows).deep_view() == old(rows).deep_view(),
        clear == (idx >= 0),
{
    if idx >= 0 {
        let i = idx as usize;
        if i < rows.len() {
            let ghost before = rows.deep_view();
            rows.remove(i);
            assert(rows.deep_view() =~= before.remove(i as int));
        }
        true
    } else {
        false
    }
}

// ---------------------------------------------------------------------------
// Laws

/// Flipping a candidate's choice twice gives back its row, when the row has
/// exactly the seven candidate cells and its last one is a check box.
pub proof fn lemma_toggle_twice(t: TableView, idx: int)
    requires
        has_row(t, idx) ==> t[idx].len() == 7 && (t[idx][6] == checked_label() || t[idx][6]
            == unchecked_label()),
    ensures
        with_toggle(with_toggle(t, idx), idx) == t,
{
    lemma_labels_distinct();
    if has_row(t, idx) {
        assert(toggled_row(toggled_row(t[idx])) =~= t[idx]);
        assert(with_toggle(with_toggle(t, idx), idx) =~= t);
    }
}

/// Adding log files keeps a table numbered by position.
pub proof fn lemma_log_files_keep_numbering(t: TableView, names: Seq<Seq<char>>)
    requires
        numbered(t),
    ensures
        numbered(with_log_files(t, names)),
{
    let u = with_log_files(t, names);
    assert forall|i: int| 0 <= i < u.len() implies #[trigger] u[i].len() > 0 && u[i][0] == decimal(
        (i + 1) as nat,
    ) by {
        if i >= t.len() {
            assert(u[i] == log_file_row(decimal((t.len() + (i - t.len()) + 1) as nat), names[i - t.len()]));
        }
    }
}

/// Adding the chosen candidates keeps a log table numbered by position.
pub proof fn lemma_commit_keeps_numbering(available: TableView, logs: TableView)
    requires
        numbered(logs),
    ensures
        numbered(with_committed(available, logs)),
    decreases available.len(),
{
    if available.len() > 0 {
        lemma_commit_keeps_numbering(available.drop_last(), logs);
        let t = with_committed(available.drop_last(), logs);
        let r = available.last();
        if cell(r, 6) == checked_label() {
            let u = t.push(committed_row(decimal((t.len() + 1) as nat), r));
            assert forall|i: int| 0 <= i < u.len() implies #[trigger] u[i].len() > 0 && u[i][0]
                == decimal((i + 1) as nat) by {
                if i < t.len() {
                    assert(u[i] == t[i]);
                }
            }
        }
    }
}

/// The candidates whose box is ticked, in order.
pub open spec fn chosen_candidates(available: TableView) -> TableView
    decreases available.len(),
{
    if available.len() == 0 {
        Seq::empty()
    } else {
        let c = chosen_candidates(available.drop_last());
        if cell(available.last(), 6) == checked_label() {
            c.push(available.last())
        } else {
            c
        }
    }
}

/// Committing keeps the log table and adds one row per ticked candidate, in
/// order: the next number, the candidate's cells 1 to 5 (project, object,
/// property, tag, channel) unchanged, zero counters and an empty box.
pub proof fn lemma_commit_copies_candidates(available: TableView, logs: TableView)
    ensures
        with_committed(available, logs).len() == logs.len() + chosen_candidates(available).len(),
        with_committed(available, logs).subrange(0, logs.len() as int) == logs,
        forall|j: int| 0 <= j < chosen_candidates(available).len() ==> {
            let r = #[trigger] with_committed(available, logs)[logs.len() + j];
            let c = chosen_candidates(available)[j];
            &&& r.len() == 9
            &&& r[0] == decimal((logs.len() + j + 1) as nat)
            &&& forall|k: int| 1 <= k <= 5 ==> #[trigger] r[k] == cell(c, k)
            &&& r.subrange(6, 9) == seq!["0"@, "0"@, "☐"@]
        },
    decreases available.len(),
{
    if available.len() == 0 {
        assert(logs.subrange(0, logs.len() as int) =~= logs);
    } else {
        let init = available.drop_last();
        lemma_commit_copies_candidates(init, logs);
        let t = with_committed(init, logs);
        let r = available.last();
        let ch = chosen_candidates(init);
        if cell(r, 6) == checked_label() {
            let row = committed_row(decimal((t.len() + 1) as nat), r);
            let u = t.push(row);
            assert(u.subrange(0, logs.len() as int) =~= t.subrange(0, logs.len() as int));
            assert forall|j: int| 0 <= j < chosen_candidates(available).len() implies {
                let r2 = #[trigger] u[logs.len() + j];
                let c = chosen_candidates(available)[j];
                &&& r2.len() == 9
                &&& r2[0] == decimal((logs.len() + j + 1) as nat)
                &&& forall|k: int| 1 <= k <= 5 ==> #[trigger] r2[k] == cell(c, k)
                &&& r2.subrange(6, 9) == seq!["0"@, "0"@, "☐"@]
            } by {
                if j == ch.len() {
                    assert(u[logs.len() + j] == row);
                    assert(row.subrange(6, 9) =~= seq!["0"@, "0"@, "☐"@]);
                } else {
                    assert(u[logs.len() + j] == t[logs.len() + j]);
                }
            }
        }
    }
}

/// Deleting an existing row removes exactly that row: the rows before it stay
/// in place, the rows after it move up by one; any other index changes nothing.
pub proof fn lemma_delete_row_removes_it(t: TableView, idx: int)
    ensures
        has_row(t, idx) ==> {
            let u = without_row(t, idx);
            &&& u.len() == t.len() - 1
            &&& forall|j: int| 0 <= j < idx ==> #[trigger] u[j] == t[j]
            &&& forall|j: int| idx <= j < u.len() ==> #[trigger] u[j] == t[j + 1]
        },
        !has_row(t, idx) ==> without_row(t, idx) == t,
{
}

/// Flipping a choice changes only the chosen row: its first six cells stay
/// (missing ones read as empty) and its box is ticked exactly when it was
/// empty; every other row, and the length, stay.
pub proof fn lemma_toggle_changes_only_choice(t: TableView, idx: int)
    ensures
        with_toggle(t, idx).len() == t.len(),
        forall|j: int| 0 <= j < t.len() && j != idx ==> #[trigger] with_toggle(t, idx)[j] == t[j],
        has_row(t, idx) ==> {
            let r = with_toggle(t, idx)[idx];
            &&& r.len() == 7
            &&& forall|k: int| 0 <= k < 6 ==> #[trigger] r[k] == cell(t[idx], k)
            &&& r[6] == checked_label() || r[6] == unchecked_label()
            &&& (r[6] == checked_label() <==> cell(t[idx], 6) == unchecked_label())
        },
{
    lemma_labels_distinct();
}

} // verus!
