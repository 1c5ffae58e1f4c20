use vstd::prelude::*;

verus! {

/// One row of a table in the monitor window: its cells' texts.
pub type Row = Vec<String>;

/// A table of the monitor window.
pub type Table = Vec<Row>;

/// The texts of a row.
pub type RowView = Seq<Seq<char>>;

/// The texts of a table, row by row.
pub type TableView = Seq<RowView>;

/// The text of cell `c` of a row; the empty text where the row has no such cell.
pub open spec fn cell(r: RowView, c: int) -> Seq<char> {
    if 0 <= c < r.len() {
        r[c]
    } else {
        Seq::empty()
    }
}

/// The row at `idx`, when `idx` names one.
pub open spec fn has_row(t: TableView, idx: int) -> bool {
    0 <= idx < t.len()
}

/// The cell texts of a list of string slices.
pub open spec fn strs_view(items: Seq<&str>) -> RowView {
    Seq::new(items.len(), |i: int| items[i]@)
}

/// A row whose cells hold the given texts, in order.
pub fn make_row(items: &[&str]) -> (r: Row)
    ensures
        r.deep_view() == strs_view(items@),
{
    let mut r: Row = Vec::new();
    let mut i: usize = 0;
    while i < items.len()
        invariant
            i <= items@.len(),
            r.deep_view() == strs_view(items@.subrange(0, i as int)),
        decreases items@.len() - i,
    {
        let item: &str = items[i];
        let s = String::from_str(item);
        assert(s@ == items@[i as int]@);
        let ghost before = r.deep_view();
        r.push(s);
        assert(r.deep_view() =~= before.push(s@));
        assert(strs_view(items@.subrange(0, i + 1)) =~= strs_view(items@.subrange(0, i as int)).push(
            items@[i as int]@,
        ));
        i = i + 1;
    }
    assert(items@.subrange(0, i as int) =~= items@);
    r
}

/// The text of cell `c` of `row` (empty where the row has no such cell).
pub fn cell_text(row: &Row, c: usize) -> (s: String)
    ensures
        s@ == cell(row.deep_view(), c as int),
{
    if c < row.len() {
        row[c].clone()
    } else {
        String::new()
    }
}

/// A row of two cells.
pub fn row2(a: String, b: String) -> (r: Row)
    ensures
        r.deep_view() == seq![a@, b@],
{
    let mut r: Row = Vec::new();
    r.push(a);
    r.push(b);
    assert(r.deep_view() =~= seq![a@, b@]);
    r
}

/// A row of three cells.
pub fn row3(a: String, b: String, c: String) -> (r: Row)
    ensures
        r.deep_view() == seq![a@, b@, c@],
{
    let mut r: Row = Vec::new();
    r.push(a);
    r.push(b);
    r.push(c);
    assert(r.deep_view() =~= seq![a@, b@, c@]);
    r
}

} // verus!
