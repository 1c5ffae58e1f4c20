use vstd::prelude::*;
use crate::datetime::{MsgDateTime, dotted_text, is_valid_parts, local_now, dotted_timestamp_text};
use crate::tables::{Table, TableView, row2};

verus! {

/// The server table after a server named `name` connects at time `at`: a
/// row with its name and the connection time, unless the name is empty.
pub open spec fn with_server(t: TableView, name: Seq<char>, at: Seq<char>) -> TableView {
    if name.len() == 0 {
        t
    } else {
        t.push(seq![name, at])
    }
}

/// Adds a server that connected at `at`; an empty name adds nothing.
pub fn add_server_at(rows: &mut Table, name: &str, at: &MsgDateTime)
    ensures
        final(rows).deep_view() == with_server(old(rows).deep_view(), name@, dotted_text(at@)),
        name@.len() == 0 ==> final(rows).deep_view() == old(rows).deep_view(),
        name@.len() > 0 ==> final(rows).deep_view() == old(rows).deep_view().push(
            seq![name@, dotted_text(at@)],
        ),
{
    if name.is_empty() {
        assert(name@.len() == 0);
        return ;
    }
    assert(name@.len() != 0);
    let r = row2(String::from_str(name), dotted_timestamp_text(at));
    let ghost before = rows.deep_view();
    rows.push(r);
    assert(rows.deep_view() =~= before.push(r.deep_view()));
}

/// Adds a server that connects now; an empty name adds nothing and reads no
/// clock. Returns whether the server was added: it is not when the name is
/// empty or the clock reads a time that chrono's calendar cannot hold. The
/// time shown is that of a valid local date and time.
pub fn add_server(rows: &mut Table, name: &str) -> (added: bool)
    ensures
        name@.len() == 0 ==> !added,
        !added ==> final(rows).deep_view() == old(rows).deep_view(),
        added ==> exists|p| #[trigger] is_valid_parts(p) && final(rows).deep_view()
            == old(rows).deep_view().push(seq![name@, dotted_text(p)]),
{
    if name.is_empty() {
        assert(name@.len() == 0);
        return false;
    }
    match local_now() {
        Some(now) => {
            add_server_at(rows, name, &now);
            assert(is_valid_parts(now@));
            true
        },
        None => false,
    }
}

/// A server with a name is added as one last row holding its name and
/// connection time, keeping every earlier row; an empty name adds nothing.
pub proof fn lemma_server_row_appended(t: TableView, name: Seq<char>, at: Seq<char>)
    ensures
        name.len() > 0 ==> with_server(t, name, at).len() == t.len() + 1
            && with_server(t, name, at).subrange(0, t.len() as int) == t
            && with_server(t, name, at)[t.len() as int] == seq![name, at],
        name.len() == 0 ==> with_server(t, name, at) == t,
{
    if name.len() > 0 {
        assert(with_server(t, name, at).subrange(0, t.len() as int) =~= t);
    }
}

} // verus!
