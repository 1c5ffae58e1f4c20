use vstd::prelude::*;
use crate::labels::{
    lemma_labels_distinct, yes_label, no_label, yes_no, stopped_label, running_label,
    restarting_label, no_text, yes_no_text, is_yes, stopped_text, running_text,
    restarting_text,
};
use crate::paths::{file_name_outcome, file_name_text};
use crate::tables::{Row, Table, RowView, TableView, cell, has_row, cell_text, row2, row3};

verus! {

/// How a project is set up on this server.
#[derive(Clone, Debug)]
pub struct ProjectSettings {
    pub name: String,
    pub autoload: bool,
    pub allow_load: bool,
    pub available_for_clients: bool,
}

/// A project's settings as plain values: name, autoload, allow-load,
/// available-for-clients.
pub type ProjectView = (Seq<char>, bool, bool, bool);

pub open spec fn project_view(p: ProjectSettings) -> ProjectView {
    (p.name@, p.autoload, p.allow_load, p.available_for_clients)
}

pub open spec fn projects_view(ps: Seq<ProjectSettings>) -> Seq<ProjectView> {
    Seq::new(ps.len(), |i: int| project_view(ps[i]))
}

/// The settings row of a project: name, autoload flag, allow-load flag.
pub open spec fn settings_row(p: ProjectSettings) -> RowView {
    seq![p.name@, yes_no(p.autoload), yes_no(p.allow_load)]
}

/// The settings table of a list of projects, one row per project.
pub open spec fn settings_table(ps: Seq<ProjectSettings>) -> TableView {
    Seq::new(ps.len(), |i: int| settings_row(ps[i]))
}

/// The project table: one row (name, stopped) per project that loads
/// automatically, in order.
pub open spec fn project_table(ps: Seq<ProjectSettings>) -> TableView
    decreases ps.len(),
{
    if ps.len() == 0 {
        Seq::empty()
    } else {
        let rest = project_table(ps.drop_last());
        if ps.last().autoload {
            rest.push(seq![ps.last().name@, stopped_label()])
        } else {
            rest
        }
    }
}

/// Builds the settings row of a project.
pub fn settings_row_of(p: &ProjectSettings) -> (r: Row)
    ensures
        r.deep_view() == settings_row(*p),
{
    row3(p.name.clone(), yes_no_text(p.autoload), yes_no_text(p.allow_load))
}

/// Builds the settings table of a list of projects.
pub fn settings_rows(projects: &Vec<ProjectSettings>) -> (t: Table)
    ensures
        t.deep_view() == settings_table(projects@),
        t.deep_view().len() == projects@.len(),
        forall|i: int| 0 <= i < projects@.len() ==> #[trigger] t.deep_view()[i] == seq![
            projects@[i].name@,
            yes_no(projects@[i].autoload),
            yes_no(projects@[i].allow_load),
        ],
{
    let mut t: Table = Vec::new();
    let mut i: usize = 0;
    while i < projects.len()
        invariant
            i <= projects@.len(),
            t.deep_view() == settings_table(projects@.subrange(0, i as int)),
        decreases projects@.len() - i,
    {
        let r = settings_row_of(&projects[i]);
        let ghost before = t.deep_view();
        t.push(r);
        assert(t.deep_view() =~= before.push(r.deep_view()));
        assert(settings_table(projects@.subrange(0, i + 1)) =~= settings_table(
            projects@.subrange(0, i as int),
        ).push(settings_row(projects@[i as int])));
        i = i + 1;
    }
    assert(projects@.subrange(0, i as int) =~= projects@);
    t
}

/// Builds the project table: the projects that load automatically, each
/// shown as stopped.
pub fn project_rows(projects: &Vec<ProjectSettings>) -> (t: Table)
    ensures
        t.deep_view() == project_table(projects@),
{
    let mut t: Table = Vec::new();
    let mut i: usize = 0;
    while i < projects.len()
        invariant
            i <= projects@.len(),
            t.deep_view() == project_table(projects@.subrange(0, i as int)),
        decreases projects@.len() - i,
    {
        let p = &projects[i];
        let ghost prefix = projects@.subrange(0, i + 1);
        assert(prefix.drop_last() =~= projects@.subrange(0, i as int));
        assert(prefix.last() == projects@[i as int]);
        if p.autoload {
            let r = row2(p.name.clone(), stopped_text());
            let ghost before = t.deep_view();
            t.push(r);
            assert(t.deep_view() =~= before.push(r.deep_view()));
        }
        i = i + 1;
    }
    assert(projects@.subrange(0, i as int) =~= projects@);
    t
}

/// The autoload and allow-load flags shown for the selected settings row;
/// both cleared when `idx` names no row.
pub open spec fn selected_flags(t: TableView, idx: int) -> (bool, bool) {
    if has_row(t, idx) {
        (cell(t[idx], 1) == yes_label(), cell(t[idx], 2) == yes_label())
    } else {
        (false, false)
    }
}

/// The settings table after the autoload flag of row `idx` is set to `flag`.
pub open spec fn with_autoload(t: TableView, idx: int, flag: bool) -> TableView {
    if has_row(t, idx) {
        t.update(idx, seq![cell(t[idx], 0), yes_no(flag), yes_no(cell(t[idx], 2) == yes_label())])
    } else {
        t
    }
}

/// The settings table after the allow-load flag of row `idx` is set to `flag`.
pub open spec fn with_allow_load(t: TableView, idx: int, flag: bool) -> TableView {
    if has_row(t, idx) {
        t.update(idx, seq![cell(t[idx], 0), yes_no(cell(t[idx], 1) == yes_label()), yes_no(flag)])
    } else {
        t
    }
}

/// The settings table after the selected project is deleted: row `idx` goes
/// when it exists and has a name cell.
pub open spec fn without_project(t: TableView, idx: int) -> TableView {
    if has_row(t, idx) && t[idx].len() >= 1 {
        t.remove(idx)
    } else {
        t
    }
}

/// The flags to show for the selected settings row.
pub fn selected_project_flags(rows: &Table, idx: i32) -> (r: (bool, bool))
    ensures
        r == selected_flags(rows.deep_view(), idx as int),
        0 <= idx < rows.deep_view().len() ==> r == (
            cell(rows.deep_view()[idx as int], 1) == yes_label(),
            cell(rows.deep_view()[idx as int], 2) == yes_label(),
        ),
        !(0 <= idx < rows.deep_view().len()) ==> r == (false, false),
{
    if idx >= 0 && (idx as usize) < rows.len() {
        let row = &rows[idx as usize];
        let a = cell_text(row, 1);
        let l = cell_text(row, 2);
        (is_yes(&a), is_yes(&l))
    } else {
        (false, false)
    }
}

/// Sets the autoload flag of the selected settings row.
pub fn set_autoload_for_selected(rows: &mut Table, idx: i32, flag: bool)
    ensures
        final(rows).deep_view() == with_autoload(old(rows).deep_view(), idx as int, flag),
        final(rows).deep_view().len() == old(rows).deep_view().len(),
        forall|j: int| 0 <= j < old(rows).deep_view().len() && j != idx ==> #[trigger] final(rows).deep_view()[j]
            == old(rows).deep_view()[j],
        0 <= idx < old(rows).deep_view().len() ==> {
            let o = old(rows).deep_view()[idx as int];
            final(rows).deep_view()[idx as int] == seq![cell(o, 0), yes_no(flag), yes_no(cell(o, 2) == yes_label())]
        },
{
    if idx >= 0 && (idx as usize) < rows.len() {
        let i = idx as usize;
        let name = cell_text(&rows[i], 0);
        let allow = cell_text(&rows[i], 2);
        let r = row3(name, yes_no_text(flag), yes_no_text(is_yes(&allow)));
        let ghost before = rows.deep_view();
        rows.set(i, r);
        assert(rows.deep_view() =~= before.update(i as int, r.deep_view()));
    }
}

/// Sets the allow-load flag of the selected settings row.
pub fn set_allow_load_for_selected(rows: &mut Table, idx: i32, flag: bool)
    ensures
        final(rows).deep_view() == with_allow_load(old(rows).deep_view(), idx as int, flag),
        final(rows).deep_view().len() == old(rows).deep_view().len(),
        forall|j: int| 0 <= j < old(rows).deep_view().len() && j != idx ==> #[trigger] final(rows).deep_view()[j]
            == old(rows).deep_view()[j],
        0 <= idx < old(rows).deep_view().len() ==> {
            let o = old(rows).deep_view()[idx as int];
            final(rows).deep_view()[idx as int] == seq![cell(o, 0), yes_no(cell(o, 1) == yes_label()), yes_no(flag)]
        },
{
    if idx >= 0 && (idx as usize) < rows.len() {
        let i = idx as usize;
        let name = cell_text(&rows[i], 0);
        let autoload = cell_text(&rows[i], 1);
        let r = row3(name, yes_no_text(is_yes(&autoload)), yes_no_text(flag));
        let ghost before = rows.deep_view();
        rows.set(i, r);
        assert(rows.deep_view() =~= before.update(i as int, r.deep_view()));
    }
}

/// Deletes the selected project from the settings table. Returns whether
/// the selection is to be cleared (whenever `idx` is not negative).
pub fn delete_selected_project(rows: &mut Table, idx: i32) -> (clear: bool)
    ensures
        final(rows).deep_view() == without_project(old(rows).deep_view(), idx as int),
        0 <= idx < old(rows).deep_view().len() && old(rows).deep_view()[idx as int].len() >= 1 ==> final(rows).deep_view() == old(rows).deep_view().remove(idx as int) && final(rows).deep_view().len()
            == old(rows).deep_view().len() - 1,
        !(0 <= idx < old(rows).deep_view().len() && old(rows).deep_view()[idx as int].len() >= 1) ==> final(rows).deep_view() == old(rows).deep_view(),
        clear == (idx >= 0),
{
    if idx >= 0 {
        let i = idx as usize;
        if i < rows.len() && rows[i].len() >= 1 {
            let ghost before = rows.deep_view();
            rows.remove(i);
            assert(rows.deep_view() =~= before.remove(i as int));
        }
        true
    } else {
        false
    }
}

/// The project settings read back from the settings table when settings are
/// saved: each row with a name cell gives a project of that name; the row at
/// position `selected` takes the flags `sel_autoload` and `sel_allow` (those
/// of the settings dialog), any other row the flags its cells say "yes" to.
/// No project is marked available for clients.
pub open spec fn collected_projects(t: TableView, selected: i32, sel_autoload: bool, sel_allow: bool) -> Seq<ProjectView>
    decreases t.len(),
{
    if t.len() == 0 {
        Seq::empty()
    } else {
        let rest = collected_projects(t.drop_last(), selected, sel_autoload, sel_allow);
        let i = t.len() - 1;
        let r = t.last();
        if r.len() >= 1 {
            let is_sel = (i as i32) == selected;
            rest.push((
                r[0],
                if is_sel { sel_autoload } else { cell(r, 1) == yes_label() },
                if is_sel { sel_allow } else { cell(r, 2) == yes_label() },
                false,
            ))
        } else {
            rest
        }
    }
}

/// Reads the project settings back from the settings table (see
/// `collected_projects`).
pub fn collect_project_settings(rows: &Table, selected: i32, sel_autoload: bool, sel_allow: bool) -> (ps: Vec<ProjectSettings>)
    ensures
        projects_view(ps@) == collected_projects(rows.deep_view(), selected, sel_autoload, sel_allow),
{
    let mut ps: Vec<ProjectSettings> = Vec::new();
    let mut i: usize = 0;
    while i < rows.len()
        invariant
            i <= rows@.len(),
            projects_view(ps@) == collected_projects(rows.deep_view().subrange(0, i as int), selected, sel_autoload, sel_allow),
        decreases rows@.len() - i,
    {
        let ghost prefix = rows.deep_view().subrange(0, i + 1);
        assert(prefix.drop_last() =~= rows.deep_view().subrange(0, i as int));
        assert(prefix.last() == rows.deep_view()[i as int]);
        let row = &rows[i];
        if row.len() >= 1 {
            let name = row[0].clone();
            #[verifier::truncate]
            let pos: i32 = i as i32;
            let (autoload, allow_load) = if pos == selected {
                (sel_autoload, sel_allow)
            } else {
                let a = cell_text(row, 1);
                let l = cell_text(row, 2);
                (is_yes(&a), is_yes(&l))
            };
            let p = ProjectSettings { name, autoload, allow_load, available_for_clients: false };
            let ghost before = ps@;
            ps.push(p);
            assert(projects_view(ps@) =~= projects_view(before).push(project_view(p)));
        }
        i = i + 1;
    }
    assert(rows.deep_view().subrange(0, i as int) =~= rows.deep_view());
    ps
}

/// What the context menu of the project table does to a project.
#[derive(Clone, Copy, Debug, PartialEq, Eq, Structural)]
pub enum ProjectAction {
    Open,
    Close,
    Restart,
}

/// The status a project shows after an action.
pub open spec fn action_status(a: ProjectAction) -> Seq<char> {
    match a {
        ProjectAction::Open => running_label(),
        ProjectAction::Close => stopped_label(),
        ProjectAction::Restart => restarting_label(),
    }
}

/// The project table after `a` is applied to row `idx`: the row keeps its
/// name and shows the action's status.
pub open spec fn with_action(t: TableView, idx: int, a: ProjectAction) -> TableView {
    if has_row(t, idx) {
        t.update(idx, seq![cell(t[idx], 0), action_status(a)])
    } else {
        t
    }
}

/// Applies a context-menu action to row `idx` of the project table.
pub fn apply_project_action(rows: &mut Table, idx: i32, a: ProjectAction)
    ensures
        final(rows).deep_view() == with_action(old(rows).deep_view(), idx as int, a),
        final(rows).deep_view().len() == old(rows).deep_view().len(),
        forall|j: int| 0 <= j < old(rows).deep_view().len() && j != idx ==> #[trigger] final(rows).deep_view()[j]
            == old(rows).deep_view()[j],
        0 <= idx < old(rows).deep_view().len() ==> final(rows).deep_view()[idx as int] == seq![
            cell(old(rows).deep_view()[idx as int], 0),
            action_status(a),
        ],
{
    if idx >= 0 && (idx as usize) < rows.len() {
        let i = idx as usize;
        let name = cell_text(&rows[i], 0);
        let status = match a {
            ProjectAction::Open => running_text(),
            ProjectAction::Close => stopped_text(),
            ProjectAction::Restart => restarting_text(),
        };
        let r = row2(name, status);
        let ghost before = rows.deep_view();
        rows.set(i, r);
        assert(rows.deep_view() =~= before.update(i as int, r.deep_view()));
    }
}

/// A new settings row for a project file chosen by the user: its name,
/// neither loaded automatically nor allowed to load.
pub fn add_project_named(rows: &mut Table, name: String)
    ensures
        final(rows).deep_view() == old(rows).deep_view().push(seq![name@, no_label(), no_label()]),
{
    let r = row3(name, no_text(), no_text());
    let ghost before = rows.deep_view();
    rows.push(r);
    assert(rows.deep_view() =~= before.push(r.deep_view()));
}

/// Adds a settings row for the project file at `path`, shown by its file name.
pub fn add_project_file(rows: &mut Table, path: &str)
    ensures
        final(rows).deep_view().len() == old(rows).deep_view().len() + 1,
        final(rows).deep_view().drop_last() == old(rows).deep_view(),
        final(rows).deep_view().last() == seq![final(rows).deep_view().last()[0], no_label(), no_label()],
        file_name_outcome(final(rows).deep_view().last()[0], path@),
{
    let name = file_name_text(path);
    add_project_named(rows, name);
    assert(rows.deep_view().drop_last() =~= old(rows).deep_view());
}

/// The monitor's saved configuration.
#[derive(Clone, Debug)]
pub struct MonitorConfig {
    pub machine_name: String,
    pub chbase_path: String,
    pub autoload_windows: bool,
    pub projects: Vec<ProjectSettings>,
}

impl MonitorConfig {
    /// Takes over the settings dialog: the window-autoload flag and the
    /// channel-base path as shown, and the projects read back from the
    /// settings table (see `collected_projects`). Returns the new project
    /// table: the projects that load automatically, each stopped.
    pub fn save_from_dialog(
        &mut self,
        rows: &Table,
        selected: i32,
        sel_autoload: bool,
        sel_allow: bool,
        autoload_windows: bool,
        chbase_path: String,
    ) -> (project_table_rows: Table)
        ensures
            final(self).machine_name == old(self).machine_name,
            final(self).autoload_windows == autoload_windows,
            final(self).chbase_path == chbase_path,
            projects_view(final(self).projects@) == collected_projects(
                rows.deep_view(),
                selected,
                sel_autoload,
                sel_allow,
            ),
            project_table_rows.deep_view() == project_table(final(self).projects@),
    {
        self.autoload_windows = autoload_windows;
        self.chbase_path = chbase_path;
        self.projects = collect_project_settings(rows, selected, sel_autoload, sel_allow);
        project_rows(&self.projects)
    }
}

// ---------------------------------------------------------------------------
// Laws

/// Saving reads back the settings table built from a list of projects: each
/// project keeps its name, the selected one takes the dialog's flags, every
/// other keeps its own, and none is available for clients.
pub proof fn lemma_settings_round_trip(ps: Seq<ProjectSettings>, selected: i32, sel_autoload: bool, sel_allow: bool)
    ensures
        collected_projects(settings_table(ps), selected, sel_autoload, sel_allow) == Seq::new(
            ps.len(),
            |i: int| {
                let is_sel = (i as i32) == selected;
                (
                    ps[i].name@,
                    if is_sel { sel_autoload } else { ps[i].autoload },
                    if is_sel { sel_allow } else { ps[i].allow_load },
                    false,
                )
            },
        ),
    decreases ps.len(),
{
    lemma_labels_distinct();
    let target = Seq::new(
        ps.len(),
        |i: int| {
            let is_sel = (i as i32) == selected;
            (
                ps[i].name@,
                if is_sel { sel_autoload } else { ps[i].autoload },
                if is_sel { sel_allow } else { ps[i].allow_load },
                false,
            )
        },
    );
    if ps.len() == 0 {
        assert(target =~= Seq::empty());
    } else {
        let init = ps.drop_last();
        lemma_settings_round_trip(init, selected, sel_autoload, sel_allow);
        assert(settings_table(ps).drop_last() =~= settings_table(init));
        let t = settings_table(ps);
        assert(t.last() == settings_row(ps.last()));
        assert(collected_projects(t, selected, sel_autoload, sel_allow) =~= target);
    }
}

/// After the autoload flag of an existing settings row is set, the settings
/// dialog reads back that flag, and the allow-load flag is unchanged.
pub proof fn lemma_autoload_read_back(t: TableView, idx: int, flag: bool)
    requires
        has_row(t, idx),
    ensures
        selected_flags(with_autoload(t, idx, flag), idx) == (flag, selected_flags(t, idx).1),
{
    lemma_labels_distinct();
}

/// After the allow-load flag of an existing settings row is set, the settings
/// dialog reads back that flag, and the autoload flag is unchanged.
pub proof fn lemma_allow_load_read_back(t: TableView, idx: int, flag: bool)
    requires
        has_row(t, idx),
    ensures
        selected_flags(with_allow_load(t, idx, flag), idx) == (selected_flags(t, idx).0, flag),
{
    lemma_labels_distinct();
}

/// A context-menu action applied twice to the same row is applied once.
pub proof fn lemma_action_idempotent(t: TableView, idx: int, a: ProjectAction)
    ensures
        with_action(with_action(t, idx, a), idx, a) == with_action(t, idx, a),
{
    if has_row(t, idx) {
        assert(with_action(with_action(t, idx, a), idx, a) =~= with_action(t, idx, a));
    }
}

/// A context-menu action changes only the chosen row: it keeps its name and
/// shows the action's status; every other row, and the length, stay.
pub proof fn lemma_action_changes_only_row(t: TableView, idx: int, a: ProjectAction)
    ensures
        with_action(t, idx, a).len() == t.len(),
        forall|j: int| 0 <= j < t.len() && j != idx ==> #[trigger] with_action(t, idx, a)[j] == t[j],
        has_row(t, idx) ==> with_action(t, idx, a)[idx] == seq![cell(t[idx], 0), action_status(a)],
{
}

/// Deleting the selected project removes exactly that row when it exists and
/// has a name cell, wherever it stands (the last row too); otherwise nothing
/// changes.
pub proof fn lemma_delete_project_removes_it(t: TableView, idx: int)
    ensures
        has_row(t, idx) && t[idx].len() >= 1 ==> {
            let u = without_project(t, idx);
            &&& u.len() == t.len() - 1
            &&& forall|j: int| 0 <= j < idx ==> #[trigger] u[j] == t[j]
            &&& forall|j: int| idx <= j < u.len() ==> #[trigger] u[j] == t[j + 1]
        },
        !(has_row(t, idx) && t[idx].len() >= 1) ==> without_project(t, idx) == t,
{
}

/// Setting a flag of the selected project changes only that row: its name
/// stays, the flag takes the given value, the other flag keeps what the row
/// said; every other row, and the length, stay.
pub proof fn lemma_flag_changes_only_row(t: TableView, idx: int, flag: bool)
    ensures
        with_autoload(t, idx, flag).len() == t.len(),
        with_allow_load(t, idx, flag).len() == t.len(),
        forall|j: int| 0 <= j < t.len() && j != idx ==> #[trigger] with_autoload(t, idx, flag)[j] == t[j]
            && with_allow_load(t, idx, flag)[j] == t[j],
        has_row(t, idx) ==> with_autoload(t, idx, flag)[idx] == seq![
            cell(t[idx], 0),
            yes_no(flag),
            yes_no(cell(t[idx], 2) == yes_label()),
        ],
        has_row(t, idx) ==> with_allow_load(t, idx, flag)[idx] == seq![
            cell(t[idx], 0),
            yes_no(cell(t[idx], 1) == yes_label()),
            yes_no(flag),
        ],
{
}

/// The project table lists, each shown as stopped, exactly the projects that
/// load automatically: every row names such a project, and every such project
/// has a row.
pub proof fn lemma_project_table_rows(ps: Seq<ProjectSettings>)
    ensures
        forall|k: int| 0 <= k < project_table(ps).len() ==> {
            &&& (#[trigger] project_table(ps)[k]).len() == 2
            &&& project_table(ps)[k][1] == stopped_label()
            &&& exists|i: int| 0 <= i < ps.len() && ps[i].autoload && #[trigger] ps[i].name@ == project_table(ps)[k][0]
        },
        forall|i: int| 0 <= i < ps.len() && #[trigger] ps[i].autoload ==> exists|k: int|
            0 <= k < project_table(ps).len() && #[trigger] project_table(ps)[k][0] == ps[i].name@,
    decreases ps.len(),
{
    if ps.len() > 0 {
        let init = ps.drop_last();
        lemma_project_table_rows(init);
        let t = project_table(init);
        assert forall|k: int| 0 <= k < project_table(ps).len() implies {
            &&& (#[trigger] project_table(ps)[k]).len() == 2
            &&& project_table(ps)[k][1] == stopped_label()
            &&& exists|i: int| 0 <= i < ps.len() && ps[i].autoload && #[trigger] ps[i].name@ == project_table(ps)[k][0]
        } by {
            if k < t.len() {
                assert(project_table(ps)[k] == t[k]);
                let i = choose|i: int| 0 <= i < init.len() && init[i].autoload && #[trigger] init[i].name@ == t[k][0];
                assert(ps[i] == init[i]);
            } else {
                assert(ps[ps.len() - 1] == ps.last());
            }
        }
        assert forall|i: int| 0 <= i < ps.len() && #[trigger] ps[i].autoload implies exists|k: int|
            0 <= k < project_table(ps).len() && #[trigger] project_table(ps)[k][0] == ps[i].name@ by {
            if i < init.len() {
                assert(init[i] == ps[i]);
                let k = choose|k: int| 0 <= k < t.len() && #[trigger] t[k][0] == init[i].name@;
                assert(project_table(ps)[k] == t[k]);
            } else {
                assert(ps[i] == ps.last());
                assert(project_table(ps)[t.len() as int][0] == ps[i].name@);
            }
        }
    }
}

/// Saving reads a settings table in which every row has a name cell row by
/// row: one project per row, with the row's name, the dialog's flags for the
/// selected row and the flags the cells say "yes" to for the others, none
/// available for clients.
pub proof fn lemma_collect_reads_each_row(t: TableView, selected: i32, sel_autoload: bool, sel_allow: bool)
    requires
        forall|i: int| 0 <= i < t.len() ==> #[trigger] t[i].len() >= 1,
    ensures
        collected_projects(t, selected, sel_autoload, sel_allow).len() == t.len(),
        forall|i: int| 0 <= i < t.len() ==> #[trigger] collected_projects(t, selected, sel_autoload, sel_allow)[i] == (
            t[i][0],
            if (i as i32) == selected { sel_autoload } else { cell(t[i], 1) == yes_label() },
            if (i as i32) == selected { sel_allow } else { cell(t[i], 2) == yes_label() },
            false,
        ),
    decreases t.len(),
{
    if t.len() > 0 {
        let init = t.drop_last();
        assert forall|i: int| 0 <= i < init.len() implies #[trigger] init[i].len() >= 1 by {
            assert(init[i] == t[i]);
        }
        lemma_collect_reads_each_row(init, selected, sel_autoload, sel_allow);
        assert(t.last() == t[t.len() - 1]);
        assert forall|i: int| 0 <= i < t.len() implies #[trigger] collected_projects(t, selected, sel_autoload, sel_allow)[i] == (
            t[i][0],
            if (i as i32) == selected { sel_autoload } else { cell(t[i], 1) == yes_label() },
            if (i as i32) == selected { sel_allow } else { cell(t[i], 2) == yes_label() },
            false,
        ) by {
            if i < init.len() {
                assert(init[i] == t[i]);
            }
        }
    }
}

/// The number of projects that load automatically.
pub open spec fn autoload_count(ps: Seq<ProjectSettings>) -> nat
    decreases ps.len(),
{
    if ps.len() == 0 {
        0
    } else {
        autoload_count(ps.drop_last()) + if ps.last().autoload { 1nat } else { 0nat }
    }
}

/// The project table has one row per project that loads automatically.
pub proof fn lemma_project_table_len(ps: Seq<ProjectSettings>)
    ensures
        project_table(ps).len() == autoload_count(ps),
        autoload_count(ps) <= ps.len(),
    decreases ps.len(),
{
    if ps.len() > 0 {
        lemma_project_table_len(ps.drop_last());
    }
}

/// The flags shown for a selected settings row are what its autoload and
/// allow-load cells say, for every row (the last one too); both are cleared
/// when no row is selected.
pub proof fn lemma_selected_flags_of_row(t: TableView, idx: int)
    ensures
        0 <= idx < t.len() ==> selected_flags(t, idx) == (
            cell(t[idx], 1) == yes_label(),
            cell(t[idx], 2) == yes_label(),
        ),
        !(0 <= idx < t.len()) ==> selected_flags(t, idx) == (false, false),
{
}

} // verus!
