use vstd::prelude::*;
use crate::projects::{MonitorConfig, ProjectSettings, ProjectView, project_view, projects_view};

verus! {

/// The configuration as plain values: machine name, channel-base path,
/// window-autoload flag, projects.
pub type ConfigView = (Seq<char>, Seq<char>, bool, Seq<ProjectView>);

pub open spec fn config_view(c: MonitorConfig) -> ConfigView {
    (c.machine_name@, c.chbase_path@, c.autoload_windows, projects_view(c.projects@))
}

/// The configuration a file without any recognised line gives.
pub open spec fn empty_config() -> ConfigView {
    (Seq::empty(), Seq::empty(), false, Seq::empty())
}

pub open spec fn machine_key() -> Seq<char> {
    "machine_name="@
}

pub open spec fn chbase_key() -> Seq<char> {
    "chbase_path="@
}

pub open spec fn autoload_key() -> Seq<char> {
    "autoload_windows="@
}

pub open spec fn project_key() -> Seq<char> {
    "project="@
}

/// A flag in the configuration file.
pub open spec fn flag_char(b: bool) -> char {
    if b { '1' } else { '0' }
}

/// The line of a project: its three flags (autoload, allow-load,
/// available-for-clients), each followed by `|`, then its name.
pub open spec fn project_line(p: ProjectView) -> Seq<char> {
    project_key() + seq![flag_char(p.1), '|', flag_char(p.2), '|', flag_char(p.3), '|'] + p.0
}

/// The lines of a configuration file: machine name, channel-base path,
/// window-autoload flag, then one line per project.
pub open spec fn config_lines(c: ConfigView) -> Seq<Seq<char>> {
    seq![machine_key() + c.0, chbase_key() + c.1, autoload_key() + seq![flag_char(c.2)]] + Seq::new(
        c.3.len(),
        |i: int| project_line(c.3[i]),
    )
}

/// Lines, each followed by a newline.
pub open spec fn terminated(ls: Seq<Seq<char>>) -> Seq<char>
    decreases ls.len(),
{
    if ls.len() == 0 {
        Seq::empty()
    } else {
        terminated(ls.drop_last()) + ls.last() + seq!['\n']
    }
}

/// The text of a configuration file.
pub open spec fn config_text(c: ConfigView) -> Seq<char> {
    terminated(config_lines(c))
}

/// The pieces of a text between newlines, as `str::split('\n')` gives them.
pub open spec fn pieces(t: Seq<char>) -> Seq<Seq<char>>
    decreases t.len(),
{
    if t.len() == 0 {
        seq![Seq::empty()]
    } else {
        let p = pieces(t.drop_last());
        if t.last() == '\n' {
            p.push(Seq::empty())
        } else {
            p.update(p.len() - 1, p.last().push(t.last()))
        }
    }
}

pub open spec fn has_prefix(line: Seq<char>, key: Seq<char>) -> bool {
    key.len() <= line.len() && line.subrange(0, key.len() as int) == key
}

pub open spec fn after(line: Seq<char>, key: Seq<char>) -> Seq<char> {
    line.subrange(key.len() as int, line.len() as int)
}

/// The project a project line's value describes, if it has the three flags
/// and separators: a flag is set when it reads `1`.
pub open spec fn read_project(v: Seq<char>) -> Option<ProjectView> {
    if v.len() >= 6 && v[1] == '|' && v[3] == '|' && v[5] == '|' {
        Some((v.subrange(6, v.len() as int), v[0] == '1', v[2] == '1', v[4] == '1'))
    } else {
        None
    }
}

/// A configuration after one line of its file is read; lines that are not
/// understood change nothing.
pub open spec fn apply_line(c: ConfigView, line: Seq<char>) -> ConfigView {
    if has_prefix(line, machine_key()) {
        (after(line, machine_key()), c.1, c.2, c.3)
    } else if has_prefix(line, chbase_key()) {
        (c.0, after(line, chbase_key()), c.2, c.3)
    } else if has_prefix(line, autoload_key()) {
        (c.0, c.1, after(line, autoload_key()) == seq!['1'], c.3)
    } else if has_prefix(line, project_key()) {
        match read_project(after(line, project_key())) {
            Some(p) => (c.0, c.1, c.2, c.3.push(p)),
            None => c,
        }
    } else {
        c
    }
}

/// A configuration read from lines, in order, starting from the empty one.
pub open spec fn read_lines(ls: Seq<Seq<char>>) -> ConfigView
    decreases ls.len(),
{
    if ls.len() == 0 {
        empty_config()
    } else {
        apply_line(read_lines(ls.drop_last()), ls.last())
    }
}

/// The configuration a file's text gives.
pub open spec fn read_config(t: Seq<char>) -> ConfigView {
    read_lines(pieces(t))
}

/// Texts that can stand on one line of the file.
pub open spec fn is_one_line(s: Seq<char>) -> bool {
    !s.contains('\n')
}

/// A configuration whose texts all fit on one line each.
pub open spec fn is_storable(c: ConfigView) -> bool {
    &&& is_one_line(c.0)
    &&& is_one_line(c.1)
    &&& forall|i: int| 0 <= i < c.3.len() ==> is_one_line(#[trigger] c.3[i].0)
}

// ---------------------------------------------------------------------------
// Proofs

proof fn lemma_keys()
    ensures
        machine_key() == seq!['m', 'a', 'c', 'h', 'i', 'n', 'e', '_', 'n', 'a', 'm', 'e', '='],
        chbase_key() == seq!['c', 'h', 'b', 'a', 's', 'e', '_', 'p', 'a', 't', 'h', '='],
        autoload_key() == seq![
            'a', 'u', 't', 'o', 'l', 'o', 'a', 'd', '_', 'w', 'i', 'n', 'd', 'o', 'w', 's', '=',
        ],
        project_key() == seq!['p', 'r', 'o', 'j', 'e', 'c', 't', '='],
{
    reveal_strlit("machine_name=");
    reveal_strlit("chbase_path=");
    reveal_strlit("autoload_windows=");
    reveal_strlit("project=");
    assert(machine_key() =~= seq!['m', 'a', 'c', 'h', 'i', 'n', 'e', '_', 'n', 'a', 'm', 'e', '=']);
    assert(chbase_key() =~= seq!['c', 'h', 'b', 'a', 's', 'e', '_', 'p', 'a', 't', 'h', '=']);
    assert(autoload_key() =~= seq![
        'a', 'u', 't', 'o', 'l', 'o', 'a', 'd', '_', 'w', 'i', 'n', 'd', 'o', 'w', 's', '=',
    ]);
    assert(project_key() =~= seq!['p', 'r', 'o', 'j', 'e', 'c', 't', '=']);
}

/// Appending text without a newline extends the last piece.
proof fn lemma_pieces_append(t: Seq<char>, l: Seq<char>)
    requires
        is_one_line(l),
    ensures
        pieces(t + l) == pieces(t).update(pieces(t).len() - 1, pieces(t).last() + l),
        pieces(t).len() >= 1,
    decreases l.len(),
{
    lemma_pieces_nonempty(t);
    if l.len() == 0 {
        assert(t + l =~= t);
        assert(pieces(t).last() + l =~= pieces(t).last());
        assert(pieces(t).update(pieces(t).len() - 1, pieces(t).last()) =~= pieces(t));
    } else {
        let l2 = l.drop_last();
        assert(!l2.contains('\n')) by {
            assert forall|i: int| 0 <= i < l2.len() implies l2[i] != '\n' by {
                assert(l2[i] == l[i]);
            }
        }
        assert(l.last() == l[l.len() - 1]);
        lemma_pieces_append(t, l2);
        assert((t + l).drop_last() =~= t + l2);
        assert((t + l).last() == l.last());
        let p = pieces(t);
        assert(pieces(t + l) =~= p.update(p.len() - 1, p.last() + l)) by {
            assert((p.last() + l2).push(l.last()) =~= p.last() + l);
        }
    }
}

proof fn lemma_pieces_nonempty(t: Seq<char>)
    ensures
        pieces(t).len() >= 1,
    decreases t.len(),
{
    if t.len() > 0 {
        lemma_pieces_nonempty(t.drop_last());
    }
}

/// Lines without newlines, each followed by one, split back into those lines
/// and a final empty piece.
proof fn lemma_pieces_terminated(ls: Seq<Seq<char>>)
    requires
        forall|i: int| 0 <= i < ls.len() ==> is_one_line(#[trigger] ls[i]),
    ensures
        pieces(terminated(ls)) == ls.push(Seq::empty()),
    decreases ls.len(),
{
    if ls.len() == 0 {
        assert(pieces(Seq::<char>::empty()) =~= seq![Seq::<char>::empty()]);
        assert(ls.push(Seq::empty()) =~= seq![Seq::<char>::empty()]);
    } else {
        let init = ls.drop_last();
        let l = ls.last();
        assert(is_one_line(ls[ls.len() - 1]));
        lemma_pieces_terminated(init);
        let t0 = terminated(init);
        lemma_pieces_append(t0, l);
        let t1 = t0 + l;
        assert(terminated(ls) =~= t1.push('\n'));
        assert(t1.push('\n').drop_last() =~= t1);
        assert(pieces(t1) =~= init.push(l)) by {
            assert(init.push(Seq::empty()).last() + l =~= l);
        }
        assert(init.push(l) =~= ls);
    }
}

proof fn lemma_prefix_after(key: Seq<char>, rest: Seq<char>)
    ensures
        has_prefix(key + rest, key),
        after(key + rest, key) == rest,
{
    assert((key + rest).subrange(0, key.len() as int) =~= key);
    assert(after(key + rest, key) =~= rest);
}

/// A line starting with one key does not start with another whose first
/// character differs.
proof fn lemma_no_prefix(key: Seq<char>, other: Seq<char>, rest: Seq<char>)
    requires
        key.len() > 0,
        other.len() > 0,
        key[0] != other[0],
    ensures
        !has_prefix(key + rest, other),
{
    if has_prefix(key + rest, other) {
        assert((key + rest).subrange(0, other.len() as int)[0] == (key + rest)[0]);
    }
}

proof fn lemma_read_project_line(p: ProjectView)
    ensures
        has_prefix(project_line(p), project_key()),
        read_project(after(project_line(p), project_key())) == Some(p),
{
    let v = seq![flag_char(p.1), '|', flag_char(p.2), '|', flag_char(p.3), '|'] + p.0;
    assert(project_line(p) =~= project_key() + v);
    lemma_prefix_after(project_key(), v);
    assert(v.subrange(6, v.len() as int) =~= p.0);
}

proof fn lemma_read_headers(c: ConfigView)
    ensures
        read_lines(config_lines(c).subrange(0, 3)) == (c.0, c.1, c.2, Seq::<ProjectView>::empty()),
{
    lemma_keys();
    let ls = config_lines(c).subrange(0, 3);
    let l0 = machine_key() + c.0;
    let l1 = chbase_key() + c.1;
    let l2 = autoload_key() + seq![flag_char(c.2)];
    assert(ls[0] == l0 && ls[1] == l1 && ls[2] == l2);
    lemma_prefix_after(machine_key(), c.0);
    lemma_prefix_after(chbase_key(), c.1);
    lemma_prefix_after(autoload_key(), seq![flag_char(c.2)]);
    lemma_no_prefix(chbase_key(), machine_key(), c.1);
    lemma_no_prefix(autoload_key(), machine_key(), seq![flag_char(c.2)]);
    lemma_no_prefix(autoload_key(), chbase_key(), seq![flag_char(c.2)]);
    assert(ls.drop_last().drop_last().drop_last() =~= Seq::<Seq<char>>::empty());
    assert(ls.drop_last().drop_last() =~= seq![l0]);
    assert(ls.drop_last() =~= seq![l0, l1]);
    assert(seq![l0].drop_last() =~= Seq::<Seq<char>>::empty());
    assert(seq![l0, l1].drop_last() =~= seq![l0]);
    assert(read_lines(Seq::<Seq<char>>::empty()) == empty_config());
    assert(read_lines(seq![l0]) == apply_line(empty_config(), l0));
    assert(read_lines(seq![l0]) == (c.0, Seq::<char>::empty(), false, Seq::<ProjectView>::empty()));
    assert(read_lines(seq![l0, l1]) == apply_line(read_lines(seq![l0]), l1));
    assert(read_lines(ls) == apply_line(read_lines(seq![l0, l1]), l2));
    if c.2 {
        assert(seq![flag_char(c.2)] =~= seq!['1']);
    } else {
        assert(seq![flag_char(c.2)][0] != seq!['1'][0]);
    }
    assert((seq![flag_char(c.2)] == seq!['1']) == c.2);
}

proof fn lemma_read_config_lines(c: ConfigView, k: int)
    requires
        0 <= k <= c.3.len(),
    ensures
        read_lines(config_lines(c).subrange(0, 3 + k)) == (c.0, c.1, c.2, c.3.subrange(0, k)),
    decreases k,
{
    if k == 0 {
        lemma_read_headers(c);
        assert(c.3.subrange(0, 0) =~= Seq::<ProjectView>::empty());
    } else {
        lemma_read_config_lines(c, k - 1);
        lemma_keys();
        let ls = config_lines(c).subrange(0, 3 + k);
        assert(ls.drop_last() =~= config_lines(c).subrange(0, 3 + k - 1));
        let p = c.3[k - 1];
        assert(ls.last() == project_line(p));
        lemma_read_project_line(p);
        let v = seq![flag_char(p.1), '|', flag_char(p.2), '|', flag_char(p.3), '|'] + p.0;
        assert(project_line(p) =~= project_key() + v);
        lemma_no_prefix(project_key(), machine_key(), v);
        lemma_no_prefix(project_key(), chbase_key(), v);
        lemma_no_prefix(project_key(), autoload_key(), v);
        assert(c.3.subrange(0, k - 1).push(p) =~= c.3.subrange(0, k));
    }
}

/// Reading back the text of a configuration gives that configuration, when
/// its texts fit on one line each.
pub proof fn lemma_config_round_trip(c: ConfigView)
    requires
        is_storable(c),
    ensures
        read_config(config_text(c)) == c,
{
    let ls = config_lines(c);
    lemma_keys();
    assert forall|i: int| 0 <= i < ls.len() implies is_one_line(#[trigger] ls[i]) by {
        if i == 0 {
            assert(ls[0] == machine_key() + c.0);
            assert forall|j: int| 0 <= j < ls[0].len() implies ls[0][j] != '\n' by {
                if j >= machine_key().len() {
                    assert(ls[0][j] == c.0[j - machine_key().len()]);
                }
            }
        } else if i == 1 {
            assert forall|j: int| 0 <= j < ls[1].len() implies ls[1][j] != '\n' by {
                if j >= chbase_key().len() {
                    assert(ls[1][j] == c.1[j - chbase_key().len()]);
                }
            }
        } else if i == 2 {
            assert forall|j: int| 0 <= j < ls[2].len() implies ls[2][j] != '\n' by {
                if j >= autoload_key().len() {
                    assert(ls[2][j] == flag_char(c.2));
                }
            }
        } else {
            let p = c.3[i - 3];
            assert(is_one_line(p.0));
            assert(ls[i] == project_line(p));
            assert forall|j: int| 0 <= j < ls[i].len() implies ls[i][j] != '\n' by {
                if j >= project_key().len() + 6 {
                    assert(ls[i][j] == p.0[j - project_key().len() - 6]);
                }
            }
        }
    }
    lemma_pieces_terminated(ls);
    lemma_read_config_lines(c, c.3.len() as int);
    assert(ls.subrange(0, 3 + c.3.len() as int) =~= ls);
    assert(c.3.subrange(0, c.3.len() as int) =~= c.3);
    assert(ls.push(Seq::empty()).drop_last() =~= ls);
    lemma_no_prefix_empty();
}

proof fn lemma_no_prefix_empty()
    ensures
        forall|c: ConfigView| apply_line(c, Seq::empty()) == c,
{
    lemma_keys();
}

// ---------------------------------------------------------------------------
// Writing and reading the file

fn flag_str(b: bool) -> (s: &'static str)
    ensures
        s@ == seq![flag_char(b)],
{
    if b {
        proof { reveal_strlit("1"); }
        "1"
    } else {
        proof { reveal_strlit("0"); }
        "0"
    }
}

/// Appends a line and its newline.
fn push_line(out: &mut String, line: &String)
    ensures
        final(out)@ == old(out)@ + line@ + seq!['\n'],
{
    out.append(line.as_str());
    proof { reveal_strlit("\n"); }
    out.append("\n");
}

fn project_line_of(p: &ProjectSettings) -> (line: String)
    ensures
        line@ == project_line(project_view(*p)),
{
    let mut line = String::from_str("project=");
    proof { reveal_strlit("|"); }
    line.append(flag_str(p.autoload));
    line.append("|");
    line.append(flag_str(p.allow_load));
    line.append("|");
    line.append(flag_str(p.available_for_clients));
    line.append("|");
    line.append(p.name.as_str());
    assert(line@ =~= project_line(project_view(*p)));
    line
}

proof fn lemma_terminated_step(ls: Seq<Seq<char>>, n: int)
    requires
        0 <= n < ls.len(),
    ensures
        terminated(ls.subrange(0, n + 1)) == terminated(ls.subrange(0, n)) + ls[n] + seq!['\n'],
{
    assert(ls.subrange(0, n + 1).drop_last() =~= ls.subrange(0, n));
}

/// The text of the configuration file for `cfg` (see `config_text`).
pub fn config_to_text(cfg: &MonitorConfig) -> (text: String)
    ensures
        text@ == config_text(config_view(*cfg)),
{
    let ghost c = config_view(*cfg);
    let ghost ls = config_lines(c);
    let mut text = String::new();
    assert(ls.subrange(0, 0) =~= Seq::<Seq<char>>::empty());

    let mut line = String::from_str("machine_name=");
    line.append(cfg.machine_name.as_str());
    proof { lemma_terminated_step(ls, 0); }
    push_line(&mut text, &line);

    let mut line = String::from_str("chbase_path=");
    line.append(cfg.chbase_path.as_str());
    proof { lemma_terminated_step(ls, 1); }
    push_line(&mut text, &line);

    let mut line = String::from_str("autoload_windows=");
    line.append(flag_str(cfg.autoload_windows));
    proof { lemma_terminated_step(ls, 2); }
    push_line(&mut text, &line);

    let mut k: usize = 0;
    while k < cfg.projects.len()
        invariant
            k <= cfg.projects@.len(),
            c == config_view(*cfg),
            ls == config_lines(c),
            text@ == terminated(ls.subrange(0, 3 + k)),
        decreases cfg.projects@.len() - k,
    {
        let line = project_line_of(&cfg.projects[k]);
        assert(ls[3 + k] == project_line(project_view(cfg.projects@[k as int])));
        proof { lemma_terminated_step(ls, 3 + k); }
        push_line(&mut text, &line);
        k = k + 1;
    }
    assert(ls.subrange(0, 3 + k) =~= ls);
    text
}

/// Splits a text at its newlines (see `pieces`).
fn split_pieces(text: &str) -> (ls: Vec<String>)
    ensures
        ls.deep_view() == pieces(text@),
{
    let n = text.unicode_len();
    let mut ls: Vec<String> = Vec::new();
    let mut start: usize = 0;
    let mut i: usize = 0;
    assert(text@.subrange(0, 0) =~= Seq::<char>::empty());
    assert(ls.deep_view().push(text@.subrange(0, 0)) =~= seq![Seq::<char>::empty()]);
    while i < n
        invariant
            n == text@.len(),
            start <= i <= n,
            pieces(text@.subrange(0, i as int)) == ls.deep_view().push(text@.subrange(start as int, i as int)),
        decreases n - i,
    {
        let ch = text.get_char(i);
        assert(text@.subrange(0, i + 1).drop_last() =~= text@.subrange(0, i as int));
        assert(text@.subrange(0, i + 1).last() == ch);
        if ch == '\n' {
            let piece = String::from_str(text.substring_char(start, i));
            let ghost before = ls.deep_view();
            ls.push(piece);
            assert(ls.deep_view() =~= before.push(piece@));
            i = i + 1;
            start = i;
            assert(text@.subrange(start as int, i as int) =~= Seq::<char>::empty());
        } else {
            assert(text@.subrange(start as int, i + 1) =~= text@.subrange(start as int, i as int).push(ch));
            i = i + 1;
        }
    }
    let last = String::from_str(text.substring_char(start, n));
    let ghost before = ls.deep_view();
    ls.push(last);
    assert(ls.deep_view() =~= before.push(last@));
    assert(text@.subrange(0, n as int) =~= text@);
    ls
}

/// The rest of `line` after `key`, if the line starts with it.
fn strip_key(line: &str, key: &str) -> (r: Option<String>)
    ensures
        r is Some <==> has_prefix(line@, key@),
        r matches Some(v) ==> v@ == after(line@, key@),
{
    let n = line.unicode_len();
    let k = key.unicode_len();
    if k > n {
        return None;
    }
    let head = String::from_str(line.substring_char(0, k));
    let key_text = String::from_str(key);
    if head == key_text {
        Some(String::from_str(line.substring_char(k, n)))
    } else {
        None
    }
}

/// The project a project line's value describes (see `read_project`).
fn read_project_of(v: &String) -> (r: Option<ProjectSettings>)
    ensures
        r is Some <==> read_project(v@) is Some,
        r matches Some(p) ==> read_project(v@) == Some(project_view(p)),
{
    let t = v.as_str();
    let n = t.unicode_len();
    if n < 6 || t.get_char(1) != '|' || t.get_char(3) != '|' || t.get_char(5) != '|' {
        return None;
    }
    let p = ProjectSettings {
        name: String::from_str(t.substring_char(6, n)),
        autoload: t.get_char(0) == '1',
        allow_load: t.get_char(2) == '1',
        available_for_clients: t.get_char(4) == '1',
    };
    Some(p)
}

/// Takes one line of the configuration file into `cfg` (see `apply_line`).
fn apply_line_to(cfg: &mut MonitorConfig, line: &String)
    ensures
        config_view(*final(cfg)) == apply_line(config_view(*old(cfg)), line@),
{
    let t = line.as_str();
    if let Some(v) = strip_key(t, "machine_name=") {
        cfg.machine_name = v;
    } else if let Some(v) = strip_key(t, "chbase_path=") {
        cfg.chbase_path = v;
    } else if let Some(v) = strip_key(t, "autoload_windows=") {
        proof { reveal_strlit("1"); }
        let one = String::from_str("1");
        assert(one@ =~= seq!['1']);
        cfg.autoload_windows = v == one;
    } else if let Some(v) = strip_key(t, "project=") {
        if let Some(p) = read_project_of(&v) {
            let ghost before = cfg.projects@;
            cfg.projects.push(p);
            assert(projects_view(cfg.projects@) =~= projects_view(before).push(project_view(p)));
        }
    }
}

/// The configuration a file's text gives (see `read_config`).
pub fn config_from_text(text: &str) -> (cfg: MonitorConfig)
    ensures
        config_view(cfg) == read_config(text@),
{
    let ls = split_pieces(text);
    let mut cfg = MonitorConfig {
        machine_name: String::new(),
        chbase_path: String::new(),
        autoload_windows: false,
        projects: Vec::new(),
    };
    assert(config_view(cfg) =~= empty_config());
    assert(ls.deep_view().subrange(0, 0) =~= Seq::<Seq<char>>::empty());
    let mut k: usize = 0;
    while k < ls.len()
        invariant
            k <= ls@.len(),
            config_view(cfg) == read_lines(ls.deep_view().subrange(0, k as int)),
        decreases ls@.len() - k,
    {
        assert(ls.deep_view().subrange(0, k + 1).drop_last() =~= ls.deep_view().subrange(0, k as int));
        apply_line_to(&mut cfg, &ls[k]);
        k = k + 1;
    }
    assert(ls.deep_view().subrange(0, k as int) =~= ls.deep_view());
    cfg
}

} // verus!
