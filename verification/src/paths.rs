use vstd::prelude::*;

verus! {

/// `name` is a non-empty run of consecutive characters of `path`.
pub open spec fn is_segment_of(name: Seq<char>, path: Seq<char>) -> bool {
    &&& name.len() > 0
    &&& exists|i: int| 0 <= i && i + name.len() <= path.len() && #[trigger] path.subrange(i, i + name.len()) == name
}

/// The characters after the last `/` (all of `p` when it has none).
pub open spec fn last_segment(p: Seq<char>) -> Seq<char>
    decreases p.len(),
{
    if p.len() == 0 {
        p
    } else if p.last() == '/' {
        Seq::empty()
    } else {
        last_segment(p.drop_last()).push(p.last())
    }
}

/// `p` without trailing separators and trailing `.` components; a path made
/// of a single separator is kept.
pub open spec fn trim_trailing(p: Seq<char>) -> Seq<char>
    decreases p.len(),
{
    if p.len() > 1 && p.last() == '/' {
        trim_trailing(p.drop_last())
    } else if p.len() > 2 && p.last() == '.' && p[p.len() - 2] == '/' {
        trim_trailing(p.drop_last())
    } else {
        p
    }
}

/// A path that every platform reads the same way: no `\` (a separator or
/// verbatim marker on Windows), no leading `//` (a network share there) and
/// no drive prefix such as `C:`.
pub open spec fn is_portable_path(p: Seq<char>) -> bool {
    &&& !p.contains('\\')
    &&& !(p.len() >= 2 && p[0] == '/' && p[1] == '/')
    &&& !(p.len() >= 2 && p[1] == ':')
}

/// The final component of a portable path: what follows its last separator
/// once trailing separators and `.` components are dropped, unless that is
/// empty (the root, the empty path), `.` or `..`.
pub open spec fn plain_file_name(p: Seq<char>) -> Option<Seq<char>> {
    let s = last_segment(trim_trailing(p));
    if s.len() > 0 && s != seq!['.'] && s != seq!['.', '.'] {
        Some(s)
    } else {
        None
    }
}

/// A Windows verbatim path (`\\?\...`), in which `/` is no separator.
pub open spec fn is_verbatim_path(p: Seq<char>) -> bool {
    p.len() >= 4 && p[0] == '\\' && p[1] == '\\' && p[2] == '?' && p[3] == '\\'
}

/// What std can return as the final component of `path` on any platform: a
/// non-empty run of the path's characters, never `.` or `..`, and without a
/// `/` unless the path is verbatim.
pub open spec fn is_component_of(name: Seq<char>, path: Seq<char>) -> bool {
    &&& is_segment_of(name, path)
    &&& name != seq!['.']
    &&& name != seq!['.', '.']
    &&& !is_verbatim_path(path) ==> !name.contains('/')
}

/// What the text shown for a chosen path can be: its final component, or
/// the whole path when it has none. On a portable path it is exactly the
/// final component by `plain_file_name`, or the whole path when there is none.
pub open spec fn file_name_outcome(text: Seq<char>, path: Seq<char>) -> bool {
    &&& text == path || is_component_of(text, path)
    &&& is_portable_path(path) ==> text == (match plain_file_name(path) {
        Some(n) => n,
        None => path,
    })
}

/// The final component of `path` by std's `Path::file_name`, as a string.
/// std returns a slice of the path itself, and a normal component is never
/// empty: a returned name is a non-empty run of the path's characters. std's
/// components never read `.` or `..` as a name, and split at `/` on every
/// platform except in Windows verbatim paths (`\\?\`). On a
/// portable path (no `\`, no leading `//`, no drive prefix) std's components
/// are split at `/`, repeated separators and non-leading `.` components are
/// dropped, and the last component is a name unless it is the root, `.` or
/// `..`: that is `plain_file_name`. On other paths which component is taken,
/// and whether there is one, depends on the platform; it is not stated.
#[verifier::external_body]
fn path_file_name(path: &str) -> (name: Option<String>)
    ensures
        name matches Some(n) ==> is_component_of(n@, path@),
        name matches Some(n) ==> (is_portable_path(path@) ==> plain_file_name(path@) == Some(n@)),
        name is None ==> (is_portable_path(path@) ==> plain_file_name(path@) is None),
{
    Some(std::path::Path::new(path).file_name()?.to_string_lossy().into_owned())
}

/// The text shown for a path whose final component is `name`: the name, or
/// the whole path when there is none.
pub fn name_or_path(path: &str, name: Option<String>) -> (s: String)
    ensures
        s@ == (match name {
            Some(n) => n@,
            None => path@,
        }),
{
    match name {
        Some(n) => n,
        None => String::from_str(path),
    }
}

/// The text shown for a chosen file or folder: its file name, or the whole
/// path when it has none.
pub fn file_name_text(path: &str) -> (s: String)
    ensures
        file_name_outcome(s@, path@),
{
    let name = path_file_name(path);
    name_or_path(path, name)
}

// ---------------------------------------------------------------------------
// Laws

/// The text shown for a portable path depends on the text of the path alone:
/// two results for equal portable paths are equal.
pub proof fn lemma_file_name_depends_on_text(p1: Seq<char>, p2: Seq<char>, s1: Seq<char>, s2: Seq<char>)
    requires
        p1 == p2,
        is_portable_path(p1),
        file_name_outcome(s1, p1),
        file_name_outcome(s2, p2),
    ensures
        s1 == s2,
{
}

proof fn lemma_last_segment_suffix(p: Seq<char>)
    ensures
        last_segment(p).len() <= p.len(),
        last_segment(p) == p.subrange(p.len() - last_segment(p).len(), p.len() as int),
        !last_segment(p).contains('/'),
    decreases p.len(),
{
    if p.len() > 0 && p.last() != '/' {
        lemma_last_segment_suffix(p.drop_last());
        let s = last_segment(p.drop_last());
        assert(last_segment(p) =~= p.subrange(p.len() - last_segment(p).len(), p.len() as int));
        assert forall|i: int| 0 <= i < last_segment(p).len() implies last_segment(p)[i] != '/' by {
            if i < s.len() {
                assert(!s.contains('/'));
                assert(s[i] != '/');
            }
        }
    } else if p.len() > 0 {
        assert(last_segment(p) =~= p.subrange(p.len() as int, p.len() as int));
    }
}

proof fn lemma_trim_prefix(p: Seq<char>)
    ensures
        trim_trailing(p).len() <= p.len(),
        trim_trailing(p) == p.subrange(0, trim_trailing(p).len() as int),
    decreases p.len(),
{
    if (p.len() > 1 && p.last() == '/') || (p.len() > 2 && p.last() == '.' && p[p.len() - 2] == '/') {
        lemma_trim_prefix(p.drop_last());
        assert(trim_trailing(p) =~= p.subrange(0, trim_trailing(p).len() as int));
    } else {
        assert(p =~= p.subrange(0, p.len() as int));
    }
}

proof fn lemma_no_separator_fixed(s: Seq<char>)
    requires
        !s.contains('/'),
    ensures
        last_segment(s) == s,
        trim_trailing(s) == s,
    decreases s.len(),
{
    if s.len() > 0 {
        assert(s.last() == s[s.len() - 1]);
        assert(!s.drop_last().contains('/')) by {
            assert forall|i: int| 0 <= i < s.drop_last().len() implies s.drop_last()[i] != '/' by {
                assert(s.drop_last()[i] == s[i]);
            }
        }
        lemma_no_separator_fixed(s.drop_last());
        assert(last_segment(s) =~= s);
        if s.len() > 2 {
            assert(s[s.len() - 2] != '/');
        }
    }
}

/// The file name of a portable path is one component: non-empty, without a
/// separator, neither `.` nor `..`, and a run of the path's characters.
pub proof fn lemma_file_name_is_component(p: Seq<char>)
    requires
        plain_file_name(p) is Some,
    ensures
        ({
            let n = plain_file_name(p)->0;
            &&& n.len() > 0
            &&& !n.contains('/')
            &&& n != seq!['.']
            &&& n != seq!['.', '.']
            &&& is_segment_of(n, p)
        }),
{
    let q = trim_trailing(p);
    let n = last_segment(q);
    lemma_trim_prefix(p);
    lemma_last_segment_suffix(q);
    let i = q.len() - n.len();
    assert(p.subrange(i, i + n.len()) =~= q.subrange(i, q.len() as int));
}

/// Taking the file name of a file name changes nothing, for a portable path
/// whose file name does not itself read as a drive prefix (like `a:b`).
pub proof fn lemma_file_name_idempotent(p: Seq<char>)
    requires
        is_portable_path(p),
        plain_file_name(p) is Some,
        !(plain_file_name(p)->0.len() >= 2 && plain_file_name(p)->0[1] == ':'),
    ensures
        is_portable_path(plain_file_name(p)->0),
        plain_file_name(plain_file_name(p)->0) == plain_file_name(p),
{
    let n = plain_file_name(p)->0;
    lemma_file_name_is_component(p);
    lemma_no_separator_fixed(n);
    let i = choose|i: int| 0 <= i && i + n.len() <= p.len() && #[trigger] p.subrange(i, i + n.len()) == n;
    assert forall|j: int| 0 <= j < n.len() implies n[j] != '\\' by {
        assert(n[j] == p[i + j]);
        assert(!p.contains('\\'));
    }
    if n.len() >= 2 {
        assert(n[0] != '/') by {
            assert(!n.contains('/'));
        }
    }
}

} // verus!
