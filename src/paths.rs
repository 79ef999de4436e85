//! Paths as sequences of segments: exclusion by prefix, joining with `/`,
//! the repository's name, and the label written for each file.

use vstd::prelude::*;

verus! {

/// A path as the sequence of its segments.
pub type PathView = Seq<Seq<char>>;

/// `prefix` is a leading run of the segments of `p`.
pub open spec fn is_path_prefix(prefix: PathView, p: PathView) -> bool {
    prefix.len() <= p.len() && p.subrange(0, prefix.len() as int) == prefix
}

/// Some exclusion in `excluding` is a prefix of `p`.
pub open spec fn is_excluded(p: PathView, excluding: Seq<PathView>) -> bool {
    exists|k: int| 0 <= k < excluding.len() && is_path_prefix(#[trigger] excluding[k], p)
}

/// The segments joined with `/`; no separator is added after a segment
/// that already ends with one (the root segment `/`).
pub open spec fn join_segments(p: PathView) -> Seq<char>
    decreases p.len(),
{
    if p.len() == 0 {
        Seq::empty()
    } else {
        let acc = join_segments(p.drop_last());
        if acc.len() == 0 {
            p.last()
        } else if acc.last() == '/' {
            acc + p.last()
        } else {
            acc + seq!['/'] + p.last()
        }
    }
}

/// `p` without the leading segments `root`; all of `p` when `root` does
/// not lead it.
pub open spec fn strip_root(p: PathView, root: PathView) -> PathView {
    if is_path_prefix(root, p) {
        p.subrange(root.len() as int, p.len() as int)
    } else {
        p
    }
}

/// The name used for a repository when its root has no final name.
pub open spec fn fallback_name() -> Seq<char> {
    seq!['r', 'e', 'p', 'o', 's', 'i', 't', 'o', 'r', 'y']
}

/// A segment that names an entry: not the root `/`, nor `.`, nor `..`.
pub open spec fn is_name_segment(s: Seq<char>) -> bool {
    s.len() > 0 && s != seq!['/'] && s != seq!['.'] && s != seq!['.', '.']
}

/// The repository's name: the final segment of its root where that names
/// an entry, else the fallback name.
pub open spec fn repo_name_of(root: PathView) -> Seq<char> {
    if root.len() > 0 && is_name_segment(root.last()) {
        root.last()
    } else {
        fallback_name()
    }
}

/// How the label of a file is formed.
#[derive(Clone, Copy, Debug, PartialEq, Eq, Structural)]
pub enum LabelMode {
    /// The walked path itself, joined with `/`.
    AsWalked,
    /// The fully resolved path, or the walked path where resolution failed.
    Absolute,
    /// The repository's name, `/`, and the path below the root.
    RepoRelative,
}

/// The label of the file at `p` under `mode`. `resolved` is the file's
/// resolved absolute path, where one was found.
pub open spec fn label_of(
    mode: LabelMode,
    root: PathView,
    p: PathView,
    resolved: Option<Seq<char>>,
) -> Seq<char> {
    match mode {
        LabelMode::AsWalked => join_segments(p),
        LabelMode::Absolute => match resolved {
            Some(r) => r,
            None => join_segments(p),
        },
        LabelMode::RepoRelative => repo_name_of(root) + seq!['/'] + join_segments(
            strip_root(p, root),
        ),
    }
}

/// A copy of a path.
pub fn clone_path(p: &Vec<String>) -> (r: Vec<String>)
    ensures
        r.deep_view() == p.deep_view(),
{
    let mut r: Vec<String> = Vec::new();
    let mut i: usize = 0;
    while i < p.len()
        invariant
            i <= p.len(),
            r.deep_view() =~= p.deep_view().subrange(0, i as int),
        decreases p.len() - i,
    {
        let s = p[i].clone();
        let ghost before = r.deep_view();
        r.push(s);
        assert(r.deep_view() =~= before.push(p.deep_view()[i as int]));
        i = i + 1;
    }
    r
}

/// The path `dir` extended by the segment `name`.
pub fn child_path(dir: &Vec<String>, name: &String) -> (r: Vec<String>)
    ensures
        r.deep_view() == dir.deep_view().push(name@),
{
    let mut r = clone_path(dir);
    r.push(name.clone());
    assert(r.deep_view() =~= dir.deep_view().push(name@));
    r
}

/// Whether `prefix` leads `p`, segment by segment.
pub fn starts_with_path(p: &Vec<String>, prefix: &Vec<String>) -> (r: bool)
    ensures
        r == is_path_prefix(prefix.deep_view(), p.deep_view()),
{
    if prefix.len() > p.len() {
        return false;
    }
    let mut i: usize = 0;
    while i < prefix.len()
        invariant
            prefix.len() <= p.len(),
            i <= prefix.len(),
            forall|j: int| 0 <= j < i ==> p.deep_view()[j] == prefix.deep_view()[j],
        decreases prefix.len() - i,
    {
        if p[i] != prefix[i] {
            assert(p.deep_view().subrange(0, prefix.len() as int)[i as int] != prefix.deep_view()[i as int]);
            return false;
        }
        i = i + 1;
    }
    assert(p.deep_view().subrange(0, prefix.len() as int) =~= prefix.deep_view());
    true
}

/// Whether some exclusion leads `p`.
pub fn is_excluded_path(p: &Vec<String>, excluding: &Vec<Vec<String>>) -> (r: bool)
    ensures
        r == is_excluded(p.deep_view(), excluding.deep_view()),
{
    let mut k: usize = 0;
    while k < excluding.len()
        invariant
            k <= excluding.len(),
            forall|j: int| 0 <= j < k ==> !is_path_prefix(excluding.deep_view()[j], p.deep_view()),
        decreases excluding.len() - k,
    {
        if starts_with_path(p, &excluding[k]) {
            assert(is_path_prefix(excluding.deep_view()[k as int], p.deep_view()));
            return true;
        }
        k = k + 1;
    }
    false
}

/// The segments of `p` joined with `/`, as `join_segments` says.
pub fn join_path(p: &Vec<String>) -> (r: String)
    ensures
        r@ == join_segments(p.deep_view()),
{
    let mut r = String::new();
    let mut ends_with_slash = false;
    let mut i: usize = 0;
    while i < p.len()
        invariant
            i <= p.len(),
            r@ == join_segments(p.deep_view().subrange(0, i as int)),
            ends_with_slash == (r@.len() > 0 && r@.last() == '/'),
        decreases p.len() - i,
    {
        let ghost prev = p.deep_view().subrange(0, i as int);
        assert(p.deep_view().subrange(0, i + 1).drop_last() =~= prev);
        let seg = p[i].as_str();
        if r.unicode_len() > 0 && !ends_with_slash {
            r.append("/");
            proof {
                reveal_strlit("/");
            }
        }
        r.append(seg);
        i = i + 1;
        let n = r.unicode_len();
        ends_with_slash = n > 0 && r.as_str().get_char(n - 1) == '/';
    }
    assert(p.deep_view().subrange(0, p.len() as int) =~= p.deep_view());
    r
}

/// `p` without the leading segments `root`, as `strip_root` says.
pub fn strip_root_path(p: &Vec<String>, root: &Vec<String>) -> (r: Vec<String>)
    ensures
        r.deep_view() == strip_root(p.deep_view(), root.deep_view()),
{
    if !starts_with_path(p, root) {
        return clone_path(p);
    }
    let mut r: Vec<String> = Vec::new();
    let mut i: usize = root.len();
    while i < p.len()
        invariant
            root.len() <= i <= p.len(),
            r.deep_view() =~= p.deep_view().subrange(root.len() as int, i as int),
        decreases p.len() - i,
    {
        let s = p[i].clone();
        let ghost before = r.deep_view();
        r.push(s);
        assert(r.deep_view() =~= before.push(p.deep_view()[i as int]));
        i = i + 1;
    }
    r
}

/// The repository's name, as `repo_name_of` says.
pub fn repository_name(root: &Vec<String>) -> (r: String)
    ensures
        r@ == repo_name_of(root.deep_view()),
{
    proof {
        reveal_strlit("repository");
    }
    let n = root.len();
    if n == 0 {
        return String::from_str("repository");
    }
    let last = root[n - 1].as_str();
    let m = last.unicode_len();
    let special = m == 0 || (m == 1 && (last.get_char(0) == '/' || last.get_char(0) == '.')) || (m
        == 2 && last.get_char(0) == '.' && last.get_char(1) == '.');
    assert(special == !is_name_segment(last@)) by {
        if m == 1 {
            assert(last@ =~= seq![last@[0]]);
        }
        if m == 2 {
            assert(last@ =~= seq![last@[0], last@[1]]);
        }
    }
    assert(root.deep_view().last() == last@);
    if special {
        String::from_str("repository")
    } else {
        root[n - 1].clone()
    }
}

/// The label of the file at `p`, as `label_of` says.
pub fn file_label(
    mode: LabelMode,
    root: &Vec<String>,
    p: &Vec<String>,
    resolved: Option<String>,
) -> (r: String)
    ensures
        r@ == label_of(
            mode,
            root.deep_view(),
            p.deep_view(),
            match resolved {
                Some(s) => Some(s@),
                None => None,
            },
        ),
{
    match mode {
        LabelMode::AsWalked => join_path(p),
        LabelMode::Absolute => match resolved {
            Some(s) => s,
            None => join_path(p),
        },
        LabelMode::RepoRelative => {
            let mut r = repository_name(root);
            r.append("/");
            proof {
                reveal_strlit("/");
            }
            let rel = strip_root_path(p, root);
            let tail = join_path(&rel);
            r.append(tail.as_str());
            r
        },
    }
}

} // verus!
