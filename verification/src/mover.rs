//! Which files get moved, and where to.
//!
//! Paths are `/`-separated text. A *segment* is a maximal run of characters
//! between separators; the components that `std::path::Path` calls `Normal`
//! are exactly the segments that are neither empty, `.` nor `..`.
use vstd::prelude::*;

use crate::text::{chars_of, matches_at, occurs_at};

verus! {

/// `.stfolder`: the folder marker Syncthing keeps in every shared folder.
pub open spec fn stfolder() -> Seq<char> {
    seq!['.', 's', 't', 'f', 'o', 'l', 'd', 'e', 'r']
}

/// `.stversions`: Syncthing's versioning store.
pub open spec fn stversions() -> Seq<char> {
    seq!['.', 's', 't', 'v', 'e', 'r', 's', 'i', 'o', 'n', 's']
}

/// `.stignore`: Syncthing's ignore list.
pub open spec fn stignore() -> Seq<char> {
    seq!['.', 's', 't', 'i', 'g', 'n', 'o', 'r', 'e']
}

/// `.nomedia`: the marker that hides a folder from media scanners.
pub open spec fn nomedia() -> Seq<char> {
    seq!['.', 'n', 'o', 'm', 'e', 'd', 'i', 'a']
}

/// `.tmp`: the extension of temporary files.
pub open spec fn tmp_ext() -> Seq<char> {
    seq!['.', 't', 'm', 'p']
}

/// What a partial copy's name gets appended while it is in flight.
pub open spec fn part_suffix() -> Seq<char> {
    ".tidysync-part"@
}

/// A directory Syncthing owns and that must never be touched.
pub open spec fn is_syncthing_dir_name(name: Seq<char>) -> bool {
    name == stfolder() || name == stversions()
}

/// `s` ends with `suffix`.
pub open spec fn ends_with(s: Seq<char>, suffix: Seq<char>) -> bool {
    suffix.len() <= s.len() && s.subrange(s.len() - suffix.len(), s.len() as int) == suffix
}

/// `p[i..j]` is a segment of `p`.
pub open spec fn is_segment(p: Seq<char>, i: int, j: int) -> bool {
    &&& 0 <= i <= j <= p.len()
    &&& i == 0 || p[i - 1] == '/'
    &&& j == p.len() || p[j] == '/'
    &&& forall|k: int| i <= k < j ==> p[k] != '/'
}

/// A segment that names something: neither empty nor `.`.
pub open spec fn names_something(s: Seq<char>) -> bool {
    s.len() > 0 && s != seq!['.']
}

/// Some component of `p` is a directory Syncthing owns.
pub open spec fn in_syncthing_dir(p: Seq<char>) -> bool {
    exists|i: int, j: int| is_segment(p, i, j) && is_syncthing_dir_name(#[trigger] p.subrange(i, j))
}

/// `p[i..j]` is the last segment of `p` that names something.
pub open spec fn is_last_named(p: Seq<char>, i: int, j: int) -> bool {
    &&& is_segment(p, i, j)
    &&& names_something(p.subrange(i, j))
    &&& forall|i2: int, j2: int|
        is_segment(p, i2, j2) && i < i2 ==> !names_something(#[trigger] p.subrange(i2, j2))
}

/// The final component of `p`, as `Path::file_name` gives it: the last
/// segment that names something, unless that is `..`.
pub open spec fn file_name(p: Seq<char>) -> Option<Seq<char>> {
    if exists|i: int, j: int| is_last_named(p, i, j) {
        let (i, j) = choose|i: int, j: int| is_last_named(p, i, j);
        if p.subrange(i, j) == seq!['.', '.'] {
            None
        } else {
            Some(p.subrange(i, j))
        }
    } else {
        None
    }
}

/// A file name that is never moved: Syncthing's own marker and ignore list,
/// temporary files, and `.nomedia` markers.
pub open spec fn is_skipped_name(name: Seq<char>) -> bool {
    name == stfolder() || name == stignore() || ends_with(name, tmp_ext()) || name == nomedia()
}

/// A path that is never moved: one inside a directory Syncthing owns, or one
/// whose file name is skipped.
pub open spec fn is_skipped_path(p: Seq<char>) -> bool {
    in_syncthing_dir(p) || match file_name(p) {
        Some(name) => is_skipped_name(name),
        None => false,
    }
}

/// `child` appended to `base`, as `Path::join` does it: an absolute `child`
/// replaces `base`, otherwise one separator goes between them unless `base`
/// is empty or already ends with one.
pub open spec fn join(base: Seq<char>, child: Seq<char>) -> Seq<char> {
    if child.len() > 0 && child[0] == '/' {
        child
    } else if base.len() == 0 || base.last() == '/' {
        base + child
    } else {
        base + seq!['/'] + child
    }
}

/// What is left of `path` below `root`, when `path` is `root` joined with a
/// relative path.
pub open spec fn below(root: Seq<char>, path: Seq<char>) -> Option<Seq<char>> {
    if root.len() > 0 && root.last() != '/' {
        if root.len() < path.len() && path.subrange(0, root.len() as int) == root
            && path[root.len() as int] == '/' {
            Some(path.subrange(root.len() + 1int, path.len() as int))
        } else {
            None
        }
    } else if root.len() <= path.len() && path.subrange(0, root.len() as int) == root {
        Some(path.subrange(root.len() as int, path.len() as int))
    } else {
        None
    }
}

/// The sweep keeps relative paths: a file found at `root` joined with a
/// relative path goes to the target joined with the same relative path.
pub proof fn law_relative_paths_are_kept(root: Seq<char>, target: Seq<char>, rel: Seq<char>)
    requires
        rel.len() > 0,
        rel[0] != '/',
    ensures
        below(root, join(root, rel)) == Some(rel),
        match below(root, join(root, rel)) {
            Some(rest) => join(target, rest) == join(target, rel),
            None => false,
        },
{
    let p = join(root, rel);
    if root.len() > 0 && root.last() != '/' {
        assert(p.subrange(0, root.len() as int) =~= root);
        assert(p.subrange(root.len() + 1int, p.len() as int) =~= rel);
    } else {
        assert(p.subrange(0, root.len() as int) =~= root);
        assert(p.subrange(root.len() as int, p.len() as int) =~= rel);
    }
}

/// Segments are determined by where they start.
proof fn lemma_segment_end_unique(p: Seq<char>, i: int, j1: int, j2: int)
    requires
        is_segment(p, i, j1),
        is_segment(p, i, j2),
    ensures
        j1 == j2,
{
    if j1 < j2 {
        assert(p[j1] == '/');
    } else if j2 < j1 {
        assert(p[j2] == '/');
    }
}

/// The only segment that ends in `[a, k]`, when `p[a..k]` is a segment, is
/// that one.
proof fn lemma_only_segment(p: Seq<char>, a: int, k: int, i: int, j: int)
    requires
        is_segment(p, a, k),
        is_segment(p, i, j),
        a <= j <= k,
    ensures
        i == a && j == k,
{
    if i < a {
        assert(p[a - 1] == '/');
    }
    if i > a {
        assert(p[i - 1] == '/');
    }
    lemma_segment_end_unique(p, a, j, k);
}

/// Whether `v[a..b]` is exactly `name`.
fn segment_is(v: &Vec<char>, a: usize, b: usize, name: &Vec<char>) -> (r: bool)
    requires
        a <= b <= v.len(),
    ensures
        r == (v@.subrange(a as int, b as int) == name@),
{
    if b - a != name.len() {
        assert(v@.subrange(a as int, b as int).len() != name@.len());
        return false;
    }
    matches_at(v, name, a)
}

/// Whether `v[a..b]` ends with `suffix`.
fn segment_ends_with(v: &Vec<char>, a: usize, b: usize, suffix: &Vec<char>) -> (r: bool)
    requires
        a <= b <= v.len(),
    ensures
        r == ends_with(v@.subrange(a as int, b as int), suffix@),
{
    if b - a < suffix.len() {
        return false;
    }
    let r = matches_at(v, suffix, b - suffix.len());
    assert(v@.subrange(a as int, b as int).subrange(
        (b - a) - suffix.len(),
        (b - a) as int,
    ) =~= v@.subrange(b - suffix.len(), b as int));
    r
}

/// Scan `p` for its segments: whether one of them is a directory Syncthing
/// owns, and the bounds of the last one that names something.
fn scan_segments(v: &Vec<char>) -> (r: (bool, Option<(usize, usize)>))
    ensures
        r.0 == in_syncthing_dir(v@),
        match r.1 {
            Some((i, j)) => is_last_named(v@, i as int, j as int),
            None => forall|i: int, j: int| !is_last_named(v@, i, j),
        },
{
    let stfolder_chars = vec!['.', 's', 't', 'f', 'o', 'l', 'd', 'e', 'r'];
    let stversions_chars = vec!['.', 's', 't', 'v', 'e', 'r', 's', 'i', 'o', 'n', 's'];
    assert(stfolder_chars@ =~= stfolder());
    assert(stversions_chars@ =~= stversions());
    let n = v.len();
    let mut a: usize = 0;
    let mut k: usize = 0;
    let mut in_dir = false;
    let mut last: Option<(usize, usize)> = None;
    loop
        invariant
            n == v.len(),
            a <= k <= n,
            stfolder_chars@ == stfolder(),
            stversions_chars@ == stversions(),
            a == 0 || v@[a - 1] == '/',
            forall|m: int| a <= m < k ==> v@[m] != '/',
            // Every segment that ends before `a` has been looked at.
            in_dir ==> in_syncthing_dir(v@),
            !in_dir ==> forall|i: int, j: int|
                is_segment(v@, i, j) && j < a ==> !is_syncthing_dir_name(#[trigger] v@.subrange(i, j)),
            match last {
                Some((li, lj)) => {
                    &&& is_segment(v@, li as int, lj as int)
                    &&& lj < a
                    &&& names_something(v@.subrange(li as int, lj as int))
                    &&& forall|i2: int, j2: int|
                        is_segment(v@, i2, j2) && li < i2 && j2 < a ==> !names_something(
                            #[trigger] v@.subrange(i2, j2),
                        )
                },
                None => forall|i2: int, j2: int|
                    is_segment(v@, i2, j2) && j2 < a ==> !names_something(
                        #[trigger] v@.subrange(i2, j2),
                    ),
            },
        decreases n - k + 1,
    {
        if k == n || v[k] == '/' {
            // `v[a..k]` is a whole segment.
            assert(is_segment(v@, a as int, k as int));
            let is_dir = segment_is(v, a, k, &stfolder_chars) || segment_is(
                v,
                a,
                k,
                &stversions_chars,
            );
            if is_dir {
                assert(is_syncthing_dir_name(v@.subrange(a as int, k as int)));
                in_dir = true;
            }
            let named = k > a && !(k - a == 1 && v[a] == '.');
            assert(named == names_something(v@.subrange(a as int, k as int))) by {
                if k - a == 1 {
                    assert(v@.subrange(a as int, k as int) =~= seq![v@[a as int]]);
                    if v@[a as int] == '.' {
                        assert(seq![v@[a as int]] =~= seq!['.']);
                    } else {
                        assert(seq![v@[a as int]][0] != seq!['.'][0]);
                    }
                }
                if k > a && k - a != 1 {
                    assert(v@.subrange(a as int, k as int).len() != seq!['.'].len());
                }
            }
            if named {
                last = Some((a, k));
            }
            if k == n {
                proof {
                    if !in_dir {
                        assert forall|i: int, j: int| is_segment(v@, i, j) implies !is_syncthing_dir_name(
                            #[trigger] v@.subrange(i, j),
                        ) by {
                            if j >= a {
                                lemma_only_segment(v@, a as int, k as int, i, j);
                            }
                        }
                    }
                    match last {
                        Some((li, lj)) => {
                            assert forall|i2: int, j2: int|
                                is_segment(v@, i2, j2) && li < i2 implies !names_something(
                                #[trigger] v@.subrange(i2, j2),
                            ) by {
                                if j2 >= a {
                                    lemma_only_segment(v@, a as int, k as int, i2, j2);
                                }
                            }
                        },
                        None => {
                            assert forall|i: int, j: int| !is_last_named(v@, i, j) by {
                                if is_last_named(v@, i, j) && j >= a {
                                    lemma_only_segment(v@, a as int, k as int, i, j);
                                }
                            }
                        },
                    }
                }
                return (in_dir, last);
            }
            proof {
                if !in_dir {
                    assert forall|i: int, j: int|
                        is_segment(v@, i, j) && j < k + 1 implies !is_syncthing_dir_name(
                        #[trigger] v@.subrange(i, j),
                    ) by {
                        if j >= a {
                            lemma_only_segment(v@, a as int, k as int, i, j);
                        }
                    }
                }
                match last {
                    Some((li, lj)) => {
                        assert forall|i2: int, j2: int|
                            is_segment(v@, i2, j2) && li < i2 && j2 < k + 1 implies !names_something(
                            #[trigger] v@.subrange(i2, j2),
                        ) by {
                            if j2 >= a {
                                lemma_only_segment(v@, a as int, k as int, i2, j2);
                            }
                        }
                    },
                    None => {
                        assert forall|i2: int, j2: int|
                            is_segment(v@, i2, j2) && j2 < k + 1 implies !names_something(
                            #[trigger] v@.subrange(i2, j2),
                        ) by {
                            if j2 >= a {
                                lemma_only_segment(v@, a as int, k as int, i2, j2);
                            }
                        }
                    },
                }
            }
            a = k + 1;
        }
        k = k + 1;
    }
}

/// Whether `path` is one that must never be moved.
///
/// Any component counts, not just the final one: the offending file is usually
/// one Syncthing itself dropped inside `.stfolder`, whose own name gives
/// nothing away.
pub fn should_skip_file(path: &str) -> (r: bool)
    ensures
        r == is_skipped_path(path@),
{
    let v = chars_of(path);
    let (in_dir, last) = scan_segments(&v);
    if in_dir {
        return true;
    }
    match last {
        None => {
            assert(file_name(v@) is None);
            false
        },
        Some((i, j)) => {
            proof {
                let (ci, cj) = choose|ci: int, cj: int| is_last_named(v@, ci, cj);
                if ci < i {
                    assert(!names_something(v@.subrange(i as int, j as int)));
                } else if ci > i {
                    assert(!names_something(v@.subrange(ci, cj)));
                }
                lemma_segment_end_unique(v@, i as int, j as int, cj);
            }
            let dotdot = vec!['.', '.'];
            if segment_is(&v, i, j, &dotdot) {
                assert(dotdot@ =~= seq!['.', '.']);
                return false;
            }
            assert(dotdot@ =~= seq!['.', '.']);
            let stfolder_chars = vec!['.', 's', 't', 'f', 'o', 'l', 'd', 'e', 'r'];
            let stignore_chars = vec!['.', 's', 't', 'i', 'g', 'n', 'o', 'r', 'e'];
            let tmp_chars = vec!['.', 't', 'm', 'p'];
            let nomedia_chars = vec!['.', 'n', 'o', 'm', 'e', 'd', 'i', 'a'];
            assert(stfolder_chars@ =~= stfolder());
            assert(stignore_chars@ =~= stignore());
            assert(tmp_chars@ =~= tmp_ext());
            assert(nomedia_chars@ =~= nomedia());
            segment_is(&v, i, j, &stfolder_chars) || segment_is(&v, i, j, &stignore_chars)
                || segment_ends_with(&v, i, j, &tmp_chars) || segment_is(
                &v,
                i,
                j,
                &nomedia_chars,
            )
        },
    }
}

/// Whether a directory entry called `name` is one of Syncthing's own
/// directories, which the pre-scan never descends into.
pub fn is_syncthing_dir(name: &str) -> (r: bool)
    ensures
        r == is_syncthing_dir_name(name@),
{
    let v = chars_of(name);
    let stfolder_chars = vec!['.', 's', 't', 'f', 'o', 'l', 'd', 'e', 'r'];
    let stversions_chars = vec!['.', 's', 't', 'v', 'e', 'r', 's', 'i', 'o', 'n', 's'];
    assert(stfolder_chars@ =~= stfolder());
    assert(stversions_chars@ =~= stversions());
    assert(v@.subrange(0, v.len() as int) =~= v@);
    segment_is(&v, 0, v.len(), &stfolder_chars) || segment_is(&v, 0, v.len(), &stversions_chars)
}

/// The name a path is reported by: its file name, or the whole path when it
/// has none.
pub fn display_name(path: &str) -> (r: String)
    ensures
        r@ == match file_name(path@) {
            Some(name) => name,
            None => path@,
        },
{
    let v = chars_of(path);
    let (_, last) = scan_segments(&v);
    match last {
        None => {
            assert(file_name(v@) is None);
            String::from_str(path)
        },
        Some((i, j)) => {
            proof {
                let (ci, cj) = choose|ci: int, cj: int| is_last_named(v@, ci, cj);
                if ci < i {
                    assert(!names_something(v@.subrange(i as int, j as int)));
                } else if ci > i {
                    assert(!names_something(v@.subrange(ci, cj)));
                }
                lemma_segment_end_unique(v@, i as int, j as int, cj);
            }
            let dotdot = vec!['.', '.'];
            assert(dotdot@ =~= seq!['.', '.']);
            if segment_is(&v, i, j, &dotdot) {
                String::from_str(path)
            } else {
                String::from_str(path.substring_char(i, j))
            }
        },
    }
}

/// Where a copy to `destination` is written before it is renamed into place:
/// the same path with `.tidysync-part` appended.
pub fn partial_path(destination: &str) -> (r: String)
    ensures
        r@ == destination@ + part_suffix(),
{
    String::from_str(destination).concat(".tidysync-part")
}

/// `child` appended to `base`, as `Path::join` does it.
pub fn join_path(base: &str, child: &str) -> (r: String)
    ensures
        r@ == join(base@, child@),
{
    let child_chars = chars_of(child);
    if child_chars.len() > 0 && child_chars[0] == '/' {
        return String::from_str(child);
    }
    let base_chars = chars_of(base);
    if base_chars.len() == 0 || base_chars[base_chars.len() - 1] == '/' {
        String::from_str(base).concat(child)
    } else {
        let r = String::from_str(base).concat("/").concat(child);
        proof {
            reveal_strlit("/");
        }
        assert(r@ =~= base@ + seq!['/'] + child@);
        r
    }
}

/// What is left of `path` below `root`, when `path` is `root` joined with a
/// relative path (as every entry of a directory walk from `root` is).
pub fn relative_to(root: &str, path: &str) -> (r: Option<String>)
    ensures
        match r {
            Some(rest) => below(root@, path@) == Some(rest@),
            None => below(root@, path@) is None,
        },
{
    let rv = chars_of(root);
    let pv = chars_of(path);
    if rv.len() > pv.len() || !matches_at(&pv, &rv, 0) {
        proof {
            if rv.len() <= pv.len() {
                assert(!occurs_at(pv@, rv@, 0));
            }
        }
        return None;
    }
    assert(pv@.subrange(0, rv@.len() as int) == rv@);
    if rv.len() > 0 && rv[rv.len() - 1] != '/' {
        if rv.len() == pv.len() || pv[rv.len()] != '/' {
            return None;
        }
        Some(String::from_str(path.substring_char(rv.len() + 1, pv.len())))
    } else {
        Some(String::from_str(path.substring_char(rv.len(), pv.len())))
    }
}

/// Where the pre-scan moves a file found at `path` under `source_root`: the
/// same place relative to `target_dir`. `None` when `path` is not below
/// `source_root`.
pub fn destination_for(source_root: &str, target_dir: &str, path: &str) -> (r: Option<String>)
    ensures
        match below(source_root@, path@) {
            Some(rest) => r matches Some(d) && d@ == join(target_dir@, rest),
            None => r is None,
        },
{
    match relative_to(source_root, path) {
        Some(rest) => Some(join_path(target_dir, rest.as_str())),
        None => None,
    }
}


/// The error when a walked path is not below the folder being swept.
pub open spec fn not_below_text() -> Seq<char> {
    "failed to get relative path for existing file: prefix not found"@
}

/// The sweep of everything already sitting in the source folder, as a state
/// machine: the caller walks the folder (never descending into Syncthing's
/// own directories), hands over each entry, performs the moves asked for and
/// reports how they went.
pub struct PreScan {
    pub source_root: String,
    pub target_dir: String,
    /// How many files have been moved so far.
    pub moved: u64,
}

/// What the walk produced next.
pub enum ScanInput {
    /// An entry of the walk. `keep_going` is whether watching is still
    /// switched on, polled between files so that a long backlog can be
    /// abandoned promptly without ever interrupting a move half-way.
    Entry { path: String, is_dir: bool, keep_going: bool },
    /// How the last move went: whether the file was moved (rather than
    /// skipped), or why it failed.
    MoveResult(Result<bool, String>),
    /// The walk is over.
    End,
}

/// What the sweep asks for next.
#[derive(Debug, Clone, PartialEq, Eq)]
pub enum ScanAction {
    /// Go on to the next entry.
    Next,
    /// Move one file; its failure does not stop the sweep.
    Move { source: String, destination: String },
    /// The sweep is over, having moved this many files.
    Done { moved: u64 },
    /// The sweep failed.
    Fail { message: String },
}

/// The sweep's transitions: how `post` and the action follow from `pre` and
/// the input.
pub open spec fn scan_step(pre: PreScan, input: ScanInput, post: PreScan, action: ScanAction) -> bool {
    &&& post.source_root == pre.source_root
    &&& post.target_dir == pre.target_dir
    &&& match input {
        ScanInput::Entry { path, is_dir, keep_going } => {
            &&& post.moved == pre.moved
            &&& if !keep_going {
                action == ScanAction::Done { moved: pre.moved }
            } else if is_dir || is_skipped_path(path@) {
                action == ScanAction::Next
            } else {
                match below(pre.source_root@, path@) {
                    Some(rest) => action matches ScanAction::Move { source, destination }
                        && source == path && destination@ == join(
                        pre.target_dir@,
                        rest,
                    ),
                    None => action matches ScanAction::Fail { message } && message@
                        == not_below_text(),
                }
            }
        },
        ScanInput::MoveResult(result) => {
            &&& action == ScanAction::Next
            &&& post.moved == if result == Ok::<bool, String>(true) {
                pre.moved + 1
            } else {
                pre.moved as int
            }
        },
        ScanInput::End => {
            &&& post.moved == pre.moved
            &&& action == ScanAction::Done { moved: pre.moved }
        },
    }
}

impl PreScan {
    /// A sweep of `source_root` into `target_dir` that has moved nothing yet.
    pub fn new(source_root: String, target_dir: String) -> (s: Self)
        ensures
            s.source_root == source_root,
            s.target_dir == target_dir,
            s.moved == 0,
    {
        PreScan { source_root, target_dir, moved: 0 }
    }

    /// One step of the sweep.
    pub fn step(&mut self, input: ScanInput) -> (action: ScanAction)
        requires
            input matches ScanInput::MoveResult(Ok(true)) ==> old(self).moved < u64::MAX,
        ensures
            scan_step(*old(self), input, *final(self), action),
    {
        match input {
            ScanInput::Entry { path, is_dir, keep_going } => {
                if !keep_going {
                    return ScanAction::Done { moved: self.moved };
                }
                if is_dir || should_skip_file(path.as_str()) {
                    return ScanAction::Next;
                }
                match destination_for(self.source_root.as_str(), self.target_dir.as_str(), path.as_str()) {
                    Some(destination) => ScanAction::Move { source: path, destination },
                    None => ScanAction::Fail {
                        message: String::from_str(
                            "failed to get relative path for existing file: prefix not found",
                        ),
                    },
                }
            },
            ScanInput::MoveResult(result) => {
                match result {
                    Ok(true) => {
                        self.moved = self.moved + 1;
                    },
                    _ => {},
                }
                ScanAction::Next
            },
            ScanInput::End => ScanAction::Done { moved: self.moved },
        }
    }
}

/// A file that is never moved stays put: the sweep asks to move no path that
/// is skipped, nor any directory, and once watching is switched off it asks
/// for nothing more.
pub proof fn law_sweep_never_moves_skipped(
    pre: PreScan,
    input: ScanInput,
    post: PreScan,
    action: ScanAction,
)
    requires
        scan_step(pre, input, post, action),
        input matches ScanInput::Entry { path, is_dir, keep_going } && (is_dir || is_skipped_path(
            path@,
        ) || !keep_going),
    ensures
        !(action is Move),
        post.moved == pre.moved,
{
}

/// The sweep keeps the folder's layout: a file found at the swept folder
/// joined with a relative path, that is not skipped, is moved from where it
/// was found to the target directory joined with that same relative path, so
/// files of the same name in different subfolders never land on each other.
pub proof fn law_sweep_keeps_the_layout(
    pre: PreScan,
    input: ScanInput,
    post: PreScan,
    action: ScanAction,
    rel: Seq<char>,
)
    requires
        scan_step(pre, input, post, action),
        input matches ScanInput::Entry { path, is_dir, keep_going } && !is_dir && keep_going
            && path@ == join(pre.source_root@, rel) && !is_skipped_path(path@),
        rel.len() > 0,
        rel[0] != '/',
    ensures
        action matches ScanAction::Move { source, destination } && (input matches ScanInput::Entry {
            path,
            ..
        } && source == path) && destination@ == join(pre.target_dir@, rel),
        post.moved == pre.moved,
{
    law_relative_paths_are_kept(pre.source_root@, pre.target_dir@, rel);
}

/// Where a single file move is.
#[derive(Debug, Clone, Copy, PartialEq, Eq, Structural)]
pub enum MoveStage {
    /// Not started.
    Start,
    /// Waiting for the destination's parent directories to be made.
    AwaitParent,
    /// Waiting for the rename of the source to the destination.
    AwaitRename,
    /// Waiting for the copy to the partial file on the other filesystem.
    AwaitCopy,
    /// Waiting for a failed copy's partial file to be removed.
    AwaitCleanup,
    /// Waiting for the partial file to be renamed into place.
    AwaitPlace,
    /// Waiting for the source to be removed after the copy.
    AwaitRemove,
    /// Finished.
    Finished,
}

/// Why a rename failed.
#[derive(Debug, Clone, PartialEq, Eq)]
pub enum RenameFailure {
    /// Source and destination are on different filesystems.
    CrossesDevices,
    /// Anything else, with its message.
    Other(String),
}

/// What came of the last request of a file move.
pub enum MoveReply {
    /// Start the move.
    Begin,
    ParentMade(Result<(), String>),
    Renamed(Result<(), RenameFailure>),
    Copied(Result<(), String>),
    /// The partial file was removed (or there was none to remove).
    CleanedUp,
    Placed(Result<(), String>),
    Removed(Result<(), String>),
}

/// What a file move asks for next.
#[derive(Debug, PartialEq, Eq)]
pub enum MoveRequest {
    /// Make the parent directories of `path`, if it has a parent.
    MakeParentDirs { path: String },
    /// Rename `from` to `to`.
    Rename { from: String, to: String },
    /// Copy `from` to `to`.
    Copy { from: String, to: String },
    /// Remove `path`, ignoring any failure.
    RemovePartial { path: String },
    /// Remove `path`.
    RemoveSource { path: String },
    /// The move is over: whether the file was moved (rather than skipped),
    /// or why it failed.
    Finish { result: Result<bool, String> },
}

/// One file move: skipped files stay put; otherwise the file is renamed into
/// place, and where `rename` cannot cross filesystems it is copied to a
/// `.tidysync-part` sibling of the destination, which is renamed into place
/// before the original is removed, so an interrupted copy never leaves a
/// truncated file that looks complete.
pub struct FileMove {
    pub source: String,
    pub destination: String,
    pub stage: MoveStage,
    /// The error of a failed copy, reported once its partial file is gone.
    pub copy_error: Option<String>,
}

/// A request's failure message under its context.
pub open spec fn finishes_with_error(request: MoveRequest, text: Seq<char>) -> bool {
    request matches MoveRequest::Finish { result: Err(e) } && e@ == text
}

/// A file move's transitions.
pub open spec fn move_step(pre: FileMove, reply: MoveReply, post: FileMove, request: MoveRequest) -> bool {
    &&& post.source == pre.source
    &&& post.destination == pre.destination
    &&& match (pre.stage, reply) {
        (MoveStage::Start, MoveReply::Begin) => if is_skipped_path(pre.source@) {
            &&& post.stage == MoveStage::Finished
            &&& request == MoveRequest::Finish { result: Ok(false) }
        } else {
            &&& post.stage == MoveStage::AwaitParent
            &&& request == MoveRequest::MakeParentDirs { path: pre.destination }
        },
        (MoveStage::AwaitParent, MoveReply::ParentMade(result)) => match result {
            Ok(()) => {
                &&& post.stage == MoveStage::AwaitRename
                &&& request == MoveRequest::Rename { from: pre.source, to: pre.destination }
            },
            Err(e) => {
                &&& post.stage == MoveStage::Finished
                &&& finishes_with_error(
                    request,
                    "failed to create parent directories for target file: "@ + e@,
                )
            },
        },
        (MoveStage::AwaitRename, MoveReply::Renamed(result)) => match result {
            Ok(()) => {
                &&& post.stage == MoveStage::Finished
                &&& request == MoveRequest::Finish { result: Ok(true) }
            },
            Err(RenameFailure::CrossesDevices) => {
                &&& post.stage == MoveStage::AwaitCopy
                &&& request matches MoveRequest::Copy { from, to } && from == pre.source && to@
                    == pre.destination@ + part_suffix()
            },
            Err(RenameFailure::Other(e)) => {
                &&& post.stage == MoveStage::Finished
                &&& finishes_with_error(request, "failed to move file: "@ + e@)
            },
        },
        (MoveStage::AwaitCopy, MoveReply::Copied(result)) => match result {
            Ok(()) => {
                &&& post.stage == MoveStage::AwaitPlace
                &&& request matches MoveRequest::Rename { from, to } && from@ == pre.destination@
                    + part_suffix() && to == pre.destination
            },
            Err(e) => {
                &&& post.stage == MoveStage::AwaitCleanup
                &&& post.copy_error == Some(e)
                &&& request matches MoveRequest::RemovePartial { path } && path@
                    == pre.destination@ + part_suffix()
            },
        },
        (MoveStage::AwaitCleanup, MoveReply::CleanedUp) => {
            &&& post.stage == MoveStage::Finished
            &&& match pre.copy_error {
                Some(e) => finishes_with_error(
                    request,
                    "failed to copy file to target filesystem: "@ + e@,
                ),
                None => finishes_with_error(request, "failed to copy file to target filesystem"@),
            }
        },
        (MoveStage::AwaitPlace, MoveReply::Placed(result)) => match result {
            Ok(()) => {
                &&& post.stage == MoveStage::AwaitRemove
                &&& request == MoveRequest::RemoveSource { path: pre.source }
            },
            Err(e) => {
                &&& post.stage == MoveStage::Finished
                &&& finishes_with_error(request, "failed to rename copied file into place: "@ + e@)
            },
        },
        (MoveStage::AwaitRemove, MoveReply::Removed(result)) => {
            &&& post.stage == MoveStage::Finished
            &&& match result {
                Ok(()) => request == MoveRequest::Finish { result: Ok(true) },
                Err(e) => finishes_with_error(
                    request,
                    "copied file to target but failed to remove the original: "@ + e@,
                ),
            }
        },
        _ => {
            &&& post.stage == MoveStage::Finished
            &&& finishes_with_error(request, "file move received a reply it did not ask for"@)
        },
    }
}

impl FileMove {
    /// A move of `source` to `destination` that has not started.
    pub fn new(source: String, destination: String) -> (m: Self)
        ensures
            m.source == source,
            m.destination == destination,
            m.stage == MoveStage::Start,
            m.copy_error is None,
    {
        FileMove { source, destination, stage: MoveStage::Start, copy_error: None }
    }

    fn finish_with(&mut self, context: &str, error: &String) -> (r: MoveRequest)
        ensures
            final(self).source == old(self).source,
            final(self).destination == old(self).destination,
            final(self).stage == MoveStage::Finished,
            finishes_with_error(r, context@ + error@),
    {
        self.stage = MoveStage::Finished;
        MoveRequest::Finish { result: Err(String::from_str(context).concat(error.as_str())) }
    }

    /// One step of the move.
    pub fn step(&mut self, reply: MoveReply) -> (request: MoveRequest)
        ensures
            move_step(*old(self), reply, *final(self), request),
    {
        match (self.stage, reply) {
            (MoveStage::Start, MoveReply::Begin) => {
                if should_skip_file(self.source.as_str()) {
                    self.stage = MoveStage::Finished;
                    MoveRequest::Finish { result: Ok(false) }
                } else {
                    self.stage = MoveStage::AwaitParent;
                    MoveRequest::MakeParentDirs { path: self.destination.clone() }
                }
            },
            (MoveStage::AwaitParent, MoveReply::ParentMade(result)) => match result {
                Ok(()) => {
                    self.stage = MoveStage::AwaitRename;
                    MoveRequest::Rename { from: self.source.clone(), to: self.destination.clone() }
                },
                Err(e) => self.finish_with("failed to create parent directories for target file: ", &e),
            },
            (MoveStage::AwaitRename, MoveReply::Renamed(result)) => match result {
                Ok(()) => {
                    self.stage = MoveStage::Finished;
                    MoveRequest::Finish { result: Ok(true) }
                },
                Err(RenameFailure::CrossesDevices) => {
                    self.stage = MoveStage::AwaitCopy;
                    MoveRequest::Copy {
                        from: self.source.clone(),
                        to: partial_path(self.destination.as_str()),
                    }
                },
                Err(RenameFailure::Other(e)) => self.finish_with("failed to move file: ", &e),
            },
            (MoveStage::AwaitCopy, MoveReply::Copied(result)) => match result {
                Ok(()) => {
                    self.stage = MoveStage::AwaitPlace;
                    MoveRequest::Rename {
                        from: partial_path(self.destination.as_str()),
                        to: self.destination.clone(),
                    }
                },
                Err(e) => {
                    self.stage = MoveStage::AwaitCleanup;
                    self.copy_error = Some(e);
                    MoveRequest::RemovePartial { path: partial_path(self.destination.as_str()) }
                },
            },
            (MoveStage::AwaitCleanup, MoveReply::CleanedUp) => {
                self.stage = MoveStage::Finished;
                match &self.copy_error {
                    Some(e) => MoveRequest::Finish {
                        result: Err(String::from_str("failed to copy file to target filesystem: ").concat(e.as_str())),
                    },
                    None => MoveRequest::Finish {
                        result: Err(String::from_str("failed to copy file to target filesystem")),
                    },
                }
            },
            (MoveStage::AwaitPlace, MoveReply::Placed(result)) => match result {
                Ok(()) => {
                    self.stage = MoveStage::AwaitRemove;
                    MoveRequest::RemoveSource { path: self.source.clone() }
                },
                Err(e) => self.finish_with("failed to rename copied file into place: ", &e),
            },
            (MoveStage::AwaitRemove, MoveReply::Removed(result)) => {
                self.stage = MoveStage::Finished;
                match result {
                    Ok(()) => MoveRequest::Finish { result: Ok(true) },
                    Err(e) => MoveRequest::Finish {
                        result: Err(String::from_str("copied file to target but failed to remove the original: ").concat(e.as_str())),
                    },
                }
            },
            _ => {
                self.stage = MoveStage::Finished;
                MoveRequest::Finish {
                    result: Err(String::from_str("file move received a reply it did not ask for")),
                }
            },
        }
    }
}

/// A file move never loses the file: the original is removed only after its
/// copy has been renamed into place at the destination; a skipped file is
/// never touched at all; and a failed copy has its partial file removed
/// before the move reports the failure.
pub proof fn law_moves_never_lose_files(
    pre: FileMove,
    reply: MoveReply,
    post: FileMove,
    request: MoveRequest,
)
    requires
        move_step(pre, reply, post, request),
    ensures
        (request is RemoveSource) ==> (pre.stage == MoveStage::AwaitPlace && (reply matches MoveReply::Placed(Ok(_)))),
        (pre.stage == MoveStage::Start && (reply is Begin) && is_skipped_path(pre.source@)) ==> (request
            == (MoveRequest::Finish { result: Ok(false) })),
        (request is RemovePartial) ==> (pre.stage == MoveStage::AwaitCopy),
        (pre.stage == MoveStage::AwaitCopy && (reply matches MoveReply::Copied(Err(_)))) ==> (request is RemovePartial),
        (request matches MoveRequest::Finish { result: Ok(true) }) ==> (pre.stage == MoveStage::AwaitRename
            || pre.stage == MoveStage::AwaitRemove),
{
}

} // verus!
