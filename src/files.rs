use vstd::prelude::*;

use crate::routing::path_segments;
use crate::text::{non_empty, segments_of, split_all, views};

verus! {

/// Why reading a project file failed.
#[derive(Debug)]
pub enum ReadError {
    /// The path given was absolute.
    Absolute,
    /// The path leads out of the project root.
    EscapesRoot,
    /// No file exists at the path given.
    NotFound(String),
    /// The file exists but could not be read; the system's reason.
    Failed(String),
}

pub open spec fn is_absolute(p: Seq<char>) -> bool {
    p.len() > 0 && p[0] == '/'
}

/// One segment of a relative path applied to the directories walked so far:
/// `.` stays, `..` goes up (and fails above the start), any other name goes down.
pub open spec fn walk_step(dirs: Option<Seq<Seq<char>>>, seg: Seq<char>) -> Option<Seq<Seq<char>>> {
    match dirs {
        None => None,
        Some(d) => if seg == seq!['.'] {
            Some(d)
        } else if seg == seq!['.', '.'] {
            if d.len() == 0 {
                None
            } else {
                Some(d.drop_last())
            }
        } else {
            Some(d.push(seg))
        },
    }
}

/// The directories walked through by the first `n` segments, or `None` once
/// the walk has gone above where it started.
pub open spec fn walk(segs: Seq<Seq<char>>, n: int) -> Option<Seq<Seq<char>>>
    decreases n,
{
    if n <= 0 {
        Some(Seq::empty())
    } else {
        walk_step(walk(segs, n - 1), segs[n - 1])
    }
}

/// A relative path stays below its starting directory at every step.
pub open spec fn stays_inside(p: Seq<char>) -> bool {
    walk(path_segments(p), path_segments(p).len() as int) is Some
}

pub open spec fn is_prefix_of(a: Seq<Seq<char>>, b: Seq<Seq<char>>) -> bool {
    a.len() <= b.len() && b.take(a.len() as int) == a
}

/// `target` is `root` or lies below it, compared segment by segment.
pub open spec fn lies_within(root: Seq<char>, target: Seq<char>) -> bool {
    is_prefix_of(path_segments(root), path_segments(target))
}

fn is_dot(s: &str) -> (r: bool)
    ensures
        r == (s@ == seq!['.']),
{
    let r = s.unicode_len() == 1 && s.get_char(0) == '.';
    proof {
        if r {
            assert(s@ =~= seq!['.']);
        }
    }
    r
}

fn is_dot_dot(s: &str) -> (r: bool)
    ensures
        r == (s@ == seq!['.', '.']),
{
    let r = s.unicode_len() == 2 && s.get_char(0) == '.' && s.get_char(1) == '.';
    proof {
        if r {
            assert(s@ =~= seq!['.', '.']);
        }
    }
    r
}

/// Checks a path handed to `read` before anything on disk is touched: an
/// absolute path is refused, and so is one whose `..` segments climb above
/// the project root at any point.
pub fn check_relative(path: &str) -> (r: Result<(), ReadError>)
    ensures
        is_absolute(path@) ==> r matches Err(ReadError::Absolute),
        !is_absolute(path@) && !stays_inside(path@) ==> r matches Err(ReadError::EscapesRoot),
        !is_absolute(path@) && stays_inside(path@) ==> r is Ok,
{
    let absolute = path.unicode_len() > 0 && path.get_char(0) == '/';
    if absolute {
        return Err(ReadError::Absolute);
    }
    assert(!is_absolute(path@));
    let segs = segments_of(path, '/');
    let ghost s = views(segs@);
    let mut depth: usize = 0;
    let mut i: usize = 0;
    while i < segs.len()
        invariant
            !is_absolute(path@),
            s == views(segs@),
            s == path_segments(path@),
            i <= segs@.len(),
            walk(s, i as int) matches Some(d) && d.len() == depth,
            depth <= i,
        decreases segs@.len() - i,
    {
        let seg = segs[i].as_str();
        assert(s[i as int] == seg@);
        if is_dot(seg) {
        } else if is_dot_dot(seg) {
            if depth == 0 {
                proof {
                    lemma_walk_stays_failed(s, i as int + 1, s.len() as int);
                }
                return Err(ReadError::EscapesRoot);
            }
            depth = depth - 1;
        } else {
            depth = depth + 1;
        }
        i = i + 1;
    }
    Ok(())
}

proof fn lemma_walk_stays_failed(s: Seq<Seq<char>>, i: int, n: int)
    requires
        0 <= i <= n,
        walk(s, i) is None,
    ensures
        walk(s, n) is None,
    decreases n - i,
{
    if i < n {
        lemma_walk_stays_failed(s, i + 1, n);
    }
}

/// A relative path whose first segment is `..` leaves the root at once, so
/// `read` refuses it before touching the disk.
pub proof fn lemma_leading_parent_escapes(p: Seq<char>)
    requires
        path_segments(p).len() > 0,
        path_segments(p)[0] == seq!['.', '.'],
    ensures
        !stays_inside(p),
{
    let s = path_segments(p);
    assert(walk(s, 0) == Some(Seq::<Seq<char>>::empty()));
    assert(s[0].len() == 2);
    assert(s[0] != seq!['.']);
    assert(walk(s, 1) == walk_step(walk(s, 0), s[0]));
    assert(walk(s, 1) is None);
    lemma_walk_stays_failed(s, 1, s.len() as int);
}

pub open spec fn starts_with_parent(p: Seq<char>) -> bool {
    p.len() >= 3 && p[0] == '.' && p[1] == '.' && p[2] == '/'
}

proof fn lemma_split_parent_first(p: Seq<char>)
    requires
        starts_with_parent(p),
    ensures
        split_all(p, '/').len() >= 2,
        split_all(p, '/')[0] == seq!['.', '.'],
    decreases p.len(),
{
    if p.len() == 3 {
        let a = p.drop_last();
        let b = a.drop_last();
        let c = b.drop_last();
        assert(c.len() == 0);
        assert(split_all(c, '/') == seq![Seq::<char>::empty()]);
        assert(b.last() == '.');
        assert(split_all(b, '/') =~= seq![seq!['.']]);
        assert(a.last() == '.');
        let prev = split_all(b, '/');
        assert(prev.len() == 1 && prev.last() =~= seq!['.']);
        assert(prev.last().push('.') =~= seq!['.', '.']);
        assert(split_all(a, '/') == prev.update(0, prev.last().push('.')));
        assert(split_all(a, '/') =~= seq![seq!['.', '.']]);
        assert(p.last() == '/');
    } else {
        let q = p.drop_last();
        assert(starts_with_parent(q));
        lemma_split_parent_first(q);
    }
}

proof fn lemma_non_empty_first(pieces: Seq<Seq<char>>)
    requires
        pieces.len() > 0,
        pieces[0].len() > 0,
    ensures
        non_empty(pieces).len() > 0,
        non_empty(pieces)[0] == pieces[0],
    decreases pieces.len(),
{
    if pieces.len() > 1 {
        lemma_non_empty_first(pieces.drop_last());
    } else {
        assert(pieces.drop_last().len() == 0);
        assert(non_empty(pieces.drop_last()) =~= Seq::<Seq<char>>::empty());
    }
}

/// `read` refuses every path that starts with `../` and every absolute path,
/// before touching the disk.
pub proof fn lemma_traversal_refused(p: Seq<char>)
    requires
        starts_with_parent(p) || is_absolute(p),
    ensures
        is_absolute(p) || !stays_inside(p),
{
    if starts_with_parent(p) {
        lemma_split_parent_first(p);
        lemma_non_empty_first(split_all(p, '/'));
        lemma_leading_parent_escapes(p);
    }
}

/// Whether the canonical path `target` is `root` itself or lies below it.
pub fn within_root(root: &str, target: &str) -> (r: bool)
    ensures
        r == lies_within(root@, target@),
{
    let a = segments_of(root, '/');
    let b = segments_of(target, '/');
    if a.len() > b.len() {
        return false;
    }
    let mut i: usize = 0;
    while i < a.len()
        invariant
            views(a@) == path_segments(root@),
            views(b@) == path_segments(target@),
            a@.len() <= b@.len(),
            i <= a@.len(),
            forall|j: int| 0 <= j < i ==> views(b@)[j] == views(a@)[j],
        decreases a@.len() - i,
    {
        assert(views(a@)[i as int] == a@[i as int]@);
        assert(views(b@)[i as int] == b@[i as int]@);
        if a[i] != b[i] {
            assert(views(b@).take(a@.len() as int)[i as int] != views(a@)[i as int]);
            return false;
        }
        i = i + 1;
    }
    assert(views(b@).take(a@.len() as int) =~= views(a@));
    true
}

/// The decision on a path once the root and the target have been
/// canonicalised (`target` is `None` where no such file exists): the target
/// must exist and lie within the root.
pub fn check_target(path: &str, root: &str, target: Option<&str>) -> (r: Result<(), ReadError>)
    ensures
        target is None ==> (r matches Err(ReadError::NotFound(p)) && p@ == path@),
        (target matches Some(t) && !lies_within(root@, t@)) ==> r matches Err(ReadError::EscapesRoot),
        (target matches Some(t) && lies_within(root@, t@)) ==> r is Ok,
{
    match target {
        None => Err(ReadError::NotFound(path.to_owned())),
        Some(t) => if within_root(root, t) {
            Ok(())
        } else {
            Err(ReadError::EscapesRoot)
        },
    }
}

impl ReadError {
    /// The message thrown back into the action.
    pub fn message(&self) -> (r: String)
        ensures
            match self {
                ReadError::Absolute => r@ == "t.read expects a relative path like 'db/file.sql'"@,
                ReadError::EscapesRoot => r@ == "t.read: path escapes allowed root"@,
                ReadError::NotFound(p) => r@ == "t.read: file not found: "@ + p@,
                ReadError::Failed(e) => r@ == "t.read failed: "@ + e@,
            },
    {
        match self {
            ReadError::Absolute => "t.read expects a relative path like 'db/file.sql'".to_owned(),
            ReadError::EscapesRoot => "t.read: path escapes allowed root".to_owned(),
            ReadError::NotFound(p) => {
                let mut m = "t.read: file not found: ".to_owned();
                m.append(p.as_str());
                m
            },
            ReadError::Failed(e) => {
                let mut m = "t.read failed: ".to_owned();
                m.append(e.as_str());
                m
            },
        }
    }
}

} // verus!
