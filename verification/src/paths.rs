use vstd::prelude::*;
use crate::text::{join, joined, texts};

verus! {

/// Whether a part of a path names nothing: an empty part or `.`.
pub open spec fn is_idle_part(part: Seq<char>) -> bool {
    part.len() == 0 || part == seq!['.']
}

/// Whether a part of a path is `..`, the step to the parent.
pub open spec fn is_parent_part(part: Seq<char>) -> bool {
    part == seq!['.', '.']
}

/// The names that the parts of a path lead through, from the repository
/// root down, or `None` where some step would leave the root.
pub open spec fn descend(parts: Seq<Seq<char>>) -> Option<Seq<Seq<char>>>
    decreases parts.len(),
{
    if parts.len() == 0 {
        Some(Seq::<Seq<char>>::empty())
    } else {
        match descend(parts.drop_last()) {
            None => None,
            Some(names) => {
                let part = parts.last();
                if is_idle_part(part) {
                    Some(names)
                } else if is_parent_part(part) {
                    if names.len() == 0 {
                        None
                    } else {
                        Some(names.drop_last())
                    }
                } else {
                    Some(names.push(part))
                }
            },
        }
    }
}

/// Whether a character parts the names of a path: the slash, and the
/// backslash, which parts them on Windows.
pub open spec fn is_separator(c: char) -> bool {
    c == '/' || c == '\\'
}

/// The parts of a path between its separators. A path without a
/// separator has one part, itself; the empty path has one empty part.
pub open spec fn parts(path: Seq<char>) -> Seq<Seq<char>>
    decreases path.len(),
{
    if path.len() == 0 {
        seq![Seq::<char>::empty()]
    } else {
        let before = parts(path.drop_last());
        if is_separator(path.last()) {
            before.push(Seq::<char>::empty())
        } else {
            before.drop_last().push(before.last().push(path.last()))
        }
    }
}

/// Whether a path is absolute: it begins with a separator.
pub open spec fn is_absolute(path: Seq<char>) -> bool {
    path.len() > 0 && is_separator(path[0])
}

/// Whether a path holds a colon, as the name of a drive or of a stream of
/// a file does on Windows.
pub open spec fn has_colon(path: Seq<char>) -> bool {
    exists|i: int| 0 <= i < path.len() && path[i] == ':'
}

/// The place inside the repository that a relative path names, written
/// with slashes and without idle parts and parent steps; `None` for an
/// absolute path, for a path with a colon, and for one that leaves the
/// repository. The guard reads the text of the path alone: it does not
/// follow links of the file system.
pub open spec fn resolved(path: Seq<char>) -> Option<Seq<char>> {
    if is_absolute(path) || has_colon(path) {
        None
    } else {
        match descend(parts(path)) {
            None => None,
            Some(names) => Some(joined(names, seq!['/'])),
        }
    }
}

/// A path has at least one part, and no part holds a separator.
pub proof fn lemma_parts_hold_no_separator(path: Seq<char>)
    ensures
        parts(path).len() >= 1,
        forall|i: int, j: int|
            0 <= i < parts(path).len() && 0 <= j < parts(path)[i].len() ==> !is_separator(
                parts(path)[i][j],
            ),
    decreases path.len(),
{
    if path.len() > 0 {
        lemma_parts_hold_no_separator(path.drop_last());
    }
}

/// The names that a path leads through are plain: none is empty, `.` or
/// `..`, so a resolved path never steps out of the repository.
pub proof fn lemma_descend_is_plain(parts: Seq<Seq<char>>)
    ensures
        match descend(parts) {
            Some(names) => forall|i: int|
                0 <= i < names.len() ==> !is_idle_part(#[trigger] names[i]) && !is_parent_part(
                    names[i],
                ),
            None => true,
        },
    decreases parts.len(),
{
    if parts.len() > 0 {
        lemma_descend_is_plain(parts.drop_last());
    }
}

fn idle_part(part: &str) -> (r: bool)
    ensures
        r == is_idle_part(part@),
{
    let n: usize = part.unicode_len();
    if n == 0 {
        true
    } else if n == 1 {
        let r = part.get_char(0) == '.';
        assert(r ==> part@ =~= seq!['.']);
        r
    } else {
        false
    }
}

fn parent_part(part: &str) -> (r: bool)
    ensures
        r == is_parent_part(part@),
{
    let n: usize = part.unicode_len();
    if n == 2 {
        let r = part.get_char(0) == '.' && part.get_char(1) == '.';
        assert(r ==> part@ =~= seq!['.', '.']);
        r
    } else {
        false
    }
}

fn absolute(path: &str) -> (r: bool)
    ensures
        r == is_absolute(path@),
{
    if path.unicode_len() == 0 {
        false
    } else {
        let c = path.get_char(0);
        c == '/' || c == '\\'
    }
}

fn holds_colon(path: &str) -> (r: bool)
    ensures
        r == has_colon(path@),
{
    let n: usize = path.unicode_len();
    let mut i: usize = 0;
    while i < n
        invariant
            n == path@.len(),
            i <= n,
            forall|j: int| 0 <= j < i ==> path@[j] != ':',
        decreases n - i,
    {
        if path.get_char(i) == ':' {
            return true;
        }
        i += 1;
    }
    false
}

fn split_path(path: &str) -> (r: Vec<String>)
    ensures
        texts(r@) == parts(path@),
{
    let n: usize = path.unicode_len();
    let mut found: Vec<String> = Vec::new();
    let mut start: usize = 0;
    let mut i: usize = 0;
    assert(path@.take(0) =~= Seq::<char>::empty());
    assert(texts(found@).push(path@.subrange(0, 0)) =~= seq![Seq::<char>::empty()]);
    while i < n
        invariant
            n == path@.len(),
            start <= i <= n,
            parts(path@.take(i as int)) == texts(found@).push(path@.subrange(start as int, i as int)),
        decreases n - i,
    {
        let ghost before = texts(found@);
        proof {
            assert(path@.take(i as int + 1).drop_last() =~= path@.take(i as int));
            assert(path@.take(i as int + 1).last() == path@[i as int]);
        }
        let c = path.get_char(i);
        if c == '/' || c == '\\' {
            let part = path.substring_char(start, i).to_owned();
            let ghost from = start;
            found.push(part);
            start = i + 1;
            proof {
                assert(texts(found@) =~= before.push(path@.subrange(from as int, i as int)));
                assert(path@.subrange(start as int, i as int + 1) =~= Seq::<char>::empty());
            }
        } else {
            proof {
                let prev = before.push(path@.subrange(start as int, i as int));
                assert(prev.drop_last() =~= before);
                assert(prev.last().push(path@[i as int]) =~= path@.subrange(
                    start as int,
                    i as int + 1,
                ));
            }
        }
        i += 1;
    }
    assert(path@.take(n as int) =~= path@);
    let ghost before = texts(found@);
    let part = path.substring_char(start, n).to_owned();
    found.push(part);
    assert(texts(found@) =~= before.push(path@.subrange(start as int, n as int)));
    found
}

/// Resolves a path inside the repository. The result is the path written
/// with slashes, without idle parts and parent steps; there is none for
/// an absolute path, for a path with a colon, and for one that leaves the
/// repository.
pub fn resolve(path: &str) -> (r: Option<String>)
    ensures
        match r {
            Some(p) => resolved(path@) == Some(p@),
            None => resolved(path@) is None,
        },
{
    if absolute(path) || holds_colon(path) {
        return None;
    }
    let found = split_path(path);
    let n: usize = found.len();
    let ghost all = texts(found@);
    let mut names: Vec<String> = Vec::new();
    let mut i: usize = 0;
    assert(all.take(0) =~= Seq::<Seq<char>>::empty());
    assert(texts(names@) =~= Seq::<Seq<char>>::empty());
    while i < n
        invariant
            n == found.len(),
            all == texts(found@),
            all == parts(path@),
            i <= n,
            descend(all.take(i as int)) == Some(texts(names@)),
        decreases n - i,
    {
        let ghost before = texts(names@);
        proof {
            assert(all.take(i as int + 1).drop_last() =~= all.take(i as int));
            assert(all.take(i as int + 1).last() == found@[i as int]@);
        }
        let part = found[i].as_str();
        if idle_part(part) {
        } else if parent_part(part) {
            if names.len() == 0 {
                proof {
                    lemma_descend_stays_refused(all, i as int + 1);
                    assert(all.take(n as int) =~= all);
                }
                return None;
            }
            names.pop();
            assert(texts(names@) =~= before.drop_last());
        } else {
            names.push(part.to_owned());
            assert(texts(names@) =~= before.push(part@));
        }
        i += 1;
    }
    assert(all.take(n as int) =~= all);
    let p = join(&names, "/");
    proof {
        reveal_strlit("/");
        assert("/"@ =~= seq!['/']);
    }
    Some(p)
}

/// Once the first parts of a path leave the repository, so does the path.
pub proof fn lemma_descend_stays_refused(parts: Seq<Seq<char>>, upto: int)
    requires
        0 <= upto <= parts.len(),
        descend(parts.take(upto)) is None,
    ensures
        descend(parts) is None,
    decreases parts.len() - upto,
{
    if upto == parts.len() {
        assert(parts.take(upto) =~= parts);
    } else {
        assert(parts.take(upto + 1).drop_last() =~= parts.take(upto));
        lemma_descend_stays_refused(parts, upto + 1);
    }
}

} // verus!
