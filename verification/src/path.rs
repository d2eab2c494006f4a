//! Paths as text: segments between `/`, the name of a file, and joining a
//! directory with what lies below it.

use vstd::prelude::*;
use crate::text::{has_char, push_all};

verus! {

/// The character that separates the segments of a path.
pub const SEPARATOR: char = '/';

/// What a look at a path found there.
#[derive(Debug, Clone, Copy, PartialEq, Eq, Structural)]
pub enum PathKind {
    /// Nothing can be reached under the path.
    Missing,
    /// A directory.
    Directory,
    /// Anything else: a file, a device, a socket.
    Other,
}

/// Where the last segment of a path begins: behind its last separator, or
/// at the start when it has none.
pub open spec fn last_segment_start(path: Seq<char>) -> int
    decreases path.len(),
{
    if path.len() == 0 {
        0
    } else if path.last() == SEPARATOR {
        path.len() as int
    } else {
        last_segment_start(path.drop_last())
    }
}

/// The segment that stands for the directory itself.
pub open spec fn is_current_dir(segment: Seq<char>) -> bool {
    segment == seq!['.']
}

/// The segment that stands for the directory above.
pub open spec fn is_parent_dir(segment: Seq<char>) -> bool {
    segment == seq!['.', '.']
}

/// The name of the file or directory that a path leads to: its last
/// segment, once empty segments and `.` segments at its end are set aside.
/// Empty where the path has no such name: when it is empty, is the root,
/// is `.` alone, or ends in `..`.
pub open spec fn file_name(path: Seq<char>) -> Seq<char>
    decreases path.len(),
    via file_name_terminates
{
    let start = last_segment_start(path);
    let segment = path.skip(start);
    if segment.len() == 0 || is_current_dir(segment) {
        if start == 0 {
            Seq::<char>::empty()
        } else {
            file_name(path.take(start - 1))
        }
    } else if is_parent_dir(segment) {
        Seq::<char>::empty()
    } else {
        segment
    }
}

#[via_fn]
proof fn file_name_terminates(path: Seq<char>) {
    lemma_last_segment_start_bounds(path);
}

/// A segment that can be the name of a file: not empty, free of
/// separators, and neither `.` nor `..`.
pub open spec fn is_plain_name(name: Seq<char>) -> bool {
    &&& name.len() > 0
    &&& !has_char(name, SEPARATOR)
    &&& !is_current_dir(name)
    &&& !is_parent_dir(name)
}

/// A directory joined with a path below it: the second path alone when it
/// starts at the root, else the two with one separator between them, which
/// is left out where the directory is empty or already ends in one.
pub open spec fn join(dir: Seq<char>, below: Seq<char>) -> Seq<char> {
    if below.len() > 0 && below.first() == SEPARATOR {
        below
    } else if dir.len() > 0 && dir.last() != SEPARATOR {
        dir.push(SEPARATOR) + below
    } else {
        dir + below
    }
}

/// The last segment begins inside the path, directly behind a separator
/// unless it begins the path, and holds no separator.
pub proof fn lemma_last_segment_start_bounds(path: Seq<char>)
    ensures
        0 <= last_segment_start(path) <= path.len(),
        !has_char(path.skip(last_segment_start(path)), SEPARATOR),
        last_segment_start(path) > 0 ==> path[last_segment_start(path) - 1] == SEPARATOR,
    decreases path.len(),
{
    if path.len() == 0 {
    } else if path.last() == SEPARATOR {
    } else {
        let front = path.drop_last();
        lemma_last_segment_start_bounds(front);
        let start = last_segment_start(front);
        let segment = path.skip(start);
        if has_char(segment, SEPARATOR) {
            let j = choose|j: int| 0 <= j < segment.len() && segment[j] == SEPARATOR;
            assert(j < segment.len() - 1);
            assert(front.skip(start)[j] == SEPARATOR);
        }
    }
}

/// Behind a separator, a text without separators is the last segment.
pub proof fn lemma_last_segment_after_separator(front: Seq<char>, name: Seq<char>)
    requires
        !has_char(name, SEPARATOR),
    ensures
        last_segment_start(front.push(SEPARATOR) + name) == front.len() + 1,
        (front.push(SEPARATOR) + name).skip(front.len() as int + 1) == name,
    decreases name.len(),
{
    let path = front.push(SEPARATOR) + name;
    if name.len() == 0 {
        assert(path =~= front.push(SEPARATOR));
    } else {
        let shorter = name.drop_last();
        assert(!has_char(shorter, SEPARATOR)) by {
            if has_char(shorter, SEPARATOR) {
                let j = choose|j: int| 0 <= j < shorter.len() && shorter[j] == SEPARATOR;
                assert(name[j] == SEPARATOR);
            }
        }
        lemma_last_segment_after_separator(front, shorter);
        assert(path.drop_last() =~= front.push(SEPARATOR) + shorter);
        assert(path.last() == name[name.len() - 1]);
    }
    assert(path.skip(front.len() as int + 1) =~= name);
}

/// Without a separator in it, a text is its own last segment.
pub proof fn lemma_last_segment_of_name(name: Seq<char>)
    requires
        !has_char(name, SEPARATOR),
    ensures
        last_segment_start(name) == 0,
    decreases name.len(),
{
    if name.len() > 0 {
        let shorter = name.drop_last();
        assert(name[name.len() - 1] != SEPARATOR);
        assert(!has_char(shorter, SEPARATOR)) by {
            if has_char(shorter, SEPARATOR) {
                let j = choose|j: int| 0 <= j < shorter.len() && shorter[j] == SEPARATOR;
                assert(name[j] == SEPARATOR);
            }
        }
        lemma_last_segment_of_name(shorter);
    }
}

/// A plain name is the file name of itself and of every path that ends in
/// a separator followed by it, whatever stands before the separator.
pub proof fn lemma_file_name_under_any_directory(dir: Seq<char>, name: Seq<char>)
    requires
        is_plain_name(name),
    ensures
        file_name(name) == name,
        file_name(dir.push(SEPARATOR) + name) == name,
        dir.len() > 0 ==> file_name(join(dir, name)) == name,
{
    lemma_last_segment_of_name(name);
    assert(name.skip(0) =~= name);
    lemma_last_segment_after_separator(dir, name);
    assert(name.first() == name[0]);
    assert(name[0] != SEPARATOR);
    if dir.len() > 0 && dir.last() == SEPARATOR {
        let front = dir.drop_last();
        assert(front.push(SEPARATOR) =~= dir);
        lemma_last_segment_after_separator(front, name);
    }
}

/// Computes [`file_name`].
pub fn file_name_of(path: &Vec<char>) -> (name: Vec<char>)
    ensures
        name@ == file_name(path@),
{
    let mut end: usize = path.len();
    assert(path@.take(end as int) == path@);
    loop
        invariant
            end <= path.len(),
            file_name(path@) == file_name(path@.take(end as int)),
        decreases end,
    {
        let ghost front = path@.take(end as int);
        let mut start: usize = end;
        assert(front.take(end as int) == front);
        while start > 0 && path[start - 1] != SEPARATOR
            invariant
                start <= end <= path.len(),
                front == path@.take(end as int),
                last_segment_start(front) == last_segment_start(front.take(start as int)),
            decreases start,
        {
            assert(front.take(start as int).drop_last() == front.take(start - 1));
            start -= 1;
        }
        assert(last_segment_start(front) == start) by {
            if start > 0 {
                assert(front.take(start as int).last() == SEPARATOR);
            }
        }
        let ghost segment = front.skip(start as int);
        let length = end - start;
        let current = length == 1 && path[start] == '.';
        let parent = length == 2 && path[start] == '.' && path[start + 1] == '.';
        proof {
            assert(segment.len() == length);
            if length >= 1 {
                assert(segment[0] == path@[start as int]);
            }
            if length >= 2 {
                assert(segment[1] == path@[start + 1]);
            }
            assert(current == is_current_dir(segment)) by {
                if current {
                    assert(segment =~= seq!['.']);
                } else if is_current_dir(segment) {
                    assert(seq!['.'].len() == 1);
                    assert(seq!['.'][0] == '.');
                }
            }
            assert(parent == is_parent_dir(segment)) by {
                if parent {
                    assert(segment =~= seq!['.', '.']);
                } else if is_parent_dir(segment) {
                    assert(seq!['.', '.'].len() == 2);
                    assert(seq!['.', '.'][0] == '.');
                    assert(seq!['.', '.'][1] == '.');
                }
            }
        }
        if length == 0 || current {
            if start == 0 {
                return Vec::new();
            }
            assert(front.take(start - 1) == path@.take(start - 1));
            end = start - 1;
        } else if parent {
            return Vec::new();
        } else {
            let mut name: Vec<char> = Vec::new();
            let mut i: usize = start;
            while i < end
                invariant
                    start <= i <= end <= path.len(),
                    name@ == path@.subrange(start as int, i as int),
                decreases end - i,
            {
                name.push(path[i]);
                assert(path@.subrange(start as int, i + 1) == path@.subrange(
                    start as int,
                    i as int,
                ).push(path@[i as int]));
                i += 1;
            }
            assert(path@.subrange(start as int, end as int) == segment);
            return name;
        }
    }
}

/// Computes [`join`].
pub fn join_paths(dir: &Vec<char>, below: &Vec<char>) -> (path: Vec<char>)
    ensures
        path@ == join(dir@, below@),
{
    let mut path: Vec<char> = Vec::new();
    if below.len() > 0 && below[0] == SEPARATOR {
        push_all(&mut path, below);
        assert(path@ =~= below@);
    } else if dir.len() > 0 && dir[dir.len() - 1] != SEPARATOR {
        push_all(&mut path, dir);
        path.push(SEPARATOR);
        push_all(&mut path, below);
        assert(path@ =~= dir@.push(SEPARATOR) + below@);
    } else {
        push_all(&mut path, dir);
        push_all(&mut path, below);
        assert(path@ =~= dir@ + below@);
    }
    path
}

} // verus!
