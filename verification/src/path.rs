//! Windows paths as text.
//!
//! A path is an optional drive (`C:`), then separators, then names parted
//! by separators. The drive and the separators that follow it are the
//! root; with no drive, the separators at the start are. The names after
//! the root are the path's components. Nothing here touches a file system.
//!
//! The model covers the paths that the index returns: absolute paths on a
//! drive, made of plain names. It reads every other text too, by the same
//! rules and with no special cases, so that it differs from the system's
//! own reading in three places:
//!
//! - `.` and `..` are names like any other. The parent of `C:\A\.` is
//!   `C:\A`, and the file name of `C:\A\..` is `..`.
//! - A network prefix `\\server\share` is not part of the root: `server`
//!   and `share` are the first two components.
//! - A prefix that starts with `\\?\` or `\\.\` is read as a network
//!   prefix is.

use vstd::prelude::*;
use crate::text::{chars_of, string_of};

verus! {

/// Whether `c` parts the names of a path: a backslash or a slash.
pub open spec fn is_separator(c: char) -> bool {
    c == '\\' || c == '/'
}

/// Whether `c` can name a drive: an ASCII letter.
pub open spec fn is_drive_letter(c: char) -> bool {
    ('a' <= c && c <= 'z') || ('A' <= c && c <= 'Z')
}

/// The length of the drive at the start of `p`: 2 or 0.
pub open spec fn drive_len(p: Seq<char>) -> int {
    if p.len() >= 2 && is_drive_letter(p[0]) && p[1] == ':' {
        2
    } else {
        0
    }
}

/// The first index at or after `from` at which no separator stands.
pub open spec fn skip_separators(p: Seq<char>, from: int) -> int
    decreases p.len() - from,
{
    if 0 <= from < p.len() && is_separator(p[from]) {
        skip_separators(p, from + 1)
    } else {
        from
    }
}

/// The length of the root of `p`: its drive and the separators after it.
pub open spec fn root_len(p: Seq<char>) -> int {
    skip_separators(p, drive_len(p))
}

/// The least end at or above `low` that cuts the separators off the end of
/// `p[..end]`.
pub open spec fn trim_separators(p: Seq<char>, low: int, end: int) -> int
    decreases end,
{
    if 0 <= low < end <= p.len() && is_separator(p[end - 1]) {
        trim_separators(p, low, end - 1)
    } else {
        end
    }
}

/// The index at or above `low` where the name that ends at `end` starts.
pub open spec fn name_start(p: Seq<char>, low: int, end: int) -> int
    decreases end,
{
    if 0 <= low < end <= p.len() && !is_separator(p[end - 1]) {
        name_start(p, low, end - 1)
    } else {
        end
    }
}

/// Where the last component of `p` ends: the end of `p` without the
/// separators that trail it. Equal to `root_len(p)` when `p` has no
/// component.
pub open spec fn last_end(p: Seq<char>) -> int {
    trim_separators(p, root_len(p), p.len() as int)
}

/// Where the last component of `p` starts.
pub open spec fn last_start(p: Seq<char>) -> int {
    name_start(p, root_len(p), last_end(p))
}

/// Whether `p` has a component after its root.
pub open spec fn has_component(p: Seq<char>) -> bool {
    root_len(p) < last_end(p)
}

/// The last component of `p`: the name of the file or directory that `p`
/// leads to. A root and an empty path have none.
pub open spec fn file_name_of(p: Seq<char>) -> Option<Seq<char>> {
    if has_component(p) {
        Some(p.subrange(last_start(p), last_end(p)))
    } else {
        None
    }
}

/// `p` without its last component and without the separators before that
/// component, except those of the root. A root and an empty path have no
/// parent.
pub open spec fn parent_of(p: Seq<char>) -> Option<Seq<char>> {
    if has_component(p) {
        Some(p.take(trim_separators(p, root_len(p), last_start(p))))
    } else {
        None
    }
}

/// The bounds that the indices of a path keep.
pub proof fn lemma_path_bounds(p: Seq<char>)
    ensures
        0 <= drive_len(p) <= root_len(p) <= last_end(p) <= p.len(),
        root_len(p) <= last_start(p) <= last_end(p),
        root_len(p) <= trim_separators(p, root_len(p), last_start(p)) <= last_start(p),
        has_component(p) ==> last_start(p) < last_end(p),
{
    lemma_skip_separators(p, drive_len(p));
    lemma_trim_separators(p, root_len(p), p.len() as int);
    lemma_name_start(p, root_len(p), last_end(p));
    lemma_trim_separators(p, root_len(p), last_start(p));
}

/// `skip_separators` passes separators only and stops at the first other
/// character or at the end.
pub proof fn lemma_skip_separators(p: Seq<char>, from: int)
    requires
        0 <= from <= p.len(),
    ensures
        from <= skip_separators(p, from) <= p.len(),
        forall|j: int| from <= j < skip_separators(p, from) ==> is_separator(p[j]),
        skip_separators(p, from) < p.len() ==> !is_separator(p[skip_separators(p, from)]),
    decreases p.len() - from,
{
    if from < p.len() && is_separator(p[from]) {
        lemma_skip_separators(p, from + 1);
    }
}

/// `trim_separators` cuts separators only and stops above `low` at the
/// first other character.
pub proof fn lemma_trim_separators(p: Seq<char>, low: int, end: int)
    requires
        0 <= low <= end <= p.len(),
    ensures
        low <= trim_separators(p, low, end) <= end,
        forall|j: int| trim_separators(p, low, end) <= j < end ==> is_separator(p[j]),
        low < trim_separators(p, low, end) ==> !is_separator(p[trim_separators(p, low, end) - 1]),
    decreases end,
{
    if low < end && is_separator(p[end - 1]) {
        lemma_trim_separators(p, low, end - 1);
    }
}

/// `name_start` passes characters of a name only and stops above `low`
/// at the first separator.
pub proof fn lemma_name_start(p: Seq<char>, low: int, end: int)
    requires
        0 <= low <= end <= p.len(),
    ensures
        low <= name_start(p, low, end) <= end,
        forall|j: int| name_start(p, low, end) <= j < end ==> !is_separator(p[j]),
        low < name_start(p, low, end) ==> is_separator(p[name_start(p, low, end) - 1]),
        low < end && !is_separator(p[end - 1]) ==> name_start(p, low, end) < end,
    decreases end,
{
    if low < end && !is_separator(p[end - 1]) {
        lemma_name_start(p, low, end - 1);
    }
}

/// A file name is not empty and holds no separator; a parent is a proper
/// prefix of its path; and a path is its parent, separators, its file name
/// and separators, in this order.
pub proof fn theorem_parent_and_name(p: Seq<char>)
    requires
        has_component(p),
    ensures
        file_name_of(p)->0.len() > 0,
        forall|j: int| 0 <= j < file_name_of(p)->0.len() ==> !is_separator(file_name_of(p)->0[j]),
        parent_of(p)->0.len() < p.len(),
        parent_of(p)->0 == p.take(parent_of(p)->0.len() as int),
        forall|j: int| parent_of(p)->0.len() <= j < last_start(p) ==> is_separator(p[j]),
        forall|j: int| last_end(p) <= j < p.len() ==> is_separator(p[j]),
        file_name_of(p)->0 == p.subrange(last_start(p), last_end(p)),
{
    lemma_path_bounds(p);
    lemma_skip_separators(p, drive_len(p));
    lemma_trim_separators(p, root_len(p), p.len() as int);
    lemma_name_start(p, root_len(p), last_end(p));
    lemma_trim_separators(p, root_len(p), last_start(p));
}

/// Computes `is_separator`.
pub fn separator(c: char) -> (b: bool)
    ensures
        b == is_separator(c),
{
    c == '\\' || c == '/'
}

/// Computes `root_len`.
pub fn root_length(p: &Vec<char>) -> (n: usize)
    ensures
        n == root_len(p@),
        n <= p.len(),
{
    let mut n: usize = 0;
    if p.len() >= 2 && (('a' <= p[0] && p[0] <= 'z') || ('A' <= p[0] && p[0] <= 'Z')) && p[1]
        == ':' {
        n = 2;
    }
    let ghost from = n as int;
    proof {
        lemma_skip_separators(p@, from);
    }
    while n < p.len() && separator(p[n])
        invariant
            from <= n <= p.len(),
            skip_separators(p@, from) == skip_separators(p@, n as int),
        decreases p.len() - n,
    {
        n += 1;
    }
    n
}

/// Computes `trim_separators`.
pub fn trimmed_end(p: &Vec<char>, low: usize, end: usize) -> (e: usize)
    requires
        low <= end <= p.len(),
    ensures
        e == trim_separators(p@, low as int, end as int),
        low <= e <= end,
{
    let mut e: usize = end;
    while low < e && separator(p[e - 1])
        invariant
            low <= e <= end <= p.len(),
            trim_separators(p@, low as int, end as int) == trim_separators(
                p@,
                low as int,
                e as int,
            ),
        decreases e,
    {
        e -= 1;
    }
    e
}

/// Computes `name_start`.
pub fn start_of_name(p: &Vec<char>, low: usize, end: usize) -> (s: usize)
    requires
        low <= end <= p.len(),
    ensures
        s == name_start(p@, low as int, end as int),
        low <= s <= end,
{
    let mut s: usize = end;
    while low < s && !separator(p[s - 1])
        invariant
            low <= s <= end <= p.len(),
            name_start(p@, low as int, end as int) == name_start(p@, low as int, s as int),
        decreases s,
    {
        s -= 1;
    }
    s
}

/// The length of the parent of `p`, where it has one.
pub fn parent_length(p: &Vec<char>) -> (r: Option<usize>)
    ensures
        r is Some <==> parent_of(p@) is Some,
        r matches Some(n) ==> n <= p.len() && parent_of(p@) == Some(p@.take(n as int)),
{
    let root = root_length(p);
    let end = trimmed_end(p, root, p.len());
    if end == root {
        return None;
    }
    let start = start_of_name(p, root, end);
    Some(trimmed_end(p, root, start))
}

/// The bounds of the file name of `p`, where it has one.
pub fn name_bounds(p: &Vec<char>) -> (r: Option<(usize, usize)>)
    ensures
        r is Some <==> file_name_of(p@) is Some,
        r matches Some((from, to)) ==> from <= to <= p.len() && file_name_of(p@) == Some(
            p@.subrange(from as int, to as int),
        ),
{
    let root = root_length(p);
    let end = trimmed_end(p, root, p.len());
    if end == root {
        return None;
    }
    let start = start_of_name(p, root, end);
    Some((start, end))
}

/// The parent directory of `path`: see `parent_of`.
pub fn parent(path: &str) -> (r: Option<String>)
    ensures
        r is Some <==> parent_of(path@) is Some,
        r matches Some(s) ==> parent_of(path@) == Some(s@),
{
    let p = chars_of(path);
    match parent_length(&p) {
        Some(n) => Some(string_of(&p, 0, n)),
        None => None,
    }
}

/// The last component of `path`: see `file_name_of`.
pub fn file_name(path: &str) -> (r: Option<String>)
    ensures
        r is Some <==> file_name_of(path@) is Some,
        r matches Some(s) ==> file_name_of(path@) == Some(s@),
{
    let p = chars_of(path);
    match name_bounds(&p) {
        Some((from, to)) => Some(string_of(&p, from, to)),
        None => None,
    }
}

} // verus!
