//! The status-merge adapter: a read-only index from repository-relative
//! path to version-control status, and the path-space translation that
//! lets the walker query it with canonicalized absolute paths.
//!
//! Status decoration is always best effort: a path outside the repository,
//! a missing canonical path, or a lookup miss all mean "no notable
//! status", never an error.

use vstd::prelude::*;

use crate::style::Color;

verus! {

/// One version-control status classification.
#[derive(Clone, Copy, Debug, PartialEq, Eq, Structural)]
pub enum FileStatus {
    New,
    Modified,
    Deleted,
    Renamed,
    Typechange,
    Conflicted,
    Untracked,
}

/// The one-character glyph of a status.
pub open spec fn spec_glyph(s: FileStatus) -> char {
    match s {
        FileStatus::New => 'N',
        FileStatus::Modified => 'M',
        FileStatus::Deleted => 'D',
        FileStatus::Renamed => 'R',
        FileStatus::Typechange => 'T',
        FileStatus::Conflicted => 'C',
        FileStatus::Untracked => '?',
    }
}

/// The color a status glyph is painted with.
pub open spec fn spec_status_color(s: FileStatus) -> Color {
    match s {
        FileStatus::New => Color::Green,
        FileStatus::Renamed => Color::Green,
        FileStatus::Modified => Color::Yellow,
        FileStatus::Typechange => Color::Yellow,
        FileStatus::Deleted => Color::Red,
        FileStatus::Conflicted => Color::LightRed,
        FileStatus::Untracked => Color::Magenta,
    }
}

impl FileStatus {
    /// The one-character glyph shown in the status column.
    pub fn glyph(&self) -> (c: char)
        ensures
            c == spec_glyph(*self),
    {
        match self {
            FileStatus::New => 'N',
            FileStatus::Modified => 'M',
            FileStatus::Deleted => 'D',
            FileStatus::Renamed => 'R',
            FileStatus::Typechange => 'T',
            FileStatus::Conflicted => 'C',
            FileStatus::Untracked => '?',
        }
    }

    /// The glyph's color: green for added or renamed entries, yellow for
    /// modified ones and type changes, red for deletions, light red for
    /// conflicts, magenta for untracked entries.
    pub fn color(&self) -> (c: Color)
        ensures
            c == spec_status_color(*self),
    {
        match self {
            FileStatus::New => Color::Green,
            FileStatus::Renamed => Color::Green,
            FileStatus::Modified => Color::Yellow,
            FileStatus::Typechange => Color::Yellow,
            FileStatus::Deleted => Color::Red,
            FileStatus::Conflicted => Color::LightRed,
            FileStatus::Untracked => Color::Magenta,
        }
    }
}

/// The first status recorded for `key`, scanning in insertion order.
pub open spec fn spec_find(s: Seq<(String, FileStatus)>, key: Seq<char>) -> Option<FileStatus>
    decreases s,
{
    if s.len() == 0 {
        None
    } else if s[0].0@ == key {
        Some(s[0].1)
    } else {
        spec_find(s.drop_first(), key)
    }
}

/// A read-only mapping from repository-relative path to status, built once
/// per walk from the external status source.
pub struct StatusIndex {
    pub entries: Vec<(String, FileStatus)>,
}

impl StatusIndex {
    /// An empty index.
    pub fn new() -> (r: StatusIndex)
        ensures
            r.entries@ == Seq::<(String, FileStatus)>::empty(),
    {
        StatusIndex { entries: Vec::new() }
    }

    /// Records the status of one repository-relative path.
    pub fn insert(&mut self, rel_path: String, status: FileStatus)
        ensures
            final(self).entries@ == old(self).entries@.push((rel_path, status)),
    {
        self.entries.push((rel_path, status));
    }

    /// Looks a repository-relative path up.
    pub fn get(&self, key: &str) -> (r: Option<FileStatus>)
        ensures
            r == spec_find(self.entries@, key@),
    {
        let n = self.entries.len();
        let mut i: usize = 0;
        proof {
            assert(self.entries@.skip(0) =~= self.entries@);
        }
        while i < n
            invariant
                n == self.entries@.len(),
                i <= n,
                spec_find(self.entries@, key@) == spec_find(self.entries@.skip(i as int), key@),
            decreases n - i,
        {
            proof {
                assert(self.entries@.skip(i as int)[0] == self.entries@[i as int]);
                assert(self.entries@.skip(i as int).drop_first() =~= self.entries@.skip(i + 1));
            }
            if crate::text::str_eq(self.entries[i].0.as_str(), key) {
                return Some(self.entries[i].1);
            }
            i = i + 1;
        }
        proof {
            assert(self.entries@.skip(n as int) =~= Seq::<(String, FileStatus)>::empty());
        }
        None
    }
}

/// The repository-relative form of `path` under `root`: the empty path for
/// the root itself, the remainder after `root/` for a path inside the
/// repository, nothing for a path outside it.
pub open spec fn spec_rel_path(root: Seq<char>, path: Seq<char>) -> Option<Seq<char>> {
    if path == root {
        Some(Seq::empty())
    } else if path.len() > root.len() && path.take(root.len() as int) == root && path[root.len() as int]
        == '/' {
        Some(path.skip(root.len() as int + 1))
    } else {
        None
    }
}

/// Strips the repository root off a canonicalized absolute path.
pub fn rel_path(root: &str, path: &str) -> (r: Option<String>)
    ensures
        r matches Some(s) ==> spec_rel_path(root@, path@) == Some(s@),
        r is None <==> spec_rel_path(root@, path@) is None,
{
    let rl = root.unicode_len();
    let pl = path.unicode_len();
    if pl < rl {
        return None;
    }
    let mut i: usize = 0;
    while i < rl
        invariant
            rl == root@.len(),
            pl == path@.len(),
            rl <= pl,
            i <= rl,
            forall|j: int| 0 <= j < i ==> path@[j] == root@[j],
        decreases rl - i,
    {
        if path.get_char(i) != root.get_char(i) {
            proof {
                assert(path@ != root@);
                assert(path@.take(rl as int)[i as int] != root@[i as int]);
                assert(path@.take(rl as int) != root@);
            }
            return None;
        }
        i = i + 1;
    }
    if pl == rl {
        proof {
            assert(path@ =~= root@);
        }
        return Some(String::new());
    }
    proof {
        assert(path@.take(rl as int) =~= root@);
    }
    if path.get_char(rl) == '/' {
        let rest = path.substring_char(rl + 1, pl);
        proof {
            assert(rest@ =~= path@.skip(rl + 1));
        }
        Some(String::from_str(rest))
    } else {
        None
    }
}

/// The status of a canonicalized absolute path: translate it to the
/// repository's path space, then query the index; any failure on the way
/// is "no notable status".
pub open spec fn spec_status_of(
    entries: Seq<(String, FileStatus)>,
    root: Seq<char>,
    path: Seq<char>,
) -> Option<FileStatus> {
    match spec_rel_path(root, path) {
        Some(rel) => spec_find(entries, rel),
        None => None,
    }
}

/// Looks the status of a canonicalized absolute path up, best effort.
pub fn status_of(index: &StatusIndex, root: &str, path: &str) -> (r: Option<FileStatus>)
    ensures
        r == spec_status_of(index.entries@, root@, path@),
{
    match rel_path(root, path) {
        Some(rel) => index.get(rel.as_str()),
        None => None,
    }
}

} // verus!
