//! Paths as text: the parent of a path and its last part.

use vstd::prelude::*;
use vstd::string::*;

verus! {

use crate::text::optional_text;

/// What separates the parts of a path on a machine.
pub enum Separators {
    /// `/`, as on Unix.
    Slash,
    /// `/` and the backslash, as on Windows, where a letter and a colon at the beginning are a
    /// drive.
    SlashAndBackslash,
}

impl Separators {
    /// Whether a character separates parts.
    pub open spec fn separate(self, c: char) -> bool {
        c == '/' || (self is SlashAndBackslash && c == '\\')
    }

    /// Whether the text from `from` to `to` is made of separators and of parts `.` behind them,
    /// which say nothing.
    pub open spec fn fill(self, path: Seq<char>, from: int, to: int) -> bool {
        &&& from < to ==> self.separate(path[from])
        &&& forall|i: int|
            from <= i < to ==> self.separate(#[trigger] path[i]) || (path[i] == '.' && from < i
                && self.separate(path[i - 1]) && (i + 1 == to || self.separate(path[i + 1])))
    }

    /// Whether a path begins with a drive.
    pub open spec fn drive(self, path: Seq<char>) -> bool {
        &&& self is SlashAndBackslash
        &&& path.len() >= 2
        &&& path[1] == ':'
        &&& 'a' <= path[0] <= 'z' || 'A' <= path[0] <= 'Z'
    }

    /// Whether a path begins as that of a network share does.
    pub open spec fn share(self, path: Seq<char>) -> bool {
        &&& self is SlashAndBackslash
        &&& path.len() >= 2
        &&& self.separate(path[0])
        &&& self.separate(path[1])
    }

    /// Whether the text before `end` is a directory that ends in one of its parts.
    pub open spec fn ends_in_part(self, path: Seq<char>, end: int) -> bool {
        &&& 0 < end
        &&& !self.separate(path[end - 1])
        &&& !(path[end - 1] == '.' && (end == 1 || self.separate(path[end - 2])))
        &&& self is SlashAndBackslash ==> path[end - 1] != ':'
    }

    /// Whether the last part of a path stands from `start` to `end`, behind the directory that
    /// stands before `dir`: behind another part, behind the root, behind `.` at the beginning,
    /// behind the root of a drive, or alone.
    pub open spec fn divide(self, path: Seq<char>, dir: int, start: int, end: int) -> bool {
        &&& 0 <= dir <= start < end <= path.len()
        &&& forall|i: int| start <= i < end ==> !self.separate(#[trigger] path[i])
        &&& !(end == start + 1 && path[start] == '.')
        &&& self.fill(path, end, path.len() as int)
        &&& !self.share(path)
        &&& 0 < start ==> self.separate(path[start - 1])
        &&& {
            ||| dir < start && self.ends_in_part(path, dir) && self.fill(path, dir, start)
            ||| dir == 1 && self.separate(path[0]) && self.fill(path, 0, start)
            ||| dir == 1 && dir < start && path[0] == '.' && self.fill(path, 1, start)
            ||| dir == 3 && self.drive(path) && self.fill(path, 2, start)
            ||| start == 0 && (self is SlashAndBackslash ==> !path.take(end).contains(':'))
        }
    }

    /// Whether a path is nothing but a root.
    pub open spec fn root(self, path: Seq<char>) -> bool {
        &&& !self.share(path)
        &&& {
            ||| 0 < path.len() && self.fill(path, 0, path.len() as int)
            ||| 2 < path.len() && self.drive(path) && self.fill(path, 2, path.len() as int)
        }
    }

    /// Whether a path is nothing but `.`.
    pub open spec fn here(self, path: Seq<char>) -> bool {
        0 < path.len() && path[0] == '.' && self.fill(path, 1, path.len() as int)
    }
}

/// Whether `parent` is the parent of a path: the directory before its last part, without the
/// separators between them; none for a root and for an empty path. Of a network share, and of what
/// has a drive but no root, nothing is said but that a parent is a shorter beginning of the path.
pub open spec fn parent_by(
    separators: Separators,
    path: Seq<char>,
    parent: Option<Seq<char>>,
) -> bool {
    &&& forall|dir: int, start: int, end: int| #[trigger]
        separators.divide(path, dir, start, end) ==> parent == Some(path.take(dir))
    &&& path.len() == 0 || separators.root(path) ==> parent is None
    &&& separators.here(path) ==> parent == Some(Seq::<char>::empty())
    &&& parent matches Some(p) ==> p.is_prefix_of(path) && p.len() < path.len()
}

/// Whether `name` is the last part of a path; a root, an empty path, and a path that ends in `..`
/// or is nothing but `.` have none.
pub open spec fn file_name_by(
    separators: Separators,
    path: Seq<char>,
    name: Option<Seq<char>>,
) -> bool {
    &&& forall|dir: int, start: int, end: int| #[trigger]
        separators.divide(path, dir, start, end) ==> name == if path.subrange(start, end) == seq![
            '.',
            '.',
        ] {
            None
        } else {
            Some(path.subrange(start, end))
        }
    &&& path.len() == 0 || separators.root(path) || separators.here(path) ==> name is None
}

/// The parent of a path, as `std::path::Path::parent` finds it: the path without its last part, by
/// the separators of the machine that the program runs on, which are those of Unix or those of
/// Windows. As `std::path::Path::components` says, separators that are repeated or stand at the end
/// count for nothing, and so do parts `.` that do not stand at the beginning.
#[verifier::external_body]
pub(crate) fn parent_path(path: &str) -> (parent: Option<String>)
    ensures
        exists|separators: Separators| #[trigger]
            parent_by(separators, path@, optional_text(parent)),
{
    std::path::Path::new(path).parent().map(|p| p.to_string_lossy().to_string())
}

/// The last part of a path, as `std::path::Path::file_name` finds it, by the separators of the
/// machine that the program runs on, as for [`parent_path`].
#[verifier::external_body]
pub(crate) fn path_file_name(path: &str) -> (name: Option<String>)
    ensures
        exists|separators: Separators| #[trigger]
            file_name_by(separators, path@, optional_text(name)),
{
    std::path::Path::new(path).file_name().map(|name| name.to_string_lossy().to_string())
}

/// Whether a character separates the parts of a path on some machine.
pub open spec fn separator(c: char) -> bool {
    c == '/' || c == '\\'
}

/// Whether a text is one part of a path on every machine.
pub open spec fn plain_name(name: Seq<char>) -> bool {
    &&& name.len() > 0
    &&& name != seq!['.']
    &&& forall|i: int| 0 <= i < name.len() ==> !separator(#[trigger] name[i])
}

/// Whether a text is a path that ends in one of its parts on every machine: not in a separator, a
/// drive or a part `.`, and not begun as a network path is.
pub open spec fn plain_dir(dir: Seq<char>) -> bool {
    &&& dir.len() > 0
    &&& !separator(dir.last())
    &&& dir.last() != ':'
    &&& !(dir.last() == '.' && (dir.len() == 1 || separator(dir[dir.len() - 2])))
    &&& !(dir.len() > 1 && separator(dir[0]) && separator(dir[1]))
}

/// Whether `path` is the entry `name` of the directory `dir`, with one `/` between them and read
/// alike on every machine: a part behind another path, behind the root `/`, or alone.
pub open spec fn plainly_in(path: Seq<char>, dir: Seq<char>, name: Seq<char>) -> bool {
    &&& plain_name(name)
    &&& {
        ||| plain_dir(dir) && path == dir + seq!['/'] + name
        ||| dir == seq!['/'] && path == dir + name
        ||| dir.len() == 0 && path == name && !name.contains(':')
    }
}

/// A path that is plainly an entry of a directory is divided there, by the separators of every
/// machine.
pub proof fn law_plainly_divided(
    separators: Separators,
    path: Seq<char>,
    dir: Seq<char>,
    name: Seq<char>,
)
    requires
        plainly_in(path, dir, name),
    ensures
        separators.divide(
            path,
            dir.len() as int,
            path.len() - name.len(),
            path.len() as int,
        ),
        path.take(dir.len() as int) == dir,
        path.subrange(path.len() - name.len(), path.len() as int) == name,
{
    let start = path.len() - name.len();
    let end = path.len() as int;
    assert(path.take(dir.len() as int) =~= dir);
    assert(path.subrange(start, end) =~= name);
    assert forall|i: int| start <= i < end implies !separators.separate(#[trigger] path[i]) by {
        assert(path[i] == name[i - start]);
        assert(!separator(name[i - start]));
    }
    if end == start + 1 && path[start] == '.' {
        assert(name =~= seq!['.']);
    }
    if start == 0 {
        assert(path.take(end) =~= name);
    }
    if dir.len() > 0 && dir != seq!['/'] {
        assert(path[dir.len() - 1] == dir.last());
        assert(dir.len() > 1 ==> path[dir.len() - 2] == dir[dir.len() - 2]);
        assert(dir.len() > 1 ==> path[0] == dir[0] && path[1] == dir[1]);
        assert(path[dir.len() as int] == '/');
    }
    if plain_dir(dir) && dir.len() == 1 {
        assert(path[0] == dir.last());
    }
    if dir == seq!['/'] && path == dir + name {
        assert(path[1] == name[0]);
        assert(!separator(name[0]));
    }
    if dir.len() == 0 {
        assert(!separator(name[0]));
    }
}

proof fn lemma_name_end(separators: Separators, path: Seq<char>, start: int, end: int, from: int)
    requires
        0 <= from < end <= path.len(),
        0 <= start < end,
        separators.fill(path, from, path.len() as int),
        forall|i: int| start <= i < end ==> !separators.separate(#[trigger] path[i]),
        0 < start ==> separators.separate(path[start - 1]),
    ensures
        end == start + 1 && path[start] == '.',
{
    assert(!separators.separate(path[end - 1]));
    assert(path[end - 1] == '.');
    assert(separators.separate(path[end - 2]));
}

/// A path is divided in one way at most, and one that is divided is neither a root nor empty nor
/// nothing but `.`: what is said of parents and last parts does not contradict itself.
pub proof fn law_divided_once(
    separators: Separators,
    path: Seq<char>,
    dir: int,
    start: int,
    end: int,
    other_dir: int,
    other_start: int,
    other_end: int,
)
    requires
        separators.divide(path, dir, start, end),
        separators.divide(path, other_dir, other_start, other_end),
    ensures
        end == other_end,
        start == other_start,
        dir == other_dir,
        !separators.root(path),
        !separators.here(path),
        path.take(dir).is_prefix_of(path),
        dir < path.len(),
{
    if end < other_end {
        lemma_name_end(separators, path, other_start, other_end, end);
    }
    if other_end < end {
        lemma_name_end(separators, path, start, end, other_end);
    }
    if start < other_start {
        assert(separators.separate(path[other_start - 1]));
    }
    if other_start < start {
        assert(separators.separate(path[start - 1]));
    }
    lemma_dir(separators, path, dir, other_dir, start, end);
    lemma_dir(separators, path, other_dir, dir, start, end);
    if separators.root(path) {
        assert(!separators.separate(path[end - 1]));
        if separators.fill(path, 0, path.len() as int) {
            lemma_name_end(separators, path, start, end, 0);
        } else if end > 2 {
            lemma_name_end(separators, path, start, end, 2);
        } else {
            assert(!separators.separate(path[0]));
            assert(start == 0);
            assert(end == 2 ==> path.take(end)[1] == ':');
            assert(path[1] == ':');
        }
    }
    if separators.here(path) {
        if end > 1 {
            lemma_name_end(separators, path, start, end, 1);
        }
    }
}

proof fn lemma_dir(
    separators: Separators,
    path: Seq<char>,
    dir: int,
    other: int,
    start: int,
    end: int,
)
    requires
        separators.divide(path, dir, start, end),
        separators.divide(path, other, start, end),
    ensures
        dir >= other,
{
    if dir < other {
        if start == 0 {
            assert(other == 0);
        }
        assert(separators.separate(path[start - 1]));
        if other < start && separators.ends_in_part(path, other) && separators.fill(
            path,
            other,
            start,
        ) {
            assert(!separators.separate(path[other - 1]));
            if separators.ends_in_part(path, dir) && separators.fill(path, dir, start) {
                assert(path[other - 1] == '.');
            } else if separators.separate(path[0]) && separators.fill(path, 0, start) {
                assert(path[other - 1] == '.');
            } else if path[0] == '.' && separators.fill(path, 1, start) {
                assert(path[other - 1] == '.');
            } else {
                assert(path[other - 1] == '.');
            }
            assert(false);
        } else if other == 3 && separators.drive(path) && separators.fill(path, 2, start) {
            assert(separators.separate(path[2]));
            assert(!separators.separate(path[0]));
            assert(path[1] == ':');
            assert(!separators.separate(path[1]));
            assert(dir == 1 || dir == 2);
            if dir == 1 {
                assert(separators.fill(path, 1, start));
                assert(separators.separate(path[1]));
            }
            assert(false);
        } else {
            assert(other == 1);
            assert(dir == 0);
            assert(false);
        }
    }
}

/// What `parent_by` says is fixed for a path that is plainly an entry of a directory.
pub proof fn law_plain_parent(
    separators: Separators,
    path: Seq<char>,
    parent: Option<Seq<char>>,
    dir: Seq<char>,
    name: Seq<char>,
)
    requires
        plainly_in(path, dir, name),
        parent_by(separators, path, parent),
    ensures
        parent == Some(dir),
{
    law_plainly_divided(separators, path, dir, name);
}

/// What `file_name_by` says is fixed for a path that is plainly an entry of a directory.
pub proof fn law_plain_file_name(
    separators: Separators,
    path: Seq<char>,
    file_name: Option<Seq<char>>,
    dir: Seq<char>,
    name: Seq<char>,
)
    requires
        plainly_in(path, dir, name),
        file_name_by(separators, path, file_name),
    ensures
        file_name == if name == seq!['.', '.'] {
            None
        } else {
            Some(name)
        },
{
    law_plainly_divided(separators, path, dir, name);
}

proof fn lemma_strip(path: Seq<char>, to: int) -> (from: int)
    requires
        0 <= to <= path.len(),
    ensures
        0 <= from <= to,
        Separators::Slash.fill(path, from, to),
        0 < from ==> path[from - 1] != '/',
        1 < from ==> !(path[from - 1] == '.' && path[from - 2] == '/'),
    decreases to,
{
    if to == 0 {
        0
    } else if path[to - 1] == '/' {
        let from = lemma_strip(path, to - 1);
        assert forall|i: int| from <= i < to implies Separators::Slash.separate(#[trigger] path[i])
            || (path[i] == '.' && from < i && Separators::Slash.separate(path[i - 1]) && (i + 1 == to
            || Separators::Slash.separate(path[i + 1]))) by {}
        from
    } else if path[to - 1] == '.' && to > 1 && path[to - 2] == '/' {
        let from = lemma_strip(path, to - 1);
        assert forall|i: int| from <= i < to implies Separators::Slash.separate(#[trigger] path[i])
            || (path[i] == '.' && from < i && Separators::Slash.separate(path[i - 1]) && (i + 1 == to
            || Separators::Slash.separate(path[i + 1]))) by {}
        from
    } else {
        to
    }
}

proof fn lemma_part_start(path: Seq<char>, end: int) -> (start: int)
    requires
        0 <= end <= path.len(),
    ensures
        0 <= start <= end,
        forall|i: int| start <= i < end ==> #[trigger] path[i] != '/',
        0 < start ==> path[start - 1] == '/',
    decreases end,
{
    if end == 0 || path[end - 1] == '/' {
        end
    } else {
        lemma_part_start(path, end - 1)
    }
}

/// Where only `/` separates the parts of a path, every path is divided, unless it is empty, a root
/// or nothing but `.`: there the parent and the last part of every path are fixed.
pub proof fn law_slash_paths(path: Seq<char>)
    ensures
        ({
            ||| path.len() == 0
            ||| Separators::Slash.root(path)
            ||| Separators::Slash.here(path)
            ||| exists|dir: int, start: int, end: int| #[trigger]
                Separators::Slash.divide(path, dir, start, end)
        }),
{
    let separators = Separators::Slash;
    let end = lemma_strip(path, path.len() as int);
    if end > 0 && !(end == 1 && path[0] == '.') {
        let start = lemma_part_start(path, end);
        assert(path[end - 1] != '/');
        if end == start + 1 && path[start] == '.' {
            assert(path[end - 2] == '/');
        }
        let dir = lemma_strip(path, start);
        if start == 0 {
            assert(separators.divide(path, 0, start, end));
        } else if dir == 0 {
            assert(separators.divide(path, 1, start, end));
        } else {
            assert(path[start - 1] == '/');
            assert(dir < start);
            assert(separators.divide(path, dir, start, end));
        }
    }
}

/// Every path has a parent, or none, by the separators of every machine, and likewise a last part.
pub proof fn law_parents_exist(separators: Separators, path: Seq<char>)
    ensures
        exists|parent: Option<Seq<char>>| #[trigger] parent_by(separators, path, parent),
        exists|name: Option<Seq<char>>| #[trigger] file_name_by(separators, path, name),
{
    if exists|dir: int, start: int, end: int| #[trigger]
        separators.divide(path, dir, start, end) {
        let (dir, start, end) = choose|dir: int, start: int, end: int| #[trigger]
            separators.divide(path, dir, start, end);
        law_divided_once(separators, path, dir, start, end, dir, start, end);
        assert forall|d: int, s: int, e: int| #[trigger]
            separators.divide(path, d, s, e) implies d == dir && s == start && e == end by {
            law_divided_once(separators, path, d, s, e, dir, start, end);
        }
        let part = path.subrange(start, end);
        assert(parent_by(separators, path, Some(path.take(dir))));
        assert(file_name_by(
            separators,
            path,
            if part == seq!['.', '.'] {
                None
            } else {
                Some(part)
            },
        ));
    } else {
        let parent = if separators.here(path) {
            Some(Seq::<char>::empty())
        } else {
            None
        };
        if separators.here(path) {
            assert(!separators.separate(path[0]));
        }
        assert(parent_by(separators, path, parent));
        assert(file_name_by(separators, path, None));
    }
}

} // verus!
