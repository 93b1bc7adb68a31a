//! The text of the configuration file: the serialized table gets a comment
//! line above each recognized key, describing what that key does.
use crate::sorting::views;
use crate::text::{starts_with_seq, str_eq, str_starts_with};
use vstd::prelude::*;

verus! {

pub const DIRS_COMMENT: &'static str = "# Directories to search for projects";

pub const OPEN_CMD_COMMENT: &'static str = "# command to run with selected path as arg";

pub const EDITOR_COMMENT: &'static str = "# editor to open config with";

pub const SORT_COMMENT: &'static str = "# sort projects alphabetically";

pub const EXCLUDE_COMMENT: &'static str = "# exclude directories that contain projects from automatic list";

pub const PATHS_COMMENT: &'static str = "# Paths to specific projects";

/// The line's first word, up to its first space, is `key` (which holds no space).
pub open spec fn first_word_is(line: Seq<char>, key: Seq<char>) -> bool {
    line == key || starts_with_seq(line, key.push(' '))
}

/// The comment that goes above `line`, when its first word is a recognized key.
pub open spec fn comment_for(line: Seq<char>) -> Option<Seq<char>> {
    if first_word_is(line, "open_cmd"@) {
        Some(OPEN_CMD_COMMENT@)
    } else if first_word_is(line, "sort"@) {
        Some(SORT_COMMENT@)
    } else if first_word_is(line, "exclude_proj_dirs"@) {
        Some(EXCLUDE_COMMENT@)
    } else if first_word_is(line, "[paths]"@) {
        Some(PATHS_COMMENT@)
    } else if first_word_is(line, "dirs"@) {
        Some(DIRS_COMMENT@)
    } else if first_word_is(line, "editor"@) {
        Some(EDITOR_COMMENT@)
    } else {
        None
    }
}

/// The lines with each key's comment inserted just above it.
pub open spec fn annotated(lines: Seq<Seq<char>>) -> Seq<Seq<char>>
    decreases lines.len(),
{
    if lines.len() == 0 {
        Seq::empty()
    } else {
        annotated(lines.drop_last()) + match comment_for(lines.last()) {
            Some(c) => seq![c, lines.last()],
            None => seq![lines.last()],
        }
    }
}

fn first_word_matches(line: &str, key: &str, key_space: &str) -> (r: bool)
    requires
        key_space@ == key@.push(' '),
    ensures
        r == first_word_is(line@, key@),
{
    str_eq(line, key) || str_starts_with(line, key_space)
}

/// The comment for `line`, if its first word is a recognized key.
pub fn comment_line(line: &str) -> (r: Option<String>)
    ensures
        r is Some == comment_for(line@) is Some,
        r matches Some(c) ==> c@ == comment_for(line@)->0,
{
    proof {
        reveal_strlit("open_cmd");
        reveal_strlit("open_cmd ");
        reveal_strlit("sort");
        reveal_strlit("sort ");
        reveal_strlit("exclude_proj_dirs");
        reveal_strlit("exclude_proj_dirs ");
        reveal_strlit("[paths]");
        reveal_strlit("[paths] ");
        reveal_strlit("dirs");
        reveal_strlit("dirs ");
        reveal_strlit("editor");
        reveal_strlit("editor ");
        assert("open_cmd "@ =~= "open_cmd"@.push(' '));
        assert("sort "@ =~= "sort"@.push(' '));
        assert("exclude_proj_dirs "@ =~= "exclude_proj_dirs"@.push(' '));
        assert("[paths] "@ =~= "[paths]"@.push(' '));
        assert("dirs "@ =~= "dirs"@.push(' '));
        assert("editor "@ =~= "editor"@.push(' '));
    }
    if first_word_matches(line, "open_cmd", "open_cmd ") {
        Some(OPEN_CMD_COMMENT.to_owned())
    } else if first_word_matches(line, "sort", "sort ") {
        Some(SORT_COMMENT.to_owned())
    } else if first_word_matches(line, "exclude_proj_dirs", "exclude_proj_dirs ") {
        Some(EXCLUDE_COMMENT.to_owned())
    } else if first_word_matches(line, "[paths]", "[paths] ") {
        Some(PATHS_COMMENT.to_owned())
    } else if first_word_matches(line, "dirs", "dirs ") {
        Some(DIRS_COMMENT.to_owned())
    } else if first_word_matches(line, "editor", "editor ") {
        Some(EDITOR_COMMENT.to_owned())
    } else {
        None
    }
}

/// Inserts above each line whose first word is a recognized key the comment
/// describing that key.
pub fn annotate_lines(lines: &Vec<String>) -> (r: Vec<String>)
    ensures
        views(r@) == annotated(views(lines@)),
{
    let mut out: Vec<String> = Vec::new();
    let n = lines.len();
    for i in 0..n
        invariant
            n == lines@.len(),
            views(out@) == annotated(views(lines@.take(i as int))),
    {
        let ghost before = out@;
        assert(views(lines@.take(i + 1)).drop_last() =~= views(lines@.take(i as int)));
        assert(views(lines@.take(i + 1)).last() == lines@[i as int]@);
        match comment_line(lines[i].as_str()) {
            Some(c) => {
                out.push(c);
            },
            None => {},
        }
        out.push(lines[i].clone());
        assert(views(out@) =~= annotated(views(lines@.take(i + 1))));
    }
    assert(lines@.take(n as int) =~= lines@);
    out
}

} // verus!
