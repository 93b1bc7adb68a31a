//! The decisions of the selection menu: which options it offers, what a
//! choice resolves to, how a command-line argument starts the run, and how the
//! final path is handed on.
use crate::paths_map::{entries_of, has_key, keys_of, map_get, value_of, Entry};
use crate::registry::Projects;
use crate::scan::{add_options_from_dirs, all_candidates, fill, DirEntryInfo};
use crate::sorting::{sort_seq, views};
use crate::text::str_eq;
use indexmap::IndexMap;
use vstd::prelude::*;

verus! {

/// The menu option that creates a project.
pub const NEW_PROJECT: &'static str = "[new project]";

/// The menu option that adds a search directory.
pub const NEW_DIR: &'static str = "[new dir]";

/// The menu option that opens the configuration in the editor.
pub const EDIT: &'static str = "[edit]";

/// What a menu choice leads to.
#[derive(Debug, PartialEq, Eq)]
pub enum Choice {
    /// Open this path.
    Open(String),
    /// Create a project.
    NewProject,
    /// Add a search directory.
    NewDir,
    /// Edit the configuration.
    Edit,
    /// The menu was dismissed without a choice.
    Cancelled,
    /// A string the menu never offered.
    Unknown,
}

/// How a run begins, after its first positional argument.
#[derive(Debug, PartialEq, Eq)]
pub enum Start {
    /// No argument: show the menu.
    Menu,
    /// `new`: create a project.
    NewProject,
    /// `edit`: edit the configuration, then stop.
    Edit,
    /// Anything else: a path, opened without any menu.
    Open(String),
}

/// What the user picks when the configuration cannot be parsed.
#[derive(Debug, Clone, Copy, PartialEq, Eq)]
pub enum Recovery {
    /// Open the broken file in the editor and parse it again.
    Edit,
    /// Overwrite it with a fresh configuration.
    Regenerate,
    /// Stop with a failure status.
    Exit,
    /// Not one of the offered answers: ask again.
    AskAgain,
}

/// The three action options, in the order the menu shows them last.
pub open spec fn sentinels() -> Seq<Seq<char>> {
    seq![NEW_PROJECT@, NEW_DIR@, EDIT@]
}

/// `r` is what choosing `s` leads to: a registry name first, then an action,
/// then a scanned candidate.
pub open spec fn resolves(r: Choice, reg: Seq<Entry>, cands: Seq<Entry>, s: Seq<char>) -> bool {
    if has_key(reg, s) {
        r matches Choice::Open(p) && p@ == value_of(reg, s)
    } else if s == NEW_PROJECT@ {
        r is NewProject
    } else if s == NEW_DIR@ {
        r is NewDir
    } else if s == EDIT@ {
        r is Edit
    } else if has_key(cands, s) {
        r matches Choice::Open(p) && p@ == value_of(cands, s)
    } else {
        r is Unknown
    }
}

/// The options of the menu: the registry's names and the scanned candidates'
/// names, sorted together, then the three actions. Returns them with the
/// candidates' map from name to path.
pub fn build_menu(config: &Projects, listings: &Vec<Option<Vec<DirEntryInfo>>>) -> (r: (
    Vec<String>,
    IndexMap<String, String>,
))
    ensures
        config.dirs is Some ==> views(r.0@) == sort_seq(
            keys_of(entries_of(config.paths)) + keys_of(all_candidates(*config, listings@)),
        ) + sentinels(),
        config.dirs is Some ==> entries_of(r.1) == fill(
            Seq::empty(),
            all_candidates(*config, listings@),
        ),
        config.dirs is None ==> views(r.0@) == keys_of(entries_of(config.paths)) + sentinels(),
        config.dirs is None ==> entries_of(r.1).len() == 0,
{
    let mut options = config.names();
    let candidates = add_options_from_dirs(config, listings, &mut options);
    let ghost mid = options@;
    options.push(NEW_PROJECT.to_owned());
    options.push(NEW_DIR.to_owned());
    options.push(EDIT.to_owned());
    assert(views(options@) =~= views(mid) + sentinels());
    (options, candidates)
}

/// What the chosen option leads to; `None` is a dismissed menu.
pub fn resolve_choice(
    config: &Projects,
    candidates: &IndexMap<String, String>,
    selected: Option<String>,
) -> (r: Choice)
    ensures
        selected is None ==> r is Cancelled,
        selected matches Some(s) ==> resolves(r, entries_of(config.paths), entries_of(*candidates), s@),
{
    proof {
        reveal_strlit("[new project]");
        reveal_strlit("[new dir]");
        reveal_strlit("[edit]");
    }
    match selected {
        None => Choice::Cancelled,
        Some(s) => {
            if let Some(p) = map_get(&config.paths, s.as_str()) {
                Choice::Open(p)
            } else if str_eq(s.as_str(), NEW_PROJECT) {
                Choice::NewProject
            } else if str_eq(s.as_str(), NEW_DIR) {
                Choice::NewDir
            } else if str_eq(s.as_str(), EDIT) {
                Choice::Edit
            } else if let Some(p) = map_get(candidates, s.as_str()) {
                Choice::Open(p)
            } else {
                Choice::Unknown
            }
        },
    }
}

/// How the run begins: `new` creates a project, `edit` edits the
/// configuration, any other argument is a path to open at once, and without
/// one the menu is shown.
pub fn start_action(cmd_or_path: Option<String>) -> (r: Start)
    ensures
        cmd_or_path is None ==> r is Menu,
        cmd_or_path matches Some(c) ==> (c@ == "new"@ ==> r is NewProject),
        cmd_or_path matches Some(c) ==> (c@ == "edit"@ ==> r is Edit),
        cmd_or_path matches Some(c) ==> (c@ != "new"@ && c@ != "edit"@ ==> r == Start::Open(c)),
{
    proof {
        reveal_strlit("new");
        reveal_strlit("edit");
        assert("new"@.len() == 3 && "edit"@.len() == 4);
    }
    match cmd_or_path {
        None => Start::Menu,
        Some(c) => {
            if str_eq(c.as_str(), "new") {
                Start::NewProject
            } else if str_eq(c.as_str(), "edit") {
                Start::Edit
            } else {
                Start::Open(c)
            }
        },
    }
}

/// Whether the resolved path is printed rather than handed to the open
/// command: when printing is asked for, or when there is no command.
pub fn should_print(open_cmd: &str, print: bool) -> (r: bool)
    ensures
        r == (print || open_cmd@.len() == 0),
{
    print || open_cmd.is_empty()
}

/// The action picked in the recovery menu shown for an unreadable
/// configuration.
pub fn recovery_action(answer: &str) -> (r: Recovery)
    ensures
        answer@ == "edit"@ ==> r == Recovery::Edit,
        answer@ == "generate new"@ ==> r == Recovery::Regenerate,
        answer@ == "exit"@ ==> r == Recovery::Exit,
        answer@ != "edit"@ && answer@ != "generate new"@ && answer@ != "exit"@ ==> r
            == Recovery::AskAgain,
{
    proof {
        reveal_strlit("edit");
        reveal_strlit("generate new");
        reveal_strlit("exit");
        assert("edit"@.len() == 4 && "generate new"@.len() == 12 && "exit"@.len() == 4);
        assert("edit"@[1] == 'd' && "exit"@[1] == 'x');
    }
    if str_eq(answer, "edit") {
        Recovery::Edit
    } else if str_eq(answer, "generate new") {
        Recovery::Regenerate
    } else if str_eq(answer, "exit") {
        Recovery::Exit
    } else {
        Recovery::AskAgain
    }
}

/// Lines of the menu per page: three fewer than the terminal's rows, leaving
/// room for the prompt; one when the terminal is smaller than that, and ten
/// when its size is unknown.
pub fn page_size(rows: Option<u16>) -> (r: usize)
    ensures
        rows is None ==> r == 10,
        rows matches Some(n) ==> (n > 3 ==> r == n - 3),
        rows matches Some(n) ==> (n <= 3 ==> r == 1),
{
    match rows {
        None => 10,
        Some(n) => {
            if n > 3 {
                (n - 3) as usize
            } else {
                1
            }
        },
    }
}

} // verus!
