use indexmap::IndexMap;
use wspick::registry::Projects;
use wspick::scan::DirEntryInfo;
use wspick::select::{
    build_menu, page_size, recovery_action, resolve_choice, should_print, start_action, Choice, Recovery, Start,
};

fn config(paths: &[(&str, &str)], dirs: &[&str]) -> Projects {
    let mut map = IndexMap::new();
    for (k, v) in paths {
        map.insert(k.to_string(), v.to_string());
    }
    Projects {
        dirs: Some(dirs.iter().map(|d| d.to_string()).collect()),
        open_cmd: "code".to_string(),
        editor: String::new(),
        sort: Some(true),
        exclude_proj_dirs: Some(false),
        paths: map,
    }
}

fn dir(name: &str, base: &str) -> DirEntryInfo {
    DirEntryInfo { name: name.to_string(), path: Some(format!("{base}/{name}")), is_dir: true }
}

#[test]
fn menu_lists_names_then_actions() {
    let c = config(&[("web", "/w"), ("api", "/a")], &["/s"]);
    let listings = vec![Some(vec![dir("lib", "/s")])];
    let (options, candidates) = build_menu(&c, &listings);
    assert_eq!(options, vec!["api", "lib", "web", "[new project]", "[new dir]", "[edit]"]);
    assert_eq!(candidates.get("lib").unwrap(), "/s/lib");
}

#[test]
fn menu_without_search_directories_keeps_registry_order() {
    let mut c = config(&[("web", "/w"), ("api", "/a")], &[]);
    c.dirs = None;
    let (options, candidates) = build_menu(&c, &vec![]);
    assert_eq!(options, vec!["web", "api", "[new project]", "[new dir]", "[edit]"]);
    assert!(candidates.is_empty());
}

#[test]
fn registry_name_wins_over_candidate() {
    let c = config(&[("app", "/explicit/app")], &[]);
    let mut cands = IndexMap::new();
    cands.insert("app".to_string(), "/scanned/app".to_string());
    cands.insert("tool".to_string(), "/scanned/tool".to_string());
    let r = resolve_choice(&c, &cands, Some("app".to_string()));
    assert_eq!(r, Choice::Open("/explicit/app".to_string()));
    let r = resolve_choice(&c, &cands, Some("tool".to_string()));
    assert_eq!(r, Choice::Open("/scanned/tool".to_string()));
}

#[test]
fn actions_resolve_to_their_states() {
    let c = config(&[], &[]);
    let cands = IndexMap::new();
    assert_eq!(resolve_choice(&c, &cands, Some("[new project]".to_string())), Choice::NewProject);
    assert_eq!(resolve_choice(&c, &cands, Some("[new dir]".to_string())), Choice::NewDir);
    assert_eq!(resolve_choice(&c, &cands, Some("[edit]".to_string())), Choice::Edit);
    assert_eq!(resolve_choice(&c, &cands, Some("nothing".to_string())), Choice::Unknown);
}

#[test]
fn dismissed_menu_is_cancelled() {
    let c = config(&[("app", "/a")], &[]);
    let cands = IndexMap::new();
    assert_eq!(resolve_choice(&c, &cands, None), Choice::Cancelled);
}

#[test]
fn argument_path_bypasses_menu() {
    assert_eq!(start_action(Some("/tmp/foo".to_string())), Start::Open("/tmp/foo".to_string()));
    assert_eq!(start_action(Some("new".to_string())), Start::NewProject);
    assert_eq!(start_action(Some("edit".to_string())), Start::Edit);
    assert_eq!(start_action(Some("newer".to_string())), Start::Open("newer".to_string()));
    assert_eq!(start_action(None), Start::Menu);
}

#[test]
fn print_flag_overrides_open_command() {
    assert!(should_print("code", true));
    assert!(!should_print("code", false));
    assert!(should_print("", false));
    assert!(should_print("", true));
}

#[test]
fn recovery_answers() {
    assert_eq!(recovery_action("edit"), Recovery::Edit);
    assert_eq!(recovery_action("generate new"), Recovery::Regenerate);
    assert_eq!(recovery_action("exit"), Recovery::Exit);
    assert_eq!(recovery_action("quit"), Recovery::AskAgain);
}

#[test]
fn page_size_leaves_room_for_prompt() {
    assert_eq!(page_size(Some(40)), 37);
    assert_eq!(page_size(Some(4)), 1);
    assert_eq!(page_size(Some(2)), 1);
    assert_eq!(page_size(None), 10);
}
