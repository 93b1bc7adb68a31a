use indexmap::IndexMap;
use wspick::registry::Projects;

fn registry(sort: Option<bool>, pairs: &[(&str, &str)]) -> Projects {
    let mut paths = IndexMap::new();
    for (k, v) in pairs {
        paths.insert(k.to_string(), v.to_string());
    }
    Projects {
        dirs: Some(vec![]),
        open_cmd: String::new(),
        editor: "vi".to_string(),
        sort,
        exclude_proj_dirs: Some(false),
        paths,
    }
}

fn pairs(p: &Projects) -> Vec<(String, String)> {
    p.paths.iter().map(|(k, v)| (k.clone(), v.clone())).collect()
}

#[test]
fn new_registry_has_defaults() {
    let p = Projects::new("nano".to_string());
    assert!(p.paths.is_empty());
    assert_eq!(p.dirs, Some(vec![]));
    assert_eq!(p.open_cmd, "");
    assert_eq!(p.editor, "nano");
    assert_eq!(p.sort, Some(true));
    assert_eq!(p.exclude_proj_dirs, Some(false));
}

#[test]
fn names_follow_map_order() {
    let p = registry(Some(false), &[("zeta", "/z"), ("alpha", "/a")]);
    assert_eq!(p.names(), vec!["zeta".to_string(), "alpha".to_string()]);
}

#[test]
fn sort_orders_by_name() {
    let mut p = registry(Some(true), &[("b", "/b"), ("c", "/c"), ("a", "/a"), ("B", "/B")]);
    p.sort_config();
    assert_eq!(p.names(), vec!["B", "a", "b", "c"]);
    assert_eq!(p.paths.get("a").unwrap(), "/a");
    assert_eq!(p.paths.get("B").unwrap(), "/B");
}

#[test]
fn sort_off_keeps_insertion_order() {
    let mut p = registry(Some(false), &[("b", "/b"), ("a", "/a")]);
    p.sort_config();
    assert_eq!(p.names(), vec!["b", "a"]);
    let mut q = registry(None, &[("b", "/b"), ("a", "/a")]);
    q.sort_config();
    assert_eq!(q.names(), vec!["b", "a"]);
}

#[test]
fn sorting_twice_equals_sorting_once() {
    let mut p = registry(Some(true), &[("web", "/w"), ("api", "/a"), ("cli", "/c"), ("Docs", "/d")]);
    p.sort_config();
    let once = pairs(&p);
    p.sort_config();
    assert_eq!(pairs(&p), once);
    assert_eq!(p.names(), vec!["Docs", "api", "cli", "web"]);
}

#[test]
fn sort_handles_prefixes_and_unicode() {
    let mut p = registry(Some(true), &[("abc", "1"), ("ab", "2"), ("é", "3"), ("z", "4"), ("", "5")]);
    p.sort_config();
    assert_eq!(p.names(), vec!["", "ab", "abc", "z", "é"]);
}

#[test]
fn adding_existing_name_overwrites_path() {
    let mut p = registry(Some(false), &[("app", "/old"), ("lib", "/lib")]);
    p.add_project("app".to_string(), "/new".to_string());
    assert_eq!(p.paths.len(), 2);
    assert_eq!(p.names(), vec!["app", "lib"]);
    assert_eq!(p.paths.get("app").unwrap(), "/new");
}

#[test]
fn adding_new_name_keeps_sorted() {
    let mut p = registry(Some(true), &[("b", "/b"), ("d", "/d")]);
    p.add_project("c".to_string(), "/c".to_string());
    assert_eq!(p.names(), vec!["b", "c", "d"]);
    let mut q = registry(Some(false), &[("b", "/b"), ("d", "/d")]);
    q.add_project("c".to_string(), "/c".to_string());
    assert_eq!(q.names(), vec!["b", "d", "c"]);
}

#[test]
fn update_fills_missing_fields_and_sorts() {
    let mut p = registry(None, &[("b", "/b"), ("a", "/a")]);
    p.dirs = None;
    p.exclude_proj_dirs = None;
    assert!(p.update_config());
    assert_eq!(p.sort, Some(true));
    assert_eq!(p.dirs, Some(vec![]));
    assert_eq!(p.exclude_proj_dirs, Some(false));
    assert_eq!(p.names(), vec!["a", "b"]);
    assert!(!p.update_config());
}

#[test]
fn update_keeps_present_settings() {
    let mut p = registry(Some(false), &[("b", "/b"), ("a", "/a")]);
    p.dirs = None;
    assert!(p.update_config());
    assert_eq!(p.sort, Some(false));
    assert_eq!(p.names(), vec!["b", "a"]);
}

#[test]
fn update_of_complete_registry_changes_nothing() {
    let mut p = registry(Some(false), &[("b", "/b"), ("a", "/a")]);
    p.dirs = Some(vec!["/src".to_string()]);
    p.exclude_proj_dirs = Some(true);
    let before = pairs(&p);
    assert!(!p.update_config());
    assert_eq!(pairs(&p), before);
    assert_eq!(p.dirs, Some(vec!["/src".to_string()]));
    assert_eq!(p.sort, Some(false));
    assert_eq!(p.exclude_proj_dirs, Some(true));
    assert!(!p.update_config());
}

#[test]
fn add_dir_appends() {
    let mut p = registry(Some(true), &[("b", "/b"), ("a", "/a")]);
    p.dirs = None;
    p.add_dir("/work".to_string());
    assert_eq!(p.dirs, Some(vec!["/work".to_string()]));
    p.add_dir("/other".to_string());
    assert_eq!(p.dirs, Some(vec!["/work".to_string(), "/other".to_string()]));
    assert_eq!(p.names(), vec!["a", "b"]);
}
