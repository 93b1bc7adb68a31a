use wspick::config_text::{annotate_lines, comment_line};

fn lines(v: &[&str]) -> Vec<String> {
    v.iter().map(|s| s.to_string()).collect()
}

#[test]
fn keys_get_their_comments() {
    let doc = lines(&[
        "dirs = []",
        "open_cmd = \"code\"",
        "editor = \"vi\"",
        "sort = true",
        "exclude_proj_dirs = false",
        "",
        "[paths]",
        "app = \"/a\"",
    ]);
    let out = annotate_lines(&doc);
    assert_eq!(
        out,
        lines(&[
            "# Directories to search for projects",
            "dirs = []",
            "# command to run with selected path as arg",
            "open_cmd = \"code\"",
            "# editor to open config with",
            "editor = \"vi\"",
            "# sort projects alphabetically",
            "sort = true",
            "# exclude directories that contain projects from automatic list",
            "exclude_proj_dirs = false",
            "",
            "# Paths to specific projects",
            "[paths]",
            "app = \"/a\"",
        ])
    );
}

#[test]
fn only_the_first_word_counts() {
    assert_eq!(comment_line("sorted = true"), None);
    assert_eq!(comment_line("sort"), Some("# sort projects alphabetically".to_string()));
    assert_eq!(comment_line(" sort = true"), None);
    assert_eq!(comment_line("dirs = [\"/a\"]"), Some("# Directories to search for projects".to_string()));
    assert_eq!(comment_line("editor"), Some("# editor to open config with".to_string()));
    assert_eq!(comment_line("# sort projects alphabetically"), None);
}

#[test]
fn empty_document_stays_empty() {
    assert!(annotate_lines(&vec![]).is_empty());
}

fn save_text(table: &toml::Table) -> String {
    let doc = toml::to_string_pretty(table).unwrap();
    let lines: Vec<String> = doc.lines().map(String::from).collect();
    annotate_lines(&lines).join("\n")
}

#[test]
fn comments_do_not_change_what_is_read() {
    let plain = "dirs = []\nopen_cmd = \"code\"\neditor = \"vi\"\nsort = true\nexclude_proj_dirs = false\n\n[paths]\napp = \"/a\"";
    let doc: Vec<String> = plain.lines().map(String::from).collect();
    let annotated = annotate_lines(&doc).join("\n");
    assert_eq!(
        annotated.parse::<toml::Table>().unwrap(),
        plain.parse::<toml::Table>().unwrap()
    );
}

#[test]
fn saved_text_is_stable_under_reload() {
    let plain = "dirs = [\"/w\"]\nopen_cmd = \"\"\neditor = \"vi\"\nsort = false\nexclude_proj_dirs = true\n\n[paths]\nweb = \"/w/web\"\napi = \"/w/api\"";
    let table = plain.parse::<toml::Table>().unwrap();
    let first = save_text(&table);
    assert!(first.contains("# Paths to specific projects\n[paths]"));
    let reloaded = first.parse::<toml::Table>().unwrap();
    assert_eq!(save_text(&reloaded), first);
}
