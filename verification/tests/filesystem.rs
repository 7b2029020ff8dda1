use crosspoint_api::{safe_join, RemoteFile};

fn join(base: &str, name: &str) -> Option<String> {
    safe_join(base, name)
}

#[test]
fn joins_plain_name_with_separator() {
    assert_eq!(join("/books", "novel.epub"), Some("/books/novel.epub".to_string()));
}

#[test]
fn joins_without_doubling_separator() {
    assert_eq!(join("/", "a.txt"), Some("/a.txt".to_string()));
    assert_eq!(join("/books/", "a.txt"), Some("/books/a.txt".to_string()));
}

#[test]
fn joins_onto_empty_base_without_separator() {
    assert_eq!(join("", "a.txt"), Some("a.txt".to_string()));
}

#[test]
fn trailing_separators_and_dots_are_dropped() {
    assert_eq!(join("/d", "a/"), Some("/d/a".to_string()));
    assert_eq!(join("/d", "a/."), Some("/d/a".to_string()));
    assert_eq!(join("/d", "a//./"), Some("/d/a".to_string()));
}

#[test]
fn rejects_empty_name() {
    assert_eq!(join("/d", ""), None);
}

#[test]
fn rejects_absolute_name() {
    assert_eq!(join("/d", "/etc/passwd"), None);
    assert_eq!(join("/d", "/"), None);
}

#[test]
fn rejects_parent_traversal() {
    assert_eq!(join("/d", ".."), None);
    assert_eq!(join("/d", "../x"), None);
    assert_eq!(join("/d", "a/.."), None);
}

#[test]
fn rejects_current_directory() {
    assert_eq!(join("/d", "."), None);
    assert_eq!(join("/d", "./a"), None);
    assert_eq!(join("/d", "./"), None);
}

#[test]
fn rejects_two_components() {
    assert_eq!(join("/d", "a/b"), None);
    assert_eq!(join("/d", "a/.b"), None);
}

#[test]
fn accepts_names_that_only_start_with_dots() {
    assert_eq!(join("/d", "..."), Some("/d/...".to_string()));
    assert_eq!(join("/d", ".hidden"), Some("/d/.hidden".to_string()));
}

#[test]
fn backslash_is_an_ordinary_character() {
    assert_eq!(join("/d", "a\\b"), Some("/d/a\\b".to_string()));
}

#[test]
fn remote_file_holds_its_fields() {
    let f = RemoteFile { name: "a.txt".to_string(), is_directory: false, size: Some(12) };
    let g = f.clone();
    assert_eq!(g.name, "a.txt");
    assert!(!g.is_directory);
    assert_eq!(g.size, Some(12));
}
