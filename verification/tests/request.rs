use crosspoint_api::request::force_delete_paths;
use crosspoint_api::{Error, Method, Payload, RemoteFile, Request};

fn pairs(v: &[(String, String)]) -> Vec<(&str, &str)> {
    v.iter().map(|(k, v)| (k.as_str(), v.as_str())).collect()
}

fn form(r: &Request) -> Vec<(&str, &str)> {
    match &r.payload {
        Payload::Form(f) => pairs(f),
        other => panic!("not a form: {:?}", other),
    }
}

fn file(name: &str, is_directory: bool) -> RemoteFile {
    RemoteFile { name: name.to_string(), is_directory, size: if is_directory { None } else { Some(1) } }
}

#[test]
fn status_request() {
    let r = Request::status();
    assert_eq!(r.method, Method::Get);
    assert_eq!(r.endpoint, "api/status");
    assert!(r.query.is_empty());
    assert!(matches!(r.payload, Payload::Nothing));
}

#[test]
fn list_request() {
    let r = Request::list("/books");
    assert_eq!(r.method, Method::Get);
    assert_eq!(r.endpoint, "api/files");
    assert_eq!(pairs(&r.query), vec![("path", "/books")]);
    assert!(matches!(r.payload, Payload::Nothing));
}

#[test]
fn mkdir_request_splits_at_last_slash() {
    let r = Request::mkdir("/books/new").unwrap();
    assert_eq!(r.method, Method::Post);
    assert_eq!(r.endpoint, "mkdir");
    assert!(r.query.is_empty());
    assert_eq!(form(&r), vec![("path", "/books"), ("name", "new")]);
}

#[test]
fn mkdir_under_root_uses_root_parent() {
    let r = Request::mkdir("/new").unwrap();
    assert_eq!(form(&r), vec![("path", "/"), ("name", "new")]);
}

#[test]
fn mkdir_with_trailing_slash_has_empty_name() {
    let r = Request::mkdir("a/b/").unwrap();
    assert_eq!(form(&r), vec![("path", "a/b"), ("name", "")]);
}

#[test]
fn mkdir_without_slash_is_refused() {
    match Request::mkdir("new") {
        Err(Error::Protocol(m)) => assert_eq!(m, "invalid path"),
        other => panic!("unexpected: {:?}", other),
    }
    assert!(matches!(Request::mkdir(""), Err(Error::Protocol(_))));
}

#[test]
fn delete_request() {
    let r = Request::delete("/a.txt");
    assert_eq!(r.method, Method::Post);
    assert_eq!(r.endpoint, "delete");
    assert!(r.query.is_empty());
    assert_eq!(form(&r), vec![("path", "/a.txt")]);
}

#[test]
fn delete_multiple_sends_json_array() {
    let paths = vec!["/file1.ext".to_string(), "/file2.ext".to_string()];
    let r = Request::delete_multiple(&paths).unwrap();
    assert_eq!(r.method, Method::Post);
    assert_eq!(r.endpoint, "delete");
    assert_eq!(form(&r), vec![("paths", "[\"/file1.ext\",\"/file2.ext\"]")]);
}

#[test]
fn delete_multiple_escapes_quotes() {
    let paths = vec!["a\"b".to_string()];
    let r = Request::delete_multiple(&paths).unwrap();
    assert_eq!(form(&r), vec![("paths", "[\"a\\\"b\"]")]);
}

#[test]
fn delete_multiple_of_nothing() {
    let r = Request::delete_multiple(&Vec::new()).unwrap();
    assert_eq!(form(&r), vec![("paths", "[]")]);
}

#[test]
fn upload_request() {
    let r = Request::upload("/books", "a.txt", b"hello");
    assert_eq!(r.method, Method::Post);
    assert_eq!(r.endpoint, "upload");
    assert_eq!(pairs(&r.query), vec![("path", "/books")]);
    match &r.payload {
        Payload::File { field, file_name, bytes } => {
            assert_eq!(field, "file");
            assert_eq!(file_name, "a.txt");
            assert_eq!(bytes, b"hello");
        }
        other => panic!("unexpected: {:?}", other),
    }
}

#[test]
fn download_request() {
    let r = Request::download("/api-test-dir/test.txt");
    assert_eq!(r.method, Method::Get);
    assert_eq!(r.endpoint, "download");
    assert_eq!(pairs(&r.query), vec![("path", "/api-test-dir/test.txt")]);
}

#[test]
fn rename_request() {
    let r = Request::rename("/test.txt", "test_renamed.txt");
    assert_eq!(r.method, Method::Post);
    assert_eq!(r.endpoint, "rename");
    assert!(r.query.is_empty());
    assert_eq!(form(&r), vec![("path", "/test.txt"), ("name", "test_renamed.txt")]);
}

#[test]
fn force_delete_lists_first() {
    let r = Request::force_delete_listing("/books");
    assert_eq!(r.method, Method::Get);
    assert_eq!(r.endpoint, "api/files");
    assert_eq!(pairs(&r.query), vec![("path", "/books")]);
}

#[test]
fn force_delete_paths_skip_directories_and_unsafe_names() {
    let files = vec![
        file("x.txt", false),
        file("sub", true),
        file("../evil", false),
        file("y", false),
    ];
    assert_eq!(force_delete_paths("/d", &files), vec!["/d/x.txt", "/d/y", "/d"]);
}

#[test]
fn force_delete_paths_turn_backslashes_into_slashes() {
    let files = vec![file("a\\b", false)];
    assert_eq!(force_delete_paths("/d", &files), vec!["/d/a/b", "/d"]);
}

#[test]
fn force_delete_of_empty_directory_removes_only_it() {
    assert_eq!(force_delete_paths("/empty", &Vec::new()), vec!["/empty"]);
}

#[test]
fn force_delete_paths_keep_directory_text_last() {
    let files = vec![file("f", false)];
    assert_eq!(force_delete_paths("c:\\d", &files), vec!["c:/d/f", "c:\\d"]);
}

#[test]
fn force_delete_request_deletes_files_then_directory() {
    let files = vec![file("a.txt", false), file("inner", true)];
    let r = Request::force_delete_directory("/tmp-dir", &files).unwrap();
    assert_eq!(r.endpoint, "delete");
    assert_eq!(form(&r), vec![("paths", "[\"/tmp-dir/a.txt\",\"/tmp-dir\"]")]);
}

#[test]
fn root_like_directories_are_listed() {
    assert_eq!(Request::force_delete_listing("//").endpoint, "api/files");
    assert_eq!(pairs(&Request::force_delete_listing("").query), vec![("path", "")]);
}

#[test]
fn json_of_paths_reads_back() {
    let lists: Vec<Vec<String>> = vec![
        vec![],
        vec!["/a".to_string()],
        vec!["/a".to_string(), "/a".to_string(), "".to_string()],
        vec!["q\"u\\o\u{1}\u{1f}\u{7f}é\n".to_string(), "/d".to_string()],
    ];
    for paths in lists {
        let r = Request::delete_multiple(&paths).unwrap();
        let text = form(&r)[0].1.to_string();
        let back: Vec<String> = serde_json::from_str(&text).unwrap();
        assert_eq!(back, paths);
    }
}

#[test]
fn delete_json_paths_request() {
    let r = Request::delete_json_paths("[\"/a\"]".to_string());
    assert_eq!(r.method, Method::Post);
    assert_eq!(r.endpoint, "delete");
    assert!(r.query.is_empty());
    assert_eq!(form(&r), vec![("paths", "[\"/a\"]")]);
}

#[test]
fn delete_multiple_escapes_control_characters() {
    let paths = vec!["a\\b\n\t\r\u{8}\u{c}\u{1}\u{1f}".to_string(), "\u{7f}é/".to_string()];
    let r = Request::delete_multiple(&paths).unwrap();
    assert_eq!(
        form(&r),
        vec![("paths", "[\"a\\\\b\\n\\t\\r\\b\\f\\u0001\\u001f\",\"\u{7f}é/\"]")]
    );
}
