use cblt::files::{file_path, index_path, resolve};

#[test]
fn request_path_is_joined_below_the_root() {
    assert_eq!(file_path("/www", "/index.html"), "/www/index.html");
    assert_eq!(file_path("/www", "/img/x.png"), "/www/img/x.png");
    assert_eq!(file_path("/www/", "/index.html"), "/www/index.html");
}

#[test]
fn all_leading_slashes_are_stripped() {
    assert_eq!(file_path("/www", "///a"), "/www/a");
    assert_eq!(file_path("/www", "a"), "/www/a");
    assert_eq!(file_path("/www", "/a//b"), "/www/a//b");
}

#[test]
fn root_request_names_the_directory() {
    assert_eq!(file_path("/www", "/"), "/www/");
    assert_eq!(file_path("/www", ""), "/www/");
    assert_eq!(file_path("/www/", "/"), "/www/");
}

#[test]
fn empty_root_gives_a_relative_path() {
    assert_eq!(file_path("", "/a/b"), "a/b");
    assert_eq!(file_path("", "/"), "");
    assert_eq!(file_path(".", "/a"), "./a");
}

#[test]
fn nothing_is_done_about_parent_directories() {
    assert_eq!(file_path("/www", "/../etc/passwd"), "/www/../etc/passwd");
}

#[test]
fn directory_serves_its_index() {
    assert_eq!(index_path("/www/docs"), "/www/docs/index.html");
    assert_eq!(index_path("/www/"), "/www/index.html");
    assert_eq!(index_path(&file_path("/www", "/docs/")), "/www/docs/index.html");
    assert_eq!(index_path(""), "index.html");
}

#[test]
fn joining_agrees_with_path_buf() {
    let cases = [("/www", "/a/b"), ("/www/", "/a"), ("/www", "/"), ("", "/x"), ("rel", "//y"), ("/", "/z")];
    for (root, uri) in cases {
        let mut expected = std::path::PathBuf::from(root);
        expected.push(uri.trim_start_matches('/'));
        assert_eq!(std::path::PathBuf::from(file_path(root, uri)), expected);
        assert_eq!(file_path(root, uri), expected.to_str().unwrap());
        let mut index = expected.clone();
        index.push("index.html");
        assert_eq!(index_path(expected.to_str().unwrap()), index.to_str().unwrap());
    }
}

#[test]
fn only_a_directory_is_resolved_to_its_index() {
    assert_eq!(resolve("/www/docs".to_string(), true), "/www/docs/index.html");
    assert_eq!(resolve("/www/docs".to_string(), false), "/www/docs");
    assert_eq!(resolve("/www/".to_string(), true), "/www/index.html");
    assert_eq!(resolve("/www/a.txt".to_string(), false), "/www/a.txt");
}
