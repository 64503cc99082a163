use lll::path::{ancestors, extension, parent};
use std::path::Path;

#[test]
fn parent_of_an_absolute_path() {
    assert_eq!(parent("/a/b/c"), Some(String::from("/a/b")));
    assert_eq!(parent("/a"), Some(String::from("/")));
    assert_eq!(parent("/"), None);
}

#[test]
fn parent_of_a_relative_path() {
    assert_eq!(parent("a/b"), Some(String::from("a")));
    assert_eq!(parent("a"), Some(String::new()));
    assert_eq!(parent(""), None);
}

#[test]
fn parent_ignores_separators_at_the_end() {
    assert_eq!(parent("/a/b/"), Some(String::from("/a")));
    assert_eq!(parent("/a//b"), Some(String::from("/a")));
    assert_eq!(parent("//"), None);
    assert_eq!(parent("/a/"), Some(String::from("/")));
}

#[test]
fn ancestors_run_up_to_the_root() {
    assert_eq!(ancestors("/a/b/c"), vec!["/a/b", "/a", "/"]);
    assert_eq!(ancestors("/"), Vec::<String>::new());
    assert_eq!(ancestors("a/b"), vec!["a", ""]);
}

#[test]
fn extension_follows_the_last_dot() {
    assert_eq!(extension("/home/u/notes.txt"), Some(String::from("txt")));
    assert_eq!(extension("archive.tar.gz"), Some(String::from("gz")));
    assert_eq!(extension("/home/u/.bashrc"), None);
    assert_eq!(extension("/home/u/Makefile"), None);
    assert_eq!(extension("/home/u/dir.d/"), Some(String::from("d")));
    assert_eq!(extension("name."), Some(String::new()));
    assert_eq!(extension(".."), None);
    assert_eq!(extension("/"), None);
    assert_eq!(extension(""), None);
    assert_eq!(extension("/a.b/c"), None);
}

#[test]
fn path_functions_agree_with_the_standard_library() {
    let samples = [
        "/", "/a", "/a/b", "/a/b/c.txt", "/a/b/", "/a//b", "a", "a/b", "a/b.c", ".hidden",
        "/x/.hidden", "/x/y.tar.gz", "/été/字.png", "", "name.", "/usr/local/bin",
    ];
    for s in samples.iter() {
        let p = Path::new(s);
        assert_eq!(
            parent(s),
            p.parent().map(|q| q.to_str().unwrap().to_string()),
            "parent of {:?}",
            s
        );
        let expected: Vec<String> =
            p.ancestors().skip(1).map(|q| q.to_str().unwrap().to_string()).collect();
        assert_eq!(ancestors(s), expected, "ancestors of {:?}", s);
        assert_eq!(
            extension(s),
            p.extension().map(|e| e.to_str().unwrap().to_string()),
            "extension of {:?}",
            s
        );
    }
}
