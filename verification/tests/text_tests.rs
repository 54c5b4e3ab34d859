use synch::text::{contains, dec_i64, dec_u64, ends_with_char, path_file_name, path_join, starts_with};

#[test]
fn file_name_of_plain_paths() {
    assert_eq!(path_file_name("/a/b/c.txt"), Some("c.txt".to_string()));
    assert_eq!(path_file_name("c.txt"), Some("c.txt".to_string()));
    assert_eq!(path_file_name("/a/b/"), Some("b".to_string()));
    assert_eq!(path_file_name("a/b/."), Some("b".to_string()));
    assert_eq!(path_file_name("./x"), Some("x".to_string()));
    assert_eq!(path_file_name("a//b"), Some("b".to_string()));
}

#[test]
fn file_name_absent() {
    assert_eq!(path_file_name("/"), None);
    assert_eq!(path_file_name(""), None);
    assert_eq!(path_file_name("."), None);
    assert_eq!(path_file_name(".."), None);
    assert_eq!(path_file_name("a/.."), None);
    assert_eq!(path_file_name("..."), Some("...".to_string()));
}

#[test]
fn file_name_agrees_with_std() {
    for p in ["/a/b", "a", "/", "", ".", "..", "a/..", "a/.", "./a", "a//", "//a", "a/./b", "..a", "x/y/z/"] {
        let ours = path_file_name(p);
        let std_name = std::path::Path::new(p).file_name().map(|s| s.to_string_lossy().into_owned());
        assert_eq!(ours, std_name, "path {:?}", p);
    }
}

#[test]
fn join_agrees_with_std() {
    for (a, b) in [("/a", "b"), ("/a/", "b"), ("", "b"), ("a", "/b"), ("/", "x"), ("a", "")] {
        let ours = path_join(a, b);
        let theirs = std::path::Path::new(a).join(b).to_string_lossy().into_owned();
        assert_eq!(ours, theirs, "join {:?} {:?}", a, b);
    }
}

#[test]
fn decimal_writing() {
    assert_eq!(dec_u64(0), "0");
    assert_eq!(dec_u64(7), "7");
    assert_eq!(dec_u64(1234567890), "1234567890");
    assert_eq!(dec_u64(u64::MAX), u64::MAX.to_string());
    assert_eq!(dec_i64(-42), "-42");
    assert_eq!(dec_i64(i64::MIN), i64::MIN.to_string());
    assert_eq!(dec_i64(0), "0");
}

#[test]
fn prefix_infix_suffix() {
    assert!(starts_with("/src:abc", "/src:"));
    assert!(!starts_with("/sr", "/src:"));
    assert!(starts_with("abc", ""));
    assert!(contains("/home/user/tmp/x", "tmp"));
    assert!(!contains("/home/user", "tmp"));
    assert!(contains("abc", ""));
    assert!(contains("abc", "abc"));
    assert!(!contains("ab", "abc"));
    assert!(ends_with_char("a:", ':'));
    assert!(!ends_with_char("", ':'));
}
