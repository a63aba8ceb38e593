use cincinnati::path_prefix::parse_path_prefix;

#[test]
fn test_parse_path_prefix() {
    assert_eq!(parse_path_prefix("//a/b/c//"), "/a/b/c");
    assert_eq!(parse_path_prefix("/a/b/c/"), "/a/b/c");
    assert_eq!(parse_path_prefix("/a/b/c"), "/a/b/c");
    assert_eq!(parse_path_prefix("a/b/c"), "/a/b/c");
}

#[test]
fn root_is_the_least_prefix() {
    assert_eq!(parse_path_prefix(""), "/");
    assert_eq!(parse_path_prefix("/"), "/");
    assert_eq!(parse_path_prefix("////"), "/");
}

#[test]
fn inner_slashes_stay() {
    assert_eq!(parse_path_prefix("a//b"), "/a//b");
    assert_eq!(parse_path_prefix("/ a /"), "/ a ");
    assert_eq!(parse_path_prefix("//é/ü/"), "/é/ü");
}

#[test]
fn a_normal_prefix_is_its_own_normal_form() {
    for prefix in ["", "/", "a", "//a/b/c//", "a//b/", " /x/ ", "///é//"] {
        let once = parse_path_prefix(prefix);
        assert_eq!(parse_path_prefix(&once), once);
        assert!(once.starts_with('/'));
        assert!(once == "/" || !once.ends_with('/'));
        assert!(!once.starts_with("//"));
    }
}
