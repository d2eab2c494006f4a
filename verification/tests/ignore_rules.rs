use clean::ignore::should_ignore;

fn patterns(list: &[&str]) -> Vec<String> {
    list.iter().map(|p| p.to_string()).collect()
}

#[test]
fn no_patterns_ignore_nothing() {
    assert_eq!(should_ignore("/tmp/a.txt", &patterns(&[])), Ok(false));
    assert_eq!(should_ignore("", &patterns(&[])), Ok(false));
}

#[test]
fn pattern_on_the_full_path() {
    assert_eq!(should_ignore("/tmp/x/ignore.me", &patterns(&["/tmp/x/*.me"])), Ok(true));
    assert_eq!(should_ignore("/tmp/x/keep.txt", &patterns(&["/tmp/x/*.me"])), Ok(false));
}

#[test]
fn pattern_on_the_file_name_alone() {
    assert_eq!(should_ignore("ignore.me", &patterns(&["ignore.me"])), Ok(true));
    assert_eq!(should_ignore("/tmp/x/ignore.me", &patterns(&["ignore.me"])), Ok(true));
    assert_eq!(should_ignore("/tmp/x/ignore.me", &patterns(&["ignore.m"])), Ok(false));
    assert_eq!(should_ignore("/tmp/x/ignore.me", &patterns(&["x"])), Ok(false));
}

#[test]
fn base_name_match_holds_under_any_directory() {
    let list = patterns(&["?.txt"]);
    for dir in ["", ".", "/", "/tmp", "/tmp/deep/er", "a b", "..", "é"] {
        let path = format!("{}/a.txt", dir);
        assert_eq!(should_ignore(&path, &list), Ok(true), "{:?}", path);
    }
    assert_eq!(should_ignore("a.txt", &list), Ok(true));
    assert_eq!(should_ignore("/tmp/ab.txt", &list), Ok(false));
}

#[test]
fn any_matching_pattern_is_enough() {
    let list = patterns(&["*.rs", "*.txt", "*.md"]);
    assert_eq!(should_ignore("/r/a.txt", &list), Ok(true));
    assert_eq!(should_ignore("/r/a.md", &list), Ok(true));
    assert_eq!(should_ignore("/r/a.rs", &list), Ok(true));
    assert_eq!(should_ignore("/r/a.toml", &list), Ok(false));
}

#[test]
fn malformed_pattern_is_an_error() {
    let error = should_ignore("/tmp/test.txt", &patterns(&["[invalid"])).unwrap_err();
    assert_eq!(error.index, 0);
    assert_eq!(error.pattern, "[invalid");
    assert_eq!(error.detail, "Pattern syntax error near position 0: invalid range pattern");
    let error = should_ignore("/tmp/badglob.txt", &patterns(&["[bad[glob"])).unwrap_err();
    assert_eq!(error.index, 0);
    assert_eq!(error.pattern, "[bad[glob");
    assert!(should_ignore("x", &patterns(&["a***b"])).is_err());
    assert!(should_ignore("x", &patterns(&["a**"])).is_err());
}

#[test]
fn malformed_pattern_behind_others_carries_its_place() {
    let error = should_ignore("/tmp/test.txt", &patterns(&["*.md", "*.rs", "[x"])).unwrap_err();
    assert_eq!(error.index, 2);
    assert_eq!(error.pattern, "[x");
}

#[test]
fn malformed_pattern_fails_the_list_whatever_else_matches() {
    let error = should_ignore("a.txt", &patterns(&["*.txt", "[invalid"])).unwrap_err();
    assert_eq!(error.index, 1);
    assert_eq!(error.pattern, "[invalid");
    assert_eq!(error.detail, "Pattern syntax error near position 0: invalid range pattern");
    assert!(should_ignore("/tmp/test.txt", &patterns(&["*.txt", "[x"])).is_err());
    assert!(should_ignore("/tmp/test.txt", &patterns(&["[x", "*.txt"])).is_err());
    assert!(should_ignore("/tmp/test.md", &patterns(&["*.txt", "[x"])).is_err());
    assert!(should_ignore("/tmp/test.txt", &patterns(&["test.txt", "*.txt", "a**"])).is_err());
}

#[test]
fn first_malformed_pattern_is_the_one_named() {
    let error = should_ignore("a.txt", &patterns(&["*.txt", "a***", "[x", "*.md"])).unwrap_err();
    assert_eq!(error.index, 1);
    assert_eq!(error.pattern, "a***");
    assert_eq!(
        error.detail,
        "Pattern syntax error near position 3: wildcards are either regular `*` or recursive `**`"
    );
}

#[test]
fn order_of_well_formed_patterns_has_no_say() {
    for path in ["/r/a.txt", "/r/a.md", "/r/a.rs", "/r/a.toml", "a.txt", ""] {
        assert_eq!(
            should_ignore(path, &patterns(&["*.rs", "*.txt", "?.md"])),
            should_ignore(path, &patterns(&["?.md", "*.txt", "*.rs"])),
            "{:?}",
            path
        );
    }
}

#[test]
fn star_crosses_directories() {
    assert_eq!(should_ignore("/tmp/x/y/z.txt", &patterns(&["/tmp/*"])), Ok(true));
    assert_eq!(should_ignore("/tmp/x/y/z.txt", &patterns(&["x"])), Ok(false));
    assert_eq!(should_ignore("/tmp/x/y/z.txt", &patterns(&["**/y/*"])), Ok(true));
}

#[test]
fn path_without_a_name_is_tried_against_the_empty_name() {
    assert_eq!(should_ignore("/", &patterns(&[""])), Ok(true));
    assert_eq!(should_ignore("a/..", &patterns(&["*"])), Ok(true));
    assert_eq!(should_ignore("a/..", &patterns(&["?"])), Ok(false));
}
