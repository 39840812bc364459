use liblmod::manifest::{find_dependencies, find_path};
use liblmod::text::{chars_of, find, matches_at, split_ranges};

fn chars(text: &str) -> Vec<char> {
    text.chars().collect()
}

#[test]
fn chars_of_keeps_every_character() {
    assert_eq!(chars_of("a/é.ko"), vec!['a', '/', 'é', '.', 'k', 'o']);
    assert_eq!(chars_of(""), Vec::<char>::new());
}

#[test]
fn matches_at_compares_in_place() {
    let hay = chars("kernel/a/x.ko");
    assert!(matches_at(&hay, &chars("kernel"), 0));
    assert!(matches_at(&hay, &chars("/x.ko"), 8));
    assert!(!matches_at(&hay, &chars("/x.ko"), 7));
    assert!(!matches_at(&hay, &chars("x.ko!"), 9));
    assert!(matches_at(&hay, &chars(""), 13));
    assert!(!matches_at(&hay, &chars(""), 14));
}

#[test]
fn find_sees_a_needle_anywhere() {
    let hay = chars("kernel/a/x.ko");
    assert!(find(&hay, &chars("kernel")));
    assert!(find(&hay, &chars("/a/")));
    assert!(find(&hay, &chars(".ko")));
    assert!(find(&hay, &chars("")));
    assert!(!find(&hay, &chars("/y.ko")));
    assert!(!find(&hay, &chars("kernel/a/x.ko.xz")));
    assert!(find(&chars(""), &chars("")));
    assert!(!find(&chars(""), &chars("a")));
}

#[test]
fn split_ranges_cuts_at_every_separator() {
    assert_eq!(split_ranges(&chars("a b"), ' '), vec![(0, 1), (2, 3)]);
    assert_eq!(split_ranges(&chars(""), ' '), vec![(0, 0)]);
    assert_eq!(split_ranges(&chars(" "), ' '), vec![(0, 0), (1, 1)]);
    assert_eq!(split_ranges(&chars("a  b "), ' '), vec![(0, 1), (2, 2), (3, 4), (5, 5)]);
    assert_eq!(split_ranges(&chars("abc"), ' '), vec![(0, 3)]);
}

#[test]
fn find_path_returns_the_line_of_the_module() {
    let order = "kernel/a/x.ko\nkernel/b/y.ko\n";
    assert_eq!(find_path(order, "x"), Some("kernel/a/x.ko".to_string()));
    assert_eq!(find_path(order, "y"), Some("kernel/b/y.ko".to_string()));
}

#[test]
fn find_path_of_an_unlisted_module_is_none() {
    let order = "kernel/a/x.ko\nkernel/b/y.ko\n";
    assert_eq!(find_path(order, "z"), None);
    assert_eq!(find_path("", "x"), None);
    assert_eq!(find_path("x.ko\n", "x"), None);
}

#[test]
fn find_path_takes_the_last_match() {
    let order = "kernel/a/x.ko\nkernel/b/y.ko\nextra/x.ko\nkernel/c/z.ko\n";
    assert_eq!(find_path(order, "x"), Some("extra/x.ko".to_string()));
}

#[test]
fn find_path_matches_a_part_of_a_longer_name() {
    let order = "kernel/a/x.ko\nkernel/a/x.ko.xz\n";
    assert_eq!(find_path(order, "x"), Some("kernel/a/x.ko.xz".to_string()));
    assert_eq!(find_path("kernel/foo.kobar\n", "foo"), Some("kernel/foo.kobar".to_string()));
    assert_eq!(find_path("kernel/foobar.ko\n", "foo"), None);
}

#[test]
fn find_path_reads_lines_as_they_end() {
    assert_eq!(find_path("kernel/a/x.ko\r\nkernel/b/y.ko\r\n", "x"), Some("kernel/a/x.ko".to_string()));
    assert_eq!(find_path("kernel/a/x.ko", "x"), Some("kernel/a/x.ko".to_string()));
    assert_eq!(find_path("kernel/a/x.ko\r", "x"), Some("kernel/a/x.ko\r".to_string()));
    assert_eq!(find_path("\n\nkernel/a/x.ko\n\n", "x"), Some("kernel/a/x.ko".to_string()));
}

#[test]
fn find_path_counts_characters_not_bytes() {
    let order = "kernel/é/ü.ko\nkernel/a/x.ko\n";
    assert_eq!(find_path(order, "ü"), Some("kernel/é/ü.ko".to_string()));
    assert_eq!(find_path(order, "x"), Some("kernel/a/x.ko".to_string()));
}

#[test]
fn find_dependencies_lists_the_tokens_after_the_first() {
    let dep = "kernel/a/x.ko: kernel/b/y.ko kernel/c/z.ko\nkernel/b/y.ko:\n";
    assert_eq!(
        find_dependencies(dep, "kernel/a/x.ko"),
        vec!["kernel/b/y.ko".to_string(), "kernel/c/z.ko".to_string()]
    );
    assert_eq!(find_dependencies(dep, "kernel/b/y.ko"), Vec::<String>::new());
}

#[test]
fn find_dependencies_of_an_unlisted_module_is_empty() {
    let dep = "kernel/a/x.ko: kernel/b/y.ko\n";
    assert_eq!(find_dependencies(dep, "kernel/c/z.ko"), Vec::<String>::new());
    assert_eq!(find_dependencies("", "kernel/a/x.ko"), Vec::<String>::new());
}

#[test]
fn find_dependencies_takes_every_line_that_begins_with_the_module() {
    let dep = "kernel/a/x.ko: one\nkernel/b/y.ko: two\nkernel/a/x.ko.xz: three four\n";
    assert_eq!(
        find_dependencies(dep, "kernel/a/x.ko"),
        vec!["one".to_string(), "three".to_string(), "four".to_string()]
    );
}

#[test]
fn find_dependencies_keeps_empty_tokens() {
    let dep = "kernel/a/x.ko:  one \n";
    assert_eq!(
        find_dependencies(dep, "kernel/a/x.ko"),
        vec!["".to_string(), "one".to_string(), "".to_string()]
    );
}

#[test]
fn find_dependencies_cuts_the_whole_line() {
    let dep = "a b: c\n";
    assert_eq!(find_dependencies(dep, "a b"), vec!["b:".to_string(), "c".to_string()]);
}

#[test]
fn find_dependencies_strips_the_carriage_return() {
    let dep = "kernel/a/x.ko: kernel/b/y.ko\r\n";
    assert_eq!(find_dependencies(dep, "kernel/a/x.ko"), vec!["kernel/b/y.ko".to_string()]);
    let unended = "kernel/a/x.ko: kernel/b/y.ko\r";
    assert_eq!(find_dependencies(unended, "kernel/a/x.ko"), vec!["kernel/b/y.ko\r".to_string()]);
}

#[test]
fn find_dependencies_with_the_empty_key_takes_every_line() {
    let dep = "a: b\nc: d e\n";
    assert_eq!(
        find_dependencies(dep, ""),
        vec!["b".to_string(), "d".to_string(), "e".to_string()]
    );
}
