use tram_btrfs::paths::{path_components, path_eq, path_join};
use tram_btrfs::text::{
    decimal_len, decimal_string, is_whitespace, join_strings, padded_decimal_string, split_char, split_once,
    starts_with, str_eq, trim,
};

fn strings(v: &[&str]) -> Vec<String> {
    v.iter().map(|s| s.to_string()).collect()
}

#[test]
fn split_keeps_empty_pieces() {
    assert_eq!(split_char("a/b//c", '/'), strings(&["a", "b", "", "c"]));
    assert_eq!(split_char("", '/'), strings(&[""]));
    assert_eq!(split_char("/", '/'), strings(&["", ""]));
    assert_eq!(split_char("tram_btrfs/x", '/'), strings(&["tram_btrfs", "x"]));
}

#[test]
fn join_puts_separator_between_neighbours() {
    assert_eq!(join_strings(&strings(&["archlinux", "@home"]), "/"), "archlinux/@home");
    assert_eq!(join_strings(&strings(&[]), "/"), "");
    assert_eq!(join_strings(&strings(&["@"]), "  "), "@");
    assert_eq!(join_strings(&strings(&["@", "@home"]), "  "), "@  @home");
}

#[test]
fn join_of_split_gives_back_the_text() {
    for s in ["", "/", "a/b//c/", "tram_btrfs/snapshot_groups/default"] {
        assert_eq!(join_strings(&split_char(s, '/'), "/"), s);
    }
}

#[test]
fn trim_removes_unicode_white_space() {
    assert_eq!(trim("  btrfs\n"), "btrfs");
    assert_eq!(trim("\u{3000}a b\u{a0}\t"), "a b");
    assert_eq!(trim(" \n "), "");
    assert!(is_whitespace('\u{2028}'));
    assert!(!is_whitespace('x'));
}

#[test]
fn split_once_at_first_occurrence() {
    assert_eq!(
        split_once("2026-04-16_21:26:00", '_'),
        Some(("2026-04-16".to_string(), "21:26:00".to_string()))
    );
    assert_eq!(split_once("a_b_c", '_'), Some(("a".to_string(), "b_c".to_string())));
    assert_eq!(split_once("2026-04-16", '_'), None);
    assert_eq!(split_once("_", '_'), Some(("".to_string(), "".to_string())));
}

#[test]
fn numbers_in_decimal() {
    assert_eq!(decimal_string(0), "0");
    assert_eq!(decimal_string(1234567), "1234567");
    assert_eq!(decimal_string(usize::MAX), usize::MAX.to_string());
    assert_eq!(padded_decimal_string(5, 2), "05");
    assert_eq!(padded_decimal_string(7, 4), "0007");
    assert_eq!(padded_decimal_string(2026, 4), "2026");
    assert_eq!(padded_decimal_string(123456, 4), "123456");
}

#[test]
fn string_comparisons() {
    assert!(str_eq("btrfs", "btrfs"));
    assert!(!str_eq("btrfs", "btrf"));
    assert!(starts_with("tram_btrfs/snapshot_groups", "tram_btrfs/"));
    assert!(!starts_with("tram", "tram_btrfs/"));
}

#[test]
fn join_follows_path_rules() {
    assert_eq!(path_join("tram_btrfs/", "snapshot_groups"), "tram_btrfs/snapshot_groups");
    assert_eq!(path_join("a", "b"), "a/b");
    assert_eq!(path_join("a", "/b"), "/b");
    assert_eq!(path_join("", "b"), "b");
    assert_eq!(path_join("a", ""), "a/");
    for (base, other) in [("a", "b"), ("a/", "b"), ("a", "/b"), ("", "b"), ("a", "")] {
        let expected = std::path::Path::new(base).join(other);
        assert_eq!(path_join(base, other), expected.to_str().unwrap());
    }
}

#[test]
fn paths_compare_by_components() {
    assert!(path_eq("a/b", "a//b/"));
    assert!(path_eq("a/./b", "a/b"));
    assert!(!path_eq("./a", "a"));
    assert!(!path_eq("/a", "a"));
    assert!(!path_eq("a/b", "a/c"));
    assert_eq!(path_components("/a//b/./c/"), strings(&["/", "a", "b", "c"]));
    assert_eq!(path_components("./a"), strings(&[".", "a"]));
    for (x, y) in [("a/b", "a//b/"), ("./a", "a"), ("/a", "a"), ("a/./b", "a/b"), ("", ".")] {
        assert_eq!(path_eq(x, y), std::path::Path::new(x) == std::path::Path::new(y), "{x} {y}");
    }
}

#[test]
fn digit_counts_and_wide_padding() {
    assert_eq!(decimal_len(0), 1);
    assert_eq!(decimal_len(9), 1);
    assert_eq!(decimal_len(10), 2);
    assert_eq!(decimal_len(2026), 4);
    assert_eq!(decimal_len(usize::MAX), usize::MAX.to_string().len());
    assert_eq!(padded_decimal_string(42, 6), "000042");
    assert_eq!(padded_decimal_string(0, 0), "0");
}
