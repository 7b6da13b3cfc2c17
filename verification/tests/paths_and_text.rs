use seer::paths::{extension, file_name, file_stem, is_absolute_path, join, parent, split_file_name, starts_with, strip_prefix};
use seer::temp_file::TempFile;
use seer::text::{chars_of, decimal_chars, hex_lower_chars, split_chars, split_whitespace_chars, trim_chars};

fn s(v: &[char]) -> String {
    v.iter().collect()
}

#[test]
fn join_appends_with_one_separator() {
    assert_eq!(join("a/b", "c"), "a/b/c");
    assert_eq!(join("a/b/", "c"), "a/b/c");
    assert_eq!(join("", "c"), "c");
    assert_eq!(join("a", "/etc"), "/etc");
    assert_eq!(join("/work", "target/deploy"), "/work/target/deploy");
}

#[test]
fn parent_drops_last_component() {
    assert_eq!(parent("/home/u/proj/Cargo.toml").as_deref(), Some("/home/u/proj"));
    assert_eq!(parent("Cargo.toml").as_deref(), Some(""));
    assert_eq!(parent("/a").as_deref(), Some("/"));
    assert_eq!(parent("./a").as_deref(), Some("."));
    assert_eq!(parent("a/b/").as_deref(), Some("a"));
    assert_eq!(parent("/"), None);
    assert_eq!(parent(""), None);
}

#[test]
fn file_name_stem_and_extension() {
    assert_eq!(file_name("/x/prog.so").as_deref(), Some("prog.so"));
    assert_eq!(file_name("/x/.."), None);
    assert_eq!(file_name("."), None);
    assert_eq!(file_stem("/x/prog.so").as_deref(), Some("prog"));
    assert_eq!(extension("/x/prog.so").as_deref(), Some("so"));
    assert_eq!(file_stem("/x/a.tar.gz").as_deref(), Some("a.tar"));
    assert_eq!(extension("/x/a.tar.gz").as_deref(), Some("gz"));
    assert_eq!(extension("/x/.bashrc"), None);
    assert_eq!(file_stem("/x/.bashrc").as_deref(), Some(".bashrc"));
    assert_eq!(extension("/x/noext"), None);
    let (stem, ext) = split_file_name("a.");
    assert_eq!(stem, "a");
    assert_eq!(ext.as_deref(), Some(""));
}

#[test]
fn strip_prefix_and_starts_with_go_by_components() {
    assert_eq!(strip_prefix("/w/p/target/x.so", "/w/p").as_deref(), Some("target/x.so"));
    assert_eq!(strip_prefix("/w/p", "/w/p").as_deref(), Some(""));
    assert_eq!(strip_prefix("/w/pq/x", "/w/p"), None);
    assert_eq!(strip_prefix("w/p", "/w"), None);
    assert!(starts_with("/w/p/q", "/w/p/"));
    assert!(!starts_with("/w/pq", "/w/p"));
    assert!(is_absolute_path("/a"));
    assert!(!is_absolute_path("a"));
}

#[test]
fn temp_file_drops_cur_dir_components() {
    let t = TempFile::new(true, "./prog/./seer.toml");
    assert_eq!(t.path(), "prog/seer.toml");
    assert!(t.cleanup());
    let u = TempFile::new(false, "/abs//dir/file");
    assert_eq!(u.path(), "/abs/dir/file");
    assert!(!u.cleanup());
}

#[test]
fn trimming_and_splitting_text() {
    assert_eq!(s(&trim_chars(&chars_of("  a b \t\n"))), "a b");
    assert_eq!(s(&trim_chars(&chars_of("\u{3000}x\u{a0}"))), "x");
    let pieces = split_chars(&chars_of("a..b"), '.');
    let pieces: Vec<String> = pieces.iter().map(|p| s(p)).collect();
    assert_eq!(pieces, vec!["a", "", "b"]);
    let toks = split_whitespace_chars(&chars_of("  one  two\tthree "));
    let toks: Vec<String> = toks.iter().map(|p| s(p)).collect();
    assert_eq!(toks, vec!["one", "two", "three"]);
}

#[test]
fn decimal_and_hex() {
    assert_eq!(s(&decimal_chars(0)), "0");
    assert_eq!(s(&decimal_chars(1234567890)), "1234567890");
    assert_eq!(s(&decimal_chars(u64::MAX)), "18446744073709551615");
    assert_eq!(s(&hex_lower_chars(&[0x00, 0xab, 0x0f, 0xff])), "00ab0fff");
}

#[test]
fn strip_prefix_keeps_the_rest_as_written() {
    assert_eq!(strip_prefix("/w/p//src/./x", "/w/p").as_deref(), Some("src/./x"));
    assert_eq!(strip_prefix("/w/p/src//x/", "/w/p").as_deref(), Some("src//x"));
    assert_eq!(strip_prefix("/w/./p/./src", "/w/p").as_deref(), Some("src"));
    assert_eq!(strip_prefix("./a/", "").as_deref(), Some("./a"));
    assert_eq!(strip_prefix("a//b", "").as_deref(), Some("a//b"));
}
