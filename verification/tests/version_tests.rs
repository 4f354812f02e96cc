use drift_script_manager::version::{is_marker_line, rewrite_version_lines, split_version_line};

fn lines(text: &[&str]) -> Vec<String> {
    text.iter().map(|s| s.to_string()).collect()
}

fn split(s: &str, any_name: bool) -> Option<(usize, usize)> {
    split_version_line(&s.chars().collect(), any_name)
}

#[test]
fn plain_version_line_is_rewritten() {
    let input = lines(&["-- script", "local version = \"0.1.0\"", "print(version)"]);
    let out = rewrite_version_lines(&input, "1.2.3");
    assert_eq!(out, lines(&["-- script", "local version = \"1.2.3\"", "print(version)"]));
}

#[test]
fn variants_of_the_version_line() {
    assert_eq!(rewrite_version_lines(&lines(&["  local _version: string = '1'  "]), "2"), lines(&["  local _version: string = '2'  "]));
    assert_eq!(rewrite_version_lines(&lines(&["local\tversion=`x`"]), "y"), lines(&["local\tversion=`y`"]));
    assert_eq!(rewrite_version_lines(&lines(&["local version :string= \"\""]), "3"), lines(&["local version :string= \"3\""]));
}

#[test]
fn lines_that_are_not_version_lines() {
    let input = lines(&[
        "local versions = \"1\"",
        "localversion = \"1\"",
        "local version = 1",
        "local version = \"1\" -- comment",
        "local version = \"1",
        "version = \"1\"",
        "local name = \"x\"",
        "local version: number = \"1\"",
    ]);
    assert_eq!(rewrite_version_lines(&input, "9"), input);
}

#[test]
fn only_the_first_version_line_changes() {
    let input = lines(&["local version = \"1\"", "local version = \"1\""]);
    assert_eq!(rewrite_version_lines(&input, "2"), lines(&["local version = \"2\"", "local version = \"1\""]));
}

#[test]
fn marker_allows_any_name() {
    let input = lines(&["local VERSION = \"1\"", "  --?ScriptVersion ", "local SCRIPT_VER = \"1.0\""]);
    let out = rewrite_version_lines(&input, "2.0");
    assert_eq!(out, lines(&["local VERSION = \"1\"", "  --?ScriptVersion ", "local SCRIPT_VER = \"2.0\""]));
}

#[test]
fn marker_stays_in_force_for_later_lines() {
    let input = lines(&["--?ScriptVersion", "print(1)", "local v = '0'"]);
    assert_eq!(rewrite_version_lines(&input, "5"), lines(&["--?ScriptVersion", "print(1)", "local v = '5'"]));
}

#[test]
fn any_name_needs_a_name() {
    let input = lines(&["--?ScriptVersion", "local = '0'", "local x: number = '0'"]);
    assert_eq!(rewrite_version_lines(&input, "5"), input);
}

#[test]
fn no_version_line_means_no_change() {
    let input = lines(&["print('hello')", ""]);
    assert_eq!(rewrite_version_lines(&input, "1"), input);
    assert_eq!(rewrite_version_lines(&Vec::new(), "1"), Vec::<String>::new());
}

#[test]
fn rewriting_twice_is_rewriting_once() {
    let input = lines(&["--?ScriptVersion", "local ver = \"0.9\""]);
    let once = rewrite_version_lines(&input, "1.0");
    assert_eq!(rewrite_version_lines(&once, "1.0"), once);
    assert_eq!(rewrite_version_lines(&once, "0.9"), input);
}

#[test]
fn splits_of_version_lines() {
    assert_eq!(split("local version = \"1.0\"", false), Some((16, 20)));
    assert_eq!(split("local version = \"1.0\"", true), Some((16, 20)));
    assert_eq!(split("local x = \"1.0\"", false), None);
    assert_eq!(split("local x = \"1.0\"", true), Some((10, 14)));
    assert_eq!(split("local version = \"1.0\" x", false), None);
}

#[test]
fn marker_lines() {
    assert!(is_marker_line("--?ScriptVersion"));
    assert!(is_marker_line("\t --?ScriptVersion  "));
    assert!(!is_marker_line("-- ?ScriptVersion"));
    assert!(!is_marker_line("--?scriptversion"));
}
