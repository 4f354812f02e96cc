use drift_script_manager::dev::{dev_notes, line_dev_note, strip_dev_blocks};

fn lines(text: &[&str]) -> Vec<String> {
    text.iter().map(|l| l.to_string()).collect()
}

#[test]
fn dev_note_is_reported_with_its_line() {
    let file = lines(&[
        "function myCode()",
        "    -- [Dev] This is for testing only and should be removed before release",
        "    print(\"test\")",
        "end",
    ]);
    assert_eq!(
        dev_notes(&file),
        vec![(2, "This is for testing only and should be removed before release".to_string())]
    );
}

#[test]
fn dev_notes_after_code_and_several_notes() {
    let file = lines(&["x = 1 -- [Dev]   check x  ", "y = 2", "-- [Dev]", "-- [dev] not a note"]);
    assert_eq!(dev_notes(&file), vec![(1, "check x".to_string()), (3, String::new())]);
    assert_eq!(line_dev_note("-- [Dev] a -- [Dev] b"), Some("a -- [Dev] b".to_string()));
    assert_eq!(line_dev_note("-- Dev"), None);
}

#[test]
fn no_dev_notes() {
    assert!(dev_notes(&lines(&["print(1)", ""])).is_empty());
    assert!(dev_notes(&Vec::new()).is_empty());
}

#[test]
fn dev_block_is_removed() {
    let file = lines(&[
        "function myCode()",
        "    -- [Begin Dev Block]",
        "    print(\"test\")",
        "    -- [End Dev Block]",
        "end",
    ]);
    assert_eq!(strip_dev_blocks(&file), lines(&["function myCode()", "end"]));
}

#[test]
fn several_and_unclosed_dev_blocks() {
    let file = lines(&[
        "a",
        "-- [Begin Dev Block]",
        "b",
        "-- [Begin Dev Block]",
        "c",
        "-- [End Dev Block]",
        "d",
        "  -- [Begin Dev Block]  ",
        "e",
    ]);
    assert_eq!(strip_dev_blocks(&file), lines(&["a", "d"]));
}

#[test]
fn stray_end_marker_and_no_blocks_are_kept() {
    let file = lines(&["a", "-- [End Dev Block]", "b"]);
    assert_eq!(strip_dev_blocks(&file), file);
    let plain = lines(&["x", "", "y -- [Begin Dev Block]"]);
    assert_eq!(strip_dev_blocks(&plain), plain);
}
