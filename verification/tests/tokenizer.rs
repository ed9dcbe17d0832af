//! Unit tests of the line tokenizer: single-line classification and the
//! whole-input driver.

use gitdiffparser::line_parser::{parse_line, parse_lines, DiffEvent, ParseError, State};

fn lines(text: &[&str]) -> Vec<String> {
    text.iter().map(|s| s.to_string()).collect()
}

#[test]
fn file_diff_header_fields() {
    let ev = parse_line("diff --git a/src/main.rs b/src/main.rs", State::StartOfFile).unwrap();
    match ev {
        DiffEvent::FileDiffHeader { from_file, to_file } => {
            assert_eq!(from_file, "src/main.rs");
            assert_eq!(to_file, "src/main.rs");
        }
        other => panic!("unexpected event {:?}", other),
    }
}

#[test]
fn file_diff_header_with_spaces_in_paths() {
    let ev = parse_line("diff --git a/a b b/c d  ", State::StartOfFile).unwrap();
    match ev {
        DiffEvent::FileDiffHeader { from_file, to_file } => {
            assert_eq!(from_file, "a b");
            assert_eq!(to_file, "c d");
        }
        other => panic!("unexpected event {:?}", other),
    }
}

#[test]
fn start_state_demands_file_header() {
    match parse_line("index 1..2", State::StartOfFile) {
        Err(ParseError::Expected(m)) => assert_eq!(m, "expected file diff header"),
        other => panic!("unexpected result {:?}", other),
    }
}

#[test]
fn index_header_with_and_without_mode() {
    let ev = parse_line("index e69de29..4b825dc 100644", State::FileDiffHeader).unwrap();
    match ev {
        DiffEvent::IndexHeader { from_blob, to_blob, mode } => {
            assert_eq!(from_blob, "e69de29");
            assert_eq!(to_blob, "4b825dc");
            assert_eq!(mode.as_deref(), Some("100644"));
        }
        other => panic!("unexpected event {:?}", other),
    }
    let ev2 = parse_line("index e69de29..4b825dc", State::FileDiffHeader).unwrap();
    match ev2 {
        DiffEvent::IndexHeader { mode, .. } => assert_eq!(mode, None),
        other => panic!("unexpected event {:?}", other),
    }
}

#[test]
fn index_header_blob_may_hold_dots() {
    let ev = parse_line("index a..b c..d 100644", State::FileDiffHeader).unwrap();
    match ev {
        DiffEvent::IndexHeader { from_blob, to_blob, mode } => {
            assert_eq!(from_blob, "a");
            assert_eq!(to_blob, "b c..d");
            assert_eq!(mode.as_deref(), Some("100644"));
        }
        other => panic!("unexpected event {:?}", other),
    }
}

#[test]
fn chunk_header_fields_and_trailer() {
    let ev = parse_line("@@ -1,2 +3,4 @@ fn main()", State::BFileHeader).unwrap();
    match ev {
        DiffEvent::ChunkHeader { from_start, from_count, to_start, to_count, trailer } => {
            assert_eq!(from_start, 1);
            assert_eq!(from_count, 2);
            assert_eq!(to_start, 3);
            assert_eq!(to_count, 4);
            assert_eq!(trailer, " fn main()");
        }
        other => panic!("unexpected event {:?}", other),
    }
}

#[test]
fn chunk_header_defaults_both_counts() {
    let ev = parse_line("@@ -7 +9 @@", State::BFileHeader).unwrap();
    match ev {
        DiffEvent::ChunkHeader { from_start, from_count, to_start, to_count, trailer } => {
            assert_eq!(from_start, 7);
            assert_eq!(from_count, 1);
            assert_eq!(to_start, 9);
            assert_eq!(to_count, 1);
            assert_eq!(trailer, "");
        }
        other => panic!("unexpected event {:?}", other),
    }
}

#[test]
fn chunk_header_number_too_large_is_a_grammar_error() {
    // One past the machine word: the line is unclassifiable.
    match parse_line("@@ -18446744073709551616 +1 @@", State::BFileHeader) {
        Err(ParseError::Expected(m)) => assert_eq!(m, "expected chunk_header"),
        other => panic!("unexpected result {:?}", other),
    }
}

#[test]
fn malformed_chunk_header_is_rejected() {
    match parse_line("@@ -1, +2 @@", State::BFileHeader) {
        Err(ParseError::Expected(m)) => assert_eq!(m, "expected chunk_header"),
        other => panic!("unexpected result {:?}", other),
    }
}

#[test]
fn line_diff_actions() {
    for (text, want_content) in [("-gone", "gone"), ("+here", "here"), (" same", "same")] {
        let ev = parse_line(text, State::ChunkHeader).unwrap();
        match ev {
            DiffEvent::LineDiff { content, .. } => assert_eq!(content, want_content),
            other => panic!("unexpected event {:?}", other),
        }
    }
}

#[test]
fn empty_line_after_chunk_is_rejected() {
    match parse_line("", State::ChunkHeader) {
        Err(ParseError::Expected(m)) => assert_eq!(m, "expected line_diff or no_newline"),
        other => panic!("unexpected result {:?}", other),
    }
}

#[test]
fn old_mode_must_be_followed_by_new_mode() {
    match parse_line("index 1..2", State::OldMode) {
        Err(ParseError::Expected(m)) => assert_eq!(m, "expected new_mode_header"),
        other => panic!("unexpected result {:?}", other),
    }
    let ev = parse_line("new mode 100755", State::OldMode).unwrap();
    match ev {
        DiffEvent::NewMode { mode } => assert_eq!(mode, "100755"),
        other => panic!("unexpected event {:?}", other),
    }
}

#[test]
fn dev_null_file_headers_capture_no_path() {
    let ev = parse_line("--- /dev/null", State::IndexHeader).unwrap();
    match ev {
        DiffEvent::AFileHeader { file } => assert_eq!(file, None),
        other => panic!("unexpected event {:?}", other),
    }
    let ev2 = parse_line("+++ b/f", State::AFileHeader).unwrap();
    match ev2 {
        DiffEvent::BFileHeader { file } => assert_eq!(file.as_deref(), Some("f")),
        other => panic!("unexpected event {:?}", other),
    }
}

#[test]
fn rename_productions_capture_fields() {
    let ev = parse_line("similarity index 97%", State::FileDiffHeader).unwrap();
    match ev {
        DiffEvent::RenameHeader { rate } => assert_eq!(rate, "97"),
        other => panic!("unexpected event {:?}", other),
    }
    let ev2 = parse_line("rename from old/name", State::RenameHeader).unwrap();
    match ev2 {
        DiffEvent::RenameFrom { from_file } => assert_eq!(from_file, "old/name"),
        other => panic!("unexpected event {:?}", other),
    }
    let ev3 = parse_line("rename to new/name", State::RenameFrom).unwrap();
    match ev3 {
        DiffEvent::RenameTo { to_file } => assert_eq!(to_file, "new/name"),
        other => panic!("unexpected event {:?}", other),
    }
}

#[test]
fn binary_production_needs_all_parts() {
    let ev = parse_line("Binary files a/x and b/x differ", State::IndexHeader).unwrap();
    assert!(matches!(ev, DiffEvent::Binary));
    match parse_line("Binary files a/x or b/x differ", State::IndexHeader) {
        Err(ParseError::Expected(m)) => assert_eq!(m, "expected a_file_change_header"),
        other => panic!("unexpected result {:?}", other),
    }
}

#[test]
fn missing_index_header_is_a_hard_error() {
    let input = lines(&["diff --git a/f b/f", "--- a/f"]);
    match parse_lines(&input) {
        Err(ParseError::LineParseError(n, l, m)) => {
            assert_eq!(n, 2);
            assert_eq!(l, "--- a/f");
            assert_eq!(m, "expected index_diff_header");
        }
        other => panic!("unexpected result {:?}", other),
    }
}

#[test]
fn parse_lines_produces_the_event_sequence() {
    let input = lines(&[
        "diff --git a/f b/f",
        "index 1..2",
        "--- a/f",
        "+++ b/f",
        "@@ -1 +1 @@",
        " x",
        "\\ No newline at end of file",
    ]);
    let events = parse_lines(&input).unwrap();
    assert_eq!(events.len(), 7);
    assert!(matches!(events[0], DiffEvent::FileDiffHeader { .. }));
    assert!(matches!(events[1], DiffEvent::IndexHeader { .. }));
    assert!(matches!(events[2], DiffEvent::AFileHeader { .. }));
    assert!(matches!(events[3], DiffEvent::BFileHeader { .. }));
    assert!(matches!(events[4], DiffEvent::ChunkHeader { .. }));
    assert!(matches!(events[5], DiffEvent::LineDiff { .. }));
    assert!(matches!(events[6], DiffEvent::NoNewline));
}

#[test]
fn no_production_after_no_newline_is_reported() {
    let input = lines(&[
        "diff --git a/f b/f",
        "index 1..2",
        "--- a/f",
        "+++ b/f",
        "@@ -1 +1 @@",
        " x",
        "\\ No newline at end of file",
        "\\ No newline at end of file",
    ]);
    match parse_lines(&input) {
        Err(ParseError::LineParseError(n, _, m)) => {
            assert_eq!(n, 8);
            assert_eq!(m, "can't parse line with prev_state \"no_newline\"");
        }
        other => panic!("unexpected result {:?}", other),
    }
}
