//! End-to-end tests of the two-stage pipeline.

use gitdiffparser::aggregator::{aggregator, AggregateError, DiffAction, FileDiff};
use gitdiffparser::line_parser::{DiffEvent, ParseError};
use gitdiffparser::{parse_diff, DiffError};

fn lines(text: &[&str]) -> Vec<String> {
    text.iter().map(|s| s.to_string()).collect()
}

fn check_line(
    line: &gitdiffparser::aggregator::ChunkDiffLine,
    from: usize,
    to: usize,
    content: &str,
    action: DiffAction,
) {
    assert_eq!(line.from_line_number, from);
    assert_eq!(line.to_line_number, to);
    assert_eq!(line.line, content);
    assert_eq!(line.action, action);
}

#[test]
fn concrete_scenario() {
    let input = lines(&[
        "diff --git a/foo.txt b/foo.txt",
        "index e69de29..4b825dc 100644",
        "--- a/foo.txt",
        "+++ b/foo.txt",
        "@@ -1,2 +1,3 @@",
        " line1",
        "-line2",
        "+line2 modified",
        "+line3",
    ]);
    let docs: Vec<FileDiff> = parse_diff(&input).unwrap();
    assert_eq!(docs.len(), 1);
    let d = &docs[0];
    assert_eq!(d.from.file, "foo.txt");
    assert_eq!(d.to.file, "foo.txt");
    assert_eq!(d.from.mode.as_deref(), Some("100644"));
    assert_eq!(d.to.mode.as_deref(), Some("100644"));
    assert_eq!(d.from.blob.as_deref(), Some("e69de29"));
    assert_eq!(d.to.blob.as_deref(), Some("4b825dc"));
    assert!(!d.is_binary);
    assert!(d.from.end_newline);
    assert!(d.to.end_newline);
    assert_eq!(d.chunks.len(), 1);
    let c = &d.chunks[0];
    assert_eq!(c.from.line_start, 1);
    assert_eq!(c.from.line_count, 2);
    assert_eq!(c.to.line_start, 1);
    assert_eq!(c.to.line_count, 3);
    assert_eq!(c.lines.len(), 4);
    check_line(&c.lines[0], 1, 1, "line1", DiffAction::Context);
    check_line(&c.lines[1], 2, 2, "line2", DiffAction::Delete);
    check_line(&c.lines[2], 3, 2, "line2 modified", DiffAction::Add);
    check_line(&c.lines[3], 3, 3, "line3", DiffAction::Add);
}

#[test]
fn default_counts() {
    let input = lines(&[
        "diff --git a/f b/f",
        "index 1..2",
        "--- a/f",
        "+++ b/f",
        "@@ -5 +7,2 @@",
        " x",
        "+y",
    ]);
    let docs = parse_diff(&input).unwrap();
    let c = &docs[0].chunks[0];
    assert_eq!(c.from.line_start, 5);
    assert_eq!(c.from.line_count, 1);
    assert_eq!(c.to.line_start, 7);
    assert_eq!(c.to.line_count, 2);
    let input2 = lines(&[
        "diff --git a/f b/f",
        "index 1..2",
        "--- a/f",
        "+++ b/f",
        "@@ -3,2 +9 @@",
        " x",
        "-y",
    ]);
    let docs2 = parse_diff(&input2).unwrap();
    let c2 = &docs2[0].chunks[0];
    assert_eq!(c2.from.line_count, 2);
    assert_eq!(c2.to.line_count, 1);
}

#[test]
fn no_trailing_newline() {
    let input = lines(&[
        "diff --git a/f b/f",
        "index 1..2",
        "--- a/f",
        "+++ b/f",
        "@@ -1 +1 @@",
        "+x",
        "\\ No newline at end of file",
    ]);
    let docs = parse_diff(&input).unwrap();
    assert_eq!(docs.len(), 1);
    assert!(!docs[0].to.end_newline);
    assert!(docs[0].from.end_newline);
    assert_eq!(docs[0].chunks[0].lines.len(), 1);
}

#[test]
fn no_newline_reconciliation_quirk() {
    // A later line event after a marker resets both flags back to true.
    let input = lines(&[
        "diff --git a/f b/f",
        "index 1..2",
        "--- a/f",
        "+++ b/f",
        "@@ -1 +1 @@",
        "-a",
        "\\ No newline at end of file",
        "+b",
    ]);
    let docs = parse_diff(&input).unwrap();
    assert!(docs[0].to.end_newline);
    assert!(docs[0].from.end_newline);
}

#[test]
fn third_no_newline_marker_rejected() {
    let input = lines(&[
        "diff --git a/f b/f",
        "index 1..2",
        "--- a/f",
        "+++ b/f",
        "@@ -1 +1 @@",
        "-a",
        "\\ No newline at end of file",
        "+b",
        "\\ No newline at end of file",
        " c",
        "\\ No newline at end of file",
    ]);
    match parse_diff(&input) {
        Err(DiffError::Aggregate(AggregateError::TooManyNoNewline { index })) => {
            assert_eq!(index, 10);
        }
        other => panic!("expected a no-newline invariant error, got {:?}", other),
    }
}

#[test]
fn atomicity_on_bad_line() {
    let input = lines(&[
        "diff --git a/f b/f",
        "index 1..2",
        "--- a/f",
        "+++ b/f",
        "@@ -1 +1 @@",
        " fine",
        "garbage that matches nothing",
        " more",
    ]);
    match parse_diff(&input) {
        Err(DiffError::Parse(ParseError::LineParseError(n, l, m))) => {
            assert_eq!(n, 7);
            assert_eq!(l, "garbage that matches nothing");
            assert_eq!(m, "expected line_diff or no_newline");
        }
        other => panic!("expected a tokenizer error, got {:?}", other),
    }
}

#[test]
fn idempotence_two_parses_agree() {
    let input = lines(&[
        "diff --git a/foo.txt b/foo.txt",
        "index e69de29..4b825dc 100644",
        "--- a/foo.txt",
        "+++ b/foo.txt",
        "@@ -1,2 +1,3 @@",
        " line1",
        "-line2",
        "+line2 modified",
        "+line3",
        "diff --git a/bar b/bar",
        "index a..b",
        "Binary files a/bar and b/bar differ",
    ]);
    let first = parse_diff(&input).unwrap();
    let second = parse_diff(&input).unwrap();
    assert_eq!(first, second);
}

#[test]
fn rename_events_are_unhandled() {
    let input = lines(&[
        "diff --git a/old b/new",
        "similarity index 100%",
        "rename from old",
        "rename to new",
    ]);
    match parse_diff(&input) {
        Err(DiffError::Aggregate(AggregateError::UnhandledEvent { index, .. })) => {
            assert_eq!(index, 1);
        }
        other => panic!("expected an unhandled-event error, got {:?}", other),
    }
}

#[test]
fn binary_diff_sets_flag() {
    let input = lines(&[
        "diff --git a/img b/img",
        "index 1..2",
        "Binary files a/img and b/img differ",
    ]);
    let docs = parse_diff(&input).unwrap();
    assert_eq!(docs.len(), 1);
    assert!(docs[0].is_binary);
    assert_eq!(docs[0].chunks.len(), 0);
}

#[test]
fn mode_change_headers() {
    let input = lines(&[
        "diff --git a/f b/f",
        "old mode 100644",
        "new mode 100755",
        "index 1..2",
        "--- a/f",
        "+++ b/f",
        "@@ -1 +1 @@",
        " x",
    ]);
    let docs = parse_diff(&input).unwrap();
    assert_eq!(docs[0].from.mode.as_deref(), Some("100644"));
    assert_eq!(docs[0].to.mode.as_deref(), Some("100755"));
}

#[test]
fn new_file_uses_zero_mode_sentinel() {
    let input = lines(&[
        "diff --git a/f b/f",
        "new file mode 100644",
        "index 0000000..4b825dc",
        "--- /dev/null",
        "+++ b/f",
        "@@ -0,0 +1 @@",
        "+x",
    ]);
    let docs = parse_diff(&input).unwrap();
    assert_eq!(docs[0].from.mode.as_deref(), Some("0000000"));
    assert_eq!(docs[0].to.mode.as_deref(), Some("100644"));
    assert_eq!(docs[0].from.blob.as_deref(), Some("0000000"));
    assert_eq!(docs[0].to.blob.as_deref(), Some("4b825dc"));
}

#[test]
fn deleted_file_uses_zero_mode_sentinel() {
    let input = lines(&[
        "diff --git a/f b/f",
        "deleted file mode 100644",
        "index 4b825dc..0000000",
        "--- a/f",
        "+++ /dev/null",
        "@@ -1 +0,0 @@",
        "-x",
    ]);
    let docs = parse_diff(&input).unwrap();
    assert_eq!(docs[0].from.mode.as_deref(), Some("100644"));
    assert_eq!(docs[0].to.mode.as_deref(), Some("0000000"));
}

#[test]
fn path_mismatch_is_fatal() {
    let input = lines(&[
        "diff --git a/f b/f",
        "index 1..2",
        "--- a/other",
    ]);
    match parse_diff(&input) {
        Err(DiffError::Aggregate(AggregateError::PathMismatch { index })) => {
            assert_eq!(index, 2);
        }
        other => panic!("expected a path-mismatch error, got {:?}", other),
    }
}

#[test]
fn two_documents_flush_in_order() {
    let input = lines(&[
        "diff --git a/one b/one",
        "index 1..2",
        "--- a/one",
        "+++ b/one",
        "@@ -1 +1 @@",
        " a",
        "diff --git a/two b/two",
        "index 3..4",
        "--- a/two",
        "+++ b/two",
        "@@ -2 +2 @@",
        "-b",
        "+c",
    ]);
    let docs = parse_diff(&input).unwrap();
    assert_eq!(docs.len(), 2);
    assert_eq!(docs[0].from.file, "one");
    assert_eq!(docs[1].from.file, "two");
    assert_eq!(docs[0].chunks[0].lines.len(), 1);
    assert_eq!(docs[1].chunks[0].lines.len(), 2);
}

#[test]
fn counters_replay_across_chunks() {
    let input = lines(&[
        "diff --git a/f b/f",
        "index 1..2",
        "--- a/f",
        "+++ b/f",
        "@@ -10,3 +20,2 @@",
        " k",
        "-d",
        " k2",
        "@@ -30 +40,2 @@",
        "+n",
        " k3",
    ]);
    let docs = parse_diff(&input).unwrap();
    let c1 = &docs[0].chunks[0];
    check_line(&c1.lines[0], 10, 20, "k", DiffAction::Context);
    check_line(&c1.lines[1], 11, 21, "d", DiffAction::Delete);
    check_line(&c1.lines[2], 12, 21, "k2", DiffAction::Context);
    let c2 = &docs[0].chunks[1];
    check_line(&c2.lines[0], 30, 40, "n", DiffAction::Add);
    check_line(&c2.lines[1], 30, 41, "k3", DiffAction::Context);
}

#[test]
fn counter_overflow_is_reported() {
    let input = lines(&[
        "diff --git a/f b/f",
        "index 1..2",
        "--- a/f",
        "+++ b/f",
        "@@ -18446744073709551615 +1 @@",
        " x",
        " y",
    ]);
    match parse_diff(&input) {
        Err(DiffError::Aggregate(AggregateError::CounterOverflow { index })) => {
            assert_eq!(index, 5);
        }
        other => panic!("expected a counter-overflow error, got {:?}", other),
    }
}

#[test]
fn empty_input_yields_no_documents() {
    let input: Vec<String> = Vec::new();
    let docs = parse_diff(&input).unwrap();
    assert!(docs.is_empty());
}

#[test]
fn aggregator_rejects_event_without_document() {
    let events = vec![DiffEvent::OldMode { mode: "100644".to_string() }];
    match aggregator(&events) {
        Err(AggregateError::MissingDocument { index }) => assert_eq!(index, 0),
        other => panic!("expected a missing-document error, got {:?}", other),
    }
}

#[test]
fn aggregator_rejects_line_without_chunk() {
    let events = vec![
        DiffEvent::FileDiffHeader { from_file: "f".to_string(), to_file: "f".to_string() },
        DiffEvent::LineDiff { action: DiffAction::Context, content: "x".to_string() },
    ];
    match aggregator(&events) {
        Err(AggregateError::MissingChunk { index }) => assert_eq!(index, 1),
        other => panic!("expected a missing-chunk error, got {:?}", other),
    }
}
