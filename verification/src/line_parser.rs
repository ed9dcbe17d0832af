//! Context-sensitive line tokenizer for unified-diff text.
//!
//! Each raw line is classified against the grammar production allowed by the
//! previously emitted state; the result is a typed [`DiffEvent`]. The grammar
//! is stated by the `m_*` spec functions over character sequences, and
//! [`spec_classify`] fixes which productions each state admits and in which
//! order they are tried.

use vstd::prelude::*;
use vstd::string::StrSliceExecFns;

use crate::aggregator::DiffAction;
use crate::scan::{
    digit_run_end,
    digit_run_start,
    digits_value,
    find_from,
    first_occurrence,
    has_prefix,
    has_suffix,
    lemma_digit_run_end,
    lemma_digit_run_start,
    lemma_first_occurrence_props,
    lemma_ws_run_start,
    occurs_at,
    occurs_check,
    parse_digits,
    scan_digits_back,
    scan_digits_from,
    scan_ws_back,
    str_ends_with,
    str_eq,
    str_starts_with,
    substr_copy,
    ws_run_start,
};

verus! {

/// Tokenizer states: one per grammar production, plus the start state.
#[derive(Debug, Clone, Copy, PartialEq, Eq, Structural)]
pub enum State {
    StartOfFile,
    FileDiffHeader,
    OldMode,
    NewMode,
    NewFileMode,
    DeletedFileMode,
    RenameHeader,
    RenameFrom,
    RenameTo,
    IndexHeader,
    Binary,
    AFileHeader,
    BFileHeader,
    ChunkHeader,
    LineDiff,
    NoNewline,
}

/// One classified line: the production it matched and the fields the
/// production extracts.
#[derive(Debug, Clone, PartialEq)]
pub enum DiffEvent {
    FileDiffHeader { from_file: String, to_file: String },
    OldMode { mode: String },
    NewMode { mode: String },
    NewFileMode { mode: String },
    DeletedFileMode { mode: String },
    RenameHeader { rate: String },
    RenameFrom { from_file: String },
    RenameTo { to_file: String },
    IndexHeader { from_blob: String, to_blob: String, mode: Option<String> },
    Binary,
    AFileHeader { file: Option<String> },
    BFileHeader { file: Option<String> },
    ChunkHeader {
        from_start: usize,
        from_count: usize,
        to_start: usize,
        to_count: usize,
        trailer: String,
    },
    LineDiff { action: DiffAction, content: String },
    NoNewline,
}

/// Mathematical model of a [`DiffEvent`].
pub enum DiffEventView {
    FileDiffHeader { from_file: Seq<char>, to_file: Seq<char> },
    OldMode { mode: Seq<char> },
    NewMode { mode: Seq<char> },
    NewFileMode { mode: Seq<char> },
    DeletedFileMode { mode: Seq<char> },
    RenameHeader { rate: Seq<char> },
    RenameFrom { from_file: Seq<char> },
    RenameTo { to_file: Seq<char> },
    IndexHeader { from_blob: Seq<char>, to_blob: Seq<char>, mode: Option<Seq<char>> },
    Binary,
    AFileHeader { file: Option<Seq<char>> },
    BFileHeader { file: Option<Seq<char>> },
    ChunkHeader {
        from_start: usize,
        from_count: usize,
        to_start: usize,
        to_count: usize,
        trailer: Seq<char>,
    },
    LineDiff { action: DiffAction, content: Seq<char> },
    NoNewline,
}

impl View for DiffEvent {
    type V = DiffEventView;

    open spec fn view(&self) -> DiffEventView {
        match self {
            DiffEvent::FileDiffHeader { from_file, to_file } => DiffEventView::FileDiffHeader {
                from_file: from_file@,
                to_file: to_file@,
            },
            DiffEvent::OldMode { mode } => DiffEventView::OldMode { mode: mode@ },
            DiffEvent::NewMode { mode } => DiffEventView::NewMode { mode: mode@ },
            DiffEvent::NewFileMode { mode } => DiffEventView::NewFileMode { mode: mode@ },
            DiffEvent::DeletedFileMode { mode } => DiffEventView::DeletedFileMode { mode: mode@ },
            DiffEvent::RenameHeader { rate } => DiffEventView::RenameHeader { rate: rate@ },
            DiffEvent::RenameFrom { from_file } => DiffEventView::RenameFrom {
                from_file: from_file@,
            },
            DiffEvent::RenameTo { to_file } => DiffEventView::RenameTo { to_file: to_file@ },
            DiffEvent::IndexHeader { from_blob, to_blob, mode } => DiffEventView::IndexHeader {
                from_blob: from_blob@,
                to_blob: to_blob@,
                mode: mode.deep_view(),
            },
            DiffEvent::Binary => DiffEventView::Binary,
            DiffEvent::AFileHeader { file } => DiffEventView::AFileHeader {
                file: file.deep_view(),
            },
            DiffEvent::BFileHeader { file } => DiffEventView::BFileHeader {
                file: file.deep_view(),
            },
            DiffEvent::ChunkHeader { from_start, from_count, to_start, to_count, trailer } => {
                DiffEventView::ChunkHeader {
                    from_start: *from_start,
                    from_count: *from_count,
                    to_start: *to_start,
                    to_count: *to_count,
                    trailer: trailer@,
                }
            },
            DiffEvent::LineDiff { action, content } => DiffEventView::LineDiff {
                action: *action,
                content: content@,
            },
            DiffEvent::NoNewline => DiffEventView::NoNewline,
        }
    }
}

impl DeepView for DiffEvent {
    type V = DiffEventView;

    open spec fn deep_view(&self) -> DiffEventView {
        self.view()
    }
}

/// The state an event leaves the tokenizer in.
pub open spec fn event_state(ev: DiffEventView) -> State {
    match ev {
        DiffEventView::FileDiffHeader { .. } => State::FileDiffHeader,
        DiffEventView::OldMode { .. } => State::OldMode,
        DiffEventView::NewMode { .. } => State::NewMode,
        DiffEventView::NewFileMode { .. } => State::NewFileMode,
        DiffEventView::DeletedFileMode { .. } => State::DeletedFileMode,
        DiffEventView::RenameHeader { .. } => State::RenameHeader,
        DiffEventView::RenameFrom { .. } => State::RenameFrom,
        DiffEventView::RenameTo { .. } => State::RenameTo,
        DiffEventView::IndexHeader { .. } => State::IndexHeader,
        DiffEventView::Binary => State::Binary,
        DiffEventView::AFileHeader { .. } => State::AFileHeader,
        DiffEventView::BFileHeader { .. } => State::BFileHeader,
        DiffEventView::ChunkHeader { .. } => State::ChunkHeader,
        DiffEventView::LineDiff { .. } => State::LineDiff,
        DiffEventView::NoNewline => State::NoNewline,
    }
}

impl DiffEvent {
    /// The state this event puts the grammar in.
    pub fn state(&self) -> (st: State)
        ensures
            st == event_state(self@),
    {
        match self {
            DiffEvent::FileDiffHeader { .. } => State::FileDiffHeader,
            DiffEvent::OldMode { .. } => State::OldMode,
            DiffEvent::NewMode { .. } => State::NewMode,
            DiffEvent::NewFileMode { .. } => State::NewFileMode,
            DiffEvent::DeletedFileMode { .. } => State::DeletedFileMode,
            DiffEvent::RenameHeader { .. } => State::RenameHeader,
            DiffEvent::RenameFrom { .. } => State::RenameFrom,
            DiffEvent::RenameTo { .. } => State::RenameTo,
            DiffEvent::IndexHeader { .. } => State::IndexHeader,
            DiffEvent::Binary => State::Binary,
            DiffEvent::AFileHeader { .. } => State::AFileHeader,
            DiffEvent::BFileHeader { .. } => State::BFileHeader,
            DiffEvent::ChunkHeader { .. } => State::ChunkHeader,
            DiffEvent::LineDiff { .. } => State::LineDiff,
            DiffEvent::NoNewline => State::NoNewline,
        }
    }
}

/// Errors of the tokenizer: a production that the current state expected but
/// the line does not satisfy, or — from [`parse_lines`] — the 1-based index
/// and text of the first unclassifiable line with the expected-production
/// description.
#[derive(Debug, Clone, PartialEq)]
pub enum ParseError {
    Expected(String),
    LineParseError(usize, String, String),
}

// ---------------------------------------------------------------------------
// Grammar productions, one spec function each.
// ---------------------------------------------------------------------------

/// `diff --git a/<from_file> b/<to_file>`. The from side ends at the first
/// place where a whitespace run is followed by ` b/`; the to side loses a
/// trailing whitespace run.
pub open spec fn m_file_diff_header(s: Seq<char>) -> Option<DiffEventView> {
    let p = "diff --git a/"@;
    let sep = " b/"@;
    if !has_prefix(s, p) {
        None
    } else {
        match first_occurrence(s, sep, p.len() as int) {
            None => None,
            Some(j) => {
                let w = ws_run_start(s, j);
                let i = if w < p.len() {
                    p.len() as int
                } else {
                    w
                };
                let t0 = ws_run_start(s, s.len() as int);
                let t = if t0 < j + sep.len() {
                    j + sep.len()
                } else {
                    t0
                };
                Some(
                    DiffEventView::FileDiffHeader {
                        from_file: s.subrange(p.len() as int, i),
                        to_file: s.subrange(j + sep.len(), t),
                    },
                )
            },
        }
    }
}

/// `<p><digits>`, at least one digit, digits reaching the end of the line.
pub open spec fn m_mode_digits(s: Seq<char>, p: Seq<char>) -> Option<Seq<char>> {
    if has_prefix(s, p) && p.len() < s.len() && digit_run_end(s, p.len() as int) == s.len() {
        Some(s.subrange(p.len() as int, s.len() as int))
    } else {
        None
    }
}

pub open spec fn m_old_mode(s: Seq<char>) -> Option<DiffEventView> {
    match m_mode_digits(s, "old mode "@) {
        Some(d) => Some(DiffEventView::OldMode { mode: d }),
        None => None,
    }
}

pub open spec fn m_new_mode(s: Seq<char>) -> Option<DiffEventView> {
    match m_mode_digits(s, "new mode "@) {
        Some(d) => Some(DiffEventView::NewMode { mode: d }),
        None => None,
    }
}

pub open spec fn m_new_file_mode(s: Seq<char>) -> Option<DiffEventView> {
    match m_mode_digits(s, "new file mode "@) {
        Some(d) => Some(DiffEventView::NewFileMode { mode: d }),
        None => None,
    }
}

pub open spec fn m_deleted_file_mode(s: Seq<char>) -> Option<DiffEventView> {
    match m_mode_digits(s, "deleted file mode "@) {
        Some(d) => Some(DiffEventView::DeletedFileMode { mode: d }),
        None => None,
    }
}

/// `<p><rest>`: the prefix followed by anything; the rest is captured.
pub open spec fn m_prefix_rest(s: Seq<char>, p: Seq<char>) -> Option<Seq<char>> {
    if has_prefix(s, p) {
        Some(s.subrange(p.len() as int, s.len() as int))
    } else {
        None
    }
}

/// `similarity index <digits>`: anything may follow the digit run.
pub open spec fn m_rename_header(s: Seq<char>) -> Option<DiffEventView> {
    let p = "similarity index "@;
    if has_prefix(s, p) {
        Some(
            DiffEventView::RenameHeader {
                rate: s.subrange(p.len() as int, digit_run_end(s, p.len() as int)),
            },
        )
    } else {
        None
    }
}

pub open spec fn m_rename_from(s: Seq<char>) -> Option<DiffEventView> {
    match m_prefix_rest(s, "rename from "@) {
        Some(f) => Some(DiffEventView::RenameFrom { from_file: f }),
        None => None,
    }
}

pub open spec fn m_rename_to(s: Seq<char>) -> Option<DiffEventView> {
    match m_prefix_rest(s, "rename to "@) {
        Some(f) => Some(DiffEventView::RenameTo { to_file: f }),
        None => None,
    }
}

/// `index <from_blob>..<to_blob>[ <mode>]`. The from blob ends at the first
/// `..`; a mode is present when the line ends in a space followed by a
/// nonempty digit run that starts after the `..`.
pub open spec fn m_index_header(s: Seq<char>) -> Option<DiffEventView> {
    let p = "index "@;
    let dots = ".."@;
    if !has_prefix(s, p) {
        None
    } else {
        match first_occurrence(s, dots, p.len() as int) {
            None => None,
            Some(j) => {
                let d = digit_run_start(s, s.len() as int);
                if d < s.len() && 1 <= d && d - 1 >= j + dots.len() && s[d - 1] == ' ' {
                    Some(
                        DiffEventView::IndexHeader {
                            from_blob: s.subrange(p.len() as int, j),
                            to_blob: s.subrange(j + dots.len(), d - 1),
                            mode: Some(s.subrange(d, s.len() as int)),
                        },
                    )
                } else {
                    Some(
                        DiffEventView::IndexHeader {
                            from_blob: s.subrange(p.len() as int, j),
                            to_blob: s.subrange(j + dots.len(), s.len() as int),
                            mode: None,
                        },
                    )
                }
            },
        }
    }
}

/// `Binary files <a> and <b> differ`, anywhere in the line, ending the line.
pub open spec fn m_binary(s: Seq<char>) -> bool {
    let bp = "Binary files "@;
    let ap = " and "@;
    let suf = " differ"@;
    has_suffix(s, suf) && match first_occurrence(s, bp, 0) {
        None => false,
        Some(i) => match first_occurrence(s, ap, i + bp.len()) {
            None => false,
            Some(j) => j + ap.len() + suf.len() <= s.len(),
        },
    }
}

pub open spec fn m_binary_event(s: Seq<char>) -> Option<DiffEventView> {
    if m_binary(s) {
        Some(DiffEventView::Binary)
    } else {
        None
    }
}

/// `<devnull>` exactly (no captured path), or `<p><path>` with a trailing
/// whitespace run stripped from the path.
pub open spec fn m_file_header(s: Seq<char>, devnull: Seq<char>, p: Seq<char>) -> Option<
    Option<Seq<char>>,
> {
    if s == devnull {
        Some(None)
    } else if has_prefix(s, p) {
        let t0 = ws_run_start(s, s.len() as int);
        let t = if t0 < p.len() {
            p.len() as int
        } else {
            t0
        };
        Some(Some(s.subrange(p.len() as int, t)))
    } else {
        None
    }
}

pub open spec fn m_a_file_header(s: Seq<char>) -> Option<DiffEventView> {
    match m_file_header(s, "--- /dev/null"@, "--- a/"@) {
        Some(f) => Some(DiffEventView::AFileHeader { file: f }),
        None => None,
    }
}

pub open spec fn m_b_file_header(s: Seq<char>) -> Option<DiffEventView> {
    match m_file_header(s, "+++ /dev/null"@, "+++ b/"@) {
        Some(f) => Some(DiffEventView::BFileHeader { file: f }),
        None => None,
    }
}

/// `<digits>[,<digits>]` starting at `pos`: the start value, the count value
/// (1 when the comma part is absent), and the position just past the part.
pub open spec fn m_range_part(s: Seq<char>, pos: int) -> Option<(nat, nat, int)> {
    let e1 = digit_run_end(s, pos);
    if e1 == pos {
        None
    } else {
        let v = digits_value(s.subrange(pos, e1));
        if e1 < s.len() && s[e1] == ',' {
            let e2 = digit_run_end(s, e1 + 1);
            if e2 == e1 + 1 {
                None
            } else {
                Some((v, digits_value(s.subrange(e1 + 1, e2)), e2))
            }
        } else {
            Some((v, 1, e1))
        }
    }
}

/// `@@ -<from_start>[,<from_count>] +<to_start>[,<to_count>] @@<trailer>`.
/// Omitted counts default to 1; numbers must fit the machine word.
pub open spec fn m_chunk_header(s: Seq<char>) -> Option<DiffEventView> {
    let p = "@@ -"@;
    let plus = " +"@;
    let close = " @@"@;
    if !has_prefix(s, p) {
        None
    } else {
        match m_range_part(s, p.len() as int) {
            None => None,
            Some((fs, fc, c1)) => {
                if !occurs_at(s, plus, c1) {
                    None
                } else {
                    match m_range_part(s, c1 + plus.len()) {
                        None => None,
                        Some((ts, tc, c2)) => {
                            if !occurs_at(s, close, c2) {
                                None
                            } else if fs > usize::MAX || fc > usize::MAX || ts > usize::MAX
                                || tc > usize::MAX {
                                None
                            } else {
                                Some(
                                    DiffEventView::ChunkHeader {
                                        from_start: fs as usize,
                                        from_count: fc as usize,
                                        to_start: ts as usize,
                                        to_count: tc as usize,
                                        trailer: s.subrange(c2 + close.len(), s.len() as int),
                                    },
                                )
                            }
                        },
                    }
                }
            },
        }
    }
}

/// The from side of a chunk header carries no explicit `,<count>` part.
pub open spec fn chunk_from_count_omitted(s: Seq<char>) -> bool {
    let e1 = digit_run_end(s, "@@ -"@.len() as int);
    !(e1 < s.len() && s[e1] == ',')
}

/// The to side of a chunk header carries no explicit `,<count>` part.
pub open spec fn chunk_to_count_omitted(s: Seq<char>) -> bool {
    match m_range_part(s, "@@ -"@.len() as int) {
        None => true,
        Some((_, _, c1)) => {
            let e3 = digit_run_end(s, c1 + " +"@.len());
            !(e3 < s.len() && s[e3] == ',')
        },
    }
}

/// Default-count law: a chunk header lacking an explicit count on one side
/// parses with that side's count equal to 1.
pub proof fn lemma_default_count(s: Seq<char>)
    requires
        m_chunk_header(s) is Some,
    ensures
        m_chunk_header(s) matches Some(DiffEventView::ChunkHeader { from_count, to_count, .. })
            && (chunk_from_count_omitted(s) ==> from_count == 1) && (chunk_to_count_omitted(s)
            ==> to_count == 1),
{
}

/// `-<content>`, `+<content>` or ` <content>`.
pub open spec fn m_line_diff(s: Seq<char>) -> Option<DiffEventView> {
    if s.len() >= 1 && (s[0] == '-' || s[0] == '+' || s[0] == ' ') {
        Some(
            DiffEventView::LineDiff {
                action: if s[0] == '-' {
                    DiffAction::Delete
                } else if s[0] == '+' {
                    DiffAction::Add
                } else {
                    DiffAction::Context
                },
                content: s.subrange(1, s.len() as int),
            },
        )
    } else {
        None
    }
}

pub open spec fn m_no_newline(s: Seq<char>) -> Option<DiffEventView> {
    if s == "\\ No newline at end of file"@ {
        Some(DiffEventView::NoNewline)
    } else {
        None
    }
}

// ---------------------------------------------------------------------------
// The transition table: which productions each previous state admits, in
// which order.
// ---------------------------------------------------------------------------

/// Classify one line given the previously emitted state. `None` means no
/// production allowed from that state matches the line.
pub open spec fn spec_classify(prev: State, s: Seq<char>) -> Option<DiffEventView> {
    match prev {
        State::StartOfFile => m_file_diff_header(s),
        State::FileDiffHeader => if m_old_mode(s) is Some {
            m_old_mode(s)
        } else if m_new_file_mode(s) is Some {
            m_new_file_mode(s)
        } else if m_deleted_file_mode(s) is Some {
            m_deleted_file_mode(s)
        } else if m_rename_header(s) is Some {
            m_rename_header(s)
        } else {
            m_index_header(s)
        },
        State::OldMode => m_new_mode(s),
        State::NewMode => if m_file_diff_header(s) is Some {
            m_file_diff_header(s)
        } else if m_rename_header(s) is Some {
            m_rename_header(s)
        } else {
            m_index_header(s)
        },
        State::NewFileMode => if m_rename_header(s) is Some {
            m_rename_header(s)
        } else {
            m_index_header(s)
        },
        State::DeletedFileMode => if m_rename_header(s) is Some {
            m_rename_header(s)
        } else {
            m_index_header(s)
        },
        State::RenameHeader => m_rename_from(s),
        State::RenameFrom => m_rename_to(s),
        State::RenameTo => if m_file_diff_header(s) is Some {
            m_file_diff_header(s)
        } else if m_rename_header(s) is Some {
            m_rename_header(s)
        } else {
            m_index_header(s)
        },
        State::IndexHeader => if m_file_diff_header(s) is Some {
            m_file_diff_header(s)
        } else if m_binary_event(s) is Some {
            m_binary_event(s)
        } else {
            m_a_file_header(s)
        },
        State::Binary => m_file_diff_header(s),
        State::AFileHeader => m_b_file_header(s),
        State::BFileHeader => m_chunk_header(s),
        State::ChunkHeader => if m_line_diff(s) is Some {
            m_line_diff(s)
        } else {
            m_no_newline(s)
        },
        State::LineDiff => if m_file_diff_header(s) is Some {
            m_file_diff_header(s)
        } else if m_chunk_header(s) is Some {
            m_chunk_header(s)
        } else if m_line_diff(s) is Some {
            m_line_diff(s)
        } else {
            m_no_newline(s)
        },
        State::NoNewline => if m_file_diff_header(s) is Some {
            m_file_diff_header(s)
        } else if m_chunk_header(s) is Some {
            m_chunk_header(s)
        } else {
            m_line_diff(s)
        },
    }
}

/// The expected-production description reported when no production allowed
/// from `prev` matches.
pub open spec fn spec_expected_msg(prev: State) -> Seq<char> {
    match prev {
        State::StartOfFile => "expected file diff header"@,
        State::FileDiffHeader => "expected index_diff_header"@,
        State::OldMode => "expected new_mode_header"@,
        State::NewMode => "expected index_diff_header"@,
        State::NewFileMode => "expected index_diff_header"@,
        State::DeletedFileMode => "expected index_diff_header"@,
        State::RenameHeader => "can't parse line with prev_state \"rename_header\""@,
        State::RenameFrom => "can't parse line with prev_state \"rename_from\""@,
        State::RenameTo => "expected index_diff_header"@,
        State::IndexHeader => "expected a_file_change_header"@,
        State::Binary => "can't parse line with prev_state \"binary\""@,
        State::AFileHeader => "expected b_file_change_header"@,
        State::BFileHeader => "expected chunk_header"@,
        State::ChunkHeader => "expected line_diff or no_newline"@,
        State::LineDiff => "expected line_diff or no_newline"@,
        State::NoNewline => "can't parse line with prev_state \"no_newline\""@,
    }
}

// ---------------------------------------------------------------------------
// Executable matchers, one per production shape.
// ---------------------------------------------------------------------------

fn try_file_diff_header(line: &str) -> (r: Option<DiffEvent>)
    ensures
        r.deep_view() == m_file_diff_header(line@),
{
    let p = "diff --git a/";
    let sep = " b/";
    if !str_starts_with(line, p) {
        return None;
    }
    let n = line.unicode_len();
    let pl = p.unicode_len();
    match find_from(line, sep, pl) {
        None => None,
        Some(j) => {
            proof {
                lemma_first_occurrence_props(line@, sep@, pl as int);
                lemma_ws_run_start(line@, j as int);
                lemma_ws_run_start(line@, n as int);
            }
            let sl = sep.unicode_len();
            let w = scan_ws_back(line, j);
            let i = if w < pl {
                pl
            } else {
                w
            };
            let t0 = scan_ws_back(line, n);
            let t = if t0 < j + sl {
                j + sl
            } else {
                t0
            };
            let from_file = substr_copy(line, pl, i);
            let to_file = substr_copy(line, j + sl, t);
            Some(DiffEvent::FileDiffHeader { from_file, to_file })
        },
    }
}

fn try_mode_digits(line: &str, p: &str) -> (r: Option<String>)
    ensures
        r.deep_view() == m_mode_digits(line@, p@),
{
    if !str_starts_with(line, p) {
        return None;
    }
    let n = line.unicode_len();
    let pl = p.unicode_len();
    if pl >= n {
        return None;
    }
    let e = scan_digits_from(line, pl);
    if e != n {
        return None;
    }
    Some(substr_copy(line, pl, n))
}

fn try_prefix_rest(line: &str, p: &str) -> (r: Option<String>)
    ensures
        r.deep_view() == m_prefix_rest(line@, p@),
{
    if !str_starts_with(line, p) {
        return None;
    }
    let n = line.unicode_len();
    let pl = p.unicode_len();
    Some(substr_copy(line, pl, n))
}

fn try_rename_header(line: &str) -> (r: Option<String>)
    ensures
        match m_rename_header(line@) {
            Some(ev) => r matches Some(rt) && ev == (DiffEventView::RenameHeader { rate: rt@ }),
            None => r is None,
        },
{
    let p = "similarity index ";
    if !str_starts_with(line, p) {
        return None;
    }
    let pl = p.unicode_len();
    let e = scan_digits_from(line, pl);
    proof {
        lemma_digit_run_end(line@, pl as int);
    }
    Some(substr_copy(line, pl, e))
}

fn try_index_header(line: &str) -> (r: Option<DiffEvent>)
    ensures
        r.deep_view() == m_index_header(line@),
{
    let p = "index ";
    let dots = "..";
    if !str_starts_with(line, p) {
        return None;
    }
    let n = line.unicode_len();
    let pl = p.unicode_len();
    match find_from(line, dots, pl) {
        None => None,
        Some(j) => {
            proof {
                lemma_first_occurrence_props(line@, dots@, pl as int);
                lemma_digit_run_start(line@, n as int);
            }
            let dl = dots.unicode_len();
            let d = scan_digits_back(line, n);
            let from_blob = substr_copy(line, pl, j);
            if d < n && 1 <= d && d - 1 >= j + dl && line.get_char(d - 1) == ' ' {
                let to_blob = substr_copy(line, j + dl, d - 1);
                let mode = substr_copy(line, d, n);
                Some(DiffEvent::IndexHeader { from_blob, to_blob, mode: Some(mode) })
            } else {
                let to_blob = substr_copy(line, j + dl, n);
                Some(DiffEvent::IndexHeader { from_blob, to_blob, mode: None })
            }
        },
    }
}

fn try_binary(line: &str) -> (r: bool)
    ensures
        r == m_binary(line@),
{
    let suf = " differ";
    let bp = "Binary files ";
    let ap = " and ";
    if !str_ends_with(line, suf) {
        return false;
    }
    let n = line.unicode_len();
    match find_from(line, bp, 0) {
        None => false,
        Some(i) => {
            proof {
                lemma_first_occurrence_props(line@, bp@, 0);
            }
            let bl = bp.unicode_len();
            match find_from(line, ap, i + bl) {
                None => false,
                Some(j) => {
                    proof {
                        lemma_first_occurrence_props(line@, ap@, i + bl);
                    }
                    let al = ap.unicode_len();
                    let sl = suf.unicode_len();
                    sl <= n - (j + al)
                },
            }
        },
    }
}

fn try_file_header(line: &str, devnull: &str, p: &str) -> (r: Option<Option<String>>)
    ensures
        r.deep_view() == m_file_header(line@, devnull@, p@),
{
    if str_eq(line, devnull) {
        return Some(None);
    }
    if !str_starts_with(line, p) {
        return None;
    }
    let n = line.unicode_len();
    let pl = p.unicode_len();
    proof {
        lemma_ws_run_start(line@, n as int);
    }
    let t0 = scan_ws_back(line, n);
    let t = if t0 < pl {
        pl
    } else {
        t0
    };
    Some(Some(substr_copy(line, pl, t)))
}

/// Scan `<digits>[,<digits>]` at `pos`: the two values (`None` where a value
/// does not fit in `usize`) and the position just past the part.
fn scan_range_part(line: &str, pos: usize) -> (r: Option<(Option<usize>, Option<usize>, usize)>)
    requires
        pos <= line@.len(),
    ensures
        match m_range_part(line@, pos as int) {
            None => r is None,
            Some((v, c, e)) => r matches Some((vo, co, ee)) && ee == e && ee <= line@.len() && (
            match vo {
                Some(vv) => vv == v,
                None => v > usize::MAX,
            }) && (match co {
                Some(cc) => cc == c,
                None => c > usize::MAX,
            }),
        },
{
    let n = line.unicode_len();
    let e1 = scan_digits_from(line, pos);
    proof {
        lemma_digit_run_end(line@, pos as int);
    }
    if e1 == pos {
        return None;
    }
    let v = parse_digits(line, pos, e1);
    if e1 < n && line.get_char(e1) == ',' {
        let e2 = scan_digits_from(line, e1 + 1);
        proof {
            lemma_digit_run_end(line@, e1 + 1);
        }
        if e2 == e1 + 1 {
            return None;
        }
        let c = parse_digits(line, e1 + 1, e2);
        Some((v, c, e2))
    } else {
        Some((v, Some(1), e1))
    }
}

fn try_chunk_header(line: &str) -> (r: Option<DiffEvent>)
    ensures
        r.deep_view() == m_chunk_header(line@),
{
    let p = "@@ -";
    let plus = " +";
    let close = " @@";
    if !str_starts_with(line, p) {
        return None;
    }
    let n = line.unicode_len();
    let pl = p.unicode_len();
    let first = match scan_range_part(line, pl) {
        None => {
            return None;
        },
        Some(t) => t,
    };
    let (fv, fc, c1) = first;
    let sl = plus.unicode_len();
    if sl > n - c1 {
        return None;
    }
    if !occurs_check(line, plus, c1) {
        return None;
    }
    let second = match scan_range_part(line, c1 + sl) {
        None => {
            return None;
        },
        Some(t) => t,
    };
    let (tv, tc, c2) = second;
    let cl = close.unicode_len();
    if cl > n - c2 {
        return None;
    }
    if !occurs_check(line, close, c2) {
        return None;
    }
    let from_start = match fv {
        Some(v) => v,
        None => {
            return None;
        },
    };
    let from_count = match fc {
        Some(v) => v,
        None => {
            return None;
        },
    };
    let to_start = match tv {
        Some(v) => v,
        None => {
            return None;
        },
    };
    let to_count = match tc {
        Some(v) => v,
        None => {
            return None;
        },
    };
    let trailer = substr_copy(line, c2 + cl, n);
    Some(DiffEvent::ChunkHeader { from_start, from_count, to_start, to_count, trailer })
}

fn try_line_diff(line: &str) -> (r: Option<DiffEvent>)
    ensures
        r.deep_view() == m_line_diff(line@),
{
    let n = line.unicode_len();
    if n == 0 {
        return None;
    }
    let c = line.get_char(0);
    let action = if c == '-' {
        DiffAction::Delete
    } else if c == '+' {
        DiffAction::Add
    } else if c == ' ' {
        DiffAction::Context
    } else {
        return None;
    };
    Some(DiffEvent::LineDiff { action, content: substr_copy(line, 1, n) })
}

fn try_no_newline(line: &str) -> (r: bool)
    ensures
        r == (m_no_newline(line@) is Some),
{
    str_eq(line, "\\ No newline at end of file")
}

fn expected_err(m: &str) -> (r: ParseError)
    ensures
        r matches ParseError::Expected(s) && s@ == m@,
{
    ParseError::Expected(m.to_owned())
}

/// Classify one line against the productions that `prev_state` allows.
/// Returns the typed event, or the expected-production description when no
/// allowed production matches.
pub fn parse_line(line: &str, prev_state: State) -> (r: Result<DiffEvent, ParseError>)
    ensures
        match spec_classify(prev_state, line@) {
            Some(ev) => r matches Ok(e) && e@ == ev,
            None => r matches Err(pe) && (pe matches ParseError::Expected(m) && m@
                == spec_expected_msg(prev_state)),
        },
{
    match prev_state {
        State::StartOfFile => {
            match try_file_diff_header(line) {
                Some(e) => Ok(e),
                None => Err(expected_err("expected file diff header")),
            }
        },
        State::FileDiffHeader => {
            if let Some(mode) = try_mode_digits(line, "old mode ") {
                return Ok(DiffEvent::OldMode { mode });
            }
            if let Some(mode) = try_mode_digits(line, "new file mode ") {
                return Ok(DiffEvent::NewFileMode { mode });
            }
            if let Some(mode) = try_mode_digits(line, "deleted file mode ") {
                return Ok(DiffEvent::DeletedFileMode { mode });
            }
            if let Some(rate) = try_rename_header(line) {
                return Ok(DiffEvent::RenameHeader { rate });
            }
            match try_index_header(line) {
                Some(e) => Ok(e),
                None => Err(expected_err("expected index_diff_header")),
            }
        },
        State::OldMode => {
            match try_mode_digits(line, "new mode ") {
                Some(mode) => Ok(DiffEvent::NewMode { mode }),
                None => Err(expected_err("expected new_mode_header")),
            }
        },
        State::NewMode | State::RenameTo => {
            if let Some(e) = try_file_diff_header(line) {
                return Ok(e);
            }
            if let Some(rate) = try_rename_header(line) {
                return Ok(DiffEvent::RenameHeader { rate });
            }
            match try_index_header(line) {
                Some(e) => Ok(e),
                None => Err(expected_err("expected index_diff_header")),
            }
        },
        State::NewFileMode | State::DeletedFileMode => {
            if let Some(rate) = try_rename_header(line) {
                return Ok(DiffEvent::RenameHeader { rate });
            }
            match try_index_header(line) {
                Some(e) => Ok(e),
                None => Err(expected_err("expected index_diff_header")),
            }
        },
        State::RenameHeader => {
            match try_prefix_rest(line, "rename from ") {
                Some(from_file) => Ok(DiffEvent::RenameFrom { from_file }),
                None => Err(expected_err("can't parse line with prev_state \"rename_header\"")),
            }
        },
        State::RenameFrom => {
            match try_prefix_rest(line, "rename to ") {
                Some(to_file) => Ok(DiffEvent::RenameTo { to_file }),
                None => Err(expected_err("can't parse line with prev_state \"rename_from\"")),
            }
        },
        State::IndexHeader => {
            if let Some(e) = try_file_diff_header(line) {
                return Ok(e);
            }
            if try_binary(line) {
                return Ok(DiffEvent::Binary);
            }
            match try_file_header(line, "--- /dev/null", "--- a/") {
                Some(file) => Ok(DiffEvent::AFileHeader { file }),
                None => Err(expected_err("expected a_file_change_header")),
            }
        },
        State::Binary => {
            match try_file_diff_header(line) {
                Some(e) => Ok(e),
                None => Err(expected_err("can't parse line with prev_state \"binary\"")),
            }
        },
        State::AFileHeader => {
            match try_file_header(line, "+++ /dev/null", "+++ b/") {
                Some(file) => Ok(DiffEvent::BFileHeader { file }),
                None => Err(expected_err("expected b_file_change_header")),
            }
        },
        State::BFileHeader => {
            match try_chunk_header(line) {
                Some(e) => Ok(e),
                None => Err(expected_err("expected chunk_header")),
            }
        },
        State::ChunkHeader => {
            if let Some(e) = try_line_diff(line) {
                return Ok(e);
            }
            if try_no_newline(line) {
                return Ok(DiffEvent::NoNewline);
            }
            Err(expected_err("expected line_diff or no_newline"))
        },
        State::LineDiff => {
            if let Some(e) = try_file_diff_header(line) {
                return Ok(e);
            }
            if let Some(e) = try_chunk_header(line) {
                return Ok(e);
            }
            if let Some(e) = try_line_diff(line) {
                return Ok(e);
            }
            if try_no_newline(line) {
                return Ok(DiffEvent::NoNewline);
            }
            Err(expected_err("expected line_diff or no_newline"))
        },
        State::NoNewline => {
            if let Some(e) = try_file_diff_header(line) {
                return Ok(e);
            }
            if let Some(e) = try_chunk_header(line) {
                return Ok(e);
            }
            match try_line_diff(line) {
                Some(e) => Ok(e),
                None => Err(expected_err("can't parse line with prev_state \"no_newline\"")),
            }
        },
    }
}

// ---------------------------------------------------------------------------
// Tokenizing a whole line sequence.
// ---------------------------------------------------------------------------

/// Model of a whole-input tokenizer failure: the 0-based index of the first
/// unclassifiable line, its text, and the expected-production description.
pub struct TokenizeErrorView {
    pub index: int,
    pub line: Seq<char>,
    pub msg: Seq<char>,
}

/// Tokenize `lines` from position `i` onward, with `st` the previously
/// emitted state. Stops at the first line no allowed production matches.
pub open spec fn spec_tokenize(lines: Seq<Seq<char>>, i: int, st: State) -> Result<
    Seq<DiffEventView>,
    TokenizeErrorView,
>
    decreases lines.len() - i,
{
    if i < 0 || i >= lines.len() {
        Ok(Seq::empty())
    } else {
        match spec_classify(st, lines[i]) {
            None => Err(
                TokenizeErrorView { index: i, line: lines[i], msg: spec_expected_msg(st) },
            ),
            Some(ev) => match spec_tokenize(lines, i + 1, event_state(ev)) {
                Ok(rest) => Ok(seq![ev] + rest),
                Err(e) => Err(e),
            },
        }
    }
}

/// The whole tokenizer: all lines, from the start state.
pub open spec fn spec_parse_lines(lines: Seq<Seq<char>>) -> Result<
    Seq<DiffEventView>,
    TokenizeErrorView,
> {
    spec_tokenize(lines, 0, State::StartOfFile)
}

/// `spec_tokenize` from position `i`, with the events already produced
/// prepended to a success.
pub open spec fn tokenize_continuation(
    lines: Seq<Seq<char>>,
    i: int,
    st: State,
    done: Seq<DiffEventView>,
) -> Result<Seq<DiffEventView>, TokenizeErrorView> {
    match spec_tokenize(lines, i, st) {
        Ok(rest) => Ok(done + rest),
        Err(e) => Err(e),
    }
}

/// Tokenize an ordered sequence of text lines into the event sequence, or
/// report the first line that no production allowed by the current state
/// matches. The failure carries the 1-based line index, the raw line, and
/// the expected-production description; no partial event list escapes.
pub fn parse_lines(lines: &Vec<String>) -> (r: Result<Vec<DiffEvent>, ParseError>)
    ensures
        match spec_parse_lines(lines.deep_view()) {
            Ok(evs) => r matches Ok(v) && v.deep_view() == evs,
            Err(te) => r matches Err(pe) && (pe matches ParseError::LineParseError(n, l, m) && n
                == te.index + 1 && l@ == te.line && m@ == te.msg),
        },
{
    let ghost ldv = lines.deep_view();
    let mut events: Vec<DiffEvent> = Vec::new();
    let mut st = State::StartOfFile;
    let mut i: usize = 0;
    proof {
        match spec_tokenize(ldv, 0, State::StartOfFile) {
            Ok(rest) => {
                assert(events.deep_view() + rest =~= rest);
            },
            Err(_) => {},
        }
        assert(events.deep_view() =~= Seq::<DiffEventView>::empty());
    }
    while i < lines.len()
        invariant
            i <= lines.len(),
            ldv == lines.deep_view(),
            spec_parse_lines(ldv) == tokenize_continuation(ldv, i as int, st, events.deep_view()),
        decreases lines.len() - i,
    {
        let line = &lines[i];
        match parse_line(line.as_str(), st) {
            Ok(ev) => {
                let ghost pre_dv = events.deep_view();
                let st2 = ev.state();
                proof {
                    match spec_tokenize(ldv, i + 1, event_state(ev@)) {
                        Ok(rest) => {
                            assert(pre_dv + (seq![ev@] + rest) =~= pre_dv.push(ev@) + rest);
                        },
                        Err(_) => {},
                    }
                }
                events.push(ev);
                proof {
                    assert(events.deep_view() =~= pre_dv.push(events[events.len() - 1]@));
                }
                st = st2;
            },
            Err(pe) => {
                match pe {
                    ParseError::Expected(m) => {
                        return Err(ParseError::LineParseError(i + 1, line.clone(), m));
                    },
                    ParseError::LineParseError(..) => {
                        proof {
                            assert(false);
                        }
                        return vstd::pervasive::unreached();
                    },
                }
            },
        }
        i += 1;
    }
    proof {
        match spec_tokenize(ldv, i as int, st) {
            Ok(rest) => {
                assert(events.deep_view() + rest =~= events.deep_view());
            },
            Err(_) => {},
        }
    }
    Ok(events)
}

} // verus!
