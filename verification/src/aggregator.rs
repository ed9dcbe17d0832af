//! Folds the tokenizer's event sequence into a list of file-diff documents.

use vstd::prelude::*;

use crate::line_parser::{event_state, DiffEvent, DiffEventView, State};

verus! {

/// Per-file bookkeeping while aggregating: how many no-newline markers the
/// current file has produced so far.
#[derive(Debug, Clone, Copy, PartialEq, Eq, Structural)]
pub struct FileMeta {
    pub no_newline_count: usize,
}

/// What a changed line does: removes the old line, adds a new one, or keeps
/// a context line shared by both sides.
#[derive(Debug, Clone, Copy, PartialEq, Eq, Structural)]
pub enum DiffAction {
    Delete,
    Add,
    Context,
}

/// One line of a chunk, with the line numbers it holds on each side.
#[derive(Debug, Clone, PartialEq)]
pub struct ChunkDiffLine {
    pub from_line_number: usize,
    pub to_line_number: usize,
    pub line: String,
    pub action: DiffAction,
}

/// Declared starting line and line count of one side of a chunk.
#[derive(Debug, Clone, Copy, PartialEq, Eq, Structural)]
pub struct LinePoint {
    pub line_start: usize,
    pub line_count: usize,
}

/// One hunk: both sides' declared ranges and the per-line changes.
#[derive(Debug, Clone, PartialEq)]
pub struct ChunkDiff {
    pub from: LinePoint,
    pub to: LinePoint,
    pub lines: Vec<ChunkDiffLine>,
}

/// Running line counters for the chunk being filled.
#[derive(Debug, Clone, Copy, PartialEq, Eq, Structural)]
pub struct ChunkMeta {
    pub from_line_number: usize,
    pub to_line_number: usize,
}

/// One side of a file diff: path, optional permission mode, optional blob
/// hash, and whether the file ends with a newline.
#[derive(Debug, Clone, PartialEq)]
pub struct FileDiffPoint {
    pub file: String,
    pub mode: Option<String>,
    pub blob: Option<String>,
    pub end_newline: bool,
}

/// A whole file diff: both endpoints, the binary flag, and the chunks.
#[derive(Debug, Clone, PartialEq)]
pub struct FileDiff {
    pub from: FileDiffPoint,
    pub to: FileDiffPoint,
    pub is_binary: bool,
    pub chunks: Vec<ChunkDiff>,
}

/// Mathematical model of a `ChunkDiffLine`.
#[verifier::ext_equal]
pub struct ChunkDiffLineView {
    pub from_line_number: usize,
    pub to_line_number: usize,
    pub line: Seq<char>,
    pub action: DiffAction,
}

/// Mathematical model of a `ChunkDiff`.
#[verifier::ext_equal]
pub struct ChunkDiffView {
    pub from: LinePoint,
    pub to: LinePoint,
    pub lines: Seq<ChunkDiffLineView>,
}

/// Mathematical model of a `FileDiffPoint`.
#[verifier::ext_equal]
pub struct FileDiffPointView {
    pub file: Seq<char>,
    pub mode: Option<Seq<char>>,
    pub blob: Option<Seq<char>>,
    pub end_newline: bool,
}

/// Mathematical model of a `FileDiff`.
#[verifier::ext_equal]
pub struct FileDiffView {
    pub from: FileDiffPointView,
    pub to: FileDiffPointView,
    pub is_binary: bool,
    pub chunks: Seq<ChunkDiffView>,
}

impl View for ChunkDiffLine {
    type V = ChunkDiffLineView;

    open spec fn view(&self) -> ChunkDiffLineView {
        ChunkDiffLineView {
            from_line_number: self.from_line_number,
            to_line_number: self.to_line_number,
            line: self.line@,
            action: self.action,
        }
    }
}

impl DeepView for ChunkDiffLine {
    type V = ChunkDiffLineView;

    open spec fn deep_view(&self) -> ChunkDiffLineView {
        self.view()
    }
}

impl View for ChunkDiff {
    type V = ChunkDiffView;

    open spec fn view(&self) -> ChunkDiffView {
        ChunkDiffView { from: self.from, to: self.to, lines: self.lines.deep_view() }
    }
}

impl DeepView for ChunkDiff {
    type V = ChunkDiffView;

    open spec fn deep_view(&self) -> ChunkDiffView {
        self.view()
    }
}

impl View for FileDiffPoint {
    type V = FileDiffPointView;

    open spec fn view(&self) -> FileDiffPointView {
        FileDiffPointView {
            file: self.file@,
            mode: self.mode.deep_view(),
            blob: self.blob.deep_view(),
            end_newline: self.end_newline,
        }
    }
}

impl View for FileDiff {
    type V = FileDiffView;

    open spec fn view(&self) -> FileDiffView {
        FileDiffView {
            from: self.from@,
            to: self.to@,
            is_binary: self.is_binary,
            chunks: self.chunks.deep_view(),
        }
    }
}

impl DeepView for FileDiff {
    type V = FileDiffView;

    open spec fn deep_view(&self) -> FileDiffView {
        self.view()
    }
}

/// Errors of the aggregator, each carrying the position of the offending
/// event in the stream.
#[derive(Debug, Clone, Copy, PartialEq, Eq, Structural)]
pub enum AggregateError {
    /// An event that needs an open document arrived before any file header.
    MissingDocument { index: usize },
    /// A line event arrived before any chunk header of the current file.
    MissingChunk { index: usize },
    /// A `---`/`+++` header names a path other than the one the file header
    /// established.
    PathMismatch { index: usize },
    /// A file reported more than two no-newline markers.
    TooManyNoNewline { index: usize },
    /// An event state the aggregator has no handling branch for.
    UnhandledEvent { index: usize, state: State },
    /// A running line counter left the machine word.
    CounterOverflow { index: usize },
}

/// Mathematical model of the aggregator's working set.
#[verifier::ext_equal]
pub struct AggStateView {
    /// Documents already closed, in order.
    pub docs: Seq<FileDiffView>,
    /// The document being filled, if any.
    pub cur: Option<FileDiffView>,
    /// The chunk being filled, not yet appended to `cur`.
    pub cur_chunk: Option<ChunkDiffView>,
    /// Running line counters of the current chunk.
    pub chunk_meta: Option<ChunkMeta>,
    /// No-newline markers seen for the current file.
    pub file_meta: Option<usize>,
}

pub open spec fn init_agg_state() -> AggStateView {
    AggStateView { docs: Seq::empty(), cur: None, cur_chunk: None, chunk_meta: None, file_meta: None }
}

/// Append the pending chunk, if any, to the open document.
pub open spec fn flush_chunk(cur: Option<FileDiffView>, ch: Option<ChunkDiffView>) -> Option<
    FileDiffView,
> {
    match (cur, ch) {
        (Some(d), Some(c)) => Some(FileDiffView { chunks: d.chunks.push(c), ..d }),
        _ => cur,
    }
}

/// Close the open document, pending chunk included, onto the output list.
pub open spec fn flush_doc(st: AggStateView) -> Seq<FileDiffView> {
    match flush_chunk(st.cur, st.cur_chunk) {
        Some(d) => st.docs.push(d),
        None => st.docs,
    }
}

/// A fresh document for a file-diff header: paths set, everything else at
/// its default.
pub open spec fn fresh_doc(from_file: Seq<char>, to_file: Seq<char>) -> FileDiffView {
    FileDiffView {
        from: FileDiffPointView { file: from_file, mode: None, blob: None, end_newline: true },
        to: FileDiffPointView { file: to_file, mode: None, blob: None, end_newline: true },
        is_binary: false,
        chunks: Seq::empty(),
    }
}

/// How one event transforms the working set, or fails. `idx` is the event's
/// position, reported in errors.
pub open spec fn agg_step(st: AggStateView, ev: DiffEventView, idx: int) -> Result<
    AggStateView,
    AggregateError,
> {
    match ev {
        DiffEventView::FileDiffHeader { from_file, to_file } => Ok(
            AggStateView {
                docs: flush_doc(st),
                cur: Some(fresh_doc(from_file, to_file)),
                cur_chunk: None,
                chunk_meta: None,
                file_meta: Some(0),
            },
        ),
        DiffEventView::OldMode { mode } => match st.cur {
            Some(d) => Ok(
                AggStateView {
                    cur: Some(
                        FileDiffView { from: FileDiffPointView { mode: Some(mode), ..d.from }, ..d },
                    ),
                    ..st
                },
            ),
            None => Err(AggregateError::MissingDocument { index: idx as usize }),
        },
        DiffEventView::NewMode { mode } => match st.cur {
            Some(d) => Ok(
                AggStateView {
                    cur: Some(
                        FileDiffView { to: FileDiffPointView { mode: Some(mode), ..d.to }, ..d },
                    ),
                    ..st
                },
            ),
            None => Err(AggregateError::MissingDocument { index: idx as usize }),
        },
        DiffEventView::NewFileMode { mode } => match st.cur {
            Some(d) => Ok(
                AggStateView {
                    cur: Some(
                        FileDiffView {
                            from: FileDiffPointView { mode: Some("0000000"@), ..d.from },
                            to: FileDiffPointView { mode: Some(mode), ..d.to },
                            ..d
                        },
                    ),
                    ..st
                },
            ),
            None => Err(AggregateError::MissingDocument { index: idx as usize }),
        },
        DiffEventView::DeletedFileMode { mode } => match st.cur {
            Some(d) => Ok(
                AggStateView {
                    cur: Some(
                        FileDiffView {
                            from: FileDiffPointView { mode: Some(mode), ..d.from },
                            to: FileDiffPointView { mode: Some("0000000"@), ..d.to },
                            ..d
                        },
                    ),
                    ..st
                },
            ),
            None => Err(AggregateError::MissingDocument { index: idx as usize }),
        },
        DiffEventView::RenameHeader { .. } | DiffEventView::RenameFrom { .. }
            | DiffEventView::RenameTo { .. } => Err(
            AggregateError::UnhandledEvent { index: idx as usize, state: event_state(ev) },
        ),
        DiffEventView::IndexHeader { from_blob, to_blob, mode } => match st.cur {
            Some(d) => {
                let d1 = FileDiffView {
                    from: FileDiffPointView { blob: Some(from_blob), ..d.from },
                    to: FileDiffPointView { blob: Some(to_blob), ..d.to },
                    ..d
                };
                let d2 = match mode {
                    Some(m) => FileDiffView {
                        from: FileDiffPointView { mode: Some(m), ..d1.from },
                        to: FileDiffPointView { mode: Some(m), ..d1.to },
                        ..d1
                    },
                    None => d1,
                };
                Ok(AggStateView { cur: Some(d2), ..st })
            },
            None => Err(AggregateError::MissingDocument { index: idx as usize }),
        },
        DiffEventView::Binary => match st.cur {
            Some(d) => Ok(AggStateView { cur: Some(FileDiffView { is_binary: true, ..d }), ..st }),
            None => Ok(st),
        },
        DiffEventView::AFileHeader { file } => match st.cur {
            Some(d) => match file {
                Some(f) => if f == d.from.file {
                    Ok(st)
                } else {
                    Err(AggregateError::PathMismatch { index: idx as usize })
                },
                None => Ok(st),
            },
            None => Ok(st),
        },
        DiffEventView::BFileHeader { file } => match st.cur {
            Some(d) => match file {
                Some(f) => if f == d.to.file {
                    Ok(st)
                } else {
                    Err(AggregateError::PathMismatch { index: idx as usize })
                },
                None => Ok(st),
            },
            None => Ok(st),
        },
        DiffEventView::ChunkHeader { from_start, from_count, to_start, to_count, trailer: _ } => {
            match st.cur {
                Some(_) => Ok(
                    AggStateView {
                        cur: flush_chunk(st.cur, st.cur_chunk),
                        cur_chunk: Some(
                            ChunkDiffView {
                                from: LinePoint { line_start: from_start, line_count: from_count },
                                to: LinePoint { line_start: to_start, line_count: to_count },
                                lines: Seq::empty(),
                            },
                        ),
                        chunk_meta: Some(
                            ChunkMeta { from_line_number: from_start, to_line_number: to_start },
                        ),
                        ..st
                    },
                ),
                None => Err(AggregateError::MissingDocument { index: idx as usize }),
            }
        },
        DiffEventView::LineDiff { action, content } => match st.chunk_meta {
            None => Err(AggregateError::MissingChunk { index: idx as usize }),
            Some(cm) => match st.cur_chunk {
                None => Err(AggregateError::MissingChunk { index: idx as usize }),
                Some(ch) => {
                    let ch2 = ChunkDiffView {
                        lines: ch.lines.push(
                            ChunkDiffLineView {
                                from_line_number: cm.from_line_number,
                                to_line_number: cm.to_line_number,
                                line: content,
                                action,
                            },
                        ),
                        ..ch
                    };
                    let finc: int = if action is Add {
                        0
                    } else {
                        1
                    };
                    let tinc: int = if action is Delete {
                        0
                    } else {
                        1
                    };
                    if cm.from_line_number + finc > usize::MAX || cm.to_line_number + tinc
                        > usize::MAX {
                        Err(AggregateError::CounterOverflow { index: idx as usize })
                    } else {
                        let cm2 = ChunkMeta {
                            from_line_number: (cm.from_line_number + finc) as usize,
                            to_line_number: (cm.to_line_number + tinc) as usize,
                        };
                        let cur2 = match st.file_meta {
                            Some(c) => if c > 0 {
                                match st.cur {
                                    Some(d) => Some(
                                        FileDiffView {
                                            from: FileDiffPointView { end_newline: true, ..d.from },
                                            to: FileDiffPointView { end_newline: true, ..d.to },
                                            ..d
                                        },
                                    ),
                                    None => st.cur,
                                }
                            } else {
                                st.cur
                            },
                            None => st.cur,
                        };
                        Ok(
                            AggStateView {
                                cur: cur2,
                                cur_chunk: Some(ch2),
                                chunk_meta: Some(cm2),
                                ..st
                            },
                        )
                    }
                },
            },
        },
        DiffEventView::NoNewline => match st.file_meta {
            None => Err(AggregateError::MissingDocument { index: idx as usize }),
            Some(c) => if c + 1 > 2 {
                Err(AggregateError::TooManyNoNewline { index: idx as usize })
            } else {
                match st.cur {
                    None => Err(AggregateError::MissingDocument { index: idx as usize }),
                    Some(d) => Ok(
                        AggStateView {
                            file_meta: Some((c + 1) as usize),
                            cur: Some(
                                FileDiffView {
                                    to: FileDiffPointView { end_newline: false, ..d.to },
                                    ..d
                                },
                            ),
                            ..st
                        },
                    ),
                }
            },
        },
    }
}

/// Fold the events from position `i` onward over the working set `st`; at
/// the end of the stream the open document is closed onto the output list.
pub open spec fn spec_agg_from(events: Seq<DiffEventView>, i: int, st: AggStateView) -> Result<
    Seq<FileDiffView>,
    AggregateError,
>
    decreases events.len() - i,
{
    if i < 0 || i >= events.len() {
        Ok(flush_doc(st))
    } else {
        match agg_step(st, events[i], i) {
            Ok(st2) => spec_agg_from(events, i + 1, st2),
            Err(e) => Err(e),
        }
    }
}

/// The whole aggregation: every event, from the empty working set.
pub open spec fn spec_aggregate(events: Seq<DiffEventView>) -> Result<
    Seq<FileDiffView>,
    AggregateError,
> {
    spec_agg_from(events, 0, init_agg_state())
}

// ---------------------------------------------------------------------------
// Line-numbering law.
// ---------------------------------------------------------------------------

/// How many of the first `i` lines advance the from-side counter (every
/// action but Add).
pub open spec fn from_advances(lines: Seq<ChunkDiffLineView>, i: int) -> int
    decreases i,
{
    if i <= 0 {
        0
    } else {
        from_advances(lines, i - 1) + if lines[i - 1].action is Add {
            0int
        } else {
            1int
        }
    }
}

/// How many of the first `i` lines advance the to-side counter (every
/// action but Delete).
pub open spec fn to_advances(lines: Seq<ChunkDiffLineView>, i: int) -> int
    decreases i,
{
    if i <= 0 {
        0
    } else {
        to_advances(lines, i - 1) + if lines[i - 1].action is Delete {
            0int
        } else {
            1int
        }
    }
}

/// Replaying the increment rule from the chunk's declared start values
/// reproduces the line numbers stored on each line.
pub open spec fn chunk_lines_numbered(c: ChunkDiffView) -> bool {
    forall|i: int|
        0 <= i < c.lines.len() ==> (#[trigger] c.lines[i]).from_line_number == c.from.line_start
            + from_advances(c.lines, i) && c.lines[i].to_line_number == c.to.line_start
            + to_advances(c.lines, i)
}

/// Every chunk the working set holds is correctly numbered, and the running
/// counters sit exactly past the pending chunk's recorded lines.
pub open spec fn agg_state_numbered(st: AggStateView) -> bool {
    &&& forall|di: int, ci: int|
        0 <= di < st.docs.len() && 0 <= ci < st.docs[di].chunks.len() ==> chunk_lines_numbered(
            #[trigger] st.docs[di].chunks[ci],
        )
    &&& (st.cur matches Some(d) ==> forall|ci: int|
        0 <= ci < d.chunks.len() ==> chunk_lines_numbered(#[trigger] d.chunks[ci]))
    &&& (st.cur_chunk matches Some(c) ==> {
        &&& chunk_lines_numbered(c)
        &&& st.chunk_meta matches Some(cm)
        &&& cm.from_line_number == c.from.line_start + from_advances(c.lines, c.lines.len() as int)
        &&& cm.to_line_number == c.to.line_start + to_advances(c.lines, c.lines.len() as int)
    })
}

/// The advance counts over the first `i` lines depend on those lines alone.
proof fn lemma_advances_prefix(l1: Seq<ChunkDiffLineView>, l2: Seq<ChunkDiffLineView>, i: int)
    requires
        forall|k: int| 0 <= k < i ==> l1[k] == l2[k],
    ensures
        from_advances(l1, i) == from_advances(l2, i),
        to_advances(l1, i) == to_advances(l2, i),
    decreases i,
{
    if i > 0 {
        lemma_advances_prefix(l1, l2, i - 1);
    }
}

proof fn lemma_step_numbered(st: AggStateView, ev: DiffEventView, idx: int, st2: AggStateView)
    requires
        agg_state_numbered(st),
        agg_step(st, ev, idx) == Ok::<AggStateView, AggregateError>(st2),
    ensures
        agg_state_numbered(st2),
{
    match ev {
        DiffEventView::LineDiff { action, content } => {
            let cm = st.chunk_meta->Some_0;
            let ch = st.cur_chunk->Some_0;
            let ch2 = st2.cur_chunk->Some_0;
            lemma_advances_prefix(ch2.lines, ch.lines, ch.lines.len() as int);
            assert forall|i: int| 0 <= i < ch2.lines.len() implies (#[trigger] ch2.lines[i]).from_line_number
                == ch2.from.line_start + from_advances(ch2.lines, i) && ch2.lines[i].to_line_number
                == ch2.to.line_start + to_advances(ch2.lines, i) by {
                if i < ch.lines.len() {
                    lemma_advances_prefix(ch2.lines, ch.lines, i);
                }
            }
        },
        _ => {},
    }
}

proof fn lemma_agg_from_numbered(events: Seq<DiffEventView>, i: int, st: AggStateView)
    requires
        agg_state_numbered(st),
    ensures
        spec_agg_from(events, i, st) matches Ok(docs) ==> forall|di: int, ci: int|
            0 <= di < docs.len() && 0 <= ci < docs[di].chunks.len() ==> chunk_lines_numbered(
                #[trigger] docs[di].chunks[ci],
            ),
    decreases events.len() - i,
{
    if i < 0 || i >= events.len() {
    } else {
        match agg_step(st, events[i], i) {
            Ok(st2) => {
                lemma_step_numbered(st, events[i], i, st2);
                lemma_agg_from_numbered(events, i + 1, st2);
            },
            Err(_) => {},
        }
    }
}

/// Line-numbering law: in every chunk of every document the aggregation
/// returns, replaying the increment rule from the chunk's declared start
/// values reproduces exactly the line numbers stored on each line.
pub proof fn lemma_line_numbering(events: Seq<DiffEventView>, docs: Seq<FileDiffView>)
    requires
        spec_aggregate(events) == Ok::<Seq<FileDiffView>, AggregateError>(docs),
    ensures
        forall|di: int, ci: int|
            0 <= di < docs.len() && 0 <= ci < docs[di].chunks.len() ==> chunk_lines_numbered(
                #[trigger] docs[di].chunks[ci],
            ),
{
    lemma_agg_from_numbered(events, 0, init_agg_state());
}

// ---------------------------------------------------------------------------
// No-newline bound law.
// ---------------------------------------------------------------------------

/// From a state whose current file has already produced markers, a further
/// marker at `j` (when still ahead) and one at `k`, with no file header in
/// between, force a failure.
proof fn lemma_nn_from(events: Seq<DiffEventView>, p: int, st: AggStateView, j: int, k: int)
    requires
        0 <= p <= k < events.len(),
        j < k,
        p <= j ==> events[j] is NoNewline,
        events[k] is NoNewline,
        forall|m: int| p <= m < k ==> !((#[trigger] events[m]) is FileDiffHeader),
        st.file_meta matches Some(c) && c >= (if p > j {
            2int
        } else {
            1
        }),
    ensures
        spec_agg_from(events, p, st) is Err,
    decreases events.len() - p,
{
    if p == k {
    } else {
        match agg_step(st, events[p], p) {
            Ok(st2) => {
                lemma_nn_from(events, p + 1, st2, j, k);
            },
            Err(_) => {},
        }
    }
}

/// Reaching the first of three markers: whatever state the fold is in, the
/// remaining two markers force a failure.
proof fn lemma_nn_reach(
    events: Seq<DiffEventView>,
    p: int,
    st: AggStateView,
    i: int,
    j: int,
    k: int,
)
    requires
        0 <= p <= i < j < k < events.len(),
        events[i] is NoNewline,
        events[j] is NoNewline,
        events[k] is NoNewline,
        forall|m: int| i < m < k ==> !((#[trigger] events[m]) is FileDiffHeader),
    ensures
        spec_agg_from(events, p, st) is Err,
    decreases events.len() - p,
{
    match agg_step(st, events[p], p) {
        Ok(st2) => {
            if p == i {
                lemma_nn_from(events, p + 1, st2, j, k);
            } else {
                lemma_nn_reach(events, p + 1, st2, i, j, k);
            }
        },
        Err(_) => {},
    }
}

/// No-newline bound law: an event stream in which one file produces three
/// no-newline markers — no new file header between the first and the third —
/// is rejected with an error, never a silent success.
pub proof fn lemma_no_newline_bound(events: Seq<DiffEventView>, i: int, j: int, k: int)
    requires
        0 <= i < j < k < events.len(),
        events[i] is NoNewline,
        events[j] is NoNewline,
        events[k] is NoNewline,
        forall|m: int| i < m < k ==> !((#[trigger] events[m]) is FileDiffHeader),
    ensures
        spec_aggregate(events) is Err,
{
    lemma_nn_reach(events, 0, init_agg_state(), i, j, k);
}

/// The working set as the executable fold holds it.
pub open spec fn agg_state_of(
    docs: Seq<FileDiffView>,
    cur: Option<FileDiffView>,
    ch: Option<ChunkDiffView>,
    cm: Option<ChunkMeta>,
    fm: Option<FileMeta>,
) -> AggStateView {
    AggStateView {
        docs,
        cur,
        cur_chunk: ch,
        chunk_meta: cm,
        file_meta: match fm {
            Some(f) => Some(f.no_newline_count),
            None => None,
        },
    }
}

/// Fold the full event sequence into the ordered file-diff list, or fail on
/// the first invariant violation: an event that needs a document or chunk
/// none is open for, a `---`/`+++` path that contradicts the file header, a
/// third no-newline marker for one file, a rename event (which the document
/// model does not carry), or a line counter leaving the machine word.
pub fn aggregator(events: &Vec<DiffEvent>) -> (r: Result<Vec<FileDiff>, AggregateError>)
    ensures
        match spec_aggregate(events.deep_view()) {
            Ok(docs) => r matches Ok(v) && v.deep_view() == docs,
            Err(e) => r matches Err(ae) && ae == e,
        },
{
    let ghost edv = events.deep_view();
    let mut file_diffs: Vec<FileDiff> = Vec::new();
    let mut file_diff: Option<FileDiff> = None;
    let mut chunk_diff: Option<ChunkDiff> = None;
    let mut chunk_meta: Option<ChunkMeta> = None;
    let mut file_meta: Option<FileMeta> = None;
    proof {
        assert(agg_state_of(
            file_diffs.deep_view(),
            file_diff.deep_view(),
            chunk_diff.deep_view(),
            chunk_meta,
            file_meta,
        ) =~~= init_agg_state());
    }
    let mut i: usize = 0;
    while i < events.len()
        invariant
            i <= events.len(),
            edv == events.deep_view(),
            spec_aggregate(edv) == spec_agg_from(
                edv,
                i as int,
                agg_state_of(
                    file_diffs.deep_view(),
                    file_diff.deep_view(),
                    chunk_diff.deep_view(),
                    chunk_meta,
                    file_meta,
                ),
            ),
        decreases events.len() - i,
    {
        let ghost st0 = agg_state_of(
            file_diffs.deep_view(),
            file_diff.deep_view(),
            chunk_diff.deep_view(),
            chunk_meta,
            file_meta,
        );
        let ev = &events[i];
        match ev {
            DiffEvent::FileDiffHeader { from_file, to_file } => {
                let closed = match (file_diff, chunk_diff) {
                    (Some(mut d), Some(c)) => {
                        d.chunks.push(c);
                        Some(d)
                    },
                    (Some(d), None) => Some(d),
                    (None, _) => None,
                };
                match closed {
                    Some(d) => {
                        file_diffs.push(d);
                    },
                    None => {},
                }
                file_diff = Some(
                    FileDiff {
                        from: FileDiffPoint {
                            file: from_file.clone(),
                            mode: None,
                            blob: None,
                            end_newline: true,
                        },
                        to: FileDiffPoint {
                            file: to_file.clone(),
                            mode: None,
                            blob: None,
                            end_newline: true,
                        },
                        is_binary: false,
                        chunks: Vec::new(),
                    },
                );
                chunk_diff = None;
                chunk_meta = None;
                file_meta = Some(FileMeta { no_newline_count: 0 });
            },
            DiffEvent::OldMode { mode } => {
                match file_diff {
                    Some(mut d) => {
                        d.from.mode = Some(mode.clone());
                        file_diff = Some(d);
                    },
                    None => {
                        return Err(AggregateError::MissingDocument { index: i });
                    },
                }
            },
            DiffEvent::NewMode { mode } => {
                match file_diff {
                    Some(mut d) => {
                        d.to.mode = Some(mode.clone());
                        file_diff = Some(d);
                    },
                    None => {
                        return Err(AggregateError::MissingDocument { index: i });
                    },
                }
            },
            DiffEvent::NewFileMode { mode } => {
                match file_diff {
                    Some(mut d) => {
                        d.from.mode = Some("0000000".to_owned());
                        d.to.mode = Some(mode.clone());
                        file_diff = Some(d);
                    },
                    None => {
                        return Err(AggregateError::MissingDocument { index: i });
                    },
                }
            },
            DiffEvent::DeletedFileMode { mode } => {
                match file_diff {
                    Some(mut d) => {
                        d.from.mode = Some(mode.clone());
                        d.to.mode = Some("0000000".to_owned());
                        file_diff = Some(d);
                    },
                    None => {
                        return Err(AggregateError::MissingDocument { index: i });
                    },
                }
            },
            DiffEvent::RenameHeader { .. } | DiffEvent::RenameFrom { .. } | DiffEvent::RenameTo {
                ..
            } => {
                return Err(AggregateError::UnhandledEvent { index: i, state: ev.state() });
            },
            DiffEvent::IndexHeader { from_blob, to_blob, mode } => {
                match file_diff {
                    Some(mut d) => {
                        d.from.blob = Some(from_blob.clone());
                        d.to.blob = Some(to_blob.clone());
                        match mode {
                            Some(m) => {
                                d.from.mode = Some(m.clone());
                                d.to.mode = Some(m.clone());
                            },
                            None => {},
                        }
                        file_diff = Some(d);
                    },
                    None => {
                        return Err(AggregateError::MissingDocument { index: i });
                    },
                }
            },
            DiffEvent::Binary => {
                match file_diff {
                    Some(mut d) => {
                        d.is_binary = true;
                        file_diff = Some(d);
                    },
                    None => {
                        file_diff = None;
                    },
                }
            },
            DiffEvent::AFileHeader { file } => {
                match &file_diff {
                    Some(d) => {
                        match file {
                            Some(f) => {
                                if !crate::scan::str_eq(f.as_str(), d.from.file.as_str()) {
                                    return Err(AggregateError::PathMismatch { index: i });
                                }
                            },
                            None => {},
                        }
                    },
                    None => {},
                }
            },
            DiffEvent::BFileHeader { file } => {
                match &file_diff {
                    Some(d) => {
                        match file {
                            Some(f) => {
                                if !crate::scan::str_eq(f.as_str(), d.to.file.as_str()) {
                                    return Err(AggregateError::PathMismatch { index: i });
                                }
                            },
                            None => {},
                        }
                    },
                    None => {},
                }
            },
            DiffEvent::ChunkHeader { from_start, from_count, to_start, to_count, trailer: _ } => {
                match (file_diff, chunk_diff) {
                    (Some(mut d), Some(c)) => {
                        d.chunks.push(c);
                        file_diff = Some(d);
                    },
                    (Some(d), None) => {
                        file_diff = Some(d);
                    },
                    (None, _) => {
                        return Err(AggregateError::MissingDocument { index: i });
                    },
                }
                chunk_diff = Some(
                    ChunkDiff {
                        from: LinePoint { line_start: *from_start, line_count: *from_count },
                        to: LinePoint { line_start: *to_start, line_count: *to_count },
                        lines: Vec::new(),
                    },
                );
                chunk_meta = Some(
                    ChunkMeta { from_line_number: *from_start, to_line_number: *to_start },
                );
            },
            DiffEvent::LineDiff { action, content } => {
                let cm = match chunk_meta {
                    Some(c) => c,
                    None => {
                        return Err(AggregateError::MissingChunk { index: i });
                    },
                };
                match chunk_diff {
                    Some(mut ch) => {
                        ch.lines.push(
                            ChunkDiffLine {
                                from_line_number: cm.from_line_number,
                                to_line_number: cm.to_line_number,
                                line: content.clone(),
                                action: *action,
                            },
                        );
                        chunk_diff = Some(ch);
                    },
                    None => {
                        return Err(AggregateError::MissingChunk { index: i });
                    },
                }
                let finc: usize = match action {
                    DiffAction::Add => 0,
                    _ => 1,
                };
                let tinc: usize = match action {
                    DiffAction::Delete => 0,
                    _ => 1,
                };
                if (finc == 1 && cm.from_line_number == usize::MAX) || (tinc == 1
                    && cm.to_line_number == usize::MAX) {
                    return Err(AggregateError::CounterOverflow { index: i });
                }
                chunk_meta = Some(
                    ChunkMeta {
                        from_line_number: cm.from_line_number + finc,
                        to_line_number: cm.to_line_number + tinc,
                    },
                );
                let nn_pending = match file_meta {
                    Some(f) => f.no_newline_count > 0,
                    None => false,
                };
                if nn_pending {
                    match file_diff {
                        Some(mut d) => {
                            d.from.end_newline = true;
                            d.to.end_newline = true;
                            file_diff = Some(d);
                        },
                        None => {
                            file_diff = None;
                        },
                    }
                }
            },
            DiffEvent::NoNewline => {
                let fm = match file_meta {
                    Some(f) => f,
                    None => {
                        return Err(AggregateError::MissingDocument { index: i });
                    },
                };
                if fm.no_newline_count >= 2 {
                    return Err(AggregateError::TooManyNoNewline { index: i });
                }
                file_meta = Some(FileMeta { no_newline_count: fm.no_newline_count + 1 });
                match file_diff {
                    Some(mut d) => {
                        d.to.end_newline = false;
                        file_diff = Some(d);
                    },
                    None => {
                        return Err(AggregateError::MissingDocument { index: i });
                    },
                }
            },
        }
        proof {
            let stn = agg_state_of(
                file_diffs.deep_view(),
                file_diff.deep_view(),
                chunk_diff.deep_view(),
                chunk_meta,
                file_meta,
            );
            match agg_step(st0, edv[i as int], i as int) {
                Ok(s2) => {
                    assert(s2 =~~= stn);
                },
                Err(_) => {
                    assert(false);
                },
            }
        }
        i += 1;
    }
    let ghost st_end = agg_state_of(
        file_diffs.deep_view(),
        file_diff.deep_view(),
        chunk_diff.deep_view(),
        chunk_meta,
        file_meta,
    );
    match (file_diff, chunk_diff) {
        (Some(mut d), Some(c)) => {
            d.chunks.push(c);
            file_diffs.push(d);
        },
        (Some(d), None) => {
            file_diffs.push(d);
        },
        (None, _) => {},
    }
    proof {
        assert(file_diffs.deep_view() =~~= flush_doc(st_end));
    }
    Ok(file_diffs)
}

} // verus!
