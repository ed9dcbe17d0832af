//! Parser for unified diff text, as emitted by version-control tools.
//!
//! The library works in two stages: a context-sensitive line tokenizer
//! (`line_parser`) classifies each raw text line into a typed event, and an
//! aggregator (`aggregator`) folds the event sequence into a list of
//! structured file-diff documents.

pub mod aggregator;
pub mod line_parser;
pub mod scan;

use vstd::prelude::*;

use crate::aggregator::{aggregator, spec_aggregate, AggregateError, FileDiff, FileDiffView};
use crate::line_parser::{
    parse_lines,
    spec_parse_lines,
    DiffEvent,
    ParseError,
    TokenizeErrorView,
};

verus! {

/// Error of the whole pipeline: the failing stage's error.
#[derive(Debug, Clone, PartialEq)]
pub enum DiffError {
    Parse(ParseError),
    Aggregate(AggregateError),
}

/// Mathematical model of a pipeline failure.
pub enum PipelineErrorView {
    Parse(TokenizeErrorView),
    Aggregate(AggregateError),
}

/// Model of the pipeline: tokenize the whole input, then aggregate. The
/// first failing stage decides; no partial result crosses the boundary.
pub open spec fn spec_parse_diff(lines: Seq<Seq<char>>) -> Result<
    Seq<FileDiffView>,
    PipelineErrorView,
> {
    match spec_parse_lines(lines) {
        Err(te) => Err(PipelineErrorView::Parse(te)),
        Ok(evs) => match spec_aggregate(evs) {
            Ok(docs) => Ok(docs),
            Err(ae) => Err(PipelineErrorView::Aggregate(ae)),
        },
    }
}

/// The whole pipeline: tokenize the text lines, then fold the events into
/// file-diff documents. Tokenization must fully succeed before aggregation
/// begins; any failure yields an error and zero documents.
pub fn parse_diff(lines: &Vec<String>) -> (r: Result<Vec<FileDiff>, DiffError>)
    ensures
        match spec_parse_diff(lines.deep_view()) {
            Ok(docs) => r matches Ok(v) && v.deep_view() == docs,
            Err(pe) => r matches Err(e) && match (pe, e) {
                (PipelineErrorView::Parse(te), DiffError::Parse(p)) => p
                    matches ParseError::LineParseError(n, l, m) && n == te.index + 1 && l@
                    == te.line && m@ == te.msg,
                (PipelineErrorView::Aggregate(ae), DiffError::Aggregate(a)) => a == ae,
                _ => false,
            },
        },
{
    let events: Vec<DiffEvent> = match parse_lines(lines) {
        Ok(evs) => evs,
        Err(pe) => {
            return Err(DiffError::Parse(pe));
        },
    };
    match aggregator(&events) {
        Ok(docs) => Ok(docs),
        Err(ae) => Err(DiffError::Aggregate(ae)),
    }
}

/// Atomicity law: when any line fails tokenization the pipeline yields an
/// error — zero documents, never a partial prefix.
pub proof fn lemma_atomicity(lines: Seq<Seq<char>>)
    requires
        spec_parse_lines(lines) is Err,
    ensures
        spec_parse_diff(lines) is Err,
{
}

/// Idempotence law: the pipeline is a pure function of the line sequence,
/// so parsing the same input twice yields structurally identical document
/// lists.
pub proof fn lemma_idempotence(first: Seq<Seq<char>>, second: Seq<Seq<char>>)
    requires
        first == second,
    ensures
        spec_parse_diff(first) == spec_parse_diff(second),
{
}

} // verus!
