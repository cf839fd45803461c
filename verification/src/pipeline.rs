//! The controller: what becomes of each line of the input, and the counters
//! and the established width that it keeps over a run.

use std::collections::HashSet;
use vstd::prelude::*;
use crate::error::{ConfigFault, PipelineError};
use crate::filter::{
    apply_filters, filter_verdict, lemma_filter_exclusive, rule_holds, FilterRule, FilterVerdict,
};
use crate::project::{
    columns_view, header_columns, render_header, render_row, rendered,
};
use crate::sanitize::{sanitize_row, sanitized_row};
use crate::split::{join_with, split_fields, split_fields_chars};
use crate::text::{chars_view, from_chars, row_view, to_chars, to_strings};
use crate::validate::{check_width, width_after, width_verdict, WidthPolicy, WidthVerdict};

verus! {

broadcast use vstd::std_specs::hash::group_hash_axioms;

/// The settings of a run.
#[derive(Debug, PartialEq, Eq)]
pub struct Config {
    /// A line that begins with this character is a comment.
    pub comment: char,
    /// The delimiter between the fields of an input line.
    pub input_delimiter: char,
    /// The quote character of the input, if it has one.
    pub input_quote: Option<char>,
    /// The delimiter between the fields of an output line.
    pub output_delimiter: char,
    /// The quote character around an output field that holds the delimiter.
    pub output_quote: char,
    /// Echo mode: accepted lines are written as they were read.
    pub echo: bool,
    /// What happens to a record of another width than the established one.
    pub width_policy: WidthPolicy,
    /// The number of lines at the start of each file that are passed over.
    pub skip_headers: usize,
    /// The ordinals of the accepted lines that are passed over.
    pub skip: HashSet<usize>,
    /// The largest number of rows to emit, if there is a limit.
    pub head: Option<usize>,
    /// Name listing: the first record is listed and the run ends.
    pub names: bool,
    /// The output columns, counted from 1, if the output is a projection.
    pub columns: Option<Vec<usize>>,
    /// The names of the output columns, for a header line; empty for none.
    pub output_names: Vec<String>,
    /// Line-number mode: the run ends at the first record that the filter
    /// rules let pass.
    pub line_number: bool,
    /// The filter rules, in the order in which they are tried.
    pub filters: Vec<FilterRule>,
    /// The column, counted from 1, whose value routes a row to its output file.
    pub split_column: Option<usize>,
}

/// What a run keeps from line to line.
#[derive(Clone, Copy, Debug, PartialEq, Eq)]
pub struct PipelineState {
    /// The number of lines accepted so far, over all files: the lines that
    /// were neither in a header-skip zone nor comments.
    pub accepted: usize,
    /// The number of accepted lines that a skip offset or a filter rule
    /// dropped.
    pub skipped: usize,
    /// The width that records are held to, once a record has set it.
    pub width: Option<usize>,
}

/// What becomes of one line.
#[derive(Debug, PartialEq, Eq)]
pub enum Outcome {
    /// The row limit was reached before this line: nothing was done.
    LimitReached,
    /// The line lies in the header-skip zone of its file or is a comment. It
    /// was not counted.
    Ignored,
    /// The line was counted, and its ordinal is a skip offset.
    Skipped,
    /// Echo mode: the line is to be written as it was read.
    Echo,
    /// Name listing: the fields of the record, in column order. The run ends.
    Names(Vec<String>),
    /// The record has another width than the established one and is dropped
    /// with a warning.
    WidthIgnored { ordinal: usize, file_line: usize, expected: usize, found: usize },
    /// The record has another width than the established one and is dropped;
    /// its width is the established width from now on.
    WidthRebased { found: usize },
    /// A filter rule does not hold of the record.
    Rejected,
    /// Line-number mode: the record passes the filter rules. The run ends.
    Matched { ordinal: usize, file_line: usize },
    /// The record is written. `key` is the raw value of the split column, where
    /// one is configured.
    Row { line: String, key: Option<String> },
}

/// The result of one step: the header line, where it is due before anything
/// else is written, and what becomes of the line.
#[derive(Debug, PartialEq, Eq)]
pub struct Step {
    pub header: Option<String>,
    pub outcome: Outcome,
}

/// `Outcome` with its texts as sequences of characters.
pub enum OutcomeModel {
    LimitReached,
    Ignored,
    Skipped,
    Echo,
    Names(Seq<Seq<char>>),
    WidthIgnored { ordinal: usize, file_line: usize, expected: usize, found: usize },
    WidthRebased { found: usize },
    Rejected,
    Matched { ordinal: usize, file_line: usize },
    Row { line: Seq<char>, key: Option<Seq<char>> },
}

/// `Step` with its texts as sequences of characters.
pub struct StepModel {
    pub header: Option<Seq<char>>,
    pub outcome: OutcomeModel,
}

/// The view of a text that may be absent.
pub open spec fn text_view(text: Option<String>) -> Option<Seq<char>> {
    match text {
        Some(s) => Some(s@),
        None => None,
    }
}

impl View for Outcome {
    type V = OutcomeModel;

    open spec fn view(&self) -> OutcomeModel {
        match *self {
            Outcome::LimitReached => OutcomeModel::LimitReached,
            Outcome::Ignored => OutcomeModel::Ignored,
            Outcome::Skipped => OutcomeModel::Skipped,
            Outcome::Echo => OutcomeModel::Echo,
            Outcome::Names(fields) => OutcomeModel::Names(row_view(fields@)),
            Outcome::WidthIgnored { ordinal, file_line, expected, found } => {
                OutcomeModel::WidthIgnored { ordinal, file_line, expected, found }
            },
            Outcome::WidthRebased { found } => OutcomeModel::WidthRebased { found },
            Outcome::Rejected => OutcomeModel::Rejected,
            Outcome::Matched { ordinal, file_line } => OutcomeModel::Matched { ordinal, file_line },
            Outcome::Row { line, key } => OutcomeModel::Row { line: line@, key: text_view(key) },
        }
    }
}

impl View for Step {
    type V = StepModel;

    open spec fn view(&self) -> StepModel {
        StepModel { header: text_view(self.header), outcome: self.outcome@ }
    }
}

/// The view of what a step returns.
pub open spec fn result_view(r: Result<Step, PipelineError>) -> Result<StepModel, PipelineError> {
    match r {
        Ok(step) => Ok(step@),
        Err(e) => Err(e),
    }
}

/// A step that writes no header.
pub open spec fn quiet(outcome: OutcomeModel) -> Result<StepModel, PipelineError> {
    Ok(StepModel { header: None, outcome })
}

impl Config {
    /// The settings of a run for which nothing was chosen: `#` marks a comment,
    /// the input is separated by tabs and quoted with `"`, the output is
    /// separated by commas and quoted with `"`, a record of another width fails
    /// the run, and nothing is skipped, limited, filtered, projected or split.
    pub fn new() -> (cfg: Config)
        ensures
            cfg.comment == '#',
            cfg.input_delimiter == '\t',
            cfg.input_quote == Some('"'),
            cfg.output_delimiter == ',',
            cfg.output_quote == '"',
            !cfg.echo,
            cfg.width_policy == WidthPolicy::Fail,
            cfg.skip_headers == 0,
            cfg.skip@ == Set::<usize>::empty(),
            cfg.head is None,
            !cfg.names,
            cfg.columns is None,
            cfg.output_names@.len() == 0,
            !cfg.line_number,
            cfg.filters@.len() == 0,
            cfg.split_column is None,
    {
        Config {
            comment: '#',
            input_delimiter: '\t',
            input_quote: Some('"'),
            output_delimiter: ',',
            output_quote: '"',
            echo: false,
            width_policy: WidthPolicy::Fail,
            skip_headers: 0,
            skip: HashSet::new(),
            head: None,
            names: false,
            columns: None,
            output_names: Vec::new(),
            line_number: false,
            filters: Vec::new(),
            split_column: None,
        }
    }
}

impl PipelineState {
    /// No more lines were dropped than were accepted.
    pub open spec fn wf(&self) -> bool {
        self.skipped <= self.accepted
    }

    /// The number of accepted lines that were not dropped by a skip offset or
    /// a filter rule.
    pub open spec fn kept(&self) -> nat {
        (self.accepted - self.skipped) as nat
    }

    /// The state at the start of a run.
    pub fn new() -> (state: PipelineState)
        ensures
            state == (PipelineState { accepted: 0, skipped: 0, width: None }),
            state.wf(),
    {
        PipelineState { accepted: 0, skipped: 0, width: None }
    }
}

/// Whether the row limit is reached: the accepted lines that were not dropped
/// are as many as the limit allows.
pub open spec fn limit_reached(state: PipelineState, head: Option<usize>) -> bool {
    match head {
        Some(limit) => state.kept() >= limit,
        None => false,
    }
}

/// A line that begins with the comment character.
pub open spec fn is_comment(line: Seq<char>, marker: char) -> bool {
    line.len() > 0 && line[0] == marker
}

/// A line that is passed over without being counted: one of the first
/// `skip_headers` lines of its file, or a comment.
pub open spec fn uncounted(cfg: Config, file_line: usize, line: Seq<char>) -> bool {
    file_line < cfg.skip_headers || is_comment(line, cfg.comment)
}

/// The fields of a line as they stand in the input.
pub open spec fn raw_fields(cfg: Config, line: Seq<char>) -> Seq<Seq<char>> {
    split_fields(line, cfg.input_delimiter, cfg.input_quote)
}

/// The record of a line: its fields, each prepared for output.
pub open spec fn record(cfg: Config, line: Seq<char>) -> Seq<Seq<char>> {
    sanitized_row(raw_fields(cfg, line), cfg.output_delimiter, cfg.output_quote)
}

/// The header line of a run.
pub open spec fn header_line(cfg: Config) -> Seq<char> {
    join_with(row_view(cfg.output_names@), seq![cfg.output_delimiter])
}

/// What becomes of a record that has the established width: the filter rules
/// are tried, then the split key is taken from the raw fields, then the row is
/// written.
pub open spec fn emit_model(
    cfg: Config,
    state: PipelineState,
    file_line: usize,
    line: Seq<char>,
    header: Option<Seq<char>>,
) -> (PipelineState, Result<StepModel, PipelineError>) {
    let raw = raw_fields(cfg, line);
    let row = record(cfg, line);
    let width = row.len() as usize;
    match filter_verdict(cfg.filters@, row) {
        FilterVerdict::OutOfRange { column } => (
            state,
            Err(PipelineError::ColumnOutOfRange { column, width }),
        ),
        FilterVerdict::Reject => (
            PipelineState { skipped: (state.skipped + 1) as usize, ..state },
            Ok(StepModel { header, outcome: OutcomeModel::Rejected }),
        ),
        FilterVerdict::Pass => if cfg.line_number && cfg.filters@.len() > 0 {
            (
                state,
                Ok(
                    StepModel {
                        header,
                        outcome: OutcomeModel::Matched { ordinal: state.accepted, file_line },
                    },
                ),
            )
        } else {
            let text = rendered(row, columns_view(cfg.columns), cfg.output_delimiter);
            match cfg.split_column {
                None => (
                    state,
                    Ok(StepModel { header, outcome: OutcomeModel::Row { line: text, key: None } }),
                ),
                Some(column) => if 1 <= column <= raw.len() {
                    (
                        state,
                        Ok(
                            StepModel {
                                header,
                                outcome: OutcomeModel::Row {
                                    line: text,
                                    key: Some(raw[column - 1]),
                                },
                            },
                        ),
                    )
                } else {
                    (state, Err(PipelineError::ColumnOutOfRange { column, width }))
                },
            }
        },
    }
}

/// What becomes of a counted line in structured mode. Name listing comes
/// first. Then the width of the record is held against the established width;
/// the first record establishes it, and with it the header line falls due,
/// after a check of the number of names.
pub open spec fn record_model(
    cfg: Config,
    state: PipelineState,
    file_line: usize,
    line: Seq<char>,
) -> (PipelineState, Result<StepModel, PipelineError>) {
    let row = record(cfg, line);
    let found = row.len() as usize;
    if cfg.names {
        (state, quiet(OutcomeModel::Names(row)))
    } else {
        let validated = PipelineState {
            width: width_after(state.width, found, cfg.width_policy),
            ..state
        };
        match width_verdict(state.width, found, cfg.width_policy) {
            WidthVerdict::Mismatch => (
                state,
                Err(
                    PipelineError::WidthMismatch {
                        ordinal: state.accepted,
                        file_line,
                        expected: state.width->0,
                        found,
                    },
                ),
            ),
            WidthVerdict::Drop => (
                state,
                quiet(
                    OutcomeModel::WidthIgnored {
                        ordinal: state.accepted,
                        file_line,
                        expected: state.width->0,
                        found,
                    },
                ),
            ),
            WidthVerdict::Rebase => (validated, quiet(OutcomeModel::WidthRebased { found })),
            WidthVerdict::Accept => emit_model(cfg, validated, file_line, line, None),
            WidthVerdict::Establish => if cfg.output_names@.len() == 0 {
                emit_model(cfg, validated, file_line, line, None)
            } else if cfg.output_names@.len() == header_columns(
                columns_view(cfg.columns),
                found as nat,
            ) {
                emit_model(cfg, validated, file_line, line, Some(header_line(cfg)))
            } else {
                (
                    validated,
                    Err(
                        PipelineError::Configuration(
                            ConfigFault::HeaderNames {
                                names: cfg.output_names@.len() as usize,
                                columns: header_columns(
                                    columns_view(cfg.columns),
                                    found as nat,
                                ) as usize,
                            },
                        ),
                    ),
                )
            },
        }
    }
}

/// What becomes of one line, and the state after it. `file_line` is the
/// position of the line in its file, counted from 0. In order: nothing is done
/// once the row limit is reached; a line in the header-skip zone or a comment
/// is passed over uncounted; every other line is counted, and dropped where its
/// ordinal is a skip offset; in echo mode it is written as it is; otherwise it
/// is taken as a record.
pub open spec fn step_model(
    cfg: Config,
    state: PipelineState,
    file_line: usize,
    line: Seq<char>,
) -> (PipelineState, Result<StepModel, PipelineError>) {
    if limit_reached(state, cfg.head) {
        (state, quiet(OutcomeModel::LimitReached))
    } else if uncounted(cfg, file_line, line) {
        (state, quiet(OutcomeModel::Ignored))
    } else {
        let ordinal = (state.accepted + 1) as usize;
        let counted = PipelineState { accepted: ordinal, ..state };
        if cfg.skip@.contains(ordinal) {
            (
                PipelineState { skipped: (state.skipped + 1) as usize, ..counted },
                quiet(OutcomeModel::Skipped),
            )
        } else if cfg.echo {
            (counted, quiet(OutcomeModel::Echo))
        } else {
            record_model(cfg, counted, file_line, line)
        }
    }
}

/// A line that is taken as a record and comes before the validator: the row
/// limit is not reached, the line is counted, its ordinal is no skip offset,
/// and neither echo mode nor name listing is on.
pub open spec fn is_record(
    cfg: Config,
    state: PipelineState,
    file_line: usize,
    line: Seq<char>,
) -> bool {
    &&& !limit_reached(state, cfg.head)
    &&& !uncounted(cfg, file_line, line)
    &&& !cfg.skip@.contains((state.accepted + 1) as usize)
    &&& !cfg.echo
    &&& !cfg.names
}

/// A step whose line is written: a row, or the line itself in echo mode.
pub open spec fn writes_line(result: Result<StepModel, PipelineError>) -> bool {
    match result {
        Ok(step) => step.outcome is Row || step.outcome is Echo,
        Err(_) => false,
    }
}

/// A step that writes a row.
pub open spec fn writes_row(result: Result<StepModel, PipelineError>) -> bool {
    match result {
        Ok(step) => step.outcome is Row,
        Err(_) => false,
    }
}

/// Width lock-in. The first record that comes before the validator sets the
/// established width to its number of fields. From then on, under the `Fail`
/// policy, a record of another width fails the run, with the number of
/// accepted lines, this one included, as the reported ordinal; and a record is
/// written only if it has the established width.
pub proof fn lemma_width_lock_in(
    cfg: Config,
    state: PipelineState,
    file_line: usize,
    line: Seq<char>,
)
    requires
        state.wf(),
        state.accepted < usize::MAX,
        is_record(cfg, state, file_line, line),
        record(cfg, line).len() <= usize::MAX,
    ensures
        ({
            let (next, result) = step_model(cfg, state, file_line, line);
            let found = record(cfg, line).len();
            &&& state.width is None ==> next.width == Some(found as usize)
            &&& state.width is Some && state.width->0 == found ==> next.width == state.width
            &&& state.width is Some && state.width->0 != found && cfg.width_policy
                == WidthPolicy::Fail ==> next.width == state.width && result == Err::<
                StepModel,
                PipelineError,
            >(
                PipelineError::WidthMismatch {
                    ordinal: (state.accepted + 1) as usize,
                    file_line,
                    expected: state.width->0,
                    found: found as usize,
                },
            )
            &&& writes_line(result) ==> next.width == Some(found as usize)
            &&& writes_line(result) && state.width is Some ==> state.width->0 == found
        }),
{
}

/// The established width changes only where a record comes before the
/// validator, and once it is set only under the hard-ignore policy.
pub proof fn lemma_width_is_kept(
    cfg: Config,
    state: PipelineState,
    file_line: usize,
    line: Seq<char>,
)
    requires
        state.wf(),
        state.accepted < usize::MAX,
    ensures
        ({
            let next = step_model(cfg, state, file_line, line).0;
            &&& !is_record(cfg, state, file_line, line) ==> next.width == state.width
            &&& state.width is Some && cfg.width_policy != WidthPolicy::HardIgnore ==> next.width
                == state.width
            &&& state.width is Some ==> next.width is Some
        }),
{
}

/// Skip-offset counting. A line in the header-skip zone and a comment line
/// leave the counters as they are. Every other line, while the row limit is
/// not reached, raises the accepted count by one, and it is dropped as skipped
/// exactly if the new accepted count is a skip offset, whatever its position in
/// its file is.
pub proof fn lemma_skip_counting(
    cfg: Config,
    state: PipelineState,
    file_line: usize,
    line: Seq<char>,
)
    requires
        state.wf(),
        state.accepted < usize::MAX,
    ensures
        ({
            let (next, result) = step_model(cfg, state, file_line, line);
            &&& uncounted(cfg, file_line, line) ==> next == state
            &&& limit_reached(state, cfg.head) ==> next == state
            &&& !uncounted(cfg, file_line, line) && !limit_reached(state, cfg.head)
                ==> next.accepted == state.accepted + 1
            &&& result == quiet(OutcomeModel::Skipped) <==> !uncounted(cfg, file_line, line)
                && !limit_reached(state, cfg.head) && cfg.skip@.contains(
                (state.accepted + 1) as usize,
            )
            &&& result == quiet(OutcomeModel::Skipped) ==> next.skipped == state.skipped + 1
        }),
{
}

/// The counters only grow, by one at most in a step, and no more lines are
/// dropped than are accepted.
pub proof fn lemma_counters_grow(
    cfg: Config,
    state: PipelineState,
    file_line: usize,
    line: Seq<char>,
)
    requires
        state.wf(),
        state.accepted < usize::MAX,
    ensures
        ({
            let next = step_model(cfg, state, file_line, line).0;
            &&& next.wf()
            &&& state.accepted <= next.accepted <= state.accepted + 1
            &&& state.skipped <= next.skipped <= state.skipped + 1
            &&& state.kept() <= next.kept() <= state.kept() + 1
        }),
{
}

/// Row limit. Once the limit is reached, no step writes anything or changes
/// the state. A step that writes a line raises the number of kept lines by one,
/// and comes only while that number is below the limit: so no more lines are
/// kept than the limit allows, if no more were kept at the start.
pub proof fn lemma_row_limit(
    cfg: Config,
    state: PipelineState,
    file_line: usize,
    line: Seq<char>,
)
    requires
        state.wf(),
        state.accepted < usize::MAX,
    ensures
        ({
            let (next, result) = step_model(cfg, state, file_line, line);
            &&& limit_reached(state, cfg.head) ==> next == state && result == quiet(
                OutcomeModel::LimitReached,
            )
            &&& writes_line(result) ==> next.kept() == state.kept() + 1 && !limit_reached(
                state,
                cfg.head,
            )
            &&& cfg.head is Some && state.kept() <= cfg.head->0 ==> next.kept() <= cfg.head->0
        }),
{
}

/// Filter exclusivity, for a record that has the established width. The
/// record is rejected, and counted as skipped, exactly if the verdict of the
/// rules is a rejection. It is written exactly if every rule holds of it: it
/// has the rule's column, and the field there equals the rule's value exactly
/// when the rule is inclusive; given that the run is not in line-number mode
/// with rules, where it is reported as a match instead, and that the record
/// has the split column, where one is configured.
pub proof fn lemma_filter_decides(
    cfg: Config,
    state: PipelineState,
    file_line: usize,
    line: Seq<char>,
    header: Option<Seq<char>>,
)
    requires
        state.skipped < state.accepted,
    ensures
        ({
            let (next, result) = emit_model(cfg, state, file_line, line, header);
            let row = record(cfg, line);
            let verdict = filter_verdict(cfg.filters@, row);
            let all_hold = forall|i: int|
                0 <= i < cfg.filters@.len() ==> rule_holds(#[trigger] cfg.filters@[i], row);
            let matching = cfg.line_number && cfg.filters@.len() > 0;
            let keyed = cfg.split_column matches Some(column) ==> 1 <= column <= raw_fields(
                cfg,
                line,
            ).len();
            &&& verdict == FilterVerdict::Pass <==> all_hold
            &&& (result matches Ok(step) && step.outcome is Rejected) <==> verdict
                == FilterVerdict::Reject
            &&& verdict == FilterVerdict::Reject ==> next.skipped == state.skipped + 1
            &&& verdict != FilterVerdict::Reject ==> next == state
            &&& writes_row(result) <==> all_hold && !matching && keyed
            &&& (result matches Ok(step) && step.outcome is Matched) <==> all_hold && matching
        }),
{
    lemma_filter_exclusive(cfg.filters@, record(cfg, line));
}

/// Whether the row limit `head` is reached in `state`.
pub fn at_limit(state: &PipelineState, head: Option<usize>) -> (reached: bool)
    requires
        state.wf(),
    ensures
        reached == limit_reached(*state, head),
{
    match head {
        Some(limit) => state.accepted - state.skipped >= limit,
        None => false,
    }
}

/// The last part of a step, for a record that has the established width:
/// filter rules, split key, output line.
fn emit(
    cfg: &Config,
    state: &mut PipelineState,
    file_line: usize,
    raw: &Vec<Vec<char>>,
    row: &Vec<String>,
    header: Option<String>,
    Ghost(line): Ghost<Seq<char>>,
) -> (r: Result<Step, PipelineError>)
    requires
        old(state).skipped < old(state).accepted,
        chars_view(raw@) == raw_fields(*cfg, line),
        row_view(row@) == record(*cfg, line),
    ensures
        *final(state) == emit_model(*cfg, *old(state), file_line, line, text_view(header)).0,
        result_view(r) == emit_model(*cfg, *old(state), file_line, line, text_view(header)).1,
{
    let width = row.len();
    match apply_filters(&cfg.filters, row) {
        FilterVerdict::OutOfRange { column } => {
            return Err(PipelineError::ColumnOutOfRange { column, width });
        },
        FilterVerdict::Reject => {
            state.skipped = state.skipped + 1;
            return Ok(Step { header, outcome: Outcome::Rejected });
        },
        FilterVerdict::Pass => {},
    }
    if cfg.line_number && cfg.filters.len() > 0 {
        return Ok(
            Step { header, outcome: Outcome::Matched { ordinal: state.accepted, file_line } },
        );
    }
    let key = match cfg.split_column {
        None => None,
        Some(column) => {
            if column == 0 || column > raw.len() {
                return Err(PipelineError::ColumnOutOfRange { column, width });
            }
            Some(from_chars(&raw[column - 1]))
        },
    };
    let text = render_row(row, &cfg.columns, cfg.output_delimiter);
    Ok(Step { header, outcome: Outcome::Row { line: text, key } })
}

/// Takes one line of the input and says what becomes of it. `file_line` is the
/// position of the line in its file, counted from 0; the counters and the
/// established width in `state` run over all files of the run. After an error
/// the run is over. After `Names` and `Matched` it is over too, and after
/// `LimitReached` nothing more is written.
pub fn step(cfg: &Config, state: &mut PipelineState, file_line: usize, line: &str) -> (r: Result<
    Step,
    PipelineError,
>)
    requires
        old(state).wf(),
        old(state).accepted < usize::MAX,
    ensures
        final(state).wf(),
        *final(state) == step_model(*cfg, *old(state), file_line, line@).0,
        result_view(r) == step_model(*cfg, *old(state), file_line, line@).1,
{
    if at_limit(state, cfg.head) {
        return Ok(Step { header: None, outcome: Outcome::LimitReached });
    }
    if file_line < cfg.skip_headers {
        return Ok(Step { header: None, outcome: Outcome::Ignored });
    }
    let chars = to_chars(line);
    if chars.len() > 0 && chars[0] == cfg.comment {
        return Ok(Step { header: None, outcome: Outcome::Ignored });
    }
    state.accepted = state.accepted + 1;
    if cfg.skip.contains(&state.accepted) {
        state.skipped = state.skipped + 1;
        return Ok(Step { header: None, outcome: Outcome::Skipped });
    }
    if cfg.echo {
        return Ok(Step { header: None, outcome: Outcome::Echo });
    }
    let raw = split_fields_chars(&chars, cfg.input_delimiter, cfg.input_quote);
    let clean = sanitize_row(&raw, cfg.output_delimiter, cfg.output_quote);
    let row = to_strings(&clean);
    let found = row.len();
    if cfg.names {
        return Ok(Step { header: None, outcome: Outcome::Names(row) });
    }
    let ordinal = state.accepted;
    let expected = match state.width {
        Some(width) => width,
        None => found,
    };
    match check_width(state.width, found, cfg.width_policy) {
        WidthVerdict::Mismatch => Err(
            PipelineError::WidthMismatch { ordinal, file_line, expected, found },
        ),
        WidthVerdict::Drop => Ok(
            Step {
                header: None,
                outcome: Outcome::WidthIgnored { ordinal, file_line, expected, found },
            },
        ),
        WidthVerdict::Rebase => {
            state.width = Some(found);
            Ok(Step { header: None, outcome: Outcome::WidthRebased { found } })
        },
        WidthVerdict::Accept => emit(cfg, state, file_line, &raw, &row, None, Ghost(line@)),
        WidthVerdict::Establish => {
            state.width = Some(found);
            if cfg.output_names.len() == 0 {
                emit(cfg, state, file_line, &raw, &row, None, Ghost(line@))
            } else {
                match render_header(
                    &cfg.output_names,
                    &cfg.columns,
                    found,
                    cfg.output_delimiter,
                ) {
                    Ok(header) => emit(
                        cfg,
                        state,
                        file_line,
                        &raw,
                        &row,
                        Some(header),
                        Ghost(line@),
                    ),
                    Err(e) => Err(e),
                }
            }
        },
    }
}

} // verus!
