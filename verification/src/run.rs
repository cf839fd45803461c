//! Whole runs: what holds of the steps over all the lines of the input, taken
//! in order.

use vstd::prelude::*;
use crate::error::PipelineError;
use crate::pipeline::{
    lemma_counters_grow, lemma_row_limit, lemma_width_is_kept, lemma_width_lock_in,
    record, step_model, writes_line, writes_row, Config, PipelineState, StepModel,
};
use crate::validate::WidthPolicy;

verus! {

/// One line of the input: its position in its file, counted from 0, and its
/// text.
pub struct InputLine {
    pub file_line: usize,
    pub text: Seq<char>,
}

/// Whether the run goes on after a step: it ends with an error, with a name
/// listing and with a match in line-number mode.
pub open spec fn goes_on(result: Result<StepModel, PipelineError>) -> bool {
    match result {
        Ok(step) => !(step.outcome is Names) && !(step.outcome is Matched),
        Err(_) => false,
    }
}

/// The results of the steps of a run that starts in `state`, one for each
/// line that is taken, in order. The lines after the one that ends the run are
/// not taken.
pub open spec fn run_results(cfg: Config, state: PipelineState, lines: Seq<InputLine>) -> Seq<
    Result<StepModel, PipelineError>,
>
    decreases lines.len(),
{
    if lines.len() == 0 {
        Seq::empty()
    } else {
        let (next, result) = step_model(cfg, state, lines[0].file_line, lines[0].text);
        if goes_on(result) {
            seq![result] + run_results(cfg, next, lines.drop_first())
        } else {
            seq![result]
        }
    }
}

/// The state at the end of a run that starts in `state`.
pub open spec fn run_state(
    cfg: Config,
    state: PipelineState,
    lines: Seq<InputLine>,
) -> PipelineState
    decreases lines.len(),
{
    if lines.len() == 0 {
        state
    } else {
        let (next, result) = step_model(cfg, state, lines[0].file_line, lines[0].text);
        if goes_on(result) {
            run_state(cfg, next, lines.drop_first())
        } else {
            next
        }
    }
}

/// The number of results that write a line.
pub open spec fn written_count(results: Seq<Result<StepModel, PipelineError>>) -> nat
    decreases results.len(),
{
    if results.len() == 0 {
        0
    } else {
        let one: nat = if writes_line(results.last()) {
            1
        } else {
            0
        };
        written_count(results.drop_last()) + one
    }
}

/// The count of a sequence of results with one more in front.
proof fn lemma_written_count_front(
    first: Result<StepModel, PipelineError>,
    rest: Seq<Result<StepModel, PipelineError>>,
)
    ensures
        written_count(seq![first] + rest) == written_count(seq![first]) + written_count(rest),
        written_count(seq![first]) == if writes_line(first) {
            1nat
        } else {
            0nat
        },
    decreases rest.len(),
{
    let single = seq![first];
    assert(written_count(single.drop_last()) == 0);
    if rest.len() > 0 {
        assert((single + rest).drop_last() =~= single + rest.drop_last());
        lemma_written_count_front(first, rest.drop_last());
    }
}

/// A run takes its lines in order: there is one result for each line up to
/// the one that ends the run, and the state stays well formed.
pub proof fn lemma_run_shape(cfg: Config, state: PipelineState, lines: Seq<InputLine>)
    requires
        state.wf(),
        state.accepted + lines.len() <= usize::MAX,
    ensures
        run_results(cfg, state, lines).len() <= lines.len(),
        forall|i: int|
            0 <= i < run_results(cfg, state, lines).len() - 1 ==> goes_on(
                #[trigger] run_results(cfg, state, lines)[i],
            ),
        run_state(cfg, state, lines).wf(),
        state.accepted <= run_state(cfg, state, lines).accepted <= state.accepted + lines.len(),
        state.kept() <= run_state(cfg, state, lines).kept(),
    decreases lines.len(),
{
    if lines.len() > 0 {
        let (next, result) = step_model(cfg, state, lines[0].file_line, lines[0].text);
        lemma_counters_grow(cfg, state, lines[0].file_line, lines[0].text);
        if goes_on(result) {
            lemma_run_shape(cfg, next, lines.drop_first());
        }
    }
}

/// Once a width is established, a run under the `Fail` or the soft-ignore
/// policy ends with the same established width.
pub proof fn lemma_run_keeps_width(cfg: Config, state: PipelineState, lines: Seq<InputLine>)
    requires
        state.wf(),
        state.accepted + lines.len() <= usize::MAX,
        state.width is Some,
        cfg.width_policy != WidthPolicy::HardIgnore,
    ensures
        run_state(cfg, state, lines).width == state.width,
    decreases lines.len(),
{
    if lines.len() > 0 {
        let (next, result) = step_model(cfg, state, lines[0].file_line, lines[0].text);
        lemma_counters_grow(cfg, state, lines[0].file_line, lines[0].text);
        lemma_width_is_kept(cfg, state, lines[0].file_line, lines[0].text);
        if goes_on(result) {
            lemma_run_keeps_width(cfg, next, lines.drop_first());
        }
    }
}

/// Width lock-in over a run. Under the `Fail` or the soft-ignore policy every
/// row that a run writes comes from a record of one and the same width: the
/// width that is established at the end of the run, which is the width at its
/// start where one was established then.
pub proof fn lemma_run_rows_have_one_width(
    cfg: Config,
    state: PipelineState,
    lines: Seq<InputLine>,
)
    requires
        state.wf(),
        state.accepted + lines.len() <= usize::MAX,
        cfg.width_policy != WidthPolicy::HardIgnore,
        forall|i: int| 0 <= i < lines.len() ==> record(cfg, (#[trigger] lines[i]).text).len()
            <= usize::MAX,
    ensures
        run_results(cfg, state, lines).len() <= lines.len(),
        forall|i: int|
            0 <= i < run_results(cfg, state, lines).len() && writes_row(
                #[trigger] run_results(cfg, state, lines)[i],
            ) ==> run_state(cfg, state, lines).width == Some(
                record(cfg, lines[i].text).len() as usize,
            ),
        state.width is Some ==> run_state(cfg, state, lines).width == state.width,
    decreases lines.len(),
{
    lemma_run_shape(cfg, state, lines);
    if state.width is Some {
        lemma_run_keeps_width(cfg, state, lines);
    }
    if lines.len() > 0 {
        let first = lines[0];
        let (next, result) = step_model(cfg, state, first.file_line, first.text);
        lemma_counters_grow(cfg, state, first.file_line, first.text);
        let rest = lines.drop_first();
        if writes_row(result) {
            lemma_width_lock_in(cfg, state, first.file_line, first.text);
            lemma_run_keeps_width(cfg, next, rest);
        }
        if goes_on(result) {
            lemma_run_rows_have_one_width(cfg, next, rest);
        }
    }
}

/// Row limit over a run. With a limit configured, a run writes no more lines
/// than the limit leaves room for at its start; a run from the start of the
/// input writes no more lines than the limit.
pub proof fn lemma_run_row_limit(cfg: Config, state: PipelineState, lines: Seq<InputLine>)
    requires
        state.wf(),
        state.accepted + lines.len() <= usize::MAX,
        cfg.head is Some,
        state.kept() <= cfg.head->0,
    ensures
        written_count(run_results(cfg, state, lines)) + state.kept() <= run_state(
            cfg,
            state,
            lines,
        ).kept(),
        run_state(cfg, state, lines).kept() <= cfg.head->0,
    decreases lines.len(),
{
    if lines.len() > 0 {
        let first = lines[0];
        let (next, result) = step_model(cfg, state, first.file_line, first.text);
        lemma_counters_grow(cfg, state, first.file_line, first.text);
        lemma_row_limit(cfg, state, first.file_line, first.text);
        if goes_on(result) {
            let rest = lines.drop_first();
            lemma_run_row_limit(cfg, next, rest);
            lemma_written_count_front(result, run_results(cfg, next, rest));
        } else {
            lemma_written_count_front(result, Seq::empty());
        }
    }
}

} // verus!
