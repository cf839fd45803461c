//! Lists of numbers and ranges, such as `1,4,6-10,14`.

use number_range::{Number, NumberRangeOptions};
use vstd::prelude::*;
use crate::error::{ConfigFault, PipelineError};

verus! {

/// The error type of `anyhow`, in which `number_range` reports a text that it
/// cannot read. Nothing is known of a value of it.
#[verifier::external_type_specification]
#[verifier::external_body]
pub struct ExAnyhowError(anyhow::Error);

/// One entry of a list: a single number, or a range given by its start, its
/// step and its end.
#[derive(Clone, Copy, Debug, PartialEq, Eq, Structural)]
pub enum RangeItem {
    Single(usize),
    Range(usize, usize, usize),
}

/// The entries that `number_range` reads from a text, with `,` between the
/// entries, `-` between the parts of a range and 1 as the start of a range
/// that names none; `None` for a text that it refuses.
pub uninterp spec fn number_range_items(text: Seq<char>) -> Option<Seq<RangeItem>>;

/// The numbers of a range: the start, and then every number that lies a whole
/// number of steps after it and not after the end. A range whose step is zero,
/// or whose start lies after its end, has no numbers.
pub open spec fn range_values(start: int, step: int, end: int) -> Seq<usize>
    decreases
        if start <= end {
            end - start + 1
        } else {
            0
        },
{
    if step > 0 && start <= end {
        seq![start as usize] + range_values(start + step, step, end)
    } else {
        Seq::empty()
    }
}

/// Whether a range can be stepped through in `usize`: one step past each of
/// its numbers, the last one too, is still a `usize`.
pub open spec fn range_fits(start: int, step: int, end: int) -> bool
    decreases
        if start <= end {
            end - start + 1
        } else {
            0
        },
{
    if step > 0 && start <= end {
        start + step <= usize::MAX && range_fits(start + step, step, end)
    } else {
        true
    }
}

/// The numbers of one entry.
pub open spec fn item_values(item: RangeItem) -> Seq<usize> {
    match item {
        RangeItem::Single(v) => seq![v],
        RangeItem::Range(start, step, end) => range_values(start as int, step as int, end as int),
    }
}

/// Whether one entry can be stepped through in `usize`.
pub open spec fn item_fits(item: RangeItem) -> bool {
    match item {
        RangeItem::Single(_) => true,
        RangeItem::Range(start, step, end) => range_fits(start as int, step as int, end as int),
    }
}

/// The numbers of a list: those of its entries, one entry after the other.
pub open spec fn expanded(items: Seq<RangeItem>) -> Seq<usize>
    decreases items.len(),
{
    if items.len() == 0 {
        Seq::empty()
    } else {
        expanded(items.drop_last()) + item_values(items.last())
    }
}

/// Whether every entry of a list can be stepped through in `usize`.
pub open spec fn items_fit(items: Seq<RangeItem>) -> bool {
    forall|i: int| 0 <= i < items.len() ==> item_fits(#[trigger] items[i])
}

/// The numbers that a text lists, where `number_range` reads it and every
/// range in it can be stepped through.
pub open spec fn listed_numbers(text: Seq<char>) -> Option<Seq<usize>> {
    match number_range_items(text) {
        Some(items) => if items_fit(items) {
            Some(expanded(items))
        } else {
            None
        },
        None => None,
    }
}

/// `NumberRangeOptions::parse` of the `number_range` crate, on `usize`, with
/// the default options but `-` as the range separator and 1 as the default
/// start. The entries that it reads are handed out as they stand in its
/// `numbers`; which entries it reads from which text is not stated here, only
/// that the same text gives the same entries.
#[verifier::external_body]
fn read_items(text: &str) -> (r: Result<Vec<RangeItem>, anyhow::Error>)
    ensures
        match r {
            Ok(items) => number_range_items(text@) == Some(items@),
            Err(_) => number_range_items(text@) is None,
        },
{
    let options = NumberRangeOptions::<usize>::default().with_default_start(1).with_range_sep('-');
    let parsed = options.parse(text)?;
    Ok(parsed.numbers.into_iter().map(|n| match n {
        Number::Single(v) => RangeItem::Single(v),
        Number::Range(start, step, end) => RangeItem::Range(start, step, end),
    }).collect())
}

/// Appends the numbers of the range to `out`; `false`, with `out` in an
/// unspecified state of no use, if the range cannot be stepped through.
fn push_range(out: &mut Vec<usize>, start: usize, step: usize, end: usize) -> (fits: bool)
    ensures
        fits == range_fits(start as int, step as int, end as int),
        fits ==> final(out)@ == old(out)@ + range_values(start as int, step as int, end as int),
{
    let mut at: usize = start;
    while step > 0 && at <= end
        invariant
            range_fits(at as int, step as int, end as int) == range_fits(
                start as int,
                step as int,
                end as int,
            ),
            out@ + range_values(at as int, step as int, end as int) == old(out)@ + range_values(
                start as int,
                step as int,
                end as int,
            ),
        decreases
            if at <= end {
                end - at + 1
            } else {
                0
            },
    {
        out.push(at);
        match at.checked_add(step) {
            Some(next) => {
                at = next;
            },
            None => {
                return false;
            },
        }
    }
    true
}

/// The numbers of the list `items`, one entry after the other; `None` where a
/// range in it cannot be stepped through in `usize`.
pub fn expand_items(items: &Vec<RangeItem>) -> (r: Option<Vec<usize>>)
    ensures
        match r {
            Some(numbers) => items_fit(items@) && numbers@ == expanded(items@),
            None => !items_fit(items@),
        },
{
    let mut out: Vec<usize> = Vec::new();
    let mut i: usize = 0;
    while i < items.len()
        invariant
            i <= items.len(),
            out@ == expanded(items@.take(i as int)),
            forall|k: int| 0 <= k < i ==> item_fits(#[trigger] items@[k]),
        decreases items.len() - i,
    {
        proof {
            assert(items@.take(i + 1).drop_last() =~= items@.take(i as int));
        }
        match items[i] {
            RangeItem::Single(v) => {
                out.push(v);
            },
            RangeItem::Range(start, step, end) => {
                if !push_range(&mut out, start, step, end) {
                    return None;
                }
            },
        }
        i += 1;
    }
    proof {
        assert(items@.take(items.len() as int) =~= items@);
    }
    Some(out)
}

/// Reads a list of numbers and ranges, such as `1,4,6-10,14`, and gives the
/// numbers that it lists, in the order of the list. A text that cannot be read,
/// or that holds a range that cannot be stepped through in `usize`, is a
/// configuration fault.
pub fn number_range_parser(num: &str) -> (r: Result<Vec<usize>, PipelineError>)
    ensures
        match r {
            Ok(numbers) => listed_numbers(num@) == Some(numbers@),
            Err(e) => listed_numbers(num@) is None && e == PipelineError::Configuration(
                ConfigFault::NumberRange,
            ),
        },
{
    match read_items(num) {
        Ok(items) => match expand_items(&items) {
            Some(numbers) => Ok(numbers),
            None => Err(PipelineError::Configuration(ConfigFault::NumberRange)),
        },
        Err(_) => Err(PipelineError::Configuration(ConfigFault::NumberRange)),
    }
}

} // verus!
