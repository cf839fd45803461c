//! Filter rules: a record is kept when each rule holds of it.

use vstd::prelude::*;
use crate::error::{ConfigFault, PipelineError};
use crate::number::{parse_number, parsed_number};
use crate::split::{split_chars, split_on};
use crate::text::{from_chars, row_view, to_chars};

verus! {

/// One rule: the field in column `column` (counted from 1) is compared with
/// `value`. An inclusive rule holds where the two are equal, any other rule
/// where they differ.
#[derive(Debug, PartialEq, Eq)]
pub struct FilterRule {
    pub column: usize,
    pub value: String,
    pub inclusive: bool,
}

/// What the rules say of one record.
#[derive(Clone, Copy, Debug, PartialEq, Eq, Structural)]
pub enum FilterVerdict {
    /// Every rule holds.
    Pass,
    /// A rule does not hold; the rules after it were not looked at.
    Reject,
    /// A rule names a column that the record does not have; the rules before
    /// it hold.
    OutOfRange { column: usize },
}

/// The record has the column that the rule names.
pub open spec fn rule_in_range(rule: FilterRule, row: Seq<Seq<char>>) -> bool {
    1 <= rule.column <= row.len()
}

/// The field that the rule names equals the rule's value.
pub open spec fn rule_matches(rule: FilterRule, row: Seq<Seq<char>>) -> bool {
    row[rule.column - 1] == rule.value@
}

/// The rule can be applied to the record and holds of it.
pub open spec fn rule_holds(rule: FilterRule, row: Seq<Seq<char>>) -> bool {
    rule_in_range(rule, row) && rule_matches(rule, row) == rule.inclusive
}

/// The index of the first rule that does not hold of the record; the number of
/// rules if all hold.
pub open spec fn first_failing(rules: Seq<FilterRule>, row: Seq<Seq<char>>) -> int
    decreases rules.len(),
{
    if rules.len() == 0 || !rule_holds(rules[0], row) {
        0
    } else {
        1 + first_failing(rules.drop_first(), row)
    }
}

/// The verdict of the rules on a record: the rules are tried in order, and the
/// first one that does not hold decides.
pub open spec fn filter_verdict(rules: Seq<FilterRule>, row: Seq<Seq<char>>) -> FilterVerdict {
    let k = first_failing(rules, row);
    if !(0 <= k < rules.len()) {
        FilterVerdict::Pass
    } else if rule_in_range(rules[k], row) {
        FilterVerdict::Reject
    } else {
        FilterVerdict::OutOfRange { column: rules[k].column }
    }
}

/// The rule that `text` writes down: the text before the first colon is the
/// column number, the text between the first and the second colon (or the end)
/// is the value. A text without colon, or without a number in front of it,
/// writes down no rule.
pub open spec fn parsed_rule(text: Seq<char>) -> Option<(usize, Seq<char>)> {
    let parts = split_on(text, ':');
    if parts.len() >= 2 {
        match parsed_number(parts[0]) {
            Some(column) => Some((column, parts[1])),
            None => None,
        }
    } else {
        None
    }
}

/// `first_failing` is the one index before which every rule holds and at which
/// the rule does not, or the number of rules.
pub proof fn lemma_first_failing(rules: Seq<FilterRule>, row: Seq<Seq<char>>, k: int)
    requires
        0 <= k <= rules.len(),
        forall|i: int| 0 <= i < k ==> rule_holds(#[trigger] rules[i], row),
        k == rules.len() || !rule_holds(rules[k], row),
    ensures
        first_failing(rules, row) == k,
    decreases rules.len(),
{
    if k > 0 {
        lemma_first_failing(rules.drop_first(), row, k - 1);
    }
}

/// Where `first_failing` points.
pub proof fn lemma_first_failing_bounds(rules: Seq<FilterRule>, row: Seq<Seq<char>>)
    ensures
        0 <= first_failing(rules, row) <= rules.len(),
        forall|i: int| 0 <= i < first_failing(rules, row) ==> rule_holds(#[trigger] rules[i], row),
        first_failing(rules, row) < rules.len() ==> !rule_holds(
            rules[first_failing(rules, row)],
            row,
        ),
    decreases rules.len(),
{
    if !(rules.len() == 0 || !rule_holds(rules[0], row)) {
        let rest = rules.drop_first();
        lemma_first_failing_bounds(rest, row);
        let k = first_failing(rest, row);
        assert forall|i: int| 0 <= i < k + 1 implies rule_holds(#[trigger] rules[i], row) by {
            if i > 0 {
                assert(rules[i] == rest[i - 1]);
            }
        }
    }
}

/// Filter exclusivity. A record passes if and only if every rule holds of it:
/// the record has the rule's column, and the field there equals the rule's
/// value exactly when the rule is inclusive. Where the record has every
/// column that the rules name, it is rejected otherwise.
pub proof fn lemma_filter_exclusive(rules: Seq<FilterRule>, row: Seq<Seq<char>>)
    ensures
        filter_verdict(rules, row) == FilterVerdict::Pass <==> (forall|i: int|
            0 <= i < rules.len() ==> rule_holds(#[trigger] rules[i], row)),
        (forall|i: int| 0 <= i < rules.len() ==> rule_in_range(#[trigger] rules[i], row)) ==> (
        filter_verdict(rules, row) == FilterVerdict::Pass <==> (forall|i: int|
            0 <= i < rules.len() ==> rule_matches(#[trigger] rules[i], row) == rules[i].inclusive)),
        (forall|i: int| 0 <= i < rules.len() ==> rule_in_range(#[trigger] rules[i], row)) ==> (
        filter_verdict(rules, row) == FilterVerdict::Pass || filter_verdict(rules, row)
            == FilterVerdict::Reject),
{
    lemma_first_failing_bounds(rules, row);
}

/// Tries the rules on a record, in order, and stops at the first that does not
/// hold.
pub fn apply_filters(rules: &Vec<FilterRule>, row: &Vec<String>) -> (verdict: FilterVerdict)
    ensures
        verdict == filter_verdict(rules@, row_view(row@)),
{
    let ghost fields = row_view(row@);
    let mut i: usize = 0;
    while i < rules.len()
        invariant
            i <= rules.len(),
            fields == row_view(row@),
            forall|j: int| 0 <= j < i ==> rule_holds(#[trigger] rules@[j], fields),
        decreases rules.len() - i,
    {
        let rule = &rules[i];
        if rule.column == 0 || rule.column > row.len() {
            proof {
                lemma_first_failing(rules@, fields, i as int);
            }
            return FilterVerdict::OutOfRange { column: rule.column };
        }
        let matched = row[rule.column - 1] == rule.value;
        if matched != rule.inclusive {
            proof {
                lemma_first_failing(rules@, fields, i as int);
            }
            return FilterVerdict::Reject;
        }
        i += 1;
    }
    proof {
        lemma_first_failing(rules@, fields, rules.len() as int);
    }
    FilterVerdict::Pass
}

/// Reads a filter rule written as `column:value`. What follows a second colon
/// is not part of the value.
pub fn parse_filter_rule(text: &str, inclusive: bool) -> (r: Result<FilterRule, PipelineError>)
    ensures
        match r {
            Ok(rule) => parsed_rule(text@) == Some((rule.column, rule.value@)) && rule.inclusive
                == inclusive,
            Err(e) => parsed_rule(text@) is None && e == PipelineError::Configuration(
                ConfigFault::FilterRule,
            ),
        },
{
    let chars = to_chars(text);
    let parts = split_chars(&chars, ':');
    if parts.len() < 2 {
        return Err(PipelineError::Configuration(ConfigFault::FilterRule));
    }
    match parse_number(&parts[0]) {
        Some(column) => Ok(FilterRule { column, value: from_chars(&parts[1]), inclusive }),
        None => Err(PipelineError::Configuration(ConfigFault::FilterRule)),
    }
}

} // verus!
