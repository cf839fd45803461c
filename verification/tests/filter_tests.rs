use usgs_data2csv::error::{ConfigFault, PipelineError};
use usgs_data2csv::filter::{apply_filters, parse_filter_rule, FilterRule, FilterVerdict};
use usgs_data2csv::number::parse_number;

fn row(items: &[&str]) -> Vec<String> {
    items.iter().map(|s| s.to_string()).collect()
}

fn rule(column: usize, value: &str, inclusive: bool) -> FilterRule {
    FilterRule { column, value: value.to_string(), inclusive }
}

fn digits(s: &str) -> Vec<char> {
    s.chars().collect()
}

#[test]
fn no_rules_pass_everything() {
    assert_eq!(apply_filters(&vec![], &row(&["a"])), FilterVerdict::Pass);
    assert_eq!(apply_filters(&vec![], &row(&[])), FilterVerdict::Pass);
}

#[test]
fn inclusive_rule_keeps_equal_fields() {
    let rules = vec![rule(2, "x", true)];
    assert_eq!(apply_filters(&rules, &row(&["a", "x"])), FilterVerdict::Pass);
    assert_eq!(apply_filters(&rules, &row(&["a", "y"])), FilterVerdict::Reject);
}

#[test]
fn exclusive_rule_keeps_other_fields() {
    let rules = vec![rule(2, "x", false)];
    assert_eq!(apply_filters(&rules, &row(&["a", "x"])), FilterVerdict::Reject);
    assert_eq!(apply_filters(&rules, &row(&["a", "y"])), FilterVerdict::Pass);
}

#[test]
fn all_rules_must_hold() {
    let rules = vec![rule(1, "a", true), rule(2, "x", false), rule(3, "c", true)];
    assert_eq!(apply_filters(&rules, &row(&["a", "b", "c"])), FilterVerdict::Pass);
    assert_eq!(apply_filters(&rules, &row(&["a", "x", "c"])), FilterVerdict::Reject);
    assert_eq!(apply_filters(&rules, &row(&["a", "b", "d"])), FilterVerdict::Reject);
    assert_eq!(apply_filters(&rules, &row(&["z", "b", "c"])), FilterVerdict::Reject);
}

#[test]
fn record_passes_exactly_if_every_rule_holds() {
    let values = ["a", "b"];
    for first in values {
        for second in values {
            for flag_one in [true, false] {
                for flag_two in [true, false] {
                    let rules = vec![rule(1, "a", flag_one), rule(2, "a", flag_two)];
                    let record = row(&[first, second]);
                    let expected = ((first == "a") == flag_one) && ((second == "a") == flag_two);
                    let verdict = apply_filters(&rules, &record);
                    assert_eq!(verdict == FilterVerdict::Pass, expected);
                    assert_eq!(verdict == FilterVerdict::Reject, !expected);
                }
            }
        }
    }
}

#[test]
fn column_beyond_the_record_is_out_of_range() {
    let rules = vec![rule(3, "x", true)];
    assert_eq!(
        apply_filters(&rules, &row(&["a", "b"])),
        FilterVerdict::OutOfRange { column: 3 }
    );
    assert_eq!(
        apply_filters(&vec![rule(0, "x", false)], &row(&["a", "b"])),
        FilterVerdict::OutOfRange { column: 0 }
    );
}

#[test]
fn first_rule_that_does_not_hold_decides() {
    let rejecting_first = vec![rule(1, "z", true), rule(9, "x", true)];
    assert_eq!(apply_filters(&rejecting_first, &row(&["a", "b"])), FilterVerdict::Reject);
    let out_of_range_first = vec![rule(9, "x", true), rule(1, "z", true)];
    assert_eq!(
        apply_filters(&out_of_range_first, &row(&["a", "b"])),
        FilterVerdict::OutOfRange { column: 9 }
    );
}

#[test]
fn rule_is_read_from_column_and_value() {
    assert_eq!(parse_filter_rule("3:abc", true), Ok(rule(3, "abc", true)));
    assert_eq!(parse_filter_rule("12:x y", false), Ok(rule(12, "x y", false)));
    assert_eq!(parse_filter_rule("1:", true), Ok(rule(1, "", true)));
    assert_eq!(parse_filter_rule("+4:v", true), Ok(rule(4, "v", true)));
    assert_eq!(parse_filter_rule("0:v", true), Ok(rule(0, "v", true)));
}

#[test]
fn rule_value_ends_at_the_second_colon() {
    assert_eq!(parse_filter_rule("3:a:b", true), Ok(rule(3, "a", true)));
}

#[test]
fn malformed_rule_is_a_configuration_fault() {
    let fault = Err(PipelineError::Configuration(ConfigFault::FilterRule));
    assert_eq!(parse_filter_rule("3", true), fault);
    assert_eq!(parse_filter_rule("", true), fault);
    assert_eq!(parse_filter_rule("x:1", true), fault);
    assert_eq!(parse_filter_rule(":1", true), fault);
    assert_eq!(parse_filter_rule(" 3:a", true), fault);
    assert_eq!(parse_filter_rule("-3:a", true), fault);
    assert_eq!(parse_filter_rule("99999999999999999999999:a", true), fault);
}

#[test]
fn number_is_read_as_std_reads_it() {
    for text in [
        "0", "7", "007", "+7", "42", "18446744073709551615", "18446744073709551616", "", "+",
        "-1", "1a", "a1", " 1", "1 ", "++1", "٣", "1_000", "99999999999999999999",
    ] {
        assert_eq!(parse_number(&digits(text)), text.parse::<usize>().ok(), "text {:?}", text);
    }
}

#[test]
fn number_has_its_decimal_value() {
    assert_eq!(parse_number(&digits("1234")), Some(1234));
    assert_eq!(parse_number(&digits("+0")), Some(0));
    assert_eq!(parse_number(&digits("18446744073709551615")), Some(usize::MAX));
}
