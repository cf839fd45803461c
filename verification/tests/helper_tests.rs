use usgs_data2csv::sanitize::{sanitize_chars, sanitize_row};
use usgs_data2csv::split::{merge_chars, split_chars, split_fields_chars};
use usgs_data2csv::text::{append_range, has_char, to_chars, to_strings};
use usgs_data2csv::validate::{check_width, WidthPolicy, WidthVerdict};

fn chars(s: &str) -> Vec<char> {
    s.chars().collect()
}

fn list(items: &[&str]) -> Vec<Vec<char>> {
    items.iter().map(|s| chars(s)).collect()
}

#[test]
fn verdict_of_the_width_rule() {
    for policy in [WidthPolicy::Fail, WidthPolicy::SoftIgnore, WidthPolicy::HardIgnore] {
        assert_eq!(check_width(None, 3, policy), WidthVerdict::Establish);
        assert_eq!(check_width(None, 0, policy), WidthVerdict::Establish);
        assert_eq!(check_width(Some(3), 3, policy), WidthVerdict::Accept);
    }
    assert_eq!(check_width(Some(3), 2, WidthPolicy::Fail), WidthVerdict::Mismatch);
    assert_eq!(check_width(Some(3), 4, WidthPolicy::SoftIgnore), WidthVerdict::Drop);
    assert_eq!(check_width(Some(3), 4, WidthPolicy::HardIgnore), WidthVerdict::Rebase);
}

#[test]
fn character_is_found() {
    assert!(has_char(&chars("a,b"), ','));
    assert!(has_char(&chars(","), ','));
    assert!(!has_char(&chars("a;b"), ','));
    assert!(!has_char(&chars(""), ','));
}

#[test]
fn range_is_appended() {
    let mut to = chars("ab");
    append_range(&mut to, &chars("cdefg"), 1, 4);
    assert_eq!(to, chars("abdef"));
    append_range(&mut to, &chars("xyz"), 2, 2);
    assert_eq!(to, chars("abdef"));
    append_range(&mut to, &chars("xyz"), 0, 3);
    assert_eq!(to, chars("abdefxyz"));
}

#[test]
fn strings_of_character_vectors() {
    assert_eq!(to_strings(&list(&["a", "", "bc"])), vec!["a", "", "bc"]);
    assert_eq!(to_strings(&list(&[])), Vec::<String>::new());
    assert_eq!(to_chars("añb"), vec!['a', 'ñ', 'b']);
}

#[test]
fn segments_of_a_line() {
    assert_eq!(split_chars(&chars("a,b,,c"), ','), list(&["a", "b", "", "c"]));
    assert_eq!(split_chars(&chars(""), ','), list(&[""]));
}

#[test]
fn segments_are_merged_by_the_quote_convention() {
    assert_eq!(merge_chars(&list(&["x", "'a", "b'", "y"]), ';', '\''), list(&["x", "a;b", "y"]));
    assert_eq!(merge_chars(&list(&["'a", "b", "c'"]), ';', '\''), list(&["a;b;c"]));
    assert_eq!(merge_chars(&list(&["'", "'"]), ';', '\''), list(&[";"]));
    assert_eq!(merge_chars(&list(&["a", "'b"]), ';', '\''), list(&["a"]));
    assert_eq!(merge_chars(&list(&[]), ';', '\''), list(&[]));
}

#[test]
fn fields_with_and_without_quote_character() {
    assert_eq!(split_fields_chars(&chars("'a;b';c"), ';', Some('\'')), list(&["a;b", "c"]));
    assert_eq!(split_fields_chars(&chars("'a;b';c"), ';', None), list(&["'a", "b'", "c"]));
}

#[test]
fn row_is_sanitized_field_by_field() {
    assert_eq!(
        sanitize_row(&list(&[" a ", "b,c", "", " , "]), ',', '"'),
        list(&["a", "\"b,c\"", "", "\",\""])
    );
    assert_eq!(sanitize_chars(&chars("\tx y\n"), ' ', '|'), chars("|x y|"));
}
