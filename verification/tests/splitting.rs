//! Multi-value splitting and confirmation parsing.

use clemp::cli::parse_confirmation;
use clemp::cli::split_multi_values;

#[test]
fn split_multi_values_comma_only() {
    let input = vec!["a,b,c".into()];
    // The argument parser already splits commas, so each value arrives
    // separately; a comma inside one value is left alone here.
    assert_eq!(split_multi_values(input), vec!["a,b,c"]);
}

#[test]
fn split_multi_values_space_separated() {
    let input = vec!["context7 sequential-thinking".into()];
    assert_eq!(
        split_multi_values(input),
        vec!["context7", "sequential-thinking"]
    );
}

#[test]
fn split_multi_values_mixed() {
    let input = vec!["a".into(), "b c".into()];
    assert_eq!(split_multi_values(input), vec!["a", "b", "c"]);
}

#[test]
fn split_multi_values_extra_whitespace() {
    let input = vec!["  foo   bar  ".into()];
    assert_eq!(split_multi_values(input), vec!["foo", "bar"]);
}

#[test]
fn split_multi_values_empty_string() {
    let input = vec!["".into()];
    assert_eq!(split_multi_values(input), Vec::<String>::new());
}

#[test]
fn split_multi_values_tabs_and_newlines() {
    let input = vec!["a\tb\nc".into()];
    assert_eq!(split_multi_values(input), vec!["a", "b", "c"]);
}

#[test]
fn split_multi_values_single_value_no_split() {
    let input = vec!["context7".into()];
    assert_eq!(split_multi_values(input), vec!["context7"]);
}

#[test]
fn confirmation_yes_values() {
    assert!(parse_confirmation("y"));
    assert!(parse_confirmation("Y"));
    assert!(parse_confirmation("yes"));
    assert!(parse_confirmation("YES"));
    assert!(parse_confirmation("  yes \n"));
}

#[test]
fn confirmation_everything_else_is_no() {
    assert!(!parse_confirmation(""));
    assert!(!parse_confirmation("n"));
    assert!(!parse_confirmation("no"));
    assert!(!parse_confirmation("yess"));
    assert!(!parse_confirmation("ok"));
}
