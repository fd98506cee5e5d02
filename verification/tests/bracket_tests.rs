use brainfuck::brackets::check_brackets_match;
use brainfuck::brackets::find_matching_bracket;

#[test]
fn validate_balanced_nested() {
    assert!(check_brackets_match("[[]]").is_ok());
}

#[test]
fn validate_unmatched_open_reports_last_open() {
    let err = check_brackets_match("[[]").unwrap_err();
    assert_eq!(err.code, 1);
    // The last loop-open seen stands at offset 1, line 1, column 2.
    assert_eq!(err.details(), "1:2 - Syntax Error - Unmatched bracket '['");
}

#[test]
fn validate_unmatched_close_at_start() {
    let err = check_brackets_match("]").unwrap_err();
    assert_eq!(err.code, 1);
    assert_eq!(err.details(), "1:1 - Syntax Error - Unmatched bracket ']'");
}

#[test]
fn validate_empty_program() {
    assert!(check_brackets_match("").is_ok());
}

#[test]
fn validate_counts_only() {
    // The validator counts brackets; it does not check nesting order.
    assert!(check_brackets_match("][").is_ok());
}

#[test]
fn validate_reports_location_on_later_line() {
    let err = check_brackets_match("++\n+[").unwrap_err();
    assert_eq!(err.details(), "2:2 - Syntax Error - Unmatched bracket '['");
}

#[test]
fn matcher_finds_partner_both_ways() {
    let program = "[>+<-]";
    assert_eq!(find_matching_bracket(0, program), 5);
    assert_eq!(find_matching_bracket(5, program), 0);
}

#[test]
fn matcher_nested() {
    let program = "[[]]";
    assert_eq!(find_matching_bracket(0, program), 3);
    assert_eq!(find_matching_bracket(1, program), 2);
    assert_eq!(find_matching_bracket(2, program), 1);
    assert_eq!(find_matching_bracket(3, program), 0);
}

#[test]
fn matcher_falls_back_to_zero_without_partner() {
    assert_eq!(find_matching_bracket(1, "+["), 0);
}

#[test]
fn matcher_on_plain_character_returns_its_own_offset() {
    assert_eq!(find_matching_bracket(2, "[>+<-]"), 2);
}
