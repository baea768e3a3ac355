use calculator::check_equation;
use calculator::literal::literal_is_zero;
use calculator::literal::literal_well_formed;
use calculator::extract_numbers;
use calculator::extract_operators;
use calculator::validate_equation;
use calculator::CheckedEquation;
use calculator::ErrorKind;

fn strings(items: &[&str]) -> Vec<String> {
    items.iter().map(|s| s.to_string()).collect()
}

#[test]
fn digits_only_is_rejected() {
    assert!(!validate_equation("12345"));
    assert!(!validate_equation("7"));
    assert!(!validate_equation("5.5"));
}

#[test]
fn operators_only_is_rejected() {
    assert!(!validate_equation("+-*/"));
    assert!(!validate_equation("+"));
    assert!(!validate_equation("**"));
}

#[test]
fn empty_and_blank_are_rejected() {
    assert!(!validate_equation(""));
    assert!(!validate_equation("   "));
}

#[test]
fn leading_operator_is_rejected() {
    assert!(!validate_equation("+5+3"));
}

#[test]
fn consecutive_operators_are_rejected() {
    assert!(!validate_equation("5++3"));
    assert!(!validate_equation("1+ -2"));
}

#[test]
fn trailing_operator_is_rejected() {
    assert!(!validate_equation("5+3+"));
}

#[test]
fn foreign_characters_are_rejected() {
    assert!(!validate_equation("3+a5"));
    assert!(!validate_equation("3+5="));
}

#[test]
fn well_formed_equations_are_accepted() {
    assert!(validate_equation("3+5*2"));
    assert!(validate_equation("10/2-3"));
    assert!(validate_equation("15.5+8.2"));
}

#[test]
fn whitespace_between_tokens_is_tolerated() {
    assert!(validate_equation("3 + 5 * 2"));
    assert!(validate_equation("  10 / 2 - 3  "));
}

#[test]
fn unicode_whitespace_is_tolerated() {
    assert!(validate_equation("3\u{a0}+\u{a0}5"));
    assert!(validate_equation("3\u{3000}+ 5\u{2009}*\u{85}2"));
    let eq = check_equation("3\u{a0}+5").unwrap();
    assert_eq!(eq.numbers, strings(&["3", "5"]));
    assert_eq!(eq.operators, vec!['+']);
}

#[test]
fn foreign_unicode_is_still_rejected() {
    assert!(!validate_equation("3\u{2603}+5"));
    assert_eq!(check_equation("3\u{2603}+5"), Err(ErrorKind::InvalidFormat));
}

#[test]
fn many_dots_pass_validation() {
    // the validator treats the dot as a digit-class character; the literal
    // is only rejected later, by the literal check
    assert!(validate_equation("1.2.3+4"));
}

#[test]
fn operators_are_extracted_in_order() {
    assert_eq!(extract_operators("3+5*2"), vec!['+', '*']);
    assert_eq!(extract_operators("10/2-3"), vec!['/', '-']);
}

#[test]
fn operator_extraction_is_a_pure_filter() {
    assert_eq!(extract_operators("++3--"), vec!['+', '+', '-', '-']);
    assert_eq!(extract_operators("abc"), Vec::<char>::new());
    assert_eq!(extract_operators(""), Vec::<char>::new());
}

#[test]
fn numbers_are_extracted_in_order() {
    assert_eq!(extract_numbers("3+5*2"), strings(&["3", "5", "2"]));
    assert_eq!(extract_numbers("15.5+8.2"), strings(&["15.5", "8.2"]));
}

#[test]
fn number_extraction_is_a_pure_scan() {
    assert_eq!(extract_numbers("5+3+"), strings(&["5", "3"]));
    assert_eq!(extract_numbers(" 12  34"), strings(&["12", "34"]));
    assert_eq!(extract_numbers("1.2.3"), strings(&["1.2.3"]));
    assert_eq!(extract_numbers("+-"), Vec::<String>::new());
    assert_eq!(extract_numbers(""), Vec::<String>::new());
}

#[test]
fn extraction_twice_gives_identical_sequences() {
    let input = "3 + 5 * 2";
    assert_eq!(extract_operators(input), extract_operators(input));
    assert_eq!(extract_numbers(input), extract_numbers(input));
}

#[test]
fn valid_equation_has_one_more_number_than_operators() {
    for input in ["3+5*2", "10/2-3", "15.5+8.2", "1 + 2 + 3 + 4"] {
        assert!(validate_equation(input));
        assert_eq!(
            extract_numbers(input).len(),
            extract_operators(input).len() + 1
        );
    }
}

#[test]
fn whitespace_inside_a_literal_breaks_the_count() {
    // `5 5+3` passes validation, yet the blank splits `5 5` into two
    // literals, so the count law does not cover it and the check reports
    // the mismatch
    let input = "5 5+3";
    assert!(validate_equation(input));
    assert_eq!(extract_numbers(input).len(), 3);
    assert_eq!(extract_operators(input).len(), 1);
    assert_eq!(check_equation(input), Err(ErrorKind::CountMismatch));
}

#[test]
fn checked_equation_holds_the_tokens() {
    let eq = check_equation("3+5*2").unwrap();
    assert_eq!(eq.numbers, strings(&["3", "5", "2"]));
    assert_eq!(eq.operators, vec!['+', '*']);
}

#[test]
fn checking_ignores_whitespace() {
    let spaced = check_equation("3 + 5 * 2").unwrap();
    let tight = check_equation("3+5*2").unwrap();
    assert_eq!(spaced, tight);
}

#[test]
fn division_and_subtraction_chain_is_accepted() {
    let eq = check_equation("10/2-3").unwrap();
    assert_eq!(
        eq,
        CheckedEquation {
            numbers: strings(&["10", "2", "3"]),
            operators: vec!['/', '-'],
        }
    );
}

#[test]
fn decimal_equation_is_accepted() {
    let eq = check_equation("15.5+8.2").unwrap();
    assert_eq!(eq.numbers, strings(&["15.5", "8.2"]));
    assert_eq!(eq.operators, vec!['+']);
}

#[test]
fn invalid_format_is_reported() {
    assert_eq!(check_equation("+5+3"), Err(ErrorKind::InvalidFormat));
    assert_eq!(check_equation("5+3+"), Err(ErrorKind::InvalidFormat));
    assert_eq!(check_equation(""), Err(ErrorKind::InvalidFormat));
}

#[test]
fn malformed_literal_is_reported() {
    assert_eq!(
        check_equation("1.2.3+4"),
        Err(ErrorKind::InvalidNumber("1.2.3".to_string()))
    );
    assert_eq!(
        check_equation("5+."),
        Err(ErrorKind::InvalidNumber(".".to_string()))
    );
}

#[test]
fn first_malformed_literal_is_reported() {
    assert_eq!(
        check_equation("1.2.3+4.5.6"),
        Err(ErrorKind::InvalidNumber("1.2.3".to_string()))
    );
}

#[test]
fn division_by_zero_is_reported() {
    assert_eq!(check_equation("5/0"), Err(ErrorKind::DivisionByZero));
    assert_eq!(check_equation("8/0.000"), Err(ErrorKind::DivisionByZero));
    assert_eq!(check_equation("8/.0"), Err(ErrorKind::DivisionByZero));
    assert_eq!(check_equation("1+2/0*3"), Err(ErrorKind::DivisionByZero));
}

#[test]
fn nonzero_divisor_is_accepted() {
    let eq = check_equation("3/0.5").unwrap();
    assert_eq!(eq.numbers, strings(&["3", "0.5"]));
    assert_eq!(eq.operators, vec!['/']);
}

#[test]
fn literal_well_formedness() {
    assert!(literal_well_formed("15.5"));
    assert!(literal_well_formed("0"));
    assert!(literal_well_formed("5."));
    assert!(literal_well_formed(".5"));
    assert!(!literal_well_formed("."));
    assert!(!literal_well_formed("1.2.3"));
    assert!(!literal_well_formed(""));
    assert!(!literal_well_formed("1x"));
}

#[test]
fn literal_zero_detection() {
    assert!(literal_is_zero("0"));
    assert!(literal_is_zero("0.000"));
    assert!(literal_is_zero(".0"));
    assert!(!literal_is_zero("0.1"));
    assert!(!literal_is_zero("5"));
    assert!(!literal_is_zero("."));
}

#[test]
fn division_check_precedes_nothing_it_should_not() {
    // a malformed literal is reported before any zero divisor
    assert_eq!(
        check_equation("1.2.3/0"),
        Err(ErrorKind::InvalidNumber("1.2.3".to_string()))
    );
}
