use eldiro::utils::extract_digits;
use eldiro::utils::extract_ident;
use eldiro::utils::extract_op;
use eldiro::utils::extract_whitespace;
use eldiro::utils::tag;

#[test]
fn utils_extract_one_digit() {
    assert_eq!(extract_digits("1+2"), Ok(("+2", "1")));
}

#[test]
fn utils_extract_multiple_digits() {
    assert_eq!(extract_digits("10*20"), Ok(("*20", "10")));
}

#[test]
fn do_not_extract_anything_when_input_invalid() {
    assert_eq!(extract_digits("abc"), Err("Expected digits".to_string()));
}

#[test]
fn do_not_extract_anything_from_empty_input() {
    assert_eq!(extract_digits(""), Err("Expected digits".to_string()));
}

#[test]
fn utils_extract_all_no_remainder() {
    assert_eq!(extract_digits("100"), Ok(("", "100")));
}

#[test]
fn extract_spaces() {
    assert_eq!(extract_whitespace("    1"), ("1", "    "));
}

#[test]
fn extract_newlines_or_spaces() {
    assert_eq!(extract_whitespace("\n  \nabc"), ("abc", "\n  \n"));
}

#[test]
fn extract_alphabetic_ident() {
    assert_eq!(extract_ident("abc stop"), Ok((" stop", "abc")));
}

#[test]
fn extract_alphanumeric_ident() {
    assert_eq!(extract_ident("foo1()"), Ok(("()", "foo1")));
}

#[test]
fn dont_extract_ident_starting_with_number() {
    assert_eq!(extract_ident("12ronak"), Err("Expected identifier".to_string()));
}

#[test]
fn tag_word() {
    assert_eq!(tag("let", "let a"), Ok(" a"));
}

#[test]
fn tag_word_mismatch() {
    assert_eq!(tag("let", "abc"), Err("Expected let".to_string()));
}

#[test]
fn extract_plus() {
    assert_eq!(extract_op("+2"), Ok(("2", "+")));
}

#[test]
fn extract_minus() {
    assert_eq!(extract_op("-2"), Ok(("2", "-")));
}

#[test]
fn extract_star() {
    assert_eq!(extract_op("*2"), Ok(("2", "*")));
}

#[test]
fn extract_slash() {
    assert_eq!(extract_op("/2"), Ok(("2", "/")));
}

#[test]
fn extract_op_rejects_unknown_operator() {
    assert_eq!(extract_op("?2"), Err("Unknown operator".to_string()));
}
