use spool::{extract_float, extract_op, extract_string, extract_whitespace, tag, ParseError};

fn not_found(expected: &str, received: &str) -> ParseError {
    ParseError::SequenceNotFound { expected: expected.to_string(), received: received.to_string() }
}

#[test]
fn test_extract_whitespace() {
    assert_eq!(extract_whitespace("  123").1, "123");
}

#[test]
fn extract_whitespace_splits_ascii_whitespace_only() {
    assert_eq!(extract_whitespace(" \t\n\r\x0Cx y"), (" \t\n\r\x0C".to_string(), "x y".to_string()));
    assert_eq!(extract_whitespace("\x0Bx"), ("".to_string(), "\x0Bx".to_string()));
    assert_eq!(extract_whitespace(""), ("".to_string(), "".to_string()));
}

#[test]
fn extract_ident() {
    assert_eq!(spool::extract_ident("x 456"), Ok(("x".to_string(), " 456".to_string())));
}

#[test]
fn extract_ident_rejects_leading_digit_and_empty_input() {
    assert_eq!(
        spool::extract_ident("9lives rest"),
        Err(ParseError::InvalidSequence {
            expected: "an identifier not beginning with a digit".to_string(),
            received: "9lives".to_string(),
        })
    );
    assert_eq!(spool::extract_ident(""), Err(not_found("an identifier", "")));
    assert_eq!(spool::extract_ident("(x"), Ok(("".to_string(), "(x".to_string())));
    assert_eq!(spool::extract_ident("ab12_c"), Ok(("ab12".to_string(), "_c".to_string())));
}

#[test]
fn tag_strips_an_exact_prefix() {
    assert_eq!(tag("bind", "bind x"), Ok(" x".to_string()));
    assert_eq!(tag("bind", "bin"), Err(not_found("bind", "bin")));
    assert_eq!(tag("", "abc"), Ok("abc".to_string()));
}

#[test]
fn extract_string_reads_between_quotes() {
    assert_eq!(extract_string("\"héllo\" rest"), Ok(("héllo".to_string(), " rest".to_string())));
    assert_eq!(extract_string("\"\""), Ok(("".to_string(), "".to_string())));
    assert_eq!(extract_string("x\""), Err(not_found("\"", "x\"")));
    assert_eq!(extract_string("\"open"), Err(not_found("\"", "")));
}

#[test]
fn extract_float_takes_digits_and_points() {
    assert_eq!(extract_float("123+456"), ("123".to_string(), "+456".to_string()));
    assert_eq!(extract_float("1.2.3x"), ("1.2".to_string(), ".3x".to_string()));
    assert_eq!(extract_float("12..5"), ("12.".to_string(), ".5".to_string()));
    assert_eq!(extract_float(".5."), (".5".to_string(), ".".to_string()));
    assert_eq!(extract_float("x1"), ("".to_string(), "x1".to_string()));
}

#[test]
fn extract_op_splits_one_symbol() {
    assert_eq!(extract_op("+456"), Ok(("+".to_string(), "456".to_string())));
    assert_eq!(extract_op("/"), Ok(("/".to_string(), "".to_string())));
    assert_eq!(extract_op("x"), Err(not_found("[+, -, *, /]", "Some('x')")));
    assert_eq!(extract_op(""), Err(not_found("[+, -, *, /]", "None")));
}
