use xraise::query::{condition_for, parse, query_for, AttributeKind, Condition, ParseError};

fn cond(attribute: AttributeKind, value: &str) -> Condition {
    Condition { attribute, value: value.to_string() }
}

#[test]
fn parse_class_query() {
    assert_eq!(parse("class = \"Caprine\""), Ok(cond(AttributeKind::ClassName, "Caprine")));
}

#[test]
fn parse_name_query_without_spaces() {
    assert_eq!(parse("name=\"termite\""), Ok(cond(AttributeKind::WindowName, "termite")));
}

#[test]
fn parse_keeps_value_exactly() {
    assert_eq!(parse("name =\t\" Two  Words \""), Ok(cond(AttributeKind::WindowName, " Two  Words ")));
    assert_eq!(parse("class = \"\""), Ok(cond(AttributeKind::ClassName, "")));
}

#[test]
fn parse_escapes() {
    assert_eq!(parse("name = \"a\\\"b\""), Ok(cond(AttributeKind::WindowName, "a\"b")));
    assert_eq!(parse("name = \"a\\\\b\""), Ok(cond(AttributeKind::WindowName, "a\\b")));
}

#[test]
fn parse_unknown_attribute() {
    assert_eq!(parse("title = \"x\""), Err(ParseError::UnknownAttribute));
    assert_eq!(parse("Class = \"x\""), Err(ParseError::UnknownAttribute));
    assert_eq!(parse(""), Err(ParseError::UnknownAttribute));
    assert_eq!(parse(" class = \"x\""), Err(ParseError::UnknownAttribute));
}

#[test]
fn parse_expected_equals() {
    assert_eq!(parse("class \"x\""), Err(ParseError::ExpectedEquals));
    assert_eq!(parse("class"), Err(ParseError::ExpectedEquals));
}

#[test]
fn parse_expected_quote() {
    assert_eq!(parse("class = x"), Err(ParseError::ExpectedQuote));
    assert_eq!(parse("class ="), Err(ParseError::ExpectedQuote));
}

#[test]
fn parse_unterminated_string() {
    assert_eq!(parse("class = \"Caprine"), Err(ParseError::UnterminatedString));
    assert_eq!(parse("class = \""), Err(ParseError::UnterminatedString));
    assert_eq!(parse("name = \"abc\\"), Err(ParseError::UnterminatedString));
    assert_eq!(parse("name = \"abc\\\""), Err(ParseError::UnterminatedString));
}

#[test]
fn parse_trailing_input() {
    assert_eq!(parse("class = \"a\" b"), Err(ParseError::TrailingInput));
    assert_eq!(parse("class = \"a\" "), Err(ParseError::TrailingInput));
}

#[test]
fn parse_unescaped_quote_in_value() {
    assert_eq!(parse("class = \"a\"b\""), Err(ParseError::UnterminatedString));
    assert_eq!(parse("class = \"a\" \"b\""), Err(ParseError::UnterminatedString));
}

#[test]
fn parse_twice_gives_equal_conditions() {
    let text = "class = \"Caprine\"";
    assert_eq!(parse(text), parse(text));
    let bad = "name = \"x";
    assert_eq!(parse(bad), parse(bad));
}

#[test]
fn query_text_for_attributes() {
    assert_eq!(query_for(AttributeKind::ClassName, "Caprine"), "class = \"Caprine\"");
    assert_eq!(query_for(AttributeKind::WindowName, "termite"), "name = \"termite\"");
}

#[test]
fn condition_for_plain_and_quoted_values() {
    assert_eq!(condition_for(AttributeKind::ClassName, "Caprine"), Ok(cond(AttributeKind::ClassName, "Caprine")));
    assert_eq!(condition_for(AttributeKind::WindowName, "a\"b"), Err(ParseError::UnterminatedString));
    assert_eq!(condition_for(AttributeKind::WindowName, "a\\"), Err(ParseError::UnterminatedString));
}
