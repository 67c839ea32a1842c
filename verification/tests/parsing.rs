use seq_expand::error::ExpandError;
use seq_expand::template::{end_text, start_text, variable_text, Reading, Template};
use seq_expand::token::{Delimiter, LeafKind, Location, Token};

fn loc(offset: usize) -> Location {
    Location { offset }
}

fn word(text: &str, offset: usize) -> Token {
    Token::Leaf { kind: LeafKind::Identifier, text: text.to_string(), location: loc(offset) }
}

fn num(text: &str, offset: usize) -> Token {
    Token::Leaf { kind: LeafKind::Literal, text: text.to_string(), location: loc(offset) }
}

fn sign(text: &str, offset: usize) -> Token {
    Token::Leaf { kind: LeafKind::Punct, text: text.to_string(), location: loc(offset) }
}

fn braces(inner: Vec<Token>, offset: usize) -> Token {
    Token::Group { delimiter: Delimiter::Brace, inner, location: loc(offset) }
}

fn header(start: &str, end: &str) -> Vec<Token> {
    vec![
        word("n", 0),
        word("in", 1),
        num(start, 2),
        sign(".", 3),
        sign(".", 4),
        num(end, 5),
        braces(vec![word("x", 7)], 6),
    ]
}

fn malformed(offset: usize) -> ExpandError {
    ExpandError::MalformedTemplate { location: loc(offset) }
}

fn without(index: usize) -> Vec<Token> {
    let mut tokens = header("0", "3");
    tokens.remove(index);
    tokens
}

#[test]
fn parse_reads_the_parts() {
    assert_eq!(
        Template::parse(&header("2", "10")),
        Ok(Template { variable: "n".to_string(), start: 2, end: 10, body: vec![word("x", 7)] })
    );
}

#[test]
fn parse_keeps_the_body_unread() {
    let body = vec![word("p", 8), sign("~", 9), sign("#", 10), braces(vec![sign("~", 12)], 11)];
    let mut tokens = header("0", "1");
    tokens[6] = braces(body.clone(), 6);
    assert_eq!(Template::parse(&tokens).unwrap().body, body);
}

#[test]
fn parse_accepts_a_range_that_runs_down() {
    let template = Template::parse(&header("5", "1")).unwrap();
    assert_eq!((template.start, template.end), (5, 1));
}

#[test]
fn parse_reads_literals_as_the_parser_crate_does() {
    let template = Template::parse(&header("0x10", "1_000")).unwrap();
    assert_eq!((template.start, template.end), (16, 1000));
    let template = Template::parse(&header("0b101", "0o17")).unwrap();
    assert_eq!((template.start, template.end), (5, 15));
    let template = Template::parse(&header("3u8", "7usize")).unwrap();
    assert_eq!((template.start, template.end), (3, 7));
    let template = Template::parse(&header("-4", "9223372036854775807")).unwrap();
    assert_eq!((template.start, template.end), (-4, i64::MAX));
}

#[test]
fn parse_reads_a_minus_sign_before_a_literal() {
    let tokens = vec![
        word("n", 0),
        word("in", 1),
        sign("-", 2),
        num("3", 3),
        sign(".", 4),
        sign(".", 5),
        sign("-", 6),
        num("1", 7),
        braces(vec![], 8),
    ];
    let template = Template::parse(&tokens).unwrap();
    assert_eq!((template.start, template.end), (-3, -1));
    assert_eq!(variable_text(&tokens), Some("n".to_string()));
    assert_eq!(start_text(&tokens), Some("-3".to_string()));
    assert_eq!(end_text(&tokens), Some("-1".to_string()));
}

#[test]
fn texts_are_taken_where_they_stand() {
    let tokens = header("0x10", "7u8");
    assert_eq!(variable_text(&tokens), Some("n".to_string()));
    assert_eq!(start_text(&tokens), Some("0x10".to_string()));
    assert_eq!(end_text(&tokens), Some("7u8".to_string()));
    assert_eq!(variable_text(&vec![]), None);
    assert_eq!(start_text(&vec![]), None);
    assert_eq!(end_text(&vec![]), None);
    assert_eq!(variable_text(&vec![num("1", 0)]), None);
    assert_eq!(start_text(&vec![word("n", 0), word("in", 1), sign("-", 2)]), None);
    assert_eq!(start_text(&vec![word("n", 0), word("in", 1), word("x", 2)]), None);
    assert_eq!(end_text(&without(5)), None);
}

#[test]
fn first_fault_in_reading_order_is_reported() {
    let mut keyword_and_brackets = header("0", "3");
    keyword_and_brackets[0] = word("fn", 0);
    keyword_and_brackets[6] =
        Token::Group { delimiter: Delimiter::Parenthesis, inner: vec![word("x", 7)], location: loc(6) };
    assert_eq!(Template::parse(&keyword_and_brackets), Err(malformed(0)));

    let mut float_and_no_dots = header("1.5", "3");
    float_and_no_dots[3] = sign(",", 3);
    assert_eq!(Template::parse(&float_and_no_dots), Err(malformed(2)));

    let mut no_in_and_float = header("1.5", "3");
    no_in_and_float[1] = word("of", 1);
    assert_eq!(Template::parse(&no_in_and_float), Err(malformed(1)));

    assert_eq!(Template::parse(&header("99999999999999999999", "1.5")), Err(malformed(5)));

    let mut large_and_brackets = header("99999999999999999999", "3");
    large_and_brackets[6] =
        Token::Group { delimiter: Delimiter::Bracket, inner: vec![], location: loc(6) };
    assert_eq!(Template::parse(&large_and_brackets), Err(malformed(6)));

    let mut large_and_more = header("0", "99999999999999999999");
    large_and_more.push(sign(";", 9));
    assert_eq!(Template::parse(&large_and_more), Err(malformed(5)));

    assert_eq!(
        Template::parse(&header("99999999999999999999", "99999999999999999999")),
        Err(malformed(2))
    );
}

#[test]
fn parse_refuses_a_bound_that_is_no_integer() {
    assert_eq!(Template::parse(&header("1.5", "3")), Err(malformed(2)));
    assert_eq!(Template::parse(&header("0", "\"3\"")), Err(malformed(5)));
    assert_eq!(Template::parse(&header("0", "'c'")), Err(malformed(5)));
    assert_eq!(Template::parse(&header("x", "y")), Err(malformed(2)));
}

#[test]
fn parse_refuses_a_bound_that_does_not_fit() {
    assert_eq!(Template::parse(&header("0", "9223372036854775808")), Err(malformed(5)));
    assert_eq!(Template::parse(&header("99999999999999999999", "0")), Err(malformed(2)));
}

#[test]
fn parse_refuses_a_missing_part() {
    assert_eq!(Template::parse(&without(0)), Err(malformed(1)));
    assert_eq!(Template::parse(&without(1)), Err(malformed(2)));
    assert_eq!(Template::parse(&without(2)), Err(malformed(3)));
    assert_eq!(Template::parse(&without(3)), Err(malformed(5)));
    assert_eq!(Template::parse(&without(4)), Err(malformed(5)));
    assert_eq!(Template::parse(&without(5)), Err(malformed(6)));
    assert_eq!(Template::parse(&without(6)), Err(malformed(5)));
}

#[test]
fn parse_refuses_parts_out_of_order() {
    let mut tokens = header("0", "3");
    tokens.swap(0, 2);
    assert_eq!(Template::parse(&tokens), Err(malformed(2)));
    let mut tokens = header("0", "3");
    tokens.swap(5, 6);
    assert_eq!(Template::parse(&tokens), Err(malformed(6)));
}

#[test]
fn parse_refuses_what_follows_the_braces() {
    let mut tokens = header("0", "3");
    tokens.push(sign(";", 9));
    assert_eq!(Template::parse(&tokens), Err(malformed(9)));
}

#[test]
fn parse_refuses_other_brackets_around_the_body() {
    let mut tokens = header("0", "3");
    tokens[6] = Token::Group { delimiter: Delimiter::Parenthesis, inner: vec![], location: loc(6) };
    assert_eq!(Template::parse(&tokens), Err(malformed(6)));
}

#[test]
fn parse_refuses_the_empty_input() {
    assert_eq!(Template::parse(&vec![]), Err(malformed(0)));
    assert_eq!(seq_expand::template::seq(vec![]), Err(malformed(0)));
}

#[test]
fn parse_points_at_the_last_token_where_the_input_ends() {
    assert_eq!(Template::parse(&vec![word("n", 4)]), Err(malformed(4)));
    assert_eq!(
        Template::parse(&vec![word("n", 4), word("in", 5), sign("-", 6)]),
        Err(malformed(6))
    );
}

#[test]
fn parse_refuses_a_keyword_as_variable() {
    for keyword in ["for", "in", "struct", "self", "_"] {
        let mut tokens = header("0", "3");
        tokens[0] = word(keyword, 0);
        assert_eq!(Template::parse(&tokens), Err(malformed(0)));
    }
    let mut tokens = header("0", "3");
    tokens[0] = word("3n", 0);
    assert_eq!(Template::parse(&tokens), Err(malformed(0)));
}

#[test]
fn parse_accepts_other_names_as_variable() {
    for name in ["N", "_n", "index2", "r#for", "union"] {
        let mut tokens = header("0", "3");
        tokens[0] = word(name, 0);
        assert_eq!(Template::parse(&tokens).unwrap().variable, name);
    }
}

#[test]
fn assemble_makes_the_template_of_the_answers() {
    let tokens = header("a", "b");
    assert_eq!(
        Template::assemble(&tokens, true, Reading::Value(1), Reading::Value(4)),
        Ok(Template { variable: "n".to_string(), start: 1, end: 4, body: vec![word("x", 7)] })
    );
    assert_eq!(
        Template::assemble(&tokens, true, Reading::Value(-9), Reading::Value(-9)),
        Ok(Template { variable: "n".to_string(), start: -9, end: -9, body: vec![word("x", 7)] })
    );
}

#[test]
fn assemble_reports_the_first_fault_first() {
    let tokens = header("a", "b");
    let value = Reading::Value(1);
    let none = Reading::NotInteger;
    let large = Reading::OutOfRange;
    assert_eq!(Template::assemble(&tokens, false, none, none), Err(malformed(0)));
    assert_eq!(Template::assemble(&tokens, false, value, value), Err(malformed(0)));
    assert_eq!(Template::assemble(&tokens, true, none, none), Err(malformed(2)));
    assert_eq!(Template::assemble(&tokens, true, none, value), Err(malformed(2)));
    assert_eq!(Template::assemble(&tokens, true, value, none), Err(malformed(5)));
    assert_eq!(Template::assemble(&tokens, true, large, none), Err(malformed(5)));
    assert_eq!(Template::assemble(&tokens, true, large, large), Err(malformed(2)));
    assert_eq!(Template::assemble(&tokens, true, large, value), Err(malformed(2)));
    assert_eq!(Template::assemble(&tokens, true, value, large), Err(malformed(5)));
}

#[test]
fn assemble_reports_the_form_between_the_answers() {
    let value = Reading::Value(1);
    let large = Reading::OutOfRange;
    assert_eq!(Template::assemble(&vec![], true, value, value), Err(malformed(0)));
    assert_eq!(Template::assemble(&without(1), false, value, value), Err(malformed(0)));
    assert_eq!(Template::assemble(&without(1), true, value, value), Err(malformed(2)));
    assert_eq!(Template::assemble(&without(3), true, Reading::NotInteger, value), Err(malformed(2)));
    assert_eq!(Template::assemble(&without(3), true, value, Reading::NotInteger), Err(malformed(5)));
    assert_eq!(Template::assemble(&without(6), true, large, large), Err(malformed(5)));
    let mut more = header("0", "3");
    more.push(sign(";", 9));
    assert_eq!(Template::assemble(&more, true, large, value), Err(malformed(2)));
    assert_eq!(Template::assemble(&more, true, value, value), Err(malformed(9)));
}

#[test]
fn error_says_what_was_expected() {
    assert_eq!(malformed(3).message(), "expected `variable in start..end { body }`");
    assert_eq!(malformed(3).location(), loc(3));
    let error = ExpandError::ExpectedVariableAfterTilde { variable: "idx".to_string(), location: loc(8) };
    assert_eq!(error.message(), "`~` must be followed by idx");
    assert_eq!(error.location(), loc(8));
    assert_eq!(error.clone(), error);
    let error = ExpandError::ExpectedIdentifierAfterTilde { location: loc(1) };
    assert_eq!(error.message(), "`~` must be followed by an identifier");
    assert_eq!(error.location(), loc(1));
    let error = ExpandError::UnsupportedConstruct { location: loc(2) };
    assert_eq!(error.message(), "a repeated region inside a repeated region is not supported");
    assert_eq!(error.location(), loc(2));
}
