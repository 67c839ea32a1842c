use seq_expand::error::ExpandError;
use seq_expand::template::Template;
use seq_expand::token::{Delimiter, LeafKind, Location, Token};

fn at(offset: usize) -> Location {
    Location { offset }
}

fn ident(text: &str, offset: usize) -> Token {
    Token::Leaf { kind: LeafKind::Identifier, text: text.to_string(), location: at(offset) }
}

fn lit(text: &str, offset: usize) -> Token {
    Token::Leaf { kind: LeafKind::Literal, text: text.to_string(), location: at(offset) }
}

fn punct(text: &str, offset: usize) -> Token {
    Token::Leaf { kind: LeafKind::Punct, text: text.to_string(), location: at(offset) }
}

fn group(delimiter: Delimiter, inner: Vec<Token>, offset: usize) -> Token {
    Token::Group { delimiter, inner, location: at(offset) }
}

fn parens(inner: Vec<Token>, offset: usize) -> Token {
    group(Delimiter::Parenthesis, inner, offset)
}

fn invocation(variable: &str, start: &str, end: &str, body: Vec<Token>) -> Vec<Token> {
    vec![
        ident(variable, 0),
        ident("in", 1),
        lit(start, 2),
        punct(".", 3),
        punct(".", 4),
        lit(end, 5),
        group(Delimiter::Brace, body, 6),
    ]
}

fn template(start: i64, end: i64, body: Vec<Token>) -> Template {
    Template { variable: "n".to_string(), start, end, body }
}

fn struct_body() -> Vec<Token> {
    vec![
        ident("struct", 10),
        ident("S", 11),
        punct("#", 12),
        parens(vec![ident("n", 14)], 13),
        punct("*", 15),
        punct(";", 16),
    ]
}

#[test]
fn whole_body_is_repeated_with_prefix_splice() {
    let body = vec![ident("f", 10), punct("~", 11), ident("n", 12), parens(vec![], 13)];
    let out = seq_expand::template::seq(invocation("n", "0", "3", body)).unwrap();
    assert_eq!(
        out,
        vec![
            ident("f0", 10),
            parens(vec![], 13),
            ident("f1", 10),
            parens(vec![], 13),
            ident("f2", 10),
            parens(vec![], 13),
        ]
    );
}

#[test]
fn marked_region_repeats_and_the_rest_stands_once() {
    let out = seq_expand::template::seq(invocation("n", "1", "3", struct_body())).unwrap();
    assert_eq!(
        out,
        vec![ident("struct", 10), ident("S", 11), lit("1", 14), lit("2", 14), punct(";", 16)]
    );
}

#[test]
fn rest_stands_once_whatever_the_range() {
    for end in 0..6i64 {
        let out = template(0, end, struct_body()).expand().unwrap();
        let mut expected = vec![ident("struct", 10), ident("S", 11)];
        for value in 0..end {
            expected.push(lit(&value.to_string(), 14));
        }
        expected.push(punct(";", 16));
        assert_eq!(out, expected);
    }
}

#[test]
fn empty_range_without_marker_yields_nothing() {
    let body = vec![ident("f", 10), punct("~", 11), ident("n", 12), punct("~", 13)];
    assert_eq!(template(3, 3, body.clone()).expand(), Ok(vec![]));
    assert_eq!(template(5, 2, body.clone()).expand(), Ok(vec![]));
    assert_eq!(template(0, 0, body).expand(), Ok(vec![]));
    assert_eq!(template(7, -7, vec![]).expand(), Ok(vec![]));
}

#[test]
fn empty_range_with_only_marked_regions_yields_nothing() {
    let body = vec![
        punct("#", 10),
        parens(vec![ident("n", 12)], 11),
        punct("*", 13),
        punct("#", 14),
        parens(vec![ident("x", 16), punct("~", 17)], 15),
        punct("*", 18),
    ];
    assert_eq!(template(0, 0, body.clone()).expand(), Ok(vec![]));
    assert_eq!(template(4, 1, body).expand(), Ok(vec![]));
}

#[test]
fn empty_range_keeps_what_stands_outside_the_markers() {
    assert_eq!(
        template(0, 0, struct_body()).expand(),
        Ok(vec![ident("struct", 10), ident("S", 11), punct(";", 16)])
    );
}

#[test]
fn fallback_is_the_copies_in_rising_order() {
    let body = vec![
        ident("a", 10),
        group(Delimiter::Bracket, vec![ident("n", 12), punct(",", 13)], 11),
        ident("x", 14),
        punct("~", 15),
        ident("n", 16),
    ];
    let t = template(-2, 3, body.clone());
    let mut expected = Vec::new();
    for value in -2..3i64 {
        expected.extend(t.replace_number(&body, value).unwrap());
    }
    assert_eq!(expected.len(), 15);
    assert_eq!(t.expand(), Ok(expected.clone()));
    assert_eq!(t.expand_content(&body), Ok(expected));
}

#[test]
fn expand_content_counts_up() {
    let t = template(8, 11, vec![]);
    assert_eq!(
        t.expand_content(&vec![ident("n", 1), punct(",", 2)]),
        Ok(vec![
            lit("8", 1),
            punct(",", 2),
            lit("9", 1),
            punct(",", 2),
            lit("10", 1),
            punct(",", 2),
        ])
    );
}

#[test]
fn tokens_outside_a_marker_are_not_substituted() {
    let body = vec![
        ident("n", 10),
        punct("#", 11),
        parens(vec![ident("n", 13)], 12),
        punct("*", 14),
        ident("a", 15),
        punct("~", 16),
        ident("n", 17),
    ];
    assert_eq!(
        template(0, 2, body).expand(),
        Ok(vec![
            ident("n", 10),
            lit("0", 13),
            lit("1", 13),
            ident("a", 15),
            punct("~", 16),
            ident("n", 17),
        ])
    );
}

#[test]
fn marker_inside_a_group_is_found() {
    let body = vec![
        ident("enum", 10),
        ident("E", 11),
        group(
            Delimiter::Brace,
            vec![
                punct("#", 13),
                parens(vec![ident("V", 15), punct("~", 16), ident("n", 17), punct(",", 18)], 14),
                punct("*", 19),
            ],
            12,
        ),
    ];
    assert_eq!(
        template(0, 2, body).expand(),
        Ok(vec![
            ident("enum", 10),
            ident("E", 11),
            group(
                Delimiter::Brace,
                vec![ident("V0", 15), punct(",", 18), ident("V1", 15), punct(",", 18)],
                12,
            ),
        ])
    );
}

#[test]
fn several_markers_are_expanded_each() {
    let body = vec![
        punct("#", 10),
        parens(vec![ident("n", 12)], 11),
        punct("*", 13),
        punct("+", 14),
        punct("#", 15),
        parens(vec![ident("b", 17), punct("~", 18), ident("n", 19)], 16),
        punct("*", 20),
    ];
    assert_eq!(
        template(1, 3, body).expand(),
        Ok(vec![lit("1", 12), lit("2", 12), punct("+", 14), ident("b1", 17), ident("b2", 17)])
    );
}

#[test]
fn marker_needs_all_three_parts() {
    let hash_and_group = vec![punct("#", 10), parens(vec![ident("n", 12)], 11)];
    assert_eq!(
        template(0, 2, hash_and_group).expand(),
        Ok(vec![
            punct("#", 10),
            parens(vec![lit("0", 12)], 11),
            punct("#", 10),
            parens(vec![lit("1", 12)], 11),
        ])
    );
    let bracket = vec![
        punct("#", 10),
        group(Delimiter::Bracket, vec![ident("n", 12)], 11),
        punct("*", 13),
    ];
    let (scanned, matched) = template(0, 2, vec![]).expand_body(&bracket).unwrap();
    assert!(!matched);
    assert_eq!(scanned, bracket);
}

#[test]
fn marker_inside_a_marker_is_unsupported() {
    let body = vec![
        ident("a", 10),
        punct("#", 11),
        parens(
            vec![
                ident("n", 13),
                group(
                    Delimiter::Bracket,
                    vec![punct("#", 15), parens(vec![ident("n", 17)], 16), punct("*", 18)],
                    14,
                ),
            ],
            12,
        ),
        punct("*", 19),
    ];
    let expected = Err(ExpandError::UnsupportedConstruct { location: at(15) });
    assert_eq!(template(0, 2, body.clone()).expand(), expected);
    assert_eq!(template(0, 0, body.clone()).expand(), expected);
    assert_eq!(seq_expand::template::seq(invocation("n", "0", "2", body)), expected);
}

#[test]
fn error_inside_a_marker_fails_the_whole() {
    let body = vec![
        ident("a", 10),
        punct("#", 11),
        parens(vec![ident("p", 13), punct("~", 14), ident("q", 15)], 12),
        punct("*", 16),
    ];
    assert_eq!(
        template(0, 2, body.clone()).expand(),
        Err(ExpandError::ExpectedVariableAfterTilde {
            variable: "n".to_string(),
            location: at(14),
        })
    );
    assert_eq!(template(2, 2, body).expand(), Ok(vec![ident("a", 10)]));
}

#[test]
fn negative_values_are_written_with_their_sign() {
    let body = vec![ident("n", 10), ident("v", 11), punct("~", 12), ident("n", 13)];
    assert_eq!(
        template(-1, 1, body).expand(),
        Ok(vec![lit("-1", 10), ident("v-1", 11), lit("0", 10), ident("v0", 11)])
    );
}
