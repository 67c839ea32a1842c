use seq_expand::scanner::{find_idiom, marked_region, Tokens};
use seq_expand::token::{clone_tokens, Delimiter, LeafKind, Location, Token};

fn spot(offset: usize) -> Location {
    Location { offset }
}

fn sample() -> Vec<Token> {
    vec![
        Token::identifier("a", spot(0)),
        Token::punct("#", spot(1)),
        Token::group(
            Delimiter::Parenthesis,
            vec![Token::literal("1", spot(3)), Token::punct("~", spot(4))],
            spot(2),
        ),
        Token::punct("*", spot(5)),
    ]
}

#[test]
fn constructors_make_the_leaves() {
    assert_eq!(
        Token::identifier("a", spot(1)),
        Token::Leaf { kind: LeafKind::Identifier, text: "a".to_string(), location: spot(1) }
    );
    assert_eq!(
        Token::literal("12", spot(2)),
        Token::Leaf { kind: LeafKind::Literal, text: "12".to_string(), location: spot(2) }
    );
    assert_eq!(
        Token::punct("~", spot(3)),
        Token::Leaf { kind: LeafKind::Punct, text: "~".to_string(), location: spot(3) }
    );
    assert_eq!(
        Token::group(Delimiter::Bracket, vec![Token::punct(",", spot(5))], spot(4)),
        Token::Group {
            delimiter: Delimiter::Bracket,
            inner: vec![Token::punct(",", spot(5))],
            location: spot(4),
        }
    );
}

#[test]
fn accessors_tell_the_tokens_apart() {
    let ident = Token::identifier("abc", spot(1));
    let literal = Token::literal("7", spot(2));
    let tilde = Token::punct("~", spot(3));
    let group = Token::group(Delimiter::Brace, vec![], spot(4));
    assert!(ident.is_identifier() && !literal.is_identifier() && !group.is_identifier());
    assert!(ident.is_named(&"abc".to_string()) && !ident.is_named(&"ab".to_string()));
    assert!(!literal.is_named(&"7".to_string()));
    assert!(literal.is_literal() && !ident.is_literal() && !group.is_literal());
    assert!(tilde.is_punct('~') && !tilde.is_punct('#') && !ident.is_punct('~'));
    assert!(!Token::punct("~~", spot(0)).is_punct('~'));
    assert!(!Token::punct("", spot(0)).is_punct('~'));
    assert!(!Token::identifier("~", spot(0)).is_punct('~'));
    assert!(group.is_group(Delimiter::Brace) && !group.is_group(Delimiter::Bracket));
    assert!(!tilde.is_group(Delimiter::Brace));
    assert_eq!(ident.location(), spot(1));
    assert_eq!(group.location(), spot(4));
}

#[test]
fn clone_copies_the_whole_tree() {
    let tokens = sample();
    assert_eq!(clone_tokens(&tokens), tokens);
    assert_eq!(tokens[2].clone(), tokens[2]);
    assert_eq!(clone_tokens(&vec![]), vec![]);
}

#[test]
fn marked_region_needs_hash_parentheses_and_star() {
    let tokens = sample();
    assert_eq!(marked_region(&tokens, 0), None);
    assert_eq!(
        marked_region(&tokens, 1),
        Some(&vec![Token::literal("1", spot(3)), Token::punct("~", spot(4))])
    );
    assert_eq!(marked_region(&tokens, 2), None);
    assert_eq!(marked_region(&tokens, 3), None);
    assert_eq!(marked_region(&tokens, 9), None);
    assert_eq!(marked_region(&tokens[..3].to_vec(), 1), None);
}

#[test]
fn find_idiom_looks_into_groups() {
    assert_eq!(find_idiom(&sample()), Some(spot(1)));
    assert_eq!(find_idiom(&vec![]), None);
    assert_eq!(find_idiom(&sample()[..3].to_vec()), None);
    let nested = vec![
        Token::identifier("x", spot(10)),
        Token::group(Delimiter::Brace, sample(), spot(11)),
        Token::punct("#", spot(12)),
        Token::group(Delimiter::Parenthesis, vec![], spot(13)),
        Token::punct("*", spot(14)),
    ];
    assert_eq!(find_idiom(&nested), Some(spot(1)));
}

#[test]
fn buffer_keeps_the_order_of_arrival() {
    let mut buffer = Tokens::new();
    buffer.push(Token::identifier("a", spot(0)));
    buffer.push(Token::identifier("b", spot(1)));
    assert_eq!(buffer.inner.len(), 0);
    assert_eq!(buffer.nodes.len(), 2);
    buffer.extend(vec![Token::literal("1", spot(2)), Token::literal("2", spot(3))]);
    assert_eq!(buffer.inner.len(), 4);
    assert_eq!(buffer.nodes.len(), 0);
    buffer.push(Token::identifier("c", spot(4)));
    buffer.extend(vec![]);
    buffer.push(Token::identifier("d", spot(5)));
    assert_eq!(
        buffer.into_tokens(),
        vec![
            Token::identifier("a", spot(0)),
            Token::identifier("b", spot(1)),
            Token::literal("1", spot(2)),
            Token::literal("2", spot(3)),
            Token::identifier("c", spot(4)),
            Token::identifier("d", spot(5)),
        ]
    );
}

#[test]
fn buffer_flush_changes_nothing_that_is_read() {
    let mut buffer = Tokens::default();
    assert_eq!(buffer, Tokens { inner: vec![], nodes: vec![] });
    buffer.flush();
    buffer.push(Token::punct(";", spot(0)));
    buffer.flush();
    assert_eq!(buffer, Tokens { inner: vec![Token::punct(";", spot(0))], nodes: vec![] });
    buffer.flush();
    assert_eq!(buffer.into_tokens(), vec![Token::punct(";", spot(0))]);
}
