//! Token trees: leaves with their text, groups with their delimiter, and
//! the location that each carries.

use vstd::prelude::*;
use vstd::string::StrSliceExecFns;
use vstd::string::StringExecFns;

verus! {

/// Where a token stood in the source text.
#[derive(Clone, Copy, Debug, PartialEq, Eq, Structural)]
pub struct Location {
    pub offset: usize,
}

/// The three sorts of leaf token.
#[derive(Clone, Copy, Debug, PartialEq, Eq, Structural)]
pub enum LeafKind {
    Identifier,
    Literal,
    Punct,
}

/// The bracket pair that encloses a group.
#[derive(Clone, Copy, Debug, PartialEq, Eq, Structural)]
pub enum Delimiter {
    Parenthesis,
    Brace,
    Bracket,
}

/// A token tree: a leaf, or a delimited group of token trees.
#[derive(Debug, PartialEq, Eq)]
pub enum Token {
    Leaf { kind: LeafKind, text: String, location: Location },
    Group { delimiter: Delimiter, inner: Vec<Token>, location: Location },
}

/// The mathematical value of a [`Token`].
pub enum TokenView {
    Leaf { kind: LeafKind, text: Seq<char>, location: Location },
    Group { delimiter: Delimiter, inner: Seq<TokenView>, location: Location },
}

impl View for Token {
    type V = TokenView;

    open spec fn view(&self) -> TokenView
        decreases self,
    {
        match self {
            Token::Leaf { kind, text, location } => TokenView::Leaf {
                kind: *kind,
                text: text@,
                location: *location,
            },
            Token::Group { delimiter, inner, location } => TokenView::Group {
                delimiter: *delimiter,
                inner: views(inner@),
                location: *location,
            },
        }
    }
}

/// The views of a sequence of tokens, in order.
pub open spec fn views(tokens: Seq<Token>) -> Seq<TokenView>
    decreases tokens,
{
    Seq::new(
        tokens.len(),
        |i: int|
            if 0 <= i < tokens.len() {
                tokens[i]@
            } else {
                arbitrary()
            },
    )
}

impl TokenView {
    /// The location that the token carries.
    pub open spec fn location(self) -> Location {
        match self {
            TokenView::Leaf { location, .. } => location,
            TokenView::Group { location, .. } => location,
        }
    }

    /// The text of a leaf; a group has none.
    pub open spec fn text(self) -> Seq<char> {
        match self {
            TokenView::Leaf { text, .. } => text,
            TokenView::Group { .. } => Seq::empty(),
        }
    }

    /// Whether the token is an identifier leaf.
    pub open spec fn is_identifier(self) -> bool {
        self matches TokenView::Leaf { kind, .. } && kind == LeafKind::Identifier
    }

    /// Whether the token is the identifier spelled `name`.
    pub open spec fn is_named(self, name: Seq<char>) -> bool {
        self.is_identifier() && self.text() == name
    }

    /// Whether the token is a literal leaf.
    pub open spec fn is_literal(self) -> bool {
        self matches TokenView::Leaf { kind, .. } && kind == LeafKind::Literal
    }

    /// Whether the token is the punctuation mark `mark`.
    pub open spec fn is_punct(self, mark: char) -> bool {
        self matches TokenView::Leaf { kind, text, .. } && kind == LeafKind::Punct && text
            == seq![mark]
    }

    /// Whether the token is a group enclosed by `delimiter`.
    pub open spec fn is_group(self, delimiter: Delimiter) -> bool {
        self matches TokenView::Group { delimiter: d, .. } && d == delimiter
    }
}

impl Token {
    /// An identifier leaf.
    pub fn identifier(text: &str, location: Location) -> (token: Token)
        ensures
            token@ == (TokenView::Leaf { kind: LeafKind::Identifier, text: text@, location }),
    {
        Token::Leaf { kind: LeafKind::Identifier, text: String::from_str(text), location }
    }

    /// A literal leaf.
    pub fn literal(text: &str, location: Location) -> (token: Token)
        ensures
            token@ == (TokenView::Leaf { kind: LeafKind::Literal, text: text@, location }),
    {
        Token::Leaf { kind: LeafKind::Literal, text: String::from_str(text), location }
    }

    /// A punctuation leaf.
    pub fn punct(text: &str, location: Location) -> (token: Token)
        ensures
            token@ == (TokenView::Leaf { kind: LeafKind::Punct, text: text@, location }),
    {
        Token::Leaf { kind: LeafKind::Punct, text: String::from_str(text), location }
    }

    /// A group around `inner`.
    pub fn group(delimiter: Delimiter, inner: Vec<Token>, location: Location) -> (token: Token)
        ensures
            token@ == (TokenView::Group { delimiter, inner: views(inner@), location }),
    {
        Token::Group { delimiter, inner, location }
    }

    /// The location that the token carries.
    pub fn location(&self) -> (location: Location)
        ensures
            location == self@.location(),
    {
        match self {
            Token::Leaf { location, .. } => *location,
            Token::Group { location, .. } => *location,
        }
    }

    /// Whether the token is an identifier leaf.
    pub fn is_identifier(&self) -> (yes: bool)
        ensures
            yes == self@.is_identifier(),
    {
        match self {
            Token::Leaf { kind, .. } => *kind == LeafKind::Identifier,
            Token::Group { .. } => false,
        }
    }

    /// Whether the token is the identifier spelled `name`.
    pub fn is_named(&self, name: &String) -> (yes: bool)
        ensures
            yes == self@.is_named(name@),
    {
        match self {
            Token::Leaf { kind, text, .. } => *kind == LeafKind::Identifier && *text == *name,
            Token::Group { .. } => false,
        }
    }

    /// Whether the token is a literal leaf.
    pub fn is_literal(&self) -> (yes: bool)
        ensures
            yes == self@.is_literal(),
    {
        match self {
            Token::Leaf { kind, .. } => *kind == LeafKind::Literal,
            Token::Group { .. } => false,
        }
    }

    /// Whether the token is the punctuation mark `mark`.
    pub fn is_punct(&self, mark: char) -> (yes: bool)
        ensures
            yes == self@.is_punct(mark),
    {
        match self {
            Token::Leaf { kind, text, .. } => {
                if *kind == LeafKind::Punct && text.as_str().unicode_len() == 1 {
                    let first = text.as_str().get_char(0);
                    assert(text@ =~= seq![first]);
                    assert(seq![mark][0] == mark);
                    first == mark
                } else {
                    assert(seq![mark].len() == 1);
                    false
                }
            },
            Token::Group { .. } => false,
        }
    }

    /// Whether the token is a group enclosed by `delimiter`.
    pub fn is_group(&self, delimiter: Delimiter) -> (yes: bool)
        ensures
            yes == self@.is_group(delimiter),
    {
        match self {
            Token::Leaf { .. } => false,
            Token::Group { delimiter: d, .. } => *d == delimiter,
        }
    }
}

impl Clone for Token {
    /// A deep copy: the same token tree.
    fn clone(&self) -> (copy: Token)
        ensures
            copy@ == self@,
        decreases self,
    {
        match self {
            Token::Leaf { kind, text, location } => Token::Leaf {
                kind: *kind,
                text: text.clone(),
                location: *location,
            },
            Token::Group { delimiter, inner, location } => {
                let mut copies: Vec<Token> = Vec::new();
                let mut i: usize = 0;
                while i < inner.len()
                    invariant
                        i <= inner.len(),
                        copies@.len() == i,
                        forall|k: int| 0 <= k < i ==> copies@[k]@ == inner@[k]@,
                        decreases_to!(self => inner),
                    decreases inner.len() - i,
                {
                    let copy = inner[i].clone();
                    copies.push(copy);
                    i += 1;
                }
                let copy = Token::Group { delimiter: *delimiter, inner: copies, location: *location };
                assert(views(copies@) =~= views(inner@));
                copy
            },
        }
    }
}

/// A deep copy of a token sequence.
pub fn clone_tokens(tokens: &Vec<Token>) -> (copies: Vec<Token>)
    ensures
        views(copies@) == views(tokens@),
{
    let mut copies: Vec<Token> = Vec::new();
    let mut i: usize = 0;
    while i < tokens.len()
        invariant
            i <= tokens.len(),
            copies@.len() == i,
            forall|k: int| 0 <= k < i ==> copies@[k]@ == tokens@[k]@,
        decreases tokens.len() - i,
    {
        copies.push(tokens[i].clone());
        i += 1;
    }
    assert(views(copies@) =~= views(tokens@));
    copies
}

/// The views of a sequence with one more token are the views of the
/// sequence with the view of that token.
pub proof fn lemma_views_push(tokens: Seq<Token>, token: Token)
    ensures
        views(tokens.push(token)) == views(tokens).push(token@),
{
    assert(views(tokens.push(token)) =~= views(tokens).push(token@));
}

/// The views of two sequences joined are the views of each, joined.
pub proof fn lemma_views_concat(front: Seq<Token>, back: Seq<Token>)
    ensures
        views(front + back) == views(front) + views(back),
{
    assert(views(front + back) =~= views(front) + views(back));
}

} // verus!
