//! Splices: what the variable and the names joined to it by `~` fuse into,
//! and the automaton that reads them token by token.

use crate::decimal::{decimal, decimal_text};
use crate::error::{ErrorView, ExpandError};
use crate::token::{LeafKind, Location, Token, TokenView};
use vstd::prelude::*;
use vstd::string::StringExecFns;

verus! {

/// How the splice anchored at one position of a token sequence resolves.
pub enum Splice {
    /// The splice takes up `consumed` tokens and stands for the one `token`.
    Fused { token: TokenView, consumed: nat },
    /// The splice is broken off.
    Failed { error: ErrorView },
}

/// Whether an identifier stands at position `i`.
pub open spec fn identifier_at(tokens: Seq<TokenView>, i: int) -> bool {
    0 <= i < tokens.len() && tokens[i].is_identifier()
}

/// Whether the iteration variable stands at position `i`.
pub open spec fn variable_at(tokens: Seq<TokenView>, i: int, variable: Seq<char>) -> bool {
    0 <= i < tokens.len() && tokens[i].is_named(variable)
}

/// Whether a `~` stands at position `i`.
pub open spec fn tilde_at(tokens: Seq<TokenView>, i: int) -> bool {
    0 <= i < tokens.len() && tokens[i].is_punct('~')
}

/// An identifier leaf.
pub open spec fn identifier(text: Seq<char>, location: Location) -> TokenView {
    TokenView::Leaf { kind: LeafKind::Identifier, text, location }
}

/// A literal leaf.
pub open spec fn literal(text: Seq<char>, location: Location) -> TokenView {
    TokenView::Leaf { kind: LeafKind::Literal, text, location }
}

/// The rest of a splice whose number stands at position `number`, seen from
/// its first token at position `first`. `name` is the text gathered up to and
/// including the number, and `bare` says that the number is all of it.
///
/// Without a `~` behind the number the splice ends there: a bare number is a
/// literal, a prefixed one an identifier. With a `~` an identifier has to
/// follow, and its text is added to the name.
pub open spec fn splice_tail(
    tokens: Seq<TokenView>,
    first: int,
    number: int,
    name: Seq<char>,
    bare: bool,
) -> Splice {
    let location = tokens[first].location();
    if tilde_at(tokens, number + 1) {
        if identifier_at(tokens, number + 2) {
            Splice::Fused {
                token: identifier(name + tokens[number + 2].text(), location),
                consumed: (number + 3 - first) as nat,
            }
        } else if number + 2 < tokens.len() {
            Splice::Failed {
                error: ErrorView::ExpectedIdentifierAfterTilde {
                    location: tokens[number + 2].location(),
                },
            }
        } else {
            Splice::Failed { error: ErrorView::ExpectedIdentifierAfterTilde { location } }
        }
    } else {
        Splice::Fused {
            token: if bare {
                literal(name, location)
            } else {
                identifier(name, location)
            },
            consumed: (number + 1 - first) as nat,
        }
    }
}

/// The splice that begins at position `i`, if one does.
///
/// The iteration variable begins one, whatever follows it. Any other
/// identifier begins one where a `~` follows it; the variable must then
/// come next.
pub open spec fn splice_at(
    tokens: Seq<TokenView>,
    i: int,
    variable: Seq<char>,
    value: int,
) -> Option<Splice> {
    if variable_at(tokens, i, variable) {
        Some(splice_tail(tokens, i, i, decimal(value), true))
    } else if identifier_at(tokens, i) && tilde_at(tokens, i + 1) {
        if variable_at(tokens, i + 2, variable) {
            Some(splice_tail(tokens, i, i + 2, tokens[i].text() + decimal(value), false))
        } else {
            Some(
                Splice::Failed {
                    error: ErrorView::ExpectedVariableAfterTilde {
                        variable,
                        location: tokens[i + 1].location(),
                    },
                },
            )
        }
    } else {
        None
    }
}

/// The states of the automaton that reads a splice.
#[derive(Clone, Copy, Debug, PartialEq, Eq, Structural)]
pub enum SpliceState {
    /// A prefix and its `~` were read.
    PrefixTilde,
    /// The iteration variable was read.
    Number,
    /// The `~` behind the iteration variable was read.
    SuffixTilde,
    /// The suffix was read.
    Full,
}

/// What the automaton has gathered of one splice.
#[derive(Debug, PartialEq, Eq)]
pub struct SpliceContext {
    /// The name of the iteration variable.
    pub variable: String,
    pub state: SpliceState,
    /// The text gathered so far.
    pub name: String,
    /// The location of the first token of the splice.
    pub location: Location,
    /// The location of the `~` that was read last.
    pub tilde: Location,
    /// Whether the number is all that was read.
    pub literal: bool,
}

/// The token or the error that a context stands for when reading stops.
pub open spec fn resolution(ctx: SpliceContext) -> Result<TokenView, ErrorView> {
    match ctx.state {
        SpliceState::Number => if ctx.literal {
            Ok(literal(ctx.name@, ctx.location))
        } else {
            Ok(identifier(ctx.name@, ctx.location))
        },
        SpliceState::Full => Ok(identifier(ctx.name@, ctx.location)),
        SpliceState::PrefixTilde => Err(
            ErrorView::ExpectedVariableAfterTilde { variable: ctx.variable@, location: ctx.tilde },
        ),
        SpliceState::SuffixTilde => Err(
            ErrorView::ExpectedIdentifierAfterTilde { location: ctx.location },
        ),
    }
}

/// The value of a result that holds a token.
pub open spec fn token_outcome(r: Result<Token, ExpandError>) -> Result<TokenView, ErrorView> {
    match r {
        Ok(token) => Ok(token@),
        Err(error) => Err(error@),
    }
}

impl SpliceContext {
    /// Begins a splice at the iteration variable, which stands for `n`.
    pub fn from_number_ident(number_ident: &Token, n: i64) -> (ctx: SpliceContext)
        ensures
            ctx.variable@ == number_ident@.text(),
            ctx.state == SpliceState::Number,
            ctx.name@ == decimal(n as int),
            ctx.location == number_ident@.location(),
            ctx.tilde == number_ident@.location(),
            ctx.literal,
    {
        let variable = match number_ident {
            Token::Leaf { text, .. } => text.clone(),
            Token::Group { .. } => String::new(),
        };
        SpliceContext {
            variable,
            state: SpliceState::Number,
            name: decimal_text(n),
            location: number_ident.location(),
            tilde: number_ident.location(),
            literal: true,
        }
    }

    /// Begins a splice at a prefix and the `~` behind it.
    pub fn from_prefix_idents(number: &String, ident: &Token, tilde: &Token) -> (ctx:
        SpliceContext)
        ensures
            ctx.variable@ == number@,
            ctx.state == SpliceState::PrefixTilde,
            ctx.name@ == ident@.text(),
            ctx.location == ident@.location(),
            ctx.tilde == tilde@.location(),
            !ctx.literal,
    {
        let name = match ident {
            Token::Leaf { text, .. } => text.clone(),
            Token::Group { .. } => String::new(),
        };
        SpliceContext {
            variable: number.clone(),
            state: SpliceState::PrefixTilde,
            name,
            location: ident.location(),
            tilde: tilde.location(),
            literal: false,
        }
    }

    /// Reads the iteration variable behind a prefix: the digits of `n` join the name.
    pub fn push_number(&mut self, n: i64)
        ensures
            final(self).state == SpliceState::Number,
            final(self).name@ == old(self).name@ + decimal(n as int),
            final(self).variable == old(self).variable,
            final(self).location == old(self).location,
            final(self).tilde == old(self).tilde,
            final(self).literal == old(self).literal,
    {
        self.state = SpliceState::Number;
        let digits = decimal_text(n);
        self.name.append(digits.as_str());
    }

    /// Reads the `~` behind the number: the result can no longer be a literal.
    pub fn push_suffix_tilde(&mut self, suffix_tilde: &Token)
        ensures
            final(self).state == SpliceState::SuffixTilde,
            !final(self).literal,
            final(self).tilde == suffix_tilde@.location(),
            final(self).name == old(self).name,
            final(self).variable == old(self).variable,
            final(self).location == old(self).location,
    {
        self.state = SpliceState::SuffixTilde;
        self.tilde = suffix_tilde.location();
        self.literal = false;
    }

    /// Reads the suffix: its text joins the name, and the splice is complete.
    pub fn push_suffix_ident(&mut self, suffix_ident: &Token)
        ensures
            final(self).state == SpliceState::Full,
            !final(self).literal,
            final(self).name@ == old(self).name@ + suffix_ident@.text(),
            final(self).variable == old(self).variable,
            final(self).location == old(self).location,
            final(self).tilde == old(self).tilde,
    {
        self.state = SpliceState::Full;
        self.literal = false;
        match suffix_ident {
            Token::Leaf { text, .. } => {
                self.name.append(text.as_str());
            },
            Token::Group { .. } => {
                assert(old(self).name@ + Seq::<char>::empty() =~= old(self).name@);
            },
        }
    }

    /// Ends the reading: the one token that the splice stands for, or the
    /// error of a splice that stops short.
    pub fn resolve(self) -> (r: Result<Token, ExpandError>)
        ensures
            token_outcome(r) == resolution(self),
    {
        match self.state {
            SpliceState::Number => {
                if self.literal {
                    Ok(Token::Leaf { kind: LeafKind::Literal, text: self.name, location: self.location })
                } else {
                    Ok(
                        Token::Leaf {
                            kind: LeafKind::Identifier,
                            text: self.name,
                            location: self.location,
                        },
                    )
                }
            },
            SpliceState::Full => Ok(
                Token::Leaf { kind: LeafKind::Identifier, text: self.name, location: self.location },
            ),
            SpliceState::PrefixTilde => Err(
                ExpandError::ExpectedVariableAfterTilde {
                    variable: self.variable,
                    location: self.tilde,
                },
            ),
            SpliceState::SuffixTilde => Err(
                ExpandError::ExpectedIdentifierAfterTilde { location: self.location },
            ),
        }
    }
}

} // verus!
