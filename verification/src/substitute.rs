//! Writing a value for the variable throughout a token sequence, and the
//! copies of a sequence for all values of a range.

use crate::decimal::decimal;
use crate::error::{ErrorView, ExpandError};
use crate::splice::{
    identifier_at, splice_at, tilde_at, token_outcome, variable_at, Splice, SpliceContext,
    SpliceState,
};
use crate::template::Template;
use crate::token::{lemma_views_concat, lemma_views_push, views, Token, TokenView};
use vstd::prelude::*;

verus! {

/// `front` before the tokens of `rest`; an error stays what it is.
pub open spec fn prepend(front: Seq<TokenView>, rest: Result<Seq<TokenView>, ErrorView>) -> Result<
    Seq<TokenView>,
    ErrorView,
> {
    match rest {
        Ok(tokens) => Ok(front + tokens),
        Err(error) => Err(error),
    }
}

/// The value of a result that holds a token sequence.
pub open spec fn outcome(r: Result<Vec<Token>, ExpandError>) -> Result<Seq<TokenView>, ErrorView> {
    match r {
        Ok(tokens) => Ok(views(tokens@)),
        Err(error) => Err(error@),
    }
}

/// The tokens from position `i` on, with `value` written for the variable.
///
/// A splice that begins at `i` is replaced by its one token, and reading goes
/// on behind it. A group is kept, with its inner tokens treated in the same
/// way. Any other token is kept as it is. The first splice that fails, in
/// reading order, fails the whole.
pub open spec fn substitute_from(
    tokens: Seq<TokenView>,
    i: int,
    variable: Seq<char>,
    value: int,
) -> Result<Seq<TokenView>, ErrorView>
    decreases tokens, tokens.len() - i,
{
    if i < 0 || i >= tokens.len() {
        Ok(Seq::empty())
    } else {
        match splice_at(tokens, i, variable, value) {
            Some(Splice::Failed { error }) => Err(error),
            Some(Splice::Fused { token, consumed }) => prepend(
                seq![token],
                substitute_from(tokens, i + consumed, variable, value),
            ),
            None => match tokens[i] {
                TokenView::Group { delimiter, inner, location } => match substitute_from(
                    inner,
                    0,
                    variable,
                    value,
                ) {
                    Ok(replaced) => prepend(
                        seq![TokenView::Group { delimiter, inner: replaced, location }],
                        substitute_from(tokens, i + 1, variable, value),
                    ),
                    Err(error) => Err(error),
                },
                leaf => prepend(seq![leaf], substitute_from(tokens, i + 1, variable, value)),
            },
        }
    }
}

/// A token sequence with `value` written for the variable.
pub open spec fn substitute(tokens: Seq<TokenView>, variable: Seq<char>, value: int) -> Result<
    Seq<TokenView>,
    ErrorView,
> {
    substitute_from(tokens, 0, variable, value)
}

/// The copies of a token sequence for the values from `start` up to, and
/// without, `end`, each with its value written for the variable, in rising
/// order of the values. The first copy that fails, fails the whole.
pub open spec fn expand_range(
    tokens: Seq<TokenView>,
    variable: Seq<char>,
    start: int,
    end: int,
) -> Result<Seq<TokenView>, ErrorView>
    decreases end - start,
{
    if start >= end {
        Ok(Seq::empty())
    } else {
        match substitute(tokens, variable, start) {
            Ok(copy) => prepend(copy, expand_range(tokens, variable, start + 1, end)),
            Err(error) => Err(error),
        }
    }
}

/// The position of the number in a splice that begins at `first`.
pub open spec fn number_position(tokens: Seq<TokenView>, first: int, variable: Seq<char>) -> int {
    if variable_at(tokens, first, variable) {
        first
    } else {
        first + 2
    }
}

/// The text of a splice that begins at `first`, up to and including the number.
pub open spec fn name_through_number(
    tokens: Seq<TokenView>,
    first: int,
    variable: Seq<char>,
    value: int,
) -> Seq<char> {
    if variable_at(tokens, first, variable) {
        decimal(value)
    } else {
        tokens[first].text() + decimal(value)
    }
}

/// Whether `ctx` is what the automaton holds when it has read the tokens
/// from `first` up to, and without, `next`.
pub open spec fn reading(
    tokens: Seq<TokenView>,
    first: int,
    next: int,
    ctx: SpliceContext,
    variable: Seq<char>,
    value: int,
) -> bool {
    let number = number_position(tokens, first, variable);
    let name = name_through_number(tokens, first, variable, value);
    &&& 0 <= first < next <= tokens.len()
    &&& splice_at(tokens, first, variable, value) is Some
    &&& ctx.variable@ == variable
    &&& ctx.location == tokens[first].location()
    &&& match ctx.state {
        SpliceState::PrefixTilde => {
            &&& !variable_at(tokens, first, variable)
            &&& next == first + 2
            &&& ctx.name@ == tokens[first].text()
            &&& ctx.tilde == tokens[first + 1].location()
            &&& !ctx.literal
        },
        SpliceState::Number => {
            &&& variable_at(tokens, number, variable)
            &&& next == number + 1
            &&& ctx.name@ == name
            &&& ctx.literal == variable_at(tokens, first, variable)
        },
        SpliceState::SuffixTilde => {
            &&& variable_at(tokens, number, variable)
            &&& tilde_at(tokens, number + 1)
            &&& next == number + 2
            &&& ctx.name@ == name
            &&& !ctx.literal
        },
        SpliceState::Full => {
            &&& variable_at(tokens, number, variable)
            &&& tilde_at(tokens, number + 1)
            &&& identifier_at(tokens, number + 2)
            &&& next == number + 3
            &&& ctx.name@ == name + tokens[number + 2].text()
            &&& !ctx.literal
        },
    }
}

impl Template {
    /// Runs the automaton from `*idx` on, on a splice whose first tokens
    /// `ctx` has taken in, and moves `*idx` behind the last token of the
    /// splice. The cursor only moves forward, also where the splice fails.
    fn expand_number(
        &self,
        nodes: &Vec<Token>,
        ctx: SpliceContext,
        idx: &mut usize,
        n: i64,
        Ghost(first): Ghost<int>,
    ) -> (r: Result<Token, ExpandError>)
        requires
            reading(views(nodes@), first, *old(idx) as int, ctx, self.variable@, n as int),
        ensures
            *old(idx) <= *final(idx) <= nodes.len(),
            match splice_at(views(nodes@), first, self.variable@, n as int) {
                Some(Splice::Fused { token, consumed }) => {
                    &&& token_outcome(r) == Ok::<TokenView, ErrorView>(token)
                    &&& *final(idx) == first + consumed
                    &&& consumed >= 1
                },
                Some(Splice::Failed { error }) => token_outcome(r) == Err::<TokenView, ErrorView>(
                    error,
                ),
                None => false,
            },
    {
        let mut ctx = ctx;
        let ghost tokens = views(nodes@);
        let ghost entry = *idx;
        while *idx < nodes.len()
            invariant
                tokens == views(nodes@),
                entry == *old(idx),
                entry <= *idx <= nodes.len(),
                reading(tokens, first, *idx as int, ctx, self.variable@, n as int),
            decreases nodes.len() - *idx,
        {
            let node = &nodes[*idx];
            assert(tokens[*idx as int] == node@);
            match ctx.state {
                SpliceState::PrefixTilde => {
                    if node.is_named(&self.variable) {
                        ctx.push_number(n);
                        *idx += 1;
                    } else {
                        return Err(
                            ExpandError::ExpectedVariableAfterTilde {
                                variable: self.variable.clone(),
                                location: ctx.tilde,
                            },
                        );
                    }
                },
                SpliceState::Number => {
                    if node.is_punct('~') {
                        ctx.push_suffix_tilde(node);
                        *idx += 1;
                    } else {
                        return ctx.resolve();
                    }
                },
                SpliceState::SuffixTilde => {
                    if node.is_identifier() {
                        ctx.push_suffix_ident(node);
                        *idx += 1;
                    } else {
                        return Err(
                            ExpandError::ExpectedIdentifierAfterTilde { location: node.location() },
                        );
                    }
                },
                SpliceState::Full => {
                    return ctx.resolve();
                },
            }
        }
        ctx.resolve()
    }

    /// Writes `n` for the variable throughout `tokens`, groups included,
    /// and fuses each splice into its one token.
    pub fn replace_number(&self, tokens: &Vec<Token>, n: i64) -> (r: Result<Vec<Token>, ExpandError>)
        ensures
            outcome(r) == substitute(views(tokens@), self.variable@, n as int),
        decreases tokens,
    {
        let ghost source = views(tokens@);
        let mut i: usize = 0;
        let mut result: Vec<Token> = Vec::new();
        while i < tokens.len()
            invariant
                source == views(tokens@),
                i <= tokens.len(),
                substitute(source, self.variable@, n as int) == prepend(
                    views(result@),
                    substitute_from(source, i as int, self.variable@, n as int),
                ),
            decreases tokens.len() - i,
        {
            let node = &tokens[i];
            let ghost first = i as int;
            let ghost before = views(result@);
            assert(source[first] == node@);
            if node.is_named(&self.variable) {
                let ctx = SpliceContext::from_number_ident(node, n);
                i += 1;
                match self.expand_number(tokens, ctx, &mut i, n, Ghost(first)) {
                    Ok(new_node) => {
                        proof {
                            lemma_views_push(result@, new_node);
                        }
                        result.push(new_node);
                    },
                    Err(error) => {
                        return Err(error);
                    },
                }
            } else if node.is_identifier() && i + 1 < tokens.len() && tokens[i + 1].is_punct('~') {
                assert(source[first + 1] == tokens@[first + 1]@);
                let ctx = SpliceContext::from_prefix_idents(&self.variable, node, &tokens[i + 1]);
                i += 2;
                match self.expand_number(tokens, ctx, &mut i, n, Ghost(first)) {
                    Ok(new_node) => {
                        proof {
                            lemma_views_push(result@, new_node);
                        }
                        result.push(new_node);
                    },
                    Err(error) => {
                        return Err(error);
                    },
                }
            } else {
                assert(splice_at(source, first, self.variable@, n as int) is None) by {
                    if i + 1 < tokens.len() {
                        assert(source[first + 1] == tokens@[first + 1]@);
                    }
                }
                match node {
                    Token::Group { delimiter, inner, location } => {
                        match self.replace_number(inner, n) {
                            Ok(replaced) => {
                                let group = Token::Group {
                                    delimiter: *delimiter,
                                    inner: replaced,
                                    location: *location,
                                };
                                proof {
                                    lemma_views_push(result@, group);
                                }
                                result.push(group);
                            },
                            Err(error) => {
                                return Err(error);
                            },
                        }
                    },
                    Token::Leaf { .. } => {
                        let copy = node.clone();
                        proof {
                            lemma_views_push(result@, copy);
                        }
                        result.push(copy);
                    },
                }
                i += 1;
            }
            proof {
                let rest = substitute_from(source, i as int, self.variable@, n as int);
                if rest is Ok {
                    assert((before + seq![views(result@).last()]) + rest->Ok_0 =~= before + (
                    seq![views(result@).last()] + rest->Ok_0));
                    assert(views(result@) =~= before + seq![views(result@).last()]);
                }
            }
        }
        proof {
            assert(views(result@) + Seq::<TokenView>::empty() =~= views(result@));
        }
        Ok(result)
    }

    /// The copies of `content` for the values of the range, one behind the other.
    pub fn expand_content(&self, content: &Vec<Token>) -> (r: Result<Vec<Token>, ExpandError>)
        ensures
            outcome(r) == expand_range(
                views(content@),
                self.variable@,
                self.start as int,
                self.end as int,
            ),
    {
        let ghost source = views(content@);
        let mut result: Vec<Token> = Vec::new();
        let mut value: i64 = self.start;
        while value < self.end
            invariant
                source == views(content@),
                expand_range(source, self.variable@, self.start as int, self.end as int) == prepend(
                    views(result@),
                    expand_range(source, self.variable@, value as int, self.end as int),
                ),
            decreases self.end - value,
        {
            let ghost before = views(result@);
            match self.replace_number(content, value) {
                Ok(copy) => {
                    let mut copy = copy;
                    proof {
                        lemma_views_concat(result@, copy@);
                        let rest = expand_range(
                            source,
                            self.variable@,
                            value + 1,
                            self.end as int,
                        );
                        if rest is Ok {
                            assert((before + views(copy@)) + rest->Ok_0 =~= before + (views(copy@)
                                + rest->Ok_0));
                        }
                    }
                    result.append(&mut copy);
                },
                Err(error) => {
                    return Err(error);
                },
            }
            value += 1;
        }
        proof {
            assert(views(result@) + Seq::<TokenView>::empty() =~= views(result@));
        }
        Ok(result)
    }
}

} // verus!
