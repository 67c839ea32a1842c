//! Repeated regions, marked as `#( ... )*`: finding them, and replacing
//! each by its copies while the rest of the tokens stays as it is.

use crate::error::{ErrorView, ExpandError};
use crate::substitute::expand_range;
use crate::template::Template;
use crate::token::{
    lemma_views_concat, lemma_views_push, views, Delimiter, Location, Token, TokenView,
};
use vstd::prelude::*;

verus! {

/// Whether a repeated region begins at position `i`: a `#`, a group in
/// parentheses and a `*`, one behind the other.
pub open spec fn idiom_at(tokens: Seq<TokenView>, i: int) -> bool {
    &&& 0 <= i
    &&& i + 2 < tokens.len()
    &&& tokens[i].is_punct('#')
    &&& tokens[i + 1].is_group(Delimiter::Parenthesis)
    &&& tokens[i + 2].is_punct('*')
}

/// The tokens inside the parentheses of the repeated region that begins at `i`.
pub open spec fn idiom_inner(tokens: Seq<TokenView>, i: int) -> Seq<TokenView> {
    tokens[i + 1]->Group_inner
}

/// The location of the `#` of the first repeated region from position `i`
/// on, in reading order, groups included; `None` where there is none.
pub open spec fn first_idiom_from(tokens: Seq<TokenView>, i: int) -> Option<Location>
    decreases tokens, tokens.len() - i,
{
    if i < 0 || i >= tokens.len() {
        None
    } else if idiom_at(tokens, i) {
        Some(tokens[i].location())
    } else {
        match tokens[i] {
            TokenView::Group { inner, .. } => match first_idiom_from(inner, 0) {
                Some(location) => Some(location),
                None => first_idiom_from(tokens, i + 1),
            },
            _ => first_idiom_from(tokens, i + 1),
        }
    }
}

/// The location of the `#` of the first repeated region in `tokens`.
pub open spec fn first_idiom(tokens: Seq<TokenView>) -> Option<Location> {
    first_idiom_from(tokens, 0)
}

/// `front` before the tokens of `rest`, and `found` or-ed into its flag; an
/// error stays what it is.
pub open spec fn join(
    front: Seq<TokenView>,
    found: bool,
    rest: Result<(Seq<TokenView>, bool), ErrorView>,
) -> Result<(Seq<TokenView>, bool), ErrorView> {
    match rest {
        Ok((tokens, matched)) => Ok((front + tokens, found || matched)),
        Err(error) => Err(error),
    }
}

/// The tokens from position `i` on with each repeated region replaced by
/// its copies for the values from `start` up to, and without, `end`, and
/// whether there was such a region.
///
/// A group that is not the parentheses of a repeated region is kept, with
/// its inner tokens treated in the same way. Any other token is kept as it
/// is, once. A repeated region that holds a repeated region is an error, and
/// so is a copy that fails; the first error in reading order is the result.
pub open spec fn scan_from(
    tokens: Seq<TokenView>,
    i: int,
    variable: Seq<char>,
    start: int,
    end: int,
) -> Result<(Seq<TokenView>, bool), ErrorView>
    decreases tokens, tokens.len() - i,
{
    if i < 0 || i >= tokens.len() {
        Ok((Seq::empty(), false))
    } else if idiom_at(tokens, i) {
        match first_idiom(idiom_inner(tokens, i)) {
            Some(location) => Err(ErrorView::UnsupportedConstruct { location }),
            None => match expand_range(idiom_inner(tokens, i), variable, start, end) {
                Ok(copies) => join(copies, true, scan_from(tokens, i + 3, variable, start, end)),
                Err(error) => Err(error),
            },
        }
    } else {
        match tokens[i] {
            TokenView::Group { delimiter, inner, location } => match scan_from(
                inner,
                0,
                variable,
                start,
                end,
            ) {
                Ok((scanned, matched)) => join(
                    seq![TokenView::Group { delimiter, inner: scanned, location }],
                    matched,
                    scan_from(tokens, i + 1, variable, start, end),
                ),
                Err(error) => Err(error),
            },
            leaf => join(seq![leaf], false, scan_from(tokens, i + 1, variable, start, end)),
        }
    }
}

/// The scan of a whole token sequence.
pub open spec fn scan(tokens: Seq<TokenView>, variable: Seq<char>, start: int, end: int) -> Result<
    (Seq<TokenView>, bool),
    ErrorView,
> {
    scan_from(tokens, 0, variable, start, end)
}

/// The location of the `#` of the first repeated region that stands inside
/// another repeated region, from position `i` on, in reading order; `None`
/// where no region holds another.
pub open spec fn first_nested_from(tokens: Seq<TokenView>, i: int) -> Option<Location>
    decreases tokens, tokens.len() - i,
{
    if i < 0 || i >= tokens.len() {
        None
    } else if idiom_at(tokens, i) {
        match first_idiom(idiom_inner(tokens, i)) {
            Some(location) => Some(location),
            None => first_nested_from(tokens, i + 3),
        }
    } else {
        match tokens[i] {
            TokenView::Group { inner, .. } => match first_nested_from(inner, 0) {
                Some(location) => Some(location),
                None => first_nested_from(tokens, i + 1),
            },
            _ => first_nested_from(tokens, i + 1),
        }
    }
}

/// The location of the `#` of the first repeated region in `tokens` that
/// stands inside another.
pub open spec fn first_nested(tokens: Seq<TokenView>) -> Option<Location> {
    first_nested_from(tokens, 0)
}

/// The tokens from position `i` on, with each repeated region replaced by
/// what `fill` makes of the tokens inside its parentheses. All other tokens
/// stay where they are, each once; a group keeps its delimiter and its
/// location, and its inner tokens are treated in the same way.
pub open spec fn replace_idioms_from(
    tokens: Seq<TokenView>,
    i: int,
    fill: spec_fn(Seq<TokenView>) -> Seq<TokenView>,
) -> Seq<TokenView>
    decreases tokens, tokens.len() - i,
{
    if i < 0 || i >= tokens.len() {
        Seq::empty()
    } else if idiom_at(tokens, i) {
        fill(idiom_inner(tokens, i)) + replace_idioms_from(tokens, i + 3, fill)
    } else {
        match tokens[i] {
            TokenView::Group { delimiter, inner, location } => seq![
                TokenView::Group {
                    delimiter,
                    inner: replace_idioms_from(inner, 0, fill),
                    location,
                },
            ] + replace_idioms_from(tokens, i + 1, fill),
            leaf => seq![leaf] + replace_idioms_from(tokens, i + 1, fill),
        }
    }
}

/// A token sequence with each repeated region replaced by what `fill` makes
/// of the tokens inside its parentheses.
pub open spec fn replace_idioms(
    tokens: Seq<TokenView>,
    fill: spec_fn(Seq<TokenView>) -> Seq<TokenView>,
) -> Seq<TokenView> {
    replace_idioms_from(tokens, 0, fill)
}

/// The fill that puts nothing in the place of a repeated region.
pub open spec fn no_copies() -> spec_fn(Seq<TokenView>) -> Seq<TokenView> {
    |inner: Seq<TokenView>| Seq::<TokenView>::empty()
}

/// The fill that puts, in the place of a repeated region, its copies for
/// the values from `start` up to, and without, `end`.
pub open spec fn copies_for(variable: Seq<char>, start: int, end: int) -> spec_fn(
    Seq<TokenView>,
) -> Seq<TokenView> {
    |inner: Seq<TokenView>|
        match expand_range(inner, variable, start, end) {
            Ok(copies) => copies,
            Err(_) => Seq::<TokenView>::empty(),
        }
}

/// The tokens that stand outside every repeated region: the sequence
/// without its repeated regions.
pub open spec fn outside(tokens: Seq<TokenView>) -> Seq<TokenView> {
    replace_idioms(tokens, no_copies())
}

/// Whether the copies of every repeated region from position `i` on
/// succeed, groups included.
pub open spec fn regions_expand_from(
    tokens: Seq<TokenView>,
    i: int,
    variable: Seq<char>,
    start: int,
    end: int,
) -> bool
    decreases tokens, tokens.len() - i,
{
    if i < 0 || i >= tokens.len() {
        true
    } else if idiom_at(tokens, i) {
        expand_range(idiom_inner(tokens, i), variable, start, end) is Ok && regions_expand_from(
            tokens,
            i + 3,
            variable,
            start,
            end,
        )
    } else {
        match tokens[i] {
            TokenView::Group { inner, .. } => regions_expand_from(inner, 0, variable, start, end)
                && regions_expand_from(tokens, i + 1, variable, start, end),
            _ => regions_expand_from(tokens, i + 1, variable, start, end),
        }
    }
}

/// Whether the copies of every repeated region in `tokens` succeed.
pub open spec fn regions_expand(
    tokens: Seq<TokenView>,
    variable: Seq<char>,
    start: int,
    end: int,
) -> bool {
    regions_expand_from(tokens, 0, variable, start, end)
}

/// The value of the result of a scan.
pub open spec fn scan_outcome(r: Result<(Vec<Token>, bool), ExpandError>) -> Result<
    (Seq<TokenView>, bool),
    ErrorView,
> {
    match r {
        Ok((tokens, matched)) => Ok((views(tokens@), matched)),
        Err(error) => Err(error@),
    }
}

/// A buffer that gathers the output of a scan: single tokens are held back
/// until a whole block arrives or the buffer is read, and then moved over
/// together.
#[derive(Debug, PartialEq, Eq)]
pub struct Tokens {
    /// What was moved over.
    pub inner: Vec<Token>,
    /// The single tokens that came since.
    pub nodes: Vec<Token>,
}

impl View for Tokens {
    type V = Seq<TokenView>;

    /// All tokens in the order in which they came.
    open spec fn view(&self) -> Seq<TokenView> {
        views(self.inner@) + views(self.nodes@)
    }
}

impl Default for Tokens {
    fn default() -> (tokens: Tokens)
        ensures
            tokens@ == Seq::<TokenView>::empty(),
    {
        Tokens::new()
    }
}

impl Tokens {
    /// An empty buffer.
    pub fn new() -> (tokens: Tokens)
        ensures
            tokens@ == Seq::<TokenView>::empty(),
    {
        let tokens = Tokens { inner: Vec::new(), nodes: Vec::new() };
        assert(tokens@ =~= Seq::<TokenView>::empty());
        tokens
    }

    /// Adds one token at the end.
    pub fn push(&mut self, node: Token)
        ensures
            final(self)@ == old(self)@.push(node@),
    {
        proof {
            lemma_views_push(self.nodes@, node);
        }
        self.nodes.push(node);
        assert(final(self)@ =~= old(self)@.push(node@));
    }

    /// Moves the single tokens over; the contents stay the same.
    pub fn flush(&mut self)
        ensures
            final(self)@ == old(self)@,
            final(self).nodes@.len() == 0,
            views(final(self).inner@) == old(self)@,
    {
        if !self.nodes.is_empty() {
            proof {
                lemma_views_concat(self.inner@, self.nodes@);
            }
            self.inner.append(&mut self.nodes);
        }
        assert(views(final(self).inner@) =~= old(self)@);
        assert(final(self)@ =~= old(self)@);
    }

    /// Adds a block of tokens at the end. The single tokens that were held
    /// back are moved over first, so that none is held back afterwards.
    pub fn extend(&mut self, token_stream: Vec<Token>)
        ensures
            final(self)@ == old(self)@ + views(token_stream@),
            final(self).nodes@.len() == 0,
            views(final(self).inner@) == old(self)@ + views(token_stream@),
    {
        self.flush();
        let mut block = token_stream;
        proof {
            lemma_views_concat(self.inner@, block@);
        }
        self.inner.append(&mut block);
        assert(views(final(self).inner@) =~= old(self)@ + views(token_stream@));
        assert(final(self)@ =~= old(self)@ + views(token_stream@));
    }

    /// Hands out all tokens in the order in which they came.
    pub fn into_tokens(self) -> (tokens: Vec<Token>)
        ensures
            views(tokens@) == self@,
    {
        let mut buffer = self;
        buffer.flush();
        buffer.inner
    }
}

/// The tokens inside the parentheses, where a repeated region begins at `i`.
pub fn marked_region(tokens: &Vec<Token>, i: usize) -> (region: Option<&Vec<Token>>)
    ensures
        match region {
            Some(inner) => idiom_at(views(tokens@), i as int) && views(inner@) == idiom_inner(
                views(tokens@),
                i as int,
            ),
            None => !idiom_at(views(tokens@), i as int),
        },
{
    if i < tokens.len() && tokens.len() - i > 2 {
        assert(views(tokens@)[i as int] == tokens@[i as int]@);
        assert(views(tokens@)[i + 1] == tokens@[i + 1]@);
        assert(views(tokens@)[i + 2] == tokens@[i + 2]@);
        if tokens[i].is_punct('#') && tokens[i + 2].is_punct('*') {
            match &tokens[i + 1] {
                Token::Group { delimiter: Delimiter::Parenthesis, inner, .. } => Some(inner),
                _ => None,
            }
        } else {
            None
        }
    } else {
        None
    }
}

/// Looks for a repeated region in `tokens`, groups included.
pub fn find_idiom(tokens: &Vec<Token>) -> (found: Option<Location>)
    ensures
        found == first_idiom(views(tokens@)),
    decreases tokens,
{
    let ghost source = views(tokens@);
    let mut i: usize = 0;
    while i < tokens.len()
        invariant
            source == views(tokens@),
            i <= tokens.len(),
            first_idiom(source) == first_idiom_from(source, i as int),
        decreases tokens.len() - i,
    {
        assert(source[i as int] == tokens@[i as int]@);
        if marked_region(tokens, i).is_some() {
            return Some(tokens[i].location());
        }
        match &tokens[i] {
            Token::Group { inner, .. } => {
                let nested = find_idiom(inner);
                if nested.is_some() {
                    return nested;
                }
            },
            Token::Leaf { .. } => {},
        }
        i += 1;
    }
    None
}

impl Template {
    /// Replaces each repeated region in `tokens` by its copies for the
    /// values of the range, and says whether there was one.
    pub fn expand_body(&self, tokens: &Vec<Token>) -> (r: Result<(Vec<Token>, bool), ExpandError>)
        ensures
            scan_outcome(r) == scan(
                views(tokens@),
                self.variable@,
                self.start as int,
                self.end as int,
            ),
        decreases tokens,
    {
        let ghost source = views(tokens@);
        let mut i: usize = 0;
        let mut found = false;
        let mut result = Tokens::new();
        while i < tokens.len()
            invariant
                source == views(tokens@),
                i <= tokens.len(),
                scan(source, self.variable@, self.start as int, self.end as int) == join(
                    result@,
                    found,
                    scan_from(source, i as int, self.variable@, self.start as int, self.end as int),
                ),
            decreases tokens.len() - i,
        {
            let ghost before = result@;
            let ghost added: Seq<TokenView>;
            assert(source[i as int] == tokens@[i as int]@);
            match marked_region(tokens, i) {
                Some(inner) => {
                    match find_idiom(inner) {
                        Some(location) => {
                            return Err(ExpandError::UnsupportedConstruct { location });
                        },
                        None => {},
                    }
                    match self.expand_content(inner) {
                        Ok(copies) => {
                            proof {
                                added = views(copies@);
                            }
                            found = true;
                            result.extend(copies);
                            i += 3;
                        },
                        Err(error) => {
                            return Err(error);
                        },
                    }
                },
                None => {
                    match &tokens[i] {
                        Token::Group { delimiter, inner, location } => {
                            match self.expand_body(inner) {
                                Ok((scanned, matched)) => {
                                    let group = Token::Group {
                                        delimiter: *delimiter,
                                        inner: scanned,
                                        location: *location,
                                    };
                                    proof {
                                        added = seq![group@];
                                    }
                                    result.push(group);
                                    found = found || matched;
                                },
                                Err(error) => {
                                    return Err(error);
                                },
                            }
                        },
                        Token::Leaf { .. } => {
                            let copy = tokens[i].clone();
                            proof {
                                added = seq![copy@];
                            }
                            result.push(copy);
                        },
                    }
                    i += 1;
                },
            }
            proof {
                let rest = scan_from(
                    source,
                    i as int,
                    self.variable@,
                    self.start as int,
                    self.end as int,
                );
                assert(result@ =~= before + added);
                if rest is Ok {
                    assert((before + added) + rest->Ok_0.0 =~= before + (added + rest->Ok_0.0));
                }
            }
        }
        proof {
            assert(result@ + Seq::<TokenView>::empty() =~= result@);
        }
        Ok((result.into_tokens(), found))
    }
}

} // verus!
