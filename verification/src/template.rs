//! Templates: reading one from tokens, and expanding it.

use crate::error::{ErrorView, ExpandError};
use crate::scanner::scan;
use crate::splice::identifier_at;
use crate::substitute::{expand_range, outcome};
use crate::token::{clone_tokens, views, Delimiter, Location, Token, TokenView};
use vstd::prelude::*;
use vstd::string::StringExecFns;

verus! {

/// A template: the body is written once for each value of the variable
/// from `start` up to, and without, `end`.
#[derive(Debug, PartialEq, Eq)]
pub struct Template {
    /// The name of the iteration variable.
    pub variable: String,
    /// The first value.
    pub start: i64,
    /// The value behind the last one; at or below `start` there is no value at all.
    pub end: i64,
    /// The tokens between the braces, as they were written.
    pub body: Vec<Token>,
}

/// The mathematical value of a [`Template`].
pub struct TemplateView {
    pub variable: Seq<char>,
    pub start: int,
    pub end: int,
    pub body: Seq<TokenView>,
}

impl View for Template {
    type V = TemplateView;

    open spec fn view(&self) -> TemplateView {
        TemplateView {
            variable: self.variable@,
            start: self.start as int,
            end: self.end as int,
            body: views(self.body@),
        }
    }
}

/// The tokens that a template expands to.
///
/// Where the body marks repeated regions, those are repeated and the rest
/// of the body is written once. Where it marks none, the whole body is
/// repeated.
pub open spec fn expansion(template: TemplateView) -> Result<Seq<TokenView>, ErrorView> {
    match scan(template.body, template.variable, template.start, template.end) {
        Ok((tokens, matched)) => if matched {
            Ok(tokens)
        } else {
            expand_range(template.body, template.variable, template.start, template.end)
        },
        Err(error) => Err(error),
    }
}

/// What the outside parser makes of the text of a bound.
#[derive(Clone, Copy, Debug, PartialEq, Eq, Structural)]
pub enum Reading {
    /// The text is no integer literal.
    NotInteger,
    /// The text is an integer literal whose value does not fit.
    OutOfRange,
    /// The text is an integer literal of this value.
    Value(i64),
}

/// The error for an input that does not fit the form at position `i`: it
/// points at the token there, or at the last token where the input ends
/// before `i`, or at the very beginning where the input is empty.
pub open spec fn fault(tokens: Seq<TokenView>, i: int) -> ErrorView {
    ErrorView::MalformedTemplate {
        location: if 0 <= i < tokens.len() {
            tokens[i].location()
        } else if tokens.len() > 0 {
            tokens.last().location()
        } else {
            Location { offset: 0 }
        },
    }
}

/// The error that points at the token at position `i`.
pub open spec fn refused(tokens: Seq<TokenView>, i: int) -> ErrorView {
    ErrorView::MalformedTemplate { location: tokens[i].location() }
}

/// Whether the punctuation mark `mark` stands at position `i`.
pub open spec fn punct_at(tokens: Seq<TokenView>, i: int, mark: char) -> bool {
    0 <= i < tokens.len() && tokens[i].is_punct(mark)
}

/// Whether a literal stands at position `i`.
pub open spec fn literal_at(tokens: Seq<TokenView>, i: int) -> bool {
    0 <= i < tokens.len() && tokens[i].is_literal()
}

/// The position of the literal of the bound that begins at `i`: behind the
/// minus sign, where there is one.
pub open spec fn bound_literal(tokens: Seq<TokenView>, i: int) -> int {
    if punct_at(tokens, i, '-') {
        i + 1
    } else {
        i
    }
}

/// The position of the literal of the first bound.
pub open spec fn start_literal(tokens: Seq<TokenView>) -> int {
    bound_literal(tokens, 2)
}

/// The position of the literal of the second bound: the bound begins behind
/// the first bound and the two dots.
pub open spec fn end_literal(tokens: Seq<TokenView>) -> int {
    bound_literal(tokens, start_literal(tokens) + 3)
}

/// The text of the variable, where an identifier stands at the head.
pub open spec fn variable_written(tokens: Seq<TokenView>) -> Option<Seq<char>> {
    if identifier_at(tokens, 0) {
        Some(tokens[0].text())
    } else {
        None
    }
}

/// The text of the bound that begins at position `i`, with its sign, where
/// a literal stands at the position that `bound_literal` gives.
pub open spec fn bound_written(tokens: Seq<TokenView>, i: int) -> Option<Seq<char>> {
    let at = bound_literal(tokens, i);
    if !literal_at(tokens, at) {
        None
    } else if at == i {
        Some(tokens[at].text())
    } else {
        Some(seq!['-'] + tokens[at].text())
    }
}

/// The template that `tokens` spell, where the outside parser accepts the
/// variable as a name or not, as `named` says, and reads the two bounds as
/// `start` and `end`.
///
/// The form is `variable in start..end { body }`; a bound is a literal, or
/// a minus sign and a literal. The parts are taken in their order, and the
/// first that is missing or refused is the error: the variable that is no
/// identifier or no name, the word `in`, the first bound that is no literal
/// or no integer, the two dots, the second bound likewise, the braces. Then
/// come a first and a second bound whose value does not fit, and last
/// whatever follows the braces.
pub open spec fn parsed_with(
    tokens: Seq<TokenView>,
    named: bool,
    start: Reading,
    end: Reading,
) -> Result<TemplateView, ErrorView> {
    let first = start_literal(tokens);
    let second = end_literal(tokens);
    if !identifier_at(tokens, 0) {
        Err(fault(tokens, 0))
    } else if !named {
        Err(refused(tokens, 0))
    } else if !(identifier_at(tokens, 1) && tokens[1].text() == seq!['i', 'n']) {
        Err(fault(tokens, 1))
    } else if !literal_at(tokens, first) {
        Err(fault(tokens, first))
    } else if start is NotInteger {
        Err(refused(tokens, first))
    } else if !punct_at(tokens, first + 1, '.') {
        Err(fault(tokens, first + 1))
    } else if !punct_at(tokens, first + 2, '.') {
        Err(fault(tokens, first + 2))
    } else if !literal_at(tokens, second) {
        Err(fault(tokens, second))
    } else if end is NotInteger {
        Err(refused(tokens, second))
    } else if !(second + 1 < tokens.len() && tokens[second + 1].is_group(Delimiter::Brace)) {
        Err(fault(tokens, second + 1))
    } else if start is OutOfRange {
        Err(refused(tokens, first))
    } else if end is OutOfRange {
        Err(refused(tokens, second))
    } else if second + 2 < tokens.len() {
        Err(fault(tokens, second + 2))
    } else {
        Ok(
            TemplateView {
                variable: tokens[0].text(),
                start: start->Value_0 as int,
                end: end->Value_0 as int,
                body: tokens[second + 1]->Group_inner,
            },
        )
    }
}

/// What the input expands to under the same three answers: the expansion
/// of the template that it spells, or the error of an input that spells none.
pub open spec fn expanded_with(
    input: Seq<TokenView>,
    named: bool,
    start: Reading,
    end: Reading,
) -> Result<Seq<TokenView>, ErrorView> {
    match parsed_with(input, named, start, end) {
        Ok(template) => expansion(template),
        Err(error) => Err(error),
    }
}

/// The value of a result that holds a template.
pub open spec fn template_outcome(r: Result<Template, ExpandError>) -> Result<
    TemplateView,
    ErrorView,
> {
    match r {
        Ok(template) => Ok(template@),
        Err(error) => Err(error@),
    }
}

/// The value of a text that may be missing.
pub open spec fn text_view(text: Option<String>) -> Option<Seq<char>> {
    match text {
        Some(text) => Some(text@),
        None => None,
    }
}

/// An integer literal as the outside parser holds it.
#[verifier::external_type_specification]
#[verifier::external_body]
pub struct ExLitInt(syn::LitInt);

/// Asks `syn::parse_str::<syn::Ident>` whether it accepts `text`. Nothing
/// is claimed of the answer.
#[verifier::external_body]
fn accepts_name(text: &str) -> (accepted: bool) {
    syn::parse_str::<syn::Ident>(text).is_ok()
}

/// Has `syn::parse_str::<syn::LitInt>` read `text`; `None` stands for its
/// error. Nothing is claimed of the result.
#[verifier::external_body]
fn integer_literal(text: &str) -> (literal: Option<syn::LitInt>) {
    syn::parse_str::<syn::LitInt>(text).ok()
}

/// Takes the value of a literal with `syn::LitInt::base10_parse::<i64>`;
/// `None` stands for its error. Nothing is claimed of the result.
#[verifier::external_body]
fn literal_value(literal: &syn::LitInt) -> (value: Option<i64>) {
    literal.base10_parse::<i64>().ok()
}

/// Has the outside parser read the text of a bound.
fn read_bound(text: &str) -> (reading: Reading) {
    match integer_literal(text) {
        None => Reading::NotInteger,
        Some(literal) => match literal_value(&literal) {
            None => Reading::OutOfRange,
            Some(value) => Reading::Value(value),
        },
    }
}

/// The error for an input that does not fit the form at position `i`.
fn fault_at(tokens: &Vec<Token>, i: usize) -> (error: ExpandError)
    ensures
        error@ == fault(views(tokens@), i as int),
{
    let location = if i < tokens.len() {
        assert(views(tokens@)[i as int] == tokens@[i as int]@);
        tokens[i].location()
    } else if tokens.len() > 0 {
        assert(views(tokens@).last() == tokens@[tokens.len() - 1]@);
        tokens[tokens.len() - 1].location()
    } else {
        Location { offset: 0 }
    };
    ExpandError::MalformedTemplate { location }
}

/// The error that points at the token at position `i`.
fn refused_at(tokens: &Vec<Token>, i: usize) -> (error: ExpandError)
    requires
        i < tokens.len(),
    ensures
        error@ == refused(views(tokens@), i as int),
{
    assert(views(tokens@)[i as int] == tokens@[i as int]@);
    ExpandError::MalformedTemplate { location: tokens[i].location() }
}

/// The text of a leaf.
fn leaf_text(token: &Token) -> (text: String)
    ensures
        text@ == token@.text(),
{
    match token {
        Token::Leaf { text, .. } => text.clone(),
        Token::Group { .. } => String::new(),
    }
}

/// The position of the literal of the bound that begins at `i`.
fn literal_of_bound(tokens: &Vec<Token>, i: usize) -> (at: usize)
    requires
        i < usize::MAX,
    ensures
        at == bound_literal(views(tokens@), i as int),
{
    if i < tokens.len() {
        assert(views(tokens@)[i as int] == tokens@[i as int]@);
        if tokens[i].is_punct('-') {
            i + 1
        } else {
            i
        }
    } else {
        i
    }
}

/// The text of the variable, where an identifier stands at the head.
pub fn variable_text(tokens: &Vec<Token>) -> (text: Option<String>)
    ensures
        text_view(text) == variable_written(views(tokens@)),
{
    if 0 < tokens.len() {
        assert(views(tokens@)[0] == tokens@[0]@);
        if tokens[0].is_identifier() {
            return Some(leaf_text(&tokens[0]));
        }
    }
    None
}

/// The text of the first bound, with its sign, where a literal stands at
/// its place.
pub fn start_text(tokens: &Vec<Token>) -> (text: Option<String>)
    ensures
        text_view(text) == bound_written(views(tokens@), 2),
{
    bound_text(tokens, 2)
}

/// The text of the second bound, with its sign, where a literal stands at
/// its place.
pub fn end_text(tokens: &Vec<Token>) -> (text: Option<String>)
    ensures
        text_view(text) == bound_written(
            views(tokens@),
            start_literal(views(tokens@)) + 3,
        ),
{
    let first = literal_of_bound(tokens, 2);
    bound_text(tokens, first + 3)
}

/// The text of the bound that begins at position `i`, with its sign, where
/// a literal stands at its place.
fn bound_text(tokens: &Vec<Token>, i: usize) -> (text: Option<String>)
    requires
        i < usize::MAX,
    ensures
        text_view(text) == bound_written(views(tokens@), i as int),
{
    let at = literal_of_bound(tokens, i);
    if at < tokens.len() {
        assert(views(tokens@)[at as int] == tokens@[at as int]@);
        if tokens[at].is_literal() {
            let written = leaf_text(&tokens[at]);
            if at == i {
                return Some(written);
            }
            proof {
                reveal_strlit("-");
            }
            let mut signed = String::from_str("-");
            signed.append(written.as_str());
            assert("-"@ =~= seq!['-']);
            return Some(signed);
        }
    }
    None
}

impl Template {
    /// Makes the template that `tokens` spell, where the outside parser
    /// accepts the variable as a name or not, as `named` says, and reads the
    /// two bounds as `start` and `end`.
    pub fn assemble(tokens: &Vec<Token>, named: bool, start: Reading, end: Reading) -> (r: Result<
        Template,
        ExpandError,
    >)
        ensures
            template_outcome(r) == parsed_with(views(tokens@), named, start, end),
    {
        let ghost source = views(tokens@);
        assert(forall|k: int| 0 <= k < tokens.len() ==> source[k] == tokens@[k]@);
        if !(0 < tokens.len() && tokens[0].is_identifier()) {
            return Err(fault_at(tokens, 0));
        }
        if !named {
            return Err(refused_at(tokens, 0));
        }
        proof {
            reveal_strlit("in");
            assert("in"@ =~= seq!['i', 'n']);
        }
        let keyword = String::from_str("in");
        if !(1 < tokens.len() && tokens[1].is_named(&keyword)) {
            return Err(fault_at(tokens, 1));
        }
        let first = literal_of_bound(tokens, 2);
        if !(first < tokens.len() && tokens[first].is_literal()) {
            return Err(fault_at(tokens, first));
        }
        if let Reading::NotInteger = start {
            return Err(refused_at(tokens, first));
        }
        if !(first + 1 < tokens.len() && tokens[first + 1].is_punct('.')) {
            return Err(fault_at(tokens, first + 1));
        }
        if !(first + 2 < tokens.len() && tokens[first + 2].is_punct('.')) {
            return Err(fault_at(tokens, first + 2));
        }
        let second = literal_of_bound(tokens, first + 3);
        if !(second < tokens.len() && tokens[second].is_literal()) {
            return Err(fault_at(tokens, second));
        }
        if let Reading::NotInteger = end {
            return Err(refused_at(tokens, second));
        }
        if !(second + 1 < tokens.len() && tokens[second + 1].is_group(Delimiter::Brace)) {
            return Err(fault_at(tokens, second + 1));
        }
        let from = match start {
            Reading::Value(value) => value,
            _ => {
                return Err(refused_at(tokens, first));
            },
        };
        let to = match end {
            Reading::Value(value) => value,
            _ => {
                return Err(refused_at(tokens, second));
            },
        };
        if second + 2 < tokens.len() {
            return Err(fault_at(tokens, second + 2));
        }
        let body = match &tokens[second + 1] {
            Token::Group { inner, .. } => clone_tokens(inner),
            Token::Leaf { .. } => Vec::new(),
        };
        Ok(Template { variable: leaf_text(&tokens[0]), start: from, end: to, body })
    }

    /// Reads a template of the form `variable in start..end { body }`. The
    /// outside parser says whether the variable is a name and what the
    /// bounds are; the result is what `parsed_with` makes of its answers.
    pub fn parse(input: &Vec<Token>) -> (r: Result<Template, ExpandError>)
        ensures
            exists|named: bool, start: Reading, end: Reading|
                template_outcome(r) == parsed_with(views(input@), named, start, end),
    {
        let named = match variable_text(input) {
            Some(text) => accepts_name(text.as_str()),
            None => false,
        };
        let start = match start_text(input) {
            Some(text) => read_bound(text.as_str()),
            None => Reading::NotInteger,
        };
        let end = match end_text(input) {
            Some(text) => read_bound(text.as_str()),
            None => Reading::NotInteger,
        };
        Template::assemble(input, named, start, end)
    }

    /// Expands the template.
    pub fn expand(&self) -> (r: Result<Vec<Token>, ExpandError>)
        ensures
            outcome(r) == expansion(self@),
    {
        match self.expand_body(&self.body) {
            Ok((tokens, matched)) => {
                if matched {
                    Ok(tokens)
                } else {
                    self.expand_content(&self.body)
                }
            },
            Err(error) => Err(error),
        }
    }
}

/// Reads a template and expands it.
pub fn seq(input: Vec<Token>) -> (r: Result<Vec<Token>, ExpandError>)
    ensures
        exists|named: bool, start: Reading, end: Reading|
            outcome(r) == expanded_with(views(input@), named, start, end),
{
    let parsed = Template::parse(&input);
    let ghost answers = choose|named: bool, start: Reading, end: Reading|
        template_outcome(parsed) == parsed_with(views(input@), named, start, end);
    let r = match parsed {
        Ok(template) => template.expand(),
        Err(error) => Err(error),
    };
    assert(outcome(r) == expanded_with(views(input@), answers.0, answers.1, answers.2));
    r
}

} // verus!
