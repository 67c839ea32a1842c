//! What holds of every expansion.

use crate::decimal::decimal;
use crate::error::ErrorView;
use crate::scanner::{
    copies_for, first_idiom, first_idiom_from, first_nested, first_nested_from, idiom_at,
    idiom_inner, no_copies, outside, regions_expand, regions_expand_from, replace_idioms,
    replace_idioms_from, scan_from,
};
use crate::splice::{identifier, identifier_at, literal, tilde_at, variable_at};
use crate::substitute::{expand_range, substitute};
use crate::template::{expansion, TemplateView};
use crate::token::TokenView;
use vstd::prelude::*;

verus! {

/// Over an empty range nothing is copied, and nothing can fail.
pub proof fn lemma_empty_range(tokens: Seq<TokenView>, variable: Seq<char>, start: int, end: int)
    requires
        end <= start,
    ensures
        expand_range(tokens, variable, start, end) == Ok::<Seq<TokenView>, ErrorView>(Seq::empty()),
{
}

/// A scan of tokens that hold no repeated region hands them back as they
/// are and reports that it found none.
pub proof fn lemma_scan_without_idiom(
    tokens: Seq<TokenView>,
    i: int,
    variable: Seq<char>,
    start: int,
    end: int,
)
    requires
        0 <= i <= tokens.len(),
        first_idiom_from(tokens, i) is None,
    ensures
        scan_from(tokens, i, variable, start, end) == Ok::<(Seq<TokenView>, bool), ErrorView>(
            (tokens.subrange(i, tokens.len() as int), false),
        ),
    decreases tokens, tokens.len() - i,
{
    if i >= tokens.len() {
        assert(tokens.subrange(i, tokens.len() as int) =~= Seq::empty());
    } else {
        lemma_scan_without_idiom(tokens, i + 1, variable, start, end);
        match tokens[i] {
            TokenView::Group { delimiter, inner, location } => {
                lemma_scan_without_idiom(inner, 0, variable, start, end);
                assert(inner.subrange(0, inner.len() as int) =~= inner);
            },
            _ => {},
        }
        assert(seq![tokens[i]] + tokens.subrange(i + 1, tokens.len() as int) =~= tokens.subrange(
            i,
            tokens.len() as int,
        ));
    }
}

/// A scan of tokens that hold a repeated region reports that it found one,
/// unless it fails.
pub proof fn lemma_scan_with_idiom(
    tokens: Seq<TokenView>,
    i: int,
    variable: Seq<char>,
    start: int,
    end: int,
)
    requires
        0 <= i <= tokens.len(),
        first_idiom_from(tokens, i) is Some,
    ensures
        scan_from(tokens, i, variable, start, end) matches Ok((_, matched)) ==> matched,
    decreases tokens, tokens.len() - i,
{
    if i < tokens.len() && !idiom_at(tokens, i) {
        match tokens[i] {
            TokenView::Group { delimiter, inner, location } => {
                if first_idiom_from(inner, 0) is Some {
                    lemma_scan_with_idiom(inner, 0, variable, start, end);
                } else {
                    lemma_scan_with_idiom(tokens, i + 1, variable, start, end);
                }
            },
            _ => {
                lemma_scan_with_idiom(tokens, i + 1, variable, start, end);
            },
        }
    }
}

/// A scan that succeeds hands back the tokens with each repeated region
/// replaced by its copies, and all other tokens once, where they stood.
pub proof fn lemma_scan_replaces_idioms(
    tokens: Seq<TokenView>,
    i: int,
    variable: Seq<char>,
    start: int,
    end: int,
)
    requires
        0 <= i <= tokens.len(),
    ensures
        scan_from(tokens, i, variable, start, end) matches Ok((scanned, _)) ==> scanned
            == replace_idioms_from(tokens, i, copies_for(variable, start, end)),
    decreases tokens, tokens.len() - i,
{
    if i < tokens.len() {
        if idiom_at(tokens, i) {
            lemma_scan_replaces_idioms(tokens, i + 3, variable, start, end);
        } else {
            lemma_scan_replaces_idioms(tokens, i + 1, variable, start, end);
            match tokens[i] {
                TokenView::Group { delimiter, inner, location } => {
                    lemma_scan_replaces_idioms(inner, 0, variable, start, end);
                },
                _ => {},
            }
        }
    }
}

/// Over an empty range a scan leaves what stands outside the repeated
/// regions, and fails only where one region holds another.
pub proof fn lemma_scan_over_empty_range(
    tokens: Seq<TokenView>,
    i: int,
    variable: Seq<char>,
    start: int,
    end: int,
)
    requires
        0 <= i <= tokens.len(),
        end <= start,
    ensures
        scan_from(tokens, i, variable, start, end) == (match first_nested_from(tokens, i) {
            Some(location) => Err::<(Seq<TokenView>, bool), ErrorView>(
                ErrorView::UnsupportedConstruct { location },
            ),
            None => Ok(
                (
                    replace_idioms_from(tokens, i, no_copies()),
                    first_idiom_from(tokens, i) is Some,
                ),
            ),
        }),
    decreases tokens, tokens.len() - i,
{
    if i < tokens.len() {
        if idiom_at(tokens, i) {
            lemma_empty_range(idiom_inner(tokens, i), variable, start, end);
            lemma_scan_over_empty_range(tokens, i + 3, variable, start, end);
        } else {
            lemma_scan_over_empty_range(tokens, i + 1, variable, start, end);
            match tokens[i] {
                TokenView::Group { delimiter, inner, location } => {
                    lemma_scan_over_empty_range(inner, 0, variable, start, end);
                },
                _ => {},
            }
        }
    }
}

/// The copies of `tokens` for the values from `start` up to, and without,
/// `end`, one entry for each value, where none of them fails.
pub open spec fn copies(tokens: Seq<TokenView>, variable: Seq<char>, start: int, end: int) -> Seq<
    Seq<TokenView>,
> {
    Seq::new(
        if end > start {
            (end - start) as nat
        } else {
            0
        },
        |k: int| substitute(tokens, variable, start + k)->Ok_0,
    )
}

/// Where every copy succeeds, the copies follow one another in rising
/// order of the values; where one fails, the error of the first that fails
/// is the result.
pub proof fn lemma_expand_range_is_concatenation(
    tokens: Seq<TokenView>,
    variable: Seq<char>,
    start: int,
    end: int,
)
    ensures
        (forall|v: int| start <= v < end ==> substitute(tokens, variable, v) is Ok)
            ==> expand_range(tokens, variable, start, end) == Ok::<Seq<TokenView>, ErrorView>(
            copies(tokens, variable, start, end).flatten(),
        ),
        forall|v: int|
            start <= v < end && substitute(tokens, variable, v) is Err && (forall|w: int|
                start <= w < v ==> substitute(tokens, variable, w) is Ok) ==> expand_range(
                tokens,
                variable,
                start,
                end,
            ) == Err::<Seq<TokenView>, ErrorView>(substitute(tokens, variable, v)->Err_0),
    decreases end - start,
{
    if start < end {
        lemma_expand_range_is_concatenation(tokens, variable, start + 1, end);
        let all = copies(tokens, variable, start, end);
        let later = copies(tokens, variable, start + 1, end);
        assert(all.drop_first() =~= later);
        assert(all.first() == substitute(tokens, variable, start)->Ok_0);
        if substitute(tokens, variable, start) is Ok {
            assert forall|v: int|
                start <= v < end && substitute(tokens, variable, v) is Err && (forall|w: int|
                    start <= w < v ==> substitute(tokens, variable, w) is Ok) implies expand_range(
                tokens,
                variable,
                start,
                end,
            ) == Err::<Seq<TokenView>, ErrorView>(substitute(tokens, variable, v)->Err_0) by {
                assert(start + 1 <= v);
                assert(forall|w: int|
                    start + 1 <= w < v ==> substitute(tokens, variable, w) is Ok);
            }
        }
    } else {
        assert(copies(tokens, variable, start, end).flatten() =~= Seq::empty());
    }
}

/// A body without a repeated region is repeated as a whole: the expansion
/// is the copy for the first value, then the copy for the next, and so on
/// to the last, `end - start` copies in all. Where a copy fails, the error
/// of the first that fails is the result.
pub proof fn law_whole_body_is_repeated(template: TemplateView)
    requires
        first_idiom(template.body) is None,
    ensures
        expansion(template) == expand_range(
            template.body,
            template.variable,
            template.start,
            template.end,
        ),
        (forall|v: int|
            template.start <= v < template.end ==> substitute(
                template.body,
                template.variable,
                v,
            ) is Ok) ==> expansion(template) == Ok::<Seq<TokenView>, ErrorView>(
            copies(template.body, template.variable, template.start, template.end).flatten(),
        ),
        template.start <= template.end ==> copies(
            template.body,
            template.variable,
            template.start,
            template.end,
        ).len() == template.end - template.start,
        forall|v: int|
            template.start <= v < template.end && substitute(
                template.body,
                template.variable,
                v,
            ) is Err && (forall|w: int|
                template.start <= w < v ==> substitute(template.body, template.variable, w) is Ok)
                ==> expansion(template) == Err::<Seq<TokenView>, ErrorView>(
                substitute(template.body, template.variable, v)->Err_0,
            ),
{
    lemma_scan_without_idiom(
        template.body,
        0,
        template.variable,
        template.start,
        template.end,
    );
    lemma_expand_range_is_concatenation(
        template.body,
        template.variable,
        template.start,
        template.end,
    );
}

/// In a body that marks repeated regions, what stands outside them is
/// written once and in its order, whatever the range: a successful
/// expansion is the body with each repeated region replaced by its copies
/// and every other token where it stood. The range decides the copies and
/// nothing else; over an empty range there are none, and the expansion is
/// the body without its repeated regions.
pub proof fn law_rest_stands_once(template: TemplateView)
    requires
        first_idiom(template.body) is Some,
    ensures
        expansion(template) matches Ok(tokens) ==> tokens == replace_idioms(
            template.body,
            copies_for(template.variable, template.start, template.end),
        ),
        template.end <= template.start ==> (expansion(template) matches Ok(tokens) ==> tokens
            == outside(template.body)),
{
    lemma_scan_with_idiom(template.body, 0, template.variable, template.start, template.end);
    lemma_scan_replaces_idioms(template.body, 0, template.variable, template.start, template.end);
    if template.end <= template.start {
        lemma_scan_over_empty_range(
            template.body,
            0,
            template.variable,
            template.start,
            template.end,
        );
    }
}

/// A scan succeeds where no repeated region holds another and the copies
/// of every region succeed, and nowhere else.
pub proof fn lemma_scan_succeeds(
    tokens: Seq<TokenView>,
    i: int,
    variable: Seq<char>,
    start: int,
    end: int,
)
    requires
        0 <= i <= tokens.len(),
    ensures
        scan_from(tokens, i, variable, start, end) is Ok <==> first_nested_from(tokens, i) is None
            && regions_expand_from(tokens, i, variable, start, end),
    decreases tokens, tokens.len() - i,
{
    if i < tokens.len() {
        if idiom_at(tokens, i) {
            lemma_scan_succeeds(tokens, i + 3, variable, start, end);
        } else {
            lemma_scan_succeeds(tokens, i + 1, variable, start, end);
            match tokens[i] {
                TokenView::Group { delimiter, inner, location } => {
                    lemma_scan_succeeds(inner, 0, variable, start, end);
                },
                _ => {},
            }
        }
    }
}

/// A body that marks repeated regions is expanded with success where none
/// of its regions holds another and the copies of each succeed, and nowhere
/// else. The expansion is then the body with each repeated region replaced
/// by its copies and every other token where it stood.
pub proof fn law_marked_expansion_succeeds(template: TemplateView)
    requires
        first_idiom(template.body) is Some,
    ensures
        expansion(template) is Ok <==> first_nested(template.body) is None && regions_expand(
            template.body,
            template.variable,
            template.start,
            template.end,
        ),
        first_nested(template.body) is None && regions_expand(
            template.body,
            template.variable,
            template.start,
            template.end,
        ) ==> expansion(template) == Ok::<Seq<TokenView>, ErrorView>(
            replace_idioms(
                template.body,
                copies_for(template.variable, template.start, template.end),
            ),
        ),
{
    lemma_scan_succeeds(template.body, 0, template.variable, template.start, template.end);
    law_rest_stands_once(template);
    lemma_scan_with_idiom(template.body, 0, template.variable, template.start, template.end);
}

/// What a template with an empty range expands to: nothing, where the body
/// marks no repeated region; what stands outside the repeated regions,
/// where it marks some; and an error only where one region holds another.
pub proof fn law_empty_range_expansion(template: TemplateView)
    requires
        template.end <= template.start,
    ensures
        expansion(template) == (match first_nested(template.body) {
            Some(location) => Err::<Seq<TokenView>, ErrorView>(
                ErrorView::UnsupportedConstruct { location },
            ),
            None => if first_idiom(template.body) is Some {
                Ok(outside(template.body))
            } else {
                Ok(Seq::empty())
            },
        }),
{
    lemma_scan_over_empty_range(
        template.body,
        0,
        template.variable,
        template.start,
        template.end,
    );
    lemma_empty_range(template.body, template.variable, template.start, template.end);
}

/// A template with an empty range expands to nothing, and without error,
/// where the body marks no repeated region, or where nothing stands outside
/// its repeated regions and none of them holds another.
pub proof fn law_empty_range_yields_nothing(template: TemplateView)
    requires
        template.end <= template.start,
        first_idiom(template.body) is None || (first_nested(template.body) is None && outside(
            template.body,
        ).len() == 0),
    ensures
        expansion(template) == Ok::<Seq<TokenView>, ErrorView>(Seq::empty()),
{
    law_empty_range_expansion(template);
    if first_idiom(template.body) is None {
        lemma_no_idiom_no_nested(template.body, 0);
    } else {
        assert(outside(template.body) =~= Seq::empty());
    }
}

/// Tokens that hold no repeated region hold none inside another.
pub proof fn lemma_no_idiom_no_nested(tokens: Seq<TokenView>, i: int)
    requires
        0 <= i <= tokens.len(),
        first_idiom_from(tokens, i) is None,
    ensures
        first_nested_from(tokens, i) is None,
    decreases tokens, tokens.len() - i,
{
    if i < tokens.len() {
        lemma_no_idiom_no_nested(tokens, i + 1);
        match tokens[i] {
            TokenView::Group { delimiter, inner, location } => {
                lemma_no_idiom_no_nested(inner, 0);
            },
            _ => {},
        }
    }
}

/// The range from zero to zero is empty: under the same condition the
/// expansion is nothing, without error.
pub proof fn law_zero_range_yields_nothing(template: TemplateView)
    requires
        template.start == 0,
        template.end == 0,
        first_idiom(template.body) is None || (first_nested(template.body) is None && outside(
            template.body,
        ).len() == 0),
    ensures
        expansion(template) == Ok::<Seq<TokenView>, ErrorView>(Seq::empty()),
{
    law_empty_range_yields_nothing(template);
}

/// A prefix and its `~` at the head of a token sequence, with anything but
/// the variable behind them, or with nothing, fail the substitution with an
/// error that names the variable and points at the `~`.
pub proof fn law_prefix_needs_variable(tokens: Seq<TokenView>, variable: Seq<char>, value: int)
    requires
        identifier_at(tokens, 0),
        !variable_at(tokens, 0, variable),
        tilde_at(tokens, 1),
        !variable_at(tokens, 2, variable),
    ensures
        substitute(tokens, variable, value) == Err::<Seq<TokenView>, ErrorView>(
            ErrorView::ExpectedVariableAfterTilde { variable, location: tokens[1].location() },
        ),
{
}

/// The four forms of a splice, each standing alone: the variable becomes
/// the literal of its value; a prefix, the variable, or the variable and a
/// suffix, or all three, joined by `~`, become one identifier whose text is
/// the parts in their order, with the digits of the value for the variable.
/// The token has the location of the first token of the splice.
pub proof fn law_splice_forms(
    variable: Seq<char>,
    value: int,
    prefix: TokenView,
    number: TokenView,
    tilde: TokenView,
    suffix: TokenView,
)
    requires
        prefix.is_identifier(),
        !prefix.is_named(variable),
        number.is_named(variable),
        tilde.is_punct('~'),
        suffix.is_identifier(),
    ensures
        substitute(seq![number], variable, value) == Ok::<Seq<TokenView>, ErrorView>(
            seq![literal(decimal(value), number.location())],
        ),
        substitute(seq![prefix, tilde, number], variable, value) == Ok::<
            Seq<TokenView>,
            ErrorView,
        >(seq![identifier(prefix.text() + decimal(value), prefix.location())]),
        substitute(seq![number, tilde, suffix], variable, value) == Ok::<
            Seq<TokenView>,
            ErrorView,
        >(seq![identifier(decimal(value) + suffix.text(), number.location())]),
        substitute(seq![prefix, tilde, number, tilde, suffix], variable, value) == Ok::<
            Seq<TokenView>,
            ErrorView,
        >(
            seq![
                identifier(prefix.text() + decimal(value) + suffix.text(), prefix.location()),
            ],
        ),
{
    reveal_with_fuel(crate::substitute::substitute_from, 2);
    let alone = seq![number];
    let prefixed = seq![prefix, tilde, number];
    let suffixed = seq![number, tilde, suffix];
    let full = seq![prefix, tilde, number, tilde, suffix];
    assert(substitute(alone, variable, value)->Ok_0 =~= seq![
        literal(decimal(value), number.location()),
    ]);
    assert(substitute(prefixed, variable, value)->Ok_0 =~= seq![
        identifier(prefix.text() + decimal(value), prefix.location()),
    ]);
    assert(substitute(suffixed, variable, value)->Ok_0 =~= seq![
        identifier(decimal(value) + suffix.text(), number.location()),
    ]);
    assert(substitute(full, variable, value)->Ok_0 =~= seq![
        identifier(prefix.text() + decimal(value) + suffix.text(), prefix.location()),
    ]);
}

} // verus!
