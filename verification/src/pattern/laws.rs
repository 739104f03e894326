//! What holds of canonicalization as a whole.

use super::canonical::{
    can_be_canonicalized, canonical, canonical_fields, identified, shadowed_ident, signed_literal,
    CanContext, CanState,
};
use super::constrain::{
    can_be_constrained, constrained, field_headers, field_types, field_variable, TypingState,
};
use super::idents::{
    all_introduced, has_identifier, has_known_idents, introduced, pattern_idents,
};
use super::{PatternType, PatternView};
use crate::ast;
use crate::collections::{IdentEntries, IdentItem};
use crate::env::ProblemView;
use crate::ident::IdentName;
use crate::num::literal_value;
use crate::region::{Located, Region};
use crate::subs::{advanced, advanced_adds_up, Variable};
use crate::symbol::prefixed_symbol;
use crate::types::{PExpected, Type};
use vstd::prelude::*;

verus! {

/// Every entry of one scope is in another one, unchanged.
pub open spec fn keeps_entries(before: IdentEntries, after: IdentEntries) -> bool {
    forall|ident: IdentName| #[trigger]
        before.contains_key(ident) ==> after.contains_key(ident) && after[ident] == before[ident]
}

/// Every name that could be shadowed in one scope can be in another one.
pub open spec fn keeps_keys(before: IdentEntries, after: IdentEntries) -> bool {
    forall|ident: IdentName| #[trigger] before.contains_key(ident) ==> after.contains_key(ident)
}

/// Canonicalizing a pattern takes nothing out of scope, and changes nothing that is
/// in scope. Nor does a name stop being shadowable.
pub proof fn scope_only_grows(
    ctx: CanContext,
    pattern: ast::Pattern,
    region: Region,
    state: CanState,
)
    requires
        can_be_canonicalized(pattern, ctx.pattern_type),
    ensures
        keeps_entries(state.idents, canonical(ctx, pattern, region, state).1.idents),
        keeps_keys(state.shadowable, canonical(ctx, pattern, region, state).1.shadowable),
    decreases pattern,
{
    match pattern {
        ast::Pattern::SpaceBefore(inner, _) => scope_only_grows(ctx, *inner, region, state),
        ast::Pattern::SpaceAfter(inner, _) => scope_only_grows(ctx, *inner, region, state),
        ast::Pattern::Nested(inner) => scope_only_grows(ctx, *inner, region, state),
        ast::Pattern::RecordDestructure(fields) => {
            scope_only_grows_over_fields(ctx, fields@, region, state);
        },
        _ => {},
    }
}

spec fn all_can_be_canonicalized(
    fields: Seq<Located<ast::Pattern>>,
    pattern_type: PatternType,
) -> bool {
    forall|i: int|
        0 <= i < fields.len() ==> can_be_canonicalized((#[trigger] fields[i]).value, pattern_type)
}

proof fn scope_only_grows_over_fields(
    ctx: CanContext,
    fields: Seq<Located<ast::Pattern>>,
    region: Region,
    state: CanState,
)
    requires
        all_can_be_canonicalized(fields, ctx.pattern_type),
    ensures
        keeps_entries(state.idents, canonical_fields(ctx, fields, region, state).1.idents),
        keeps_keys(state.shadowable, canonical_fields(ctx, fields, region, state).1.shadowable),
    decreases fields,
{
    if fields.len() > 0 {
        let before = canonical_fields(ctx, fields.drop_last(), region, state).1;
        scope_only_grows_over_fields(ctx, fields.drop_last(), region, state);
        scope_only_grows(ctx, fields.last().value, region, before);
    }
}

/// Once a pattern is canonicalized, none of the names in it can be introduced again:
/// another identifier of that name shadows it. So `(Blah foo foo) -> ...` and
/// `{ foo, foo } -> ...` are examples of shadowing.
pub proof fn names_cannot_be_reused(
    ctx: CanContext,
    pattern: ast::Pattern,
    region: Region,
    state: CanState,
    name: Seq<char>,
)
    requires
        can_be_canonicalized(pattern, ctx.pattern_type),
        has_identifier(pattern, name),
    ensures
        ({
            let after = canonical(ctx, pattern, region, state).1;
            shadowed_ident(ctx.home, name, after.idents, after.shadowable) is Some
        }),
    decreases pattern,
{
    match pattern {
        ast::Pattern::SpaceBefore(inner, _) => names_cannot_be_reused(
            ctx,
            *inner,
            region,
            state,
            name,
        ),
        ast::Pattern::SpaceAfter(inner, _) => names_cannot_be_reused(
            ctx,
            *inner,
            region,
            state,
            name,
        ),
        ast::Pattern::Nested(inner) => names_cannot_be_reused(ctx, *inner, region, state, name),
        ast::Pattern::RecordDestructure(fields) => {
            let i = choose|i: int|
                0 <= i < fields@.len() && has_identifier((#[trigger] fields@[i]).value, name);
            field_names_cannot_be_reused(ctx, fields@, region, state, name, i);
        },
        _ => {},
    }
}

proof fn field_names_cannot_be_reused(
    ctx: CanContext,
    fields: Seq<Located<ast::Pattern>>,
    region: Region,
    state: CanState,
    name: Seq<char>,
    i: int,
)
    requires
        all_can_be_canonicalized(fields, ctx.pattern_type),
        0 <= i < fields.len(),
        has_identifier(fields[i].value, name),
    ensures
        ({
            let after = canonical_fields(ctx, fields, region, state).1;
            shadowed_ident(ctx.home, name, after.idents, after.shadowable) is Some
        }),
    decreases fields,
{
    let before = canonical_fields(ctx, fields.drop_last(), region, state).1;
    if i == fields.len() - 1 {
        names_cannot_be_reused(ctx, fields.last().value, region, before, name);
    } else {
        field_names_cannot_be_reused(ctx, fields.drop_last(), region, state, name, i);
        scope_only_grows(ctx, fields.last().value, region, before);
    }
}

/// A name that was new is in scope afterwards, under the region that introduced it.
/// The next identifier of that name is handed back as a shadowed one, with that region,
/// and changes nothing but the report.
pub proof fn second_identifier_is_shadowed(
    ctx: CanContext,
    name: Seq<char>,
    first: Region,
    second: Region,
    state: CanState,
)
    requires
        shadowed_ident(ctx.home, name, state.idents, state.shadowable) is None,
    ensures
        ({
            let (_, after_first) = identified(ctx, name, first, state);
            let (pattern, after_second) = identified(ctx, name, second, after_first);
            let shadowed = Located { region: first, value: (Some(ctx.home), name) };
            &&& pattern == PatternView::Shadowed(shadowed)
            &&& after_second == (CanState {
                problems: after_first.problems.push(ProblemView::Shadowing(shadowed)),
                ..after_first
            })
        }),
{
}

/// What is in scope under an unqualified name has no part in shadowing, so that a
/// definition can refer to itself without shadowing itself.
pub proof fn unqualified_scope_is_not_shadowed(
    home: Seq<char>,
    name: Seq<char>,
    idents: IdentEntries,
    shadowable: IdentEntries,
    in_scope: Seq<char>,
    entry: (Seq<char>, Region),
)
    ensures
        shadowed_ident(home, name, idents.insert((None, in_scope), entry), shadowable)
            == shadowed_ident(home, name, idents, shadowable),
{
}

/// The problems behind the runtime errors in a canonical pattern, in the order in which
/// they stand in it.
pub open spec fn runtime_errors(pattern: PatternView, pattern_type: PatternType) -> Seq<ProblemView>
    decreases pattern,
{
    match pattern {
        PatternView::Shadowed(ident) => seq![ProblemView::Shadowing(ident)],
        PatternView::UnsupportedPattern(region) => seq![
            ProblemView::UnsupportedPattern(pattern_type, region),
        ],
        PatternView::AppliedTag(_, _, args) => runtime_errors_of_args(args, pattern_type),
        PatternView::RecordDestructure(parts) => runtime_errors_of_parts(parts, pattern_type),
        _ => Seq::empty(),
    }
}

pub open spec fn runtime_errors_of_args(
    args: Seq<Located<PatternView>>,
    pattern_type: PatternType,
) -> Seq<ProblemView>
    decreases args,
{
    if args.len() == 0 {
        Seq::empty()
    } else {
        runtime_errors_of_args(args.drop_last(), pattern_type) + runtime_errors(
            args.last().value,
            pattern_type,
        )
    }
}

pub open spec fn runtime_errors_of_parts(
    parts: Seq<(Located<PatternView>, Option<Located<PatternView>>)>,
    pattern_type: PatternType,
) -> Seq<ProblemView>
    decreases parts,
{
    if parts.len() == 0 {
        Seq::empty()
    } else {
        runtime_errors_of_parts(parts.drop_last(), pattern_type) + runtime_errors(
            parts.last().0.value,
            pattern_type,
        ) + match parts.last().1 {
            Some(guard) => runtime_errors(guard.value, pattern_type),
            None => Seq::empty(),
        }
    }
}

/// Every runtime error in a canonical pattern has been reported, once and in order,
/// and nothing else has.
pub proof fn every_runtime_error_is_reported(
    ctx: CanContext,
    pattern: ast::Pattern,
    region: Region,
    state: CanState,
)
    requires
        can_be_canonicalized(pattern, ctx.pattern_type),
    ensures
        ({
            let (found, after) = canonical(ctx, pattern, region, state);
            after.problems == state.problems + runtime_errors(found, ctx.pattern_type)
        }),
    decreases pattern,
{
    match pattern {
        ast::Pattern::SpaceBefore(inner, _) => every_runtime_error_is_reported(
            ctx,
            *inner,
            region,
            state,
        ),
        ast::Pattern::SpaceAfter(inner, _) => every_runtime_error_is_reported(
            ctx,
            *inner,
            region,
            state,
        ),
        ast::Pattern::Nested(inner) => every_runtime_error_is_reported(ctx, *inner, region, state),
        ast::Pattern::RecordDestructure(fields) => {
            every_runtime_error_of_fields_is_reported(ctx, fields@, region, state);
        },
        _ => {
            let (found, after) = canonical(ctx, pattern, region, state);
            assert(after.problems =~= state.problems + runtime_errors(found, ctx.pattern_type));
        },
    }
}

proof fn every_runtime_error_of_fields_is_reported(
    ctx: CanContext,
    fields: Seq<Located<ast::Pattern>>,
    region: Region,
    state: CanState,
)
    requires
        all_can_be_canonicalized(fields, ctx.pattern_type),
    ensures
        ({
            let (found, after) = canonical_fields(ctx, fields, region, state);
            after.problems == state.problems + runtime_errors_of_parts(found, ctx.pattern_type)
        }),
    decreases fields,
{
    let (found, after) = canonical_fields(ctx, fields, region, state);
    if fields.len() > 0 {
        let (parts, before) = canonical_fields(ctx, fields.drop_last(), region, state);
        every_runtime_error_of_fields_is_reported(ctx, fields.drop_last(), region, state);
        every_runtime_error_is_reported(ctx, fields.last().value, region, before);
        assert(found.drop_last() =~= parts);
    }
    assert(after.problems =~= state.problems + runtime_errors_of_parts(found, ctx.pattern_type));
}

/// The variables of the tags in a canonical pattern, in the order in which they stand in it.
pub open spec fn tag_variables(pattern: PatternView) -> Seq<Variable>
    decreases pattern,
{
    match pattern {
        PatternView::Tag(variable, _) => seq![variable],
        PatternView::AppliedTag(variable, _, args) => seq![variable] + tag_variables_of_args(args),
        PatternView::RecordDestructure(parts) => tag_variables_of_parts(parts),
        _ => Seq::empty(),
    }
}

pub open spec fn tag_variables_of_args(args: Seq<Located<PatternView>>) -> Seq<Variable>
    decreases args,
{
    if args.len() == 0 {
        Seq::empty()
    } else {
        tag_variables_of_args(args.drop_last()) + tag_variables(args.last().value)
    }
}

pub open spec fn tag_variables_of_parts(
    parts: Seq<(Located<PatternView>, Option<Located<PatternView>>)>,
) -> Seq<Variable>
    decreases parts,
{
    if parts.len() == 0 {
        Seq::empty()
    } else {
        tag_variables_of_parts(parts.drop_last()) + tag_variables(parts.last().0.value)
            + match parts.last().1 {
            Some(guard) => tag_variables(guard.value),
            None => Seq::empty(),
        }
    }
}

/// The next variables that a store hands out.
pub open spec fn next_variables(counter: u32, count: nat) -> Seq<Variable> {
    Seq::new(count, |i: int| Variable(advanced(counter, i as nat)))
}

/// The variables of the tags in a canonical pattern are the next ones from the store,
/// and just these are recorded.
pub proof fn tags_take_the_next_variables(
    ctx: CanContext,
    pattern: ast::Pattern,
    region: Region,
    state: CanState,
)
    requires
        can_be_canonicalized(pattern, ctx.pattern_type),
    ensures
        ({
            let (found, after) = canonical(ctx, pattern, region, state);
            let taken = tag_variables(found);
            &&& after.vars == state.vars + taken
            &&& taken == next_variables(state.counter, taken.len())
            &&& after.counter == advanced(state.counter, taken.len())
        }),
    decreases pattern,
{
    match pattern {
        ast::Pattern::SpaceBefore(inner, _) => tags_take_the_next_variables(
            ctx,
            *inner,
            region,
            state,
        ),
        ast::Pattern::SpaceAfter(inner, _) => tags_take_the_next_variables(
            ctx,
            *inner,
            region,
            state,
        ),
        ast::Pattern::Nested(inner) => tags_take_the_next_variables(ctx, *inner, region, state),
        ast::Pattern::RecordDestructure(fields) => {
            tags_of_fields_take_the_next_variables(ctx, fields@, region, state);
        },
        _ => {
            let (found, after) = canonical(ctx, pattern, region, state);
            let taken = tag_variables(found);
            assert(after.vars =~= state.vars + taken);
            assert(taken =~= next_variables(state.counter, taken.len()));
        },
    }
}

proof fn tags_of_fields_take_the_next_variables(
    ctx: CanContext,
    fields: Seq<Located<ast::Pattern>>,
    region: Region,
    state: CanState,
)
    requires
        all_can_be_canonicalized(fields, ctx.pattern_type),
    ensures
        ({
            let (found, after) = canonical_fields(ctx, fields, region, state);
            let taken = tag_variables_of_parts(found);
            &&& after.vars == state.vars + taken
            &&& taken == next_variables(state.counter, taken.len())
            &&& after.counter == advanced(state.counter, taken.len())
        }),
    decreases fields,
{
    let (found, after) = canonical_fields(ctx, fields, region, state);
    let taken = tag_variables_of_parts(found);
    if fields.len() > 0 {
        let (parts, before) = canonical_fields(ctx, fields.drop_last(), region, state);
        let (part, _) = canonical(ctx, fields.last().value, region, before);
        tags_of_fields_take_the_next_variables(ctx, fields.drop_last(), region, state);
        tags_take_the_next_variables(ctx, fields.last().value, region, before);
        assert(found.drop_last() =~= parts);
        let first = tag_variables_of_parts(parts);
        let last = tag_variables(part);
        assert(taken =~= first + last);
        advanced_adds_up(state.counter, first.len(), last.len());
        assert forall|i: int| 0 <= i < last.len() implies #[trigger] last[i] == Variable(
            advanced(state.counter, first.len() + i as nat),
        ) by {
            advanced_adds_up(state.counter, first.len(), i as nat);
        }
        assert forall|i: int| 0 <= i < taken.len() implies taken[i] == next_variables(
            state.counter,
            taken.len(),
        )[i] by {
            if i >= first.len() {
                assert(taken[i] == last[i - first.len()]);
            } else {
                assert(taken[i] == first[i]);
            }
        }
    }
    assert(after.vars =~= state.vars + taken);
    assert(taken =~= next_variables(state.counter, taken.len()));
}

/// A store does not hand out a variable twice before it has handed out all of them.
pub proof fn next_variables_differ(counter: u32, count: nat, i: int, j: int)
    requires
        0 <= i < j < count <= 0x1_0000_0000,
    ensures
        next_variables(counter, count)[i] != next_variables(counter, count)[j],
{
}

/// Whether one pattern is another one with spaces, comments or parentheses around it.
pub open spec fn surrounds(outer: ast::Pattern, inner: ast::Pattern) -> bool {
    match outer {
        ast::Pattern::SpaceBefore(sub_pattern, _) => *sub_pattern == inner,
        ast::Pattern::SpaceAfter(sub_pattern, _) => *sub_pattern == inner,
        ast::Pattern::Nested(sub_pattern) => *sub_pattern == inner,
        _ => false,
    }
}

/// Spaces, comments and parentheses around a pattern don't matter.
pub proof fn surroundings_do_not_matter(
    outer: ast::Pattern,
    inner: ast::Pattern,
    ctx: CanContext,
    region: Region,
    state: CanState,
    expected: PExpected<Type>,
    typing: TypingState,
)
    requires
        surrounds(outer, inner),
    ensures
        can_be_canonicalized(outer, ctx.pattern_type) == can_be_canonicalized(
            inner,
            ctx.pattern_type,
        ),
        canonical(ctx, outer, region, state) == canonical(ctx, inner, region, state),
        can_be_constrained(outer) == can_be_constrained(inner),
        constrained(ctx.prefix, outer, region, expected, typing) == constrained(
            ctx.prefix,
            inner,
            region,
            expected,
            typing,
        ),
        has_known_idents(outer) == has_known_idents(inner),
        pattern_idents(outer) == pattern_idents(inner),
        introduced(ctx.prefix, outer, region) == introduced(ctx.prefix, inner, region),
{
    assert(pattern_idents(outer) =~= pattern_idents(inner));
}

/// What becomes of a pattern that is not supported where it stands.
pub open spec fn is_rejected(
    ctx: CanContext,
    pattern: ast::Pattern,
    region: Region,
    state: CanState,
) -> bool {
    canonical(ctx, pattern, region, state) == (
        PatternView::UnsupportedPattern(region),
        CanState {
            problems: state.problems.push(
                ProblemView::UnsupportedPattern(ctx.pattern_type, region),
            ),
            ..state
        },
    )
}

/// Case branches can pattern match on number literals, but assignments, definitions
/// and function args can't.
pub proof fn number_literals_are_for_case_branches(
    ctx: CanContext,
    pattern: ast::Pattern,
    region: Region,
    state: CanState,
)
    requires
        pattern is IntLiteral || pattern is NonBase10Literal || pattern is FloatLiteral,
        can_be_canonicalized(pattern, ctx.pattern_type),
    ensures
        ctx.pattern_type != PatternType::CaseBranch ==> is_rejected(ctx, pattern, region, state),
        ctx.pattern_type == PatternType::CaseBranch ==> canonical(ctx, pattern, region, state) == (
            match pattern {
                ast::Pattern::IntLiteral(text) => PatternView::IntLiteral(
                    literal_value(text@, 10)->0,
                ),
                ast::Pattern::NonBase10Literal { string, base, is_negative } =>
                    PatternView::IntLiteral(signed_literal(string@, base, is_negative)->0),
                ast::Pattern::FloatLiteral(text) => PatternView::FloatLiteral(text@),
                _ => PatternView::Underscore,
            },
            state,
        ),
{
}

/// Underscore is supported in function args and in case branches, but not in
/// assignments or definitions.
pub proof fn underscore_is_for_args_and_case_branches(
    ctx: CanContext,
    region: Region,
    state: CanState,
)
    ensures
        (match ctx.pattern_type {
            PatternType::FunctionArg | PatternType::CaseBranch => canonical(
                ctx,
                ast::Pattern::Underscore,
                region,
                state,
            ) == (PatternView::Underscore, state),
            PatternType::Assignment | PatternType::TopLevelDef => is_rejected(
                ctx,
                ast::Pattern::Underscore,
                region,
                state,
            ),
        }),
{
}

/// Whether a canonical pattern introduces a symbol.
pub open spec fn introduces_symbol(pattern: PatternView, symbol: Seq<char>) -> bool
    decreases pattern,
{
    match pattern {
        PatternView::Identifier(s) => s == symbol,
        PatternView::AppliedTag(_, _, args) => exists|i: int|
            0 <= i < args.len() && introduces_symbol((#[trigger] args[i]).value, symbol),
        PatternView::RecordDestructure(parts) => exists|i: int|
            0 <= i < parts.len() && (introduces_symbol((#[trigger] parts[i]).0.value, symbol) || (
            parts[i].1 matches Some(guard) && introduces_symbol(guard.value, symbol))),
        _ => false,
    }
}

/// Every symbol that the canonical form of a pattern introduces has a header, so that
/// the solver knows its type.
pub proof fn every_symbol_has_a_header(
    ctx: CanContext,
    pattern: ast::Pattern,
    region: Region,
    state: CanState,
    expected: PExpected<Type>,
    typing: TypingState,
    symbol: Seq<char>,
)
    requires
        can_be_canonicalized(pattern, ctx.pattern_type),
        can_be_constrained(pattern),
        introduces_symbol(canonical(ctx, pattern, region, state).0, symbol),
    ensures
        constrained(ctx.prefix, pattern, region, expected, typing).headers.contains_key(symbol),
    decreases pattern,
{
    match pattern {
        ast::Pattern::SpaceBefore(inner, _) => every_symbol_has_a_header(
            ctx,
            *inner,
            region,
            state,
            expected,
            typing,
            symbol,
        ),
        ast::Pattern::SpaceAfter(inner, _) => every_symbol_has_a_header(
            ctx,
            *inner,
            region,
            state,
            expected,
            typing,
            symbol,
        ),
        ast::Pattern::Nested(inner) => every_symbol_has_a_header(
            ctx,
            *inner,
            region,
            state,
            expected,
            typing,
            symbol,
        ),
        ast::Pattern::RecordDestructure(fields) => {
            let parts = canonical_fields(ctx, fields@, region, state).0;
            let i = choose|i: int|
                0 <= i < parts.len() && (introduces_symbol(
                    (#[trigger] parts[i]).0.value,
                    symbol,
                ) || (parts[i].1 matches Some(guard) && introduces_symbol(guard.value, symbol)));
            field_symbol_has_a_header(
                ctx,
                fields@,
                region,
                state,
                typing.counter,
                typing.headers,
                symbol,
                i,
            );
        },
        _ => {},
    }
}

proof fn field_symbol_has_a_header(
    ctx: CanContext,
    fields: Seq<Located<ast::Pattern>>,
    region: Region,
    state: CanState,
    counter: u32,
    headers: Map<Seq<char>, Located<Type>>,
    symbol: Seq<char>,
    i: int,
)
    requires
        forall|j: int| 0 <= j < fields.len() ==> (#[trigger] fields[j]).value is Identifier,
        ({
            let parts = canonical_fields(ctx, fields, region, state).0;
            0 <= i < parts.len() && (introduces_symbol(parts[i].0.value, symbol) || (
            parts[i].1 matches Some(guard) && introduces_symbol(guard.value, symbol)))
        }),
    ensures
        field_headers(ctx.prefix, fields, counter, headers).contains_key(symbol),
    decreases fields.len(),
{
    if fields.len() > 0 {
        let (parts, before) = canonical_fields(ctx, fields.drop_last(), region, state);
        if i < parts.len() {
            field_symbol_has_a_header(
                ctx,
                fields.drop_last(),
                region,
                state,
                counter,
                headers,
                symbol,
                i,
            );
        } else {
            let part = canonical(ctx, fields.last().value, region, before).0;
            assert(canonical_fields(ctx, fields, region, state).0.last() == (
                Located { region, value: part },
                None::<Located<PatternView>>,
            ));
            assert(fields[fields.len() - 1].value is Identifier);
        }
    }
}

/// Adding the constraints of a pattern takes away no header, and adds one demand
/// at most behind those there were.
pub proof fn constraints_are_only_added(
    prefix: Seq<char>,
    pattern: ast::Pattern,
    region: Region,
    expected: PExpected<Type>,
    typing: TypingState,
)
    requires
        can_be_constrained(pattern),
    ensures
        ({
            let after = constrained(prefix, pattern, region, expected, typing);
            &&& forall|symbol: Seq<char>| #[trigger]
                typing.headers.contains_key(symbol) ==> after.headers.contains_key(symbol)
            &&& typing.demands.is_prefix_of(after.demands)
            &&& after.demands.len() <= typing.demands.len() + 1
            &&& typing.vars.is_prefix_of(after.vars)
        }),
    decreases pattern,
{
    match pattern {
        ast::Pattern::SpaceBefore(inner, _) => constraints_are_only_added(
            prefix,
            *inner,
            region,
            expected,
            typing,
        ),
        ast::Pattern::SpaceAfter(inner, _) => constraints_are_only_added(
            prefix,
            *inner,
            region,
            expected,
            typing,
        ),
        ast::Pattern::Nested(inner) => constraints_are_only_added(
            prefix,
            *inner,
            region,
            expected,
            typing,
        ),
        ast::Pattern::RecordDestructure(fields) => {
            fields_keep_headers(prefix, fields@, typing.counter, typing.headers);
        },
        _ => {},
    }
}

proof fn fields_keep_headers(
    prefix: Seq<char>,
    fields: Seq<Located<ast::Pattern>>,
    counter: u32,
    headers: Map<Seq<char>, Located<Type>>,
)
    ensures
        forall|symbol: Seq<char>| #[trigger]
            headers.contains_key(symbol) ==> field_headers(
                prefix,
                fields,
                counter,
                headers,
            ).contains_key(symbol),
    decreases fields.len(),
{
    if fields.len() > 0 {
        fields_keep_headers(prefix, fields.drop_last(), counter, headers);
    }
}

/// The type of a record and the headers of its fields agree: where a field has some
/// variable for its type, the field's name stands for a value of that type.
pub proof fn record_type_agrees_with_headers(
    prefix: Seq<char>,
    fields: Seq<Located<ast::Pattern>>,
    counter: u32,
    headers: Map<Seq<char>, Located<Type>>,
    name: Seq<char>,
)
    requires
        field_types(fields, counter).contains_key(name),
    ensures
        ({
            let after = field_headers(prefix, fields, counter, headers);
            let symbol = prefixed_symbol(prefix, name);
            after.contains_key(symbol) && after[symbol].value == field_types(fields, counter)[name]
        }),
    decreases fields.len(),
{
    if fields.len() > 0 {
        let last = fields.last().value->Identifier_0@;
        if name != last {
            assert(prefixed_symbol(prefix, name) != prefixed_symbol(prefix, last)) by {
                let left = prefixed_symbol(prefix, name);
                let right = prefixed_symbol(prefix, last);
                let len = prefix.len() as int;
                assert(left.skip(len) =~= name);
                assert(right.skip(len) =~= last);
            }
            record_type_agrees_with_headers(prefix, fields.drop_last(), counter, headers, name);
        }
    }
}

/// Each field of a record gets a variable that no other field of it has, nor the
/// record itself, as long as there are variables left.
pub proof fn field_variables_differ(counter: u32, i: int, j: int)
    requires
        0 <= i < j < 0xffff_ffff,
    ensures
        field_variable(counter, i) != field_variable(counter, j),
        field_variable(counter, i) != Variable(counter),
{
}

/// Whether a name stands as that of a record field somewhere in a pattern.
pub open spec fn has_field_name(pattern: ast::Pattern, name: Seq<char>) -> bool
    decreases pattern,
{
    match pattern {
        ast::Pattern::RecordDestructure(fields) => exists|i: int|
            0 <= i < fields@.len() && has_field_name((#[trigger] fields@[i]).value, name),
        ast::Pattern::RecordField(n, guard) => n@ == name || has_field_name(guard.value, name),
        ast::Pattern::SpaceBefore(inner, _) => has_field_name(*inner, name),
        ast::Pattern::SpaceAfter(inner, _) => has_field_name(*inner, name),
        ast::Pattern::Nested(inner) => has_field_name(*inner, name),
        _ => false,
    }
}

/// Whether an identifier is among the listed ones.
pub open spec fn lists(items: Seq<IdentItem>, ident: IdentName) -> bool {
    exists|i: int| 0 <= i < items.len() && (#[trigger] items[i]).0 == ident
}

proof fn lists_of_both(
    first: Seq<IdentItem>,
    second: Seq<IdentItem>,
    ident: IdentName,
)
    ensures
        lists(first + second, ident) == (lists(first, ident) || lists(second, ident)),
{
    let both = first + second;
    if lists(first, ident) {
        let i = choose|i: int| 0 <= i < first.len() && (#[trigger] first[i]).0 == ident;
        assert(both[i].0 == ident);
    }
    if lists(second, ident) {
        let i = choose|i: int| 0 <= i < second.len() && (#[trigger] second[i]).0 == ident;
        assert(both[first.len() + i].0 == ident);
    }
    if lists(both, ident) {
        let i = choose|i: int| 0 <= i < both.len() && (#[trigger] both[i]).0 == ident;
        if i < first.len() {
            assert(first[i].0 == ident);
        } else {
            assert(second[i - first.len()].0 == ident);
        }
    }
}

/// The names that are listed for a pattern are those of the identifiers and of the
/// record fields in it, and no others.
pub proof fn listed_names_are_identifiers_and_fields(
    prefix: Seq<char>,
    pattern: ast::Pattern,
    region: Region,
    name: Seq<char>,
)
    ensures
        lists(introduced(prefix, pattern, region), (None, name)) == (has_identifier(pattern, name)
            || has_field_name(pattern, name)),
    decreases pattern,
{
    let ident: IdentName = (None, name);
    match pattern {
        ast::Pattern::Identifier(_) => {
            let items = introduced(prefix, pattern, region);
            assert(items[0].0 == ident <==> has_identifier(pattern, name));
        },
        ast::Pattern::RecordDestructure(fields) => {
            listed_names_of_all(prefix, fields@, name);
        },
        ast::Pattern::RecordField(_, guard) => {
            let own = introduced(prefix, pattern, region).take(1);
            let rest = introduced(prefix, guard.value, guard.region);
            listed_names_are_identifiers_and_fields(prefix, guard.value, guard.region, name);
            assert(introduced(prefix, pattern, region) =~= own + rest);
            lists_of_both(own, rest, ident);
            assert(own[0].0 == ident <==> pattern->RecordField_0@ == name);
        },
        ast::Pattern::SpaceBefore(inner, _) => listed_names_are_identifiers_and_fields(
            prefix,
            *inner,
            region,
            name,
        ),
        ast::Pattern::SpaceAfter(inner, _) => listed_names_are_identifiers_and_fields(
            prefix,
            *inner,
            region,
            name,
        ),
        ast::Pattern::Nested(inner) => listed_names_are_identifiers_and_fields(
            prefix,
            *inner,
            region,
            name,
        ),
        _ => {},
    }
}

/// The names that are listed for some patterns are those of the identifiers and of the
/// record fields in one of them.
pub proof fn listed_names_of_all(
    prefix: Seq<char>,
    patterns: Seq<Located<ast::Pattern>>,
    name: Seq<char>,
)
    ensures
        lists(all_introduced(prefix, patterns), (None, name)) == (exists|i: int|
            0 <= i < patterns.len() && (has_identifier((#[trigger] patterns[i]).value, name)
                || has_field_name(patterns[i].value, name))),
    decreases patterns,
{
    if patterns.len() > 0 {
        let rest = patterns.drop_last();
        let last = patterns.last();
        listed_names_of_all(prefix, rest, name);
        listed_names_are_identifiers_and_fields(prefix, last.value, last.region, name);
        lists_of_both(
            all_introduced(prefix, rest),
            introduced(prefix, last.value, last.region),
            (None, name),
        );
        assert(forall|i: int| 0 <= i < rest.len() ==> #[trigger] rest[i] == patterns[i]);
        assert(patterns[patterns.len() - 1] == last);
        if lists(all_introduced(prefix, rest), (None, name)) {
            let i = choose|i: int|
                0 <= i < rest.len() && (has_identifier((#[trigger] rest[i]).value, name)
                    || has_field_name(rest[i].value, name));
            assert(patterns[i] == rest[i]);
        }
        if exists|i: int|
            0 <= i < patterns.len() && (has_identifier((#[trigger] patterns[i]).value, name)
                || has_field_name(patterns[i].value, name)) {
            let i = choose|i: int|
                0 <= i < patterns.len() && (has_identifier((#[trigger] patterns[i]).value, name)
                    || has_field_name(patterns[i].value, name));
            if i < rest.len() {
                assert(rest[i] == patterns[i]);
            }
        }
    }
}

/// Whatever is listed is unqualified, and goes with the symbol of its name.
pub proof fn listed_names_have_their_symbols(
    prefix: Seq<char>,
    pattern: ast::Pattern,
    region: Region,
)
    ensures
        forall|i: int|
            0 <= i < introduced(prefix, pattern, region).len() ==> {
                let item = #[trigger] introduced(prefix, pattern, region)[i];
                item.0.0 is None && item.1.0 == prefixed_symbol(prefix, item.0.1)
            },
    decreases pattern,
{
    match pattern {
        ast::Pattern::RecordDestructure(fields) => {
            all_listed_names_have_their_symbols(prefix, fields@);
        },
        ast::Pattern::RecordField(_, guard) => {
            listed_names_have_their_symbols(prefix, guard.value, guard.region);
            let rest = introduced(prefix, guard.value, guard.region);
            let items = introduced(prefix, pattern, region);
            assert forall|i: int| 0 <= i < items.len() implies (#[trigger] items[i]).0.0 is None
                && items[i].1.0 == prefixed_symbol(prefix, items[i].0.1) by {
                if i > 0 {
                    assert(items[i] == rest[i - 1]);
                }
            }
        },
        ast::Pattern::SpaceBefore(inner, _) => listed_names_have_their_symbols(
            prefix,
            *inner,
            region,
        ),
        ast::Pattern::SpaceAfter(inner, _) => listed_names_have_their_symbols(
            prefix,
            *inner,
            region,
        ),
        ast::Pattern::Nested(inner) => listed_names_have_their_symbols(prefix, *inner, region),
        _ => {},
    }
}

/// Whatever is listed for some patterns is unqualified, and goes with the symbol of its name.
pub proof fn all_listed_names_have_their_symbols(
    prefix: Seq<char>,
    patterns: Seq<Located<ast::Pattern>>,
)
    ensures
        forall|i: int|
            0 <= i < all_introduced(prefix, patterns).len() ==> {
                let item = #[trigger] all_introduced(prefix, patterns)[i];
                item.0.0 is None && item.1.0 == prefixed_symbol(prefix, item.0.1)
            },
    decreases patterns,
{
    if patterns.len() > 0 {
        let first = all_introduced(prefix, patterns.drop_last());
        let second = introduced(prefix, patterns.last().value, patterns.last().region);
        let items = all_introduced(prefix, patterns);
        all_listed_names_have_their_symbols(prefix, patterns.drop_last());
        listed_names_have_their_symbols(prefix, patterns.last().value, patterns.last().region);
        assert forall|i: int| 0 <= i < items.len() implies (#[trigger] items[i]).0.0 is None
            && items[i].1.0 == prefixed_symbol(prefix, items[i].0.1) by {
            if i < first.len() {
                assert(items[i] == first[i]);
            } else {
                assert(items[i] == second[i - first.len()]);
            }
        }
    }
}

/// Removing the identifiers of a pattern leaves everything else in scope as it was, all
/// qualified identifiers among it, and doing so again changes nothing.
pub proof fn removal_leaves_the_rest(pattern: ast::Pattern, idents: IdentEntries)
    ensures
        ({
            let after = idents.remove_keys(pattern_idents(pattern));
            &&& forall|ident: IdentName|
                ident.0 is Some || !has_identifier(pattern, ident.1) ==> (
                #[trigger] after.contains_key(ident) == idents.contains_key(ident) && (
                idents.contains_key(ident) ==> after[ident] == idents[ident]))
            &&& forall|name: Seq<char>|
                has_identifier(pattern, name) ==> !#[trigger] after.contains_key((None, name))
            &&& after.remove_keys(pattern_idents(pattern)) == after
        }),
{
    let after = idents.remove_keys(pattern_idents(pattern));
    assert(after.remove_keys(pattern_idents(pattern)) =~= after);
}

/// A scope with some more identifiers, the later ones in place of the earlier ones.
pub open spec fn with_all(
    idents: IdentEntries,
    items: Seq<IdentItem>,
) -> IdentEntries
    decreases items.len(),
{
    if items.len() == 0 {
        idents
    } else {
        with_all(idents, items.drop_last()).insert(items.last().0, items.last().1)
    }
}

proof fn with_all_adds_what_is_listed(
    idents: IdentEntries,
    items: Seq<IdentItem>,
    ident: IdentName,
)
    ensures
        with_all(idents, items).contains_key(ident) == (idents.contains_key(ident) || lists(
            items,
            ident,
        )),
        !lists(items, ident) ==> with_all(idents, items)[ident] == idents[ident],
    decreases items.len(),
{
    if items.len() > 0 {
        with_all_adds_what_is_listed(idents, items.drop_last(), ident);
        lists_of_both(items.drop_last(), seq![items.last()], ident);
        assert(items =~= items.drop_last() + seq![items.last()]);
        assert(seq![items.last()][0].0 == ident <==> lists(seq![items.last()], ident));
    }
}

/// Removing the identifiers of a pattern undoes bringing into scope the names that are
/// listed for it, where those are new and none of them is that of a record field.
pub proof fn removal_undoes_introduction(
    prefix: Seq<char>,
    pattern: ast::Pattern,
    region: Region,
    idents: IdentEntries,
)
    requires
        forall|name: Seq<char>| !#[trigger] has_field_name(pattern, name),
        forall|name: Seq<char>| #[trigger]
            has_identifier(pattern, name) ==> !idents.contains_key((None, name)),
    ensures
        with_all(idents, introduced(prefix, pattern, region)).remove_keys(pattern_idents(pattern))
            == idents,
{
    let items = introduced(prefix, pattern, region);
    let after = with_all(idents, items).remove_keys(pattern_idents(pattern));
    listed_names_have_their_symbols(prefix, pattern, region);
    assert forall|ident: IdentName| #[trigger]
        after.dom().contains(ident) == idents.dom().contains(ident) && (idents.dom().contains(ident)
            ==> after[ident] == idents[ident]) by {
        with_all_adds_what_is_listed(idents, items, ident);
        if ident.0 is None {
            listed_names_are_identifiers_and_fields(prefix, pattern, region, ident.1);
            assert(ident == (None::<Seq<char>>, ident.1));
            assert(!has_field_name(pattern, ident.1));
        } else {
            assert(!lists(items, ident));
        }
    }
    assert(after =~= idents);
}

} // verus!
