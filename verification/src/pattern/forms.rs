//! What becomes of each form of pattern.

use super::canonical::{
    can_be_canonicalized, canonical, canonical_fields, shadowed_ident, state_of, CanContext,
    CanState,
};
use super::idents::has_identifier;
use super::laws::names_cannot_be_reused;
use super::{named_symbols, Pattern, PatternType, PatternView};
use crate::ast;
use crate::collections::{IdentEntries, IdentMap};
use crate::env::{Env, ProblemView};
use crate::ident::IdentName;
use crate::num::number_value;
use crate::region::{Located, Region};
use crate::scope::Scope;
use crate::subs::{VarStore, Variable};
use vstd::prelude::*;

verus! {

/// One state differs from another one in what has been reported, and in nothing else:
/// there is one more problem, the given one.
pub open spec fn only_reports(before: CanState, after: CanState, problem: ProblemView) -> bool {
    &&& after.problems.len() == before.problems.len() + 1
    &&& after.problems.drop_last() == before.problems
    &&& after.problems.last() == problem
    &&& after.idents == before.idents
    &&& after.shadowable == before.shadowable
    &&& after.vars == before.vars
    &&& after.counter == before.counter
}

/// What a new name hides: a shadowable identifier that reads the same, or else what the
/// home module has under that name. It hides nothing if there is neither.
pub proof fn hidden_identifier(
    home: Seq<char>,
    name: Seq<char>,
    idents: IdentEntries,
    shadowable: IdentEntries,
)
    ensures
        shadowable.contains_key((None, name)) ==> shadowed_ident(home, name, idents, shadowable)
            == Some(Located { region: shadowable[(None, name)].1, value: (None::<Seq<char>>, name) }),
        !shadowable.contains_key((None, name)) && idents.contains_key((Some(home), name))
            ==> shadowed_ident(home, name, idents, shadowable) == Some(
            Located { region: idents[(Some(home), name)].1, value: (Some(home), name) },
        ),
        !shadowable.contains_key((None, name)) && !idents.contains_key((Some(home), name))
            ==> shadowed_ident(home, name, idents, shadowable) == None::<Located<IdentName>>,
{
}

/// Wherever an identifier stands, in whatever kind of pattern, it is resolved to the symbol of
/// its name and brought into scope if it hides nothing. If it hides another identifier,
/// it becomes a runtime error that tells which, and that is reported.
pub proof fn identifier_is_resolved_unless_it_shadows(
    ctx: CanContext,
    name: &str,
    region: Region,
    state: CanState,
)
    ensures
        ({
            let (found, after) = canonical(ctx, ast::Pattern::Identifier(name), region, state);
            let plain: IdentName = (None, name@);
            let own: IdentName = (Some(ctx.home), name@);
            if state.shadowable.contains_key(plain) {
                let hidden = Located { region: state.shadowable[plain].1, value: plain };
                &&& found == PatternView::Shadowed(hidden)
                &&& only_reports(state, after, ProblemView::Shadowing(hidden))
            } else if state.idents.contains_key(own) {
                let hidden = Located { region: state.idents[own].1, value: own };
                &&& found == PatternView::Shadowed(hidden)
                &&& only_reports(state, after, ProblemView::Shadowing(hidden))
            } else {
                &&& found == PatternView::Identifier(ctx.prefix + name@)
                &&& after.problems == state.problems
                &&& after.idents == state.idents.insert(own, (ctx.prefix + name@, region))
                &&& after.shadowable == state.shadowable.insert(own, (ctx.prefix + name@, region))
                &&& after.vars == state.vars
                &&& after.counter == state.counter
            }
        }),
{
    let (_, after) = canonical(ctx, ast::Pattern::Identifier(name), region, state);
    if after.problems.len() > state.problems.len() {
        assert(after.problems.drop_last() =~= state.problems);
    }
}

/// The same in terms of what a name hides.
pub proof fn identifier_shadows_what_it_hides(
    ctx: CanContext,
    name: &str,
    region: Region,
    state: CanState,
)
    ensures
        ({
            let (found, after) = canonical(ctx, ast::Pattern::Identifier(name), region, state);
            match shadowed_ident(ctx.home, name@, state.idents, state.shadowable) {
                Some(hidden) => {
                    &&& found == PatternView::Shadowed(hidden)
                    &&& only_reports(state, after, ProblemView::Shadowing(hidden))
                },
                None => found == PatternView::Identifier(ctx.prefix + name@),
            }
        }),
{
    identifier_is_resolved_unless_it_shadows(ctx, name, region, state);
}

/// A global tag is a name for itself, and a private one is a name for what its module has
/// under it. Either way the tag takes the store's next variable, which is recorded.
pub proof fn tag_is_named_and_takes_a_variable(
    ctx: CanContext,
    name: &str,
    region: Region,
    state: CanState,
)
    ensures
        ({
            let (found, after) = canonical(ctx, ast::Pattern::GlobalTag(name), region, state);
            &&& found == PatternView::Tag(Variable(state.counter), name@)
            &&& takes_one_variable(state, after)
        }),
        ({
            let (found, after) = canonical(ctx, ast::Pattern::PrivateTag(name), region, state);
            &&& found == PatternView::Tag(
                Variable(state.counter),
                ctx.home + seq!['.'] + name@,
            )
            &&& takes_one_variable(state, after)
        }),
{
    let (_, first) = canonical(ctx, ast::Pattern::GlobalTag(name), region, state);
    let (_, second) = canonical(ctx, ast::Pattern::PrivateTag(name), region, state);
    assert(first.vars.drop_last() =~= state.vars);
    assert(second.vars.drop_last() =~= state.vars);
}

/// One state differs from another one in that the store's next variable has been taken
/// and recorded, and in nothing else.
pub open spec fn takes_one_variable(before: CanState, after: CanState) -> bool {
    &&& after.vars.len() == before.vars.len() + 1
    &&& after.vars.drop_last() == before.vars
    &&& after.vars.last() == Variable(before.counter)
    &&& after.counter == (if before.counter == u32::MAX {
        0
    } else {
        before.counter + 1
    })
    &&& after.problems == before.problems
    &&& after.idents == before.idents
    &&& after.shadowable == before.shadowable
}

/// A string is rejected in a definition, in an assignment and in a function arg.
pub proof fn string_literal_is_rejected(
    ctx: CanContext,
    text: &str,
    region: Region,
    state: CanState,
)
    requires
        ctx.pattern_type != PatternType::CaseBranch,
    ensures
        ({
            let (found, after) = canonical(ctx, ast::Pattern::StrLiteral(text), region, state);
            &&& found == PatternView::UnsupportedPattern(region)
            &&& only_reports(
                state,
                after,
                ProblemView::UnsupportedPattern(ctx.pattern_type, region),
            )
        }),
{
    let (_, after) = canonical(ctx, ast::Pattern::StrLiteral(text), region, state);
    assert(after.problems.drop_last() =~= state.problems);
}

/// A number literal of any form is rejected in a definition, in an assignment and in a
/// function arg, whatever it reads.
pub proof fn number_literal_is_rejected(
    ctx: CanContext,
    text: &str,
    base: ast::Base,
    is_negative: bool,
    region: Region,
    state: CanState,
)
    requires
        ctx.pattern_type != PatternType::CaseBranch,
    ensures
        ({
            let problem = ProblemView::UnsupportedPattern(ctx.pattern_type, region);
            let decimal = canonical(ctx, ast::Pattern::IntLiteral(text), region, state);
            let other = canonical(
                ctx,
                (ast::Pattern::NonBase10Literal { string: text, base, is_negative }),
                region,
                state,
            );
            let float = canonical(ctx, ast::Pattern::FloatLiteral(text), region, state);
            &&& decimal.0 == PatternView::UnsupportedPattern(region)
            &&& only_reports(state, decimal.1, problem)
            &&& other.0 == PatternView::UnsupportedPattern(region)
            &&& only_reports(state, other.1, problem)
            &&& float.0 == PatternView::UnsupportedPattern(region)
            &&& only_reports(state, float.1, problem)
        }),
{
    let problem = ProblemView::UnsupportedPattern(ctx.pattern_type, region);
    assert(state.problems.push(problem).drop_last() =~= state.problems);
}

/// Underscore stays what it is in function args and in case branches, and is rejected
/// in definitions and in assignments.
pub proof fn underscore_stays_or_is_rejected(ctx: CanContext, region: Region, state: CanState)
    ensures
        ({
            let (found, after) = canonical(ctx, ast::Pattern::Underscore, region, state);
            if ctx.pattern_type == PatternType::FunctionArg || ctx.pattern_type
                == PatternType::CaseBranch {
                &&& found == PatternView::Underscore
                &&& after == state
            } else {
                &&& found == PatternView::UnsupportedPattern(region)
                &&& only_reports(
                    state,
                    after,
                    ProblemView::UnsupportedPattern(ctx.pattern_type, region),
                )
            }
        }),
{
    let problem = ProblemView::UnsupportedPattern(ctx.pattern_type, region);
    assert(state.problems.push(problem).drop_last() =~= state.problems);
}

/// A base 10 literal in a case branch stands for the number that it reads, and a float
/// literal keeps its text. Neither changes anything.
pub proof fn decimal_literal_stands_for_its_number(
    ctx: CanContext,
    text: &str,
    number: int,
    region: Region,
    state: CanState,
)
    requires
        ctx.pattern_type == PatternType::CaseBranch,
    ensures
        number_value(text@, 10) == Some(number) && i64::MIN <= number <= i64::MAX ==> ({
            let (found, after) = canonical(ctx, ast::Pattern::IntLiteral(text), region, state);
            &&& found is IntLiteral
            &&& found->IntLiteral_0 == number
            &&& after == state
        }),
        canonical(ctx, ast::Pattern::FloatLiteral(text), region, state) == (
            PatternView::FloatLiteral(text@),
            state,
        ),
{
}

/// A literal in another base in a case branch stands for the number that its digits read,
/// or for the opposite of that number if it is negative. So the two add up to zero.
pub proof fn other_literal_stands_for_its_number(
    ctx: CanContext,
    text: &str,
    base: ast::Base,
    radix: int,
    number: int,
    region: Region,
    state: CanState,
)
    requires
        ctx.pattern_type == PatternType::CaseBranch,
        radix == 16 <==> base == ast::Base::Hex,
        radix == 8 <==> base == ast::Base::Octal,
        radix == 2 <==> base == ast::Base::Binary,
        number_value(text@, radix) == Some(number),
        i64::MIN <= number <= i64::MAX,
    ensures
        ({
            let pattern = ast::Pattern::NonBase10Literal {
                string: text,
                base,
                is_negative: false,
            };
            let (found, after) = canonical(ctx, pattern, region, state);
            &&& can_be_canonicalized(pattern, ctx.pattern_type)
            &&& found is IntLiteral
            &&& found->IntLiteral_0 == number
            &&& after == state
        }),
        -number <= i64::MAX ==> ({
            let pattern = ast::Pattern::NonBase10Literal {
                string: text,
                base,
                is_negative: true,
            };
            let (found, after) = canonical(ctx, pattern, region, state);
            &&& can_be_canonicalized(pattern, ctx.pattern_type)
            &&& found is IntLiteral
            &&& found->IntLiteral_0 + number == 0
            &&& after == state
        }),
{
}

/// A record without parts changes nothing.
pub proof fn empty_record_changes_nothing<'a>(
    ctx: CanContext,
    fields: Vec<Located<ast::Pattern<'a>>>,
    region: Region,
    state: CanState,
)
    requires
        fields@.len() == 0,
    ensures
        ({
            let (found, after) = canonical(
                ctx,
                ast::Pattern::RecordDestructure(fields),
                region,
                state,
            );
            &&& found is RecordDestructure
            &&& found->RecordDestructure_0.len() == 0
            &&& after == state
        }),
{
    assert(canonical_fields(ctx, fields@, region, state).0.len() == 0);
}

/// A record with one part more is the record without it, and then that part, found where the
/// rest of the record has left off. The part gets the region of the record, and no guard.
pub proof fn one_more_part_comes_last<'a>(
    ctx: CanContext,
    shorter: Vec<Located<ast::Pattern<'a>>>,
    longer: Vec<Located<ast::Pattern<'a>>>,
    part: Located<ast::Pattern<'a>>,
    region: Region,
    state: CanState,
)
    requires
        longer@ == shorter@.push(part),
    ensures
        ({
            let (rest, between) = canonical(
                ctx,
                ast::Pattern::RecordDestructure(shorter),
                region,
                state,
            );
            let (value, last) = canonical(ctx, part.value, region, between);
            let (found, after) = canonical(
                ctx,
                ast::Pattern::RecordDestructure(longer),
                region,
                state,
            );
            &&& rest is RecordDestructure
            &&& found is RecordDestructure
            &&& found->RecordDestructure_0.len() == rest->RecordDestructure_0.len() + 1
            &&& found->RecordDestructure_0.drop_last() == rest->RecordDestructure_0
            &&& found->RecordDestructure_0.last().0.region == region
            &&& found->RecordDestructure_0.last().0.value == value
            &&& found->RecordDestructure_0.last().1 is None
            &&& after == last
        }),
{
    assert(longer@.drop_last() =~= shorter@);
    assert(longer@.last() == part);
    let (parts, between) = canonical_fields(ctx, shorter@, region, state);
    let value = canonical(ctx, part.value, region, between).0;
    let (found, _) = canonical_fields(ctx, longer@, region, state);
    assert(found == parts.push((Located { region, value }, None)));
    assert(found.drop_last() =~= parts);
}

/// A canonical record has a part for each part of the record, in its place. Each of them is
/// what that part is where the parts before it have left off.
pub proof fn each_part_is_found_in_its_place<'a>(
    ctx: CanContext,
    fields: Vec<Located<ast::Pattern<'a>>>,
    before: Vec<Located<ast::Pattern<'a>>>,
    i: int,
    region: Region,
    state: CanState,
)
    requires
        0 <= i < fields@.len(),
        before@ == fields@.take(i),
    ensures
        ({
            let found = canonical(ctx, ast::Pattern::RecordDestructure(fields), region, state).0;
            let between = canonical(
                ctx,
                ast::Pattern::RecordDestructure(before),
                region,
                state,
            ).1;
            &&& found is RecordDestructure
            &&& found->RecordDestructure_0.len() == fields@.len()
            &&& found->RecordDestructure_0[i] == (
                Located {
                    region,
                    value: canonical(ctx, fields@[i].value, region, between).0,
                },
                None::<Located<PatternView>>,
            )
        }),
{
    parts_are_found_in_place(ctx, fields@, i, region, state);
}

proof fn parts_are_found_in_place<'a>(
    ctx: CanContext,
    fields: Seq<Located<ast::Pattern<'a>>>,
    i: int,
    region: Region,
    state: CanState,
)
    requires
        0 <= i < fields.len(),
    ensures
        ({
            let parts = canonical_fields(ctx, fields, region, state).0;
            let between = canonical_fields(ctx, fields.take(i), region, state).1;
            &&& parts.len() == fields.len()
            &&& parts[i] == (
                Located { region, value: canonical(ctx, fields[i].value, region, between).0 },
                None::<Located<PatternView>>,
            )
        }),
    decreases fields.len(),
{
    let rest = fields.drop_last();
    if i < rest.len() {
        parts_are_found_in_place(ctx, rest, i, region, state);
        assert(rest.take(i) =~= fields.take(i));
    } else {
        assert(rest =~= fields.take(i));
        if rest.len() > 0 {
            parts_are_found_in_place(ctx, rest, 0, region, state);
        }
    }
}

/// A part of a record that is an identifier is resolved to the symbol of its name, unless it
/// hides another identifier, that of a part before it for one. Then it is a shadowed identifier,
/// in whatever kind of pattern it stands.
pub proof fn identifier_part_is_resolved_unless_it_shadows<'a>(
    ctx: CanContext,
    fields: Vec<Located<ast::Pattern<'a>>>,
    before: Vec<Located<ast::Pattern<'a>>>,
    i: int,
    name: &'a str,
    region: Region,
    state: CanState,
)
    requires
        0 <= i < fields@.len(),
        fields@[i].value == ast::Pattern::Identifier(name),
        before@ == fields@.take(i),
    ensures
        ({
            let found = canonical(ctx, ast::Pattern::RecordDestructure(fields), region, state).0;
            let between = canonical(
                ctx,
                ast::Pattern::RecordDestructure(before),
                region,
                state,
            ).1;
            let part = found->RecordDestructure_0[i].0.value;
            let plain: IdentName = (None, name@);
            let own: IdentName = (Some(ctx.home), name@);
            if between.shadowable.contains_key(plain) {
                part == PatternView::Shadowed(
                    Located { region: between.shadowable[plain].1, value: plain },
                )
            } else if between.idents.contains_key(own) {
                part == PatternView::Shadowed(
                    Located { region: between.idents[own].1, value: own },
                )
            } else {
                part == PatternView::Identifier(ctx.prefix + name@)
            }
        }),
{
    each_part_is_found_in_its_place(ctx, fields, before, i, region, state);
    let between = canonical(ctx, ast::Pattern::RecordDestructure(before), region, state).1;
    identifier_is_resolved_unless_it_shadows(ctx, name, region, between);
}

/// Of two parts of a record that are identifiers of one name, the later one is always a
/// shadowed identifier, and is reported.
pub proof fn second_part_of_one_name_is_shadowed<'a>(
    ctx: CanContext,
    fields: Vec<Located<ast::Pattern<'a>>>,
    before: Vec<Located<ast::Pattern<'a>>>,
    i: int,
    j: int,
    name: &'a str,
    region: Region,
    state: CanState,
)
    requires
        0 <= i < j < fields@.len(),
        fields@[i].value == ast::Pattern::Identifier(name),
        fields@[j].value == ast::Pattern::Identifier(name),
        before@ == fields@.take(j),
        can_be_canonicalized(ast::Pattern::RecordDestructure(fields), ctx.pattern_type),
    ensures
        ({
            let found = canonical(ctx, ast::Pattern::RecordDestructure(fields), region, state).0;
            let between = canonical(
                ctx,
                ast::Pattern::RecordDestructure(before),
                region,
                state,
            ).1;
            let (part, after) = canonical(ctx, fields@[j].value, region, between);
            &&& found->RecordDestructure_0[j].0.value == part
            &&& part is Shadowed
            &&& only_reports(between, after, ProblemView::Shadowing(part->Shadowed_0))
        }),
{
    each_part_is_found_in_its_place(ctx, fields, before, j, region, state);
    let record = ast::Pattern::RecordDestructure(before);
    assert forall|k: int| 0 <= k < before@.len() implies can_be_canonicalized(
        (#[trigger] before@[k]).value,
        ctx.pattern_type,
    ) by {
        assert(before@[k] == fields@[k]);
    }
    assert(before@[i] == fields@[i]);
    assert(has_identifier(before@[i].value, name@));
    assert(can_be_canonicalized(record, ctx.pattern_type));
    names_cannot_be_reused(ctx, record, region, state, name@);
    let between = canonical(ctx, record, region, state).1;
    identifier_shadows_what_it_hides(ctx, name, region, between);
}

/// Which patterns can be canonicalized.
pub proof fn canonicalizable_forms<'a>(
    text: &'a str,
    part: &'a Located<ast::Pattern<'a>>,
    args: &'a [Located<ast::Pattern<'a>>],
    lines: &'a [&'a str],
    fields: Vec<Located<ast::Pattern<'a>>>,
    pattern_type: PatternType,
)
    ensures
        can_be_canonicalized(ast::Pattern::Identifier(text), pattern_type),
        can_be_canonicalized(ast::Pattern::GlobalTag(text), pattern_type),
        can_be_canonicalized(ast::Pattern::PrivateTag(text), pattern_type),
        can_be_canonicalized(ast::Pattern::FloatLiteral(text), pattern_type),
        can_be_canonicalized(ast::Pattern::Underscore, pattern_type),
        can_be_canonicalized(ast::Pattern::StrLiteral(text), pattern_type) <==> pattern_type
            != PatternType::CaseBranch,
        can_be_canonicalized(ast::Pattern::IntLiteral(text), pattern_type) <==> (pattern_type
            != PatternType::CaseBranch || (number_value(text@, 10) matches Some(number)
            && i64::MIN <= number <= i64::MAX)),
        can_be_canonicalized(ast::Pattern::RecordDestructure(fields), pattern_type) <==> (
        forall|i: int|
            0 <= i < fields@.len() ==> can_be_canonicalized(
                (#[trigger] fields@[i]).value,
                pattern_type,
            )),
        !can_be_canonicalized(ast::Pattern::QualifiedIdentifier(text), pattern_type),
        !can_be_canonicalized(ast::Pattern::Apply(part, args), pattern_type),
        !can_be_canonicalized(ast::Pattern::RecordField(text, part), pattern_type),
        !can_be_canonicalized(ast::Pattern::BlockStrLiteral(lines), pattern_type),
        !can_be_canonicalized(ast::Pattern::EmptyRecordLiteral, pattern_type),
        !can_be_canonicalized(ast::Pattern::Malformed(text), pattern_type),
{
    reveal_with_fuel(can_be_canonicalized, 2);
    let record = ast::Pattern::RecordDestructure(fields);
    if can_be_canonicalized(record, pattern_type) {
        assert forall|i: int| 0 <= i < fields@.len() implies can_be_canonicalized(
            (#[trigger] fields@[i]).value,
            pattern_type,
        ) by {
            assert(record->RecordDestructure_0@[i] == fields@[i]);
        }
    }
}

/// Literals in another base can be canonicalized wherever they are rejected anyway, and in a
/// case branch if both their digits' number and the literal's own fit in an `i64`.
pub proof fn canonicalizable_other_literals(
    text: &str,
    base: ast::Base,
    radix: int,
    is_negative: bool,
    pattern_type: PatternType,
)
    requires
        radix == 16 <==> base == ast::Base::Hex,
        radix == 8 <==> base == ast::Base::Octal,
        radix == 2 <==> base == ast::Base::Binary,
    ensures
        can_be_canonicalized(
            (ast::Pattern::NonBase10Literal { string: text, base, is_negative }),
            pattern_type,
        ) <==> (pattern_type != PatternType::CaseBranch || (number_value(text@, radix) matches Some(
            number,
        ) && i64::MIN <= number <= i64::MAX && (is_negative ==> -number <= i64::MAX))),
{
}

/// What a canonical pattern says is what it is made of.
pub proof fn pattern_says_what_it_holds(pattern: Pattern)
    ensures
        (match pattern {
            Pattern::Identifier(symbol) => pattern@ == PatternView::Identifier(symbol@),
            Pattern::Tag(variable, symbol) => pattern@ == PatternView::Tag(variable, symbol@),
            Pattern::AppliedTag(variable, symbol, args) => {
                &&& pattern@ is AppliedTag
                &&& pattern@->AppliedTag_0 == variable
                &&& pattern@->AppliedTag_1 == symbol@
                &&& pattern@->AppliedTag_2.len() == args@.len()
                &&& forall|i: int|
                    0 <= i < args@.len() ==> #[trigger] pattern@->AppliedTag_2[i] == args@[i]@
            },
            Pattern::IntLiteral(value) => pattern@ == PatternView::IntLiteral(value),
            Pattern::FloatLiteral(text) => pattern@ == PatternView::FloatLiteral(text@),
            Pattern::ExactString(text) => pattern@ == PatternView::ExactString(text@),
            Pattern::RecordDestructure(fields) => {
                &&& pattern@ is RecordDestructure
                &&& pattern@->RecordDestructure_0.len() == fields@.len()
                &&& forall|i: int|
                    0 <= i < fields@.len() ==> (#[trigger] pattern@->RecordDestructure_0[i]).0
                        == fields@[i].0@ && match fields@[i].1 {
                        Some(guard) => pattern@->RecordDestructure_0[i].1 == Some(guard@),
                        None => pattern@->RecordDestructure_0[i].1 is None,
                    }
            },
            Pattern::EmptyRecordLiteral => pattern@ == PatternView::EmptyRecordLiteral,
            Pattern::Underscore => pattern@ == PatternView::Underscore,
            Pattern::Shadowed(ident) => pattern@ == PatternView::Shadowed(
                Located { region: ident.region, value: ident.value@ },
            ),
            Pattern::UnsupportedPattern(region) => pattern@ == PatternView::UnsupportedPattern(
                region,
            ),
        }),
{
}

/// The symbols of a canonical identifier are its own, and no other pattern has any.
pub proof fn only_identifiers_name_symbols(pattern: PatternView)
    ensures
        pattern matches PatternView::Identifier(symbol) ==> named_symbols(pattern) == seq![symbol],
        !(pattern is Identifier) ==> named_symbols(pattern).len() == 0,
{
}

/// The state of a canonicalization is what its parameters hold.
pub proof fn state_says_what_is_held(
    env: Env,
    vars: Seq<Variable>,
    var_store: VarStore,
    scope: Scope,
    shadowable: IdentMap,
)
    ensures
        ({
            let state = state_of(env, vars, var_store, scope, shadowable);
            &&& state.problems.len() == env.problems@.len()
            &&& forall|i: int|
                0 <= i < env.problems@.len() ==> #[trigger] state.problems[i] == env.problems@[i]@
            &&& state.idents == scope.idents@
            &&& state.shadowable == shadowable@
            &&& state.vars == vars
            &&& state.counter == var_store@
        }),
{
}

} // verus!
