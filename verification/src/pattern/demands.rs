//! What each form of pattern demands of types.

use super::constrain::{
    can_be_constrained, constrained, field_headers, field_types, field_variable, typing_of,
    PatternState, TypingState,
};
use super::laws::record_type_agrees_with_headers;
use crate::ast;
use crate::region::{Located, Region};
use crate::subs::{VarStore, Variable};
use crate::symbol::{prefixed_symbol, symbols_differ_as_names_do};
use crate::types::{Constraint, ConstraintView, PExpected, PatternCategory, Type, TypeView};
use vstd::prelude::*;

verus! {

/// Whether a pattern is an identifier of the given name.
pub open spec fn is_named(pattern: ast::Pattern, name: Seq<char>) -> bool {
    pattern matches ast::Pattern::Identifier(n) && n@ == name
}

/// One state differs from another one in that there is one more demand, the given one,
/// and in nothing else.
pub open spec fn only_demands(
    before: TypingState,
    after: TypingState,
    demand: ConstraintView,
) -> bool {
    &&& after.demands.len() == before.demands.len() + 1
    &&& after.demands.drop_last() == before.demands
    &&& after.demands.last() == demand
    &&& after.headers == before.headers
    &&& after.vars == before.vars
    &&& after.counter == before.counter
}

/// The symbol of an identifier gets the type that is expected of the pattern, for whatever reason
/// it is expected, and nothing else changes.
pub proof fn identifier_has_the_expected_type(
    prefix: Seq<char>,
    name: &str,
    region: Region,
    expected: PExpected<Type>,
    typing: TypingState,
)
    ensures
        ({
            let after = constrained(
                prefix,
                ast::Pattern::Identifier(name),
                region,
                expected,
                typing,
            );
            let typ = match expected {
                PExpected::NoExpectation(typ) => typ,
                PExpected::ForReason(_, typ, _) => typ,
            };
            &&& after.headers == typing.headers.insert(
                prefix + name@,
                Located { region, value: typ },
            )
            &&& after.demands == typing.demands
            &&& after.vars == typing.vars
            &&& after.counter == typing.counter
        }),
{
}

/// A literal demands that what is expected of it is the type of such literals, whatever it reads
/// and whatever is expected. It demands nothing else.
pub proof fn literal_demands_its_type<'a>(
    prefix: Seq<char>,
    text: &'a str,
    base: ast::Base,
    is_negative: bool,
    lines: &'a [&'a str],
    region: Region,
    expected: PExpected<Type>,
    typing: TypingState,
)
    ensures
        only_demands(
            typing,
            constrained(prefix, ast::Pattern::IntLiteral(text), region, expected, typing),
            ConstraintView::Pattern(region, PatternCategory::Int, TypeView::Int, expected),
        ),
        only_demands(
            typing,
            constrained(
                prefix,
                (ast::Pattern::NonBase10Literal { string: text, base, is_negative }),
                region,
                expected,
                typing,
            ),
            ConstraintView::Pattern(region, PatternCategory::Int, TypeView::Int, expected),
        ),
        only_demands(
            typing,
            constrained(prefix, ast::Pattern::FloatLiteral(text), region, expected, typing),
            ConstraintView::Pattern(region, PatternCategory::Float, TypeView::Float, expected),
        ),
        only_demands(
            typing,
            constrained(prefix, ast::Pattern::StrLiteral(text), region, expected, typing),
            ConstraintView::Pattern(region, PatternCategory::Str, TypeView::Str, expected),
        ),
        only_demands(
            typing,
            constrained(prefix, ast::Pattern::BlockStrLiteral(lines), region, expected, typing),
            ConstraintView::Pattern(region, PatternCategory::Str, TypeView::Str, expected),
        ),
{
    assert forall|demand: ConstraintView| #[trigger]
        typing.demands.push(demand).drop_last() == typing.demands by {
        assert(typing.demands.push(demand).drop_last() =~= typing.demands);
    }
}

/// Neither underscore nor a malformed pattern nor a qualified identifier changes anything.
pub proof fn silent_patterns_demand_nothing(
    prefix: Seq<char>,
    text: &str,
    region: Region,
    expected: PExpected<Type>,
    typing: TypingState,
)
    ensures
        constrained(prefix, ast::Pattern::Underscore, region, expected, typing) == typing,
        constrained(prefix, ast::Pattern::Malformed(text), region, expected, typing) == typing,
        constrained(prefix, ast::Pattern::QualifiedIdentifier(text), region, expected, typing)
            == typing,
{
}

/// The type that a record demands has the names of its parts for fields, and no others. The rest of
/// the record has a variable of its own for its type. Whatever is expected of the record is
/// demanded of that type, and has no part in it.
pub proof fn record_demands_a_field_for_each_part<'a>(
    prefix: Seq<char>,
    fields: Vec<Located<ast::Pattern<'a>>>,
    region: Region,
    expected: PExpected<Type>,
    typing: TypingState,
)
    requires
        forall|i: int| 0 <= i < fields@.len() ==> (#[trigger] fields@[i]).value is Identifier,
    ensures
        ({
            let after = constrained(
                prefix,
                ast::Pattern::RecordDestructure(fields),
                region,
                expected,
                typing,
            );
            let demand = after.demands.last();
            let types = demand->Pattern_2->Record_0;
            &&& after.demands.len() == typing.demands.len() + 1
            &&& after.demands.drop_last() == typing.demands
            &&& demand == ConstraintView::Pattern(
                region,
                PatternCategory::Record,
                TypeView::Record(types, Type::Variable(Variable(typing.counter))),
                expected,
            )
            &&& forall|name: Seq<char>| #[trigger]
                types.contains_key(name) <==> exists|i: int|
                    0 <= i < fields@.len() && is_named((#[trigger] fields@[i]).value, name)
        }),
{
    let after = constrained(
        prefix,
        ast::Pattern::RecordDestructure(fields),
        region,
        expected,
        typing,
    );
    assert(after.demands.drop_last() =~= typing.demands);
    assert forall|name: Seq<char>| #[trigger]
        field_types(fields@, typing.counter).contains_key(name) <==> exists|i: int|
            0 <= i < fields@.len() && is_named((#[trigger] fields@[i]).value, name) by {
        fields_are_the_parts(fields@, typing.counter, name);
    }
}

proof fn fields_are_the_parts<'a>(
    fields: Seq<Located<ast::Pattern<'a>>>,
    counter: u32,
    name: Seq<char>,
)
    requires
        forall|i: int| 0 <= i < fields.len() ==> (#[trigger] fields[i]).value is Identifier,
    ensures
        field_types(fields, counter).contains_key(name) <==> exists|i: int|
            0 <= i < fields.len() && is_named((#[trigger] fields[i]).value, name),
    decreases fields.len(),
{
    if fields.len() > 0 {
        let rest = fields.drop_last();
        assert forall|i: int| 0 <= i < rest.len() implies (#[trigger] rest[i]).value is Identifier by {
            assert(rest[i] == fields[i]);
        }
        fields_are_the_parts(rest, counter, name);
        let last = fields[fields.len() - 1];
        assert(last.value is Identifier);
        if exists|i: int| 0 <= i < rest.len() && is_named((#[trigger] rest[i]).value, name) {
            let i = choose|i: int| 0 <= i < rest.len() && is_named((#[trigger] rest[i]).value, name);
            assert(is_named(fields[i].value, name));
        }
        if exists|i: int| 0 <= i < fields.len() && is_named((#[trigger] fields[i]).value, name) {
            let i = choose|i: int|
                0 <= i < fields.len() && is_named((#[trigger] fields[i]).value, name);
            if i < rest.len() {
                assert(is_named(rest[i].value, name));
            }
        }
        assert(is_named(last.value, name) <==> name == last.value->Identifier_0@);
    }
}

/// What a part of a record stands for has the type that the record's own type demands of that
/// field: the two are tied together.
pub proof fn part_is_tied_to_the_record<'a>(
    prefix: Seq<char>,
    fields: Vec<Located<ast::Pattern<'a>>>,
    i: int,
    name: &'a str,
    region: Region,
    expected: PExpected<Type>,
    typing: TypingState,
)
    requires
        forall|j: int| 0 <= j < fields@.len() ==> (#[trigger] fields@[j]).value is Identifier,
        0 <= i < fields@.len(),
        fields@[i].value == ast::Pattern::Identifier(name),
    ensures
        ({
            let after = constrained(
                prefix,
                ast::Pattern::RecordDestructure(fields),
                region,
                expected,
                typing,
            );
            let types = after.demands.last()->Pattern_2->Record_0;
            &&& types.contains_key(name@)
            &&& after.headers.contains_key(prefix + name@)
            &&& after.headers[prefix + name@].value == types[name@]
        }),
{
    fields_are_the_parts(fields@, typing.counter, name@);
    assert(is_named(fields@[i].value, name@));
    record_type_agrees_with_headers(prefix, fields@, typing.counter, typing.headers, name@);
}

/// A record takes one variable for itself, and then one for each of its parts, in order. Those of
/// the parts are recorded, also where two parts have one name.
pub proof fn record_takes_a_variable_for_each_part<'a>(
    prefix: Seq<char>,
    fields: Vec<Located<ast::Pattern<'a>>>,
    region: Region,
    expected: PExpected<Type>,
    typing: TypingState,
)
    ensures
        ({
            let after = constrained(
                prefix,
                ast::Pattern::RecordDestructure(fields),
                region,
                expected,
                typing,
            );
            &&& after.counter == (typing.counter + fields@.len() + 1) % 0x1_0000_0000
            &&& after.vars.len() == typing.vars.len() + fields@.len()
            &&& after.vars.take(typing.vars.len() as int) == typing.vars
            &&& forall|i: int|
                0 <= i < fields@.len() ==> (#[trigger] after.vars[typing.vars.len() + i]).0 == (
                typing.counter + i + 1) % 0x1_0000_0000
        }),
{
    let after = constrained(
        prefix,
        ast::Pattern::RecordDestructure(fields),
        region,
        expected,
        typing,
    );
    assert(after.vars.take(typing.vars.len() as int) =~= typing.vars);
}

/// The part at some place in a record takes the variable that comes so many places behind
/// the record's own. Where no later part has the same name, that variable is the type of
/// the part's name, which has the part's region.
pub proof fn part_takes_its_variable<'a>(
    prefix: Seq<char>,
    fields: Vec<Located<ast::Pattern<'a>>>,
    i: int,
    name: &'a str,
    region: Region,
    expected: PExpected<Type>,
    typing: TypingState,
)
    requires
        0 <= i < fields@.len(),
        fields@[i].value == ast::Pattern::Identifier(name),
        forall|j: int| 0 <= j < fields@.len() ==> (#[trigger] fields@[j]).value is Identifier,
        forall|j: int| i < j < fields@.len() ==> !is_named((#[trigger] fields@[j]).value, name@),
    ensures
        ({
            let after = constrained(
                prefix,
                ast::Pattern::RecordDestructure(fields),
                region,
                expected,
                typing,
            );
            let taken = Variable(((typing.counter + i + 1) % 0x1_0000_0000) as u32);
            &&& after.headers.contains_key(prefix + name@)
            &&& after.headers[prefix + name@] == (Located {
                region: fields@[i].region,
                value: Type::Variable(taken),
            })
        }),
{
    last_part_of_a_name_counts(prefix, fields@, i, name@, typing.counter, typing.headers);
}

proof fn last_part_of_a_name_counts<'a>(
    prefix: Seq<char>,
    fields: Seq<Located<ast::Pattern<'a>>>,
    i: int,
    name: Seq<char>,
    counter: u32,
    headers: Map<Seq<char>, Located<Type>>,
)
    requires
        0 <= i < fields.len(),
        is_named(fields[i].value, name),
        forall|j: int| 0 <= j < fields.len() ==> (#[trigger] fields[j]).value is Identifier,
        forall|j: int| i < j < fields.len() ==> !is_named((#[trigger] fields[j]).value, name),
    ensures
        ({
            let after = field_headers(prefix, fields, counter, headers);
            &&& after.contains_key(prefix + name)
            &&& after[prefix + name] == (Located {
                region: fields[i].region,
                value: Type::Variable(field_variable(counter, i)),
            })
        }),
    decreases fields.len(),
{
    let rest = fields.drop_last();
    let last = fields[fields.len() - 1];
    if i < rest.len() {
        assert(rest[i] == fields[i]);
        assert forall|j: int| 0 <= j < rest.len() implies (#[trigger] rest[j]).value is Identifier
            && (i < j ==> !is_named(rest[j].value, name)) by {
            assert(rest[j] == fields[j]);
        }
        last_part_of_a_name_counts(prefix, rest, i, name, counter, headers);
        assert(last.value is Identifier && !is_named(last.value, name));
        symbols_differ_as_names_do(prefix, name, last.value->Identifier_0@);
    }
}

/// A record leaves the headers of all symbols as they were but for those of its parts.
pub proof fn record_leaves_other_headers<'a>(
    prefix: Seq<char>,
    fields: Vec<Located<ast::Pattern<'a>>>,
    region: Region,
    expected: PExpected<Type>,
    typing: TypingState,
    symbol: Seq<char>,
)
    requires
        forall|j: int| 0 <= j < fields@.len() ==> (#[trigger] fields@[j]).value is Identifier,
        forall|j: int|
            0 <= j < fields@.len() ==> prefix + (#[trigger] fields@[j]).value->Identifier_0@
                != symbol,
    ensures
        ({
            let after = constrained(
                prefix,
                ast::Pattern::RecordDestructure(fields),
                region,
                expected,
                typing,
            );
            &&& after.headers.contains_key(symbol) == typing.headers.contains_key(symbol)
            &&& after.headers[symbol] == typing.headers[symbol]
        }),
{
    other_headers_stay(prefix, fields@, typing.counter, typing.headers, symbol);
}

proof fn other_headers_stay<'a>(
    prefix: Seq<char>,
    fields: Seq<Located<ast::Pattern<'a>>>,
    counter: u32,
    headers: Map<Seq<char>, Located<Type>>,
    symbol: Seq<char>,
)
    requires
        forall|j: int|
            0 <= j < fields.len() ==> prefix + (#[trigger] fields[j]).value->Identifier_0@
                != symbol,
    ensures
        field_headers(prefix, fields, counter, headers).contains_key(symbol)
            == headers.contains_key(symbol),
        field_headers(prefix, fields, counter, headers)[symbol] == headers[symbol],
    decreases fields.len(),
{
    if fields.len() > 0 {
        let rest = fields.drop_last();
        assert(forall|j: int| 0 <= j < rest.len() ==> #[trigger] rest[j] == fields[j]);
        other_headers_stay(prefix, rest, counter, headers, symbol);
        assert(fields[fields.len() - 1] == fields.last());
        assert(prefixed_symbol(prefix, fields.last().value->Identifier_0@) != symbol);
    }
}

/// Whatever is expected of a record, it demands the same type, takes the same variables and
/// gives the names in it the same types.
pub proof fn expectation_has_no_part_in_a_record<'a>(
    prefix: Seq<char>,
    fields: Vec<Located<ast::Pattern<'a>>>,
    region: Region,
    first: PExpected<Type>,
    second: PExpected<Type>,
    typing: TypingState,
)
    ensures
        ({
            let record = ast::Pattern::RecordDestructure(fields);
            let one = constrained(prefix, record, region, first, typing);
            let other = constrained(prefix, record, region, second, typing);
            &&& one.headers == other.headers
            &&& one.vars == other.vars
            &&& one.counter == other.counter
            &&& one.demands.drop_last() == other.demands.drop_last()
            &&& one.demands.last()->Pattern_2 == other.demands.last()->Pattern_2
            &&& one.demands.last()->Pattern_3 == first
            &&& other.demands.last()->Pattern_3 == second
        }),
{
    let record = ast::Pattern::RecordDestructure(fields);
    let one = constrained(prefix, record, region, first, typing);
    let other = constrained(prefix, record, region, second, typing);
    assert(one.demands.drop_last() =~= other.demands.drop_last());
}

/// Which patterns constraints can be added for.
pub proof fn constrainable_forms<'a>(
    text: &'a str,
    base: ast::Base,
    is_negative: bool,
    part: &'a Located<ast::Pattern<'a>>,
    args: &'a [Located<ast::Pattern<'a>>],
    lines: &'a [&'a str],
    fields: Vec<Located<ast::Pattern<'a>>>,
)
    ensures
        can_be_constrained(ast::Pattern::Underscore),
        can_be_constrained(ast::Pattern::Malformed(text)),
        can_be_constrained(ast::Pattern::QualifiedIdentifier(text)),
        can_be_constrained(ast::Pattern::Identifier(text)),
        can_be_constrained(ast::Pattern::IntLiteral(text)),
        can_be_constrained(
            (ast::Pattern::NonBase10Literal { string: text, base, is_negative }),
        ),
        can_be_constrained(ast::Pattern::FloatLiteral(text)),
        can_be_constrained(ast::Pattern::StrLiteral(text)),
        can_be_constrained(ast::Pattern::BlockStrLiteral(lines)),
        can_be_constrained(ast::Pattern::RecordDestructure(fields)) <==> (forall|i: int|
            0 <= i < fields@.len() ==> (#[trigger] fields@[i]).value is Identifier),
        !can_be_constrained(ast::Pattern::GlobalTag(text)),
        !can_be_constrained(ast::Pattern::PrivateTag(text)),
        !can_be_constrained(ast::Pattern::Apply(part, args)),
        !can_be_constrained(ast::Pattern::RecordField(text, part)),
        !can_be_constrained(ast::Pattern::EmptyRecordLiteral),
{
}

/// A type says what it is made of.
pub proof fn type_says_what_it_holds(typ: Type)
    ensures
        (match typ {
            Type::Int => typ@ == TypeView::Int,
            Type::Float => typ@ == TypeView::Float,
            Type::Str => typ@ == TypeView::Str,
            Type::Variable(variable) => typ@ == TypeView::Variable(variable),
            Type::Function(args, ret) => typ@ == TypeView::Function(args@, *ret),
            Type::Record(fields, ext) => typ@ == TypeView::Record(fields@, *ext),
        }),
{
}

/// The state of typing is what the collected types and the variable store hold.
pub proof fn typing_says_what_is_held(state: PatternState, var_store: VarStore)
    ensures
        ({
            let typing = typing_of(state, var_store);
            &&& typing.headers == state.headers@
            &&& typing.vars == state.vars@
            &&& typing.counter == var_store@
            &&& typing.demands.len() == state.constraints@.len()
            &&& forall|i: int|
                0 <= i < state.constraints@.len() ==> (
                state.constraints@[i] matches Constraint::Pattern(region, category, typ, expected)
                    && #[trigger] typing.demands[i] == ConstraintView::Pattern(
                    region,
                    category,
                    typ@,
                    expected,
                ))
        }),
{
}

} // verus!
