//! What a call of each operation hands back, and what it leaves behind.

use super::canonical::{
    canonicalize_pattern, canonicalize_pattern_help, canonicalize_pattern_identifier,
    is_canonicalizable,
};
use super::constrain::{add_constraints, is_constrainable, typing_of, PatternState};
use super::demands::{part_is_tied_to_the_record, record_demands_a_field_for_each_part};
use super::idents::{all_introduced, idents_are_known, idents_from_patterns, listed, remove_idents};
use super::names::{
    all_list_what_each_does, identifier_is_listed, identifier_is_removed,
    names_of_parts_are_removed,
};
use super::{symbol_names, symbols_from_pattern, Pattern, PatternType, PatternView};
use crate::ast;
use crate::collections::{vector_items, IdentMap};
use crate::env::{Env, ProblemView};
use crate::ident::{Ident, IdentName};
use crate::num::number_value;
use crate::region::{Located, Region};
use crate::scope::Scope;
use crate::subs::{VarStore, Variable};
use crate::symbol::Symbol;
use crate::types::{ConstraintView, PExpected, PatternCategory, Type, TypeView};
use im_rc::Vector;
use vstd::prelude::*;
use vstd::std_specs::iter::IteratorSpec;

verus! {

/// Canonicalizing an identifier, in whatever kind of pattern, gives its symbol and
/// brings it into scope if it hides nothing. Otherwise it gives a runtime error that tells what is
/// hidden, exactly that is reported, and the scope stays as it was.
pub proof fn call_on_an_identifier(
    env: &mut Env,
    state: &mut PatternState,
    var_store: &mut VarStore,
    scope: &mut Scope,
    pattern_type: PatternType,
    name: &str,
    region: Region,
    shadowable_idents: &mut IdentMap,
    result: Located<Pattern>,
)
    requires
        call_ensures(
            canonicalize_pattern_help,
            (
                env,
                state,
                var_store,
                scope,
                pattern_type,
                &ast::Pattern::Identifier(name),
                region,
                shadowable_idents,
            ),
            result,
        ),
    ensures
        result.region == region,
        final(state).vars@ == old(state).vars@,
        final(var_store)@ == old(var_store)@,
        ({
            let plain: IdentName = (None, name@);
            let own: IdentName = (Some(old(env).home@), name@);
            let symbol = old(scope).symbol_prefix@ + name@;
            let hides = old(shadowable_idents)@.contains_key(plain)
                || old(scope).idents@.contains_key(own);
            let hidden = if old(shadowable_idents)@.contains_key(plain) {
                Located { region: old(shadowable_idents)@[plain].1, value: plain }
            } else {
                Located { region: old(scope).idents@[own].1, value: own }
            };
            if hides {
                &&& result.value@ == PatternView::Shadowed(hidden)
                &&& final(env).reported() == old(env).reported().push(
                    ProblemView::Shadowing(hidden),
                )
                &&& final(scope).idents@ == old(scope).idents@
                &&& final(shadowable_idents)@ == old(shadowable_idents)@
            } else {
                &&& result.value@ == PatternView::Identifier(symbol)
                &&& final(env).reported() == old(env).reported()
                &&& final(scope).idents@ == old(scope).idents@.insert(own, (symbol, region))
                &&& final(shadowable_idents)@ == old(shadowable_idents)@.insert(
                    own,
                    (symbol, region),
                )
            }
        }),
{
}

/// A call on a string in a definition, in an assignment or in a function arg gives
/// an unsupported pattern, reports it, and changes nothing else.
pub proof fn call_on_a_string(
    env: &mut Env,
    state: &mut PatternState,
    var_store: &mut VarStore,
    scope: &mut Scope,
    pattern_type: PatternType,
    text: &str,
    region: Region,
    shadowable_idents: &mut IdentMap,
    result: Located<Pattern>,
)
    requires
        pattern_type != PatternType::CaseBranch,
        call_ensures(
            canonicalize_pattern_help,
            (
                env,
                state,
                var_store,
                scope,
                pattern_type,
                &ast::Pattern::StrLiteral(text),
                region,
                shadowable_idents,
            ),
            result,
        ),
    ensures
        result.region == region,
        result.value@ == PatternView::UnsupportedPattern(region),
        final(env).reported() == old(env).reported().push(
            ProblemView::UnsupportedPattern(pattern_type, region),
        ),
        final(scope).idents@ == old(scope).idents@,
        final(shadowable_idents)@ == old(shadowable_idents)@,
        final(state).vars@ == old(state).vars@,
        final(var_store)@ == old(var_store)@,
{
}

/// Calls on two literals in another base that differ in their sign only, in a case branch,
/// give the number that their digits read, and its opposite. The two add up to zero.
pub proof fn calls_on_opposite_literals(
    env: (&mut Env, &mut Env),
    state: (&mut PatternState, &mut PatternState),
    var_store: (&mut VarStore, &mut VarStore),
    scope: (&mut Scope, &mut Scope),
    text: &str,
    base: ast::Base,
    region: Region,
    shadowable_idents: (&mut IdentMap, &mut IdentMap),
    plain: Located<Pattern>,
    negative: Located<Pattern>,
)
    requires
        call_ensures(
            canonicalize_pattern_help,
            (
                env.0,
                state.0,
                var_store.0,
                scope.0,
                PatternType::CaseBranch,
                &(ast::Pattern::NonBase10Literal { string: text, base, is_negative: false }),
                region,
                shadowable_idents.0,
            ),
            plain,
        ),
        call_ensures(
            canonicalize_pattern_help,
            (
                env.1,
                state.1,
                var_store.1,
                scope.1,
                PatternType::CaseBranch,
                &(ast::Pattern::NonBase10Literal { string: text, base, is_negative: true }),
                region,
                shadowable_idents.1,
            ),
            negative,
        ),
        ({
            let number = match base {
                ast::Base::Hex => number_value(text@, 16),
                ast::Base::Octal => number_value(text@, 8),
                ast::Base::Binary => number_value(text@, 2),
            };
            number matches Some(n) && -i64::MAX <= n <= i64::MAX
        }),
    ensures
        plain.value matches Pattern::IntLiteral(first) && negative.value matches
            Pattern::IntLiteral(second) && first + second == 0 && first == (match base {
            ast::Base::Hex => number_value(text@, 16),
            ast::Base::Octal => number_value(text@, 8),
            ast::Base::Binary => number_value(text@, 2),
        })->0,
{
}

/// A call on a record of identifiers makes one more demand. The type in it has the names of the
/// parts for fields, and the type of each field is the one that the call leaves for that name's
/// symbol. The rest of the record has the store's next variable for its type.
pub proof fn call_on_a_record<'a>(
    fields: Vec<Located<ast::Pattern<'a>>>,
    scope: &Scope,
    region: Region,
    expected: PExpected<Type>,
    state: &mut PatternState,
    var_store: &mut VarStore,
)
    requires
        forall|i: int| 0 <= i < fields@.len() ==> (#[trigger] fields@[i]).value is Identifier,
        call_ensures(
            add_constraints,
            (
                &ast::Pattern::RecordDestructure(fields),
                scope,
                region,
                expected,
                state,
                var_store,
            ),
            (),
        ),
    ensures
        ({
            let demand = final(state).demands().last();
            let types = demand->Pattern_2->Record_0;
            let headers = final(state).headers@;
            &&& final(state).demands().len() == old(state).demands().len() + 1
            &&& final(state).demands().drop_last() == old(state).demands()
            &&& demand == ConstraintView::Pattern(
                region,
                PatternCategory::Record,
                TypeView::Record(types, Type::Variable(Variable(old(var_store)@))),
                expected,
            )
            &&& forall|name: Seq<char>| #[trigger]
                types.contains_key(name) ==> exists|i: int|
                    0 <= i < fields@.len() && (#[trigger] fields@[i]).value->Identifier_0@ == name
            &&& forall|i: int|
                0 <= i < fields@.len() ==> {
                    let name = (#[trigger] fields@[i]).value->Identifier_0@;
                    let symbol = scope.symbol_prefix@ + name;
                    &&& types.contains_key(name)
                    &&& headers.contains_key(symbol)
                    &&& headers[symbol].value == types[name]
                }
        }),
{
    let prefix = scope.prefix();
    let typing = typing_of(*old(state), *old(var_store));
    record_demands_a_field_for_each_part(prefix, fields, region, expected, typing);
    assert forall|i: int| 0 <= i < fields@.len() implies ({
        let types = final(state).demands().last()->Pattern_2->Record_0;
        let headers = final(state).headers@;
        let name = (#[trigger] fields@[i]).value->Identifier_0@;
        let symbol = scope.symbol_prefix@ + name;
        &&& types.contains_key(name)
        &&& headers.contains_key(symbol)
        &&& headers[symbol].value == types[name]
    }) by {
        let name = fields@[i].value->Identifier_0;
        assert(fields@[i].value == ast::Pattern::Identifier(name));
        part_is_tied_to_the_record(prefix, fields, i, name, region, expected, typing);
    }
}

/// Two calls on one record, from one state, leave the same headers and variables and
/// demand the same type, whatever is expected in each.
pub proof fn calls_with_two_expectations<'a>(
    fields: Vec<Located<ast::Pattern<'a>>>,
    scope: &Scope,
    region: Region,
    expected: (PExpected<Type>, PExpected<Type>),
    state: (&mut PatternState, &mut PatternState),
    var_store: (&mut VarStore, &mut VarStore),
)
    requires
        call_ensures(
            add_constraints,
            (
                &ast::Pattern::RecordDestructure(fields),
                scope,
                region,
                expected.0,
                state.0,
                var_store.0,
            ),
            (),
        ),
        call_ensures(
            add_constraints,
            (
                &ast::Pattern::RecordDestructure(fields),
                scope,
                region,
                expected.1,
                state.1,
                var_store.1,
            ),
            (),
        ),
        *state.0 == *state.1,
        *var_store.0 == *var_store.1,
    ensures
        final(state.0).headers@ == final(state.1).headers@,
        final(state.0).vars@ == final(state.1).vars@,
        final(var_store.0)@ == final(var_store.1)@,
        final(state.0).demands().last()->Pattern_2 == final(state.1).demands().last()->Pattern_2,
{
}

/// Canonicalizing a pattern is adding its constraints, and then finding its canonical form with
/// what that has left of the variables.
pub proof fn call_adds_constraints_first<'a>(
    env: (&mut Env, &mut Env),
    state: (&mut PatternState, &mut PatternState, &mut PatternState),
    var_store: (&mut VarStore, &mut VarStore, &mut VarStore),
    scope: (&mut Scope, &mut Scope),
    pattern_type: PatternType,
    pattern: &ast::Pattern<'a>,
    region: Region,
    shadowable_idents: (&mut IdentMap, &mut IdentMap),
    expected: PExpected<Type>,
    result: Located<Pattern>,
    found: Located<Pattern>,
)
    requires
        call_ensures(
            canonicalize_pattern,
            (
                env.0,
                state.0,
                var_store.0,
                scope.0,
                pattern_type,
                pattern,
                region,
                shadowable_idents.0,
                expected,
            ),
            result,
        ),
        call_ensures(
            add_constraints,
            (pattern, &*scope.0, region, expected, state.1, var_store.1),
            (),
        ),
        call_ensures(
            canonicalize_pattern_help,
            (
                env.1,
                state.2,
                var_store.2,
                scope.1,
                pattern_type,
                pattern,
                region,
                shadowable_idents.1,
            ),
            found,
        ),
        *env.0 == *env.1,
        *scope.0 == *scope.1,
        *shadowable_idents.0 == *shadowable_idents.1,
        *state.0 == *state.1,
        *var_store.0 == *var_store.1,
        *final(state.1) == *state.2,
        *final(var_store.1) == *var_store.2,
    ensures
        result@ == found@,
        final(env.0).reported() == final(env.1).reported(),
        final(scope.0).idents@ == final(scope.1).idents@,
        final(shadowable_idents.0)@ == final(shadowable_idents.1)@,
        final(state.0).headers@ == final(state.2).headers@,
        final(state.0).demands() == final(state.2).demands(),
        final(state.0).vars@ == final(state.2).vars@,
        final(var_store.0)@ == final(var_store.2)@,
{
}

/// Taking out an identifier leaves no entry under its name, and every other entry as it was.
pub proof fn call_takes_out_an_identifier(name: &str, idents: &mut IdentMap)
    requires
        call_ensures(remove_idents, (&ast::Pattern::Identifier(name), idents), ()),
    ensures
        !final(idents)@.contains_key((None, name@)),
        forall|other: IdentName|
            other != (None::<Seq<char>>, name@) ==> {
                &&& #[trigger] final(idents)@.contains_key(other) == old(idents)@.contains_key(
                    other,
                )
                &&& final(idents)@.contains_key(other) ==> final(idents)@[other]
                    == old(idents)@[other]
            },
{
    identifier_is_removed(name, old(idents)@);
}

/// Taking out a record leaves no entry under the name of any identifier among its parts.
pub proof fn call_takes_out_the_parts_of_a_record<'a>(
    fields: Vec<Located<ast::Pattern<'a>>>,
    i: int,
    name: &'a str,
    idents: &mut IdentMap,
)
    requires
        0 <= i < fields@.len(),
        fields@[i].value == ast::Pattern::Identifier(name),
        call_ensures(remove_idents, (&ast::Pattern::RecordDestructure(fields), idents), ()),
    ensures
        !final(idents)@.contains_key((None, name@)),
{
    names_of_parts_are_removed(fields, old(idents)@);
    assert(fields@[i].value is Identifier);
}

/// The list for some identifiers has one item for each, in order: the identifier, unqualified,
/// with the symbol of its name and the region it stands in.
pub proof fn call_lists_identifiers<'a, I: Iterator<Item = &'a Located<ast::Pattern<'a>>>>(
    loc_patterns: I,
    scope: &Scope,
    answer: Vector<(Ident, (Symbol, Region))>,
)
    requires
        call_ensures(idents_from_patterns::<I>, (loc_patterns, scope), answer),
        forall|i: int|
            0 <= i < loc_patterns.remaining().len() ==> (
            #[trigger] loc_patterns.remaining()[i]).value is Identifier,
    ensures
        vector_items(answer).len() == loc_patterns.remaining().len(),
        forall|i: int|
            0 <= i < loc_patterns.remaining().len() ==> {
                let pattern = loc_patterns.remaining()[i];
                let name = pattern.value->Identifier_0@;
                #[trigger] vector_items(answer)[i] == (
                    (None::<Seq<char>>, name),
                    (scope.symbol_prefix@ + name, pattern.region),
                )
            },
{
    let patterns = listed(loc_patterns.remaining());
    assert forall|i: int| 0 <= i < patterns.len() implies (
    #[trigger] patterns[i]).value is Identifier by {
        assert(patterns[i] == *loc_patterns.remaining()[i]);
    }
    all_identifiers_are_listed(scope.prefix(), patterns);
}

proof fn all_identifiers_are_listed<'a>(
    prefix: Seq<char>,
    patterns: Seq<Located<ast::Pattern<'a>>>,
)
    requires
        forall|i: int| 0 <= i < patterns.len() ==> (#[trigger] patterns[i]).value is Identifier,
    ensures
        all_introduced(prefix, patterns).len() == patterns.len(),
        forall|i: int|
            0 <= i < patterns.len() ==> {
                let name = patterns[i].value->Identifier_0@;
                #[trigger] all_introduced(prefix, patterns)[i] == (
                    (None::<Seq<char>>, name),
                    (prefix + name, patterns[i].region),
                )
            },
    decreases patterns.len(),
{
    if patterns.len() > 0 {
        let rest = patterns.drop_last();
        let last = patterns.last();
        assert(forall|i: int| 0 <= i < rest.len() ==> #[trigger] rest[i] == patterns[i]);
        all_identifiers_are_listed(prefix, rest);
        assert(last == patterns[patterns.len() - 1]);
        let name = last.value->Identifier_0;
        assert(last.value == ast::Pattern::Identifier(name));
        identifier_is_listed(prefix, name, last.region);
        assert(rest.push(last) =~= patterns);
        all_list_what_each_does(prefix, rest, last);
    } else {
        assert(patterns =~= Seq::empty());
        all_list_what_each_does(
            prefix,
            patterns,
            Located { region: arbitrary(), value: ast::Pattern::Underscore },
        );
    }
}

/// Where the tests on a pattern say yes, the operations that they are made for can be called, in
/// every state.
pub proof fn tests_tell_what_can_be_called<'a>(
    env: &mut Env,
    state: &mut PatternState,
    var_store: &mut VarStore,
    scope: &mut Scope,
    pattern_type: PatternType,
    pattern: &ast::Pattern<'a>,
    region: Region,
    idents: &mut IdentMap,
    expected: PExpected<Type>,
    canonicalizable: bool,
    constrainable: bool,
    known: bool,
)
    requires
        call_ensures(is_canonicalizable, (pattern, pattern_type), canonicalizable),
        call_ensures(is_constrainable, (pattern,), constrainable),
        call_ensures(idents_are_known, (pattern,), known),
    ensures
        constrainable ==> call_requires(
            add_constraints,
            (pattern, &*old(scope), region, expected, state, var_store),
        ),
        canonicalizable ==> call_requires(
            canonicalize_pattern_help,
            (env, state, var_store, scope, pattern_type, pattern, region, idents),
        ),
        canonicalizable && constrainable ==> call_requires(
            canonicalize_pattern,
            (env, state, var_store, scope, pattern_type, pattern, region, idents, expected),
        ),
        known ==> call_requires(remove_idents, (pattern, idents)),
{
}

/// The symbols of an identifier are its one symbol. Every other pattern has none, also
/// a record that has identifiers among its parts.
pub proof fn call_lists_symbols(pattern: &Pattern, symbols: Vec<Symbol>)
    requires
        call_ensures(symbols_from_pattern, (pattern,), symbols),
    ensures
        (match *pattern {
            Pattern::Identifier(symbol) => symbols@.len() == 1 && symbols@[0]@ == symbol@,
            _ => symbols@.len() == 0,
        }),
{
    assert(symbol_names(symbols@).len() == symbols@.len());
    if symbols@.len() > 0 {
        assert(symbol_names(symbols@)[0] == symbols@[0]@);
    }
}

/// Resolving a name twice, with what the first time has left, fails the second time, if
/// it did not fail the first time. What is hidden then is what the first time brought into scope.
pub proof fn second_call_on_a_name_fails(
    name: &str,
    env: (&mut Env, &mut Env),
    scope: (&mut Scope, &mut Scope),
    region: (Region, Region),
    shadowable_idents: (&mut IdentMap, &mut IdentMap),
    first: Result<Symbol, Located<Ident>>,
    second: Result<Symbol, Located<Ident>>,
)
    requires
        call_ensures(
            canonicalize_pattern_identifier,
            (name, env.0, scope.0, region.0, shadowable_idents.0),
            first,
        ),
        call_ensures(
            canonicalize_pattern_identifier,
            (name, env.1, scope.1, region.1, shadowable_idents.1),
            second,
        ),
        *final(env.0) == *env.1,
        *final(scope.0) == *scope.1,
        *final(shadowable_idents.0) == *shadowable_idents.1,
    ensures
        first matches Ok(symbol) ==> {
            &&& symbol@ == old(scope.0).symbol_prefix@ + name@
            &&& second matches Err(hidden) && hidden.region == region.0 && hidden.value@ == (
                Some(old(env.0).home@),
                name@,
            )
        },
        first matches Err(hidden) ==> (second matches Err(again) && again@ == hidden@),
        second is Err,
        final(env.1).reported() == old(env.1).reported().push(
            ProblemView::Shadowing(second->Err_0@),
        ),
{
}

} // verus!
