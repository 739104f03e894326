use super::constrain::{
    add_constraints, can_be_constrained, constrained, typing_of, PatternState,
};
use super::{Pattern, PatternType, PatternView};
use crate::ast;
use crate::collections::{IdentEntries, IdentMap};
use crate::env::{Env, Problem, ProblemView};
use crate::ident::{Ident, IdentName};
use crate::num::{base_radix, finish_parsing_base, finish_parsing_int, literal_value};
use crate::region::{Located, Region};
use crate::scope::Scope;
use crate::subs::{advanced, VarStore, Variable};
use crate::symbol::{prefixed_symbol, private_tag_symbol, Symbol};
use crate::types::{PExpected, Type};
use vstd::prelude::*;

verus! {

/// The identifier that a new name would hide, with the region that introduced it.
///
/// This goes by the shadowable identifiers, and by the home module's own names in
/// scope. What is in scope under an unqualified name does not matter: when
/// `fibonacci = ...` is canonicalized, `fibonacci` is in scope so that it can refer
/// to itself, but it cannot shadow itself.
pub open spec fn shadowed_ident(
    home: Seq<char>,
    name: Seq<char>,
    idents: IdentEntries,
    shadowable: IdentEntries,
) -> Option<Located<IdentName>> {
    let unqualified: IdentName = (None, name);
    let qualified: IdentName = (Some(home), name);
    if shadowable.contains_key(unqualified) {
        Some(Located { region: shadowable[unqualified].1, value: unqualified })
    } else if idents.contains_key(qualified) {
        Some(Located { region: idents[qualified].1, value: qualified })
    } else {
        None
    }
}

/// Resolves a new name to its symbol, and brings it into scope, unless it would hide
/// an identifier: that is reported, and handed back.
pub fn canonicalize_pattern_identifier(
    name: &str,
    env: &mut Env,
    scope: &mut Scope,
    region: Region,
    shadowable_idents: &mut IdentMap,
) -> (result: Result<Symbol, Located<Ident>>)
    ensures
        (match shadowed_ident(old(env).home@, name@, old(scope).idents@, old(shadowable_idents)@) {
            Some(shadowed) => {
                &&& result matches Err(ident)
                &&& ident@ == shadowed
                &&& final(env).reported() == old(env).reported().push(
                    ProblemView::Shadowing(shadowed),
                )
                &&& final(scope).idents@ == old(scope).idents@
                &&& final(shadowable_idents)@ == old(shadowable_idents)@
            },
            None => {
                let symbol_name = prefixed_symbol(old(scope).prefix(), name@);
                &&& result matches Ok(symbol)
                &&& symbol@ == symbol_name
                &&& final(env).reported() == old(env).reported()
                &&& final(scope).idents@ == old(scope).idents@.insert(
                    (Some(old(env).home@), name@),
                    (symbol_name, region),
                )
                &&& final(shadowable_idents)@ == old(shadowable_idents)@.insert(
                    (Some(old(env).home@), name@),
                    (symbol_name, region),
                )
            },
        }),
        final(env).home == old(env).home,
        final(scope).symbol_prefix == old(scope).symbol_prefix,
{
    let lowercase_ident = Ident::Unqualified(name.to_owned());

    // We use shadowable_idents for this, and not scope, because for assignments
    // they are different. When canonicalizing a particular assignment, that new
    // ident is in scope (for recursion) but not shadowable.
    //
    // For example, when canonicalizing (fibonacci = ...), `fibonacci` should be in scope
    // so that it can refer to itself without getting a naming problem, but it should not
    // be in the collection of shadowable idents because you can't shadow yourself!
    if let Some(entry) = shadowable_idents.get(&lowercase_ident) {
        let shadowed_region = entry.1;

        // This is already in scope, meaning it's about to be shadowed.
        // Shadowing is not allowed!
        env.problem(Problem::Shadowing(Located::at(shadowed_region, lowercase_ident.clone())));

        return Err(Located::at(shadowed_region, lowercase_ident));
    }

    // Make sure we aren't shadowing something in the home module's scope.
    let qualified_ident = Ident::Qualified(env.home.clone(), lowercase_ident.name());

    if let Some(entry) = scope.idents.get(&qualified_ident) {
        let shadowed_region = entry.1;

        env.problem(Problem::Shadowing(Located::at(shadowed_region, qualified_ident.clone())));

        return Err(Located::at(shadowed_region, qualified_ident));
    }
    let symbol = scope.symbol(name);

    // Add this to both scope.idents *and* shadowable_idents.
    // The latter is relevant when recursively canonicalizing
    // tag application patterns, which can bring multiple
    // new idents into scope. For example, it's important that
    // we catch (Blah foo foo) -> ... as being an example of shadowing.
    scope.idents.insert(qualified_ident.clone(), (symbol.clone(), region));
    shadowable_idents.insert(qualified_ident, (symbol.clone(), region));

    Ok(symbol)
}

/// What the parts of a canonical record say.
pub open spec fn parts_of(fields: Seq<(Located<Pattern>, Option<Located<Pattern>>)>) -> Seq<
    (Located<PatternView>, Option<Located<PatternView>>),
> {
    fields.map_values(
        |field: (Located<Pattern>, Option<Located<Pattern>>)|
            (
                field.0@,
                match field.1 {
                    Some(guard) => Some(guard@),
                    None => None,
                },
            ),
    )
}

proof fn record_model(fields: Vec<(Located<Pattern>, Option<Located<Pattern>>)>)
    ensures
        Pattern::RecordDestructure(fields)@ == PatternView::RecordDestructure(parts_of(fields@)),
{
    let left = Pattern::RecordDestructure(fields).model()->RecordDestructure_0;
    let right = parts_of(fields@);
    assert forall|i: int| 0 <= i < left.len() implies left[i] == right[i] by {
        assert(fields@[i].0@.value == fields@[i].0.value.model());
    }
    assert(left =~= right);
}

/// What stays the same while one pattern is canonicalized.
pub struct CanContext {
    pub home: Seq<char>,
    pub prefix: Seq<char>,
    pub pattern_type: PatternType,
}

/// What canonicalizing a pattern changes.
#[verifier::ext_equal]
pub struct CanState {
    pub problems: Seq<ProblemView>,
    pub idents: IdentEntries,
    pub shadowable: IdentEntries,
    pub vars: Seq<Variable>,
    pub counter: u32,
}

/// The context in which a pattern is canonicalized.
pub open spec fn context_of(env: Env, scope: Scope, pattern_type: PatternType) -> CanContext {
    CanContext { home: env.home@, prefix: scope.prefix(), pattern_type }
}

/// The state that the parameters of a canonicalization stand for.
pub open spec fn state_of(
    env: Env,
    vars: Seq<Variable>,
    var_store: VarStore,
    scope: Scope,
    shadowable: IdentMap,
) -> CanState {
    CanState {
        problems: env.reported(),
        idents: scope.idents@,
        shadowable: shadowable@,
        vars,
        counter: var_store@,
    }
}

/// Whether a pattern can be canonicalized. Applied tags, record fields, qualified and
/// malformed identifiers, block strings and the empty record cannot, nor can a string
/// or a malformed integer in a case branch.
pub open spec fn can_be_canonicalized(
    pattern: ast::Pattern,
    pattern_type: PatternType,
) -> bool
    decreases pattern,
{
    match pattern {
        ast::Pattern::Identifier(_) => true,
        ast::Pattern::GlobalTag(_) => true,
        ast::Pattern::PrivateTag(_) => true,
        ast::Pattern::FloatLiteral(_) => true,
        ast::Pattern::Underscore => true,
        ast::Pattern::IntLiteral(text) => pattern_type == PatternType::CaseBranch
            ==> literal_value(text@, 10) is Some,
        ast::Pattern::NonBase10Literal { string, base, is_negative } => pattern_type
            == PatternType::CaseBranch ==> signed_literal(string@, base, is_negative) is Some,
        ast::Pattern::StrLiteral(_) => pattern_type != PatternType::CaseBranch,
        ast::Pattern::SpaceBefore(inner, _) => can_be_canonicalized(*inner, pattern_type),
        ast::Pattern::SpaceAfter(inner, _) => can_be_canonicalized(*inner, pattern_type),
        ast::Pattern::Nested(inner) => can_be_canonicalized(*inner, pattern_type),
        ast::Pattern::RecordDestructure(fields) => forall|i: int|
            0 <= i < fields@.len() ==> can_be_canonicalized(
                (#[trigger] fields@[i]).value,
                pattern_type,
            ),
        _ => false,
    }
}

/// The value of a literal whose sign stands apart from its digits.
pub open spec fn signed_literal(text: Seq<char>, base: ast::Base, is_negative: bool) -> Option<
    i64,
> {
    match literal_value(text, base_radix(base)) {
        Some(value) => if !is_negative {
            Some(value)
        } else if value > i64::MIN {
            Some((-value) as i64)
        } else {
            None
        },
        None => None,
    }
}

/// A pattern that cannot be used where it stands: the problem is reported, and the
/// pattern becomes a runtime error.
pub open spec fn unsupported(ctx: CanContext, region: Region, state: CanState) -> (
    PatternView,
    CanState,
) {
    (
        PatternView::UnsupportedPattern(region),
        CanState {
            problems: state.problems.push(
                ProblemView::UnsupportedPattern(ctx.pattern_type, region),
            ),
            ..state
        },
    )
}

/// A tag gets a variable of its own.
pub open spec fn tagged(symbol: Seq<char>, state: CanState) -> (PatternView, CanState) {
    (
        PatternView::Tag(Variable(state.counter), symbol),
        CanState {
            vars: state.vars.push(Variable(state.counter)),
            counter: advanced(state.counter, 1),
            ..state
        },
    )
}

/// An identifier is brought into scope, unless it hides another one.
pub open spec fn identified(ctx: CanContext, name: Seq<char>, region: Region, state: CanState) -> (
    PatternView,
    CanState,
) {
    match shadowed_ident(ctx.home, name, state.idents, state.shadowable) {
        Some(shadowed) => (
            PatternView::Shadowed(shadowed),
            CanState {
                problems: state.problems.push(ProblemView::Shadowing(shadowed)),
                ..state
            },
        ),
        None => {
            let symbol = prefixed_symbol(ctx.prefix, name);
            let ident: IdentName = (Some(ctx.home), name);
            (
                PatternView::Identifier(symbol),
                CanState {
                    idents: state.idents.insert(ident, (symbol, region)),
                    shadowable: state.shadowable.insert(ident, (symbol, region)),
                    ..state
                },
            )
        },
    }
}

/// The canonical form of a pattern, and the state after it was found.
pub open spec fn canonical(
    ctx: CanContext,
    pattern: ast::Pattern,
    region: Region,
    state: CanState,
) -> (PatternView, CanState)
    decreases pattern,
{
    match pattern {
        ast::Pattern::Identifier(name) => identified(ctx, name@, region, state),
        ast::Pattern::GlobalTag(name) => tagged(name@, state),
        ast::Pattern::PrivateTag(name) => tagged(private_tag_symbol(ctx.home, name@), state),
        ast::Pattern::FloatLiteral(text) => if ctx.pattern_type == PatternType::CaseBranch {
            (PatternView::FloatLiteral(text@), state)
        } else {
            unsupported(ctx, region, state)
        },
        ast::Pattern::Underscore => match ctx.pattern_type {
            PatternType::CaseBranch | PatternType::FunctionArg => (PatternView::Underscore, state),
            PatternType::Assignment | PatternType::TopLevelDef => unsupported(ctx, region, state),
        },
        ast::Pattern::IntLiteral(text) => if ctx.pattern_type == PatternType::CaseBranch {
            (PatternView::IntLiteral(literal_value(text@, 10)->0), state)
        } else {
            unsupported(ctx, region, state)
        },
        ast::Pattern::NonBase10Literal { string, base, is_negative } => if ctx.pattern_type
            == PatternType::CaseBranch {
            (PatternView::IntLiteral(signed_literal(string@, base, is_negative)->0), state)
        } else {
            unsupported(ctx, region, state)
        },
        ast::Pattern::StrLiteral(_) => unsupported(ctx, region, state),
        ast::Pattern::SpaceBefore(inner, _) => canonical(ctx, *inner, region, state),
        ast::Pattern::SpaceAfter(inner, _) => canonical(ctx, *inner, region, state),
        ast::Pattern::Nested(inner) => canonical(ctx, *inner, region, state),
        ast::Pattern::RecordDestructure(fields) => {
            let (parts, after) = canonical_fields(ctx, fields@, region, state);
            (PatternView::RecordDestructure(parts), after)
        },
        _ => arbitrary(),
    }
}

/// The canonical forms of a record's parts, one after the other. Each of them gets
/// the region of the whole record.
pub open spec fn canonical_fields(
    ctx: CanContext,
    fields: Seq<Located<ast::Pattern>>,
    region: Region,
    state: CanState,
) -> (Seq<(Located<PatternView>, Option<Located<PatternView>>)>, CanState)
    decreases fields,
{
    if fields.len() == 0 {
        (Seq::empty(), state)
    } else {
        let (parts, before) = canonical_fields(ctx, fields.drop_last(), region, state);
        let (value, after) = canonical(ctx, fields.last().value, region, before);
        (parts.push((Located { region, value }, None)), after)
    }
}

/// Reports a pattern that is not supported where it stands (e.g. 5 = 1 + 2 is unsupported
/// because you can't assign to Int patterns), and makes a runtime error of it.
fn unsupported_pattern(env: &mut Env, pattern_type: PatternType, region: Region) -> (pattern:
    Pattern)
    ensures
        pattern == Pattern::UnsupportedPattern(region),
        final(env).home == old(env).home,
        final(env).reported() == old(env).reported().push(
            ProblemView::UnsupportedPattern(pattern_type, region),
        ),
{
    env.problem(Problem::UnsupportedPattern(pattern_type, region));

    Pattern::UnsupportedPattern(region)
}

/// Finds the canonical form of a pattern, without adding constraints.
pub fn canonicalize_pattern_help(
    env: &mut Env,
    state: &mut PatternState,
    var_store: &mut VarStore,
    scope: &mut Scope,
    pattern_type: PatternType,
    pattern: &ast::Pattern,
    region: Region,
    shadowable_idents: &mut IdentMap,
) -> (result: Located<Pattern>)
    requires
        can_be_canonicalized(*pattern, pattern_type),
    ensures
        result.region == region,
        (
            result.value@,
            state_of(
                *final(env),
                final(state).vars@,
                *final(var_store),
                *final(scope),
                *final(shadowable_idents),
            ),
        ) == canonical(
            context_of(*old(env), *old(scope), pattern_type),
            *pattern,
            region,
            state_of(
                *old(env),
                old(state).vars@,
                *old(var_store),
                *old(scope),
                *old(shadowable_idents),
            ),
        ),
        final(env).home == old(env).home,
        final(scope).symbol_prefix == old(scope).symbol_prefix,
        final(state).headers == old(state).headers,
        final(state).constraints == old(state).constraints,
    decreases pattern,
{
    let value = match pattern {
        ast::Pattern::Identifier(name) => {
            match canonicalize_pattern_identifier(name, env, scope, region, shadowable_idents) {
                Ok(symbol) => Pattern::Identifier(symbol),
                Err(loc_shadowed_ident) => Pattern::Shadowed(loc_shadowed_ident),
            }
        },
        ast::Pattern::GlobalTag(name) => {
            // Canonicalize the tag's name.
            let symbol = Symbol::from_global_tag(name);
            let var = var_store.fresh();

            state.vars.push(var);

            Pattern::Tag(var, symbol)
        },
        ast::Pattern::PrivateTag(name) => {
            // Canonicalize the tag's name.
            let symbol = Symbol::from_private_tag(env.home.as_str(), name);
            let var = var_store.fresh();

            state.vars.push(var);

            Pattern::Tag(var, symbol)
        },
        ast::Pattern::FloatLiteral(string) => match pattern_type {
            PatternType::CaseBranch => Pattern::FloatLiteral((*string).to_owned()),
            _ => unsupported_pattern(env, pattern_type, region),
        },
        ast::Pattern::Underscore => match pattern_type {
            PatternType::CaseBranch | PatternType::FunctionArg => Pattern::Underscore,
            _ => unsupported_pattern(env, pattern_type, region),
        },
        ast::Pattern::IntLiteral(string) => match pattern_type {
            PatternType::CaseBranch => Pattern::IntLiteral(finish_parsing_int(string).unwrap()),
            _ => unsupported_pattern(env, pattern_type, region),
        },
        ast::Pattern::NonBase10Literal { string, base, is_negative } => match pattern_type {
            PatternType::CaseBranch => {
                let number = finish_parsing_base(string, *base).unwrap();

                if *is_negative {
                    Pattern::IntLiteral(-number)
                } else {
                    Pattern::IntLiteral(number)
                }
            },
            _ => unsupported_pattern(env, pattern_type, region),
        },
        ast::Pattern::SpaceBefore(sub_pattern, _)
        | ast::Pattern::SpaceAfter(sub_pattern, _)
        | ast::Pattern::Nested(sub_pattern) => {
            return canonicalize_pattern_help(
                env,
                state,
                var_store,
                scope,
                pattern_type,
                sub_pattern,
                region,
                shadowable_idents,
            );
        },
        ast::Pattern::RecordDestructure(patterns) => {
            let ghost ctx = context_of(*old(env), *old(scope), pattern_type);
            let ghost before = state_of(
                *old(env),
                old(state).vars@,
                *old(var_store),
                *old(scope),
                *old(shadowable_idents),
            );
            let mut fields: Vec<(Located<Pattern>, Option<Located<Pattern>>)> =
                Vec::with_capacity(patterns.len());
            let mut i: usize = 0;
            while i < patterns.len()
                invariant
                    i <= patterns.len(),
                    decreases_to!(pattern => patterns),
                    forall|j: int|
                        0 <= j < patterns@.len() ==> can_be_canonicalized(
                            (#[trigger] patterns@[j]).value,
                            pattern_type,
                        ),
                    ctx == context_of(*env, *scope, pattern_type),
                    (
                        parts_of(fields@),
                        state_of(*env, state.vars@, *var_store, *scope, *shadowable_idents),
                    ) == canonical_fields(ctx, patterns@.take(i as int), region, before),
                    env.home == old(env).home,
                    scope.symbol_prefix == old(scope).symbol_prefix,
                    state.headers == old(state).headers,
                    state.constraints == old(state).constraints,
                decreases patterns.len() - i,
            {
                let ghost parts = parts_of(fields@);
                let inner = canonicalize_pattern_help(
                    env,
                    state,
                    var_store,
                    scope,
                    pattern_type,
                    &patterns[i].value,
                    region,
                    shadowable_idents,
                );
                fields.push((inner, None));
                proof {
                    assert(patterns@.take(i + 1).drop_last() =~= patterns@.take(i as int));
                    assert(parts_of(fields@) =~= parts.push((inner@, None)));
                }
                i += 1;
            }
            proof {
                assert(patterns@.take(i as int) =~= patterns@);
                record_model(fields);
            }
            Pattern::RecordDestructure(fields)
        },
        ast::Pattern::StrLiteral(_) => unsupported_pattern(env, pattern_type, region),
        _ => vstd::pervasive::unreached(),
    };
    Located { region, value }
}

/// Adds the constraints of a pattern, and finds its canonical form.
pub fn canonicalize_pattern(
    env: &mut Env,
    state: &mut PatternState,
    var_store: &mut VarStore,
    scope: &mut Scope,
    pattern_type: PatternType,
    pattern: &ast::Pattern,
    region: Region,
    shadowable_idents: &mut IdentMap,
    expected: PExpected<Type>,
) -> (result: Located<Pattern>)
    requires
        can_be_constrained(*pattern),
        can_be_canonicalized(*pattern, pattern_type),
    ensures
        result.region == region,
        ({
            let typing = constrained(
                old(scope).prefix(),
                *pattern,
                region,
                expected,
                typing_of(*old(state), *old(var_store)),
            );
            &&& final(state).headers@ == typing.headers
            &&& final(state).demands() == typing.demands
            &&& (
                result.value@,
                state_of(
                    *final(env),
                    final(state).vars@,
                    *final(var_store),
                    *final(scope),
                    *final(shadowable_idents),
                ),
            ) == canonical(
                context_of(*old(env), *old(scope), pattern_type),
                *pattern,
                region,
                (CanState {
                    problems: old(env).reported(),
                    idents: old(scope).idents@,
                    shadowable: old(shadowable_idents)@,
                    vars: typing.vars,
                    counter: typing.counter,
                }),
            )
        }),
        final(env).home == old(env).home,
        final(scope).symbol_prefix == old(scope).symbol_prefix,
{
    // add_constraints recurses by itself
    add_constraints(pattern, scope, region, expected, state, var_store);

    canonicalize_pattern_help(
        env,
        state,
        var_store,
        scope,
        pattern_type,
        pattern,
        region,
        shadowable_idents,
    )
}

/// Tells whether a pattern can be canonicalized.
pub fn is_canonicalizable(pattern: &ast::Pattern, pattern_type: PatternType) -> (yes: bool)
    ensures
        yes == can_be_canonicalized(*pattern, pattern_type),
    decreases pattern,
{
    match pattern {
        ast::Pattern::Identifier(_)
        | ast::Pattern::GlobalTag(_)
        | ast::Pattern::PrivateTag(_)
        | ast::Pattern::FloatLiteral(_)
        | ast::Pattern::Underscore => true,
        ast::Pattern::IntLiteral(string) => match pattern_type {
            PatternType::CaseBranch => finish_parsing_int(string).is_ok(),
            _ => true,
        },
        ast::Pattern::NonBase10Literal { string, base, is_negative } => match pattern_type {
            PatternType::CaseBranch => match finish_parsing_base(string, *base) {
                Ok(number) => !*is_negative || number > i64::MIN,
                Err(_) => false,
            },
            _ => true,
        },
        ast::Pattern::StrLiteral(_) => match pattern_type {
            PatternType::CaseBranch => false,
            _ => true,
        },
        ast::Pattern::SpaceBefore(inner, _)
        | ast::Pattern::SpaceAfter(inner, _)
        | ast::Pattern::Nested(inner) => is_canonicalizable(inner, pattern_type),
        ast::Pattern::RecordDestructure(patterns) => {
            let mut i: usize = 0;
            while i < patterns.len()
                invariant
                    i <= patterns.len(),
                    can_be_canonicalized(*pattern, pattern_type) == (forall|j: int|
                        0 <= j < patterns@.len() ==> can_be_canonicalized(
                            (#[trigger] patterns@[j]).value,
                            pattern_type,
                        )),
                    decreases_to!(pattern => patterns),
                    forall|j: int|
                        0 <= j < i ==> can_be_canonicalized(
                            (#[trigger] patterns@[j]).value,
                            pattern_type,
                        ),
                decreases patterns.len() - i,
            {
                if !is_canonicalizable(&patterns[i].value, pattern_type) {
                    return false;
                }
                i += 1;
            }
            true
        },
        _ => false,
    }
}

} // verus!
