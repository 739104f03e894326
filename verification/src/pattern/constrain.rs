use crate::ast;
use crate::collections::SendMap;
use crate::ident::Lowercase;
use crate::region::{Located, Region};
use crate::scope::Scope;
use crate::subs::{advanced, advanced_adds_up, VarStore, Variable};
use crate::symbol::{prefixed_symbol, Symbol};
use crate::types::{Constraint, ConstraintView, PExpected, PatternCategory, Type, TypeView};
use vstd::prelude::*;

verus! {

/// What the solver needs to know of the patterns seen so far.
#[derive(Debug)]
pub struct PatternState {
    /// The type of each name that a pattern introduces.
    pub headers: SendMap<Symbol, Located<Type>>,
    pub vars: Vec<Variable>,
    pub constraints: Vec<Constraint>,
}

impl PatternState {
    /// What the constraints collected so far demand.
    pub open spec fn demands(self) -> Seq<ConstraintView> {
        self.constraints@.map_values(|constraint: Constraint| constraint@)
    }

    pub fn new() -> (state: PatternState)
        ensures
            state.headers@ == Map::<Seq<char>, Located<Type>>::empty(),
            state.vars@ == Seq::<Variable>::empty(),
            state.demands() == Seq::<ConstraintView>::empty(),
    {
        let state = PatternState {
            headers: SendMap::new(),
            vars: Vec::new(),
            constraints: Vec::new(),
        };
        assert(state.demands() =~= Seq::<ConstraintView>::empty());
        state
    }

    fn constrain(
        &mut self,
        region: Region,
        category: PatternCategory,
        typ: Type,
        expected: PExpected<Type>,
    )
        ensures
            final(self).headers == old(self).headers,
            final(self).vars == old(self).vars,
            final(self).demands() == old(self).demands().push(
                ConstraintView::Pattern(region, category, typ@, expected),
            ),
    {
        self.constraints.push(Constraint::Pattern(region, category, typ, expected));
        assert(self.demands() =~= old(self).demands().push(
            ConstraintView::Pattern(region, category, typ@, expected),
        ));
    }
}

/// What adding the constraints of a pattern changes.
#[verifier::ext_equal]
pub struct TypingState {
    pub headers: Map<Seq<char>, Located<Type>>,
    pub vars: Seq<Variable>,
    pub demands: Seq<ConstraintView>,
    pub counter: u32,
}

/// The state that the collected types and the variable store stand for.
pub open spec fn typing_of(state: PatternState, var_store: VarStore) -> TypingState {
    TypingState {
        headers: state.headers@,
        vars: state.vars@,
        demands: state.demands(),
        counter: var_store@,
    }
}

/// Whether constraints can be added for a pattern. They cannot for tags, for record
/// fields, for the empty record, and for a record that has anything but identifiers
/// for its parts.
pub open spec fn can_be_constrained(pattern: ast::Pattern) -> bool
    decreases pattern,
{
    match pattern {
        ast::Pattern::Underscore
        | ast::Pattern::Malformed(_)
        | ast::Pattern::QualifiedIdentifier(_)
        | ast::Pattern::Identifier(_)
        | ast::Pattern::IntLiteral(_)
        | ast::Pattern::NonBase10Literal { .. }
        | ast::Pattern::FloatLiteral(_)
        | ast::Pattern::StrLiteral(_)
        | ast::Pattern::BlockStrLiteral(_) => true,
        ast::Pattern::SpaceBefore(inner, _) => can_be_constrained(*inner),
        ast::Pattern::SpaceAfter(inner, _) => can_be_constrained(*inner),
        ast::Pattern::Nested(inner) => can_be_constrained(*inner),
        ast::Pattern::RecordDestructure(fields) => forall|i: int|
            0 <= i < fields@.len() ==> (#[trigger] fields@[i]).value is Identifier,
        _ => false,
    }
}

/// The variable of one part of a record, where the store stood at `counter` when
/// the record was reached. The first variable from there is the record's own.
pub open spec fn field_variable(counter: u32, i: int) -> Variable {
    Variable(advanced(counter, (i + 1) as nat))
}

/// The types of a record's fields: a variable for each. Of two fields with
/// one name the later one counts.
pub open spec fn field_types(fields: Seq<Located<ast::Pattern>>, counter: u32) -> Map<
    Seq<char>,
    Type,
>
    decreases fields.len(),
{
    if fields.len() == 0 {
        Map::empty()
    } else {
        field_types(fields.drop_last(), counter).insert(
            fields.last().value->Identifier_0@,
            Type::Variable(field_variable(counter, fields.len() - 1)),
        )
    }
}

/// The headers after each field of a record has added its own.
pub open spec fn field_headers(
    prefix: Seq<char>,
    fields: Seq<Located<ast::Pattern>>,
    counter: u32,
    headers: Map<Seq<char>, Located<Type>>,
) -> Map<Seq<char>, Located<Type>>
    decreases fields.len(),
{
    if fields.len() == 0 {
        headers
    } else {
        field_headers(prefix, fields.drop_last(), counter, headers).insert(
            prefixed_symbol(prefix, fields.last().value->Identifier_0@),
            Located {
                region: fields.last().region,
                value: Type::Variable(field_variable(counter, fields.len() - 1)),
            },
        )
    }
}

/// The state after one more demand.
pub open spec fn demanded(
    region: Region,
    category: PatternCategory,
    typ: TypeView,
    expected: PExpected<Type>,
    state: TypingState,
) -> TypingState {
    TypingState {
        demands: state.demands.push(ConstraintView::Pattern(region, category, typ, expected)),
        ..state
    }
}

/// The state after the constraints of a pattern were added.
pub open spec fn constrained(
    prefix: Seq<char>,
    pattern: ast::Pattern,
    region: Region,
    expected: PExpected<Type>,
    state: TypingState,
) -> TypingState
    decreases pattern,
{
    match pattern {
        ast::Pattern::Underscore
        | ast::Pattern::Malformed(_)
        | ast::Pattern::QualifiedIdentifier(_) => state,
        ast::Pattern::Identifier(name) => TypingState {
            headers: state.headers.insert(
                prefixed_symbol(prefix, name@),
                Located { region, value: expected.expected() },
            ),
            ..state
        },
        ast::Pattern::IntLiteral(_) | ast::Pattern::NonBase10Literal { .. } => demanded(
            region,
            PatternCategory::Int,
            TypeView::Int,
            expected,
            state,
        ),
        ast::Pattern::FloatLiteral(_) => demanded(
            region,
            PatternCategory::Float,
            TypeView::Float,
            expected,
            state,
        ),
        ast::Pattern::StrLiteral(_) | ast::Pattern::BlockStrLiteral(_) => demanded(
            region,
            PatternCategory::Str,
            TypeView::Str,
            expected,
            state,
        ),
        ast::Pattern::SpaceBefore(inner, _) => constrained(prefix, *inner, region, expected, state),
        ast::Pattern::SpaceAfter(inner, _) => constrained(prefix, *inner, region, expected, state),
        ast::Pattern::Nested(inner) => constrained(prefix, *inner, region, expected, state),
        ast::Pattern::RecordDestructure(fields) => demanded(
            region,
            PatternCategory::Record,
            TypeView::Record(
                field_types(fields@, state.counter),
                Type::Variable(Variable(state.counter)),
            ),
            expected,
            TypingState {
                headers: field_headers(prefix, fields@, state.counter, state.headers),
                vars: state.vars + Seq::new(
                    fields@.len(),
                    |i: int| field_variable(state.counter, i),
                ),
                counter: advanced(state.counter, fields@.len() + 1),
                ..state
            },
        ),
        _ => arbitrary(),
    }
}

/// Adds the headers and the constraints of a pattern.
pub fn add_constraints(
    pattern: &ast::Pattern,
    scope: &Scope,
    region: Region,
    expected: PExpected<Type>,
    state: &mut PatternState,
    var_store: &mut VarStore,
)
    requires
        can_be_constrained(*pattern),
    ensures
        typing_of(*final(state), *final(var_store)) == constrained(
            scope.prefix(),
            *pattern,
            region,
            expected,
            typing_of(*old(state), *old(var_store)),
        ),
    decreases pattern,
{
    match pattern {
        ast::Pattern::Underscore
        | ast::Pattern::Malformed(_)
        | ast::Pattern::QualifiedIdentifier(_) => {
            // Neither the _ pattern nor malformed ones add any constraints.
        },
        ast::Pattern::Identifier(name) => {
            state.headers.insert(
                scope.symbol(name),
                Located { region, value: expected.get_type() },
            );
        },
        ast::Pattern::IntLiteral(_) | ast::Pattern::NonBase10Literal { .. } => {
            state.constrain(region, PatternCategory::Int, Type::Int, expected);
        },
        ast::Pattern::FloatLiteral(_) => {
            state.constrain(region, PatternCategory::Float, Type::Float, expected);
        },
        ast::Pattern::StrLiteral(_) | ast::Pattern::BlockStrLiteral(_) => {
            state.constrain(region, PatternCategory::Str, Type::Str, expected);
        },
        ast::Pattern::SpaceBefore(inner, _)
        | ast::Pattern::SpaceAfter(inner, _)
        | ast::Pattern::Nested(inner) => {
            add_constraints(inner, scope, region, expected, state, var_store);
        },
        ast::Pattern::RecordDestructure(patterns) => {
            let ghost counter = var_store@;
            let ext_var = var_store.fresh();
            let mut types: SendMap<Lowercase, Type> = SendMap::new();
            let mut i: usize = 0;
            while i < patterns.len()
                invariant
                    i <= patterns.len(),
                    decreases_to!(pattern => patterns),
                    forall|j: int|
                        0 <= j < patterns@.len() ==> (#[trigger] patterns@[j]).value is Identifier,
                    types@ == field_types(patterns@.take(i as int), counter),
                    state.headers@ == field_headers(
                        scope.prefix(),
                        patterns@.take(i as int),
                        counter,
                        old(state).headers@,
                    ),
                    state.vars@ == old(state).vars@ + Seq::new(
                        i as nat,
                        |j: int| field_variable(counter, j),
                    ),
                    state.demands() == old(state).demands(),
                    var_store@ == advanced(counter, (i + 1) as nat),
                decreases patterns.len() - i,
            {
                let loc_pattern = &patterns[i];
                let pat_var = var_store.fresh();
                let ghost vars = state.vars@;
                proof {
                    assert(patterns@.take(i + 1).drop_last() =~= patterns@.take(i as int));
                    advanced_adds_up(counter, (i + 1) as nat, 1);
                }
                // constrain the field identifier
                add_constraints(
                    &loc_pattern.value,
                    scope,
                    loc_pattern.region,
                    PExpected::NoExpectation(Type::Variable(pat_var)),
                    state,
                    var_store,
                );
                match &loc_pattern.value {
                    ast::Pattern::Identifier(name) => {
                        types.insert(Lowercase::new(name), Type::Variable(pat_var));
                    },
                    _ => vstd::pervasive::unreached(),
                }
                state.vars.push(pat_var);
                proof {
                    assert(state.vars@ =~= old(state).vars@ + Seq::new(
                        (i + 1) as nat,
                        |j: int| field_variable(counter, j),
                    ));
                }
                i += 1;
            }
            assert(patterns@.take(i as int) =~= patterns@);
            let record_type = Type::Record(types, Box::new(Type::Variable(ext_var)));
            state.constrain(region, PatternCategory::Record, record_type, expected);
        },
        _ => vstd::pervasive::unreached(),
    }
}

/// Tells whether constraints can be added for a pattern.
pub fn is_constrainable(pattern: &ast::Pattern) -> (yes: bool)
    ensures
        yes == can_be_constrained(*pattern),
    decreases pattern,
{
    match pattern {
        ast::Pattern::Underscore
        | ast::Pattern::Malformed(_)
        | ast::Pattern::QualifiedIdentifier(_)
        | ast::Pattern::Identifier(_)
        | ast::Pattern::IntLiteral(_)
        | ast::Pattern::NonBase10Literal { .. }
        | ast::Pattern::FloatLiteral(_)
        | ast::Pattern::StrLiteral(_)
        | ast::Pattern::BlockStrLiteral(_) => true,
        ast::Pattern::SpaceBefore(inner, _)
        | ast::Pattern::SpaceAfter(inner, _)
        | ast::Pattern::Nested(inner) => is_constrainable(inner),
        ast::Pattern::RecordDestructure(patterns) => {
            let mut i: usize = 0;
            while i < patterns.len()
                invariant
                    i <= patterns.len(),
                    *pattern == ast::Pattern::RecordDestructure(*patterns),
                    forall|j: int| 0 <= j < i ==> (#[trigger] patterns@[j]).value is Identifier,
                decreases patterns.len() - i,
            {
                match &patterns[i].value {
                    ast::Pattern::Identifier(_) => {},
                    _ => {
                        assert(!(patterns@[i as int].value is Identifier));
                        return false;
                    },
                }
                i += 1;
            }
            true
        },
        _ => false,
    }
}

} // verus!
