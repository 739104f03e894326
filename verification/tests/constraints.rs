use can_pattern::ast;
use can_pattern::ast::Base;
use can_pattern::collections::IdentMap;
use can_pattern::ident::Lowercase;
use can_pattern::pattern::constrain::{add_constraints, is_constrainable, PatternState};
use can_pattern::region::{Located, Region};
use can_pattern::scope::Scope;
use can_pattern::subs::{VarStore, Variable};
use can_pattern::symbol::Symbol;
use can_pattern::types::{Constraint, PExpected, PReason, PatternCategory, Type};

fn region(line: u32) -> Region {
    Region { start_line: line, end_line: line, start_col: 0, end_col: 3 }
}

fn name(line: u32, name: &str) -> Located<ast::Pattern<'_>> {
    Located { region: region(line), value: ast::Pattern::Identifier(name) }
}

fn expected() -> PExpected<Type> {
    PExpected::ForReason(PReason::CaseMatch { index: 2 }, Type::Variable(Variable(99)), region(50))
}

fn constrain(pattern: &ast::Pattern, state: &mut PatternState, var_store: &mut VarStore) {
    assert!(is_constrainable(pattern));
    let scope = Scope::new("p$", IdentMap::new());
    add_constraints(pattern, &scope, region(1), expected(), state, var_store);
}

fn is_expected(expected: &PExpected<Type>) -> bool {
    matches!(
        expected,
        PExpected::ForReason(PReason::CaseMatch { index: 2 }, Type::Variable(Variable(99)), r)
            if *r == region(50)
    )
}

#[test]
fn underscore_and_malformed_patterns_add_nothing() {
    let patterns = [
        ast::Pattern::Underscore,
        ast::Pattern::Malformed("?"),
        ast::Pattern::QualifiedIdentifier("A.x"),
    ];
    for pattern in &patterns {
        let mut state = PatternState::new();
        let mut var_store = VarStore::new(Variable(3));
        constrain(pattern, &mut state, &mut var_store);
        assert!(state.constraints.is_empty());
        assert!(state.vars.is_empty());
        assert_eq!(var_store.fresh(), Variable(3));
    }
}

#[test]
fn identifier_adds_a_header() {
    let mut state = PatternState::new();
    let mut var_store = VarStore::new(Variable(0));
    constrain(&ast::Pattern::Identifier("x"), &mut state, &mut var_store);

    let header = state.headers.get(&Symbol::new("p$", "x")).unwrap();
    assert_eq!(header.region, region(1));
    assert!(matches!(header.value, Type::Variable(Variable(99))));
    assert!(state.headers.get(&Symbol::new("", "x")).is_none());
    assert!(state.constraints.is_empty());
    assert!(state.vars.is_empty());
}

#[test]
fn literals_add_one_constraint() {
    let blocks = ["a", "b"];
    let hex = ast::Pattern::NonBase10Literal { string: "f", base: Base::Hex, is_negative: false };
    let patterns = [
        (ast::Pattern::IntLiteral("1"), PatternCategory::Int),
        (hex, PatternCategory::Int),
        (ast::Pattern::FloatLiteral("1.0"), PatternCategory::Float),
        (ast::Pattern::StrLiteral("s"), PatternCategory::Str),
        (ast::Pattern::BlockStrLiteral(&blocks), PatternCategory::Str),
    ];
    for (pattern, category) in &patterns {
        let mut state = PatternState::new();
        let mut var_store = VarStore::new(Variable(0));
        constrain(pattern, &mut state, &mut var_store);
        assert_eq!(state.constraints.len(), 1);
        let Constraint::Pattern(at, found, typ, demanded) = &state.constraints[0];
        assert_eq!(*at, region(1));
        assert_eq!(found, category);
        assert!(is_expected(demanded));
        match category {
            PatternCategory::Int => assert!(matches!(typ, Type::Int)),
            PatternCategory::Float => assert!(matches!(typ, Type::Float)),
            PatternCategory::Str => assert!(matches!(typ, Type::Str)),
            PatternCategory::Record => unreachable!(),
        }
    }
}

#[test]
fn record_constrains_its_fields() {
    let record = ast::Pattern::RecordDestructure(vec![name(2, "x"), name(3, "y")]);
    let mut state = PatternState::new();
    let mut var_store = VarStore::new(Variable(10));
    constrain(&record, &mut state, &mut var_store);

    assert_eq!(state.vars, vec![Variable(11), Variable(12)]);
    assert_eq!(var_store.fresh(), Variable(13));
    for (field, line, variable) in [("x", 2, Variable(11)), ("y", 3, Variable(12))] {
        let header = state.headers.get(&Symbol::new("p$", field)).unwrap();
        assert_eq!(header.region, region(line));
        assert!(matches!(header.value, Type::Variable(v) if v == variable));
    }
    assert_eq!(state.constraints.len(), 1);
    let Constraint::Pattern(at, category, typ, demanded) = &state.constraints[0];
    assert_eq!(*at, region(1));
    assert_eq!(*category, PatternCategory::Record);
    assert!(is_expected(demanded));
    match typ {
        Type::Record(fields, ext) => {
            assert!(matches!(**ext, Type::Variable(Variable(10))));
            assert!(matches!(
                fields.get(&Lowercase::new("x")),
                Some(Type::Variable(Variable(11)))
            ));
            assert!(matches!(
                fields.get(&Lowercase::new("y")),
                Some(Type::Variable(Variable(12)))
            ));
            assert!(fields.get(&Lowercase::new("z")).is_none());
        }
        other => panic!("not a record: {:?}", other),
    }
}

#[test]
fn later_field_of_one_name_counts() {
    let record = ast::Pattern::RecordDestructure(vec![name(2, "x"), name(3, "x")]);
    let mut state = PatternState::new();
    let mut var_store = VarStore::new(Variable(0));
    constrain(&record, &mut state, &mut var_store);

    assert_eq!(state.vars, vec![Variable(1), Variable(2)]);
    let header = state.headers.get(&Symbol::new("p$", "x")).unwrap();
    assert_eq!(header.region, region(3));
    assert!(matches!(header.value, Type::Variable(Variable(2))));
    let Constraint::Pattern(_, _, typ, _) = &state.constraints[0];
    match typ {
        Type::Record(fields, _) => assert!(matches!(
            fields.get(&Lowercase::new("x")),
            Some(Type::Variable(Variable(2)))
        )),
        other => panic!("not a record: {:?}", other),
    }
}

#[test]
fn empty_record_still_takes_a_variable() {
    let record = ast::Pattern::RecordDestructure(vec![]);
    let mut state = PatternState::new();
    let mut var_store = VarStore::new(Variable(0));
    constrain(&record, &mut state, &mut var_store);

    assert!(state.vars.is_empty());
    assert_eq!(state.constraints.len(), 1);
    assert_eq!(var_store.fresh(), Variable(1));
}

#[test]
fn constraints_and_headers_are_only_added() {
    let spaces = [];
    let float = ast::Pattern::FloatLiteral("1.0");
    let mut state = PatternState::new();
    let mut var_store = VarStore::new(Variable(0));
    constrain(&ast::Pattern::Identifier("x"), &mut state, &mut var_store);
    constrain(&ast::Pattern::IntLiteral("1"), &mut state, &mut var_store);
    constrain(&ast::Pattern::SpaceAfter(&float, &spaces), &mut state, &mut var_store);
    constrain(&ast::Pattern::Identifier("y"), &mut state, &mut var_store);

    assert!(state.headers.contains_key(&Symbol::new("p$", "x")));
    assert!(state.headers.contains_key(&Symbol::new("p$", "y")));
    assert_eq!(state.constraints.len(), 2);
    let categories: Vec<PatternCategory> = state
        .constraints
        .iter()
        .map(|Constraint::Pattern(_, category, _, _)| *category)
        .collect();
    assert_eq!(categories, vec![PatternCategory::Int, PatternCategory::Float]);
}

#[test]
fn some_patterns_cannot_be_constrained() {
    let inner = Located { region: region(1), value: ast::Pattern::Underscore };
    let args = [];
    let patterns = [
        ast::Pattern::GlobalTag("T"),
        ast::Pattern::PrivateTag("@T"),
        ast::Pattern::Apply(&inner, &args),
        ast::Pattern::RecordField("x", &inner),
        ast::Pattern::EmptyRecordLiteral,
    ];
    for pattern in &patterns {
        assert!(!is_constrainable(pattern));
        assert!(!is_constrainable(&ast::Pattern::Nested(pattern)));
    }
    let underscore = Located { region: region(1), value: ast::Pattern::Underscore };
    let record = ast::Pattern::RecordDestructure(vec![name(1, "x"), underscore]);
    assert!(!is_constrainable(&record));
}
