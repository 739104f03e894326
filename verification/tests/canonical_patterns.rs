use can_pattern::ast;
use can_pattern::ast::{Base, CommentOrNewline};
use can_pattern::collections::IdentMap;
use can_pattern::env::{Env, Problem};
use can_pattern::ident::Ident;
use can_pattern::pattern::canonical::{
    canonicalize_pattern, canonicalize_pattern_help, canonicalize_pattern_identifier,
    is_canonicalizable,
};
use can_pattern::pattern::constrain::PatternState;
use can_pattern::pattern::{symbols_from_pattern, symbols_from_pattern_help, Pattern, PatternType};
use can_pattern::region::{Located, Region};
use can_pattern::scope::Scope;
use can_pattern::subs::{VarStore, Variable};
use can_pattern::symbol::Symbol;
use can_pattern::types::{Constraint, PExpected, PatternCategory, Type};

fn region(line: u32) -> Region {
    Region { start_line: line, end_line: line, start_col: 0, end_col: 3 }
}

fn unqualified(name: &str) -> Ident {
    Ident::Unqualified(name.to_string())
}

fn qualified(home: &str, name: &str) -> Ident {
    Ident::Qualified(home.to_string(), name.to_string())
}

struct Module {
    env: Env,
    state: PatternState,
    var_store: VarStore,
    scope: Scope,
    shadowable: IdentMap,
}

fn module() -> Module {
    Module {
        env: Env::new("Test"),
        state: PatternState::new(),
        var_store: VarStore::new(Variable(0)),
        scope: Scope::new("Test.blah$", IdentMap::new()),
        shadowable: IdentMap::new(),
    }
}

impl Module {
    fn help(&mut self, pattern_type: PatternType, pattern: &ast::Pattern, line: u32) -> Pattern {
        assert!(is_canonicalizable(pattern, pattern_type));
        let located = canonicalize_pattern_help(
            &mut self.env,
            &mut self.state,
            &mut self.var_store,
            &mut self.scope,
            pattern_type,
            pattern,
            region(line),
            &mut self.shadowable,
        );
        assert_eq!(located.region, region(line));
        located.value
    }

    fn identifier(&mut self, name: &str, line: u32) -> Result<Symbol, Located<Ident>> {
        canonicalize_pattern_identifier(
            name,
            &mut self.env,
            &mut self.scope,
            region(line),
            &mut self.shadowable,
        )
    }
}

const ALL_TYPES: [PatternType; 4] = [
    PatternType::TopLevelDef,
    PatternType::Assignment,
    PatternType::FunctionArg,
    PatternType::CaseBranch,
];

#[test]
fn new_identifier_is_brought_into_scope() {
    let mut m = module();
    let symbol = m.identifier("x", 1).unwrap();

    assert_eq!(symbol.as_str(), "Test.blah$x");
    assert!(m.env.problems.is_empty());
    let expected = (Symbol::new("Test.blah$", "x"), region(1));
    assert_eq!(m.scope.idents.get(&qualified("Test", "x")), Some(&expected));
    assert_eq!(m.shadowable.get(&qualified("Test", "x")), Some(&expected));
    assert_eq!(m.scope.idents.get(&unqualified("x")), None);
    assert_eq!(m.shadowable.get(&unqualified("x")), None);
}

#[test]
fn shadowable_identifier_is_shadowed() {
    let mut m = module();
    m.shadowable.insert(unqualified("x"), (Symbol::new("", "x"), region(7)));
    let shadowed = Located { region: region(7), value: unqualified("x") };

    assert_eq!(m.identifier("x", 9), Err(shadowed.clone()));
    assert_eq!(m.env.problems, vec![Problem::Shadowing(shadowed)]);
    assert_eq!(m.scope.idents.get(&qualified("Test", "x")), None);
    assert_eq!(m.shadowable.get(&qualified("Test", "x")), None);
}

#[test]
fn name_of_the_home_module_is_shadowed() {
    let mut m = module();
    m.scope.idents.insert(qualified("Test", "x"), (Symbol::new("", "x"), region(4)));
    let shadowed = Located { region: region(4), value: qualified("Test", "x") };

    assert_eq!(m.identifier("x", 9), Err(shadowed.clone()));
    assert_eq!(m.env.problems, vec![Problem::Shadowing(shadowed)]);
}

#[test]
fn name_of_another_module_is_not_shadowed() {
    let mut m = module();
    m.scope.idents.insert(qualified("Other", "x"), (Symbol::new("", "x"), region(4)));

    assert!(m.identifier("x", 9).is_ok());
}

#[test]
fn shadowable_identifier_wins_over_home_module() {
    let mut m = module();
    m.scope.idents.insert(qualified("Test", "x"), (Symbol::new("", "x"), region(4)));
    m.shadowable.insert(unqualified("x"), (Symbol::new("", "x"), region(7)));

    assert_eq!(
        m.identifier("x", 9),
        Err(Located { region: region(7), value: unqualified("x") })
    );
}

#[test]
fn definition_does_not_shadow_itself() {
    let mut m = module();
    m.scope.idents.insert(unqualified("fibonacci"), (Symbol::new("", "fibonacci"), region(1)));

    assert!(m.identifier("fibonacci", 1).is_ok());
    assert!(m.env.problems.is_empty());
}

#[test]
fn same_name_twice_is_shadowing() {
    let mut m = module();
    assert!(m.identifier("foo", 1).is_ok());
    let shadowed = Located { region: region(1), value: qualified("Test", "foo") };

    assert_eq!(m.identifier("foo", 2), Err(shadowed.clone()));
    assert_eq!(m.env.problems, vec![Problem::Shadowing(shadowed)]);
    assert_eq!(
        m.scope.idents.get(&qualified("Test", "foo")),
        Some(&(Symbol::new("Test.blah$", "foo"), region(1)))
    );
}

#[test]
fn same_name_twice_in_a_record_is_shadowing() {
    let mut m = module();
    let record = ast::Pattern::RecordDestructure(vec![
        Located { region: region(2), value: ast::Pattern::Identifier("foo") },
        Located { region: region(3), value: ast::Pattern::Identifier("foo") },
    ]);
    let shadowed = Located { region: region(1), value: qualified("Test", "foo") };

    assert_eq!(
        m.help(PatternType::FunctionArg, &record, 1),
        Pattern::RecordDestructure(vec![
            (
                Located {
                    region: region(1),
                    value: Pattern::Identifier(Symbol::new("Test.blah$", "foo")),
                },
                None,
            ),
            (Located { region: region(1), value: Pattern::Shadowed(shadowed.clone()) }, None),
        ])
    );
    assert_eq!(m.env.problems, vec![Problem::Shadowing(shadowed)]);
}

#[test]
fn tags_get_the_next_variables() {
    let mut m = module();
    m.var_store = VarStore::new(Variable(5));

    assert_eq!(
        m.help(PatternType::CaseBranch, &ast::Pattern::GlobalTag("True"), 1),
        Pattern::Tag(Variable(5), Symbol::from_global_tag("True"))
    );
    assert_eq!(
        m.help(PatternType::Assignment, &ast::Pattern::PrivateTag("@Foo"), 1),
        Pattern::Tag(Variable(6), Symbol::from_private_tag("Test", "@Foo"))
    );
    assert_eq!(Symbol::from_global_tag("True").as_str(), "True");
    assert_eq!(Symbol::from_private_tag("Test", "@Foo").as_str(), "Test.@Foo");
    assert_eq!(m.state.vars, vec![Variable(5), Variable(6)]);
    assert_eq!(m.var_store.fresh(), Variable(7));
    assert!(m.env.problems.is_empty());
}

#[test]
fn variables_start_over_behind_the_last_one() {
    let mut store = VarStore::new(Variable(u32::MAX));

    assert_eq!(store.fresh(), Variable(u32::MAX));
    assert_eq!(store.fresh(), Variable(0));
    assert_eq!(store.fresh(), Variable(1));
}

#[test]
fn number_literals_are_for_case_branches() {
    let literals = [
        (ast::Pattern::IntLiteral("1_000"), Pattern::IntLiteral(1000)),
        (ast::Pattern::IntLiteral("-42"), Pattern::IntLiteral(-42)),
        (
            ast::Pattern::NonBase10Literal { string: "fF", base: Base::Hex, is_negative: false },
            Pattern::IntLiteral(255),
        ),
        (
            ast::Pattern::NonBase10Literal { string: "17", base: Base::Octal, is_negative: true },
            Pattern::IntLiteral(-15),
        ),
        (
            ast::Pattern::NonBase10Literal { string: "101", base: Base::Binary, is_negative: false },
            Pattern::IntLiteral(5),
        ),
        (ast::Pattern::FloatLiteral("1.5"), Pattern::FloatLiteral("1.5".to_string())),
    ];
    for (literal, expected) in &literals {
        for pattern_type in ALL_TYPES {
            let mut m = module();
            let found = m.help(pattern_type, literal, 3);
            if pattern_type == PatternType::CaseBranch {
                assert_eq!(found, *expected);
                assert!(m.env.problems.is_empty());
            } else {
                assert_eq!(found, Pattern::UnsupportedPattern(region(3)));
                assert_eq!(
                    m.env.problems,
                    vec![Problem::UnsupportedPattern(pattern_type, region(3))]
                );
            }
        }
    }
}

#[test]
fn underscore_is_for_args_and_case_branches() {
    for pattern_type in ALL_TYPES {
        let mut m = module();
        let found = m.help(pattern_type, &ast::Pattern::Underscore, 3);
        match pattern_type {
            PatternType::FunctionArg | PatternType::CaseBranch => {
                assert_eq!(found, Pattern::Underscore);
                assert!(m.env.problems.is_empty());
            }
            _ => {
                assert_eq!(found, Pattern::UnsupportedPattern(region(3)));
                assert_eq!(
                    m.env.problems,
                    vec![Problem::UnsupportedPattern(pattern_type, region(3))]
                );
            }
        }
    }
}

#[test]
fn strings_are_not_supported() {
    let string = ast::Pattern::StrLiteral("hi");
    let mut m = module();

    assert_eq!(
        m.help(PatternType::Assignment, &string, 2),
        Pattern::UnsupportedPattern(region(2))
    );
    assert!(!is_canonicalizable(&string, PatternType::CaseBranch));
}

#[test]
fn some_patterns_cannot_be_canonicalized() {
    let inner = Located { region: region(1), value: ast::Pattern::Underscore };
    let args = [];
    let blocks = ["a"];
    let patterns = [
        ast::Pattern::Apply(&inner, &args),
        ast::Pattern::RecordField("x", &inner),
        ast::Pattern::QualifiedIdentifier("A.x"),
        ast::Pattern::Malformed("?"),
        ast::Pattern::BlockStrLiteral(&blocks),
        ast::Pattern::EmptyRecordLiteral,
    ];
    for pattern in &patterns {
        assert!(!is_canonicalizable(pattern, PatternType::CaseBranch));
        assert!(!is_canonicalizable(&ast::Pattern::Nested(pattern), PatternType::Assignment));
    }
    let record = ast::Pattern::RecordDestructure(vec![
        Located { region: region(1), value: ast::Pattern::Underscore },
        Located { region: region(1), value: ast::Pattern::EmptyRecordLiteral },
    ]);
    assert!(!is_canonicalizable(&record, PatternType::CaseBranch));
}

#[test]
fn malformed_integers_cannot_be_canonicalized_in_case_branches() {
    let smallest = "-8000000000000000";
    let hex = |string, is_negative| ast::Pattern::NonBase10Literal {
        string,
        base: Base::Hex,
        is_negative,
    };
    assert!(!is_canonicalizable(&ast::Pattern::IntLiteral("12a"), PatternType::CaseBranch));
    assert!(is_canonicalizable(&ast::Pattern::IntLiteral("12a"), PatternType::Assignment));
    assert!(!is_canonicalizable(&hex("g", false), PatternType::CaseBranch));
    assert!(is_canonicalizable(&hex(smallest, false), PatternType::CaseBranch));
    assert!(!is_canonicalizable(&hex(smallest, true), PatternType::CaseBranch));

    assert_eq!(
        module().help(PatternType::CaseBranch, &hex(smallest, false), 1),
        Pattern::IntLiteral(i64::MIN)
    );
}

#[test]
fn surroundings_do_not_matter() {
    let spaces = [CommentOrNewline::Newline, CommentOrNewline::LineComment("x")];
    let name = ast::Pattern::Identifier("x");
    let before = ast::Pattern::SpaceBefore(&name, &spaces);
    let nested = ast::Pattern::Nested(&before);
    let after = ast::Pattern::SpaceAfter(&nested, &spaces);
    let mut m = module();

    assert_eq!(
        m.help(PatternType::Assignment, &after, 1),
        Pattern::Identifier(Symbol::new("Test.blah$", "x"))
    );
}

#[test]
fn every_runtime_error_is_reported() {
    let mut m = module();
    let record = ast::Pattern::RecordDestructure(vec![
        Located { region: region(2), value: ast::Pattern::Underscore },
        Located { region: region(3), value: ast::Pattern::Identifier("x") },
        Located { region: region(4), value: ast::Pattern::GlobalTag("T") },
        Located { region: region(5), value: ast::Pattern::Identifier("x") },
    ]);
    let found = m.help(PatternType::Assignment, &record, 1);

    let parts = match found {
        Pattern::RecordDestructure(parts) => parts,
        other => panic!("not a record: {:?}", other),
    };
    assert_eq!(parts.len(), 4);
    assert_eq!(parts[0].0.value, Pattern::UnsupportedPattern(region(1)));
    assert_eq!(parts[2].0.value, Pattern::Tag(Variable(0), Symbol::from_global_tag("T")));
    let shadowed = Located { region: region(1), value: qualified("Test", "x") };
    assert_eq!(parts[3].0.value, Pattern::Shadowed(shadowed.clone()));
    assert_eq!(
        m.env.problems,
        vec![
            Problem::UnsupportedPattern(PatternType::Assignment, region(1)),
            Problem::Shadowing(shadowed),
        ]
    );
}

#[test]
fn canonicalizing_adds_constraints_first() {
    let mut m = module();
    let record = ast::Pattern::RecordDestructure(vec![
        Located { region: region(2), value: ast::Pattern::Identifier("x") },
    ]);
    let found = canonicalize_pattern(
        &mut m.env,
        &mut m.state,
        &mut m.var_store,
        &mut m.scope,
        PatternType::FunctionArg,
        &record,
        region(1),
        &mut m.shadowable,
        PExpected::NoExpectation(Type::Variable(Variable(99))),
    );

    assert_eq!(found.region, region(1));
    assert_eq!(m.state.vars, vec![Variable(1)]);
    let header = m.state.headers.get(&Symbol::new("Test.blah$", "x")).unwrap();
    assert_eq!(header.region, region(2));
    assert!(matches!(header.value, Type::Variable(Variable(1))));
    assert_eq!(m.state.constraints.len(), 1);
    assert!(matches!(
        m.state.constraints[0],
        Constraint::Pattern(_, PatternCategory::Record, Type::Record(_, _), _)
    ));
    assert!(m.scope.idents.get(&qualified("Test", "x")).is_some());
}

#[test]
fn symbols_come_from_identifiers_only() {
    let identifier = Pattern::Identifier(Symbol::new("a.", "x"));
    assert_eq!(symbols_from_pattern(&identifier), vec![Symbol::new("a.", "x")]);
    assert_eq!(symbols_from_pattern(&Pattern::Underscore), vec![]);
    assert_eq!(
        symbols_from_pattern(&Pattern::Tag(Variable(1), Symbol::from_global_tag("T"))),
        vec![]
    );
    let record = Pattern::RecordDestructure(vec![
        (Located { region: region(1), value: identifier.clone() }, None),
    ]);
    assert_eq!(symbols_from_pattern(&record), vec![]);

    let mut symbols = vec![Symbol::new("", "y")];
    symbols_from_pattern_help(&identifier, &mut symbols);
    assert_eq!(symbols, vec![Symbol::new("", "y"), Symbol::new("a.", "x")]);
}

#[test]
fn clones_are_equal() {
    let leaf = Located { region: region(1), value: Pattern::IntLiteral(3) };
    let patterns = vec![
        Pattern::AppliedTag(Variable(2), Symbol::from_global_tag("T"), vec![leaf.clone()]),
        Pattern::ExactString("s".to_string()),
        Pattern::EmptyRecordLiteral,
        Pattern::RecordDestructure(vec![
            (leaf.clone(), Some(leaf.clone())),
            (leaf.clone(), None),
        ]),
        Pattern::Shadowed(Located { region: region(2), value: unqualified("x") }),
    ];
    for pattern in &patterns {
        assert_eq!(pattern.clone(), *pattern);
    }
}
