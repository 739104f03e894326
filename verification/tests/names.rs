use can_pattern::ast;
use can_pattern::collections::IdentMap;
use can_pattern::ident::Ident;
use can_pattern::pattern::idents::{idents_are_known, idents_from_patterns, remove_idents};
use can_pattern::region::{Located, Region};
use can_pattern::scope::Scope;
use can_pattern::symbol::Symbol;

fn region(line: u32) -> Region {
    Region { start_line: line, end_line: line, start_col: 0, end_col: 3 }
}

fn at(line: u32, value: ast::Pattern<'_>) -> Located<ast::Pattern<'_>> {
    Located { region: region(line), value }
}

fn unqualified(name: &str) -> Ident {
    Ident::Unqualified(name.to_string())
}

fn qualified(home: &str, name: &str) -> Ident {
    Ident::Qualified(home.to_string(), name.to_string())
}

fn entry(name: &str, line: u32) -> (Symbol, Region) {
    (Symbol::new("p$", name), region(line))
}

fn list(patterns: &[Located<ast::Pattern>]) -> Vec<(Ident, (Symbol, Region))> {
    assert!(patterns.iter().all(|p| idents_are_known(&p.value)));
    let scope = Scope::new("p$", IdentMap::new());
    idents_from_patterns(patterns.iter(), &scope).iter().cloned().collect()
}

fn scope_of(names: &[&str]) -> IdentMap {
    let mut idents = IdentMap::new();
    for name in names {
        idents.insert(unqualified(name), entry(name, 1));
    }
    idents
}

#[test]
fn names_are_listed_in_order() {
    let guard = at(5, ast::Pattern::Identifier("z"));
    let patterns = [
        at(1, ast::Pattern::Identifier("a")),
        at(2, ast::Pattern::Underscore),
        at(
            3,
            ast::Pattern::RecordDestructure(vec![
                at(4, ast::Pattern::RecordField("y", &guard)),
                at(6, ast::Pattern::Identifier("b")),
            ]),
        ),
        at(7, ast::Pattern::GlobalTag("T")),
        at(8, ast::Pattern::Identifier("a")),
    ];
    assert_eq!(
        list(&patterns),
        vec![
            (unqualified("a"), entry("a", 1)),
            (unqualified("y"), entry("y", 4)),
            (unqualified("z"), entry("z", 5)),
            (unqualified("b"), entry("b", 6)),
            (unqualified("a"), entry("a", 8)),
        ]
    );
    assert_eq!(list(&[]), vec![]);
}

#[test]
fn many_names_are_listed() {
    let names: Vec<String> = (0..300).map(|i| format!("n{}", i)).collect();
    let patterns: Vec<Located<ast::Pattern>> = names
        .iter()
        .enumerate()
        .map(|(i, name)| at(i as u32, ast::Pattern::Identifier(name)))
        .collect();
    let listed = list(&patterns);
    assert_eq!(listed.len(), 300);
    for (i, name) in names.iter().enumerate() {
        assert_eq!(listed[i], (unqualified(name), entry(name, i as u32)));
    }
}

#[test]
fn names_in_spaces_keep_the_outer_region() {
    let spaces = [];
    let name = ast::Pattern::Identifier("x");
    let before = ast::Pattern::SpaceBefore(&name, &spaces);
    let after = ast::Pattern::SpaceAfter(&before, &spaces);

    assert_eq!(
        list(&[at(9, ast::Pattern::Nested(&after))]),
        vec![(unqualified("x"), entry("x", 9))]
    );
}

#[test]
fn removing_takes_out_identifiers_but_not_field_names() {
    let guard = at(5, ast::Pattern::Identifier("z"));
    let record = ast::Pattern::RecordDestructure(vec![
        at(4, ast::Pattern::RecordField("y", &guard)),
        at(6, ast::Pattern::Identifier("b")),
    ]);
    let mut idents = scope_of(&["b", "c", "y", "z"]);
    idents.insert(qualified("Home", "b"), entry("b", 2));
    assert!(idents_are_known(&record));
    remove_idents(&record, &mut idents);

    assert_eq!(idents.get(&unqualified("b")), None);
    assert_eq!(idents.get(&unqualified("z")), None);
    assert_eq!(idents.get(&unqualified("c")), Some(&entry("c", 1)));
    assert_eq!(idents.get(&unqualified("y")), Some(&entry("y", 1)));
    assert_eq!(idents.get(&qualified("Home", "b")), Some(&entry("b", 2)));
}

#[test]
fn removing_undoes_introducing() {
    let record = ast::Pattern::RecordDestructure(vec![
        at(4, ast::Pattern::Identifier("a")),
        at(6, ast::Pattern::Identifier("b")),
    ]);
    let patterns = [at(1, record)];
    let mut idents = scope_of(&["c"]);
    for (ident, found) in list(&patterns) {
        idents.insert(ident, found);
    }
    assert!(idents.get(&unqualified("a")).is_some());
    remove_idents(&patterns[0].value, &mut idents);

    assert_eq!(idents.get(&unqualified("a")), None);
    assert_eq!(idents.get(&unqualified("b")), None);
    assert_eq!(idents.get(&unqualified("c")), Some(&entry("c", 1)));

    remove_idents(&patterns[0].value, &mut idents);
    assert_eq!(idents.get(&unqualified("c")), Some(&entry("c", 1)));
}

#[test]
fn literals_introduce_no_names() {
    let blocks = ["x"];
    let patterns = [
        at(1, ast::Pattern::PrivateTag("x")),
        at(1, ast::Pattern::IntLiteral("x")),
        at(1, ast::Pattern::FloatLiteral("x")),
        at(1, ast::Pattern::StrLiteral("x")),
        at(1, ast::Pattern::BlockStrLiteral(&blocks)),
        at(1, ast::Pattern::EmptyRecordLiteral),
        at(1, ast::Pattern::Malformed("x")),
    ];
    assert_eq!(list(&patterns), vec![]);
    let mut idents = scope_of(&["x"]);
    for pattern in &patterns {
        remove_idents(&pattern.value, &mut idents);
    }
    assert_eq!(idents.get(&unqualified("x")), Some(&entry("x", 1)));
}

#[test]
fn names_of_some_patterns_are_not_known() {
    let inner = at(1, ast::Pattern::Underscore);
    let args = [];
    let apply = at(1, ast::Pattern::Apply(&inner, &args));
    let qualified = at(1, ast::Pattern::QualifiedIdentifier("A.x"));

    assert!(!idents_are_known(&apply.value));
    assert!(!idents_are_known(&qualified.value));
    assert!(!idents_are_known(&ast::Pattern::Nested(&apply.value)));
    assert!(!idents_are_known(&ast::Pattern::RecordField("x", &qualified)));
    let record = vec![at(1, ast::Pattern::Underscore), apply];
    assert!(!idents_are_known(&ast::Pattern::RecordDestructure(record)));
}
