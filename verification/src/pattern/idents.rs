use crate::ast;
use crate::collections::{vector_items, vector_new, vector_push_back, IdentItem, IdentMap};
use crate::ident::{Ident, IdentName};
use crate::region::{Located, Region};
use crate::scope::Scope;
use crate::symbol::{prefixed_symbol, Symbol};
use im_rc::Vector;
use vstd::prelude::*;
use vstd::std_specs::iter::IteratorSpec;

verus! {

/// Whether the identifiers of a pattern can be told. They cannot where a qualified
/// identifier or an applied tag occurs.
pub open spec fn has_known_idents(pattern: ast::Pattern) -> bool
    decreases pattern,
{
    match pattern {
        ast::Pattern::QualifiedIdentifier(_) | ast::Pattern::Apply(_, _) => false,
        ast::Pattern::RecordDestructure(fields) => forall|i: int|
            0 <= i < fields@.len() ==> has_known_idents((#[trigger] fields@[i]).value),
        ast::Pattern::RecordField(_, guard) => has_known_idents(guard.value),
        ast::Pattern::SpaceBefore(inner, _) => has_known_idents(*inner),
        ast::Pattern::SpaceAfter(inner, _) => has_known_idents(*inner),
        ast::Pattern::Nested(inner) => has_known_idents(*inner),
        _ => true,
    }
}

/// Whether a name stands as an identifier somewhere in a pattern. The name of a
/// record field is none.
pub open spec fn has_identifier(pattern: ast::Pattern, name: Seq<char>) -> bool
    decreases pattern,
{
    match pattern {
        ast::Pattern::Identifier(n) => n@ == name,
        ast::Pattern::RecordDestructure(fields) => exists|i: int|
            0 <= i < fields@.len() && has_identifier((#[trigger] fields@[i]).value, name),
        ast::Pattern::RecordField(_, guard) => has_identifier(guard.value, name),
        ast::Pattern::SpaceBefore(inner, _) => has_identifier(*inner, name),
        ast::Pattern::SpaceAfter(inner, _) => has_identifier(*inner, name),
        ast::Pattern::Nested(inner) => has_identifier(*inner, name),
        _ => false,
    }
}

/// The unqualified identifiers with the names that stand in a pattern.
pub open spec fn pattern_idents(pattern: ast::Pattern) -> Set<IdentName> {
    Set::new(|ident: IdentName| ident.0 is None && has_identifier(pattern, ident.1))
}

/// Takes the identifiers of a pattern out of a scope.
pub fn remove_idents(pattern: &ast::Pattern, idents: &mut IdentMap)
    requires
        has_known_idents(*pattern),
    ensures
        final(idents)@ == old(idents)@.remove_keys(pattern_idents(*pattern)),
    decreases pattern,
{
    match pattern {
        ast::Pattern::Identifier(name) => {
            idents.remove(&Ident::Unqualified((*name).to_owned()));
            assert(idents@ =~= old(idents)@.remove_keys(pattern_idents(*pattern)));
        },
        ast::Pattern::QualifiedIdentifier(_) | ast::Pattern::Apply(_, _) => {
            vstd::pervasive::unreached()
        },
        ast::Pattern::RecordDestructure(patterns) => {
            let mut i: usize = 0;
            while i < patterns.len()
                invariant
                    i <= patterns.len(),
                    decreases_to!(pattern => patterns),
                    forall|j: int|
                        0 <= j < patterns@.len() ==> has_known_idents(
                            (#[trigger] patterns@[j]).value,
                        ),
                    idents@ == old(idents)@.remove_keys(fields_idents(patterns@.take(i as int))),
                decreases patterns.len() - i,
            {
                remove_idents(&patterns[i].value, idents);
                proof {
                    let taken = patterns@.take(i as int);
                    let more = patterns@.take(i + 1);
                    assert forall|ident: IdentName|
                        fields_idents(more).contains(ident) == (fields_idents(taken).contains(ident)
                            || pattern_idents(patterns@[i as int].value).contains(ident)) by {
                        if fields_idents(taken).contains(ident) {
                            let j = choose|j: int|
                                0 <= j < taken.len() && has_identifier(
                                    (#[trigger] taken[j]).value,
                                    ident.1,
                                );
                            assert(has_identifier(more[j].value, ident.1));
                        }
                        if pattern_idents(patterns@[i as int].value).contains(ident) {
                            assert(has_identifier(more[i as int].value, ident.1));
                        }
                        if fields_idents(more).contains(ident) {
                            let j = choose|j: int|
                                0 <= j < more.len() && has_identifier(
                                    (#[trigger] more[j]).value,
                                    ident.1,
                                );
                            if j < i {
                                assert(has_identifier(taken[j].value, ident.1));
                            }
                        }
                    }
                    assert(idents@ =~= old(idents)@.remove_keys(fields_idents(more)));
                }
                i += 1;
            }
            proof {
                assert(patterns@.take(i as int) =~= patterns@);
                assert(fields_idents(patterns@) =~= pattern_idents(*pattern));
            }
        },
        ast::Pattern::RecordField(_, loc_pattern) => {
            remove_idents(&loc_pattern.value, idents);
            assert(pattern_idents(*pattern) =~= pattern_idents(loc_pattern.value));
        },
        ast::Pattern::SpaceBefore(inner, _)
        | ast::Pattern::SpaceAfter(inner, _)
        | ast::Pattern::Nested(inner) => {
            // Ignore the newline/comment info; it doesn't matter in canonicalization.
            remove_idents(inner, idents);
            assert(pattern_idents(*pattern) =~= pattern_idents(**inner));
        },
        ast::Pattern::GlobalTag(_)
        | ast::Pattern::PrivateTag(_)
        | ast::Pattern::IntLiteral(_)
        | ast::Pattern::NonBase10Literal { .. }
        | ast::Pattern::FloatLiteral(_)
        | ast::Pattern::StrLiteral(_)
        | ast::Pattern::BlockStrLiteral(_)
        | ast::Pattern::EmptyRecordLiteral
        | ast::Pattern::Malformed(_)
        | ast::Pattern::Underscore => {
            assert(idents@ =~= old(idents)@.remove_keys(pattern_idents(*pattern)));
        },
    }
}

/// The unqualified identifiers with the names that stand in some parts of a record.
spec fn fields_idents(fields: Seq<Located<ast::Pattern>>) -> Set<IdentName> {
    Set::new(
        |ident: IdentName|
            ident.0 is None && exists|i: int|
                0 <= i < fields.len() && has_identifier((#[trigger] fields[i]).value, ident.1),
    )
}

/// The names that a pattern introduces, in the order in which they stand in it, each
/// with its symbol and its region. The name of a record field is one of them. A part of
/// a record has a region of its own.
pub open spec fn introduced(prefix: Seq<char>, pattern: ast::Pattern, region: Region) -> Seq<
    IdentItem,
>
    decreases pattern,
{
    match pattern {
        ast::Pattern::Identifier(name) => seq![
            ((None, name@), (prefixed_symbol(prefix, name@), region)),
        ],
        ast::Pattern::RecordDestructure(fields) => all_introduced(prefix, fields@),
        ast::Pattern::RecordField(name, guard) => seq![
            ((None, name@), (prefixed_symbol(prefix, name@), region)),
        ] + introduced(prefix, guard.value, guard.region),
        ast::Pattern::SpaceBefore(inner, _) => introduced(prefix, *inner, region),
        ast::Pattern::SpaceAfter(inner, _) => introduced(prefix, *inner, region),
        ast::Pattern::Nested(inner) => introduced(prefix, *inner, region),
        _ => Seq::empty(),
    }
}

/// The names that some patterns introduce, one pattern after the other.
pub open spec fn all_introduced(prefix: Seq<char>, patterns: Seq<Located<ast::Pattern>>) -> Seq<
    IdentItem,
>
    decreases patterns,
{
    if patterns.len() == 0 {
        Seq::empty()
    } else {
        all_introduced(prefix, patterns.drop_last()) + introduced(
            prefix,
            patterns.last().value,
            patterns.last().region,
        )
    }
}

/// helper function for idents_from_patterns
fn add_idents_from_pattern(
    region: &Region,
    pattern: &ast::Pattern,
    scope: &Scope,
    answer: &mut Vector<(Ident, (Symbol, Region))>,
)
    requires
        has_known_idents(*pattern),
    ensures
        vector_items(*final(answer)) == vector_items(*old(answer)) + introduced(
            scope.prefix(),
            *pattern,
            *region,
        ),
    decreases pattern,
{
    match pattern {
        ast::Pattern::Identifier(name) => {
            let symbol = scope.symbol(name);

            vector_push_back(
                answer,
                (Ident::Unqualified((*name).to_owned()), (symbol, *region)),
            );
        },
        ast::Pattern::QualifiedIdentifier(_) | ast::Pattern::Apply(_, _) => {
            vstd::pervasive::unreached()
        },
        ast::Pattern::RecordDestructure(patterns) => {
            let mut i: usize = 0;
            while i < patterns.len()
                invariant
                    i <= patterns.len(),
                    decreases_to!(pattern => patterns),
                    forall|j: int|
                        0 <= j < patterns@.len() ==> has_known_idents(
                            (#[trigger] patterns@[j]).value,
                        ),
                    vector_items(*answer) == vector_items(*old(answer)) + all_introduced(
                        scope.prefix(),
                        patterns@.take(i as int),
                    ),
                decreases patterns.len() - i,
            {
                assert(patterns@.take(i + 1).drop_last() =~= patterns@.take(i as int));
                add_idents_from_pattern(&patterns[i].region, &patterns[i].value, scope, answer);
                i += 1;
            }
            assert(patterns@.take(i as int) =~= patterns@);
        },
        ast::Pattern::RecordField(name, loc_pattern) => {
            let symbol = scope.symbol(name);

            vector_push_back(
                answer,
                (Ident::Unqualified((*name).to_owned()), (symbol, *region)),
            );
            add_idents_from_pattern(&loc_pattern.region, &loc_pattern.value, scope, answer);
        },
        ast::Pattern::SpaceBefore(inner, _)
        | ast::Pattern::SpaceAfter(inner, _)
        | ast::Pattern::Nested(inner) => {
            // Ignore the newline/comment info; it doesn't matter in canonicalization.
            add_idents_from_pattern(region, inner, scope, answer);
        },
        ast::Pattern::GlobalTag(_)
        | ast::Pattern::PrivateTag(_)
        | ast::Pattern::IntLiteral(_)
        | ast::Pattern::NonBase10Literal { .. }
        | ast::Pattern::FloatLiteral(_)
        | ast::Pattern::StrLiteral(_)
        | ast::Pattern::BlockStrLiteral(_)
        | ast::Pattern::EmptyRecordLiteral
        | ast::Pattern::Malformed(_)
        | ast::Pattern::Underscore => {},
    }
}

/// The patterns that an iterator's items refer to.
pub open spec fn listed<'a>(items: Seq<&'a Located<ast::Pattern<'a>>>) -> Seq<
    Located<ast::Pattern<'a>>,
> {
    Seq::new(items.len(), |i: int| *items[i])
}

/// Lists the names that some patterns introduce. The iterator has to be one that is known
/// to come to an end, as those over the collections of std are.
pub fn idents_from_patterns<'a, I>(loc_patterns: I, scope: &Scope) -> (answer: Vector<
    (Ident, (Symbol, Region)),
>) where I: Iterator<Item = &'a Located<ast::Pattern<'a>>>
    requires
        loc_patterns.obeys_prophetic_iter_laws(),
        loc_patterns.decrease() is Some,
        forall|i: int|
            0 <= i < loc_patterns.remaining().len() ==> has_known_idents(
                (#[trigger] listed(loc_patterns.remaining())[i]).value,
            ),
    ensures
        vector_items(answer) == all_introduced(
            scope.prefix(),
            listed(loc_patterns.remaining()),
        ),
{
    let mut answer = vector_new();
    let mut rest = loc_patterns;
    let ghost patterns = listed(loc_patterns.remaining());
    let ghost mut done: int = 0;
    loop
        invariant
            rest.obeys_prophetic_iter_laws(),
            rest.decrease() is Some,
            0 <= done <= patterns.len(),
            listed(rest.remaining()) == patterns.skip(done),
            forall|i: int|
                0 <= i < patterns.len() ==> has_known_idents((#[trigger] patterns[i]).value),
            vector_items(answer) == all_introduced(scope.prefix(), patterns.take(done)),
        ensures
            vector_items(answer) == all_introduced(scope.prefix(), patterns),
        decreases rest.decrease()->0,
    {
        let ghost before = rest.remaining();
        match rest.next() {
            Some(loc_pattern) => {
                proof {
                    assert(listed(before).len() > 0);
                    assert(*loc_pattern == patterns.skip(done)[0]);
                    assert(patterns.take(done + 1).drop_last() =~= patterns.take(done));
                    assert(listed(rest.remaining()) =~= listed(before).drop_first());
                    assert(patterns.skip(done).drop_first() =~= patterns.skip(done + 1));
                    done = done + 1;
                }
                add_idents_from_pattern(
                    &loc_pattern.region,
                    &loc_pattern.value,
                    scope,
                    &mut answer,
                );
            },
            None => {
                proof {
                    assert(listed(before).len() == 0);
                    assert(patterns.take(done) =~= patterns);
                }
                break;
            },
        }
    }
    answer
}

/// Tells whether the identifiers of a pattern can be told.
pub fn idents_are_known(pattern: &ast::Pattern) -> (yes: bool)
    ensures
        yes == has_known_idents(*pattern),
    decreases pattern,
{
    match pattern {
        ast::Pattern::QualifiedIdentifier(_) | ast::Pattern::Apply(_, _) => false,
        ast::Pattern::RecordDestructure(patterns) => {
            let mut i: usize = 0;
            while i < patterns.len()
                invariant
                    i <= patterns.len(),
                    has_known_idents(*pattern) == (forall|j: int|
                        0 <= j < patterns@.len() ==> has_known_idents(
                            (#[trigger] patterns@[j]).value,
                        )),
                    decreases_to!(pattern => patterns),
                    forall|j: int|
                        0 <= j < i ==> has_known_idents((#[trigger] patterns@[j]).value),
                decreases patterns.len() - i,
            {
                if !idents_are_known(&patterns[i].value) {
                    return false;
                }
                i += 1;
            }
            true
        },
        ast::Pattern::RecordField(_, loc_pattern) => idents_are_known(&loc_pattern.value),
        ast::Pattern::SpaceBefore(inner, _)
        | ast::Pattern::SpaceAfter(inner, _)
        | ast::Pattern::Nested(inner) => idents_are_known(inner),
        _ => true,
    }
}

} // verus!
