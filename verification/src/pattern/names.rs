//! Which names each form of pattern introduces, and takes out of a scope.

use super::canonical::context_of;
use super::idents::{
    all_introduced, has_identifier, has_known_idents, introduced, listed, pattern_idents,
};
use super::{symbol_names, PatternType};
use crate::ast;
use crate::collections::{IdentEntries, IdentItem};
use crate::env::Env;
use crate::ident::IdentName;
use crate::region::{Located, Region};
use crate::scope::Scope;
use crate::symbol::Symbol;
use vstd::prelude::*;

verus! {

/// Taking an identifier out of a scope leaves no entry under its name, and every other
/// entry as it was, however long the name is.
pub proof fn identifier_is_removed(name: &str, idents: IdentEntries)
    ensures
        ({
            let after = idents.remove_keys(pattern_idents(ast::Pattern::Identifier(name)));
            &&& !after.contains_key((None, name@))
            &&& forall|other: IdentName|
                other != (None::<Seq<char>>, name@) ==> {
                    &&& #[trigger] after.contains_key(other) == idents.contains_key(other)
                    &&& after.contains_key(other) ==> after[other] == idents[other]
                }
        }),
        pattern_idents(ast::Pattern::Identifier(name)) == set![(None::<Seq<char>>, name@)],
{
    let pattern = ast::Pattern::Identifier(name);
    assert(pattern_idents(pattern) =~= set![(None::<Seq<char>>, name@)]);
}

/// A field with a pattern of its own takes out what that pattern does. The
/// field's own name stays.
pub proof fn field_removes_what_its_pattern_does<'a>(
    name: &'a str,
    part: &'a Located<ast::Pattern<'a>>,
    idents: IdentEntries,
)
    ensures
        idents.remove_keys(pattern_idents(ast::Pattern::RecordField(name, part)))
            == idents.remove_keys(pattern_idents(part.value)),
{
    assert(pattern_idents(ast::Pattern::RecordField(name, part)) =~= pattern_idents(part.value));
}

/// A record without parts takes nothing out, and one with one part more takes
/// out what that part does besides.
pub proof fn record_removes_what_its_parts_do<'a>(
    shorter: Vec<Located<ast::Pattern<'a>>>,
    longer: Vec<Located<ast::Pattern<'a>>>,
    part: Located<ast::Pattern<'a>>,
    idents: IdentEntries,
)
    ensures
        shorter@.len() == 0 ==> idents.remove_keys(
            pattern_idents(ast::Pattern::RecordDestructure(shorter)),
        ) == idents,
        longer@ == shorter@.push(part) ==> idents.remove_keys(
            pattern_idents(ast::Pattern::RecordDestructure(longer)),
        ) == idents.remove_keys(
            pattern_idents(ast::Pattern::RecordDestructure(shorter)),
        ).remove_keys(pattern_idents(part.value)),
{
    let less = ast::Pattern::RecordDestructure(shorter);
    let more = ast::Pattern::RecordDestructure(longer);
    if shorter@.len() == 0 {
        assert(idents.remove_keys(pattern_idents(less)) =~= idents);
    }
    if longer@ == shorter@.push(part) {
        assert forall|name: Seq<char>| #[trigger]
            has_identifier(more, name) == (has_identifier(less, name) || has_identifier(
                part.value,
                name,
            )) by {
            let last = shorter@.len() as int;
            assert(more->RecordDestructure_0@[last] == part);
            if has_identifier(part.value, name) {
                assert(has_identifier(longer@[last].value, name));
            }
            if has_identifier(more, name) {
                assert(exists|i: int|
                    0 <= i < longer@.len() && has_identifier((#[trigger] longer@[i]).value, name));
                let i = choose|i: int|
                    0 <= i < longer@.len() && has_identifier((#[trigger] longer@[i]).value, name);
                assert(longer@[i] == more->RecordDestructure_0@[i]);
                if i < shorter@.len() {
                    assert(has_identifier(less->RecordDestructure_0@[i].value, name));
                    assert(has_identifier(less, name));
                } else {
                    assert(longer@[i] == part);
                    assert(has_identifier(part.value, name));
                }
            }
            if has_identifier(less, name) {
                let i = choose|i: int|
                    0 <= i < shorter@.len() && has_identifier((#[trigger] shorter@[i]).value, name);
                assert(shorter@[i] == less->RecordDestructure_0@[i]);
                assert(has_identifier(longer@[i].value, name));
            }
        }
        assert(idents.remove_keys(pattern_idents(more)) =~= idents.remove_keys(
            pattern_idents(less),
        ).remove_keys(pattern_idents(part.value)));
    }
}

/// Taking a record out of a scope leaves no entry under the name of any identifier among
/// its parts, and if all its parts are identifiers, it leaves every other entry as it was.
pub proof fn names_of_parts_are_removed<'a>(
    fields: Vec<Located<ast::Pattern<'a>>>,
    idents: IdentEntries,
)
    ensures
        ({
            let after = idents.remove_keys(
                pattern_idents(ast::Pattern::RecordDestructure(fields)),
            );
            &&& forall|i: int|
                0 <= i < fields@.len() ==> ((#[trigger] fields@[i]).value matches
                    ast::Pattern::Identifier(name) ==> !after.contains_key((None, name@)))
            &&& (forall|i: int|
                0 <= i < fields@.len() ==> (#[trigger] fields@[i]).value is Identifier)
                ==> forall|other: IdentName|
                (other.0 is Some || forall|i: int|
                    0 <= i < fields@.len() ==> (#[trigger] fields@[i]).value->Identifier_0@
                        != other.1) ==> {
                    &&& #[trigger] after.contains_key(other) == idents.contains_key(other)
                    &&& after.contains_key(other) ==> after[other] == idents[other]
                }
        }),
{
    reveal_with_fuel(has_identifier, 2);
    let record = ast::Pattern::RecordDestructure(fields);
    let after = idents.remove_keys(pattern_idents(record));
    assert forall|i: int| 0 <= i < fields@.len() implies ((#[trigger] fields@[i]).value matches
        ast::Pattern::Identifier(name) ==> !after.contains_key((None, name@))) by {
        if fields@[i].value is Identifier {
            let name = fields@[i].value->Identifier_0@;
            assert(has_identifier(record->RecordDestructure_0@[i].value, name));
            assert(has_identifier(record, name));
        }
    }
}

/// Patterns that name nothing take nothing out, and list nothing.
pub proof fn nameless_patterns_do_nothing<'a>(
    prefix: Seq<char>,
    text: &'a str,
    base: ast::Base,
    is_negative: bool,
    lines: &'a [&'a str],
    region: Region,
    idents: IdentEntries,
    pattern: ast::Pattern<'a>,
)
    requires
        pattern == ast::Pattern::GlobalTag(text) || pattern == ast::Pattern::PrivateTag(text)
            || pattern == ast::Pattern::IntLiteral(text) || pattern == (
        ast::Pattern::NonBase10Literal { string: text, base, is_negative }) || pattern
            == ast::Pattern::FloatLiteral(text) || pattern == ast::Pattern::StrLiteral(text)
            || pattern == ast::Pattern::BlockStrLiteral(lines) || pattern
            == ast::Pattern::EmptyRecordLiteral || pattern == ast::Pattern::Malformed(text)
            || pattern == ast::Pattern::Underscore,
    ensures
        has_known_idents(pattern),
        idents.remove_keys(pattern_idents(pattern)) == idents,
        introduced(prefix, pattern, region).len() == 0,
{
    assert(idents.remove_keys(pattern_idents(pattern)) =~= idents);
}

/// The names of a pattern can be told unless a qualified identifier or an
/// applied tag stands in it.
pub proof fn forms_with_known_names<'a>(
    text: &'a str,
    part: &'a Located<ast::Pattern<'a>>,
    args: &'a [Located<ast::Pattern<'a>>],
    fields: Vec<Located<ast::Pattern<'a>>>,
)
    ensures
        has_known_idents(ast::Pattern::Identifier(text)),
        has_known_idents(ast::Pattern::RecordField(text, part)) == has_known_idents(part.value),
        has_known_idents(ast::Pattern::RecordDestructure(fields)) <==> (forall|i: int|
            0 <= i < fields@.len() ==> has_known_idents((#[trigger] fields@[i]).value)),
        !has_known_idents(ast::Pattern::QualifiedIdentifier(text)),
        !has_known_idents(ast::Pattern::Apply(part, args)),
{
    reveal_with_fuel(has_known_idents, 2);
    let record = ast::Pattern::RecordDestructure(fields);
    if has_known_idents(record) {
        assert forall|i: int| 0 <= i < fields@.len() implies has_known_idents(
            (#[trigger] fields@[i]).value,
        ) by {
            assert(record->RecordDestructure_0@[i] == fields@[i]);
        }
    }
}

/// An identifier is listed once, unqualified, with the symbol of its name and the
/// region it stands in, however long the name is. It lists nothing else.
pub proof fn identifier_is_listed(prefix: Seq<char>, name: &str, region: Region)
    ensures
        ({
            let items = introduced(prefix, ast::Pattern::Identifier(name), region);
            &&& items.len() == 1
            &&& items[0] == ((None::<Seq<char>>, name@), (prefix + name@, region))
        }),
{
}

/// A field is listed first, in the region it stands in, and then what its pattern lists, in that
/// pattern's own region.
pub proof fn field_is_listed_before_its_pattern<'a>(
    prefix: Seq<char>,
    name: &'a str,
    part: &'a Located<ast::Pattern<'a>>,
    region: Region,
)
    ensures
        ({
            let items = introduced(prefix, ast::Pattern::RecordField(name, part), region);
            &&& items.len() > 0
            &&& items[0] == ((None::<Seq<char>>, name@), (prefix + name@, region))
            &&& items.drop_first() == introduced(prefix, part.value, part.region)
        }),
{
    let items = introduced(prefix, ast::Pattern::RecordField(name, part), region);
    assert(items.drop_first() =~= introduced(prefix, part.value, part.region));
}

/// A record without parts lists nothing, and one with one part more lists what that part does
/// behind the rest, in the part's own region, wherever the record itself stands.
pub proof fn record_lists_what_its_parts_do<'a>(
    prefix: Seq<char>,
    shorter: Vec<Located<ast::Pattern<'a>>>,
    longer: Vec<Located<ast::Pattern<'a>>>,
    part: Located<ast::Pattern<'a>>,
    region: Region,
)
    ensures
        shorter@.len() == 0 ==> introduced(
            prefix,
            ast::Pattern::RecordDestructure(shorter),
            region,
        ).len() == 0,
        longer@ == shorter@.push(part) ==> introduced(
            prefix,
            ast::Pattern::RecordDestructure(longer),
            region,
        ) == introduced(prefix, ast::Pattern::RecordDestructure(shorter), region) + introduced(
            prefix,
            part.value,
            part.region,
        ),
{
    let less = ast::Pattern::RecordDestructure(shorter);
    let more = ast::Pattern::RecordDestructure(longer);
    assert(introduced(prefix, less, region) == all_introduced(prefix, shorter@));
    assert(introduced(prefix, more, region) == all_introduced(prefix, longer@));
    if longer@ == shorter@.push(part) {
        all_list_what_each_does(prefix, shorter@, part);
    }
}

/// Some patterns list what each of them does, one behind the other, each in its own region.
pub proof fn all_list_what_each_does<'a>(
    prefix: Seq<char>,
    patterns: Seq<Located<ast::Pattern<'a>>>,
    next: Located<ast::Pattern<'a>>,
)
    ensures
        all_introduced(prefix, Seq::<Located<ast::Pattern<'a>>>::empty()) == Seq::<
            IdentItem,
        >::empty(),
        all_introduced(prefix, patterns.push(next)) == all_introduced(prefix, patterns)
            + introduced(prefix, next.value, next.region),
{
    assert(patterns.push(next).drop_last() =~= patterns);
}

/// What an iterator lists is each of its items, in order.
pub proof fn each_item_is_listed<'a>(items: Seq<&'a Located<ast::Pattern<'a>>>)
    ensures
        listed(items).len() == items.len(),
        forall|i: int| 0 <= i < items.len() ==> #[trigger] listed(items)[i] == *items[i],
{
}

/// The names of some symbols are what each of them says, in order.
pub proof fn each_symbol_is_named(symbols: Seq<Symbol>)
    ensures
        symbol_names(symbols).len() == symbols.len(),
        forall|i: int| 0 <= i < symbols.len() ==> #[trigger] symbol_names(symbols)[i] == symbols[i]@,
{
}

/// The context of a canonicalization is its module's path, the scope's prefix,
/// and the kind of pattern.
pub proof fn context_says_what_is_given(env: Env, scope: Scope, pattern_type: PatternType)
    ensures
        context_of(env, scope, pattern_type).home == env.home@,
        context_of(env, scope, pattern_type).prefix == scope.symbol_prefix@,
        context_of(env, scope, pattern_type).pattern_type == pattern_type,
        scope.prefix() == scope.symbol_prefix@,
{
}

} // verus!
