pub mod calls;
pub mod canonical;
pub mod constrain;
pub mod demands;
pub mod forms;
pub mod idents;
pub mod laws;
pub mod names;

pub use canonical::{canonicalize_pattern, canonicalize_pattern_identifier};
pub use constrain::PatternState;
pub use idents::{idents_from_patterns, remove_idents};

use crate::ident::{Ident, IdentName};
use crate::region::{Located, Region};
use crate::subs::Variable;
use crate::symbol::Symbol;
use vstd::prelude::*;

verus! {

/// Different patterns are supported in different circumstances.
/// For example, case branches can pattern match on number literals, but
/// assignments and function args can't. Underscore is supported in function
/// arg patterns and in case branch patterns, but not in assignments.
#[derive(Debug, Clone, Copy, PartialEq, Eq, Hash, Structural)]
pub enum PatternType {
    TopLevelDef,
    Assignment,
    FunctionArg,
    CaseBranch,
}

/// A pattern, including possible problems (e.g. shadowing) so that
/// codegen can generate a runtime error if this pattern is reached.
#[derive(Debug, PartialEq)]
pub enum Pattern {
    Identifier(Symbol),
    Tag(Variable, Symbol),
    AppliedTag(Variable, Symbol, Vec<Located<Pattern>>),
    IntLiteral(i64),
    /// The text of the literal. Whoever needs the number itself reads it from there.
    FloatLiteral(String),
    ExactString(String),
    RecordDestructure(Vec<(Located<Pattern>, Option<Located<Pattern>>)>),
    EmptyRecordLiteral,
    Underscore,
    // Runtime exceptions
    Shadowed(Located<Ident>),
    // Example: (5 = 1 + 2) is an unsupported pattern in an assignment; Int patterns aren't allowed in assignments!
    UnsupportedPattern(Region),
}

/// What a pattern says.
pub enum PatternView {
    Identifier(Seq<char>),
    Tag(Variable, Seq<char>),
    AppliedTag(Variable, Seq<char>, Seq<Located<PatternView>>),
    IntLiteral(i64),
    FloatLiteral(Seq<char>),
    ExactString(Seq<char>),
    RecordDestructure(Seq<(Located<PatternView>, Option<Located<PatternView>>)>),
    EmptyRecordLiteral,
    Underscore,
    Shadowed(Located<IdentName>),
    UnsupportedPattern(Region),
}

impl Pattern {
    pub open spec fn model(self) -> PatternView
        decreases self,
    {
        match self {
            Pattern::Identifier(symbol) => PatternView::Identifier(symbol@),
            Pattern::Tag(variable, symbol) => PatternView::Tag(variable, symbol@),
            Pattern::AppliedTag(variable, symbol, args) => PatternView::AppliedTag(
                variable,
                symbol@,
                Seq::new(
                    args@.len(),
                    |i: int|
                        if 0 <= i < args@.len() {
                            Located { region: args@[i].region, value: args@[i].value.model() }
                        } else {
                            arbitrary()
                        },
                ),
            ),
            Pattern::IntLiteral(value) => PatternView::IntLiteral(value),
            Pattern::FloatLiteral(text) => PatternView::FloatLiteral(text@),
            Pattern::ExactString(text) => PatternView::ExactString(text@),
            Pattern::RecordDestructure(fields) => PatternView::RecordDestructure(
                Seq::new(
                    fields@.len(),
                    |i: int|
                        if 0 <= i < fields@.len() {
                            (
                                Located {
                                    region: fields@[i].0.region,
                                    value: fields@[i].0.value.model(),
                                },
                                match fields@[i].1 {
                                    Some(guard) => Some(
                                        Located {
                                            region: guard.region,
                                            value: guard.value.model(),
                                        },
                                    ),
                                    None => None,
                                },
                            )
                        } else {
                            arbitrary()
                        },
                ),
            ),
            Pattern::EmptyRecordLiteral => PatternView::EmptyRecordLiteral,
            Pattern::Underscore => PatternView::Underscore,
            Pattern::Shadowed(ident) => PatternView::Shadowed(ident@),
            Pattern::UnsupportedPattern(region) => PatternView::UnsupportedPattern(region),
        }
    }
}

impl View for Pattern {
    type V = PatternView;

    open spec fn view(&self) -> PatternView {
        self.model()
    }
}

impl Clone for Pattern {
    fn clone(&self) -> (copy: Self)
        ensures
            copy@ == self@,
        decreases self,
    {
        match self {
            Pattern::Identifier(symbol) => Pattern::Identifier(symbol.clone()),
            Pattern::Tag(variable, symbol) => Pattern::Tag(*variable, symbol.clone()),
            Pattern::AppliedTag(variable, symbol, args) => {
                let mut copies: Vec<Located<Pattern>> = Vec::new();
                let mut i: usize = 0;
                while i < args.len()
                    invariant
                        i == copies.len() <= args.len(),
                        decreases_to!(self => args),
                        forall|j: int|
                            0 <= j < i ==> copies[j].region == args[j].region
                                && copies[j].value.model() == #[trigger] args[j].value.model(),
                    decreases args.len() - i,
                {
                    copies.push(Located::at(args[i].region, args[i].value.clone()));
                    i += 1;
                }
                let copy = Pattern::AppliedTag(*variable, symbol.clone(), copies);
                proof {
                    let left = copy.model()->AppliedTag_2;
                    let right = self.model()->AppliedTag_2;
                    assert forall|j: int| 0 <= j < left.len() implies left[j] == right[j] by {
                        assert(copies[j].value.model() == args[j].value.model());
                    }
                    assert(left =~= right);
                }
                copy
            },
            Pattern::IntLiteral(value) => Pattern::IntLiteral(*value),
            Pattern::FloatLiteral(text) => Pattern::FloatLiteral(text.clone()),
            Pattern::ExactString(text) => Pattern::ExactString(text.clone()),
            Pattern::RecordDestructure(fields) => {
                let mut copies: Vec<(Located<Pattern>, Option<Located<Pattern>>)> = Vec::new();
                let mut i: usize = 0;
                while i < fields.len()
                    invariant
                        i == copies.len() <= fields.len(),
                        decreases_to!(self => fields),
                        forall|j: int|
                            0 <= j < i ==> #[trigger] copies[j].0@ == fields[j].0@ && (
                            match fields[j].1 {
                                Some(guard) => copies[j].1 matches Some(copy) && copy@ == guard@,
                                None => copies[j].1 is None,
                            }),
                    decreases fields.len() - i,
                {
                    let field = &fields[i];
                    let guard = match &field.1 {
                        Some(guard) => Some(Located::at(guard.region, guard.value.clone())),
                        None => None,
                    };
                    copies.push((Located::at(field.0.region, field.0.value.clone()), guard));
                    i += 1;
                }
                let copy = Pattern::RecordDestructure(copies);
                proof {
                    let left = copy.model()->RecordDestructure_0;
                    let right = self.model()->RecordDestructure_0;
                    assert forall|j: int| 0 <= j < left.len() implies left[j] == right[j] by {
                        assert(copies[j].0@ == fields[j].0@);
                    }
                    assert(left =~= right);
                }
                copy
            },
            Pattern::EmptyRecordLiteral => Pattern::EmptyRecordLiteral,
            Pattern::Underscore => Pattern::Underscore,
            Pattern::Shadowed(ident) => Pattern::Shadowed(
                Located::at(ident.region, ident.value.clone()),
            ),
            Pattern::UnsupportedPattern(region) => Pattern::UnsupportedPattern(*region),
        }
    }
}

/// The symbols that a canonical pattern is itself a name for.
pub open spec fn named_symbols(pattern: PatternView) -> Seq<Seq<char>> {
    match pattern {
        PatternView::Identifier(symbol) => seq![symbol],
        _ => Seq::empty(),
    }
}

/// What some symbols say.
pub open spec fn symbol_names(symbols: Seq<Symbol>) -> Seq<Seq<char>> {
    symbols.map_values(|symbol: Symbol| symbol@)
}

/// Lists the symbols that a canonical pattern is a name for. Those of the parts of a
/// record are not among them.
pub fn symbols_from_pattern(pattern: &Pattern) -> (symbols: Vec<Symbol>)
    ensures
        symbol_names(symbols@) == named_symbols(pattern@),
{
    let mut symbols: Vec<Symbol> = Vec::new();
    symbols_from_pattern_help(pattern, &mut symbols);

    assert(symbol_names(symbols@) =~= named_symbols(pattern@));
    symbols
}

/// Adds to some symbols those that a canonical pattern is a name for.
pub fn symbols_from_pattern_help(pattern: &Pattern, symbols: &mut Vec<Symbol>)
    ensures
        symbol_names(final(symbols)@) == symbol_names(old(symbols)@) + named_symbols(pattern@),
{
    if let Pattern::Identifier(symbol) = pattern {
        symbols.push(symbol.clone());
    }
    assert(symbol_names(symbols@) =~= symbol_names(old(symbols)@) + named_symbols(pattern@));
}

} // verus!
