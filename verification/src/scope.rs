use crate::collections::IdentMap;
use crate::symbol::{prefixed_symbol, Symbol};
use vstd::prelude::*;

verus! {

/// The names that can be used at some point of a module.
pub struct Scope {
    pub idents: IdentMap,
    pub symbol_prefix: String,
}

impl Scope {
    /// What the symbols of names declared in this scope begin with.
    pub open spec fn prefix(self) -> Seq<char> {
        self.symbol_prefix@
    }

    pub fn new(symbol_prefix: &str, idents: IdentMap) -> (scope: Scope)
        ensures
            scope.prefix() == symbol_prefix@,
            scope.idents == idents,
    {
        Scope { idents, symbol_prefix: symbol_prefix.to_owned() }
    }

    /// The symbol of a name that this scope declares.
    pub fn symbol(&self, name: &str) -> (symbol: Symbol)
        ensures
            symbol@ == prefixed_symbol(self.prefix(), name@),
    {
        Symbol::new(self.symbol_prefix.as_str(), name)
    }
}

} // verus!
