use vstd::prelude::*;

verus! {

/// What an identifier says: the module it is qualified with, if any, and its name.
pub type IdentName = (Option<Seq<char>>, Seq<char>);

/// An identifier as it is looked up in a scope.
#[derive(Debug, PartialEq, Eq)]
pub enum Ident {
    Unqualified(String),
    Qualified(String, String),
}

impl View for Ident {
    type V = IdentName;

    open spec fn view(&self) -> IdentName {
        match self {
            Ident::Unqualified(name) => (None, name@),
            Ident::Qualified(module, name) => (Some(module@), name@),
        }
    }
}

impl Clone for Ident {
    fn clone(&self) -> (copy: Self)
        ensures
            copy == *self,
    {
        match self {
            Ident::Unqualified(name) => Ident::Unqualified(name.clone()),
            Ident::Qualified(module, name) => Ident::Qualified(module.clone(), name.clone()),
        }
    }
}

impl Ident {
    /// The identifier's own name, without the module.
    pub fn name(self) -> (name: String)
        ensures
            name@ == self@.1,
    {
        match self {
            Ident::Unqualified(name) => name,
            Ident::Qualified(_, name) => name,
        }
    }
}

/// The name of a record field.
#[derive(Debug, PartialEq, Eq)]
pub struct Lowercase {
    name: String,
}

impl View for Lowercase {
    type V = Seq<char>;

    closed spec fn view(&self) -> Seq<char> {
        self.name@
    }
}

impl Lowercase {
    pub fn new(name: &str) -> (field: Lowercase)
        ensures
            field@ == name@,
    {
        Lowercase { name: name.to_owned() }
    }

    pub fn same(&self, other: &Lowercase) -> (same: bool)
        ensures
            same == (self@ == other@),
    {
        self.name == other.name
    }
}

/// Identifiers say the same if they are qualified with the same module, or both not
/// qualified, and have the same name.
pub proof fn identifiers_are_told_apart(module: String, name: String, other: Ident)
    ensures
        Ident::Unqualified(name)@.0 is None,
        Ident::Unqualified(name)@.1 == name@,
        Ident::Qualified(module, name)@.0 == Some(module@),
        Ident::Qualified(module, name)@.1 == name@,
        Ident::Unqualified(name)@ == other@ <==> (other matches Ident::Unqualified(n) && n@
            == name@),
        Ident::Qualified(module, name)@ == other@ <==> (other matches Ident::Qualified(m, n) && m@
            == module@ && n@ == name@),
{
}

} // verus!
