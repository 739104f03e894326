use vstd::prelude::*;
use vstd::string::*;

verus! {

/// The globally unique name that an identifier or a tag resolves to.
#[derive(Debug, PartialEq, Eq)]
pub struct Symbol {
    name: String,
}

/// The symbol of a name that is declared under a scope's prefix.
pub open spec fn prefixed_symbol(prefix: Seq<char>, name: Seq<char>) -> Seq<char> {
    prefix + name
}

/// The symbol of a private tag: its home module, a dot, and the tag's name.
pub open spec fn private_tag_symbol(home: Seq<char>, name: Seq<char>) -> Seq<char> {
    home + seq!['.'] + name
}

impl View for Symbol {
    type V = Seq<char>;

    closed spec fn view(&self) -> Seq<char> {
        self.name@
    }
}

impl Clone for Symbol {
    fn clone(&self) -> (copy: Self)
        ensures
            copy == *self,
    {
        Symbol { name: self.name.clone() }
    }
}

impl Symbol {
    pub fn new(prefix: &str, name: &str) -> (symbol: Symbol)
        ensures
            symbol@ == prefixed_symbol(prefix@, name@),
    {
        Symbol { name: prefix.to_owned().concat(name) }
    }

    /// Global tags mean the same thing in every module.
    pub fn from_global_tag(name: &str) -> (symbol: Symbol)
        ensures
            symbol@ == name@,
    {
        Symbol { name: name.to_owned() }
    }

    /// Private tags belong to the module that uses them.
    pub fn from_private_tag(home: &str, name: &str) -> (symbol: Symbol)
        ensures
            symbol@ == private_tag_symbol(home@, name@),
    {
        proof {
            reveal_strlit(".");
            assert("."@ =~= seq!['.']);
        }
        Symbol { name: home.to_owned().concat(".").concat(name) }
    }

    pub fn same(&self, other: &Symbol) -> (same: bool)
        ensures
            same == (self@ == other@),
    {
        self.name == other.name
    }

    pub fn as_str(&self) -> (name: &str)
        ensures
            name@ == self@,
    {
        self.name.as_str()
    }
}

/// A name's symbol is as long as the prefix and the name together, begins with the prefix and ends
/// with the name. So under one prefix different names have different symbols.
pub proof fn symbols_differ_as_names_do(prefix: Seq<char>, name: Seq<char>, other: Seq<char>)
    ensures
        prefixed_symbol(prefix, name).len() == prefix.len() + name.len(),
        prefixed_symbol(prefix, name).take(prefix.len() as int) == prefix,
        prefixed_symbol(prefix, name).skip(prefix.len() as int) == name,
        prefixed_symbol(prefix, name) == prefixed_symbol(prefix, other) <==> name == other,
{
    let len = prefix.len() as int;
    assert(prefixed_symbol(prefix, name).take(len) =~= prefix);
    assert(prefixed_symbol(prefix, name).skip(len) =~= name);
    assert(prefixed_symbol(prefix, other).skip(len) =~= other);
}

/// A private tag's symbol begins with the module, ends with the tag's name and has
/// nothing but a dot between them. So the tags of one module have different symbols.
pub proof fn private_symbols_differ_as_tags_do(home: Seq<char>, name: Seq<char>, other: Seq<char>)
    ensures
        private_tag_symbol(home, name).len() == home.len() + 1 + name.len(),
        private_tag_symbol(home, name).take(home.len() as int) == home,
        private_tag_symbol(home, name)[home.len() as int] == '.',
        private_tag_symbol(home, name).skip(home.len() as int + 1) == name,
        private_tag_symbol(home, name) == private_tag_symbol(home, other) <==> name == other,
{
    let len = home.len() as int;
    assert(private_tag_symbol(home, name).take(len) =~= home);
    assert(private_tag_symbol(home, name).skip(len + 1) =~= name);
    assert(private_tag_symbol(home, other).skip(len + 1) =~= other);
}

} // verus!
