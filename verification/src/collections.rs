use crate::ident::{Ident, IdentName, Lowercase};
use crate::region::Region;
use crate::symbol::Symbol;
use vstd::prelude::*;

verus! {

/// The persistent hash map of the `im-rc` crate.
#[verifier::external_type_specification]
#[verifier::external_body]
#[verifier::reject_recursive_types(K)]
#[verifier::reject_recursive_types(V)]
#[verifier::reject_recursive_types(S)]
pub struct ExHashMap<K, V, S>(im_rc::HashMap<K, V, S>);

/// The persistent vector of the `im-rc` crate.
#[verifier::external_type_specification]
#[verifier::external_body]
#[verifier::reject_recursive_types(A)]
pub struct ExVector<A>(im_rc::Vector<A>);

/// The key under which an identifier is stored: its module, if any, and its name.
type IdentKey = (Option<String>, String);

type IdentTable = im_rc::HashMap<IdentKey, (Symbol, Region)>;

/// For each identifier of a scope, its symbol and the region that introduced it.
pub type IdentEntries = Map<IdentName, (Seq<char>, Region)>;

/// An identifier with its symbol and its region.
pub type IdentItem = (IdentName, (Seq<char>, Region));

/// What a symbol and the region it was introduced in say.
pub open spec fn entry_view(entry: (Symbol, Region)) -> (Seq<char>, Region) {
    (entry.0@, entry.1)
}

/// The identifier that a key stands for.
pub open spec fn key_name(key: (Option<String>, String)) -> IdentName {
    match key.0 {
        Some(module) => (Some(module@), key.1@),
        None => (None, key.1@),
    }
}

/// What a hash map of identifiers holds: for each key, the entry stored under it.
pub uninterp spec fn table_entries(
    table: im_rc::HashMap<(Option<String>, String), (Symbol, Region)>,
) -> Map<(Option<Seq<char>>, Seq<char>), (Seq<char>, Region)>;

/// Calls `im_rc::HashMap::new`: the map it makes holds nothing.
#[verifier::external_body]
fn table_new() -> (table: IdentTable)
    ensures
        table_entries(table) == IdentEntries::empty(),
{
    im_rc::HashMap::new()
}

/// Calls `im_rc::HashMap::get`: it finds the entry stored under an equal key,
/// and nothing if no key in the map is equal. Keys are made of strings, so they
/// are equal if they read the same.
#[verifier::external_body]
fn table_get<'a>(table: &'a IdentTable, key: &IdentKey) -> (found: Option<&'a (Symbol, Region)>)
    ensures
        (match found {
            Some(entry) => table_entries(*table).contains_pair(key_name(*key), entry_view(*entry)),
            None => !table_entries(*table).contains_key(key_name(*key)),
        }),
{
    table.get(key)
}

/// Calls `im_rc::HashMap::insert`: the entry is stored under the key, in place of
/// an entry that was stored there before, which is handed back.
#[verifier::external_body]
fn table_insert(table: &mut IdentTable, key: IdentKey, entry: (Symbol, Region)) -> (replaced: Option<
    (Symbol, Region),
>)
    ensures
        table_entries(*final(table)) == table_entries(*old(table)).insert(
            key_name(key),
            entry_view(entry),
        ),
        (match replaced {
            Some(before) => table_entries(*old(table)).contains_pair(
                key_name(key),
                entry_view(before),
            ),
            None => !table_entries(*old(table)).contains_key(key_name(key)),
        }),
{
    table.insert(key, entry)
}

/// Calls `im_rc::HashMap::remove`: nothing is stored under the key any more,
/// and the entry that was stored there, if any, is handed back.
#[verifier::external_body]
fn table_remove(table: &mut IdentTable, key: &IdentKey) -> (removed: Option<(Symbol, Region)>)
    ensures
        table_entries(*final(table)) == table_entries(*old(table)).remove(key_name(*key)),
        (match removed {
            Some(before) => table_entries(*old(table)).contains_pair(
                key_name(*key),
                entry_view(before),
            ),
            None => !table_entries(*old(table)).contains_key(key_name(*key)),
        }),
{
    table.remove(key)
}

/// The identifiers that are in scope at some point, each with the symbol it
/// resolves to and the region that introduced it.
pub struct IdentMap {
    table: IdentTable,
}

impl View for IdentMap {
    type V = IdentEntries;

    closed spec fn view(&self) -> IdentEntries {
        table_entries(self.table)
    }
}

fn ident_key(ident: &Ident) -> (key: IdentKey)
    ensures
        key_name(key) == ident@,
{
    match ident {
        Ident::Unqualified(name) => (None, name.clone()),
        Ident::Qualified(module, name) => (Some(module.clone()), name.clone()),
    }
}

impl IdentMap {
    pub fn new() -> (map: IdentMap)
        ensures
            map@ == IdentEntries::empty(),
    {
        IdentMap { table: table_new() }
    }

    pub fn get(&self, ident: &Ident) -> (found: Option<&(Symbol, Region)>)
        ensures
            (match found {
                Some(entry) => self@.contains_pair(ident@, entry_view(*entry)),
                None => !self@.contains_key(ident@),
            }),
    {
        table_get(&self.table, &ident_key(ident))
    }

    /// Adds an entry, and hands back the one that it replaces.
    pub fn insert(&mut self, ident: Ident, entry: (Symbol, Region)) -> (replaced: Option<
        (Symbol, Region),
    >)
        ensures
            final(self)@ == old(self)@.insert(ident@, entry_view(entry)),
            (match replaced {
                Some(before) => old(self)@.contains_pair(ident@, entry_view(before)),
                None => !old(self)@.contains_key(ident@),
            }),
    {
        table_insert(&mut self.table, ident_key(&ident), entry)
    }

    /// Takes an entry out, and hands it back.
    pub fn remove(&mut self, ident: &Ident) -> (removed: Option<(Symbol, Region)>)
        ensures
            final(self)@ == old(self)@.remove(ident@),
            (match removed {
                Some(before) => old(self)@.contains_pair(ident@, entry_view(before)),
                None => !old(self)@.contains_key(ident@),
            }),
    {
        table_remove(&mut self.table, &ident_key(ident))
    }
}

/// What a vector of identifiers holds, front to back.
pub uninterp spec fn vector_items(
    items: im_rc::Vector<(Ident, (Symbol, Region))>,
) -> Seq<((Option<Seq<char>>, Seq<char>), (Seq<char>, Region))>;

/// Calls `im_rc::Vector::new`: the vector it makes holds nothing.
#[verifier::external_body]
pub(crate) fn vector_new() -> (items: im_rc::Vector<(Ident, (Symbol, Region))>)
    ensures
        vector_items(items) == Seq::<IdentItem>::empty(),
{
    im_rc::Vector::new()
}

/// Calls `im_rc::Vector::push_back`: the item is added behind those that the
/// vector held before.
#[verifier::external_body]
pub(crate) fn vector_push_back(
    items: &mut im_rc::Vector<(Ident, (Symbol, Region))>,
    item: (Ident, (Symbol, Region)),
)
    ensures
        vector_items(*final(items)) == vector_items(*old(items)).push(
            (item.0@, entry_view(item.1)),
        ),
{
    items.push_back(item)
}

/// What can be a key of a [`SendMap`]: keys are told apart by what they say.
pub trait MapKey: View<V = Seq<char>> + Sized {
    fn same_key(&self, other: &Self) -> (same: bool)
        ensures
            same == (self@ == other@),
    ;
}

impl MapKey for Symbol {
    fn same_key(&self, other: &Self) -> (same: bool) {
        self.same(other)
    }
}

impl MapKey for Lowercase {
    fn same_key(&self, other: &Self) -> (same: bool) {
        self.same(other)
    }
}

/// A map that can move between threads.
#[derive(Debug)]
pub struct SendMap<K: MapKey, V> {
    entries: Vec<(K, V)>,
}

impl<K: MapKey, V> SendMap<K, V> {
    /// No key occurs twice.
    #[verifier::type_invariant]
    spec fn keys_differ(self) -> bool {
        distinct_keys(self.entries@)
    }
}

spec fn distinct_keys<K: MapKey, V>(entries: Seq<(K, V)>) -> bool {
    forall|i: int, j: int|
        0 <= i < j < entries.len() ==> #[trigger] entries[i].0@ != #[trigger] entries[j].0@
}

spec fn has_entry<K: MapKey, V>(entries: Seq<(K, V)>, i: int, key: Seq<char>) -> bool {
    0 <= i < entries.len() && entries[i].0@ == key
}

spec fn entries_map<K: MapKey, V>(entries: Seq<(K, V)>) -> Map<Seq<char>, V> {
    Map::new(
        |key: Seq<char>| exists|i: int| has_entry(entries, i, key),
        |key: Seq<char>| entries[choose|i: int| has_entry(entries, i, key)].1,
    )
}

impl<K: MapKey, V> View for SendMap<K, V> {
    type V = Map<Seq<char>, V>;

    closed spec fn view(&self) -> Map<Seq<char>, V> {
        entries_map(self.entries@)
    }
}

proof fn entry_is_mapped<K: MapKey, V>(entries: Seq<(K, V)>, i: int)
    requires
        distinct_keys(entries),
        0 <= i < entries.len(),
    ensures
        entries_map(entries).contains_pair(entries[i].0@, entries[i].1),
{
    let key = entries[i].0@;
    assert(has_entry(entries, i, key));
    let j = choose|j: int| has_entry(entries, j, key);
    assert(has_entry(entries, j, key));
    assert(i == j);
}

/// Storing an entry where its key stands, or at the end if it stands nowhere,
/// inserts it in the map.
proof fn entry_added<K: MapKey, V>(
    before: Seq<(K, V)>,
    after: Seq<(K, V)>,
    at: int,
    key: Seq<char>,
    value: V,
)
    requires
        distinct_keys(before),
        has_entry(before, at, key) || (at == before.len() && forall|i: int|
            !has_entry(before, i, key)),
        after.len() == (if at < before.len() { before.len() } else { before.len() + 1 }),
        after[at].0@ == key,
        after[at].1 == value,
        forall|i: int| 0 <= i < before.len() && i != at ==> after[i] == before[i],
    ensures
        distinct_keys(after),
        entries_map(after) == entries_map(before).insert(key, value),
{
    assert forall|i: int, j: int| 0 <= i < j < after.len() implies #[trigger] after[i].0@
        != #[trigger] after[j].0@ by {
        assert(!(i < before.len() && i != at && has_entry(before, i, key)));
        assert(!(j < before.len() && j != at && has_entry(before, j, key)));
    }
    let left = entries_map(after);
    let right = entries_map(before).insert(key, value);
    assert forall|k: Seq<char>| #[trigger]
        left.dom().contains(k) == right.dom().contains(k) && (left.dom().contains(k) ==> left[k]
            == right[k]) by {
        if k == key {
            entry_is_mapped(after, at);
        } else if right.contains_key(k) {
            let i = choose|i: int| has_entry(before, i, k);
            entry_is_mapped(before, i);
            entry_is_mapped(after, i);
        } else if left.contains_key(k) {
            let i = choose|i: int| has_entry(after, i, k);
            assert(has_entry(before, i, k));
        }
    }
    assert(left =~= right);
}

impl<K: MapKey, V> SendMap<K, V> {
    pub fn new() -> (map: Self)
        ensures
            map@ == Map::<Seq<char>, V>::empty(),
    {
        let map = SendMap { entries: Vec::new() };
        assert(map@ =~= Map::<Seq<char>, V>::empty());
        map
    }

    /// Where the key's entry stands.
    fn position(&self, key: &K) -> (position: Option<usize>)
        ensures
            (match position {
                Some(i) => has_entry(self.entries@, i as int, key@),
                None => forall|i: int| !has_entry(self.entries@, i, key@),
            }),
    {
        let mut i: usize = 0;
        while i < self.entries.len()
            invariant
                i <= self.entries.len(),
                forall|j: int| 0 <= j < i ==> !has_entry(self.entries@, j, key@),
            decreases self.entries.len() - i,
        {
            if self.entries[i].0.same_key(key) {
                return Some(i);
            }
            i += 1;
        }
        None
    }

    pub fn get(&self, key: &K) -> (found: Option<&V>)
        ensures
            (match found {
                Some(value) => self@.contains_pair(key@, *value),
                None => !self@.contains_key(key@),
            }),
    {
        proof {
            use_type_invariant(self);
        }
        match self.position(key) {
            Some(i) => {
                proof {
                    entry_is_mapped(self.entries@, i as int);
                }
                Some(&self.entries[i].1)
            },
            None => None,
        }
    }

    pub fn contains_key(&self, key: &K) -> (found: bool)
        ensures
            found == self@.contains_key(key@),
    {
        self.position(key).is_some()
    }

    /// Stores a value under a key, in place of the one stored there before.
    pub fn insert(&mut self, key: K, value: V)
        ensures
            final(self)@ == old(self)@.insert(key@, value),
    {
        proof {
            use_type_invariant(&*self);
        }
        let position = self.position(&key);
        let ghost before = self.entries@;
        let ghost name = key@;
        let mut entries: Vec<(K, V)> = Vec::new();
        std::mem::swap(&mut self.entries, &mut entries);
        match position {
            Some(i) => {
                entries.set(i, (key, value));
            },
            None => {
                entries.push((key, value));
            },
        }
        proof {
            let at = match position {
                Some(i) => i as int,
                None => before.len() as int,
            };
            entry_added(before, entries@, at, name, value);
        }
        self.entries = entries;
    }
}

/// A key stands for the identifier with its module and its name, and an entry says its
/// symbol and its region.
pub proof fn keys_and_entries_say_what_they_hold(
    module: Option<String>,
    name: String,
    symbol: Symbol,
    region: Region,
)
    ensures
        key_name((module, name)).1 == name@,
        module matches Some(m) ==> key_name((module, name)).0 == Some(m@),
        module is None ==> key_name((module, name)).0 is None,
        entry_view((symbol, region)).0 == symbol@,
        entry_view((symbol, region)).1 == region,
{
}

} // verus!
