//! The symbol table: the address of every label.
use vstd::prelude::*;

verus! {

/// One label and its address.
pub struct Symbol {
    pub name: String,
    pub address: u16,
}

/// The address of the first entry of `entries` named `name`, if there is one.
pub open spec fn find(entries: Seq<Symbol>, name: Seq<char>) -> Option<u16>
    decreases entries.len(),
{
    if entries.len() == 0 {
        None
    } else if entries[0].name@ == name {
        Some(entries[0].address)
    } else {
        find(entries.drop_first(), name)
    }
}

/// Looking a name up in a table with one more entry: an earlier entry of
/// that name wins, else the new entry counts if it has the name.
proof fn lemma_find_push(entries: Seq<Symbol>, symbol: Symbol, name: Seq<char>)
    ensures
        find(entries.push(symbol), name) == if find(entries, name).is_some() {
            find(entries, name)
        } else if symbol.name@ == name {
            Some(symbol.address)
        } else {
            None
        },
    decreases entries.len(),
{
    let longer = entries.push(symbol);
    if entries.len() == 0 {
        assert(longer.drop_first() =~= Seq::<Symbol>::empty());
        assert(find(Seq::<Symbol>::empty(), name).is_none());
    } else {
        assert(longer.drop_first() =~= entries.drop_first().push(symbol));
        lemma_find_push(entries.drop_first(), symbol, name);
    }
}

/// Looking a name up from position `from` on.
proof fn lemma_find_skip(entries: Seq<Symbol>, name: Seq<char>, from: int)
    requires
        0 <= from < entries.len(),
        forall|i: int| 0 <= i < from ==> entries[i].name@ != name,
    ensures
        find(entries, name) == find(entries.skip(from), name),
    decreases from,
{
    if from > 0 {
        assert(entries.drop_first().skip(from - 1) =~= entries.skip(from));
        if from - 1 < entries.drop_first().len() {
            lemma_find_skip(entries.drop_first(), name, from - 1);
        }
    } else {
        assert(entries.skip(0) =~= entries);
    }
}

/// A table without any entry of a name does not know the name.
proof fn lemma_find_none(entries: Seq<Symbol>, name: Seq<char>)
    requires
        forall|i: int| 0 <= i < entries.len() ==> entries[i].name@ != name,
    ensures
        find(entries, name).is_none(),
    decreases entries.len(),
{
    if entries.len() > 0 {
        lemma_find_none(entries.drop_first(), name);
    }
}

/// The labels of a program, each with the address it stands for.
pub struct SymbolTable {
    pub entries: Vec<Symbol>,
}

impl View for SymbolTable {
    type V = Map<Seq<char>, u16>;

    /// The table as a map from names to addresses.
    open spec fn view(&self) -> Map<Seq<char>, u16> {
        Map::new(
            |name: Seq<char>| find(self.entries@, name).is_some(),
            |name: Seq<char>| find(self.entries@, name).unwrap(),
        )
    }
}

impl SymbolTable {
    /// A table without labels.
    pub fn new() -> (table: SymbolTable)
        ensures
            table@ == Map::<Seq<char>, u16>::empty(),
    {
        let table = SymbolTable { entries: Vec::new() };
        table
    }

    /// The address of the label `name`, if the table has it.
    pub fn lookup(&self, name: &str) -> (address: Option<u16>)
        ensures
            address == if self@.dom().contains(name@) {
                Some(self@[name@])
            } else {
                None
            },
    {
        let wanted = name.to_owned();
        let mut index: usize = 0;
        while index < self.entries.len()
            invariant
                index <= self.entries@.len(),
                wanted@ == name@,
                forall|i: int| 0 <= i < index ==> self.entries@[i].name@ != name@,
            decreases self.entries@.len() - index,
        {
            if self.entries[index].name == wanted {
                proof {
                    lemma_find_skip(self.entries@, name@, index as int);
                }
                return Some(self.entries[index].address);
            }
            index += 1;
        }
        proof {
            lemma_find_none(self.entries@, name@);
        }
        None
    }

    /// Adds the label `name` with `address`, unless the table has a label of
    /// that name already. The result says whether the label was added.
    pub fn insert(&mut self, name: &str, address: u16) -> (added: bool)
        ensures
            added == !old(self)@.dom().contains(name@),
            final(self)@ == if added {
                old(self)@.insert(name@, address)
            } else {
                old(self)@
            },
    {
        if self.lookup(name).is_some() {
            return false;
        }
        let symbol = Symbol { name: name.to_owned(), address };
        proof {
            assert forall|other: Seq<char>|
                find(self.entries@.push(symbol), other) == if other == name@ {
                    Some(address)
                } else {
                    find(self.entries@, other)
                } by {
                lemma_find_push(self.entries@, symbol, other);
            }
        }
        self.entries.push(symbol);
        true
    }
}

} // verus!
