//! The symbol table: names bound to 16-bit addresses, preloaded with the
//! predefined symbols, plus the cursor for the next free variable address.

use vstd::prelude::*;

use crate::text::str_eq;

verus! {

/// A name-to-address table with first-binding-wins semantics, and the
/// RAM address the next freshly allocated variable receives.
pub struct SymbolTable {
    table: Vec<(String, u16)>,
    next_variable_address: u16,
}

/// The mathematical shape of a `SymbolTable`.
pub struct SymbolTableView {
    pub table: Map<Seq<char>, u16>,
    pub next_variable_address: u16,
}

/// The map an association list denotes when the first entry for a name
/// wins.
pub open spec fn assoc_view(s: Seq<(String, u16)>) -> Map<Seq<char>, u16>
    decreases s.len(),
{
    if s.len() == 0 {
        Map::empty()
    } else {
        let rest = assoc_view(s.drop_last());
        if rest.contains_key(s.last().0@) {
            rest
        } else {
            rest.insert(s.last().0@, s.last().1)
        }
    }
}

proof fn lemma_assoc_view_absent(s: Seq<(String, u16)>, name: Seq<char>)
    requires
        forall|i: int| 0 <= i < s.len() ==> (#[trigger] s[i]).0@ != name,
    ensures
        !assoc_view(s).contains_key(name),
    decreases s.len(),
{
    if s.len() > 0 {
        lemma_assoc_view_absent(s.drop_last(), name);
    }
}

/// The first entry for a name is the one the denoted map binds.
proof fn lemma_assoc_view_first(s: Seq<(String, u16)>, name: Seq<char>, i: int)
    requires
        0 <= i < s.len(),
        s[i].0@ == name,
        forall|j: int| 0 <= j < i ==> (#[trigger] s[j]).0@ != name,
    ensures
        assoc_view(s).contains_key(name),
        assoc_view(s)[name] == s[i].1,
    decreases s.len(),
{
    let rest = s.drop_last();
    if i == s.len() - 1 {
        lemma_assoc_view_absent(rest, name);
    } else {
        lemma_assoc_view_first(rest, name, i);
    }
}

/// Appending an entry binds its name only where the name was still free.
proof fn lemma_assoc_view_push(s: Seq<(String, u16)>, entry: (String, u16))
    ensures
        assoc_view(s.push(entry)) == if assoc_view(s).contains_key(entry.0@) {
            assoc_view(s)
        } else {
            assoc_view(s).insert(entry.0@, entry.1)
        },
{
    assert(s.push(entry).drop_last() =~= s);
}

/// The bindings installed at construction.
pub open spec fn predefined_symbols() -> Map<Seq<char>, u16> {
    Map::empty().insert("SP"@, 0u16).insert("LCL"@, 1u16).insert("ARG"@, 2u16).insert(
        "THIS"@,
        3u16,
    ).insert("THAT"@, 4u16).insert("R0"@, 0u16).insert("R1"@, 1u16).insert("R2"@, 2u16).insert(
        "R3"@,
        3u16,
    ).insert("R4"@, 4u16).insert("R5"@, 5u16).insert("R6"@, 6u16).insert("R7"@, 7u16).insert(
        "R8"@,
        8u16,
    ).insert("R9"@, 9u16).insert("R10"@, 10u16).insert("R11"@, 11u16).insert("R12"@, 12u16).insert(
        "R13"@,
        13u16,
    ).insert("R14"@, 14u16).insert("R15"@, 15u16).insert("SCREEN"@, 16384u16).insert(
        "KBD"@,
        24576u16,
    )
}

fn push_symbol(table: &mut Vec<(String, u16)>, name: &str, address: u16)
    ensures
        assoc_view(final(table)@) == if assoc_view(old(table)@).contains_key(name@) {
            assoc_view(old(table)@)
        } else {
            assoc_view(old(table)@).insert(name@, address)
        },
{
    let owned = name.to_owned();
    table.push((owned, address));
    proof {
        lemma_assoc_view_push(old(table)@, (final(table)@.last().0, address));
        assert(old(table)@.push(final(table)@.last()) =~= final(table)@);
    }
}

impl View for SymbolTable {
    type V = SymbolTableView;

    closed spec fn view(&self) -> SymbolTableView {
        SymbolTableView {
            table: assoc_view(self.table@),
            next_variable_address: self.next_variable_address,
        }
    }
}

impl SymbolTable {
    /// A table holding exactly the predefined symbols, with variable
    /// allocation starting at address 16.
    pub fn new() -> (r: Self)
        ensures
            r@.table == predefined_symbols(),
            r@.next_variable_address == 16,
    {
        let table = Self::map_with_predefined_symbols();
        SymbolTable { table, next_variable_address: 16 }
    }

    fn map_with_predefined_symbols() -> (r: Vec<(String, u16)>)
        ensures
            assoc_view(r@) == predefined_symbols(),
    {
        proof {
            reveal_strlit("SP");
            reveal_strlit("LCL");
            reveal_strlit("ARG");
            reveal_strlit("THIS");
            reveal_strlit("THAT");
            reveal_strlit("R0");
            reveal_strlit("R1");
            reveal_strlit("R2");
            reveal_strlit("R3");
            reveal_strlit("R4");
            reveal_strlit("R5");
            reveal_strlit("R6");
            reveal_strlit("R7");
            reveal_strlit("R8");
            reveal_strlit("R9");
            reveal_strlit("R10");
            reveal_strlit("R11");
            reveal_strlit("R12");
            reveal_strlit("R13");
            reveal_strlit("R14");
            reveal_strlit("R15");
            reveal_strlit("SCREEN");
            reveal_strlit("KBD");
            assert("SP"@ =~= seq!['S', 'P']);
            assert("LCL"@ =~= seq!['L', 'C', 'L']);
            assert("ARG"@ =~= seq!['A', 'R', 'G']);
            assert("THIS"@ =~= seq!['T', 'H', 'I', 'S']);
            assert("THAT"@ =~= seq!['T', 'H', 'A', 'T']);
            assert("R0"@ =~= seq!['R', '0']);
            assert("R1"@ =~= seq!['R', '1']);
            assert("R2"@ =~= seq!['R', '2']);
            assert("R3"@ =~= seq!['R', '3']);
            assert("R4"@ =~= seq!['R', '4']);
            assert("R5"@ =~= seq!['R', '5']);
            assert("R6"@ =~= seq!['R', '6']);
            assert("R7"@ =~= seq!['R', '7']);
            assert("R8"@ =~= seq!['R', '8']);
            assert("R9"@ =~= seq!['R', '9']);
            assert("R10"@ =~= seq!['R', '1', '0']);
            assert("R11"@ =~= seq!['R', '1', '1']);
            assert("R12"@ =~= seq!['R', '1', '2']);
            assert("R13"@ =~= seq!['R', '1', '3']);
            assert("R14"@ =~= seq!['R', '1', '4']);
            assert("R15"@ =~= seq!['R', '1', '5']);
            assert("SCREEN"@ =~= seq!['S', 'C', 'R', 'E', 'E', 'N']);
            assert("KBD"@ =~= seq!['K', 'B', 'D']);
        }
        let mut table: Vec<(String, u16)> = Vec::new();
        push_symbol(&mut table, "SP", 0);
        assert(assoc_view(table@) == Map::empty().insert("SP"@, 0u16));
        push_symbol(&mut table, "LCL", 1);
        assert(assoc_view(table@) == Map::empty().insert("SP"@, 0u16).insert("LCL"@, 1u16));
        push_symbol(&mut table, "ARG", 2);
        assert(assoc_view(table@) == Map::empty().insert("SP"@, 0u16).insert("LCL"@, 1u16).insert("ARG"@, 2u16));
        push_symbol(&mut table, "THIS", 3);
        assert(assoc_view(table@) == Map::empty().insert("SP"@, 0u16).insert("LCL"@, 1u16).insert("ARG"@, 2u16).insert("THIS"@, 3u16));
        push_symbol(&mut table, "THAT", 4);
        assert(assoc_view(table@) == Map::empty().insert("SP"@, 0u16).insert("LCL"@, 1u16).insert("ARG"@, 2u16).insert("THIS"@, 3u16).insert("THAT"@, 4u16));
        push_symbol(&mut table, "R0", 0);
        assert(assoc_view(table@) == Map::empty().insert("SP"@, 0u16).insert("LCL"@, 1u16).insert("ARG"@, 2u16).insert("THIS"@, 3u16).insert("THAT"@, 4u16).insert("R0"@, 0u16));
        push_symbol(&mut table, "R1", 1);
        assert(assoc_view(table@) == Map::empty().insert("SP"@, 0u16).insert("LCL"@, 1u16).insert("ARG"@, 2u16).insert("THIS"@, 3u16).insert("THAT"@, 4u16).insert("R0"@, 0u16).insert("R1"@, 1u16));
        push_symbol(&mut table, "R2", 2);
        assert(assoc_view(table@) == Map::empty().insert("SP"@, 0u16).insert("LCL"@, 1u16).insert("ARG"@, 2u16).insert("THIS"@, 3u16).insert("THAT"@, 4u16).insert("R0"@, 0u16).insert("R1"@, 1u16).insert("R2"@, 2u16));
        push_symbol(&mut table, "R3", 3);
        assert(assoc_view(table@) == Map::empty().insert("SP"@, 0u16).insert("LCL"@, 1u16).insert("ARG"@, 2u16).insert("THIS"@, 3u16).insert("THAT"@, 4u16).insert("R0"@, 0u16).insert("R1"@, 1u16).insert("R2"@, 2u16).insert("R3"@, 3u16));
        push_symbol(&mut table, "R4", 4);
        assert(assoc_view(table@) == Map::empty().insert("SP"@, 0u16).insert("LCL"@, 1u16).insert("ARG"@, 2u16).insert("THIS"@, 3u16).insert("THAT"@, 4u16).insert("R0"@, 0u16).insert("R1"@, 1u16).insert("R2"@, 2u16).insert("R3"@, 3u16).insert("R4"@, 4u16));
        push_symbol(&mut table, "R5", 5);
        assert(assoc_view(table@) == Map::empty().insert("SP"@, 0u16).insert("LCL"@, 1u16).insert("ARG"@, 2u16).insert("THIS"@, 3u16).insert("THAT"@, 4u16).insert("R0"@, 0u16).insert("R1"@, 1u16).insert("R2"@, 2u16).insert("R3"@, 3u16).insert("R4"@, 4u16).insert("R5"@, 5u16));
        push_symbol(&mut table, "R6", 6);
        assert(assoc_view(table@) == Map::empty().insert("SP"@, 0u16).insert("LCL"@, 1u16).insert("ARG"@, 2u16).insert("THIS"@, 3u16).insert("THAT"@, 4u16).insert("R0"@, 0u16).insert("R1"@, 1u16).insert("R2"@, 2u16).insert("R3"@, 3u16).insert("R4"@, 4u16).insert("R5"@, 5u16).insert("R6"@, 6u16));
        push_symbol(&mut table, "R7", 7);
        assert(assoc_view(table@) == Map::empty().insert("SP"@, 0u16).insert("LCL"@, 1u16).insert("ARG"@, 2u16).insert("THIS"@, 3u16).insert("THAT"@, 4u16).insert("R0"@, 0u16).insert("R1"@, 1u16).insert("R2"@, 2u16).insert("R3"@, 3u16).insert("R4"@, 4u16).insert("R5"@, 5u16).insert("R6"@, 6u16).insert("R7"@, 7u16));
        push_symbol(&mut table, "R8", 8);
        assert(assoc_view(table@) == Map::empty().insert("SP"@, 0u16).insert("LCL"@, 1u16).insert("ARG"@, 2u16).insert("THIS"@, 3u16).insert("THAT"@, 4u16).insert("R0"@, 0u16).insert("R1"@, 1u16).insert("R2"@, 2u16).insert("R3"@, 3u16).insert("R4"@, 4u16).insert("R5"@, 5u16).insert("R6"@, 6u16).insert("R7"@, 7u16).insert("R8"@, 8u16));
        push_symbol(&mut table, "R9", 9);
        assert(assoc_view(table@) == Map::empty().insert("SP"@, 0u16).insert("LCL"@, 1u16).insert("ARG"@, 2u16).insert("THIS"@, 3u16).insert("THAT"@, 4u16).insert("R0"@, 0u16).insert("R1"@, 1u16).insert("R2"@, 2u16).insert("R3"@, 3u16).insert("R4"@, 4u16).insert("R5"@, 5u16).insert("R6"@, 6u16).insert("R7"@, 7u16).insert("R8"@, 8u16).insert("R9"@, 9u16));
        push_symbol(&mut table, "R10", 10);
        assert(assoc_view(table@) == Map::empty().insert("SP"@, 0u16).insert("LCL"@, 1u16).insert("ARG"@, 2u16).insert("THIS"@, 3u16).insert("THAT"@, 4u16).insert("R0"@, 0u16).insert("R1"@, 1u16).insert("R2"@, 2u16).insert("R3"@, 3u16).insert("R4"@, 4u16).insert("R5"@, 5u16).insert("R6"@, 6u16).insert("R7"@, 7u16).insert("R8"@, 8u16).insert("R9"@, 9u16).insert("R10"@, 10u16));
        push_symbol(&mut table, "R11", 11);
        assert(assoc_view(table@) == Map::empty().insert("SP"@, 0u16).insert("LCL"@, 1u16).insert("ARG"@, 2u16).insert("THIS"@, 3u16).insert("THAT"@, 4u16).insert("R0"@, 0u16).insert("R1"@, 1u16).insert("R2"@, 2u16).insert("R3"@, 3u16).insert("R4"@, 4u16).insert("R5"@, 5u16).insert("R6"@, 6u16).insert("R7"@, 7u16).insert("R8"@, 8u16).insert("R9"@, 9u16).insert("R10"@, 10u16).insert("R11"@, 11u16));
        push_symbol(&mut table, "R12", 12);
        assert(assoc_view(table@) == Map::empty().insert("SP"@, 0u16).insert("LCL"@, 1u16).insert("ARG"@, 2u16).insert("THIS"@, 3u16).insert("THAT"@, 4u16).insert("R0"@, 0u16).insert("R1"@, 1u16).insert("R2"@, 2u16).insert("R3"@, 3u16).insert("R4"@, 4u16).insert("R5"@, 5u16).insert("R6"@, 6u16).insert("R7"@, 7u16).insert("R8"@, 8u16).insert("R9"@, 9u16).insert("R10"@, 10u16).insert("R11"@, 11u16).insert("R12"@, 12u16));
        push_symbol(&mut table, "R13", 13);
        assert(assoc_view(table@) == Map::empty().insert("SP"@, 0u16).insert("LCL"@, 1u16).insert("ARG"@, 2u16).insert("THIS"@, 3u16).insert("THAT"@, 4u16).insert("R0"@, 0u16).insert("R1"@, 1u16).insert("R2"@, 2u16).insert("R3"@, 3u16).insert("R4"@, 4u16).insert("R5"@, 5u16).insert("R6"@, 6u16).insert("R7"@, 7u16).insert("R8"@, 8u16).insert("R9"@, 9u16).insert("R10"@, 10u16).insert("R11"@, 11u16).insert("R12"@, 12u16).insert("R13"@, 13u16));
        push_symbol(&mut table, "R14", 14);
        assert(assoc_view(table@) == Map::empty().insert("SP"@, 0u16).insert("LCL"@, 1u16).insert("ARG"@, 2u16).insert("THIS"@, 3u16).insert("THAT"@, 4u16).insert("R0"@, 0u16).insert("R1"@, 1u16).insert("R2"@, 2u16).insert("R3"@, 3u16).insert("R4"@, 4u16).insert("R5"@, 5u16).insert("R6"@, 6u16).insert("R7"@, 7u16).insert("R8"@, 8u16).insert("R9"@, 9u16).insert("R10"@, 10u16).insert("R11"@, 11u16).insert("R12"@, 12u16).insert("R13"@, 13u16).insert("R14"@, 14u16));
        push_symbol(&mut table, "R15", 15);
        assert(assoc_view(table@) == Map::empty().insert("SP"@, 0u16).insert("LCL"@, 1u16).insert("ARG"@, 2u16).insert("THIS"@, 3u16).insert("THAT"@, 4u16).insert("R0"@, 0u16).insert("R1"@, 1u16).insert("R2"@, 2u16).insert("R3"@, 3u16).insert("R4"@, 4u16).insert("R5"@, 5u16).insert("R6"@, 6u16).insert("R7"@, 7u16).insert("R8"@, 8u16).insert("R9"@, 9u16).insert("R10"@, 10u16).insert("R11"@, 11u16).insert("R12"@, 12u16).insert("R13"@, 13u16).insert("R14"@, 14u16).insert("R15"@, 15u16));
        push_symbol(&mut table, "SCREEN", 16384);
        assert(assoc_view(table@) == Map::empty().insert("SP"@, 0u16).insert("LCL"@, 1u16).insert("ARG"@, 2u16).insert("THIS"@, 3u16).insert("THAT"@, 4u16).insert("R0"@, 0u16).insert("R1"@, 1u16).insert("R2"@, 2u16).insert("R3"@, 3u16).insert("R4"@, 4u16).insert("R5"@, 5u16).insert("R6"@, 6u16).insert("R7"@, 7u16).insert("R8"@, 8u16).insert("R9"@, 9u16).insert("R10"@, 10u16).insert("R11"@, 11u16).insert("R12"@, 12u16).insert("R13"@, 13u16).insert("R14"@, 14u16).insert("R15"@, 15u16).insert("SCREEN"@, 16384u16));
        push_symbol(&mut table, "KBD", 24576);
        assert(assoc_view(table@) == Map::empty().insert("SP"@, 0u16).insert("LCL"@, 1u16).insert("ARG"@, 2u16).insert("THIS"@, 3u16).insert("THAT"@, 4u16).insert("R0"@, 0u16).insert("R1"@, 1u16).insert("R2"@, 2u16).insert("R3"@, 3u16).insert("R4"@, 4u16).insert("R5"@, 5u16).insert("R6"@, 6u16).insert("R7"@, 7u16).insert("R8"@, 8u16).insert("R9"@, 9u16).insert("R10"@, 10u16).insert("R11"@, 11u16).insert("R12"@, 12u16).insert("R13"@, 13u16).insert("R14"@, 14u16).insert("R15"@, 15u16).insert("SCREEN"@, 16384u16).insert("KBD"@, 24576u16));
        table
    }

    /// Whether `symbol` is bound.
    pub fn contains(&self, symbol: &str) -> (r: bool)
        ensures
            r == self@.table.contains_key(symbol@),
    {
        let mut i: usize = 0;
        while i < self.table.len()
            invariant
                0 <= i <= self.table.len(),
                forall|j: int| 0 <= j < i ==> (#[trigger] self.table@[j]).0@ != symbol@,
            decreases self.table.len() - i,
        {
            if str_eq(self.table[i].0.as_str(), symbol) {
                proof {
                    lemma_assoc_view_first(self.table@, symbol@, i as int);
                }
                return true;
            }
            i = i + 1;
        }
        proof {
            lemma_assoc_view_absent(self.table@, symbol@);
        }
        false
    }

    /// The address `symbol` is bound to, if any.
    pub fn get_address(&self, symbol: &str) -> (r: Option<u16>)
        ensures
            r is Some <==> self@.table.contains_key(symbol@),
            r is Some ==> r->0 == self@.table[symbol@],
    {
        let mut i: usize = 0;
        while i < self.table.len()
            invariant
                0 <= i <= self.table.len(),
                forall|j: int| 0 <= j < i ==> (#[trigger] self.table@[j]).0@ != symbol@,
            decreases self.table.len() - i,
        {
            if str_eq(self.table[i].0.as_str(), symbol) {
                proof {
                    lemma_assoc_view_first(self.table@, symbol@, i as int);
                }
                return Some(self.table[i].1);
            }
            i = i + 1;
        }
        proof {
            lemma_assoc_view_absent(self.table@, symbol@);
        }
        None
    }

    /// Binds `symbol` to `symbol_address` unless it is already bound:
    /// the first binding wins.
    pub fn add_label(&mut self, symbol: String, symbol_address: u16)
        ensures
            final(self)@.table == if old(self)@.table.contains_key(symbol@) {
                old(self)@.table
            } else {
                old(self)@.table.insert(symbol@, symbol_address)
            },
            final(self)@.next_variable_address == old(self)@.next_variable_address,
    {
        if !self.contains(symbol.as_str()) {
            let ghost before = self.table@;
            let ghost name = symbol@;
            self.table.push((symbol, symbol_address));
            proof {
                lemma_assoc_view_push(before, (self.table@.last().0, symbol_address));
                assert(before.push(self.table@.last()) =~= self.table@);
                assert(self.table@.last().0@ == name);
            }
        }
    }

    /// The address of `symbol`: its existing binding if it has one, and
    /// otherwise a fresh allocation at the variable cursor, which then
    /// advances by one.
    pub fn add_variable(&mut self, symbol: String) -> (address: u16)
        requires
            old(self)@.table.contains_key(symbol@) || old(self)@.next_variable_address
                < u16::MAX,
        ensures
            old(self)@.table.contains_key(symbol@) ==> {
                &&& address == old(self)@.table[symbol@]
                &&& final(self)@.table == old(self)@.table
                &&& final(self)@.next_variable_address == old(self)@.next_variable_address
            },
            !old(self)@.table.contains_key(symbol@) ==> {
                &&& address == old(self)@.next_variable_address
                &&& final(self)@.table == old(self)@.table.insert(symbol@, address)
                &&& final(self)@.next_variable_address == old(self)@.next_variable_address + 1
            },
    {
        if !self.contains(symbol.as_str()) {
            let address = self.next_variable_address;
            let ghost before = self.table@;
            let ghost name = symbol@;
            self.table.push((symbol, address));
            self.next_variable_address = self.next_variable_address + 1;
            proof {
                lemma_assoc_view_push(before, (self.table@.last().0, address));
                assert(before.push(self.table@.last()) =~= self.table@);
                assert(self.table@.last().0@ == name);
            }
            address
        } else {
            let found = self.get_address(symbol.as_str());
            found.unwrap()
        }
    }
}

impl Default for SymbolTable {
    /// The same table `new` builds.
    fn default() -> (r: Self)
        ensures
            r@.table == predefined_symbols(),
            r@.next_variable_address == 16,
    {
        Self::new()
    }
}

} // verus!
