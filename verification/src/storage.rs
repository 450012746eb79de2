//! The machine's backing store: the source listing, the assembled
//! listing, and the address-symbol table.

use crate::message::Level;
use crate::message::Messages;
use crate::symbols::SymbolTable;
use vstd::prelude::*;

verus! {

/// Owns the three stores the assembler reads and writes.
pub struct Storage {
    /// The source lines as supplied.
    pub source_program: Vec<String>,
    /// The assembled listing: four-character hexadecimal words, with
    /// empty strings for unused cells.
    pub assembled_program: Vec<String>,
    /// Labels and the origin, each mapped to an address.
    pub address_symbol_table: SymbolTable,
}

impl Storage {
    /// Empty stores.
    pub fn new() -> (r: Storage)
        ensures
            r.source_program.deep_view() =~= Seq::<Seq<char>>::empty(),
            r.assembled_program.deep_view() =~= Seq::<Seq<char>>::empty(),
            r.address_symbol_table@ =~= Seq::<(Seq<char>, u32)>::empty(),
    {
        let source: Vec<String> = Vec::new();
        let assembled: Vec<String> = Vec::new();
        proof {
            assert(source.deep_view() =~= Seq::<Seq<char>>::empty());
            assert(assembled.deep_view() =~= Seq::<Seq<char>>::empty());
        }
        Storage {
            source_program: source,
            assembled_program: assembled,
            address_symbol_table: SymbolTable::new(),
        }
    }

    /// Take a fresh source program and drop every derived store.
    pub fn load_program(&mut self, program: Vec<String>, messages: &mut Messages)
        ensures
            final(self).source_program == program,
            final(self).assembled_program.deep_view() =~= Seq::<Seq<char>>::empty(),
            final(self).address_symbol_table@ =~= Seq::<(Seq<char>, u32)>::empty(),
            final(messages)@ =~= old(messages)@.push((Level::Info, "Program loaded successfully"@)),
    {
        self.source_program = program;
        self.assembled_program.clear();
        self.address_symbol_table.clear();
        proof {
            assert(self.assembled_program.deep_view() =~= Seq::<Seq<char>>::empty());
        }
        messages.info("Program loaded successfully");
    }

    /// Drop every store.
    pub fn clear(&mut self) -> (r: Messages)
        ensures
            final(self).source_program.deep_view() =~= Seq::<Seq<char>>::empty(),
            final(self).assembled_program.deep_view() =~= Seq::<Seq<char>>::empty(),
            final(self).address_symbol_table@ =~= Seq::<(Seq<char>, u32)>::empty(),
            r@ =~= seq![(Level::Info, "Program cleared"@)],
    {
        self.source_program.clear();
        self.assembled_program.clear();
        self.address_symbol_table.clear();
        proof {
            assert(self.source_program.deep_view() =~= Seq::<Seq<char>>::empty());
            assert(self.assembled_program.deep_view() =~= Seq::<Seq<char>>::empty());
        }
        let mut messages = Messages::new();
        messages.info("Program cleared");
        messages
    }
}

} // verus!
