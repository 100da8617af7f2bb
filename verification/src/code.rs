//! The functions of a code section, and how the symbol table lays them out.

use crate::endian::Endianness;
use crate::error::{ParseError, ParseErrorView};
use crate::insn::insns_of;
use crate::object::values_view;
use crate::program::FunctionView;
use crate::section::{ElfSymbol, SectionView, SymbolView};
use std::collections::HashMap;
use vstd::prelude::*;
use vstd::std_specs::iter::IteratorSpec;

verus! {

broadcast use vstd::std_specs::hash::group_hash_axioms;

/// Whether symbol `i` is defined in a section, at an address.
pub open spec fn defined_at(
    symbols: Map<usize, SymbolView>,
    section_index: usize,
    address: u64,
    i: usize,
) -> bool {
    &&& symbols.contains_key(i)
    &&& symbols[i].is_definition
    &&& symbols[i].section_index == Some(section_index)
    &&& symbols[i].address == address
}

/// Whether two symbols of a section are defined at one address.
pub open spec fn shares_address(
    symbols: Map<usize, SymbolView>,
    section_index: usize,
    address: u64,
) -> bool {
    exists|i: usize, j: usize|
        i != j && #[trigger] defined_at(symbols, section_index, address, i)
            && #[trigger] defined_at(symbols, section_index, address, j)
}

/// Whether the symbols of a section conflict somewhere.
pub open spec fn in_conflict(symbols: Map<usize, SymbolView>, section_index: usize) -> bool {
    exists|address: u64| shares_address(symbols, section_index, address)
}

/// The symbols that are defined in a section, by their addresses.
pub open spec fn definitions(symbols: Map<usize, SymbolView>, section_index: usize) -> Map<
    u64,
    SymbolView,
> {
    Map::new(
        |address: u64| exists|i: usize| defined_at(symbols, section_index, address, i),
        |address: u64| symbols[choose|i: usize| defined_at(symbols, section_index, address, i)],
    )
}

/// How the reading of a code section ends.
pub enum CodeEnd {
    /// Every byte belongs to a function.
    Complete,
    /// The section is refused.
    Fails(ParseErrorView),
    /// A symbol that starts a function has no name, reaches beyond the end of
    /// the section, or would lie beyond the last address.
    Broken,
}

/// What keeps a function from being read at `offset`, if anything does.
pub open spec fn stop_at(
    definitions: Map<u64, SymbolView>,
    section: SectionView,
    offset: int,
) -> Option<CodeEnd> {
    let address = (section.address + offset) as u64;
    let symbol = definitions[address];
    if section.address + offset > u64::MAX {
        Some(CodeEnd::Broken)
    } else if !definitions.contains_key(address) {
        Some(
            CodeEnd::Fails(
                ParseErrorView::UnknownSymbol { section_index: section.index, address },
            ),
        )
    } else if symbol.size == 0 {
        Some(
            CodeEnd::Fails(
                ParseErrorView::InvalidSymbol { index: symbol.index, name: symbol.name },
            ),
        )
    } else if symbol.name is None || offset + symbol.size > section.data.len() {
        Some(CodeEnd::Broken)
    } else if symbol.size % 8 != 0 {
        Some(CodeEnd::Fails(ParseErrorView::InvalidProgramCode))
    } else {
        None
    }
}

/// The size of the function at `offset`.
pub open spec fn size_at(
    definitions: Map<u64, SymbolView>,
    section: SectionView,
    offset: int,
) -> int {
    definitions[(section.address + offset) as u64].size as int
}

/// The function at `offset`.
pub open spec fn function_at(
    definitions: Map<u64, SymbolView>,
    section: SectionView,
    host: Endianness,
    offset: int,
) -> FunctionView {
    let symbol = definitions[(section.address + offset) as u64];
    FunctionView {
        address: (section.address + offset) as u64,
        name: symbol.name->Some_0,
        section_index: section.index,
        section_offset: offset as usize,
        instructions: insns_of(section.data.subrange(offset, offset + symbol.size), host),
    }
}

/// The functions that are read one after the other, from `offset` on.
pub open spec fn functions_from(
    definitions: Map<u64, SymbolView>,
    section: SectionView,
    host: Endianness,
    offset: int,
) -> Seq<FunctionView>
    decreases section.data.len() - offset,
{
    if offset >= section.data.len() || stop_at(definitions, section, offset) is Some {
        Seq::empty()
    } else {
        seq![function_at(definitions, section, host, offset)] + functions_from(
            definitions,
            section,
            host,
            offset + size_at(definitions, section, offset),
        )
    }
}

/// How reading ends that has come to `offset`.
pub open spec fn end_from(
    definitions: Map<u64, SymbolView>,
    section: SectionView,
    offset: int,
) -> CodeEnd
    decreases section.data.len() - offset,
{
    if offset >= section.data.len() {
        CodeEnd::Complete
    } else {
        match stop_at(definitions, section, offset) {
            Some(end) => end,
            None => end_from(
                definitions,
                section,
                offset + size_at(definitions, section, offset),
            ),
        }
    }
}

/// Whether a code section can be read, to the end or to an error, with these
/// symbols.
pub open spec fn code_fits(symbols: Map<usize, SymbolView>, section: SectionView) -> bool {
    in_conflict(symbols, section.index) || !(end_from(
        definitions(symbols, section.index),
        section,
        0,
    ) is Broken)
}

/// The functions after those of a sequence have been put in, each under its
/// address.
pub open spec fn with_functions(
    functions: Map<u64, FunctionView>,
    added: Seq<FunctionView>,
) -> Map<u64, FunctionView>
    decreases added.len(),
{
    if added.len() == 0 {
        functions
    } else {
        with_functions(functions.insert(added[0].address, added[0]), added.drop_first())
    }
}

/// Arranges the symbols that are defined in a section by their addresses, or
/// reports an address that two of them share.
pub fn symbols_by_address<'a>(
    symbols: &'a HashMap<usize, ElfSymbol>,
    section_index: usize,
) -> (result: Result<HashMap<u64, &'a ElfSymbol>, ParseError>)
    ensures
        match result {
            Ok(found) => !in_conflict(values_view(symbols@), section_index) && values_view(found@)
                == definitions(values_view(symbols@), section_index),
            Err(error) => exists|address: u64|
                #![trigger shares_address(values_view(symbols@), section_index, address)]
                shares_address(values_view(symbols@), section_index, address) && error@
                    == (ParseErrorView::SymbolTableConflict { section_index, address }),
        },
{
    let ghost content = values_view(symbols@);
    let ghost pairs = symbols.iter().remaining();
    let mut found: HashMap<u64, &'a ElfSymbol> = HashMap::new();
    for entry in iter: symbols.iter()
        invariant
            content == values_view(symbols@),
            iter.seq() == pairs,
            pairs.no_duplicates(),
            forall|i: int|
                0 <= i < pairs.len() ==> symbols@.contains_key(*(#[trigger] pairs[i]).0)
                    && symbols@[*pairs[i].0] == *pairs[i].1,
            forall|key: usize| #[trigger]
                symbols@.contains_key(key) ==> pairs.contains((&key, &symbols@[key])),
            forall|address: u64| #[trigger]
                found@.contains_key(address) ==> exists|i: int|
                    0 <= i < iter.index() && defined_at(
                        content,
                        section_index,
                        address,
                        *(#[trigger] pairs[i]).0,
                    ) && found@[address] == pairs[i].1,
            forall|i: int, address: u64|
                0 <= i < iter.index() && defined_at(
                    content,
                    section_index,
                    address,
                    *(#[trigger] pairs[i]).0,
                ) ==> #[trigger] found@.contains_key(address) && found@[address] == pairs[i].1,
            forall|i: int, j: int, address: u64|
                0 <= i < j < iter.index() && defined_at(
                    content,
                    section_index,
                    address,
                    *(#[trigger] pairs[i]).0,
                ) ==> !#[trigger] defined_at(content, section_index, address, *pairs[j].0),
    {
        let symbol: &'a ElfSymbol = entry.1;
        let here = match symbol.section_index {
            Some(index) => index == section_index,
            None => false,
        };
        let ghost before = found@;
        assert(entry == pairs[iter.index()]);
        assert(content[*entry.0] == symbol@);
        if symbol.is_definition && here {
            assert(defined_at(content, section_index, symbol.address, *entry.0));
            if found.contains_key(&symbol.address) {
                proof {
                    let i = choose|i: int|
                        0 <= i < iter.index() && defined_at(
                            content,
                            section_index,
                            symbol.address,
                            *(#[trigger] pairs[i]).0,
                        ) && found@[symbol.address] == pairs[i].1;
                    assert(pairs[i] != pairs[iter.index()]);
                    assert(*pairs[i].0 != *entry.0);
                    assert(shares_address(content, section_index, symbol.address));
                }
                return Err(
                    ParseError::SymbolTableConflict { section_index, address: symbol.address },
                );
            }
            found.insert(symbol.address, symbol);
        }
        assert forall|i: int, address: u64|
            0 <= i <= iter.index() && defined_at(
                content,
                section_index,
                address,
                *(#[trigger] pairs[i]).0,
            ) implies #[trigger] found@.contains_key(address) && found@[address] == pairs[i].1 by {
            if i < iter.index() {
                assert(before.contains_key(address));
            } else {
                assert(defined_at(content, section_index, address, *entry.0));
                assert(here);
            }
        }
    }
    proof {
        assert forall|address: u64, i: usize|
            defined_at(content, section_index, address, i) implies exists|at: int|
            0 <= at < pairs.len() && *(#[trigger] pairs[at]).0 == i by {
            let at = choose|at: int|
                0 <= at < pairs.len() && #[trigger] pairs[at] == (&i, &symbols@[i]);
            assert(*pairs[at].0 == i);
        }
        assert(!in_conflict(content, section_index));
        assert forall|address: u64|
            definitions(content, section_index).contains_key(address) implies found@.contains_key(
            address,
        ) && found@[address]@ == definitions(content, section_index)[address] by {
            let i = choose|i: usize| defined_at(content, section_index, address, i);
            let at = choose|at: int| 0 <= at < pairs.len() && *(#[trigger] pairs[at]).0 == i;
            assert(defined_at(content, section_index, address, *pairs[at].0));
        }
        assert(values_view(found@) =~= definitions(content, section_index));
    }
    Ok(found)
}

} // verus!
