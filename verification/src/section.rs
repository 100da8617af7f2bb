//! Sections, symbols and relocations of a file.

use crate::error::{name_view, ParseError, ParseErrorView, ReadError};
use vstd::prelude::*;

verus! {

/// What a relocation refers to.
#[derive(Debug, Copy, Clone)]
pub enum RelocationTarget {
    /// The symbol with this index.
    Symbol(usize),
    /// The section with this index.
    Section(usize),
    /// Nothing: the value is absolute.
    Absolute,
}

/// A relocation as it stands in a file.
#[derive(Debug, Copy, Clone)]
pub struct RawRelocation {
    /// The byte offset of the place to be relocated.
    pub offset: u64,
    pub target: RelocationTarget,
}

/// A section as it stands in a file. Its name and its data may be unreadable.
#[derive(Debug)]
pub struct RawSection<'a> {
    pub index: usize,
    pub address: u64,
    pub name: Result<String, ReadError>,
    pub data: Result<&'a [u8], ReadError>,
    pub relocations: Vec<RawRelocation>,
}

/// The mathematical content of a [`RawSection`].
pub struct RawSectionView {
    pub index: usize,
    pub address: u64,
    pub name: Result<Seq<char>, Seq<char>>,
    pub data: Result<Seq<u8>, Seq<char>>,
    pub relocations: Seq<RawRelocation>,
}

impl<'a> View for RawSection<'a> {
    type V = RawSectionView;

    open spec fn view(&self) -> RawSectionView {
        RawSectionView {
            index: self.index,
            address: self.address,
            name: match self.name {
                Ok(name) => Ok(name@),
                Err(error) => Err(error@),
            },
            data: match self.data {
                Ok(data) => Ok(data@),
                Err(error) => Err(error@),
            },
            relocations: self.relocations@,
        }
    }
}

/// An entry of the symbol table.
#[derive(Debug, Clone)]
pub struct ElfSymbol {
    pub index: usize,
    /// The section in which the symbol is defined, if it is.
    pub section_index: Option<usize>,
    /// The name, where it can be read.
    pub name: Option<String>,
    pub address: u64,
    pub size: u64,
    pub is_definition: bool,
}

/// The mathematical content of an [`ElfSymbol`].
pub struct SymbolView {
    pub index: usize,
    pub section_index: Option<usize>,
    pub name: Option<Seq<char>>,
    pub address: u64,
    pub size: u64,
    pub is_definition: bool,
}

impl View for ElfSymbol {
    type V = SymbolView;

    open spec fn view(&self) -> SymbolView {
        SymbolView {
            index: self.index,
            section_index: self.section_index,
            name: name_view(self.name),
            address: self.address,
            size: self.size,
            is_definition: self.is_definition,
        }
    }
}

impl ElfSymbol {
    /// A copy of the symbol.
    pub fn duplicate(&self) -> (copy: ElfSymbol)
        ensures
            copy@ == self@,
    {
        ElfSymbol {
            index: self.index,
            section_index: self.section_index,
            name: match &self.name {
                Some(name) => Some(name.clone()),
                None => None,
            },
            address: self.address,
            size: self.size,
            is_definition: self.is_definition,
        }
    }
}

/// A relocation that refers to a symbol.
#[derive(Debug, Copy, Clone)]
pub struct ElfRelocation {
    /// The byte offset of the instruction to be relocated.
    pub offset: u64,
    /// The index of the symbol that it refers to.
    pub symbol_index: usize,
}

/// A section that has been read.
#[derive(Debug)]
pub struct ElfSection<'a> {
    pub index: usize,
    pub address: u64,
    pub name: &'a str,
    pub data: &'a [u8],
    pub relocations: Vec<ElfRelocation>,
}

/// The mathematical content of an [`ElfSection`].
pub struct SectionView {
    pub index: usize,
    pub address: u64,
    pub name: Seq<char>,
    pub data: Seq<u8>,
    pub relocations: Seq<ElfRelocation>,
}

impl<'a> View for ElfSection<'a> {
    type V = SectionView;

    open spec fn view(&self) -> SectionView {
        SectionView {
            index: self.index,
            address: self.address,
            name: self.name@,
            data: self.data@,
            relocations: self.relocations@,
        }
    }
}

/// Whether a relocation refers to a symbol.
pub open spec fn refers_to_symbol(raw: RawRelocation) -> bool {
    raw.target is Symbol
}

/// The relocation that a relocation to a symbol stands for.
pub open spec fn relocation_of(raw: RawRelocation) -> ElfRelocation {
    ElfRelocation { offset: raw.offset, symbol_index: raw.target->Symbol_0 }
}

/// The relocations of a section, all of which have to refer to symbols.
pub open spec fn relocations_of(raw: Seq<RawRelocation>) -> Result<
    Seq<ElfRelocation>,
    ParseErrorView,
> {
    if forall|i: int| 0 <= i < raw.len() ==> refers_to_symbol(#[trigger] raw[i]) {
        Ok(raw.map_values(|relocation: RawRelocation| relocation_of(relocation)))
    } else {
        Err(ParseErrorView::UnsupportedRelocationTarget)
    }
}

/// The section that a section of the file stands for. Of several faults the
/// name's comes first, then that of the data, then that of the relocations.
pub open spec fn section_of(raw: RawSectionView) -> Result<SectionView, ParseErrorView> {
    match (raw.name, raw.data, relocations_of(raw.relocations)) {
        (Err(source), _, _) => Err(ParseErrorView::SectionError { index: raw.index, source }),
        (_, Err(source), _) => Err(ParseErrorView::SectionError { index: raw.index, source }),
        (_, _, Err(error)) => Err(error),
        (Ok(name), Ok(data), Ok(relocations)) => Ok(
            SectionView { index: raw.index, address: raw.address, name, data, relocations },
        ),
    }
}

/// Keeps of each relocation where it is and which symbol it refers to.
fn read_relocations(raw: &Vec<RawRelocation>) -> (result: Result<Vec<ElfRelocation>, ParseError>)
    ensures
        match result {
            Ok(relocations) => relocations_of(raw@) == Ok::<Seq<ElfRelocation>, ParseErrorView>(
                relocations@,
            ),
            Err(error) => relocations_of(raw@) == Err::<Seq<ElfRelocation>, ParseErrorView>(error@),
        },
{
    let mut relocations: Vec<ElfRelocation> = Vec::new();
    let mut i: usize = 0;
    while i < raw.len()
        invariant
            i <= raw@.len(),
            relocations@.len() == i,
            forall|j: int| 0 <= j < i ==> refers_to_symbol(#[trigger] raw@[j]),
            forall|j: int| 0 <= j < i ==> relocations@[j] == relocation_of(#[trigger] raw@[j]),
        decreases raw@.len() - i,
    {
        match raw[i].target {
            RelocationTarget::Symbol(symbol_index) => {
                relocations.push(ElfRelocation { offset: raw[i].offset, symbol_index });
            },
            _ => {
                assert(!refers_to_symbol(raw@[i as int]));
                return Err(ParseError::UnsupportedRelocationTarget);
            },
        }
        i = i + 1;
    }
    assert(relocations@ == raw@.map_values(
        |relocation: RawRelocation| relocation_of(relocation),
    ));
    Ok(relocations)
}

impl<'a> ElfSection<'a> {
    /// Reads a section of the file.
    pub fn try_from(raw: &'a RawSection<'a>) -> (result: Result<ElfSection<'a>, ParseError>)
        ensures
            match result {
                Ok(section) => section_of(raw@) == Ok::<SectionView, ParseErrorView>(section@),
                Err(error) => section_of(raw@) == Err::<SectionView, ParseErrorView>(error@),
            },
    {
        let name = match &raw.name {
            Ok(name) => name.as_str(),
            Err(source) => {
                return Err(
                    ParseError::SectionError { index: raw.index, source: source.duplicate() },
                );
            },
        };
        let data = match &raw.data {
            Ok(data) => *data,
            Err(source) => {
                return Err(
                    ParseError::SectionError { index: raw.index, source: source.duplicate() },
                );
            },
        };
        let relocations = match read_relocations(&raw.relocations) {
            Ok(relocations) => relocations,
            Err(error) => {
                return Err(error);
            },
        };
        Ok(ElfSection { index: raw.index, address: raw.address, name, data, relocations })
    }
}

} // verus!
