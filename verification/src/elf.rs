//! The contents of ELF files, as the `object` crate reads them.
//!
//! What a file holds is copied into an [`ElfImage`], which is made of plain
//! values. The functions in this file that are marked as external are the
//! ones that call the crate; their contracts are taken from its source.

use crate::endian::Endianness;
use crate::error::ReadError;
use crate::section::{
    ElfSymbol, RawRelocation, RawSection, RawSectionView, RelocationTarget, SymbolView,
};
use object::{Object as ElfObject, ObjectSection, ObjectSymbol, ObjectSymbolTable};
use vstd::prelude::*;

verus! {

/// The sections and symbols of a file.
pub struct ElfImage<'a> {
    pub endianness: Endianness,
    pub sections: Vec<RawSection<'a>>,
    /// The entries of the symbol table, none where there is no such table.
    pub symbols: Vec<ElfSymbol>,
}

/// The mathematical content of an [`ElfImage`].
pub struct ElfImageView {
    pub endianness: Endianness,
    pub sections: Seq<RawSectionView>,
    pub symbols: Seq<SymbolView>,
}

/// The contents of the items of a sequence.
pub open spec fn items_view<T: View>(items: Seq<T>) -> Seq<T::V> {
    Seq::new(items.len(), |i: int| items[i]@)
}

impl<'a> View for ElfImage<'a> {
    type V = ElfImageView;

    open spec fn view(&self) -> ElfImageView {
        ElfImageView {
            endianness: self.endianness,
            sections: items_view(self.sections@),
            symbols: items_view(self.symbols@),
        }
    }
}

/// An ELF file that has been opened.
#[verifier::external_type_specification]
#[verifier::external_body]
pub struct ExFile<'data>(object::read::File<'data>);

/// A walk over the sections of a file.
#[verifier::external_type_specification]
#[verifier::external_body]
pub struct ExSectionIterator<'data, 'file>(object::read::SectionIterator<'data, 'file>) where
    'data: 'file,
;

/// A section of a file.
#[verifier::external_type_specification]
#[verifier::external_body]
pub struct ExSection<'data, 'file>(object::read::Section<'data, 'file>) where 'data: 'file;

/// A walk over the relocations of a section.
#[verifier::external_type_specification]
#[verifier::external_body]
pub struct ExSectionRelocationIterator<'data, 'file>(
    object::read::SectionRelocationIterator<'data, 'file>,
) where 'data: 'file;

/// A relocation of a section.
#[verifier::external_type_specification]
#[verifier::external_body]
pub struct ExRelocation(object::read::Relocation);

/// The symbol table of a file.
#[verifier::external_type_specification]
#[verifier::external_body]
pub struct ExSymbolTable<'data, 'file>(object::read::SymbolTable<'data, 'file>) where 'data: 'file;

/// A walk over the entries of a symbol table.
#[verifier::external_type_specification]
#[verifier::external_body]
pub struct ExSymbolIterator<'data, 'file>(object::read::SymbolIterator<'data, 'file>) where
    'data: 'file,
;

/// An entry of a symbol table.
#[verifier::external_type_specification]
#[verifier::external_body]
pub struct ExSymbol<'data, 'file>(object::read::Symbol<'data, 'file>) where 'data: 'file;

/// A complaint of the crate.
#[verifier::external_type_specification]
#[verifier::external_body]
pub struct ExError(object::read::Error);

/// The text of a complaint.
pub uninterp spec fn error_text(error: object::read::Error) -> Seq<char>;

/// Whether an attempt to open a file with the bytes `data` can end in the
/// complaint `message`. Attempts on the same bytes may end differently.
pub uninterp spec fn may_refuse(data: Seq<u8>, message: Seq<char>) -> bool;

/// The bytes of an opened file.
pub uninterp spec fn file_bytes(file: object::read::File<'_>) -> Seq<u8>;

/// The byte order of an opened file.
pub uninterp spec fn file_order(file: object::read::File<'_>) -> Endianness;

/// The sections of an opened file, in the order of the section table.
pub uninterp spec fn file_sections(file: object::read::File<'_>) -> Seq<RawSectionView>;

/// The entries of the symbol table of an opened file, if it has one.
pub uninterp spec fn file_symbols(file: object::read::File<'_>) -> Option<Seq<SymbolView>>;

/// The sections that a walk has yet to come to.
pub uninterp spec fn sections_left(iter: object::read::SectionIterator<'_, '_>) -> Seq<
    RawSectionView,
>;

/// What a section holds.
pub uninterp spec fn section_content(section: object::read::Section<'_, '_>) -> RawSectionView;

/// The relocations that a walk has yet to come to.
pub uninterp spec fn relocations_left(
    iter: object::read::SectionRelocationIterator<'_, '_>,
) -> Seq<RawRelocation>;

/// What a relocation refers to.
pub uninterp spec fn relocation_target(relocation: object::read::Relocation) -> RelocationTarget;

/// The entries of a symbol table.
pub uninterp spec fn table_symbols(table: object::read::SymbolTable<'_, '_>) -> Seq<SymbolView>;

/// The entries that a walk has yet to come to.
pub uninterp spec fn symbols_left(iter: object::read::SymbolIterator<'_, '_>) -> Seq<SymbolView>;

/// What an entry of a symbol table holds.
pub uninterp spec fn symbol_content(symbol: object::read::Symbol<'_, '_>) -> SymbolView;

/// Whether `data` starts like an ELF file of the given byte order: with the
/// magic number, one of the two classes, the byte order, and version 1.
pub open spec fn starts_like_elf(data: Seq<u8>, order: Endianness) -> bool {
    &&& data.len() >= 16
    &&& data[0] == 0x7f
    &&& data[1] == 0x45
    &&& data[2] == 0x4c
    &&& data[3] == 0x46
    &&& data[4] == 1 || data[4] == 2
    &&& data[5] == (match order {
        Endianness::Little => 1u8,
        Endianness::Big => 2u8,
    })
    &&& data[6] == 1
}

/// Whether `piece` is what `data` holds from some place on.
pub open spec fn is_piece_of(piece: Seq<u8>, data: Seq<u8>) -> bool {
    exists|at: int|
        0 <= at <= data.len() - piece.len() && piece == #[trigger] data.subrange(
            at,
            at + piece.len(),
        )
}

/// Whether `image` can be what a file with the bytes `data` holds: the file
/// starts like an ELF file of its byte order, sections and symbols are numbered
/// in the order in which they come, and the data of every section is a piece of
/// the file.
pub open spec fn drawn_from(data: Seq<u8>, image: ElfImageView) -> bool {
    &&& starts_like_elf(data, image.endianness)
    &&& forall|i: int|
        0 <= i < image.sections.len() ==> (#[trigger] image.sections[i]).index == i && (
        image.sections[i].data matches Ok(piece) ==> is_piece_of(piece, data))
    &&& forall|i: int| 0 <= i < image.symbols.len() ==> (#[trigger] image.symbols[i]).index == i
}

/// What an opened file holds.
pub open spec fn file_image(file: object::read::File<'_>) -> ElfImageView {
    ElfImageView {
        endianness: file_order(file),
        sections: file_sections(file),
        symbols: match file_symbols(file) {
            Some(symbols) => symbols,
            None => Seq::empty(),
        },
    }
}

/// Whether `image` is what some opened file with the bytes `data` holds.
pub open spec fn read_from(data: Seq<u8>, image: ElfImageView) -> bool {
    drawn_from(data, image) && exists|file: object::read::File<'_>|
        file_bytes(file) == data && #[trigger] file_image(file) == image
}

/// Whether `message` is the text of some complaint of the crate.
pub open spec fn is_complaint(message: Seq<char>) -> bool {
    exists|error: object::read::Error| #[trigger] error_text(error) == message
}

/// `object::read::File::parse`: opens the file whose bytes are `data`. It is
/// stated that what is opened is over these bytes, starts like an ELF file,
/// numbers its sections and symbols from zero on, and has pieces of `data` for
/// the data of its sections; and that a complaint is one about these bytes.
/// Which files are opened is left unsaid: it depends on how `data` is aligned
/// in memory and on the word size of the machine, not on the bytes alone.
#[verifier::external_body]
fn open_file(data: &[u8]) -> (result: Result<object::read::File<'_>, object::read::Error>)
    ensures
        match result {
            Ok(file) => file_bytes(file) == data@ && drawn_from(data@, file_image(file)),
            Err(error) => may_refuse(data@, error_text(error)),
        },
{
    object::read::File::parse(data)
}

/// `to_string` of an `object::read::Error`: the text of the complaint.
#[verifier::external_body]
fn error_message(error: &object::read::Error) -> (message: String)
    ensures
        message@ == error_text(*error),
{
    error.to_string()
}

/// `object::Object::endianness`: the byte order of a file.
#[verifier::external_body]
fn order_of_file(file: &object::read::File<'_>) -> (order: Endianness)
    ensures
        order == file_order(*file),
{
    match file.endianness() {
        object::Endianness::Little => Endianness::Little,
        object::Endianness::Big => Endianness::Big,
    }
}

/// `object::Object::sections`: starts a walk over all sections of a file.
#[verifier::external_body]
fn walk_sections<'data, 'file>(file: &'file object::read::File<'data>) -> (iter:
    object::read::SectionIterator<'data, 'file>)
    ensures
        sections_left(iter) == file_sections(*file),
{
    file.sections()
}

/// `next` of an `object::read::SectionIterator`: goes on to the next section,
/// if there is one.
#[verifier::external_body]
fn next_section<'data, 'file>(iter: &mut object::read::SectionIterator<'data, 'file>) -> (section:
    Option<object::read::Section<'data, 'file>>)
    ensures
        match section {
            Some(section) => {
                &&& sections_left(*old(iter)).len() > 0
                &&& section_content(section) == sections_left(*old(iter))[0]
                &&& sections_left(*final(iter)) == sections_left(*old(iter)).drop_first()
            },
            None => sections_left(*old(iter)).len() == 0 && sections_left(*final(iter)).len() == 0,
        },
{
    iter.next()
}

/// `object::ObjectSection::index`: the index of a section.
#[verifier::external_body]
fn section_index(section: &object::read::Section<'_, '_>) -> (index: usize)
    ensures
        index == section_content(*section).index,
{
    section.index().0
}

/// `object::ObjectSection::address`: the address of a section.
#[verifier::external_body]
fn section_address(section: &object::read::Section<'_, '_>) -> (address: u64)
    ensures
        address == section_content(*section).address,
{
    section.address()
}

/// `object::ObjectSection::name`: the name of a section, or the complaint that
/// it cannot be read.
#[verifier::external_body]
fn section_name<'a>(section: &'a object::read::Section<'_, '_>) -> (result: Result<
    &'a str,
    object::read::Error,
>)
    ensures
        section_content(*section).name == (match result {
            Ok(name) => Ok::<Seq<char>, Seq<char>>(name@),
            Err(error) => Err(error_text(error)),
        }),
{
    section.name()
}

/// `object::ObjectSection::data`: the data of a section, or the complaint that
/// it cannot be read.
#[verifier::external_body]
fn section_data<'data>(section: &object::read::Section<'data, '_>) -> (result: Result<
    &'data [u8],
    object::read::Error,
>)
    ensures
        section_content(*section).data == (match result {
            Ok(data) => Ok::<Seq<u8>, Seq<char>>(data@),
            Err(error) => Err(error_text(error)),
        }),
{
    section.data()
}

/// `object::ObjectSection::relocations`: starts a walk over the relocations of
/// a section.
#[verifier::external_body]
fn walk_relocations<'data, 'file>(section: &object::read::Section<'data, 'file>) -> (iter:
    object::read::SectionRelocationIterator<'data, 'file>)
    ensures
        relocations_left(iter) == section_content(*section).relocations,
{
    section.relocations()
}

/// `next` of an `object::read::SectionRelocationIterator`: goes on to the next
/// relocation, if there is one, and gives its offset along with it.
#[verifier::external_body]
fn next_relocation(iter: &mut object::read::SectionRelocationIterator<'_, '_>) -> (relocation:
    Option<(u64, object::read::Relocation)>)
    ensures
        match relocation {
            Some((offset, relocation)) => {
                &&& relocations_left(*old(iter)).len() > 0
                &&& relocations_left(*old(iter))[0] == (RawRelocation {
                    offset,
                    target: relocation_target(relocation),
                })
                &&& relocations_left(*final(iter)) == relocations_left(*old(iter)).drop_first()
            },
            None => relocations_left(*old(iter)).len() == 0 && relocations_left(
                *final(iter),
            ).len() == 0,
        },
{
    iter.next()
}

/// `object::read::Relocation::target`: what a relocation refers to.
#[verifier::external_body]
fn target_of_relocation(relocation: &object::read::Relocation) -> (target: RelocationTarget)
    ensures
        target == relocation_target(*relocation),
{
    match relocation.target() {
        object::RelocationTarget::Symbol(index) => RelocationTarget::Symbol(index.0),
        object::RelocationTarget::Section(index) => RelocationTarget::Section(index.0),
        object::RelocationTarget::Absolute => RelocationTarget::Absolute,
    }
}

/// `object::Object::symbol_table`: the symbol table of a file, if it has one.
#[verifier::external_body]
fn table_of_file<'data, 'file>(file: &'file object::read::File<'data>) -> (table: Option<
    object::read::SymbolTable<'data, 'file>,
>)
    ensures
        file_symbols(*file) == (match table {
            Some(table) => Some(table_symbols(table)),
            None => None::<Seq<SymbolView>>,
        }),
{
    file.symbol_table()
}

/// `object::ObjectSymbolTable::symbols`: starts a walk over the entries of a
/// symbol table.
#[verifier::external_body]
fn walk_symbols<'data, 'file>(table: &object::read::SymbolTable<'data, 'file>) -> (iter:
    object::read::SymbolIterator<'data, 'file>)
    ensures
        symbols_left(iter) == table_symbols(*table),
{
    table.symbols()
}

/// `next` of an `object::read::SymbolIterator`: goes on to the next entry, if
/// there is one.
#[verifier::external_body]
fn next_symbol<'data, 'file>(iter: &mut object::read::SymbolIterator<'data, 'file>) -> (symbol:
    Option<object::read::Symbol<'data, 'file>>)
    ensures
        match symbol {
            Some(symbol) => {
                &&& symbols_left(*old(iter)).len() > 0
                &&& symbol_content(symbol) == symbols_left(*old(iter))[0]
                &&& symbols_left(*final(iter)) == symbols_left(*old(iter)).drop_first()
            },
            None => symbols_left(*old(iter)).len() == 0 && symbols_left(*final(iter)).len() == 0,
        },
{
    iter.next()
}

/// `object::ObjectSymbol::index`: the index of an entry.
#[verifier::external_body]
fn symbol_index(symbol: &object::read::Symbol<'_, '_>) -> (index: usize)
    ensures
        index == symbol_content(*symbol).index,
{
    symbol.index().0
}

/// `object::ObjectSymbol::name`: the name of an entry, where it can be read.
#[verifier::external_body]
fn symbol_name<'data>(symbol: &object::read::Symbol<'data, '_>) -> (result: Result<
    &'data str,
    object::read::Error,
>)
    ensures
        symbol_content(*symbol).name == (match result {
            Ok(name) => Some(name@),
            Err(_) => None::<Seq<char>>,
        }),
{
    symbol.name()
}

/// `object::ObjectSymbol::section`, and the index of it: the section in which
/// a symbol is defined, if it is.
#[verifier::external_body]
fn symbol_section_index(symbol: &object::read::Symbol<'_, '_>) -> (index: Option<usize>)
    ensures
        index == symbol_content(*symbol).section_index,
{
    match symbol.section().index() {
        Some(index) => Some(index.0),
        None => None,
    }
}

/// `object::ObjectSymbol::address`: the address of a symbol.
#[verifier::external_body]
fn symbol_address(symbol: &object::read::Symbol<'_, '_>) -> (address: u64)
    ensures
        address == symbol_content(*symbol).address,
{
    symbol.address()
}

/// `object::ObjectSymbol::size`: the size of a symbol.
#[verifier::external_body]
fn symbol_size(symbol: &object::read::Symbol<'_, '_>) -> (size: u64)
    ensures
        size == symbol_content(*symbol).size,
{
    symbol.size()
}

/// `object::ObjectSymbol::is_definition`: whether a symbol defines a function
/// or data.
#[verifier::external_body]
fn symbol_is_definition(symbol: &object::read::Symbol<'_, '_>) -> (defines: bool)
    ensures
        defines == symbol_content(*symbol).is_definition,
{
    symbol.is_definition()
}

/// A complaint of the crate as an error of this library.
fn read_error(error: &object::read::Error) -> (copy: ReadError)
    ensures
        copy@ == error_text(*error),
{
    ReadError { message: error_message(error) }
}

/// Copies the relocations of a section.
fn copy_relocations(section: &object::read::Section<'_, '_>) -> (relocations: Vec<RawRelocation>)
    ensures
        relocations@ == section_content(*section).relocations,
{
    let mut relocations: Vec<RawRelocation> = Vec::new();
    let mut iter = walk_relocations(section);
    loop
        invariant
            relocations@ + relocations_left(iter) == section_content(*section).relocations,
        ensures
            relocations@ == section_content(*section).relocations,
        decreases relocations_left(iter).len(),
    {
        match next_relocation(&mut iter) {
            Some((offset, relocation)) => {
                relocations.push(
                    RawRelocation { offset, target: target_of_relocation(&relocation) },
                );
            },
            None => {
                break;
            },
        }
    }
    relocations
}

/// Copies a section.
fn copy_section<'data>(section: &object::read::Section<'data, '_>) -> (copy: RawSection<'data>)
    ensures
        copy@ == section_content(*section),
{
    RawSection {
        index: section_index(section),
        address: section_address(section),
        name: match section_name(section) {
            Ok(name) => Ok(name.to_owned()),
            Err(error) => Err(read_error(&error)),
        },
        data: match section_data(section) {
            Ok(data) => Ok(data),
            Err(error) => Err(read_error(&error)),
        },
        relocations: copy_relocations(section),
    }
}

/// Copies the sections of a file.
fn copy_sections<'data>(file: &object::read::File<'data>) -> (sections: Vec<RawSection<'data>>)
    ensures
        items_view(sections@) == file_sections(*file),
{
    let mut sections: Vec<RawSection<'data>> = Vec::new();
    let mut iter = walk_sections(file);
    loop
        invariant
            items_view(sections@) + sections_left(iter) == file_sections(*file),
        ensures
            items_view(sections@) == file_sections(*file),
        decreases sections_left(iter).len(),
    {
        match next_section(&mut iter) {
            Some(section) => {
                let ghost before = sections@;
                let copy = copy_section(&section);
                sections.push(copy);
                assert(items_view(sections@) == items_view(before).push(copy@));
            },
            None => {
                break;
            },
        }
    }
    sections
}

/// Copies an entry of a symbol table. A name that cannot be read is left out.
fn copy_symbol(symbol: &object::read::Symbol<'_, '_>) -> (copy: ElfSymbol)
    ensures
        copy@ == symbol_content(*symbol),
{
    ElfSymbol {
        index: symbol_index(symbol),
        section_index: symbol_section_index(symbol),
        name: match symbol_name(symbol) {
            Ok(name) => Some(name.to_owned()),
            Err(_) => None,
        },
        address: symbol_address(symbol),
        size: symbol_size(symbol),
        is_definition: symbol_is_definition(symbol),
    }
}

/// Copies the entries of a symbol table.
fn copy_symbols(table: &object::read::SymbolTable<'_, '_>) -> (symbols: Vec<ElfSymbol>)
    ensures
        items_view(symbols@) == table_symbols(*table),
{
    let mut symbols: Vec<ElfSymbol> = Vec::new();
    let mut iter = walk_symbols(table);
    loop
        invariant
            items_view(symbols@) + symbols_left(iter) == table_symbols(*table),
        ensures
            items_view(symbols@) == table_symbols(*table),
        decreases symbols_left(iter).len(),
    {
        match next_symbol(&mut iter) {
            Some(symbol) => {
                let ghost before = symbols@;
                let copy = copy_symbol(&symbol);
                symbols.push(copy);
                assert(items_view(symbols@) == items_view(before).push(copy@));
            },
            None => {
                break;
            },
        }
    }
    symbols
}

impl<'data> ElfImage<'data> {
    /// Copies what an opened file holds.
    fn of_file(file: &object::read::File<'data>) -> (image: ElfImage<'data>)
        ensures
            image@ == file_image(*file),
    {
        let symbols: Vec<ElfSymbol> = match table_of_file(file) {
            Some(table) => copy_symbols(&table),
            None => Vec::new(),
        };
        let image = ElfImage {
            endianness: order_of_file(file),
            sections: copy_sections(file),
            symbols,
        };
        assert(image@.symbols == file_image(*file).symbols);
        image
    }

    /// Opens the file whose bytes are `data` and copies what it holds.
    pub fn read(data: &'data [u8]) -> (result: Result<ElfImage<'data>, ReadError>)
        ensures
            match result {
                Ok(image) => read_from(data@, image@),
                Err(error) => is_complaint(error@) && may_refuse(data@, error@),
            },
    {
        match open_file(data) {
            Ok(file) => {
                let image = ElfImage::of_file(&file);
                assert(file_image(file) == image@);
                Ok(image)
            },
            Err(error) => Err(read_error(&error)),
        }
    }
}

} // verus!
