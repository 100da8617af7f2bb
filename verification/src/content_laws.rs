//! What the mathematical contents of values say of the values.

use crate::elf::{
    file_bytes, file_image, file_order, file_sections, file_symbols, items_view, read_from,
    ElfImage, ElfImageView,
};
use crate::endian::Endianness;
use crate::error::{
    name_view, BpfError, BpfErrorView, BtfError, ParseError, ParseErrorView, ReadError,
};
use crate::load::{elf_error, load_outcome, unreadable};
use crate::map::BpfMap;
use crate::object::{
    decode_outcome, parse_outcome, read_outcome, refused, values_view, Object, ObjectView,
};
use crate::program::{Function, Program};
use crate::section::{ElfSection, ElfSymbol, RawSection, SymbolView};
use vstd::prelude::*;

verus! {

/// Law: an optional name is there or not, and is the same text.
pub proof fn law_name_content(name: Option<String>)
    ensures
        name_view(name) is Some <==> name is Some,
        name matches Some(text) ==> name_view(name) == Some(text@),
{
}

/// Law: the contents of a map are those of its values, under the same keys.
pub proof fn law_map_of_contents<K, T: View>(map: Map<K, T>)
    ensures
        values_view(map).dom() == map.dom(),
        forall|key: K| #[trigger] map.contains_key(key) ==> values_view(map)[key] == map[key]@,
{
    assert(values_view(map).dom() =~= map.dom());
}

/// Law: the contents of a sequence are those of its items, in the same order.
pub proof fn law_sequence_of_contents<T: View>(items: Seq<T>)
    ensures
        items_view(items).len() == items.len(),
        forall|i: int| 0 <= i < items.len() ==> #[trigger] items_view(items)[i] == items[i]@,
{
}

/// Law: a symbol has the number, the section, the whole name, the address, the
/// size and the standing that its content shows.
pub proof fn law_symbol_content(symbol: ElfSymbol)
    ensures
        symbol@.index == symbol.index,
        symbol@.section_index == symbol.section_index,
        symbol@.name is Some <==> symbol.name is Some,
        symbol.name matches Some(text) ==> symbol@.name == Some(text@),
        symbol@.address == symbol.address,
        symbol@.size == symbol.size,
        symbol@.is_definition == symbol.is_definition,
{
}

/// Law: a section of a file has the number, address, name, data and relocations
/// that its content shows, or the complaints in their place.
pub proof fn law_raw_section_content(section: RawSection<'_>)
    ensures
        section@.index == section.index,
        section@.address == section.address,
        section.name matches Ok(name) ==> section@.name == Ok::<Seq<char>, Seq<char>>(name@),
        section.name matches Err(error) ==> section@.name == Err::<Seq<char>, Seq<char>>(
            error.message@,
        ),
        section.data matches Ok(data) ==> section@.data == Ok::<Seq<u8>, Seq<char>>(data@),
        section.data matches Err(error) ==> section@.data == Err::<Seq<u8>, Seq<char>>(
            error.message@,
        ),
        section@.relocations == section.relocations@,
{
}

/// Law: a section that was read has the number, address, name, data and
/// relocations that its content shows.
pub proof fn law_section_content(section: ElfSection<'_>)
    ensures
        section@.index == section.index,
        section@.address == section.address,
        section@.name == section.name@,
        section@.data == section.data@,
        section@.relocations == section.relocations@,
{
}

/// Law: a map has the name, definition, section and data that its content
/// shows.
pub proof fn law_map_content(map: BpfMap)
    ensures
        map@.name == map.name@,
        map@.def == map.def,
        map@.section_index == map.section_index,
        map@.data == map.data@,
{
}

/// Law: a function has the address, name, place and instructions that its
/// content shows.
pub proof fn law_function_content(function: Function)
    ensures
        function@.address == function.address,
        function@.name == function.name@,
        function@.section_index == function.section_index,
        function@.section_offset == function.section_offset,
        function@.instructions == function.instructions@,
{
}

/// Law: a program has the terms, kind and function that its content shows.
pub proof fn law_program_content(program: Program)
    ensures
        program@.license == program.license@,
        program@.kernel_version == program.kernel_version,
        program@.kind == program.kind,
        program@.function == program.function@,
{
}

/// Law: an object has the parts that its content shows, each under its own key.
pub proof fn law_object_content(object: Object)
    ensures
        object@.endianness == object.endianness,
        object@.host == object.host,
        object@.license == object.license@,
        object@.kernel_version == object.kernel_version,
        object@.btf == object.btf,
        object@.btf_ext == object.btf_ext,
        object@.maps.dom() == object.maps@.dom(),
        forall|name: Seq<char>| #[trigger]
            object.maps@.contains_key(name) ==> object@.maps[name] == object.maps@[name]@,
        object@.programs.dom() == object.programs@.dom(),
        forall|name: Seq<char>| #[trigger]
            object.programs@.contains_key(name) ==> object@.programs[name]
                == object.programs@[name]@,
        object@.functions.dom() == object.functions@.dom(),
        forall|address: u64| #[trigger]
            object.functions@.contains_key(address) ==> object@.functions[address]
                == object.functions@[address]@,
        object@.relocations.dom() == object.relocations@.dom(),
        forall|index: usize| #[trigger]
            object.relocations@.contains_key(index) ==> object@.relocations[index]
                == object.relocations@[index]@,
        object@.symbols_by_index.dom() == object.symbols_by_index@.dom(),
        forall|index: usize| #[trigger]
            object.symbols_by_index@.contains_key(index) ==> object@.symbols_by_index[index]
                == object.symbols_by_index@[index]@,
{
    law_map_of_contents(object.maps@);
    law_map_of_contents(object.programs@);
    law_map_of_contents(object.functions@);
    law_map_of_contents(object.relocations@);
    law_map_of_contents(object.symbols_by_index@);
}

/// Law: an image has the byte order, the sections and the symbols that its
/// content shows, in the same order.
pub proof fn law_image_content(image: ElfImage<'_>)
    ensures
        image@.endianness == image.endianness,
        image@.sections.len() == image.sections@.len(),
        forall|i: int|
            0 <= i < image.sections@.len() ==> #[trigger] image@.sections[i]
                == image.sections@[i]@,
        image@.symbols.len() == image.symbols@.len(),
        forall|i: int|
            0 <= i < image.symbols@.len() ==> #[trigger] image@.symbols[i] == image.symbols@[i]@,
{
}

/// Law: the image of an opened file has the byte order of the file, every
/// section of it, and every symbol, if there is a symbol table.
pub proof fn law_image_of_a_file(file: object::read::File<'_>)
    ensures
        file_image(file).endianness == file_order(file),
        file_image(file).sections == file_sections(file),
        file_symbols(file) matches Some(symbols) ==> file_image(file).symbols == symbols,
        file_symbols(file) is None ==> file_image(file).symbols == Seq::<SymbolView>::empty(),
{
}

/// Law: what was read from bytes is all that some opened file over these bytes
/// holds; and the bytes start with the magic number of ELF files, a class, the
/// byte order and the version.
pub proof fn law_image_of_bytes(data: Seq<u8>, image: ElfImageView)
    requires
        read_from(data, image),
    ensures
        exists|file: object::read::File<'_>|
            #![trigger file_bytes(file)]
            file_bytes(file) == data && image.endianness == file_order(file) && image.sections
                == file_sections(file) && (match file_symbols(file) {
                Some(symbols) => image.symbols == symbols,
                None => image.symbols.len() == 0,
            }),
        data.len() >= 16,
        data.take(4) == seq![0x7fu8, 0x45, 0x4c, 0x46],
        data[4] == 1 || data[4] == 2,
        data[5] == 1 <==> image.endianness == Endianness::Little,
        data[5] == 2 <==> image.endianness == Endianness::Big,
        data[6] == 1,
        forall|i: int| 0 <= i < image.sections.len() ==> (#[trigger] image.sections[i]).index == i,
        forall|i: int| 0 <= i < image.symbols.len() ==> (#[trigger] image.symbols[i]).index == i,
        forall|i: int|
            0 <= i < image.sections.len() ==> ((#[trigger] image.sections[i]).data matches Ok(piece)
                ==> exists|at: int|
                0 <= at <= data.len() - piece.len() && piece == #[trigger] data.subrange(
                    at,
                    at + piece.len(),
                )),
{
    let file = choose|file: object::read::File<'_>|
        file_bytes(file) == data && #[trigger] file_image(file) == image;
    law_image_of_a_file(file);
    assert(file_bytes(file) == data);
}

/// Law: the content of a complaint is its text.
pub proof fn law_complaint_content(error: ReadError)
    ensures
        error@ == error.message@,
{
}

/// Law: the content of an error is of the same variant, and has the contents of
/// its fields.
pub proof fn law_parse_error_content(error: ParseError)
    ensures
        error matches ParseError::ElfError(source) ==> error@ == ParseErrorView::ElfError(
            source.message@,
        ),
        error matches ParseError::MissingLicenseNullTerminator { data } ==> error@ == (
        ParseErrorView::MissingLicenseNullTerminator { data: data@ }),
        error matches ParseError::InvalidLicense { data } ==> error@ == (
        ParseErrorView::InvalidLicense { data: data@ }),
        error matches ParseError::InvalidKernelVersion { data } ==> error@ == (
        ParseErrorView::InvalidKernelVersion { data: data@ }),
        error matches ParseError::SectionError { index, source } ==> error@ == (
        ParseErrorView::SectionError { index, source: source.message@ }),
        error is UnsupportedRelocationTarget ==> error@
            == ParseErrorView::UnsupportedRelocationTarget,
        error matches ParseError::InvalidProgramKind { kind } ==> error@ == (
        ParseErrorView::InvalidProgramKind { kind: kind@ }),
        error is InvalidProgramCode ==> error@ == ParseErrorView::InvalidProgramCode,
        error matches ParseError::InvalidMapDefinition { name } ==> error@ == (
        ParseErrorView::InvalidMapDefinition { name: name@ }),
        error matches ParseError::SymbolTableConflict { section_index, address } ==> error@ == (
        ParseErrorView::SymbolTableConflict { section_index, address }),
        error matches ParseError::UnknownSymbol { section_index, address } ==> error@ == (
        ParseErrorView::UnknownSymbol { section_index, address }),
        error matches ParseError::InvalidSymbol { index, name: Some(name) } ==> error@ == (
        ParseErrorView::InvalidSymbol { index, name: Some(name@) }),
        error matches ParseError::InvalidSymbol { index, name: None } ==> error@ == (
        ParseErrorView::InvalidSymbol { index, name: None }),
{
}

/// Law: the content of an error tells whose error it is, and shows it.
pub proof fn law_bpf_error_content(error: BpfError)
    ensures
        error matches BpfError::ParseError(inner) ==> error@ == BpfErrorView::ParseError(inner@),
        error matches BpfError::BtfError(inner) ==> error@ == BpfErrorView::BtfError(inner),
{
}

/// Law: an outcome shows success where there was success, and otherwise the
/// error that was returned.
pub proof fn law_outcomes(
    parsed: Result<(), ParseError>,
    decoded: Result<(), BtfError>,
    read: Result<(), BpfError>,
    error: ParseErrorView,
)
    ensures
        parse_outcome(parsed) is Ok <==> parsed is Ok,
        parsed matches Err(error) ==> parse_outcome(parsed) == Err::<(), BpfErrorView>(
            BpfErrorView::ParseError(error@),
        ),
        decode_outcome(decoded) is Ok <==> decoded is Ok,
        decoded matches Err(error) ==> decode_outcome(decoded) == Err::<(), BpfErrorView>(
            BpfErrorView::BtfError(error),
        ),
        read_outcome(read) is Ok <==> read is Ok,
        read matches Err(error) ==> read_outcome(read) == Err::<(), BpfErrorView>(error@),
        refused(error) == Err::<(), BpfErrorView>(BpfErrorView::ParseError(error)),
{
}

/// Law: the outcome of loading shows the object or the error that was returned,
/// or that there was neither.
pub proof fn law_load_outcome(result: Option<Result<Object, BpfError>>)
    ensures
        result is None <==> load_outcome(result) is None,
        result matches Some(Ok(object)) ==> load_outcome(result) == Some(
            Ok::<ObjectView, BpfErrorView>(object@),
        ),
        result matches Some(Err(error)) ==> load_outcome(result) == Some(
            Err::<ObjectView, BpfErrorView>(error@),
        ),
{
}

/// Law: a file that could not be opened has an ELF error for an outcome, with a
/// complaint about its own bytes.
pub proof fn law_unreadable_files(
    data: Seq<u8>,
    outcome: Option<Result<ObjectView, BpfErrorView>>,
)
    requires
        unreadable(data, outcome),
    ensures
        outcome matches Some(Err(BpfErrorView::ParseError(ParseErrorView::ElfError(message))))
            && crate::elf::may_refuse(data, message),
{
    let message = choose|message: Seq<char>|
        crate::elf::is_complaint(message) && crate::elf::may_refuse(data, message) && outcome
            == #[trigger] elf_error(message);
    assert(outcome == elf_error(message));
}

} // verus!
