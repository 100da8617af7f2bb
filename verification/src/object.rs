//! Objects: everything that a loader needs of a file.

use crate::btf::{Btf, BtfDecoders, BtfExt};
use crate::code::{
    code_fits, definitions, end_from, functions_from, in_conflict, shares_address,
    symbols_by_address, with_functions, CodeEnd,
};
use crate::endian::{host_endianness, is_host_order, Endianness};
use crate::error::{BpfError, BpfErrorView, BtfError, ParseError, ParseErrorView};
use crate::insn::{code_of, copy_instructions};
use crate::kind::{kind_of, names_kind, ProgramKind};
use crate::license::License;
use crate::map::{is_data_name, map_of, names_data, parse_map, BpfMap, BpfMapView};
use crate::name_map::NameMap;
use crate::program::{Function, FunctionView, Program, ProgramView};
use crate::section::{ElfRelocation, ElfSection, ElfSymbol, SectionView, SymbolView};
use crate::text::{same, split_at_last_slash, split_name, starts_with};
use crate::version::KernelVersion;
use std::collections::HashMap;
use vstd::prelude::*;

verus! {

broadcast use vstd::std_specs::hash::group_hash_axioms;

/// What was read of a file.
#[derive(Clone)]
pub struct Object {
    /// The byte order of the file.
    pub endianness: Endianness,
    /// The byte order of the machine that the object was read on, in which
    /// instructions and map definitions are understood.
    pub host: Endianness,
    pub license: License,
    pub kernel_version: KernelVersion,
    pub btf: Option<Btf>,
    pub btf_ext: Option<BtfExt>,
    pub maps: NameMap<BpfMap>,
    pub programs: NameMap<Program>,
    /// The functions outside of programs, by their addresses.
    pub functions: HashMap<u64, Function>,
    /// The relocations by the index of their section, then by their offset.
    pub relocations: HashMap<usize, HashMap<u64, ElfRelocation>>,
    pub symbols_by_index: HashMap<usize, ElfSymbol>,
}

/// The mathematical content of an [`Object`].
pub struct ObjectView {
    pub endianness: Endianness,
    pub host: Endianness,
    pub license: Seq<u8>,
    pub kernel_version: KernelVersion,
    pub btf: Option<Btf>,
    pub btf_ext: Option<BtfExt>,
    pub maps: Map<Seq<char>, BpfMapView>,
    pub programs: Map<Seq<char>, ProgramView>,
    pub functions: Map<u64, FunctionView>,
    pub relocations: Map<usize, Map<u64, ElfRelocation>>,
    pub symbols_by_index: Map<usize, SymbolView>,
}

/// The contents of the values of a map.
pub open spec fn values_view<K, T: View>(map: Map<K, T>) -> Map<K, T::V> {
    Map::new(|key: K| map.contains_key(key), |key: K| map[key]@)
}

pub(crate) proof fn lemma_values_view_insert<K, T: View>(map: Map<K, T>, key: K, value: T)
    ensures
        values_view(map.insert(key, value)) == values_view(map).insert(key, value@),
{
    assert(values_view(map.insert(key, value)) =~= values_view(map).insert(key, value@));
}

impl View for Object {
    type V = ObjectView;

    open spec fn view(&self) -> ObjectView {
        ObjectView {
            endianness: self.endianness,
            host: self.host,
            license: self.license@,
            kernel_version: self.kernel_version,
            btf: self.btf,
            btf_ext: self.btf_ext,
            maps: values_view(self.maps@),
            programs: values_view(self.programs@),
            functions: values_view(self.functions@),
            relocations: values_view(self.relocations@),
            symbols_by_index: values_view(self.symbols_by_index@),
        }
    }
}

/// The object that nothing has been read into.
pub open spec fn empty_object(
    endianness: Endianness,
    host: Endianness,
    license: Seq<u8>,
    kernel_version: KernelVersion,
) -> ObjectView {
    ObjectView {
        endianness,
        host,
        license,
        kernel_version,
        btf: None,
        btf_ext: None,
        maps: Map::empty(),
        programs: Map::empty(),
        functions: Map::empty(),
        relocations: Map::empty(),
        symbols_by_index: Map::empty(),
    }
}

/// The program that a section stands for.
pub open spec fn program_of(
    object: ObjectView,
    section: SectionView,
    kind: Seq<char>,
    name: Seq<char>,
) -> Result<ProgramView, ParseErrorView> {
    match (kind_of(kind), code_of(section.data, object.host)) {
        (Err(error), _) => Err(error),
        (_, Err(error)) => Err(error),
        (Ok(kind), Ok(instructions)) => Ok(
            ProgramView {
                license: object.license,
                kernel_version: object.kernel_version,
                kind,
                function: FunctionView {
                    address: section.address,
                    name,
                    section_index: section.index,
                    section_offset: 0,
                    instructions,
                },
            },
        ),
    }
}

/// What a section is read as.
pub enum SectionRole {
    /// Global variables.
    Data,
    /// Functions.
    Text,
    /// Type information.
    Btf,
    /// Type information about functions and lines.
    BtfExt,
    /// The definition of a map.
    MapDefinition { name: Seq<char> },
    /// A program of the named kind.
    Program { kind: Seq<char>, name: Seq<char> },
    /// Nothing.
    Other,
}

/// Whether a section of this name, without a slash in it, holds a program
/// that goes by the name of its kind.
pub open spec fn names_bare_program(name: Seq<char>) -> bool {
    name == "xdp"@ || name == "sk_msg"@ || name == "sockops"@ || name == "classifier"@
}

/// Whether a section whose name starts with `front` and a slash is taken for
/// a program.
pub open spec fn names_program(front: Seq<char>) -> bool {
    names_kind(front) || front == "cgroup/skb"@
}

/// What a section of this name is read as.
pub open spec fn role_of(name: Seq<char>) -> SectionRole {
    match split_name(name) {
        Some((front, back)) => if front == "maps"@ {
            SectionRole::MapDefinition { name: back }
        } else if names_program(front) {
            SectionRole::Program { kind: front, name: back }
        } else {
            SectionRole::Other
        },
        None => if names_bare_program(name) {
            SectionRole::Program { kind: name, name }
        } else if names_data(name) {
            SectionRole::Data
        } else if ".text"@.is_prefix_of(name) {
            SectionRole::Text
        } else if name == ".BTF"@ {
            SectionRole::Btf
        } else if name == ".BTF.ext"@ {
            SectionRole::BtfExt
        } else {
            SectionRole::Other
        },
    }
}

/// The outcome of a file that is at fault.
pub open spec fn refused(error: ParseErrorView) -> Result<(), BpfErrorView> {
    Err(BpfErrorView::ParseError(error))
}

/// Whether taking in the map called `name` turns `object` into `after`, with
/// the outcome `result`.
pub open spec fn map_read(
    object: ObjectView,
    section: SectionView,
    name: Seq<char>,
    after: ObjectView,
    result: Result<(), BpfErrorView>,
) -> bool {
    match map_of(section, name, object.host) {
        Ok(map) => result is Ok && after == (ObjectView {
            maps: object.maps.insert(name, map),
            ..object
        }),
        Err(error) => result == refused(error) && after == object,
    }
}

/// Whether taking in the program called `name` turns `object` into `after`,
/// with the outcome `result`.
pub open spec fn program_read(
    object: ObjectView,
    section: SectionView,
    kind: Seq<char>,
    name: Seq<char>,
    after: ObjectView,
    result: Result<(), BpfErrorView>,
) -> bool {
    match program_of(object, section, kind, name) {
        Ok(program) => result is Ok && after == (ObjectView {
            programs: object.programs.insert(name, program),
            relocations: with_relocations(object.relocations, section),
            ..object
        }),
        Err(error) => result == refused(error) && after == object,
    }
}

/// Whether taking in an answer about type information turns `object` into
/// `after`, with the outcome `result`.
pub open spec fn btf_taken(
    object: ObjectView,
    reply: Result<Btf, BtfError>,
    after: ObjectView,
    result: Result<(), BpfErrorView>,
) -> bool {
    match reply {
        Ok(btf) => result is Ok && after == (ObjectView { btf: Some(btf), ..object }),
        Err(error) => result == Err::<(), BpfErrorView>(BpfErrorView::BtfError(error)) && after
            == object,
    }
}

/// Whether taking in an answer about functions and lines turns `object` into
/// `after`, with the outcome `result`.
pub open spec fn btf_ext_taken(
    object: ObjectView,
    reply: Result<BtfExt, BtfError>,
    after: ObjectView,
    result: Result<(), BpfErrorView>,
) -> bool {
    match reply {
        Ok(btf_ext) => result is Ok && after == (ObjectView { btf_ext: Some(btf_ext), ..object }),
        Err(error) => result == Err::<(), BpfErrorView>(BpfErrorView::BtfError(error)) && after
            == object,
    }
}

/// Whether reading a section into `object` can turn it into `after`, with the
/// outcome `result`.
pub open spec fn section_read<F, G>(
    object: ObjectView,
    section: SectionView,
    decoders: BtfDecoders<F, G>,
    after: ObjectView,
    result: Result<(), BpfErrorView>,
) -> bool where
    F: Fn(&[u8], Endianness) -> Result<Btf, BtfError>,
    G: Fn(&[u8], Endianness) -> Result<BtfExt, BtfError>,
 {
    match role_of(section.name) {
        SectionRole::Data => map_read(object, section, section.name, after, result),
        SectionRole::MapDefinition { name } => map_read(object, section, name, after, result),
        SectionRole::Text => code_read(object, section, after, result),
        SectionRole::Program { kind, name } => program_read(
            object,
            section,
            kind,
            name,
            after,
            result,
        ),
        SectionRole::Btf => exists|reply: Result<Btf, BtfError>| #[trigger]
            decoders.btf_replies(section.data, object.endianness, reply) && btf_taken(
                object,
                reply,
                after,
                result,
            ),
        SectionRole::BtfExt => exists|reply: Result<BtfExt, BtfError>| #[trigger]
            decoders.btf_ext_replies(section.data, object.endianness, reply) && btf_ext_taken(
                object,
                reply,
                after,
                result,
            ),
        SectionRole::Other => result is Ok && after == object,
    }
}

/// Whether reading a code section into `object` can turn it into `after`, with
/// the outcome `result`. Where symbols share addresses, any address that two of
/// them share may be the one that is reported.
pub open spec fn code_read(
    object: ObjectView,
    section: SectionView,
    after: ObjectView,
    result: Result<(), BpfErrorView>,
) -> bool {
    let symbols = object.symbols_by_index;
    if in_conflict(symbols, section.index) {
        after == object && exists|address: u64|
            #![trigger shares_address(symbols, section.index, address)]
            shares_address(symbols, section.index, address) && result == refused(
                ParseErrorView::SymbolTableConflict { section_index: section.index, address },
            )
    } else {
        let found = definitions(symbols, section.index);
        let functions = with_functions(
            object.functions,
            functions_from(found, section, object.host, 0),
        );
        match end_from(found, section, 0) {
            CodeEnd::Complete => result is Ok && after == (ObjectView {
                functions,
                relocations: with_relocations(object.relocations, section),
                ..object
            }),
            CodeEnd::Fails(error) => result == refused(error) && after == (
            ObjectView { functions, ..object }),
            CodeEnd::Broken => false,
        }
    }
}

/// The outcome of a function that refuses files.
pub open spec fn parse_outcome(result: Result<(), ParseError>) -> Result<(), BpfErrorView> {
    match result {
        Ok(()) => Ok(()),
        Err(error) => refused(error@),
    }
}

/// The outcome of a function that asks a decoder.
pub open spec fn decode_outcome(result: Result<(), BtfError>) -> Result<(), BpfErrorView> {
    match result {
        Ok(()) => Ok(()),
        Err(error) => Err(BpfErrorView::BtfError(error)),
    }
}

/// The outcome of reading a section.
pub open spec fn read_outcome(result: Result<(), BpfError>) -> Result<(), BpfErrorView> {
    match result {
        Ok(()) => Ok(()),
        Err(error) => Err(error@),
    }
}

/// The relocations by their offsets; of several at one offset, the last.
pub open spec fn relocations_by_offset(relocations: Seq<ElfRelocation>) -> Map<u64, ElfRelocation>
    decreases relocations.len(),
{
    if relocations.len() == 0 {
        Map::empty()
    } else {
        relocations_by_offset(relocations.drop_last()).insert(
            relocations.last().offset,
            relocations.last(),
        )
    }
}

/// All relocations after those of a section have been added, if it has any.
pub open spec fn with_relocations(
    relocations: Map<usize, Map<u64, ElfRelocation>>,
    section: SectionView,
) -> Map<usize, Map<u64, ElfRelocation>> {
    if section.relocations.len() == 0 {
        relocations
    } else {
        relocations.insert(section.index, relocations_by_offset(section.relocations))
    }
}

/// Arranges relocations by their offsets.
fn index_relocations(relocations: &Vec<ElfRelocation>) -> (index: HashMap<u64, ElfRelocation>)
    ensures
        index@ == relocations_by_offset(relocations@),
{
    let mut index: HashMap<u64, ElfRelocation> = HashMap::new();
    let mut i: usize = 0;
    while i < relocations.len()
        invariant
            i <= relocations@.len(),
            index@ == relocations_by_offset(relocations@.take(i as int)),
        decreases relocations@.len() - i,
    {
        let relocation: ElfRelocation = relocations[i];
        index.insert(relocation.offset, relocation);
        i = i + 1;
        assert(relocations@.take(i as int).drop_last() == relocations@.take(i - 1));
    }
    assert(relocations@.take(i as int) == relocations@);
    index
}

impl Object {
    /// An object that nothing has been read into.
    pub fn new(endianness: Endianness, license: License, kernel_version: KernelVersion) -> (object:
        Object)
        ensures
            object@ == empty_object(endianness, object.host, license@, kernel_version),
            is_host_order(object.host),
    {
        let object = Object {
            endianness,
            host: host_endianness(),
            license,
            kernel_version,
            btf: None,
            btf_ext: None,
            maps: NameMap::new(),
            programs: NameMap::new(),
            functions: HashMap::new(),
            relocations: HashMap::new(),
            symbols_by_index: HashMap::new(),
        };
        proof {
            let expected = empty_object(endianness, object.host, object.license@, kernel_version);
            assert(object@.maps =~= expected.maps);
            assert(object@.programs =~= expected.programs);
            assert(object@.functions =~= expected.functions);
            assert(object@.relocations =~= expected.relocations);
            assert(object@.symbols_by_index =~= expected.symbols_by_index);
        }
        object
    }

    /// Reads the program called `name` out of a section. It is loaded under
    /// the license and for the version of the object.
    pub fn parse_program(&self, section: &ElfSection, kind: &str, name: &str) -> (result: Result<
        Program,
        ParseError,
    >)
        ensures
            match result {
                Ok(program) => program_of(self@, section@, kind@, name@) == Ok::<
                    ProgramView,
                    ParseErrorView,
                >(program@),
                Err(error) => program_of(self@, section@, kind@, name@) == Err::<
                    ProgramView,
                    ParseErrorView,
                >(error@),
            },
    {
        let license = self.license.clone();
        let found = match ProgramKind::from_str(kind) {
            Ok(found) => found,
            Err(error) => {
                return Err(error);
            },
        };
        let instructions = match copy_instructions(section.data, self.host) {
            Ok(instructions) => instructions,
            Err(error) => {
                return Err(error);
            },
        };
        Ok(
            Program {
                license,
                kernel_version: self.kernel_version,
                kind: found,
                function: Function {
                    address: section.address,
                    name: name.to_owned(),
                    section_index: section.index,
                    section_offset: 0,
                    instructions,
                },
            },
        )
    }

    /// Adds the relocations of a section.
    fn add_relocations(&mut self, section: &ElfSection)
        ensures
            final(self)@ == (ObjectView {
                relocations: with_relocations(old(self)@.relocations, section@),
                ..old(self)@
            }),
    {
        if section.relocations.len() > 0 {
            let index = index_relocations(&section.relocations);
            proof {
                lemma_values_view_insert(self.relocations@, section.index, index);
            }
            self.relocations.insert(section.index, index);
        }
    }

    /// Whether a code section can be read with the symbols of the object: no
    /// symbol that starts a function lacks a name, reaches beyond the end of
    /// the section, or lies beyond the last address.
    pub fn text_section_fits(&self, section: &ElfSection) -> (fits: bool)
        ensures
            fits == code_fits(self@.symbols_by_index, section@),
    {
        let found = match symbols_by_address(&self.symbols_by_index, section.index) {
            Ok(found) => found,
            Err(_) => {
                return true;
            },
        };
        let ghost laid_out = definitions(self@.symbols_by_index, section.index);
        let length: usize = section.data.len();
        let mut offset: usize = 0;
        while offset < length
            invariant
                offset <= length,
                length == section@.data.len(),
                laid_out == values_view(found@),
                laid_out == definitions(self@.symbols_by_index, section.index),
                !in_conflict(self@.symbols_by_index, section.index),
                end_from(laid_out, section@, offset as int) == end_from(laid_out, section@, 0),
            decreases length - offset,
        {
            if offset as u64 > u64::MAX - section.address {
                return false;
            }
            let address: u64 = section.address + offset as u64;
            let symbol = match found.get(&address) {
                Some(symbol) => *symbol,
                None => {
                    return true;
                },
            };
            assert(laid_out[address] == symbol@);
            if symbol.size == 0 {
                return true;
            }
            if symbol.name.is_none() || symbol.size > (length - offset) as u64 {
                return false;
            }
            if symbol.size % 8 != 0 {
                return true;
            }
            offset = offset + symbol.size as usize;
        }
        true
    }

    /// Reads the functions of a code section, one after the other.
    pub fn parse_text_section(&mut self, section: ElfSection) -> (result: Result<(), ParseError>)
        requires
            code_fits(old(self)@.symbols_by_index, section@),
        ensures
            code_read(old(self)@, section@, final(self)@, parse_outcome(result)),
    {
        let found = match symbols_by_address(&self.symbols_by_index, section.index) {
            Ok(found) => found,
            Err(error) => {
                return Err(error);
            },
        };
        let ghost laid_out = definitions(self@.symbols_by_index, section.index);
        let ghost before = self@;
        let length: usize = section.data.len();
        let mut offset: usize = 0;
        while offset < length
            invariant
                offset <= length,
                length == section@.data.len(),
                laid_out == values_view(found@),
                before == old(self)@,
                self@ == (ObjectView { functions: self@.functions, ..before }),
                with_functions(
                    self@.functions,
                    functions_from(laid_out, section@, before.host, offset as int),
                ) == with_functions(
                    before.functions,
                    functions_from(laid_out, section@, before.host, 0),
                ),
                end_from(laid_out, section@, offset as int) == end_from(laid_out, section@, 0),
                !(end_from(laid_out, section@, 0) is Broken),
                !in_conflict(before.symbols_by_index, section.index),
                laid_out == definitions(before.symbols_by_index, section.index),
            decreases length - offset,
        {
            let ghost rest = functions_from(laid_out, section@, before.host, offset as int);
            let address: u64 = section.address + offset as u64;
            let symbol = match found.get(&address) {
                Some(symbol) => *symbol,
                None => {
                    return Err(
                        ParseError::UnknownSymbol { section_index: section.index, address },
                    );
                },
            };
            assert(laid_out[address] == symbol@);
            if symbol.size == 0 {
                let copy = symbol.duplicate();
                return Err(ParseError::InvalidSymbol { index: copy.index, name: copy.name });
            }
            let name = match &symbol.name {
                Some(name) => name.clone(),
                // Excluded by the precondition.
                None => String::new(),
            };
            let end: usize = offset + symbol.size as usize;
            let instructions = match copy_instructions(
                vstd::slice::slice_subrange(section.data, offset, end),
                self.host,
            ) {
                Ok(instructions) => instructions,
                Err(error) => {
                    return Err(error);
                },
            };
            let function = Function {
                address,
                name,
                section_index: section.index,
                section_offset: offset,
                instructions,
            };
            proof {
                lemma_values_view_insert(self.functions@, address, function);
                assert(function@ == rest[0]);
                assert(rest.drop_first() == functions_from(
                    laid_out,
                    section@,
                    before.host,
                    end as int,
                ));
            }
            self.functions.insert(address, function);
            offset = end;
        }
        self.add_relocations(&section);
        Ok(())
    }

    /// Takes in the answer of a decoder about type information.
    pub fn take_btf(&mut self, reply: Result<Btf, BtfError>) -> (result: Result<(), BtfError>)
        ensures
            btf_taken(old(self)@, reply, final(self)@, decode_outcome(result)),
    {
        match reply {
            Ok(btf) => {
                self.btf = Some(btf);
                Ok(())
            },
            Err(error) => Err(error),
        }
    }

    /// Takes in the answer of a decoder about functions and lines.
    pub fn take_btf_ext(&mut self, reply: Result<BtfExt, BtfError>) -> (result: Result<
        (),
        BtfError,
    >)
        ensures
            btf_ext_taken(old(self)@, reply, final(self)@, decode_outcome(result)),
    {
        match reply {
            Ok(btf_ext) => {
                self.btf_ext = Some(btf_ext);
                Ok(())
            },
            Err(error) => Err(error),
        }
    }

    /// Has the type information in a section decoded.
    pub fn parse_btf<F, G>(
        &mut self,
        section: &ElfSection,
        decoders: &BtfDecoders<F, G>,
    ) -> (result: Result<(), BtfError>) where
        F: Fn(&[u8], Endianness) -> Result<Btf, BtfError>,
        G: Fn(&[u8], Endianness) -> Result<BtfExt, BtfError>,

        requires
            decoders.callable(),
        ensures
            exists|reply: Result<Btf, BtfError>| #[trigger]
                decoders.btf_replies(section@.data, old(self)@.endianness, reply) && btf_taken(
                    old(self)@,
                    reply,
                    final(self)@,
                    decode_outcome(result),
                ),
    {
        let reply = (decoders.btf)(section.data, self.endianness);
        assert(decoders.btf_replies(section@.data, old(self)@.endianness, reply));
        self.take_btf(reply)
    }

    /// Has the type information about functions and lines in a section decoded.
    pub fn parse_btf_ext<F, G>(
        &mut self,
        section: &ElfSection,
        decoders: &BtfDecoders<F, G>,
    ) -> (result: Result<(), BtfError>) where
        F: Fn(&[u8], Endianness) -> Result<Btf, BtfError>,
        G: Fn(&[u8], Endianness) -> Result<BtfExt, BtfError>,

        requires
            decoders.callable(),
        ensures
            exists|reply: Result<BtfExt, BtfError>| #[trigger]
                decoders.btf_ext_replies(section@.data, old(self)@.endianness, reply)
                    && btf_ext_taken(
                    old(self)@,
                    reply,
                    final(self)@,
                    decode_outcome(result),
                ),
    {
        let reply = (decoders.btf_ext)(section.data, self.endianness);
        assert(decoders.btf_ext_replies(section@.data, old(self)@.endianness, reply));
        self.take_btf_ext(reply)
    }

    /// Takes in the map called `name` that a section holds.
    fn add_map(&mut self, section: &ElfSection, name: &str) -> (result: Result<(), BpfError>)
        ensures
            map_read(old(self)@, section@, name@, final(self)@, read_outcome(result)),
    {
        match parse_map(section, name, self.host) {
            Ok(map) => {
                proof {
                    lemma_values_view_insert(self.maps@, name@, map);
                }
                self.maps.insert(name.to_owned(), map);
                Ok(())
            },
            Err(error) => Err(BpfError::ParseError(error)),
        }
    }

    /// Takes in the program called `name` that a section holds.
    fn add_program(&mut self, section: &ElfSection, kind: &str, name: &str) -> (result: Result<
        (),
        BpfError,
    >)
        ensures
            program_read(old(self)@, section@, kind@, name@, final(self)@, read_outcome(result)),
    {
        match self.parse_program(section, kind, name) {
            Ok(program) => {
                proof {
                    lemma_values_view_insert(self.programs@, name@, program);
                }
                self.programs.insert(name.to_owned(), program);
                self.add_relocations(section);
                Ok(())
            },
            Err(error) => Err(BpfError::ParseError(error)),
        }
    }

    /// Reads a section into the object. Its name decides what it is read as.
    pub fn parse_section<F, G>(
        &mut self,
        section: ElfSection,
        decoders: &BtfDecoders<F, G>,
    ) -> (result: Result<(), BpfError>) where
        F: Fn(&[u8], Endianness) -> Result<Btf, BtfError>,
        G: Fn(&[u8], Endianness) -> Result<BtfExt, BtfError>,

        requires
            decoders.callable(),
            role_of(section@.name) is Text ==> code_fits(old(self)@.symbols_by_index, section@),
        ensures
            section_read(old(self)@, section@, *decoders, final(self)@, read_outcome(result)),
    {
        let whole = section.name;
        match split_at_last_slash(whole) {
            Some((front, back)) => {
                if same(front, "maps") {
                    self.add_map(&section, back)
                } else if is_program_name(front) {
                    self.add_program(&section, front, back)
                } else {
                    Ok(())
                }
            },
            None => {
                if is_bare_program_name(whole) {
                    self.add_program(&section, whole, whole)
                } else if is_data_name(whole) {
                    self.add_map(&section, whole)
                } else if starts_with(whole, ".text") {
                    match self.parse_text_section(section) {
                        Ok(()) => Ok(()),
                        Err(error) => Err(BpfError::ParseError(error)),
                    }
                } else if same(whole, ".BTF") {
                    match self.parse_btf(&section, decoders) {
                        Ok(()) => Ok(()),
                        Err(error) => Err(BpfError::BtfError(error)),
                    }
                } else if same(whole, ".BTF.ext") {
                    match self.parse_btf_ext(&section, decoders) {
                        Ok(()) => Ok(()),
                        Err(error) => Err(BpfError::BtfError(error)),
                    }
                } else {
                    Ok(())
                }
            },
        }
    }
}

/// Whether a section of this name holds a program that goes by the name of
/// its kind.
fn is_bare_program_name(name: &str) -> (found: bool)
    ensures
        found == names_bare_program(name@),
{
    same(name, "xdp") || same(name, "sk_msg") || same(name, "sockops") || same(name, "classifier")
}

/// Whether a section of this name is read as code.
pub fn is_code_name(name: &str) -> (found: bool)
    ensures
        found == (role_of(name@) is Text),
{
    split_at_last_slash(name).is_none() && !is_bare_program_name(name) && !is_data_name(name)
        && starts_with(name, ".text")
}

/// Whether a section whose name starts with `front` and a slash is taken for
/// a program.
pub fn is_program_name(front: &str) -> (found: bool)
    ensures
        found == names_program(front@),
{
    ProgramKind::from_str(front).is_ok() || same(front, "cgroup/skb")
}

} // verus!
