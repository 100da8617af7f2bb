//! The maps that an object defines.

use crate::endian::{read_u32, u32_bytes, u32_of, Endianness};
use crate::error::{ParseError, ParseErrorView};
use crate::section::{ElfSection, SectionView};
use crate::text::{same, starts_with};
use vstd::prelude::*;
use vstd::slice::slice_to_vec;

verus! {

/// The number by which the kernel knows the type of array maps.
pub const BPF_MAP_TYPE_ARRAY: u32 = 2;

/// How a map is to be created.
#[allow(non_camel_case_types)]
#[derive(Debug, Copy, Clone, PartialEq, Eq, Structural)]
pub struct bpf_map_def {
    pub map_type: u32,
    pub key_size: u32,
    pub value_size: u32,
    pub max_entries: u32,
    pub map_flags: u32,
    pub id: u32,
    pub pinning: u32,
}

/// A map, and what it holds at the start.
#[derive(Debug, Clone)]
pub struct BpfMap {
    pub name: String,
    pub def: bpf_map_def,
    /// The section that the map was read from.
    pub section_index: usize,
    pub data: Vec<u8>,
}

/// The mathematical content of a [`BpfMap`].
pub struct BpfMapView {
    pub name: Seq<char>,
    pub def: bpf_map_def,
    pub section_index: usize,
    pub data: Seq<u8>,
}

impl View for BpfMap {
    type V = BpfMapView;

    open spec fn view(&self) -> BpfMapView {
        BpfMapView {
            name: self.name@,
            def: self.def,
            section_index: self.section_index,
            data: self.data@,
        }
    }
}

/// Word number `i` of `data` in the memory of a machine with the given byte
/// order.
pub open spec fn word_of(data: Seq<u8>, i: int, host: Endianness) -> u32 {
    u32_of(data.subrange(4 * i, 4 * i + 4), host)
}

/// The definition that seven words stand for.
pub open spec fn def_of(data: Seq<u8>, host: Endianness) -> bpf_map_def {
    bpf_map_def {
        map_type: word_of(data, 0, host),
        key_size: word_of(data, 1, host),
        value_size: word_of(data, 2, host),
        max_entries: word_of(data, 3, host),
        map_flags: word_of(data, 4, host),
        id: word_of(data, 5, host),
        pinning: word_of(data, 6, host),
    }
}

/// The seven words of a definition.
pub open spec fn def_bytes(def: bpf_map_def, host: Endianness) -> Seq<u8> {
    u32_bytes(def.map_type, host) + u32_bytes(def.key_size, host) + u32_bytes(def.value_size, host)
        + u32_bytes(def.max_entries, host) + u32_bytes(def.map_flags, host) + u32_bytes(
        def.id,
        host,
    ) + u32_bytes(def.pinning, host)
}

/// The definition at the start of the contents of a section of maps.
pub open spec fn map_def_of(name: Seq<char>, data: Seq<u8>, host: Endianness) -> Result<
    bpf_map_def,
    ParseErrorView,
> {
    if data.len() < 28 {
        Err(ParseErrorView::InvalidMapDefinition { name })
    } else {
        Ok(def_of(data, host))
    }
}

/// Reads the definition of the map `name` at the start of `data`, as a machine
/// with the byte order `host` finds it in its memory.
pub fn parse_map_def(name: &str, data: &[u8], host: Endianness) -> (result: Result<
    bpf_map_def,
    ParseError,
>)
    ensures
        match result {
            Ok(def) => map_def_of(name@, data@, host) == Ok::<bpf_map_def, ParseErrorView>(def),
            Err(error) => map_def_of(name@, data@, host) == Err::<bpf_map_def, ParseErrorView>(
                error@,
            ),
        },
{
    if data.len() < 28 {
        return Err(ParseError::InvalidMapDefinition { name: name.to_owned() });
    }
    Ok(
        bpf_map_def {
            map_type: read_u32(data, 0, host),
            key_size: read_u32(data, 4, host),
            value_size: read_u32(data, 8, host),
            max_entries: read_u32(data, 12, host),
            map_flags: read_u32(data, 16, host),
            id: read_u32(data, 20, host),
            pinning: read_u32(data, 24, host),
        },
    )
}

/// Whether a section of this name holds global variables.
pub open spec fn names_data(name: Seq<char>) -> bool {
    name == ".bss"@ || ".data"@.is_prefix_of(name) || ".rodata"@.is_prefix_of(name)
}

/// Whether a section of this name holds global variables.
pub fn is_data_name(name: &str) -> (found: bool)
    ensures
        found == names_data(name@),
{
    same(name, ".bss") || starts_with(name, ".data") || starts_with(name, ".rodata")
}

/// The definition of the map that holds `length` bytes of global variables:
/// an array of one value. The size of the value is kept in 32 bits.
pub open spec fn data_map_def(length: nat) -> bpf_map_def {
    bpf_map_def {
        map_type: BPF_MAP_TYPE_ARRAY,
        key_size: 4,
        value_size: (length % 0x1_0000_0000) as u32,
        max_entries: 1,
        map_flags: 0,
        id: 0,
        pinning: 0,
    }
}

/// The map called `name` that a section stands for: its global variables, or
/// the definition at its start.
pub open spec fn map_of(section: SectionView, name: Seq<char>, host: Endianness) -> Result<
    BpfMapView,
    ParseErrorView,
> {
    if names_data(name) {
        Ok(
            BpfMapView {
                name,
                def: data_map_def(section.data.len()),
                section_index: section.index,
                data: section.data,
            },
        )
    } else {
        match map_def_of(name, section.data, host) {
            Ok(def) => Ok(
                BpfMapView { name, def, section_index: section.index, data: Seq::empty() },
            ),
            Err(error) => Err(error),
        }
    }
}

/// Reads the map called `name` out of a section, as a machine with the byte
/// order `host` finds it in its memory.
pub fn parse_map(section: &ElfSection, name: &str, host: Endianness) -> (result: Result<
    BpfMap,
    ParseError,
>)
    ensures
        match result {
            Ok(map) => map_of(section@, name@, host) == Ok::<BpfMapView, ParseErrorView>(map@),
            Err(error) => map_of(section@, name@, host) == Err::<BpfMapView, ParseErrorView>(
                error@,
            ),
        },
{
    if is_data_name(name) {
        let def = bpf_map_def {
            map_type: BPF_MAP_TYPE_ARRAY,
            key_size: 4,
            value_size: (section.data.len() as u64 % 0x1_0000_0000) as u32,
            max_entries: 1,
            map_flags: 0,
            id: 0,
            pinning: 0,
        };
        return Ok(
            BpfMap {
                name: name.to_owned(),
                def,
                section_index: section.index,
                data: slice_to_vec(section.data),
            },
        );
    }
    match parse_map_def(name, section.data, host) {
        Ok(def) => {
            let data: Vec<u8> = Vec::new();
            assert(data@ == Seq::<u8>::empty());
            Ok(BpfMap { name: name.to_owned(), def, section_index: section.index, data })
        },
        Err(error) => Err(error),
    }
}

/// Law: a definition comes back from its bytes, whatever follows them.
pub proof fn law_map_def_round_trip(
    name: Seq<char>,
    def: bpf_map_def,
    rest: Seq<u8>,
    host: Endianness,
)
    ensures
        map_def_of(name, def_bytes(def, host) + rest, host) == Ok::<bpf_map_def, ParseErrorView>(
            def,
        ),
{
    let data = def_bytes(def, host) + rest;
    crate::endian::law_u32_round_trip(def.map_type, host);
    crate::endian::law_u32_round_trip(def.key_size, host);
    crate::endian::law_u32_round_trip(def.value_size, host);
    crate::endian::law_u32_round_trip(def.max_entries, host);
    crate::endian::law_u32_round_trip(def.map_flags, host);
    crate::endian::law_u32_round_trip(def.id, host);
    crate::endian::law_u32_round_trip(def.pinning, host);
    assert(data.subrange(0, 4) == u32_bytes(def.map_type, host));
    assert(data.subrange(4, 8) == u32_bytes(def.key_size, host));
    assert(data.subrange(8, 12) == u32_bytes(def.value_size, host));
    assert(data.subrange(12, 16) == u32_bytes(def.max_entries, host));
    assert(data.subrange(16, 20) == u32_bytes(def.map_flags, host));
    assert(data.subrange(20, 24) == u32_bytes(def.id, host));
    assert(data.subrange(24, 28) == u32_bytes(def.pinning, host));
}

/// Law: the map of a section of global variables holds the bytes of that
/// section, and its value has their size where that fits into 32 bits.
pub proof fn law_data_map_keeps_bytes(section: SectionView, name: Seq<char>, host: Endianness)
    requires
        names_data(name),
    ensures
        map_of(section, name, host) matches Ok(map) && map.data == section.data && (
        section.data.len() <= u32::MAX ==> map.def.value_size == section.data.len()),
{
}

} // verus!
