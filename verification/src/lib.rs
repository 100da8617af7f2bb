//! Reading of compiled eBPF object files.
//!
//! The entry point is [`Object::parse`]: it takes the bytes of an ELF file
//! and gives back the maps, programs, functions, relocations and symbols that
//! a loader needs. Everything between the section table of the file and the
//! finished [`Object`] is specified and proved here.

pub mod btf;
pub mod code;
pub mod content_laws;
pub mod elf;
pub mod endian;
pub mod error;
pub mod file_laws;
pub mod insn;
pub mod kind;
pub mod license;
pub mod load;
pub mod load_laws;
pub mod map;
pub mod name_map;
pub mod object;
pub mod part_laws;
pub mod program;
pub mod read_laws;
pub mod section;
pub mod section_laws;
pub mod text;
pub mod version;

pub use crate::btf::{Btf, BtfDecoders, BtfExt};
pub use crate::elf::ElfImage;
pub use crate::endian::{host_endianness, Endianness};
pub use crate::error::{BpfError, BtfError, ParseError, ReadError};
pub use crate::insn::{bpf_insn, copy_instructions};
pub use crate::kind::ProgramKind;
pub use crate::license::{parse_license, License};
pub use crate::map::{bpf_map_def, parse_map, parse_map_def, BpfMap};
pub use crate::name_map::NameMap;
pub use crate::object::Object;
pub use crate::program::{Function, Program};
pub use crate::section::{
    ElfRelocation, ElfSection, ElfSymbol, RawRelocation, RawSection, RelocationTarget,
};
pub use crate::version::{parse_version, KernelVersion};
