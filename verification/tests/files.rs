//! Whole ELF files, put together byte by byte.

use bpf_object::{
    BpfError, Btf, BtfDecoders, BtfError, BtfExt, ElfImage, Endianness, KernelVersion, Object,
    ParseError, ProgramKind, RelocationTarget,
};

const PROGBITS: u32 = 1;
const SYMTAB: u32 = 2;
const STRTAB: u32 = 3;
const NOBITS: u32 = 8;
const REL: u32 = 9;

struct Part {
    name: &'static str,
    kind: u32,
    address: u64,
    data: Vec<u8>,
    link: u32,
    info: u32,
    entry_size: u64,
}

fn section(name: &'static str, kind: u32, address: u64, data: &[u8]) -> Part {
    Part {
        name,
        kind,
        address,
        data: data.to_vec(),
        link: 0,
        info: 0,
        entry_size: 0,
    }
}

struct Writer {
    order: Endianness,
    bytes: Vec<u8>,
}

impl Writer {
    fn new(order: Endianness) -> Writer {
        Writer {
            order,
            bytes: Vec::new(),
        }
    }

    fn half(&mut self, value: u16) {
        match self.order {
            Endianness::Little => self.bytes.extend_from_slice(&value.to_le_bytes()),
            Endianness::Big => self.bytes.extend_from_slice(&value.to_be_bytes()),
        }
    }

    fn word(&mut self, value: u32) {
        match self.order {
            Endianness::Little => self.bytes.extend_from_slice(&value.to_le_bytes()),
            Endianness::Big => self.bytes.extend_from_slice(&value.to_be_bytes()),
        }
    }

    fn double(&mut self, value: u64) {
        match self.order {
            Endianness::Little => self.bytes.extend_from_slice(&value.to_le_bytes()),
            Endianness::Big => self.bytes.extend_from_slice(&value.to_be_bytes()),
        }
    }

    fn symbol(&mut self, name: u32, kind: u8, section: u16, address: u64, size: u64) {
        self.word(name);
        self.bytes.push(0x10 + kind);
        self.bytes.push(0);
        self.half(section);
        self.double(address);
        self.double(size);
    }

    fn relocation(&mut self, offset: u64, symbol: u64) {
        self.double(offset);
        self.double(symbol * 0x1_0000_0000 + 1);
    }

    fn align(&mut self) {
        while self.bytes.len() % 8 != 0 {
            self.bytes.push(0);
        }
    }
}

/// The bytes of a 64-bit file with these sections behind the empty one, and
/// the names of sections behind those.
fn build(order: Endianness, mut sections: Vec<Part>) -> Vec<u8> {
    sections.insert(0, section("", 0, 0, &[]));
    sections.push(section(".shstrtab", STRTAB, 0, &[]));
    let mut names: Vec<u8> = vec![0];
    let mut starts = Vec::new();
    for section in &sections {
        if section.name.is_empty() {
            starts.push(0);
        } else {
            starts.push(names.len() as u32);
            names.extend_from_slice(section.name.as_bytes());
            names.push(0);
        }
    }
    let last = sections.len() - 1;
    sections[last].data = names;

    let mut body = Writer::new(order);
    let mut offsets = Vec::new();
    for section in &sections {
        body.align();
        offsets.push(64 + body.bytes.len() as u64);
        if section.kind != NOBITS {
            body.bytes.extend_from_slice(&section.data);
        }
    }
    body.align();

    let mut file = Writer::new(order);
    let order_byte = match order {
        Endianness::Little => 1,
        Endianness::Big => 2,
    };
    file.bytes
        .extend_from_slice(&[0x7f, b'E', b'L', b'F', 2, order_byte, 1, 0]);
    file.bytes.extend_from_slice(&[0; 8]);
    file.half(1);
    file.half(247);
    file.word(1);
    file.double(0);
    file.double(0);
    file.double(64 + body.bytes.len() as u64);
    file.word(0);
    file.half(64);
    file.half(0);
    file.half(0);
    file.half(64);
    file.half(sections.len() as u16);
    file.half(last as u16);
    assert_eq!(file.bytes.len(), 64);
    file.bytes.extend_from_slice(&body.bytes);
    for (i, section) in sections.iter().enumerate() {
        file.word(starts[i]);
        file.word(section.kind);
        file.double(0);
        file.double(section.address);
        file.double(offsets[i]);
        file.double(section.data.len() as u64);
        file.word(section.link);
        file.word(section.info);
        file.double(8);
        file.double(section.entry_size);
    }
    file.bytes
}

/// A file with something for every part of an object.
fn sample(order: Endianness) -> Vec<Part> {
    let mut code = vec![0u8; 24];
    code[0] = 0xb7;
    code[8] = 0x0f;
    code[16] = 0x95;
    let mut relocations = Writer::new(order);
    relocations.relocation(8, 2);
    let mut program_relocations = Writer::new(order);
    program_relocations.relocation(0, 1);
    program_relocations.relocation(0, 2);
    let mut definition = Vec::new();
    for word in 1u32..8 {
        definition.extend_from_slice(&word.to_ne_bytes());
    }
    let mut version = Writer::new(order);
    version.word(0x0005_0a01);
    let mut symbols = Writer::new(order);
    symbols.symbol(0, 0, 0, 0, 0);
    symbols.symbol(1, 2, 1, 0x100, 16);
    symbols.symbol(7, 2, 1, 0x110, 8);
    symbols.symbol(12, 1, 7, 4, 2);
    symbols.symbol(0, 3, 1, 0x100, 0);
    symbols.symbol(7, 0, 0, 0, 0);
    symbols.symbol(1000, 0, 0xfff1, 9, 0);

    let mut text_relocations = section(".rel.text", REL, 0, &relocations.bytes);
    text_relocations.link = 12;
    text_relocations.info = 1;
    text_relocations.entry_size = 16;
    let mut probe_relocations = section(".relkprobe/probe", REL, 0, &program_relocations.bytes);
    probe_relocations.link = 12;
    probe_relocations.info = 3;
    probe_relocations.entry_size = 16;
    let mut table = section(".symtab", SYMTAB, 0, &symbols.bytes);
    table.link = 13;
    table.info = 1;
    table.entry_size = 24;

    vec![
        section(".text", PROGBITS, 0x100, &code),
        text_relocations,
        section("kprobe/probe", PROGBITS, 0x200, &[0x95, 0x21, 0, 0, 0, 0, 0, 0]),
        probe_relocations,
        section("maps/counts", PROGBITS, 0, &definition),
        section(".bss", NOBITS, 0, &[0; 8]),
        section(".data.numbers", PROGBITS, 0, &[1, 2, 3]),
        section("license", PROGBITS, 0, b"Dual BSD/GPL\0"),
        section("version", PROGBITS, 0, &version.bytes),
        section(".BTF", PROGBITS, 0, &[7, 8]),
        section(".BTF.ext", PROGBITS, 0, &[9]),
        table,
        section(".strtab", STRTAB, 0, b"\0alpha\0beta\0numbers\0"),
    ]
}

fn decoders() -> BtfDecoders<
    impl Fn(&[u8], Endianness) -> Result<Btf, BtfError>,
    impl Fn(&[u8], Endianness) -> Result<BtfExt, BtfError>,
> {
    BtfDecoders {
        btf: |data: &[u8], endianness: Endianness| {
            Ok(Btf {
                data: data.to_vec(),
                endianness,
            })
        },
        btf_ext: |data: &[u8], endianness: Endianness| {
            Ok(BtfExt {
                data: data.to_vec(),
                endianness,
            })
        },
    }
}

#[test]
fn what_a_file_holds() {
    for order in [Endianness::Little, Endianness::Big] {
        let file = build(order, sample(order));
        let image = ElfImage::read(&file).unwrap();
        assert_eq!(image.endianness, order);

        let names: Vec<&str> = image
            .sections
            .iter()
            .map(|section| section.name.as_ref().unwrap().as_str())
            .collect();
        assert_eq!(
            names,
            [
                "",
                ".text",
                ".rel.text",
                "kprobe/probe",
                ".relkprobe/probe",
                "maps/counts",
                ".bss",
                ".data.numbers",
                "license",
                "version",
                ".BTF",
                ".BTF.ext",
                ".symtab",
                ".strtab",
                ".shstrtab"
            ]
        );
        for (i, section) in image.sections.iter().enumerate() {
            assert_eq!(section.index, i);
        }
        assert_eq!(image.sections[1].address, 0x100);
        assert_eq!(image.sections[3].address, 0x200);
        assert_eq!(image.sections[7].data.as_ref().unwrap(), &[1, 2, 3]);
        assert!(image.sections[6].data.as_ref().unwrap().is_empty());
        let relocations: Vec<(u64, usize)> = image.sections[3]
            .relocations
            .iter()
            .map(|relocation| match relocation.target {
                RelocationTarget::Symbol(symbol) => (relocation.offset, symbol),
                _ => panic!("{:?}", relocation.target),
            })
            .collect();
        assert_eq!(relocations, [(0, 1), (0, 2)]);
        assert_eq!(image.sections[1].relocations.len(), 1);
        assert_eq!(image.sections[1].relocations[0].offset, 8);
        assert!(image.sections[5].relocations.is_empty());

        assert_eq!(image.symbols.len(), 7);
        for (i, symbol) in image.symbols.iter().enumerate() {
            assert_eq!(symbol.index, i);
        }
        let alpha = &image.symbols[1];
        assert_eq!(alpha.name.as_deref(), Some("alpha"));
        assert_eq!(alpha.section_index, Some(1));
        assert_eq!((alpha.address, alpha.size), (0x100, 16));
        assert!(alpha.is_definition);
        let numbers = &image.symbols[3];
        assert_eq!(numbers.name.as_deref(), Some("numbers"));
        assert_eq!(numbers.section_index, Some(7));
        assert_eq!((numbers.address, numbers.size), (4, 2));
        assert!(numbers.is_definition);
        assert!(!image.symbols[4].is_definition);
        assert_eq!(image.symbols[4].section_index, Some(1));
        assert!(!image.symbols[5].is_definition);
        assert_eq!(image.symbols[5].section_index, None);
        assert_eq!(image.symbols[6].name, None);
        assert_eq!(image.symbols[6].section_index, None);
        assert_eq!(image.symbols[6].address, 9);
    }
}

#[test]
fn files_become_objects() {
    for order in [Endianness::Little, Endianness::Big] {
        let file = build(order, sample(order));
        let object = Object::parse(&file, &decoders()).unwrap().unwrap();
        assert_eq!(object.endianness, order);
        assert_eq!(object.license.as_bytes(), b"Dual BSD/GPL");
        assert_eq!(object.kernel_version, KernelVersion::Version(0x0005_0a01));

        assert_eq!(object.functions.len(), 2);
        let alpha = &object.functions[&0x100];
        assert_eq!(alpha.name, "alpha");
        assert_eq!((alpha.section_index, alpha.section_offset), (1, 0));
        let codes: Vec<u8> = alpha.instructions.iter().map(|insn| insn.code).collect();
        assert_eq!(codes, [0xb7, 0x0f]);
        let beta = &object.functions[&0x110];
        assert_eq!(beta.name, "beta");
        assert_eq!((beta.section_index, beta.section_offset), (1, 16));

        assert_eq!(object.programs.entries().len(), 1);
        let probe = object.programs.get("probe").unwrap();
        assert!(matches!(probe.kind, ProgramKind::KProbe));
        assert_eq!(probe.license.as_bytes(), b"Dual BSD/GPL");
        assert_eq!(probe.function.address, 0x200);
        assert_eq!(probe.function.section_index, 3);
        assert_eq!(probe.function.instructions.len(), 1);
        assert_eq!(probe.function.instructions[0].registers, 0x21);

        assert_eq!(object.maps.entries().len(), 3);
        let counts = object.maps.get("counts").unwrap();
        assert_eq!(counts.section_index, 5);
        assert_eq!(counts.def.map_type, 1);
        assert_eq!(counts.def.pinning, 7);
        let numbers = object.maps.get(".data.numbers").unwrap();
        assert_eq!(numbers.data, [1, 2, 3]);
        assert_eq!(numbers.def.value_size, 3);
        let bss = object.maps.get(".bss").unwrap();
        assert!(bss.data.is_empty());
        assert_eq!(bss.def.value_size, 0);

        assert_eq!(object.relocations.len(), 2);
        assert_eq!(object.relocations[&1][&8].symbol_index, 2);
        assert_eq!(object.relocations[&3].len(), 1);
        assert_eq!(object.relocations[&3][&0].symbol_index, 2);

        assert_eq!(object.symbols_by_index.len(), 7);
        assert_eq!(object.symbols_by_index[&2].name.as_deref(), Some("beta"));
        assert_eq!(object.btf.as_ref().unwrap().data, [7, 8]);
        assert_eq!(object.btf.as_ref().unwrap().endianness, order);
        assert_eq!(object.btf_ext.as_ref().unwrap().data, [9]);
    }
}

#[test]
fn files_without_terms_or_symbols() {
    let file = build(
        Endianness::Little,
        vec![section("xdp", PROGBITS, 0, &[0; 8])],
    );
    let object = Object::parse(&file, &decoders()).unwrap().unwrap();
    assert_eq!(object.license.as_bytes(), b"GPL");
    assert_eq!(object.kernel_version, KernelVersion::Any);
    assert!(object.symbols_by_index.is_empty());
    assert!(matches!(
        object.programs.get("xdp").unwrap().kind,
        ProgramKind::Xdp
    ));
}

#[test]
fn files_that_cannot_be_opened() {
    assert!(matches!(
        ElfImage::read(b"foo"),
        Err(error) if error.message == "File too short"
    ));
    assert!(matches!(
        Object::parse(&[0; 64], &decoders()),
        Some(Err(BpfError::ParseError(ParseError::ElfError(error))))
            if error.message == "Unknown file magic"
    ));
    let whole = build(Endianness::Little, sample(Endianness::Little));
    let cut = whole[..whole.len() - 1].to_vec();
    assert!(matches!(
        Object::parse(&cut, &decoders()),
        Some(Err(BpfError::ParseError(ParseError::ElfError(_))))
    ));
}

#[test]
fn files_with_faulty_sections() {
    let whole = build(
        Endianness::Little,
        vec![section("xdp", PROGBITS, 0, &[0; 8])],
    );
    let headers = whole.len() - 3 * 64;

    let mut unnamed = whole.clone();
    unnamed[headers + 64..headers + 68].copy_from_slice(&1000u32.to_le_bytes());
    assert!(matches!(
        Object::parse(&unnamed, &decoders()),
        Some(Err(BpfError::ParseError(ParseError::SectionError { index: 1, source })))
            if source.message == "Invalid ELF section name offset"
    ));

    let mut outside = whole.clone();
    outside[headers + 64 + 32..headers + 64 + 40].copy_from_slice(&1000u64.to_le_bytes());
    assert!(matches!(
        Object::parse(&outside, &decoders()),
        Some(Err(BpfError::ParseError(ParseError::SectionError { index: 1, source })))
            if source.message == "Invalid ELF section size or offset"
    ));
}

#[test]
fn files_with_relocations_to_no_symbol() {
    let order = Endianness::Little;
    let mut relocations = Writer::new(order);
    relocations.relocation(0, 0);
    let mut sections = sample(order);
    sections[3].data = relocations.bytes;
    let file = build(order, sections);
    assert!(matches!(
        ElfImage::read(&file).unwrap().sections[3].relocations[0].target,
        RelocationTarget::Absolute
    ));
    assert!(matches!(
        Object::parse(&file, &decoders()),
        Some(Err(BpfError::ParseError(
            ParseError::UnsupportedRelocationTarget
        )))
    ));
}

#[test]
fn files_whose_code_does_not_fit_their_symbols() {
    let order = Endianness::Little;
    let mut sections = sample(order);
    sections[0].data.truncate(16);
    sections[0].data.extend_from_slice(&[0; 4]);
    let file = build(order, sections);
    assert!(Object::parse(&file, &decoders()).is_none());
}
