//! How sections and files become objects.

use bpf_object::{
    BpfError, Btf, BtfDecoders, BtfError, BtfExt, ElfImage, ElfRelocation, ElfSection, ElfSymbol,
    Endianness, KernelVersion, License, Object, ParseError, ProgramKind, RawRelocation, RawSection,
    ReadError, RelocationTarget,
};

fn decoders() -> BtfDecoders<
    impl Fn(&[u8], Endianness) -> Result<Btf, BtfError>,
    impl Fn(&[u8], Endianness) -> Result<BtfExt, BtfError>,
> {
    BtfDecoders {
        btf: |data: &[u8], endianness: Endianness| {
            if data.is_empty() {
                return Err(BtfError {
                    message: "no types".to_string(),
                });
            }
            Ok(Btf {
                data: data.to_vec(),
                endianness,
            })
        },
        btf_ext: |data: &[u8], endianness: Endianness| {
            if data.is_empty() {
                return Err(BtfError {
                    message: "no lines".to_string(),
                });
            }
            Ok(BtfExt {
                data: data.to_vec(),
                endianness,
            })
        },
    }
}

fn fresh() -> Object {
    Object::new(
        Endianness::Big,
        License::new(b"GPL".to_vec()).unwrap(),
        KernelVersion::Version(5),
    )
}

fn section<'a>(name: &'a str, data: &'a [u8]) -> ElfSection<'a> {
    ElfSection {
        index: 1,
        address: 0x100,
        name,
        data,
        relocations: Vec::new(),
    }
}

fn symbol(index: usize, name: Option<&str>, address: u64, size: u64) -> ElfSymbol {
    ElfSymbol {
        index,
        section_index: Some(1),
        name: name.map(String::from),
        address,
        size,
        is_definition: true,
    }
}

fn with_symbols(symbols: Vec<ElfSymbol>) -> Object {
    let mut object = fresh();
    for symbol in symbols {
        object.symbols_by_index.insert(symbol.index, symbol);
    }
    object
}

fn raw<'a>(index: usize, name: &str, data: &'a [u8]) -> RawSection<'a> {
    RawSection {
        index,
        address: 0x100 * index as u64,
        name: Ok(name.to_string()),
        data: Ok(data),
        relocations: Vec::new(),
    }
}

fn image(sections: Vec<RawSection<'_>>, symbols: Vec<ElfSymbol>) -> ElfImage<'_> {
    ElfImage {
        endianness: Endianness::Big,
        sections,
        symbols,
    }
}

#[test]
fn new_objects_are_empty() {
    let object = fresh();
    assert_eq!(object.endianness, Endianness::Big);
    assert_eq!(object.host, bpf_object::host_endianness());
    assert_eq!(object.license.as_bytes(), b"GPL");
    assert_eq!(object.kernel_version, KernelVersion::Version(5));
    assert!(object.btf.is_none() && object.btf_ext.is_none());
    assert!(object.maps.entries().is_empty() && object.programs.entries().is_empty());
    assert!(object.functions.is_empty() && object.relocations.is_empty());
    assert!(object.symbols_by_index.is_empty());
}

#[test]
fn programs_go_by_the_last_part_of_the_section_name() {
    let code = [0u8; 16];
    let cases = [
        ("kretprobe/a", "a", "KRetProbe"),
        ("uretprobe/b", "b", "URetProbe"),
        ("sk_msg/c", "c", "SkMsg"),
        ("sk_skb/stream_parser/d", "d", "SkSkbStreamParser"),
        ("sk_skb/stream_verdict/e", "e", "SkSkbStreamVerdict"),
        ("sockops/f", "f", "SockOps"),
        ("classifier/g", "g", "SchedClassifier"),
        ("cgroup_skb/ingress/h", "h", "CgroupSkbIngress"),
        ("cgroup_skb/egress/i", "i", "CgroupSkbEgress"),
        ("kprobe/", "", "KProbe"),
        ("xdp", "xdp", "Xdp"),
        ("sk_msg", "sk_msg", "SkMsg"),
        ("sockops", "sockops", "SockOps"),
        ("classifier", "classifier", "SchedClassifier"),
    ];
    let mut object = fresh();
    for (whole, name, kind) in cases {
        assert!(object.parse_section(section(whole, &code), &decoders()).is_ok());
        let program = object.programs.get(name).unwrap();
        assert_eq!(format!("{:?}", program.kind), kind);
        assert_eq!(program.license.as_bytes(), b"GPL");
        assert_eq!(program.kernel_version, KernelVersion::Version(5));
        assert_eq!(program.function.name, name);
        assert_eq!(program.function.address, 0x100);
        assert_eq!(program.function.section_index, 1);
        assert_eq!(program.function.section_offset, 0);
        assert_eq!(program.function.instructions.len(), 2);
    }
    assert_eq!(object.programs.entries().len(), cases.len());
}

#[test]
fn other_sections_are_passed_over() {
    let mut object = fresh();
    for name in [
        "",
        "kprobe",
        "uprobe",
        "maps",
        "sk_skb/stream_parser",
        "cgroup/skb",
        "kprobe/a/b",
        "maps/a/b",
        ".data/x",
        ".text/x",
        ".bss.x",
        ".BTF.other",
        ".symtab",
        "license",
    ] {
        assert!(object.parse_section(section(name, &[1]), &decoders()).is_ok());
    }
    assert!(object.maps.entries().is_empty() && object.programs.entries().is_empty());
    assert!(object.functions.is_empty() && object.relocations.is_empty());
    assert!(object.btf.is_none() && object.btf_ext.is_none());
}

#[test]
fn cgroup_skb_has_no_kind() {
    let mut object = fresh();
    assert!(matches!(
        object.parse_section(section("cgroup/skb/a", &[0; 8]), &decoders()),
        Err(BpfError::ParseError(ParseError::InvalidProgramKind { kind })) if kind == "cgroup/skb"
    ));
    assert!(object.programs.entries().is_empty());
}

#[test]
fn refused_sections_leave_the_object_alone() {
    let mut object = fresh();
    let mut program = section("xdp/a", &[0; 9]);
    program.relocations.push(ElfRelocation {
        offset: 0,
        symbol_index: 1,
    });
    assert!(matches!(
        object.parse_section(program, &decoders()),
        Err(BpfError::ParseError(ParseError::InvalidProgramCode))
    ));
    assert!(matches!(
        object.parse_section(section("maps/a", &[0; 27]), &decoders()),
        Err(BpfError::ParseError(ParseError::InvalidMapDefinition { name })) if name == "a"
    ));
    assert!(object.maps.entries().is_empty() && object.programs.entries().is_empty());
    assert!(object.relocations.is_empty());
}

#[test]
fn relocations_are_kept_by_offset() {
    let mut object = fresh();
    let mut program = section("xdp/a", &[0; 16]);
    for (offset, symbol_index) in [(0, 4), (8, 5), (0, 6)] {
        program.relocations.push(ElfRelocation {
            offset,
            symbol_index,
        });
    }
    assert!(object.parse_section(program, &decoders()).is_ok());
    assert_eq!(object.relocations.len(), 1);
    assert_eq!(object.relocations[&1].len(), 2);
    assert_eq!(object.relocations[&1][&0].symbol_index, 6);
    assert_eq!(object.relocations[&1][&8].symbol_index, 5);
    assert_eq!(object.relocations[&1][&8].offset, 8);
    assert!(object.parse_section(section("xdp/b", &[]), &decoders()).is_ok());
    assert_eq!(object.relocations[&1].len(), 2);
}

#[test]
fn type_information_is_decoded() {
    let mut object = fresh();
    assert!(object.parse_section(section(".BTF", &[7, 8]), &decoders()).is_ok());
    let btf = object.btf.clone().unwrap();
    assert_eq!(btf.data, [7, 8]);
    assert_eq!(btf.endianness, Endianness::Big);
    assert!(object.btf_ext.is_none());
    assert!(object.parse_section(section(".BTF.ext", &[9]), &decoders()).is_ok());
    let btf_ext = object.btf_ext.clone().unwrap();
    assert_eq!(btf_ext.data, [9]);
    assert_eq!(btf_ext.endianness, Endianness::Big);
}

#[test]
fn refused_type_information() {
    let mut object = fresh();
    assert!(matches!(
        object.parse_section(section(".BTF", &[]), &decoders()),
        Err(BpfError::BtfError(error)) if error.message == "no types"
    ));
    assert!(matches!(
        object.parse_section(section(".BTF.ext", &[]), &decoders()),
        Err(BpfError::BtfError(error)) if error.message == "no lines"
    ));
    assert!(object.btf.is_none() && object.btf_ext.is_none());
    assert!(matches!(
        object.take_btf(Err(BtfError { message: "x".to_string() })),
        Err(error) if error.message == "x"
    ));
    assert!(object.btf.is_none());
    assert!(matches!(
        object.take_btf_ext(Err(BtfError { message: "y".to_string() })),
        Err(error) if error.message == "y"
    ));
    assert!(object.btf_ext.is_none());
}

#[test]
fn functions_tile_a_code_section() {
    let mut object = with_symbols(vec![
        symbol(1, Some("beta"), 0x110, 8),
        symbol(2, Some("alpha"), 0x100, 16),
    ]);
    let mut code = vec![0u8; 24];
    code[0] = 1;
    code[8] = 2;
    code[16] = 3;
    let mut text = section(".text", &code);
    text.relocations.push(ElfRelocation {
        offset: 8,
        symbol_index: 1,
    });
    assert!(object.accepts_section(&text));
    assert!(object.parse_section(text, &decoders()).is_ok());
    assert_eq!(object.functions.len(), 2);
    let alpha = &object.functions[&0x100];
    assert_eq!(alpha.name, "alpha");
    assert_eq!((alpha.address, alpha.section_index, alpha.section_offset), (0x100, 1, 0));
    let codes: Vec<u8> = alpha.instructions.iter().map(|insn| insn.code).collect();
    assert_eq!(codes, [1, 2]);
    let beta = &object.functions[&0x110];
    assert_eq!(beta.name, "beta");
    assert_eq!((beta.address, beta.section_index, beta.section_offset), (0x110, 1, 16));
    let codes: Vec<u8> = beta.instructions.iter().map(|insn| insn.code).collect();
    assert_eq!(codes, [3]);
    assert_eq!(object.relocations[&1][&8].symbol_index, 1);
}

#[test]
fn symbols_that_define_nothing_here_are_ignored() {
    let mut elsewhere = symbol(2, Some("elsewhere"), 0x100, 8);
    elsewhere.section_index = Some(2);
    let mut nowhere = symbol(3, Some("nowhere"), 0x100, 8);
    nowhere.section_index = None;
    let mut declared = symbol(4, Some("declared"), 0x100, 8);
    declared.is_definition = false;
    let mut object = with_symbols(vec![
        symbol(1, Some("here"), 0x100, 8),
        elsewhere,
        nowhere,
        declared,
    ]);
    assert!(object.parse_section(section(".text", &[0; 8]), &decoders()).is_ok());
    assert_eq!(object.functions.len(), 1);
    assert_eq!(object.functions[&0x100].name, "here");
}

#[test]
fn symbols_at_one_address_conflict() {
    let mut object = with_symbols(vec![
        symbol(1, Some("a"), 0x900, 8),
        symbol(2, Some("b"), 0x900, 8),
        symbol(3, Some("c"), 0x100, 8),
    ]);
    assert!(matches!(
        object.parse_text_section(section(".text", &[0; 8])),
        Err(ParseError::SymbolTableConflict { section_index: 1, address: 0x900 })
    ));
    assert!(object.functions.is_empty());
}

#[test]
fn code_without_a_symbol() {
    let mut object = with_symbols(vec![symbol(1, Some("a"), 0x100, 8)]);
    let mut text = section(".text", &[0; 16]);
    text.relocations.push(ElfRelocation {
        offset: 8,
        symbol_index: 1,
    });
    assert!(matches!(
        object.parse_text_section(text),
        Err(ParseError::UnknownSymbol { section_index: 1, address: 0x108 })
    ));
    assert_eq!(object.functions.len(), 1);
    assert!(object.relocations.is_empty());
}

#[test]
fn empty_functions_are_invalid() {
    let mut object = with_symbols(vec![symbol(7, Some("a"), 0x100, 0)]);
    assert!(matches!(
        object.parse_text_section(section(".text", &[0; 8])),
        Err(ParseError::InvalidSymbol { index: 7, name: Some(name) }) if name == "a"
    ));
    let mut object = with_symbols(vec![symbol(8, None, 0x100, 0)]);
    assert!(matches!(
        object.parse_text_section(section(".text", &[0; 8])),
        Err(ParseError::InvalidSymbol { index: 8, name: None })
    ));
}

#[test]
fn functions_are_whole_instructions() {
    let mut object = with_symbols(vec![symbol(1, Some("a"), 0x100, 12)]);
    assert!(matches!(
        object.parse_text_section(section(".text", &[0; 16])),
        Err(ParseError::InvalidProgramCode)
    ));
    assert!(object.functions.is_empty());
}

#[test]
fn code_that_does_not_fit_its_symbols() {
    let nameless = with_symbols(vec![symbol(1, None, 0x100, 8)]);
    assert!(!nameless.text_section_fits(&section(".text", &[0; 8])));
    let long = with_symbols(vec![symbol(1, Some("a"), 0x100, 16)]);
    assert!(!long.text_section_fits(&section(".text", &[0; 8])));
    let huge = with_symbols(vec![symbol(1, Some("a"), 0x100, u64::MAX)]);
    assert!(!huge.text_section_fits(&section(".text", &[0; 8])));
    let last = with_symbols(vec![symbol(1, Some("a"), u64::MAX - 7, 8)]);
    let mut text = section(".text", &[0; 16]);
    text.address = u64::MAX - 7;
    assert!(!last.text_section_fits(&text));
    text.data = &[0; 8];
    assert!(last.text_section_fits(&text));
    assert!(!nameless.accepts_section(&section(".text.x", &[0; 8])));
    assert!(nameless.accepts_section(&section(".data", &[0; 8])));
    assert!(nameless.accepts_section(&section(".text", &[])));
}

#[test]
fn loading_takes_everything_in() {
    let map = [0u8; 28];
    let mut program = raw(2, "kprobe/p", &[0; 8]);
    program.relocations.push(RawRelocation {
        offset: 0,
        target: RelocationTarget::Symbol(1),
    });
    let file = image(
        vec![
            raw(0, "", &[]),
            raw(1, ".text", &[0; 8]),
            program,
            raw(3, "maps/m", &map),
            raw(4, ".rodata", b"abc"),
            raw(5, "license", b"MIT\0"),
            raw(6, "version", &[0, 0, 1, 2]),
            raw(7, ".BTF", &[1]),
            raw(8, ".BTF.ext", &[2]),
        ],
        vec![symbol(0, Some(""), 0, 0), symbol(1, Some("f"), 0x100, 8)],
    );
    let object = Object::load(&file, &decoders()).unwrap().unwrap();
    assert_eq!(object.endianness, Endianness::Big);
    assert_eq!(object.license.as_bytes(), b"MIT");
    assert_eq!(object.kernel_version, KernelVersion::Version(0x102));
    assert_eq!(object.symbols_by_index.len(), 2);
    assert_eq!(object.symbols_by_index[&1].name.as_deref(), Some("f"));
    assert_eq!(object.functions[&0x100].name, "f");
    let program = object.programs.get("p").unwrap();
    assert!(matches!(program.kind, ProgramKind::KProbe));
    assert_eq!(program.license.as_bytes(), b"MIT");
    assert_eq!(program.kernel_version, KernelVersion::Version(0x102));
    assert_eq!(object.relocations[&2][&0].symbol_index, 1);
    assert_eq!(object.maps.get("m").unwrap().section_index, 3);
    assert_eq!(object.maps.get(".rodata").unwrap().data, b"abc");
    assert_eq!(object.btf.as_ref().unwrap().data, [1]);
    assert_eq!(object.btf_ext.as_ref().unwrap().data, [2]);
    let copy = object.clone();
    assert_eq!(copy.functions[&0x100].name, "f");
    assert_eq!(copy.programs.get("p").unwrap().function.address, 0x200);
}

#[test]
fn terms_that_a_file_does_not_name() {
    let object = Object::load(&image(Vec::new(), Vec::new()), &decoders())
        .unwrap()
        .unwrap();
    assert_eq!(object.license.as_bytes(), b"GPL");
    assert_eq!(object.kernel_version, KernelVersion::Any);
    assert!(object.symbols_by_index.is_empty());
}

#[test]
fn the_first_license_and_the_last_map_count() {
    let file = image(
        vec![
            raw(0, "license", b"MIT\0"),
            raw(1, "license", b"bad"),
            raw(2, ".data", b"one"),
            raw(3, ".data", b"three"),
        ],
        vec![symbol(4, Some("x"), 1, 1), symbol(4, Some("y"), 2, 2)],
    );
    let object = Object::load(&file, &decoders()).unwrap().unwrap();
    assert_eq!(object.license.as_bytes(), b"MIT");
    assert_eq!(object.maps.get(".data").unwrap().data, b"three");
    assert_eq!(object.maps.get(".data").unwrap().section_index, 3);
    assert_eq!(object.symbols_by_index[&4].name.as_deref(), Some("y"));
}

#[test]
fn the_first_error_ends_loading() {
    let bad_license = image(
        vec![raw(0, "maps/m", &[]), raw(1, "license", b"bad")],
        Vec::new(),
    );
    assert!(matches!(
        Object::load(&bad_license, &decoders()),
        Some(Err(BpfError::ParseError(
            ParseError::MissingLicenseNullTerminator { .. }
        )))
    ));
    let bad_version = image(
        vec![raw(0, "maps/m", &[]), raw(1, "version", &[1])],
        Vec::new(),
    );
    assert!(matches!(
        Object::load(&bad_version, &decoders()),
        Some(Err(BpfError::ParseError(
            ParseError::InvalidKernelVersion { .. }
        )))
    ));
    let mut unreadable = raw(1, "x", &[]);
    unreadable.data = Err(ReadError {
        message: "cut off".to_string(),
    });
    let bad_section = image(vec![raw(0, "xdp", &[]), unreadable], Vec::new());
    assert!(matches!(
        Object::load(&bad_section, &decoders()),
        Some(Err(BpfError::ParseError(ParseError::SectionError { index: 1, source })))
            if source.message == "cut off"
    ));
    let bad_map = image(vec![raw(0, "maps/m", &[]), raw(1, ".text", &[0])], Vec::new());
    assert!(matches!(
        Object::load(&bad_map, &decoders()),
        Some(Err(BpfError::ParseError(ParseError::InvalidMapDefinition { .. })))
    ));
}

#[test]
fn there_is_no_outcome_for_code_that_does_not_fit() {
    let file = image(
        vec![raw(0, "", &[]), raw(1, ".text", &[0; 8])],
        vec![symbol(1, None, 0x100, 8)],
    );
    assert!(Object::load(&file, &decoders()).is_none());
}

#[test]
fn the_last_program_of_a_name_counts() {
    let file = image(
        vec![
            raw(0, "kprobe/p", &[0; 8]),
            raw(1, "uprobe/p", &[0; 16]),
            raw(2, "maps/p", &[0; 28]),
        ],
        Vec::new(),
    );
    let object = Object::load(&file, &decoders()).unwrap().unwrap();
    assert_eq!(object.programs.entries().len(), 1);
    let program = object.programs.get("p").unwrap();
    assert!(matches!(program.kind, ProgramKind::UProbe));
    assert_eq!(program.function.section_index, 1);
    assert_eq!(program.function.instructions.len(), 2);
    assert_eq!(object.maps.get("p").unwrap().section_index, 2);
}

#[test]
fn the_last_function_at_an_address_counts() {
    let mut first = raw(0, ".text", &[0; 8]);
    first.address = 0x100;
    let mut second = raw(1, ".text.more", &[0; 8]);
    second.address = 0x100;
    let mut early = symbol(0, Some("early"), 0x100, 8);
    early.section_index = Some(0);
    let file = image(
        vec![first, second],
        vec![early, symbol(1, Some("late"), 0x100, 8)],
    );
    let object = Object::load(&file, &decoders()).unwrap().unwrap();
    assert_eq!(object.functions.len(), 1);
    assert_eq!(object.functions[&0x100].name, "late");
    assert_eq!(object.functions[&0x100].section_index, 1);
}

fn agrees(object: &Object) {
    for (name, map) in object.maps.entries() {
        assert_eq!(&map.name, name);
    }
    for (name, program) in object.programs.entries() {
        assert_eq!(&program.function.name, name);
        assert_eq!(program.function.section_offset, 0);
        assert_eq!(program.license.as_bytes(), object.license.as_bytes());
        assert_eq!(program.kernel_version, object.kernel_version);
    }
    for (address, function) in &object.functions {
        assert_eq!(function.address, *address);
    }
    for relocations in object.relocations.values() {
        assert!(!relocations.is_empty());
        for (offset, relocation) in relocations {
            assert_eq!(relocation.offset, *offset);
        }
    }
    for (index, symbol) in &object.symbols_by_index {
        assert_eq!(symbol.index, *index);
    }
}

#[test]
fn objects_agree_with_themselves_and_only_grow() {
    let mut object = with_symbols(vec![symbol(1, Some("a"), 0x100, 8)]);
    let definition = [0u8; 28];
    let steps: Vec<(&str, &[u8])> = vec![
        ("maps/m", &definition),
        ("xdp/p", &[0; 8]),
        (".text", &[0; 16]),
        (".data", b"x"),
        ("maps/m", &[]),
        ("cgroup/skb/p", &[]),
        ("sockops", &[0; 8]),
        (".BTF", &[]),
        (".BTF", &[1]),
        ("other", &[]),
    ];
    let mut counts = (0, 0, 0, 0);
    for (name, data) in steps {
        let mut part = section(name, data);
        part.relocations.push(ElfRelocation {
            offset: 0,
            symbol_index: 1,
        });
        let _ = object.parse_section(part, &decoders());
        agrees(&object);
        let now = (
            object.maps.entries().len(),
            object.programs.entries().len(),
            object.functions.len(),
            object.relocations.len(),
        );
        assert!(now.0 >= counts.0 && now.1 >= counts.1);
        assert!(now.2 >= counts.2 && now.3 >= counts.3);
        counts = now;
        assert_eq!(object.endianness, Endianness::Big);
        assert_eq!(object.license.as_bytes(), b"GPL");
        assert_eq!(object.kernel_version, KernelVersion::Version(5));
        assert_eq!(object.symbols_by_index.len(), 1);
    }
    assert_eq!(counts, (2, 2, 1, 1));
}

#[test]
fn functions_and_relocations_come_from_sections() {
    let mut text = raw(1, ".text", &[0; 16]);
    let mut map = raw(2, "maps/m", &[0; 28]);
    let mut other = raw(3, "other", &[0; 8]);
    let mut program = raw(4, "xdp/p", &[0; 8]);
    for section in [&mut text, &mut map, &mut other, &mut program] {
        section.relocations.push(RawRelocation {
            offset: 0,
            target: RelocationTarget::Symbol(section.index),
        });
    }
    let mut elsewhere = symbol(3, Some("elsewhere"), 0x300, 8);
    elsewhere.section_index = Some(3);
    let file = image(
        vec![text, map, other, program],
        vec![
            symbol(1, Some("a"), 0x100, 8),
            symbol(2, Some("b"), 0x108, 8),
            elsewhere,
        ],
    );
    let object = Object::load(&file, &decoders()).unwrap().unwrap();
    let mut addresses: Vec<u64> = object.functions.keys().copied().collect();
    addresses.sort();
    assert_eq!(addresses, [0x100, 0x108]);
    let mut indices: Vec<usize> = object.relocations.keys().copied().collect();
    indices.sort();
    assert_eq!(indices, [1, 4]);
    assert_eq!(object.relocations[&1][&0].symbol_index, 1);
    assert_eq!(object.relocations[&4][&0].symbol_index, 4);
    assert_eq!(object.host, bpf_object::host_endianness());
    agrees(&object);
}
