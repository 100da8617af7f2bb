//! How the parts of an object are read.

use bpf_object::{
    bpf_map_def, host_endianness, parse_license, parse_map, parse_map_def, parse_version, BpfError,
    BpfMap, Btf, BtfDecoders, BtfError, BtfExt, ElfSection, Endianness, Function, KernelVersion,
    License, Object, ParseError, Program, ProgramKind,
};

fn decoders() -> BtfDecoders<
    impl Fn(&[u8], Endianness) -> Result<Btf, BtfError>,
    impl Fn(&[u8], Endianness) -> Result<BtfExt, BtfError>,
> {
    BtfDecoders {
        btf: |data: &[u8], endianness: Endianness| {
            Ok(Btf {
                data: data.to_vec(),
                endianness,
            })
        },
        btf_ext: |data: &[u8], endianness: Endianness| {
            Ok(BtfExt {
                data: data.to_vec(),
                endianness,
            })
        },
    }
}

fn fake_section<'a>(name: &'a str, data: &'a [u8]) -> ElfSection<'a> {
    ElfSection {
        index: 0,
        address: 0,
        name,
        data,
        relocations: Vec::new(),
    }
}

fn fake_ins() -> [u8; 8] {
    [0; 8]
}

fn bytes_of(def: &bpf_map_def) -> Vec<u8> {
    let mut bytes = Vec::new();
    for word in [
        def.map_type,
        def.key_size,
        def.value_size,
        def.max_entries,
        def.map_flags,
        def.id,
        def.pinning,
    ] {
        bytes.extend_from_slice(&word.to_ne_bytes());
    }
    bytes
}

fn fake_def() -> bpf_map_def {
    bpf_map_def {
        map_type: 1,
        key_size: 2,
        value_size: 3,
        max_entries: 4,
        map_flags: 5,
        id: 0,
        pinning: 0,
    }
}

fn fake_obj() -> Object {
    Object::new(
        Endianness::Little,
        License::new(b"GPL".to_vec()).unwrap(),
        KernelVersion::Any,
    )
}

#[test]
fn test_parse_generic_error() {
    assert!(matches!(
        Object::parse(&b"foo"[..], &decoders()),
        Some(Err(BpfError::ParseError(ParseError::ElfError(_))))
    ))
}

#[test]
fn test_parse_license() {
    assert!(matches!(
        parse_license(b""),
        Err(ParseError::InvalidLicense { .. })
    ));

    assert!(matches!(
        parse_license(b"\0"),
        Err(ParseError::InvalidLicense { .. })
    ));

    assert!(matches!(
        parse_license(b"GPL"),
        Err(ParseError::MissingLicenseNullTerminator { .. })
    ));

    assert_eq!(
        std::str::from_utf8(parse_license(b"GPL\0").unwrap().as_bytes()).unwrap(),
        "GPL"
    );
}

#[test]
fn test_parse_version() {
    assert!(matches!(
        parse_version(b"", Endianness::Little),
        Err(ParseError::InvalidKernelVersion { .. })
    ));

    assert!(matches!(
        parse_version(b"123", Endianness::Little),
        Err(ParseError::InvalidKernelVersion { .. })
    ));

    assert_eq!(
        parse_version(&0xFFFF_FFFEu32.to_le_bytes(), Endianness::Little)
            .expect("failed to parse magic version"),
        KernelVersion::Any
    );

    assert_eq!(
        parse_version(&0xFFFF_FFFEu32.to_be_bytes(), Endianness::Big)
            .expect("failed to parse magic version"),
        KernelVersion::Any
    );

    assert_eq!(
        parse_version(&1234u32.to_le_bytes(), Endianness::Little)
            .expect("failed to parse magic version"),
        KernelVersion::Version(1234)
    );
}

#[test]
fn test_parse_map_def() {
    assert!(matches!(
        parse_map_def("foo", &[], host_endianness()),
        Err(ParseError::InvalidMapDefinition { .. })
    ));
    assert!(matches!(
        parse_map_def(
            "foo",
            &bytes_of(&bpf_map_def {
                map_type: 1,
                key_size: 2,
                value_size: 3,
                max_entries: 4,
                map_flags: 5,
                id: 0,
                pinning: 0
            }),
            host_endianness()
        ),
        Ok(bpf_map_def {
            map_type: 1,
            key_size: 2,
            value_size: 3,
            max_entries: 4,
            map_flags: 5,
            id: 0,
            pinning: 0
        })
    ));
}

#[test]
fn test_parse_map_error() {
    assert!(matches!(
        parse_map(&fake_section("maps/foo", &[]), "foo", host_endianness()),
        Err(ParseError::InvalidMapDefinition { .. })
    ))
}

#[test]
fn test_parse_map() {
    assert!(matches!(
        parse_map(
            &fake_section("maps/foo", &bytes_of(&fake_def())),
            "foo",
            host_endianness()
        ),
        Ok(BpfMap {
            section_index: 0,
            name,
            def: bpf_map_def {
                map_type: 1,
                key_size: 2,
                value_size: 3,
                max_entries: 4,
                map_flags: 5,
                id: 0,
                pinning: 0
            },
            data
        }) if name == "foo" && data.is_empty()
    ))
}

#[test]
fn test_parse_map_data() {
    let map_data = b"map data";
    assert!(matches!(
        parse_map(&fake_section(".bss", map_data), ".bss", host_endianness()),
        Ok(BpfMap {
            section_index: 0,
            name,
            def: bpf_map_def {
                map_type: _map_type,
                key_size: 4,
                value_size,
                max_entries: 1,
                map_flags: 0,
                id: 0,
                pinning: 0
            },
            data
        }) if name == ".bss" && data == map_data && value_size == map_data.len() as u32
    ))
}

#[test]
fn test_parse_program_error() {
    let obj = fake_obj();

    assert!(matches!(
        obj.parse_program(
            &fake_section("kprobe/foo", &42u32.to_ne_bytes()),
            "kprobe",
            "foo"
        ),
        Err(ParseError::InvalidProgramCode)
    ));
}

#[test]
fn test_parse_program() {
    let obj = fake_obj();

    assert!(matches!(
        obj.parse_program(&fake_section("kprobe/foo", &fake_ins()), "kprobe", "foo"),
        Ok(Program {
            license,
            kernel_version: KernelVersion::Any,
            kind: ProgramKind::KProbe,
            function: Function {
                name,
                address: 0,
                section_index: 0,
                section_offset: 0,
                instructions
            }
        }) if license.as_bytes() == b"GPL" && name == "foo" && instructions.len() == 1
    ));
}

#[test]
fn test_parse_section_map() {
    let mut obj = fake_obj();

    assert!(matches!(
        obj.parse_section(
            fake_section("maps/foo", &bytes_of(&fake_def())),
            &decoders()
        ),
        Ok(())
    ));
    assert!(obj.maps.get("foo").is_some());
}

#[test]
fn test_parse_section_data() {
    let mut obj = fake_obj();
    assert!(matches!(
        obj.parse_section(fake_section(".bss", b"map data"), &decoders()),
        Ok(())
    ));
    assert!(obj.maps.get(".bss").is_some());

    assert!(matches!(
        obj.parse_section(fake_section(".rodata", b"map data"), &decoders()),
        Ok(())
    ));
    assert!(obj.maps.get(".rodata").is_some());

    assert!(matches!(
        obj.parse_section(fake_section(".rodata.boo", b"map data"), &decoders()),
        Ok(())
    ));
    assert!(obj.maps.get(".rodata.boo").is_some());

    assert!(matches!(
        obj.parse_section(fake_section(".data", b"map data"), &decoders()),
        Ok(())
    ));
    assert!(obj.maps.get(".data").is_some());

    assert!(matches!(
        obj.parse_section(fake_section(".data.boo", b"map data"), &decoders()),
        Ok(())
    ));
    assert!(obj.maps.get(".data.boo").is_some());
}

#[test]
fn test_parse_section_kprobe() {
    let mut obj = fake_obj();

    assert!(matches!(
        obj.parse_section(fake_section("kprobe/foo", &fake_ins()), &decoders()),
        Ok(())
    ));
    assert!(matches!(
        obj.programs.get("foo"),
        Some(Program {
            kind: ProgramKind::KProbe,
            ..
        })
    ));
}

#[test]
fn test_parse_section_uprobe() {
    let mut obj = fake_obj();

    assert!(matches!(
        obj.parse_section(fake_section("uprobe/foo", &fake_ins()), &decoders()),
        Ok(())
    ));
    assert!(matches!(
        obj.programs.get("foo"),
        Some(Program {
            kind: ProgramKind::UProbe,
            ..
        })
    ));
}

#[test]
fn test_parse_section_trace_point() {
    let mut obj = fake_obj();

    assert!(matches!(
        obj.parse_section(fake_section("trace_point/foo", &fake_ins()), &decoders()),
        Ok(())
    ));
    assert!(matches!(
        obj.programs.get("foo"),
        Some(Program {
            kind: ProgramKind::TracePoint,
            ..
        })
    ));
}

#[test]
fn test_parse_section_socket_filter() {
    let mut obj = fake_obj();

    assert!(matches!(
        obj.parse_section(fake_section("socket_filter/foo", &fake_ins()), &decoders()),
        Ok(())
    ));
    assert!(matches!(
        obj.programs.get("foo"),
        Some(Program {
            kind: ProgramKind::SocketFilter,
            ..
        })
    ));
}

#[test]
fn test_parse_section_xdp() {
    let mut obj = fake_obj();

    assert!(matches!(
        obj.parse_section(fake_section("xdp/foo", &fake_ins()), &decoders()),
        Ok(())
    ));
    assert!(matches!(
        obj.programs.get("foo"),
        Some(Program {
            kind: ProgramKind::Xdp,
            ..
        })
    ));
}
