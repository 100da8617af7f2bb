//! Exact values of what is read, with every error that reading can end in.

use bpf_object::endian::{order_of_probe, read_i16, read_i32, read_u16, read_u32};
use bpf_object::map::{is_data_name, BPF_MAP_TYPE_ARRAY};
use bpf_object::object::{is_code_name, is_program_name};
use bpf_object::version::KERNEL_VERSION_ANY;
use bpf_object::{
    bpf_map_def, copy_instructions, host_endianness, parse_license, parse_map, parse_map_def,
    parse_version, ElfSection, Endianness, KernelVersion, License, NameMap, ParseError,
    ProgramKind, RawRelocation, RawSection, ReadError, RelocationTarget,
};

#[test]
fn integers_in_both_orders() {
    let data = [0xff, 0x01, 0x02, 0x83, 0x84];
    assert_eq!(read_u16(&data, 1, Endianness::Little), 0x0201);
    assert_eq!(read_u16(&data, 1, Endianness::Big), 0x0102);
    assert_eq!(read_u32(&data, 1, Endianness::Little), 0x8483_0201);
    assert_eq!(read_u32(&data, 1, Endianness::Big), 0x0102_8384);
    assert_eq!(read_i16(&data, 3, Endianness::Little), -0x7b7d);
    assert_eq!(read_i16(&data, 3, Endianness::Big), -0x7c7c);
    assert_eq!(read_i32(&data, 1, Endianness::Little), -0x7b7c_fdff);
    assert_eq!(read_i32(&data, 1, Endianness::Big), 0x0102_8384);
    assert_eq!(read_i32(&[0xff; 4], 0, Endianness::Big), -1);
}

#[test]
fn integers_come_back_from_their_bytes() {
    for value in [0u32, 1, 0x1234_5678, 0x8000_0000, u32::MAX] {
        assert_eq!(read_u32(&value.to_le_bytes(), 0, Endianness::Little), value);
        assert_eq!(read_u32(&value.to_be_bytes(), 0, Endianness::Big), value);
    }
    for value in [0u16, 0x1234, 0x8000, u16::MAX] {
        assert_eq!(read_u16(&value.to_le_bytes(), 0, Endianness::Little), value);
        assert_eq!(read_u16(&value.to_be_bytes(), 0, Endianness::Big), value);
    }
}

#[test]
fn order_of_this_machine() {
    assert_eq!(order_of_probe(1), Endianness::Little);
    assert_eq!(order_of_probe(0x0100_0000), Endianness::Big);
    let value = 0x0102_0304u32;
    assert_eq!(
        read_u32(&value.to_ne_bytes(), 0, host_endianness()),
        value
    );
}

#[test]
fn licenses() {
    assert_eq!(
        parse_license(b"Dual BSD/GPL\0").unwrap().as_bytes(),
        b"Dual BSD/GPL"
    );
    assert_eq!(parse_license(b"x\0").unwrap().as_bytes(), b"x");
    assert!(matches!(
        parse_license(b"G\0L\0"),
        Err(ParseError::InvalidLicense { data }) if data == b"G\0L\0"
    ));
    assert!(matches!(
        parse_license(b"\0\0"),
        Err(ParseError::InvalidLicense { data }) if data == b"\0\0"
    ));
    assert!(matches!(
        parse_license(b"G\0L"),
        Err(ParseError::MissingLicenseNullTerminator { data }) if data == b"G\0L"
    ));
    assert!(License::new(b"G\0L".to_vec()).is_none());
    assert_eq!(License::new(Vec::new()).unwrap().as_bytes(), b"");
    let license = License::new(b"GPL".to_vec()).unwrap();
    assert_eq!(license.clone().as_bytes(), license.as_bytes());
}

#[test]
fn versions() {
    assert_eq!(
        parse_version(&[1, 2, 3, 4], Endianness::Little).unwrap(),
        KernelVersion::Version(0x0403_0201)
    );
    assert_eq!(
        parse_version(&[1, 2, 3, 4], Endianness::Big).unwrap(),
        KernelVersion::Version(0x0102_0304)
    );
    assert!(matches!(
        parse_version(&[1, 2, 3, 4, 5], Endianness::Big),
        Err(ParseError::InvalidKernelVersion { data }) if data == [1, 2, 3, 4, 5]
    ));
    assert_eq!(u32::from(KernelVersion::Any), 0xffff_fffe);
    assert_eq!(u32::from(KernelVersion::Version(7)), 7);
    for number in [0, 7, KERNEL_VERSION_ANY, u32::MAX] {
        let version = parse_version(&number.to_be_bytes(), Endianness::Big).unwrap();
        assert_eq!(u32::from(version), number);
        assert_ne!(version, KernelVersion::Version(KERNEL_VERSION_ANY));
    }
}

#[test]
fn names_of_kinds() {
    let kinds = [
        ("kprobe", "KProbe"),
        ("kretprobe", "KRetProbe"),
        ("uprobe", "UProbe"),
        ("uretprobe", "URetProbe"),
        ("xdp", "Xdp"),
        ("trace_point", "TracePoint"),
        ("socket_filter", "SocketFilter"),
        ("sk_msg", "SkMsg"),
        ("sk_skb/stream_parser", "SkSkbStreamParser"),
        ("sk_skb/stream_verdict", "SkSkbStreamVerdict"),
        ("sockops", "SockOps"),
        ("classifier", "SchedClassifier"),
        ("cgroup_skb/ingress", "CgroupSkbIngress"),
        ("cgroup_skb/egress", "CgroupSkbEgress"),
    ];
    for (name, kind) in kinds {
        assert_eq!(format!("{:?}", ProgramKind::from_str(name).unwrap()), kind);
        assert_eq!(format!("{:?}", name.parse::<ProgramKind>().unwrap()), kind);
        assert!(is_program_name(name));
    }
    for name in ["", "Kprobe", "kprobe/", "cgroup/skb", "sk_skb"] {
        assert!(matches!(
            ProgramKind::from_str(name),
            Err(ParseError::InvalidProgramKind { kind }) if kind == name
        ));
    }
    assert!(is_program_name("cgroup/skb"));
    assert!(!is_program_name("maps"));
}

#[test]
fn names_of_data_and_code() {
    for name in [".bss", ".data", ".data.x", ".rodata", ".rodata.str1.1", ".database"] {
        assert!(is_data_name(name));
        assert!(!is_code_name(name));
    }
    for name in [".bss.x", "data", ".dat", ""] {
        assert!(!is_data_name(name));
        assert!(!is_code_name(name));
    }
    for name in [".text", ".text.unlikely", ".texture"] {
        assert!(is_code_name(name));
    }
    for name in [".text/x", "text", "x.text"] {
        assert!(!is_code_name(name));
    }
}

#[test]
fn instructions() {
    let data = [
        0xb7, 0x21, 0xfe, 0xff, 0x01, 0x02, 0x03, 0x84, 0x95, 0, 0, 1, 0, 0, 0, 2,
    ];
    let little = copy_instructions(&data, Endianness::Little).unwrap();
    assert_eq!(little.len(), 2);
    assert_eq!(little[0].code, 0xb7);
    assert_eq!(little[0].registers, 0x21);
    assert_eq!(little[0].off, -2);
    assert_eq!(little[0].imm, 0x8403_0201u32 as i32);
    assert_eq!(little[1].code, 0x95);
    assert_eq!(little[1].off, 0x100);
    assert_eq!(little[1].imm, 0x0200_0000);
    let big = copy_instructions(&data, Endianness::Big).unwrap();
    assert_eq!(big[0].off, -0x101);
    assert_eq!(big[0].imm, 0x0102_0384);
    assert_eq!(big[1].off, 1);
    assert_eq!(big[1].imm, 2);
    assert_eq!(copy_instructions(&[], Endianness::Big).unwrap().len(), 0);
    for length in [1, 7, 9, 15] {
        assert!(matches!(
            copy_instructions(&data[..length], Endianness::Little),
            Err(ParseError::InvalidProgramCode)
        ));
    }
}

#[test]
fn code_comes_back_from_its_bytes() {
    for order in [Endianness::Little, Endianness::Big] {
        for (off, imm) in [(-1i16, i32::MIN), (5, -7), (i16::MIN, i32::MAX)] {
            let mut data = vec![0x61, 0x10];
            match order {
                Endianness::Little => {
                    data.extend_from_slice(&off.to_le_bytes());
                    data.extend_from_slice(&imm.to_le_bytes());
                }
                Endianness::Big => {
                    data.extend_from_slice(&off.to_be_bytes());
                    data.extend_from_slice(&imm.to_be_bytes());
                }
            }
            let read = copy_instructions(&data, order).unwrap();
            assert_eq!(read.len(), 1);
            assert_eq!((read[0].code, read[0].registers), (0x61, 0x10));
            assert_eq!((read[0].off, read[0].imm), (off, imm));
        }
    }
}

#[test]
fn map_definitions() {
    let mut data = Vec::new();
    for word in 1u32..8 {
        data.extend_from_slice(&word.to_be_bytes());
    }
    assert_eq!(
        parse_map_def("foo", &data, Endianness::Big).unwrap(),
        bpf_map_def {
            map_type: 1,
            key_size: 2,
            value_size: 3,
            max_entries: 4,
            map_flags: 5,
            id: 6,
            pinning: 7
        }
    );
    assert_eq!(
        parse_map_def("foo", &data, Endianness::Little)
            .unwrap()
            .key_size,
        0x0200_0000
    );
    assert!(matches!(
        parse_map_def("foo", &data[..27], Endianness::Big),
        Err(ParseError::InvalidMapDefinition { name }) if name == "foo"
    ));
    data.push(9);
    assert_eq!(
        parse_map_def("foo", &data, Endianness::Big).unwrap().pinning,
        7
    );
}

#[test]
fn maps_of_variables() {
    let section = ElfSection {
        index: 12,
        address: 0,
        name: ".rodata.x",
        data: &[1, 2, 3, 4, 5],
        relocations: Vec::new(),
    };
    let map = parse_map(&section, ".rodata.x", Endianness::Big).unwrap();
    assert_eq!(map.name, ".rodata.x");
    assert_eq!(map.section_index, 12);
    assert_eq!(map.data, [1, 2, 3, 4, 5]);
    assert_eq!(
        map.def,
        bpf_map_def {
            map_type: BPF_MAP_TYPE_ARRAY,
            key_size: 4,
            value_size: 5,
            max_entries: 1,
            map_flags: 0,
            id: 0,
            pinning: 0
        }
    );
    assert_eq!(BPF_MAP_TYPE_ARRAY, 2);
}

fn raw<'a>() -> RawSection<'a> {
    RawSection {
        index: 3,
        address: 0x40,
        name: Ok("xdp/a".to_string()),
        data: Ok(&[1, 2]),
        relocations: vec![
            RawRelocation {
                offset: 8,
                target: RelocationTarget::Symbol(5),
            },
            RawRelocation {
                offset: 0,
                target: RelocationTarget::Symbol(6),
            },
        ],
    }
}

fn complaint(message: &str) -> ReadError {
    ReadError {
        message: message.to_string(),
    }
}

#[test]
fn sections() {
    let raw = raw();
    let section = ElfSection::try_from(&raw).unwrap();
    assert_eq!(section.index, 3);
    assert_eq!(section.address, 0x40);
    assert_eq!(section.name, "xdp/a");
    assert_eq!(section.data, [1, 2]);
    let relocations: Vec<(u64, usize)> = section
        .relocations
        .iter()
        .map(|relocation| (relocation.offset, relocation.symbol_index))
        .collect();
    assert_eq!(relocations, [(8, 5), (0, 6)]);
}

#[test]
fn sections_that_cannot_be_read() {
    let mut nameless = raw();
    nameless.name = Err(complaint("no name"));
    nameless.data = Err(complaint("no data"));
    assert!(matches!(
        ElfSection::try_from(&nameless),
        Err(ParseError::SectionError { index: 3, source }) if source.message == "no name"
    ));
    let mut empty = raw();
    empty.data = Err(complaint("no data"));
    empty.relocations[0].target = RelocationTarget::Absolute;
    assert!(matches!(
        ElfSection::try_from(&empty),
        Err(ParseError::SectionError { index: 3, source }) if source.message == "no data"
    ));
    for target in [RelocationTarget::Absolute, RelocationTarget::Section(2)] {
        let mut absolute = raw();
        absolute.relocations[1].target = target;
        assert!(matches!(
            ElfSection::try_from(&absolute),
            Err(ParseError::UnsupportedRelocationTarget)
        ));
    }
}

#[test]
fn values_under_names() {
    let mut map: NameMap<u8> = NameMap::new();
    assert!(map.get("a").is_none());
    map.insert("a".to_string(), 1);
    map.insert("b".to_string(), 2);
    map.insert("a".to_string(), 3);
    assert_eq!(map.get("a"), Some(&3));
    assert_eq!(map.get("b"), Some(&2));
    assert_eq!(map.get(""), None);
    assert_eq!(map.entries(), [("a".to_string(), 3), ("b".to_string(), 2)]);
    assert_eq!(map.clone().entries(), map.entries());
}
