//! What the bytes and the names of a file stand for, place by place.

use crate::endian::{
    is_host_order, machine_reads, probe_bytes, probed_order, signed16, signed32,
    u16_of, u32_of, unsigned16, unsigned32, Endianness,
};
use crate::error::ParseErrorView;
use crate::insn::{bpf_insn, code_of, insn_of, insns_of};
use crate::kind::{kind_of, law_kind_round_trip, names_kind, ProgramKind};
use crate::license::license_of;
use crate::map::{bpf_map_def, map_def_of, map_of, names_data, BpfMapView};
use crate::section::{section_of, RawSectionView, RelocationTarget, SectionView};
use crate::version::{number_of_version, version_of, KernelVersion};
use vstd::prelude::*;

verus! {

/// Law: the bytes of a 16-bit integer count by their places: upwards from the
/// first one in little endian order, upwards from the last one in big endian
/// order.
pub proof fn law_u16_places(bytes: Seq<u8>)
    requires
        bytes.len() >= 2,
    ensures
        u16_of(bytes, Endianness::Little) == bytes[0] + 0x100 * bytes[1],
        u16_of(bytes, Endianness::Big) == 0x100 * bytes[0] + bytes[1],
{
}

/// Law: the bytes of a 32-bit integer count by their places: upwards from the
/// first one in little endian order, upwards from the last one in big endian
/// order.
pub proof fn law_u32_places(bytes: Seq<u8>)
    requires
        bytes.len() >= 4,
    ensures
        u32_of(bytes, Endianness::Little) == bytes[0] + 0x100 * bytes[1] + 0x1_0000 * bytes[2]
            + 0x100_0000 * bytes[3],
        u32_of(bytes, Endianness::Big) == 0x100_0000 * bytes[0] + 0x1_0000 * bytes[1] + 0x100
            * bytes[2] + bytes[3],
{
}

/// Law: a signed integer differs from the unsigned one with the same bits by
/// nothing, or by the number of values that these bits can have; and it comes
/// back.
pub proof fn law_signs(short: u16, long: u32, signed_short: i16, signed_long: i32)
    ensures
        (short - signed16(short)) % 0x1_0000 == 0,
        (long - signed32(long)) % 0x1_0000_0000 == 0,
        signed16(unsigned16(signed_short)) == signed_short,
        signed32(unsigned32(signed_long)) == signed_long,
{
}

/// Law: a machine is little endian exactly where it reads the bytes 1, 0, 0, 0
/// as the number 1.
pub proof fn law_host_order(order: Endianness)
    ensures
        probe_bytes() == seq![1u8, 0, 0, 0],
        is_host_order(order) <==> exists|probe: u32| #[trigger]
            machine_reads(probe_bytes(), probe) && (order == Endianness::Little <==> probe == 1),
{
    assert(u32_of(probe_bytes(), Endianness::Little) == 1);
    assert(forall|probe: u32|
        order == probed_order(probe) <==> (order == Endianness::Little <==> probe == 1));
}

/// Law: a license is refused exactly where it is shorter than two bytes, does
/// not end in a zero byte, or holds one before its end. Only where it is long
/// enough is a missing zero byte the reason.
pub proof fn law_license_refusals(data: Seq<u8>)
    ensures
        license_of(data) is Ok <==> data.len() >= 2 && data[data.len() - 1] == 0 && (forall|i: int|
            0 <= i < data.len() - 1 ==> #[trigger] data[i] != 0),
        license_of(data) matches Ok(license) ==> license == data.take(data.len() - 1),
        data.len() >= 2 && data[data.len() - 1] != 0 ==> license_of(data) == Err::<
            Seq<u8>,
            ParseErrorView,
        >(ParseErrorView::MissingLicenseNullTerminator { data }),
        license_of(data) is Err && !(data.len() >= 2 && data[data.len() - 1] != 0) ==> license_of(
            data,
        ) == Err::<Seq<u8>, ParseErrorView>(ParseErrorView::InvalidLicense { data }),
{
    if data.len() >= 2 {
        let text = data.drop_last();
        assert(text == data.take(data.len() - 1));
        assert(forall|i: int| 0 <= i < text.len() ==> text[i] == #[trigger] data[i]);
        if forall|i: int| 0 <= i < data.len() - 1 ==> #[trigger] data[i] != 0 {
            assert(!text.contains(0u8));
        } else {
            let i = choose|i: int| 0 <= i < data.len() - 1 && #[trigger] data[i] == 0;
            assert(text[i] == 0u8);
        }
    }
}

/// Law: four bytes are a version, of the number that they are in the byte order
/// of the file; that number 0xFFFF_FFFE alone stands for any version. Bytes of
/// any other length are refused.
pub proof fn law_version_numbers(data: Seq<u8>, order: Endianness)
    ensures
        data.len() != 4 ==> version_of(data, order) == Err::<KernelVersion, ParseErrorView>(
            ParseErrorView::InvalidKernelVersion { data },
        ),
        data.len() == 4 ==> ({
            let number = match order {
                Endianness::Little => data[0] + 0x100 * data[1] + 0x1_0000 * data[2] + 0x100_0000
                    * data[3],
                Endianness::Big => 0x100_0000 * data[0] + 0x1_0000 * data[1] + 0x100 * data[2]
                    + data[3],
            };
            &&& version_of(data, order) matches Ok(version)
            &&& version == KernelVersion::Any <==> number == 0xFFFF_FFFE
            &&& version matches KernelVersion::Version(found) ==> found == number
            &&& number_of_version(version) == number
        }),
{
    if data.len() == 4 {
        law_u32_places(data);
    }
}

/// Law: any version goes by the number 0xFFFF_FFFE, and each version by its own.
pub proof fn law_numbers_of_versions(number: u32)
    ensures
        number_of_version(KernelVersion::Any) == 0xFFFF_FFFE,
        number_of_version(KernelVersion::Version(number)) == number,
{
}

/// Law: fourteen names are names of kinds, each of its own; every other name is
/// refused, and the error repeats it.
pub proof fn law_named_kinds(name: Seq<char>)
    ensures
        name == "kprobe"@ ==> kind_of(name) == Ok::<ProgramKind, ParseErrorView>(
            ProgramKind::KProbe,
        ),
        name == "kretprobe"@ ==> kind_of(name) == Ok::<ProgramKind, ParseErrorView>(
            ProgramKind::KRetProbe,
        ),
        name == "uprobe"@ ==> kind_of(name) == Ok::<ProgramKind, ParseErrorView>(
            ProgramKind::UProbe,
        ),
        name == "uretprobe"@ ==> kind_of(name) == Ok::<ProgramKind, ParseErrorView>(
            ProgramKind::URetProbe,
        ),
        name == "trace_point"@ ==> kind_of(name) == Ok::<ProgramKind, ParseErrorView>(
            ProgramKind::TracePoint,
        ),
        name == "socket_filter"@ ==> kind_of(name) == Ok::<ProgramKind, ParseErrorView>(
            ProgramKind::SocketFilter,
        ),
        name == "xdp"@ ==> kind_of(name) == Ok::<ProgramKind, ParseErrorView>(ProgramKind::Xdp),
        name == "sk_msg"@ ==> kind_of(name) == Ok::<ProgramKind, ParseErrorView>(
            ProgramKind::SkMsg,
        ),
        name == "sk_skb/stream_parser"@ ==> kind_of(name) == Ok::<ProgramKind, ParseErrorView>(
            ProgramKind::SkSkbStreamParser,
        ),
        name == "sk_skb/stream_verdict"@ ==> kind_of(name) == Ok::<ProgramKind, ParseErrorView>(
            ProgramKind::SkSkbStreamVerdict,
        ),
        name == "sockops"@ ==> kind_of(name) == Ok::<ProgramKind, ParseErrorView>(
            ProgramKind::SockOps,
        ),
        name == "classifier"@ ==> kind_of(name) == Ok::<ProgramKind, ParseErrorView>(
            ProgramKind::SchedClassifier,
        ),
        name == "cgroup_skb/ingress"@ ==> kind_of(name) == Ok::<ProgramKind, ParseErrorView>(
            ProgramKind::CgroupSkbIngress,
        ),
        name == "cgroup_skb/egress"@ ==> kind_of(name) == Ok::<ProgramKind, ParseErrorView>(
            ProgramKind::CgroupSkbEgress,
        ),
        kind_of(name) is Ok <==> {
            ||| name == "kprobe"@
            ||| name == "kretprobe"@
            ||| name == "uprobe"@
            ||| name == "uretprobe"@
            ||| name == "trace_point"@
            ||| name == "socket_filter"@
            ||| name == "xdp"@
            ||| name == "sk_msg"@
            ||| name == "sk_skb/stream_parser"@
            ||| name == "sk_skb/stream_verdict"@
            ||| name == "sockops"@
            ||| name == "classifier"@
            ||| name == "cgroup_skb/ingress"@
            ||| name == "cgroup_skb/egress"@
        },
        kind_of(name) matches Err(error) ==> error == (ParseErrorView::InvalidProgramKind {
            kind: name,
        }),
        names_kind(name) <==> kind_of(name) is Ok,
{
    law_kind_round_trip(ProgramKind::KProbe);
    law_kind_round_trip(ProgramKind::KRetProbe);
    law_kind_round_trip(ProgramKind::UProbe);
    law_kind_round_trip(ProgramKind::URetProbe);
    law_kind_round_trip(ProgramKind::TracePoint);
    law_kind_round_trip(ProgramKind::SocketFilter);
    law_kind_round_trip(ProgramKind::Xdp);
    law_kind_round_trip(ProgramKind::SkMsg);
    law_kind_round_trip(ProgramKind::SkSkbStreamParser);
    law_kind_round_trip(ProgramKind::SkSkbStreamVerdict);
    law_kind_round_trip(ProgramKind::SockOps);
    law_kind_round_trip(ProgramKind::SchedClassifier);
    law_kind_round_trip(ProgramKind::CgroupSkbIngress);
    law_kind_round_trip(ProgramKind::CgroupSkbEgress);
}

/// Law: the eight bytes of an instruction are, in this order, the operation, the
/// registers, two bytes of the offset and four of the constant, both in the
/// byte order of the machine and up to a multiple of the values of their bits.
pub proof fn law_instruction_bytes(bytes: Seq<u8>, host: Endianness)
    requires
        bytes.len() == 8,
    ensures
        insn_of(bytes, host).code == bytes[0],
        insn_of(bytes, host).registers == bytes[1],
        host == Endianness::Little ==> (bytes[2] + 0x100 * bytes[3] - insn_of(bytes, host).off)
            % 0x1_0000 == 0,
        host == Endianness::Big ==> (0x100 * bytes[2] + bytes[3] - insn_of(bytes, host).off)
            % 0x1_0000 == 0,
        host == Endianness::Little ==> (bytes[4] + 0x100 * bytes[5] + 0x1_0000 * bytes[6]
            + 0x100_0000 * bytes[7] - insn_of(bytes, host).imm) % 0x1_0000_0000 == 0,
        host == Endianness::Big ==> (0x100_0000 * bytes[4] + 0x1_0000 * bytes[5] + 0x100 * bytes[6]
            + bytes[7] - insn_of(bytes, host).imm) % 0x1_0000_0000 == 0,
{
    let off = bytes.subrange(2, 4);
    let imm = bytes.subrange(4, 8);
    law_u16_places(off);
    law_u32_places(imm);
    assert(off[0] == bytes[2] && off[1] == bytes[3]);
    assert(imm[0] == bytes[4] && imm[1] == bytes[5] && imm[2] == bytes[6] && imm[3] == bytes[7]);
}

/// Law: code whose length is a multiple of eight has one instruction for every
/// eight bytes, and instruction `i` is what the bytes from `8 * i` on stand for.
/// Other code is refused.
pub proof fn law_instructions_of_code(data: Seq<u8>, host: Endianness)
    ensures
        data.len() % 8 != 0 ==> code_of(data, host) == Err::<Seq<bpf_insn>, ParseErrorView>(
            ParseErrorView::InvalidProgramCode,
        ),
        data.len() % 8 == 0 ==> code_of(data, host) == Ok::<Seq<bpf_insn>, ParseErrorView>(
            insns_of(data, host),
        ),
        data.len() % 8 == 0 ==> 8 * insns_of(data, host).len() == data.len(),
        forall|i: int|
            0 <= i && 8 * i + 8 <= data.len() ==> #[trigger] insns_of(data, host)[i] == insn_of(
                data.subrange(8 * i, 8 * i + 8),
                host,
            ),
{
}

/// Law: a definition is seven words of four bytes, in the order of the fields
/// and in the byte order of the machine. Less than 28 bytes are refused.
pub proof fn law_words_of_a_definition(name: Seq<char>, data: Seq<u8>, host: Endianness)
    ensures
        data.len() < 28 ==> map_def_of(name, data, host) == Err::<bpf_map_def, ParseErrorView>(
            ParseErrorView::InvalidMapDefinition { name },
        ),
        data.len() >= 28 ==> {
            &&& map_def_of(name, data, host) matches Ok(def)
            &&& def.map_type == u32_of(data.subrange(0, 4), host)
            &&& def.key_size == u32_of(data.subrange(4, 8), host)
            &&& def.value_size == u32_of(data.subrange(8, 12), host)
            &&& def.max_entries == u32_of(data.subrange(12, 16), host)
            &&& def.map_flags == u32_of(data.subrange(16, 20), host)
            &&& def.id == u32_of(data.subrange(20, 24), host)
            &&& def.pinning == u32_of(data.subrange(24, 28), host)
        },
{
}

/// Law: the names of sections of global variables are `.bss` itself and all
/// that start with `.data` or `.rodata`.
pub proof fn law_names_of_variables(name: Seq<char>)
    ensures
        names_data(name) <==> {
            ||| name == seq!['.', 'b', 's', 's']
            ||| name.len() >= 5 && name.take(5) == seq!['.', 'd', 'a', 't', 'a']
            ||| name.len() >= 7 && name.take(7) == seq!['.', 'r', 'o', 'd', 'a', 't', 'a']
        },
{
    reveal_strlit(".bss");
    reveal_strlit(".data");
    reveal_strlit(".rodata");
    assert(".bss"@ =~= seq!['.', 'b', 's', 's']);
    assert(".data"@ =~= seq!['.', 'd', 'a', 't', 'a']);
    assert(".rodata"@ =~= seq!['.', 'r', 'o', 'd', 'a', 't', 'a']);
    if name.len() >= 5 {
        assert(name.take(5) == name.subrange(0, 5));
    }
    if name.len() >= 7 {
        assert(name.take(7) == name.subrange(0, 7));
    }
}

/// Law: the map of a section of global variables, whatever its length, is an
/// array (type 2) with keys of four bytes and one entry, without flags, number
/// or pinning. Its value is as long as the section, up to a multiple of the
/// values of 32 bits, and it starts out as the data of the section.
pub proof fn law_map_of_variables(section: SectionView, name: Seq<char>, host: Endianness)
    requires
        names_data(name),
    ensures
        ({
            &&& map_of(section, name, host) matches Ok(map)
            &&& map.name == name
            &&& map.section_index == section.index
            &&& map.data == section.data
            &&& map.def.map_type == 2
            &&& map.def.key_size == 4
            &&& (section.data.len() - map.def.value_size) % 0x1_0000_0000 == 0
            &&& map.def.max_entries == 1
            &&& map.def.map_flags == 0
            &&& map.def.id == 0
            &&& map.def.pinning == 0
        }),
{
}

/// Law: a map by any other name is defined by the bytes of its section, starts
/// out empty, and is refused exactly where its definition is.
pub proof fn law_map_by_definition(section: SectionView, name: Seq<char>, host: Endianness)
    requires
        !names_data(name),
    ensures
        section.data.len() < 28 ==> map_of(section, name, host) == Err::<
            BpfMapView,
            ParseErrorView,
        >(ParseErrorView::InvalidMapDefinition { name }),
        section.data.len() >= 28 ==> {
            &&& map_of(section, name, host) matches Ok(map)
            &&& map.name == name
            &&& map.section_index == section.index
            &&& map.data.len() == 0
            &&& map.def.map_type == u32_of(section.data.subrange(0, 4), host)
            &&& map.def.key_size == u32_of(section.data.subrange(4, 8), host)
            &&& map.def.value_size == u32_of(section.data.subrange(8, 12), host)
            &&& map.def.max_entries == u32_of(section.data.subrange(12, 16), host)
            &&& map.def.map_flags == u32_of(section.data.subrange(16, 20), host)
            &&& map.def.id == u32_of(section.data.subrange(20, 24), host)
            &&& map.def.pinning == u32_of(section.data.subrange(24, 28), host)
        },
{
    law_words_of_a_definition(name, section.data, host);
}

/// Law: a section that is read keeps the number, the address, the name and the
/// data that it has in the file, and all of its relocations: there are as many
/// of them, and each has the offset that it has in the file, and the number of
/// the symbol that it refers to there.
pub proof fn law_section_keeps_everything(raw: RawSectionView, section: SectionView)
    requires
        section_of(raw) == Ok::<SectionView, ParseErrorView>(section),
    ensures
        section.index == raw.index,
        section.address == raw.address,
        raw.name == Ok::<Seq<char>, Seq<char>>(section.name),
        raw.data == Ok::<Seq<u8>, Seq<char>>(section.data),
        section.relocations.len() == raw.relocations.len(),
        forall|i: int|
            0 <= i < raw.relocations.len() ==> (#[trigger] section.relocations[i]).offset
                == raw.relocations[i].offset && raw.relocations[i].target
                == RelocationTarget::Symbol(section.relocations[i].symbol_index),
{
    assert forall|i: int| 0 <= i < raw.relocations.len() implies (
    #[trigger] section.relocations[i]).offset == raw.relocations[i].offset
        && raw.relocations[i].target == RelocationTarget::Symbol(
        section.relocations[i].symbol_index,
    ) by {
        assert(crate::section::refers_to_symbol(raw.relocations[i]));
    }
}

/// Law: a section is refused exactly where its name or its data cannot be read,
/// or one of its relocations refers to something other than a symbol. Of
/// several reasons the name comes first, then the data.
pub proof fn law_section_refusals(raw: RawSectionView)
    ensures
        section_of(raw) is Ok <==> raw.name is Ok && raw.data is Ok && (forall|i: int|
            0 <= i < raw.relocations.len() ==> (#[trigger] raw.relocations[i]).target is Symbol),
        raw.name matches Err(source) ==> section_of(raw) == Err::<SectionView, ParseErrorView>(
            ParseErrorView::SectionError { index: raw.index, source },
        ),
        raw.name is Ok && raw.data is Err ==> section_of(raw) == Err::<SectionView, ParseErrorView>(
            ParseErrorView::SectionError { index: raw.index, source: raw.data->Err_0 },
        ),
        raw.name is Ok && raw.data is Ok && section_of(raw) is Err ==> section_of(raw) == Err::<
            SectionView,
            ParseErrorView,
        >(ParseErrorView::UnsupportedRelocationTarget),
{
    if forall|i: int|
        0 <= i < raw.relocations.len() ==> (#[trigger] raw.relocations[i]).target is Symbol {
        assert(forall|i: int|
            0 <= i < raw.relocations.len() ==> crate::section::refers_to_symbol(
                #[trigger] raw.relocations[i],
            ));
    } else {
        let i = choose|i: int|
            0 <= i < raw.relocations.len() && !((#[trigger] raw.relocations[i]).target is Symbol);
        assert(!crate::section::refers_to_symbol(raw.relocations[i]));
    }
}

} // verus!
