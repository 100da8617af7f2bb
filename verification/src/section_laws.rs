//! What holds of sections, and of reading one into an object.

use crate::btf::{Btf, BtfDecoders, BtfExt};
use crate::code::{
    definitions, end_from, function_at, functions_from, in_conflict, size_at, stop_at,
    with_functions,
};
use crate::endian::Endianness;
use crate::error::{BpfErrorView, BtfError, ParseErrorView};
use crate::insn::{bpf_insn, insns_of, law_code_concatenates};
use crate::kind::{
    kind_name, kind_of, law_kind_round_trip, lemma_kind_names, names_kind, ProgramKind,
};
use crate::object::{
    names_bare_program, relocations_by_offset, role_of, section_read, ObjectView, SectionRole,
};
use crate::program::FunctionView;
use crate::section::{ElfRelocation, SectionView, SymbolView};
use crate::text::split_name;
use vstd::prelude::*;

verus! {

/// Law: a name with a slash is split at its last one.
pub proof fn law_split_at_last_slash(front: Seq<char>, back: Seq<char>)
    requires
        !back.contains('/'),
    ensures
        split_name(front.push('/') + back) == Some((front, back)),
{
    let name = front.push('/') + back;
    name.index_of_last_ensures('/');
    assert(name[front.len() as int] == '/');
    let at = name.index_of_last('/')->Some_0;
    if at > front.len() {
        assert(back[at - front.len() - 1] == '/');
    }
    assert(name.take(at) == front);
    assert(name.skip(at + 1) == back);
}

/// Law: a name without a slash is not split.
pub proof fn law_no_slash_no_split(name: Seq<char>)
    requires
        !name.contains('/'),
    ensures
        split_name(name) is None,
{
    name.index_of_last_ensures('/');
}

/// Law: the section `maps/` followed by a name without a slash defines the map
/// of that name.
pub proof fn law_map_sections(name: Seq<char>)
    requires
        !name.contains('/'),
    ensures
        role_of("maps"@.push('/') + name) == (SectionRole::MapDefinition { name }),
{
    law_split_at_last_slash("maps"@, name);
}

/// Law: the section named after a kind, a slash, and a name without a slash
/// holds the program of that name and kind.
pub proof fn law_program_sections(kind: ProgramKind, name: Seq<char>)
    requires
        !name.contains('/'),
    ensures
        role_of(kind_name(kind).push('/') + name) == (SectionRole::Program {
            kind: kind_name(kind),
            name,
        }),
        kind_of(kind_name(kind)) == Ok::<ProgramKind, ParseErrorView>(kind),
{
    law_split_at_last_slash(kind_name(kind), name);
    law_kind_round_trip(kind);
    lemma_names_of_no_kind(kind);
}

/// No kind goes by the name `maps` or `cgroup/skb`.
pub(crate) proof fn lemma_names_of_no_kind(kind: ProgramKind)
    ensures
        kind_name(kind) != "maps"@,
        kind_name(kind) != "cgroup/skb"@,
{
    reveal_strlit("maps");
    reveal_strlit("cgroup/skb");
    assert("maps"@.len() == 4);
    assert("cgroup/skb"@.len() == 10 && "cgroup/skb"@[1] == 'g');
    lemma_kind_names();
}

/// Law: a section that is named after one of four kinds alone holds a program
/// of that kind, which goes by the same name.
pub proof fn law_bare_program_sections(name: Seq<char>)
    requires
        names_bare_program(name),
    ensures
        role_of(name) == (SectionRole::Program { kind: name, name }),
        kind_of(name) is Ok,
{
    reveal_strlit("xdp");
    reveal_strlit("sk_msg");
    reveal_strlit("sockops");
    reveal_strlit("classifier");
    assert(!"xdp"@.contains('/'));
    assert(!"sk_msg"@.contains('/'));
    assert(!"sockops"@.contains('/'));
    assert(!"classifier"@.contains('/'));
    law_no_slash_no_split(name);
    law_kind_round_trip(ProgramKind::Xdp);
    law_kind_round_trip(ProgramKind::SkMsg);
    law_kind_round_trip(ProgramKind::SockOps);
    law_kind_round_trip(ProgramKind::SchedClassifier);
}

/// Law: of the sections that are taken for programs, the kind is unknown only
/// where it is called `cgroup/skb`, and then always.
pub proof fn law_only_cgroup_skb_has_no_kind(name: Seq<char>)
    ensures
        role_of(name) matches SectionRole::Program { kind, .. } ==> (kind_of(kind) is Err <==> kind
            == "cgroup/skb"@),
{
    if let SectionRole::Program { kind, .. } = role_of(name) {
        if names_bare_program(name) {
            law_bare_program_sections(name);
        }
        if names_kind(kind) {
            lemma_names_of_no_kind(choose|found: ProgramKind| #[trigger] kind_name(found) == kind);
        }
        assert(names_kind(kind) || kind == "cgroup/skb"@);
    }
}

/// The instructions of functions, one after the other.
pub open spec fn all_instructions(functions: Seq<FunctionView>) -> Seq<bpf_insn>
    decreases functions.len(),
{
    if functions.len() == 0 {
        Seq::empty()
    } else {
        functions[0].instructions + all_instructions(functions.drop_first())
    }
}

/// Law: where a code section is read to its end, the functions are the section
/// cut into pieces: put together, their instructions are those of the section,
/// with nothing left out and nothing twice.
pub proof fn law_functions_tile_the_section(
    found: Map<u64, SymbolView>,
    section: SectionView,
    host: Endianness,
    offset: int,
)
    requires
        0 <= offset <= section.data.len(),
        end_from(found, section, offset) is Complete,
    ensures
        (section.data.len() - offset) % 8 == 0,
        all_instructions(functions_from(found, section, host, offset)) == insns_of(
            section.data.skip(offset),
            host,
        ),
    decreases section.data.len() - offset,
{
    let functions = functions_from(found, section, host, offset);
    if offset == section.data.len() {
        assert(all_instructions(functions) == insns_of(section.data.skip(offset), host));
    } else {
        let size = size_at(found, section, offset);
        let front = section.data.subrange(offset, offset + size);
        let back = section.data.skip(offset + size);
        law_functions_tile_the_section(found, section, host, offset + size);
        law_code_concatenates(front, back, host);
        assert(section.data.skip(offset) == front + back);
        assert(functions.drop_first() == functions_from(found, section, host, offset + size));
    }
}

/// Law: each function lies behind the one before it, at the address that
/// belongs to its offset.
pub proof fn law_functions_are_ordered(
    found: Map<u64, SymbolView>,
    section: SectionView,
    host: Endianness,
    offset: int,
)
    requires
        0 <= offset,
        section.data.len() <= usize::MAX,
    ensures
        ({
            let functions = functions_from(found, section, host, offset);
            &&& forall|i: int|
                0 <= i < functions.len() ==> offset <= (#[trigger] functions[i]).section_offset
                    < section.data.len() && functions[i].address == section.address
                    + functions[i].section_offset && functions[i].section_index == section.index
            &&& forall|i: int, j: int|
                0 <= i < j < functions.len() ==> (#[trigger] functions[i]).section_offset + 8
                    * functions[i].instructions.len() <= (
                #[trigger] functions[j]).section_offset && functions[i].address
                    < functions[j].address
        }),
    decreases section.data.len() - offset,
{
    let functions = functions_from(found, section, host, offset);
    if offset < section.data.len() && stop_at(found, section, offset) is None {
        let size = size_at(found, section, offset);
        let rest = functions_from(found, section, host, offset + size);
        law_functions_are_ordered(found, section, host, offset + size);
        assert(functions == seq![function_at(found, section, host, offset)] + rest);
        assert(8 * functions[0].instructions.len() == size);
        assert forall|i: int| 0 <= i < functions.len() implies offset <= (
        #[trigger] functions[i]).section_offset < section.data.len() && functions[i].address
            == section.address + functions[i].section_offset && functions[i].section_index
            == section.index by {
            if i > 0 {
                assert(functions[i] == rest[i - 1]);
            }
        }
        assert forall|i: int, j: int| 0 <= i < j < functions.len() implies (
        #[trigger] functions[i]).section_offset + 8 * functions[i].instructions.len() <= (
        #[trigger] functions[j]).section_offset && functions[i].address < functions[j].address by {
            assert(functions[j] == rest[j - 1]);
            if i > 0 {
                assert(functions[i] == rest[i - 1]);
            }
        }
    }
}

/// Law: functions at distinct addresses that are put in are found under these
/// addresses, and those at other addresses stay.
pub proof fn law_functions_are_found(functions: Map<u64, FunctionView>, added: Seq<FunctionView>)
    requires
        forall|i: int, j: int|
            0 <= i < j < added.len() ==> (#[trigger] added[i]).address != (
            #[trigger] added[j]).address,
    ensures
        forall|i: int|
            0 <= i < added.len() ==> with_functions(functions, added).contains_key(
                (#[trigger] added[i]).address,
            ) && with_functions(functions, added)[added[i].address] == added[i],
        forall|address: u64|
            (forall|i: int| 0 <= i < added.len() ==> (#[trigger] added[i]).address != address)
                ==> (#[trigger] with_functions(functions, added).contains_key(address)
                <==> functions.contains_key(address)) && (functions.contains_key(address)
                ==> with_functions(functions, added)[address] == functions[address]),
    decreases added.len(),
{
    if added.len() > 0 {
        let first = functions.insert(added[0].address, added[0]);
        let rest = added.drop_first();
        law_functions_are_found(first, rest);
        let all = with_functions(functions, added);
        assert(all == with_functions(first, rest));
        assert forall|i: int| 0 <= i < added.len() implies all.contains_key(
            (#[trigger] added[i]).address,
        ) && all[added[i].address] == added[i] by {
            if i > 0 {
                assert(added[i] == rest[i - 1]);
            } else {
                assert forall|j: int| 0 <= j < rest.len() implies (#[trigger] rest[j]).address
                    != added[0].address by {
                    assert(rest[j] == added[j + 1]);
                }
                assert(all.contains_key(added[0].address) <==> first.contains_key(
                    added[0].address,
                ));
            }
        }
        assert forall|address: u64|
            (forall|i: int| 0 <= i < added.len() ==> (#[trigger] added[i]).address != address)
            implies (#[trigger] all.contains_key(address) <==> functions.contains_key(address))
            && (functions.contains_key(address) ==> all[address] == functions[address]) by {
            assert forall|j: int| 0 <= j < rest.len() implies (#[trigger] rest[j]).address
                != address by {
                assert(rest[j] == added[j + 1]);
            }
            assert(added[0].address != address);
            assert(first.contains_key(address) <==> functions.contains_key(address));
        }
    }
}

/// Law: a relocation is found under its offset, unless another one at that
/// offset comes after it; and nothing else is found.
pub proof fn law_last_relocation_counts(relocations: Seq<ElfRelocation>)
    ensures
        forall|i: int|
            0 <= i < relocations.len() && (forall|j: int|
                i < j < relocations.len() ==> (#[trigger] relocations[j]).offset
                    != relocations[i].offset) ==> relocations_by_offset(relocations).contains_key(
                (#[trigger] relocations[i]).offset,
            ) && relocations_by_offset(relocations)[relocations[i].offset] == relocations[i],
        forall|offset: u64| #[trigger]
            relocations_by_offset(relocations).contains_key(offset) ==> relocations_by_offset(
                relocations,
            )[offset].offset == offset && relocations.contains(
                relocations_by_offset(relocations)[offset],
            ),
    decreases relocations.len(),
{
    if relocations.len() > 0 {
        let front = relocations.drop_last();
        let last = relocations.last();
        let index = relocations_by_offset(relocations);
        law_last_relocation_counts(front);
        assert(relocations[relocations.len() - 1] == last);
        assert forall|i: int|
            0 <= i < relocations.len() && (forall|j: int|
                i < j < relocations.len() ==> (#[trigger] relocations[j]).offset
                    != relocations[i].offset) implies index.contains_key(
            (#[trigger] relocations[i]).offset,
        ) && index[relocations[i].offset] == relocations[i] by {
            if i < relocations.len() - 1 {
                assert(relocations[i] == front[i]);
                assert forall|j: int| i < j < front.len() implies (#[trigger] front[j]).offset
                    != front[i].offset by {
                    assert(relocations[j] == front[j]);
                }
            }
        }
        assert forall|offset: u64| #[trigger] index.contains_key(offset) implies
            index[offset].offset == offset && relocations.contains(index[offset]) by {
            if offset != last.offset {
                let entry = relocations_by_offset(front)[offset];
                let at = choose|at: int| 0 <= at < front.len() && front[at] == entry;
                assert(relocations[at] == entry);
            }
        }
    }
}

/// Whether an object agrees with itself: everything stands under its own name,
/// address, offset or index, every program starts its section and is loaded on
/// the terms of the object, and no group of relocations is empty.
pub open spec fn consistent(object: ObjectView) -> bool {
    &&& forall|name: Seq<char>| #[trigger]
        object.maps.contains_key(name) ==> object.maps[name].name == name
    &&& forall|name: Seq<char>| #[trigger]
        object.programs.contains_key(name) ==> {
            &&& object.programs[name].function.name == name
            &&& object.programs[name].function.section_offset == 0
            &&& object.programs[name].license == object.license
            &&& object.programs[name].kernel_version == object.kernel_version
        }
    &&& forall|address: u64| #[trigger]
        object.functions.contains_key(address) ==> object.functions[address].address == address
    &&& forall|index: usize| #[trigger]
        object.relocations.contains_key(index) ==> object.relocations[index].dom()
            != Set::<u64>::empty()
    &&& forall|index: usize, offset: u64|
        object.relocations.contains_key(index) && #[trigger] object.relocations[index].contains_key(
            offset,
        ) ==> object.relocations[index][offset].offset == offset
    &&& forall|index: usize| #[trigger]
        object.symbols_by_index.contains_key(index) ==> object.symbols_by_index[index].index
            == index
}

proof fn lemma_added_functions_agree(functions: Map<u64, FunctionView>, added: Seq<FunctionView>)
    requires
        forall|address: u64| #[trigger]
            functions.contains_key(address) ==> functions[address].address == address,
    ensures
        forall|address: u64| #[trigger]
            with_functions(functions, added).contains_key(address) ==> with_functions(
                functions,
                added,
            )[address].address == address,
    decreases added.len(),
{
    if added.len() > 0 {
        let first = functions.insert(added[0].address, added[0]);
        lemma_added_functions_agree(first, added.drop_first());
        assert(with_functions(functions, added) == with_functions(first, added.drop_first()));
    }
}

/// Law: reading a section, whether it succeeds or fails, keeps an object in
/// agreement with itself.
pub proof fn law_reading_keeps_agreement<F, G>(
    object: ObjectView,
    section: SectionView,
    decoders: BtfDecoders<F, G>,
    after: ObjectView,
    result: Result<(), BpfErrorView>,
) where
    F: Fn(&[u8], Endianness) -> Result<Btf, BtfError>,
    G: Fn(&[u8], Endianness) -> Result<BtfExt, BtfError>,

    requires
        consistent(object),
        section_read(object, section, decoders, after, result),
    ensures
        consistent(after),
{
    law_last_relocation_counts(section.relocations);
    if section.relocations.len() > 0 {
        let index = relocations_by_offset(section.relocations);
        assert(index.dom().contains(section.relocations.last().offset));
        assert(!Set::<u64>::empty().contains(section.relocations.last().offset));
    }
    let found = definitions(object.symbols_by_index, section.index);
    lemma_added_functions_agree(
        object.functions,
        functions_from(found, section, object.host, 0),
    );
}

/// Law: reading a section, whether it succeeds or fails, leaves the terms of
/// the object and its symbols as they are, and takes no map, program, function
/// or group of relocations away.
pub proof fn law_reading_only_adds<F, G>(
    object: ObjectView,
    section: SectionView,
    decoders: BtfDecoders<F, G>,
    after: ObjectView,
    result: Result<(), BpfErrorView>,
) where
    F: Fn(&[u8], Endianness) -> Result<Btf, BtfError>,
    G: Fn(&[u8], Endianness) -> Result<BtfExt, BtfError>,

    requires
        section_read(object, section, decoders, after, result),
    ensures
        after.endianness == object.endianness,
        after.host == object.host,
        after.license == object.license,
        after.kernel_version == object.kernel_version,
        after.symbols_by_index == object.symbols_by_index,
        object.maps.dom().subset_of(after.maps.dom()),
        object.programs.dom().subset_of(after.programs.dom()),
        object.functions.dom().subset_of(after.functions.dom()),
        object.relocations.dom().subset_of(after.relocations.dom()),
{
    let found = definitions(object.symbols_by_index, section.index);
    lemma_functions_stay(object.functions, functions_from(found, section, object.host, 0));
}

proof fn lemma_functions_stay(functions: Map<u64, FunctionView>, added: Seq<FunctionView>)
    ensures
        functions.dom().subset_of(with_functions(functions, added).dom()),
    decreases added.len(),
{
    if added.len() > 0 {
        let first = functions.insert(added[0].address, added[0]);
        lemma_functions_stay(first, added.drop_first());
        assert(functions.dom().subset_of(first.dom()));
    }
}

/// Law: a section that is refused leaves the object as it is, but for the
/// functions of a code section, which is read as far as possible.
pub proof fn law_refusal_changes_functions_only<F, G>(
    object: ObjectView,
    section: SectionView,
    decoders: BtfDecoders<F, G>,
    after: ObjectView,
    error: BpfErrorView,
) where
    F: Fn(&[u8], Endianness) -> Result<Btf, BtfError>,
    G: Fn(&[u8], Endianness) -> Result<BtfExt, BtfError>,

    requires
        section_read(object, section, decoders, after, Err(error)),
    ensures
        after == (ObjectView { functions: after.functions, ..object }),
        !(role_of(section.name) is Text) ==> after == object,
{
}

/// Law: the same section cannot be read in two ways, except where symbols
/// share addresses or type information is decoded.
pub proof fn law_reading_is_determined<F, G>(
    object: ObjectView,
    section: SectionView,
    decoders: BtfDecoders<F, G>,
    after: ObjectView,
    result: Result<(), BpfErrorView>,
    other_after: ObjectView,
    other_result: Result<(), BpfErrorView>,
) where
    F: Fn(&[u8], Endianness) -> Result<Btf, BtfError>,
    G: Fn(&[u8], Endianness) -> Result<BtfExt, BtfError>,

    requires
        section_read(object, section, decoders, after, result),
        section_read(object, section, decoders, other_after, other_result),
        !(role_of(section.name) is Btf),
        !(role_of(section.name) is BtfExt),
        role_of(section.name) is Text ==> !in_conflict(object.symbols_by_index, section.index),
    ensures
        after == other_after,
        result == other_result,
{
    if let (Ok(done), Ok(other_done)) = (result, other_result) {
        assert(done == other_done);
    }
}

} // verus!
