//! What reading a section does to an object, in terms of the section, the
//! symbols and the object before and after.

use crate::btf::{Btf, BtfDecoders, BtfExt};
use crate::code::{
    code_fits, defined_at, definitions, end_from, function_at, functions_from, in_conflict,
    shares_address, size_at, stop_at, with_functions, CodeEnd,
};
use crate::endian::Endianness;
use crate::error::{BpfErrorView, BtfError, ParseErrorView};
use crate::insn::{bpf_insn, code_bytes, insn_of, law_code_round_trip};
use crate::kind::{kind_name, kind_of, law_kind_round_trip, ProgramKind};
use crate::map::{map_of, names_data};
use crate::object::{
    empty_object, program_of, relocations_by_offset, role_of, section_read, ObjectView,
    SectionRole,
};
use crate::part_laws::{law_instructions_of_code, law_named_kinds, law_names_of_variables};
use crate::program::FunctionView;
use crate::section::{SectionView, SymbolView};
use crate::section_laws::{
    law_functions_are_found, law_functions_are_ordered, law_no_slash_no_split,
    law_split_at_last_slash,
};
use crate::version::KernelVersion;
use vstd::prelude::*;

verus! {

/// Law: a new object has the terms that it was made with, and nothing else.
pub proof fn law_empty_object(
    endianness: Endianness,
    host: Endianness,
    license: Seq<u8>,
    kernel_version: KernelVersion,
)
    ensures
        ({
            let object = empty_object(endianness, host, license, kernel_version);
            &&& object.endianness == endianness
            &&& object.host == host
            &&& object.license == license
            &&& object.kernel_version == kernel_version
            &&& object.btf is None
            &&& object.btf_ext is None
            &&& object.maps.dom() == Set::<Seq<char>>::empty()
            &&& object.programs.dom() == Set::<Seq<char>>::empty()
            &&& object.functions.dom() == Set::<u64>::empty()
            &&& object.relocations.dom() == Set::<usize>::empty()
            &&& object.symbols_by_index.dom() == Set::<usize>::empty()
        }),
{
}

/// Law: what a name without a slash makes of a section. Four names are those of
/// programs, `.bss`, `.data...` and `.rodata...` are variables, `.text...` is
/// code, `.BTF` and `.BTF.ext` are type information, and all others nothing.
pub proof fn law_roles_without_slash(name: Seq<char>)
    requires
        !name.contains('/'),
    ensures
        name == "xdp"@ || name == "sk_msg"@ || name == "sockops"@ || name == "classifier"@
            <==> role_of(name) is Program,
        role_of(name) is Program ==> role_of(name) == (SectionRole::Program { kind: name, name }),
        role_of(name) is Data <==> {
            ||| name == seq!['.', 'b', 's', 's']
            ||| name.len() >= 5 && name.take(5) == seq!['.', 'd', 'a', 't', 'a']
            ||| name.len() >= 7 && name.take(7) == seq!['.', 'r', 'o', 'd', 'a', 't', 'a']
        },
        role_of(name) is Text <==> name.len() >= 5 && name.take(5) == seq![
            '.',
            't',
            'e',
            'x',
            't',
        ],
        role_of(name) is Btf <==> name == ".BTF"@,
        role_of(name) is BtfExt <==> name == ".BTF.ext"@,
        !(role_of(name) is MapDefinition),
{
    law_no_slash_no_split(name);
    law_names_of_variables(name);
    reveal_strlit("xdp");
    reveal_strlit("sk_msg");
    reveal_strlit("sockops");
    reveal_strlit("classifier");
    reveal_strlit(".text");
    reveal_strlit(".BTF");
    reveal_strlit(".BTF.ext");
    assert("xdp"@[0] == 'x' && "sk_msg"@[0] == 's' && "sockops"@[0] == 's' && "classifier"@[0]
        == 'c');
    assert("xdp"@.len() == 3 && "sk_msg"@.len() == 6 && "sockops"@.len() == 7
        && "classifier"@.len() == 10);
    assert(".BTF"@[1] == 'B' && ".BTF.ext"@[1] == 'B' && ".BTF"@.len() == 4 && ".BTF.ext"@.len()
        == 8);
    assert(".text"@ =~= seq!['.', 't', 'e', 'x', 't']);
    if name.len() >= 5 {
        assert(name.take(5) == name.subrange(0, 5));
        assert(name.take(5)[0] == name[0] && name.take(5)[1] == name[1]);
    }
    if name.len() >= 7 {
        assert(name.take(7)[0] == name[0] && name.take(7)[1] == name[1]);
    }
}

/// Law: what a name with slashes makes of a section, by what stands before the
/// last slash: `maps` defines a map, the name of a kind or `cgroup/skb` makes a
/// program, and all others nothing. What stands after the slash is the name.
pub proof fn law_roles_with_slash(front: Seq<char>, back: Seq<char>)
    requires
        !back.contains('/'),
    ensures
        ({
            let role = role_of(front.push('/') + back);
            &&& role is MapDefinition <==> front == "maps"@
            &&& role is MapDefinition ==> role == (SectionRole::MapDefinition { name: back })
            &&& role is Program <==> kind_of(front) is Ok || front == "cgroup/skb"@
            &&& role is Program ==> role == (SectionRole::Program { kind: front, name: back })
            &&& !(role is Data || role is Text || role is Btf || role is BtfExt)
        }),
{
    law_split_at_last_slash(front, back);
    law_named_kinds(front);
    crate::section_laws::lemma_names_of_no_kind(kind_or_any(front));
    reveal_strlit("maps");
    reveal_strlit("cgroup/skb");
    assert("maps"@.len() == 4 && "cgroup/skb"@.len() == 10);
}

/// The kind that goes by a name, or some kind where none does.
spec fn kind_or_any(name: Seq<char>) -> ProgramKind {
    kind_of(name)->Ok_0
}

/// Law: a program is read exactly where its kind is known and its code is whole.
/// It has the terms of the object, the kind and the name that it was read by,
/// the address and the number of its section, and one instruction for every
/// eight bytes: instruction `i` is what the bytes from `8 * i` on stand for in
/// the memory of this machine.
pub proof fn law_program_of_a_section(
    object: ObjectView,
    section: SectionView,
    kind: Seq<char>,
    name: Seq<char>,
)
    ensures
        program_of(object, section, kind, name) is Ok <==> kind_of(kind) is Ok
            && section.data.len() % 8 == 0,
        kind_of(kind) matches Err(error) ==> program_of(object, section, kind, name) == Err::<
            crate::program::ProgramView,
            ParseErrorView,
        >(error),
        kind_of(kind) is Ok && section.data.len() % 8 != 0 ==> program_of(
            object,
            section,
            kind,
            name,
        ) == Err::<crate::program::ProgramView, ParseErrorView>(
            ParseErrorView::InvalidProgramCode,
        ),
        program_of(object, section, kind, name) matches Ok(program) ==> {
            &&& program.license == object.license
            &&& program.kernel_version == object.kernel_version
            &&& kind_of(kind) == Ok::<ProgramKind, ParseErrorView>(program.kind)
            &&& program.function.name == name
            &&& program.function.address == section.address
            &&& program.function.section_index == section.index
            &&& program.function.section_offset == 0
            &&& 8 * program.function.instructions.len() == section.data.len()
            &&& forall|i: int|
                0 <= i < program.function.instructions.len() ==> (
                #[trigger] program.function.instructions[i]) == insn_of(
                    section.data.subrange(8 * i, 8 * i + 8),
                    object.host,
                )
        },
{
    law_instructions_of_code(section.data, object.host);
}

/// Law: the bytes of a sequence of instructions, one after the other, are read
/// as the program with that very sequence.
pub proof fn law_program_round_trip(
    object: ObjectView,
    section: SectionView,
    kind: ProgramKind,
    name: Seq<char>,
    insns: Seq<bpf_insn>,
)
    requires
        section.data == code_bytes(insns, object.host),
    ensures
        program_of(object, section, kind_name(kind), name) matches Ok(program) && program.kind
            == kind && program.function.instructions == insns,
{
    law_kind_round_trip(kind);
    law_code_round_trip(insns, object.host);
}

/// Law: reading a section of global variables or of a map puts the map that it
/// stands for under its name, in place of what was there, and does nothing
/// else; or the map is refused, and nothing changes.
pub proof fn law_reading_a_map<F, G>(
    object: ObjectView,
    section: SectionView,
    decoders: BtfDecoders<F, G>,
    after: ObjectView,
    result: Result<(), BpfErrorView>,
    name: Seq<char>,
) where
    F: Fn(&[u8], Endianness) -> Result<Btf, BtfError>,
    G: Fn(&[u8], Endianness) -> Result<BtfExt, BtfError>,

    requires
        section_read(object, section, decoders, after, result),
        role_of(section.name) == (SectionRole::MapDefinition { name }) || (role_of(
            section.name,
        ) is Data && name == section.name),
    ensures
        result is Ok <==> names_data(name) || section.data.len() >= 28,
        result is Ok ==> {
            &&& map_of(section, name, object.host) matches Ok(map)
            &&& after.maps == object.maps.insert(name, map)
        },
        result is Err ==> after.maps == object.maps && result == Err::<(), BpfErrorView>(
            BpfErrorView::ParseError(ParseErrorView::InvalidMapDefinition { name }),
        ),
        after.endianness == object.endianness,
        after.host == object.host,
        after.license == object.license,
        after.kernel_version == object.kernel_version,
        after.btf == object.btf,
        after.btf_ext == object.btf_ext,
        after.programs == object.programs,
        after.functions == object.functions,
        after.relocations == object.relocations,
        after.symbols_by_index == object.symbols_by_index,
{
    if !names_data(name) {
        crate::part_laws::law_map_by_definition(section, name, object.host);
    }
}

/// Law: reading the section of a program puts the program under its name, in
/// place of what was there, keeps its relocations under the number of the
/// section, if it has any, and does nothing else; or the program is refused,
/// and nothing changes.
pub proof fn law_reading_a_program<F, G>(
    object: ObjectView,
    section: SectionView,
    decoders: BtfDecoders<F, G>,
    after: ObjectView,
    result: Result<(), BpfErrorView>,
    kind: Seq<char>,
    name: Seq<char>,
) where
    F: Fn(&[u8], Endianness) -> Result<Btf, BtfError>,
    G: Fn(&[u8], Endianness) -> Result<BtfExt, BtfError>,

    requires
        section_read(object, section, decoders, after, result),
        role_of(section.name) == (SectionRole::Program { kind, name }),
    ensures
        result is Ok <==> kind_of(kind) is Ok && section.data.len() % 8 == 0,
        result is Ok ==> {
            &&& program_of(object, section, kind, name) matches Ok(program)
            &&& after.programs == object.programs.insert(name, program)
            &&& section.relocations.len() == 0 ==> after.relocations == object.relocations
            &&& section.relocations.len() > 0 ==> after.relocations == object.relocations.insert(
                section.index,
                relocations_by_offset(section.relocations),
            )
        },
        result matches Err(error) ==> {
            &&& after.programs == object.programs
            &&& after.relocations == object.relocations
            &&& kind_of(kind) is Err ==> error == BpfErrorView::ParseError(
                ParseErrorView::InvalidProgramKind { kind },
            )
            &&& kind_of(kind) is Ok ==> error == BpfErrorView::ParseError(
                ParseErrorView::InvalidProgramCode,
            )
        },
        after.endianness == object.endianness,
        after.host == object.host,
        after.license == object.license,
        after.kernel_version == object.kernel_version,
        after.btf == object.btf,
        after.btf_ext == object.btf_ext,
        after.maps == object.maps,
        after.functions == object.functions,
        after.symbols_by_index == object.symbols_by_index,
{
    law_program_of_a_section(object, section, kind, name);
    law_named_kinds(kind);
}

/// Law: reading a section of type information asks the decoder about its data,
/// in the byte order of the file. What the decoder gives is kept, and nothing
/// else changes; or its error is handed on, and nothing changes.
pub proof fn law_reading_type_information<F, G>(
    object: ObjectView,
    section: SectionView,
    decoders: BtfDecoders<F, G>,
    after: ObjectView,
    result: Result<(), BpfErrorView>,
) where
    F: Fn(&[u8], Endianness) -> Result<Btf, BtfError>,
    G: Fn(&[u8], Endianness) -> Result<BtfExt, BtfError>,

    requires
        section_read(object, section, decoders, after, result),
    ensures
        role_of(section.name) is Btf ==> exists|slice: &[u8], reply: Result<Btf, BtfError>|
            slice@ == section.data && #[trigger] call_ensures(
                decoders.btf,
                (slice, object.endianness),
                reply,
            ) && (match reply {
                Ok(btf) => result is Ok && after == (ObjectView { btf: Some(btf), ..object }),
                Err(error) => result == Err::<(), BpfErrorView>(BpfErrorView::BtfError(error))
                    && after == object,
            }),
        role_of(section.name) is BtfExt ==> exists|slice: &[u8], reply: Result<BtfExt, BtfError>|
            slice@ == section.data && #[trigger] call_ensures(
                decoders.btf_ext,
                (slice, object.endianness),
                reply,
            ) && (match reply {
                Ok(btf_ext) => result is Ok && after == (ObjectView {
                    btf_ext: Some(btf_ext),
                    ..object
                }),
                Err(error) => result == Err::<(), BpfErrorView>(BpfErrorView::BtfError(error))
                    && after == object,
            }),
{
    if role_of(section.name) is Btf {
        let reply = choose|reply: Result<Btf, BtfError>| #[trigger]
            decoders.btf_replies(section.data, object.endianness, reply)
                && crate::object::btf_taken(object, reply, after, result);
        let slice = choose|slice: &[u8]|
            slice@ == section.data && #[trigger] call_ensures(
                decoders.btf,
                (slice, object.endianness),
                reply,
            );
        assert(call_ensures(decoders.btf, (slice, object.endianness), reply));
    }
    if role_of(section.name) is BtfExt {
        let reply = choose|reply: Result<BtfExt, BtfError>| #[trigger]
            decoders.btf_ext_replies(section.data, object.endianness, reply)
                && crate::object::btf_ext_taken(object, reply, after, result);
        let slice = choose|slice: &[u8]|
            slice@ == section.data && #[trigger] call_ensures(
                decoders.btf_ext,
                (slice, object.endianness),
                reply,
            );
        assert(call_ensures(decoders.btf_ext, (slice, object.endianness), reply));
    }
}

/// Law: a section that is nothing to an object is read without a change.
pub proof fn law_reading_nothing<F, G>(
    object: ObjectView,
    section: SectionView,
    decoders: BtfDecoders<F, G>,
    after: ObjectView,
    result: Result<(), BpfErrorView>,
) where
    F: Fn(&[u8], Endianness) -> Result<Btf, BtfError>,
    G: Fn(&[u8], Endianness) -> Result<BtfExt, BtfError>,

    requires
        section_read(object, section, decoders, after, result),
        role_of(section.name) is Other,
    ensures
        result is Ok,
        after == object,
{
}

/// Law: a section is in conflict exactly where two of the symbols that are
/// defined in it have one address.
pub proof fn law_conflicts(symbols: Map<usize, SymbolView>, section_index: usize)
    ensures
        in_conflict(symbols, section_index) <==> exists|i: usize, j: usize|
            #![trigger symbols[i], symbols[j]]
            i != j && symbols.contains_key(i) && symbols.contains_key(j) && symbols[i].is_definition
                && symbols[j].is_definition && symbols[i].section_index == Some(section_index)
                && symbols[j].section_index == Some(section_index) && symbols[i].address
                == symbols[j].address,
{
    if in_conflict(symbols, section_index) {
        let address = choose|address: u64| shares_address(symbols, section_index, address);
        let (i, j) = choose|i: usize, j: usize|
            i != j && #[trigger] defined_at(symbols, section_index, address, i)
                && #[trigger] defined_at(symbols, section_index, address, j);
        assert(symbols[i].address == symbols[j].address);
    }
    if exists|i: usize, j: usize|
        #![trigger symbols[i], symbols[j]]
        i != j && symbols.contains_key(i) && symbols.contains_key(j) && symbols[i].is_definition
            && symbols[j].is_definition && symbols[i].section_index == Some(section_index)
            && symbols[j].section_index == Some(section_index) && symbols[i].address
            == symbols[j].address {
        let (i, j) = choose|i: usize, j: usize|
            #![trigger symbols[i], symbols[j]]
            i != j && symbols.contains_key(i) && symbols.contains_key(j) && symbols[i].is_definition
                && symbols[j].is_definition && symbols[i].section_index == Some(section_index)
                && symbols[j].section_index == Some(section_index) && symbols[i].address
                == symbols[j].address;
        assert(defined_at(symbols, section_index, symbols[i].address, i));
        assert(defined_at(symbols, section_index, symbols[i].address, j));
        assert(shares_address(symbols, section_index, symbols[i].address));
    }
}

/// Law: what is found at an address of a section is a symbol of the table that
/// is defined in that section, at that address; and where there is one, one is
/// found.
pub proof fn law_definitions(symbols: Map<usize, SymbolView>, section_index: usize, address: u64)
    ensures
        definitions(symbols, section_index).contains_key(address) ==> exists|i: usize|
            symbols.contains_key(i) && (#[trigger] symbols[i]).is_definition
                && symbols[i].section_index == Some(section_index) && symbols[i].address == address
                && definitions(symbols, section_index)[address] == symbols[i],
        forall|i: usize|
            symbols.contains_key(i) && (#[trigger] symbols[i]).is_definition
                && symbols[i].section_index == Some(section_index) && symbols[i].address == address
                ==> definitions(symbols, section_index).contains_key(address),
{
    if definitions(symbols, section_index).contains_key(address) {
        let i = choose|i: usize| defined_at(symbols, section_index, address, i);
        assert(definitions(symbols, section_index)[address] == symbols[i]);
    }
    assert forall|i: usize|
        symbols.contains_key(i) && (#[trigger] symbols[i]).is_definition && symbols[i].section_index
            == Some(section_index) && symbols[i].address == address implies definitions(
        symbols,
        section_index,
    ).contains_key(address) by {
        assert(defined_at(symbols, section_index, address, i));
    }
}

/// Law: each function of a code section is the stretch of it that a symbol lays
/// out: it carries the whole name of a symbol of the table that is defined in
/// this section at the address of the function, it is as long as that symbol
/// says, and its instructions are what the bytes there stand for.
pub proof fn law_functions_have_symbols(
    symbols: Map<usize, SymbolView>,
    section: SectionView,
    host: Endianness,
    offset: int,
    k: int,
)
    requires
        0 <= offset,
        section.data.len() <= usize::MAX,
        0 <= k < functions_from(
            definitions(symbols, section.index),
            section,
            host,
            offset,
        ).len(),
    ensures
        ({
            let function = functions_from(
                definitions(symbols, section.index),
                section,
                host,
                offset,
            )[k];
            &&& function.section_index == section.index
            &&& function.address == section.address + function.section_offset
            &&& function.section_offset + 8 * function.instructions.len() <= section.data.len()
            &&& function.instructions.len() > 0
            &&& exists|i: usize|
                symbols.contains_key(i) && (#[trigger] symbols[i]).is_definition
                    && symbols[i].section_index == Some(section.index) && symbols[i].address
                    == function.address && symbols[i].name == Some(function.name)
                    && symbols[i].size == 8 * function.instructions.len()
            &&& forall|j: int|
                0 <= j < function.instructions.len() ==> (#[trigger] function.instructions[j])
                    == insn_of(
                    section.data.subrange(
                        function.section_offset + 8 * j,
                        function.section_offset + 8 * j + 8,
                    ),
                    host,
                )
        }),
    decreases section.data.len() - offset,
{
    let found = definitions(symbols, section.index);
    let functions = functions_from(found, section, host, offset);
    let size = size_at(found, section, offset);
    let rest = functions_from(found, section, host, offset + size);
    assert(functions == seq![function_at(found, section, host, offset)] + rest);
    if k == 0 {
        let function = functions[0];
        let bytes = section.data.subrange(offset, offset + size);
        law_definitions(symbols, section.index, function.address);
        law_instructions_of_code(bytes, host);
        assert forall|j: int| 0 <= j < function.instructions.len() implies (
        #[trigger] function.instructions[j]) == insn_of(
            section.data.subrange(
                function.section_offset + 8 * j,
                function.section_offset + 8 * j + 8,
            ),
            host,
        ) by {
            assert(bytes.subrange(8 * j, 8 * j + 8) == section.data.subrange(
                offset + 8 * j,
                offset + 8 * j + 8,
            ));
        }
    } else {
        assert(functions[k] == rest[k - 1]);
        law_functions_have_symbols(symbols, section, host, offset + size, k - 1);
    }
}

/// Where the functions of a code section end that start at `offset`.
pub open spec fn end_of_functions(functions: Seq<FunctionView>, offset: int) -> int {
    if functions.len() == 0 {
        offset
    } else {
        functions.last().section_offset + 8 * functions.last().instructions.len()
    }
}

/// Law: the functions of a code section lie side by side: the first one starts
/// at the offset that reading starts at, and each of the others where the one
/// before it ends.
pub proof fn law_functions_lie_side_by_side(
    found: Map<u64, SymbolView>,
    section: SectionView,
    host: Endianness,
    offset: int,
)
    requires
        0 <= offset,
        section.data.len() <= usize::MAX,
    ensures
        ({
            let functions = functions_from(found, section, host, offset);
            &&& functions.len() > 0 ==> functions[0].section_offset == offset
            &&& forall|j: int, k: int|
                0 <= j && k == j + 1 && k < functions.len() ==> (
                #[trigger] functions[k]).section_offset == (
                #[trigger] functions[j]).section_offset + 8 * functions[j].instructions.len()
        }),
    decreases section.data.len() - offset,
{
    let functions = functions_from(found, section, host, offset);
    if functions.len() > 0 {
        let size = size_at(found, section, offset);
        let rest = functions_from(found, section, host, offset + size);
        law_functions_lie_side_by_side(found, section, host, offset + size);
        assert(functions == seq![function_at(found, section, host, offset)] + rest);
        assert forall|j: int, k: int| 0 <= j && k == j + 1 && k < functions.len() implies (
        #[trigger] functions[k]).section_offset == (#[trigger] functions[j]).section_offset + 8
            * functions[j].instructions.len() by {
            assert(functions[k] == rest[j]);
            if j > 0 {
                assert(functions[j] == rest[j - 1]);
            }
        }
    }
}

/// Law: the reading of a code section ends behind the last function. Either
/// that is the end of the section; or there is no symbol there, or an empty one,
/// or one that is no whole number of instructions, each of which is an error of
/// its own; or the symbol there has no name or reaches too far, or there are no
/// such addresses.
pub proof fn law_how_code_ends(
    found: Map<u64, SymbolView>,
    section: SectionView,
    host: Endianness,
    offset: int,
)
    requires
        0 <= offset <= section.data.len() <= usize::MAX,
    ensures
        ({
            let end = end_of_functions(functions_from(found, section, host, offset), offset);
            let address = (section.address + end) as u64;
            match end_from(found, section, offset) {
                CodeEnd::Complete => end == section.data.len(),
                CodeEnd::Fails(error) => {
                    &&& offset <= end < section.data.len()
                    &&& section.address + end <= u64::MAX
                    &&& if !found.contains_key(address) {
                        error == (ParseErrorView::UnknownSymbol {
                            section_index: section.index,
                            address,
                        })
                    } else if found[address].size == 0 {
                        error == (ParseErrorView::InvalidSymbol {
                            index: found[address].index,
                            name: found[address].name,
                        })
                    } else {
                        &&& error == ParseErrorView::InvalidProgramCode
                        &&& found[address].name is Some
                        &&& found[address].size % 8 != 0
                        &&& end + found[address].size <= section.data.len()
                    }
                },
                CodeEnd::Broken => {
                    &&& offset <= end < section.data.len()
                    &&& section.address + end > u64::MAX || (found.contains_key(address)
                        && found[address].size > 0 && (found[address].name is None || end
                        + found[address].size > section.data.len()))
                },
            }
        }),
    decreases section.data.len() - offset,
{
    if offset < section.data.len() && stop_at(found, section, offset) is None {
        let size = size_at(found, section, offset);
        let functions = functions_from(found, section, host, offset);
        let rest = functions_from(found, section, host, offset + size);
        law_how_code_ends(found, section, host, offset + size);
        assert(functions == seq![function_at(found, section, host, offset)] + rest);
        assert(8 * functions[0].instructions.len() == size);
        if rest.len() > 0 {
            assert(functions.last() == rest.last());
        } else {
            assert(functions.last() == functions[0]);
        }
    }
}

/// Law: a code section fails to fit its symbols only where no two of them
/// conflict, and reading comes to a place that has no address, or has a symbol
/// without a name or one that reaches beyond the end of the section.
pub proof fn law_code_that_does_not_fit(symbols: Map<usize, SymbolView>, section: SectionView)
    requires
        section.data.len() <= usize::MAX,
    ensures
        !code_fits(symbols, section) ==> !in_conflict(symbols, section.index) && exists|
            at: int,
        |
            #![trigger section.data[at]]
            0 <= at < section.data.len() && (section.address + at > u64::MAX || exists|i: usize|
                symbols.contains_key(i) && (#[trigger] symbols[i]).is_definition
                    && symbols[i].section_index == Some(section.index) && symbols[i].address
                    == section.address + at && symbols[i].size > 0 && (symbols[i].name is None || at
                    + symbols[i].size > section.data.len())),
        in_conflict(symbols, section.index) || section.data.len() == 0 ==> code_fits(
            symbols,
            section,
        ),
{
    if !code_fits(symbols, section) {
        let found = definitions(symbols, section.index);
        let host = Endianness::Little;
        law_how_code_ends(found, section, host, 0);
        let at = end_of_functions(functions_from(found, section, host, 0), 0);
        assert(0 <= at < section.data.len());
        let byte = section.data[at];
        if section.address + at <= u64::MAX {
            law_definitions(symbols, section.index, (section.address + at) as u64);
        }
    }
}

/// Law: reading a code section changes functions and relocations only. A
/// function that is new or has changed carries the whole name of a symbol of
/// the object that is defined in this section at the address of the function,
/// is as long as that symbol says, and has the instructions that the bytes of
/// the section at its offset stand for.
pub proof fn law_functions_that_are_read<F, G>(
    object: ObjectView,
    section: SectionView,
    decoders: BtfDecoders<F, G>,
    after: ObjectView,
    result: Result<(), BpfErrorView>,
    address: u64,
) where
    F: Fn(&[u8], Endianness) -> Result<Btf, BtfError>,
    G: Fn(&[u8], Endianness) -> Result<BtfExt, BtfError>,

    requires
        section_read(object, section, decoders, after, result),
        role_of(section.name) is Text,
        section.data.len() <= usize::MAX,
    ensures
        after == (ObjectView {
            functions: after.functions,
            relocations: after.relocations,
            ..object
        }),
        object.functions.contains_key(address) ==> after.functions.contains_key(address),
        after.functions.contains_key(address) && !(object.functions.contains_key(address)
            && object.functions[address] == after.functions[address]) ==> {
            let function = after.functions[address];
            &&& function.address == address
            &&& function.section_index == section.index
            &&& address == section.address + function.section_offset
            &&& function.section_offset + 8 * function.instructions.len() <= section.data.len()
            &&& exists|i: usize|
                object.symbols_by_index.contains_key(i) && (
                #[trigger] object.symbols_by_index[i]).is_definition
                    && object.symbols_by_index[i].section_index == Some(section.index)
                    && object.symbols_by_index[i].address == address
                    && object.symbols_by_index[i].name == Some(function.name)
                    && object.symbols_by_index[i].size == 8 * function.instructions.len()
            &&& forall|j: int|
                0 <= j < function.instructions.len() ==> (#[trigger] function.instructions[j])
                    == insn_of(
                    section.data.subrange(
                        function.section_offset + 8 * j,
                        function.section_offset + 8 * j + 8,
                    ),
                    object.host,
                )
        },
{
    let symbols = object.symbols_by_index;
    if !in_conflict(symbols, section.index) {
        let found = definitions(symbols, section.index);
        let functions = functions_from(found, section, object.host, 0);
        law_functions_are_ordered(found, section, object.host, 0);
        law_functions_are_found(object.functions, functions);
        if exists|k: int| 0 <= k < functions.len() && (#[trigger] functions[k]).address == address {
            let k = choose|k: int|
                0 <= k < functions.len() && (#[trigger] functions[k]).address == address;
            law_functions_have_symbols(symbols, section, object.host, 0, k);
        } else {
            assert(with_functions(object.functions, functions).contains_key(address)
                <==> object.functions.contains_key(address));
        }
    }
}

/// Law: where a code section is read without an error, each of its instructions
/// is in a function of the object: its length is a multiple of eight, and the
/// eight bytes at `at` are an instruction of the function that spans them, at
/// the place in it that belongs to them.
pub proof fn law_all_code_is_read<F, G>(
    object: ObjectView,
    section: SectionView,
    decoders: BtfDecoders<F, G>,
    after: ObjectView,
    at: int,
) where
    F: Fn(&[u8], Endianness) -> Result<Btf, BtfError>,
    G: Fn(&[u8], Endianness) -> Result<BtfExt, BtfError>,

    requires
        section_read(object, section, decoders, after, Ok(())),
        role_of(section.name) is Text,
        section.data.len() <= usize::MAX,
        0 <= at < section.data.len(),
        at % 8 == 0,
    ensures
        section.data.len() % 8 == 0,
        exists|address: u64|
            after.functions.contains_key(address) && {
                let function = #[trigger] after.functions[address];
                &&& function.address == address
                &&& function.section_index == section.index
                &&& address == section.address + function.section_offset
                &&& function.section_offset <= at < function.section_offset + 8
                    * function.instructions.len()
                &&& (at - function.section_offset) % 8 == 0
                &&& function.instructions[(at - function.section_offset) / 8] == insn_of(
                    section.data.subrange(at, at + 8),
                    object.host,
                )
            },
{
    let symbols = object.symbols_by_index;
    let found = definitions(symbols, section.index);
    let functions = functions_from(found, section, object.host, 0);
    let k = lemma_instruction_of_code(symbols, section, object.host, at);
    let function = functions[k];
    assert(after.functions == with_functions(object.functions, functions));
    assert(after.functions.contains_key(function.address) && after.functions[function.address]
        == function) by {
        law_functions_are_ordered(found, section, object.host, 0);
        law_functions_are_found(object.functions, functions);
    }
}

/// The function of a code section that has the instruction at a place.
#[verifier::rlimit(40)]
#[verifier::spinoff_prover]
proof fn lemma_instruction_of_code(
    symbols: Map<usize, SymbolView>,
    section: SectionView,
    host: Endianness,
    at: int,
) -> (k: int)
    requires
        section.data.len() <= usize::MAX,
        end_from(definitions(symbols, section.index), section, 0) is Complete,
        0 <= at < section.data.len(),
        at % 8 == 0,
    ensures
        section.data.len() % 8 == 0,
        0 <= k < functions_from(definitions(symbols, section.index), section, host, 0).len(),
        ({
            let function = functions_from(
                definitions(symbols, section.index),
                section,
                host,
                0,
            )[k];
            &&& function.section_index == section.index
            &&& function.address == section.address + function.section_offset
            &&& function.section_offset <= at < function.section_offset + 8
                * function.instructions.len()
            &&& (at - function.section_offset) % 8 == 0
            &&& function.instructions[(at - function.section_offset) / 8] == insn_of(
                section.data.subrange(at, at + 8),
                host,
            )
        }),
{
    let found = definitions(symbols, section.index);
    let functions = functions_from(found, section, host, 0);
    law_functions_lie_side_by_side(found, section, host, 0);
    assert(functions.len() > 0 && functions.last().section_offset + 8
        * functions.last().instructions.len() == section.data.len()) by {
        law_how_code_ends(found, section, host, 0);
    }
    lemma_offsets_are_whole(functions, functions.len() - 1);
    let k = lemma_spanning_function(functions, section.data.len() as int, at);
    let function = functions[k];
    let j = (at - function.section_offset) / 8;
    assert(8 * j == at - function.section_offset);
    law_functions_have_symbols(symbols, section, host, 0, k);
    assert(function.instructions[j] == insn_of(
        section.data.subrange(function.section_offset + 8 * j, function.section_offset + 8 * j + 8),
        host,
    ));
    k
}

/// Functions that lie side by side from the start of a section on start at
/// multiples of eight.
proof fn lemma_offsets_are_whole(functions: Seq<FunctionView>, k: int)
    requires
        0 <= k < functions.len(),
        functions[0].section_offset == 0,
        forall|j: int, k: int|
            0 <= j && k == j + 1 && k < functions.len() ==> (
            #[trigger] functions[k]).section_offset == (#[trigger] functions[j]).section_offset + 8
                * functions[j].instructions.len(),
    ensures
        functions[k].section_offset % 8 == 0,
    decreases k,
{
    if k > 0 {
        lemma_offsets_are_whole(functions, k - 1);
        assert(functions[k].section_offset == functions[k - 1].section_offset + 8 * functions[k
            - 1].instructions.len());
    }
}

/// The function that spans a place of a section.
proof fn lemma_spanning_function(functions: Seq<FunctionView>, end: int, at: int) -> (k: int)
    requires
        functions.len() > 0,
        functions[0].section_offset == 0,
        forall|j: int, k: int|
            0 <= j && k == j + 1 && k < functions.len() ==> (
            #[trigger] functions[k]).section_offset == (#[trigger] functions[j]).section_offset + 8
                * functions[j].instructions.len(),
        functions.last().section_offset + 8 * functions.last().instructions.len() == end,
        0 <= at < end,
        at % 8 == 0,
    ensures
        0 <= k < functions.len(),
        functions[k].section_offset <= at < functions[k].section_offset + 8
            * functions[k].instructions.len(),
        (at - functions[k].section_offset) % 8 == 0,
    decreases functions.len(),
{
    let last = functions.len() - 1;
    lemma_offsets_are_whole(functions, last);
    if functions[last].section_offset <= at {
        last
    } else {
        let front = functions.drop_last();
        assert(functions[last].section_offset == functions[last - 1].section_offset + 8
            * functions[last - 1].instructions.len());
        assert forall|j: int, k: int| 0 <= j && k == j + 1 && k < front.len() implies (
        #[trigger] front[k]).section_offset == (#[trigger] front[j]).section_offset + 8
            * front[j].instructions.len() by {
            assert(front[k] == functions[k] && front[j] == functions[j]);
        }
        lemma_spanning_function(front, functions[last].section_offset as int, at)
    }
}

/// Law: where symbols of a code section conflict, it is refused as a whole.
/// Otherwise all functions up to the end or to the first fault are in the
/// object, and it is read without an error exactly where they reach its end.
pub proof fn law_code_is_read_up_to_a_fault<F, G>(
    object: ObjectView,
    section: SectionView,
    decoders: BtfDecoders<F, G>,
    after: ObjectView,
    result: Result<(), BpfErrorView>,
    k: int,
) where
    F: Fn(&[u8], Endianness) -> Result<Btf, BtfError>,
    G: Fn(&[u8], Endianness) -> Result<BtfExt, BtfError>,

    requires
        section_read(object, section, decoders, after, result),
        role_of(section.name) is Text,
        section.data.len() <= usize::MAX,
    ensures
        in_conflict(object.symbols_by_index, section.index) ==> result is Err && after == object,
        !in_conflict(object.symbols_by_index, section.index) ==> {
            let functions = functions_from(
                definitions(object.symbols_by_index, section.index),
                section,
                object.host,
                0,
            );
            &&& result is Ok <==> end_of_functions(functions, 0) == section.data.len()
            &&& 0 <= k < functions.len() ==> after.functions.contains_key(functions[k].address)
                && after.functions[functions[k].address] == functions[k]
        },
{
    if !in_conflict(object.symbols_by_index, section.index) {
        let found = definitions(object.symbols_by_index, section.index);
        let functions = functions_from(found, section, object.host, 0);
        law_how_code_ends(found, section, object.host, 0);
        law_functions_are_ordered(found, section, object.host, 0);
        law_functions_are_found(object.functions, functions);
        if 0 <= k < functions.len() {
            assert(with_functions(object.functions, functions).contains_key(functions[k].address));
        }
    }
}

/// Law: the relocations of a code section are kept under its number where it is
/// read without an error and has any, and not at all where it is refused.
pub proof fn law_relocations_of_code<F, G>(
    object: ObjectView,
    section: SectionView,
    decoders: BtfDecoders<F, G>,
    after: ObjectView,
    result: Result<(), BpfErrorView>,
) where
    F: Fn(&[u8], Endianness) -> Result<Btf, BtfError>,
    G: Fn(&[u8], Endianness) -> Result<BtfExt, BtfError>,

    requires
        section_read(object, section, decoders, after, result),
        role_of(section.name) is Text,
    ensures
        result is Ok && section.relocations.len() > 0 ==> after.relocations
            == object.relocations.insert(
            section.index,
            relocations_by_offset(section.relocations),
        ),
        result is Err || section.relocations.len() == 0 ==> after.relocations
            == object.relocations,
{
}

/// Law: a code section is refused for one of four reasons. Two symbols that are
/// defined in it have the address in the error; or no symbol is defined in it at
/// the address in the error; or the symbol in the error is defined in it, and
/// empty; or a symbol is defined in it that is no whole number of instructions.
pub proof fn law_refusals_of_code<F, G>(
    object: ObjectView,
    section: SectionView,
    decoders: BtfDecoders<F, G>,
    after: ObjectView,
    error: BpfErrorView,
) where
    F: Fn(&[u8], Endianness) -> Result<Btf, BtfError>,
    G: Fn(&[u8], Endianness) -> Result<BtfExt, BtfError>,

    requires
        section_read(object, section, decoders, after, Err(error)),
        role_of(section.name) is Text,
        section.data.len() <= usize::MAX,
    ensures
        ({
            let symbols = object.symbols_by_index;
            match error {
                BpfErrorView::ParseError(
                    ParseErrorView::SymbolTableConflict { section_index, address },
                ) => section_index == section.index && after == object && exists|
                    i: usize,
                    j: usize,
                |
                    #![trigger symbols[i], symbols[j]]
                    i != j && symbols.contains_key(i) && symbols.contains_key(j)
                        && symbols[i].is_definition && symbols[j].is_definition
                        && symbols[i].section_index == Some(section.index)
                        && symbols[j].section_index == Some(section.index) && symbols[i].address
                        == address && symbols[j].address == address,
                BpfErrorView::ParseError(
                    ParseErrorView::UnknownSymbol { section_index, address },
                ) => section_index == section.index && section.address <= address
                    < section.address + section.data.len() && forall|i: usize|
                    symbols.contains_key(i) && (#[trigger] symbols[i]).is_definition
                        && symbols[i].section_index == Some(section.index) ==> symbols[i].address
                        != address,
                BpfErrorView::ParseError(ParseErrorView::InvalidSymbol { index, name }) => exists|
                    i: usize,
                |
                    symbols.contains_key(i) && (#[trigger] symbols[i]).is_definition
                        && symbols[i].section_index == Some(section.index) && symbols[i].size == 0
                        && symbols[i].index == index && symbols[i].name == name && section.address
                        <= symbols[i].address < section.address + section.data.len(),
                BpfErrorView::ParseError(ParseErrorView::InvalidProgramCode) => exists|i: usize|
                    symbols.contains_key(i) && (#[trigger] symbols[i]).is_definition
                        && symbols[i].section_index == Some(section.index) && symbols[i].size % 8
                        != 0 && section.address <= symbols[i].address < section.address
                        + section.data.len(),
                _ => false,
            }
        }),
{
    let symbols = object.symbols_by_index;
    if in_conflict(symbols, section.index) {
        let address = choose|address: u64|
            #![trigger shares_address(symbols, section.index, address)]
            shares_address(symbols, section.index, address) && Err::<(), BpfErrorView>(error)
                == crate::object::refused(
                ParseErrorView::SymbolTableConflict { section_index: section.index, address },
            );
        let (i, j) = choose|i: usize, j: usize|
            i != j && #[trigger] defined_at(symbols, section.index, address, i)
                && #[trigger] defined_at(symbols, section.index, address, j);
        assert(symbols[i].address == symbols[j].address);
    } else {
        let found = definitions(symbols, section.index);
        let end = end_of_functions(functions_from(found, section, object.host, 0), 0);
        law_how_code_ends(found, section, object.host, 0);
        law_definitions(symbols, section.index, (section.address + end) as u64);
    }
}

} // verus!
