//! What holds of the objects that whole files are loaded as.

use crate::btf::{Btf, BtfDecoders, BtfExt};
use crate::code::{
    definitions, end_from, functions_from, size_at, stop_at, with_functions, CodeEnd,
};
use crate::elf::ElfImageView;
use crate::endian::{is_host_order, Endianness};
use crate::error::{BpfErrorView, BtfError, ParseErrorView};
use crate::insn::insns_of;
use crate::load::{
    default_license, elf_error, first_named, fresh_object, license_in, loads, sections_read,
    symbols_by_index, version_in,
};
use crate::map::{map_of, BpfMapView};
use crate::object::{
    program_of, relocations_by_offset, role_of, section_read, ObjectView, SectionRole,
};
use crate::program::{FunctionView, ProgramView};
use crate::section::{section_of, RawSectionView, SectionView, SymbolView};
use crate::section_laws::{
    all_instructions, consistent, law_functions_are_found, law_functions_are_ordered,
    law_functions_tile_the_section, law_reading_keeps_agreement, law_reading_only_adds,
};
use crate::version::KernelVersion;
use vstd::prelude::*;

verus! {

proof fn lemma_symbols_agree(symbols: Seq<SymbolView>)
    ensures
        forall|index: usize| #[trigger]
            symbols_by_index(symbols).contains_key(index) ==> symbols_by_index(
                symbols,
            )[index].index == index,
    decreases symbols.len(),
{
    if symbols.len() > 0 {
        lemma_symbols_agree(symbols.drop_last());
    }
}

/// Whether a section can be read, and an object has a map or a program by the
/// name of the one that the section stands for, or has type information where
/// the section holds some.
pub open spec fn represented(raw: RawSectionView, object: ObjectView) -> bool {
    section_of(raw) matches Ok(section) && match role_of(section.name) {
        SectionRole::Data => object.maps.contains_key(section.name),
        SectionRole::MapDefinition { name } => object.maps.contains_key(name),
        SectionRole::Program { name, .. } => object.programs.contains_key(name),
        SectionRole::Btf => object.btf is Some,
        SectionRole::BtfExt => object.btf_ext is Some,
        SectionRole::Text => true,
        SectionRole::Other => true,
    }
}

/// The object after the first of several sections, where all can be read.
proof fn lemma_first_section<F, G>(
    object: ObjectView,
    sections: Seq<RawSectionView>,
    decoders: BtfDecoders<F, G>,
    loaded: ObjectView,
) -> (after: ObjectView) where
    F: Fn(&[u8], Endianness) -> Result<Btf, BtfError>,
    G: Fn(&[u8], Endianness) -> Result<BtfExt, BtfError>,

    requires
        sections.len() > 0,
        sections_read(
            object,
            sections,
            decoders,
            Some(Ok::<ObjectView, BpfErrorView>(loaded)),
        ),
    ensures
        section_of(sections[0]) is Ok,
        section_read(object, section_of(sections[0])->Ok_0, decoders, after, Ok(())),
        sections_read(
            after,
            sections.drop_first(),
            decoders,
            Some(Ok::<ObjectView, BpfErrorView>(loaded)),
        ),
        after.endianness == object.endianness,
        after.host == object.host,
        after.license == object.license,
        after.kernel_version == object.kernel_version,
        after.symbols_by_index == object.symbols_by_index,
{
    let outcome = Some(Ok::<ObjectView, BpfErrorView>(loaded));
    let section = section_of(sections[0])->Ok_0;
    let (after, result) = choose|after: ObjectView, result: Result<(), BpfErrorView>|
        #[trigger]
        section_read(object, section, decoders, after, result) && (match result {
            Ok(()) => sections_read(after, sections.drop_first(), decoders, outcome),
            Err(error) => outcome == Some(Err::<ObjectView, BpfErrorView>(error)),
        });
    law_reading_only_adds(object, section, decoders, after, result);
    if let Ok(done) = result {
        assert(done == ());
    }
    after
}

proof fn lemma_sections_read<F, G>(
    object: ObjectView,
    sections: Seq<RawSectionView>,
    decoders: BtfDecoders<F, G>,
    loaded: ObjectView,
) where
    F: Fn(&[u8], Endianness) -> Result<Btf, BtfError>,
    G: Fn(&[u8], Endianness) -> Result<BtfExt, BtfError>,

    requires
        sections_read(
            object,
            sections,
            decoders,
            Some(Ok::<ObjectView, BpfErrorView>(loaded)),
        ),
        consistent(object),
    ensures
        consistent(loaded),
        object.maps.dom().subset_of(loaded.maps.dom()),
        object.programs.dom().subset_of(loaded.programs.dom()),
        object.btf is Some ==> loaded.btf is Some,
        object.btf_ext is Some ==> loaded.btf_ext is Some,
        forall|i: int| 0 <= i < sections.len() ==> represented(#[trigger] sections[i], loaded),
    decreases sections.len(),
{
    if sections.len() > 0 {
        let rest = sections.drop_first();
        let section = section_of(sections[0])->Ok_0;
        let after = lemma_first_section(object, sections, decoders, loaded);
        law_reading_keeps_agreement(object, section, decoders, after, Ok(()));
        law_reading_only_adds(object, section, decoders, after, Ok(()));
        lemma_sections_read(after, rest, decoders, loaded);
        assert(represented(sections[0], after));
        assert forall|i: int| 0 <= i < sections.len() implies represented(
            #[trigger] sections[i],
            loaded,
        ) by {
            if i > 0 {
                assert(sections[i] == rest[i - 1]);
            }
        }
    }
}

/// The object that the sections of a file were read into.
proof fn lemma_loaded_from_fresh<F, G>(
    image: ElfImageView,
    decoders: BtfDecoders<F, G>,
    loaded: ObjectView,
) -> (fresh: ObjectView) where
    F: Fn(&[u8], Endianness) -> Result<Btf, BtfError>,
    G: Fn(&[u8], Endianness) -> Result<BtfExt, BtfError>,

    requires
        loads(image, decoders, Some(Ok::<ObjectView, BpfErrorView>(loaded))),
    ensures
        license_in(image) is Ok,
        version_in(image) is Ok,
        is_host_order(fresh.host),
        fresh == fresh_object(
            image,
            fresh.host,
            license_in(image)->Ok_0,
            version_in(image)->Ok_0,
        ),
        sections_read(
            fresh,
            image.sections,
            decoders,
            Some(Ok::<ObjectView, BpfErrorView>(loaded)),
        ),
{
    let outcome = Some(Ok::<ObjectView, BpfErrorView>(loaded));
    let license = license_in(image)->Ok_0;
    let kernel_version = version_in(image)->Ok_0;
    let host = choose|host: Endianness|
        is_host_order(host) && #[trigger] sections_read(
            fresh_object(image, host, license, kernel_version),
            image.sections,
            decoders,
            outcome,
        );
    fresh_object(image, host, license, kernel_version)
}

proof fn lemma_sections_give_no_elf_error<F, G>(
    object: ObjectView,
    sections: Seq<RawSectionView>,
    decoders: BtfDecoders<F, G>,
    message: Seq<char>,
) where
    F: Fn(&[u8], Endianness) -> Result<Btf, BtfError>,
    G: Fn(&[u8], Endianness) -> Result<BtfExt, BtfError>,

    ensures
        !sections_read(object, sections, decoders, elf_error(message)),
    decreases sections.len(),
{
    let outcome = elf_error(message);
    if sections.len() > 0 && sections_read(object, sections, decoders, outcome) {
        let rest = sections.drop_first();
        let section = section_of(sections[0])->Ok_0;
        let (after, result) = choose|after: ObjectView, result: Result<(), BpfErrorView>|
            #[trigger]
            section_read(object, section, decoders, after, result) && (match result {
                Ok(()) => sections_read(after, rest, decoders, outcome),
                Err(error) => outcome == Some(Err::<ObjectView, BpfErrorView>(error)),
            });
        let found = definitions(object.symbols_by_index, section.index);
        lemma_code_gives_no_elf_error(found, section, 0);
        lemma_sections_give_no_elf_error(after, rest, decoders, message);
    }
}

proof fn lemma_code_gives_no_elf_error(
    found: Map<u64, SymbolView>,
    section: SectionView,
    offset: int,
)
    ensures
        end_from(found, section, offset) matches CodeEnd::Fails(error) ==> !(error is ElfError),
    decreases section.data.len() - offset,
{
    if offset < section.data.len() && stop_at(found, section, offset) is None {
        let size = size_at(found, section, offset);
        lemma_code_gives_no_elf_error(found, section, offset + size);
    }
}

/// Law: what a file holds is never the cause of an ELF error. Such an error
/// comes of bytes that cannot be opened, and of nothing else.
pub proof fn law_loading_gives_no_elf_error<F, G>(
    image: ElfImageView,
    decoders: BtfDecoders<F, G>,
    message: Seq<char>,
) where
    F: Fn(&[u8], Endianness) -> Result<Btf, BtfError>,
    G: Fn(&[u8], Endianness) -> Result<BtfExt, BtfError>,

    ensures
        !loads(image, decoders, elf_error(message)),
{
    if let (Ok(license), Ok(kernel_version)) = (license_in(image), version_in(image)) {
        assert forall|host: Endianness|
            !#[trigger] sections_read(
                fresh_object(image, host, license, kernel_version),
                image.sections,
                decoders,
                elf_error(message),
            ) by {
            lemma_sections_give_no_elf_error(
                fresh_object(image, host, license, kernel_version),
                image.sections,
                decoders,
                message,
            );
        }
    }
}

/// Law: an object that was loaded agrees with itself.
pub proof fn law_loaded_object_agrees<F, G>(
    image: ElfImageView,
    decoders: BtfDecoders<F, G>,
    loaded: ObjectView,
) where
    F: Fn(&[u8], Endianness) -> Result<Btf, BtfError>,
    G: Fn(&[u8], Endianness) -> Result<BtfExt, BtfError>,

    requires
        loads(image, decoders, Some(Ok::<ObjectView, BpfErrorView>(loaded))),
    ensures
        consistent(loaded),
{
    let fresh = lemma_loaded_from_fresh(image, decoders, loaded);
    lemma_symbols_agree(image.symbols);
    lemma_sections_read(fresh, image.sections, decoders, loaded);
}

/// Law: an object that was loaded carries the byte order, the license, the
/// version and the symbols of its file, and the byte order of this machine.
pub proof fn law_loaded_terms<F, G>(
    image: ElfImageView,
    decoders: BtfDecoders<F, G>,
    loaded: ObjectView,
) where
    F: Fn(&[u8], Endianness) -> Result<Btf, BtfError>,
    G: Fn(&[u8], Endianness) -> Result<BtfExt, BtfError>,

    requires
        loads(image, decoders, Some(Ok::<ObjectView, BpfErrorView>(loaded))),
    ensures
        loaded.endianness == image.endianness,
        license_in(image) == Ok::<Seq<u8>, ParseErrorView>(loaded.license),
        version_in(image) == Ok::<KernelVersion, ParseErrorView>(loaded.kernel_version),
        loaded.symbols_by_index == symbols_by_index(image.symbols),
        is_host_order(loaded.host),
{
    let fresh = lemma_loaded_from_fresh(image, decoders, loaded);
    lemma_terms_stay(fresh, image.sections, decoders, loaded);
}

/// Law: every section of a file that was loaded could be read, and its map,
/// program or type information is in the object.
pub proof fn law_nothing_is_lost<F, G>(
    image: ElfImageView,
    decoders: BtfDecoders<F, G>,
    loaded: ObjectView,
) where
    F: Fn(&[u8], Endianness) -> Result<Btf, BtfError>,
    G: Fn(&[u8], Endianness) -> Result<BtfExt, BtfError>,

    requires
        loads(image, decoders, Some(Ok::<ObjectView, BpfErrorView>(loaded))),
    ensures
        forall|i: int|
            0 <= i < image.sections.len() ==> represented(#[trigger] image.sections[i], loaded),
{
    let fresh = lemma_loaded_from_fresh(image, decoders, loaded);
    lemma_symbols_agree(image.symbols);
    lemma_sections_read(fresh, image.sections, decoders, loaded);
}

/// Law: a symbol is found under its index, unless another one with that index
/// comes after it.
pub proof fn law_last_symbol_counts(symbols: Seq<SymbolView>, i: int)
    requires
        0 <= i < symbols.len(),
        forall|j: int|
            i < j < symbols.len() ==> (#[trigger] symbols[j]).index != symbols[i].index,
    ensures
        symbols_by_index(symbols).contains_key(symbols[i].index),
        symbols_by_index(symbols)[symbols[i].index] == symbols[i],
    decreases symbols.len(),
{
    let front = symbols.drop_last();
    if i < front.len() {
        assert(symbols[symbols.len() - 1].index != symbols[i].index);
        assert forall|j: int| i < j < front.len() implies (#[trigger] front[j]).index
            != front[i].index by {
            assert(front[j] == symbols[j]);
        }
        law_last_symbol_counts(front, i);
    }
}

/// The name of the map that a section stands for, if it stands for one.
pub open spec fn map_named(section: SectionView) -> Option<Seq<char>> {
    match role_of(section.name) {
        SectionRole::Data => Some(section.name),
        SectionRole::MapDefinition { name } => Some(name),
        _ => None,
    }
}

/// The name of the program that a section stands for, if it stands for one.
pub open spec fn program_named(section: SectionView) -> Option<Seq<char>> {
    match role_of(section.name) {
        SectionRole::Program { name, .. } => Some(name),
        _ => None,
    }
}

/// Whether the relocations of a section are kept, if it has any.
pub open spec fn keeps_relocations(section: SectionView) -> bool {
    section.relocations.len() > 0 && (role_of(section.name) is Text || role_of(
        section.name,
    ) is Program)
}

/// Reading sections keeps the byte orders, the terms and the symbols.
proof fn lemma_terms_stay<F, G>(
    object: ObjectView,
    sections: Seq<RawSectionView>,
    decoders: BtfDecoders<F, G>,
    loaded: ObjectView,
) where
    F: Fn(&[u8], Endianness) -> Result<Btf, BtfError>,
    G: Fn(&[u8], Endianness) -> Result<BtfExt, BtfError>,

    requires
        sections_read(
            object,
            sections,
            decoders,
            Some(Ok::<ObjectView, BpfErrorView>(loaded)),
        ),
    ensures
        loaded.endianness == object.endianness,
        loaded.host == object.host,
        loaded.license == object.license,
        loaded.kernel_version == object.kernel_version,
        loaded.symbols_by_index == object.symbols_by_index,
    decreases sections.len(),
{
    if sections.len() > 0 {
        let after = lemma_first_section(object, sections, decoders, loaded);
        lemma_terms_stay(after, sections.drop_first(), decoders, loaded);
    }
}

/// A map stays that no section stands for.
proof fn lemma_map_stays<F, G>(
    object: ObjectView,
    sections: Seq<RawSectionView>,
    decoders: BtfDecoders<F, G>,
    loaded: ObjectView,
    name: Seq<char>,
) where
    F: Fn(&[u8], Endianness) -> Result<Btf, BtfError>,
    G: Fn(&[u8], Endianness) -> Result<BtfExt, BtfError>,

    requires
        sections_read(
            object,
            sections,
            decoders,
            Some(Ok::<ObjectView, BpfErrorView>(loaded)),
        ),
        object.maps.contains_key(name),
        forall|j: int| 0 <= j < sections.len() ==> map_named(
            section_of(#[trigger] sections[j])->Ok_0,
        ) != Some(name),
    ensures
        loaded.maps.contains_key(name),
        loaded.maps[name] == object.maps[name],
    decreases sections.len(),
{
    if sections.len() > 0 {
        let rest = sections.drop_first();
        let after = lemma_first_section(object, sections, decoders, loaded);
        assert forall|j: int| 0 <= j < rest.len() implies map_named(
            section_of(#[trigger] rest[j])->Ok_0,
        ) != Some(name) by {
            assert(rest[j] == sections[j + 1]);
        }
        lemma_map_stays(after, rest, decoders, loaded, name);
    }
}

/// A program stays that no section stands for.
proof fn lemma_program_stays<F, G>(
    object: ObjectView,
    sections: Seq<RawSectionView>,
    decoders: BtfDecoders<F, G>,
    loaded: ObjectView,
    name: Seq<char>,
) where
    F: Fn(&[u8], Endianness) -> Result<Btf, BtfError>,
    G: Fn(&[u8], Endianness) -> Result<BtfExt, BtfError>,

    requires
        sections_read(
            object,
            sections,
            decoders,
            Some(Ok::<ObjectView, BpfErrorView>(loaded)),
        ),
        object.programs.contains_key(name),
        forall|j: int| 0 <= j < sections.len() ==> program_named(
            section_of(#[trigger] sections[j])->Ok_0,
        ) != Some(name),
    ensures
        loaded.programs.contains_key(name),
        loaded.programs[name] == object.programs[name],
    decreases sections.len(),
{
    if sections.len() > 0 {
        let rest = sections.drop_first();
        let after = lemma_first_section(object, sections, decoders, loaded);
        assert forall|j: int| 0 <= j < rest.len() implies program_named(
            section_of(#[trigger] rest[j])->Ok_0,
        ) != Some(name) by {
            assert(rest[j] == sections[j + 1]);
        }
        lemma_program_stays(after, rest, decoders, loaded, name);
    }
}

/// The relocations of a section stay that no other has the number of.
proof fn lemma_relocations_stay<F, G>(
    object: ObjectView,
    sections: Seq<RawSectionView>,
    decoders: BtfDecoders<F, G>,
    loaded: ObjectView,
    index: usize,
) where
    F: Fn(&[u8], Endianness) -> Result<Btf, BtfError>,
    G: Fn(&[u8], Endianness) -> Result<BtfExt, BtfError>,

    requires
        sections_read(
            object,
            sections,
            decoders,
            Some(Ok::<ObjectView, BpfErrorView>(loaded)),
        ),
        object.relocations.contains_key(index),
        forall|j: int| 0 <= j < sections.len() ==> (
        #[trigger] sections[j]).index != index,
    ensures
        loaded.relocations.contains_key(index),
        loaded.relocations[index] == object.relocations[index],
    decreases sections.len(),
{
    if sections.len() > 0 {
        let rest = sections.drop_first();
        let after = lemma_first_section(object, sections, decoders, loaded);
        assert forall|j: int| 0 <= j < rest.len() implies (
        #[trigger] rest[j]).index != index by {
            assert(rest[j] == sections[j + 1]);
        }
        lemma_relocations_stay(after, rest, decoders, loaded, index);
    }
}

/// Where reading has come before section `i`.
proof fn lemma_before_section<F, G>(
    object: ObjectView,
    sections: Seq<RawSectionView>,
    decoders: BtfDecoders<F, G>,
    loaded: ObjectView,
    i: int,
) -> (before: ObjectView) where
    F: Fn(&[u8], Endianness) -> Result<Btf, BtfError>,
    G: Fn(&[u8], Endianness) -> Result<BtfExt, BtfError>,

    requires
        0 <= i <= sections.len(),
        sections_read(
            object,
            sections,
            decoders,
            Some(Ok::<ObjectView, BpfErrorView>(loaded)),
        ),
    ensures
        sections_read(
            before,
            sections.skip(i),
            decoders,
            Some(Ok::<ObjectView, BpfErrorView>(loaded)),
        ),
        before.host == object.host,
        before.license == object.license,
        before.kernel_version == object.kernel_version,
        before.symbols_by_index == object.symbols_by_index,
    decreases i,
{
    if i == 0 {
        assert(sections.skip(0) == sections);
        object
    } else {
        let after = lemma_first_section(object, sections, decoders, loaded);
        assert(sections.drop_first().skip(i - 1) == sections.skip(i));
        lemma_before_section(after, sections.drop_first(), decoders, loaded, i - 1)
    }
}

/// How an object was loaded: what was read into it before section `i`, and
/// what after it.
proof fn lemma_loaded_through<F, G>(
    image: ElfImageView,
    decoders: BtfDecoders<F, G>,
    loaded: ObjectView,
    i: int,
) -> (steps: (ObjectView, ObjectView)) where
    F: Fn(&[u8], Endianness) -> Result<Btf, BtfError>,
    G: Fn(&[u8], Endianness) -> Result<BtfExt, BtfError>,

    requires
        loads(image, decoders, Some(Ok::<ObjectView, BpfErrorView>(loaded))),
        0 <= i < image.sections.len(),
    ensures
        section_of(image.sections[i]) is Ok,
        section_read(steps.0, section_of(image.sections[i])->Ok_0, decoders, steps.1, Ok(())),
        sections_read(
            steps.1,
            image.sections.skip(i + 1),
            decoders,
            Some(Ok::<ObjectView, BpfErrorView>(loaded)),
        ),
        steps.0.host == loaded.host,
        steps.0.license == loaded.license,
        steps.0.kernel_version == loaded.kernel_version,
        steps.0.symbols_by_index == loaded.symbols_by_index,
{
    let fresh = lemma_loaded_from_fresh(image, decoders, loaded);
    lemma_terms_stay(fresh, image.sections, decoders, loaded);
    let before = lemma_before_section(fresh, image.sections, decoders, loaded, i);
    let after = lemma_first_section(before, image.sections.skip(i), decoders, loaded);
    assert(image.sections.skip(i).drop_first() == image.sections.skip(i + 1));
    (before, after)
}

/// Whether the map called `name` of an object is what a section stands for.
pub open spec fn map_given_by(object: ObjectView, raw: RawSectionView, name: Seq<char>) -> bool {
    section_of(raw) matches Ok(section) && map_named(section) == Some(name) && map_of(
        section,
        name,
        object.host,
    ) == Ok::<BpfMapView, ParseErrorView>(object.maps[name])
}

/// Whether the program called `name` of an object is what a section stands for.
pub open spec fn program_given_by(
    object: ObjectView,
    raw: RawSectionView,
    name: Seq<char>,
) -> bool {
    section_of(raw) matches Ok(section) && program_named(section) == Some(name) && program_of(
        object,
        section,
        role_of(section.name)->Program_kind,
        name,
    ) == Ok::<ProgramView, ParseErrorView>(object.programs[name])
}

/// Law: the last section of a file that stands for a map of some name gives
/// the object its map of that name.
pub proof fn law_last_map_counts<F, G>(
    image: ElfImageView,
    decoders: BtfDecoders<F, G>,
    loaded: ObjectView,
    i: int,
    name: Seq<char>,
) where
    F: Fn(&[u8], Endianness) -> Result<Btf, BtfError>,
    G: Fn(&[u8], Endianness) -> Result<BtfExt, BtfError>,

    requires
        loads(image, decoders, Some(Ok::<ObjectView, BpfErrorView>(loaded))),
        0 <= i < image.sections.len(),
        map_named(section_of(image.sections[i])->Ok_0) == Some(name),
        forall|j: int|
            i < j < image.sections.len() ==> map_named(
                section_of(#[trigger] image.sections[j])->Ok_0,
            ) != Some(name),
    ensures
        loaded.maps.contains_key(name),
        map_given_by(loaded, image.sections[i], name),
{
    let (before, after) = lemma_loaded_through(image, decoders, loaded, i);
    let rest = image.sections.skip(i + 1);
    assert forall|k: int| 0 <= k < rest.len() implies map_named(
        section_of(#[trigger] rest[k])->Ok_0,
    ) != Some(name) by {
        assert(rest[k] == image.sections[i + 1 + k]);
    }
    assert(after.maps.contains_key(name));
    lemma_map_stays(after, rest, decoders, loaded, name);
}

/// Law: the last section of a file that stands for a program of some name
/// gives the object its program of that name.
pub proof fn law_last_program_counts<F, G>(
    image: ElfImageView,
    decoders: BtfDecoders<F, G>,
    loaded: ObjectView,
    i: int,
    name: Seq<char>,
) where
    F: Fn(&[u8], Endianness) -> Result<Btf, BtfError>,
    G: Fn(&[u8], Endianness) -> Result<BtfExt, BtfError>,

    requires
        loads(image, decoders, Some(Ok::<ObjectView, BpfErrorView>(loaded))),
        0 <= i < image.sections.len(),
        program_named(section_of(image.sections[i])->Ok_0) == Some(name),
        forall|j: int|
            i < j < image.sections.len() ==> program_named(
                section_of(#[trigger] image.sections[j])->Ok_0,
            ) != Some(name),
    ensures
        loaded.programs.contains_key(name),
        program_given_by(loaded, image.sections[i], name),
{
    let (before, after) = lemma_loaded_through(image, decoders, loaded, i);
    let rest = image.sections.skip(i + 1);
    assert forall|k: int| 0 <= k < rest.len() implies program_named(
        section_of(#[trigger] rest[k])->Ok_0,
    ) != Some(name) by {
        assert(rest[k] == image.sections[i + 1 + k]);
    }
    assert(after.programs.contains_key(name));
    lemma_program_stays(after, rest, decoders, loaded, name);
}

proof fn lemma_map_has_source<F, G>(
    object: ObjectView,
    sections: Seq<RawSectionView>,
    decoders: BtfDecoders<F, G>,
    loaded: ObjectView,
    name: Seq<char>,
) where
    F: Fn(&[u8], Endianness) -> Result<Btf, BtfError>,
    G: Fn(&[u8], Endianness) -> Result<BtfExt, BtfError>,

    requires
        sections_read(
            object,
            sections,
            decoders,
            Some(Ok::<ObjectView, BpfErrorView>(loaded)),
        ),
        loaded.maps.contains_key(name),
        !object.maps.contains_key(name) || object.maps[name] != loaded.maps[name],
    ensures
        exists|i: int|
            0 <= i < sections.len() && map_given_by(
                loaded,
                #[trigger] sections[i],
                name,
            ),
    decreases sections.len(),
{
    if sections.len() > 0 {
        let rest = sections.drop_first();
        let after = lemma_first_section(object, sections, decoders, loaded);
        lemma_terms_stay(object, sections, decoders, loaded);
        if after.maps.contains_key(name) && after.maps[name] == loaded.maps[name] {
            assert(map_given_by(loaded, sections[0], name));
        } else {
            lemma_map_has_source(after, rest, decoders, loaded, name);
            let i = choose|i: int|
                0 <= i < rest.len() && map_given_by(loaded, #[trigger] rest[i], name);
            assert(rest[i] == sections[i + 1]);
        }
    }
}

proof fn lemma_program_has_source<F, G>(
    object: ObjectView,
    sections: Seq<RawSectionView>,
    decoders: BtfDecoders<F, G>,
    loaded: ObjectView,
    name: Seq<char>,
) where
    F: Fn(&[u8], Endianness) -> Result<Btf, BtfError>,
    G: Fn(&[u8], Endianness) -> Result<BtfExt, BtfError>,

    requires
        sections_read(
            object,
            sections,
            decoders,
            Some(Ok::<ObjectView, BpfErrorView>(loaded)),
        ),
        loaded.programs.contains_key(name),
        !object.programs.contains_key(name) || object.programs[name] != loaded.programs[name],
    ensures
        exists|i: int|
            0 <= i < sections.len() && program_given_by(
                loaded,
                #[trigger] sections[i],
                name,
            ),
    decreases sections.len(),
{
    if sections.len() > 0 {
        let rest = sections.drop_first();
        let after = lemma_first_section(object, sections, decoders, loaded);
        lemma_terms_stay(object, sections, decoders, loaded);
        if after.programs.contains_key(name) && after.programs[name] == loaded.programs[name] {
            assert(program_given_by(loaded, sections[0], name));
        } else {
            lemma_program_has_source(after, rest, decoders, loaded, name);
            let i = choose|i: int|
                0 <= i < rest.len() && program_given_by(loaded, #[trigger] rest[i], name);
            assert(rest[i] == sections[i + 1]);
        }
    }
}

/// Law: every map of a loaded object comes from a section of the file.
pub proof fn law_maps_come_from_sections<F, G>(
    image: ElfImageView,
    decoders: BtfDecoders<F, G>,
    loaded: ObjectView,
    name: Seq<char>,
) where
    F: Fn(&[u8], Endianness) -> Result<Btf, BtfError>,
    G: Fn(&[u8], Endianness) -> Result<BtfExt, BtfError>,

    requires
        loads(image, decoders, Some(Ok::<ObjectView, BpfErrorView>(loaded))),
        loaded.maps.contains_key(name),
    ensures
        exists|i: int|
            0 <= i < image.sections.len() && map_given_by(
                loaded,
                #[trigger] image.sections[i],
                name,
            ),
{
    let fresh = lemma_loaded_from_fresh(image, decoders, loaded);
    lemma_map_has_source(fresh, image.sections, decoders, loaded, name);
}

/// Law: every program of a loaded object comes from a section of the file.
pub proof fn law_programs_come_from_sections<F, G>(
    image: ElfImageView,
    decoders: BtfDecoders<F, G>,
    loaded: ObjectView,
    name: Seq<char>,
) where
    F: Fn(&[u8], Endianness) -> Result<Btf, BtfError>,
    G: Fn(&[u8], Endianness) -> Result<BtfExt, BtfError>,

    requires
        loads(image, decoders, Some(Ok::<ObjectView, BpfErrorView>(loaded))),
        loaded.programs.contains_key(name),
    ensures
        exists|i: int|
            0 <= i < image.sections.len() && program_given_by(
                loaded,
                #[trigger] image.sections[i],
                name,
            ),
{
    let fresh = lemma_loaded_from_fresh(image, decoders, loaded);
    lemma_program_has_source(fresh, image.sections, decoders, loaded, name);
}

/// The functions of a code section.
pub open spec fn functions_of(
    symbols: Map<usize, SymbolView>,
    section: SectionView,
    host: Endianness,
) -> Seq<FunctionView> {
    functions_from(definitions(symbols, section.index), section, host, 0)
}

/// Whether the function at `address` of an object is one of those of a section.
pub open spec fn function_given_by(object: ObjectView, raw: RawSectionView, address: u64) -> bool {
    section_of(raw) matches Ok(section) && role_of(section.name) is Text && functions_of(
        object.symbols_by_index,
        section,
        object.host,
    ).contains(object.functions[address])
}

/// Whether the relocations under `index` of an object are those of the section
/// with that index.
pub open spec fn relocations_given_by(
    object: ObjectView,
    raw: RawSectionView,
    index: usize,
) -> bool {
    section_of(raw) matches Ok(section) && keeps_relocations(section) && section.index == index
        && object.relocations[index] == relocations_by_offset(section.relocations)
}

/// A function that comes with others, or in place of what was there, is one
/// of them.
proof fn lemma_added_function(
    functions: Map<u64, FunctionView>,
    added: Seq<FunctionView>,
    address: u64,
)
    requires
        with_functions(functions, added).contains_key(address),
    ensures
        added.contains(with_functions(functions, added)[address]) || (functions.contains_key(
            address,
        ) && functions[address] == with_functions(functions, added)[address]),
    decreases added.len(),
{
    if added.len() > 0 {
        let first = functions.insert(added[0].address, added[0]);
        let rest = added.drop_first();
        let function = with_functions(functions, added)[address];
        assert(with_functions(functions, added) == with_functions(first, rest));
        lemma_added_function(first, rest, address);
        if rest.contains(function) {
            let i = choose|i: int| 0 <= i < rest.len() && rest[i] == function;
            assert(added[i + 1] == function);
        } else if function == added[0] {
            assert(added.contains(function));
        }
    }
}

proof fn lemma_function_has_source<F, G>(
    object: ObjectView,
    sections: Seq<RawSectionView>,
    decoders: BtfDecoders<F, G>,
    loaded: ObjectView,
    address: u64,
) where
    F: Fn(&[u8], Endianness) -> Result<Btf, BtfError>,
    G: Fn(&[u8], Endianness) -> Result<BtfExt, BtfError>,

    requires
        sections_read(
            object,
            sections,
            decoders,
            Some(Ok::<ObjectView, BpfErrorView>(loaded)),
        ),
        loaded.functions.contains_key(address),
        !object.functions.contains_key(address) || object.functions[address]
            != loaded.functions[address],
    ensures
        exists|i: int|
            0 <= i < sections.len() && function_given_by(
                loaded,
                #[trigger] sections[i],
                address,
            ),
    decreases sections.len(),
{
    if sections.len() > 0 {
        let rest = sections.drop_first();
        let after = lemma_first_section(object, sections, decoders, loaded);
        lemma_terms_stay(object, sections, decoders, loaded);
        if after.functions.contains_key(address) && after.functions[address]
            == loaded.functions[address] {
            let section = section_of(sections[0])->Ok_0;
            let added = functions_of(object.symbols_by_index, section, object.host);
            lemma_added_function(object.functions, added, address);
            assert(function_given_by(loaded, sections[0], address));
        } else {
            lemma_function_has_source(after, rest, decoders, loaded, address);
            let i = choose|i: int|
                0 <= i < rest.len() && function_given_by(loaded, #[trigger] rest[i], address);
            assert(rest[i] == sections[i + 1]);
        }
    }
}

proof fn lemma_relocations_have_source<F, G>(
    object: ObjectView,
    sections: Seq<RawSectionView>,
    decoders: BtfDecoders<F, G>,
    loaded: ObjectView,
    index: usize,
) where
    F: Fn(&[u8], Endianness) -> Result<Btf, BtfError>,
    G: Fn(&[u8], Endianness) -> Result<BtfExt, BtfError>,

    requires
        sections_read(
            object,
            sections,
            decoders,
            Some(Ok::<ObjectView, BpfErrorView>(loaded)),
        ),
        loaded.relocations.contains_key(index),
        !object.relocations.contains_key(index) || object.relocations[index]
            != loaded.relocations[index],
    ensures
        exists|i: int|
            0 <= i < sections.len() && relocations_given_by(
                loaded,
                #[trigger] sections[i],
                index,
            ),
    decreases sections.len(),
{
    if sections.len() > 0 {
        let rest = sections.drop_first();
        let after = lemma_first_section(object, sections, decoders, loaded);
        lemma_terms_stay(object, sections, decoders, loaded);
        if after.relocations.contains_key(index) && after.relocations[index]
            == loaded.relocations[index] {
            assert(relocations_given_by(loaded, sections[0], index));
        } else {
            lemma_relocations_have_source(after, rest, decoders, loaded, index);
            let i = choose|i: int|
                0 <= i < rest.len() && relocations_given_by(loaded, #[trigger] rest[i], index);
            assert(rest[i] == sections[i + 1]);
        }
    }
}

/// Law: every function of a loaded object comes from a section of the file.
pub proof fn law_functions_come_from_sections<F, G>(
    image: ElfImageView,
    decoders: BtfDecoders<F, G>,
    loaded: ObjectView,
    address: u64,
) where
    F: Fn(&[u8], Endianness) -> Result<Btf, BtfError>,
    G: Fn(&[u8], Endianness) -> Result<BtfExt, BtfError>,

    requires
        loads(image, decoders, Some(Ok::<ObjectView, BpfErrorView>(loaded))),
        loaded.functions.contains_key(address),
    ensures
        exists|i: int|
            0 <= i < image.sections.len() && function_given_by(
                loaded,
                #[trigger] image.sections[i],
                address,
            ),
{
    let fresh = lemma_loaded_from_fresh(image, decoders, loaded);
    lemma_function_has_source(fresh, image.sections, decoders, loaded, address);
}

/// Law: every group of relocations of a loaded object comes from a section of the file.
pub proof fn law_relocations_come_from_sections<F, G>(
    image: ElfImageView,
    decoders: BtfDecoders<F, G>,
    loaded: ObjectView,
    index: usize,
) where
    F: Fn(&[u8], Endianness) -> Result<Btf, BtfError>,
    G: Fn(&[u8], Endianness) -> Result<BtfExt, BtfError>,

    requires
        loads(image, decoders, Some(Ok::<ObjectView, BpfErrorView>(loaded))),
        loaded.relocations.contains_key(index),
    ensures
        exists|i: int|
            0 <= i < image.sections.len() && relocations_given_by(
                loaded,
                #[trigger] image.sections[i],
                index,
            ),
{
    let fresh = lemma_loaded_from_fresh(image, decoders, loaded);
    lemma_relocations_have_source(fresh, image.sections, decoders, loaded, index);
}

/// Law: where the sections of a file are numbered in order, the object has the
/// relocations of every program and of every code section under its number.
pub proof fn law_relocations_are_loaded<F, G>(
    image: ElfImageView,
    decoders: BtfDecoders<F, G>,
    loaded: ObjectView,
    i: int,
) where
    F: Fn(&[u8], Endianness) -> Result<Btf, BtfError>,
    G: Fn(&[u8], Endianness) -> Result<BtfExt, BtfError>,

    requires
        loads(image, decoders, Some(Ok::<ObjectView, BpfErrorView>(loaded))),
        0 <= i < image.sections.len(),
        forall|j: int|
            0 <= j < image.sections.len() ==> (#[trigger] image.sections[j]).index == j,
        keeps_relocations(section_of(image.sections[i])->Ok_0),
    ensures
        loaded.relocations.contains_key(i as usize),
        loaded.relocations[i as usize] == relocations_by_offset(
            section_of(image.sections[i])->Ok_0.relocations,
        ),
{
    let (before, after) = lemma_loaded_through(image, decoders, loaded, i);
    let rest = image.sections.skip(i + 1);
    let index = image.sections[i].index;
    assert forall|k: int| 0 <= k < rest.len() implies (#[trigger] rest[k]).index != index by {
        assert(rest[k] == image.sections[i + 1 + k]);
    }
    assert(after.relocations.contains_key(index));
    lemma_relocations_stay(after, rest, decoders, loaded, index);
}

/// Whether no code section among `sections` has a function at an address.
pub open spec fn no_function_at(
    symbols: Map<usize, SymbolView>,
    sections: Seq<RawSectionView>,
    host: Endianness,
    address: u64,
) -> bool {
    forall|j: int, k: int|
        #![trigger functions_of(symbols, section_of(sections[j])->Ok_0, host)[k]]
        0 <= j < sections.len() && role_of(section_of(sections[j])->Ok_0.name) is Text && 0 <= k
            < functions_of(symbols, section_of(sections[j])->Ok_0, host).len() ==> functions_of(
            symbols,
            section_of(sections[j])->Ok_0,
            host,
        )[k].address != address
}

proof fn lemma_function_stays<F, G>(
    object: ObjectView,
    sections: Seq<RawSectionView>,
    decoders: BtfDecoders<F, G>,
    loaded: ObjectView,
    address: u64,
) where
    F: Fn(&[u8], Endianness) -> Result<Btf, BtfError>,
    G: Fn(&[u8], Endianness) -> Result<BtfExt, BtfError>,

    requires
        sections_read(
            object,
            sections,
            decoders,
            Some(Ok::<ObjectView, BpfErrorView>(loaded)),
        ),
        forall|j: int|
            0 <= j < sections.len() ==> (section_of(#[trigger] sections[j]) matches Ok(section)
                ==> section.data.len() <= usize::MAX),
        no_function_at(object.symbols_by_index, sections, object.host, address),
        object.functions.contains_key(address),
    ensures
        loaded.functions.contains_key(address),
        loaded.functions[address] == object.functions[address],
    decreases sections.len(),
{
    if sections.len() > 0 {
        let rest = sections.drop_first();
        let section = section_of(sections[0])->Ok_0;
        let symbols = object.symbols_by_index;
        let after = lemma_first_section(object, sections, decoders, loaded);
        assert(forall|j: int| 0 <= j < rest.len() ==> #[trigger] rest[j] == sections[j + 1]);
        assert forall|j: int, k: int|
            #![trigger functions_of(symbols, section_of(rest[j])->Ok_0, object.host)[k]]
            0 <= j < rest.len() && role_of(section_of(rest[j])->Ok_0.name) is Text && 0 <= k
                < functions_of(symbols, section_of(rest[j])->Ok_0, object.host).len() implies
            functions_of(symbols, section_of(rest[j])->Ok_0, object.host)[k].address != address by {
            assert(functions_of(
                symbols,
                section_of(sections[j + 1])->Ok_0,
                object.host,
            )[k].address != address);
        }
        if role_of(section.name) is Text {
            let added = functions_of(symbols, section, object.host);
            law_functions_are_ordered(
                definitions(symbols, section.index),
                section,
                object.host,
                0,
            );
            law_functions_are_found(object.functions, added);
            assert forall|k: int| 0 <= k < added.len() implies (#[trigger] added[k]).address
                != address by {
                assert(functions_of(
                    symbols,
                    section_of(sections[0])->Ok_0,
                    object.host,
                )[k].address != address);
            }
            assert(with_functions(object.functions, added).contains_key(address));
        }
        lemma_function_stays(after, rest, decoders, loaded, address);
    }
}

/// Law: a code section of a loaded file was read to its end, and the object has
/// each of its functions, unless a later code section has one at the same
/// address.
pub proof fn law_functions_are_loaded<F, G>(
    image: ElfImageView,
    decoders: BtfDecoders<F, G>,
    loaded: ObjectView,
    i: int,
    k: int,
) where
    F: Fn(&[u8], Endianness) -> Result<Btf, BtfError>,
    G: Fn(&[u8], Endianness) -> Result<BtfExt, BtfError>,

    requires
        loads(image, decoders, Some(Ok::<ObjectView, BpfErrorView>(loaded))),
        forall|j: int|
            0 <= j < image.sections.len() ==> (section_of(
                #[trigger] image.sections[j],
            ) matches Ok(section) ==> section.data.len() <= usize::MAX),
        0 <= i < image.sections.len(),
        role_of(section_of(image.sections[i])->Ok_0.name) is Text,
    ensures
        ({
            let section = section_of(image.sections[i])->Ok_0;
            let functions = functions_of(loaded.symbols_by_index, section, loaded.host);
            &&& all_instructions(functions) == insns_of(section.data, loaded.host)
            &&& 0 <= k < functions.len() && no_function_at(
                loaded.symbols_by_index,
                image.sections.skip(i + 1),
                loaded.host,
                functions[k].address,
            ) ==> loaded.functions.contains_key(functions[k].address)
                && loaded.functions[functions[k].address] == functions[k]
        }),
{
    let (before, after) = lemma_loaded_through(image, decoders, loaded, i);
    let rest = image.sections.skip(i + 1);
    let section = section_of(image.sections[i])->Ok_0;
    let found = definitions(loaded.symbols_by_index, section.index);
    let functions = functions_of(loaded.symbols_by_index, section, loaded.host);
    law_functions_tile_the_section(found, section, loaded.host, 0);
    assert(section.data.skip(0) == section.data);
    law_functions_are_ordered(found, section, loaded.host, 0);
    law_functions_are_found(before.functions, functions);
    if 0 <= k < functions.len() && no_function_at(
        loaded.symbols_by_index,
        rest,
        loaded.host,
        functions[k].address,
    ) {
        law_reading_only_adds(before, section, decoders, after, Ok(()));
        assert(with_functions(before.functions, functions).contains_key(functions[k].address));
        assert forall|j: int| 0 <= j < rest.len() implies (section_of(
            #[trigger] rest[j],
        ) matches Ok(section) ==> section.data.len() <= usize::MAX) by {
            assert(rest[j] == image.sections[i + 1 + j]);
        }
        lemma_function_stays(after, rest, decoders, loaded, functions[k].address);
    }
}

/// Law: a file that names neither a license nor a version is loaded under the
/// GPL and for any version.
pub proof fn law_default_terms<F, G>(
    image: ElfImageView,
    decoders: BtfDecoders<F, G>,
    loaded: ObjectView,
) where
    F: Fn(&[u8], Endianness) -> Result<Btf, BtfError>,
    G: Fn(&[u8], Endianness) -> Result<BtfExt, BtfError>,

    requires
        loads(image, decoders, Some(Ok::<ObjectView, BpfErrorView>(loaded))),
        first_named(image.sections, "license"@) is None,
        first_named(image.sections, "version"@) is None,
    ensures
        loaded.license == default_license(),
        loaded.kernel_version == KernelVersion::Any,
{
    law_loaded_terms(image, decoders, loaded);
}

} // verus!
