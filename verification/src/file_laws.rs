//! What a file says of the object that it is loaded as, in terms of its
//! sections and symbols alone.

use crate::btf::{Btf, BtfDecoders, BtfExt};
use crate::code::code_fits;
use crate::elf::ElfImageView;
use crate::endian::{is_host_order, Endianness};
use crate::error::{BpfErrorView, BtfError, ParseErrorView};
use crate::license::license_of;
use crate::load::{
    accepts, first_named, fresh_object, license_in, loads, sections_read,
    symbols_by_index, version_in,
};
use crate::load_laws::{law_last_symbol_counts, law_loaded_terms};
use crate::object::{role_of, section_read, ObjectView};
use crate::part_laws::{law_section_keeps_everything, law_version_numbers};
use crate::section::{section_of, RawSectionView, SectionView, SymbolView};
use crate::version::{version_of, KernelVersion};
use vstd::prelude::*;

verus! {

/// Law: the first section of a name has that name, and no section before it
/// has; and there is none only where no section has that name.
pub proof fn law_first_of_a_name(sections: Seq<RawSectionView>, name: Seq<char>)
    ensures
        match first_named(sections, name) {
            Some(raw) => exists|i: int|
                0 <= i < sections.len() && #[trigger] sections[i] == raw && raw.name == Ok::<
                    Seq<char>,
                    Seq<char>,
                >(name) && forall|j: int|
                    0 <= j < i ==> (#[trigger] sections[j]).name != Ok::<Seq<char>, Seq<char>>(
                        name,
                    ),
            None => forall|j: int|
                0 <= j < sections.len() ==> (#[trigger] sections[j]).name != Ok::<
                    Seq<char>,
                    Seq<char>,
                >(name),
        },
    decreases sections.len(),
{
    if sections.len() > 0 {
        let rest = sections.drop_first();
        if sections[0].name == Ok::<Seq<char>, Seq<char>>(name) {
            assert(sections[0] == first_named(sections, name)->Some_0);
        } else {
            law_first_of_a_name(rest, name);
            assert(forall|j: int| 0 <= j < rest.len() ==> #[trigger] rest[j] == sections[j + 1]);
            match first_named(sections, name) {
                Some(raw) => {
                    let i = choose|i: int|
                        0 <= i < rest.len() && #[trigger] rest[i] == raw && raw.name == Ok::<
                            Seq<char>,
                            Seq<char>,
                        >(name) && forall|j: int|
                            0 <= j < i ==> (#[trigger] rest[j]).name != Ok::<
                                Seq<char>,
                                Seq<char>,
                            >(name);
                    assert(sections[i + 1] == raw);
                    assert forall|j: int| 0 <= j < i + 1 implies (#[trigger] sections[j]).name
                        != Ok::<Seq<char>, Seq<char>>(name) by {
                        if j > 0 {
                            assert(rest[j - 1] == sections[j]);
                        }
                    }
                },
                None => {
                    assert forall|j: int| 0 <= j < sections.len() implies (
                    #[trigger] sections[j]).name != Ok::<Seq<char>, Seq<char>>(name) by {
                        if j > 0 {
                            assert(rest[j - 1] == sections[j]);
                        }
                    }
                },
            }
        }
    }
}

/// A section that has a name, when none before it has, is the first of that
/// name.
proof fn lemma_first_of_a_name(sections: Seq<RawSectionView>, name: Seq<char>, i: int)
    requires
        0 <= i < sections.len(),
        sections[i].name == Ok::<Seq<char>, Seq<char>>(name),
        forall|j: int|
            0 <= j < i ==> (#[trigger] sections[j]).name != Ok::<Seq<char>, Seq<char>>(name),
    ensures
        first_named(sections, name) == Some(sections[i]),
    decreases i,
{
    if i > 0 {
        let rest = sections.drop_first();
        assert(sections[0].name != Ok::<Seq<char>, Seq<char>>(name));
        assert forall|j: int| 0 <= j < i - 1 implies (#[trigger] rest[j]).name != Ok::<
            Seq<char>,
            Seq<char>,
        >(name) by {
            assert(rest[j] == sections[j + 1]);
        }
        lemma_first_of_a_name(rest, name, i - 1);
    }
}

/// Law: a file in which no section is named `license` is loaded under the
/// license `GPL`, whatever else it holds. Otherwise the first section of that
/// name holds the license that the file is loaded under, with a zero byte
/// behind it.
pub proof fn law_license_of_a_file<F, G>(
    image: ElfImageView,
    decoders: BtfDecoders<F, G>,
    loaded: ObjectView,
    i: int,
) where
    F: Fn(&[u8], Endianness) -> Result<Btf, BtfError>,
    G: Fn(&[u8], Endianness) -> Result<BtfExt, BtfError>,

    requires
        loads(image, decoders, Some(Ok::<ObjectView, BpfErrorView>(loaded))),
    ensures
        (forall|j: int|
            0 <= j < image.sections.len() ==> (#[trigger] image.sections[j]).name != Ok::<
                Seq<char>,
                Seq<char>,
            >("license"@)) ==> loaded.license == seq![0x47u8, 0x50u8, 0x4cu8],
        0 <= i < image.sections.len() && image.sections[i].name == Ok::<Seq<char>, Seq<char>>(
            "license"@,
        ) && (forall|j: int|
            0 <= j < i ==> (#[trigger] image.sections[j]).name != Ok::<Seq<char>, Seq<char>>(
                "license"@,
            )) ==> image.sections[i].data == Ok::<Seq<u8>, Seq<char>>(loaded.license.push(0))
            && loaded.license.len() > 0 && !loaded.license.contains(0u8),
{
    law_loaded_terms(image, decoders, loaded);
    law_first_of_a_name(image.sections, "license"@);
    if 0 <= i < image.sections.len() && image.sections[i].name == Ok::<Seq<char>, Seq<char>>(
        "license"@,
    ) && (forall|j: int|
        0 <= j < i ==> (#[trigger] image.sections[j]).name != Ok::<Seq<char>, Seq<char>>(
            "license"@,
        )) {
        lemma_first_of_a_name(image.sections, "license"@, i);
        let section = section_of(image.sections[i])->Ok_0;
        law_section_keeps_everything(image.sections[i], section);
        crate::license::law_license_has_no_zero(section.data);
    }
}

/// Law: a file in which no section is named `version` is loaded for any
/// version, whatever else it holds. Otherwise the first section of that name
/// holds four bytes, and the file is loaded for the version of the number that
/// they are in the byte order of the file; the number 0xFFFF_FFFE alone is any
/// version.
pub proof fn law_version_of_a_file<F, G>(
    image: ElfImageView,
    decoders: BtfDecoders<F, G>,
    loaded: ObjectView,
    i: int,
) where
    F: Fn(&[u8], Endianness) -> Result<Btf, BtfError>,
    G: Fn(&[u8], Endianness) -> Result<BtfExt, BtfError>,

    requires
        loads(image, decoders, Some(Ok::<ObjectView, BpfErrorView>(loaded))),
    ensures
        (forall|j: int|
            0 <= j < image.sections.len() ==> (#[trigger] image.sections[j]).name != Ok::<
                Seq<char>,
                Seq<char>,
            >("version"@)) ==> loaded.kernel_version == KernelVersion::Any,
        0 <= i < image.sections.len() && image.sections[i].name == Ok::<Seq<char>, Seq<char>>(
            "version"@,
        ) && (forall|j: int|
            0 <= j < i ==> (#[trigger] image.sections[j]).name != Ok::<Seq<char>, Seq<char>>(
                "version"@,
            )) ==> {
            &&& image.sections[i].data matches Ok(data)
            &&& data.len() == 4
            &&& ({
                let number = match image.endianness {
                    Endianness::Little => data[0] + 0x100 * data[1] + 0x1_0000 * data[2]
                        + 0x100_0000 * data[3],
                    Endianness::Big => 0x100_0000 * data[0] + 0x1_0000 * data[1] + 0x100 * data[2]
                        + data[3],
                };
                &&& loaded.kernel_version == KernelVersion::Any <==> number == 0xFFFF_FFFE
                &&& loaded.kernel_version matches KernelVersion::Version(found) ==> found == number
            })
        },
{
    law_loaded_terms(image, decoders, loaded);
    law_first_of_a_name(image.sections, "version"@);
    if 0 <= i < image.sections.len() && image.sections[i].name == Ok::<Seq<char>, Seq<char>>(
        "version"@,
    ) && (forall|j: int|
        0 <= j < i ==> (#[trigger] image.sections[j]).name != Ok::<Seq<char>, Seq<char>>(
            "version"@,
        )) {
        lemma_first_of_a_name(image.sections, "version"@, i);
        let section = section_of(image.sections[i])->Ok_0;
        law_section_keeps_everything(image.sections[i], section);
        law_version_numbers(section.data, image.endianness);
    }
}

/// Law: the terms of a file are refused exactly where its first section named
/// `license` cannot be read or holds no license, or its first section named
/// `version` cannot be read or holds no version; then the file is refused with
/// the same error, that of the license first.
pub proof fn law_refused_terms<F, G>(
    image: ElfImageView,
    decoders: BtfDecoders<F, G>,
    outcome: Option<Result<ObjectView, BpfErrorView>>,
) where
    F: Fn(&[u8], Endianness) -> Result<Btf, BtfError>,
    G: Fn(&[u8], Endianness) -> Result<BtfExt, BtfError>,

    requires
        loads(image, decoders, outcome),
    ensures
        license_in(image) is Err <==> {
            &&& first_named(image.sections, "license"@) matches Some(raw)
            &&& section_of(raw) is Err || license_of(section_of(raw)->Ok_0.data) is Err
        },
        version_in(image) is Err <==> {
            &&& first_named(image.sections, "version"@) matches Some(raw)
            &&& section_of(raw) is Err || version_of(
                section_of(raw)->Ok_0.data,
                image.endianness,
            ) is Err
        },
        license_in(image) matches Err(error) ==> {
            &&& outcome == Some(Err::<ObjectView, BpfErrorView>(BpfErrorView::ParseError(error)))
            &&& first_named(image.sections, "license"@) matches Some(raw)
            &&& match section_of(raw) {
                Ok(section) => license_of(section.data) == Err::<Seq<u8>, ParseErrorView>(error),
                Err(fault) => fault == error,
            }
        },
        license_in(image) is Ok && version_in(image) is Err ==> {
            let error = version_in(image)->Err_0;
            &&& outcome == Some(Err::<ObjectView, BpfErrorView>(BpfErrorView::ParseError(error)))
            &&& first_named(image.sections, "version"@) matches Some(raw)
            &&& match section_of(raw) {
                Ok(section) => version_of(section.data, image.endianness) == Err::<
                    KernelVersion,
                    ParseErrorView,
                >(error),
                Err(fault) => fault == error,
            }
        },
{
}

/// Law: the symbols of an object are those of its file: each symbol is under
/// its number, unless a later one has the same, and there are no others.
pub proof fn law_symbols_of_a_file<F, G>(
    image: ElfImageView,
    decoders: BtfDecoders<F, G>,
    loaded: ObjectView,
) where
    F: Fn(&[u8], Endianness) -> Result<Btf, BtfError>,
    G: Fn(&[u8], Endianness) -> Result<BtfExt, BtfError>,

    requires
        loads(image, decoders, Some(Ok::<ObjectView, BpfErrorView>(loaded))),
    ensures
        forall|i: int|
            0 <= i < image.symbols.len() && (forall|j: int|
                i < j < image.symbols.len() ==> (#[trigger] image.symbols[j]).index
                    != image.symbols[i].index) ==> loaded.symbols_by_index.contains_key(
                (#[trigger] image.symbols[i]).index,
            ) && loaded.symbols_by_index[image.symbols[i].index] == image.symbols[i],
        forall|index: usize| #[trigger]
            loaded.symbols_by_index.contains_key(index) ==> exists|i: int|
                0 <= i < image.symbols.len() && #[trigger] image.symbols[i]
                    == loaded.symbols_by_index[index] && image.symbols[i].index == index,
{
    law_loaded_terms(image, decoders, loaded);
    assert forall|i: int|
        0 <= i < image.symbols.len() && (forall|j: int|
            i < j < image.symbols.len() ==> (#[trigger] image.symbols[j]).index
                != image.symbols[i].index) implies loaded.symbols_by_index.contains_key(
        (#[trigger] image.symbols[i]).index,
    ) && loaded.symbols_by_index[image.symbols[i].index] == image.symbols[i] by {
        law_last_symbol_counts(image.symbols, i);
    }
    assert forall|index: usize| #[trigger]
        loaded.symbols_by_index.contains_key(index) implies exists|i: int|
        0 <= i < image.symbols.len() && #[trigger] image.symbols[i]
            == loaded.symbols_by_index[index] && image.symbols[i].index == index by {
        let i = lemma_symbol_has_source(image.symbols, index);
        assert(image.symbols[i] == loaded.symbols_by_index[index]);
    }
}

/// The symbol that is found under a number.
proof fn lemma_symbol_has_source(symbols: Seq<SymbolView>, index: usize) -> (i: int)
    requires
        symbols_by_index(symbols).contains_key(index),
    ensures
        0 <= i < symbols.len(),
        symbols[i] == symbols_by_index(symbols)[index],
        symbols[i].index == index,
    decreases symbols.len(),
{
    if symbols.last().index == index {
        symbols.len() - 1
    } else {
        lemma_symbol_has_source(symbols.drop_last(), index)
    }
}

/// Law: an object can take in every section but a code section that does not
/// fit its symbols.
pub proof fn law_accepted_sections(object: ObjectView, section: SectionView)
    ensures
        !(role_of(section.name) is Text) ==> accepts(object, section),
        role_of(section.name) is Text ==> (accepts(object, section) <==> code_fits(
            object.symbols_by_index,
            section,
        )),
{
}

/// Whether taking in a section of a file turns `object` into `after`, without an
/// error.
pub open spec fn takes_in<F, G>(
    object: ObjectView,
    raw: RawSectionView,
    decoders: BtfDecoders<F, G>,
    after: ObjectView,
) -> bool where
    F: Fn(&[u8], Endianness) -> Result<Btf, BtfError>,
    G: Fn(&[u8], Endianness) -> Result<BtfExt, BtfError>,
 {
    section_of(raw) matches Ok(section) && accepts(object, section) && section_read(
        object,
        section,
        decoders,
        after,
        Ok(()),
    )
}

/// Whether `states` are the objects that reading the first sections of a file
/// goes through, one section after the other, each without an error.
pub open spec fn goes_through<F, G>(
    states: Seq<ObjectView>,
    sections: Seq<RawSectionView>,
    decoders: BtfDecoders<F, G>,
) -> bool where
    F: Fn(&[u8], Endianness) -> Result<Btf, BtfError>,
    G: Fn(&[u8], Endianness) -> Result<BtfExt, BtfError>,
 {
    &&& 0 < states.len() <= sections.len() + 1
    &&& forall|j: int, k: int|
        0 <= j && k == j + 1 && k < states.len() ==> #[trigger] takes_in(
            states[j],
            sections[j],
            decoders,
            states[k],
        )
}

/// Whether reading that has gone through `states` ends in `outcome`: with the
/// last object behind the last section, with the error of the next section, or
/// without an outcome where that one cannot be taken in.
pub open spec fn ends_in<F, G>(
    states: Seq<ObjectView>,
    sections: Seq<RawSectionView>,
    decoders: BtfDecoders<F, G>,
    outcome: Option<Result<ObjectView, BpfErrorView>>,
) -> bool where
    F: Fn(&[u8], Endianness) -> Result<Btf, BtfError>,
    G: Fn(&[u8], Endianness) -> Result<BtfExt, BtfError>,
 {
    let next = states.len() - 1;
    match outcome {
        Some(Ok(object)) => next == sections.len() && object == states.last(),
        Some(Err(error)) => next < sections.len() && (match section_of(sections[next]) {
            Err(fault) => error == BpfErrorView::ParseError(fault),
            Ok(section) => accepts(states.last(), section) && exists|after: ObjectView| #[trigger]
                section_read(states.last(), section, decoders, after, Err(error)),
        }),
        None => next < sections.len() && (section_of(sections[next]) matches Ok(section)
            && !accepts(states.last(), section)),
    }
}

/// Law: loading starts from an object that has the byte order, the license, the
/// version and the symbols of the file, and nothing else. It takes in the
/// sections of the file, all of them and in their order, and ends behind the
/// last one, at the first error, or at the first section that cannot be taken
/// in.
pub proof fn law_loading_goes_section_by_section<F, G>(
    image: ElfImageView,
    decoders: BtfDecoders<F, G>,
    outcome: Option<Result<ObjectView, BpfErrorView>>,
) where
    F: Fn(&[u8], Endianness) -> Result<Btf, BtfError>,
    G: Fn(&[u8], Endianness) -> Result<BtfExt, BtfError>,

    requires
        loads(image, decoders, outcome),
        license_in(image) is Ok,
        version_in(image) is Ok,
    ensures
        exists|states: Seq<ObjectView>|
            #![trigger goes_through(states, image.sections, decoders)]
            goes_through(states, image.sections, decoders) && ends_in(
                states,
                image.sections,
                decoders,
                outcome,
            ) && {
                &&& states[0].endianness == image.endianness
                &&& is_host_order(states[0].host)
                &&& license_in(image) == Ok::<Seq<u8>, ParseErrorView>(states[0].license)
                &&& version_in(image) == Ok::<KernelVersion, ParseErrorView>(
                    states[0].kernel_version,
                )
                &&& states[0].btf is None
                &&& states[0].btf_ext is None
                &&& states[0].maps.dom() == Set::<Seq<char>>::empty()
                &&& states[0].programs.dom() == Set::<Seq<char>>::empty()
                &&& states[0].functions.dom() == Set::<u64>::empty()
                &&& states[0].relocations.dom() == Set::<usize>::empty()
                &&& states[0].symbols_by_index == symbols_by_index(image.symbols)
            },
{
    let license = license_in(image)->Ok_0;
    let kernel_version = version_in(image)->Ok_0;
    let host = choose|host: Endianness|
        is_host_order(host) && #[trigger] sections_read(
            fresh_object(image, host, license, kernel_version),
            image.sections,
            decoders,
            outcome,
        );
    let fresh = fresh_object(image, host, license, kernel_version);
    let states = lemma_states(fresh, image.sections, decoders, outcome);
    assert(goes_through(states, image.sections, decoders));
}

/// The objects that reading sections goes through.
#[verifier::spinoff_prover]
proof fn lemma_states<F, G>(
    object: ObjectView,
    sections: Seq<RawSectionView>,
    decoders: BtfDecoders<F, G>,
    outcome: Option<Result<ObjectView, BpfErrorView>>,
) -> (states: Seq<ObjectView>) where
    F: Fn(&[u8], Endianness) -> Result<Btf, BtfError>,
    G: Fn(&[u8], Endianness) -> Result<BtfExt, BtfError>,

    requires
        sections_read(object, sections, decoders, outcome),
    ensures
        goes_through(states, sections, decoders),
        ends_in(states, sections, decoders, outcome),
        states[0] == object,
    decreases sections.len(),
{
    if sections.len() == 0 {
        seq![object]
    } else if section_of(sections[0]) is Err {
        seq![object]
    } else {
        let section = section_of(sections[0])->Ok_0;
        if !accepts(object, section) {
            seq![object]
        } else {
            let rest = sections.drop_first();
            let (after, result) = choose|after: ObjectView, result: Result<(), BpfErrorView>|
                #[trigger]
                section_read(object, section, decoders, after, result) && (match result {
                    Ok(()) => sections_read(after, rest, decoders, outcome),
                    Err(error) => outcome == Some(Err::<ObjectView, BpfErrorView>(error)),
                });
            match result {
                Ok(done) => {
                    assert(done == ());
                    let later = lemma_states(after, rest, decoders, outcome);
                    let states = seq![object] + later;
                    assert forall|j: int, k: int|
                        0 <= j && k == j + 1 && k < states.len() implies #[trigger] takes_in(
                        states[j],
                        sections[j],
                        decoders,
                        states[k],
                    ) by {
                        assert(states[k] == later[j]);
                        if j > 0 {
                            assert(states[j] == later[j - 1]);
                            assert(sections[j] == rest[j - 1]);
                            assert(takes_in(later[j - 1], rest[j - 1], decoders, later[j]));
                        }
                    }
                    assert(goes_through(states, sections, decoders));
                    assert(states.last() == later.last());
                    assert(states.len() - 1 < sections.len() ==> sections[states.len() - 1]
                        == rest[later.len() - 1]);
                    states
                },
                Err(error) => {
                    assert(section_read(object, section, decoders, after, Err(error)));
                    seq![object]
                },
            }
        }
    }
}

} // verus!
