//! From a file to the object that it holds.

use crate::btf::{Btf, BtfDecoders, BtfExt};
use crate::code::code_fits;
use crate::elf::{
    is_complaint, items_view, may_refuse, read_from, starts_like_elf, ElfImage, ElfImageView,
};
use crate::endian::{is_host_order, Endianness};
use crate::error::{BpfError, BpfErrorView, BtfError, ParseError, ParseErrorView};
use crate::license::{license_of, parse_license, License};
use crate::load_laws::law_loading_gives_no_elf_error;
use crate::object::{
    empty_object, is_code_name, lemma_values_view_insert, role_of, section_read, values_view,
    Object, ObjectView,
};
use crate::section::{
    section_of, ElfSection, ElfSymbol, RawSection, RawSectionView, SectionView, SymbolView,
};
use crate::text::same;
use crate::version::{parse_version, version_of, KernelVersion};
use std::collections::HashMap;
use vstd::prelude::*;

verus! {

broadcast use vstd::std_specs::hash::group_hash_axioms;

/// The license of objects that do not name one: `GPL`.
pub open spec fn default_license() -> Seq<u8> {
    seq![0x47u8, 0x50, 0x4c]
}

/// The first section with a given name.
pub open spec fn first_named(sections: Seq<RawSectionView>, name: Seq<char>) -> Option<
    RawSectionView,
>
    decreases sections.len(),
{
    if sections.len() == 0 {
        None
    } else if sections[0].name == Ok::<Seq<char>, Seq<char>>(name) {
        Some(sections[0])
    } else {
        first_named(sections.drop_first(), name)
    }
}

/// The license that a file names.
pub open spec fn license_in(image: ElfImageView) -> Result<Seq<u8>, ParseErrorView> {
    match first_named(image.sections, "license"@) {
        Some(raw) => match section_of(raw) {
            Ok(section) => license_of(section.data),
            Err(error) => Err(error),
        },
        None => Ok(default_license()),
    }
}

/// The kernel version that a file names.
pub open spec fn version_in(image: ElfImageView) -> Result<KernelVersion, ParseErrorView> {
    match first_named(image.sections, "version"@) {
        Some(raw) => match section_of(raw) {
            Ok(section) => version_of(section.data, image.endianness),
            Err(error) => Err(error),
        },
        None => Ok(KernelVersion::Any),
    }
}

/// The symbols by their indices; of several with one index, the last.
pub open spec fn symbols_by_index(symbols: Seq<SymbolView>) -> Map<usize, SymbolView>
    decreases symbols.len(),
{
    if symbols.len() == 0 {
        Map::empty()
    } else {
        symbols_by_index(symbols.drop_last()).insert(symbols.last().index, symbols.last())
    }
}

/// Whether `object` can take in a section: it is not read as code, or it fits
/// the symbols of the object.
pub open spec fn accepts(object: ObjectView, section: SectionView) -> bool {
    role_of(section.name) is Text ==> code_fits(object.symbols_by_index, section)
}

/// Whether reading `sections` one after the other into `object` can end in
/// `outcome`. The first error ends the reading. There is no outcome at all
/// where it comes to a code section that does not fit the symbols.
pub open spec fn sections_read<F, G>(
    object: ObjectView,
    sections: Seq<RawSectionView>,
    decoders: BtfDecoders<F, G>,
    outcome: Option<Result<ObjectView, BpfErrorView>>,
) -> bool where
    F: Fn(&[u8], Endianness) -> Result<Btf, BtfError>,
    G: Fn(&[u8], Endianness) -> Result<BtfExt, BtfError>,

    decreases sections.len(),
{
    if sections.len() == 0 {
        outcome == Some(Ok::<ObjectView, BpfErrorView>(object))
    } else {
        match section_of(sections[0]) {
            Err(error) => outcome == Some(
                Err::<ObjectView, BpfErrorView>(BpfErrorView::ParseError(error)),
            ),
            Ok(section) => if accepts(object, section) {
                exists|after: ObjectView, result: Result<(), BpfErrorView>| #[trigger]
                    section_read(object, section, decoders, after, result) && (match result {
                        Ok(()) => sections_read(after, sections.drop_first(), decoders, outcome),
                        Err(error) => outcome == Some(Err::<ObjectView, BpfErrorView>(error)),
                    })
            } else {
                outcome is None
            },
        }
    }
}

/// The object that sections of a file are read into.
pub open spec fn fresh_object(
    image: ElfImageView,
    host: Endianness,
    license: Seq<u8>,
    kernel_version: KernelVersion,
) -> ObjectView {
    ObjectView {
        symbols_by_index: symbols_by_index(image.symbols),
        ..empty_object(image.endianness, host, license, kernel_version)
    }
}

/// Whether loading a file on this machine can end in `outcome`.
pub open spec fn loads<F, G>(
    image: ElfImageView,
    decoders: BtfDecoders<F, G>,
    outcome: Option<Result<ObjectView, BpfErrorView>>,
) -> bool where
    F: Fn(&[u8], Endianness) -> Result<Btf, BtfError>,
    G: Fn(&[u8], Endianness) -> Result<BtfExt, BtfError>,
 {
    match (license_in(image), version_in(image)) {
        (Err(error), _) => outcome == Some(
            Err::<ObjectView, BpfErrorView>(BpfErrorView::ParseError(error)),
        ),
        (_, Err(error)) => outcome == Some(
            Err::<ObjectView, BpfErrorView>(BpfErrorView::ParseError(error)),
        ),
        (Ok(license), Ok(kernel_version)) => exists|host: Endianness|
            is_host_order(host) && #[trigger] sections_read(
                fresh_object(image, host, license, kernel_version),
                image.sections,
                decoders,
                outcome,
            ),
    }
}

/// The content of the outcome of loading a file.
pub open spec fn load_outcome(result: Option<Result<Object, BpfError>>) -> Option<
    Result<ObjectView, BpfErrorView>,
> {
    match result {
        Some(Ok(object)) => Some(Ok(object@)),
        Some(Err(error)) => Some(Err(error@)),
        None => None,
    }
}

/// The outcome of a file that cannot be opened as an ELF file.
pub open spec fn elf_error(message: Seq<char>) -> Option<Result<ObjectView, BpfErrorView>> {
    Some(Err(BpfErrorView::ParseError(ParseErrorView::ElfError(message))))
}

/// Whether the file with the bytes `data` was refused because these bytes
/// could not be opened as an ELF file.
pub open spec fn unreadable(
    data: Seq<u8>,
    outcome: Option<Result<ObjectView, BpfErrorView>>,
) -> bool {
    exists|message: Seq<char>|
        is_complaint(message) && may_refuse(data, message) && outcome == #[trigger] elf_error(
            message,
        )
}

/// Looks for the first section with a given name.
fn find_section<'b, 'a>(sections: &'b Vec<RawSection<'a>>, name: &str) -> (found: Option<
    &'b RawSection<'a>,
>)
    ensures
        first_named(items_view(sections@), name@) == (match found {
            Some(section) => Some(section@),
            None => None::<RawSectionView>,
        }),
{
    let mut i: usize = 0;
    assert(items_view(sections@).skip(0) == items_view(sections@));
    while i < sections.len()
        invariant
            i <= sections@.len(),
            first_named(items_view(sections@), name@) == first_named(
                items_view(sections@).skip(i as int),
                name@,
            ),
        decreases sections@.len() - i,
    {
        assert(items_view(sections@).skip(i as int).drop_first() == items_view(sections@).skip(
            i + 1,
        ));
        if let Ok(found) = &sections[i].name {
            if same(found.as_str(), name) {
                return Some(&sections[i]);
            }
        }
        i = i + 1;
    }
    None
}

/// Reads the license that a file names.
fn read_license(image: &ElfImage) -> (result: Result<License, ParseError>)
    ensures
        match result {
            Ok(license) => license_in(image@) == Ok::<Seq<u8>, ParseErrorView>(license@),
            Err(error) => license_in(image@) == Err::<Seq<u8>, ParseErrorView>(error@),
        },
{
    match find_section(&image.sections, "license") {
        Some(raw) => match ElfSection::try_from(raw) {
            Ok(section) => parse_license(section.data),
            Err(error) => Err(error),
        },
        None => {
            let bytes: Vec<u8> = vec![0x47, 0x50, 0x4c];
            assert(bytes@ == default_license());
            match License::new(bytes) {
                Some(license) => Ok(license),
                // The bytes hold no zero.
                None => Err(ParseError::InvalidLicense { data: Vec::new() }),
            }
        },
    }
}

/// Reads the kernel version that a file names.
fn read_version(image: &ElfImage) -> (result: Result<KernelVersion, ParseError>)
    ensures
        match result {
            Ok(version) => version_in(image@) == Ok::<KernelVersion, ParseErrorView>(version),
            Err(error) => version_in(image@) == Err::<KernelVersion, ParseErrorView>(error@),
        },
{
    match find_section(&image.sections, "version") {
        Some(raw) => match ElfSection::try_from(raw) {
            Ok(section) => parse_version(section.data, image.endianness),
            Err(error) => Err(error),
        },
        None => Ok(KernelVersion::Any),
    }
}

/// Arranges symbols by their indices.
fn index_symbols(symbols: &Vec<ElfSymbol>) -> (index: HashMap<usize, ElfSymbol>)
    ensures
        values_view(index@) == symbols_by_index(items_view(symbols@)),
{
    let mut index: HashMap<usize, ElfSymbol> = HashMap::new();
    let mut i: usize = 0;
    assert(values_view(index@) =~= Map::<usize, SymbolView>::empty());
    while i < symbols.len()
        invariant
            i <= symbols@.len(),
            values_view(index@) == symbols_by_index(items_view(symbols@).take(i as int)),
        decreases symbols@.len() - i,
    {
        let symbol = symbols[i].duplicate();
        proof {
            lemma_values_view_insert(index@, symbol.index, symbol);
            let seen = items_view(symbols@).take(i + 1);
            assert(seen.drop_last() == items_view(symbols@).take(i as int));
            assert(seen.last() == symbol@);
        }
        index.insert(symbol.index, symbol);
        i = i + 1;
    }
    assert(items_view(symbols@).take(i as int) == items_view(symbols@));
    index
}

impl Object {
    /// Whether a section can be taken in: it is not read as code, or it fits
    /// the symbols of the object.
    pub fn accepts_section(&self, section: &ElfSection) -> (accepted: bool)
        ensures
            accepted == accepts(self@, section@),
    {
        !is_code_name(section.name) || self.text_section_fits(section)
    }

    /// Loads what a file holds. There is no outcome where reading comes to a
    /// code section that does not fit the symbols of the file.
    pub fn load<F, G>(image: &ElfImage, decoders: &BtfDecoders<F, G>) -> (result: Option<
        Result<Object, BpfError>,
    >) where
        F: Fn(&[u8], Endianness) -> Result<Btf, BtfError>,
        G: Fn(&[u8], Endianness) -> Result<BtfExt, BtfError>,

        requires
            decoders.callable(),
        ensures
            loads(image@, *decoders, load_outcome(result)),
    {
        let license = match read_license(image) {
            Ok(license) => license,
            Err(error) => {
                return Some(Err(BpfError::ParseError(error)));
            },
        };
        let kernel_version = match read_version(image) {
            Ok(kernel_version) => kernel_version,
            Err(error) => {
                return Some(Err(BpfError::ParseError(error)));
            },
        };
        let ghost named = license@;
        let mut object = Object::new(image.endianness, license, kernel_version);
        object.symbols_by_index = index_symbols(&image.symbols);
        let ghost start = object@;
        assert(start == fresh_object(image@, object.host, named, kernel_version));
        let ghost sections = items_view(image.sections@);
        let mut i: usize = 0;
        assert(sections.skip(0) == sections);
        while i < image.sections.len()
            invariant
                i <= image.sections@.len(),
                sections == items_view(image.sections@),
                decoders.callable(),
                loads_from(image@, *decoders, start),
                forall|outcome: Option<Result<ObjectView, BpfErrorView>>| #[trigger]
                    sections_read(object@, sections.skip(i as int), *decoders, outcome)
                        ==> sections_read(start, sections, *decoders, outcome),
            decreases image.sections@.len() - i,
        {
            let ghost rest = sections.skip(i as int);
            let ghost before = object@;
            assert(rest.drop_first() == sections.skip(i + 1));
            assert(rest[0] == image.sections@[i as int]@);
            let section = match ElfSection::try_from(&image.sections[i]) {
                Ok(section) => section,
                Err(error) => {
                    let result = Some(Err(BpfError::ParseError(error)));
                    assert(sections_read(before, rest, *decoders, load_outcome(result)));
                    return result;
                },
            };
            if !object.accepts_section(&section) {
                assert(sections_read(before, rest, *decoders, None));
                return None;
            }
            let ghost content = section@;
            match object.parse_section(section, decoders) {
                Ok(()) => {
                    assert(section_read(before, content, *decoders, object@, Ok(())));
                    assert forall|outcome: Option<Result<ObjectView, BpfErrorView>>| #[trigger]
                        sections_read(object@, sections.skip(i + 1), *decoders, outcome) implies
                        sections_read(start, sections, *decoders, outcome) by {
                        assert(sections_read(before, rest, *decoders, outcome));
                    }
                },
                Err(error) => {
                    let result = Some(Err(error));
                    assert(sections_read(before, rest, *decoders, load_outcome(result)));
                    return result;
                },
            }
            i = i + 1;
        }
        assert(sections_read(
            object@,
            sections.skip(i as int),
            *decoders,
            Some(Ok::<ObjectView, BpfErrorView>(object@)),
        ));
        Some(Ok(object))
    }

    /// Reads the object file whose bytes are `data`. There is no outcome where
    /// reading comes to a code section that does not fit the symbols of the
    /// file.
    pub fn parse<F, G>(data: &[u8], decoders: &BtfDecoders<F, G>) -> (result: Option<
        Result<Object, BpfError>,
    >) where
        F: Fn(&[u8], Endianness) -> Result<Btf, BtfError>,
        G: Fn(&[u8], Endianness) -> Result<BtfExt, BtfError>,

        requires
            decoders.callable(),
        ensures
            unreadable(data@, load_outcome(result)) || exists|image: ElfImageView| #[trigger]
                read_from(data@, image) && loads(image, *decoders, load_outcome(result)),
            !starts_like_elf(data@, Endianness::Little) && !starts_like_elf(data@, Endianness::Big)
                ==> unreadable(data@, load_outcome(result)),
            result matches Some(Err(BpfError::ParseError(ParseError::ElfError(_)))) ==> unreadable(
                data@,
                load_outcome(result),
            ),
    {
        match ElfImage::read(data) {
            Ok(image) => {
                assert(read_from(data@, image@));
                let result = Object::load(&image, decoders);
                proof {
                    let outcome = load_outcome(result);
                    if let Some(Err(BpfErrorView::ParseError(ParseErrorView::ElfError(message)))) =
                        outcome {
                        law_loading_gives_no_elf_error(image@, *decoders, message);
                    }
                }
                result
            },
            Err(error) => {
                let ghost message = error@;
                let result = Some(Err(BpfError::ParseError(ParseError::ElfError(error))));
                assert(load_outcome(result) == elf_error(message));
                result
            },
        }
    }
}

/// Whether reading the sections of a file into `start` is how it is loaded.
spec fn loads_from<F, G>(
    image: ElfImageView,
    decoders: BtfDecoders<F, G>,
    start: ObjectView,
) -> bool where
    F: Fn(&[u8], Endianness) -> Result<Btf, BtfError>,
    G: Fn(&[u8], Endianness) -> Result<BtfExt, BtfError>,
 {
    forall|outcome: Option<Result<ObjectView, BpfErrorView>>| #[trigger]
        sections_read(start, image.sections, decoders, outcome) ==> loads(image, decoders, outcome)
}

} // verus!
