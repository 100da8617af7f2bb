//! What can go wrong while an object file is read.

use vstd::prelude::*;

verus! {

/// A complaint of the ELF reader, in its own words.
#[derive(Debug, Clone)]
pub struct ReadError {
    pub message: String,
}

impl View for ReadError {
    type V = Seq<char>;

    open spec fn view(&self) -> Seq<char> {
        self.message@
    }
}

impl ReadError {
    /// A copy of the error.
    pub fn duplicate(&self) -> (copy: ReadError)
        ensures
            copy@ == self@,
    {
        ReadError { message: self.message.clone() }
    }
}

/// Why a file was refused.
#[derive(Debug, Clone)]
pub enum ParseError {
    /// The data is not an ELF file that the reader understands.
    ElfError(ReadError),
    /// The license does not end in a zero byte.
    MissingLicenseNullTerminator { data: Vec<u8> },
    /// The license is empty, or holds a zero byte before its end.
    InvalidLicense { data: Vec<u8> },
    /// The kernel version is not four bytes long.
    InvalidKernelVersion { data: Vec<u8> },
    /// The name or the data of a section cannot be read.
    SectionError { index: usize, source: ReadError },
    /// A relocation refers to something other than a symbol.
    UnsupportedRelocationTarget,
    /// No kind of program goes by this name.
    InvalidProgramKind { kind: String },
    /// The code is not a whole number of instructions.
    InvalidProgramCode,
    /// The definition of a map is too short.
    InvalidMapDefinition { name: String },
    /// Two symbols of a section are defined at one address.
    SymbolTableConflict { section_index: usize, address: u64 },
    /// No symbol is defined where a function should start.
    UnknownSymbol { section_index: usize, address: u64 },
    /// The symbol of a function is empty.
    InvalidSymbol { index: usize, name: Option<String> },
}

/// The mathematical content of a [`ParseError`].
pub enum ParseErrorView {
    ElfError(Seq<char>),
    MissingLicenseNullTerminator { data: Seq<u8> },
    InvalidLicense { data: Seq<u8> },
    InvalidKernelVersion { data: Seq<u8> },
    SectionError { index: usize, source: Seq<char> },
    UnsupportedRelocationTarget,
    InvalidProgramKind { kind: Seq<char> },
    InvalidProgramCode,
    InvalidMapDefinition { name: Seq<char> },
    SymbolTableConflict { section_index: usize, address: u64 },
    UnknownSymbol { section_index: usize, address: u64 },
    InvalidSymbol { index: usize, name: Option<Seq<char>> },
}

/// The content of an optional name.
pub open spec fn name_view(name: Option<String>) -> Option<Seq<char>> {
    match name {
        Some(text) => Some(text@),
        None => None,
    }
}

impl View for ParseError {
    type V = ParseErrorView;

    open spec fn view(&self) -> ParseErrorView {
        match *self {
            ParseError::ElfError(source) => ParseErrorView::ElfError(source@),
            ParseError::MissingLicenseNullTerminator { data } =>
                ParseErrorView::MissingLicenseNullTerminator { data: data@ },
            ParseError::InvalidLicense { data } => ParseErrorView::InvalidLicense { data: data@ },
            ParseError::InvalidKernelVersion { data } => ParseErrorView::InvalidKernelVersion {
                data: data@,
            },
            ParseError::SectionError { index, source } => ParseErrorView::SectionError {
                index,
                source: source@,
            },
            ParseError::UnsupportedRelocationTarget => ParseErrorView::UnsupportedRelocationTarget,
            ParseError::InvalidProgramKind { kind } => ParseErrorView::InvalidProgramKind {
                kind: kind@,
            },
            ParseError::InvalidProgramCode => ParseErrorView::InvalidProgramCode,
            ParseError::InvalidMapDefinition { name } => ParseErrorView::InvalidMapDefinition {
                name: name@,
            },
            ParseError::SymbolTableConflict { section_index, address } =>
                ParseErrorView::SymbolTableConflict { section_index, address },
            ParseError::UnknownSymbol { section_index, address } => ParseErrorView::UnknownSymbol {
                section_index,
                address,
            },
            ParseError::InvalidSymbol { index, name } => ParseErrorView::InvalidSymbol {
                index,
                name: name_view(name),
            },
        }
    }
}

/// A complaint of the decoder of type information.
#[derive(Debug, Clone)]
pub struct BtfError {
    pub message: String,
}

/// Why no object came out of a file.
#[derive(Debug, Clone)]
pub enum BpfError {
    /// The file itself is at fault.
    ParseError(ParseError),
    /// The type information in the file was refused by its decoder.
    BtfError(BtfError),
}

/// The mathematical content of a [`BpfError`].
pub enum BpfErrorView {
    ParseError(ParseErrorView),
    BtfError(BtfError),
}

impl View for BpfError {
    type V = BpfErrorView;

    open spec fn view(&self) -> BpfErrorView {
        match *self {
            BpfError::ParseError(error) => BpfErrorView::ParseError(error@),
            BpfError::BtfError(error) => BpfErrorView::BtfError(error),
        }
    }
}

} // verus!
