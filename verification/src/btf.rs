//! Type information, as its decoders hand it over.

use crate::endian::Endianness;
use crate::error::BtfError;
use vstd::prelude::*;

verus! {

/// Type information that its decoder has accepted: what it makes of the
/// section, and the byte order in which that is to be read.
#[derive(Debug, Clone)]
pub struct Btf {
    pub data: Vec<u8>,
    pub endianness: Endianness,
}

/// Type information about functions and lines that its decoder has accepted:
/// what it makes of the section, and the byte order in which that is to be read.
#[derive(Debug, Clone)]
pub struct BtfExt {
    pub data: Vec<u8>,
    pub endianness: Endianness,
}

/// The decoders of the two kinds of type information. Each is given the
/// contents of a section and the byte order of the file.
pub struct BtfDecoders<F, G> {
    pub btf: F,
    pub btf_ext: G,
}

impl<F, G> BtfDecoders<F, G> where
    F: Fn(&[u8], Endianness) -> Result<Btf, BtfError>,
    G: Fn(&[u8], Endianness) -> Result<BtfExt, BtfError>,
 {
    /// Whether the decoders can be asked about every section.
    pub open spec fn callable(self) -> bool {
        &&& forall|data: &[u8], order: Endianness| #[trigger]
            call_requires(self.btf, (data, order))
        &&& forall|data: &[u8], order: Endianness| #[trigger]
            call_requires(self.btf_ext, (data, order))
    }

    /// Whether `reply` is an answer of the first decoder about `data`.
    pub open spec fn btf_replies(
        self,
        data: Seq<u8>,
        order: Endianness,
        reply: Result<Btf, BtfError>,
    ) -> bool {
        exists|slice: &[u8]|
            slice@ == data && #[trigger] call_ensures(self.btf, (slice, order), reply)
    }

    /// Whether `reply` is an answer of the second decoder about `data`.
    pub open spec fn btf_ext_replies(
        self,
        data: Seq<u8>,
        order: Endianness,
        reply: Result<BtfExt, BtfError>,
    ) -> bool {
        exists|slice: &[u8]|
            slice@ == data && #[trigger] call_ensures(self.btf_ext, (slice, order), reply)
    }
}

} // verus!
