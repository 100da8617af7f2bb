//! The kernel version that an object asks for.

use crate::endian::{read_u32, u32_bytes, u32_of, Endianness};
use crate::error::{ParseError, ParseErrorView};
use vstd::prelude::*;
use vstd::slice::slice_to_vec;

verus! {

/// The number that stands for any version.
pub const KERNEL_VERSION_ANY: u32 = 0xFFFF_FFFE;

/// The version of the kernel that programs are compiled for.
#[derive(Copy, Clone, Debug, PartialEq, Eq, Structural)]
pub enum KernelVersion {
    /// One version.
    Version(u32),
    /// Whatever version is running.
    Any,
}

/// The version that a number stands for.
pub open spec fn version_of_number(number: u32) -> KernelVersion {
    if number == KERNEL_VERSION_ANY {
        KernelVersion::Any
    } else {
        KernelVersion::Version(number)
    }
}

/// The number that stands for a version.
pub open spec fn number_of_version(version: KernelVersion) -> u32 {
    match version {
        KernelVersion::Any => KERNEL_VERSION_ANY,
        KernelVersion::Version(number) => number,
    }
}

/// The version that the contents of a version section stand for.
pub open spec fn version_of(data: Seq<u8>, order: Endianness) -> Result<
    KernelVersion,
    ParseErrorView,
> {
    if data.len() == 4 {
        Ok(version_of_number(u32_of(data, order)))
    } else {
        Err(ParseErrorView::InvalidKernelVersion { data })
    }
}

/// Reads the contents of a version section, written in the given byte order.
pub fn parse_version(data: &[u8], endianness: Endianness) -> (result: Result<
    KernelVersion,
    ParseError,
>)
    ensures
        match result {
            Ok(version) => version_of(data@, endianness) == Ok::<KernelVersion, ParseErrorView>(
                version,
            ),
            Err(error) => version_of(data@, endianness) == Err::<KernelVersion, ParseErrorView>(
                error@,
            ),
        },
{
    if data.len() != 4 {
        return Err(ParseError::InvalidKernelVersion { data: slice_to_vec(data) });
    }
    assert(data@.subrange(0, 4) == data@);
    let number: u32 = read_u32(data, 0, endianness);
    if number == KERNEL_VERSION_ANY {
        Ok(KernelVersion::Any)
    } else {
        Ok(KernelVersion::Version(number))
    }
}

impl From<KernelVersion> for u32 {
    fn from(version: KernelVersion) -> (number: u32) {
        match version {
            KernelVersion::Any => KERNEL_VERSION_ANY,
            KernelVersion::Version(number) => number,
        }
    }
}

impl vstd::std_specs::convert::FromSpecImpl<KernelVersion> for u32 {
    open spec fn obeys_from_spec() -> bool {
        true
    }

    open spec fn from_spec(version: KernelVersion) -> u32 {
        number_of_version(version)
    }
}

/// Law: a version section is read back as the number that was written into
/// it, in either byte order.
pub proof fn law_version_round_trip(number: u32, order: Endianness)
    ensures
        version_of(u32_bytes(number, order), order) matches Ok(version) && number_of_version(
            version,
        ) == number,
{
    crate::endian::law_u32_round_trip(number, order);
}

/// Law: no file asks for the version whose number stands for any version.
pub proof fn law_any_has_one_form(data: Seq<u8>, order: Endianness)
    ensures
        version_of(data, order) matches Ok(version) ==> {
            &&& version != KernelVersion::Version(KERNEL_VERSION_ANY)
            &&& version_of_number(number_of_version(version)) == version
        },
{
}

} // verus!
