//! The license under which programs are loaded.

use crate::error::{ParseError, ParseErrorView};
use vstd::prelude::*;
use vstd::slice::{slice_subrange, slice_to_vec};

verus! {

/// A license string: bytes of which none is zero, so that the kernel can be
/// handed the string with a zero byte behind it.
#[derive(Debug)]
pub struct License {
    bytes: Vec<u8>,
}

impl View for License {
    type V = Seq<u8>;

    closed spec fn view(&self) -> Seq<u8> {
        self.bytes@
    }
}

impl License {
    #[verifier::type_invariant]
    spec fn holds_no_zero(self) -> bool {
        !self.bytes@.contains(0u8)
    }

    /// Makes a license of `bytes`, unless one of them is zero.
    pub fn new(bytes: Vec<u8>) -> (license: Option<License>)
        ensures
            match license {
                Some(license) => !bytes@.contains(0u8) && license@ == bytes@,
                None => bytes@.contains(0u8),
            },
    {
        let mut i: usize = 0;
        while i < bytes.len()
            invariant
                i <= bytes@.len(),
                forall|j: int| 0 <= j < i ==> bytes@[j] != 0,
            decreases bytes@.len() - i,
        {
            if bytes[i] == 0 {
                assert(bytes@[i as int] == 0u8);
                return None;
            }
            i = i + 1;
        }
        Some(License { bytes })
    }

    /// The bytes of the license, without a zero byte at the end.
    pub fn as_bytes(&self) -> (bytes: &[u8])
        ensures
            bytes@ == self@,
            !bytes@.contains(0u8),
    {
        proof {
            use_type_invariant(self);
        }
        self.bytes.as_slice()
    }
}

impl Clone for License {
    fn clone(&self) -> (copy: License)
        ensures
            copy@ == self@,
    {
        proof {
            use_type_invariant(self);
        }
        License { bytes: slice_to_vec(self.bytes.as_slice()) }
    }
}

/// The license that the contents of a license section stand for: at least
/// two bytes, of which the last one and no other is zero.
pub open spec fn license_of(data: Seq<u8>) -> Result<Seq<u8>, ParseErrorView> {
    if data.len() < 2 {
        Err(ParseErrorView::InvalidLicense { data })
    } else if data.last() != 0 {
        Err(ParseErrorView::MissingLicenseNullTerminator { data })
    } else if data.drop_last().contains(0u8) {
        Err(ParseErrorView::InvalidLicense { data })
    } else {
        Ok(data.drop_last())
    }
}

/// Reads the contents of a license section.
pub fn parse_license(data: &[u8]) -> (result: Result<License, ParseError>)
    ensures
        match result {
            Ok(license) => license_of(data@) == Ok::<Seq<u8>, ParseErrorView>(license@),
            Err(error) => license_of(data@) == Err::<Seq<u8>, ParseErrorView>(error@),
        },
{
    let length: usize = data.len();
    if length < 2 {
        return Err(ParseError::InvalidLicense { data: slice_to_vec(data) });
    }
    if data[length - 1] != 0 {
        return Err(ParseError::MissingLicenseNullTerminator { data: slice_to_vec(data) });
    }
    let text = slice_subrange(data, 0, length - 1);
    assert(text@ == data@.drop_last());
    match License::new(slice_to_vec(text)) {
        Some(license) => Ok(license),
        None => Err(ParseError::InvalidLicense { data: slice_to_vec(data) }),
    }
}

/// Law: a license of at least one byte comes back from the section that holds
/// it with a zero byte behind it.
pub proof fn law_license_round_trip(license: Seq<u8>)
    requires
        license.len() > 0,
        !license.contains(0u8),
    ensures
        license_of(license.push(0)) == Ok::<Seq<u8>, ParseErrorView>(license),
{
    assert(license.push(0).drop_last() == license);
}

/// Law: what is accepted as a license is not empty, holds no zero byte, and
/// was followed by one.
pub proof fn law_license_has_no_zero(data: Seq<u8>)
    ensures
        license_of(data) matches Ok(license) ==> {
            &&& license.len() > 0
            &&& !license.contains(0u8)
            &&& data == license.push(0)
        },
{
    if license_of(data) is Ok {
        assert(data == data.drop_last().push(0));
    }
}

} // verus!
