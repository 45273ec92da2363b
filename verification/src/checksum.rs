//! The CRC-32 primitive the header self-check leans on.
//!
//! The algorithm itself is out of scope here: it is a pure function
//! of the input bytes, computed by an outside crate and named below
//! so that contracts can speak of its result.

use vstd::prelude::*;

verus! {

/// The CRC-32 checksum (ISO HDLC polynomial) of a byte sequence.
/// The result depends on the bytes alone.
pub uninterp spec fn crc32_of(bytes: Seq<u8>) -> u32;

/// Relies on crc::Crc::<u32>::checksum with the CRC_32_ISO_HDLC
/// algorithm: a table-driven checksum whose result is a function of
/// the input bytes alone.
#[verifier::external_body]
pub(crate) fn crc32_checksum(bytes: &[u8]) -> (r: u32)
    ensures
        r == crc32_of(bytes@),
{
    let crc = crc::Crc::<u32>::new(&crc::CRC_32_ISO_HDLC);
    crc.checksum(bytes)
}

} // verus!
