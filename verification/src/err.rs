//! The error taxonomy: one variant per violated field condition.

use vstd::prelude::*;

verus! {

/// Every way a decode can fail. Each variant names the specific field
/// whose validation was violated; decoding stops at the first failure
/// and never returns a partially populated structure.
#[derive(Clone, Copy, Debug, PartialEq, Eq, Structural)]
pub enum GptError {
    /// The header signature is not the ASCII string "EFI PART".
    HdrSignature,
    /// The header revision is not 0x00010000.
    HdrRevision,
    /// The header size is below 92 or above the logical block size.
    HdrSize,
    /// The stored header CRC-32 does not match a recomputation.
    HdrCrc32,
    /// The two-byte unknown MBR field is not zero.
    MbrUnknownNonZero,
    /// The four-byte MBR disk signature is not all zero.
    MbrDiskSignature,
    /// The trailing MBR signature is not 0xAA55.
    MbrSignature,
    /// A partition record's starting CHS is not the protective constant.
    MbrPRStartingChs,
    /// A partition record's ending CHS is not the protective constant.
    MbrPREndingChs,
    /// A partition record's OS type byte is not 0xEE.
    MbrPROsType,
    /// A partition record's starting LBA is not 1.
    MbrPRStartingLba,
    /// A GUID field has the wrong length or holds non-alphabetic bytes.
    PartUUID,
}

} // verus!
