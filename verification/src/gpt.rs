//! The facade: a configuration object holding the logical block size
//! and exposing one decode and one encode operation per structure.
//! It performs no validation of its own; it is pure composition,
//! threading the block size into the header's size-bound check and
//! into the default output buffer length.

use vstd::prelude::*;

use crate::entry::{table_slice, table_wire, entry_valid, entry_matches, PartTableEntry};
use crate::err::GptError;
use crate::hdr::{hdr_err, hdr_matches, hdr_valid, hdr_wire, Header};
use crate::mbr::{mbr_err, mbr_matches, mbr_valid, mbr_wire, ProtectiveMbr};

verus! {

/// The block size of the underlying device: 512 or 4096 bytes.
#[derive(Debug, Clone, Copy, PartialEq, Eq)]
pub enum LogicalBlockSize {
    Lb512,
    Lb4096,
}

impl LogicalBlockSize {
    /// The size in bytes.
    pub open spec fn spec_bytes(&self) -> int {
        match self {
            LogicalBlockSize::Lb512 => 512,
            LogicalBlockSize::Lb4096 => 4096,
        }
    }

    /// The size in bytes.
    pub fn bytes(&self) -> (r: u32)
        ensures
            r == self.spec_bytes(),
    {
        match self {
            LogicalBlockSize::Lb512 => 512,
            LogicalBlockSize::Lb4096 => 4096,
        }
    }
}

/// One decode and one encode entry point per GPT structure, bound to
/// a chosen logical block size.
pub struct GuidPartTable {
    /// The configured logical block size.
    pub lbs: LogicalBlockSize,
}

impl GuidPartTable {
    /// Binds the codecs to a logical block size.
    pub fn new(lbs: LogicalBlockSize) -> (r: Self)
        ensures
            r.lbs == lbs,
    {
        GuidPartTable { lbs }
    }

    /// Decodes a GPT header from one logical block, threading the
    /// configured block size into the header-size bound check.
    pub fn parse_header(&self, data: &[u8]) -> (r: Result<Header, GptError>)
        requires
            self.lbs.spec_bytes() <= data@.len(),
        ensures
            match r {
                Ok(h) => hdr_valid(data@, self.lbs.spec_bytes()) && hdr_matches(h, data@),
                Err(e) => !hdr_valid(data@, self.lbs.spec_bytes()) && e == hdr_err(
                    data@,
                    self.lbs.spec_bytes(),
                ),
            },
    {
        Header::deserialize(data, self.lbs.bytes())
    }

    /// Encodes a header into one logical block.
    pub fn serialize_header(&self, header: &Header) -> (r: Vec<u8>)
        ensures
            r@ == hdr_wire(*header, self.lbs.spec_bytes()),
            r@.len() == self.lbs.spec_bytes(),
    {
        header.serialize(self.lbs.bytes() as usize)
    }

    /// Decodes a protective MBR from one logical block.
    pub fn parser_mbr(&self, data: &[u8]) -> (r: Result<ProtectiveMbr, GptError>)
        requires
            self.lbs.spec_bytes() <= data@.len(),
        ensures
            match r {
                Ok(m) => mbr_valid(data@) && mbr_matches(m, data@),
                Err(e) => !mbr_valid(data@) && e == mbr_err(data@),
            },
    {
        ProtectiveMbr::deserialize(data)
    }

    /// Encodes a protective MBR into one logical block.
    pub fn serialize_mbr(&self, mbr: &ProtectiveMbr) -> (r: Vec<u8>)
        ensures
            r@ == mbr_wire(*mbr, self.lbs.spec_bytes()),
            r@.len() == self.lbs.spec_bytes(),
    {
        mbr.serialize(self.lbs.bytes() as usize)
    }

    /// Decodes a partition entry array buffer with the given
    /// per-entry size; a short trailing remainder is dropped.
    pub fn parse_part_table(&self, data: &[u8], part_entry_size: usize) -> (r: Result<
        PartTableEntry,
        GptError,
    >)
        requires
            part_entry_size >= 72,
        ensures
            ({
                let n = data@.len() as int / part_entry_size as int;
                match r {
                    Ok(t) => {
                        &&& t.entries@.len() == n
                        &&& forall|i: int|
                            0 <= i < n ==> entry_valid(
                                #[trigger] table_slice(data@, part_entry_size as int, i),
                            ) && entry_matches(
                                t.entries@[i],
                                table_slice(data@, part_entry_size as int, i),
                            )
                    },
                    Err(e) => {
                        &&& !(forall|i: int|
                            0 <= i < n ==> entry_valid(
                                #[trigger] table_slice(data@, part_entry_size as int, i),
                            ))
                        &&& e == GptError::PartUUID
                    },
                }
            }),
    {
        PartTableEntry::generate_part_entries(data, part_entry_size)
    }

    /// Encodes a partition entry array with the given per-entry size.
    pub fn serialize_parse_entries(&self, part_table: &PartTableEntry, part_entry_size: usize) -> (r:
        Vec<u8>)
        requires
            part_entry_size >= 72,
            part_table.entries@.len() * part_entry_size <= usize::MAX,
        ensures
            r@ == table_wire(part_table.entries@, part_entry_size as int),
            r@.len() == part_table.entries@.len() * part_entry_size,
    {
        part_table.serialize_part_entries(part_entry_size)
    }
}

} // verus!
