//! The GPT header codec: decode with structural validation and
//! CRC-32 self-check, and byte-exact encode.
//!
//! Wire layout (all integers little-endian): signature at byte 0,
//! revision at 8, header size at 12, header CRC-32 at 16, reserved at
//! 20, then my/alternate/first-usable/last-usable LBA, the disk GUID
//! at 56, the entry array LBA at 72, the entry count at 80, the entry
//! size at 84 and the entry array CRC-32 at 88; 92 bytes in all, the
//! rest of the block reserved.

use vstd::prelude::*;
use vstd::bytes::{spec_u32_from_le_bytes, spec_u64_from_le_bytes};
use vstd::bytes::{spec_u32_to_le_bytes, spec_u64_to_le_bytes};
use vstd::bytes::u64_from_le_bytes;
use vstd::bytes::{lemma_auto_spec_u32_to_from_le_bytes, lemma_auto_spec_u64_to_from_le_bytes};
use vstd::slice::{slice_subrange, slice_to_vec};

use crate::checksum::{crc32_checksum, crc32_of};
use crate::err::GptError;
use crate::parse::{pad_zero, push_bytes, push_u32, push_u64, LittleEndianBytes};
use crate::uuid::{guid_bytes_ok, PartUUID};

verus! {

/// The ASCII string "EFI PART" read as a little-endian u64.
pub const HDR_SIGNATURE: u64 = 0x5452415020494645;

/// The only legal header revision, 1.0.
pub const HDR_REVISION: u32 = 0x00010000;

/// The primary structural header of a GPT disk.
#[derive(Clone, Debug, PartialEq, Eq)]
pub struct Header {
    /// Identifies an EFI-compatible partition table header; must hold
    /// the ASCII string "EFI PART".
    pub signature: [u8; 8],
    /// The header revision; must be 0x00010000.
    pub revision: u32,
    /// Size in bytes of the header: at least 92 and at most the
    /// logical block size.
    pub header_size: u32,
    /// CRC-32 of the first `header_size` bytes with this field zeroed.
    pub header_crc32: u32,
    /// Must be zero on a well-formed disk; read without validation.
    pub reserved: u32,
    /// The LBA that holds this header.
    pub my_lba: u64,
    /// The LBA of the alternate header.
    pub alternate_lba: u64,
    /// The first usable LBA for partition contents.
    pub first_usable_lba: u64,
    /// The last usable LBA for partition contents.
    pub last_usable_lba: u64,
    /// A GUID identifying the disk.
    pub disk_guid: PartUUID,
    /// The starting LBA of the partition entry array.
    pub part_entry_lba: u64,
    /// The number of partition entries in the array.
    pub num_part_entries: u32,
    /// The size in bytes of each partition entry.
    pub part_entry_size: u32,
    /// The CRC-32 of the partition entry array; carried, not checked
    /// here, since the array is decoded separately.
    pub crc32_part_entry_array: u32,
}

/// The first `hs` stored bytes with the CRC-32 field (bytes 16..20)
/// zeroed: the input over which the header checksum is computed.
pub open spec fn spec_crc_input(data: Seq<u8>, hs: int) -> Seq<u8> {
    data.subrange(0, hs).update(16, 0u8).update(17, 0u8).update(18, 0u8).update(19, 0u8)
}

/// True when the first 8 bytes spell "EFI PART".
pub open spec fn hdr_sig_ok(data: Seq<u8>) -> bool {
    spec_u64_from_le_bytes(data.subrange(0, 8)) == HDR_SIGNATURE
}

/// True when the revision field holds 0x00010000.
pub open spec fn hdr_rev_ok(data: Seq<u8>) -> bool {
    spec_u32_from_le_bytes(data.subrange(8, 12)) == HDR_REVISION
}

/// The stored header-size field.
pub open spec fn spec_header_size(data: Seq<u8>) -> u32 {
    spec_u32_from_le_bytes(data.subrange(12, 16))
}

/// True when the stored header size lies in [92, logical block size].
pub open spec fn hdr_size_ok(data: Seq<u8>, lbs: int) -> bool {
    92 <= spec_header_size(data) && spec_header_size(data) <= lbs
}

/// True when the stored CRC-32 equals the checksum of the first
/// `header_size` bytes with the CRC field zeroed.
pub open spec fn hdr_crc_ok(data: Seq<u8>) -> bool {
    spec_u32_from_le_bytes(data.subrange(16, 20)) == crc32_of(
        spec_crc_input(data, spec_header_size(data) as int),
    )
}

/// True when the stored disk GUID passes GUID construction.
pub open spec fn hdr_guid_ok(data: Seq<u8>) -> bool {
    guid_bytes_ok(data.subrange(56, 72))
}

/// True exactly when a buffer decodes to a header, checked in the
/// decode order: signature, revision, size bound, checksum, GUID.
pub open spec fn hdr_valid(data: Seq<u8>, lbs: int) -> bool {
    &&& hdr_sig_ok(data)
    &&& hdr_rev_ok(data)
    &&& hdr_size_ok(data, lbs)
    &&& hdr_crc_ok(data)
    &&& hdr_guid_ok(data)
}

/// The error a failing header decode reports: that of the first
/// violated check in decode order.
pub open spec fn hdr_err(data: Seq<u8>, lbs: int) -> GptError {
    if !hdr_sig_ok(data) {
        GptError::HdrSignature
    } else if !hdr_rev_ok(data) {
        GptError::HdrRevision
    } else if !hdr_size_ok(data, lbs) {
        GptError::HdrSize
    } else if !hdr_crc_ok(data) {
        GptError::HdrCrc32
    } else {
        GptError::PartUUID
    }
}

/// True when every field of `h` equals the value stored in `data`.
/// Any two headers matching the same buffer are equal field for field.
pub open spec fn hdr_matches(h: Header, data: Seq<u8>) -> bool {
    &&& h.signature@ == data.subrange(0, 8)
    &&& h.revision == spec_u32_from_le_bytes(data.subrange(8, 12))
    &&& h.header_size == spec_u32_from_le_bytes(data.subrange(12, 16))
    &&& h.header_crc32 == spec_u32_from_le_bytes(data.subrange(16, 20))
    &&& h.reserved == spec_u32_from_le_bytes(data.subrange(20, 24))
    &&& h.my_lba == spec_u64_from_le_bytes(data.subrange(24, 32))
    &&& h.alternate_lba == spec_u64_from_le_bytes(data.subrange(32, 40))
    &&& h.first_usable_lba == spec_u64_from_le_bytes(data.subrange(40, 48))
    &&& h.last_usable_lba == spec_u64_from_le_bytes(data.subrange(48, 56))
    &&& h.disk_guid@ == data.subrange(56, 72)
    &&& h.part_entry_lba == spec_u64_from_le_bytes(data.subrange(72, 80))
    &&& h.num_part_entries == spec_u32_from_le_bytes(data.subrange(80, 84))
    &&& h.part_entry_size == spec_u32_from_le_bytes(data.subrange(84, 88))
    &&& h.crc32_part_entry_array == spec_u32_from_le_bytes(data.subrange(88, 92))
}

/// The byte-exact encoding of a header into a buffer of `size` bytes:
/// the 92 significant bytes followed by zero padding. The CRC field
/// is written as stored, never recomputed.
pub open spec fn hdr_wire(h: Header, size: int) -> Seq<u8>
    recommends
        size >= 92,
{
    h.signature@ + spec_u32_to_le_bytes(h.revision) + spec_u32_to_le_bytes(h.header_size)
        + spec_u32_to_le_bytes(h.header_crc32) + spec_u32_to_le_bytes(h.reserved)
        + spec_u64_to_le_bytes(h.my_lba) + spec_u64_to_le_bytes(h.alternate_lba)
        + spec_u64_to_le_bytes(h.first_usable_lba) + spec_u64_to_le_bytes(h.last_usable_lba)
        + h.disk_guid@ + spec_u64_to_le_bytes(h.part_entry_lba) + spec_u32_to_le_bytes(
        h.num_part_entries,
    ) + spec_u32_to_le_bytes(h.part_entry_size) + spec_u32_to_le_bytes(h.crc32_part_entry_array)
        + Seq::new((size - 92) as nat, |i: int| 0u8)
}

/// True of a header whose fixed fields carry their only legal values,
/// whose size fits the logical block size, and whose disk GUID is
/// well-formed: what every successfully decoded header satisfies.
pub open spec fn hdr_wf(h: Header, lbs: int) -> bool {
    &&& spec_u64_from_le_bytes(h.signature@) == HDR_SIGNATURE
    &&& h.revision == HDR_REVISION
    &&& 92 <= h.header_size && h.header_size <= lbs
    &&& h.disk_guid.wf()
}

/// True when the stored CRC field is the correct checksum of the
/// header's own encoding into `size` bytes.
pub open spec fn hdr_crc_consistent(h: Header, size: int) -> bool {
    h.header_crc32 == crc32_of(spec_crc_input(hdr_wire(h, size), h.header_size as int))
}

/// The header round-trip law: encoding a well-formed header whose CRC
/// field is the correct checksum of its own encoding yields a buffer
/// that decodes again, and whatever decodes from that buffer matches
/// the original field for field.
pub proof fn lemma_header_round_trip(h: Header, size: int, lbs: int)
    requires
        hdr_wf(h, lbs),
        lbs <= size,
        hdr_crc_consistent(h, size),
    ensures
        hdr_valid(hdr_wire(h, size), lbs),
        hdr_matches(h, hdr_wire(h, size)),
{
    lemma_auto_spec_u32_to_from_le_bytes();
    lemma_auto_spec_u64_to_from_le_bytes();
    let w = hdr_wire(h, size);
    assert(w.subrange(0, 8) =~= h.signature@);
    assert(w.subrange(8, 12) =~= spec_u32_to_le_bytes(h.revision));
    assert(w.subrange(12, 16) =~= spec_u32_to_le_bytes(h.header_size));
    assert(w.subrange(16, 20) =~= spec_u32_to_le_bytes(h.header_crc32));
    assert(w.subrange(20, 24) =~= spec_u32_to_le_bytes(h.reserved));
    assert(w.subrange(24, 32) =~= spec_u64_to_le_bytes(h.my_lba));
    assert(w.subrange(32, 40) =~= spec_u64_to_le_bytes(h.alternate_lba));
    assert(w.subrange(40, 48) =~= spec_u64_to_le_bytes(h.first_usable_lba));
    assert(w.subrange(48, 56) =~= spec_u64_to_le_bytes(h.last_usable_lba));
    assert(w.subrange(56, 72) =~= h.disk_guid@);
    assert(w.subrange(72, 80) =~= spec_u64_to_le_bytes(h.part_entry_lba));
    assert(w.subrange(80, 84) =~= spec_u32_to_le_bytes(h.num_part_entries));
    assert(w.subrange(84, 88) =~= spec_u32_to_le_bytes(h.part_entry_size));
    assert(w.subrange(88, 92) =~= spec_u32_to_le_bytes(h.crc32_part_entry_array));
}

/// Two headers that match the same buffer are equal outright.
pub proof fn lemma_hdr_matches_unique(h1: Header, h2: Header, data: Seq<u8>)
    requires
        hdr_matches(h1, data),
        hdr_matches(h2, data),
    ensures
        h1 == h2,
{
    assert(h1.signature =~= h2.signature);
    assert(h1.disk_guid.0 =~= h2.disk_guid.0);
}

impl Header {
    /// Accepts exactly the signature "EFI PART" read as a u64.
    fn check_signature(signature: u64) -> (r: Result<(), GptError>)
        ensures
            r is Ok <==> signature == HDR_SIGNATURE,
            r is Err ==> r->Err_0 == GptError::HdrSignature,
    {
        if signature == HDR_SIGNATURE {
            Ok(())
        } else {
            Err(GptError::HdrSignature)
        }
    }

    /// Accepts exactly revision 0x00010000.
    fn check_revision(revision: u32) -> (r: Result<(), GptError>)
        ensures
            r is Ok <==> revision == HDR_REVISION,
            r is Err ==> r->Err_0 == GptError::HdrRevision,
    {
        if revision == HDR_REVISION {
            Ok(())
        } else {
            Err(GptError::HdrRevision)
        }
    }

    /// Accepts exactly header sizes in [92, logical block size].
    fn check_header_size(header_size: u32, lba_size: u32) -> (r: Result<(), GptError>)
        ensures
            r is Ok <==> 92 <= header_size && header_size <= lba_size,
            r is Err ==> r->Err_0 == GptError::HdrSize,
    {
        if header_size >= 92 && header_size <= lba_size {
            Ok(())
        } else {
            Err(GptError::HdrSize)
        }
    }

    /// Accepts exactly when the stored value equals the CRC-32 of the
    /// given bytes.
    fn check_crc32(bytes: &[u8], crc32: u32) -> (r: Result<(), GptError>)
        ensures
            r is Ok <==> crc32 == crc32_of(bytes@),
            r is Err ==> r->Err_0 == GptError::HdrCrc32,
    {
        if crc32 == crc32_checksum(bytes) {
            Ok(())
        } else {
            Err(GptError::HdrCrc32)
        }
    }

    /// Decodes a header from one logical block, validating in order:
    /// signature, revision, header-size bound against the logical
    /// block size, CRC-32 self-check, then the disk GUID. On failure
    /// the error names the first violated field and no header is
    /// returned.
    pub fn deserialize(data: &[u8], lba_size: u32) -> (r: Result<Header, GptError>)
        requires
            92 <= lba_size,
            lba_size <= data@.len(),
        ensures
            match r {
                Ok(h) => hdr_valid(data@, lba_size as int) && hdr_matches(h, data@),
                Err(e) => !hdr_valid(data@, lba_size as int) && e == hdr_err(
                    data@,
                    lba_size as int,
                ),
            },
    {
        let mut ltbs = LittleEndianBytes::new(data);

        let signature = ltbs.copy_from::<8>(0);
        let sig_val = u64_from_le_bytes(signature.as_slice());
        if let Err(e) = Self::check_signature(sig_val) {
            return Err(e);
        }

        let revision = ltbs.parse_u32().unwrap();
        if let Err(e) = Self::check_revision(revision) {
            return Err(e);
        }

        let header_size = ltbs.parse_u32().unwrap();
        if let Err(e) = Self::check_header_size(header_size, lba_size) {
            return Err(e);
        }

        let header_crc32 = ltbs.parse_u32().unwrap();
        let hs = header_size as usize;
        let mut crc_buf = slice_to_vec(slice_subrange(data, 0, hs));
        crc_buf[16] = 0;
        crc_buf[17] = 0;
        crc_buf[18] = 0;
        crc_buf[19] = 0;
        proof {
            assert(crc_buf@ =~= spec_crc_input(data@, header_size as int));
        }
        if let Err(e) = Self::check_crc32(crc_buf.as_slice(), header_crc32) {
            return Err(e);
        }

        let reserved = ltbs.parse_u32().unwrap();
        let my_lba = ltbs.parse_u64().unwrap();
        let alternate_lba = ltbs.parse_u64().unwrap();
        let first_usable_lba = ltbs.parse_u64().unwrap();
        let last_usable_lba = ltbs.parse_u64().unwrap();

        let guid_bytes = ltbs.copy_from::<16>(56);
        let disk_guid = match PartUUID::try_from(guid_bytes.as_slice()) {
            Ok(g) => g,
            Err(e) => {
                return Err(e);
            },
        };

        let part_entry_lba = ltbs.parse_u64().unwrap();
        let num_part_entries = ltbs.parse_u32().unwrap();
        let part_entry_size = ltbs.parse_u32().unwrap();
        let crc32_part_entry_array = ltbs.parse_u32().unwrap();

        Ok(Header {
            signature,
            revision,
            header_size,
            header_crc32,
            reserved,
            my_lba,
            alternate_lba,
            first_usable_lba,
            last_usable_lba,
            disk_guid,
            part_entry_lba,
            num_part_entries,
            part_entry_size,
            crc32_part_entry_array,
        })
    }

    /// Serializes every field verbatim into a fresh zero-padded buffer
    /// of `size` bytes. The CRC-32 field is written as stored, not
    /// recomputed: the caller must have set a correct checksum if
    /// round-trip validity is wanted downstream.
    pub fn serialize(&self, size: usize) -> (r: Vec<u8>)
        requires
            size >= 92,
        ensures
            r@ == hdr_wire(*self, size as int),
            r@.len() == size,
    {
        let mut bytes: Vec<u8> = Vec::new();
        push_bytes(&mut bytes, self.signature.as_slice());
        push_u32(&mut bytes, self.revision);
        push_u32(&mut bytes, self.header_size);
        push_u32(&mut bytes, self.header_crc32);
        push_u32(&mut bytes, self.reserved);
        push_u64(&mut bytes, self.my_lba);
        push_u64(&mut bytes, self.alternate_lba);
        push_u64(&mut bytes, self.first_usable_lba);
        push_u64(&mut bytes, self.last_usable_lba);
        push_bytes(&mut bytes, self.disk_guid.as_bytes());
        push_u64(&mut bytes, self.part_entry_lba);
        push_u32(&mut bytes, self.num_part_entries);
        push_u32(&mut bytes, self.part_entry_size);
        push_u32(&mut bytes, self.crc32_part_entry_array);
        proof {
            lemma_auto_spec_u32_to_from_le_bytes();
            lemma_auto_spec_u64_to_from_le_bytes();
            assert(bytes@.len() == 92);
        }
        pad_zero(&mut bytes, size);
        proof {
            assert(bytes@ =~= hdr_wire(*self, size as int));
        }
        bytes
    }
}

} // verus!
