//! The protective MBR codec: the legacy boot sector that wraps a GPT
//! disk, with its four fixed partition records.
//!
//! Wire layout: 440 bytes of boot code, a 4-byte disk signature that
//! must be zero, a 2-byte unknown field that must be zero, four
//! 16-byte partition records at byte 446, and the trailing signature
//! 0xAA55 at byte 510.

use vstd::prelude::*;
use vstd::bytes::{spec_u16_from_le_bytes, spec_u32_from_le_bytes};
use vstd::bytes::{spec_u16_to_le_bytes, spec_u32_to_le_bytes};
use vstd::bytes::{lemma_auto_spec_u16_to_from_le_bytes, lemma_auto_spec_u32_to_from_le_bytes};

use crate::err::GptError;
use crate::parse::{pad_zero, push_bytes, push_u16, push_u32, LittleEndianBytes};

verus! {

/// The trailing MBR signature.
pub const MBR_SIGNATURE: u16 = 0xAA55;

/// The OS type byte that marks a protective GPT partition record.
pub const MBR_OSTYPE: u8 = 0xEE;

/// The fixed CHS value every protective record carries for both its
/// starting and (small disks) ending CHS.
pub open spec fn chs_constant() -> Seq<u8> {
    seq![0x00u8, 0x02u8, 0x00u8]
}

/// The ending-CHS sentinel of a disk too large for the CHS field.
pub open spec fn chs_sentinel() -> Seq<u8> {
    seq![0xFFu8, 0xFFu8, 0xFFu8]
}

/// One of the four 16-byte partition records of the protective MBR.
#[derive(Debug, Clone, Copy, PartialEq, Eq, Default)]
pub struct MbrPartRecord {
    /// Pass-through boot flag; never validated.
    pub boot_indicator: u8,
    /// Must equal the fixed protective value.
    pub starting_chs: [u8; 3],
    /// Must equal 0xEE.
    pub ostype: u8,
    /// Must equal the fixed protective value on decode; the large
    /// disk sentinel is legal wire data recognized only by
    /// `is_large_disk` on the owning MBR.
    pub ending_chs: [u8; 3],
    /// Must equal 1, the LBA of the GPT header.
    pub starting_lba: u32,
    /// The disk size in blocks, or 0xFFFFFFFF if it does not fit;
    /// never validated.
    pub size_in_lba: u32,
}

/// True when a record buffer's starting CHS is the protective value.
pub open spec fn rec_start_chs_ok(data: Seq<u8>) -> bool {
    data.subrange(1, 4) == chs_constant()
}

/// True when a record buffer's OS type byte is 0xEE.
pub open spec fn rec_ostype_ok(data: Seq<u8>) -> bool {
    data[4] == MBR_OSTYPE
}

/// True when a record buffer's ending CHS is the protective value.
pub open spec fn rec_end_chs_ok(data: Seq<u8>) -> bool {
    data.subrange(5, 8) == chs_constant()
}

/// True when a record buffer's starting LBA is 1.
pub open spec fn rec_start_lba_ok(data: Seq<u8>) -> bool {
    spec_u32_from_le_bytes(data.subrange(8, 12)) == 1
}

/// True exactly when a 16-byte record buffer decodes.
pub open spec fn rec_valid(data: Seq<u8>) -> bool {
    &&& rec_start_chs_ok(data)
    &&& rec_ostype_ok(data)
    &&& rec_end_chs_ok(data)
    &&& rec_start_lba_ok(data)
}

/// The error a failing record decode reports: that of the first
/// violated check in decode order.
pub open spec fn rec_err(data: Seq<u8>) -> GptError {
    if !rec_start_chs_ok(data) {
        GptError::MbrPRStartingChs
    } else if !rec_ostype_ok(data) {
        GptError::MbrPROsType
    } else if !rec_end_chs_ok(data) {
        GptError::MbrPREndingChs
    } else {
        GptError::MbrPRStartingLba
    }
}

/// True when every field of `rec` equals the value stored in `data`.
pub open spec fn rec_matches(rec: MbrPartRecord, data: Seq<u8>) -> bool {
    &&& rec.boot_indicator == data[0]
    &&& rec.starting_chs@ == data.subrange(1, 4)
    &&& rec.ostype == data[4]
    &&& rec.ending_chs@ == data.subrange(5, 8)
    &&& rec.starting_lba == spec_u32_from_le_bytes(data.subrange(8, 12))
    &&& rec.size_in_lba == spec_u32_from_le_bytes(data.subrange(12, 16))
}

/// The byte-exact encoding of a record into `size` bytes: the 16
/// significant bytes followed by zero padding.
pub open spec fn rec_wire(rec: MbrPartRecord, size: int) -> Seq<u8>
    recommends
        size >= 16,
{
    seq![rec.boot_indicator] + rec.starting_chs@ + seq![rec.ostype] + rec.ending_chs@
        + spec_u32_to_le_bytes(rec.starting_lba) + spec_u32_to_le_bytes(rec.size_in_lba)
        + Seq::new((size - 16) as nat, |i: int| 0u8)
}

impl MbrPartRecord {
    /// Accepts exactly the fixed protective starting CHS.
    fn check_starting_chs(starting_chs: &[u8]) -> (r: Result<(), GptError>)
        requires
            starting_chs@.len() == 3,
        ensures
            r is Ok <==> starting_chs@ == chs_constant(),
            r is Err ==> r->Err_0 == GptError::MbrPRStartingChs,
    {
        if starting_chs[0] == 0x00 && starting_chs[1] == 0x02 && starting_chs[2] == 0x00 {
            proof {
                assert(starting_chs@ =~= chs_constant());
            }
            Ok(())
        } else {
            Err(GptError::MbrPRStartingChs)
        }
    }

    /// Accepts exactly the OS type 0xEE.
    fn check_ostype(ostype: u8) -> (r: Result<(), GptError>)
        ensures
            r is Ok <==> ostype == MBR_OSTYPE,
            r is Err ==> r->Err_0 == GptError::MbrPROsType,
    {
        if ostype == MBR_OSTYPE {
            Ok(())
        } else {
            Err(GptError::MbrPROsType)
        }
    }

    /// Accepts exactly the fixed protective ending CHS.
    fn check_ending_chs(ending_chs: &[u8]) -> (r: Result<(), GptError>)
        requires
            ending_chs@.len() == 3,
        ensures
            r is Ok <==> ending_chs@ == chs_constant(),
            r is Err ==> r->Err_0 == GptError::MbrPREndingChs,
    {
        if ending_chs[0] == 0x00 && ending_chs[1] == 0x02 && ending_chs[2] == 0x00 {
            proof {
                assert(ending_chs@ =~= chs_constant());
            }
            Ok(())
        } else {
            Err(GptError::MbrPREndingChs)
        }
    }

    /// Accepts exactly starting LBA 1.
    fn check_starting_lba(starting_lba: u32) -> (r: Result<(), GptError>)
        ensures
            r is Ok <==> starting_lba == 1,
            r is Err ==> r->Err_0 == GptError::MbrPRStartingLba,
    {
        if starting_lba == 1 {
            Ok(())
        } else {
            Err(GptError::MbrPRStartingLba)
        }
    }

    /// Decodes one 16-byte record, validating in order: starting CHS,
    /// OS type, ending CHS, starting LBA. The boot indicator and the
    /// size in LBA are read without validation.
    pub fn deserialize(data: &[u8]) -> (r: Result<MbrPartRecord, GptError>)
        requires
            data@.len() >= 16,
        ensures
            match r {
                Ok(rec) => rec_valid(data@) && rec_matches(rec, data@),
                Err(e) => !rec_valid(data@) && e == rec_err(data@),
            },
    {
        let mut ltbs = LittleEndianBytes::new(data);

        let boot_indicator = ltbs.parse_u8().unwrap();
        let starting_chs = ltbs.copy_from::<3>(1);
        if let Err(e) = Self::check_starting_chs(starting_chs.as_slice()) {
            return Err(e);
        }

        let ostype = ltbs.parse_u8().unwrap();
        if let Err(e) = Self::check_ostype(ostype) {
            return Err(e);
        }

        let ending_chs = ltbs.copy_from::<3>(5);
        if let Err(e) = Self::check_ending_chs(ending_chs.as_slice()) {
            return Err(e);
        }

        let starting_lba = ltbs.parse_u32().unwrap();
        if let Err(e) = Self::check_starting_lba(starting_lba) {
            return Err(e);
        }

        let size_in_lba = ltbs.parse_u32().unwrap();
        Ok(MbrPartRecord {
            boot_indicator,
            starting_chs,
            ostype,
            ending_chs,
            starting_lba,
            size_in_lba,
        })
    }

    /// Serializes every field verbatim into a fresh zero-padded
    /// buffer of `size` bytes, with no validation.
    pub fn serialize(&self, size: usize) -> (r: Vec<u8>)
        requires
            size >= 16,
        ensures
            r@ == rec_wire(*self, size as int),
            r@.len() == size,
    {
        let mut bytes: Vec<u8> = Vec::new();
        bytes.push(self.boot_indicator);
        push_bytes(&mut bytes, self.starting_chs.as_slice());
        bytes.push(self.ostype);
        push_bytes(&mut bytes, self.ending_chs.as_slice());
        push_u32(&mut bytes, self.starting_lba);
        push_u32(&mut bytes, self.size_in_lba);
        proof {
            lemma_auto_spec_u32_to_from_le_bytes();
            assert(bytes@.len() == 16);
        }
        pad_zero(&mut bytes, size);
        proof {
            assert(bytes@ =~= rec_wire(*self, size as int));
        }
        bytes
    }
}

/// The protective MBR: a legacy boot sector whose every field except
/// the boot code is pinned to a single legal value.
#[derive(Debug, Clone, PartialEq, Eq)]
pub struct ProtectiveMbr {
    /// Unused by UEFI systems; carried verbatim.
    pub boot_code: [u8; 440],
    /// Unused; must be zero.
    pub disk_signature: [u8; 4],
    /// Unused; must be zero.
    pub unknown: u16,
    /// The four partition records: one protective record and three
    /// zero records on a real disk.
    pub part_records: [MbrPartRecord; 4],
    /// Must be 0xAA55.
    pub signature: u16,
}

/// True when the 4-byte disk signature is all zero.
pub open spec fn mbr_disk_sig_ok(data: Seq<u8>) -> bool {
    data.subrange(440, 444) == seq![0u8, 0u8, 0u8, 0u8]
}

/// True when the 2-byte unknown field is zero.
pub open spec fn mbr_unknown_ok(data: Seq<u8>) -> bool {
    spec_u16_from_le_bytes(data.subrange(444, 446)) == 0
}

/// The 16-byte slice of partition record `i` within the sector.
pub open spec fn mbr_rec_slice(data: Seq<u8>, i: int) -> Seq<u8> {
    data.subrange(446 + 16 * i, 446 + 16 * i + 16)
}

/// True when the trailing signature is 0xAA55.
pub open spec fn mbr_sig_ok(data: Seq<u8>) -> bool {
    spec_u16_from_le_bytes(data.subrange(510, 512)) == MBR_SIGNATURE
}

/// True exactly when a sector decodes as a protective MBR.
pub open spec fn mbr_valid(data: Seq<u8>) -> bool {
    &&& mbr_disk_sig_ok(data)
    &&& mbr_unknown_ok(data)
    &&& forall|i: int| 0 <= i < 4 ==> rec_valid(#[trigger] mbr_rec_slice(data, i))
    &&& mbr_sig_ok(data)
}

/// The error a failing MBR decode reports: that of the first violated
/// check in decode order, records checked slot by slot.
pub open spec fn mbr_err(data: Seq<u8>) -> GptError {
    if !mbr_disk_sig_ok(data) {
        GptError::MbrDiskSignature
    } else if !mbr_unknown_ok(data) {
        GptError::MbrUnknownNonZero
    } else if !rec_valid(mbr_rec_slice(data, 0)) {
        rec_err(mbr_rec_slice(data, 0))
    } else if !rec_valid(mbr_rec_slice(data, 1)) {
        rec_err(mbr_rec_slice(data, 1))
    } else if !rec_valid(mbr_rec_slice(data, 2)) {
        rec_err(mbr_rec_slice(data, 2))
    } else if !rec_valid(mbr_rec_slice(data, 3)) {
        rec_err(mbr_rec_slice(data, 3))
    } else {
        GptError::MbrSignature
    }
}

/// True when every field of `m` equals the value stored in `data`.
pub open spec fn mbr_matches(m: ProtectiveMbr, data: Seq<u8>) -> bool {
    &&& m.boot_code@ == data.subrange(0, 440)
    &&& m.disk_signature@ == data.subrange(440, 444)
    &&& m.unknown == spec_u16_from_le_bytes(data.subrange(444, 446))
    &&& forall|i: int|
        0 <= i < 4 ==> rec_matches(#[trigger] m.part_records@[i], mbr_rec_slice(data, i))
    &&& m.signature == spec_u16_from_le_bytes(data.subrange(510, 512))
}

/// The byte-exact encoding of a protective MBR into `size` bytes: the
/// 512 significant bytes followed by zero padding.
pub open spec fn mbr_wire(m: ProtectiveMbr, size: int) -> Seq<u8>
    recommends
        size >= 512,
{
    m.boot_code@ + m.disk_signature@ + spec_u16_to_le_bytes(m.unknown) + rec_wire(
        m.part_records@[0],
        16,
    ) + rec_wire(m.part_records@[1], 16) + rec_wire(m.part_records@[2], 16) + rec_wire(
        m.part_records@[3],
        16,
    ) + spec_u16_to_le_bytes(m.signature) + Seq::new((size - 512) as nat, |i: int| 0u8)
}

/// True of a record whose validated fields carry their only legal
/// values: what every successfully decoded record satisfies.
pub open spec fn rec_wf(rec: MbrPartRecord) -> bool {
    &&& rec.starting_chs@ == chs_constant()
    &&& rec.ostype == MBR_OSTYPE
    &&& rec.ending_chs@ == chs_constant()
    &&& rec.starting_lba == 1
}

/// The record round-trip law: encoding a well-formed record yields a
/// buffer that decodes again, and whatever decodes from that buffer
/// matches the original field for field.
pub proof fn lemma_record_round_trip(rec: MbrPartRecord, size: int)
    requires
        rec_wf(rec),
        size >= 16,
    ensures
        rec_valid(rec_wire(rec, size)),
        rec_matches(rec, rec_wire(rec, size)),
{
    lemma_auto_spec_u32_to_from_le_bytes();
    let w = rec_wire(rec, size);
    assert(w.subrange(1, 4) =~= rec.starting_chs@);
    assert(w.subrange(5, 8) =~= rec.ending_chs@);
    assert(w.subrange(8, 12) =~= spec_u32_to_le_bytes(rec.starting_lba));
    assert(w.subrange(12, 16) =~= spec_u32_to_le_bytes(rec.size_in_lba));
    assert(w[0] == rec.boot_indicator);
    assert(w[4] == rec.ostype);
}

/// Two records that match the same buffer are equal outright.
pub proof fn lemma_rec_matches_unique(r1: MbrPartRecord, r2: MbrPartRecord, data: Seq<u8>)
    requires
        rec_matches(r1, data),
        rec_matches(r2, data),
    ensures
        r1 == r2,
{
    assert(r1.starting_chs =~= r2.starting_chs);
    assert(r1.ending_chs =~= r2.ending_chs);
}

/// True of a protective MBR whose validated fields carry their only
/// legal values: what every successfully decoded MBR satisfies.
pub open spec fn mbr_wf(m: ProtectiveMbr) -> bool {
    &&& m.disk_signature@ == seq![0u8, 0u8, 0u8, 0u8]
    &&& m.unknown == 0
    &&& forall|i: int| 0 <= i < 4 ==> rec_wf(#[trigger] m.part_records@[i])
    &&& m.signature == MBR_SIGNATURE
}

/// The protective MBR round-trip law: encoding a well-formed MBR
/// yields a sector that decodes again, and whatever decodes from that
/// sector matches the original field for field.
pub proof fn lemma_mbr_round_trip(m: ProtectiveMbr, size: int)
    requires
        mbr_wf(m),
        size >= 512,
    ensures
        mbr_valid(mbr_wire(m, size)),
        mbr_matches(m, mbr_wire(m, size)),
{
    lemma_auto_spec_u16_to_from_le_bytes();
    lemma_auto_spec_u32_to_from_le_bytes();
    let w = mbr_wire(m, size);
    assert(w.subrange(0, 440) =~= m.boot_code@);
    assert(w.subrange(440, 444) =~= m.disk_signature@);
    assert(w.subrange(444, 446) =~= spec_u16_to_le_bytes(m.unknown));
    assert(w.subrange(510, 512) =~= spec_u16_to_le_bytes(m.signature));
    assert(mbr_rec_slice(w, 0) =~= rec_wire(m.part_records@[0], 16));
    assert(mbr_rec_slice(w, 1) =~= rec_wire(m.part_records@[1], 16));
    assert(mbr_rec_slice(w, 2) =~= rec_wire(m.part_records@[2], 16));
    assert(mbr_rec_slice(w, 3) =~= rec_wire(m.part_records@[3], 16));
    assert forall|i: int|
        0 <= i < 4 implies rec_valid(#[trigger] mbr_rec_slice(w, i)) && rec_matches(
        m.part_records@[i],
        mbr_rec_slice(w, i),
    ) by {
        lemma_record_round_trip(m.part_records@[i], 16);
    }
}

impl ProtectiveMbr {
    /// Accepts exactly the all-zero disk signature.
    fn check_disk_signature(disk_signature: &[u8]) -> (r: Result<(), GptError>)
        requires
            disk_signature@.len() == 4,
        ensures
            r is Ok <==> disk_signature@ == seq![0u8, 0u8, 0u8, 0u8],
            r is Err ==> r->Err_0 == GptError::MbrDiskSignature,
    {
        if disk_signature[0] == 0 && disk_signature[1] == 0 && disk_signature[2] == 0
            && disk_signature[3] == 0 {
            proof {
                assert(disk_signature@ =~= seq![0u8, 0u8, 0u8, 0u8]);
            }
            Ok(())
        } else {
            Err(GptError::MbrDiskSignature)
        }
    }

    /// Accepts exactly a zero unknown field.
    fn check_unknown(unknown: u16) -> (r: Result<(), GptError>)
        ensures
            r is Ok <==> unknown == 0,
            r is Err ==> r->Err_0 == GptError::MbrUnknownNonZero,
    {
        if unknown == 0 {
            Ok(())
        } else {
            Err(GptError::MbrUnknownNonZero)
        }
    }

    /// Accepts exactly the trailing signature 0xAA55.
    fn check_signature(signature: u16) -> (r: Result<(), GptError>)
        ensures
            r is Ok <==> signature == MBR_SIGNATURE,
            r is Err ==> r->Err_0 == GptError::MbrSignature,
    {
        if signature == MBR_SIGNATURE {
            Ok(())
        } else {
            Err(GptError::MbrSignature)
        }
    }

    /// True exactly when record 0 carries both large-disk markers:
    /// the ending-CHS sentinel and the size sentinel 0xFFFFFFFF.
    pub fn is_large_disk(&self) -> (r: bool)
        ensures
            r == (self.part_records@[0].ending_chs@ == chs_sentinel() && self.part_records@[0].size_in_lba
                == 0xFFFFFFFFu32),
    {
        let first_record = &self.part_records[0];
        let chs_max = first_record.ending_chs[0] == 0xFF && first_record.ending_chs[1] == 0xFF
            && first_record.ending_chs[2] == 0xFF;
        proof {
            if chs_max {
                assert(self.part_records@[0].ending_chs@ =~= chs_sentinel());
            }
        }
        chs_max && first_record.size_in_lba == 0xFFFFFFFF
    }

    /// Decodes a protective MBR from one logical block, validating in
    /// order: disk signature, unknown field, the four partition
    /// records slot by slot, then the trailing signature. On failure
    /// the error names the first violated field and nothing is
    /// returned.
    pub fn deserialize(data: &[u8]) -> (r: Result<ProtectiveMbr, GptError>)
        requires
            data@.len() >= 512,
        ensures
            match r {
                Ok(m) => mbr_valid(data@) && mbr_matches(m, data@),
                Err(e) => !mbr_valid(data@) && e == mbr_err(data@),
            },
    {
        let mut ltbs = LittleEndianBytes::new(data);

        let boot_code = ltbs.copy_from::<440>(0);

        let disk_signature = ltbs.copy_from::<4>(440);
        if let Err(e) = Self::check_disk_signature(disk_signature.as_slice()) {
            return Err(e);
        }

        let unknown = ltbs.parse_u16().unwrap();
        if let Err(e) = Self::check_unknown(unknown) {
            return Err(e);
        }

        let rb0 = ltbs.copy_from::<16>(446);
        let r0 = match MbrPartRecord::deserialize(rb0.as_slice()) {
            Ok(rec) => rec,
            Err(e) => {
                return Err(e);
            },
        };
        let rb1 = ltbs.copy_from::<16>(462);
        let r1 = match MbrPartRecord::deserialize(rb1.as_slice()) {
            Ok(rec) => rec,
            Err(e) => {
                return Err(e);
            },
        };
        let rb2 = ltbs.copy_from::<16>(478);
        let r2 = match MbrPartRecord::deserialize(rb2.as_slice()) {
            Ok(rec) => rec,
            Err(e) => {
                return Err(e);
            },
        };
        let rb3 = ltbs.copy_from::<16>(494);
        let r3 = match MbrPartRecord::deserialize(rb3.as_slice()) {
            Ok(rec) => rec,
            Err(e) => {
                return Err(e);
            },
        };

        let signature = ltbs.parse_u16().unwrap();
        if let Err(e) = Self::check_signature(signature) {
            return Err(e);
        }

        let m = ProtectiveMbr {
            boot_code,
            disk_signature,
            unknown,
            part_records: [r0, r1, r2, r3],
            signature,
        };
        proof {
            assert(rb0@ == mbr_rec_slice(data@, 0));
            assert(rb1@ == mbr_rec_slice(data@, 1));
            assert(rb2@ == mbr_rec_slice(data@, 2));
            assert(rb3@ == mbr_rec_slice(data@, 3));
            assert(m.part_records@[0] == r0);
            assert(m.part_records@[1] == r1);
            assert(m.part_records@[2] == r2);
            assert(m.part_records@[3] == r3);
        }
        Ok(m)
    }

    /// Serializes every field verbatim into a fresh zero-padded
    /// buffer of `size` bytes, with no validation.
    pub fn serialize(&self, size: usize) -> (r: Vec<u8>)
        requires
            size >= 512,
        ensures
            r@ == mbr_wire(*self, size as int),
            r@.len() == size,
    {
        let mut bytes: Vec<u8> = Vec::new();
        push_bytes(&mut bytes, self.boot_code.as_slice());
        push_bytes(&mut bytes, self.disk_signature.as_slice());
        push_u16(&mut bytes, self.unknown);
        let r0 = self.part_records[0].serialize(16);
        push_bytes(&mut bytes, r0.as_slice());
        let r1 = self.part_records[1].serialize(16);
        push_bytes(&mut bytes, r1.as_slice());
        let r2 = self.part_records[2].serialize(16);
        push_bytes(&mut bytes, r2.as_slice());
        let r3 = self.part_records[3].serialize(16);
        push_bytes(&mut bytes, r3.as_slice());
        push_u16(&mut bytes, self.signature);
        proof {
            lemma_auto_spec_u16_to_from_le_bytes();
            assert(bytes@.len() == 512);
        }
        pad_zero(&mut bytes, size);
        proof {
            assert(bytes@ =~= mbr_wire(*self, size as int));
        }
        bytes
    }
}

} // verus!
