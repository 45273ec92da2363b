use gpt_codec::{GptError, GuidPartTable, LogicalBlockSize, MbrPartRecord, ProtectiveMbr};

fn put_record(buf: &mut [u8], slot: usize, size_in_lba: u32) {
    let off = 446 + 16 * slot;
    buf[off] = 0x00; // boot indicator
    buf[off + 1..off + 4].copy_from_slice(&[0x00, 0x02, 0x00]);
    buf[off + 4] = 0xee;
    buf[off + 5..off + 8].copy_from_slice(&[0x00, 0x02, 0x00]);
    buf[off + 8..off + 12].copy_from_slice(&1u32.to_le_bytes());
    buf[off + 12..off + 16].copy_from_slice(&size_in_lba.to_le_bytes());
}

fn valid_mbr_bytes(block: usize) -> Vec<u8> {
    let mut buf = vec![0u8; block];
    buf[0] = 0xfa; // arbitrary boot code byte
    buf[439] = 0x90;
    for slot in 0..4 {
        put_record(&mut buf, slot, 7813120);
    }
    buf[510] = 0x55;
    buf[511] = 0xaa;
    buf
}

fn protective_record(ending_chs: [u8; 3], size_in_lba: u32) -> MbrPartRecord {
    MbrPartRecord {
        boot_indicator: 0,
        starting_chs: [0x00, 0x02, 0x00],
        ostype: 0xee,
        ending_chs,
        starting_lba: 1,
        size_in_lba,
    }
}

#[test]
fn mbr_decode_ok() {
    let buf = valid_mbr_bytes(512);
    let gpt = GuidPartTable::new(LogicalBlockSize::Lb512);
    let m = gpt.parser_mbr(&buf).unwrap();
    assert_eq!(m.boot_code[0], 0xfa);
    assert_eq!(m.boot_code[439], 0x90);
    for slot in 0..4 {
        assert_eq!(m.part_records[slot].ostype, 0xee);
        assert_eq!(m.part_records[slot].starting_lba, 1);
        assert_eq!(m.part_records[slot].size_in_lba, 7813120);
    }
    assert!(!m.is_large_disk());
}

#[test]
fn mbr_rejects_nonzero_disk_signature() {
    let mut buf = valid_mbr_bytes(512);
    buf[441] = 0x01;
    let gpt = GuidPartTable::new(LogicalBlockSize::Lb512);
    assert_eq!(gpt.parser_mbr(&buf), Err(GptError::MbrDiskSignature));
}

#[test]
fn mbr_rejects_nonzero_unknown() {
    let mut buf = valid_mbr_bytes(512);
    buf[444] = 0x01;
    let gpt = GuidPartTable::new(LogicalBlockSize::Lb512);
    assert_eq!(gpt.parser_mbr(&buf), Err(GptError::MbrUnknownNonZero));
}

#[test]
fn mbr_rejects_bad_trailing_signature() {
    let mut buf = valid_mbr_bytes(512);
    buf[510] = 0x54;
    let gpt = GuidPartTable::new(LogicalBlockSize::Lb512);
    assert_eq!(gpt.parser_mbr(&buf), Err(GptError::MbrSignature));
}

#[test]
fn mbr_rejects_bad_ostype() {
    // any record whose OS type byte is not 0xEE aborts the decode
    for slot in 0..4 {
        let mut buf = valid_mbr_bytes(512);
        buf[446 + 16 * slot + 4] = 0x83;
        let gpt = GuidPartTable::new(LogicalBlockSize::Lb512);
        assert_eq!(gpt.parser_mbr(&buf), Err(GptError::MbrPROsType));
    }
}

#[test]
fn mbr_rejects_bad_starting_chs() {
    let mut buf = valid_mbr_bytes(512);
    buf[446 + 1] = 0x01;
    let gpt = GuidPartTable::new(LogicalBlockSize::Lb512);
    assert_eq!(gpt.parser_mbr(&buf), Err(GptError::MbrPRStartingChs));
}

#[test]
fn mbr_rejects_bad_ending_chs() {
    // the large-disk sentinel is legal wire data only for
    // is_large_disk; the per-record check still rejects it
    let mut buf = valid_mbr_bytes(512);
    buf[446 + 5..446 + 8].copy_from_slice(&[0xff, 0xff, 0xff]);
    let gpt = GuidPartTable::new(LogicalBlockSize::Lb512);
    assert_eq!(gpt.parser_mbr(&buf), Err(GptError::MbrPREndingChs));
}

#[test]
fn mbr_rejects_bad_starting_lba() {
    let mut buf = valid_mbr_bytes(512);
    buf[446 + 16 * 2 + 8..446 + 16 * 2 + 12].copy_from_slice(&2u32.to_le_bytes());
    let gpt = GuidPartTable::new(LogicalBlockSize::Lb512);
    assert_eq!(gpt.parser_mbr(&buf), Err(GptError::MbrPRStartingLba));
}

#[test]
fn mbr_round_trip() {
    let buf = valid_mbr_bytes(512);
    let gpt = GuidPartTable::new(LogicalBlockSize::Lb512);
    let m = gpt.parser_mbr(&buf).unwrap();
    let out = gpt.serialize_mbr(&m);
    assert_eq!(out, buf);
    let m2 = gpt.parser_mbr(&out).unwrap();
    assert_eq!(m2, m);
}

#[test]
fn mbr_4096_block_pads_with_zeros() {
    let buf = valid_mbr_bytes(4096);
    let gpt = GuidPartTable::new(LogicalBlockSize::Lb4096);
    let m = gpt.parser_mbr(&buf).unwrap();
    let out = gpt.serialize_mbr(&m);
    assert_eq!(out.len(), 4096);
    assert_eq!(out, buf);
}

#[test]
fn is_large_disk_needs_both_markers() {
    let small = protective_record([0x00, 0x02, 0x00], 7813120);
    let base = ProtectiveMbr {
        boot_code: [0u8; 440],
        disk_signature: [0u8; 4],
        unknown: 0,
        part_records: [small, small, small, small],
        signature: 0xaa55,
    };

    // both markers set: large
    let mut m = base.clone();
    m.part_records[0] = protective_record([0xff, 0xff, 0xff], 0xffffffff);
    assert!(m.is_large_disk());

    // only the ending-CHS sentinel: not large
    let mut m = base.clone();
    m.part_records[0] = protective_record([0xff, 0xff, 0xff], 7813120);
    assert!(!m.is_large_disk());

    // only the size sentinel: not large
    let mut m = base.clone();
    m.part_records[0] = protective_record([0x00, 0x02, 0x00], 0xffffffff);
    assert!(!m.is_large_disk());

    // neither: not large
    assert!(!base.is_large_disk());

    // the markers on a record other than the first do not count
    let mut m = base.clone();
    m.part_records[1] = protective_record([0xff, 0xff, 0xff], 0xffffffff);
    assert!(!m.is_large_disk());
}
