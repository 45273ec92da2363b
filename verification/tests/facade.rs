use gpt_codec::{GuidPartTable, LogicalBlockSize};

#[test]
fn facade_binds_block_size() {
    let gpt = GuidPartTable::new(LogicalBlockSize::Lb512);
    assert_eq!(gpt.lbs, LogicalBlockSize::Lb512);
    assert_eq!(gpt.lbs.bytes(), 512);
    let gpt = GuidPartTable::new(LogicalBlockSize::Lb4096);
    assert_eq!(gpt.lbs, LogicalBlockSize::Lb4096);
    assert_eq!(gpt.lbs.bytes(), 4096);
}

#[test]
fn facade_encode_lengths_follow_block_size() {
    // a freshly decoded protective MBR re-encodes to one block
    let mut buf = vec![0u8; 512];
    for slot in 0..4 {
        let off = 446 + 16 * slot;
        buf[off + 1..off + 4].copy_from_slice(&[0x00, 0x02, 0x00]);
        buf[off + 4] = 0xee;
        buf[off + 5..off + 8].copy_from_slice(&[0x00, 0x02, 0x00]);
        buf[off + 8..off + 12].copy_from_slice(&1u32.to_le_bytes());
    }
    buf[510] = 0x55;
    buf[511] = 0xaa;
    let gpt = GuidPartTable::new(LogicalBlockSize::Lb512);
    let m = gpt.parser_mbr(&buf).unwrap();
    assert_eq!(gpt.serialize_mbr(&m).len(), 512);
}
