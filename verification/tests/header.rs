use gpt_codec::{GptError, GuidPartTable, LogicalBlockSize};

fn put_u32(buf: &mut [u8], off: usize, v: u32) {
    buf[off..off + 4].copy_from_slice(&v.to_le_bytes());
}

fn put_u64(buf: &mut [u8], off: usize, v: u64) {
    buf[off..off + 8].copy_from_slice(&v.to_le_bytes());
}

fn base_header_bytes(block: usize, header_size: u32) -> Vec<u8> {
    let mut buf = vec![0u8; block];
    buf[0..8].copy_from_slice(b"EFI PART");
    put_u32(&mut buf, 8, 0x00010000);
    put_u32(&mut buf, 12, header_size);
    put_u32(&mut buf, 20, 0); // reserved
    put_u64(&mut buf, 24, 1); // my LBA
    put_u64(&mut buf, 32, 7813119); // alternate LBA
    put_u64(&mut buf, 40, 34); // first usable
    put_u64(&mut buf, 48, 7813086); // last usable
    buf[56..72].copy_from_slice(b"ABCDEFGHIJKLMNOP");
    put_u64(&mut buf, 72, 2); // entry array LBA
    put_u32(&mut buf, 80, 128); // number of entries
    put_u32(&mut buf, 84, 128); // entry size
    put_u32(&mut buf, 88, 0x1234abcd); // entry array CRC, carried only
    buf
}

fn patch_crc(buf: &mut [u8], header_size: u32) {
    let hs = header_size as usize;
    let mut tmp = buf[..hs].to_vec();
    tmp[16..20].copy_from_slice(&[0u8; 4]);
    let crc = crc::Crc::<u32>::new(&crc::CRC_32_ISO_HDLC).checksum(&tmp);
    buf[16..20].copy_from_slice(&crc.to_le_bytes());
}

fn valid_header_bytes(block: usize, header_size: u32) -> Vec<u8> {
    let mut buf = base_header_bytes(block, header_size);
    patch_crc(&mut buf, header_size);
    buf
}

#[test]
fn header_decode_example() {
    let buf = valid_header_bytes(512, 92);
    let gpt = GuidPartTable::new(LogicalBlockSize::Lb512);
    let h = gpt.parse_header(&buf).unwrap();
    assert_eq!(&h.signature, b"EFI PART");
    assert_eq!(h.revision, 0x00010000);
    assert_eq!(h.header_size, 92);
    assert_eq!(h.num_part_entries, 128);
    assert_eq!(h.part_entry_size, 128);
    assert_eq!(h.my_lba, 1);
    assert_eq!(h.alternate_lba, 7813119);
    assert_eq!(h.first_usable_lba, 34);
    assert_eq!(h.last_usable_lba, 7813086);
    assert_eq!(h.part_entry_lba, 2);
    assert_eq!(h.crc32_part_entry_array, 0x1234abcd);
    assert_eq!(h.disk_guid.as_bytes(), b"ABCDEFGHIJKLMNOP");
}

#[test]
fn header_rejects_bad_signature() {
    let mut buf = valid_header_bytes(512, 92);
    buf[0..8].copy_from_slice(b"EFI QART");
    patch_crc(&mut buf, 92); // even with a matching checksum
    let gpt = GuidPartTable::new(LogicalBlockSize::Lb512);
    assert_eq!(gpt.parse_header(&buf), Err(GptError::HdrSignature));
}

#[test]
fn header_rejects_bad_revision() {
    let mut buf = valid_header_bytes(512, 92);
    put_u32(&mut buf, 8, 0x00020000);
    patch_crc(&mut buf, 92);
    let gpt = GuidPartTable::new(LogicalBlockSize::Lb512);
    assert_eq!(gpt.parse_header(&buf), Err(GptError::HdrRevision));
}

#[test]
fn header_size_bounds() {
    let gpt = GuidPartTable::new(LogicalBlockSize::Lb512);
    // 91 is rejected
    let buf = valid_header_bytes(512, 91);
    assert_eq!(gpt.parse_header(&buf), Err(GptError::HdrSize));
    // 92 is accepted
    let buf = valid_header_bytes(512, 92);
    assert!(gpt.parse_header(&buf).is_ok());
    // the logical block size itself is accepted
    let buf = valid_header_bytes(512, 512);
    assert!(gpt.parse_header(&buf).is_ok());
    // one past the logical block size is rejected
    let mut buf = base_header_bytes(512, 513);
    patch_crc(&mut buf, 512);
    assert_eq!(gpt.parse_header(&buf), Err(GptError::HdrSize));
}

#[test]
fn header_rejects_crc_mismatch() {
    let mut buf = valid_header_bytes(512, 92);
    // corrupt a byte the checksum covers
    buf[24] ^= 0xff;
    let gpt = GuidPartTable::new(LogicalBlockSize::Lb512);
    assert_eq!(gpt.parse_header(&buf), Err(GptError::HdrCrc32));

    // corrupt the stored checksum itself
    let mut buf = valid_header_bytes(512, 92);
    buf[16] ^= 0x01;
    assert_eq!(gpt.parse_header(&buf), Err(GptError::HdrCrc32));
}

#[test]
fn header_rejects_bad_guid() {
    let mut buf = base_header_bytes(512, 92);
    buf[56] = 0x00;
    patch_crc(&mut buf, 92);
    let gpt = GuidPartTable::new(LogicalBlockSize::Lb512);
    assert_eq!(gpt.parse_header(&buf), Err(GptError::PartUUID));
}

#[test]
fn header_round_trip() {
    let buf = valid_header_bytes(512, 92);
    let gpt = GuidPartTable::new(LogicalBlockSize::Lb512);
    let h = gpt.parse_header(&buf).unwrap();
    let out = gpt.serialize_header(&h);
    assert_eq!(out, buf);
    let h2 = gpt.parse_header(&out).unwrap();
    assert_eq!(h2, h);
}

#[test]
fn header_round_trip_after_crc_recompute() {
    // With a nonzero reserved tail inside header_size, re-encoding
    // zeroes that tail, so the round trip needs the CRC of the
    // encoded buffer recomputed first.
    let mut buf = base_header_bytes(512, 100);
    buf[95] = 0x5c; // a reserved byte the checksum covers
    patch_crc(&mut buf, 100);
    let gpt = GuidPartTable::new(LogicalBlockSize::Lb512);
    let h = gpt.parse_header(&buf).unwrap();

    let mut out = gpt.serialize_header(&h);
    assert_eq!(gpt.parse_header(&out), Err(GptError::HdrCrc32));
    patch_crc(&mut out, 100);
    let h2 = gpt.parse_header(&out).unwrap();
    assert_eq!(h2.signature, h.signature);
    assert_eq!(h2.revision, h.revision);
    assert_eq!(h2.header_size, h.header_size);
    assert_eq!(h2.my_lba, h.my_lba);
    assert_eq!(h2.alternate_lba, h.alternate_lba);
    assert_eq!(h2.first_usable_lba, h.first_usable_lba);
    assert_eq!(h2.last_usable_lba, h.last_usable_lba);
    assert_eq!(h2.disk_guid, h.disk_guid);
    assert_eq!(h2.part_entry_lba, h.part_entry_lba);
    assert_eq!(h2.num_part_entries, h.num_part_entries);
    assert_eq!(h2.part_entry_size, h.part_entry_size);
    assert_eq!(h2.crc32_part_entry_array, h.crc32_part_entry_array);
}

#[test]
fn header_4096_block() {
    let buf = valid_header_bytes(4096, 92);
    let gpt = GuidPartTable::new(LogicalBlockSize::Lb4096);
    let h = gpt.parse_header(&buf).unwrap();
    let out = gpt.serialize_header(&h);
    assert_eq!(out.len(), 4096);
    assert_eq!(out, buf);
}
