use gpt_codec::{GptError, GuidPartTable, LogicalBlockSize, PartEntry, PartName, PartUUID};

fn put_entry(buf: &mut [u8], entry_size: usize, index: usize, start_lba: u64) {
    let off = index * entry_size;
    buf[off..off + 16].copy_from_slice(b"ABCDEFGHIJKLMNOP");
    buf[off + 16..off + 32].copy_from_slice(b"abcdefghijklmnop");
    buf[off + 32..off + 40].copy_from_slice(&start_lba.to_le_bytes());
    buf[off + 40..off + 48].copy_from_slice(&(start_lba + 2047).to_le_bytes());
    buf[off + 48..off + 56].copy_from_slice(&4u64.to_le_bytes());
    buf[off + 56..off + 72].copy_from_slice(b"qrstuvwxQRSTUVWX");
}

#[test]
fn entry_table_drops_short_remainder() {
    // a buffer of 3 * entry_size + 10 bytes yields exactly 3 entries
    let es = 128usize;
    let mut buf = vec![0u8; 3 * es + 10];
    for i in 0..3 {
        put_entry(&mut buf, es, i, 2048 * (i as u64 + 1));
    }
    let gpt = GuidPartTable::new(LogicalBlockSize::Lb512);
    let t = gpt.parse_part_table(&buf, es).unwrap();
    assert_eq!(t.entries.len(), 3);
    assert_eq!(t.entries[0].starting_lba, 2048);
    assert_eq!(t.entries[1].starting_lba, 4096);
    assert_eq!(t.entries[2].starting_lba, 6144);
}

#[test]
fn entry_fields_decoded_exactly() {
    let es = 128usize;
    let mut buf = vec![0u8; es];
    put_entry(&mut buf, es, 0, 34);
    let gpt = GuidPartTable::new(LogicalBlockSize::Lb512);
    let t = gpt.parse_part_table(&buf, es).unwrap();
    assert_eq!(t.entries.len(), 1);
    let e = &t.entries[0];
    assert_eq!(e.part_type_guid.as_bytes(), b"ABCDEFGHIJKLMNOP");
    assert_eq!(e.part_guid.as_bytes(), b"abcdefghijklmnop");
    assert_eq!(e.starting_lba, 34);
    assert_eq!(e.ending_lba, 2081);
    assert_eq!(e.attributes, 4);
    assert_eq!(e.name.as_bytes(), b"qrstuvwxQRSTUVWX");
}

#[test]
fn entry_table_rejects_bad_guid() {
    let es = 128usize;
    let mut buf = vec![0u8; 2 * es];
    put_entry(&mut buf, es, 0, 2048);
    put_entry(&mut buf, es, 1, 4096);
    buf[es + 3] = 0x31; // a non-alphabetic byte in the second type GUID
    let gpt = GuidPartTable::new(LogicalBlockSize::Lb512);
    assert_eq!(gpt.parse_part_table(&buf, es), Err(GptError::PartUUID));
}

#[test]
fn entry_table_empty_when_buffer_short() {
    let es = 128usize;
    let buf = vec![0u8; es - 1];
    let gpt = GuidPartTable::new(LogicalBlockSize::Lb512);
    let t = gpt.parse_part_table(&buf, es).unwrap();
    assert_eq!(t.entries.len(), 0);
}

#[test]
fn entry_round_trip() {
    let es = 128usize;
    let mut buf = vec![0u8; 3 * es];
    for i in 0..3 {
        put_entry(&mut buf, es, i, 2048 * (i as u64 + 1));
    }
    let gpt = GuidPartTable::new(LogicalBlockSize::Lb512);
    let t = gpt.parse_part_table(&buf, es).unwrap();
    let out = gpt.serialize_parse_entries(&t, es);
    assert_eq!(out, buf);
    let t2 = gpt.parse_part_table(&out, es).unwrap();
    assert_eq!(t2.entries, t.entries);
}

#[test]
fn entry_encode_zero_fills_reserved_tail() {
    let e = PartEntry {
        part_type_guid: PartUUID::try_from(b"ABCDEFGHIJKLMNOP".as_slice()).unwrap(),
        part_guid: PartUUID::try_from(b"abcdefghijklmnop".as_slice()).unwrap(),
        starting_lba: 34,
        ending_lba: 2081,
        attributes: 0,
        name: PartName(*b"qrstuvwxQRSTUVWX"),
    };
    let bytes = e.serialize(128);
    assert_eq!(bytes.len(), 128);
    assert_eq!(&bytes[0..16], b"ABCDEFGHIJKLMNOP");
    assert_eq!(&bytes[32..40], &34u64.to_le_bytes());
    assert!(bytes[72..].iter().all(|b| *b == 0));
}

#[test]
fn entry_table_round_trip_with_larger_entry_size() {
    let es = 256usize;
    let mut buf = vec![0u8; 2 * es];
    put_entry(&mut buf, es, 0, 2048);
    put_entry(&mut buf, es, 1, 4096);
    let gpt = GuidPartTable::new(LogicalBlockSize::Lb512);
    let t = gpt.parse_part_table(&buf, es).unwrap();
    assert_eq!(t.entries.len(), 2);
    let out = gpt.serialize_parse_entries(&t, es);
    assert_eq!(out, buf);
}
