use gpt_codec::LittleEndianBytes;

#[test]
fn cursor_reads_little_endian_integers() {
    let data: Vec<u8> = vec![
        0x11, 0x22, 0x33, 0x44, 0x55, 0x66, 0x77, 0x88, 0x99, 0xaa, 0xbb, 0xcc, 0xdd, 0xee, 0xff,
    ];
    let mut c = LittleEndianBytes::new(&data);
    assert_eq!(c.parse_u8(), Some(0x11));
    assert_eq!(c.parse_u16(), Some(0x3322));
    assert_eq!(c.parse_u32(), Some(0x77665544));
    assert_eq!(c.parse_u64(), Some(0xffeeddccbbaa9988));
    assert_eq!(c.parse_u8(), None);

    let mut c = LittleEndianBytes::new(&data);
    c.skip(8);
    assert_eq!(c.parse_u64(), None); // only 7 bytes remain
    assert_eq!(c.parse_u32(), Some(0xccbbaa99));
    assert_eq!(c.parse_u16(), Some(0xeedd));
    assert_eq!(c.parse_u8(), Some(0xff));
    assert_eq!(c.parse_u8(), None);
}

#[test]
fn cursor_fails_silently_at_end() {
    let data: Vec<u8> = vec![0x01];
    let mut c = LittleEndianBytes::new(&data);
    assert_eq!(c.parse_u16(), None);
    assert_eq!(c.parse_u32(), None);
    assert_eq!(c.parse_u64(), None);
    // a failed read does not move the position
    assert_eq!(c.parse_u8(), Some(0x01));
}

#[test]
fn cursor_skip_advances_without_reading() {
    let data: Vec<u8> = vec![0x01, 0x02, 0x03, 0x04];
    let mut c = LittleEndianBytes::new(&data);
    c.skip(2);
    assert_eq!(c.parse_u16(), Some(0x0403));
}

#[test]
fn cursor_copy_from_reads_absolute_and_advances_relative() {
    let data: Vec<u8> = vec![0x10, 0x20, 0x30, 0x40, 0x50, 0x60];
    let mut c = LittleEndianBytes::new(&data);
    c.skip(1);
    // copies from absolute offset 3, but advances the position by 2
    // relative to where it was: 1 -> 3.
    let copied: [u8; 2] = c.copy_from(3);
    assert_eq!(copied, [0x40, 0x50]);
    assert_eq!(c.parse_u8(), Some(0x40));
}
