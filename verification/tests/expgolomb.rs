use scrcpy_ws::bits::BitReader;

#[test]
fn test_read_bit_msb_first() {
    let data = [0b1010_0000u8];
    let mut r = BitReader::new(&data);
    assert_eq!(r.read_bit(), Some(1));
    assert_eq!(r.read_bit(), Some(0));
    assert_eq!(r.read_bit(), Some(1));
    assert_eq!(r.read_bit(), Some(0));
}

#[test]
fn test_read_bit_exhausted() {
    let data = [0xFFu8];
    let mut r = BitReader::new(&data);
    for _ in 0..8 {
        assert_eq!(r.read_bit(), Some(1));
    }
    assert_eq!(r.read_bit(), None);
}

#[test]
fn test_read_bits_fields() {
    let data = [0xABu8, 0xCD];
    let mut r = BitReader::new(&data);
    assert_eq!(r.read_bits(8), Some(0xAB));
    assert_eq!(r.read_bits(4), Some(0xC));
    assert_eq!(r.read_bits(4), Some(0xD));
    assert_eq!(r.read_bits(1), None);
}

#[test]
fn test_read_ue_small_codes() {
    // 0b1 decodes to 0
    let mut r = BitReader::new(&[0b1000_0000u8]);
    assert_eq!(r.read_ue(), Some(0));
    // 0b010 decodes to 1
    let mut r = BitReader::new(&[0b0100_0000u8]);
    assert_eq!(r.read_ue(), Some(1));
    // 0b011 decodes to 2
    let mut r = BitReader::new(&[0b0110_0000u8]);
    assert_eq!(r.read_ue(), Some(2));
    // 0b00100 decodes to 3
    let mut r = BitReader::new(&[0b0010_0000u8]);
    assert_eq!(r.read_ue(), Some(3));
}

#[test]
fn test_read_ue_consecutive() {
    // 0b1, 0b010, 0b011 packed together: 1 010 011, then padding 1s
    let mut r = BitReader::new(&[0b1010_0111u8]);
    assert_eq!(r.read_ue(), Some(0));
    assert_eq!(r.read_ue(), Some(1));
    assert_eq!(r.read_ue(), Some(2));
}

#[test]
fn test_read_ue_truncated() {
    // A run of zeros with no terminating one bit
    let mut r = BitReader::new(&[0x00u8]);
    assert_eq!(r.read_ue(), None);
}

#[test]
fn test_read_se_mapping() {
    // ue = 1 maps to +1
    let mut r = BitReader::new(&[0b0100_0000u8]);
    assert_eq!(r.read_se(), Some(1));
    // ue = 2 maps to -1
    let mut r = BitReader::new(&[0b0110_0000u8]);
    assert_eq!(r.read_se(), Some(-1));
    // ue = 3 maps to +2
    let mut r = BitReader::new(&[0b0010_0000u8]);
    assert_eq!(r.read_se(), Some(2));
    // ue = 4 maps to -2: 0b00101
    let mut r = BitReader::new(&[0b0010_1000u8]);
    assert_eq!(r.read_se(), Some(-2));
    // ue = 0 maps to 0
    let mut r = BitReader::new(&[0b1000_0000u8]);
    assert_eq!(r.read_se(), Some(0));
}
