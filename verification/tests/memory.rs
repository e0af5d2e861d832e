use mips_core::ram::RAM;

#[test]
fn fresh_memory_reads_zero_everywhere() {
    let ram = RAM::new();
    assert_eq!(ram.read_byte(0), 0);
    assert_eq!(ram.read_byte(0xFFFF_FFFF), 0);
    assert_eq!(ram.read_half(0x1234), 0);
    assert_eq!(ram.read_word(0x7fff_effc), 0);
}

#[test]
fn byte_round_trip() {
    let mut ram = RAM::new();
    ram.write_byte(0, 0xAB);
    ram.write_byte(0x0040_0000, 0x7F);
    ram.write_byte(0xFFFF_FFFF, 0x55);
    assert_eq!(ram.read_byte(0), 0xAB);
    assert_eq!(ram.read_byte(0x0040_0000), 0x7F);
    assert_eq!(ram.read_byte(0xFFFF_FFFF), 0x55);
}

#[test]
fn half_round_trip() {
    let mut ram = RAM::new();
    ram.write_half(100, 0xBEEF);
    assert_eq!(ram.read_half(100), 0xBEEF);
    // Odd address: no alignment is enforced by the memory itself.
    ram.write_half(201, 0x1234);
    assert_eq!(ram.read_half(201), 0x1234);
}

#[test]
fn half_round_trip_near_top_of_address_space() {
    let mut ram = RAM::new();
    // Both bytes still inside the address space.
    ram.write_half(0xFFFF_FFFD, 0xCAFE);
    assert_eq!(ram.read_half(0xFFFF_FFFD), 0xCAFE);
    // The second byte wraps to address 0.
    ram.write_half(0xFFFF_FFFF, 0xABCD);
    assert_eq!(ram.read_half(0xFFFF_FFFF), 0xABCD);
    assert_eq!(ram.read_byte(0xFFFF_FFFF), 0xCD);
    assert_eq!(ram.read_byte(0), 0xAB);
}

#[test]
fn word_round_trip() {
    let mut ram = RAM::new();
    ram.write_word(0, 0x0102_0304);
    ram.write_word(0x1001_0000, 0xFFFF_FFFF);
    ram.write_word(7, 0xDEAD_BEEF);
    assert_eq!(ram.read_word(0), 0x0102_0304);
    assert_eq!(ram.read_word(0x1001_0000), 0xFFFF_FFFF);
    assert_eq!(ram.read_word(7), 0xDEAD_BEEF);
}

#[test]
fn word_round_trip_wraps_past_top_of_address_space() {
    let mut ram = RAM::new();
    ram.write_word(0xFFFF_FFFD, 0x1122_3344);
    assert_eq!(ram.read_word(0xFFFF_FFFD), 0x1122_3344);
    // The trailing byte wrapped to address 0.
    assert_eq!(ram.read_byte(0xFFFF_FFFD), 0x44);
    assert_eq!(ram.read_byte(0xFFFF_FFFE), 0x33);
    assert_eq!(ram.read_byte(0xFFFF_FFFF), 0x22);
    assert_eq!(ram.read_byte(0), 0x11);
}

#[test]
fn multi_byte_accesses_are_little_endian() {
    let mut ram = RAM::new();
    ram.write_word(100, 0x0A0B_0C0D);
    assert_eq!(ram.read_byte(100), 0x0D);
    assert_eq!(ram.read_byte(101), 0x0C);
    assert_eq!(ram.read_byte(102), 0x0B);
    assert_eq!(ram.read_byte(103), 0x0A);
    assert_eq!(ram.read_half(100), 0x0C0D);
    assert_eq!(ram.read_half(102), 0x0A0B);
}

#[test]
fn load_segment_copies_verbatim_and_preserves_the_rest() {
    let mut ram = RAM::new();
    ram.write_byte(9, 0x99);
    ram.write_byte(14, 0x66);
    let blob: Vec<u8> = vec![1, 2, 3, 4];
    ram.load_segment(&blob, 10);
    assert_eq!(ram.read_byte(10), 1);
    assert_eq!(ram.read_byte(11), 2);
    assert_eq!(ram.read_byte(12), 3);
    assert_eq!(ram.read_byte(13), 4);
    // Neighbours on both sides are untouched.
    assert_eq!(ram.read_byte(9), 0x99);
    assert_eq!(ram.read_byte(14), 0x66);
}

#[test]
fn load_segment_wraps_past_top_of_address_space() {
    let mut ram = RAM::new();
    let blob: Vec<u8> = vec![0xAA, 0xBB, 0xCC, 0xDD];
    ram.load_segment(&blob, 0xFFFF_FFFE);
    assert_eq!(ram.read_byte(0xFFFF_FFFE), 0xAA);
    assert_eq!(ram.read_byte(0xFFFF_FFFF), 0xBB);
    assert_eq!(ram.read_byte(0), 0xCC);
    assert_eq!(ram.read_byte(1), 0xDD);
}

#[test]
fn overlapping_writes_take_the_last_value() {
    let mut ram = RAM::new();
    ram.write_word(20, 0x1111_1111);
    ram.write_half(22, 0xABCD);
    assert_eq!(ram.read_word(20), 0xABCD_1111);
    ram.write_byte(20, 0x00);
    assert_eq!(ram.read_word(20), 0xABCD_1100);
}
