use rusticvm::Addressable;
use rusticvm::LinearMemory;

#[test]
fn write_then_read_returns_the_written_byte() {
    let mut mem = LinearMemory::new(16);
    assert!(mem.write(3, 0xab));
    assert_eq!(mem.read(3), Some(0xab));
    assert_eq!(mem.read(4), Some(0));
}

#[test]
fn read_at_or_past_capacity_is_out_of_range() {
    let mem = LinearMemory::new(16);
    assert_eq!(mem.read(16), None);
    assert_eq!(mem.read(100), None);
    let tiny = LinearMemory::new(1);
    assert_eq!(tiny.read(1), None);
    let empty = LinearMemory::new(0);
    assert_eq!(empty.read(0), None);
}

#[test]
fn write_past_capacity_fails_and_changes_nothing() {
    let mut mem = LinearMemory::new(4);
    assert!(!mem.write(4, 9));
    assert!(!mem.write(200, 9));
    for a in 0..4 {
        assert_eq!(mem.read(a), Some(0));
    }
}

#[test]
fn word_write_then_read_round_trips_little_endian() {
    let mut mem = LinearMemory::new(16);
    assert!(mem.write2(6, 0xbeef));
    assert_eq!(mem.read2(6), Some(0xbeef));
    assert_eq!(mem.read(6), Some(0xef));
    assert_eq!(mem.read(7), Some(0xbe));
}

#[test]
fn word_access_fails_when_the_second_byte_is_out_of_range() {
    let mut mem = LinearMemory::new(8);
    // address 7 is in bounds on its own, address 8 is not
    assert!(!mem.write2(7, 0x1234));
    assert_eq!(mem.read2(7), None);
    // the low byte of the failed write stays written: no rollback
    assert_eq!(mem.read(7), Some(0x34));
}

#[test]
fn copy_moves_bytes_forward() {
    let mut mem = LinearMemory::new(16);
    for (i, b) in [1u8, 2, 3, 4].iter().enumerate() {
        assert!(mem.write(i as u16, *b));
    }
    assert!(mem.copy(0, 8, 4));
    for (i, b) in [1u8, 2, 3, 4].iter().enumerate() {
        assert_eq!(mem.read(8 + i as u16), Some(*b));
    }
}

#[test]
fn copy_fails_at_the_first_out_of_range_access_without_rollback() {
    let mut mem = LinearMemory::new(8);
    for a in 0..4 {
        assert!(mem.write(a, a as u8 + 1));
    }
    // destination runs past capacity at the third byte
    assert!(!mem.copy(0, 6, 4));
    assert_eq!(mem.read(6), Some(1));
    assert_eq!(mem.read(7), Some(2));
}

#[test]
fn load_from_vec_writes_an_image_at_a_base() {
    let mut mem = LinearMemory::new(8);
    assert!(mem.load_from_vec(&[9, 8, 7], 2));
    assert_eq!(mem.read(2), Some(9));
    assert_eq!(mem.read(3), Some(8));
    assert_eq!(mem.read(4), Some(7));
    // an image running past capacity fails, already-written bytes stay
    let mut small = LinearMemory::new(2);
    assert!(!small.load_from_vec(&[5, 6, 7], 1));
    assert_eq!(small.read(1), Some(5));
}
