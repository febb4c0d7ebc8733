use virpc::memory::{MemBank, MemType, Memory};

#[test]
fn ram_starts_zeroed() {
    let mem = Memory::new_shared();
    assert_eq!(mem.read_byte(0), 0);
    assert_eq!(mem.read_byte(0x7FFFF), 0);
    assert_eq!(mem.read_int_le(0x1234), 0);
}

#[test]
fn byte_written_is_read_back() {
    let mut mem = Memory::new_shared();
    assert!(mem.write_byte(0x100, 0xAB));
    assert_eq!(mem.read_byte(0x100), 0xAB);
    assert_eq!(mem.read_byte(0x101), 0);
}

#[test]
fn int_is_little_endian() {
    let mut mem = Memory::new_shared();
    assert!(mem.write_int_le(0x200, 0x12345678));
    assert_eq!(mem.read_byte(0x200), 0x78);
    assert_eq!(mem.read_byte(0x201), 0x56);
    assert_eq!(mem.read_byte(0x202), 0x34);
    assert_eq!(mem.read_byte(0x203), 0x12);
    assert_eq!(mem.read_int_le(0x200), 0x12345678);
}

#[test]
fn outside_ram_reads_zero_and_drops_writes() {
    let mut mem = Memory::new_shared();
    assert!(mem.write_byte(0x80000, 0xFF));
    assert_eq!(mem.read_byte(0x80000), 0);
    assert!(mem.write_int_le(0xFFFF_FFFE, 0xDEADBEEF));
    assert_eq!(mem.read_int_le(0xFFFF_FFFE), 0);
    assert_eq!(mem.read_byte(0), 0);
    assert_eq!(mem.read_byte(1), 0);
}

#[test]
fn int_across_the_end_of_ram() {
    let mut mem = Memory::new_shared();
    assert!(mem.write_int_le(0x7FFFE, 0xAABBCCDD));
    assert_eq!(mem.read_byte(0x7FFFE), 0xDD);
    assert_eq!(mem.read_byte(0x7FFFF), 0xCC);
    assert_eq!(mem.read_int_le(0x7FFFE), 0x0000CCDD);
}

#[test]
fn banks_by_address_and_kind() {
    let mut mem = Memory::new_shared();
    mem.write_byte(0x10, 7);
    assert_eq!(mem.get_bank(0x10).read(0x10), 7);
    assert_eq!(mem.get_bank(0x80000).read(0x10), 0);
    assert_eq!(mem.get_ram_bank(MemType::Ram).read(0x10), 7);
    assert_eq!(mem.get_ram_bank(MemType::Void).read(0x10), 0);
    mem.reset();
    assert_eq!(mem.read_byte(0x10), 7);
}

#[test]
fn bank_alone() {
    let mut ram = MemBank::new(MemType::Ram);
    ram.write(5, 9);
    assert_eq!(ram.read(5), 9);
    ram.write(0x80000, 9);
    assert_eq!(ram.read(0x80000), 0);
    let mut void = MemBank::new(MemType::Void);
    void.write(5, 9);
    assert_eq!(void.read(5), 0);
}
