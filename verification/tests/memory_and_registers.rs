use lib::memory::{Memory, MEMORY_SIZE};
use lib::regs::Registers;

#[test]
fn memory_starts_zeroed_with_640k() {
    let m = Memory::new();
    assert_eq!(m.data.len(), MEMORY_SIZE);
    assert_eq!(MEMORY_SIZE, 640 * 1024);
    assert_eq!(m.read_u8(0), 0);
    assert_eq!(m.read_u8(MEMORY_SIZE - 1), 0);
    let d = Memory::default();
    assert_eq!(d.data.len(), MEMORY_SIZE);
}

#[test]
fn read_outside_memory_is_open_bus() {
    let m = Memory::new();
    assert_eq!(m.read_u8(MEMORY_SIZE), 0xFF);
    assert_eq!(m.read_u8(0x10FFEF), 0xFF);
    // a word straddling the end: low byte inside (0), high byte outside (0xFF)
    assert_eq!(m.read_u16(MEMORY_SIZE - 1), 0xFF00);
}

#[test]
fn write_outside_memory_is_dropped() {
    let mut m = Memory::new();
    m.write_u8(MEMORY_SIZE, 0x12);
    m.write_u16(MEMORY_SIZE - 1, 0xABCD);
    assert_eq!(m.data.len(), MEMORY_SIZE);
    assert_eq!(m.read_u8(MEMORY_SIZE - 1), 0xCD);
}

#[test]
fn byte_read_after_write() {
    let mut m = Memory::new();
    m.write_u8(0x1234, 0x5A);
    assert_eq!(m.read_u8(0x1234), 0x5A);
    assert_eq!(m.read_u8(0x1233), 0);
    assert_eq!(m.read_u8(0x1235), 0);
}

#[test]
fn word_is_little_endian() {
    let mut m = Memory::new();
    m.write_u16(0x100, 0xBEEF);
    assert_eq!(m.read_u8(0x100), 0xEF);
    assert_eq!(m.read_u8(0x101), 0xBE);
    assert_eq!(m.read_u16(0x100), 0xBEEF);
    assert_eq!(m.read_u16(0x0FF), 0xEF00);
}

#[test]
fn registers_default_to_zero() {
    let r = Registers::default();
    assert_eq!(r.ax, 0);
    assert_eq!(r.sp, 0);
    assert_eq!(r.flags, 0);
    assert_eq!(r.ip, 0);
}
