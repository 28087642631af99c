use lib::cpu::Cpu;
use lib::machine::ConsoleOutput;

fn boot_with(code: &[u8]) -> Cpu {
    let mut rom = vec![0u8; 512];
    rom[..code.len()].copy_from_slice(code);
    Cpu::new(&rom)
}

#[test]
fn boot_loads_first_sector_at_7c00() {
    let mut rom = vec![0u8; 1024];
    for (i, b) in rom.iter_mut().enumerate() {
        *b = (i % 251) as u8 + 1;
    }
    let cpu = Cpu::new(&rom);
    assert_eq!(cpu.regs.cs, 0);
    assert_eq!(cpu.regs.ip, 0x7C00);
    assert_eq!(cpu.regs.sp, 0x7C00);
    assert_eq!(cpu.regs.dx, 0);
    assert_eq!(cpu.regs.ax, 0);
    assert_eq!(cpu.memory.read_u8(0x7C00), rom[0]);
    assert_eq!(cpu.memory.read_u8(0x7C00 + 511), rom[511]);
    // only the boot sector is loaded
    assert_eq!(cpu.memory.read_u8(0x7C00 + 512), 0);
    assert_eq!(cpu.disk_image, rom);
    assert_eq!(cpu.seg_override, None);
    assert!(cpu.console.is_empty());
}

#[test]
fn boot_sets_disk_parameter_table() {
    let cpu = boot_with(&[]);
    assert_eq!(cpu.memory.read_u16(0x78), 0x0EF0);
    assert_eq!(cpu.memory.read_u16(0x7A), 0x0000);
    let dpt = [0xAF, 0x02, 0x25, 0x02, 0x09, 0x1B, 0xFF, 0x54, 0xF6, 0x01, 0x08];
    for (i, b) in dpt.iter().enumerate() {
        assert_eq!(cpu.memory.read_u8(0x0EF0 + i), *b);
    }
    assert_eq!(cpu.memory.read_u8(0x0EF0 + 11), 0);
}

#[test]
fn short_image_is_loaded_whole() {
    let cpu = Cpu::new(&[0x90, 0xF4]);
    assert_eq!(cpu.memory.read_u8(0x7C00), 0x90);
    assert_eq!(cpu.memory.read_u8(0x7C01), 0xF4);
    assert_eq!(cpu.memory.read_u8(0x7C02), 0);
    assert_eq!(cpu.disk_image.len(), 2);
}

#[test]
fn load_rom_drops_bytes_beyond_memory() {
    let mut cpu = Cpu::new(&[]);
    let len = cpu.memory.data.len();
    cpu.load_rom(&[1, 2, 3, 4], len - 2);
    assert_eq!(cpu.memory.read_u8(len - 2), 1);
    assert_eq!(cpu.memory.read_u8(len - 1), 2);
    assert_eq!(cpu.memory.data.len(), len);
}

#[test]
fn fetch_advances_ip_and_wraps() {
    let mut cpu = boot_with(&[0x34, 0x12, 0x56]);
    assert_eq!(cpu.fetch_u16(), 0x1234);
    assert_eq!(cpu.regs.ip, 0x7C02);
    assert_eq!(cpu.fetch_u8(), 0x56);
    assert_eq!(cpu.regs.ip, 0x7C03);
    cpu.regs.ip = 0xFFFF;
    cpu.fetch_u8();
    assert_eq!(cpu.regs.ip, 0);
}

#[test]
fn byte_registers_share_word_registers() {
    let mut cpu = boot_with(&[]);
    cpu.regs.ax = 0x1234;
    assert_eq!(cpu.get_reg8(0), 0x34);
    assert_eq!(cpu.get_reg8(4), 0x12);
    cpu.set_reg8(4, 0xAB);
    assert_eq!(cpu.regs.ax, 0xAB34);
    cpu.set_reg8(0, 0xCD);
    assert_eq!(cpu.regs.ax, 0xABCD);
    cpu.set_reg8(7, 0x77);
    assert_eq!(cpu.regs.bx, 0x7700);
    assert_eq!(cpu.get_reg8(8), 0);
}

#[test]
fn word_register_encoding() {
    let mut cpu = boot_with(&[]);
    for reg in 0..8u8 {
        cpu.set_reg16(reg, 0x1000 + reg as u16);
    }
    assert_eq!(cpu.regs.ax, 0x1000);
    assert_eq!(cpu.regs.cx, 0x1001);
    assert_eq!(cpu.regs.dx, 0x1002);
    assert_eq!(cpu.regs.bx, 0x1003);
    assert_eq!(cpu.regs.sp, 0x1004);
    assert_eq!(cpu.regs.bp, 0x1005);
    assert_eq!(cpu.regs.si, 0x1006);
    assert_eq!(cpu.regs.di, 0x1007);
    for reg in 0..8u8 {
        assert_eq!(cpu.get_reg16(reg), 0x1000 + reg as u16);
    }
    cpu.set_reg16(9, 0xFFFF);
    assert_eq!(cpu.get_reg16(9), 0);
    assert_eq!(cpu.regs.ax, 0x1000);
}

#[test]
fn pop_after_push_restores() {
    let mut cpu = boot_with(&[]);
    cpu.push16(0xCAFE);
    assert_eq!(cpu.regs.sp, 0x7BFE);
    assert_eq!(cpu.memory.read_u16(0x7BFE), 0xCAFE);
    assert_eq!(cpu.pop16(), 0xCAFE);
    assert_eq!(cpu.regs.sp, 0x7C00);
}

#[test]
fn push_wraps_stack_pointer() {
    let mut cpu = boot_with(&[]);
    cpu.regs.sp = 0;
    cpu.regs.ss = 0x1000;
    cpu.push16(0x0102);
    assert_eq!(cpu.regs.sp, 0xFFFE);
    assert_eq!(cpu.memory.read_u16(0x1000 * 16 + 0xFFFE), 0x0102);
}

#[test]
fn zero_and_sign_flags() {
    let mut cpu = boot_with(&[]);
    cpu.regs.flags = 0x0001;
    cpu.update_flags_isz(0);
    assert_eq!(cpu.regs.flags, 0x0041);
    cpu.update_flags_isz(0x80);
    assert_eq!(cpu.regs.flags, 0x0081);
    cpu.update_flags_isz(0x7F);
    assert_eq!(cpu.regs.flags, 0x0001);
    cpu.update_flags_isz16(0x8000);
    assert_eq!(cpu.regs.flags, 0x0081);
    cpu.update_flags_isz16(0);
    assert_eq!(cpu.regs.flags, 0x0041);
}

#[test]
fn effective_addresses() {
    let mut cpu = boot_with(&[0x10, 0xF0, 0x34, 0x12, 0x00, 0x01]);
    cpu.regs.bx = 0x100;
    cpu.regs.si = 0x20;
    cpu.regs.bp = 0x300;
    cpu.regs.ds = 0x40;
    cpu.regs.ss = 0x50;
    // mod 00 rm 000: [BX+SI], DS
    assert_eq!(cpu.get_offset(0x00), (0x120, 0x40));
    // mod 01 rm 010: [BP+SI+disp8], SS; disp8 = 0x10
    assert_eq!(cpu.get_offset(0x42), (0x330, 0x50));
    assert_eq!(cpu.regs.ip, 0x7C01);
    // mod 01 rm 111: [BX+disp8], disp8 = 0xF0 = -16
    assert_eq!(cpu.get_offset(0x47), (0xF0, 0x40));
    // mod 00 rm 110: direct address 0x1234, DS
    assert_eq!(cpu.get_offset(0x06), (0x1234, 0x40));
    // mod 10 rm 110: [BP+disp16], SS; disp16 = 0x0100
    assert_eq!(cpu.get_offset(0x86), (0x400, 0x50));
    assert_eq!(cpu.regs.ip, 0x7C06);
}

#[test]
fn segment_override_applies_to_effective_address() {
    let mut cpu = boot_with(&[]);
    cpu.regs.bx = 0x10;
    cpu.regs.ds = 0x100;
    cpu.regs.es = 0x200;
    assert_eq!(cpu.get_ea(0x07), 0x100 * 16 + 0x10);
    cpu.seg_override = Some(cpu.regs.es);
    assert_eq!(cpu.get_ea(0x07), 0x200 * 16 + 0x10);
    assert_eq!(cpu.get_seg(0x999), 0x200);
    cpu.seg_override = None;
    assert_eq!(cpu.get_seg(0x999), 0x999);
}

#[test]
fn register_and_memory_operands() {
    let mut cpu = boot_with(&[]);
    cpu.regs.bx = 0x500;
    cpu.set_rm16(0xC3, 0x1111);
    assert_eq!(cpu.regs.bx, 0x1111);
    cpu.set_rm8(0xC4, 0x22);
    assert_eq!(cpu.regs.ax, 0x2200);
    cpu.regs.si = 0x600;
    cpu.set_rm16(0x04, 0xA55A);
    assert_eq!(cpu.memory.read_u16(0x600), 0xA55A);
    assert_eq!(cpu.get_rm16(0x04), 0xA55A);
    assert_eq!(cpu.get_rm8(0x04), 0x5A);
    assert_eq!(cpu.get_rm8(0xC4), 0x22);
    cpu.write_mem8(0x10, 0x2, 0x99);
    assert_eq!(cpu.read_mem8(0x10, 0x2), 0x99);
    cpu.write_mem16(0x10, 0x4, 0x1357);
    assert_eq!(cpu.read_mem16(0x10, 0x4), 0x1357);
    assert_eq!(cpu.memory.read_u8(0x104), 0x57);
}

#[test]
fn console_output_is_recorded() {
    let mut cpu = boot_with(&[]);
    cpu.regs.ax = 0x0E41;
    assert!(cpu.handle_interrupt(0x10));
    assert_eq!(cpu.console, vec![ConsoleOutput::Char(b'A')]);
}
