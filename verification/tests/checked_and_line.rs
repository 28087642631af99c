use lib::bios::interrupt_returns;
use lib::cpu::Cpu;
use lib::decode::decode_budget;
use lib::line::{edit_line, line_full, Echo};
use lib::machine::ConsoleOutput;
use lib::opcode::Opcode;

fn boot_with(code: &[u8]) -> Cpu {
    let mut rom = vec![0u8; 512];
    rom[..code.len()].copy_from_slice(code);
    Cpu::new(&rom)
}

#[test]
fn line_editing_keys() {
    let mut buf = vec![0u8; 4];
    assert_eq!(edit_line(&mut buf, 0, 'a'), (1, Echo::Show('a'), false));
    assert_eq!(edit_line(&mut buf, 1, 'b'), (2, Echo::Show('b'), false));
    assert_eq!(&buf[..2], b"ab");
    assert_eq!(edit_line(&mut buf, 2, '\x7F'), (1, Echo::Erase, false));
    assert_eq!(edit_line(&mut buf, 0, '\x08'), (0, Echo::Nothing, false));
    assert_eq!(edit_line(&mut buf, 1, '\x01'), (1, Echo::Nothing, false));
    assert_eq!(edit_line(&mut buf, 1, '\r'), (1, Echo::Newline, true));
    assert_eq!(edit_line(&mut buf, 1, '\n'), (1, Echo::Newline, true));
    // a non-ASCII key is stored as the low byte of its code point: U+0141 -> 'A'
    assert_eq!(edit_line(&mut buf, 1, '\u{141}'), (2, Echo::Show('\u{141}'), false));
    assert_eq!(buf[1], b'A');
}

#[test]
fn line_holds_one_less_than_buffer() {
    assert!(!line_full(64, 62));
    assert!(line_full(64, 63));
    assert!(line_full(1, 0));
}

#[test]
fn checked_step_agrees_with_step() {
    let prog = [0xB8, 0x34, 0x12, 0xF4];
    let mut a = boot_with(&prog);
    let mut b = boot_with(&prog);
    assert_eq!(a.step_checked(0x10000, u64::MAX), Some(b.step()));
    assert_eq!(a.regs, b.regs);
    assert_eq!(a.step_checked(0x10000, u64::MAX), Some(false));
}

#[test]
fn checked_step_refuses_sector_zero_read_unchanged() {
    // MOV CX,0 is already there; INT 13h with AH=2, sector 0
    let mut cpu = boot_with(&[0xCD, 0x13]);
    cpu.regs.ax = 0x0201;
    cpu.regs.cx = 0x0000;
    assert!(!interrupt_returns(&cpu, 0x13));
    let regs = cpu.regs;
    assert_eq!(cpu.step_checked(0x10000, u64::MAX), None);
    assert_eq!(cpu.regs, regs);
    cpu.regs.cx = 0x0001;
    assert!(interrupt_returns(&cpu, 0x13));
    assert_eq!(cpu.step_checked(0x10000, u64::MAX), Some(true));
}

#[test]
fn checked_step_refuses_unterminated_string() {
    let mut cpu = boot_with(&[0xCD, 0x21]);
    cpu.regs.ax = 0x0900;
    cpu.regs.ds = 0x9FFF; // string at 9FFF0h: the last 16 bytes of memory, all zero
    cpu.regs.dx = 0;
    assert!(!interrupt_returns(&cpu, 0x21));
    assert_eq!(cpu.step_checked(0x10000, u64::MAX), None);
    assert_eq!(cpu.regs.ip, 0x7C00);
    cpu.memory.write_u8(0x9FFF5, b'$');
    assert!(interrupt_returns(&cpu, 0x21));
    assert_eq!(cpu.step_checked(0x10000, u64::MAX), Some(true));
    assert_eq!(cpu.console.len(), 5);
    assert_eq!(cpu.console[0], ConsoleOutput::Char(0));
}

#[test]
fn checked_step_prefix_bound() {
    let mut cpu = boot_with(&[0x26, 0x2E, 0x90]);
    let regs = cpu.regs;
    assert_eq!(cpu.step_checked(1, 10), None);
    assert_eq!(cpu.regs, regs);
    assert_eq!(cpu.seg_override, None);
    assert_eq!(cpu.step_checked(2, 10), Some(true));
    assert_eq!(cpu.regs.ip, 0x7C03);
}

#[test]
fn decode_budget_counts_prefixes() {
    let mut cpu = boot_with(&[0xF3, 0xF3, 0xA4]);
    assert_eq!(decode_budget(&mut cpu, 1), None);
    let mut cpu = boot_with(&[0xF3, 0xF3, 0xA4]);
    assert_eq!(
        decode_budget(&mut cpu, 2),
        Some(Opcode::Rep(Box::new(Opcode::Rep(Box::new(Opcode::Movsb)))))
    );
}

#[test]
fn execute_budget_limits_repetitions() {
    let mut cpu = boot_with(&[]);
    cpu.regs.cx = 3;
    cpu.regs.di = 0x600;
    assert_eq!(Opcode::Rep(Box::new(Opcode::Stosb)).execute_budget(&mut cpu, 2), None);
    let mut cpu = boot_with(&[]);
    cpu.regs.cx = 3;
    cpu.regs.di = 0x600;
    assert_eq!(Opcode::Rep(Box::new(Opcode::Stosb)).execute_budget(&mut cpu, 3), Some(true));
    assert_eq!(cpu.regs.di, 0x603);
    assert_eq!(cpu.regs.cx, 0);
    // a REP that resets CX never ends within any budget
    let mut cpu = boot_with(&[]);
    cpu.regs.cx = 1;
    assert_eq!(Opcode::Rep(Box::new(Opcode::MovReg16Imm16(1, 5))).execute_budget(&mut cpu, 1000), None);
}

#[test]
fn rm_word_reads_back_after_write() {
    // [BX+disp8]: the displacement byte at CS:IP is fetched on each access
    let mut cpu = boot_with(&[0x10]);
    cpu.regs.bx = 0x800;
    let ip = cpu.regs.ip;
    cpu.set_rm16(0x47, 0xBEEF);
    assert_eq!(cpu.memory.read_u16(0x810), 0xBEEF);
    cpu.regs.ip = ip;
    assert_eq!(cpu.get_rm16(0x47), 0xBEEF);
    cpu.regs.ip = ip;
    cpu.set_rm8(0x47, 0x42);
    cpu.regs.ip = ip;
    assert_eq!(cpu.get_rm8(0x47), 0x42);
}
