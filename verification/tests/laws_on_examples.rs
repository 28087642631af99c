use lib::cpu::Cpu;
use lib::decode::decode;
use lib::memory::MEMORY_SIZE;
use lib::opcode::Opcode;

fn boot_with(code: &[u8]) -> Cpu {
    let mut rom = vec![0u8; 2048];
    rom[..code.len()].copy_from_slice(code);
    for (i, b) in rom.iter_mut().enumerate().skip(512) {
        *b = (i / 512) as u8 + 0x40;
    }
    Cpu::new(&rom)
}

#[test]
fn running_never_writes_the_disk_image() {
    // read 3 sectors to 0000:0600, copy them around with REP MOVSW, then halt
    let prog = [
        0xB8, 0x03, 0x02, // MOV AX, 0203h
        0xB9, 0x02, 0x00, // MOV CX, 0002h
        0xBA, 0x00, 0x00, // MOV DX, 0000h
        0xBB, 0x00, 0x06, // MOV BX, 0600h
        0xCD, 0x13,       // INT 13h
        0xBE, 0x00, 0x06, // MOV SI, 0600h
        0xBF, 0x00, 0x7E, // MOV DI, 7E00h
        0xB9, 0x00, 0x01, // MOV CX, 0100h
        0xF3, 0xA5,       // REP MOVSW
        0xF4,             // HLT
    ];
    let mut cpu = boot_with(&prog);
    let disk = cpu.disk_image.clone();
    let mut steps = 0;
    while cpu.step() {
        steps += 1;
        assert!(steps < 100);
    }
    assert_eq!(steps, 9);
    assert_eq!(cpu.disk_image, disk);
    assert_eq!(cpu.memory.data.len(), MEMORY_SIZE);
    assert_eq!(cpu.memory.read_u8(0x600), 0x41);
    assert_eq!(cpu.memory.read_u8(0x7E00), 0x41);
    assert_eq!(cpu.memory.read_u8(0x7FFF), 0x41);
    assert_eq!(cpu.seg_override, None);
}

#[test]
fn decoding_only_moves_ip() {
    let mut cpu = boot_with(&[0x2E, 0xF3, 0xA4]);
    cpu.regs.ax = 0x1111;
    cpu.regs.cx = 0x2222;
    let before = cpu.regs;
    let mem = cpu.memory.data.clone();
    let op = decode(&mut cpu);
    assert_eq!(op, Opcode::Rep(Box::new(Opcode::Movsb)));
    let mut expected = before;
    expected.ip = 0x7C03;
    assert_eq!(cpu.regs, expected);
    assert_eq!(cpu.memory.data, mem);
    assert!(cpu.console.is_empty());
}

#[test]
fn not_twice_restores_register() {
    let mut cpu = boot_with(&[]);
    cpu.regs.si = 0x1234;
    let before = cpu.regs;
    Opcode::Grp3(0xF7, 0xD6).execute(&mut cpu);
    assert_eq!(cpu.regs.si, 0xEDCB);
    Opcode::Grp3(0xF7, 0xD6).execute(&mut cpu);
    assert_eq!(cpu.regs, before);
}

#[test]
fn rotate_right_undoes_rotate_left() {
    let mut cpu = boot_with(&[]);
    cpu.regs.bx = 0x00A5;
    Opcode::Grp2(0xD0, 0xC3).execute(&mut cpu);
    assert_eq!(cpu.regs.bx, 0x004B);
    Opcode::Grp2(0xD0, 0xCB).execute(&mut cpu);
    assert_eq!(cpu.regs.bx, 0x00A5);
}

#[test]
fn clc_stc_set_carry() {
    let mut cpu = boot_with(&[]);
    cpu.regs.flags = 0xFFFF;
    Opcode::Clc.execute(&mut cpu);
    assert_eq!(cpu.regs.flags, 0xFFFE);
    Opcode::Stc.execute(&mut cpu);
    assert_eq!(cpu.regs.flags, 0xFFFF);
}

#[test]
fn pop_outside_memory_reads_open_bus() {
    // the stack slot lies outside memory: the push is lost and the pop reads FFFFh
    let mut cpu = boot_with(&[]);
    cpu.regs.ss = 0xF000;
    cpu.regs.sp = 0x0010;
    cpu.push16(0x1234);
    assert_eq!(cpu.pop16(), 0xFFFF);
    assert_eq!(cpu.regs.sp, 0x0010);
}

#[test]
fn rotate_right_by_count_undoes_rotate_left() {
    for n in [0u8, 1, 3, 7, 8, 9, 17, 255] {
        let mut cpu = boot_with(&[]);
        cpu.regs.dx = 0x9A5C;
        cpu.regs.flags = 0x0001;
        let before = cpu.regs;
        Opcode::execute_grp2(&mut cpu, 0xC0, 0xC2, n); // ROL DL, n
        Opcode::execute_grp2(&mut cpu, 0xC0, 0xCA, n); // ROR DL, n
        assert_eq!(cpu.regs.dx, before.dx);
        Opcode::execute_grp2(&mut cpu, 0xD3, 0xC2, n); // ROL DX, n
        if n % 16 != 0 {
            assert_ne!(cpu.regs.dx, before.dx);
        }
        Opcode::execute_grp2(&mut cpu, 0xD3, 0xCA, n); // ROR DX, n
        assert_eq!(cpu.regs.dx, before.dx);
        cpu.regs.flags = before.flags;
        assert_eq!(cpu.regs, before);
    }
}
