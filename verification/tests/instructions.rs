use lib::cpu::Cpu;
use lib::decode::decode;
use lib::machine::ConsoleOutput;
use lib::opcode::Opcode;

fn boot_with(code: &[u8]) -> Cpu {
    let mut rom = vec![0u8; 512];
    rom[..code.len()].copy_from_slice(code);
    Cpu::new(&rom)
}

fn run_until_halt(cpu: &mut Cpu, limit: usize) -> usize {
    let mut steps = 0;
    while steps < limit && cpu.step() {
        steps += 1;
    }
    steps
}

#[test]
fn decode_immediate_forms() {
    let mut cpu = boot_with(&[0xB8, 0x34, 0x12, 0xB4, 0x0E, 0xEB, 0xFE, 0xEA, 0x00, 0x7C, 0x00, 0x00]);
    assert_eq!(decode(&mut cpu), Opcode::MovReg16Imm16(0, 0x1234));
    assert_eq!(cpu.regs.ip, 0x7C03);
    assert_eq!(decode(&mut cpu), Opcode::MovReg8Imm8(4, 0x0E));
    assert_eq!(decode(&mut cpu), Opcode::JmpShort(-2));
    assert_eq!(decode(&mut cpu), Opcode::JmpFar(0x7C00, 0));
    assert_eq!(cpu.regs.ip, 0x7C0C);
}

#[test]
fn decode_prefixes() {
    let mut cpu = boot_with(&[0x26, 0xA4, 0xF3, 0xA6, 0x2E, 0xF3, 0xAA]);
    cpu.regs.es = 0x1234;
    cpu.regs.cs = 0;
    assert_eq!(decode(&mut cpu), Opcode::Movsb);
    assert_eq!(cpu.seg_override, Some(0x1234));
    cpu.seg_override = None;
    assert_eq!(decode(&mut cpu), Opcode::Rep(Box::new(Opcode::Cmpsb)));
    assert_eq!(cpu.seg_override, None);
    assert_eq!(decode(&mut cpu), Opcode::Rep(Box::new(Opcode::Stosb)));
    assert_eq!(cpu.seg_override, Some(0));
    assert_eq!(cpu.regs.ip, 0x7C07);
}

#[test]
fn decode_groups_and_unknown() {
    let mut cpu = boot_with(&[0x83, 0xC0, 0xC1, 0xE0, 0x04, 0x70, 0x05, 0x0F, 0xC8, 0x10, 0x00, 0x02]);
    assert_eq!(decode(&mut cpu), Opcode::Grp1(0x83, 0xC0));
    assert_eq!(decode(&mut cpu), Opcode::Grp2Imm8(0xC1, 0xE0, 0x04));
    assert_eq!(decode(&mut cpu), Opcode::JccShort(0x70, 5));
    assert_eq!(decode(&mut cpu), Opcode::Unknown(0x0F));
    assert_eq!(decode(&mut cpu), Opcode::Enter(0x0010, 2));
}

#[test]
fn add_sets_carry_and_flags() {
    let mut cpu = boot_with(&[]);
    cpu.regs.ax = 0x00F0;
    assert!(Opcode::AddAccImm8(0x20).execute(&mut cpu));
    assert_eq!(cpu.regs.ax, 0x0010);
    assert_eq!(cpu.regs.flags & 0x0001, 0x0001);
    assert_eq!(cpu.regs.flags & 0x0040, 0);
    cpu.regs.ax = 0xFFFF;
    Opcode::AddAccImm16(1).execute(&mut cpu);
    assert_eq!(cpu.regs.ax, 0);
    assert_eq!(cpu.regs.flags & 0x0041, 0x0041);
}

#[test]
fn word_add_between_registers_keeps_carry() {
    let mut cpu = boot_with(&[]);
    cpu.regs.ax = 0xFFFF;
    cpu.regs.bx = 0x0002;
    cpu.regs.flags = 0;
    // ADD AX, BX (01 D8): r/m = AX, reg = BX
    Opcode::AddRm16Reg16(0xD8).execute(&mut cpu);
    assert_eq!(cpu.regs.ax, 0x0001);
    assert_eq!(cpu.regs.flags & 0x0001, 0);
    // ADD AL, BL (00 D8) does set CF
    cpu.regs.ax = 0x00FF;
    Opcode::AddRm8Reg8(0xD8).execute(&mut cpu);
    assert_eq!(cpu.regs.ax, 0x0001);
    assert_eq!(cpu.regs.flags & 0x0001, 1);
}

#[test]
fn adc_and_sbb_use_carry() {
    let mut cpu = boot_with(&[]);
    cpu.regs.ax = 0x0010;
    cpu.regs.flags = 0x0001;
    Opcode::AdcAccImm8(0x05).execute(&mut cpu);
    assert_eq!(cpu.regs.ax, 0x0016);
    assert_eq!(cpu.regs.flags & 1, 0);
    cpu.regs.flags = 0x0001;
    Opcode::SbbAccImm16(0x0016).execute(&mut cpu);
    assert_eq!(cpu.regs.ax, 0xFFFF);
    assert_eq!(cpu.regs.flags & 1, 1);
    assert_eq!(cpu.regs.flags & 0x80, 0x80);
}

#[test]
fn compare_sets_flags_without_storing() {
    let mut cpu = boot_with(&[]);
    cpu.regs.ax = 0x0005;
    Opcode::CmpAccImm8(0x07).execute(&mut cpu);
    assert_eq!(cpu.regs.ax, 0x0005);
    assert_eq!(cpu.regs.flags & 0x00C1, 0x0081);
    Opcode::CmpAccImm16(0x0005).execute(&mut cpu);
    assert_eq!(cpu.regs.flags & 0x00C1, 0x0040);
}

#[test]
fn logic_on_accumulator_clears_carry() {
    let mut cpu = boot_with(&[]);
    cpu.regs.ax = 0x00F0;
    cpu.regs.flags = 0x0001;
    Opcode::OrAccImm8(0x0F).execute(&mut cpu);
    assert_eq!(cpu.regs.ax, 0x00FF);
    assert_eq!(cpu.regs.flags & 1, 0);
    cpu.regs.flags = 0x0001;
    // AND AL, imm8 leaves CF alone
    Opcode::AndAccImm8(0x0F).execute(&mut cpu);
    assert_eq!(cpu.regs.ax, 0x000F);
    assert_eq!(cpu.regs.flags & 1, 1);
    Opcode::XorAccImm16(0x000F).execute(&mut cpu);
    assert_eq!(cpu.regs.ax, 0);
    assert_eq!(cpu.regs.flags & 0x41, 0x40);
}

#[test]
fn xor_register_with_itself() {
    let mut cpu = boot_with(&[0x31, 0xC0, 0xF4]);
    cpu.regs.ax = 0x1234;
    assert!(cpu.step());
    assert_eq!(cpu.regs.ax, 0);
    assert_eq!(cpu.regs.flags & 0x40, 0x40);
    assert!(!cpu.step());
}

#[test]
fn group1_sign_extended_immediate() {
    // 83 C3 FF: ADD BX, -1
    let mut cpu = boot_with(&[0x83, 0xC3, 0xFF]);
    cpu.regs.bx = 5;
    assert!(cpu.step());
    assert_eq!(cpu.regs.bx, 4);
    // 80 FB 10: CMP BL, 0x10
    let mut cpu = boot_with(&[0x80, 0xFB, 0x10]);
    cpu.regs.bx = 5;
    cpu.step();
    assert_eq!(cpu.regs.bx, 5);
    assert_eq!(cpu.regs.flags & 1, 1);
}

#[test]
fn shifts_and_rotates() {
    let mut cpu = boot_with(&[]);
    cpu.regs.ax = 0x0081;
    // ROL AL, 1 (D0 C0)
    Opcode::Grp2(0xD0, 0xC0).execute(&mut cpu);
    assert_eq!(cpu.regs.ax, 0x0003);
    assert_eq!(cpu.regs.flags & 1, 1);
    // SHR AX, 4 (C1 E8 04)
    cpu.regs.ax = 0x1234;
    Opcode::Grp2Imm8(0xC1, 0xE8, 4).execute(&mut cpu);
    assert_eq!(cpu.regs.ax, 0x0123);
    assert_eq!(cpu.regs.flags & 1, 0);
    // SAR AL, CL with CL = 2
    cpu.regs.ax = 0x0080;
    cpu.regs.cx = 2;
    Opcode::Grp2(0xD2, 0xF8).execute(&mut cpu);
    assert_eq!(cpu.regs.ax, 0x00E0);
    assert_eq!(cpu.regs.flags & 0x80, 0x80);
    // RCL AX, 1 with CF set
    cpu.regs.ax = 0x8000;
    cpu.regs.flags |= 1;
    Opcode::Grp2(0xD1, 0xD0).execute(&mut cpu);
    assert_eq!(cpu.regs.ax, 0x0001);
    assert_eq!(cpu.regs.flags & 1, 1);
    // count 0 does nothing
    cpu.regs.ax = 0x5555;
    Opcode::Grp2Imm8(0xC1, 0xE0, 0).execute(&mut cpu);
    assert_eq!(cpu.regs.ax, 0x5555);
}

#[test]
fn group3_not_neg_div() {
    let mut cpu = boot_with(&[]);
    cpu.regs.ax = 0x00F0;
    Opcode::Grp3(0xF6, 0xD0).execute(&mut cpu); // NOT AL
    assert_eq!(cpu.regs.ax, 0x000F);
    Opcode::Grp3(0xF6, 0xD8).execute(&mut cpu); // NEG AL
    assert_eq!(cpu.regs.ax, 0x00F1);
    assert_eq!(cpu.regs.flags & 1, 1);
    // DIV BX: DX:AX = 0x0001_0005, BX = 0x10
    cpu.regs.dx = 1;
    cpu.regs.ax = 5;
    cpu.regs.bx = 0x10;
    Opcode::Grp3(0xF7, 0xF3).execute(&mut cpu);
    assert_eq!(cpu.regs.ax, 0x1000);
    assert_eq!(cpu.regs.dx, 5);
    // division by zero leaves DX:AX alone
    cpu.regs.bx = 0;
    Opcode::Grp3(0xF7, 0xF3).execute(&mut cpu);
    assert_eq!(cpu.regs.ax, 0x1000);
    assert_eq!(cpu.regs.dx, 5);
}

#[test]
fn flag_instructions() {
    let mut cpu = boot_with(&[]);
    cpu.regs.flags = 0;
    Opcode::Stc.execute(&mut cpu);
    Opcode::Std.execute(&mut cpu);
    Opcode::Sti.execute(&mut cpu);
    assert_eq!(cpu.regs.flags, 0x0601);
    Opcode::Cmc.execute(&mut cpu);
    assert_eq!(cpu.regs.flags, 0x0600);
    Opcode::Cmc.execute(&mut cpu);
    assert_eq!(cpu.regs.flags, 0x0601);
    Opcode::Clc.execute(&mut cpu);
    Opcode::Cld.execute(&mut cpu);
    Opcode::Cli.execute(&mut cpu);
    assert_eq!(cpu.regs.flags, 0);
    cpu.regs.ax = 0x4500;
    Opcode::Sahf.execute(&mut cpu);
    assert_eq!(cpu.regs.flags, 0x0045);
    cpu.regs.ax = 0;
    Opcode::Lahf.execute(&mut cpu);
    assert_eq!(cpu.regs.ax, 0x4500);
}

#[test]
fn sign_extensions() {
    let mut cpu = boot_with(&[]);
    cpu.regs.ax = 0x12F0;
    Opcode::Cbw.execute(&mut cpu);
    assert_eq!(cpu.regs.ax, 0xFFF0);
    Opcode::Cwd.execute(&mut cpu);
    assert_eq!(cpu.regs.dx, 0xFFFF);
    cpu.regs.ax = 0x0070;
    Opcode::Cbw.execute(&mut cpu);
    assert_eq!(cpu.regs.ax, 0x0070);
    Opcode::Cwd.execute(&mut cpu);
    assert_eq!(cpu.regs.dx, 0);
}

#[test]
fn xchg_twice_restores() {
    let mut cpu = boot_with(&[]);
    cpu.regs.ax = 1;
    cpu.regs.si = 2;
    Opcode::XchgAxReg(6).execute(&mut cpu);
    assert_eq!((cpu.regs.ax, cpu.regs.si), (2, 1));
    Opcode::XchgAxReg(6).execute(&mut cpu);
    assert_eq!((cpu.regs.ax, cpu.regs.si), (1, 2));
}

#[test]
fn call_and_return() {
    // 7C00: CALL +3 ; 7C03: HLT ; ... 7C06: RET
    let mut cpu = boot_with(&[0xE8, 0x03, 0x00, 0xF4, 0x90, 0x90, 0xC3]);
    assert!(cpu.step());
    assert_eq!(cpu.regs.ip, 0x7C06);
    assert_eq!(cpu.regs.sp, 0x7BFE);
    assert_eq!(cpu.memory.read_u16(0x7BFE), 0x7C03);
    assert!(cpu.step());
    assert_eq!(cpu.regs.ip, 0x7C03);
    assert_eq!(cpu.regs.sp, 0x7C00);
    assert!(!cpu.step());
}

#[test]
fn far_return_pops_cs_and_releases() {
    let mut cpu = boot_with(&[]);
    cpu.push16(0x1234);
    cpu.push16(0x0042);
    Opcode::RetFarImm(4).execute(&mut cpu);
    assert_eq!(cpu.regs.ip, 0x0042);
    assert_eq!(cpu.regs.cs, 0x1234);
    assert_eq!(cpu.regs.sp, 0x7C04);
}

#[test]
fn conditional_jumps_and_loops() {
    let mut cpu = boot_with(&[]);
    cpu.regs.flags = 0x0040;
    cpu.regs.ip = 0x100;
    Opcode::JccShort(0x74, 0x10).execute(&mut cpu); // JE taken
    assert_eq!(cpu.regs.ip, 0x110);
    Opcode::JccShort(0x75, 0x10).execute(&mut cpu); // JNE not taken
    assert_eq!(cpu.regs.ip, 0x110);
    cpu.regs.flags = 0x0880; // SF = OF: JGE taken, JL not
    Opcode::JccShort(0x7D, -0x10).execute(&mut cpu);
    assert_eq!(cpu.regs.ip, 0x100);
    Opcode::JccShort(0x7C, -0x10).execute(&mut cpu);
    assert_eq!(cpu.regs.ip, 0x100);
    cpu.regs.cx = 2;
    Opcode::Loop(-2).execute(&mut cpu);
    assert_eq!((cpu.regs.cx, cpu.regs.ip), (1, 0xFE));
    Opcode::Loop(-2).execute(&mut cpu);
    assert_eq!((cpu.regs.cx, cpu.regs.ip), (0, 0xFE));
    Opcode::JcxzShort(2).execute(&mut cpu);
    assert_eq!(cpu.regs.ip, 0x100);
}

#[test]
fn rep_movsb_copies_block() {
    let mut cpu = boot_with(&[0xF3, 0xA4, 0xF4]);
    for i in 0..5 {
        cpu.memory.write_u8(0x500 + i, 0x41 + i as u8);
    }
    cpu.regs.si = 0x500;
    cpu.regs.di = 0x600;
    cpu.regs.cx = 5;
    assert!(cpu.step());
    assert_eq!(cpu.regs.cx, 0);
    assert_eq!(cpu.regs.si, 0x505);
    assert_eq!(cpu.regs.di, 0x605);
    for i in 0..5 {
        assert_eq!(cpu.memory.read_u8(0x600 + i), 0x41 + i as u8);
    }
    assert_eq!(cpu.memory.read_u8(0x605), 0);
    assert!(!cpu.step());
}

#[test]
fn rep_with_zero_count_does_nothing() {
    let mut cpu = boot_with(&[]);
    cpu.regs.cx = 0;
    cpu.regs.di = 0x600;
    assert!(Opcode::Rep(Box::new(Opcode::Stosw)).execute(&mut cpu));
    assert_eq!(cpu.regs.di, 0x600);
}

#[test]
fn repe_cmpsb_stops_at_difference() {
    let mut cpu = boot_with(&[]);
    for (i, b) in b"abcx".iter().enumerate() {
        cpu.memory.write_u8(0x500 + i, *b);
    }
    for (i, b) in b"abcd".iter().enumerate() {
        cpu.memory.write_u8(0x600 + i, *b);
    }
    cpu.regs.si = 0x500;
    cpu.regs.di = 0x600;
    cpu.regs.cx = 10;
    assert!(Opcode::Rep(Box::new(Opcode::Cmpsb)).execute(&mut cpu));
    assert_eq!(cpu.regs.cx, 6);
    assert_eq!(cpu.regs.si, 0x504);
    assert_eq!(cpu.regs.flags & 0x40, 0);
}

#[test]
fn string_direction_flag_steps_down() {
    let mut cpu = boot_with(&[]);
    cpu.regs.flags = 0x0400;
    cpu.regs.ax = 0xBEEF;
    cpu.regs.di = 0x700;
    Opcode::Stosw.execute(&mut cpu);
    assert_eq!(cpu.regs.di, 0x6FE);
    assert_eq!(cpu.memory.read_u16(0x700), 0xBEEF);
    cpu.regs.si = 0x700;
    cpu.regs.ax = 0;
    Opcode::Lodsb.execute(&mut cpu);
    assert_eq!(cpu.regs.ax, 0x00EF);
    assert_eq!(cpu.regs.si, 0x6FF);
}

#[test]
fn enter_and_leave() {
    let mut cpu = boot_with(&[]);
    cpu.regs.bp = 0x1111;
    Opcode::Enter(8, 0).execute(&mut cpu);
    assert_eq!(cpu.regs.bp, 0x7BFE);
    assert_eq!(cpu.regs.sp, 0x7BF6);
    assert_eq!(cpu.memory.read_u16(0x7BFE), 0x1111);
    Opcode::Leave.execute(&mut cpu);
    assert_eq!(cpu.regs.bp, 0x1111);
    assert_eq!(cpu.regs.sp, 0x7C00);
}

#[test]
fn enter_with_nesting_level() {
    let mut cpu = boot_with(&[]);
    cpu.regs.bp = 0x7000;
    cpu.memory.write_u16(0x6FFE, 0xAAAA);
    Opcode::Enter(0, 2).execute(&mut cpu);
    // pushed: old BP, one copied frame pointer, the new frame pointer
    assert_eq!(cpu.memory.read_u16(0x7BFE), 0x7000);
    assert_eq!(cpu.memory.read_u16(0x7BFC), 0xAAAA);
    assert_eq!(cpu.memory.read_u16(0x7BFA), 0x7BFE);
    assert_eq!(cpu.regs.bp, 0x7BFE);
    assert_eq!(cpu.regs.sp, 0x7BFA);
}

#[test]
fn segment_moves_and_stack() {
    let mut cpu = boot_with(&[]);
    cpu.regs.ax = 0x2000;
    Opcode::MovSregRm(0xD8).execute(&mut cpu); // MOV DS, AX
    assert_eq!(cpu.regs.ds, 0x2000);
    Opcode::PushSreg(0x1E).execute(&mut cpu); // PUSH DS
    Opcode::PopSreg(0x07).execute(&mut cpu); // POP ES
    assert_eq!(cpu.regs.es, 0x2000);
    Opcode::MovRmSreg(0xC3).execute(&mut cpu); // MOV BX, ES
    assert_eq!(cpu.regs.bx, 0x2000);
}

#[test]
fn lea_les_and_moffs() {
    let mut cpu = boot_with(&[]);
    cpu.regs.bx = 0x10;
    cpu.regs.si = 0x20;
    Opcode::Lea(0x38).execute(&mut cpu); // LEA DI, [BX+SI]
    assert_eq!(cpu.regs.di, 0x30);
    cpu.memory.write_u16(0x30, 0x1234);
    cpu.memory.write_u16(0x32, 0x5678);
    Opcode::Les(0x38).execute(&mut cpu); // LES DI, [BX+SI]
    assert_eq!(cpu.regs.di, 0x1234);
    assert_eq!(cpu.regs.es, 0x5678);
    Opcode::MovAccMoff16(0x30).execute(&mut cpu);
    assert_eq!(cpu.regs.ax, 0x1234);
    cpu.regs.ax = 0x00AB;
    Opcode::MovMoff8Acc(0x40).execute(&mut cpu);
    assert_eq!(cpu.memory.read_u8(0x40), 0xAB);
}

#[test]
fn ports_read_all_ones() {
    let mut cpu = boot_with(&[]);
    Opcode::InAlDx.execute(&mut cpu);
    assert_eq!(cpu.regs.ax, 0x00FF);
    Opcode::InAxImm8(0x60).execute(&mut cpu);
    assert_eq!(cpu.regs.ax, 0xFFFF);
    Opcode::OutDxAl.execute(&mut cpu);
    assert_eq!(cpu.regs.ax, 0xFFFF);
}

#[test]
fn inc_dec_push_pop() {
    let mut cpu = boot_with(&[]);
    cpu.regs.cx = 0xFFFF;
    Opcode::IncReg16(1).execute(&mut cpu);
    assert_eq!(cpu.regs.cx, 0);
    assert_eq!(cpu.regs.flags & 0x40, 0x40);
    Opcode::DecReg16(1).execute(&mut cpu);
    assert_eq!(cpu.regs.cx, 0xFFFF);
    assert_eq!(cpu.regs.flags & 0xC0, 0x80);
    Opcode::PushReg16(1).execute(&mut cpu);
    Opcode::PopReg16(2).execute(&mut cpu);
    assert_eq!(cpu.regs.dx, 0xFFFF);
    Opcode::Pushf.execute(&mut cpu);
    cpu.regs.flags = 0;
    Opcode::Popf.execute(&mut cpu);
    assert_eq!(cpu.regs.flags & 0xC0, 0x80);
}

#[test]
fn halt_and_unknown_stop() {
    let mut cpu = boot_with(&[0x90, 0x0F]);
    assert!(cpu.step());
    assert!(!cpu.step());
    assert_eq!(
        cpu.console,
        vec![ConsoleOutput::UnknownOpcode { opcode: 0x0F, cs: 0, ip: 0x7C01 }]
    );
    let mut cpu = boot_with(&[]);
    assert!(!Opcode::Hlt.execute(&mut cpu));
}

#[test]
fn step_clears_segment_override() {
    // ES: MOV AL, [0x0010]
    let mut cpu = boot_with(&[0x26, 0xA0, 0x10, 0x00]);
    cpu.regs.es = 0x100;
    cpu.memory.write_u8(0x1010, 0x77);
    assert!(cpu.step());
    assert_eq!(cpu.regs.ax & 0xFF, 0x77);
    assert_eq!(cpu.seg_override, None);
}

#[test]
fn hello_program_prints_through_bios() {
    // MOV AH,0Eh; MOV AL,'H'; INT 10h; MOV AL,'i'; INT 10h; HLT
    let prog = [0xB4, 0x0E, 0xB0, b'H', 0xCD, 0x10, 0xB0, b'i', 0xCD, 0x10, 0xF4];
    let mut cpu = boot_with(&prog);
    let steps = run_until_halt(&mut cpu, 100);
    assert_eq!(steps, 5);
    assert_eq!(cpu.console, vec![ConsoleOutput::Char(b'H'), ConsoleOutput::Char(b'i')]);
}
