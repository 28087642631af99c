use vstd::prelude::*;
use crate::machine::{Machine, linear, modrm_is_reg, modrm_rm, modrm_reg, modrm_mode};
use crate::memory::{byte_at, word_at, store_byte, store_word};
use crate::opcode::Opcode;
use crate::regs::{Registers, isz8, isz16, flag_on, set_flag, FLAG_ZF, FLAG_SF, FLAG_CF};
use crate::semantics::{run, exec_base, base_defined, executes, execution, grp2_count, is_string_compare};
use crate::alu::AluOp;
use crate::ops::{shift8, shift16, shift_once8, shift_once16};
use crate::decode::{decode_run, decode_base, decoding, decodes, is_segment_prefix, prefix_segment};
use crate::cpu::{step_defined, step_result, step_run, decodes_to_rep};
use crate::bios::{interrupt, disk_read};

verus! {

/// A byte stored inside memory reads back, every other address keeps its byte,
/// and the memory keeps its size.
pub proof fn law_byte_read_after_write(mem: Seq<u8>, addr: int, other: int, val: u8)
    requires
        0 <= addr < mem.len(),
    ensures
        byte_at(store_byte(mem, addr, val), addr) == val,
        other != addr ==> byte_at(store_byte(mem, addr, val), other) == byte_at(mem, other),
        store_byte(mem, addr, val).len() == mem.len(),
{
}

/// Outside memory a read yields `0xFF` and a write changes nothing.
pub proof fn law_outside_memory(mem: Seq<u8>, addr: int, val: u8)
    requires
        !(0 <= addr < mem.len()),
    ensures
        byte_at(mem, addr) == 0xFF,
        store_byte(mem, addr, val) == mem,
{
}

/// A little-endian word stored wholly inside memory reads back, and the bytes
/// outside its two addresses are kept.
pub proof fn law_word_read_after_write(mem: Seq<u8>, addr: int, other: int, val: u16)
    requires
        0 <= addr,
        addr + 1 < mem.len(),
    ensures
        word_at(store_word(mem, addr, val), addr) == val,
        other != addr && other != addr + 1 ==> byte_at(store_word(mem, addr, val), other)
            == byte_at(mem, other),
        store_word(mem, addr, val).len() == mem.len(),
{
}

/// Setting a 16-bit register reads back and leaves every other register alone.
pub proof fn law_reg16_read_after_write(r: Registers, reg: u8, other: u8, val: u16)
    requires
        reg < 8,
    ensures
        r.with_reg16(reg, val).reg16(reg) == val,
        other != reg ==> r.with_reg16(reg, val).reg16(other) == r.reg16(other),
        r.with_reg16(reg, val).flags == r.flags,
        r.with_reg16(reg, val).ip == r.ip,
{
}

/// Setting an 8-bit register reads back, leaves the other half of the same 16-bit
/// register alone, and leaves every other 16-bit register alone.
pub proof fn law_reg8_read_after_write(r: Registers, reg: u8, val: u8)
    requires
        reg < 8,
    ensures
        r.with_reg8(reg, val).reg8(reg) == val,
        reg < 4 ==> r.with_reg8(reg, val).reg8((reg + 4) as u8) == r.reg8((reg + 4) as u8),
        reg >= 4 ==> r.with_reg8(reg, val).reg8((reg - 4) as u8) == r.reg8((reg - 4) as u8),
        forall|other: u8|
            other % 4 != reg % 4 ==> #[trigger] r.with_reg8(reg, val).reg16(other) == r.reg16(other),
{
    let w = r.reg16(reg % 4);
    assert((w - w % 256 + val) % 256 == val && (w - w % 256 + val) / 256 == w / 256) by (nonlinear_arith)
        requires
            0 <= w < 65536,
            0 <= val < 256,
    ;
    assert((w % 256 + 256 * val) % 256 == w % 256 && (w % 256 + 256 * val) / 256 == val) by (nonlinear_arith)
        requires
            0 <= w < 65536,
            0 <= val < 256,
    ;
}

/// ZF is set exactly for a zero result, SF exactly for a result with bit 7 set, and
/// all other flags are kept.
pub proof fn law_isz8(flags: u16, val: u8)
    ensures
        flag_on(isz8(flags, val), FLAG_ZF) == (val == 0),
        flag_on(isz8(flags, val), FLAG_SF) == (val & 0x80 != 0),
        isz8(flags, val) & !0x00C0u16 == flags & !0x00C0u16,
{
    let z = val == 0;
    let n = val & 0x80 != 0;
    assert(flag_on(set_flag(set_flag(flags, 0x0040, z), 0x0080, n), 0x0040) == z) by (bit_vector);
    assert(flag_on(set_flag(set_flag(flags, 0x0040, z), 0x0080, n), 0x0080) == n) by (bit_vector);
    assert(set_flag(set_flag(flags, 0x0040, z), 0x0080, n) & !0x00C0u16 == flags & !0x00C0u16)
        by (bit_vector);
}

/// ZF is set exactly for a zero result, SF exactly for a result with bit 15 set, and
/// all other flags are kept.
pub proof fn law_isz16(flags: u16, val: u16)
    ensures
        flag_on(isz16(flags, val), FLAG_ZF) == (val == 0),
        flag_on(isz16(flags, val), FLAG_SF) == (val & 0x8000 != 0),
        isz16(flags, val) & !0x00C0u16 == flags & !0x00C0u16,
{
    let z = val == 0;
    let n = val & 0x8000 != 0;
    assert(flag_on(set_flag(set_flag(flags, 0x0040, z), 0x0080, n), 0x0040) == z) by (bit_vector);
    assert(flag_on(set_flag(set_flag(flags, 0x0040, z), 0x0080, n), 0x0080) == n) by (bit_vector);
    assert(set_flag(set_flag(flags, 0x0040, z), 0x0080, n) & !0x00C0u16 == flags & !0x00C0u16)
        by (bit_vector);
}

/// A pop right after a push gives back the pushed word and restores every register,
/// provided the stack slot lies wholly inside memory.
pub proof fn law_pop_after_push(s: Machine, val: u16)
    requires
        linear(s.regs.ss, s.regs.sp.wrapping_sub(2)) + 1 < s.mem.len(),
    ensures
        s.push16(val).pop16().1 == val,
        s.push16(val).pop16().0.regs == s.regs,
{
    reveal(Machine::push16);
    reveal(Machine::pop16);
    let sp = s.regs.sp.wrapping_sub(2);
    law_word_read_after_write(s.mem, linear(s.regs.ss, sp), 0, val);
}

/// An instruction other than REP that returns is executed in one step: its effect is
/// `exec_base`.
pub proof fn law_single_instruction(op: Opcode, s: Machine)
    requires
        !(op is Rep),
        base_defined(op, s),
    ensures
        executes(op, s),
        execution(op, s) == exec_base(op, s),
{
    assert(run(op, s, 0) is Some);
    let f = choose|fuel: nat| run(op, s, fuel) is Some;
    assert(run(op, s, f) == Some(exec_base(op, s)));
}

/// REP with CX = 0 executes nothing and goes on.
pub proof fn law_rep_zero_count(inner: Opcode, s: Machine)
    requires
        s.regs.cx == 0,
    ensures
        executes(Opcode::Rep(Box::new(inner)), s),
        execution(Opcode::Rep(Box::new(inner)), s) == (s, true),
{
    let op = Opcode::Rep(Box::new(inner));
    assert(run(op, s, 0) is Some);
    let f = choose|fuel: nat| run(op, s, fuel) is Some;
    assert(run(op, s, f) == Some((s, true)));
}

/// CMC twice restores the flags; CLC clears and STC sets CF.
pub proof fn law_carry_instructions(s: Machine)
    ensures
        exec_base(Opcode::Cmc, exec_base(Opcode::Cmc, s).0).0 == s,
        !flag_on(exec_base(Opcode::Clc, s).0.regs.flags, FLAG_CF),
        flag_on(exec_base(Opcode::Stc, s).0.regs.flags, FLAG_CF),
{
    reveal(exec_base);
    let f = s.regs.flags;
    let c = flag_on(f, FLAG_CF);
    let f1 = set_flag(f, FLAG_CF, !c);
    assert(set_flag(set_flag(f, 0x0001, !flag_on(f, 0x0001)), 0x0001, !flag_on(set_flag(f, 0x0001, !flag_on(f, 0x0001)), 0x0001)) == f) by (bit_vector);
    assert(!flag_on(set_flag(f, 0x0001, false), 0x0001)) by (bit_vector);
    assert(flag_on(set_flag(f, 0x0001, true), 0x0001)) by (bit_vector);
    assert(exec_base(Opcode::Cmc, exec_base(Opcode::Cmc, s).0).0.regs =~= s.regs);
}

/// Exchanging AX with the same register twice restores the machine.
pub proof fn law_xchg_twice(s: Machine, reg: u8)
    requires
        reg < 8,
    ensures
        exec_base(Opcode::XchgAxReg(reg), exec_base(Opcode::XchgAxReg(reg), s).0).0 == s,
{
    reveal(exec_base);
    let s1 = exec_base(Opcode::XchgAxReg(reg), s).0;
    let s2 = exec_base(Opcode::XchgAxReg(reg), s1).0;
    assert(s2.regs =~= s.regs);
}

/// `t` has the disk image of `s` and memory of the same size.
pub open spec fn keeps_disk_and_memory_size(s: Machine, t: Machine) -> bool {
    t.disk == s.disk && t.mem.len() == s.mem.len()
}

proof fn lemma_access_frame()
    ensures
        forall|s: Machine, m: u8| keeps_disk_and_memory_size(s, #[trigger] s.offset(m).0),
        forall|s: Machine, m: u8| keeps_disk_and_memory_size(s, #[trigger] s.ea(m).0),
        forall|s: Machine, m: u8| keeps_disk_and_memory_size(s, #[trigger] s.get_rm8(m).0),
        forall|s: Machine, m: u8| keeps_disk_and_memory_size(s, #[trigger] s.get_rm16(m).0),
        forall|s: Machine, m: u8, v: u8| keeps_disk_and_memory_size(s, #[trigger] s.set_rm8(m, v)),
        forall|s: Machine, m: u8, v: u16| keeps_disk_and_memory_size(s, #[trigger] s.set_rm16(m, v)),
        forall|s: Machine, v: u16| keeps_disk_and_memory_size(s, #[trigger] s.push16(v)),
        forall|s: Machine| keeps_disk_and_memory_size(s, #[trigger] s.pop16().0),
{
    reveal(Machine::offset);
    reveal(Machine::ea);
    reveal(Machine::get_rm8);
    reveal(Machine::get_rm16);
    reveal(Machine::set_rm8);
    reveal(Machine::set_rm16);
    reveal(Machine::push16);
    reveal(Machine::pop16);
}

proof fn lemma_alu_frame()
    ensures
        forall|s: Machine, r: u16, w: bool, c: bool| keeps_disk_and_memory_size(s, #[trigger] s.alu_flags16(r, w, c)),
        forall|s: Machine, r: u8, w: bool, c: bool| keeps_disk_and_memory_size(s, #[trigger] s.alu_flags8(r, w, c)),
        forall|s: Machine, op: AluOp, m: u8, a: u8, b: u8, w: bool|
            keeps_disk_and_memory_size(s, #[trigger] s.commit_rm8(op, m, a, b, w)),
        forall|s: Machine, op: AluOp, m: u8, a: u16, b: u16, w: bool|
            keeps_disk_and_memory_size(s, #[trigger] s.commit_rm16(op, m, a, b, w)),
        forall|s: Machine, op: AluOp, m: u8, a: u8, b: u8, w: bool|
            keeps_disk_and_memory_size(s, #[trigger] s.commit_reg8(op, m, a, b, w)),
        forall|s: Machine, op: AluOp, m: u8, a: u16, b: u16, w: bool|
            keeps_disk_and_memory_size(s, #[trigger] s.commit_reg16(op, m, a, b, w)),
        forall|s: Machine, op: AluOp, m: u8, t: bool| keeps_disk_and_memory_size(s, #[trigger] s.alu_rm8(op, m, t)),
        forall|s: Machine, op: AluOp, m: u8, t: bool| keeps_disk_and_memory_size(s, #[trigger] s.alu_rm16(op, m, t)),
        forall|s: Machine, op: AluOp, i: u8| keeps_disk_and_memory_size(s, #[trigger] s.alu_acc8(op, i)),
        forall|s: Machine, op: AluOp, i: u16| keeps_disk_and_memory_size(s, #[trigger] s.alu_acc16(op, i)),
        forall|s: Machine, o: u8, m: u8| keeps_disk_and_memory_size(s, #[trigger] s.grp1(o, m)),
        forall|s: Machine, m: u8| keeps_disk_and_memory_size(s, #[trigger] s.test_rm8(m)),
        forall|s: Machine, m: u8| keeps_disk_and_memory_size(s, #[trigger] s.test_rm16(m)),
{
    lemma_access_frame();
    reveal(Machine::alu_flags8);
    reveal(Machine::alu_flags16);
    assert forall|s: Machine, op: AluOp, m: u8, a: u8, b: u8, w: bool|
        keeps_disk_and_memory_size(s, #[trigger] s.commit_rm8(op, m, a, b, w)) by {
        reveal(Machine::commit_rm8);
    }
    assert forall|s: Machine, op: AluOp, m: u8, a: u16, b: u16, w: bool|
        keeps_disk_and_memory_size(s, #[trigger] s.commit_rm16(op, m, a, b, w)) by {
        reveal(Machine::commit_rm16);
    }
    assert forall|s: Machine, op: AluOp, m: u8, a: u8, b: u8, w: bool|
        keeps_disk_and_memory_size(s, #[trigger] s.commit_reg8(op, m, a, b, w)) by {
        reveal(Machine::commit_reg8);
    }
    assert forall|s: Machine, op: AluOp, m: u8, a: u16, b: u16, w: bool|
        keeps_disk_and_memory_size(s, #[trigger] s.commit_reg16(op, m, a, b, w)) by {
        reveal(Machine::commit_reg16);
    }
    reveal(Machine::alu_rm8);
    reveal(Machine::alu_rm16);
    reveal(Machine::alu_acc8);
    reveal(Machine::alu_acc16);
    reveal(Machine::grp1);
    reveal(Machine::test_rm8);
    reveal(Machine::test_rm16);
}

proof fn lemma_enter_copy_frame(s: Machine, bp: u16, n: nat)
    ensures
        keeps_disk_and_memory_size(s, s.enter_copy(bp, n).0),
    decreases n,
{
    reveal(Machine::enter_copy);
    lemma_access_frame();
    if n > 0 {
        lemma_enter_copy_frame(s, bp, (n - 1) as nat);
    }
}

proof fn lemma_ops_frame(s: Machine, o: u8, m: u8, c: u8, size: u16, level: u8)
    ensures
        keeps_disk_and_memory_size(s, s.grp2(o, m, c)),
        keeps_disk_and_memory_size(s, s.grp3(o, m)),
        keeps_disk_and_memory_size(s, s.movsb()),
        keeps_disk_and_memory_size(s, s.movsw()),
        keeps_disk_and_memory_size(s, s.compare_bytes()),
        keeps_disk_and_memory_size(s, s.compare_words()),
        keeps_disk_and_memory_size(s, s.stosb()),
        keeps_disk_and_memory_size(s, s.stosw()),
        keeps_disk_and_memory_size(s, s.lodsb()),
        keeps_disk_and_memory_size(s, s.enter(size, level)),
        keeps_disk_and_memory_size(s, s.load_far(m).0),
{
    lemma_access_frame();
    reveal(Machine::grp2);
    reveal(Machine::grp3);
    reveal(Machine::movsb);
    reveal(Machine::movsw);
    reveal(Machine::compare_bytes);
    reveal(Machine::compare_words);
    reveal(Machine::stosb);
    reveal(Machine::stosw);
    reveal(Machine::lodsb);
    reveal(Machine::enter);
    reveal(Machine::load_far);
    let s1 = s.push16(s.regs.bp);
    if level > 0 {
        lemma_enter_copy_frame(s1, s1.regs.bp, (level - 1) as nat);
    }
}

proof fn lemma_interrupt_frame(s: Machine, n: u8)
    ensures
        keeps_disk_and_memory_size(s, interrupt(s, n).0),
{
    reveal(interrupt);
    reveal(disk_read);
}

/// No instruction other than REP writes the disk image or changes the size of memory.
proof fn lemma_exec_base_frame(op: Opcode, s: Machine)
    ensures
        keeps_disk_and_memory_size(s, exec_base(op, s).0),
{
    reveal(exec_base);
    lemma_access_frame();
    lemma_alu_frame();
    lemma_interrupt_frame(s, 0);
    match op {
        Opcode::Int(n) => lemma_interrupt_frame(s, n),
        Opcode::Grp2(o, m) => lemma_ops_frame(s, o, m, grp2_count(s, o), 0, 0),
        Opcode::Grp2Imm8(o, m, c) => lemma_ops_frame(s, o, m, c, 0, 0),
        Opcode::Grp3(o, m) => lemma_ops_frame(s, o, m, 0, 0, 0),
        Opcode::Enter(size, level) => lemma_ops_frame(s, 0, 0, 0, size, level),
        Opcode::Les(m) | Opcode::Lds(m) => lemma_ops_frame(s, 0, m, 0, 0, 0),
        _ => lemma_ops_frame(s, 0, 0, 0, 0, 0),
    }
}

/// Execution never writes the disk image and never changes the size of memory.
pub proof fn law_execution_keeps_disk(op: Opcode, s: Machine, fuel: nat)
    requires
        run(op, s, fuel) is Some,
    ensures
        keeps_disk_and_memory_size(s, (run(op, s, fuel)->0).0),
    decreases fuel,
{
    match op {
        Opcode::Rep(inner) => {
            if s.regs.cx != 0 {
                law_execution_keeps_disk(*inner, s, (fuel - 1) as nat);
                let s1 = (run(*inner, s, (fuel - 1) as nat)->0).0;
                if (run(*inner, s, (fuel - 1) as nat)->0).1 {
                    let s2 = s1.dec_cx();
                    if !(is_string_compare(*inner) && !flag_on(s2.regs.flags, FLAG_ZF)) {
                        law_execution_keeps_disk(op, s2, (fuel - 1) as nat);
                    }
                }
            }
        },
        _ => lemma_exec_base_frame(op, s),
    }
}

/// Decoding only fetches: memory, disk image, console output and every register
/// but IP are kept.
pub proof fn law_decoding_only_fetches(s: Machine, fuel: nat)
    requires
        decode_run(s, fuel) is Some,
    ensures
        (decode_run(s, fuel)->0).0.mem == s.mem,
        (decode_run(s, fuel)->0).0.disk == s.disk,
        (decode_run(s, fuel)->0).0.console == s.console,
        (decode_run(s, fuel)->0).0.regs == s.regs.with_ip((decode_run(s, fuel)->0).0.regs.ip),
    decreases fuel,
{
    reveal(decode_base);
    let (s1, b) = s.fetch8();
    if is_segment_prefix(b) {
        law_decoding_only_fetches(
            Machine { seg_override: Some(prefix_segment(s1, b)), ..s1 },
            (fuel - 1) as nat,
        );
    } else if b == 0xF3 {
        law_decoding_only_fetches(s1, (fuel - 1) as nat);
    }
}

/// A full instruction cycle never writes the disk image nor resizes memory.
pub proof fn law_step_keeps_disk(s: Machine)
    requires
        step_defined(s),
    ensures
        keeps_disk_and_memory_size(s, step_result(s).0),
        step_result(s).0.seg_override is None,
{
    let df = choose|fuel: nat| decode_run(s, fuel) is Some;
    law_decoding_only_fetches(s, df);
    let (s1, op) = decoding(s);
    let ef = choose|fuel: nat| run(op, s1, fuel) is Some;
    law_execution_keeps_disk(op, s1, ef);
}

/// NOT of a word register (`F7 /2`, register operand) applied twice restores the machine.
pub proof fn law_not_twice(s: Machine, reg: u8)
    requires
        reg < 8,
    ensures
        s.grp3(0xF7, (0xD0 + reg) as u8).grp3(0xF7, (0xD0 + reg) as u8) == s,
{
    let m = (0xD0 + reg) as u8;
    assert(modrm_is_reg(m) && modrm_rm(m) == reg && modrm_reg(m) == 2);
    assert forall|t: Machine| #[trigger] t.grp3(0xF7, m) == t.set_rm16(m, !t.regs.reg16(reg)) by {
        reveal(Machine::grp3);
        reveal(Machine::get_rm16);
    }
    assert forall|t: Machine, x: u16| #[trigger] t.set_rm16(m, x) == t.with_regs(t.regs.with_reg16(reg, x)) by {
        reveal(Machine::set_rm16);
    }
    let v = s.regs.reg16(reg);
    assert(!(!v) == v) by (bit_vector);
    let s1 = s.grp3(0xF7, m);
    law_reg16_read_after_write(s.regs, reg, 0, !v);
    let s2 = s1.grp3(0xF7, m);
    assert(s2.regs =~= s.regs);
}

/// The byte `v` rotated left by one bit, `n` times.
pub open spec fn rotl8(v: u8, n: nat) -> u8
    decreases n,
{
    if n == 0 {
        v
    } else {
        shift_once8(0, rotl8(v, (n - 1) as nat), 0).0
    }
}

/// The byte `v` rotated right by one bit, `n` times.
pub open spec fn rotr8(v: u8, n: nat) -> u8
    decreases n,
{
    if n == 0 {
        v
    } else {
        shift_once8(1, rotr8(v, (n - 1) as nat), 0).0
    }
}

/// The word `v` rotated left by one bit, `n` times.
pub open spec fn rotl16(v: u16, n: nat) -> u16
    decreases n,
{
    if n == 0 {
        v
    } else {
        shift_once16(0, rotl16(v, (n - 1) as nat), 0).0
    }
}

/// The word `v` rotated right by one bit, `n` times.
pub open spec fn rotr16(v: u16, n: nat) -> u16
    decreases n,
{
    if n == 0 {
        v
    } else {
        shift_once16(1, rotr16(v, (n - 1) as nat), 0).0
    }
}

proof fn lemma_rotate_values(v: u8, w: u16, f: u16, n: nat)
    ensures
        shift8(0, v, f, n).0 == rotl8(v, n),
        shift8(1, v, f, n).0 == rotr8(v, n),
        shift16(0, w, f, n).0 == rotl16(w, n),
        shift16(1, w, f, n).0 == rotr16(w, n),
    decreases n,
{
    if n > 0 {
        lemma_rotate_values(v, w, f, (n - 1) as nat);
    }
}

proof fn lemma_rotr_shift(y: u8, z: u16, k: nat)
    ensures
        rotr8(shift_once8(1, y, 0).0, k) == rotr8(y, k + 1),
        rotr16(shift_once16(1, z, 0).0, k) == rotr16(z, k + 1),
    decreases k,
{
    reveal_with_fuel(rotr8, 2);
    reveal_with_fuel(rotr16, 2);
    if k > 0 {
        lemma_rotr_shift(y, z, (k - 1) as nat);
    }
}

proof fn lemma_rotate_inverse(v: u8, w: u16, n: nat)
    ensures
        rotr8(rotl8(v, n), n) == v,
        rotr16(rotl16(w, n), n) == w,
    decreases n,
{
    if n > 0 {
        let m = (n - 1) as nat;
        lemma_rotate_inverse(v, w, m);
        let a = rotl8(v, m);
        let b = rotl16(w, m);
        assert(shift_once8(1, shift_once8(0, a, 0).0, 0).0 == a) by (bit_vector);
        assert(shift_once16(1, shift_once16(0, b, 0).0, 0).0 == b) by (bit_vector);
        lemma_rotr_shift(shift_once8(0, a, 0).0, shift_once16(0, b, 0).0, m);
    }
}

/// Rotating a register right (`/1`) by a count undoes rotating it left (`/0`) by the
/// same count, for byte (even opcode) and word (odd opcode) operands: the register
/// file comes back apart from the flags.
pub proof fn law_rotate_right_undoes_left(s: Machine, opcode: u8, reg: u8, n: u8)
    requires
        reg < 8,
    ensures
        s.grp2(opcode, (0xC0 + reg) as u8, n).grp2(opcode, (0xC8 + reg) as u8, n).regs.with_flags(
            s.regs.flags,
        ) == s.regs,
{
    let ml = (0xC0 + reg) as u8;
    let mr = (0xC8 + reg) as u8;
    assert(modrm_is_reg(ml) && modrm_rm(ml) == reg && modrm_reg(ml) == 0);
    assert(modrm_is_reg(mr) && modrm_rm(mr) == reg && modrm_reg(mr) == 1);
    if n == 0 {
        reveal(Machine::grp2);
        assert(s.regs.with_flags(s.regs.flags) =~= s.regs);
    } else if opcode % 2 == 0 {
        assert forall|t: Machine, m: u8|
            modrm_is_reg(m) && modrm_rm(m) == reg && modrm_reg(m) < 4 implies #[trigger] t.grp2(
            opcode,
            m,
            n,
        ).regs == t.regs.with_flags(shift8(modrm_reg(m), t.regs.reg8(reg), t.regs.flags, n as nat).1).with_reg8(
            reg,
            shift8(modrm_reg(m), t.regs.reg8(reg), t.regs.flags, n as nat).0,
        ) by {
            reveal(Machine::grp2);
            reveal(Machine::get_rm8);
            reveal(Machine::set_rm8);
        }
        let v = s.regs.reg8(reg);
        let (v1, f1) = shift8(0, v, s.regs.flags, n as nat);
        lemma_rotate_values(v, 0, s.regs.flags, n as nat);
        let r1 = s.regs.with_flags(f1).with_reg8(reg, v1);
        law_reg8_read_after_write(s.regs.with_flags(f1), reg, v1);
        let (v2, f2) = shift8(1, v1, f1, n as nat);
        lemma_rotate_values(v1, 0, f1, n as nat);
        lemma_rotate_inverse(v, 0, n as nat);
        assert(v2 == v);
        let r2 = r1.with_flags(f2).with_reg8(reg, v2);
        law_reg8_read_after_write(r1.with_flags(f2), reg, v2);
        assert(r2.with_flags(s.regs.flags) =~= s.regs);
    } else {
        assert forall|t: Machine, m: u8|
            modrm_is_reg(m) && modrm_rm(m) == reg && modrm_reg(m) < 4 implies #[trigger] t.grp2(
            opcode,
            m,
            n,
        ).regs == t.regs.with_flags(shift16(modrm_reg(m), t.regs.reg16(reg), t.regs.flags, n as nat).1).with_reg16(
            reg,
            shift16(modrm_reg(m), t.regs.reg16(reg), t.regs.flags, n as nat).0,
        ) by {
            reveal(Machine::grp2);
            reveal(Machine::get_rm16);
            reveal(Machine::set_rm16);
        }
        let w = s.regs.reg16(reg);
        let (w1, f1) = shift16(0, w, s.regs.flags, n as nat);
        lemma_rotate_values(0, w, s.regs.flags, n as nat);
        let r1 = s.regs.with_flags(f1).with_reg16(reg, w1);
        let (w2, f2) = shift16(1, w1, f1, n as nat);
        lemma_rotate_values(0, w1, f1, n as nat);
        lemma_rotate_inverse(0, w, n as nat);
        assert(w2 == w);
        let r2 = r1.with_flags(f2).with_reg16(reg, w2);
        assert(r2.with_flags(s.regs.flags) =~= s.regs);
    }
}

/// A software interrupt that the built-in BIOS and DOS do not serve stops execution
/// and changes nothing; so does an unserved DOS function.
pub proof fn law_unserved_interrupt(s: Machine, n: u8)
    requires
        n != 0x10 && n != 0x11 && n != 0x13 && n != 0x16 && n != 0x19 && n != 0x20,
        n == 0x21 ==> (s.regs.ax / 256 != 0x09 && s.regs.ax / 256 != 0x4C),
    ensures
        interrupt(s, n) == (s, false),
{
    reveal(interrupt);
}

proof fn lemma_run_monotone(op: Opcode, s: Machine, f1: nat, f2: nat)
    requires
        run(op, s, f1) is Some,
        f1 <= f2,
    ensures
        run(op, s, f2) == run(op, s, f1),
    decreases f1,
{
    match op {
        Opcode::Rep(inner) => {
            if s.regs.cx != 0 {
                lemma_run_monotone(*inner, s, (f1 - 1) as nat, (f2 - 1) as nat);
                let (s1, cont) = run(*inner, s, (f1 - 1) as nat)->0;
                if cont {
                    let s2 = s1.dec_cx();
                    if !(is_string_compare(*inner) && !flag_on(s2.regs.flags, FLAG_ZF)) {
                        lemma_run_monotone(op, s2, (f1 - 1) as nat, (f2 - 1) as nat);
                    }
                }
            }
        },
        _ => {},
    }
}

/// Executing with more REP fuel than needed changes nothing: any two fuels with which
/// execution finishes give the same result.
pub proof fn law_run_fuel_independent(op: Opcode, s: Machine, f1: nat, f2: nat)
    requires
        run(op, s, f1) is Some,
        run(op, s, f2) is Some,
    ensures
        run(op, s, f1) == run(op, s, f2),
{
    if f1 <= f2 {
        lemma_run_monotone(op, s, f1, f2);
    } else {
        lemma_run_monotone(op, s, f2, f1);
    }
}

/// Whenever execution finishes with some fuel, its result is `execution`.
pub proof fn law_execution_by_fuel(op: Opcode, s: Machine, fuel: nat)
    requires
        run(op, s, fuel) is Some,
    ensures
        executes(op, s),
        execution(op, s) == (run(op, s, fuel)->0),
{
    let f = choose|f: nat| run(op, s, f) is Some;
    law_run_fuel_independent(op, s, f, fuel);
}

proof fn lemma_decode_monotone(s: Machine, f1: nat, f2: nat)
    requires
        decode_run(s, f1) is Some,
        f1 <= f2,
    ensures
        decode_run(s, f2) == decode_run(s, f1),
    decreases f1,
{
    let (s1, b) = s.fetch8();
    if is_segment_prefix(b) {
        lemma_decode_monotone(
            Machine { seg_override: Some(prefix_segment(s1, b)), ..s1 },
            (f1 - 1) as nat,
            (f2 - 1) as nat,
        );
    } else if b == 0xF3 {
        lemma_decode_monotone(s1, (f1 - 1) as nat, (f2 - 1) as nat);
    }
}

/// Decoding with more prefix fuel than needed changes nothing.
pub proof fn law_decode_fuel_independent(s: Machine, f1: nat, f2: nat)
    requires
        decode_run(s, f1) is Some,
        decode_run(s, f2) is Some,
    ensures
        decode_run(s, f1) == decode_run(s, f2),
{
    if f1 <= f2 {
        lemma_decode_monotone(s, f1, f2);
    } else {
        lemma_decode_monotone(s, f2, f1);
    }
}

/// Whenever decoding finishes with some fuel, its result is `decoding`.
pub proof fn law_decoding_by_fuel(s: Machine, fuel: nat)
    requires
        decode_run(s, fuel) is Some,
    ensures
        decodes(s),
        decoding(s) == (decode_run(s, fuel)->0),
{
    let f = choose|f: nat| decode_run(s, f) is Some;
    law_decode_fuel_independent(s, f, fuel);
}

/// The number of displacement bytes that follow a ModR/M byte.
pub open spec fn displacement_len(m: u8) -> nat {
    if modrm_mode(m) == 0 && modrm_rm(m) == 6 {
        2
    } else if modrm_mode(m) == 1 {
        1
    } else if modrm_mode(m) == 2 {
        2
    } else {
        0
    }
}

/// The physical address of the instruction byte `k` places after `cs:ip`.
pub open spec fn code_addr(s: Machine, k: u16) -> int {
    linear(s.regs.cs, s.regs.ip.wrapping_add(k))
}

/// The operand address of a ModR/M byte depends only on the registers, the segment
/// override and its displacement bytes; fetching them changes only IP.
proof fn lemma_ea_reads_displacement(s: Machine, t: Machine, m: u8)
    requires
        t.regs == s.regs,
        t.seg_override == s.seg_override,
        forall|k: u16| k < displacement_len(m) ==> byte_at(t.mem, #[trigger] code_addr(s, k)) == byte_at(
            s.mem,
            code_addr(s, k),
        ),
    ensures
        t.ea(m).1 == s.ea(m).1,
        t.ea(m).0.regs == s.ea(m).0.regs,
        t.ea(m).0.mem == t.mem,
        t.ea(m).0.seg_override == t.seg_override,
        s.ea(m).0.regs == s.regs.with_ip(s.ea(m).0.regs.ip),
{
    reveal(Machine::ea);
    reveal(Machine::offset);
    assert(s.regs.ip.wrapping_add(0) == s.regs.ip);
    let b0 = code_addr(s, 0);
    let b1 = code_addr(s, 1);
    if displacement_len(m) >= 1 {
        assert(byte_at(t.mem, b0) == byte_at(s.mem, b0));
    }
    if displacement_len(m) >= 2 {
        assert(byte_at(t.mem, b1) == byte_at(s.mem, b1));
    }
}

/// A word written to an r/m operand reads back through the same ModR/M byte once IP is
/// put back, provided a memory operand lies wholly inside memory and apart from the
/// displacement bytes that name it.
pub proof fn law_rm16_read_after_write(s: Machine, m: u8, v: u16)
    requires
        modrm_is_reg(m) || ({
            let addr = s.ea(m).1;
            &&& addr + 1 < s.mem.len()
            &&& forall|k: u16|
                k < displacement_len(m) ==> #[trigger] code_addr(s, k) != addr && code_addr(s, k)
                    != addr + 1
        }),
    ensures
        s.set_rm16(m, v).with_ip(s.regs.ip).get_rm16(m).1 == v,
{
    reveal(Machine::set_rm16);
    reveal(Machine::get_rm16);
    if !modrm_is_reg(m) {
        let (s1, addr) = s.ea(m);
        assert(s.ea(m).0.regs == s.regs.with_ip(s.ea(m).0.regs.ip) && s1.mem == s.mem
            && s1.seg_override == s.seg_override) by {
            lemma_ea_reads_displacement(s, s, m);
        }
        assert(0 <= addr) by {
            reveal(Machine::ea);
        }
        let t = s1.with_mem(store_word(s1.mem, addr, v)).with_ip(s.regs.ip);
        assert(t.regs =~= s.regs);
        assert forall|k: u16| k < displacement_len(m) implies byte_at(t.mem, #[trigger] code_addr(s, k))
            == byte_at(s.mem, code_addr(s, k)) by {
            assert(code_addr(s, k) != addr && code_addr(s, k) != addr + 1);
        }
        lemma_ea_reads_displacement(s, t, m);
        law_word_read_after_write(s.mem, addr, 0, v);
    }
}

/// The byte form of `law_rm16_read_after_write`.
pub proof fn law_rm8_read_after_write(s: Machine, m: u8, v: u8)
    requires
        modrm_is_reg(m) || ({
            let addr = s.ea(m).1;
            &&& addr < s.mem.len()
            &&& forall|k: u16| k < displacement_len(m) ==> #[trigger] code_addr(s, k) != addr
        }),
    ensures
        s.set_rm8(m, v).with_ip(s.regs.ip).get_rm8(m).1 == v,
{
    reveal(Machine::set_rm8);
    reveal(Machine::get_rm8);
    if modrm_is_reg(m) {
        law_reg8_read_after_write(s.regs, modrm_rm(m), v);
    } else {
        let (s1, addr) = s.ea(m);
        assert(s.ea(m).0.regs == s.regs.with_ip(s.ea(m).0.regs.ip) && s1.mem == s.mem
            && s1.seg_override == s.seg_override) by {
            lemma_ea_reads_displacement(s, s, m);
        }
        assert(0 <= addr) by {
            reveal(Machine::ea);
        }
        let t = s1.with_mem(store_byte(s1.mem, addr, v)).with_ip(s.regs.ip);
        assert(t.regs =~= s.regs);
        assert forall|k: u16| k < displacement_len(m) implies byte_at(t.mem, #[trigger] code_addr(s, k))
            == byte_at(s.mem, code_addr(s, k)) by {
            assert(code_addr(s, k) != addr);
        }
        lemma_ea_reads_displacement(s, t, m);
    }
}

/// A cycle that finishes within a budget is a full instruction cycle, with the same
/// result as `step_result`.
pub proof fn law_step_run_agrees(s: Machine, prefixes: nat, repeats: nat)
    requires
        step_run(s, prefixes, repeats) is Some,
    ensures
        step_defined(s),
        step_run(s, prefixes, repeats) == Some(step_result(s)),
{
    law_decoding_by_fuel(s, prefixes);
    let (s1, op) = decoding(s);
    law_execution_by_fuel(op, s1, repeats);
}

/// Whether `b` is a prefix byte (segment override or REP).
pub open spec fn is_prefix(b: u8) -> bool {
    is_segment_prefix(b) || b == 0xF3
}

proof fn lemma_refused_decoding_reads_prefixes(s: Machine, n: nat)
    requires
        decode_run(s, n) is None,
    ensures
        forall|k: int|
            0 <= k <= n && k < 65536 ==> is_prefix(
                #[trigger] byte_at(s.mem, linear(s.regs.cs, ((s.regs.ip + k) % 65536) as u16)),
            ),
    decreases n,
{
    let (s1, b) = s.fetch8();
    assert(is_prefix(b));
    assert((s.regs.ip + 0) % 65536 == s.regs.ip);
    if n > 0 {
        let t = if is_segment_prefix(b) {
            Machine { seg_override: Some(prefix_segment(s1, b)), ..s1 }
        } else {
            s1
        };
        assert(decode_run(t, (n - 1) as nat) is None);
        lemma_refused_decoding_reads_prefixes(t, (n - 1) as nat);
        assert forall|k: int| 0 <= k <= n && k < 65536 implies is_prefix(
            #[trigger] byte_at(s.mem, linear(s.regs.cs, ((s.regs.ip + k) % 65536) as u16)),
        ) by {
            if k > 0 {
                let j = k - 1;
                assert(((t.regs.ip + j) % 65536) == ((s.regs.ip + k) % 65536));
                assert(is_prefix(byte_at(t.mem, linear(t.regs.cs, ((t.regs.ip + j) % 65536) as u16))));
            }
        }
    }
}

proof fn lemma_prefix_segment_never_decodes(s: Machine, f: nat)
    requires
        forall|off: u16| is_prefix(#[trigger] byte_at(s.mem, linear(s.regs.cs, off))),
    ensures
        decode_run(s, f) is None,
    decreases f,
{
    let (s1, b) = s.fetch8();
    assert(is_prefix(byte_at(s.mem, linear(s.regs.cs, s.regs.ip))));
    if f > 0 {
        let t = if is_segment_prefix(b) {
            Machine { seg_override: Some(prefix_segment(s1, b)), ..s1 }
        } else {
            s1
        };
        assert forall|off: u16| is_prefix(#[trigger] byte_at(t.mem, linear(t.regs.cs, off))) by {
            assert(is_prefix(byte_at(s.mem, linear(s.regs.cs, off))));
        }
        lemma_prefix_segment_never_decodes(t, (f - 1) as nat);
    }
}

/// Decoding that needs more than 65535 prefix bytes never ends: the code segment then
/// holds nothing but prefixes.
pub proof fn law_prefix_bound_is_exact(s: Machine, n: nat)
    requires
        n >= 65535,
        decode_run(s, n) is None,
    ensures
        !decodes(s),
{
    lemma_refused_decoding_reads_prefixes(s, n);
    assert forall|off: u16| is_prefix(#[trigger] byte_at(s.mem, linear(s.regs.cs, off))) by {
        let k: int = (off - s.regs.ip) % 65536;
        assert(((s.regs.ip + k) % 65536) as u16 == off);
        assert(is_prefix(byte_at(s.mem, linear(s.regs.cs, ((s.regs.ip + k) % 65536) as u16))));
    }
    assert forall|f: nat| !(decode_run(s, f) is Some) by {
        lemma_prefix_segment_never_decodes(s, f);
    }
}

/// A refused cycle of an instruction other than REP, with a prefix bound of at least
/// 65535, is one that never completes.
pub proof fn law_refused_step_never_completes(s: Machine, prefixes: nat, repeats: nat)
    requires
        prefixes >= 65535,
        step_run(s, prefixes, repeats) is None,
        !decodes_to_rep(s, prefixes),
    ensures
        !step_defined(s),
{
    if decode_run(s, prefixes) is None {
        law_prefix_bound_is_exact(s, prefixes);
    } else {
        law_decoding_by_fuel(s, prefixes);
        let (s1, op) = decoding(s);
        assert(!(op is Rep));
        assert forall|f: nat| !(run(op, s1, f) is Some) by {}
    }
}

} // verus!
