use vstd::prelude::*;
use crate::memory::{Memory, MEMORY_SIZE};
use crate::machine::{Machine, ConsoleOutput};
use crate::regs::{Registers, zero_registers};
use crate::decode::{decode, decode_budget, decode_run, decodes, decoding};
use crate::semantics::{executes, execution, run};

verus! {

/// The emulated 8086: registers, memory, the floppy image it boots from,
/// the active segment-override prefix, and the console output not yet shown.
pub struct Cpu {
    pub regs: Registers,
    pub memory: Memory,
    pub disk_image: Vec<u8>,
    pub seg_override: Option<u16>,
    pub console: Vec<ConsoleOutput>,
}

impl View for Cpu {
    type V = Machine;

    open spec fn view(&self) -> Machine {
        Machine {
            regs: self.regs,
            mem: self.memory@,
            disk: self.disk_image@,
            seg_override: self.seg_override,
            console: self.console@,
        }
    }
}

/// Memory after copying `rom` to `addr`, dropping the bytes that fall outside memory.
pub open spec fn load_bytes(mem: Seq<u8>, rom: Seq<u8>, addr: int) -> Seq<u8> {
    Seq::new(
        mem.len(),
        |i: int|
            if addr <= i < addr + rom.len() {
                rom[i - addr]
            } else {
                mem[i]
            },
    )
}

/// The floppy disk parameter table placed at `0000:0EF0` (720 KiB geometry).
pub open spec fn disk_parameter_table() -> Seq<u8> {
    seq![0xAFu8, 0x02, 0x25, 0x02, 0x09, 0x1B, 0xFF, 0x54, 0xF6, 0x01, 0x08]
}

/// The part of a floppy image that is loaded at boot: its first 512 bytes.
pub open spec fn boot_sector(rom: Seq<u8>) -> Seq<u8> {
    if rom.len() >= 512 {
        rom.subrange(0, 512)
    } else {
        rom
    }
}

/// Memory at power-on: the boot sector at `0000:7C00`, the INT 1Eh vector at
/// `0000:0078` pointing to `0000:0EF0`, the disk parameter table there, zero elsewhere.
pub open spec fn boot_memory(rom: Seq<u8>) -> Seq<u8> {
    let boot = boot_sector(rom);
    Seq::new(
        MEMORY_SIZE as nat,
        |i: int|
            if i == 0x78 {
                0xF0u8
            } else if i == 0x79 {
                0x0Eu8
            } else if 0xEF0 <= i < 0xEFB {
                disk_parameter_table()[i - 0xEF0]
            } else if 0x7C00 <= i < 0x7C00 + boot.len() {
                boot[i - 0x7C00]
            } else {
                0u8
            },
    )
}

/// The machine right after booting from floppy image `rom`: execution starts at
/// `0000:7C00` with the stack below it and DL naming drive A:.
pub open spec fn boot_state(rom: Seq<u8>) -> Machine {
    Machine {
        regs: Registers { cs: 0, ip: 0x7C00, sp: 0x7C00, dx: 0, ..zero_registers() },
        mem: boot_memory(rom),
        disk: rom,
        seg_override: None,
        console: Seq::empty(),
    }
}

/// `(w & 0xFF00) | v` and `(w & 0x00FF) | (v << 8)` replace one byte of a word.
pub proof fn lemma_byte_merge(w: u16, v: u16)
    requires
        v < 256,
    ensures
        (w & 0xFF00) | v == w - w % 256 + v,
        (w & 0x00FF) | (v << 8) == w % 256 + 256 * v,
        w & 0xFF == w % 256,
        w >> 8 == w / 256,
{
    assert((w & 0xFF00) | v == w - w % 256 + v) by (bit_vector)
        requires
            v < 256,
    ;
    assert((w & 0x00FF) | (v << 8) == w % 256 + 256 * v) by (bit_vector)
        requires
            v < 256,
    ;
    assert(w & 0xFF == w % 256) by (bit_vector);
    assert(w >> 8 == w / 256) by (bit_vector);
}

impl Cpu {
    /// Boots from the floppy image `rom`.
    pub fn new(rom: &[u8]) -> (cpu: Self)
        ensures
            cpu@ == boot_state(rom@),
    {
        let mut cpu = Cpu {
            regs: Registers::default(),
            memory: Memory::new(),
            disk_image: vstd::slice::slice_to_vec(rom),
            seg_override: None,
            console: Vec::new(),
        };
        let boot: &[u8] = if rom.len() >= 512 {
            vstd::slice::slice_subrange(rom, 0, 512)
        } else {
            rom
        };
        assert(boot@ == boot_sector(rom@));
        cpu.load_rom(boot, 0x7C00);
        let ghost loaded = cpu.memory@;
        assert(loaded.len() == MEMORY_SIZE);
        cpu.regs.cs = 0x0000;
        cpu.regs.ip = 0x7C00;
        cpu.regs.sp = 0x7C00;
        cpu.regs.dx = 0x0000;
        cpu.memory.write_u16(0x0078, 0x0EF0);
        cpu.memory.write_u16(0x007A, 0x0000);
        let dpt: [u8; 11] = [0xAF, 0x02, 0x25, 0x02, 0x09, 0x1B, 0xFF, 0x54, 0xF6, 0x01, 0x08];
        assert(dpt@ =~= disk_parameter_table());
        let ghost before = cpu.memory@;
        let ghost pre = cpu@;
        let mut i: usize = 0;
        while i < 11
            invariant
                cpu@ == (Machine { mem: cpu.memory@, ..pre }),
                0 <= i <= 11,
                dpt@ == disk_parameter_table(),
                cpu.memory@.len() == MEMORY_SIZE,
                forall|a: int|
                    0 <= a < MEMORY_SIZE && !(0xEF0 <= a < 0xEF0 + i) ==> cpu.memory@[a]
                        == before[a],
                forall|a: int| 0xEF0 <= a < 0xEF0 + i ==> cpu.memory@[a] == dpt@[a - 0xEF0],
            decreases 11 - i,
        {
            cpu.memory.write_u8(0x0EF0 + i, dpt[i]);
            i += 1;
        }
        proof {
            lemma_byte_merge(0x0EF0, 0);
            assert forall|a: int| 0 <= a < MEMORY_SIZE implies cpu.memory@[a] == boot_memory(
                rom@,
            )[a] by {
                if 0xEF0 <= a < 0xEFB {
                } else if 0x78 <= a < 0x7C {
                    assert(before[a] == boot_memory(rom@)[a]);
                } else {
                    assert(before[a] == loaded[a]);
                }
            }
            assert(cpu.memory@ =~= boot_memory(rom@));
        }
        cpu
    }

    /// Copies `rom` into memory at `addr`; bytes beyond the end of memory are dropped.
    pub fn load_rom(&mut self, rom: &[u8], addr: usize)
        requires
            addr + rom@.len() <= usize::MAX + 1,
        ensures
            final(self)@ == (Machine {
                mem: load_bytes(old(self)@.mem, rom@, addr as int),
                ..old(self)@
            }),
    {
        let ghost before = self.memory@;
        let mut i: usize = 0;
        while i < rom.len()
            invariant
                0 <= i <= rom@.len(),
                addr + rom@.len() <= usize::MAX + 1,
                self.memory@.len() == before.len(),
                self.regs == old(self).regs,
                self.disk_image@ == old(self).disk_image@,
                self.seg_override == old(self).seg_override,
                self.console@ == old(self).console@,
                before == old(self).memory@,
                forall|a: int|
                    0 <= a < before.len() ==> self.memory@[a] == (if addr <= a < addr + i {
                        rom@[a - addr]
                    } else {
                        before[a]
                    }),
            decreases rom@.len() - i,
        {
            if addr + i < self.memory.data.len() {
                self.memory.data.set(addr + i, rom[i]);
            }
            i += 1;
        }
        assert(self.memory@ =~= load_bytes(before, rom@, addr as int));
    }
}


impl Cpu {
    /// Sets ZF iff `val == 0` and SF iff bit 7 of `val`; all other flags are kept.
    pub fn update_flags_isz(&mut self, val: u8)
        ensures
            final(self)@ == old(self)@.flags_isz8(val),
    {
        if val == 0 {
            self.regs.flags |= 0x0040;
        } else {
            self.regs.flags &= !0x0040;
        }
        if (val & 0x80) != 0 {
            self.regs.flags |= 0x0080;
        } else {
            self.regs.flags &= !0x0080;
        }
    }

    /// Fetches the instruction byte at `cs:ip` and advances `ip`.
    pub fn fetch_u8(&mut self) -> (val: u8)
        ensures
            final(self)@ == old(self)@.fetch8().0,
            val == old(self)@.fetch8().1,
    {
        let pc = (self.regs.cs as usize * 16) + self.regs.ip as usize;
        let val = self.memory.read_u8(pc);
        self.regs.ip = self.regs.ip.wrapping_add(1);
        val
    }

    /// Fetches the little-endian instruction word at `cs:ip` and advances `ip` by two.
    pub fn fetch_u16(&mut self) -> (val: u16)
        ensures
            final(self)@ == old(self)@.fetch16().0,
            val == old(self)@.fetch16().1,
    {
        let low = self.fetch_u8() as u16;
        let high = self.fetch_u8() as u16;
        proof {
            crate::memory::lemma_combine_bytes(low, high);
        }
        (high << 8) | low
    }

    pub fn get_reg16(&self, reg: u8) -> (val: u16)
        ensures
            val == self.regs.reg16(reg),
    {
        match reg {
            0 => self.regs.ax,
            1 => self.regs.cx,
            2 => self.regs.dx,
            3 => self.regs.bx,
            4 => self.regs.sp,
            5 => self.regs.bp,
            6 => self.regs.si,
            7 => self.regs.di,
            _ => 0,
        }
    }

    pub fn set_reg16(&mut self, reg: u8, val: u16)
        ensures
            final(self)@ == old(self)@.set_reg16(reg, val),
    {
        match reg {
            0 => self.regs.ax = val,
            1 => self.regs.cx = val,
            2 => self.regs.dx = val,
            3 => self.regs.bx = val,
            4 => self.regs.sp = val,
            5 => self.regs.bp = val,
            6 => self.regs.si = val,
            7 => self.regs.di = val,
            _ => {},
        }
    }

    pub fn get_reg8(&self, reg: u8) -> (val: u8)
        ensures
            val == self.regs.reg8(reg),
    {
        let r = self.regs;
        proof {
            lemma_byte_merge(r.ax, 0);
            lemma_byte_merge(r.cx, 0);
            lemma_byte_merge(r.dx, 0);
            lemma_byte_merge(r.bx, 0);
        }
        match reg {
            0 => (r.ax & 0xFF) as u8,
            1 => (r.cx & 0xFF) as u8,
            2 => (r.dx & 0xFF) as u8,
            3 => (r.bx & 0xFF) as u8,
            4 => (r.ax >> 8) as u8,
            5 => (r.cx >> 8) as u8,
            6 => (r.dx >> 8) as u8,
            7 => (r.bx >> 8) as u8,
            _ => 0,
        }
    }

    pub fn set_reg8(&mut self, reg: u8, val: u8)
        ensures
            final(self)@ == old(self)@.set_reg8(reg, val),
    {
        let r = self.regs;
        proof {
            lemma_byte_merge(r.ax, val as u16);
            lemma_byte_merge(r.cx, val as u16);
            lemma_byte_merge(r.dx, val as u16);
            lemma_byte_merge(r.bx, val as u16);
        }
        match reg {
            0 => self.regs.ax = (r.ax & 0xFF00) | val as u16,
            1 => self.regs.cx = (r.cx & 0xFF00) | val as u16,
            2 => self.regs.dx = (r.dx & 0xFF00) | val as u16,
            3 => self.regs.bx = (r.bx & 0xFF00) | val as u16,
            4 => self.regs.ax = (r.ax & 0x00FF) | ((val as u16) << 8),
            5 => self.regs.cx = (r.cx & 0x00FF) | ((val as u16) << 8),
            6 => self.regs.dx = (r.dx & 0x00FF) | ((val as u16) << 8),
            7 => self.regs.bx = (r.bx & 0x00FF) | ((val as u16) << 8),
            _ => {},
        }
    }

    /// Pushes `val` on the stack at `ss:sp`.
    pub fn push16(&mut self, val: u16)
        ensures
            final(self)@ == old(self)@.push16(val),
    {
        proof {
            reveal(Machine::push16);
        }
        self.regs.sp = self.regs.sp.wrapping_sub(2);
        let addr = (self.regs.ss as usize * 16) + self.regs.sp as usize;
        self.memory.write_u16(addr, val);
    }

    /// Pops a word from the stack at `ss:sp`.
    pub fn pop16(&mut self) -> (val: u16)
        ensures
            final(self)@ == old(self)@.pop16().0,
            val == old(self)@.pop16().1,
    {
        proof {
            reveal(Machine::pop16);
        }
        let addr = (self.regs.ss as usize * 16) + self.regs.sp as usize;
        let val = self.memory.read_u16(addr);
        self.regs.sp = self.regs.sp.wrapping_add(2);
        val
    }
}

/// Whether one fetch-decode-execute cycle from `s` returns.
pub open spec fn step_defined(s: Machine) -> bool {
    decodes(s) && executes(decoding(s).1, decoding(s).0)
}

/// One fetch-decode-execute cycle: decode the instruction at `cs:ip`, execute it,
/// and drop any segment-override prefix. The flag tells whether execution goes on.
pub open spec fn step_result(s: Machine) -> (Machine, bool) {
    let (s1, op) = decoding(s);
    let (s2, cont) = execution(op, s1);
    (Machine { seg_override: None, ..s2 }, cont)
}

impl Cpu {
    /// Runs one instruction; returns `false` when the machine halts.
    pub fn step(&mut self) -> (cont: bool)
        requires
            step_defined(old(self)@),
        ensures
            final(self)@ == step_result(old(self)@).0,
            cont == step_result(old(self)@).1,
    {
        let opcode = decode(self);
        let ret = opcode.execute(self);
        self.seg_override = None;
        ret
    }
}

/// One instruction cycle with at most `prefixes` prefix bytes and `repeats` REP
/// repetitions: `None` when decoding or execution would need more, or a BIOS/DOS call
/// would not return.
pub open spec fn step_run(s: Machine, prefixes: nat, repeats: nat) -> Option<(Machine, bool)> {
    match decode_run(s, prefixes) {
        None => None,
        Some((s1, op)) => match run(op, s1, repeats) {
            None => None,
            Some((s2, cont)) => Some((Machine { seg_override: None, ..s2 }, cont)),
        },
    }
}

/// Whether the instruction at `cs:ip` decodes, within `prefixes` prefix bytes, to a REP.
pub open spec fn decodes_to_rep(s: Machine, prefixes: nat) -> bool {
    decode_run(s, prefixes) is Some && (decode_run(s, prefixes)->0).1 is Rep
}

impl Cpu {
    /// Runs one instruction when it completes within `max_prefixes` prefix bytes and
    /// `max_repeats` REP repetitions and makes no BIOS/DOS call that would not return;
    /// otherwise gives `None`, leaving the machine unchanged unless a REP had already
    /// started. A code segment holds 65536 bytes, so with `max_prefixes >= 65535` decoding
    /// is refused only when it would never end.
    pub fn step_checked(&mut self, max_prefixes: u64, max_repeats: u64) -> (r: Option<bool>)
        ensures
            match step_run(old(self)@, max_prefixes as nat, max_repeats as nat) {
                Some((t, cont)) => r == Some(cont) && final(self)@ == t,
                None => r is None,
            },
            r is Some ==> step_defined(old(self)@) && final(self)@ == step_result(old(self)@).0 && r
                == Some(step_result(old(self)@).1),
            r is None && !decodes_to_rep(old(self)@, max_prefixes as nat) ==> final(self)@ == old(self)@,
            r is None && !decodes_to_rep(old(self)@, max_prefixes as nat) && max_prefixes >= 65535
                ==> !step_defined(old(self)@),
    {
        let ghost s0 = self@;
        let ip = self.regs.ip;
        let seg_override = self.seg_override;
        match decode_budget(self, max_prefixes) {
            None => {
                self.regs.ip = ip;
                self.seg_override = seg_override;
                assert(self@.regs =~= s0.regs);
                proof {
                    if max_prefixes >= 65535 {
                        crate::laws::law_refused_step_never_completes(
                            s0,
                            max_prefixes as nat,
                            max_repeats as nat,
                        );
                    }
                }
                None
            },
            Some(op) => {
                proof {
                    crate::laws::law_decoding_only_fetches(s0, max_prefixes as nat);
                }
                match op.execute_budget(self, max_repeats) {
                    None => {
                        self.regs.ip = ip;
                        self.seg_override = seg_override;
                        assert(!(op is Rep) ==> self@.regs =~= s0.regs);
                        proof {
                            if !decodes_to_rep(s0, max_prefixes as nat) && max_prefixes >= 65535 {
                                crate::laws::law_refused_step_never_completes(
                                    s0,
                                    max_prefixes as nat,
                                    max_repeats as nat,
                                );
                            }
                        }
                        None
                    },
                    Some(cont) => {
                        self.seg_override = None;
                        proof {
                            crate::laws::law_step_run_agrees(s0, max_prefixes as nat, max_repeats as nat);
                        }
                        Some(cont)
                    },
                }
            },
        }
    }
}

} // verus!
