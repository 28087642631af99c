use vstd::prelude::*;
use crate::cpu::Cpu;
use crate::machine::{Machine, ConsoleOutput, linear};
use crate::regs::{Registers, set_flag, FLAG_CF, FLAG_ZF};

verus! {

/// The AH register: the BIOS/DOS function number.
pub open spec fn ah(r: Registers) -> u8 {
    (r.ax / 256) as u8
}

/// Whether the teletype service shows character `c`: line feed, carriage return,
/// backspace and printable ASCII are shown; everything else (the bell too) is not.
pub open spec fn teletype_shows(c: u8) -> bool {
    c == 0x0A || c == 0x0D || c == 0x08 || (32 <= c && c <= 126)
}

/// `k` is the first `'$'` at or after `start`, inside memory.
pub open spec fn is_string_end(mem: Seq<u8>, start: int, k: int) -> bool {
    &&& 0 <= start <= k < mem.len()
    &&& mem[k] == 0x24
    &&& forall|j: int| start <= j < k ==> mem[j] != 0x24
}

/// Whether a `'$'`-terminated string starts at `start`.
pub open spec fn string_terminated(mem: Seq<u8>, start: int) -> bool {
    exists|k: int| is_string_end(mem, start, k)
}

/// The address of the `'$'` that ends the string at `start`.
pub open spec fn string_end(mem: Seq<u8>, start: int) -> int {
    choose|k: int| is_string_end(mem, start, k)
}

/// The console output of printing `mem[start..end)`, one character per byte.
pub open spec fn chars_of(mem: Seq<u8>, start: int, end: int) -> Seq<ConsoleOutput> {
    Seq::new((end - start) as nat, |i: int| ConsoleOutput::Char(mem[start + i]))
}

/// Sectors per track of the floppy: 18 for a 1.44 MiB image, else 9.
pub open spec fn sectors_per_track(disk: Seq<u8>) -> int {
    if disk.len() == 1474560 {
        18
    } else {
        9
    }
}

/// How many of `num` consecutive 512-byte sectors starting at byte `offset` lie
/// wholly inside a disk of `disk_len` bytes (the read stops at the first that does not).
pub open spec fn sectors_read(disk_len: int, offset: int, num: int) -> int
    decreases num,
{
    if num <= 0 || offset + 512 > disk_len {
        0
    } else {
        1 + sectors_read(disk_len, offset + 512, num - 1)
    }
}

/// Memory with `n` bytes of `disk` from `src` copied to `dst`, dropping those outside memory.
pub open spec fn copy_block(mem: Seq<u8>, disk: Seq<u8>, src: int, dst: int, n: int) -> Seq<u8> {
    Seq::new(
        mem.len(),
        |a: int|
            if dst <= a < dst + n {
                disk[src + a - dst]
            } else {
                mem[a]
            },
    )
}

/// The cylinder of a CHS address: CL bits 6..7 as bits 8..9, CH as bits 0..7.
pub open spec fn chs_cylinder(cx: u16) -> int {
    ((cx % 256) / 64) * 256 + cx / 256
}

/// The byte offset in the image of the CHS address in CX (cylinder, sector) and DH (head).
pub open spec fn chs_offset(r: Registers, disk: Seq<u8>) -> int {
    let sector = r.cx % 64;
    let head = r.dx / 256;
    ((chs_cylinder(r.cx) * 2 + head) * sectors_per_track(disk) + (sector - 1)) * 512
}

/// INT 13h, AH = 02h: reads AL sectors from CHS (CX, DH) into `ES:BX`, then reports
/// success (CF clear, AH = 0).
#[verifier::opaque]
pub open spec fn disk_read(s: Machine) -> Machine {
    let r = s.regs;
    let offset = chs_offset(r, s.disk);
    let k = sectors_read(s.disk.len() as int, offset, (r.ax % 256) as int);
    Machine {
        mem: copy_block(s.mem, s.disk, offset, linear(r.es, r.bx), 512 * k),
        regs: Registers { flags: set_flag(r.flags, FLAG_CF, false), ax: r.ax % 256, ..r },
        ..s
    }
}

/// Whether the BIOS/DOS call returns: a disk read of sector 0 underflows, and a
/// string print runs forever when no `'$'` ends the string inside memory.
pub open spec fn interrupt_defined(s: Machine, int_no: u8) -> bool {
    let a = ah(s.regs);
    if int_no == 0x13 && a == 0x02 {
        s.regs.cx % 64 != 0
    } else if int_no == 0x21 && a == 0x09 {
        string_terminated(s.mem, linear(s.regs.ds, s.regs.dx))
    } else {
        true
    }
}

/// The effect of the software interrupt `int_no` as served by the built-in BIOS and
/// DOS, and whether execution goes on (`false` for INT 19h, unhandled interrupts
/// and unhandled DOS functions).
#[verifier::opaque]
pub open spec fn interrupt(s: Machine, int_no: u8) -> (Machine, bool) {
    let r = s.regs;
    let a = ah(r);
    if int_no == 0x10 {
        if a == 0x0E {
            let c = (r.ax % 256) as u8;
            (
                if teletype_shows(c) {
                    s.emit(ConsoleOutput::Char(c))
                } else {
                    s
                },
                true,
            )
        } else if a == 0x03 {
            (s.with_regs(Registers { ax: 0, cx: 0x0607, dx: 0, ..r }), true)
        } else if a == 0x0F {
            (s.with_regs(Registers { ax: 0x0003, bx: r.bx % 256, ..r }), true)
        } else {
            (s, true)
        }
    } else if int_no == 0x11 {
        (s.with_regs(Registers { ax: 0x0141, ..r }), true)
    } else if int_no == 0x13 {
        if a == 0x00 {
            (s.with_regs(Registers { flags: set_flag(r.flags, FLAG_CF, false), ax: r.ax % 256, ..r }), true)
        } else if a == 0x02 {
            (disk_read(s), true)
        } else if a == 0x08 {
            (
                s.with_regs(
                    Registers {
                        ax: 0,
                        bx: 0x0004,
                        cx: (0x4F00 + sectors_per_track(s.disk)) as u16,
                        dx: 0x0102,
                        flags: set_flag(r.flags, FLAG_CF, false),
                        ..r
                    },
                ),
                true,
            )
        } else {
            (s.with_flags(set_flag(r.flags, FLAG_CF, true)), true)
        }
    } else if int_no == 0x16 {
        if a == 0x00 || a == 0x10 {
            (s.with_regs(Registers { ax: 0x1C0D, ..r }), true)
        } else if a == 0x01 || a == 0x11 {
            (s.with_flags(set_flag(r.flags, FLAG_ZF, true)), true)
        } else {
            (s, true)
        }
    } else if int_no == 0x19 {
        (s.with_regs(Registers { cs: 0, ip: 0x7C00, dx: 0, sp: 0x7C00, ..r }), false)
    } else if int_no == 0x21 {
        if a == 0x09 {
            let start = linear(r.ds, r.dx);
            let end = string_end(s.mem, start);
            (Machine { console: s.console + chars_of(s.mem, start, end), ..s }, true)
        } else if a == 0x4C {
            (s.with_ip(0), true)
        } else {
            (s, false)
        }
    } else if int_no == 0x20 {
        (s.with_ip(0), true)
    } else {
        (s, false)
    }
}

proof fn lemma_ah(ax: u16)
    ensures
        (ax >> 8) as u8 == (ax / 256) as u8,
        ax & 0xFF == ax % 256,
        (ax & 0xFF) as u8 == (ax % 256) as u8,
        ax & 0x00FF == ax % 256,
{
    assert((ax >> 8) as u8 == (ax / 256) as u8) by (bit_vector);
    assert(ax & 0xFF == ax % 256) by (bit_vector);
}

proof fn lemma_chs(cx: u16, dx: u16)
    ensures
        (((cx & 0xC0) << 2u16) | (cx >> 8u16)) == chs_cylinder(cx),
        cx & 0x3F == cx % 64,
        dx >> 8u16 == dx / 256,
{
    assert((((cx & 0xC0) << 2u16) | (cx >> 8u16)) == ((cx % 256) / 64) * 256 + cx / 256)
        by (bit_vector);
    assert(cx & 0x3F == cx % 64) by (bit_vector);
    assert(dx >> 8u16 == dx / 256) by (bit_vector);
}

proof fn lemma_sectors_read_stuck(disk_len: int, offset: int, num: int)
    requires
        offset + 512 > disk_len,
    ensures
        sectors_read(disk_len, offset, num) == 0,
{
}

pub proof fn lemma_sectors_read_bound(disk_len: int, offset: int, num: int)
    ensures
        0 <= sectors_read(disk_len, offset, num),
        num >= 0 ==> sectors_read(disk_len, offset, num) <= num,
        sectors_read(disk_len, offset, num) > 0 ==> offset + 512 * sectors_read(disk_len, offset, num)
            <= disk_len,
    decreases num,
{
    if num > 0 && offset + 512 <= disk_len {
        lemma_sectors_read_bound(disk_len, offset + 512, num - 1);
    }
}

impl Cpu {
    /// INT 13h, AH = 02h: copies the sectors in memory.
    fn disk_read(&mut self)
        requires
            old(self).regs.cx % 64 != 0,
        ensures
            final(self)@ == disk_read(old(self)@),
    {
        proof {
            reveal(disk_read);
        }
        let ghost s0 = self@;
        proof {
            lemma_ah(self.regs.ax);
            lemma_chs(self.regs.cx, self.regs.dx);
        }
        let num_sectors = (self.regs.ax & 0xFF) as usize;
        let cylinder = (((self.regs.cx & 0xC0) << 2) | (self.regs.cx >> 8)) as usize;
        let sector = (self.regs.cx & 0x3F) as usize;
        let head = (self.regs.dx >> 8) as usize;
        let spt: usize = if self.disk_image.len() == 1474560 {
            18
        } else {
            9
        };
        let lba = (cylinder * 2 + head) * spt + (sector - 1);
        let mut offset = lba * 512;
        let mut target_addr = (self.regs.es as usize * 16) + self.regs.bx as usize;
        let ghost off0 = offset as int;
        let ghost t0 = target_addr as int;
        let ghost total = sectors_read(s0.disk.len() as int, off0, num_sectors as int);
        assert(off0 == chs_offset(s0.regs, s0.disk));
        proof {
            lemma_sectors_read_bound(s0.disk.len() as int, off0, num_sectors as int);
        }
        let ghost mut copied: int = 0;
        let mut j: usize = 0;
        while j < num_sectors
            invariant
                0 <= j <= num_sectors,
                num_sectors < 256,
                0 <= copied <= j,
                off0 <= 0x2000000,
                t0 <= 0x10FFEF,
                offset == off0 + 512 * copied,
                target_addr == t0 + 512 * copied,
                copied + sectors_read(s0.disk.len() as int, offset as int, num_sectors - j) == total,
                total <= num_sectors,
                total > 0 ==> off0 + 512 * total <= s0.disk.len(),
                self.disk_image@ == s0.disk,
                self.regs == s0.regs,
                self.seg_override == s0.seg_override,
                self.console@ == s0.console,
                self.memory@ == copy_block(s0.mem, s0.disk, off0, t0, 512 * copied),
            decreases num_sectors - j,
        {
            if offset + 512 <= self.disk_image.len() {
                let ghost mem_before = self.memory@;
                let mut i: usize = 0;
                while i < 512
                    invariant
                        0 <= i <= 512,
                        offset + 512 <= self.disk_image@.len(),
                        0 <= copied < 256,
                        off0 <= 0x2000000,
                        t0 <= 0x10FFEF,
                        offset == off0 + 512 * copied,
                        target_addr == t0 + 512 * copied,
                        self.disk_image@ == s0.disk,
                        self.regs == s0.regs,
                        self.seg_override == s0.seg_override,
                        self.console@ == s0.console,
                        self.memory@ == copy_block(s0.mem, s0.disk, off0, t0, 512 * copied + i),
                    decreases 512 - i,
                {
                    let b = self.disk_image[offset + i];
                    let ghost before = self.memory@;
                    self.memory.write_u8(target_addr + i, b);
                    assert forall|a: int| 0 <= a < s0.mem.len() implies #[trigger] self.memory@[a]
                        == copy_block(s0.mem, s0.disk, off0, t0, 512 * copied + i + 1)[a] by {
                        if a == target_addr + i {
                            assert(b == s0.disk[off0 + a - t0]);
                        } else {
                            assert(self.memory@[a] == before[a]);
                        }
                    }
                    assert(self.memory@ =~= copy_block(
                        s0.mem,
                        s0.disk,
                        off0,
                        t0,
                        512 * copied + i + 1,
                    ));
                    i += 1;
                }
                offset += 512;
                target_addr += 512;
                proof {
                    copied = copied + 1;
                }
            } else {
                proof {
                    lemma_sectors_read_stuck(s0.disk.len() as int, offset as int, num_sectors - j);
                    lemma_sectors_read_stuck(s0.disk.len() as int, offset as int, num_sectors - j - 1);
                }
            }
            j += 1;
        }
        self.regs.flags &= !0x0001;
        self.regs.ax = self.regs.ax & 0x00FF;
        assert(self.memory@ =~= disk_read(s0).mem);
    }
}


impl Cpu {
    /// INT 21h, AH = 09h: prints the `'$'`-terminated string at `DS:DX`.
    fn print_string(&mut self)
        requires
            string_terminated(old(self)@.mem, linear(old(self).regs.ds, old(self).regs.dx)),
        ensures
            final(self)@ == (Machine {
                console: old(self)@.console + chars_of(
                    old(self)@.mem,
                    linear(old(self).regs.ds, old(self).regs.dx),
                    string_end(old(self)@.mem, linear(old(self).regs.ds, old(self).regs.dx)),
                ),
                ..old(self)@
            }),
    {
        let ghost s0 = self@;
        let mut addr = (self.regs.ds as usize * 16) + self.regs.dx as usize;
        let ghost start = addr as int;
        let ghost end = string_end(s0.mem, start);
        assert(is_string_end(s0.mem, start, end));
        let len = self.memory.data.len();
        loop
            invariant
                len == s0.mem.len(),
                start <= addr <= end,
                is_string_end(s0.mem, start, end),
                self@ == (Machine { console: s0.console + chars_of(s0.mem, start, addr as int), ..s0 }),
            ensures
                addr == end,
                self@ == (Machine { console: s0.console + chars_of(s0.mem, start, addr as int), ..s0 }),
            decreases end - addr,
        {
            let b = self.memory.read_u8(addr);
            if b == 0x24 {
                break;
            }
            let ghost c = self.console@;
            self.console.push(ConsoleOutput::Char(b));
            assert(s0.console + chars_of(s0.mem, start, addr + 1) =~= c.push(ConsoleOutput::Char(b)));
            addr += 1;
        }
    }

    /// Serves software interrupt `int_no`; see [`handle_interrupt`].
    pub fn handle_interrupt(&mut self, int_no: u8) -> (cont: bool)
        requires
            interrupt_defined(old(self)@, int_no),
        ensures
            final(self)@ == interrupt(old(self)@, int_no).0,
            cont == interrupt(old(self)@, int_no).1,
    {
        proof {
            reveal(interrupt);
        }
        handle_interrupt(self, int_no)
    }
}

/// Serves software interrupt `int_no` with the built-in BIOS (video teletype and
/// cursor/mode queries, equipment list, floppy reset/read/geometry, keyboard,
/// bootstrap) and DOS (print string, exit) services. Returns whether execution goes on.
pub fn handle_interrupt(cpu: &mut Cpu, int_no: u8) -> (cont: bool)
    requires
        interrupt_defined(old(cpu)@, int_no),
    ensures
        final(cpu)@ == interrupt(old(cpu)@, int_no).0,
        cont == interrupt(old(cpu)@, int_no).1,
{
    proof {
        reveal(interrupt);
        lemma_ah(cpu.regs.ax);
        lemma_ah(cpu.regs.bx);
    }
    let ah = (cpu.regs.ax >> 8) as u8;
    match int_no {
        0x10 => {
            match ah {
                0x0E => {
                    let char_code = (cpu.regs.ax & 0xFF) as u8;
                    match char_code {
                        0x0A | 0x0D | 0x08 => cpu.console.push(ConsoleOutput::Char(char_code)),
                        0x07 => {},
                        _ => {
                            if char_code >= 32 && char_code <= 126 {
                                cpu.console.push(ConsoleOutput::Char(char_code));
                            }
                        },
                    }
                },
                0x03 => {
                    cpu.regs.ax = 0;
                    cpu.regs.cx = 0x0607;
                    cpu.regs.dx = 0;
                },
                0x0F => {
                    cpu.regs.ax = 0x0003;
                    cpu.regs.bx &= 0x00FF;
                },
                _ => {},
            }
        },
        0x11 => {
            cpu.regs.ax = 0x0141;
        },
        0x13 => {
            match ah {
                0x00 => {
                    cpu.regs.flags &= !0x0001;
                    cpu.regs.ax &= 0x00FF;
                },
                0x02 => {
                    cpu.disk_read();
                },
                0x08 => {
                    let spt: u16 = if cpu.disk_image.len() == 1474560 {
                        18
                    } else {
                        9
                    };
                    let cylinders: u16 = 80;
                    cpu.regs.ax = 0;
                    cpu.regs.bx = 0x0004;
                    let last = cylinders - 1;
                    assert(((last & 0xFF) << 8u16) | ((last & 0x300) >> 2u16) | spt == 0x4F00 + spt)
                        by (bit_vector)
                        requires
                            last == 79,
                            spt == 9 || spt == 18,
                    ;
                    cpu.regs.cx = ((last & 0xFF) << 8) | ((last & 0x300) >> 2) | spt;
                    cpu.regs.dx = 0x0102;
                    cpu.regs.flags &= !0x0001;
                },
                _ => {
                    cpu.regs.flags |= 0x0001;
                },
            }
        },
        0x16 => {
            match ah {
                0x00 | 0x10 => {
                    cpu.regs.ax = 0x1C0D;
                },
                0x01 | 0x11 => {
                    cpu.regs.flags |= 0x0040;
                },
                _ => {},
            }
        },
        0x19 => {
            cpu.regs.cs = 0x0000;
            cpu.regs.ip = 0x7C00;
            cpu.regs.dx = 0x0000;
            cpu.regs.sp = 0x7C00;
            return false;
        },
        0x21 => {
            match ah {
                0x09 => {
                    cpu.print_string();
                },
                0x4C => {
                    cpu.regs.ip = 0;
                },
                _ => return false,
            }
        },
        0x20 => {
            cpu.regs.ip = 0;
        },
        _ => return false,
    }
    true
}

/// Whether the software interrupt `int_no` would return in the machine's present
/// state; see `interrupt_defined`.
pub fn interrupt_returns(cpu: &Cpu, int_no: u8) -> (b: bool)
    ensures
        b == interrupt_defined(cpu@, int_no),
{
    proof {
        lemma_ah(cpu.regs.ax);
        lemma_chs(cpu.regs.cx, cpu.regs.dx);
    }
    let ah = (cpu.regs.ax >> 8) as u8;
    if int_no == 0x13 && ah == 0x02 {
        (cpu.regs.cx & 0x3F) != 0
    } else if int_no == 0x21 && ah == 0x09 {
        let start = (cpu.regs.ds as usize * 16) + cpu.regs.dx as usize;
        let len = cpu.memory.data.len();
        let ghost mem = cpu@.mem;
        let mut addr = start;
        while addr < len
            invariant
                start <= addr,
                len == mem.len(),
                mem == cpu@.mem,
                start == linear(cpu.regs.ds, cpu.regs.dx),
                interrupt_defined(cpu@, int_no) == string_terminated(mem, start as int),
                forall|j: int| start <= j < addr ==> mem[j] != 0x24,
            decreases len - addr,
        {
            if cpu.memory.data[addr] == 0x24 {
                assert(is_string_end(mem, start as int, addr as int));
                return true;
            }
            addr += 1;
        }
        assert forall|k: int| !is_string_end(mem, start as int, k) by {
            if is_string_end(mem, start as int, k) {
                assert(mem[k] != 0x24);
            }
        }
        false
    } else {
        true
    }
}

} // verus!
