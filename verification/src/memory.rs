use vstd::prelude::*;

verus! {

/// Size of the emulated real-mode memory: 640 KiB of conventional memory.
pub const MEMORY_SIZE: usize = 655360;

/// The byte that a read at `addr` yields: the stored byte inside memory,
/// and the open-bus value `0xFF` outside it.
pub open spec fn byte_at(mem: Seq<u8>, addr: int) -> u8 {
    if 0 <= addr < mem.len() {
        mem[addr]
    } else {
        0xFF
    }
}

/// The little-endian 16-bit word that a read at `addr` yields.
pub open spec fn word_at(mem: Seq<u8>, addr: int) -> u16 {
    (byte_at(mem, addr) as int + 256 * byte_at(mem, addr + 1) as int) as u16
}

/// Memory after a byte store: writes outside memory are dropped.
pub open spec fn store_byte(mem: Seq<u8>, addr: int, val: u8) -> Seq<u8> {
    if 0 <= addr < mem.len() {
        mem.update(addr, val)
    } else {
        mem
    }
}

/// Memory after a little-endian word store: low byte at `addr`, high byte at `addr + 1`.
pub open spec fn store_word(mem: Seq<u8>, addr: int, val: u16) -> Seq<u8> {
    store_byte(store_byte(mem, addr, (val % 256) as u8), addr + 1, (val / 256) as u8)
}

/// Byte-addressed real-mode memory.
pub struct Memory {
    pub data: Vec<u8>,
}

impl View for Memory {
    type V = Seq<u8>;

    open spec fn view(&self) -> Seq<u8> {
        self.data@
    }
}

/// `(hi << 8) | lo` on 16 bits is the little-endian combination of two bytes.
pub proof fn lemma_combine_bytes(lo: u16, hi: u16)
    requires
        lo < 256,
        hi < 256,
    ensures
        (hi << 8) | lo == hi * 256 + lo,
{
    assert((hi << 8) | lo == hi * 256 + lo) by (bit_vector)
        requires
            lo < 256,
            hi < 256,
    ;
}

/// Splitting a word into its low and high byte.
pub proof fn lemma_split_word(val: u16)
    ensures
        (val & 0xFF) as u8 == (val % 256) as u8,
        (val >> 8) as u8 == (val / 256) as u8,
        val & 0xFF == val % 256,
        val >> 8 == val / 256,
{
    assert(val & 0xFF == val % 256) by (bit_vector);
    assert(val >> 8 == val / 256) by (bit_vector);
}

impl Memory {
    /// Zero-filled memory of `MEMORY_SIZE` bytes.
    pub fn new() -> (m: Self)
        ensures
            m@ == Seq::new(MEMORY_SIZE as nat, |i: int| 0u8),
    {
        let data = vec![0u8; MEMORY_SIZE];
        assert(data@ =~= Seq::new(MEMORY_SIZE as nat, |i: int| 0u8));
        Memory { data }
    }

    pub fn read_u8(&self, addr: usize) -> (val: u8)
        ensures
            val == byte_at(self@, addr as int),
    {
        if addr < self.data.len() {
            self.data[addr]
        } else {
            0xFF
        }
    }

    pub fn write_u8(&mut self, addr: usize, val: u8)
        ensures
            final(self)@ == store_byte(old(self)@, addr as int, val),
    {
        if addr < self.data.len() {
            self.data.set(addr, val);
        }
    }

    pub fn read_u16(&self, addr: usize) -> (val: u16)
        requires
            addr < usize::MAX,
        ensures
            val == word_at(self@, addr as int),
    {
        let low = self.read_u8(addr) as u16;
        let high = self.read_u8(addr + 1) as u16;
        proof {
            lemma_combine_bytes(low, high);
        }
        (high << 8) | low
    }

    pub fn write_u16(&mut self, addr: usize, val: u16)
        requires
            addr < usize::MAX,
        ensures
            final(self)@ == store_word(old(self)@, addr as int, val),
    {
        proof {
            lemma_split_word(val);
        }
        self.write_u8(addr, (val & 0xFF) as u8);
        self.write_u8(addr + 1, (val >> 8) as u8);
    }
}

impl Default for Memory {
    fn default() -> (m: Self)
        ensures
            m@ == Seq::new(MEMORY_SIZE as nat, |i: int| 0u8),
    {
        Self::new()
    }
}

} // verus!
