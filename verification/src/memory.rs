//! The memory unit and the register file. Both are byte-addressable stores
//! with an endianness tag; the register file adds mode-aware banking for the
//! stack pointer and link register, the CPSR and SPSR words, and per-flag
//! accessors. Multi-byte accesses are aligned-only: a misaligned read yields
//! 0 and a misaligned write is dropped. RAM additionally keeps a rolling
//! checksum, recomputed on every mutating access.
use vstd::prelude::*;

verus! {

use crate::bits::{
    Byte, HalfWord, Word, AddressSize, Checksum,
    word_of_be, wbyte0, wbyte1, wbyte2, wbyte3,
    half_of_be, hbyte0, hbyte1,
    bit_get, set_bit32, wadd, wsub,
    lemma_word_bytes_roundtrip, lemma_set_bit_fits,
    pow2u32,
};
use crate::cpu_enum::{Mode, spec_mode_of_bits, mode_of_bits, spec_mode_bits, mode_bits,
    MODE_BITS_SVC, MODE_BITS_IRQ, MODE_BITS_SYS};
use vstd::arithmetic::power2::pow2;

pub const DEFAULT_MEMORY_SIZE: usize = 32768;

/// r0..r15, CPSR, then SP/LR/SPSR for Supervisor mode and for IRQ mode.
pub const NUM_REGISTERS: usize = 23;

pub const REGISTER_BYTES: usize = 4;

pub const CPSR_ADDR: AddressSize = 64;

pub const SPSR_SVC_ADDR: AddressSize = 76;

pub const SPSR_IRQ_ADDR: AddressSize = 88;

/// Slot distance from r13/r14 to the Supervisor-mode bank.
pub const MODE_OFFSET_SVC: usize = 4;

/// Slot distance from r13/r14 to the IRQ-mode bank.
pub const MODE_OFFSET_IRQ: usize = 7;

/// Stores to this address are routed to the display hook.
pub const DISPLAY_ADDR: AddressSize = 0x100000;

/// Loads from this address yield the last keyboard character.
pub const KEYBOARD_ADDR: AddressSize = 0x100001;

/// Byte order of every multi-byte access of a store.
#[derive(Clone, Copy, Debug, PartialEq, Eq, Structural)]
pub enum Endianness {
    Little,
    Big,
}

#[allow(non_camel_case_types)]
#[derive(Clone, Copy, Debug, PartialEq, Eq, Structural)]
pub enum Register {
    r0,
    r1,
    r2,
    r3,
    r4,
    r5,
    r6,
    r7,
    r8,
    r9,
    r10,
    r11,
    r12,
    r13,
    r14,
    r15,
}

pub open spec fn spec_register_index(r: Register) -> int {
    match r {
        Register::r0 => 0,
        Register::r1 => 1,
        Register::r2 => 2,
        Register::r3 => 3,
        Register::r4 => 4,
        Register::r5 => 5,
        Register::r6 => 6,
        Register::r7 => 7,
        Register::r8 => 8,
        Register::r9 => 9,
        Register::r10 => 10,
        Register::r11 => 11,
        Register::r12 => 12,
        Register::r13 => 13,
        Register::r14 => 14,
        Register::r15 => 15,
    }
}

pub fn register_index(r: Register) -> (i: usize)
    ensures
        i == spec_register_index(r),
{
    match r {
        Register::r0 => 0,
        Register::r1 => 1,
        Register::r2 => 2,
        Register::r3 => 3,
        Register::r4 => 4,
        Register::r5 => 5,
        Register::r6 => 6,
        Register::r7 => 7,
        Register::r8 => 8,
        Register::r9 => 9,
        Register::r10 => 10,
        Register::r11 => 11,
        Register::r12 => 12,
        Register::r13 => 13,
        Register::r14 => 14,
        Register::r15 => 15,
    }
}

pub open spec fn spec_register_from_bits(bits: Word) -> Register {
    if bits == 0 {
        Register::r0
    } else if bits == 1 {
        Register::r1
    } else if bits == 2 {
        Register::r2
    } else if bits == 3 {
        Register::r3
    } else if bits == 4 {
        Register::r4
    } else if bits == 5 {
        Register::r5
    } else if bits == 6 {
        Register::r6
    } else if bits == 7 {
        Register::r7
    } else if bits == 8 {
        Register::r8
    } else if bits == 9 {
        Register::r9
    } else if bits == 10 {
        Register::r10
    } else if bits == 11 {
        Register::r11
    } else if bits == 12 {
        Register::r12
    } else if bits == 13 {
        Register::r13
    } else if bits == 14 {
        Register::r14
    } else {
        Register::r15
    }
}

pub fn register_from_bits(bits: Word) -> (r: Register)
    requires
        bits <= 15,
    ensures
        r == spec_register_from_bits(bits),
{
    if bits == 0 {
        Register::r0
    } else if bits == 1 {
        Register::r1
    } else if bits == 2 {
        Register::r2
    } else if bits == 3 {
        Register::r3
    } else if bits == 4 {
        Register::r4
    } else if bits == 5 {
        Register::r5
    } else if bits == 6 {
        Register::r6
    } else if bits == 7 {
        Register::r7
    } else if bits == 8 {
        Register::r8
    } else if bits == 9 {
        Register::r9
    } else if bits == 10 {
        Register::r10
    } else if bits == 11 {
        Register::r11
    } else if bits == 12 {
        Register::r12
    } else if bits == 13 {
        Register::r13
    } else if bits == 14 {
        Register::r14
    } else {
        Register::r15
    }
}

/// The word read at `addr`: 0 when misaligned, else the four bytes in the
/// order the endianness gives them.
pub open spec fn read_word_spec(bytes: Seq<Byte>, e: Endianness, addr: int) -> Word
    recommends
        0 <= addr,
        addr + 4 <= bytes.len(),
{
    if addr % 4 != 0 {
        0
    } else {
        match e {
            Endianness::Big => word_of_be(
                bytes[addr], bytes[addr + 1], bytes[addr + 2], bytes[addr + 3]),
            Endianness::Little => word_of_be(
                bytes[addr + 3], bytes[addr + 2], bytes[addr + 1], bytes[addr]),
        }
    }
}

/// The byte store after writing `v` at `addr`: unchanged when misaligned.
pub open spec fn write_word_bytes(bytes: Seq<Byte>, e: Endianness, addr: int, v: Word) -> Seq<Byte>
    recommends
        0 <= addr,
        addr + 4 <= bytes.len(),
{
    if addr % 4 != 0 {
        bytes
    } else {
        match e {
            Endianness::Big => bytes
                .update(addr, wbyte0(v))
                .update(addr + 1, wbyte1(v))
                .update(addr + 2, wbyte2(v))
                .update(addr + 3, wbyte3(v)),
            Endianness::Little => bytes
                .update(addr, wbyte3(v))
                .update(addr + 1, wbyte2(v))
                .update(addr + 2, wbyte1(v))
                .update(addr + 3, wbyte0(v)),
        }
    }
}

/// The halfword read at `addr`: 0 when misaligned.
pub open spec fn read_half_spec(bytes: Seq<Byte>, e: Endianness, addr: int) -> HalfWord
    recommends
        0 <= addr,
        addr + 2 <= bytes.len(),
{
    if addr % 2 != 0 {
        0
    } else {
        match e {
            Endianness::Big => half_of_be(bytes[addr], bytes[addr + 1]),
            Endianness::Little => half_of_be(bytes[addr + 1], bytes[addr]),
        }
    }
}

/// The byte store after writing halfword `v` at `addr`.
pub open spec fn write_half_bytes(bytes: Seq<Byte>, e: Endianness, addr: int, v: HalfWord) -> Seq<Byte>
    recommends
        0 <= addr,
        addr + 2 <= bytes.len(),
{
    if addr % 2 != 0 {
        bytes
    } else {
        match e {
            Endianness::Big => bytes.update(addr, hbyte0(v)).update(addr + 1, hbyte1(v)),
            Endianness::Little => bytes.update(addr, hbyte1(v)).update(addr + 1, hbyte0(v)),
        }
    }
}

/// Rolling checksum of the first `n` bytes: the wrapping sum of each byte
/// XORed with its address.
pub open spec fn checksum_prefix(bytes: Seq<Byte>, n: int) -> Checksum
    recommends
        n <= bytes.len() < 0x100000000,
    decreases n,
{
    if n <= 0 {
        0
    } else {
        wadd(checksum_prefix(bytes, n - 1), (bytes[n - 1] as Word) ^ ((n - 1) as Word))
    }
}

/// Rolling checksum of a whole byte store.
pub open spec fn checksum_of(bytes: Seq<Byte>) -> Checksum
    recommends
        bytes.len() < 0x100000000,
{
    checksum_prefix(bytes, bytes.len() as int)
}

/// After a word write, reading the same aligned address gives the value back.
pub proof fn lemma_write_word_read(bytes: Seq<Byte>, e: Endianness, addr: int, v: Word)
    requires
        0 <= addr,
        addr % 4 == 0,
        addr + 4 <= bytes.len(),
    ensures
        read_word_spec(write_word_bytes(bytes, e, addr, v), e, addr) == v,
{
    lemma_word_bytes_roundtrip(v);
}

/// The two byte orders store the same word differently: little-endian puts
/// the least significant byte first, big-endian the most significant, so
/// the stored images differ whenever those bytes differ.
pub proof fn lemma_write_word_byte_order(bytes: Seq<Byte>, addr: int, v: Word)
    requires
        0 <= addr,
        addr % 4 == 0,
        addr + 4 <= bytes.len(),
    ensures
        write_word_bytes(bytes, Endianness::Little, addr, v)[addr] == crate::bits::wbyte3(v),
        write_word_bytes(bytes, Endianness::Big, addr, v)[addr] == crate::bits::wbyte0(v),
        crate::bits::wbyte0(v) != crate::bits::wbyte3(v) ==> write_word_bytes(bytes,
            Endianness::Little, addr, v) != write_word_bytes(bytes, Endianness::Big, addr, v),
{
}

/// A word write leaves every other aligned word unchanged.
pub proof fn lemma_write_word_frame(bytes: Seq<Byte>, e: Endianness, addr: int, v: Word, addr2: int)
    requires
        0 <= addr,
        addr + 4 <= bytes.len(),
        0 <= addr2,
        addr2 % 4 == 0,
        addr2 + 4 <= bytes.len(),
        addr2 != addr || addr % 4 != 0,
    ensures
        read_word_spec(write_word_bytes(bytes, e, addr, v), e, addr2) == read_word_spec(
            bytes, e, addr2),
{
    if addr % 4 == 0 {
        assert((addr2 - addr) % 4 == 0) by {
            vstd::arithmetic::div_mod::lemma_sub_mod_noop(addr2, addr, 4);
        }
        if addr2 < addr {
            assert(addr2 + 4 <= addr);
        } else {
            assert(addr + 4 <= addr2);
        }
    }
}

/// Main RAM: a byte store with an endianness, a rolling checksum, and
/// bookkeeping used by the hosting shell.
pub struct RAM {
    pub checksum: Checksum,
    pub endianness: Endianness,
    pub loaded: bool,
    pub memory_array: Vec<Byte>,
    pub size: usize,
    pub display_offset: AddressSize,
}

impl RAM {
    /// Structural well-formedness: the buffer has exactly `size` bytes and
    /// every byte has a 32-bit address.
    pub open spec fn wf(&self) -> bool {
        &&& self.memory_array.len() == self.size
        &&& self.size < 0x100000000
    }

    pub fn new(size: usize, endianness: Endianness) -> (r: Self)
        requires
            size < 0x100000000,
        ensures
            r.wf(),
            r.size == size,
            r.endianness == endianness,
            r.checksum == 0,
            !r.loaded,
            r.display_offset == 0,
            r.memory_array@ == Seq::new(size as nat, |i: int| 0u8),
    {
        let r = RAM {
            checksum: 0,
            endianness,
            loaded: false,
            memory_array: vec![0; size],
            size,
            display_offset: 0,
        };
        proof {
            assert(r.memory_array@ =~= Seq::new(size as nat, |i: int| 0u8));
        }
        r
    }

    pub fn get_size(&self) -> (r: usize)
        ensures
            r == self.size,
    {
        self.size
    }

    pub fn get_endianness(&self) -> (r: Endianness)
        ensures
            r == self.endianness,
    {
        self.endianness
    }

    pub fn get_checksum(&self) -> (r: Checksum)
        ensures
            r == self.checksum,
    {
        self.checksum
    }

    pub fn set_checksum(&mut self, checksum: Checksum)
        ensures
            *final(self) == (RAM { checksum, ..*old(self) }),
    {
        self.checksum = checksum;
    }

    /// Empties the store back to `size` zero bytes and recomputes the
    /// checksum, as every mutating access does.
    pub fn clear(&mut self)
        requires
            old(self).wf(),
        ensures
            final(self).wf(),
            final(self).memory_array@ == Seq::new(old(self).size as nat, |i: int| 0u8),
            final(self).size == old(self).size,
            final(self).endianness == old(self).endianness,
            final(self).checksum == checksum_of(final(self).memory_array@),
            final(self).loaded == old(self).loaded,
            final(self).display_offset == old(self).display_offset,
    {
        let sz = self.size;
        self.memory_array.clear();
        self.memory_array.resize(sz, 0);
        proof {
            assert(self.memory_array@ =~= Seq::new(sz as nat, |i: int| 0u8));
        }
        let checksum = self.calculate_checksum();
        self.checksum = checksum;
    }

    /// Aligned word read; a misaligned address reads as 0.
    pub fn read_word(&self, addr: AddressSize) -> (r: Word)
        requires
            self.wf(),
            addr + 4 <= self.size,
        ensures
            r == read_word_spec(self.memory_array@, self.endianness, addr as int),
            addr % 4 != 0 ==> r == 0,
    {
        if addr % 4 != 0 {
            return 0;
        }
        let a = addr as usize;
        let w0 = self.memory_array[a] as Word;
        let w1 = self.memory_array[a + 1] as Word;
        let w2 = self.memory_array[a + 2] as Word;
        let w3 = self.memory_array[a + 3] as Word;
        if matches!(self.endianness, Endianness::Little) {
            w3 * 0x1000000 + w2 * 0x10000 + w1 * 0x100 + w0
        } else {
            w0 * 0x1000000 + w1 * 0x10000 + w2 * 0x100 + w3
        }
    }

    /// Aligned word write; a misaligned address is dropped. An aligned write
    /// stores the bytes in endianness order and recomputes the checksum.
    pub fn write_word(&mut self, addr: AddressSize, value: Word)
        requires
            old(self).wf(),
            addr + 4 <= old(self).size,
        ensures
            final(self).wf(),
            final(self).memory_array@ == write_word_bytes(
                old(self).memory_array@, old(self).endianness, addr as int, value),
            addr % 4 != 0 ==> *final(self) == *old(self),
            addr % 4 == 0 ==> final(self).checksum == checksum_of(final(self).memory_array@),
            final(self).size == old(self).size,
            final(self).endianness == old(self).endianness,
            final(self).loaded == old(self).loaded,
            final(self).display_offset == old(self).display_offset,
    {
        if addr % 4 != 0 {
            return;
        }
        let b0 = (value / 0x1000000) as Byte;
        let b1 = ((value / 0x10000) % 0x100) as Byte;
        let b2 = ((value / 0x100) % 0x100) as Byte;
        let b3 = (value % 0x100) as Byte;
        let a = addr as usize;
        if matches!(self.endianness, Endianness::Little) {
            self.memory_array[a] = b3;
            self.memory_array[a + 1] = b2;
            self.memory_array[a + 2] = b1;
            self.memory_array[a + 3] = b0;
        } else {
            self.memory_array[a] = b0;
            self.memory_array[a + 1] = b1;
            self.memory_array[a + 2] = b2;
            self.memory_array[a + 3] = b3;
        }
        let checksum = self.calculate_checksum();
        self.checksum = checksum;
    }

    /// Aligned halfword read; a misaligned address reads as 0.
    pub fn read_half_word(&self, addr: AddressSize) -> (r: HalfWord)
        requires
            self.wf(),
            addr + 2 <= self.size,
        ensures
            r == read_half_spec(self.memory_array@, self.endianness, addr as int),
            addr % 2 != 0 ==> r == 0,
    {
        if addr % 2 != 0 {
            return 0;
        }
        let a = addr as usize;
        let h0 = self.memory_array[a] as HalfWord;
        let h1 = self.memory_array[a + 1] as HalfWord;
        if matches!(self.endianness, Endianness::Little) {
            h1 * 0x100 + h0
        } else {
            h0 * 0x100 + h1
        }
    }

    /// Aligned halfword write; a misaligned address is dropped.
    pub fn write_half_word(&mut self, addr: AddressSize, value: HalfWord)
        requires
            old(self).wf(),
            addr + 2 <= old(self).size,
        ensures
            final(self).wf(),
            final(self).memory_array@ == write_half_bytes(
                old(self).memory_array@, old(self).endianness, addr as int, value),
            addr % 2 != 0 ==> *final(self) == *old(self),
            addr % 2 == 0 ==> final(self).checksum == checksum_of(final(self).memory_array@),
            final(self).size == old(self).size,
            final(self).endianness == old(self).endianness,
            final(self).loaded == old(self).loaded,
            final(self).display_offset == old(self).display_offset,
    {
        if addr % 2 != 0 {
            return;
        }
        let b0 = (value / 0x100) as Byte;
        let b1 = (value % 0x100) as Byte;
        let a = addr as usize;
        if matches!(self.endianness, Endianness::Little) {
            self.memory_array[a] = b1;
            self.memory_array[a + 1] = b0;
        } else {
            self.memory_array[a] = b0;
            self.memory_array[a + 1] = b1;
        }
        let checksum = self.calculate_checksum();
        self.checksum = checksum;
    }

    pub fn read_byte(&self, addr: AddressSize) -> (r: Byte)
        requires
            self.wf(),
            addr < self.size,
        ensures
            r == self.memory_array@[addr as int],
    {
        self.memory_array[addr as usize]
    }

    /// Byte write; an out-of-range address is dropped, in range the byte is
    /// stored and the checksum recomputed.
    pub fn write_byte(&mut self, addr: AddressSize, value: Byte)
        requires
            old(self).wf(),
        ensures
            final(self).wf(),
            addr >= old(self).size ==> *final(self) == *old(self),
            addr < old(self).size ==> final(self).memory_array@ == old(self).memory_array@.update(
                addr as int, value),
            addr < old(self).size ==> final(self).checksum == checksum_of(
                final(self).memory_array@),
            final(self).size == old(self).size,
            final(self).endianness == old(self).endianness,
            final(self).loaded == old(self).loaded,
            final(self).display_offset == old(self).display_offset,
    {
        if addr as usize >= self.size {
            return;
        }
        self.memory_array[addr as usize] = value;
        let checksum = self.calculate_checksum();
        self.checksum = checksum;
    }

    /// Whether a four-byte access at `addr` stays inside the store.
    pub fn word_access_ok(&self, addr: AddressSize) -> (r: bool)
        ensures
            r == (addr + 4 <= self.size),
    {
        (addr as u64) + 4 <= self.size as u64
    }

    /// Whether a two-byte access at `addr` stays inside the store.
    pub fn half_access_ok(&self, addr: AddressSize) -> (r: bool)
        ensures
            r == (addr + 2 <= self.size),
    {
        (addr as u64) + 2 <= self.size as u64
    }

    /// Whether a single-byte access at `addr` stays inside the store.
    pub fn byte_access_ok(&self, addr: AddressSize) -> (r: bool)
        ensures
            r == (addr < self.size),
    {
        (addr as u64) < self.size as u64
    }

    /// The wrapping sum over all bytes of byte XOR address.
    pub fn calculate_checksum(&self) -> (r: Checksum)
        requires
            self.wf(),
        ensures
            r == checksum_of(self.memory_array@),
    {
        let mut checksum: Checksum = 0;
        let n = self.memory_array.len();
        let mut i: usize = 0;
        while i < n
            invariant
                self.wf(),
                n == self.memory_array.len(),
                i <= n,
                checksum == checksum_prefix(self.memory_array@, i as int),
            decreases n - i,
        {
            checksum = checksum.wrapping_add((self.memory_array[i] as Word) ^ (i as Word));
            i = i + 1;
        }
        checksum
    }

    /// Whether bit `bit` of the word at `addr` is set.
    pub fn test_flag(&self, addr: AddressSize, bit: u8) -> (r: bool)
        requires
            self.wf(),
            addr + 4 <= self.size,
            bit <= 31,
        ensures
            r == (bit_get(
                read_word_spec(self.memory_array@, self.endianness, addr as int),
                bit as nat) == 1),
    {
        let w = self.read_word(addr);
        (w / pow2u32(bit as u32)) % 2 == 1
    }

    /// Forces bit `bit` of the word at `addr` to `flag`.
    pub fn set_flag(&mut self, addr: AddressSize, bit: u8, flag: bool)
        requires
            old(self).wf(),
            addr + 4 <= old(self).size,
            bit <= 31,
        ensures
            final(self).wf(),
            final(self).memory_array@ == write_word_bytes(
                old(self).memory_array@,
                old(self).endianness,
                addr as int,
                set_bit32(
                    read_word_spec(old(self).memory_array@, old(self).endianness, addr as int),
                    bit as nat,
                    flag)),
            addr % 4 == 0 ==> final(self).checksum == checksum_of(final(self).memory_array@),
            addr % 4 != 0 ==> *final(self) == *old(self),
            final(self).size == old(self).size,
            final(self).endianness == old(self).endianness,
            final(self).loaded == old(self).loaded,
            final(self).display_offset == old(self).display_offset,
    {
        let w = self.read_word(addr);
        let p = pow2u32(bit as u32);
        let cur = (w / p) % 2;
        let w2: Word = if flag && cur == 0 {
            proof {
                lemma_set_bit_fits(w, bit as nat);
            }
            w + p
        } else if !flag && cur == 1 {
            proof {
                assert(w >= p) by (nonlinear_arith)
                    requires p > 0, (w as int / p as int) % 2 == 1;
            }
            w - p
        } else {
            w
        };
        self.write_word(addr, w2);
    }

    /// The bits of `w` from `start_bit` to `end_bit` inclusive, kept in place.
    pub fn extract_bits(w: Word, start_bit: u8, end_bit: u8) -> (r: Word)
        requires
            start_bit <= end_bit,
            end_bit <= 31,
        ensures
            r == extract_bits_spec(w, start_bit as nat, end_bit as nat),
    {
        proof {
            lemma_extract_bits_bound(w, start_bit as nat, end_bit as nat);
        }
        let low = w % pow2u32(start_bit as u32);
        let high: Word = if end_bit == 31 {
            w
        } else {
            w % pow2u32(end_bit as u32 + 1)
        };
        proof {
            if end_bit == 31 {
                vstd::arithmetic::power2::lemma2_to64();
                vstd::arithmetic::div_mod::lemma_small_mod(w as nat, pow2(32));
            }
        }
        high - low
    }
}

/// The storage slot that register `idx` resolves to under the given mode
/// bits: r13/r14 are redirected to the Supervisor or IRQ bank, everything
/// else is mode-independent.
pub open spec fn bank_index(mode_bits: Word, idx: int) -> int
    recommends
        0 <= idx <= 15,
{
    if mode_bits == MODE_BITS_SVC && (idx == 13 || idx == 14) {
        idx + MODE_OFFSET_SVC
    } else if mode_bits == MODE_BITS_IRQ && (idx == 13 || idx == 14) {
        idx + MODE_OFFSET_IRQ
    } else {
        idx
    }
}

/// `cpsr` with its five mode bits replaced by `bits`.
pub open spec fn with_mode_bits(cpsr: Word, bits: Word) -> Word
    recommends
        bits < 32,
{
    (cpsr - cpsr % 32 + bits) as Word
}

pub proof fn lemma_with_mode_bits(cpsr: Word, bits: Word)
    requires
        bits < 32,
    ensures
        with_mode_bits(cpsr, bits) % 32 == bits,
        cpsr - cpsr % 32 + bits < 0x100000000,
        cpsr - cpsr % 32 >= 0,
    decreases cpsr,
{
    let k = cpsr as int / 32;
    vstd::arithmetic::div_mod::lemma_fundamental_div_mod(cpsr as int, 32);
    assert(cpsr - cpsr % 32 == 32 * k);
    assert(32 * k <= 0xFFFFFFE0);
    vstd::arithmetic::div_mod::lemma_mod_multiples_vanish(k, bits as int, 32);
}

/// `post` is `pre` with slot `i` holding `v` and every other slot unchanged.
pub open spec fn updated_slot(pre: Registers, post: Registers, i: int, v: Word) -> bool {
    &&& post.wf()
    &&& post.endianness == pre.endianness
    &&& post.size == pre.size
    &&& post.slot(i) == v
    &&& forall|j: int| 0 <= j < 23 && j != i ==> post.slot(j) == pre.slot(j)
}

/// The register file: sixteen general registers, the CPSR, and banked
/// SP/LR/SPSR slots for Supervisor and IRQ mode, kept in a memory-backed
/// byte store.
pub struct Registers {
    pub endianness: Endianness,
    pub memory_array: Vec<Byte>,
    pub size: usize,
}

impl Registers {
    pub open spec fn wf(&self) -> bool {
        &&& self.memory_array.len() == self.size
        &&& self.size == NUM_REGISTERS * REGISTER_BYTES
    }

    /// The 32-bit word stored in slot `i`.
    pub open spec fn slot(&self, i: int) -> Word
        recommends
            0 <= i < 23,
    {
        read_word_spec(self.memory_array@, self.endianness, 4 * i)
    }

    pub open spec fn cpsr_of(&self) -> Word {
        self.slot(16)
    }

    pub open spec fn mode_bits_of(&self) -> Word {
        self.cpsr_of() % 32
    }

    /// The value of register `idx` under the current mode's banking.
    pub open spec fn reg_of(&self, idx: int) -> Word
        recommends
            0 <= idx <= 15,
    {
        self.slot(bank_index(self.mode_bits_of(), idx))
    }

    pub open spec fn flag_of(&self, b: nat) -> bool {
        bit_get(self.cpsr_of(), b) == 1
    }

    pub open spec fn n_of(&self) -> bool {
        self.flag_of(31)
    }

    pub open spec fn z_of(&self) -> bool {
        self.flag_of(30)
    }

    pub open spec fn c_of(&self) -> bool {
        self.flag_of(29)
    }

    pub open spec fn v_of(&self) -> bool {
        self.flag_of(28)
    }

    pub open spec fn i_of(&self) -> bool {
        self.flag_of(7)
    }

    pub open spec fn t_of(&self) -> bool {
        self.flag_of(5)
    }

    pub open spec fn has_spsr_of(&self) -> bool {
        self.mode_bits_of() == MODE_BITS_SVC || self.mode_bits_of() == MODE_BITS_IRQ
    }

    /// Slot of the current mode's SPSR.
    pub open spec fn spsr_slot_of(&self) -> int
        recommends
            self.has_spsr_of(),
    {
        if self.mode_bits_of() == MODE_BITS_SVC {
            19
        } else {
            22
        }
    }

    pub open spec fn spsr_of(&self) -> Word
        recommends
            self.has_spsr_of(),
    {
        self.slot(self.spsr_slot_of())
    }

    pub fn new(endianness: Endianness) -> (r: Self)
        ensures
            r.wf(),
            r.endianness == endianness,
            r.memory_array@ == Seq::new((NUM_REGISTERS * REGISTER_BYTES) as nat, |i: int| 0u8),
    {
        let r = Registers {
            endianness,
            memory_array: vec![0; NUM_REGISTERS * REGISTER_BYTES],
            size: NUM_REGISTERS * REGISTER_BYTES,
        };
        proof {
            assert(r.memory_array@ =~= Seq::new((NUM_REGISTERS * REGISTER_BYTES) as nat,
                |i: int| 0u8));
        }
        r
    }

    /// Aligned word read on the backing store; misaligned reads as 0.
    pub fn read_word(&self, addr: AddressSize) -> (r: Word)
        requires
            self.wf(),
            addr + 4 <= self.size,
        ensures
            r == read_word_spec(self.memory_array@, self.endianness, addr as int),
    {
        if addr % 4 != 0 {
            return 0;
        }
        let a = addr as usize;
        let w0 = self.memory_array[a] as Word;
        let w1 = self.memory_array[a + 1] as Word;
        let w2 = self.memory_array[a + 2] as Word;
        let w3 = self.memory_array[a + 3] as Word;
        if matches!(self.endianness, Endianness::Little) {
            w3 * 0x1000000 + w2 * 0x10000 + w1 * 0x100 + w0
        } else {
            w0 * 0x1000000 + w1 * 0x10000 + w2 * 0x100 + w3
        }
    }

    /// Aligned word write on the backing store; misaligned writes are dropped.
    pub fn write_word(&mut self, addr: AddressSize, value: Word)
        requires
            old(self).wf(),
            addr + 4 <= old(self).size,
        ensures
            final(self).wf(),
            final(self).memory_array@ == write_word_bytes(
                old(self).memory_array@, old(self).endianness, addr as int, value),
            final(self).size == old(self).size,
            final(self).endianness == old(self).endianness,
    {
        if addr % 4 != 0 {
            return;
        }
        let b0 = (value / 0x1000000) as Byte;
        let b1 = ((value / 0x10000) % 0x100) as Byte;
        let b2 = ((value / 0x100) % 0x100) as Byte;
        let b3 = (value % 0x100) as Byte;
        let a = addr as usize;
        if matches!(self.endianness, Endianness::Little) {
            self.memory_array[a] = b3;
            self.memory_array[a + 1] = b2;
            self.memory_array[a + 2] = b1;
            self.memory_array[a + 3] = b0;
        } else {
            self.memory_array[a] = b0;
            self.memory_array[a + 1] = b1;
            self.memory_array[a + 2] = b2;
            self.memory_array[a + 3] = b3;
        }
    }

    pub fn read_byte(&self, addr: AddressSize) -> (r: Byte)
        requires
            self.wf(),
            addr < self.size,
        ensures
            r == self.memory_array@[addr as int],
    {
        self.memory_array[addr as usize]
    }

    /// Word read of slot `i`.
    fn read_slot(&self, i: usize) -> (r: Word)
        requires
            self.wf(),
            i < 23,
        ensures
            r == self.slot(i as int),
    {
        self.read_word((i * 4) as AddressSize)
    }

    /// Word write of slot `i`; every other slot keeps its value.
    fn write_slot(&mut self, i: usize, value: Word)
        requires
            old(self).wf(),
            i < 23,
        ensures
            updated_slot(*old(self), *final(self), i as int, value),
    {
        let ghost pre = *self;
        self.write_word((i * 4) as AddressSize, value);
        proof {
            lemma_write_word_read(pre.memory_array@, pre.endianness, 4 * i as int, value);
            assert forall|j: int| 0 <= j < 23 && j != i implies self.slot(j) == pre.slot(j) by {
                lemma_write_word_frame(pre.memory_array@, pre.endianness, 4 * i as int, value,
                    4 * j);
            }
        }
    }

    /// The storage slot that `index` resolves to under the current mode.
    pub fn get_register_mode_index(&self, index: usize) -> (r: usize)
        requires
            self.wf(),
            index <= 15,
        ensures
            r == bank_index(self.mode_bits_of(), index as int),
            r < 23,
            r != 16,
    {
        let cpsr = self.read_slot(16);
        let mode = cpsr % 32;
        if mode == MODE_BITS_SVC && (index == 13 || index == 14) {
            index + MODE_OFFSET_SVC
        } else if mode == MODE_BITS_IRQ && (index == 13 || index == 14) {
            index + MODE_OFFSET_IRQ
        } else {
            index
        }
    }

    /// Banked register write: the slot the mode selects gets `value`, and in
    /// particular the CPSR is never touched.
    pub fn set_register(&mut self, index: usize, value: Word)
        requires
            old(self).wf(),
            index <= 15,
        ensures
            updated_slot(*old(self), *final(self),
                bank_index(old(self).mode_bits_of(), index as int), value),
            final(self).cpsr_of() == old(self).cpsr_of(),
            final(self).reg_of(index as int) == value,
    {
        let bank = self.get_register_mode_index(index);
        self.write_slot(bank, value);
    }

    pub fn set_reg_register(&mut self, reg: Register, value: Word)
        requires
            old(self).wf(),
        ensures
            updated_slot(*old(self), *final(self),
                bank_index(old(self).mode_bits_of(), spec_register_index(reg)), value),
            final(self).cpsr_of() == old(self).cpsr_of(),
            final(self).reg_of(spec_register_index(reg)) == value,
    {
        let i = register_index(reg);
        self.set_register(i, value);
    }

    /// Banked register read.
    pub fn get_register(&self, index: usize) -> (r: Word)
        requires
            self.wf(),
            index <= 15,
        ensures
            r == self.reg_of(index as int),
    {
        let bank = self.get_register_mode_index(index);
        self.read_slot(bank)
    }

    pub fn get_reg_register(&self, reg: Register) -> (r: Word)
        requires
            self.wf(),
        ensures
            r == self.reg_of(spec_register_index(reg)),
    {
        let i = register_index(reg);
        self.get_register(i)
    }

    /// The sixteen general registers, r0 first.
    pub fn get_all(&self) -> (r: Vec<Word>)
        requires
            self.wf(),
        ensures
            r@.len() == 16,
            forall|i: int| 0 <= i < 16 ==> r@[i] == self.reg_of(i),
    {
        let mut regs: Vec<Word> = Vec::new();
        let mut i: usize = 0;
        while i <= 15
            invariant
                self.wf(),
                i <= 16,
                regs@.len() == i,
                forall|j: int| 0 <= j < i ==> regs@[j] == self.reg_of(j),
            decreases 16 - i,
        {
            let v = self.get_register(i);
            regs.push(v);
            i = i + 1;
        }
        regs
    }

    pub fn set_pc(&mut self, value: Word)
        requires
            old(self).wf(),
        ensures
            updated_slot(*old(self), *final(self), 15, value),
            final(self).cpsr_of() == old(self).cpsr_of(),
    {
        self.set_register(15, value);
    }

    pub fn get_pc(&self) -> (r: Word)
        requires
            self.wf(),
        ensures
            r == self.slot(15),
    {
        self.get_register(15)
    }

    /// The address of the instruction now executing: the raw program counter
    /// sits two instructions ahead of it.
    pub fn get_pc_current_address(&self) -> (r: Word)
        requires
            self.wf(),
        ensures
            r == wsub(self.slot(15), 8),
    {
        crate::bits::exec_wsub(self.get_pc(), 8)
    }

    /// Advances the program counter by one instruction width.
    pub fn inc_pc(&mut self)
        requires
            old(self).wf(),
        ensures
            updated_slot(*old(self), *final(self), 15, wadd(old(self).slot(15), 4)),
            final(self).cpsr_of() == old(self).cpsr_of(),
    {
        let next = crate::bits::exec_wadd(self.get_pc(), 4);
        self.set_register(15, next);
    }

    /// Backs the program counter up by one instruction width.
    pub fn dec_pc(&mut self)
        requires
            old(self).wf(),
        ensures
            updated_slot(*old(self), *final(self), 15, wsub(old(self).slot(15), 4)),
            final(self).cpsr_of() == old(self).cpsr_of(),
    {
        let prev = crate::bits::exec_wsub(self.get_pc(), 4);
        self.set_register(15, prev);
    }

    pub fn get_cpsr(&self) -> (r: Word)
        requires
            self.wf(),
        ensures
            r == self.cpsr_of(),
    {
        self.read_slot(16)
    }

    pub fn set_cpsr(&mut self, value: Word)
        requires
            old(self).wf(),
        ensures
            updated_slot(*old(self), *final(self), 16, value),
    {
        self.write_slot(16, value);
    }

    /// Forces one CPSR bit.
    pub fn set_cpsr_flag(&mut self, bit: u8, flag: bool)
        requires
            old(self).wf(),
            bit <= 31,
        ensures
            updated_slot(*old(self), *final(self), 16,
                set_bit32(old(self).cpsr_of(), bit as nat, flag)),
            bit >= 5 ==> final(self).mode_bits_of() == old(self).mode_bits_of(),
    {
        proof {
            if bit >= 5 {
                crate::bits::lemma_set_bit_mod32(self.cpsr_of(), bit as nat, flag);
            }
        }
        let w = self.read_slot(16);
        let p = pow2u32(bit as u32);
        let cur = (w / p) % 2;
        let w2: Word = if flag && cur == 0 {
            proof {
                lemma_set_bit_fits(w, bit as nat);
            }
            w + p
        } else if !flag && cur == 1 {
            proof {
                assert(w >= p) by (nonlinear_arith)
                    requires p > 0, (w as int / p as int) % 2 == 1;
            }
            w - p
        } else {
            w
        };
        self.write_slot(16, w2);
    }

    pub fn get_cpsr_flag(&self, bit: u8) -> (r: bool)
        requires
            self.wf(),
            bit <= 31,
        ensures
            r == self.flag_of(bit as nat),
    {
        let w = self.read_slot(16);
        (w / pow2u32(bit as u32)) % 2 == 1
    }

    /// The current mode, when the mode bits hold a defined pattern.
    pub fn get_cpsr_mode(&self) -> (r: Option<Mode>)
        requires
            self.wf(),
        ensures
            r == spec_mode_of_bits(self.mode_bits_of()),
    {
        let cpsr = self.read_slot(16);
        mode_of_bits(cpsr % 32)
    }

    /// Rewrites only the five mode bits of the CPSR.
    pub fn set_cpsr_mode(&mut self, mode: Mode)
        requires
            old(self).wf(),
        ensures
            updated_slot(*old(self), *final(self), 16,
                with_mode_bits(old(self).cpsr_of(), spec_mode_bits(mode))),
            final(self).mode_bits_of() == spec_mode_bits(mode),
    {
        let c = self.read_slot(16);
        let mb = mode_bits(mode);
        proof {
            lemma_with_mode_bits(c, spec_mode_bits(mode));
        }
        let c2 = c - c % 32 + mb;
        self.write_slot(16, c2);
    }

    /// Clears the four condition flags.
    pub fn clear_nzcv(&mut self)
        requires
            old(self).wf(),
        ensures
            updated_slot(*old(self), *final(self), 16, (old(self).cpsr_of() % 0x10000000) as Word),
            !final(self).n_of() && !final(self).z_of() && !final(self).c_of() && !final(
                self).v_of(),
    {
        let c = self.read_slot(16);
        self.write_slot(16, c % 0x10000000);
        proof {
            lemma_low_flags_clear(c);
        }
    }

    pub fn get_n_flag(&self) -> (r: bool)
        requires
            self.wf(),
        ensures
            r == self.n_of(),
    {
        self.get_cpsr_flag(31)
    }

    pub fn set_n_flag(&mut self, flag: bool)
        requires
            old(self).wf(),
        ensures
            updated_slot(*old(self), *final(self), 16, set_bit32(old(self).cpsr_of(), 31, flag)),
            final(self).mode_bits_of() == old(self).mode_bits_of(),
    {
        self.set_cpsr_flag(31, flag);
    }

    pub fn get_z_flag(&self) -> (r: bool)
        requires
            self.wf(),
        ensures
            r == self.z_of(),
    {
        self.get_cpsr_flag(30)
    }

    pub fn set_z_flag(&mut self, flag: bool)
        requires
            old(self).wf(),
        ensures
            updated_slot(*old(self), *final(self), 16, set_bit32(old(self).cpsr_of(), 30, flag)),
            final(self).mode_bits_of() == old(self).mode_bits_of(),
    {
        self.set_cpsr_flag(30, flag);
    }

    pub fn get_c_flag(&self) -> (r: bool)
        requires
            self.wf(),
        ensures
            r == self.c_of(),
    {
        self.get_cpsr_flag(29)
    }

    pub fn set_c_flag(&mut self, flag: bool)
        requires
            old(self).wf(),
        ensures
            updated_slot(*old(self), *final(self), 16, set_bit32(old(self).cpsr_of(), 29, flag)),
            final(self).mode_bits_of() == old(self).mode_bits_of(),
    {
        self.set_cpsr_flag(29, flag);
    }

    pub fn get_v_flag(&self) -> (r: bool)
        requires
            self.wf(),
        ensures
            r == self.v_of(),
    {
        self.get_cpsr_flag(28)
    }

    pub fn set_v_flag(&mut self, flag: bool)
        requires
            old(self).wf(),
        ensures
            updated_slot(*old(self), *final(self), 16, set_bit32(old(self).cpsr_of(), 28, flag)),
            final(self).mode_bits_of() == old(self).mode_bits_of(),
    {
        self.set_cpsr_flag(28, flag);
    }

    pub fn get_i_flag(&self) -> (r: bool)
        requires
            self.wf(),
        ensures
            r == self.i_of(),
    {
        self.get_cpsr_flag(7)
    }

    pub fn set_i_flag(&mut self, flag: bool)
        requires
            old(self).wf(),
        ensures
            updated_slot(*old(self), *final(self), 16, set_bit32(old(self).cpsr_of(), 7, flag)),
            final(self).mode_bits_of() == old(self).mode_bits_of(),
    {
        self.set_cpsr_flag(7, flag);
    }

    pub fn get_t_flag(&self) -> (r: bool)
        requires
            self.wf(),
        ensures
            r == self.t_of(),
    {
        self.get_cpsr_flag(5)
    }

    pub fn set_t_flag(&mut self, flag: bool)
        requires
            old(self).wf(),
        ensures
            updated_slot(*old(self), *final(self), 16, set_bit32(old(self).cpsr_of(), 5, flag)),
            final(self).mode_bits_of() == old(self).mode_bits_of(),
    {
        self.set_cpsr_flag(5, flag);
    }

    /// The raw byte of the backing store that closes the CPSR word.
    pub fn get_cpsr_control_byte(&self) -> (r: Byte)
        requires
            self.wf(),
        ensures
            r == self.memory_array@[CPSR_ADDR + 3],
    {
        self.read_byte(CPSR_ADDR + 3)
    }

    /// The saved status register of the current mode's bank.
    pub fn get_spsr(&self) -> (r: Word)
        requires
            self.wf(),
            self.has_spsr_of(),
        ensures
            r == self.spsr_of(),
    {
        let cpsr = self.read_slot(16);
        if cpsr % 32 == MODE_BITS_SVC {
            self.read_slot(19)
        } else {
            self.read_slot(22)
        }
    }

    pub fn set_spsr(&mut self, value: Word)
        requires
            old(self).wf(),
            old(self).has_spsr_of(),
        ensures
            updated_slot(*old(self), *final(self), old(self).spsr_slot_of(), value),
            final(self).cpsr_of() == old(self).cpsr_of(),
    {
        let cpsr = self.read_slot(16);
        if cpsr % 32 == MODE_BITS_SVC {
            self.write_slot(19, value);
        } else {
            self.write_slot(22, value);
        }
    }

    /// Only Supervisor and IRQ mode carry a banked SPSR.
    pub fn current_mode_has_spsr(&self) -> (r: bool)
        requires
            self.wf(),
        ensures
            r == self.has_spsr_of(),
    {
        let cpsr = self.read_slot(16);
        cpsr % 32 == MODE_BITS_SVC || cpsr % 32 == MODE_BITS_IRQ
    }

    /// The four condition flags packed as `n z c v`, `n` highest.
    pub fn get_nzcv(&self) -> (r: Byte)
        requires
            self.wf(),
        ensures
            r == (if self.n_of() { 8 as Byte } else { 0 as Byte })
                + (if self.z_of() { 4 as Byte } else { 0 as Byte })
                + (if self.c_of() { 2 as Byte } else { 0 as Byte })
                + (if self.v_of() { 1 as Byte } else { 0 as Byte }),
    {
        let n: Byte = if self.get_n_flag() { 1 } else { 0 };
        let z: Byte = if self.get_z_flag() { 1 } else { 0 };
        let c: Byte = if self.get_c_flag() { 1 } else { 0 };
        let v: Byte = if self.get_v_flag() { 1 } else { 0 };
        n * 8 + z * 4 + c * 2 + v
    }

    pub fn get_nzcv_tuple(&self) -> (r: (bool, bool, bool, bool))
        requires
            self.wf(),
        ensures
            r == (self.n_of(), self.z_of(), self.c_of(), self.v_of()),
    {
        (self.get_n_flag(), self.get_z_flag(), self.get_c_flag(), self.get_v_flag())
    }
}

impl Default for Registers {
    /// A zeroed register file, read and written little-endian.
    fn default() -> (r: Self)
        ensures
            r.wf(),
            r.endianness == Endianness::Little,
            r.memory_array@ == Seq::new((NUM_REGISTERS * REGISTER_BYTES) as nat, |i: int| 0u8),
    {
        Registers::new(Endianness::Little)
    }
}

impl Default for RAM {
    /// An empty big-endian RAM of the default size.
    fn default() -> (r: Self)
        ensures
            r.wf(),
            r.size == DEFAULT_MEMORY_SIZE,
            r.endianness == Endianness::Big,
            r.checksum == 0,
            !r.loaded,
            r.display_offset == 0,
            r.memory_array@ == Seq::new(DEFAULT_MEMORY_SIZE as nat, |i: int| 0u8),
    {
        RAM::new(DEFAULT_MEMORY_SIZE, Endianness::Big)
    }
}

/// A CPSR word below `2^28` has all four condition flags clear.
proof fn lemma_low_flags_clear(c: Word)
    ensures
        bit_get((c % 0x10000000) as Word, 31) == 0,
        bit_get((c % 0x10000000) as Word, 30) == 0,
        bit_get((c % 0x10000000) as Word, 29) == 0,
        bit_get((c % 0x10000000) as Word, 28) == 0,
{
    let w = (c % 0x10000000) as Word;
    vstd::arithmetic::power2::lemma2_to64();
    vstd::arithmetic::div_mod::lemma_basic_div(w as int, pow2(31) as int);
    vstd::arithmetic::div_mod::lemma_basic_div(w as int, pow2(30) as int);
    vstd::arithmetic::div_mod::lemma_basic_div(w as int, pow2(29) as int);
    vstd::arithmetic::div_mod::lemma_basic_div(w as int, pow2(28) as int);
}

/// Banked-register law: a write to r13 made in Supervisor mode is invisible
/// from System mode and reappears unchanged after switching back, and the
/// System-mode r13 is untouched by the Supervisor-mode write.
pub proof fn lemma_banked_r13_round_trip(
    r0: Registers, r1: Registers, r2: Registers, r3: Registers, v: Word)
    requires
        r0.wf(),
        r0.mode_bits_of() == MODE_BITS_SVC,
        updated_slot(r0, r1, bank_index(r0.mode_bits_of(), 13), v),
        updated_slot(r1, r2, 16, with_mode_bits(r1.cpsr_of(), spec_mode_bits(Mode::SYS))),
        updated_slot(r2, r3, 16, with_mode_bits(r2.cpsr_of(), spec_mode_bits(Mode::SVC))),
    ensures
        r2.reg_of(13) == r0.slot(13),
        r3.reg_of(13) == v,
{
    lemma_with_mode_bits(r1.cpsr_of(), spec_mode_bits(Mode::SYS));
    lemma_with_mode_bits(r2.cpsr_of(), spec_mode_bits(Mode::SVC));
    assert(r2.mode_bits_of() == MODE_BITS_SYS);
    assert(r3.mode_bits_of() == MODE_BITS_SVC);
    assert(r2.slot(13) == r0.slot(13));
    assert(r3.slot(17) == v);
}

/// The in-place bit-range extraction: the value of bits `[s..e]` of `w` with
/// all other bits cleared.
pub open spec fn extract_bits_spec(w: Word, s: nat, e: nat) -> Word
    recommends
        s <= e < 32,
{
    ((w as nat % pow2(e + 1)) - (w as nat % pow2(s))) as Word
}

/// The low remainder never exceeds the high remainder, so the extraction is
/// a well-defined word.
pub proof fn lemma_extract_bits_bound(w: Word, s: nat, e: nat)
    requires
        s <= e < 32,
    ensures
        w as nat % pow2(s) <= w as nat % pow2(e + 1) < 0x100000000,
{
    let a = pow2((e + 1) as nat) as int;
    let b = pow2(s) as int;
    vstd::arithmetic::power2::lemma_pow2_pos(s);
    vstd::arithmetic::power2::lemma_pow2_pos((e + 1) as nat);
    vstd::arithmetic::power2::lemma_pow2_adds(s, (e + 1 - s) as nat);
    let c = pow2((e + 1 - s) as nat) as int;
    vstd::arithmetic::power2::lemma_pow2_pos((e + 1 - s) as nat);
    vstd::arithmetic::div_mod::lemma_mod_breakdown(w as int, b, c);
    vstd::arithmetic::div_mod::lemma_mod_division_less_than_divisor(w as int, a);
    vstd::arithmetic::div_mod::lemma_mod_division_less_than_divisor(w as int, b);
    assert(b * ((w as int / b) % c) >= 0) by (nonlinear_arith)
        requires b > 0, (w as int / b) % c >= 0;
    if e == 31 {
        vstd::arithmetic::power2::lemma2_to64();
        vstd::arithmetic::div_mod::lemma_small_mod(w as nat, pow2(32));
    } else {
        vstd::arithmetic::power2::lemma_pow2_strictly_increases((e + 1) as nat, 32);
        vstd::arithmetic::power2::lemma2_to64();
    }
}

} // verus!
