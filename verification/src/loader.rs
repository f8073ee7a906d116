//! The verified half of program loading: writing a program-header segment's
//! bytes into RAM (zero-filling any declared size beyond the bytes on hand)
//! and putting the register file into its initial state. Reading and
//! parsing the binary itself is the hosting shell's job.
use vstd::prelude::*;

verus! {

use crate::bits::{Byte, Word, AddressSize, wadd};
use crate::cpu::{bytes_written_at};
use crate::cpu_enum::{Mode, MODE_BITS_SYS};
use crate::memory::{RAM, Registers, with_mode_bits};

/// The initial stack pointer a freshly loaded program starts with.
pub const STACK_INIT: Word = 0x7000;

/// Status of a load attempt, mirrored to the hosting shell.
pub struct ELFPayload {
    pub loaded: bool,
    pub error: String,
    pub filename: String,
}

impl Default for ELFPayload {
    fn default() -> (r: Self)
        ensures
            !r.loaded,
            r.error@ == Seq::<char>::empty(),
            r.filename@ == Seq::<char>::empty(),
    {
        ELFPayload { loaded: false, error: String::new(), filename: String::new() }
    }
}

/// The declared segment contents: the bytes on hand, zero-filled out to the
/// declared size.
pub open spec fn segment_padded(data: Seq<Byte>, memsz: Word) -> Seq<Byte> {
    Seq::new(memsz as nat, |i: int| if i < data.len() {
        data[i]
    } else {
        0 as Byte
    })
}

/// Writes one program-header segment into RAM starting at its physical
/// address, zero-filling any declared size in excess of the bytes on hand.
pub fn load_segment(ram: &mut RAM, paddr: AddressSize, memsz: Word, data: &Vec<Byte>)
    requires
        old(ram).wf(),
    ensures
        final(ram).wf(),
        final(ram).size == old(ram).size,
        final(ram).endianness == old(ram).endianness,
        final(ram).loaded == old(ram).loaded,
        final(ram).display_offset == old(ram).display_offset,
        final(ram).memory_array@ == bytes_written_at(old(ram).memory_array@, paddr,
            segment_padded(data@, memsz), memsz as int),
        final(ram).checksum == crate::memory::checksum_of(final(ram).memory_array@)
            || *final(ram) == *old(ram),
{
    let mut i: Word = 0;
    while i < memsz
        invariant
            i <= memsz,
            ram.wf(),
            ram.size == old(ram).size,
            ram.endianness == old(ram).endianness,
            ram.loaded == old(ram).loaded,
            ram.display_offset == old(ram).display_offset,
            ram.memory_array@ == bytes_written_at(old(ram).memory_array@, paddr,
                segment_padded(data@, memsz), i as int),
            ram.checksum == crate::memory::checksum_of(ram.memory_array@)
                || *ram == *old(ram),
        decreases memsz - i,
    {
        let a = crate::bits::exec_wadd(paddr, i);
        let b: Byte = if (i as usize) < data.len() {
            data[i as usize]
        } else {
            0
        };
        proof {
            assert(segment_padded(data@, memsz)[i as int] == b);
            crate::cpu::lemma_bytes_written_len(old(ram).memory_array@, paddr,
                segment_padded(data@, memsz), i as int);
        }
        ram.write_byte(a, b);
        i = i + 1;
    }
}

/// Puts the register file into the initial state a loaded program starts
/// from: System mode selected, condition flags clear, the program counter
/// at the entry point plus the pipeline offset, and the stack pointer at
/// its fixed high address (in the System-mode slot).
pub fn init_machine(regs: &mut Registers, entry: Word)
    requires
        old(regs).wf(),
    ensures
        final(regs).wf(),
        final(regs).size == old(regs).size,
        final(regs).endianness == old(regs).endianness,
        final(regs).slot(15) == wadd(entry, 8),
        final(regs).slot(13) == STACK_INIT,
        final(regs).reg_of(13) == STACK_INIT,
        final(regs).mode_bits_of() == MODE_BITS_SYS,
        !final(regs).n_of() && !final(regs).z_of() && !final(regs).c_of()
            && !final(regs).v_of(),
{
    regs.set_cpsr_mode(Mode::SYS);
    let ghost c1 = regs.cpsr_of();
    regs.clear_nzcv();
    proof {
        lemma_nzcv_clear_keeps_mode(c1);
        lemma_low_word_flags_clear((c1 % 0x10000000) as Word);
    }
    regs.set_pc(crate::bits::exec_wadd(entry, 8));
    regs.set_register(13, STACK_INIT);
}

/// Clearing the condition flags keeps the five mode bits.
proof fn lemma_nzcv_clear_keeps_mode(c1: Word)
    ensures
        (c1 % 0x10000000) % 32 == c1 % 32,
{
    vstd::arithmetic::div_mod::lemma_mod_mod(c1 as int, 32, 0x800000);
}

/// A CPSR word below `2^28` has all four condition flags clear.
proof fn lemma_low_word_flags_clear(w: Word)
    requires
        w < 0x10000000,
    ensures
        crate::bits::bit_get(w, 31) == 0,
        crate::bits::bit_get(w, 30) == 0,
        crate::bits::bit_get(w, 29) == 0,
        crate::bits::bit_get(w, 28) == 0,
{
    vstd::arithmetic::power2::lemma2_to64();
    vstd::arithmetic::div_mod::lemma_basic_div(w as int,
        vstd::arithmetic::power2::pow2(31) as int);
    vstd::arithmetic::div_mod::lemma_basic_div(w as int,
        vstd::arithmetic::power2::pow2(30) as int);
    vstd::arithmetic::div_mod::lemma_basic_div(w as int,
        vstd::arithmetic::power2::pow2(29) as int);
    vstd::arithmetic::div_mod::lemma_basic_div(w as int,
        vstd::arithmetic::power2::pow2(28) as int);
}

} // verus!
