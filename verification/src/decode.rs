//! The instruction decoder: a pure function from a raw 32-bit word to an
//! instruction record, matching fixed bit templates most-specific first and
//! falling back to a no-op when nothing matches. Bit fields are read
//! arithmetically: the field of width `n` at bit `lo` is `(w / 2^lo) % 2^n`.
use vstd::prelude::*;

verus! {

use crate::bits::{Word, pow2u32};
use crate::instruction::{
    Instruction,
    spec_instr_nop, instr_nop,
    spec_instr_mrs, instr_mrs,
    spec_instr_msr_imm, instr_msr_imm,
    spec_instr_msr_reg, instr_msr_reg,
    spec_instr_bx, instr_bx,
    spec_instr_data_reg_imm, instr_data_reg_imm,
    spec_instr_data_reg_reg, instr_data_reg_reg,
    spec_instr_data_imm, instr_data_imm,
    spec_instr_ldrstr_shifted_reg, instr_ldrstr_shifted_reg_pre, instr_ldrstr_shifted_reg_post,
    spec_instr_ldrstr_imm, instr_ldrstr_imm_pre, instr_ldrstr_imm_post,
    spec_instr_ldrhstrh_imm, instr_ldrhstrh_imm_pre, instr_ldrhstrh_imm_post,
    spec_instr_ldrhstrh_reg, instr_ldrhstrh_reg_pre, instr_ldrhstrh_reg_post,
    spec_instr_b, instr_b,
    spec_instr_ldmstm, instr_ldmstm,
    spec_instr_mul, instr_mul,
    spec_instr_swi, instr_swi,
};
use vstd::arithmetic::power2::{pow2, lemma2_to64};

/// The `size`-bit field of `w` starting at bit `lo`.
pub open spec fn field(w: Word, lo: nat, size: nat) -> Word
    recommends
        lo + size <= 32,
{
    (((w as nat) / pow2(lo)) % pow2(size)) as Word
}

/// Executable field extraction.
pub fn efield(w: Word, lo: Word, size: Word) -> (r: Word)
    requires
        lo < 32,
        1 <= size < 32,
        lo + size <= 32,
    ensures
        r == field(w, lo as nat, size as nat),
        r < pow2(size as nat),
{
    let p = pow2u32(lo);
    let q = pow2u32(size);
    (w / p) % q
}

/// Raw word of the canonical no-op instruction.
pub const NOP_WORD: Word = 0xE1A00000;

/// The instruction a raw word decodes to. Templates are tried
/// most-specific first; a condition nibble of 15 or an unmatched word
/// falls back to the no-op.
pub open spec fn spec_decode(w: Word) -> Instruction {
    let cond = field(w, 28, 4);
    if w == NOP_WORD {
        spec_instr_nop()
    } else if cond == 15 {
        spec_instr_nop()
    } else if field(w, 23, 5) == 2 && field(w, 20, 2) == 0 && field(w, 16, 4) == 15
        && field(w, 0, 12) == 0 {
        spec_instr_mrs(cond, field(w, 22, 1), field(w, 12, 4))
    } else if field(w, 23, 5) == 6 && field(w, 20, 2) == 2 && field(w, 12, 4) == 15 {
        spec_instr_msr_imm(cond, field(w, 22, 1), field(w, 16, 4), field(w, 8, 4),
            field(w, 0, 8))
    } else if field(w, 23, 5) == 2 && field(w, 20, 2) == 2 && field(w, 12, 4) == 15
        && field(w, 4, 8) == 0 {
        spec_instr_msr_reg(cond, field(w, 22, 1), field(w, 16, 4), field(w, 0, 4))
    } else if field(w, 20, 8) == 0x12 && field(w, 8, 12) == 0xFFF && field(w, 4, 4) == 1 {
        spec_instr_bx(cond, field(w, 0, 4))
    } else if field(w, 25, 3) == 0 && field(w, 4, 1) == 0 {
        spec_instr_data_reg_imm(cond, field(w, 21, 4), field(w, 20, 1), field(w, 16, 4),
            field(w, 12, 4), field(w, 7, 5), field(w, 5, 2), field(w, 0, 4))
    } else if field(w, 25, 3) == 0 && field(w, 7, 1) == 0 && field(w, 4, 1) == 1 {
        spec_instr_data_reg_reg(cond, field(w, 21, 4), field(w, 20, 1), field(w, 16, 4),
            field(w, 12, 4), field(w, 8, 4), field(w, 5, 2), field(w, 0, 4))
    } else if field(w, 25, 3) == 1 {
        spec_instr_data_imm(cond, field(w, 21, 4), field(w, 20, 1), field(w, 16, 4),
            field(w, 12, 4), field(w, 8, 4), field(w, 0, 8))
    } else if field(w, 25, 3) == 3 && field(w, 24, 1) == 1 && field(w, 4, 1) == 0 {
        spec_instr_ldrstr_shifted_reg(crate::cpu_enum::InstrType::LDRSTRShiftRegPre, true,
            cond, field(w, 23, 1), field(w, 22, 1), field(w, 21, 1), field(w, 20, 1),
            field(w, 16, 4), field(w, 12, 4), field(w, 7, 5), field(w, 5, 2), field(w, 0, 4))
    } else if field(w, 25, 3) == 3 && field(w, 24, 1) == 0 && field(w, 4, 1) == 0 {
        spec_instr_ldrstr_shifted_reg(crate::cpu_enum::InstrType::LDRSTRShiftRegPost, false,
            cond, field(w, 23, 1), field(w, 22, 1), field(w, 21, 1), field(w, 20, 1),
            field(w, 16, 4), field(w, 12, 4), field(w, 7, 5), field(w, 5, 2), field(w, 0, 4))
    } else if field(w, 25, 3) == 2 && field(w, 24, 1) == 1 {
        spec_instr_ldrstr_imm(crate::cpu_enum::InstrType::LDRSTRImmPre, true, cond,
            field(w, 23, 1), field(w, 22, 1), field(w, 21, 1), field(w, 20, 1),
            field(w, 16, 4), field(w, 12, 4), field(w, 0, 12))
    } else if field(w, 25, 3) == 2 && field(w, 24, 1) == 0 {
        spec_instr_ldrstr_imm(crate::cpu_enum::InstrType::LDRSTRImmPost, false, cond,
            field(w, 23, 1), field(w, 22, 1), field(w, 21, 1), field(w, 20, 1),
            field(w, 16, 4), field(w, 12, 4), field(w, 0, 12))
    } else if field(w, 25, 3) == 0 && field(w, 22, 1) == 1 && field(w, 7, 1) == 1
        && field(w, 4, 1) == 1 && field(w, 5, 2) != 0 {
        if field(w, 24, 1) == 1 {
            spec_instr_ldrhstrh_imm(crate::cpu_enum::InstrType::LDRHSTRHImmPre, true, cond,
                field(w, 23, 1), field(w, 21, 1), field(w, 20, 1), field(w, 16, 4),
                field(w, 12, 4), field(w, 8, 4),
                (field(w, 20, 1) * 4 + field(w, 5, 2)) as Word, field(w, 0, 4))
        } else {
            spec_instr_ldrhstrh_imm(crate::cpu_enum::InstrType::LDRHSTRHImmPost, false, cond,
                field(w, 23, 1), field(w, 21, 1), field(w, 20, 1), field(w, 16, 4),
                field(w, 12, 4), field(w, 8, 4),
                (field(w, 20, 1) * 4 + field(w, 5, 2)) as Word, field(w, 0, 4))
        }
    } else if field(w, 25, 3) == 0 && field(w, 22, 1) == 0 && field(w, 8, 4) == 0
        && field(w, 7, 1) == 1 && field(w, 4, 1) == 1 && field(w, 5, 2) != 0 {
        if field(w, 24, 1) == 1 {
            spec_instr_ldrhstrh_reg(crate::cpu_enum::InstrType::LDRHSTRHRegPre, true, cond,
                field(w, 23, 1), field(w, 21, 1), field(w, 20, 1), field(w, 16, 4),
                field(w, 12, 4), (field(w, 20, 1) * 4 + field(w, 5, 2)) as Word,
                field(w, 0, 4))
        } else {
            spec_instr_ldrhstrh_reg(crate::cpu_enum::InstrType::LDRHSTRHRegPost, false, cond,
                field(w, 23, 1), field(w, 21, 1), field(w, 20, 1), field(w, 16, 4),
                field(w, 12, 4), (field(w, 20, 1) * 4 + field(w, 5, 2)) as Word,
                field(w, 0, 4))
        }
    } else if field(w, 25, 3) == 5 {
        spec_instr_b(cond, field(w, 24, 1), field(w, 0, 24))
    } else if field(w, 25, 3) == 4 {
        spec_instr_ldmstm(cond, field(w, 23, 2), field(w, 22, 1), field(w, 21, 1),
            field(w, 20, 1), field(w, 16, 4), field(w, 0, 16))
    } else if field(w, 21, 7) == 0 && field(w, 12, 4) == 0 && field(w, 4, 4) == 9 {
        spec_instr_mul(cond, field(w, 20, 1), field(w, 16, 4), field(w, 8, 4), field(w, 0, 4))
    } else if field(w, 24, 4) == 15 {
        spec_instr_swi(cond, field(w, 0, 24))
    } else {
        spec_instr_nop()
    }
}

/// Decodes one raw instruction word. Stateless and side-effect-free.
pub fn decode_word(w: Word) -> (r: Instruction)
    ensures
        r == spec_decode(w),
{
    proof {
        lemma2_to64();
    }
    let cond = efield(w, 28, 4);
    if w == NOP_WORD {
        instr_nop()
    } else if cond == 15 {
        instr_nop()
    } else if efield(w, 23, 5) == 2 && efield(w, 20, 2) == 0 && efield(w, 16, 4) == 15
        && efield(w, 0, 12) == 0 {
        instr_mrs(cond, efield(w, 22, 1), efield(w, 12, 4))
    } else if efield(w, 23, 5) == 6 && efield(w, 20, 2) == 2 && efield(w, 12, 4) == 15 {
        instr_msr_imm(cond, efield(w, 22, 1), efield(w, 16, 4), efield(w, 8, 4),
            efield(w, 0, 8))
    } else if efield(w, 23, 5) == 2 && efield(w, 20, 2) == 2 && efield(w, 12, 4) == 15
        && efield(w, 4, 8) == 0 {
        instr_msr_reg(cond, efield(w, 22, 1), efield(w, 16, 4), efield(w, 0, 4))
    } else if efield(w, 20, 8) == 0x12 && efield(w, 8, 12) == 0xFFF && efield(w, 4, 4) == 1 {
        instr_bx(cond, efield(w, 0, 4))
    } else if efield(w, 25, 3) == 0 && efield(w, 4, 1) == 0 {
        instr_data_reg_imm(cond, efield(w, 21, 4), efield(w, 20, 1), efield(w, 16, 4),
            efield(w, 12, 4), efield(w, 7, 5), efield(w, 5, 2), efield(w, 0, 4))
    } else if efield(w, 25, 3) == 0 && efield(w, 7, 1) == 0 && efield(w, 4, 1) == 1 {
        instr_data_reg_reg(cond, efield(w, 21, 4), efield(w, 20, 1), efield(w, 16, 4),
            efield(w, 12, 4), efield(w, 8, 4), efield(w, 5, 2), efield(w, 0, 4))
    } else if efield(w, 25, 3) == 1 {
        instr_data_imm(cond, efield(w, 21, 4), efield(w, 20, 1), efield(w, 16, 4),
            efield(w, 12, 4), efield(w, 8, 4), efield(w, 0, 8))
    } else if efield(w, 25, 3) == 3 && efield(w, 24, 1) == 1 && efield(w, 4, 1) == 0 {
        instr_ldrstr_shifted_reg_pre(cond, efield(w, 23, 1), efield(w, 22, 1),
            efield(w, 21, 1), efield(w, 20, 1), efield(w, 16, 4), efield(w, 12, 4),
            efield(w, 7, 5), efield(w, 5, 2), efield(w, 0, 4))
    } else if efield(w, 25, 3) == 3 && efield(w, 24, 1) == 0 && efield(w, 4, 1) == 0 {
        instr_ldrstr_shifted_reg_post(cond, efield(w, 23, 1), efield(w, 22, 1),
            efield(w, 21, 1), efield(w, 20, 1), efield(w, 16, 4), efield(w, 12, 4),
            efield(w, 7, 5), efield(w, 5, 2), efield(w, 0, 4))
    } else if efield(w, 25, 3) == 2 && efield(w, 24, 1) == 1 {
        instr_ldrstr_imm_pre(cond, efield(w, 23, 1), efield(w, 22, 1), efield(w, 21, 1),
            efield(w, 20, 1), efield(w, 16, 4), efield(w, 12, 4), efield(w, 0, 12))
    } else if efield(w, 25, 3) == 2 && efield(w, 24, 1) == 0 {
        instr_ldrstr_imm_post(cond, efield(w, 23, 1), efield(w, 22, 1), efield(w, 21, 1),
            efield(w, 20, 1), efield(w, 16, 4), efield(w, 12, 4), efield(w, 0, 12))
    } else if efield(w, 25, 3) == 0 && efield(w, 22, 1) == 1 && efield(w, 7, 1) == 1
        && efield(w, 4, 1) == 1 && efield(w, 5, 2) != 0 {
        let lsh = efield(w, 20, 1) * 4 + efield(w, 5, 2);
        if efield(w, 24, 1) == 1 {
            instr_ldrhstrh_imm_pre(cond, efield(w, 23, 1), efield(w, 21, 1), efield(w, 20, 1),
                efield(w, 16, 4), efield(w, 12, 4), efield(w, 8, 4), lsh, efield(w, 0, 4))
        } else {
            instr_ldrhstrh_imm_post(cond, efield(w, 23, 1), efield(w, 21, 1),
                efield(w, 20, 1), efield(w, 16, 4), efield(w, 12, 4), efield(w, 8, 4), lsh,
                efield(w, 0, 4))
        }
    } else if efield(w, 25, 3) == 0 && efield(w, 22, 1) == 0 && efield(w, 8, 4) == 0
        && efield(w, 7, 1) == 1 && efield(w, 4, 1) == 1 && efield(w, 5, 2) != 0 {
        let lsh = efield(w, 20, 1) * 4 + efield(w, 5, 2);
        if efield(w, 24, 1) == 1 {
            instr_ldrhstrh_reg_pre(cond, efield(w, 23, 1), efield(w, 21, 1), efield(w, 20, 1),
                efield(w, 16, 4), efield(w, 12, 4), lsh, efield(w, 0, 4))
        } else {
            instr_ldrhstrh_reg_post(cond, efield(w, 23, 1), efield(w, 21, 1),
                efield(w, 20, 1), efield(w, 16, 4), efield(w, 12, 4), lsh, efield(w, 0, 4))
        }
    } else if efield(w, 25, 3) == 5 {
        instr_b(cond, efield(w, 24, 1), efield(w, 0, 24))
    } else if efield(w, 25, 3) == 4 {
        instr_ldmstm(cond, efield(w, 23, 2), efield(w, 22, 1), efield(w, 21, 1),
            efield(w, 20, 1), efield(w, 16, 4), efield(w, 0, 16))
    } else if efield(w, 21, 7) == 0 && efield(w, 12, 4) == 0 && efield(w, 4, 4) == 9 {
        instr_mul(cond, efield(w, 20, 1), efield(w, 16, 4), efield(w, 8, 4), efield(w, 0, 4))
    } else if efield(w, 24, 4) == 15 {
        instr_swi(cond, efield(w, 0, 24))
    } else {
        instr_nop()
    }
}

/// A bit field is bounded by its width.
pub proof fn lemma_field_bound(w: Word, lo: nat, size: nat)
    requires
        lo + size <= 32,
    ensures
        field(w, lo, size) < pow2(size),
{
    vstd::arithmetic::power2::lemma_pow2_pos(size);
    vstd::arithmetic::div_mod::lemma_mod_division_less_than_divisor(
        (w as nat / pow2(lo)) as int, pow2(size) as int);
}

/// Every decoded instruction carries the fields its shape requires, within
/// their architectural bounds.
#[verifier::rlimit(100)]
pub proof fn lemma_decode_wf(w: Word)
    ensures
        crate::execute::instr_wf(spec_decode(w)),
{
    lemma2_to64();
    lemma_field_bound(w, 28, 4);
    lemma_field_bound(w, 25, 3);
    lemma_field_bound(w, 24, 4);
    lemma_field_bound(w, 24, 1);
    lemma_field_bound(w, 23, 5);
    lemma_field_bound(w, 23, 2);
    lemma_field_bound(w, 23, 1);
    lemma_field_bound(w, 22, 1);
    lemma_field_bound(w, 21, 7);
    lemma_field_bound(w, 21, 4);
    lemma_field_bound(w, 21, 1);
    lemma_field_bound(w, 20, 8);
    lemma_field_bound(w, 20, 2);
    lemma_field_bound(w, 20, 1);
    lemma_field_bound(w, 16, 7);
    lemma_field_bound(w, 16, 4);
    lemma_field_bound(w, 12, 4);
    lemma_field_bound(w, 8, 12);
    lemma_field_bound(w, 8, 4);
    lemma_field_bound(w, 7, 5);
    lemma_field_bound(w, 7, 1);
    lemma_field_bound(w, 5, 2);
    lemma_field_bound(w, 4, 8);
    lemma_field_bound(w, 4, 4);
    lemma_field_bound(w, 4, 1);
    lemma_field_bound(w, 0, 24);
    lemma_field_bound(w, 0, 16);
    lemma_field_bound(w, 0, 12);
    lemma_field_bound(w, 0, 8);
    lemma_field_bound(w, 0, 4);
}

} // verus!
