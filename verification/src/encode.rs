//! Instruction encoders and the decode round trip: for every instruction
//! shape, packing the operand fields into a raw word and decoding it again
//! yields exactly the record the shape's factory would build from those
//! fields. Inputs whose encodings the decoder's earlier, more specific
//! templates claim (the canonical no-op word, the status-register
//! transfers carved out of the flag-setting-free compare opcodes, and
//! branch-exchange) are excluded; the plain register-offset transfer is
//! stated against the zero-shift template that actually claims its words.
use vstd::prelude::*;

verus! {

use crate::bits::Word;
use crate::cpu_enum::InstrType;
use crate::decode::{field, spec_decode, NOP_WORD};
use crate::instruction::{
    spec_instr_data_reg_imm, spec_instr_data_reg_reg, spec_instr_data_imm,
    spec_instr_ldrstr_shifted_reg, spec_instr_ldrstr_imm, spec_instr_ldrhstrh_imm,
    spec_instr_ldrhstrh_reg, spec_instr_b, spec_instr_bx, spec_instr_ldmstm, spec_instr_mul,
    spec_instr_swi, spec_instr_mrs, spec_instr_msr_imm, spec_instr_msr_reg,
};
use vstd::arithmetic::power2::lemma2_to64;

/// Data processing, register operand shifted by an immediate.
pub open spec fn enc_data_reg_imm(cond: Word, opcode: Word, s: Word, rn: Word, rd: Word, imm: Word, st: Word, rm: Word) -> Word {
    (cond * 0x10000000 + opcode * 0x200000 + s * 0x100000 + rn * 0x10000 + rd * 0x1000 + imm * 0x80 + st * 0x20 + rm) as Word
}

/// Law: decoding this shape's encoding recovers the packed fields.
#[verifier::rlimit(100)]
pub proof fn lemma_round_trip_data_reg_imm(cond: Word, opcode: Word, s: Word, rn: Word, rd: Word, imm: Word, st: Word, rm: Word)
    requires
        cond <= 0xe,
        opcode <= 0xf,
        s <= 1,
        rn <= 0xf,
        rd <= 0xf,
        imm <= 0x1f,
        st <= 3,
        rm <= 0xf,
        !(cond == 14 && opcode == 13 && s == 0 && rn == 0 && rd == 0 && imm == 0 && st == 0 && rm == 0),
        !((opcode == 8 || opcode == 10) && s == 0 && rn == 15 && imm == 0 && st == 0 && rm == 0),
        !((opcode == 9 || opcode == 11) && s == 0 && rd == 15 && imm == 0 && st == 0),
    ensures
        spec_decode(enc_data_reg_imm(cond, opcode, s, rn, rd, imm, st, rm)) == spec_instr_data_reg_imm(cond, opcode, s, rn, rd, imm, st, rm),
{
    let w = enc_data_reg_imm(cond, opcode, s, rn, rd, imm, st, rm);
    lemma2_to64();
    assert((w as int / 0x10000000) % 0x10 == cond) by (nonlinear_arith)
        requires w == cond * 0x10000000 + opcode * 0x200000 + s * 0x100000 + rn * 0x10000 + rd * 0x1000 + imm * 0x80 + st * 0x20 + rm, 0 <= cond <= 0xe, 0 <= opcode <= 0xf, 0 <= s <= 1, 0 <= rn <= 0xf, 0 <= rd <= 0xf, 0 <= imm <= 0x1f, 0 <= st <= 3, 0 <= rm <= 0xf;
    assert(field(w, 28, 4) == cond);
    assert((w as int / 0x2000000) % 8 == 0) by (nonlinear_arith)
        requires w == cond * 0x10000000 + opcode * 0x200000 + s * 0x100000 + rn * 0x10000 + rd * 0x1000 + imm * 0x80 + st * 0x20 + rm, 0 <= cond <= 0xe, 0 <= opcode <= 0xf, 0 <= s <= 1, 0 <= rn <= 0xf, 0 <= rd <= 0xf, 0 <= imm <= 0x1f, 0 <= st <= 3, 0 <= rm <= 0xf;
    assert(field(w, 25, 3) == 0);
    assert((w as int / 0x800000) % 0x20 == opcode / 4) by (nonlinear_arith)
        requires w == cond * 0x10000000 + opcode * 0x200000 + s * 0x100000 + rn * 0x10000 + rd * 0x1000 + imm * 0x80 + st * 0x20 + rm, 0 <= cond <= 0xe, 0 <= opcode <= 0xf, 0 <= s <= 1, 0 <= rn <= 0xf, 0 <= rd <= 0xf, 0 <= imm <= 0x1f, 0 <= st <= 3, 0 <= rm <= 0xf;
    assert(field(w, 23, 5) == opcode / 4);
    assert((w as int / 0x100000) % 4 == opcode % 2 * 2 + s) by (nonlinear_arith)
        requires w == cond * 0x10000000 + opcode * 0x200000 + s * 0x100000 + rn * 0x10000 + rd * 0x1000 + imm * 0x80 + st * 0x20 + rm, 0 <= cond <= 0xe, 0 <= opcode <= 0xf, 0 <= s <= 1, 0 <= rn <= 0xf, 0 <= rd <= 0xf, 0 <= imm <= 0x1f, 0 <= st <= 3, 0 <= rm <= 0xf;
    assert(field(w, 20, 2) == opcode % 2 * 2 + s);
    assert((w as int / 0x10000) % 0x10 == rn) by (nonlinear_arith)
        requires w == cond * 0x10000000 + opcode * 0x200000 + s * 0x100000 + rn * 0x10000 + rd * 0x1000 + imm * 0x80 + st * 0x20 + rm, 0 <= cond <= 0xe, 0 <= opcode <= 0xf, 0 <= s <= 1, 0 <= rn <= 0xf, 0 <= rd <= 0xf, 0 <= imm <= 0x1f, 0 <= st <= 3, 0 <= rm <= 0xf;
    assert(field(w, 16, 4) == rn);
    assert((w as int / 1) % 0x1000 == imm * 0x80 + st * 0x20 + rm) by (nonlinear_arith)
        requires w == cond * 0x10000000 + opcode * 0x200000 + s * 0x100000 + rn * 0x10000 + rd * 0x1000 + imm * 0x80 + st * 0x20 + rm, 0 <= cond <= 0xe, 0 <= opcode <= 0xf, 0 <= s <= 1, 0 <= rn <= 0xf, 0 <= rd <= 0xf, 0 <= imm <= 0x1f, 0 <= st <= 3, 0 <= rm <= 0xf;
    assert(field(w, 0, 12) == imm * 0x80 + st * 0x20 + rm);
    assert((w as int / 0x1000) % 0x10 == rd) by (nonlinear_arith)
        requires w == cond * 0x10000000 + opcode * 0x200000 + s * 0x100000 + rn * 0x10000 + rd * 0x1000 + imm * 0x80 + st * 0x20 + rm, 0 <= cond <= 0xe, 0 <= opcode <= 0xf, 0 <= s <= 1, 0 <= rn <= 0xf, 0 <= rd <= 0xf, 0 <= imm <= 0x1f, 0 <= st <= 3, 0 <= rm <= 0xf;
    assert(field(w, 12, 4) == rd);
    assert((w as int / 0x10) % 0x100 == imm * 8 + st * 2) by (nonlinear_arith)
        requires w == cond * 0x10000000 + opcode * 0x200000 + s * 0x100000 + rn * 0x10000 + rd * 0x1000 + imm * 0x80 + st * 0x20 + rm, 0 <= cond <= 0xe, 0 <= opcode <= 0xf, 0 <= s <= 1, 0 <= rn <= 0xf, 0 <= rd <= 0xf, 0 <= imm <= 0x1f, 0 <= st <= 3, 0 <= rm <= 0xf;
    assert(field(w, 4, 8) == imm * 8 + st * 2);
    assert((w as int / 0x100000) % 0x100 == opcode * 2 + s) by (nonlinear_arith)
        requires w == cond * 0x10000000 + opcode * 0x200000 + s * 0x100000 + rn * 0x10000 + rd * 0x1000 + imm * 0x80 + st * 0x20 + rm, 0 <= cond <= 0xe, 0 <= opcode <= 0xf, 0 <= s <= 1, 0 <= rn <= 0xf, 0 <= rd <= 0xf, 0 <= imm <= 0x1f, 0 <= st <= 3, 0 <= rm <= 0xf;
    assert(field(w, 20, 8) == opcode * 2 + s);
    assert((w as int / 0x10) % 0x10 == imm % 2 * 8 + st * 2) by (nonlinear_arith)
        requires w == cond * 0x10000000 + opcode * 0x200000 + s * 0x100000 + rn * 0x10000 + rd * 0x1000 + imm * 0x80 + st * 0x20 + rm, 0 <= cond <= 0xe, 0 <= opcode <= 0xf, 0 <= s <= 1, 0 <= rn <= 0xf, 0 <= rd <= 0xf, 0 <= imm <= 0x1f, 0 <= st <= 3, 0 <= rm <= 0xf;
    assert(field(w, 4, 4) == imm % 2 * 8 + st * 2);
    assert((w as int / 0x10) % 2 == 0) by (nonlinear_arith)
        requires w == cond * 0x10000000 + opcode * 0x200000 + s * 0x100000 + rn * 0x10000 + rd * 0x1000 + imm * 0x80 + st * 0x20 + rm, 0 <= cond <= 0xe, 0 <= opcode <= 0xf, 0 <= s <= 1, 0 <= rn <= 0xf, 0 <= rd <= 0xf, 0 <= imm <= 0x1f, 0 <= st <= 3, 0 <= rm <= 0xf;
    assert(field(w, 4, 1) == 0);
    assert((w as int / 0x200000) % 0x10 == opcode) by (nonlinear_arith)
        requires w == cond * 0x10000000 + opcode * 0x200000 + s * 0x100000 + rn * 0x10000 + rd * 0x1000 + imm * 0x80 + st * 0x20 + rm, 0 <= cond <= 0xe, 0 <= opcode <= 0xf, 0 <= s <= 1, 0 <= rn <= 0xf, 0 <= rd <= 0xf, 0 <= imm <= 0x1f, 0 <= st <= 3, 0 <= rm <= 0xf;
    assert(field(w, 21, 4) == opcode);
    assert((w as int / 0x100000) % 2 == s) by (nonlinear_arith)
        requires w == cond * 0x10000000 + opcode * 0x200000 + s * 0x100000 + rn * 0x10000 + rd * 0x1000 + imm * 0x80 + st * 0x20 + rm, 0 <= cond <= 0xe, 0 <= opcode <= 0xf, 0 <= s <= 1, 0 <= rn <= 0xf, 0 <= rd <= 0xf, 0 <= imm <= 0x1f, 0 <= st <= 3, 0 <= rm <= 0xf;
    assert(field(w, 20, 1) == s);
    assert((w as int / 0x80) % 0x20 == imm) by (nonlinear_arith)
        requires w == cond * 0x10000000 + opcode * 0x200000 + s * 0x100000 + rn * 0x10000 + rd * 0x1000 + imm * 0x80 + st * 0x20 + rm, 0 <= cond <= 0xe, 0 <= opcode <= 0xf, 0 <= s <= 1, 0 <= rn <= 0xf, 0 <= rd <= 0xf, 0 <= imm <= 0x1f, 0 <= st <= 3, 0 <= rm <= 0xf;
    assert(field(w, 7, 5) == imm);
    assert((w as int / 0x20) % 4 == st) by (nonlinear_arith)
        requires w == cond * 0x10000000 + opcode * 0x200000 + s * 0x100000 + rn * 0x10000 + rd * 0x1000 + imm * 0x80 + st * 0x20 + rm, 0 <= cond <= 0xe, 0 <= opcode <= 0xf, 0 <= s <= 1, 0 <= rn <= 0xf, 0 <= rd <= 0xf, 0 <= imm <= 0x1f, 0 <= st <= 3, 0 <= rm <= 0xf;
    assert(field(w, 5, 2) == st);
    assert((w as int / 1) % 0x10 == rm) by (nonlinear_arith)
        requires w == cond * 0x10000000 + opcode * 0x200000 + s * 0x100000 + rn * 0x10000 + rd * 0x1000 + imm * 0x80 + st * 0x20 + rm, 0 <= cond <= 0xe, 0 <= opcode <= 0xf, 0 <= s <= 1, 0 <= rn <= 0xf, 0 <= rd <= 0xf, 0 <= imm <= 0x1f, 0 <= st <= 3, 0 <= rm <= 0xf;
    assert(field(w, 0, 4) == rm);
    assert((NOP_WORD as int / 0x10000000) % 0x10 == 14) by (nonlinear_arith);
    assert((NOP_WORD as int / 0x200000) % 0x10 == 13) by (nonlinear_arith);
    assert((NOP_WORD as int / 0x100000) % 2 == 0) by (nonlinear_arith);
    assert((NOP_WORD as int / 0x10000) % 0x10 == 0) by (nonlinear_arith);
    assert((NOP_WORD as int / 0x1000) % 0x10 == 0) by (nonlinear_arith);
    assert((NOP_WORD as int / 0x80) % 0x20 == 0) by (nonlinear_arith);
    assert((NOP_WORD as int / 0x20) % 4 == 0) by (nonlinear_arith);
    assert((NOP_WORD as int / 1) % 0x10 == 0) by (nonlinear_arith);
    assert(w != NOP_WORD);
}

/// Data processing, register operand shifted by a register.
pub open spec fn enc_data_reg_reg(cond: Word, opcode: Word, s: Word, rn: Word, rd: Word, rs: Word, st: Word, rm: Word) -> Word {
    (cond * 0x10000000 + opcode * 0x200000 + s * 0x100000 + rn * 0x10000 + rd * 0x1000 + rs * 0x100 + st * 0x20 + 0x10 + rm) as Word
}

/// Law: decoding this shape's encoding recovers the packed fields.
#[verifier::rlimit(100)]
pub proof fn lemma_round_trip_data_reg_reg(cond: Word, opcode: Word, s: Word, rn: Word, rd: Word, rs: Word, st: Word, rm: Word)
    requires
        cond <= 0xe,
        opcode <= 0xf,
        s <= 1,
        rn <= 0xf,
        rd <= 0xf,
        rs <= 0xf,
        st <= 3,
        rm <= 0xf,
        !(opcode == 9 && s == 0 && rn == 15 && rd == 15 && rs == 15 && st == 0),
    ensures
        spec_decode(enc_data_reg_reg(cond, opcode, s, rn, rd, rs, st, rm)) == spec_instr_data_reg_reg(cond, opcode, s, rn, rd, rs, st, rm),
{
    let w = enc_data_reg_reg(cond, opcode, s, rn, rd, rs, st, rm);
    lemma2_to64();
    assert((w as int / 0x10000000) % 0x10 == cond) by (nonlinear_arith)
        requires w == cond * 0x10000000 + opcode * 0x200000 + s * 0x100000 + rn * 0x10000 + rd * 0x1000 + rs * 0x100 + st * 0x20 + 0x10 + rm, 0 <= cond <= 0xe, 0 <= opcode <= 0xf, 0 <= s <= 1, 0 <= rn <= 0xf, 0 <= rd <= 0xf, 0 <= rs <= 0xf, 0 <= st <= 3, 0 <= rm <= 0xf;
    assert(field(w, 28, 4) == cond);
    assert((w as int / 0x2000000) % 8 == 0) by (nonlinear_arith)
        requires w == cond * 0x10000000 + opcode * 0x200000 + s * 0x100000 + rn * 0x10000 + rd * 0x1000 + rs * 0x100 + st * 0x20 + 0x10 + rm, 0 <= cond <= 0xe, 0 <= opcode <= 0xf, 0 <= s <= 1, 0 <= rn <= 0xf, 0 <= rd <= 0xf, 0 <= rs <= 0xf, 0 <= st <= 3, 0 <= rm <= 0xf;
    assert(field(w, 25, 3) == 0);
    assert((w as int / 0x800000) % 0x20 == opcode / 4) by (nonlinear_arith)
        requires w == cond * 0x10000000 + opcode * 0x200000 + s * 0x100000 + rn * 0x10000 + rd * 0x1000 + rs * 0x100 + st * 0x20 + 0x10 + rm, 0 <= cond <= 0xe, 0 <= opcode <= 0xf, 0 <= s <= 1, 0 <= rn <= 0xf, 0 <= rd <= 0xf, 0 <= rs <= 0xf, 0 <= st <= 3, 0 <= rm <= 0xf;
    assert(field(w, 23, 5) == opcode / 4);
    assert((w as int / 0x100000) % 4 == opcode % 2 * 2 + s) by (nonlinear_arith)
        requires w == cond * 0x10000000 + opcode * 0x200000 + s * 0x100000 + rn * 0x10000 + rd * 0x1000 + rs * 0x100 + st * 0x20 + 0x10 + rm, 0 <= cond <= 0xe, 0 <= opcode <= 0xf, 0 <= s <= 1, 0 <= rn <= 0xf, 0 <= rd <= 0xf, 0 <= rs <= 0xf, 0 <= st <= 3, 0 <= rm <= 0xf;
    assert(field(w, 20, 2) == opcode % 2 * 2 + s);
    assert((w as int / 0x10000) % 0x10 == rn) by (nonlinear_arith)
        requires w == cond * 0x10000000 + opcode * 0x200000 + s * 0x100000 + rn * 0x10000 + rd * 0x1000 + rs * 0x100 + st * 0x20 + 0x10 + rm, 0 <= cond <= 0xe, 0 <= opcode <= 0xf, 0 <= s <= 1, 0 <= rn <= 0xf, 0 <= rd <= 0xf, 0 <= rs <= 0xf, 0 <= st <= 3, 0 <= rm <= 0xf;
    assert(field(w, 16, 4) == rn);
    assert((w as int / 1) % 0x1000 == rs * 0x100 + st * 0x20 + 0x10 + rm) by (nonlinear_arith)
        requires w == cond * 0x10000000 + opcode * 0x200000 + s * 0x100000 + rn * 0x10000 + rd * 0x1000 + rs * 0x100 + st * 0x20 + 0x10 + rm, 0 <= cond <= 0xe, 0 <= opcode <= 0xf, 0 <= s <= 1, 0 <= rn <= 0xf, 0 <= rd <= 0xf, 0 <= rs <= 0xf, 0 <= st <= 3, 0 <= rm <= 0xf;
    assert(field(w, 0, 12) == rs * 0x100 + st * 0x20 + 0x10 + rm);
    assert((w as int / 0x1000) % 0x10 == rd) by (nonlinear_arith)
        requires w == cond * 0x10000000 + opcode * 0x200000 + s * 0x100000 + rn * 0x10000 + rd * 0x1000 + rs * 0x100 + st * 0x20 + 0x10 + rm, 0 <= cond <= 0xe, 0 <= opcode <= 0xf, 0 <= s <= 1, 0 <= rn <= 0xf, 0 <= rd <= 0xf, 0 <= rs <= 0xf, 0 <= st <= 3, 0 <= rm <= 0xf;
    assert(field(w, 12, 4) == rd);
    assert((w as int / 0x10) % 0x100 == rs * 0x10 + st * 2 + 1) by (nonlinear_arith)
        requires w == cond * 0x10000000 + opcode * 0x200000 + s * 0x100000 + rn * 0x10000 + rd * 0x1000 + rs * 0x100 + st * 0x20 + 0x10 + rm, 0 <= cond <= 0xe, 0 <= opcode <= 0xf, 0 <= s <= 1, 0 <= rn <= 0xf, 0 <= rd <= 0xf, 0 <= rs <= 0xf, 0 <= st <= 3, 0 <= rm <= 0xf;
    assert(field(w, 4, 8) == rs * 0x10 + st * 2 + 1);
    assert((w as int / 0x100000) % 0x100 == opcode * 2 + s) by (nonlinear_arith)
        requires w == cond * 0x10000000 + opcode * 0x200000 + s * 0x100000 + rn * 0x10000 + rd * 0x1000 + rs * 0x100 + st * 0x20 + 0x10 + rm, 0 <= cond <= 0xe, 0 <= opcode <= 0xf, 0 <= s <= 1, 0 <= rn <= 0xf, 0 <= rd <= 0xf, 0 <= rs <= 0xf, 0 <= st <= 3, 0 <= rm <= 0xf;
    assert(field(w, 20, 8) == opcode * 2 + s);
    assert((w as int / 0x100) % 0x1000 == rn * 0x100 + rd * 0x10 + rs) by (nonlinear_arith)
        requires w == cond * 0x10000000 + opcode * 0x200000 + s * 0x100000 + rn * 0x10000 + rd * 0x1000 + rs * 0x100 + st * 0x20 + 0x10 + rm, 0 <= cond <= 0xe, 0 <= opcode <= 0xf, 0 <= s <= 1, 0 <= rn <= 0xf, 0 <= rd <= 0xf, 0 <= rs <= 0xf, 0 <= st <= 3, 0 <= rm <= 0xf;
    assert(field(w, 8, 12) == rn * 0x100 + rd * 0x10 + rs);
    assert((w as int / 0x10) % 0x10 == st * 2 + 1) by (nonlinear_arith)
        requires w == cond * 0x10000000 + opcode * 0x200000 + s * 0x100000 + rn * 0x10000 + rd * 0x1000 + rs * 0x100 + st * 0x20 + 0x10 + rm, 0 <= cond <= 0xe, 0 <= opcode <= 0xf, 0 <= s <= 1, 0 <= rn <= 0xf, 0 <= rd <= 0xf, 0 <= rs <= 0xf, 0 <= st <= 3, 0 <= rm <= 0xf;
    assert(field(w, 4, 4) == st * 2 + 1);
    assert((w as int / 0x80) % 2 == 0) by (nonlinear_arith)
        requires w == cond * 0x10000000 + opcode * 0x200000 + s * 0x100000 + rn * 0x10000 + rd * 0x1000 + rs * 0x100 + st * 0x20 + 0x10 + rm, 0 <= cond <= 0xe, 0 <= opcode <= 0xf, 0 <= s <= 1, 0 <= rn <= 0xf, 0 <= rd <= 0xf, 0 <= rs <= 0xf, 0 <= st <= 3, 0 <= rm <= 0xf;
    assert(field(w, 7, 1) == 0);
    assert((w as int / 0x10) % 2 == 1) by (nonlinear_arith)
        requires w == cond * 0x10000000 + opcode * 0x200000 + s * 0x100000 + rn * 0x10000 + rd * 0x1000 + rs * 0x100 + st * 0x20 + 0x10 + rm, 0 <= cond <= 0xe, 0 <= opcode <= 0xf, 0 <= s <= 1, 0 <= rn <= 0xf, 0 <= rd <= 0xf, 0 <= rs <= 0xf, 0 <= st <= 3, 0 <= rm <= 0xf;
    assert(field(w, 4, 1) == 1);
    assert((w as int / 0x200000) % 0x10 == opcode) by (nonlinear_arith)
        requires w == cond * 0x10000000 + opcode * 0x200000 + s * 0x100000 + rn * 0x10000 + rd * 0x1000 + rs * 0x100 + st * 0x20 + 0x10 + rm, 0 <= cond <= 0xe, 0 <= opcode <= 0xf, 0 <= s <= 1, 0 <= rn <= 0xf, 0 <= rd <= 0xf, 0 <= rs <= 0xf, 0 <= st <= 3, 0 <= rm <= 0xf;
    assert(field(w, 21, 4) == opcode);
    assert((w as int / 0x100000) % 2 == s) by (nonlinear_arith)
        requires w == cond * 0x10000000 + opcode * 0x200000 + s * 0x100000 + rn * 0x10000 + rd * 0x1000 + rs * 0x100 + st * 0x20 + 0x10 + rm, 0 <= cond <= 0xe, 0 <= opcode <= 0xf, 0 <= s <= 1, 0 <= rn <= 0xf, 0 <= rd <= 0xf, 0 <= rs <= 0xf, 0 <= st <= 3, 0 <= rm <= 0xf;
    assert(field(w, 20, 1) == s);
    assert((w as int / 0x100) % 0x10 == rs) by (nonlinear_arith)
        requires w == cond * 0x10000000 + opcode * 0x200000 + s * 0x100000 + rn * 0x10000 + rd * 0x1000 + rs * 0x100 + st * 0x20 + 0x10 + rm, 0 <= cond <= 0xe, 0 <= opcode <= 0xf, 0 <= s <= 1, 0 <= rn <= 0xf, 0 <= rd <= 0xf, 0 <= rs <= 0xf, 0 <= st <= 3, 0 <= rm <= 0xf;
    assert(field(w, 8, 4) == rs);
    assert((w as int / 0x20) % 4 == st) by (nonlinear_arith)
        requires w == cond * 0x10000000 + opcode * 0x200000 + s * 0x100000 + rn * 0x10000 + rd * 0x1000 + rs * 0x100 + st * 0x20 + 0x10 + rm, 0 <= cond <= 0xe, 0 <= opcode <= 0xf, 0 <= s <= 1, 0 <= rn <= 0xf, 0 <= rd <= 0xf, 0 <= rs <= 0xf, 0 <= st <= 3, 0 <= rm <= 0xf;
    assert(field(w, 5, 2) == st);
    assert((w as int / 1) % 0x10 == rm) by (nonlinear_arith)
        requires w == cond * 0x10000000 + opcode * 0x200000 + s * 0x100000 + rn * 0x10000 + rd * 0x1000 + rs * 0x100 + st * 0x20 + 0x10 + rm, 0 <= cond <= 0xe, 0 <= opcode <= 0xf, 0 <= s <= 1, 0 <= rn <= 0xf, 0 <= rd <= 0xf, 0 <= rs <= 0xf, 0 <= st <= 3, 0 <= rm <= 0xf;
    assert(field(w, 0, 4) == rm);
    assert((NOP_WORD as int / 0x10) % 2 == 0) by (nonlinear_arith);
    assert(field(NOP_WORD, 4, 1) == 0);
    assert(w != NOP_WORD);
}

/// Data processing, rotated immediate operand.
pub open spec fn enc_data_imm(cond: Word, opcode: Word, s: Word, rn: Word, rd: Word, rotate: Word, imm: Word) -> Word {
    (cond * 0x10000000 + 0x2000000 + opcode * 0x200000 + s * 0x100000 + rn * 0x10000 + rd * 0x1000 + rotate * 0x100 + imm) as Word
}

/// Law: decoding this shape's encoding recovers the packed fields.
#[verifier::rlimit(100)]
pub proof fn lemma_round_trip_data_imm(cond: Word, opcode: Word, s: Word, rn: Word, rd: Word, rotate: Word, imm: Word)
    requires
        cond <= 0xe,
        opcode <= 0xf,
        s <= 1,
        rn <= 0xf,
        rd <= 0xf,
        rotate <= 0xf,
        imm <= 0xff,
        !((opcode == 9 || opcode == 11) && s == 0 && rd == 15),
    ensures
        spec_decode(enc_data_imm(cond, opcode, s, rn, rd, rotate, imm)) == spec_instr_data_imm(cond, opcode, s, rn, rd, rotate, imm),
{
    let w = enc_data_imm(cond, opcode, s, rn, rd, rotate, imm);
    lemma2_to64();
    assert((w as int / 0x10000000) % 0x10 == cond) by (nonlinear_arith)
        requires w == cond * 0x10000000 + 0x2000000 + opcode * 0x200000 + s * 0x100000 + rn * 0x10000 + rd * 0x1000 + rotate * 0x100 + imm, 0 <= cond <= 0xe, 0 <= opcode <= 0xf, 0 <= s <= 1, 0 <= rn <= 0xf, 0 <= rd <= 0xf, 0 <= rotate <= 0xf, 0 <= imm <= 0xff;
    assert(field(w, 28, 4) == cond);
    assert((w as int / 0x2000000) % 8 == 1) by (nonlinear_arith)
        requires w == cond * 0x10000000 + 0x2000000 + opcode * 0x200000 + s * 0x100000 + rn * 0x10000 + rd * 0x1000 + rotate * 0x100 + imm, 0 <= cond <= 0xe, 0 <= opcode <= 0xf, 0 <= s <= 1, 0 <= rn <= 0xf, 0 <= rd <= 0xf, 0 <= rotate <= 0xf, 0 <= imm <= 0xff;
    assert(field(w, 25, 3) == 1);
    assert((w as int / 0x800000) % 0x20 == 4 + opcode / 4) by (nonlinear_arith)
        requires w == cond * 0x10000000 + 0x2000000 + opcode * 0x200000 + s * 0x100000 + rn * 0x10000 + rd * 0x1000 + rotate * 0x100 + imm, 0 <= cond <= 0xe, 0 <= opcode <= 0xf, 0 <= s <= 1, 0 <= rn <= 0xf, 0 <= rd <= 0xf, 0 <= rotate <= 0xf, 0 <= imm <= 0xff;
    assert(field(w, 23, 5) == 4 + opcode / 4);
    assert((w as int / 0x100000) % 4 == opcode % 2 * 2 + s) by (nonlinear_arith)
        requires w == cond * 0x10000000 + 0x2000000 + opcode * 0x200000 + s * 0x100000 + rn * 0x10000 + rd * 0x1000 + rotate * 0x100 + imm, 0 <= cond <= 0xe, 0 <= opcode <= 0xf, 0 <= s <= 1, 0 <= rn <= 0xf, 0 <= rd <= 0xf, 0 <= rotate <= 0xf, 0 <= imm <= 0xff;
    assert(field(w, 20, 2) == opcode % 2 * 2 + s);
    assert((w as int / 0x1000) % 0x10 == rd) by (nonlinear_arith)
        requires w == cond * 0x10000000 + 0x2000000 + opcode * 0x200000 + s * 0x100000 + rn * 0x10000 + rd * 0x1000 + rotate * 0x100 + imm, 0 <= cond <= 0xe, 0 <= opcode <= 0xf, 0 <= s <= 1, 0 <= rn <= 0xf, 0 <= rd <= 0xf, 0 <= rotate <= 0xf, 0 <= imm <= 0xff;
    assert(field(w, 12, 4) == rd);
    assert((w as int / 0x10000) % 0x10 == rn) by (nonlinear_arith)
        requires w == cond * 0x10000000 + 0x2000000 + opcode * 0x200000 + s * 0x100000 + rn * 0x10000 + rd * 0x1000 + rotate * 0x100 + imm, 0 <= cond <= 0xe, 0 <= opcode <= 0xf, 0 <= s <= 1, 0 <= rn <= 0xf, 0 <= rd <= 0xf, 0 <= rotate <= 0xf, 0 <= imm <= 0xff;
    assert(field(w, 16, 4) == rn);
    assert((w as int / 0x100000) % 0x100 == 0x20 + opcode * 2 + s) by (nonlinear_arith)
        requires w == cond * 0x10000000 + 0x2000000 + opcode * 0x200000 + s * 0x100000 + rn * 0x10000 + rd * 0x1000 + rotate * 0x100 + imm, 0 <= cond <= 0xe, 0 <= opcode <= 0xf, 0 <= s <= 1, 0 <= rn <= 0xf, 0 <= rd <= 0xf, 0 <= rotate <= 0xf, 0 <= imm <= 0xff;
    assert(field(w, 20, 8) == 0x20 + opcode * 2 + s);
    assert((w as int / 0x200000) % 0x10 == opcode) by (nonlinear_arith)
        requires w == cond * 0x10000000 + 0x2000000 + opcode * 0x200000 + s * 0x100000 + rn * 0x10000 + rd * 0x1000 + rotate * 0x100 + imm, 0 <= cond <= 0xe, 0 <= opcode <= 0xf, 0 <= s <= 1, 0 <= rn <= 0xf, 0 <= rd <= 0xf, 0 <= rotate <= 0xf, 0 <= imm <= 0xff;
    assert(field(w, 21, 4) == opcode);
    assert((w as int / 0x100000) % 2 == s) by (nonlinear_arith)
        requires w == cond * 0x10000000 + 0x2000000 + opcode * 0x200000 + s * 0x100000 + rn * 0x10000 + rd * 0x1000 + rotate * 0x100 + imm, 0 <= cond <= 0xe, 0 <= opcode <= 0xf, 0 <= s <= 1, 0 <= rn <= 0xf, 0 <= rd <= 0xf, 0 <= rotate <= 0xf, 0 <= imm <= 0xff;
    assert(field(w, 20, 1) == s);
    assert((w as int / 0x100) % 0x10 == rotate) by (nonlinear_arith)
        requires w == cond * 0x10000000 + 0x2000000 + opcode * 0x200000 + s * 0x100000 + rn * 0x10000 + rd * 0x1000 + rotate * 0x100 + imm, 0 <= cond <= 0xe, 0 <= opcode <= 0xf, 0 <= s <= 1, 0 <= rn <= 0xf, 0 <= rd <= 0xf, 0 <= rotate <= 0xf, 0 <= imm <= 0xff;
    assert(field(w, 8, 4) == rotate);
    assert((w as int / 1) % 0x100 == imm) by (nonlinear_arith)
        requires w == cond * 0x10000000 + 0x2000000 + opcode * 0x200000 + s * 0x100000 + rn * 0x10000 + rd * 0x1000 + rotate * 0x100 + imm, 0 <= cond <= 0xe, 0 <= opcode <= 0xf, 0 <= s <= 1, 0 <= rn <= 0xf, 0 <= rd <= 0xf, 0 <= rotate <= 0xf, 0 <= imm <= 0xff;
    assert(field(w, 0, 8) == imm);
    assert((NOP_WORD as int / 0x2000000) % 8 == 0) by (nonlinear_arith);
    assert(field(NOP_WORD, 25, 3) == 0);
    assert(w != NOP_WORD);
}

/// Branch, with or without link.
pub open spec fn enc_b(cond: Word, l: Word, offset: Word) -> Word {
    (cond * 0x10000000 + 0xa000000 + l * 0x1000000 + offset) as Word
}

/// Law: decoding this shape's encoding recovers the packed fields.
#[verifier::rlimit(100)]
pub proof fn lemma_round_trip_b(cond: Word, l: Word, offset: Word)
    requires
        cond <= 0xe,
        l <= 1,
        offset <= 0xffffff,
    ensures
        spec_decode(enc_b(cond, l, offset)) == spec_instr_b(cond, l, offset),
{
    let w = enc_b(cond, l, offset);
    lemma2_to64();
    assert((w as int / 0x10000000) % 0x10 == cond) by (nonlinear_arith)
        requires w == cond * 0x10000000 + 0xa000000 + l * 0x1000000 + offset, 0 <= cond <= 0xe, 0 <= l <= 1, 0 <= offset <= 0xffffff;
    assert(field(w, 28, 4) == cond);
    assert((w as int / 0x2000000) % 8 == 5) by (nonlinear_arith)
        requires w == cond * 0x10000000 + 0xa000000 + l * 0x1000000 + offset, 0 <= cond <= 0xe, 0 <= l <= 1, 0 <= offset <= 0xffffff;
    assert(field(w, 25, 3) == 5);
    assert((w as int / 0x800000) % 0x20 == 20 + l * 2 + offset / 0x800000) by (nonlinear_arith)
        requires w == cond * 0x10000000 + 0xa000000 + l * 0x1000000 + offset, 0 <= cond <= 0xe, 0 <= l <= 1, 0 <= offset <= 0xffffff;
    assert(field(w, 23, 5) == 20 + l * 2 + offset / 0x800000);
    assert((w as int / 0x100000) % 0x100 == 0xA0 + l * 0x10 + offset / 0x100000) by (nonlinear_arith)
        requires w == cond * 0x10000000 + 0xa000000 + l * 0x1000000 + offset, 0 <= cond <= 0xe, 0 <= l <= 1, 0 <= offset <= 0xffffff;
    assert(field(w, 20, 8) == 0xA0 + l * 0x10 + offset / 0x100000);
    assert((w as int / 0x1000000) % 2 == l) by (nonlinear_arith)
        requires w == cond * 0x10000000 + 0xa000000 + l * 0x1000000 + offset, 0 <= cond <= 0xe, 0 <= l <= 1, 0 <= offset <= 0xffffff;
    assert(field(w, 24, 1) == l);
    assert((w as int / 1) % 0x1000000 == offset) by (nonlinear_arith)
        requires w == cond * 0x10000000 + 0xa000000 + l * 0x1000000 + offset, 0 <= cond <= 0xe, 0 <= l <= 1, 0 <= offset <= 0xffffff;
    assert(field(w, 0, 24) == offset);
    assert((NOP_WORD as int / 0x2000000) % 8 == 0) by (nonlinear_arith);
    assert(field(NOP_WORD, 25, 3) == 0);
    assert(w != NOP_WORD);
}

/// Software interrupt.
pub open spec fn enc_swi(cond: Word, num: Word) -> Word {
    (cond * 0x10000000 + 0xf000000 + num) as Word
}

/// Law: decoding this shape's encoding recovers the packed fields.
#[verifier::rlimit(100)]
pub proof fn lemma_round_trip_swi(cond: Word, num: Word)
    requires
        cond <= 0xe,
        num <= 0xffffff,
    ensures
        spec_decode(enc_swi(cond, num)) == spec_instr_swi(cond, num),
{
    let w = enc_swi(cond, num);
    lemma2_to64();
    assert((w as int / 0x10000000) % 0x10 == cond) by (nonlinear_arith)
        requires w == cond * 0x10000000 + 0xf000000 + num, 0 <= cond <= 0xe, 0 <= num <= 0xffffff;
    assert(field(w, 28, 4) == cond);
    assert((w as int / 0x2000000) % 8 == 7) by (nonlinear_arith)
        requires w == cond * 0x10000000 + 0xf000000 + num, 0 <= cond <= 0xe, 0 <= num <= 0xffffff;
    assert(field(w, 25, 3) == 7);
    assert((w as int / 0x1000000) % 0x10 == 15) by (nonlinear_arith)
        requires w == cond * 0x10000000 + 0xf000000 + num, 0 <= cond <= 0xe, 0 <= num <= 0xffffff;
    assert(field(w, 24, 4) == 15);
    assert((w as int / 0x800000) % 0x20 == 30 + num / 0x800000) by (nonlinear_arith)
        requires w == cond * 0x10000000 + 0xf000000 + num, 0 <= cond <= 0xe, 0 <= num <= 0xffffff;
    assert(field(w, 23, 5) == 30 + num / 0x800000);
    assert((w as int / 0x100000) % 0x100 == 0xF0 + num / 0x100000) by (nonlinear_arith)
        requires w == cond * 0x10000000 + 0xf000000 + num, 0 <= cond <= 0xe, 0 <= num <= 0xffffff;
    assert(field(w, 20, 8) == 0xF0 + num / 0x100000);
    assert((w as int / 0x200000) % 0x80 == 0x78 + num / 0x200000) by (nonlinear_arith)
        requires w == cond * 0x10000000 + 0xf000000 + num, 0 <= cond <= 0xe, 0 <= num <= 0xffffff;
    assert(field(w, 21, 7) == 0x78 + num / 0x200000);
    assert((w as int / 1) % 0x1000000 == num) by (nonlinear_arith)
        requires w == cond * 0x10000000 + 0xf000000 + num, 0 <= cond <= 0xe, 0 <= num <= 0xffffff;
    assert(field(w, 0, 24) == num);
    assert((NOP_WORD as int / 0x2000000) % 8 == 0) by (nonlinear_arith);
    assert(field(NOP_WORD, 25, 3) == 0);
    assert(w != NOP_WORD);
}

/// Block transfer.
pub open spec fn enc_ldmstm(cond: Word, code: Word, s: Word, wb: Word, l: Word, rn: Word, list: Word) -> Word {
    (cond * 0x10000000 + 0x8000000 + code * 0x800000 + s * 0x400000 + wb * 0x200000 + l * 0x100000 + rn * 0x10000 + list) as Word
}

/// Law: decoding this shape's encoding recovers the packed fields.
#[verifier::rlimit(100)]
pub proof fn lemma_round_trip_ldmstm(cond: Word, code: Word, s: Word, wb: Word, l: Word, rn: Word, list: Word)
    requires
        cond <= 0xe,
        code <= 3,
        s <= 1,
        wb <= 1,
        l <= 1,
        rn <= 0xf,
        list <= 0xffff,
    ensures
        spec_decode(enc_ldmstm(cond, code, s, wb, l, rn, list)) == spec_instr_ldmstm(cond, code, s, wb, l, rn, list),
{
    let w = enc_ldmstm(cond, code, s, wb, l, rn, list);
    lemma2_to64();
    assert((w as int / 0x10000000) % 0x10 == cond) by (nonlinear_arith)
        requires w == cond * 0x10000000 + 0x8000000 + code * 0x800000 + s * 0x400000 + wb * 0x200000 + l * 0x100000 + rn * 0x10000 + list, 0 <= cond <= 0xe, 0 <= code <= 3, 0 <= s <= 1, 0 <= wb <= 1, 0 <= l <= 1, 0 <= rn <= 0xf, 0 <= list <= 0xffff;
    assert(field(w, 28, 4) == cond);
    assert((w as int / 0x2000000) % 8 == 4) by (nonlinear_arith)
        requires w == cond * 0x10000000 + 0x8000000 + code * 0x800000 + s * 0x400000 + wb * 0x200000 + l * 0x100000 + rn * 0x10000 + list, 0 <= cond <= 0xe, 0 <= code <= 3, 0 <= s <= 1, 0 <= wb <= 1, 0 <= l <= 1, 0 <= rn <= 0xf, 0 <= list <= 0xffff;
    assert(field(w, 25, 3) == 4);
    assert((w as int / 0x800000) % 0x20 == 16 + code) by (nonlinear_arith)
        requires w == cond * 0x10000000 + 0x8000000 + code * 0x800000 + s * 0x400000 + wb * 0x200000 + l * 0x100000 + rn * 0x10000 + list, 0 <= cond <= 0xe, 0 <= code <= 3, 0 <= s <= 1, 0 <= wb <= 1, 0 <= l <= 1, 0 <= rn <= 0xf, 0 <= list <= 0xffff;
    assert(field(w, 23, 5) == 16 + code);
    assert((w as int / 0x100000) % 0x100 == 0x80 + code * 8 + s * 4 + wb * 2 + l) by (nonlinear_arith)
        requires w == cond * 0x10000000 + 0x8000000 + code * 0x800000 + s * 0x400000 + wb * 0x200000 + l * 0x100000 + rn * 0x10000 + list, 0 <= cond <= 0xe, 0 <= code <= 3, 0 <= s <= 1, 0 <= wb <= 1, 0 <= l <= 1, 0 <= rn <= 0xf, 0 <= list <= 0xffff;
    assert(field(w, 20, 8) == 0x80 + code * 8 + s * 4 + wb * 2 + l);
    assert((w as int / 0x800000) % 4 == code) by (nonlinear_arith)
        requires w == cond * 0x10000000 + 0x8000000 + code * 0x800000 + s * 0x400000 + wb * 0x200000 + l * 0x100000 + rn * 0x10000 + list, 0 <= cond <= 0xe, 0 <= code <= 3, 0 <= s <= 1, 0 <= wb <= 1, 0 <= l <= 1, 0 <= rn <= 0xf, 0 <= list <= 0xffff;
    assert(field(w, 23, 2) == code);
    assert((w as int / 0x400000) % 2 == s) by (nonlinear_arith)
        requires w == cond * 0x10000000 + 0x8000000 + code * 0x800000 + s * 0x400000 + wb * 0x200000 + l * 0x100000 + rn * 0x10000 + list, 0 <= cond <= 0xe, 0 <= code <= 3, 0 <= s <= 1, 0 <= wb <= 1, 0 <= l <= 1, 0 <= rn <= 0xf, 0 <= list <= 0xffff;
    assert(field(w, 22, 1) == s);
    assert((w as int / 0x200000) % 2 == wb) by (nonlinear_arith)
        requires w == cond * 0x10000000 + 0x8000000 + code * 0x800000 + s * 0x400000 + wb * 0x200000 + l * 0x100000 + rn * 0x10000 + list, 0 <= cond <= 0xe, 0 <= code <= 3, 0 <= s <= 1, 0 <= wb <= 1, 0 <= l <= 1, 0 <= rn <= 0xf, 0 <= list <= 0xffff;
    assert(field(w, 21, 1) == wb);
    assert((w as int / 0x100000) % 2 == l) by (nonlinear_arith)
        requires w == cond * 0x10000000 + 0x8000000 + code * 0x800000 + s * 0x400000 + wb * 0x200000 + l * 0x100000 + rn * 0x10000 + list, 0 <= cond <= 0xe, 0 <= code <= 3, 0 <= s <= 1, 0 <= wb <= 1, 0 <= l <= 1, 0 <= rn <= 0xf, 0 <= list <= 0xffff;
    assert(field(w, 20, 1) == l);
    assert((w as int / 0x10000) % 0x10 == rn) by (nonlinear_arith)
        requires w == cond * 0x10000000 + 0x8000000 + code * 0x800000 + s * 0x400000 + wb * 0x200000 + l * 0x100000 + rn * 0x10000 + list, 0 <= cond <= 0xe, 0 <= code <= 3, 0 <= s <= 1, 0 <= wb <= 1, 0 <= l <= 1, 0 <= rn <= 0xf, 0 <= list <= 0xffff;
    assert(field(w, 16, 4) == rn);
    assert((w as int / 1) % 0x10000 == list) by (nonlinear_arith)
        requires w == cond * 0x10000000 + 0x8000000 + code * 0x800000 + s * 0x400000 + wb * 0x200000 + l * 0x100000 + rn * 0x10000 + list, 0 <= cond <= 0xe, 0 <= code <= 3, 0 <= s <= 1, 0 <= wb <= 1, 0 <= l <= 1, 0 <= rn <= 0xf, 0 <= list <= 0xffff;
    assert(field(w, 0, 16) == list);
    assert((NOP_WORD as int / 0x2000000) % 8 == 0) by (nonlinear_arith);
    assert(field(NOP_WORD, 25, 3) == 0);
    assert(w != NOP_WORD);
}

/// Multiply.
pub open spec fn enc_mul(cond: Word, s: Word, rd: Word, rs: Word, rm: Word) -> Word {
    (cond * 0x10000000 + s * 0x100000 + rd * 0x10000 + rs * 0x100 + 0x90 + rm) as Word
}

/// Law: decoding this shape's encoding recovers the packed fields.
#[verifier::rlimit(100)]
pub proof fn lemma_round_trip_mul(cond: Word, s: Word, rd: Word, rs: Word, rm: Word)
    requires
        cond <= 0xe,
        s <= 1,
        rd <= 0xf,
        rs <= 0xf,
        rm <= 0xf,
    ensures
        spec_decode(enc_mul(cond, s, rd, rs, rm)) == spec_instr_mul(cond, s, rd, rs, rm),
{
    let w = enc_mul(cond, s, rd, rs, rm);
    lemma2_to64();
    assert((w as int / 0x10000000) % 0x10 == cond) by (nonlinear_arith)
        requires w == cond * 0x10000000 + s * 0x100000 + rd * 0x10000 + rs * 0x100 + 0x90 + rm, 0 <= cond <= 0xe, 0 <= s <= 1, 0 <= rd <= 0xf, 0 <= rs <= 0xf, 0 <= rm <= 0xf;
    assert(field(w, 28, 4) == cond);
    assert((w as int / 0x2000000) % 8 == 0) by (nonlinear_arith)
        requires w == cond * 0x10000000 + s * 0x100000 + rd * 0x10000 + rs * 0x100 + 0x90 + rm, 0 <= cond <= 0xe, 0 <= s <= 1, 0 <= rd <= 0xf, 0 <= rs <= 0xf, 0 <= rm <= 0xf;
    assert(field(w, 25, 3) == 0);
    assert((w as int / 0x800000) % 0x20 == 0) by (nonlinear_arith)
        requires w == cond * 0x10000000 + s * 0x100000 + rd * 0x10000 + rs * 0x100 + 0x90 + rm, 0 <= cond <= 0xe, 0 <= s <= 1, 0 <= rd <= 0xf, 0 <= rs <= 0xf, 0 <= rm <= 0xf;
    assert(field(w, 23, 5) == 0);
    assert((w as int / 0x100000) % 4 == s) by (nonlinear_arith)
        requires w == cond * 0x10000000 + s * 0x100000 + rd * 0x10000 + rs * 0x100 + 0x90 + rm, 0 <= cond <= 0xe, 0 <= s <= 1, 0 <= rd <= 0xf, 0 <= rs <= 0xf, 0 <= rm <= 0xf;
    assert(field(w, 20, 2) == s);
    assert((w as int / 0x10000) % 0x10 == rd) by (nonlinear_arith)
        requires w == cond * 0x10000000 + s * 0x100000 + rd * 0x10000 + rs * 0x100 + 0x90 + rm, 0 <= cond <= 0xe, 0 <= s <= 1, 0 <= rd <= 0xf, 0 <= rs <= 0xf, 0 <= rm <= 0xf;
    assert(field(w, 16, 4) == rd);
    assert((w as int / 1) % 0x1000 == rs * 0x100 + 0x90 + rm) by (nonlinear_arith)
        requires w == cond * 0x10000000 + s * 0x100000 + rd * 0x10000 + rs * 0x100 + 0x90 + rm, 0 <= cond <= 0xe, 0 <= s <= 1, 0 <= rd <= 0xf, 0 <= rs <= 0xf, 0 <= rm <= 0xf;
    assert(field(w, 0, 12) == rs * 0x100 + 0x90 + rm);
    assert((w as int / 0x100000) % 0x100 == s) by (nonlinear_arith)
        requires w == cond * 0x10000000 + s * 0x100000 + rd * 0x10000 + rs * 0x100 + 0x90 + rm, 0 <= cond <= 0xe, 0 <= s <= 1, 0 <= rd <= 0xf, 0 <= rs <= 0xf, 0 <= rm <= 0xf;
    assert(field(w, 20, 8) == s);
    assert((w as int / 0x10) % 2 == 1) by (nonlinear_arith)
        requires w == cond * 0x10000000 + s * 0x100000 + rd * 0x10000 + rs * 0x100 + 0x90 + rm, 0 <= cond <= 0xe, 0 <= s <= 1, 0 <= rd <= 0xf, 0 <= rs <= 0xf, 0 <= rm <= 0xf;
    assert(field(w, 4, 1) == 1);
    assert((w as int / 0x80) % 2 == 1) by (nonlinear_arith)
        requires w == cond * 0x10000000 + s * 0x100000 + rd * 0x10000 + rs * 0x100 + 0x90 + rm, 0 <= cond <= 0xe, 0 <= s <= 1, 0 <= rd <= 0xf, 0 <= rs <= 0xf, 0 <= rm <= 0xf;
    assert(field(w, 7, 1) == 1);
    assert((w as int / 0x400000) % 2 == 0) by (nonlinear_arith)
        requires w == cond * 0x10000000 + s * 0x100000 + rd * 0x10000 + rs * 0x100 + 0x90 + rm, 0 <= cond <= 0xe, 0 <= s <= 1, 0 <= rd <= 0xf, 0 <= rs <= 0xf, 0 <= rm <= 0xf;
    assert(field(w, 22, 1) == 0);
    assert((w as int / 0x100) % 0x10 == rs) by (nonlinear_arith)
        requires w == cond * 0x10000000 + s * 0x100000 + rd * 0x10000 + rs * 0x100 + 0x90 + rm, 0 <= cond <= 0xe, 0 <= s <= 1, 0 <= rd <= 0xf, 0 <= rs <= 0xf, 0 <= rm <= 0xf;
    assert(field(w, 8, 4) == rs);
    assert((w as int / 0x20) % 4 == 0) by (nonlinear_arith)
        requires w == cond * 0x10000000 + s * 0x100000 + rd * 0x10000 + rs * 0x100 + 0x90 + rm, 0 <= cond <= 0xe, 0 <= s <= 1, 0 <= rd <= 0xf, 0 <= rs <= 0xf, 0 <= rm <= 0xf;
    assert(field(w, 5, 2) == 0);
    assert((w as int / 0x200000) % 0x80 == 0) by (nonlinear_arith)
        requires w == cond * 0x10000000 + s * 0x100000 + rd * 0x10000 + rs * 0x100 + 0x90 + rm, 0 <= cond <= 0xe, 0 <= s <= 1, 0 <= rd <= 0xf, 0 <= rs <= 0xf, 0 <= rm <= 0xf;
    assert(field(w, 21, 7) == 0);
    assert((w as int / 0x1000) % 0x10 == 0) by (nonlinear_arith)
        requires w == cond * 0x10000000 + s * 0x100000 + rd * 0x10000 + rs * 0x100 + 0x90 + rm, 0 <= cond <= 0xe, 0 <= s <= 1, 0 <= rd <= 0xf, 0 <= rs <= 0xf, 0 <= rm <= 0xf;
    assert(field(w, 12, 4) == 0);
    assert((w as int / 0x10) % 0x10 == 9) by (nonlinear_arith)
        requires w == cond * 0x10000000 + s * 0x100000 + rd * 0x10000 + rs * 0x100 + 0x90 + rm, 0 <= cond <= 0xe, 0 <= s <= 1, 0 <= rd <= 0xf, 0 <= rs <= 0xf, 0 <= rm <= 0xf;
    assert(field(w, 4, 4) == 9);
    assert((w as int / 0x100000) % 2 == s) by (nonlinear_arith)
        requires w == cond * 0x10000000 + s * 0x100000 + rd * 0x10000 + rs * 0x100 + 0x90 + rm, 0 <= cond <= 0xe, 0 <= s <= 1, 0 <= rd <= 0xf, 0 <= rs <= 0xf, 0 <= rm <= 0xf;
    assert(field(w, 20, 1) == s);
    assert((w as int / 1) % 0x10 == rm) by (nonlinear_arith)
        requires w == cond * 0x10000000 + s * 0x100000 + rd * 0x10000 + rs * 0x100 + 0x90 + rm, 0 <= cond <= 0xe, 0 <= s <= 1, 0 <= rd <= 0xf, 0 <= rs <= 0xf, 0 <= rm <= 0xf;
    assert(field(w, 0, 4) == rm);
    assert((NOP_WORD as int / 0x10) % 2 == 0) by (nonlinear_arith);
    assert(field(NOP_WORD, 4, 1) == 0);
    assert(w != NOP_WORD);
}

/// Branch-exchange.
pub open spec fn enc_bx(cond: Word, rm: Word) -> Word {
    (cond * 0x10000000 + 0x1200000 + 0xfff00 + 0x10 + rm) as Word
}

/// Law: decoding this shape's encoding recovers the packed fields.
#[verifier::rlimit(100)]
pub proof fn lemma_round_trip_bx(cond: Word, rm: Word)
    requires
        cond <= 0xe,
        rm <= 0xf,
    ensures
        spec_decode(enc_bx(cond, rm)) == spec_instr_bx(cond, rm),
{
    let w = enc_bx(cond, rm);
    lemma2_to64();
    assert((w as int / 0x10000000) % 0x10 == cond) by (nonlinear_arith)
        requires w == cond * 0x10000000 + 0x1200000 + 0xfff00 + 0x10 + rm, 0 <= cond <= 0xe, 0 <= rm <= 0xf;
    assert(field(w, 28, 4) == cond);
    assert((w as int / 0x800000) % 0x20 == 2) by (nonlinear_arith)
        requires w == cond * 0x10000000 + 0x1200000 + 0xfff00 + 0x10 + rm, 0 <= cond <= 0xe, 0 <= rm <= 0xf;
    assert(field(w, 23, 5) == 2);
    assert((w as int / 0x100000) % 4 == 2) by (nonlinear_arith)
        requires w == cond * 0x10000000 + 0x1200000 + 0xfff00 + 0x10 + rm, 0 <= cond <= 0xe, 0 <= rm <= 0xf;
    assert(field(w, 20, 2) == 2);
    assert((w as int / 0x10000) % 0x10 == 15) by (nonlinear_arith)
        requires w == cond * 0x10000000 + 0x1200000 + 0xfff00 + 0x10 + rm, 0 <= cond <= 0xe, 0 <= rm <= 0xf;
    assert(field(w, 16, 4) == 15);
    assert((w as int / 0x1000) % 0x10 == 15) by (nonlinear_arith)
        requires w == cond * 0x10000000 + 0x1200000 + 0xfff00 + 0x10 + rm, 0 <= cond <= 0xe, 0 <= rm <= 0xf;
    assert(field(w, 12, 4) == 15);
    assert((w as int / 1) % 0x1000 == 0xF10 + rm) by (nonlinear_arith)
        requires w == cond * 0x10000000 + 0x1200000 + 0xfff00 + 0x10 + rm, 0 <= cond <= 0xe, 0 <= rm <= 0xf;
    assert(field(w, 0, 12) == 0xF10 + rm);
    assert((w as int / 0x10) % 0x100 == 0xF1) by (nonlinear_arith)
        requires w == cond * 0x10000000 + 0x1200000 + 0xfff00 + 0x10 + rm, 0 <= cond <= 0xe, 0 <= rm <= 0xf;
    assert(field(w, 4, 8) == 0xF1);
    assert((w as int / 0x100000) % 0x100 == 0x12) by (nonlinear_arith)
        requires w == cond * 0x10000000 + 0x1200000 + 0xfff00 + 0x10 + rm, 0 <= cond <= 0xe, 0 <= rm <= 0xf;
    assert(field(w, 20, 8) == 0x12);
    assert((w as int / 0x100) % 0x1000 == 0xFFF) by (nonlinear_arith)
        requires w == cond * 0x10000000 + 0x1200000 + 0xfff00 + 0x10 + rm, 0 <= cond <= 0xe, 0 <= rm <= 0xf;
    assert(field(w, 8, 12) == 0xFFF);
    assert((w as int / 0x10) % 0x10 == 1) by (nonlinear_arith)
        requires w == cond * 0x10000000 + 0x1200000 + 0xfff00 + 0x10 + rm, 0 <= cond <= 0xe, 0 <= rm <= 0xf;
    assert(field(w, 4, 4) == 1);
    assert((w as int / 1) % 0x10 == rm) by (nonlinear_arith)
        requires w == cond * 0x10000000 + 0x1200000 + 0xfff00 + 0x10 + rm, 0 <= cond <= 0xe, 0 <= rm <= 0xf;
    assert(field(w, 0, 4) == rm);
    assert((NOP_WORD as int / 0x10) % 2 == 0) by (nonlinear_arith);
    assert(field(NOP_WORD, 4, 1) == 0);
    assert(w != NOP_WORD);
}

/// Move from status register.
pub open spec fn enc_mrs(cond: Word, r: Word, rd: Word) -> Word {
    (cond * 0x10000000 + 0x1000000 + r * 0x400000 + 0xf0000 + rd * 0x1000) as Word
}

/// Law: decoding this shape's encoding recovers the packed fields.
#[verifier::rlimit(100)]
pub proof fn lemma_round_trip_mrs(cond: Word, r: Word, rd: Word)
    requires
        cond <= 0xe,
        r <= 1,
        rd <= 0xf,
    ensures
        spec_decode(enc_mrs(cond, r, rd)) == spec_instr_mrs(cond, r, rd),
{
    let w = enc_mrs(cond, r, rd);
    lemma2_to64();
    assert((w as int / 0x10000000) % 0x10 == cond) by (nonlinear_arith)
        requires w == cond * 0x10000000 + 0x1000000 + r * 0x400000 + 0xf0000 + rd * 0x1000, 0 <= cond <= 0xe, 0 <= r <= 1, 0 <= rd <= 0xf;
    assert(field(w, 28, 4) == cond);
    assert((w as int / 0x800000) % 0x20 == 2) by (nonlinear_arith)
        requires w == cond * 0x10000000 + 0x1000000 + r * 0x400000 + 0xf0000 + rd * 0x1000, 0 <= cond <= 0xe, 0 <= r <= 1, 0 <= rd <= 0xf;
    assert(field(w, 23, 5) == 2);
    assert((w as int / 0x100000) % 4 == 0) by (nonlinear_arith)
        requires w == cond * 0x10000000 + 0x1000000 + r * 0x400000 + 0xf0000 + rd * 0x1000, 0 <= cond <= 0xe, 0 <= r <= 1, 0 <= rd <= 0xf;
    assert(field(w, 20, 2) == 0);
    assert((w as int / 0x10000) % 0x10 == 15) by (nonlinear_arith)
        requires w == cond * 0x10000000 + 0x1000000 + r * 0x400000 + 0xf0000 + rd * 0x1000, 0 <= cond <= 0xe, 0 <= r <= 1, 0 <= rd <= 0xf;
    assert(field(w, 16, 4) == 15);
    assert((w as int / 1) % 0x1000 == 0) by (nonlinear_arith)
        requires w == cond * 0x10000000 + 0x1000000 + r * 0x400000 + 0xf0000 + rd * 0x1000, 0 <= cond <= 0xe, 0 <= r <= 1, 0 <= rd <= 0xf;
    assert(field(w, 0, 12) == 0);
    assert((w as int / 0x400000) % 2 == r) by (nonlinear_arith)
        requires w == cond * 0x10000000 + 0x1000000 + r * 0x400000 + 0xf0000 + rd * 0x1000, 0 <= cond <= 0xe, 0 <= r <= 1, 0 <= rd <= 0xf;
    assert(field(w, 22, 1) == r);
    assert((w as int / 0x1000) % 0x10 == rd) by (nonlinear_arith)
        requires w == cond * 0x10000000 + 0x1000000 + r * 0x400000 + 0xf0000 + rd * 0x1000, 0 <= cond <= 0xe, 0 <= r <= 1, 0 <= rd <= 0xf;
    assert(field(w, 12, 4) == rd);
    assert((NOP_WORD as int / 0x800000) % 0x20 == 3) by (nonlinear_arith);
    assert(field(NOP_WORD, 23, 5) == 3);
    assert(w != NOP_WORD);
}

/// Move to status register from a rotated immediate.
pub open spec fn enc_msr_imm(cond: Word, r: Word, fm: Word, rot: Word, imm: Word) -> Word {
    (cond * 0x10000000 + 0x3000000 + r * 0x400000 + 0x200000 + fm * 0x10000 + 0xf000 + rot * 0x100 + imm) as Word
}

/// Law: decoding this shape's encoding recovers the packed fields.
#[verifier::rlimit(100)]
pub proof fn lemma_round_trip_msr_imm(cond: Word, r: Word, fm: Word, rot: Word, imm: Word)
    requires
        cond <= 0xe,
        r <= 1,
        fm <= 0xf,
        rot <= 0xf,
        imm <= 0xff,
    ensures
        spec_decode(enc_msr_imm(cond, r, fm, rot, imm)) == spec_instr_msr_imm(cond, r, fm, rot, imm),
{
    let w = enc_msr_imm(cond, r, fm, rot, imm);
    lemma2_to64();
    assert((w as int / 0x10000000) % 0x10 == cond) by (nonlinear_arith)
        requires w == cond * 0x10000000 + 0x3000000 + r * 0x400000 + 0x200000 + fm * 0x10000 + 0xf000 + rot * 0x100 + imm, 0 <= cond <= 0xe, 0 <= r <= 1, 0 <= fm <= 0xf, 0 <= rot <= 0xf, 0 <= imm <= 0xff;
    assert(field(w, 28, 4) == cond);
    assert((w as int / 0x800000) % 0x20 == 6) by (nonlinear_arith)
        requires w == cond * 0x10000000 + 0x3000000 + r * 0x400000 + 0x200000 + fm * 0x10000 + 0xf000 + rot * 0x100 + imm, 0 <= cond <= 0xe, 0 <= r <= 1, 0 <= fm <= 0xf, 0 <= rot <= 0xf, 0 <= imm <= 0xff;
    assert(field(w, 23, 5) == 6);
    assert((w as int / 0x100000) % 4 == 2) by (nonlinear_arith)
        requires w == cond * 0x10000000 + 0x3000000 + r * 0x400000 + 0x200000 + fm * 0x10000 + 0xf000 + rot * 0x100 + imm, 0 <= cond <= 0xe, 0 <= r <= 1, 0 <= fm <= 0xf, 0 <= rot <= 0xf, 0 <= imm <= 0xff;
    assert(field(w, 20, 2) == 2);
    assert((w as int / 0x1000) % 0x10 == 15) by (nonlinear_arith)
        requires w == cond * 0x10000000 + 0x3000000 + r * 0x400000 + 0x200000 + fm * 0x10000 + 0xf000 + rot * 0x100 + imm, 0 <= cond <= 0xe, 0 <= r <= 1, 0 <= fm <= 0xf, 0 <= rot <= 0xf, 0 <= imm <= 0xff;
    assert(field(w, 12, 4) == 15);
    assert((w as int / 0x400000) % 2 == r) by (nonlinear_arith)
        requires w == cond * 0x10000000 + 0x3000000 + r * 0x400000 + 0x200000 + fm * 0x10000 + 0xf000 + rot * 0x100 + imm, 0 <= cond <= 0xe, 0 <= r <= 1, 0 <= fm <= 0xf, 0 <= rot <= 0xf, 0 <= imm <= 0xff;
    assert(field(w, 22, 1) == r);
    assert((w as int / 0x10000) % 0x10 == fm) by (nonlinear_arith)
        requires w == cond * 0x10000000 + 0x3000000 + r * 0x400000 + 0x200000 + fm * 0x10000 + 0xf000 + rot * 0x100 + imm, 0 <= cond <= 0xe, 0 <= r <= 1, 0 <= fm <= 0xf, 0 <= rot <= 0xf, 0 <= imm <= 0xff;
    assert(field(w, 16, 4) == fm);
    assert((w as int / 0x100) % 0x10 == rot) by (nonlinear_arith)
        requires w == cond * 0x10000000 + 0x3000000 + r * 0x400000 + 0x200000 + fm * 0x10000 + 0xf000 + rot * 0x100 + imm, 0 <= cond <= 0xe, 0 <= r <= 1, 0 <= fm <= 0xf, 0 <= rot <= 0xf, 0 <= imm <= 0xff;
    assert(field(w, 8, 4) == rot);
    assert((w as int / 1) % 0x100 == imm) by (nonlinear_arith)
        requires w == cond * 0x10000000 + 0x3000000 + r * 0x400000 + 0x200000 + fm * 0x10000 + 0xf000 + rot * 0x100 + imm, 0 <= cond <= 0xe, 0 <= r <= 1, 0 <= fm <= 0xf, 0 <= rot <= 0xf, 0 <= imm <= 0xff;
    assert(field(w, 0, 8) == imm);
    assert((NOP_WORD as int / 0x800000) % 0x20 == 3) by (nonlinear_arith);
    assert(field(NOP_WORD, 23, 5) == 3);
    assert(w != NOP_WORD);
}

/// Move to status register from a register.
pub open spec fn enc_msr_reg(cond: Word, r: Word, fm: Word, rm: Word) -> Word {
    (cond * 0x10000000 + 0x1000000 + r * 0x400000 + 0x200000 + fm * 0x10000 + 0xf000 + rm) as Word
}

/// Law: decoding this shape's encoding recovers the packed fields.
#[verifier::rlimit(100)]
pub proof fn lemma_round_trip_msr_reg(cond: Word, r: Word, fm: Word, rm: Word)
    requires
        cond <= 0xe,
        r <= 1,
        fm <= 0xf,
        rm <= 0xf,
    ensures
        spec_decode(enc_msr_reg(cond, r, fm, rm)) == spec_instr_msr_reg(cond, r, fm, rm),
{
    let w = enc_msr_reg(cond, r, fm, rm);
    lemma2_to64();
    assert((w as int / 0x10000000) % 0x10 == cond) by (nonlinear_arith)
        requires w == cond * 0x10000000 + 0x1000000 + r * 0x400000 + 0x200000 + fm * 0x10000 + 0xf000 + rm, 0 <= cond <= 0xe, 0 <= r <= 1, 0 <= fm <= 0xf, 0 <= rm <= 0xf;
    assert(field(w, 28, 4) == cond);
    assert((w as int / 0x800000) % 0x20 == 2) by (nonlinear_arith)
        requires w == cond * 0x10000000 + 0x1000000 + r * 0x400000 + 0x200000 + fm * 0x10000 + 0xf000 + rm, 0 <= cond <= 0xe, 0 <= r <= 1, 0 <= fm <= 0xf, 0 <= rm <= 0xf;
    assert(field(w, 23, 5) == 2);
    assert((w as int / 0x100000) % 4 == 2) by (nonlinear_arith)
        requires w == cond * 0x10000000 + 0x1000000 + r * 0x400000 + 0x200000 + fm * 0x10000 + 0xf000 + rm, 0 <= cond <= 0xe, 0 <= r <= 1, 0 <= fm <= 0xf, 0 <= rm <= 0xf;
    assert(field(w, 20, 2) == 2);
    assert((w as int / 0x1000) % 0x10 == 15) by (nonlinear_arith)
        requires w == cond * 0x10000000 + 0x1000000 + r * 0x400000 + 0x200000 + fm * 0x10000 + 0xf000 + rm, 0 <= cond <= 0xe, 0 <= r <= 1, 0 <= fm <= 0xf, 0 <= rm <= 0xf;
    assert(field(w, 12, 4) == 15);
    assert((w as int / 0x10) % 0x100 == 0) by (nonlinear_arith)
        requires w == cond * 0x10000000 + 0x1000000 + r * 0x400000 + 0x200000 + fm * 0x10000 + 0xf000 + rm, 0 <= cond <= 0xe, 0 <= r <= 1, 0 <= fm <= 0xf, 0 <= rm <= 0xf;
    assert(field(w, 4, 8) == 0);
    assert((w as int / 0x400000) % 2 == r) by (nonlinear_arith)
        requires w == cond * 0x10000000 + 0x1000000 + r * 0x400000 + 0x200000 + fm * 0x10000 + 0xf000 + rm, 0 <= cond <= 0xe, 0 <= r <= 1, 0 <= fm <= 0xf, 0 <= rm <= 0xf;
    assert(field(w, 22, 1) == r);
    assert((w as int / 0x10000) % 0x10 == fm) by (nonlinear_arith)
        requires w == cond * 0x10000000 + 0x1000000 + r * 0x400000 + 0x200000 + fm * 0x10000 + 0xf000 + rm, 0 <= cond <= 0xe, 0 <= r <= 1, 0 <= fm <= 0xf, 0 <= rm <= 0xf;
    assert(field(w, 16, 4) == fm);
    assert((w as int / 1) % 0x10 == rm) by (nonlinear_arith)
        requires w == cond * 0x10000000 + 0x1000000 + r * 0x400000 + 0x200000 + fm * 0x10000 + 0xf000 + rm, 0 <= cond <= 0xe, 0 <= r <= 1, 0 <= fm <= 0xf, 0 <= rm <= 0xf;
    assert(field(w, 0, 4) == rm);
    assert((w as int / 1) % 0x1000 == rm) by (nonlinear_arith)
        requires w == cond * 0x10000000 + 0x1000000 + r * 0x400000 + 0x200000 + fm * 0x10000 + 0xf000 + rm, 0 <= cond <= 0xe, 0 <= r <= 1, 0 <= fm <= 0xf, 0 <= rm <= 0xf;
    assert(field(w, 0, 12) == rm);
    assert((NOP_WORD as int / 0x800000) % 0x20 == 3) by (nonlinear_arith);
    assert(field(NOP_WORD, 23, 5) == 3);
    assert(w != NOP_WORD);
}

/// Word or byte transfer, shifted-register offset, pre-indexed.
pub open spec fn enc_ldrstr_shifted_reg_pre(cond: Word, u: Word, bw: Word, wb: Word, l: Word, rn: Word, rd: Word, imm: Word, st: Word, rm: Word) -> Word {
    (cond * 0x10000000 + 0x6000000 + 0x1000000 + u * 0x800000 + bw * 0x400000 + wb * 0x200000 + l * 0x100000 + rn * 0x10000 + rd * 0x1000 + imm * 0x80 + st * 0x20 + rm) as Word
}

/// Law: decoding this shape's encoding recovers the packed fields.
#[verifier::rlimit(100)]
pub proof fn lemma_round_trip_ldrstr_shifted_reg_pre(cond: Word, u: Word, bw: Word, wb: Word, l: Word, rn: Word, rd: Word, imm: Word, st: Word, rm: Word)
    requires
        cond <= 0xe,
        u <= 1,
        bw <= 1,
        wb <= 1,
        l <= 1,
        rn <= 0xf,
        rd <= 0xf,
        imm <= 0x1f,
        st <= 3,
        rm <= 0xf,
    ensures
        spec_decode(enc_ldrstr_shifted_reg_pre(cond, u, bw, wb, l, rn, rd, imm, st, rm)) == spec_instr_ldrstr_shifted_reg(InstrType::LDRSTRShiftRegPre, true, cond, u, bw, wb, l, rn, rd, imm, st, rm),
{
    let w = enc_ldrstr_shifted_reg_pre(cond, u, bw, wb, l, rn, rd, imm, st, rm);
    lemma2_to64();
    assert((w as int / 0x10000000) % 0x10 == cond) by (nonlinear_arith)
        requires w == cond * 0x10000000 + 0x6000000 + 0x1000000 + u * 0x800000 + bw * 0x400000 + wb * 0x200000 + l * 0x100000 + rn * 0x10000 + rd * 0x1000 + imm * 0x80 + st * 0x20 + rm, 0 <= cond <= 0xe, 0 <= u <= 1, 0 <= bw <= 1, 0 <= wb <= 1, 0 <= l <= 1, 0 <= rn <= 0xf, 0 <= rd <= 0xf, 0 <= imm <= 0x1f, 0 <= st <= 3, 0 <= rm <= 0xf;
    assert(field(w, 28, 4) == cond);
    assert((w as int / 0x2000000) % 8 == 3) by (nonlinear_arith)
        requires w == cond * 0x10000000 + 0x6000000 + 0x1000000 + u * 0x800000 + bw * 0x400000 + wb * 0x200000 + l * 0x100000 + rn * 0x10000 + rd * 0x1000 + imm * 0x80 + st * 0x20 + rm, 0 <= cond <= 0xe, 0 <= u <= 1, 0 <= bw <= 1, 0 <= wb <= 1, 0 <= l <= 1, 0 <= rn <= 0xf, 0 <= rd <= 0xf, 0 <= imm <= 0x1f, 0 <= st <= 3, 0 <= rm <= 0xf;
    assert(field(w, 25, 3) == 3);
    assert((w as int / 0x1000000) % 2 == 1) by (nonlinear_arith)
        requires w == cond * 0x10000000 + 0x6000000 + 0x1000000 + u * 0x800000 + bw * 0x400000 + wb * 0x200000 + l * 0x100000 + rn * 0x10000 + rd * 0x1000 + imm * 0x80 + st * 0x20 + rm, 0 <= cond <= 0xe, 0 <= u <= 1, 0 <= bw <= 1, 0 <= wb <= 1, 0 <= l <= 1, 0 <= rn <= 0xf, 0 <= rd <= 0xf, 0 <= imm <= 0x1f, 0 <= st <= 3, 0 <= rm <= 0xf;
    assert(field(w, 24, 1) == 1);
    assert((w as int / 0x800000) % 0x20 == 12 + 1 * 2 + u) by (nonlinear_arith)
        requires w == cond * 0x10000000 + 0x6000000 + 0x1000000 + u * 0x800000 + bw * 0x400000 + wb * 0x200000 + l * 0x100000 + rn * 0x10000 + rd * 0x1000 + imm * 0x80 + st * 0x20 + rm, 0 <= cond <= 0xe, 0 <= u <= 1, 0 <= bw <= 1, 0 <= wb <= 1, 0 <= l <= 1, 0 <= rn <= 0xf, 0 <= rd <= 0xf, 0 <= imm <= 0x1f, 0 <= st <= 3, 0 <= rm <= 0xf;
    assert(field(w, 23, 5) == 12 + 1 * 2 + u);
    assert((w as int / 0x100000) % 0x100 == 0x60 + 1 * 0x10 + u * 8 + bw * 4 + wb * 2 + l) by (nonlinear_arith)
        requires w == cond * 0x10000000 + 0x6000000 + 0x1000000 + u * 0x800000 + bw * 0x400000 + wb * 0x200000 + l * 0x100000 + rn * 0x10000 + rd * 0x1000 + imm * 0x80 + st * 0x20 + rm, 0 <= cond <= 0xe, 0 <= u <= 1, 0 <= bw <= 1, 0 <= wb <= 1, 0 <= l <= 1, 0 <= rn <= 0xf, 0 <= rd <= 0xf, 0 <= imm <= 0x1f, 0 <= st <= 3, 0 <= rm <= 0xf;
    assert(field(w, 20, 8) == 0x60 + 1 * 0x10 + u * 8 + bw * 4 + wb * 2 + l);
    assert((w as int / 0x10) % 2 == 0) by (nonlinear_arith)
        requires w == cond * 0x10000000 + 0x6000000 + 0x1000000 + u * 0x800000 + bw * 0x400000 + wb * 0x200000 + l * 0x100000 + rn * 0x10000 + rd * 0x1000 + imm * 0x80 + st * 0x20 + rm, 0 <= cond <= 0xe, 0 <= u <= 1, 0 <= bw <= 1, 0 <= wb <= 1, 0 <= l <= 1, 0 <= rn <= 0xf, 0 <= rd <= 0xf, 0 <= imm <= 0x1f, 0 <= st <= 3, 0 <= rm <= 0xf;
    assert(field(w, 4, 1) == 0);
    assert((w as int / 0x800000) % 2 == u) by (nonlinear_arith)
        requires w == cond * 0x10000000 + 0x6000000 + 0x1000000 + u * 0x800000 + bw * 0x400000 + wb * 0x200000 + l * 0x100000 + rn * 0x10000 + rd * 0x1000 + imm * 0x80 + st * 0x20 + rm, 0 <= cond <= 0xe, 0 <= u <= 1, 0 <= bw <= 1, 0 <= wb <= 1, 0 <= l <= 1, 0 <= rn <= 0xf, 0 <= rd <= 0xf, 0 <= imm <= 0x1f, 0 <= st <= 3, 0 <= rm <= 0xf;
    assert(field(w, 23, 1) == u);
    assert((w as int / 0x400000) % 2 == bw) by (nonlinear_arith)
        requires w == cond * 0x10000000 + 0x6000000 + 0x1000000 + u * 0x800000 + bw * 0x400000 + wb * 0x200000 + l * 0x100000 + rn * 0x10000 + rd * 0x1000 + imm * 0x80 + st * 0x20 + rm, 0 <= cond <= 0xe, 0 <= u <= 1, 0 <= bw <= 1, 0 <= wb <= 1, 0 <= l <= 1, 0 <= rn <= 0xf, 0 <= rd <= 0xf, 0 <= imm <= 0x1f, 0 <= st <= 3, 0 <= rm <= 0xf;
    assert(field(w, 22, 1) == bw);
    assert((w as int / 0x200000) % 2 == wb) by (nonlinear_arith)
        requires w == cond * 0x10000000 + 0x6000000 + 0x1000000 + u * 0x800000 + bw * 0x400000 + wb * 0x200000 + l * 0x100000 + rn * 0x10000 + rd * 0x1000 + imm * 0x80 + st * 0x20 + rm, 0 <= cond <= 0xe, 0 <= u <= 1, 0 <= bw <= 1, 0 <= wb <= 1, 0 <= l <= 1, 0 <= rn <= 0xf, 0 <= rd <= 0xf, 0 <= imm <= 0x1f, 0 <= st <= 3, 0 <= rm <= 0xf;
    assert(field(w, 21, 1) == wb);
    assert((w as int / 0x100000) % 2 == l) by (nonlinear_arith)
        requires w == cond * 0x10000000 + 0x6000000 + 0x1000000 + u * 0x800000 + bw * 0x400000 + wb * 0x200000 + l * 0x100000 + rn * 0x10000 + rd * 0x1000 + imm * 0x80 + st * 0x20 + rm, 0 <= cond <= 0xe, 0 <= u <= 1, 0 <= bw <= 1, 0 <= wb <= 1, 0 <= l <= 1, 0 <= rn <= 0xf, 0 <= rd <= 0xf, 0 <= imm <= 0x1f, 0 <= st <= 3, 0 <= rm <= 0xf;
    assert(field(w, 20, 1) == l);
    assert((w as int / 0x10000) % 0x10 == rn) by (nonlinear_arith)
        requires w == cond * 0x10000000 + 0x6000000 + 0x1000000 + u * 0x800000 + bw * 0x400000 + wb * 0x200000 + l * 0x100000 + rn * 0x10000 + rd * 0x1000 + imm * 0x80 + st * 0x20 + rm, 0 <= cond <= 0xe, 0 <= u <= 1, 0 <= bw <= 1, 0 <= wb <= 1, 0 <= l <= 1, 0 <= rn <= 0xf, 0 <= rd <= 0xf, 0 <= imm <= 0x1f, 0 <= st <= 3, 0 <= rm <= 0xf;
    assert(field(w, 16, 4) == rn);
    assert((w as int / 0x1000) % 0x10 == rd) by (nonlinear_arith)
        requires w == cond * 0x10000000 + 0x6000000 + 0x1000000 + u * 0x800000 + bw * 0x400000 + wb * 0x200000 + l * 0x100000 + rn * 0x10000 + rd * 0x1000 + imm * 0x80 + st * 0x20 + rm, 0 <= cond <= 0xe, 0 <= u <= 1, 0 <= bw <= 1, 0 <= wb <= 1, 0 <= l <= 1, 0 <= rn <= 0xf, 0 <= rd <= 0xf, 0 <= imm <= 0x1f, 0 <= st <= 3, 0 <= rm <= 0xf;
    assert(field(w, 12, 4) == rd);
    assert((w as int / 0x80) % 0x20 == imm) by (nonlinear_arith)
        requires w == cond * 0x10000000 + 0x6000000 + 0x1000000 + u * 0x800000 + bw * 0x400000 + wb * 0x200000 + l * 0x100000 + rn * 0x10000 + rd * 0x1000 + imm * 0x80 + st * 0x20 + rm, 0 <= cond <= 0xe, 0 <= u <= 1, 0 <= bw <= 1, 0 <= wb <= 1, 0 <= l <= 1, 0 <= rn <= 0xf, 0 <= rd <= 0xf, 0 <= imm <= 0x1f, 0 <= st <= 3, 0 <= rm <= 0xf;
    assert(field(w, 7, 5) == imm);
    assert((w as int / 0x20) % 4 == st) by (nonlinear_arith)
        requires w == cond * 0x10000000 + 0x6000000 + 0x1000000 + u * 0x800000 + bw * 0x400000 + wb * 0x200000 + l * 0x100000 + rn * 0x10000 + rd * 0x1000 + imm * 0x80 + st * 0x20 + rm, 0 <= cond <= 0xe, 0 <= u <= 1, 0 <= bw <= 1, 0 <= wb <= 1, 0 <= l <= 1, 0 <= rn <= 0xf, 0 <= rd <= 0xf, 0 <= imm <= 0x1f, 0 <= st <= 3, 0 <= rm <= 0xf;
    assert(field(w, 5, 2) == st);
    assert((w as int / 1) % 0x10 == rm) by (nonlinear_arith)
        requires w == cond * 0x10000000 + 0x6000000 + 0x1000000 + u * 0x800000 + bw * 0x400000 + wb * 0x200000 + l * 0x100000 + rn * 0x10000 + rd * 0x1000 + imm * 0x80 + st * 0x20 + rm, 0 <= cond <= 0xe, 0 <= u <= 1, 0 <= bw <= 1, 0 <= wb <= 1, 0 <= l <= 1, 0 <= rn <= 0xf, 0 <= rd <= 0xf, 0 <= imm <= 0x1f, 0 <= st <= 3, 0 <= rm <= 0xf;
    assert(field(w, 0, 4) == rm);
    assert((NOP_WORD as int / 0x2000000) % 8 == 0) by (nonlinear_arith);
    assert(field(NOP_WORD, 25, 3) == 0);
    assert(w != NOP_WORD);
}

/// Word or byte transfer, shifted-register offset, post-indexed.
pub open spec fn enc_ldrstr_shifted_reg_post(cond: Word, u: Word, bw: Word, wb: Word, l: Word, rn: Word, rd: Word, imm: Word, st: Word, rm: Word) -> Word {
    (cond * 0x10000000 + 0x6000000 + 0 + u * 0x800000 + bw * 0x400000 + wb * 0x200000 + l * 0x100000 + rn * 0x10000 + rd * 0x1000 + imm * 0x80 + st * 0x20 + rm) as Word
}

/// Law: decoding this shape's encoding recovers the packed fields.
#[verifier::rlimit(100)]
pub proof fn lemma_round_trip_ldrstr_shifted_reg_post(cond: Word, u: Word, bw: Word, wb: Word, l: Word, rn: Word, rd: Word, imm: Word, st: Word, rm: Word)
    requires
        cond <= 0xe,
        u <= 1,
        bw <= 1,
        wb <= 1,
        l <= 1,
        rn <= 0xf,
        rd <= 0xf,
        imm <= 0x1f,
        st <= 3,
        rm <= 0xf,
    ensures
        spec_decode(enc_ldrstr_shifted_reg_post(cond, u, bw, wb, l, rn, rd, imm, st, rm)) == spec_instr_ldrstr_shifted_reg(InstrType::LDRSTRShiftRegPost, false, cond, u, bw, wb, l, rn, rd, imm, st, rm),
{
    let w = enc_ldrstr_shifted_reg_post(cond, u, bw, wb, l, rn, rd, imm, st, rm);
    lemma2_to64();
    assert((w as int / 0x10000000) % 0x10 == cond) by (nonlinear_arith)
        requires w == cond * 0x10000000 + 0x6000000 + 0 + u * 0x800000 + bw * 0x400000 + wb * 0x200000 + l * 0x100000 + rn * 0x10000 + rd * 0x1000 + imm * 0x80 + st * 0x20 + rm, 0 <= cond <= 0xe, 0 <= u <= 1, 0 <= bw <= 1, 0 <= wb <= 1, 0 <= l <= 1, 0 <= rn <= 0xf, 0 <= rd <= 0xf, 0 <= imm <= 0x1f, 0 <= st <= 3, 0 <= rm <= 0xf;
    assert(field(w, 28, 4) == cond);
    assert((w as int / 0x2000000) % 8 == 3) by (nonlinear_arith)
        requires w == cond * 0x10000000 + 0x6000000 + 0 + u * 0x800000 + bw * 0x400000 + wb * 0x200000 + l * 0x100000 + rn * 0x10000 + rd * 0x1000 + imm * 0x80 + st * 0x20 + rm, 0 <= cond <= 0xe, 0 <= u <= 1, 0 <= bw <= 1, 0 <= wb <= 1, 0 <= l <= 1, 0 <= rn <= 0xf, 0 <= rd <= 0xf, 0 <= imm <= 0x1f, 0 <= st <= 3, 0 <= rm <= 0xf;
    assert(field(w, 25, 3) == 3);
    assert((w as int / 0x1000000) % 2 == 0) by (nonlinear_arith)
        requires w == cond * 0x10000000 + 0x6000000 + 0 + u * 0x800000 + bw * 0x400000 + wb * 0x200000 + l * 0x100000 + rn * 0x10000 + rd * 0x1000 + imm * 0x80 + st * 0x20 + rm, 0 <= cond <= 0xe, 0 <= u <= 1, 0 <= bw <= 1, 0 <= wb <= 1, 0 <= l <= 1, 0 <= rn <= 0xf, 0 <= rd <= 0xf, 0 <= imm <= 0x1f, 0 <= st <= 3, 0 <= rm <= 0xf;
    assert(field(w, 24, 1) == 0);
    assert((w as int / 0x800000) % 0x20 == 12 + 0 * 2 + u) by (nonlinear_arith)
        requires w == cond * 0x10000000 + 0x6000000 + 0 + u * 0x800000 + bw * 0x400000 + wb * 0x200000 + l * 0x100000 + rn * 0x10000 + rd * 0x1000 + imm * 0x80 + st * 0x20 + rm, 0 <= cond <= 0xe, 0 <= u <= 1, 0 <= bw <= 1, 0 <= wb <= 1, 0 <= l <= 1, 0 <= rn <= 0xf, 0 <= rd <= 0xf, 0 <= imm <= 0x1f, 0 <= st <= 3, 0 <= rm <= 0xf;
    assert(field(w, 23, 5) == 12 + 0 * 2 + u);
    assert((w as int / 0x100000) % 0x100 == 0x60 + 0 * 0x10 + u * 8 + bw * 4 + wb * 2 + l) by (nonlinear_arith)
        requires w == cond * 0x10000000 + 0x6000000 + 0 + u * 0x800000 + bw * 0x400000 + wb * 0x200000 + l * 0x100000 + rn * 0x10000 + rd * 0x1000 + imm * 0x80 + st * 0x20 + rm, 0 <= cond <= 0xe, 0 <= u <= 1, 0 <= bw <= 1, 0 <= wb <= 1, 0 <= l <= 1, 0 <= rn <= 0xf, 0 <= rd <= 0xf, 0 <= imm <= 0x1f, 0 <= st <= 3, 0 <= rm <= 0xf;
    assert(field(w, 20, 8) == 0x60 + 0 * 0x10 + u * 8 + bw * 4 + wb * 2 + l);
    assert((w as int / 0x10) % 2 == 0) by (nonlinear_arith)
        requires w == cond * 0x10000000 + 0x6000000 + 0 + u * 0x800000 + bw * 0x400000 + wb * 0x200000 + l * 0x100000 + rn * 0x10000 + rd * 0x1000 + imm * 0x80 + st * 0x20 + rm, 0 <= cond <= 0xe, 0 <= u <= 1, 0 <= bw <= 1, 0 <= wb <= 1, 0 <= l <= 1, 0 <= rn <= 0xf, 0 <= rd <= 0xf, 0 <= imm <= 0x1f, 0 <= st <= 3, 0 <= rm <= 0xf;
    assert(field(w, 4, 1) == 0);
    assert((w as int / 0x800000) % 2 == u) by (nonlinear_arith)
        requires w == cond * 0x10000000 + 0x6000000 + 0 + u * 0x800000 + bw * 0x400000 + wb * 0x200000 + l * 0x100000 + rn * 0x10000 + rd * 0x1000 + imm * 0x80 + st * 0x20 + rm, 0 <= cond <= 0xe, 0 <= u <= 1, 0 <= bw <= 1, 0 <= wb <= 1, 0 <= l <= 1, 0 <= rn <= 0xf, 0 <= rd <= 0xf, 0 <= imm <= 0x1f, 0 <= st <= 3, 0 <= rm <= 0xf;
    assert(field(w, 23, 1) == u);
    assert((w as int / 0x400000) % 2 == bw) by (nonlinear_arith)
        requires w == cond * 0x10000000 + 0x6000000 + 0 + u * 0x800000 + bw * 0x400000 + wb * 0x200000 + l * 0x100000 + rn * 0x10000 + rd * 0x1000 + imm * 0x80 + st * 0x20 + rm, 0 <= cond <= 0xe, 0 <= u <= 1, 0 <= bw <= 1, 0 <= wb <= 1, 0 <= l <= 1, 0 <= rn <= 0xf, 0 <= rd <= 0xf, 0 <= imm <= 0x1f, 0 <= st <= 3, 0 <= rm <= 0xf;
    assert(field(w, 22, 1) == bw);
    assert((w as int / 0x200000) % 2 == wb) by (nonlinear_arith)
        requires w == cond * 0x10000000 + 0x6000000 + 0 + u * 0x800000 + bw * 0x400000 + wb * 0x200000 + l * 0x100000 + rn * 0x10000 + rd * 0x1000 + imm * 0x80 + st * 0x20 + rm, 0 <= cond <= 0xe, 0 <= u <= 1, 0 <= bw <= 1, 0 <= wb <= 1, 0 <= l <= 1, 0 <= rn <= 0xf, 0 <= rd <= 0xf, 0 <= imm <= 0x1f, 0 <= st <= 3, 0 <= rm <= 0xf;
    assert(field(w, 21, 1) == wb);
    assert((w as int / 0x100000) % 2 == l) by (nonlinear_arith)
        requires w == cond * 0x10000000 + 0x6000000 + 0 + u * 0x800000 + bw * 0x400000 + wb * 0x200000 + l * 0x100000 + rn * 0x10000 + rd * 0x1000 + imm * 0x80 + st * 0x20 + rm, 0 <= cond <= 0xe, 0 <= u <= 1, 0 <= bw <= 1, 0 <= wb <= 1, 0 <= l <= 1, 0 <= rn <= 0xf, 0 <= rd <= 0xf, 0 <= imm <= 0x1f, 0 <= st <= 3, 0 <= rm <= 0xf;
    assert(field(w, 20, 1) == l);
    assert((w as int / 0x10000) % 0x10 == rn) by (nonlinear_arith)
        requires w == cond * 0x10000000 + 0x6000000 + 0 + u * 0x800000 + bw * 0x400000 + wb * 0x200000 + l * 0x100000 + rn * 0x10000 + rd * 0x1000 + imm * 0x80 + st * 0x20 + rm, 0 <= cond <= 0xe, 0 <= u <= 1, 0 <= bw <= 1, 0 <= wb <= 1, 0 <= l <= 1, 0 <= rn <= 0xf, 0 <= rd <= 0xf, 0 <= imm <= 0x1f, 0 <= st <= 3, 0 <= rm <= 0xf;
    assert(field(w, 16, 4) == rn);
    assert((w as int / 0x1000) % 0x10 == rd) by (nonlinear_arith)
        requires w == cond * 0x10000000 + 0x6000000 + 0 + u * 0x800000 + bw * 0x400000 + wb * 0x200000 + l * 0x100000 + rn * 0x10000 + rd * 0x1000 + imm * 0x80 + st * 0x20 + rm, 0 <= cond <= 0xe, 0 <= u <= 1, 0 <= bw <= 1, 0 <= wb <= 1, 0 <= l <= 1, 0 <= rn <= 0xf, 0 <= rd <= 0xf, 0 <= imm <= 0x1f, 0 <= st <= 3, 0 <= rm <= 0xf;
    assert(field(w, 12, 4) == rd);
    assert((w as int / 0x80) % 0x20 == imm) by (nonlinear_arith)
        requires w == cond * 0x10000000 + 0x6000000 + 0 + u * 0x800000 + bw * 0x400000 + wb * 0x200000 + l * 0x100000 + rn * 0x10000 + rd * 0x1000 + imm * 0x80 + st * 0x20 + rm, 0 <= cond <= 0xe, 0 <= u <= 1, 0 <= bw <= 1, 0 <= wb <= 1, 0 <= l <= 1, 0 <= rn <= 0xf, 0 <= rd <= 0xf, 0 <= imm <= 0x1f, 0 <= st <= 3, 0 <= rm <= 0xf;
    assert(field(w, 7, 5) == imm);
    assert((w as int / 0x20) % 4 == st) by (nonlinear_arith)
        requires w == cond * 0x10000000 + 0x6000000 + 0 + u * 0x800000 + bw * 0x400000 + wb * 0x200000 + l * 0x100000 + rn * 0x10000 + rd * 0x1000 + imm * 0x80 + st * 0x20 + rm, 0 <= cond <= 0xe, 0 <= u <= 1, 0 <= bw <= 1, 0 <= wb <= 1, 0 <= l <= 1, 0 <= rn <= 0xf, 0 <= rd <= 0xf, 0 <= imm <= 0x1f, 0 <= st <= 3, 0 <= rm <= 0xf;
    assert(field(w, 5, 2) == st);
    assert((w as int / 1) % 0x10 == rm) by (nonlinear_arith)
        requires w == cond * 0x10000000 + 0x6000000 + 0 + u * 0x800000 + bw * 0x400000 + wb * 0x200000 + l * 0x100000 + rn * 0x10000 + rd * 0x1000 + imm * 0x80 + st * 0x20 + rm, 0 <= cond <= 0xe, 0 <= u <= 1, 0 <= bw <= 1, 0 <= wb <= 1, 0 <= l <= 1, 0 <= rn <= 0xf, 0 <= rd <= 0xf, 0 <= imm <= 0x1f, 0 <= st <= 3, 0 <= rm <= 0xf;
    assert(field(w, 0, 4) == rm);
    assert((NOP_WORD as int / 0x2000000) % 8 == 0) by (nonlinear_arith);
    assert(field(NOP_WORD, 25, 3) == 0);
    assert(w != NOP_WORD);
}

/// Word or byte transfer, immediate offset, pre-indexed.
pub open spec fn enc_ldrstr_imm_pre(cond: Word, u: Word, bw: Word, wb: Word, l: Word, rn: Word, rd: Word, imm: Word) -> Word {
    (cond * 0x10000000 + 0x4000000 + 0x1000000 + u * 0x800000 + bw * 0x400000 + wb * 0x200000 + l * 0x100000 + rn * 0x10000 + rd * 0x1000 + imm) as Word
}

/// Law: decoding this shape's encoding recovers the packed fields.
#[verifier::rlimit(100)]
pub proof fn lemma_round_trip_ldrstr_imm_pre(cond: Word, u: Word, bw: Word, wb: Word, l: Word, rn: Word, rd: Word, imm: Word)
    requires
        cond <= 0xe,
        u <= 1,
        bw <= 1,
        wb <= 1,
        l <= 1,
        rn <= 0xf,
        rd <= 0xf,
        imm <= 0xfff,
    ensures
        spec_decode(enc_ldrstr_imm_pre(cond, u, bw, wb, l, rn, rd, imm)) == spec_instr_ldrstr_imm(InstrType::LDRSTRImmPre, true, cond, u, bw, wb, l, rn, rd, imm),
{
    let w = enc_ldrstr_imm_pre(cond, u, bw, wb, l, rn, rd, imm);
    lemma2_to64();
    assert((w as int / 0x10000000) % 0x10 == cond) by (nonlinear_arith)
        requires w == cond * 0x10000000 + 0x4000000 + 0x1000000 + u * 0x800000 + bw * 0x400000 + wb * 0x200000 + l * 0x100000 + rn * 0x10000 + rd * 0x1000 + imm, 0 <= cond <= 0xe, 0 <= u <= 1, 0 <= bw <= 1, 0 <= wb <= 1, 0 <= l <= 1, 0 <= rn <= 0xf, 0 <= rd <= 0xf, 0 <= imm <= 0xfff;
    assert(field(w, 28, 4) == cond);
    assert((w as int / 0x2000000) % 8 == 2) by (nonlinear_arith)
        requires w == cond * 0x10000000 + 0x4000000 + 0x1000000 + u * 0x800000 + bw * 0x400000 + wb * 0x200000 + l * 0x100000 + rn * 0x10000 + rd * 0x1000 + imm, 0 <= cond <= 0xe, 0 <= u <= 1, 0 <= bw <= 1, 0 <= wb <= 1, 0 <= l <= 1, 0 <= rn <= 0xf, 0 <= rd <= 0xf, 0 <= imm <= 0xfff;
    assert(field(w, 25, 3) == 2);
    assert((w as int / 0x1000000) % 2 == 1) by (nonlinear_arith)
        requires w == cond * 0x10000000 + 0x4000000 + 0x1000000 + u * 0x800000 + bw * 0x400000 + wb * 0x200000 + l * 0x100000 + rn * 0x10000 + rd * 0x1000 + imm, 0 <= cond <= 0xe, 0 <= u <= 1, 0 <= bw <= 1, 0 <= wb <= 1, 0 <= l <= 1, 0 <= rn <= 0xf, 0 <= rd <= 0xf, 0 <= imm <= 0xfff;
    assert(field(w, 24, 1) == 1);
    assert((w as int / 0x800000) % 0x20 == 8 + 1 * 2 + u) by (nonlinear_arith)
        requires w == cond * 0x10000000 + 0x4000000 + 0x1000000 + u * 0x800000 + bw * 0x400000 + wb * 0x200000 + l * 0x100000 + rn * 0x10000 + rd * 0x1000 + imm, 0 <= cond <= 0xe, 0 <= u <= 1, 0 <= bw <= 1, 0 <= wb <= 1, 0 <= l <= 1, 0 <= rn <= 0xf, 0 <= rd <= 0xf, 0 <= imm <= 0xfff;
    assert(field(w, 23, 5) == 8 + 1 * 2 + u);
    assert((w as int / 0x100000) % 0x100 == 0x40 + 1 * 0x10 + u * 8 + bw * 4 + wb * 2 + l) by (nonlinear_arith)
        requires w == cond * 0x10000000 + 0x4000000 + 0x1000000 + u * 0x800000 + bw * 0x400000 + wb * 0x200000 + l * 0x100000 + rn * 0x10000 + rd * 0x1000 + imm, 0 <= cond <= 0xe, 0 <= u <= 1, 0 <= bw <= 1, 0 <= wb <= 1, 0 <= l <= 1, 0 <= rn <= 0xf, 0 <= rd <= 0xf, 0 <= imm <= 0xfff;
    assert(field(w, 20, 8) == 0x40 + 1 * 0x10 + u * 8 + bw * 4 + wb * 2 + l);
    assert((w as int / 0x800000) % 2 == u) by (nonlinear_arith)
        requires w == cond * 0x10000000 + 0x4000000 + 0x1000000 + u * 0x800000 + bw * 0x400000 + wb * 0x200000 + l * 0x100000 + rn * 0x10000 + rd * 0x1000 + imm, 0 <= cond <= 0xe, 0 <= u <= 1, 0 <= bw <= 1, 0 <= wb <= 1, 0 <= l <= 1, 0 <= rn <= 0xf, 0 <= rd <= 0xf, 0 <= imm <= 0xfff;
    assert(field(w, 23, 1) == u);
    assert((w as int / 0x400000) % 2 == bw) by (nonlinear_arith)
        requires w == cond * 0x10000000 + 0x4000000 + 0x1000000 + u * 0x800000 + bw * 0x400000 + wb * 0x200000 + l * 0x100000 + rn * 0x10000 + rd * 0x1000 + imm, 0 <= cond <= 0xe, 0 <= u <= 1, 0 <= bw <= 1, 0 <= wb <= 1, 0 <= l <= 1, 0 <= rn <= 0xf, 0 <= rd <= 0xf, 0 <= imm <= 0xfff;
    assert(field(w, 22, 1) == bw);
    assert((w as int / 0x200000) % 2 == wb) by (nonlinear_arith)
        requires w == cond * 0x10000000 + 0x4000000 + 0x1000000 + u * 0x800000 + bw * 0x400000 + wb * 0x200000 + l * 0x100000 + rn * 0x10000 + rd * 0x1000 + imm, 0 <= cond <= 0xe, 0 <= u <= 1, 0 <= bw <= 1, 0 <= wb <= 1, 0 <= l <= 1, 0 <= rn <= 0xf, 0 <= rd <= 0xf, 0 <= imm <= 0xfff;
    assert(field(w, 21, 1) == wb);
    assert((w as int / 0x100000) % 2 == l) by (nonlinear_arith)
        requires w == cond * 0x10000000 + 0x4000000 + 0x1000000 + u * 0x800000 + bw * 0x400000 + wb * 0x200000 + l * 0x100000 + rn * 0x10000 + rd * 0x1000 + imm, 0 <= cond <= 0xe, 0 <= u <= 1, 0 <= bw <= 1, 0 <= wb <= 1, 0 <= l <= 1, 0 <= rn <= 0xf, 0 <= rd <= 0xf, 0 <= imm <= 0xfff;
    assert(field(w, 20, 1) == l);
    assert((w as int / 0x10000) % 0x10 == rn) by (nonlinear_arith)
        requires w == cond * 0x10000000 + 0x4000000 + 0x1000000 + u * 0x800000 + bw * 0x400000 + wb * 0x200000 + l * 0x100000 + rn * 0x10000 + rd * 0x1000 + imm, 0 <= cond <= 0xe, 0 <= u <= 1, 0 <= bw <= 1, 0 <= wb <= 1, 0 <= l <= 1, 0 <= rn <= 0xf, 0 <= rd <= 0xf, 0 <= imm <= 0xfff;
    assert(field(w, 16, 4) == rn);
    assert((w as int / 0x1000) % 0x10 == rd) by (nonlinear_arith)
        requires w == cond * 0x10000000 + 0x4000000 + 0x1000000 + u * 0x800000 + bw * 0x400000 + wb * 0x200000 + l * 0x100000 + rn * 0x10000 + rd * 0x1000 + imm, 0 <= cond <= 0xe, 0 <= u <= 1, 0 <= bw <= 1, 0 <= wb <= 1, 0 <= l <= 1, 0 <= rn <= 0xf, 0 <= rd <= 0xf, 0 <= imm <= 0xfff;
    assert(field(w, 12, 4) == rd);
    assert((w as int / 1) % 0x1000 == imm) by (nonlinear_arith)
        requires w == cond * 0x10000000 + 0x4000000 + 0x1000000 + u * 0x800000 + bw * 0x400000 + wb * 0x200000 + l * 0x100000 + rn * 0x10000 + rd * 0x1000 + imm, 0 <= cond <= 0xe, 0 <= u <= 1, 0 <= bw <= 1, 0 <= wb <= 1, 0 <= l <= 1, 0 <= rn <= 0xf, 0 <= rd <= 0xf, 0 <= imm <= 0xfff;
    assert(field(w, 0, 12) == imm);
    assert((NOP_WORD as int / 0x2000000) % 8 == 0) by (nonlinear_arith);
    assert(field(NOP_WORD, 25, 3) == 0);
    assert(w != NOP_WORD);
}

/// Word or byte transfer, immediate offset, post-indexed.
pub open spec fn enc_ldrstr_imm_post(cond: Word, u: Word, bw: Word, wb: Word, l: Word, rn: Word, rd: Word, imm: Word) -> Word {
    (cond * 0x10000000 + 0x4000000 + 0 + u * 0x800000 + bw * 0x400000 + wb * 0x200000 + l * 0x100000 + rn * 0x10000 + rd * 0x1000 + imm) as Word
}

/// Law: decoding this shape's encoding recovers the packed fields.
#[verifier::rlimit(100)]
pub proof fn lemma_round_trip_ldrstr_imm_post(cond: Word, u: Word, bw: Word, wb: Word, l: Word, rn: Word, rd: Word, imm: Word)
    requires
        cond <= 0xe,
        u <= 1,
        bw <= 1,
        wb <= 1,
        l <= 1,
        rn <= 0xf,
        rd <= 0xf,
        imm <= 0xfff,
    ensures
        spec_decode(enc_ldrstr_imm_post(cond, u, bw, wb, l, rn, rd, imm)) == spec_instr_ldrstr_imm(InstrType::LDRSTRImmPost, false, cond, u, bw, wb, l, rn, rd, imm),
{
    let w = enc_ldrstr_imm_post(cond, u, bw, wb, l, rn, rd, imm);
    lemma2_to64();
    assert((w as int / 0x10000000) % 0x10 == cond) by (nonlinear_arith)
        requires w == cond * 0x10000000 + 0x4000000 + 0 + u * 0x800000 + bw * 0x400000 + wb * 0x200000 + l * 0x100000 + rn * 0x10000 + rd * 0x1000 + imm, 0 <= cond <= 0xe, 0 <= u <= 1, 0 <= bw <= 1, 0 <= wb <= 1, 0 <= l <= 1, 0 <= rn <= 0xf, 0 <= rd <= 0xf, 0 <= imm <= 0xfff;
    assert(field(w, 28, 4) == cond);
    assert((w as int / 0x2000000) % 8 == 2) by (nonlinear_arith)
        requires w == cond * 0x10000000 + 0x4000000 + 0 + u * 0x800000 + bw * 0x400000 + wb * 0x200000 + l * 0x100000 + rn * 0x10000 + rd * 0x1000 + imm, 0 <= cond <= 0xe, 0 <= u <= 1, 0 <= bw <= 1, 0 <= wb <= 1, 0 <= l <= 1, 0 <= rn <= 0xf, 0 <= rd <= 0xf, 0 <= imm <= 0xfff;
    assert(field(w, 25, 3) == 2);
    assert((w as int / 0x1000000) % 2 == 0) by (nonlinear_arith)
        requires w == cond * 0x10000000 + 0x4000000 + 0 + u * 0x800000 + bw * 0x400000 + wb * 0x200000 + l * 0x100000 + rn * 0x10000 + rd * 0x1000 + imm, 0 <= cond <= 0xe, 0 <= u <= 1, 0 <= bw <= 1, 0 <= wb <= 1, 0 <= l <= 1, 0 <= rn <= 0xf, 0 <= rd <= 0xf, 0 <= imm <= 0xfff;
    assert(field(w, 24, 1) == 0);
    assert((w as int / 0x800000) % 0x20 == 8 + 0 * 2 + u) by (nonlinear_arith)
        requires w == cond * 0x10000000 + 0x4000000 + 0 + u * 0x800000 + bw * 0x400000 + wb * 0x200000 + l * 0x100000 + rn * 0x10000 + rd * 0x1000 + imm, 0 <= cond <= 0xe, 0 <= u <= 1, 0 <= bw <= 1, 0 <= wb <= 1, 0 <= l <= 1, 0 <= rn <= 0xf, 0 <= rd <= 0xf, 0 <= imm <= 0xfff;
    assert(field(w, 23, 5) == 8 + 0 * 2 + u);
    assert((w as int / 0x100000) % 0x100 == 0x40 + 0 * 0x10 + u * 8 + bw * 4 + wb * 2 + l) by (nonlinear_arith)
        requires w == cond * 0x10000000 + 0x4000000 + 0 + u * 0x800000 + bw * 0x400000 + wb * 0x200000 + l * 0x100000 + rn * 0x10000 + rd * 0x1000 + imm, 0 <= cond <= 0xe, 0 <= u <= 1, 0 <= bw <= 1, 0 <= wb <= 1, 0 <= l <= 1, 0 <= rn <= 0xf, 0 <= rd <= 0xf, 0 <= imm <= 0xfff;
    assert(field(w, 20, 8) == 0x40 + 0 * 0x10 + u * 8 + bw * 4 + wb * 2 + l);
    assert((w as int / 0x800000) % 2 == u) by (nonlinear_arith)
        requires w == cond * 0x10000000 + 0x4000000 + 0 + u * 0x800000 + bw * 0x400000 + wb * 0x200000 + l * 0x100000 + rn * 0x10000 + rd * 0x1000 + imm, 0 <= cond <= 0xe, 0 <= u <= 1, 0 <= bw <= 1, 0 <= wb <= 1, 0 <= l <= 1, 0 <= rn <= 0xf, 0 <= rd <= 0xf, 0 <= imm <= 0xfff;
    assert(field(w, 23, 1) == u);
    assert((w as int / 0x400000) % 2 == bw) by (nonlinear_arith)
        requires w == cond * 0x10000000 + 0x4000000 + 0 + u * 0x800000 + bw * 0x400000 + wb * 0x200000 + l * 0x100000 + rn * 0x10000 + rd * 0x1000 + imm, 0 <= cond <= 0xe, 0 <= u <= 1, 0 <= bw <= 1, 0 <= wb <= 1, 0 <= l <= 1, 0 <= rn <= 0xf, 0 <= rd <= 0xf, 0 <= imm <= 0xfff;
    assert(field(w, 22, 1) == bw);
    assert((w as int / 0x200000) % 2 == wb) by (nonlinear_arith)
        requires w == cond * 0x10000000 + 0x4000000 + 0 + u * 0x800000 + bw * 0x400000 + wb * 0x200000 + l * 0x100000 + rn * 0x10000 + rd * 0x1000 + imm, 0 <= cond <= 0xe, 0 <= u <= 1, 0 <= bw <= 1, 0 <= wb <= 1, 0 <= l <= 1, 0 <= rn <= 0xf, 0 <= rd <= 0xf, 0 <= imm <= 0xfff;
    assert(field(w, 21, 1) == wb);
    assert((w as int / 0x100000) % 2 == l) by (nonlinear_arith)
        requires w == cond * 0x10000000 + 0x4000000 + 0 + u * 0x800000 + bw * 0x400000 + wb * 0x200000 + l * 0x100000 + rn * 0x10000 + rd * 0x1000 + imm, 0 <= cond <= 0xe, 0 <= u <= 1, 0 <= bw <= 1, 0 <= wb <= 1, 0 <= l <= 1, 0 <= rn <= 0xf, 0 <= rd <= 0xf, 0 <= imm <= 0xfff;
    assert(field(w, 20, 1) == l);
    assert((w as int / 0x10000) % 0x10 == rn) by (nonlinear_arith)
        requires w == cond * 0x10000000 + 0x4000000 + 0 + u * 0x800000 + bw * 0x400000 + wb * 0x200000 + l * 0x100000 + rn * 0x10000 + rd * 0x1000 + imm, 0 <= cond <= 0xe, 0 <= u <= 1, 0 <= bw <= 1, 0 <= wb <= 1, 0 <= l <= 1, 0 <= rn <= 0xf, 0 <= rd <= 0xf, 0 <= imm <= 0xfff;
    assert(field(w, 16, 4) == rn);
    assert((w as int / 0x1000) % 0x10 == rd) by (nonlinear_arith)
        requires w == cond * 0x10000000 + 0x4000000 + 0 + u * 0x800000 + bw * 0x400000 + wb * 0x200000 + l * 0x100000 + rn * 0x10000 + rd * 0x1000 + imm, 0 <= cond <= 0xe, 0 <= u <= 1, 0 <= bw <= 1, 0 <= wb <= 1, 0 <= l <= 1, 0 <= rn <= 0xf, 0 <= rd <= 0xf, 0 <= imm <= 0xfff;
    assert(field(w, 12, 4) == rd);
    assert((w as int / 1) % 0x1000 == imm) by (nonlinear_arith)
        requires w == cond * 0x10000000 + 0x4000000 + 0 + u * 0x800000 + bw * 0x400000 + wb * 0x200000 + l * 0x100000 + rn * 0x10000 + rd * 0x1000 + imm, 0 <= cond <= 0xe, 0 <= u <= 1, 0 <= bw <= 1, 0 <= wb <= 1, 0 <= l <= 1, 0 <= rn <= 0xf, 0 <= rd <= 0xf, 0 <= imm <= 0xfff;
    assert(field(w, 0, 12) == imm);
    assert((NOP_WORD as int / 0x2000000) % 8 == 0) by (nonlinear_arith);
    assert(field(NOP_WORD, 25, 3) == 0);
    assert(w != NOP_WORD);
}

/// Word or byte transfer, plain register offset, pre-indexed: its encoding is the zero-shift form of the shifted template, and decodes as such.
pub open spec fn enc_ldrstr_reg_pre(cond: Word, u: Word, bw: Word, wb: Word, l: Word, rn: Word, rd: Word, rm: Word) -> Word {
    (cond * 0x10000000 + 0x6000000 + 0x1000000 + u * 0x800000 + bw * 0x400000 + wb * 0x200000 + l * 0x100000 + rn * 0x10000 + rd * 0x1000 + rm) as Word
}

/// Law: decoding this shape's encoding recovers the packed fields.
#[verifier::rlimit(100)]
pub proof fn lemma_round_trip_ldrstr_reg_pre(cond: Word, u: Word, bw: Word, wb: Word, l: Word, rn: Word, rd: Word, rm: Word)
    requires
        cond <= 0xe,
        u <= 1,
        bw <= 1,
        wb <= 1,
        l <= 1,
        rn <= 0xf,
        rd <= 0xf,
        rm <= 0xf,
    ensures
        spec_decode(enc_ldrstr_reg_pre(cond, u, bw, wb, l, rn, rd, rm)) == spec_instr_ldrstr_shifted_reg(InstrType::LDRSTRShiftRegPre, true, cond, u, bw, wb, l, rn, rd, 0, 0, rm),
{
    let w = enc_ldrstr_reg_pre(cond, u, bw, wb, l, rn, rd, rm);
    lemma2_to64();
    assert((w as int / 0x10000000) % 0x10 == cond) by (nonlinear_arith)
        requires w == cond * 0x10000000 + 0x6000000 + 0x1000000 + u * 0x800000 + bw * 0x400000 + wb * 0x200000 + l * 0x100000 + rn * 0x10000 + rd * 0x1000 + rm, 0 <= cond <= 0xe, 0 <= u <= 1, 0 <= bw <= 1, 0 <= wb <= 1, 0 <= l <= 1, 0 <= rn <= 0xf, 0 <= rd <= 0xf, 0 <= rm <= 0xf;
    assert(field(w, 28, 4) == cond);
    assert((w as int / 0x2000000) % 8 == 3) by (nonlinear_arith)
        requires w == cond * 0x10000000 + 0x6000000 + 0x1000000 + u * 0x800000 + bw * 0x400000 + wb * 0x200000 + l * 0x100000 + rn * 0x10000 + rd * 0x1000 + rm, 0 <= cond <= 0xe, 0 <= u <= 1, 0 <= bw <= 1, 0 <= wb <= 1, 0 <= l <= 1, 0 <= rn <= 0xf, 0 <= rd <= 0xf, 0 <= rm <= 0xf;
    assert(field(w, 25, 3) == 3);
    assert((w as int / 0x1000000) % 2 == 1) by (nonlinear_arith)
        requires w == cond * 0x10000000 + 0x6000000 + 0x1000000 + u * 0x800000 + bw * 0x400000 + wb * 0x200000 + l * 0x100000 + rn * 0x10000 + rd * 0x1000 + rm, 0 <= cond <= 0xe, 0 <= u <= 1, 0 <= bw <= 1, 0 <= wb <= 1, 0 <= l <= 1, 0 <= rn <= 0xf, 0 <= rd <= 0xf, 0 <= rm <= 0xf;
    assert(field(w, 24, 1) == 1);
    assert((w as int / 0x800000) % 0x20 == 12 + 1 * 2 + u) by (nonlinear_arith)
        requires w == cond * 0x10000000 + 0x6000000 + 0x1000000 + u * 0x800000 + bw * 0x400000 + wb * 0x200000 + l * 0x100000 + rn * 0x10000 + rd * 0x1000 + rm, 0 <= cond <= 0xe, 0 <= u <= 1, 0 <= bw <= 1, 0 <= wb <= 1, 0 <= l <= 1, 0 <= rn <= 0xf, 0 <= rd <= 0xf, 0 <= rm <= 0xf;
    assert(field(w, 23, 5) == 12 + 1 * 2 + u);
    assert((w as int / 0x100000) % 0x100 == 0x60 + 1 * 0x10 + u * 8 + bw * 4 + wb * 2 + l) by (nonlinear_arith)
        requires w == cond * 0x10000000 + 0x6000000 + 0x1000000 + u * 0x800000 + bw * 0x400000 + wb * 0x200000 + l * 0x100000 + rn * 0x10000 + rd * 0x1000 + rm, 0 <= cond <= 0xe, 0 <= u <= 1, 0 <= bw <= 1, 0 <= wb <= 1, 0 <= l <= 1, 0 <= rn <= 0xf, 0 <= rd <= 0xf, 0 <= rm <= 0xf;
    assert(field(w, 20, 8) == 0x60 + 1 * 0x10 + u * 8 + bw * 4 + wb * 2 + l);
    assert((w as int / 0x10) % 2 == 0) by (nonlinear_arith)
        requires w == cond * 0x10000000 + 0x6000000 + 0x1000000 + u * 0x800000 + bw * 0x400000 + wb * 0x200000 + l * 0x100000 + rn * 0x10000 + rd * 0x1000 + rm, 0 <= cond <= 0xe, 0 <= u <= 1, 0 <= bw <= 1, 0 <= wb <= 1, 0 <= l <= 1, 0 <= rn <= 0xf, 0 <= rd <= 0xf, 0 <= rm <= 0xf;
    assert(field(w, 4, 1) == 0);
    assert((w as int / 0x800000) % 2 == u) by (nonlinear_arith)
        requires w == cond * 0x10000000 + 0x6000000 + 0x1000000 + u * 0x800000 + bw * 0x400000 + wb * 0x200000 + l * 0x100000 + rn * 0x10000 + rd * 0x1000 + rm, 0 <= cond <= 0xe, 0 <= u <= 1, 0 <= bw <= 1, 0 <= wb <= 1, 0 <= l <= 1, 0 <= rn <= 0xf, 0 <= rd <= 0xf, 0 <= rm <= 0xf;
    assert(field(w, 23, 1) == u);
    assert((w as int / 0x400000) % 2 == bw) by (nonlinear_arith)
        requires w == cond * 0x10000000 + 0x6000000 + 0x1000000 + u * 0x800000 + bw * 0x400000 + wb * 0x200000 + l * 0x100000 + rn * 0x10000 + rd * 0x1000 + rm, 0 <= cond <= 0xe, 0 <= u <= 1, 0 <= bw <= 1, 0 <= wb <= 1, 0 <= l <= 1, 0 <= rn <= 0xf, 0 <= rd <= 0xf, 0 <= rm <= 0xf;
    assert(field(w, 22, 1) == bw);
    assert((w as int / 0x200000) % 2 == wb) by (nonlinear_arith)
        requires w == cond * 0x10000000 + 0x6000000 + 0x1000000 + u * 0x800000 + bw * 0x400000 + wb * 0x200000 + l * 0x100000 + rn * 0x10000 + rd * 0x1000 + rm, 0 <= cond <= 0xe, 0 <= u <= 1, 0 <= bw <= 1, 0 <= wb <= 1, 0 <= l <= 1, 0 <= rn <= 0xf, 0 <= rd <= 0xf, 0 <= rm <= 0xf;
    assert(field(w, 21, 1) == wb);
    assert((w as int / 0x100000) % 2 == l) by (nonlinear_arith)
        requires w == cond * 0x10000000 + 0x6000000 + 0x1000000 + u * 0x800000 + bw * 0x400000 + wb * 0x200000 + l * 0x100000 + rn * 0x10000 + rd * 0x1000 + rm, 0 <= cond <= 0xe, 0 <= u <= 1, 0 <= bw <= 1, 0 <= wb <= 1, 0 <= l <= 1, 0 <= rn <= 0xf, 0 <= rd <= 0xf, 0 <= rm <= 0xf;
    assert(field(w, 20, 1) == l);
    assert((w as int / 0x10000) % 0x10 == rn) by (nonlinear_arith)
        requires w == cond * 0x10000000 + 0x6000000 + 0x1000000 + u * 0x800000 + bw * 0x400000 + wb * 0x200000 + l * 0x100000 + rn * 0x10000 + rd * 0x1000 + rm, 0 <= cond <= 0xe, 0 <= u <= 1, 0 <= bw <= 1, 0 <= wb <= 1, 0 <= l <= 1, 0 <= rn <= 0xf, 0 <= rd <= 0xf, 0 <= rm <= 0xf;
    assert(field(w, 16, 4) == rn);
    assert((w as int / 0x1000) % 0x10 == rd) by (nonlinear_arith)
        requires w == cond * 0x10000000 + 0x6000000 + 0x1000000 + u * 0x800000 + bw * 0x400000 + wb * 0x200000 + l * 0x100000 + rn * 0x10000 + rd * 0x1000 + rm, 0 <= cond <= 0xe, 0 <= u <= 1, 0 <= bw <= 1, 0 <= wb <= 1, 0 <= l <= 1, 0 <= rn <= 0xf, 0 <= rd <= 0xf, 0 <= rm <= 0xf;
    assert(field(w, 12, 4) == rd);
    assert((w as int / 0x80) % 0x20 == 0) by (nonlinear_arith)
        requires w == cond * 0x10000000 + 0x6000000 + 0x1000000 + u * 0x800000 + bw * 0x400000 + wb * 0x200000 + l * 0x100000 + rn * 0x10000 + rd * 0x1000 + rm, 0 <= cond <= 0xe, 0 <= u <= 1, 0 <= bw <= 1, 0 <= wb <= 1, 0 <= l <= 1, 0 <= rn <= 0xf, 0 <= rd <= 0xf, 0 <= rm <= 0xf;
    assert(field(w, 7, 5) == 0);
    assert((w as int / 0x20) % 4 == 0) by (nonlinear_arith)
        requires w == cond * 0x10000000 + 0x6000000 + 0x1000000 + u * 0x800000 + bw * 0x400000 + wb * 0x200000 + l * 0x100000 + rn * 0x10000 + rd * 0x1000 + rm, 0 <= cond <= 0xe, 0 <= u <= 1, 0 <= bw <= 1, 0 <= wb <= 1, 0 <= l <= 1, 0 <= rn <= 0xf, 0 <= rd <= 0xf, 0 <= rm <= 0xf;
    assert(field(w, 5, 2) == 0);
    assert((w as int / 1) % 0x10 == rm) by (nonlinear_arith)
        requires w == cond * 0x10000000 + 0x6000000 + 0x1000000 + u * 0x800000 + bw * 0x400000 + wb * 0x200000 + l * 0x100000 + rn * 0x10000 + rd * 0x1000 + rm, 0 <= cond <= 0xe, 0 <= u <= 1, 0 <= bw <= 1, 0 <= wb <= 1, 0 <= l <= 1, 0 <= rn <= 0xf, 0 <= rd <= 0xf, 0 <= rm <= 0xf;
    assert(field(w, 0, 4) == rm);
    assert((NOP_WORD as int / 0x2000000) % 8 == 0) by (nonlinear_arith);
    assert(field(NOP_WORD, 25, 3) == 0);
    assert(w != NOP_WORD);
}

/// Word or byte transfer, plain register offset, post-indexed: its encoding is the zero-shift form of the shifted template, and decodes as such.
pub open spec fn enc_ldrstr_reg_post(cond: Word, u: Word, bw: Word, wb: Word, l: Word, rn: Word, rd: Word, rm: Word) -> Word {
    (cond * 0x10000000 + 0x6000000 + 0 + u * 0x800000 + bw * 0x400000 + wb * 0x200000 + l * 0x100000 + rn * 0x10000 + rd * 0x1000 + rm) as Word
}

/// Law: decoding this shape's encoding recovers the packed fields.
#[verifier::rlimit(100)]
pub proof fn lemma_round_trip_ldrstr_reg_post(cond: Word, u: Word, bw: Word, wb: Word, l: Word, rn: Word, rd: Word, rm: Word)
    requires
        cond <= 0xe,
        u <= 1,
        bw <= 1,
        wb <= 1,
        l <= 1,
        rn <= 0xf,
        rd <= 0xf,
        rm <= 0xf,
    ensures
        spec_decode(enc_ldrstr_reg_post(cond, u, bw, wb, l, rn, rd, rm)) == spec_instr_ldrstr_shifted_reg(InstrType::LDRSTRShiftRegPost, false, cond, u, bw, wb, l, rn, rd, 0, 0, rm),
{
    let w = enc_ldrstr_reg_post(cond, u, bw, wb, l, rn, rd, rm);
    lemma2_to64();
    assert((w as int / 0x10000000) % 0x10 == cond) by (nonlinear_arith)
        requires w == cond * 0x10000000 + 0x6000000 + 0 + u * 0x800000 + bw * 0x400000 + wb * 0x200000 + l * 0x100000 + rn * 0x10000 + rd * 0x1000 + rm, 0 <= cond <= 0xe, 0 <= u <= 1, 0 <= bw <= 1, 0 <= wb <= 1, 0 <= l <= 1, 0 <= rn <= 0xf, 0 <= rd <= 0xf, 0 <= rm <= 0xf;
    assert(field(w, 28, 4) == cond);
    assert((w as int / 0x2000000) % 8 == 3) by (nonlinear_arith)
        requires w == cond * 0x10000000 + 0x6000000 + 0 + u * 0x800000 + bw * 0x400000 + wb * 0x200000 + l * 0x100000 + rn * 0x10000 + rd * 0x1000 + rm, 0 <= cond <= 0xe, 0 <= u <= 1, 0 <= bw <= 1, 0 <= wb <= 1, 0 <= l <= 1, 0 <= rn <= 0xf, 0 <= rd <= 0xf, 0 <= rm <= 0xf;
    assert(field(w, 25, 3) == 3);
    assert((w as int / 0x1000000) % 2 == 0) by (nonlinear_arith)
        requires w == cond * 0x10000000 + 0x6000000 + 0 + u * 0x800000 + bw * 0x400000 + wb * 0x200000 + l * 0x100000 + rn * 0x10000 + rd * 0x1000 + rm, 0 <= cond <= 0xe, 0 <= u <= 1, 0 <= bw <= 1, 0 <= wb <= 1, 0 <= l <= 1, 0 <= rn <= 0xf, 0 <= rd <= 0xf, 0 <= rm <= 0xf;
    assert(field(w, 24, 1) == 0);
    assert((w as int / 0x800000) % 0x20 == 12 + 0 * 2 + u) by (nonlinear_arith)
        requires w == cond * 0x10000000 + 0x6000000 + 0 + u * 0x800000 + bw * 0x400000 + wb * 0x200000 + l * 0x100000 + rn * 0x10000 + rd * 0x1000 + rm, 0 <= cond <= 0xe, 0 <= u <= 1, 0 <= bw <= 1, 0 <= wb <= 1, 0 <= l <= 1, 0 <= rn <= 0xf, 0 <= rd <= 0xf, 0 <= rm <= 0xf;
    assert(field(w, 23, 5) == 12 + 0 * 2 + u);
    assert((w as int / 0x100000) % 0x100 == 0x60 + 0 * 0x10 + u * 8 + bw * 4 + wb * 2 + l) by (nonlinear_arith)
        requires w == cond * 0x10000000 + 0x6000000 + 0 + u * 0x800000 + bw * 0x400000 + wb * 0x200000 + l * 0x100000 + rn * 0x10000 + rd * 0x1000 + rm, 0 <= cond <= 0xe, 0 <= u <= 1, 0 <= bw <= 1, 0 <= wb <= 1, 0 <= l <= 1, 0 <= rn <= 0xf, 0 <= rd <= 0xf, 0 <= rm <= 0xf;
    assert(field(w, 20, 8) == 0x60 + 0 * 0x10 + u * 8 + bw * 4 + wb * 2 + l);
    assert((w as int / 0x10) % 2 == 0) by (nonlinear_arith)
        requires w == cond * 0x10000000 + 0x6000000 + 0 + u * 0x800000 + bw * 0x400000 + wb * 0x200000 + l * 0x100000 + rn * 0x10000 + rd * 0x1000 + rm, 0 <= cond <= 0xe, 0 <= u <= 1, 0 <= bw <= 1, 0 <= wb <= 1, 0 <= l <= 1, 0 <= rn <= 0xf, 0 <= rd <= 0xf, 0 <= rm <= 0xf;
    assert(field(w, 4, 1) == 0);
    assert((w as int / 0x800000) % 2 == u) by (nonlinear_arith)
        requires w == cond * 0x10000000 + 0x6000000 + 0 + u * 0x800000 + bw * 0x400000 + wb * 0x200000 + l * 0x100000 + rn * 0x10000 + rd * 0x1000 + rm, 0 <= cond <= 0xe, 0 <= u <= 1, 0 <= bw <= 1, 0 <= wb <= 1, 0 <= l <= 1, 0 <= rn <= 0xf, 0 <= rd <= 0xf, 0 <= rm <= 0xf;
    assert(field(w, 23, 1) == u);
    assert((w as int / 0x400000) % 2 == bw) by (nonlinear_arith)
        requires w == cond * 0x10000000 + 0x6000000 + 0 + u * 0x800000 + bw * 0x400000 + wb * 0x200000 + l * 0x100000 + rn * 0x10000 + rd * 0x1000 + rm, 0 <= cond <= 0xe, 0 <= u <= 1, 0 <= bw <= 1, 0 <= wb <= 1, 0 <= l <= 1, 0 <= rn <= 0xf, 0 <= rd <= 0xf, 0 <= rm <= 0xf;
    assert(field(w, 22, 1) == bw);
    assert((w as int / 0x200000) % 2 == wb) by (nonlinear_arith)
        requires w == cond * 0x10000000 + 0x6000000 + 0 + u * 0x800000 + bw * 0x400000 + wb * 0x200000 + l * 0x100000 + rn * 0x10000 + rd * 0x1000 + rm, 0 <= cond <= 0xe, 0 <= u <= 1, 0 <= bw <= 1, 0 <= wb <= 1, 0 <= l <= 1, 0 <= rn <= 0xf, 0 <= rd <= 0xf, 0 <= rm <= 0xf;
    assert(field(w, 21, 1) == wb);
    assert((w as int / 0x100000) % 2 == l) by (nonlinear_arith)
        requires w == cond * 0x10000000 + 0x6000000 + 0 + u * 0x800000 + bw * 0x400000 + wb * 0x200000 + l * 0x100000 + rn * 0x10000 + rd * 0x1000 + rm, 0 <= cond <= 0xe, 0 <= u <= 1, 0 <= bw <= 1, 0 <= wb <= 1, 0 <= l <= 1, 0 <= rn <= 0xf, 0 <= rd <= 0xf, 0 <= rm <= 0xf;
    assert(field(w, 20, 1) == l);
    assert((w as int / 0x10000) % 0x10 == rn) by (nonlinear_arith)
        requires w == cond * 0x10000000 + 0x6000000 + 0 + u * 0x800000 + bw * 0x400000 + wb * 0x200000 + l * 0x100000 + rn * 0x10000 + rd * 0x1000 + rm, 0 <= cond <= 0xe, 0 <= u <= 1, 0 <= bw <= 1, 0 <= wb <= 1, 0 <= l <= 1, 0 <= rn <= 0xf, 0 <= rd <= 0xf, 0 <= rm <= 0xf;
    assert(field(w, 16, 4) == rn);
    assert((w as int / 0x1000) % 0x10 == rd) by (nonlinear_arith)
        requires w == cond * 0x10000000 + 0x6000000 + 0 + u * 0x800000 + bw * 0x400000 + wb * 0x200000 + l * 0x100000 + rn * 0x10000 + rd * 0x1000 + rm, 0 <= cond <= 0xe, 0 <= u <= 1, 0 <= bw <= 1, 0 <= wb <= 1, 0 <= l <= 1, 0 <= rn <= 0xf, 0 <= rd <= 0xf, 0 <= rm <= 0xf;
    assert(field(w, 12, 4) == rd);
    assert((w as int / 0x80) % 0x20 == 0) by (nonlinear_arith)
        requires w == cond * 0x10000000 + 0x6000000 + 0 + u * 0x800000 + bw * 0x400000 + wb * 0x200000 + l * 0x100000 + rn * 0x10000 + rd * 0x1000 + rm, 0 <= cond <= 0xe, 0 <= u <= 1, 0 <= bw <= 1, 0 <= wb <= 1, 0 <= l <= 1, 0 <= rn <= 0xf, 0 <= rd <= 0xf, 0 <= rm <= 0xf;
    assert(field(w, 7, 5) == 0);
    assert((w as int / 0x20) % 4 == 0) by (nonlinear_arith)
        requires w == cond * 0x10000000 + 0x6000000 + 0 + u * 0x800000 + bw * 0x400000 + wb * 0x200000 + l * 0x100000 + rn * 0x10000 + rd * 0x1000 + rm, 0 <= cond <= 0xe, 0 <= u <= 1, 0 <= bw <= 1, 0 <= wb <= 1, 0 <= l <= 1, 0 <= rn <= 0xf, 0 <= rd <= 0xf, 0 <= rm <= 0xf;
    assert(field(w, 5, 2) == 0);
    assert((w as int / 1) % 0x10 == rm) by (nonlinear_arith)
        requires w == cond * 0x10000000 + 0x6000000 + 0 + u * 0x800000 + bw * 0x400000 + wb * 0x200000 + l * 0x100000 + rn * 0x10000 + rd * 0x1000 + rm, 0 <= cond <= 0xe, 0 <= u <= 1, 0 <= bw <= 1, 0 <= wb <= 1, 0 <= l <= 1, 0 <= rn <= 0xf, 0 <= rd <= 0xf, 0 <= rm <= 0xf;
    assert(field(w, 0, 4) == rm);
    assert((NOP_WORD as int / 0x2000000) % 8 == 0) by (nonlinear_arith);
    assert(field(NOP_WORD, 25, 3) == 0);
    assert(w != NOP_WORD);
}

/// Half-word or signed transfer, immediate offset, pre-indexed.
pub open spec fn enc_ldrhstrh_imm_pre(cond: Word, u: Word, wb: Word, l: Word, rn: Word, rd: Word, high: Word, ss: Word, low: Word) -> Word {
    (cond * 0x10000000 + 0x1000000 + u * 0x800000 + 0x400000 + wb * 0x200000 + l * 0x100000 + rn * 0x10000 + rd * 0x1000 + high * 0x100 + 0x80 + ss * 0x20 + 0x10 + low) as Word
}

/// Law: decoding this shape's encoding recovers the packed fields.
#[verifier::rlimit(100)]
pub proof fn lemma_round_trip_ldrhstrh_imm_pre(cond: Word, u: Word, wb: Word, l: Word, rn: Word, rd: Word, high: Word, ss: Word, low: Word)
    requires
        cond <= 0xe,
        u <= 1,
        wb <= 1,
        l <= 1,
        rn <= 0xf,
        rd <= 0xf,
        high <= 0xf,
        ss <= 3,
        low <= 0xf,
        1 <= ss,
    ensures
        spec_decode(enc_ldrhstrh_imm_pre(cond, u, wb, l, rn, rd, high, ss, low)) == spec_instr_ldrhstrh_imm(InstrType::LDRHSTRHImmPre, true, cond, u, wb, l, rn, rd, high, (l * 4 + ss) as Word, low),
{
    let w = enc_ldrhstrh_imm_pre(cond, u, wb, l, rn, rd, high, ss, low);
    lemma2_to64();
    assert((w as int / 0x10000000) % 0x10 == cond) by (nonlinear_arith)
        requires w == cond * 0x10000000 + 0x1000000 + u * 0x800000 + 0x400000 + wb * 0x200000 + l * 0x100000 + rn * 0x10000 + rd * 0x1000 + high * 0x100 + 0x80 + ss * 0x20 + 0x10 + low, 0 <= cond <= 0xe, 0 <= u <= 1, 0 <= wb <= 1, 0 <= l <= 1, 0 <= rn <= 0xf, 0 <= rd <= 0xf, 0 <= high <= 0xf, 0 <= ss <= 3, 0 <= low <= 0xf, 1 <= ss;
    assert(field(w, 28, 4) == cond);
    assert((w as int / 0x2000000) % 8 == 0) by (nonlinear_arith)
        requires w == cond * 0x10000000 + 0x1000000 + u * 0x800000 + 0x400000 + wb * 0x200000 + l * 0x100000 + rn * 0x10000 + rd * 0x1000 + high * 0x100 + 0x80 + ss * 0x20 + 0x10 + low, 0 <= cond <= 0xe, 0 <= u <= 1, 0 <= wb <= 1, 0 <= l <= 1, 0 <= rn <= 0xf, 0 <= rd <= 0xf, 0 <= high <= 0xf, 0 <= ss <= 3, 0 <= low <= 0xf, 1 <= ss;
    assert(field(w, 25, 3) == 0);
    assert((w as int / 0x800000) % 0x20 == 1 * 2 + u) by (nonlinear_arith)
        requires w == cond * 0x10000000 + 0x1000000 + u * 0x800000 + 0x400000 + wb * 0x200000 + l * 0x100000 + rn * 0x10000 + rd * 0x1000 + high * 0x100 + 0x80 + ss * 0x20 + 0x10 + low, 0 <= cond <= 0xe, 0 <= u <= 1, 0 <= wb <= 1, 0 <= l <= 1, 0 <= rn <= 0xf, 0 <= rd <= 0xf, 0 <= high <= 0xf, 0 <= ss <= 3, 0 <= low <= 0xf, 1 <= ss;
    assert(field(w, 23, 5) == 1 * 2 + u);
    assert((w as int / 0x100000) % 4 == wb * 2 + l) by (nonlinear_arith)
        requires w == cond * 0x10000000 + 0x1000000 + u * 0x800000 + 0x400000 + wb * 0x200000 + l * 0x100000 + rn * 0x10000 + rd * 0x1000 + high * 0x100 + 0x80 + ss * 0x20 + 0x10 + low, 0 <= cond <= 0xe, 0 <= u <= 1, 0 <= wb <= 1, 0 <= l <= 1, 0 <= rn <= 0xf, 0 <= rd <= 0xf, 0 <= high <= 0xf, 0 <= ss <= 3, 0 <= low <= 0xf, 1 <= ss;
    assert(field(w, 20, 2) == wb * 2 + l);
    assert((w as int / 0x10000) % 0x10 == rn) by (nonlinear_arith)
        requires w == cond * 0x10000000 + 0x1000000 + u * 0x800000 + 0x400000 + wb * 0x200000 + l * 0x100000 + rn * 0x10000 + rd * 0x1000 + high * 0x100 + 0x80 + ss * 0x20 + 0x10 + low, 0 <= cond <= 0xe, 0 <= u <= 1, 0 <= wb <= 1, 0 <= l <= 1, 0 <= rn <= 0xf, 0 <= rd <= 0xf, 0 <= high <= 0xf, 0 <= ss <= 3, 0 <= low <= 0xf, 1 <= ss;
    assert(field(w, 16, 4) == rn);
    assert((w as int / 1) % 0x1000 == high * 0x100 + 0x80 + ss * 0x20 + 0x10 + low) by (nonlinear_arith)
        requires w == cond * 0x10000000 + 0x1000000 + u * 0x800000 + 0x400000 + wb * 0x200000 + l * 0x100000 + rn * 0x10000 + rd * 0x1000 + high * 0x100 + 0x80 + ss * 0x20 + 0x10 + low, 0 <= cond <= 0xe, 0 <= u <= 1, 0 <= wb <= 1, 0 <= l <= 1, 0 <= rn <= 0xf, 0 <= rd <= 0xf, 0 <= high <= 0xf, 0 <= ss <= 3, 0 <= low <= 0xf, 1 <= ss;
    assert(field(w, 0, 12) == high * 0x100 + 0x80 + ss * 0x20 + 0x10 + low);
    assert((w as int / 0x1000) % 0x10 == rd) by (nonlinear_arith)
        requires w == cond * 0x10000000 + 0x1000000 + u * 0x800000 + 0x400000 + wb * 0x200000 + l * 0x100000 + rn * 0x10000 + rd * 0x1000 + high * 0x100 + 0x80 + ss * 0x20 + 0x10 + low, 0 <= cond <= 0xe, 0 <= u <= 1, 0 <= wb <= 1, 0 <= l <= 1, 0 <= rn <= 0xf, 0 <= rd <= 0xf, 0 <= high <= 0xf, 0 <= ss <= 3, 0 <= low <= 0xf, 1 <= ss;
    assert(field(w, 12, 4) == rd);
    assert((w as int / 0x10) % 0x100 == high * 0x10 + 8 + ss * 2 + 1) by (nonlinear_arith)
        requires w == cond * 0x10000000 + 0x1000000 + u * 0x800000 + 0x400000 + wb * 0x200000 + l * 0x100000 + rn * 0x10000 + rd * 0x1000 + high * 0x100 + 0x80 + ss * 0x20 + 0x10 + low, 0 <= cond <= 0xe, 0 <= u <= 1, 0 <= wb <= 1, 0 <= l <= 1, 0 <= rn <= 0xf, 0 <= rd <= 0xf, 0 <= high <= 0xf, 0 <= ss <= 3, 0 <= low <= 0xf, 1 <= ss;
    assert(field(w, 4, 8) == high * 0x10 + 8 + ss * 2 + 1);
    assert((w as int / 0x100000) % 0x100 == 1 * 0x10 + u * 8 + 4 + wb * 2 + l) by (nonlinear_arith)
        requires w == cond * 0x10000000 + 0x1000000 + u * 0x800000 + 0x400000 + wb * 0x200000 + l * 0x100000 + rn * 0x10000 + rd * 0x1000 + high * 0x100 + 0x80 + ss * 0x20 + 0x10 + low, 0 <= cond <= 0xe, 0 <= u <= 1, 0 <= wb <= 1, 0 <= l <= 1, 0 <= rn <= 0xf, 0 <= rd <= 0xf, 0 <= high <= 0xf, 0 <= ss <= 3, 0 <= low <= 0xf, 1 <= ss;
    assert(field(w, 20, 8) == 1 * 0x10 + u * 8 + 4 + wb * 2 + l);
    assert((w as int / 0x10) % 2 == 1) by (nonlinear_arith)
        requires w == cond * 0x10000000 + 0x1000000 + u * 0x800000 + 0x400000 + wb * 0x200000 + l * 0x100000 + rn * 0x10000 + rd * 0x1000 + high * 0x100 + 0x80 + ss * 0x20 + 0x10 + low, 0 <= cond <= 0xe, 0 <= u <= 1, 0 <= wb <= 1, 0 <= l <= 1, 0 <= rn <= 0xf, 0 <= rd <= 0xf, 0 <= high <= 0xf, 0 <= ss <= 3, 0 <= low <= 0xf, 1 <= ss;
    assert(field(w, 4, 1) == 1);
    assert((w as int / 0x80) % 2 == 1) by (nonlinear_arith)
        requires w == cond * 0x10000000 + 0x1000000 + u * 0x800000 + 0x400000 + wb * 0x200000 + l * 0x100000 + rn * 0x10000 + rd * 0x1000 + high * 0x100 + 0x80 + ss * 0x20 + 0x10 + low, 0 <= cond <= 0xe, 0 <= u <= 1, 0 <= wb <= 1, 0 <= l <= 1, 0 <= rn <= 0xf, 0 <= rd <= 0xf, 0 <= high <= 0xf, 0 <= ss <= 3, 0 <= low <= 0xf, 1 <= ss;
    assert(field(w, 7, 1) == 1);
    assert((w as int / 0x400000) % 2 == 1) by (nonlinear_arith)
        requires w == cond * 0x10000000 + 0x1000000 + u * 0x800000 + 0x400000 + wb * 0x200000 + l * 0x100000 + rn * 0x10000 + rd * 0x1000 + high * 0x100 + 0x80 + ss * 0x20 + 0x10 + low, 0 <= cond <= 0xe, 0 <= u <= 1, 0 <= wb <= 1, 0 <= l <= 1, 0 <= rn <= 0xf, 0 <= rd <= 0xf, 0 <= high <= 0xf, 0 <= ss <= 3, 0 <= low <= 0xf, 1 <= ss;
    assert(field(w, 22, 1) == 1);
    assert((w as int / 0x20) % 4 == ss) by (nonlinear_arith)
        requires w == cond * 0x10000000 + 0x1000000 + u * 0x800000 + 0x400000 + wb * 0x200000 + l * 0x100000 + rn * 0x10000 + rd * 0x1000 + high * 0x100 + 0x80 + ss * 0x20 + 0x10 + low, 0 <= cond <= 0xe, 0 <= u <= 1, 0 <= wb <= 1, 0 <= l <= 1, 0 <= rn <= 0xf, 0 <= rd <= 0xf, 0 <= high <= 0xf, 0 <= ss <= 3, 0 <= low <= 0xf, 1 <= ss;
    assert(field(w, 5, 2) == ss);
    assert((w as int / 0x1000000) % 2 == 1) by (nonlinear_arith)
        requires w == cond * 0x10000000 + 0x1000000 + u * 0x800000 + 0x400000 + wb * 0x200000 + l * 0x100000 + rn * 0x10000 + rd * 0x1000 + high * 0x100 + 0x80 + ss * 0x20 + 0x10 + low, 0 <= cond <= 0xe, 0 <= u <= 1, 0 <= wb <= 1, 0 <= l <= 1, 0 <= rn <= 0xf, 0 <= rd <= 0xf, 0 <= high <= 0xf, 0 <= ss <= 3, 0 <= low <= 0xf, 1 <= ss;
    assert(field(w, 24, 1) == 1);
    assert((w as int / 0x800000) % 2 == u) by (nonlinear_arith)
        requires w == cond * 0x10000000 + 0x1000000 + u * 0x800000 + 0x400000 + wb * 0x200000 + l * 0x100000 + rn * 0x10000 + rd * 0x1000 + high * 0x100 + 0x80 + ss * 0x20 + 0x10 + low, 0 <= cond <= 0xe, 0 <= u <= 1, 0 <= wb <= 1, 0 <= l <= 1, 0 <= rn <= 0xf, 0 <= rd <= 0xf, 0 <= high <= 0xf, 0 <= ss <= 3, 0 <= low <= 0xf, 1 <= ss;
    assert(field(w, 23, 1) == u);
    assert((w as int / 0x200000) % 2 == wb) by (nonlinear_arith)
        requires w == cond * 0x10000000 + 0x1000000 + u * 0x800000 + 0x400000 + wb * 0x200000 + l * 0x100000 + rn * 0x10000 + rd * 0x1000 + high * 0x100 + 0x80 + ss * 0x20 + 0x10 + low, 0 <= cond <= 0xe, 0 <= u <= 1, 0 <= wb <= 1, 0 <= l <= 1, 0 <= rn <= 0xf, 0 <= rd <= 0xf, 0 <= high <= 0xf, 0 <= ss <= 3, 0 <= low <= 0xf, 1 <= ss;
    assert(field(w, 21, 1) == wb);
    assert((w as int / 0x100000) % 2 == l) by (nonlinear_arith)
        requires w == cond * 0x10000000 + 0x1000000 + u * 0x800000 + 0x400000 + wb * 0x200000 + l * 0x100000 + rn * 0x10000 + rd * 0x1000 + high * 0x100 + 0x80 + ss * 0x20 + 0x10 + low, 0 <= cond <= 0xe, 0 <= u <= 1, 0 <= wb <= 1, 0 <= l <= 1, 0 <= rn <= 0xf, 0 <= rd <= 0xf, 0 <= high <= 0xf, 0 <= ss <= 3, 0 <= low <= 0xf, 1 <= ss;
    assert(field(w, 20, 1) == l);
    assert((w as int / 0x100) % 0x10 == high) by (nonlinear_arith)
        requires w == cond * 0x10000000 + 0x1000000 + u * 0x800000 + 0x400000 + wb * 0x200000 + l * 0x100000 + rn * 0x10000 + rd * 0x1000 + high * 0x100 + 0x80 + ss * 0x20 + 0x10 + low, 0 <= cond <= 0xe, 0 <= u <= 1, 0 <= wb <= 1, 0 <= l <= 1, 0 <= rn <= 0xf, 0 <= rd <= 0xf, 0 <= high <= 0xf, 0 <= ss <= 3, 0 <= low <= 0xf, 1 <= ss;
    assert(field(w, 8, 4) == high);
    assert((w as int / 1) % 0x10 == low) by (nonlinear_arith)
        requires w == cond * 0x10000000 + 0x1000000 + u * 0x800000 + 0x400000 + wb * 0x200000 + l * 0x100000 + rn * 0x10000 + rd * 0x1000 + high * 0x100 + 0x80 + ss * 0x20 + 0x10 + low, 0 <= cond <= 0xe, 0 <= u <= 1, 0 <= wb <= 1, 0 <= l <= 1, 0 <= rn <= 0xf, 0 <= rd <= 0xf, 0 <= high <= 0xf, 0 <= ss <= 3, 0 <= low <= 0xf, 1 <= ss;
    assert(field(w, 0, 4) == low);
    assert((NOP_WORD as int / 0x10) % 2 == 0) by (nonlinear_arith);
    assert(field(NOP_WORD, 4, 1) == 0);
    assert(w != NOP_WORD);
}

/// Half-word or signed transfer, immediate offset, post-indexed.
pub open spec fn enc_ldrhstrh_imm_post(cond: Word, u: Word, wb: Word, l: Word, rn: Word, rd: Word, high: Word, ss: Word, low: Word) -> Word {
    (cond * 0x10000000 + 0 + u * 0x800000 + 0x400000 + wb * 0x200000 + l * 0x100000 + rn * 0x10000 + rd * 0x1000 + high * 0x100 + 0x80 + ss * 0x20 + 0x10 + low) as Word
}

/// Law: decoding this shape's encoding recovers the packed fields.
#[verifier::rlimit(100)]
pub proof fn lemma_round_trip_ldrhstrh_imm_post(cond: Word, u: Word, wb: Word, l: Word, rn: Word, rd: Word, high: Word, ss: Word, low: Word)
    requires
        cond <= 0xe,
        u <= 1,
        wb <= 1,
        l <= 1,
        rn <= 0xf,
        rd <= 0xf,
        high <= 0xf,
        ss <= 3,
        low <= 0xf,
        1 <= ss,
    ensures
        spec_decode(enc_ldrhstrh_imm_post(cond, u, wb, l, rn, rd, high, ss, low)) == spec_instr_ldrhstrh_imm(InstrType::LDRHSTRHImmPost, false, cond, u, wb, l, rn, rd, high, (l * 4 + ss) as Word, low),
{
    let w = enc_ldrhstrh_imm_post(cond, u, wb, l, rn, rd, high, ss, low);
    lemma2_to64();
    assert((w as int / 0x10000000) % 0x10 == cond) by (nonlinear_arith)
        requires w == cond * 0x10000000 + 0 + u * 0x800000 + 0x400000 + wb * 0x200000 + l * 0x100000 + rn * 0x10000 + rd * 0x1000 + high * 0x100 + 0x80 + ss * 0x20 + 0x10 + low, 0 <= cond <= 0xe, 0 <= u <= 1, 0 <= wb <= 1, 0 <= l <= 1, 0 <= rn <= 0xf, 0 <= rd <= 0xf, 0 <= high <= 0xf, 0 <= ss <= 3, 0 <= low <= 0xf, 1 <= ss;
    assert(field(w, 28, 4) == cond);
    assert((w as int / 0x2000000) % 8 == 0) by (nonlinear_arith)
        requires w == cond * 0x10000000 + 0 + u * 0x800000 + 0x400000 + wb * 0x200000 + l * 0x100000 + rn * 0x10000 + rd * 0x1000 + high * 0x100 + 0x80 + ss * 0x20 + 0x10 + low, 0 <= cond <= 0xe, 0 <= u <= 1, 0 <= wb <= 1, 0 <= l <= 1, 0 <= rn <= 0xf, 0 <= rd <= 0xf, 0 <= high <= 0xf, 0 <= ss <= 3, 0 <= low <= 0xf, 1 <= ss;
    assert(field(w, 25, 3) == 0);
    assert((w as int / 0x800000) % 0x20 == 0 * 2 + u) by (nonlinear_arith)
        requires w == cond * 0x10000000 + 0 + u * 0x800000 + 0x400000 + wb * 0x200000 + l * 0x100000 + rn * 0x10000 + rd * 0x1000 + high * 0x100 + 0x80 + ss * 0x20 + 0x10 + low, 0 <= cond <= 0xe, 0 <= u <= 1, 0 <= wb <= 1, 0 <= l <= 1, 0 <= rn <= 0xf, 0 <= rd <= 0xf, 0 <= high <= 0xf, 0 <= ss <= 3, 0 <= low <= 0xf, 1 <= ss;
    assert(field(w, 23, 5) == 0 * 2 + u);
    assert((w as int / 0x100000) % 4 == wb * 2 + l) by (nonlinear_arith)
        requires w == cond * 0x10000000 + 0 + u * 0x800000 + 0x400000 + wb * 0x200000 + l * 0x100000 + rn * 0x10000 + rd * 0x1000 + high * 0x100 + 0x80 + ss * 0x20 + 0x10 + low, 0 <= cond <= 0xe, 0 <= u <= 1, 0 <= wb <= 1, 0 <= l <= 1, 0 <= rn <= 0xf, 0 <= rd <= 0xf, 0 <= high <= 0xf, 0 <= ss <= 3, 0 <= low <= 0xf, 1 <= ss;
    assert(field(w, 20, 2) == wb * 2 + l);
    assert((w as int / 0x10000) % 0x10 == rn) by (nonlinear_arith)
        requires w == cond * 0x10000000 + 0 + u * 0x800000 + 0x400000 + wb * 0x200000 + l * 0x100000 + rn * 0x10000 + rd * 0x1000 + high * 0x100 + 0x80 + ss * 0x20 + 0x10 + low, 0 <= cond <= 0xe, 0 <= u <= 1, 0 <= wb <= 1, 0 <= l <= 1, 0 <= rn <= 0xf, 0 <= rd <= 0xf, 0 <= high <= 0xf, 0 <= ss <= 3, 0 <= low <= 0xf, 1 <= ss;
    assert(field(w, 16, 4) == rn);
    assert((w as int / 1) % 0x1000 == high * 0x100 + 0x80 + ss * 0x20 + 0x10 + low) by (nonlinear_arith)
        requires w == cond * 0x10000000 + 0 + u * 0x800000 + 0x400000 + wb * 0x200000 + l * 0x100000 + rn * 0x10000 + rd * 0x1000 + high * 0x100 + 0x80 + ss * 0x20 + 0x10 + low, 0 <= cond <= 0xe, 0 <= u <= 1, 0 <= wb <= 1, 0 <= l <= 1, 0 <= rn <= 0xf, 0 <= rd <= 0xf, 0 <= high <= 0xf, 0 <= ss <= 3, 0 <= low <= 0xf, 1 <= ss;
    assert(field(w, 0, 12) == high * 0x100 + 0x80 + ss * 0x20 + 0x10 + low);
    assert((w as int / 0x1000) % 0x10 == rd) by (nonlinear_arith)
        requires w == cond * 0x10000000 + 0 + u * 0x800000 + 0x400000 + wb * 0x200000 + l * 0x100000 + rn * 0x10000 + rd * 0x1000 + high * 0x100 + 0x80 + ss * 0x20 + 0x10 + low, 0 <= cond <= 0xe, 0 <= u <= 1, 0 <= wb <= 1, 0 <= l <= 1, 0 <= rn <= 0xf, 0 <= rd <= 0xf, 0 <= high <= 0xf, 0 <= ss <= 3, 0 <= low <= 0xf, 1 <= ss;
    assert(field(w, 12, 4) == rd);
    assert((w as int / 0x10) % 0x100 == high * 0x10 + 8 + ss * 2 + 1) by (nonlinear_arith)
        requires w == cond * 0x10000000 + 0 + u * 0x800000 + 0x400000 + wb * 0x200000 + l * 0x100000 + rn * 0x10000 + rd * 0x1000 + high * 0x100 + 0x80 + ss * 0x20 + 0x10 + low, 0 <= cond <= 0xe, 0 <= u <= 1, 0 <= wb <= 1, 0 <= l <= 1, 0 <= rn <= 0xf, 0 <= rd <= 0xf, 0 <= high <= 0xf, 0 <= ss <= 3, 0 <= low <= 0xf, 1 <= ss;
    assert(field(w, 4, 8) == high * 0x10 + 8 + ss * 2 + 1);
    assert((w as int / 0x100000) % 0x100 == 0 * 0x10 + u * 8 + 4 + wb * 2 + l) by (nonlinear_arith)
        requires w == cond * 0x10000000 + 0 + u * 0x800000 + 0x400000 + wb * 0x200000 + l * 0x100000 + rn * 0x10000 + rd * 0x1000 + high * 0x100 + 0x80 + ss * 0x20 + 0x10 + low, 0 <= cond <= 0xe, 0 <= u <= 1, 0 <= wb <= 1, 0 <= l <= 1, 0 <= rn <= 0xf, 0 <= rd <= 0xf, 0 <= high <= 0xf, 0 <= ss <= 3, 0 <= low <= 0xf, 1 <= ss;
    assert(field(w, 20, 8) == 0 * 0x10 + u * 8 + 4 + wb * 2 + l);
    assert((w as int / 0x10) % 2 == 1) by (nonlinear_arith)
        requires w == cond * 0x10000000 + 0 + u * 0x800000 + 0x400000 + wb * 0x200000 + l * 0x100000 + rn * 0x10000 + rd * 0x1000 + high * 0x100 + 0x80 + ss * 0x20 + 0x10 + low, 0 <= cond <= 0xe, 0 <= u <= 1, 0 <= wb <= 1, 0 <= l <= 1, 0 <= rn <= 0xf, 0 <= rd <= 0xf, 0 <= high <= 0xf, 0 <= ss <= 3, 0 <= low <= 0xf, 1 <= ss;
    assert(field(w, 4, 1) == 1);
    assert((w as int / 0x80) % 2 == 1) by (nonlinear_arith)
        requires w == cond * 0x10000000 + 0 + u * 0x800000 + 0x400000 + wb * 0x200000 + l * 0x100000 + rn * 0x10000 + rd * 0x1000 + high * 0x100 + 0x80 + ss * 0x20 + 0x10 + low, 0 <= cond <= 0xe, 0 <= u <= 1, 0 <= wb <= 1, 0 <= l <= 1, 0 <= rn <= 0xf, 0 <= rd <= 0xf, 0 <= high <= 0xf, 0 <= ss <= 3, 0 <= low <= 0xf, 1 <= ss;
    assert(field(w, 7, 1) == 1);
    assert((w as int / 0x400000) % 2 == 1) by (nonlinear_arith)
        requires w == cond * 0x10000000 + 0 + u * 0x800000 + 0x400000 + wb * 0x200000 + l * 0x100000 + rn * 0x10000 + rd * 0x1000 + high * 0x100 + 0x80 + ss * 0x20 + 0x10 + low, 0 <= cond <= 0xe, 0 <= u <= 1, 0 <= wb <= 1, 0 <= l <= 1, 0 <= rn <= 0xf, 0 <= rd <= 0xf, 0 <= high <= 0xf, 0 <= ss <= 3, 0 <= low <= 0xf, 1 <= ss;
    assert(field(w, 22, 1) == 1);
    assert((w as int / 0x20) % 4 == ss) by (nonlinear_arith)
        requires w == cond * 0x10000000 + 0 + u * 0x800000 + 0x400000 + wb * 0x200000 + l * 0x100000 + rn * 0x10000 + rd * 0x1000 + high * 0x100 + 0x80 + ss * 0x20 + 0x10 + low, 0 <= cond <= 0xe, 0 <= u <= 1, 0 <= wb <= 1, 0 <= l <= 1, 0 <= rn <= 0xf, 0 <= rd <= 0xf, 0 <= high <= 0xf, 0 <= ss <= 3, 0 <= low <= 0xf, 1 <= ss;
    assert(field(w, 5, 2) == ss);
    assert((w as int / 0x1000000) % 2 == 0) by (nonlinear_arith)
        requires w == cond * 0x10000000 + 0 + u * 0x800000 + 0x400000 + wb * 0x200000 + l * 0x100000 + rn * 0x10000 + rd * 0x1000 + high * 0x100 + 0x80 + ss * 0x20 + 0x10 + low, 0 <= cond <= 0xe, 0 <= u <= 1, 0 <= wb <= 1, 0 <= l <= 1, 0 <= rn <= 0xf, 0 <= rd <= 0xf, 0 <= high <= 0xf, 0 <= ss <= 3, 0 <= low <= 0xf, 1 <= ss;
    assert(field(w, 24, 1) == 0);
    assert((w as int / 0x800000) % 2 == u) by (nonlinear_arith)
        requires w == cond * 0x10000000 + 0 + u * 0x800000 + 0x400000 + wb * 0x200000 + l * 0x100000 + rn * 0x10000 + rd * 0x1000 + high * 0x100 + 0x80 + ss * 0x20 + 0x10 + low, 0 <= cond <= 0xe, 0 <= u <= 1, 0 <= wb <= 1, 0 <= l <= 1, 0 <= rn <= 0xf, 0 <= rd <= 0xf, 0 <= high <= 0xf, 0 <= ss <= 3, 0 <= low <= 0xf, 1 <= ss;
    assert(field(w, 23, 1) == u);
    assert((w as int / 0x200000) % 2 == wb) by (nonlinear_arith)
        requires w == cond * 0x10000000 + 0 + u * 0x800000 + 0x400000 + wb * 0x200000 + l * 0x100000 + rn * 0x10000 + rd * 0x1000 + high * 0x100 + 0x80 + ss * 0x20 + 0x10 + low, 0 <= cond <= 0xe, 0 <= u <= 1, 0 <= wb <= 1, 0 <= l <= 1, 0 <= rn <= 0xf, 0 <= rd <= 0xf, 0 <= high <= 0xf, 0 <= ss <= 3, 0 <= low <= 0xf, 1 <= ss;
    assert(field(w, 21, 1) == wb);
    assert((w as int / 0x100000) % 2 == l) by (nonlinear_arith)
        requires w == cond * 0x10000000 + 0 + u * 0x800000 + 0x400000 + wb * 0x200000 + l * 0x100000 + rn * 0x10000 + rd * 0x1000 + high * 0x100 + 0x80 + ss * 0x20 + 0x10 + low, 0 <= cond <= 0xe, 0 <= u <= 1, 0 <= wb <= 1, 0 <= l <= 1, 0 <= rn <= 0xf, 0 <= rd <= 0xf, 0 <= high <= 0xf, 0 <= ss <= 3, 0 <= low <= 0xf, 1 <= ss;
    assert(field(w, 20, 1) == l);
    assert((w as int / 0x100) % 0x10 == high) by (nonlinear_arith)
        requires w == cond * 0x10000000 + 0 + u * 0x800000 + 0x400000 + wb * 0x200000 + l * 0x100000 + rn * 0x10000 + rd * 0x1000 + high * 0x100 + 0x80 + ss * 0x20 + 0x10 + low, 0 <= cond <= 0xe, 0 <= u <= 1, 0 <= wb <= 1, 0 <= l <= 1, 0 <= rn <= 0xf, 0 <= rd <= 0xf, 0 <= high <= 0xf, 0 <= ss <= 3, 0 <= low <= 0xf, 1 <= ss;
    assert(field(w, 8, 4) == high);
    assert((w as int / 1) % 0x10 == low) by (nonlinear_arith)
        requires w == cond * 0x10000000 + 0 + u * 0x800000 + 0x400000 + wb * 0x200000 + l * 0x100000 + rn * 0x10000 + rd * 0x1000 + high * 0x100 + 0x80 + ss * 0x20 + 0x10 + low, 0 <= cond <= 0xe, 0 <= u <= 1, 0 <= wb <= 1, 0 <= l <= 1, 0 <= rn <= 0xf, 0 <= rd <= 0xf, 0 <= high <= 0xf, 0 <= ss <= 3, 0 <= low <= 0xf, 1 <= ss;
    assert(field(w, 0, 4) == low);
    assert((NOP_WORD as int / 0x10) % 2 == 0) by (nonlinear_arith);
    assert(field(NOP_WORD, 4, 1) == 0);
    assert(w != NOP_WORD);
}

/// Half-word or signed transfer, register offset, pre-indexed.
pub open spec fn enc_ldrhstrh_reg_pre(cond: Word, u: Word, wb: Word, l: Word, rn: Word, rd: Word, ss: Word, rm: Word) -> Word {
    (cond * 0x10000000 + 0x1000000 + u * 0x800000 + wb * 0x200000 + l * 0x100000 + rn * 0x10000 + rd * 0x1000 + 0x80 + ss * 0x20 + 0x10 + rm) as Word
}

/// Law: decoding this shape's encoding recovers the packed fields.
#[verifier::rlimit(100)]
pub proof fn lemma_round_trip_ldrhstrh_reg_pre(cond: Word, u: Word, wb: Word, l: Word, rn: Word, rd: Word, ss: Word, rm: Word)
    requires
        cond <= 0xe,
        u <= 1,
        wb <= 1,
        l <= 1,
        rn <= 0xf,
        rd <= 0xf,
        ss <= 3,
        rm <= 0xf,
        1 <= ss,
    ensures
        spec_decode(enc_ldrhstrh_reg_pre(cond, u, wb, l, rn, rd, ss, rm)) == spec_instr_ldrhstrh_reg(InstrType::LDRHSTRHRegPre, true, cond, u, wb, l, rn, rd, (l * 4 + ss) as Word, rm),
{
    let w = enc_ldrhstrh_reg_pre(cond, u, wb, l, rn, rd, ss, rm);
    lemma2_to64();
    assert((w as int / 0x10000000) % 0x10 == cond) by (nonlinear_arith)
        requires w == cond * 0x10000000 + 0x1000000 + u * 0x800000 + wb * 0x200000 + l * 0x100000 + rn * 0x10000 + rd * 0x1000 + 0x80 + ss * 0x20 + 0x10 + rm, 0 <= cond <= 0xe, 0 <= u <= 1, 0 <= wb <= 1, 0 <= l <= 1, 0 <= rn <= 0xf, 0 <= rd <= 0xf, 0 <= ss <= 3, 0 <= rm <= 0xf, 1 <= ss;
    assert(field(w, 28, 4) == cond);
    assert((w as int / 0x2000000) % 8 == 0) by (nonlinear_arith)
        requires w == cond * 0x10000000 + 0x1000000 + u * 0x800000 + wb * 0x200000 + l * 0x100000 + rn * 0x10000 + rd * 0x1000 + 0x80 + ss * 0x20 + 0x10 + rm, 0 <= cond <= 0xe, 0 <= u <= 1, 0 <= wb <= 1, 0 <= l <= 1, 0 <= rn <= 0xf, 0 <= rd <= 0xf, 0 <= ss <= 3, 0 <= rm <= 0xf, 1 <= ss;
    assert(field(w, 25, 3) == 0);
    assert((w as int / 0x800000) % 0x20 == 1 * 2 + u) by (nonlinear_arith)
        requires w == cond * 0x10000000 + 0x1000000 + u * 0x800000 + wb * 0x200000 + l * 0x100000 + rn * 0x10000 + rd * 0x1000 + 0x80 + ss * 0x20 + 0x10 + rm, 0 <= cond <= 0xe, 0 <= u <= 1, 0 <= wb <= 1, 0 <= l <= 1, 0 <= rn <= 0xf, 0 <= rd <= 0xf, 0 <= ss <= 3, 0 <= rm <= 0xf, 1 <= ss;
    assert(field(w, 23, 5) == 1 * 2 + u);
    assert((w as int / 0x100000) % 4 == wb * 2 + l) by (nonlinear_arith)
        requires w == cond * 0x10000000 + 0x1000000 + u * 0x800000 + wb * 0x200000 + l * 0x100000 + rn * 0x10000 + rd * 0x1000 + 0x80 + ss * 0x20 + 0x10 + rm, 0 <= cond <= 0xe, 0 <= u <= 1, 0 <= wb <= 1, 0 <= l <= 1, 0 <= rn <= 0xf, 0 <= rd <= 0xf, 0 <= ss <= 3, 0 <= rm <= 0xf, 1 <= ss;
    assert(field(w, 20, 2) == wb * 2 + l);
    assert((w as int / 0x10000) % 0x10 == rn) by (nonlinear_arith)
        requires w == cond * 0x10000000 + 0x1000000 + u * 0x800000 + wb * 0x200000 + l * 0x100000 + rn * 0x10000 + rd * 0x1000 + 0x80 + ss * 0x20 + 0x10 + rm, 0 <= cond <= 0xe, 0 <= u <= 1, 0 <= wb <= 1, 0 <= l <= 1, 0 <= rn <= 0xf, 0 <= rd <= 0xf, 0 <= ss <= 3, 0 <= rm <= 0xf, 1 <= ss;
    assert(field(w, 16, 4) == rn);
    assert((w as int / 1) % 0x1000 == 0x80 + ss * 0x20 + 0x10 + rm) by (nonlinear_arith)
        requires w == cond * 0x10000000 + 0x1000000 + u * 0x800000 + wb * 0x200000 + l * 0x100000 + rn * 0x10000 + rd * 0x1000 + 0x80 + ss * 0x20 + 0x10 + rm, 0 <= cond <= 0xe, 0 <= u <= 1, 0 <= wb <= 1, 0 <= l <= 1, 0 <= rn <= 0xf, 0 <= rd <= 0xf, 0 <= ss <= 3, 0 <= rm <= 0xf, 1 <= ss;
    assert(field(w, 0, 12) == 0x80 + ss * 0x20 + 0x10 + rm);
    assert((w as int / 0x1000) % 0x10 == rd) by (nonlinear_arith)
        requires w == cond * 0x10000000 + 0x1000000 + u * 0x800000 + wb * 0x200000 + l * 0x100000 + rn * 0x10000 + rd * 0x1000 + 0x80 + ss * 0x20 + 0x10 + rm, 0 <= cond <= 0xe, 0 <= u <= 1, 0 <= wb <= 1, 0 <= l <= 1, 0 <= rn <= 0xf, 0 <= rd <= 0xf, 0 <= ss <= 3, 0 <= rm <= 0xf, 1 <= ss;
    assert(field(w, 12, 4) == rd);
    assert((w as int / 0x10) % 0x100 == 8 + ss * 2 + 1) by (nonlinear_arith)
        requires w == cond * 0x10000000 + 0x1000000 + u * 0x800000 + wb * 0x200000 + l * 0x100000 + rn * 0x10000 + rd * 0x1000 + 0x80 + ss * 0x20 + 0x10 + rm, 0 <= cond <= 0xe, 0 <= u <= 1, 0 <= wb <= 1, 0 <= l <= 1, 0 <= rn <= 0xf, 0 <= rd <= 0xf, 0 <= ss <= 3, 0 <= rm <= 0xf, 1 <= ss;
    assert(field(w, 4, 8) == 8 + ss * 2 + 1);
    assert((w as int / 0x100000) % 0x100 == 1 * 0x10 + u * 8 + wb * 2 + l) by (nonlinear_arith)
        requires w == cond * 0x10000000 + 0x1000000 + u * 0x800000 + wb * 0x200000 + l * 0x100000 + rn * 0x10000 + rd * 0x1000 + 0x80 + ss * 0x20 + 0x10 + rm, 0 <= cond <= 0xe, 0 <= u <= 1, 0 <= wb <= 1, 0 <= l <= 1, 0 <= rn <= 0xf, 0 <= rd <= 0xf, 0 <= ss <= 3, 0 <= rm <= 0xf, 1 <= ss;
    assert(field(w, 20, 8) == 1 * 0x10 + u * 8 + wb * 2 + l);
    assert((w as int / 0x10) % 2 == 1) by (nonlinear_arith)
        requires w == cond * 0x10000000 + 0x1000000 + u * 0x800000 + wb * 0x200000 + l * 0x100000 + rn * 0x10000 + rd * 0x1000 + 0x80 + ss * 0x20 + 0x10 + rm, 0 <= cond <= 0xe, 0 <= u <= 1, 0 <= wb <= 1, 0 <= l <= 1, 0 <= rn <= 0xf, 0 <= rd <= 0xf, 0 <= ss <= 3, 0 <= rm <= 0xf, 1 <= ss;
    assert(field(w, 4, 1) == 1);
    assert((w as int / 0x80) % 2 == 1) by (nonlinear_arith)
        requires w == cond * 0x10000000 + 0x1000000 + u * 0x800000 + wb * 0x200000 + l * 0x100000 + rn * 0x10000 + rd * 0x1000 + 0x80 + ss * 0x20 + 0x10 + rm, 0 <= cond <= 0xe, 0 <= u <= 1, 0 <= wb <= 1, 0 <= l <= 1, 0 <= rn <= 0xf, 0 <= rd <= 0xf, 0 <= ss <= 3, 0 <= rm <= 0xf, 1 <= ss;
    assert(field(w, 7, 1) == 1);
    assert((w as int / 0x400000) % 2 == 0) by (nonlinear_arith)
        requires w == cond * 0x10000000 + 0x1000000 + u * 0x800000 + wb * 0x200000 + l * 0x100000 + rn * 0x10000 + rd * 0x1000 + 0x80 + ss * 0x20 + 0x10 + rm, 0 <= cond <= 0xe, 0 <= u <= 1, 0 <= wb <= 1, 0 <= l <= 1, 0 <= rn <= 0xf, 0 <= rd <= 0xf, 0 <= ss <= 3, 0 <= rm <= 0xf, 1 <= ss;
    assert(field(w, 22, 1) == 0);
    assert((w as int / 0x100) % 0x10 == 0) by (nonlinear_arith)
        requires w == cond * 0x10000000 + 0x1000000 + u * 0x800000 + wb * 0x200000 + l * 0x100000 + rn * 0x10000 + rd * 0x1000 + 0x80 + ss * 0x20 + 0x10 + rm, 0 <= cond <= 0xe, 0 <= u <= 1, 0 <= wb <= 1, 0 <= l <= 1, 0 <= rn <= 0xf, 0 <= rd <= 0xf, 0 <= ss <= 3, 0 <= rm <= 0xf, 1 <= ss;
    assert(field(w, 8, 4) == 0);
    assert((w as int / 0x20) % 4 == ss) by (nonlinear_arith)
        requires w == cond * 0x10000000 + 0x1000000 + u * 0x800000 + wb * 0x200000 + l * 0x100000 + rn * 0x10000 + rd * 0x1000 + 0x80 + ss * 0x20 + 0x10 + rm, 0 <= cond <= 0xe, 0 <= u <= 1, 0 <= wb <= 1, 0 <= l <= 1, 0 <= rn <= 0xf, 0 <= rd <= 0xf, 0 <= ss <= 3, 0 <= rm <= 0xf, 1 <= ss;
    assert(field(w, 5, 2) == ss);
    assert((w as int / 0x1000000) % 2 == 1) by (nonlinear_arith)
        requires w == cond * 0x10000000 + 0x1000000 + u * 0x800000 + wb * 0x200000 + l * 0x100000 + rn * 0x10000 + rd * 0x1000 + 0x80 + ss * 0x20 + 0x10 + rm, 0 <= cond <= 0xe, 0 <= u <= 1, 0 <= wb <= 1, 0 <= l <= 1, 0 <= rn <= 0xf, 0 <= rd <= 0xf, 0 <= ss <= 3, 0 <= rm <= 0xf, 1 <= ss;
    assert(field(w, 24, 1) == 1);
    assert((w as int / 0x800000) % 2 == u) by (nonlinear_arith)
        requires w == cond * 0x10000000 + 0x1000000 + u * 0x800000 + wb * 0x200000 + l * 0x100000 + rn * 0x10000 + rd * 0x1000 + 0x80 + ss * 0x20 + 0x10 + rm, 0 <= cond <= 0xe, 0 <= u <= 1, 0 <= wb <= 1, 0 <= l <= 1, 0 <= rn <= 0xf, 0 <= rd <= 0xf, 0 <= ss <= 3, 0 <= rm <= 0xf, 1 <= ss;
    assert(field(w, 23, 1) == u);
    assert((w as int / 0x200000) % 2 == wb) by (nonlinear_arith)
        requires w == cond * 0x10000000 + 0x1000000 + u * 0x800000 + wb * 0x200000 + l * 0x100000 + rn * 0x10000 + rd * 0x1000 + 0x80 + ss * 0x20 + 0x10 + rm, 0 <= cond <= 0xe, 0 <= u <= 1, 0 <= wb <= 1, 0 <= l <= 1, 0 <= rn <= 0xf, 0 <= rd <= 0xf, 0 <= ss <= 3, 0 <= rm <= 0xf, 1 <= ss;
    assert(field(w, 21, 1) == wb);
    assert((w as int / 0x100000) % 2 == l) by (nonlinear_arith)
        requires w == cond * 0x10000000 + 0x1000000 + u * 0x800000 + wb * 0x200000 + l * 0x100000 + rn * 0x10000 + rd * 0x1000 + 0x80 + ss * 0x20 + 0x10 + rm, 0 <= cond <= 0xe, 0 <= u <= 1, 0 <= wb <= 1, 0 <= l <= 1, 0 <= rn <= 0xf, 0 <= rd <= 0xf, 0 <= ss <= 3, 0 <= rm <= 0xf, 1 <= ss;
    assert(field(w, 20, 1) == l);
    assert((w as int / 1) % 0x10 == rm) by (nonlinear_arith)
        requires w == cond * 0x10000000 + 0x1000000 + u * 0x800000 + wb * 0x200000 + l * 0x100000 + rn * 0x10000 + rd * 0x1000 + 0x80 + ss * 0x20 + 0x10 + rm, 0 <= cond <= 0xe, 0 <= u <= 1, 0 <= wb <= 1, 0 <= l <= 1, 0 <= rn <= 0xf, 0 <= rd <= 0xf, 0 <= ss <= 3, 0 <= rm <= 0xf, 1 <= ss;
    assert(field(w, 0, 4) == rm);
    assert((NOP_WORD as int / 0x10) % 2 == 0) by (nonlinear_arith);
    assert(field(NOP_WORD, 4, 1) == 0);
    assert(w != NOP_WORD);
}

/// Half-word or signed transfer, register offset, post-indexed.
pub open spec fn enc_ldrhstrh_reg_post(cond: Word, u: Word, wb: Word, l: Word, rn: Word, rd: Word, ss: Word, rm: Word) -> Word {
    (cond * 0x10000000 + 0 + u * 0x800000 + wb * 0x200000 + l * 0x100000 + rn * 0x10000 + rd * 0x1000 + 0x80 + ss * 0x20 + 0x10 + rm) as Word
}

/// Law: decoding this shape's encoding recovers the packed fields.
#[verifier::rlimit(100)]
pub proof fn lemma_round_trip_ldrhstrh_reg_post(cond: Word, u: Word, wb: Word, l: Word, rn: Word, rd: Word, ss: Word, rm: Word)
    requires
        cond <= 0xe,
        u <= 1,
        wb <= 1,
        l <= 1,
        rn <= 0xf,
        rd <= 0xf,
        ss <= 3,
        rm <= 0xf,
        1 <= ss,
    ensures
        spec_decode(enc_ldrhstrh_reg_post(cond, u, wb, l, rn, rd, ss, rm)) == spec_instr_ldrhstrh_reg(InstrType::LDRHSTRHRegPost, false, cond, u, wb, l, rn, rd, (l * 4 + ss) as Word, rm),
{
    let w = enc_ldrhstrh_reg_post(cond, u, wb, l, rn, rd, ss, rm);
    lemma2_to64();
    assert((w as int / 0x10000000) % 0x10 == cond) by (nonlinear_arith)
        requires w == cond * 0x10000000 + 0 + u * 0x800000 + wb * 0x200000 + l * 0x100000 + rn * 0x10000 + rd * 0x1000 + 0x80 + ss * 0x20 + 0x10 + rm, 0 <= cond <= 0xe, 0 <= u <= 1, 0 <= wb <= 1, 0 <= l <= 1, 0 <= rn <= 0xf, 0 <= rd <= 0xf, 0 <= ss <= 3, 0 <= rm <= 0xf, 1 <= ss;
    assert(field(w, 28, 4) == cond);
    assert((w as int / 0x2000000) % 8 == 0) by (nonlinear_arith)
        requires w == cond * 0x10000000 + 0 + u * 0x800000 + wb * 0x200000 + l * 0x100000 + rn * 0x10000 + rd * 0x1000 + 0x80 + ss * 0x20 + 0x10 + rm, 0 <= cond <= 0xe, 0 <= u <= 1, 0 <= wb <= 1, 0 <= l <= 1, 0 <= rn <= 0xf, 0 <= rd <= 0xf, 0 <= ss <= 3, 0 <= rm <= 0xf, 1 <= ss;
    assert(field(w, 25, 3) == 0);
    assert((w as int / 0x800000) % 0x20 == 0 * 2 + u) by (nonlinear_arith)
        requires w == cond * 0x10000000 + 0 + u * 0x800000 + wb * 0x200000 + l * 0x100000 + rn * 0x10000 + rd * 0x1000 + 0x80 + ss * 0x20 + 0x10 + rm, 0 <= cond <= 0xe, 0 <= u <= 1, 0 <= wb <= 1, 0 <= l <= 1, 0 <= rn <= 0xf, 0 <= rd <= 0xf, 0 <= ss <= 3, 0 <= rm <= 0xf, 1 <= ss;
    assert(field(w, 23, 5) == 0 * 2 + u);
    assert((w as int / 0x100000) % 4 == wb * 2 + l) by (nonlinear_arith)
        requires w == cond * 0x10000000 + 0 + u * 0x800000 + wb * 0x200000 + l * 0x100000 + rn * 0x10000 + rd * 0x1000 + 0x80 + ss * 0x20 + 0x10 + rm, 0 <= cond <= 0xe, 0 <= u <= 1, 0 <= wb <= 1, 0 <= l <= 1, 0 <= rn <= 0xf, 0 <= rd <= 0xf, 0 <= ss <= 3, 0 <= rm <= 0xf, 1 <= ss;
    assert(field(w, 20, 2) == wb * 2 + l);
    assert((w as int / 0x10000) % 0x10 == rn) by (nonlinear_arith)
        requires w == cond * 0x10000000 + 0 + u * 0x800000 + wb * 0x200000 + l * 0x100000 + rn * 0x10000 + rd * 0x1000 + 0x80 + ss * 0x20 + 0x10 + rm, 0 <= cond <= 0xe, 0 <= u <= 1, 0 <= wb <= 1, 0 <= l <= 1, 0 <= rn <= 0xf, 0 <= rd <= 0xf, 0 <= ss <= 3, 0 <= rm <= 0xf, 1 <= ss;
    assert(field(w, 16, 4) == rn);
    assert((w as int / 1) % 0x1000 == 0x80 + ss * 0x20 + 0x10 + rm) by (nonlinear_arith)
        requires w == cond * 0x10000000 + 0 + u * 0x800000 + wb * 0x200000 + l * 0x100000 + rn * 0x10000 + rd * 0x1000 + 0x80 + ss * 0x20 + 0x10 + rm, 0 <= cond <= 0xe, 0 <= u <= 1, 0 <= wb <= 1, 0 <= l <= 1, 0 <= rn <= 0xf, 0 <= rd <= 0xf, 0 <= ss <= 3, 0 <= rm <= 0xf, 1 <= ss;
    assert(field(w, 0, 12) == 0x80 + ss * 0x20 + 0x10 + rm);
    assert((w as int / 0x1000) % 0x10 == rd) by (nonlinear_arith)
        requires w == cond * 0x10000000 + 0 + u * 0x800000 + wb * 0x200000 + l * 0x100000 + rn * 0x10000 + rd * 0x1000 + 0x80 + ss * 0x20 + 0x10 + rm, 0 <= cond <= 0xe, 0 <= u <= 1, 0 <= wb <= 1, 0 <= l <= 1, 0 <= rn <= 0xf, 0 <= rd <= 0xf, 0 <= ss <= 3, 0 <= rm <= 0xf, 1 <= ss;
    assert(field(w, 12, 4) == rd);
    assert((w as int / 0x10) % 0x100 == 8 + ss * 2 + 1) by (nonlinear_arith)
        requires w == cond * 0x10000000 + 0 + u * 0x800000 + wb * 0x200000 + l * 0x100000 + rn * 0x10000 + rd * 0x1000 + 0x80 + ss * 0x20 + 0x10 + rm, 0 <= cond <= 0xe, 0 <= u <= 1, 0 <= wb <= 1, 0 <= l <= 1, 0 <= rn <= 0xf, 0 <= rd <= 0xf, 0 <= ss <= 3, 0 <= rm <= 0xf, 1 <= ss;
    assert(field(w, 4, 8) == 8 + ss * 2 + 1);
    assert((w as int / 0x100000) % 0x100 == 0 * 0x10 + u * 8 + wb * 2 + l) by (nonlinear_arith)
        requires w == cond * 0x10000000 + 0 + u * 0x800000 + wb * 0x200000 + l * 0x100000 + rn * 0x10000 + rd * 0x1000 + 0x80 + ss * 0x20 + 0x10 + rm, 0 <= cond <= 0xe, 0 <= u <= 1, 0 <= wb <= 1, 0 <= l <= 1, 0 <= rn <= 0xf, 0 <= rd <= 0xf, 0 <= ss <= 3, 0 <= rm <= 0xf, 1 <= ss;
    assert(field(w, 20, 8) == 0 * 0x10 + u * 8 + wb * 2 + l);
    assert((w as int / 0x10) % 2 == 1) by (nonlinear_arith)
        requires w == cond * 0x10000000 + 0 + u * 0x800000 + wb * 0x200000 + l * 0x100000 + rn * 0x10000 + rd * 0x1000 + 0x80 + ss * 0x20 + 0x10 + rm, 0 <= cond <= 0xe, 0 <= u <= 1, 0 <= wb <= 1, 0 <= l <= 1, 0 <= rn <= 0xf, 0 <= rd <= 0xf, 0 <= ss <= 3, 0 <= rm <= 0xf, 1 <= ss;
    assert(field(w, 4, 1) == 1);
    assert((w as int / 0x80) % 2 == 1) by (nonlinear_arith)
        requires w == cond * 0x10000000 + 0 + u * 0x800000 + wb * 0x200000 + l * 0x100000 + rn * 0x10000 + rd * 0x1000 + 0x80 + ss * 0x20 + 0x10 + rm, 0 <= cond <= 0xe, 0 <= u <= 1, 0 <= wb <= 1, 0 <= l <= 1, 0 <= rn <= 0xf, 0 <= rd <= 0xf, 0 <= ss <= 3, 0 <= rm <= 0xf, 1 <= ss;
    assert(field(w, 7, 1) == 1);
    assert((w as int / 0x400000) % 2 == 0) by (nonlinear_arith)
        requires w == cond * 0x10000000 + 0 + u * 0x800000 + wb * 0x200000 + l * 0x100000 + rn * 0x10000 + rd * 0x1000 + 0x80 + ss * 0x20 + 0x10 + rm, 0 <= cond <= 0xe, 0 <= u <= 1, 0 <= wb <= 1, 0 <= l <= 1, 0 <= rn <= 0xf, 0 <= rd <= 0xf, 0 <= ss <= 3, 0 <= rm <= 0xf, 1 <= ss;
    assert(field(w, 22, 1) == 0);
    assert((w as int / 0x100) % 0x10 == 0) by (nonlinear_arith)
        requires w == cond * 0x10000000 + 0 + u * 0x800000 + wb * 0x200000 + l * 0x100000 + rn * 0x10000 + rd * 0x1000 + 0x80 + ss * 0x20 + 0x10 + rm, 0 <= cond <= 0xe, 0 <= u <= 1, 0 <= wb <= 1, 0 <= l <= 1, 0 <= rn <= 0xf, 0 <= rd <= 0xf, 0 <= ss <= 3, 0 <= rm <= 0xf, 1 <= ss;
    assert(field(w, 8, 4) == 0);
    assert((w as int / 0x20) % 4 == ss) by (nonlinear_arith)
        requires w == cond * 0x10000000 + 0 + u * 0x800000 + wb * 0x200000 + l * 0x100000 + rn * 0x10000 + rd * 0x1000 + 0x80 + ss * 0x20 + 0x10 + rm, 0 <= cond <= 0xe, 0 <= u <= 1, 0 <= wb <= 1, 0 <= l <= 1, 0 <= rn <= 0xf, 0 <= rd <= 0xf, 0 <= ss <= 3, 0 <= rm <= 0xf, 1 <= ss;
    assert(field(w, 5, 2) == ss);
    assert((w as int / 0x1000000) % 2 == 0) by (nonlinear_arith)
        requires w == cond * 0x10000000 + 0 + u * 0x800000 + wb * 0x200000 + l * 0x100000 + rn * 0x10000 + rd * 0x1000 + 0x80 + ss * 0x20 + 0x10 + rm, 0 <= cond <= 0xe, 0 <= u <= 1, 0 <= wb <= 1, 0 <= l <= 1, 0 <= rn <= 0xf, 0 <= rd <= 0xf, 0 <= ss <= 3, 0 <= rm <= 0xf, 1 <= ss;
    assert(field(w, 24, 1) == 0);
    assert((w as int / 0x800000) % 2 == u) by (nonlinear_arith)
        requires w == cond * 0x10000000 + 0 + u * 0x800000 + wb * 0x200000 + l * 0x100000 + rn * 0x10000 + rd * 0x1000 + 0x80 + ss * 0x20 + 0x10 + rm, 0 <= cond <= 0xe, 0 <= u <= 1, 0 <= wb <= 1, 0 <= l <= 1, 0 <= rn <= 0xf, 0 <= rd <= 0xf, 0 <= ss <= 3, 0 <= rm <= 0xf, 1 <= ss;
    assert(field(w, 23, 1) == u);
    assert((w as int / 0x200000) % 2 == wb) by (nonlinear_arith)
        requires w == cond * 0x10000000 + 0 + u * 0x800000 + wb * 0x200000 + l * 0x100000 + rn * 0x10000 + rd * 0x1000 + 0x80 + ss * 0x20 + 0x10 + rm, 0 <= cond <= 0xe, 0 <= u <= 1, 0 <= wb <= 1, 0 <= l <= 1, 0 <= rn <= 0xf, 0 <= rd <= 0xf, 0 <= ss <= 3, 0 <= rm <= 0xf, 1 <= ss;
    assert(field(w, 21, 1) == wb);
    assert((w as int / 0x100000) % 2 == l) by (nonlinear_arith)
        requires w == cond * 0x10000000 + 0 + u * 0x800000 + wb * 0x200000 + l * 0x100000 + rn * 0x10000 + rd * 0x1000 + 0x80 + ss * 0x20 + 0x10 + rm, 0 <= cond <= 0xe, 0 <= u <= 1, 0 <= wb <= 1, 0 <= l <= 1, 0 <= rn <= 0xf, 0 <= rd <= 0xf, 0 <= ss <= 3, 0 <= rm <= 0xf, 1 <= ss;
    assert(field(w, 20, 1) == l);
    assert((w as int / 1) % 0x10 == rm) by (nonlinear_arith)
        requires w == cond * 0x10000000 + 0 + u * 0x800000 + wb * 0x200000 + l * 0x100000 + rn * 0x10000 + rd * 0x1000 + 0x80 + ss * 0x20 + 0x10 + rm, 0 <= cond <= 0xe, 0 <= u <= 1, 0 <= wb <= 1, 0 <= l <= 1, 0 <= rn <= 0xf, 0 <= rd <= 0xf, 0 <= ss <= 3, 0 <= rm <= 0xf, 1 <= ss;
    assert(field(w, 0, 4) == rm);
    assert((NOP_WORD as int / 0x10) % 2 == 0) by (nonlinear_arith);
    assert(field(NOP_WORD, 4, 1) == 0);
    assert(w != NOP_WORD);
}

} // verus!
