//! The execution engine: one handler per instruction shape, each mapping
//! the shared machine state (RAM and register file) and one instruction to
//! an outcome. Out-of-bounds memory traffic is surfaced as a fault value
//! instead of stopping the process; the driver decides what to do with it.
use vstd::prelude::*;

verus! {

use crate::bits::{
    Byte, HalfWord, Word, wadd, wsub, wnot, to_signed, set_bit32, bit_get,
    exec_wadd, exec_wsub, exec_wnot,
};
use crate::cpu_enum::{DataOpcode, InstrType, InstrExecuteCondition, LSH, LDMCode};
use crate::instruction::{
    Instruction, shift_imm_spec, shift_reg_spec, rotate_value_spec, msb,
};
use crate::memory::{
    RAM, Registers, Register, spec_register_index, register_index, bank_index,
    read_word_spec, write_word_bytes, read_half_spec, write_half_bytes, checksum_of,
    KEYBOARD_ADDR, DISPLAY_ADDR, updated_slot,
};

/// A memory access the architecture calls a programming error: the driver
/// treats it as fatal.
#[derive(Clone, Copy, Debug, PartialEq, Eq, Structural)]
pub enum ExecFault {
    MemOutOfBounds,
}

pub open spec fn cbit(c: bool) -> Word {
    if c {
        1
    } else {
        0
    }
}

/// Signed overflow of the subtraction `a - b` on 32-bit two's complement.
pub open spec fn signed_sub_overflows(a: Word, b: Word) -> bool {
    let d = to_signed(a) - to_signed(b);
    d < -0x80000000 || d >= 0x80000000
}

/// Signed overflow of the addition `a + b` on 32-bit two's complement.
pub open spec fn signed_add_overflows(a: Word, b: Word) -> bool {
    let d = to_signed(a) + to_signed(b);
    d < -0x80000000 || d >= 0x80000000
}

/// The common tail of a flag-setting data operation: N from the sign of the
/// result, Z from the result being zero.
pub open spec fn nz_chain(w: Word, res: Word) -> Word {
    set_bit32(set_bit32(w, 31, msb(res) == 1), 30, res == 0)
}

/// The value a write-back data opcode stores, or `None` for the four
/// compare-only opcodes.
pub open spec fn data_result(op: DataOpcode, rn: Word, so: Word, c_old: bool) -> Option<Word> {
    match op {
        DataOpcode::AND => Some(rn & so),
        DataOpcode::EOR => Some(rn ^ so),
        DataOpcode::SUB => Some(wsub(rn, so)),
        DataOpcode::RSB => Some(wsub(so, rn)),
        DataOpcode::ADD => Some(wadd(rn, so)),
        DataOpcode::ADC => Some(wadd(rn, wadd(so, cbit(c_old)))),
        DataOpcode::SBC => Some(wsub(rn, wsub(so, cbit(!c_old)))),
        DataOpcode::RSC => Some(wsub(so, wsub(rn, cbit(!c_old)))),
        DataOpcode::ORR => Some(rn | so),
        DataOpcode::MOV => Some(so),
        DataOpcode::BIC => Some(rn & wnot(so)),
        DataOpcode::MVN => Some(wnot(so)),
        DataOpcode::TST => None,
        DataOpcode::TEQ => None,
        DataOpcode::CMP => None,
        DataOpcode::CMN => None,
    }
}

/// The CPSR after one data operation: the opcode-specific carry and
/// overflow updates, then N and Z from the result. A flag-setting MOV into
/// r15 instead restores the CPSR from the SPSR when the mode has one.
pub open spec fn data_cpsr_after(
    op: DataOpcode, s: bool, rd15: bool, has_spsr: bool, spsr: Word, cpsr: Word, rn: Word,
    so: Word, sco: Word, c_old: bool) -> Word {
    let nb = cbit(!c_old);
    match op {
        DataOpcode::AND => if s { nz_chain(set_bit32(cpsr, 29, sco == 1), rn & so) } else { cpsr },
        DataOpcode::EOR => if s { nz_chain(set_bit32(cpsr, 29, sco == 1), rn ^ so) } else { cpsr },
        DataOpcode::SUB => if s {
            nz_chain(set_bit32(cpsr, 29, !(so > rn)), wsub(rn, so))
        } else {
            cpsr
        },
        DataOpcode::RSB => if s {
            nz_chain(set_bit32(set_bit32(cpsr, 29, !(rn > so)), 28, rn > so), wsub(so, rn))
        } else {
            cpsr
        },
        DataOpcode::ADD => if s {
            nz_chain(set_bit32(set_bit32(cpsr, 29, so > rn), 28, rn + so > 0xFFFFFFFF),
                wadd(rn, so))
        } else {
            cpsr
        },
        DataOpcode::ADC => if s {
            nz_chain(set_bit32(set_bit32(cpsr, 29, rn > wadd(so, cbit(c_old))), 28,
                    rn + wadd(so, cbit(c_old)) > 0xFFFFFFFF),
                wadd(rn, wadd(so, cbit(c_old))))
        } else {
            cpsr
        },
        DataOpcode::SBC => if s {
            nz_chain(set_bit32(set_bit32(cpsr, 29, !(wadd(so, nb) > rn)), 28,
                    wsub(so, nb) > rn),
                wsub(rn, wsub(so, nb)))
        } else {
            cpsr
        },
        DataOpcode::RSC => if s {
            nz_chain(set_bit32(set_bit32(cpsr, 29, wnot(wadd(rn, nb)) > so), 28,
                    wsub(rn, nb) > so),
                wsub(so, wsub(rn, nb)))
        } else {
            cpsr
        },
        DataOpcode::ORR => if s { nz_chain(set_bit32(cpsr, 29, sco == 1), rn | so) } else { cpsr },
        DataOpcode::MOV => if s && rd15 {
            if has_spsr {
                spsr
            } else {
                cpsr
            }
        } else if s {
            nz_chain(set_bit32(cpsr, 29, sco == 1), so)
        } else {
            cpsr
        },
        DataOpcode::BIC => if s {
            nz_chain(set_bit32(cpsr, 29, sco == 1), rn & wnot(so))
        } else {
            cpsr
        },
        DataOpcode::MVN => if s { nz_chain(set_bit32(cpsr, 29, sco == 1), wnot(so)) } else { cpsr },
        DataOpcode::TST => set_bit32(nz_chain_first(cpsr, rn & so), 29, sco == 1),
        DataOpcode::TEQ => set_bit32(nz_chain_first(cpsr, rn ^ so), 29, sco == 1),
        DataOpcode::CMP => set_bit32(set_bit32(nz_chain_first(cpsr, wsub(rn, so)), 29,
                !(so > rn)), 28, signed_sub_overflows(rn, so)),
        DataOpcode::CMN => set_bit32(set_bit32(nz_chain_first(cpsr, wadd(rn, so)), 29,
                so > rn), 28, signed_add_overflows(rn, so)),
    }
}

/// The compare opcodes set N and Z before C and V.
pub open spec fn nz_chain_first(w: Word, res: Word) -> Word {
    set_bit32(set_bit32(w, 31, msb(res) == 1), 30, res == 0)
}

/// Field presence and bounds an instruction of each shape guarantees.
pub open spec fn instr_wf(i: Instruction) -> bool {
    match i.instr_type {
        InstrType::DataRegImm => i.data_opcode is Some && i.s_bit is Some && i.rn is Some
            && i.rd is Some && i.rm is Some && i.shift_type is Some && i.imm_shift is Some
            && i.imm_shift->0 <= 31,
        InstrType::DataRegReg => i.data_opcode is Some && i.s_bit is Some && i.rn is Some
            && i.rd is Some && i.rm is Some && i.rs is Some && i.shift_type is Some,
        InstrType::DataImm => i.data_opcode is Some && i.s_bit is Some && i.rn is Some
            && i.rd is Some && i.rotate is Some && i.rotate->0 <= 15 && i.imm is Some,
        InstrType::LDRSTRShiftRegPre | InstrType::LDRSTRShiftRegPost => i.add_sub is Some
            && i.byte_word is Some && i.writeback is Some && i.ldr_str is Some && i.rn is Some
            && i.rd is Some && i.rm is Some && i.shift_type is Some && i.imm_shift is Some
            && i.imm_shift->0 <= 31,
        InstrType::LDRSTRRegPre | InstrType::LDRSTRRegPost => i.add_sub is Some
            && i.byte_word is Some && i.writeback is Some && i.ldr_str is Some && i.rn is Some
            && i.rd is Some && i.rm is Some,
        InstrType::LDRSTRImmPre | InstrType::LDRSTRImmPost => i.add_sub is Some
            && i.byte_word is Some && i.writeback is Some && i.ldr_str is Some && i.rn is Some
            && i.rd is Some && i.imm_shift is Some,
        InstrType::LDRHSTRHImmPre | InstrType::LDRHSTRHImmPost => i.add_sub is Some
            && i.writeback is Some && i.ldr_str is Some && i.rn is Some && i.rd is Some
            && i.lsh is Some && i.imm is Some,
        InstrType::LDRHSTRHRegPre | InstrType::LDRHSTRHRegPost => i.add_sub is Some
            && i.writeback is Some && i.ldr_str is Some && i.rn is Some && i.rd is Some
            && i.lsh is Some && i.rm is Some,
        InstrType::LDMSTM => i.ldm is Some && i.s_bit is Some && i.writeback is Some
            && i.ldr_str is Some && i.rn is Some && i.reg_list is Some
            && i.reg_list->0 <= 0xFFFF,
        InstrType::B => i.l_bit is Some && i.offset is Some,
        InstrType::BX => i.rm is Some,
        InstrType::SWI => i.swi is Some,
        InstrType::MUL => i.s_bit is Some && i.rd is Some && i.rs is Some && i.rm is Some,
        InstrType::NOP => true,
        InstrType::MRS => i.gpregister is Some && i.rd is Some,
        InstrType::MSRImm => i.gpregister is Some && i.field_mask is Some
            && i.field_mask->0 <= 15 && i.rotate is Some && i.rotate->0 <= 15 && i.imm is Some,
        InstrType::MSRReg => i.gpregister is Some && i.field_mask is Some
            && i.field_mask->0 <= 15 && i.rm is Some,
    }
}

/// Full effect of one data operation on the register file, given the
/// resolved second operand and the shifter's carry-out.
pub open spec fn data_op_post(pre: Registers, post: Registers, instr: Instruction, rn: Word,
    so: Word, sco: Word) -> bool {
    &&& post.wf()
    &&& post.endianness == pre.endianness
    &&& post.size == pre.size
    &&& post.slot(16) == data_cpsr_after(
        instr.data_opcode->0,
        instr.s_bit->0,
        instr.rd is Some && spec_register_index(instr.rd->0) == 15,
        pre.has_spsr_of(),
        pre.spsr_of(),
        pre.cpsr_of(),
        rn,
        so,
        sco,
        pre.c_of())
    &&& match data_result(instr.data_opcode->0, rn, so, pre.c_of()) {
        Some(v) => {
            let bank = bank_index(pre.mode_bits_of(), spec_register_index(instr.rd->0));
            &&& post.slot(bank) == v
            &&& forall|j: int| 0 <= j < 23 && j != 16 && j != bank
                ==> post.slot(j) == pre.slot(j)
        },
        None => forall|j: int| 0 <= j < 23 && j != 16 ==> post.slot(j) == pre.slot(j),
    }
}

/// Applies one data opcode to the register file: flags per the opcode's
/// rules, then the destination register for the write-back opcodes.
#[verifier::rlimit(100)]
fn data_match_opcode(regs: &mut Registers, instr: &Instruction, rn: Word, shifter_operand: Word,
    shifter_carry_out: Word)
    requires
        old(regs).wf(),
        instr.data_opcode is Some,
        instr.s_bit is Some,
        data_result(instr.data_opcode->0, rn, shifter_operand, old(regs).c_of()) is Some
            ==> instr.rd is Some,
    ensures
        data_op_post(*old(regs), *final(regs), *instr, rn, shifter_operand, shifter_carry_out),
{
    let c_flag = regs.get_c_flag();
    let s = match instr.get_s_bit() {
        Some(b) => b,
        None => false,
    };
    let op = match instr.get_data_opcode() {
        Some(o) => o,
        None => DataOpcode::AND,
    };
    let ghost pre = *regs;
    let rd_val: Option<Word> = match op {
        DataOpcode::AND => {
            let rd = rn & shifter_operand;
            if s {
                regs.set_c_flag(shifter_carry_out == 1);
            }
            Some(rd)
        },
        DataOpcode::EOR => {
            let rd = rn ^ shifter_operand;
            if s {
                regs.set_c_flag(shifter_carry_out == 1);
            }
            Some(rd)
        },
        DataOpcode::SUB => {
            let rd = exec_wsub(rn, shifter_operand);
            if s {
                regs.set_c_flag(!(shifter_operand > rn));
            }
            Some(rd)
        },
        DataOpcode::RSB => {
            let rd = exec_wsub(shifter_operand, rn);
            if s {
                regs.set_c_flag(!(rn > shifter_operand));
                regs.set_v_flag(rn > shifter_operand);
            }
            Some(rd)
        },
        DataOpcode::ADD => {
            let rd = exec_wadd(rn, shifter_operand);
            if s {
                regs.set_c_flag(shifter_operand > rn);
                regs.set_v_flag(rn as u64 + shifter_operand as u64 > 0xFFFFFFFF);
            }
            Some(rd)
        },
        DataOpcode::ADC => {
            let inner = exec_wadd(shifter_operand, if c_flag { 1 } else { 0 });
            let rd = exec_wadd(rn, inner);
            if s {
                regs.set_c_flag(rn > inner);
                regs.set_v_flag(rn as u64 + inner as u64 > 0xFFFFFFFF);
            }
            Some(rd)
        },
        DataOpcode::SBC => {
            let nb: Word = if c_flag { 0 } else { 1 };
            let inner = exec_wsub(shifter_operand, nb);
            let rd = exec_wsub(rn, inner);
            if s {
                regs.set_c_flag(!(exec_wadd(shifter_operand, nb) > rn));
                regs.set_v_flag(inner > rn);
            }
            Some(rd)
        },
        DataOpcode::RSC => {
            let nb: Word = if c_flag { 0 } else { 1 };
            let inner = exec_wsub(rn, nb);
            let rd = exec_wsub(shifter_operand, inner);
            if s {
                regs.set_c_flag(exec_wnot(exec_wadd(rn, nb)) > shifter_operand);
                regs.set_v_flag(inner > shifter_operand);
            }
            Some(rd)
        },
        DataOpcode::ORR => {
            let rd = rn | shifter_operand;
            if s {
                regs.set_c_flag(shifter_carry_out == 1);
            }
            Some(rd)
        },
        DataOpcode::MOV => {
            let rd = shifter_operand;
            let rd15 = match instr.get_rd() {
                Some(Register::r15) => true,
                _ => false,
            };
            if s && rd15 {
                if regs.current_mode_has_spsr() {
                    let spsr = regs.get_spsr();
                    regs.set_cpsr(spsr);
                }
            } else if s {
                regs.set_c_flag(shifter_carry_out == 1);
            }
            Some(rd)
        },
        DataOpcode::BIC => {
            let rd = rn & exec_wnot(shifter_operand);
            if s {
                regs.set_c_flag(shifter_carry_out == 1);
            }
            Some(rd)
        },
        DataOpcode::MVN => {
            let rd = exec_wnot(shifter_operand);
            if s {
                regs.set_c_flag(shifter_carry_out == 1);
            }
            Some(rd)
        },
        DataOpcode::TST => {
            let alu = rn & shifter_operand;
            regs.set_n_flag(alu / 0x80000000 == 1);
            regs.set_z_flag(alu == 0);
            regs.set_c_flag(shifter_carry_out == 1);
            None
        },
        DataOpcode::TEQ => {
            let alu = rn ^ shifter_operand;
            regs.set_n_flag(alu / 0x80000000 == 1);
            regs.set_z_flag(alu == 0);
            regs.set_c_flag(shifter_carry_out == 1);
            None
        },
        DataOpcode::CMP => {
            let alu = exec_wsub(rn, shifter_operand);
            let a_s: i64 = if rn >= 0x80000000 { rn as i64 - 0x100000000 } else { rn as i64 };
            let b_s: i64 = if shifter_operand >= 0x80000000 {
                shifter_operand as i64 - 0x100000000
            } else {
                shifter_operand as i64
            };
            let d: i64 = a_s - b_s;
            regs.set_n_flag(alu / 0x80000000 == 1);
            regs.set_z_flag(alu == 0);
            regs.set_c_flag(!(shifter_operand > rn));
            regs.set_v_flag(d < -0x80000000 || d >= 0x80000000);
            None
        },
        DataOpcode::CMN => {
            let alu = exec_wadd(rn, shifter_operand);
            let a_s: i64 = if rn >= 0x80000000 { rn as i64 - 0x100000000 } else { rn as i64 };
            let b_s: i64 = if shifter_operand >= 0x80000000 {
                shifter_operand as i64 - 0x100000000
            } else {
                shifter_operand as i64
            };
            let d: i64 = a_s + b_s;
            regs.set_n_flag(alu / 0x80000000 == 1);
            regs.set_z_flag(alu == 0);
            regs.set_c_flag(shifter_operand > rn);
            regs.set_v_flag(d < -0x80000000 || d >= 0x80000000);
            None
        },
    };
    match rd_val {
        Some(rd) => {
            let rd15 = match instr.get_rd() {
                Some(Register::r15) => true,
                _ => false,
            };
            if s && !(matches!(op, DataOpcode::MOV) && rd15) {
                regs.set_n_flag(rd / 0x80000000 == 1);
                regs.set_z_flag(rd == 0);
            }
            let rd_reg = match instr.get_rd() {
                Some(rr) => rr,
                None => Register::r0,
            };
            regs.set_reg_register(rd_reg, rd);
        },
        None => {},
    }
}

/// Zero-padded or sign-extended views of narrow loads.
pub open spec fn sext8(b: Byte) -> Word {
    if b < 128 {
        b as Word
    } else {
        (b + 0xFFFFFF00) as Word
    }
}

pub open spec fn sext16(h: HalfWord) -> Word {
    if h < 0x8000 {
        h as Word
    } else {
        (h + 0xFFFF0000) as Word
    }
}

/// Base register plus or minus the resolved offset, wrapping.
pub open spec fn ls_offset_addr(add: bool, rn_val: Word, off: Word) -> Word {
    if add {
        wadd(rn_val, off)
    } else {
        wsub(rn_val, off)
    }
}

/// `post` is `pre` with up to two slots rewritten, the second write winning
/// on a clash.
pub open spec fn regs_post2(pre: Registers, post: Registers, do1: bool, i1: int, v1: Word,
    do2: bool, i2: int, v2: Word) -> bool {
    &&& post.wf()
    &&& post.endianness == pre.endianness
    &&& post.size == pre.size
    &&& forall|j: int| 0 <= j < 23 ==> post.slot(j) == (
        if do2 && j == i2 {
            v2
        } else if do1 && j == i1 {
            v1
        } else {
            pre.slot(j)
        })
}

/// RAM after a byte store: out-of-range is dropped, in range the byte lands
/// and the checksum is recomputed.
pub open spec fn ram_post_byte(pre: RAM, post: RAM, addr: Word, b: Byte) -> bool {
    if addr < pre.size {
        &&& post.memory_array@ == pre.memory_array@.update(addr as int, b)
        &&& post.checksum == checksum_of(post.memory_array@)
        &&& post.size == pre.size
        &&& post.endianness == pre.endianness
        &&& post.loaded == pre.loaded
        &&& post.display_offset == pre.display_offset
    } else {
        post == pre
    }
}

/// RAM after a word store: misaligned is dropped, aligned lands with the
/// checksum recomputed.
pub open spec fn ram_post_word(pre: RAM, post: RAM, addr: Word, v: Word) -> bool {
    &&& post.memory_array@ == write_word_bytes(pre.memory_array@, pre.endianness, addr as int, v)
    &&& addr % 4 != 0 ==> post == pre
    &&& addr % 4 == 0 ==> {
        &&& post.checksum == checksum_of(post.memory_array@)
        &&& post.size == pre.size
        &&& post.endianness == pre.endianness
        &&& post.loaded == pre.loaded
        &&& post.display_offset == pre.display_offset
    }
}

/// RAM after a halfword store.
pub open spec fn ram_post_half(pre: RAM, post: RAM, addr: Word, v: HalfWord) -> bool {
    &&& post.memory_array@ == write_half_bytes(pre.memory_array@, pre.endianness, addr as int, v)
    &&& addr % 2 != 0 ==> post == pre
    &&& addr % 2 == 0 ==> {
        &&& post.checksum == checksum_of(post.memory_array@)
        &&& post.size == pre.size
        &&& post.endianness == pre.endianness
        &&& post.loaded == pre.loaded
        &&& post.display_offset == pre.display_offset
    }
}

/// What a single-register load reads: the keyboard sentinel yields the
/// injected character, otherwise a byte or an aligned word from RAM.
pub open spec fn ls_load_value(ram: RAM, instr: Instruction, addr: Word) -> Word {
    if addr == KEYBOARD_ADDR {
        (instr.last_char->0) as Word
    } else if instr.byte_word->0 {
        ram.memory_array@[addr as int] as Word
    } else {
        read_word_spec(ram.memory_array@, ram.endianness, addr as int)
    }
}

/// When a single-register transfer stays inside memory: loads fault outside
/// the store, byte stores are dropped silently, word stores fault.
pub open spec fn ls_access_ok(ram: RAM, instr: Instruction, addr: Word) -> bool {
    if instr.ldr_str->0 {
        addr == KEYBOARD_ADDR || (
            if instr.byte_word->0 {
                addr < ram.size
            } else {
                addr + 4 <= ram.size
            })
    } else {
        addr == DISPLAY_ADDR || instr.byte_word->0 || addr + 4 <= ram.size
    }
}

/// Resolved offset of each single-register transfer shape.
pub open spec fn ldrstr_offset_of(pre: Registers, instr: Instruction) -> Word {
    match instr.instr_type {
        InstrType::LDRSTRShiftRegPre | InstrType::LDRSTRShiftRegPost => shift_imm_spec(
            pre.reg_of(spec_register_index(instr.rm->0)), instr.imm_shift->0,
            instr.shift_type->0, cbit(pre.c_of())).0,
        InstrType::LDRSTRRegPre | InstrType::LDRSTRRegPost => pre.reg_of(
            spec_register_index(instr.rm->0)),
        _ => instr.imm_shift->0,
    }
}

/// Whether the shape is pre-indexed.
pub open spec fn pre_indexed_of(instr: Instruction) -> bool {
    match instr.instr_type {
        InstrType::LDRSTRShiftRegPre | InstrType::LDRSTRRegPre | InstrType::LDRSTRImmPre
            | InstrType::LDRHSTRHImmPre | InstrType::LDRHSTRHRegPre => true,
        _ => false,
    }
}

/// Effective address of a single-register transfer.
pub open spec fn ls_addr_of(pre: Registers, instr: Instruction) -> Word {
    if pre_indexed_of(instr) {
        ls_offset_addr(instr.add_sub->0, pre.reg_of(spec_register_index(instr.rn->0)),
            ldrstr_offset_of(pre, instr))
    } else {
        pre.reg_of(spec_register_index(instr.rn->0))
    }
}

/// Full effect of a successful single-register transfer.
pub open spec fn ldrstr_post(pre_ram: RAM, pre_regs: Registers, post_ram: RAM,
    post_regs: Registers, instr: Instruction, offset: Word, pre_indexed: bool) -> bool {
    let rn_idx = spec_register_index(instr.rn->0);
    let rd_idx = spec_register_index(instr.rd->0);
    let mode = pre_regs.mode_bits_of();
    let rn_val = pre_regs.reg_of(rn_idx);
    let rd_val = pre_regs.reg_of(rd_idx);
    let addr = if pre_indexed {
        ls_offset_addr(instr.add_sub->0, rn_val, offset)
    } else {
        rn_val
    };
    let wb = if pre_indexed {
        instr.writeback->0
    } else {
        true
    };
    let wb_val = if pre_indexed {
        addr
    } else {
        ls_offset_addr(instr.add_sub->0, rn_val, offset)
    };
    if instr.ldr_str->0 {
        &&& post_ram == pre_ram
        &&& regs_post2(pre_regs, post_regs, true, bank_index(mode, rd_idx),
            ls_load_value(pre_ram, instr, addr), wb, bank_index(mode, rn_idx), wb_val)
    } else {
        &&& (if addr == DISPLAY_ADDR {
            post_ram == pre_ram
        } else if instr.byte_word->0 {
            ram_post_byte(pre_ram, post_ram, addr, (rd_val % 0x100) as Byte)
        } else {
            ram_post_word(pre_ram, post_ram, addr, rd_val)
        })
        &&& regs_post2(pre_regs, post_regs, false, 0, 0, wb, bank_index(mode, rn_idx), wb_val)
    }
}

/// One single-register transfer with a resolved offset. A store to the
/// display sentinel is skipped here; the driver owns the output hook.
fn ldr_str_access(ram: &mut RAM, regs: &mut Registers, instr: &Instruction, offset: Word,
    pre_indexed: bool) -> (r: Result<(), ExecFault>)
    requires
        old(ram).wf(),
        old(regs).wf(),
        instr.add_sub is Some,
        instr.byte_word is Some,
        instr.writeback is Some,
        instr.ldr_str is Some,
        instr.rn is Some,
        instr.rd is Some,
        instr.ldr_str->0 ==> instr.last_char is Some,
    ensures
        final(ram).wf(),
        final(regs).wf(),
        r is Ok <==> ls_access_ok(*old(ram), *instr, (
            if pre_indexed {
                ls_offset_addr(instr.add_sub->0,
                    old(regs).reg_of(spec_register_index(instr.rn->0)), offset)
            } else {
                old(regs).reg_of(spec_register_index(instr.rn->0))
            })),
        r is Ok ==> ldrstr_post(*old(ram), *old(regs), *final(ram), *final(regs), *instr,
            offset, pre_indexed),
        r is Err ==> *final(ram) == *old(ram) && *final(regs) == *old(regs),
{
    let rn_val = regs.get_reg_register(instr.get_rn().unwrap());
    let rd_val = regs.get_reg_register(instr.get_rd().unwrap());
    let shifted = if instr.get_add_sub().unwrap() {
        exec_wadd(rn_val, offset)
    } else {
        exec_wsub(rn_val, offset)
    };
    let address = if pre_indexed {
        shifted
    } else {
        rn_val
    };
    if instr.get_ldr_str().unwrap() {
        let data: Word;
        if address == KEYBOARD_ADDR {
            data = instr.get_last_char().unwrap() as Word;
        } else if instr.get_byte_word().unwrap() {
            if !ram.byte_access_ok(address) {
                return Err(ExecFault::MemOutOfBounds);
            }
            data = ram.read_byte(address) as Word;
        } else {
            if !ram.word_access_ok(address) {
                return Err(ExecFault::MemOutOfBounds);
            }
            data = ram.read_word(address);
        }
        regs.set_reg_register(instr.get_rd().unwrap(), data);
    } else {
        if address == DISPLAY_ADDR {
        } else if instr.get_byte_word().unwrap() {
            ram.write_byte(address, (rd_val % 0x100) as Byte);
        } else {
            if !ram.word_access_ok(address) {
                return Err(ExecFault::MemOutOfBounds);
            }
            ram.write_word(address, rd_val);
        }
    }
    let wb = if pre_indexed {
        instr.get_writeback().unwrap()
    } else {
        true
    };
    if wb {
        regs.set_reg_register(instr.get_rn().unwrap(), shifted);
    }
    Ok(())
}

/// What a half-word or signed transfer loads.
pub open spec fn hs_load_value(ram: RAM, instr: Instruction, addr: Word) -> Word {
    if addr == KEYBOARD_ADDR {
        (instr.last_char->0) as Word
    } else {
        match instr.lsh->0 {
            LSH::LdrUHalfWord => read_half_spec(ram.memory_array@, ram.endianness,
                addr as int) as Word,
            LSH::LdrSByte => sext8(ram.memory_array@[addr as int]),
            LSH::LdrSHalfWord => sext16(read_half_spec(ram.memory_array@, ram.endianness,
                addr as int)),
            _ => 0,
        }
    }
}

/// When a half-word or signed transfer stays inside memory. The double-word
/// sub-modes are unimplemented and transfer nothing.
pub open spec fn hs_access_ok(ram: RAM, instr: Instruction, addr: Word) -> bool {
    if instr.ldr_str->0 {
        addr == KEYBOARD_ADDR || (
            match instr.lsh->0 {
                LSH::LdrSByte => addr < ram.size,
                _ => addr + 2 <= ram.size,
            })
    } else {
        addr == DISPLAY_ADDR || (
            match instr.lsh->0 {
                LSH::StrHalfWord => addr + 2 <= ram.size,
                _ => true,
            })
    }
}

/// Resolved offset of each half-word transfer shape.
pub open spec fn ldrhstrh_offset_of(pre: Registers, instr: Instruction) -> Word {
    match instr.instr_type {
        InstrType::LDRHSTRHImmPre | InstrType::LDRHSTRHImmPost => (instr.imm->0) as Word,
        _ => pre.reg_of(spec_register_index(instr.rm->0)),
    }
}

/// Full effect of a successful half-word or signed transfer.
pub open spec fn ldrhstrh_post(pre_ram: RAM, pre_regs: Registers, post_ram: RAM,
    post_regs: Registers, instr: Instruction, offset: Word, pre_indexed: bool) -> bool {
    let rn_idx = spec_register_index(instr.rn->0);
    let rd_idx = spec_register_index(instr.rd->0);
    let mode = pre_regs.mode_bits_of();
    let rn_val = pre_regs.reg_of(rn_idx);
    let rd_val = pre_regs.reg_of(rd_idx);
    let addr = if pre_indexed {
        ls_offset_addr(instr.add_sub->0, rn_val, offset)
    } else {
        rn_val
    };
    let wb = if pre_indexed {
        instr.writeback->0
    } else {
        true
    };
    let wb_val = if pre_indexed {
        addr
    } else {
        ls_offset_addr(instr.add_sub->0, rn_val, offset)
    };
    if instr.ldr_str->0 {
        &&& post_ram == pre_ram
        &&& regs_post2(pre_regs, post_regs, true, bank_index(mode, rd_idx),
            hs_load_value(pre_ram, instr, addr), wb, bank_index(mode, rn_idx), wb_val)
    } else {
        &&& (if addr == DISPLAY_ADDR {
            post_ram == pre_ram
        } else {
            match instr.lsh->0 {
                LSH::StrHalfWord => ram_post_half(pre_ram, post_ram, addr,
                    (rd_val % 0x10000) as HalfWord),
                _ => post_ram == pre_ram,
            }
        })
        &&& regs_post2(pre_regs, post_regs, false, 0, 0, wb, bank_index(mode, rn_idx), wb_val)
    }
}

/// One half-word or signed transfer with a resolved offset.
fn ldrh_strh_access(ram: &mut RAM, regs: &mut Registers, instr: &Instruction, offset: Word,
    pre_indexed: bool) -> (r: Result<(), ExecFault>)
    requires
        old(ram).wf(),
        old(regs).wf(),
        instr.add_sub is Some,
        instr.writeback is Some,
        instr.ldr_str is Some,
        instr.rn is Some,
        instr.rd is Some,
        instr.lsh is Some,
        instr.ldr_str->0 ==> instr.last_char is Some,
    ensures
        final(ram).wf(),
        final(regs).wf(),
        r is Ok <==> hs_access_ok(*old(ram), *instr, (
            if pre_indexed {
                ls_offset_addr(instr.add_sub->0,
                    old(regs).reg_of(spec_register_index(instr.rn->0)), offset)
            } else {
                old(regs).reg_of(spec_register_index(instr.rn->0))
            })),
        r is Ok ==> ldrhstrh_post(*old(ram), *old(regs), *final(ram), *final(regs), *instr,
            offset, pre_indexed),
        r is Err ==> *final(ram) == *old(ram) && *final(regs) == *old(regs),
{
    let rn_val = regs.get_reg_register(instr.get_rn().unwrap());
    let rd_val = regs.get_reg_register(instr.get_rd().unwrap());
    let shifted = if instr.get_add_sub().unwrap() {
        exec_wadd(rn_val, offset)
    } else {
        exec_wsub(rn_val, offset)
    };
    let address = if pre_indexed {
        shifted
    } else {
        rn_val
    };
    if instr.get_ldr_str().unwrap() {
        let data: Word;
        if address == KEYBOARD_ADDR {
            data = instr.get_last_char().unwrap() as Word;
        } else {
            match instr.get_lsh().unwrap() {
                LSH::LdrSByte => {
                    if !ram.byte_access_ok(address) {
                        return Err(ExecFault::MemOutOfBounds);
                    }
                    let b = ram.read_byte(address);
                    data = if b < 128 {
                        b as Word
                    } else {
                        b as Word + 0xFFFFFF00
                    };
                },
                LSH::LdrSHalfWord => {
                    if !ram.half_access_ok(address) {
                        return Err(ExecFault::MemOutOfBounds);
                    }
                    let h = ram.read_half_word(address);
                    data = if h < 0x8000 {
                        h as Word
                    } else {
                        h as Word + 0xFFFF0000
                    };
                },
                _ => {
                    if !ram.half_access_ok(address) {
                        return Err(ExecFault::MemOutOfBounds);
                    }
                    let h = ram.read_half_word(address);
                    data = if matches!(instr.get_lsh().unwrap(), LSH::LdrUHalfWord) {
                        h as Word
                    } else {
                        0
                    };
                },
            }
        }
        regs.set_reg_register(instr.get_rd().unwrap(), data);
    } else {
        if address == DISPLAY_ADDR {
        } else {
            match instr.get_lsh().unwrap() {
                LSH::StrHalfWord => {
                    if !ram.half_access_ok(address) {
                        return Err(ExecFault::MemOutOfBounds);
                    }
                    ram.write_half_word(address, (rd_val % 0x10000) as HalfWord);
                },
                _ => {},
            }
        }
    }
    let wb = if pre_indexed {
        instr.get_writeback().unwrap()
    } else {
        true
    };
    if wb {
        regs.set_reg_register(instr.get_rn().unwrap(), shifted);
    }
    Ok(())
}

/// Data processing with a register operand shifted by an immediate amount.
pub fn instr_data_reg_imm(ram: &mut RAM, regs: &mut Registers, instr: &Instruction)
    -> (r: InstrExecuteCondition)
    requires
        old(ram).wf(),
        old(regs).wf(),
        instr.instr_type == InstrType::DataRegImm,
        instr_wf(*instr),
    ensures
        *final(ram) == *old(ram),
        r == InstrExecuteCondition::NOP,
        data_op_post(*old(regs), *final(regs), *instr,
            old(regs).reg_of(spec_register_index(instr.rn->0)),
            shift_imm_spec(old(regs).reg_of(spec_register_index(instr.rm->0)),
                instr.imm_shift->0, instr.shift_type->0, cbit(old(regs).c_of())).0,
            shift_imm_spec(old(regs).reg_of(spec_register_index(instr.rm->0)),
                instr.imm_shift->0, instr.shift_type->0, cbit(old(regs).c_of())).1),
{
    let rn = regs.get_reg_register(instr.get_rn().unwrap());
    let rm = regs.get_reg_register(instr.get_rm().unwrap());
    let c: Byte = if regs.get_c_flag() { 1 } else { 0 };
    let (so, sco) = Instruction::shift_value_by_imm(rm, instr.get_imm_shift().unwrap(),
        instr.get_shift_type().unwrap(), c);
    data_match_opcode(regs, instr, rn, so, sco);
    InstrExecuteCondition::NOP
}

/// Data processing with a register operand shifted by a register amount.
pub fn instr_data_reg_reg(ram: &mut RAM, regs: &mut Registers, instr: &Instruction)
    -> (r: InstrExecuteCondition)
    requires
        old(ram).wf(),
        old(regs).wf(),
        instr.instr_type == InstrType::DataRegReg,
        instr_wf(*instr),
    ensures
        *final(ram) == *old(ram),
        r == InstrExecuteCondition::NOP,
        data_op_post(*old(regs), *final(regs), *instr,
            old(regs).reg_of(spec_register_index(instr.rn->0)),
            shift_reg_spec(old(regs).reg_of(spec_register_index(instr.rm->0)),
                old(regs).reg_of(spec_register_index(instr.rs->0)), instr.shift_type->0,
                cbit(old(regs).c_of())).0,
            shift_reg_spec(old(regs).reg_of(spec_register_index(instr.rm->0)),
                old(regs).reg_of(spec_register_index(instr.rs->0)), instr.shift_type->0,
                cbit(old(regs).c_of())).1),
{
    let rn = regs.get_reg_register(instr.get_rn().unwrap());
    let rm = regs.get_reg_register(instr.get_rm().unwrap());
    let rs = regs.get_reg_register(instr.get_rs().unwrap());
    let c: Byte = if regs.get_c_flag() { 1 } else { 0 };
    let (so, sco) = Instruction::shift_value_by_reg(rm, rs, instr.get_shift_type().unwrap(), c);
    data_match_opcode(regs, instr, rn, so, sco);
    InstrExecuteCondition::NOP
}

/// Data processing with a rotated immediate operand.
pub fn instr_data_imm(ram: &mut RAM, regs: &mut Registers, instr: &Instruction)
    -> (r: InstrExecuteCondition)
    requires
        old(ram).wf(),
        old(regs).wf(),
        instr.instr_type == InstrType::DataImm,
        instr_wf(*instr),
    ensures
        *final(ram) == *old(ram),
        r == InstrExecuteCondition::NOP,
        data_op_post(*old(regs), *final(regs), *instr,
            old(regs).reg_of(spec_register_index(instr.rn->0)),
            rotate_value_spec(instr.rotate->0, instr.imm->0,
                cbit(old(regs).c_of()) as Byte).0,
            rotate_value_spec(instr.rotate->0, instr.imm->0,
                cbit(old(regs).c_of()) as Byte).1),
{
    let rn = regs.get_reg_register(instr.get_rn().unwrap());
    let c: Byte = if regs.get_c_flag() { 1 } else { 0 };
    let (so, sco) = Instruction::rotate_value(instr.get_rotate().unwrap(),
        instr.get_imm().unwrap(), c);
    data_match_opcode(regs, instr, rn, so, sco);
    InstrExecuteCondition::NOP
}

/// Word or byte transfer, shifted-register offset, pre-indexed.
pub fn instr_ldrstr_shifted_reg_pre(ram: &mut RAM, regs: &mut Registers, instr: &Instruction)
    -> (r: Result<InstrExecuteCondition, ExecFault>)
    requires
        old(ram).wf(),
        old(regs).wf(),
        instr.instr_type == InstrType::LDRSTRShiftRegPre,
        instr_wf(*instr),
        instr.ldr_str->0 ==> instr.last_char is Some,
    ensures
        final(ram).wf(),
        final(regs).wf(),
        r is Ok <==> ls_access_ok(*old(ram), *instr, ls_addr_of(*old(regs), *instr)),
        r is Ok ==> ldrstr_post(*old(ram), *old(regs), *final(ram), *final(regs), *instr,
            ldrstr_offset_of(*old(regs), *instr), true)
            && r == Ok::<InstrExecuteCondition, ExecFault>(InstrExecuteCondition::NOP),
        r is Err ==> *final(ram) == *old(ram) && *final(regs) == *old(regs),
{
    let rm = regs.get_reg_register(instr.get_rm().unwrap());
    let c: Byte = if regs.get_c_flag() { 1 } else { 0 };
    let index = Instruction::shift_value_by_imm(rm, instr.get_imm_shift().unwrap(),
        instr.get_shift_type().unwrap(), c).0;
    match ldr_str_access(ram, regs, instr, index, true) {
        Ok(()) => Ok(InstrExecuteCondition::NOP),
        Err(e) => Err(e),
    }
}

/// Word or byte transfer, shifted-register offset, post-indexed.
pub fn instr_ldrstr_shifted_reg_post(ram: &mut RAM, regs: &mut Registers, instr: &Instruction)
    -> (r: Result<InstrExecuteCondition, ExecFault>)
    requires
        old(ram).wf(),
        old(regs).wf(),
        instr.instr_type == InstrType::LDRSTRShiftRegPost,
        instr_wf(*instr),
        instr.ldr_str->0 ==> instr.last_char is Some,
    ensures
        final(ram).wf(),
        final(regs).wf(),
        r is Ok <==> ls_access_ok(*old(ram), *instr, ls_addr_of(*old(regs), *instr)),
        r is Ok ==> ldrstr_post(*old(ram), *old(regs), *final(ram), *final(regs), *instr,
            ldrstr_offset_of(*old(regs), *instr), false)
            && r == Ok::<InstrExecuteCondition, ExecFault>(InstrExecuteCondition::NOP),
        r is Err ==> *final(ram) == *old(ram) && *final(regs) == *old(regs),
{
    let rm = regs.get_reg_register(instr.get_rm().unwrap());
    let c: Byte = if regs.get_c_flag() { 1 } else { 0 };
    let index = Instruction::shift_value_by_imm(rm, instr.get_imm_shift().unwrap(),
        instr.get_shift_type().unwrap(), c).0;
    match ldr_str_access(ram, regs, instr, index, false) {
        Ok(()) => Ok(InstrExecuteCondition::NOP),
        Err(e) => Err(e),
    }
}

/// Word or byte transfer, plain register offset, pre-indexed.
pub fn instr_ldrstr_reg_pre(ram: &mut RAM, regs: &mut Registers, instr: &Instruction)
    -> (r: Result<InstrExecuteCondition, ExecFault>)
    requires
        old(ram).wf(),
        old(regs).wf(),
        instr.instr_type == InstrType::LDRSTRRegPre,
        instr_wf(*instr),
        instr.ldr_str->0 ==> instr.last_char is Some,
    ensures
        final(ram).wf(),
        final(regs).wf(),
        r is Ok <==> ls_access_ok(*old(ram), *instr, ls_addr_of(*old(regs), *instr)),
        r is Ok ==> ldrstr_post(*old(ram), *old(regs), *final(ram), *final(regs), *instr,
            ldrstr_offset_of(*old(regs), *instr), true)
            && r == Ok::<InstrExecuteCondition, ExecFault>(InstrExecuteCondition::NOP),
        r is Err ==> *final(ram) == *old(ram) && *final(regs) == *old(regs),
{
    let rm = regs.get_reg_register(instr.get_rm().unwrap());
    match ldr_str_access(ram, regs, instr, rm, true) {
        Ok(()) => Ok(InstrExecuteCondition::NOP),
        Err(e) => Err(e),
    }
}

/// Word or byte transfer, plain register offset, post-indexed.
pub fn instr_ldrstr_reg_post(ram: &mut RAM, regs: &mut Registers, instr: &Instruction)
    -> (r: Result<InstrExecuteCondition, ExecFault>)
    requires
        old(ram).wf(),
        old(regs).wf(),
        instr.instr_type == InstrType::LDRSTRRegPost,
        instr_wf(*instr),
        instr.ldr_str->0 ==> instr.last_char is Some,
    ensures
        final(ram).wf(),
        final(regs).wf(),
        r is Ok <==> ls_access_ok(*old(ram), *instr, ls_addr_of(*old(regs), *instr)),
        r is Ok ==> ldrstr_post(*old(ram), *old(regs), *final(ram), *final(regs), *instr,
            ldrstr_offset_of(*old(regs), *instr), false)
            && r == Ok::<InstrExecuteCondition, ExecFault>(InstrExecuteCondition::NOP),
        r is Err ==> *final(ram) == *old(ram) && *final(regs) == *old(regs),
{
    let rm = regs.get_reg_register(instr.get_rm().unwrap());
    match ldr_str_access(ram, regs, instr, rm, false) {
        Ok(()) => Ok(InstrExecuteCondition::NOP),
        Err(e) => Err(e),
    }
}

/// Word or byte transfer, immediate offset, pre-indexed.
pub fn instr_ldrstr_imm_pre(ram: &mut RAM, regs: &mut Registers, instr: &Instruction)
    -> (r: Result<InstrExecuteCondition, ExecFault>)
    requires
        old(ram).wf(),
        old(regs).wf(),
        instr.instr_type == InstrType::LDRSTRImmPre,
        instr_wf(*instr),
        instr.ldr_str->0 ==> instr.last_char is Some,
    ensures
        final(ram).wf(),
        final(regs).wf(),
        r is Ok <==> ls_access_ok(*old(ram), *instr, ls_addr_of(*old(regs), *instr)),
        r is Ok ==> ldrstr_post(*old(ram), *old(regs), *final(ram), *final(regs), *instr,
            ldrstr_offset_of(*old(regs), *instr), true)
            && r == Ok::<InstrExecuteCondition, ExecFault>(InstrExecuteCondition::NOP),
        r is Err ==> *final(ram) == *old(ram) && *final(regs) == *old(regs),
{
    let offset = instr.get_imm_shift().unwrap();
    match ldr_str_access(ram, regs, instr, offset, true) {
        Ok(()) => Ok(InstrExecuteCondition::NOP),
        Err(e) => Err(e),
    }
}

/// Word or byte transfer, immediate offset, post-indexed.
pub fn instr_ldrstr_imm_post(ram: &mut RAM, regs: &mut Registers, instr: &Instruction)
    -> (r: Result<InstrExecuteCondition, ExecFault>)
    requires
        old(ram).wf(),
        old(regs).wf(),
        instr.instr_type == InstrType::LDRSTRImmPost,
        instr_wf(*instr),
        instr.ldr_str->0 ==> instr.last_char is Some,
    ensures
        final(ram).wf(),
        final(regs).wf(),
        r is Ok <==> ls_access_ok(*old(ram), *instr, ls_addr_of(*old(regs), *instr)),
        r is Ok ==> ldrstr_post(*old(ram), *old(regs), *final(ram), *final(regs), *instr,
            ldrstr_offset_of(*old(regs), *instr), false)
            && r == Ok::<InstrExecuteCondition, ExecFault>(InstrExecuteCondition::NOP),
        r is Err ==> *final(ram) == *old(ram) && *final(regs) == *old(regs),
{
    let offset = instr.get_imm_shift().unwrap();
    match ldr_str_access(ram, regs, instr, offset, false) {
        Ok(()) => Ok(InstrExecuteCondition::NOP),
        Err(e) => Err(e),
    }
}

/// Half-word or signed transfer, immediate offset, pre-indexed.
pub fn instr_ldrhstrh_imm_pre(ram: &mut RAM, regs: &mut Registers, instr: &Instruction)
    -> (r: Result<InstrExecuteCondition, ExecFault>)
    requires
        old(ram).wf(),
        old(regs).wf(),
        instr.instr_type == InstrType::LDRHSTRHImmPre,
        instr_wf(*instr),
        instr.ldr_str->0 ==> instr.last_char is Some,
    ensures
        final(ram).wf(),
        final(regs).wf(),
        r is Ok <==> hs_access_ok(*old(ram), *instr, ls_offset_addr(instr.add_sub->0,
            old(regs).reg_of(spec_register_index(instr.rn->0)),
            ldrhstrh_offset_of(*old(regs), *instr))),
        r is Ok ==> ldrhstrh_post(*old(ram), *old(regs), *final(ram), *final(regs), *instr,
            ldrhstrh_offset_of(*old(regs), *instr), true)
            && r == Ok::<InstrExecuteCondition, ExecFault>(InstrExecuteCondition::NOP),
        r is Err ==> *final(ram) == *old(ram) && *final(regs) == *old(regs),
{
    let offset = instr.get_imm().unwrap() as Word;
    match ldrh_strh_access(ram, regs, instr, offset, true) {
        Ok(()) => Ok(InstrExecuteCondition::NOP),
        Err(e) => Err(e),
    }
}

/// Half-word or signed transfer, immediate offset, post-indexed.
pub fn instr_ldrhstrh_imm_post(ram: &mut RAM, regs: &mut Registers, instr: &Instruction)
    -> (r: Result<InstrExecuteCondition, ExecFault>)
    requires
        old(ram).wf(),
        old(regs).wf(),
        instr.instr_type == InstrType::LDRHSTRHImmPost,
        instr_wf(*instr),
        instr.ldr_str->0 ==> instr.last_char is Some,
    ensures
        final(ram).wf(),
        final(regs).wf(),
        r is Ok <==> hs_access_ok(*old(ram), *instr,
            old(regs).reg_of(spec_register_index(instr.rn->0))),
        r is Ok ==> ldrhstrh_post(*old(ram), *old(regs), *final(ram), *final(regs), *instr,
            ldrhstrh_offset_of(*old(regs), *instr), false)
            && r == Ok::<InstrExecuteCondition, ExecFault>(InstrExecuteCondition::NOP),
        r is Err ==> *final(ram) == *old(ram) && *final(regs) == *old(regs),
{
    let offset = instr.get_imm().unwrap() as Word;
    match ldrh_strh_access(ram, regs, instr, offset, false) {
        Ok(()) => Ok(InstrExecuteCondition::NOP),
        Err(e) => Err(e),
    }
}

/// Half-word or signed transfer, register offset, pre-indexed.
pub fn instr_ldrhstrh_reg_pre(ram: &mut RAM, regs: &mut Registers, instr: &Instruction)
    -> (r: Result<InstrExecuteCondition, ExecFault>)
    requires
        old(ram).wf(),
        old(regs).wf(),
        instr.instr_type == InstrType::LDRHSTRHRegPre,
        instr_wf(*instr),
        instr.ldr_str->0 ==> instr.last_char is Some,
    ensures
        final(ram).wf(),
        final(regs).wf(),
        r is Ok <==> hs_access_ok(*old(ram), *instr, ls_offset_addr(instr.add_sub->0,
            old(regs).reg_of(spec_register_index(instr.rn->0)),
            ldrhstrh_offset_of(*old(regs), *instr))),
        r is Ok ==> ldrhstrh_post(*old(ram), *old(regs), *final(ram), *final(regs), *instr,
            ldrhstrh_offset_of(*old(regs), *instr), true)
            && r == Ok::<InstrExecuteCondition, ExecFault>(InstrExecuteCondition::NOP),
        r is Err ==> *final(ram) == *old(ram) && *final(regs) == *old(regs),
{
    let rm = regs.get_reg_register(instr.get_rm().unwrap());
    match ldrh_strh_access(ram, regs, instr, rm, true) {
        Ok(()) => Ok(InstrExecuteCondition::NOP),
        Err(e) => Err(e),
    }
}

/// Half-word or signed transfer, register offset, post-indexed.
pub fn instr_ldrhstrh_reg_post(ram: &mut RAM, regs: &mut Registers, instr: &Instruction)
    -> (r: Result<InstrExecuteCondition, ExecFault>)
    requires
        old(ram).wf(),
        old(regs).wf(),
        instr.instr_type == InstrType::LDRHSTRHRegPost,
        instr_wf(*instr),
        instr.ldr_str->0 ==> instr.last_char is Some,
    ensures
        final(ram).wf(),
        final(regs).wf(),
        r is Ok <==> hs_access_ok(*old(ram), *instr,
            old(regs).reg_of(spec_register_index(instr.rn->0))),
        r is Ok ==> ldrhstrh_post(*old(ram), *old(regs), *final(ram), *final(regs), *instr,
            ldrhstrh_offset_of(*old(regs), *instr), false)
            && r == Ok::<InstrExecuteCondition, ExecFault>(InstrExecuteCondition::NOP),
        r is Err ==> *final(ram) == *old(ram) && *final(regs) == *old(regs),
{
    let rm = regs.get_reg_register(instr.get_rm().unwrap());
    match ldrh_strh_access(ram, regs, instr, rm, false) {
        Ok(()) => Ok(InstrExecuteCondition::NOP),
        Err(e) => Err(e),
    }
}

/// Number of set bits among the low `n` bits of the register list.
pub open spec fn bits_below(list: Word, n: nat) -> nat
    decreases n,
{
    if n == 0 {
        0
    } else {
        bits_below(list, (n - 1) as nat) + (bit_get(list, (n - 1) as nat) as nat)
    }
}

/// The set-bit count over the low `n` bits never exceeds `n`.
pub proof fn lemma_bits_below_le(list: Word, n: nat)
    ensures
        bits_below(list, n) <= n,
    decreases n,
{
    if n > 0 {
        lemma_bits_below_le(list, (n - 1) as nat);
    }
}

/// First address a block transfer touches, by addressing policy.
pub open spec fn ldm_start_addr(code: LDMCode, rn: Word, cnt: nat) -> Word {
    match code {
        LDMCode::DecAfter => wadd(wsub(rn, (4 * cnt) as Word), 4),
        LDMCode::IncAfter => rn,
        LDMCode::DecBefore => wsub(rn, (4 * cnt) as Word),
        LDMCode::IncBefore => wadd(rn, 4),
    }
}

/// Last address a block transfer touches, by addressing policy.
pub open spec fn ldm_end_addr(code: LDMCode, rn: Word, cnt: nat) -> Word {
    match code {
        LDMCode::DecAfter => rn,
        LDMCode::IncAfter => wsub(wadd(rn, (4 * cnt) as Word), 4),
        LDMCode::DecBefore => wsub(rn, 4),
        LDMCode::IncBefore => wadd(rn, (4 * cnt) as Word),
    }
}

/// The base register's value after an optional writeback.
pub open spec fn ldm_wb_value(code: LDMCode, rn: Word, cnt: nat) -> Word {
    match code {
        LDMCode::DecAfter | LDMCode::DecBefore => wsub(rn, (4 * cnt) as Word),
        LDMCode::IncAfter | LDMCode::IncBefore => wadd(rn, (4 * cnt) as Word),
    }
}

/// The address register `i`'s word travels through, low registers first.
pub open spec fn ldm_addr_at(start: Word, list: Word, i: nat) -> Word {
    wadd(start, (4 * bits_below(list, i)) as Word)
}

/// Whether every word of the block transfer stays inside memory.
pub open spec fn ldm_accesses_ok(size: int, list: Word, start: Word) -> bool {
    forall|i: int| 0 <= i < 16 && #[trigger] bit_get(list, i as nat) == 1
        ==> ldm_addr_at(start, list, i as nat) + 4 <= size
}

/// Register slot `j` after loading the registers of the low `n` list bits,
/// starting from `pre` with the optional writeback already applied. A load
/// into r15 forces word alignment.
pub open spec fn ldm_slot_val(ram: RAM, pre: Registers, m: Word, wb: bool, bank_rn: int,
    wbv: Word, list: Word, start: Word, n: nat, j: int) -> Word
    decreases n,
{
    if n == 0 {
        if wb && j == bank_rn {
            wbv
        } else {
            pre.slot(j)
        }
    } else {
        let i = (n - 1) as nat;
        let prev = ldm_slot_val(ram, pre, m, wb, bank_rn, wbv, list, start, i, j);
        if bit_get(list, i) == 1 {
            let v = read_word_spec(ram.memory_array@, ram.endianness,
                ldm_addr_at(start, list, i) as int);
            if i <= 14 {
                if j == bank_index(m, i as int) {
                    v
                } else {
                    prev
                }
            } else {
                if j == 15 {
                    (v - v % 4) as Word
                } else {
                    prev
                }
            }
        } else {
            prev
        }
    }
}

/// The value register `i` holds during a block store, after the optional
/// writeback of the base register.
pub open spec fn stm_reg_val(pre: Registers, m: Word, wb: bool, bank_rn: int, wbv: Word,
    i: int) -> Word {
    if wb && bank_index(m, i) == bank_rn {
        wbv
    } else {
        pre.slot(bank_index(m, i))
    }
}

/// The byte store after writing the registers of the low `n` list bits.
pub open spec fn stm_bytes(pre: Registers, m: Word, wb: bool, bank_rn: int, wbv: Word,
    bytes: Seq<Byte>, e: crate::memory::Endianness, list: Word, start: Word, n: nat)
    -> Seq<Byte>
    decreases n,
{
    if n == 0 {
        bytes
    } else {
        let i = (n - 1) as nat;
        let prev = stm_bytes(pre, m, wb, bank_rn, wbv, bytes, e, list, start, i);
        if bit_get(list, i) == 1 {
            write_word_bytes(prev, e, ldm_addr_at(start, list, i) as int,
                stm_reg_val(pre, m, wb, bank_rn, wbv, i as int))
        } else {
            prev
        }
    }
}

/// Loads the listed registers from successive words starting at `start`;
/// the returned address is one past the last word read.
fn ldm(ram: &RAM, regs: &mut Registers, list: Word, start: Word)
    -> (r: Result<Word, ExecFault>)
    requires
        ram.wf(),
        old(regs).wf(),
        list <= 0xFFFF,
    ensures
        final(regs).wf(),
        final(regs).size == old(regs).size,
        final(regs).endianness == old(regs).endianness,
        final(regs).slot(16) == old(regs).slot(16),
        r is Ok <==> ldm_accesses_ok(ram.size as int, list, start),
        r is Ok ==> {
            &&& r->Ok_0 == wadd(start, (4 * bits_below(list, 16)) as Word)
            &&& forall|j: int| 0 <= j < 23 ==> final(regs).slot(j) == ldm_slot_val(*ram,
                *old(regs), old(regs).mode_bits_of(), false, 0, 0, list, start, 16, j)
        },
{
    let ghost m = old(regs).mode_bits_of();
    let mut address = start;
    let mut ri: Word = 0;
    while ri < 16
        invariant
            ram.wf(),
            regs.wf(),
            regs.size == old(regs).size,
            regs.endianness == old(regs).endianness,
            regs.slot(16) == old(regs).slot(16),
            m == old(regs).mode_bits_of(),
            ri <= 16,
            list <= 0xFFFF,
            address == wadd(start, (4 * bits_below(list, ri as nat)) as Word),
            forall|k: int| 0 <= k < ri && #[trigger] bit_get(list, k as nat) == 1
                ==> ldm_addr_at(start, list, k as nat) + 4 <= ram.size,
            forall|j: int| 0 <= j < 23 ==> regs.slot(j) == ldm_slot_val(*ram, *old(regs), m,
                false, 0, 0, list, start, ri as nat, j),
        decreases 16 - ri,
    {
        proof {
            lemma_bits_below_le(list, ri as nat);
        }
        if crate::bits::get_bit(list, ri) == 1 {
            if !ram.word_access_ok(address) {
                proof {
                    let i0: int = ri as int;
                    assert(bit_get(list, i0 as nat) == 1);
                    assert(ldm_addr_at(start, list, i0 as nat) == address);
                    assert(!ldm_accesses_ok(ram.size as int, list, start));
                }
                return Err(ExecFault::MemOutOfBounds);
            }
            let v = ram.read_word(address);
            if ri <= 14 {
                regs.set_register(ri as usize, v);
            } else {
                regs.set_pc(v - v % 4);
            }
            address = crate::bits::exec_wadd(address, 4);
            proof {
                crate::bits::lemma_wadd_assoc(start,
                    (4 * bits_below(list, ri as nat)) as Word, 4);
            }
        }
        ri = ri + 1;
    }
    Ok(address)
}

/// Stores the listed registers to successive words starting at `start`;
/// the returned address is one past the last word written.
fn stm(ram: &mut RAM, regs: &Registers, list: Word, start: Word)
    -> (r: Result<Word, ExecFault>)
    requires
        old(ram).wf(),
        regs.wf(),
        list <= 0xFFFF,
    ensures
        final(ram).wf(),
        final(ram).size == old(ram).size,
        final(ram).endianness == old(ram).endianness,
        final(ram).loaded == old(ram).loaded,
        final(ram).display_offset == old(ram).display_offset,
        r is Ok <==> ldm_accesses_ok(old(ram).size as int, list, start),
        r is Ok ==> {
            &&& r->Ok_0 == wadd(start, (4 * bits_below(list, 16)) as Word)
            &&& final(ram).memory_array@ == stm_bytes(*regs, regs.mode_bits_of(), false, 0, 0,
                old(ram).memory_array@, old(ram).endianness, list, start, 16)
            &&& final(ram).checksum == checksum_of(final(ram).memory_array@)
                || *final(ram) == *old(ram)
        },
{
    let ghost m = regs.mode_bits_of();
    let mut address = start;
    let mut ri: Word = 0;
    while ri < 16
        invariant
            ram.wf(),
            regs.wf(),
            ram.size == old(ram).size,
            ram.endianness == old(ram).endianness,
            ram.loaded == old(ram).loaded,
            ram.display_offset == old(ram).display_offset,
            m == regs.mode_bits_of(),
            ri <= 16,
            list <= 0xFFFF,
            address == wadd(start, (4 * bits_below(list, ri as nat)) as Word),
            forall|k: int| 0 <= k < ri && #[trigger] bit_get(list, k as nat) == 1
                ==> ldm_addr_at(start, list, k as nat) + 4 <= old(ram).size,
            ram.memory_array@ == stm_bytes(*regs, m, false, 0, 0, old(ram).memory_array@,
                old(ram).endianness, list, start, ri as nat),
            ram.checksum == checksum_of(ram.memory_array@) || *ram == *old(ram),
        decreases 16 - ri,
    {
        proof {
            lemma_bits_below_le(list, ri as nat);
        }
        if crate::bits::get_bit(list, ri) == 1 {
            if !ram.word_access_ok(address) {
                proof {
                    let i0: int = ri as int;
                    assert(bit_get(list, i0 as nat) == 1);
                    assert(ldm_addr_at(start, list, i0 as nat) == address);
                    assert(!ldm_accesses_ok(old(ram).size as int, list, start));
                }
                return Err(ExecFault::MemOutOfBounds);
            }
            let sv = regs.get_register(ri as usize);
            ram.write_word(address, sv);
            address = crate::bits::exec_wadd(address, 4);
            proof {
                crate::bits::lemma_wadd_assoc(start,
                    (4 * bits_below(list, ri as nat)) as Word, 4);
            }
        }
        ri = ri + 1;
    }
    Ok(address)
}

/// Number of set bits in the 16-bit register list.
fn popcount16(list: Word) -> (cnt: Word)
    ensures
        cnt == bits_below(list, 16),
        cnt <= 16,
{
    let mut cnt: Word = 0;
    let mut i: Word = 0;
    while i < 16
        invariant
            i <= 16,
            cnt == bits_below(list, i as nat),
            cnt <= i,
        decreases 16 - i,
    {
        proof {
            lemma_bits_below_le(list, i as nat);
        }
        cnt = cnt + crate::bits::get_bit(list, i);
        i = i + 1;
    }
    cnt
}

/// The end address is one word before the address one past the block.
#[verifier::rlimit(60)]
proof fn lemma_ldm_end(code: LDMCode, rn: Word, cnt: nat)
    requires
        cnt <= 16,
    ensures
        ldm_end_addr(code, rn, cnt) == wsub(wadd(ldm_start_addr(code, rn, cnt),
            (4 * cnt) as Word), 4),
{
    let k = (4 * cnt) as Word;
    match code {
        LDMCode::DecAfter => {
            // start = rn - k + 4; start + k - 4 == rn
            crate::bits::lemma_wadd_assoc(wsub(rn, k), 4, k);
            crate::bits::lemma_wadd_assoc(wsub(rn, k), k, 4);
            crate::bits::lemma_wadd_wsub_cancel(rn, k);
            crate::bits::lemma_wadd_wsub_cancel(wadd(rn, 4), 4);
            crate::bits::lemma_wadd_assoc(rn, 4, 0);
        },
        LDMCode::IncAfter => {
        },
        LDMCode::DecBefore => {
            // start = rn - k; start + k - 4 == rn - 4
            crate::bits::lemma_wadd_wsub_cancel(rn, k);
            crate::bits::lemma_wadd_wsub_cancel(wsub(wadd(wsub(rn, k), k), 4), 4);
        },
        LDMCode::IncBefore => {
            // start = rn + 4; start + k - 4 == rn + k
            crate::bits::lemma_wadd_assoc(rn, 4, k);
            crate::bits::lemma_wadd_assoc(rn, k, 4);
            crate::bits::lemma_wadd_wsub_cancel(wadd(rn, k), 4);
        },
    }
}

/// Block transfer: loads or stores the listed registers against a
/// contiguous range, with the computed end address proved to match the last
/// address touched.
#[verifier::rlimit(100)]
pub fn instr_ldmstm(ram: &mut RAM, regs: &mut Registers, instr: &Instruction)
    -> (r: Result<InstrExecuteCondition, ExecFault>)
    requires
        old(ram).wf(),
        old(regs).wf(),
        instr.instr_type == InstrType::LDMSTM,
        instr_wf(*instr),
    ensures
        final(ram).wf(),
        final(regs).wf(),
        final(ram).size == old(ram).size,
        final(ram).endianness == old(ram).endianness,
        final(regs).size == old(regs).size,
        final(regs).endianness == old(regs).endianness,
        ({
            let list = instr.reg_list->0;
            let code = instr.ldm->0;
            let rn_idx = spec_register_index(instr.rn->0);
            let m = old(regs).mode_bits_of();
            let rn_val = old(regs).reg_of(rn_idx);
            let cnt = bits_below(list, 16);
            let start = ldm_start_addr(code, rn_val, cnt);
            let wb = instr.writeback->0;
            let bank_rn = bank_index(m, rn_idx);
            let wbv = ldm_wb_value(code, rn_val, cnt);
            &&& (r is Ok <==> ldm_accesses_ok(old(ram).size as int, list, start))
            &&& (r is Ok ==> r == Ok::<InstrExecuteCondition, ExecFault>(
                InstrExecuteCondition::NOP))
            &&& (r is Ok && instr.ldr_str->0 ==> {
                &&& *final(ram) == *old(ram)
                &&& forall|j: int| 0 <= j < 23 ==> final(regs).slot(j) == ldm_slot_val(
                    *old(ram), *old(regs), m, wb, bank_rn, wbv, list, start, 16, j)
            })
            &&& (r is Ok && !instr.ldr_str->0 ==> {
                &&& final(ram).memory_array@ == stm_bytes(*old(regs), m, wb, bank_rn, wbv,
                    old(ram).memory_array@, old(ram).endianness, list, start, 16)
                &&& final(ram).loaded == old(ram).loaded
                &&& final(ram).display_offset == old(ram).display_offset
                &&& (final(ram).checksum == checksum_of(final(ram).memory_array@)
                    || *final(ram) == *old(ram))
                &&& regs_post2(*old(regs), *final(regs), false, 0, 0, wb, bank_rn, wbv)
            })
        }),
{
    let list = instr.get_reg_list().unwrap();
    let rn_val = regs.get_reg_register(instr.get_rn().unwrap());
    let ghost m = regs.mode_bits_of();

    let cnt = popcount16(list);

    let code = instr.get_ldm().unwrap();
    let start_address = match code {
        LDMCode::DecAfter => exec_wadd(exec_wsub(rn_val, cnt * 4), 4),
        LDMCode::IncAfter => rn_val,
        LDMCode::DecBefore => exec_wsub(rn_val, cnt * 4),
        LDMCode::IncBefore => exec_wadd(rn_val, 4),
    };
    let end_address = match code {
        LDMCode::DecAfter => rn_val,
        LDMCode::IncAfter => exec_wsub(exec_wadd(rn_val, cnt * 4), 4),
        LDMCode::DecBefore => exec_wsub(rn_val, 4),
        LDMCode::IncBefore => exec_wadd(rn_val, cnt * 4),
    };

    let wb = instr.get_writeback().unwrap();
    let wbv = match code {
        LDMCode::DecAfter | LDMCode::DecBefore => exec_wsub(rn_val, cnt * 4),
        LDMCode::IncAfter | LDMCode::IncBefore => exec_wadd(rn_val, cnt * 4),
    };
    if wb {
        regs.set_reg_register(instr.get_rn().unwrap(), wbv);
    }
    let ghost base = *regs;
    let ghost bank_rn = bank_index(m, spec_register_index(instr.rn->0));

    let address: Word;
    if instr.get_ldr_str().unwrap() {
        match ldm(ram, regs, list, start_address) {
            Ok(a) => {
                address = a;
            },
            Err(e) => {
                return Err(e);
            },
        }
        proof {
            assert forall|j: int| 0 <= j < 23 implies regs.slot(j) == ldm_slot_val(*old(ram),
                *old(regs), m, wb, bank_rn, wbv, list, start_address, 16, j) by {
                lemma_ldm_base_shift(*old(ram), *old(regs), base, m, wb, bank_rn, wbv, list,
                    start_address, 16, j);
            }
        }
    } else {
        match stm(ram, regs, list, start_address) {
            Ok(a) => {
                address = a;
            },
            Err(e) => {
                return Err(e);
            },
        }
        proof {
            lemma_stm_base_shift(*old(regs), base, m, wb, bank_rn, wbv,
                old(ram).memory_array@, old(ram).endianness, list, start_address, 16);
        }
    }

    // The computed end address matches the last address actually touched.
    proof {
        lemma_ldm_end(code, rn_val, cnt as nat);
    }
    assert(end_address == wsub(address, 4));

    Ok(InstrExecuteCondition::NOP)
}

/// Loading over a base that differs only in the written-back slot is the
/// same as folding the writeback into the load transformer.
proof fn lemma_ldm_base_shift(ram: RAM, pre: Registers, base: Registers, m: Word, wb: bool,
    bank_rn: int, wbv: Word, list: Word, start: Word, n: nat, j: int)
    requires
        0 <= j < 23,
        forall|k: int| 0 <= k < 23 ==> base.slot(k) == (
            if wb && k == bank_rn {
                wbv
            } else {
                pre.slot(k)
            }),
        0 <= bank_rn < 23,
    ensures
        ldm_slot_val(ram, base, m, false, 0, 0, list, start, n, j) == ldm_slot_val(ram, pre, m,
            wb, bank_rn, wbv, list, start, n, j),
    decreases n,
{
    if n > 0 {
        lemma_ldm_base_shift(ram, pre, base, m, wb, bank_rn, wbv, list, start, (n - 1) as nat,
            j);
    }
}

/// Storing from a base that differs only in the written-back slot is the
/// same as folding the writeback into the store transformer.
proof fn lemma_stm_base_shift(pre: Registers, base: Registers, m: Word, wb: bool, bank_rn: int,
    wbv: Word, bytes: Seq<Byte>, e: crate::memory::Endianness, list: Word, start: Word, n: nat)
    requires
        n <= 16,
        forall|k: int| 0 <= k < 23 ==> base.slot(k) == (
            if wb && k == bank_rn {
                wbv
            } else {
                pre.slot(k)
            }),
        0 <= bank_rn < 23,
    ensures
        stm_bytes(base, m, false, 0, 0, bytes, e, list, start, n) == stm_bytes(pre, m, wb,
            bank_rn, wbv, bytes, e, list, start, n),
    decreases n,
{
    if n > 0 {
        lemma_stm_base_shift(pre, base, m, wb, bank_rn, wbv, bytes, e, list, start,
            (n - 1) as nat);
    }
}

/// The branch target: the instruction's own address plus its stored offset
/// plus one instruction width (the driver advances the counter once more).
pub open spec fn branch_target(pc_address: Word, off: int) -> Word {
    if off >= 0 {
        wadd(wadd(pc_address, off as Word), 4)
    } else {
        wadd(wsub(pc_address, (-off) as Word), 4)
    }
}

/// Branch, optionally linking the return address into r14.
pub fn instr_b(ram: &mut RAM, regs: &mut Registers, instr: &Instruction)
    -> (r: InstrExecuteCondition)
    requires
        old(ram).wf(),
        old(regs).wf(),
        instr.instr_type == InstrType::B,
        instr_wf(*instr),
    ensures
        *final(ram) == *old(ram),
        r == InstrExecuteCondition::NOP,
        regs_post2(*old(regs), *final(regs), instr.l_bit->0,
            bank_index(old(regs).mode_bits_of(), 14), wadd(wsub(old(regs).slot(15), 8), 4),
            true, 15, branch_target(instr.pc_address, instr.offset->0 as int)),
{
    if instr.get_l_bit().unwrap() {
        let after = exec_wadd(regs.get_pc_current_address(), 4);
        regs.set_reg_register(Register::r14, after);
    }
    let off = instr.get_offset().unwrap();
    let target = if off >= 0 {
        exec_wadd(exec_wadd(instr.get_pc_address(), off as Word), 4)
    } else {
        let mag = (-(off as i64)) as Word;
        exec_wadd(exec_wsub(instr.get_pc_address(), mag), 4)
    };
    regs.set_pc(target);
    InstrExecuteCondition::NOP
}

/// Branch-exchange: the low bit of the target selects the instruction-state
/// flag and is cleared from the jump address.
pub fn instr_bx(ram: &mut RAM, regs: &mut Registers, instr: &Instruction)
    -> (r: InstrExecuteCondition)
    requires
        old(ram).wf(),
        old(regs).wf(),
        instr.instr_type == InstrType::BX,
        instr_wf(*instr),
    ensures
        *final(ram) == *old(ram),
        r == InstrExecuteCondition::NOP,
        ({
            let rm4 = wadd(old(regs).reg_of(spec_register_index(instr.rm->0)), 4);
            regs_post2(*old(regs), *final(regs), true, 16,
                set_bit32(old(regs).cpsr_of(), 5, rm4 % 2 == 1), true, 15,
                (rm4 - rm4 % 2) as Word)
        }),
{
    let rm4 = exec_wadd(regs.get_reg_register(instr.get_rm().unwrap()), 4);
    regs.set_t_flag(rm4 % 2 == 1);
    regs.set_pc(rm4 - rm4 % 2);
    InstrExecuteCondition::NOP
}

/// Multiply at 64-bit intermediate precision, truncated to 32 bits; a
/// flag-setting multiply updates N and Z only.
pub fn instr_mul(ram: &mut RAM, regs: &mut Registers, instr: &Instruction)
    -> (r: InstrExecuteCondition)
    requires
        old(ram).wf(),
        old(regs).wf(),
        instr.instr_type == InstrType::MUL,
        instr_wf(*instr),
    ensures
        *final(ram) == *old(ram),
        r == InstrExecuteCondition::NOP,
        ({
            let res = crate::bits::wmul(old(regs).reg_of(spec_register_index(instr.rm->0)),
                old(regs).reg_of(spec_register_index(instr.rs->0)));
            regs_post2(*old(regs), *final(regs), true,
                bank_index(old(regs).mode_bits_of(), spec_register_index(instr.rd->0)), res,
                instr.s_bit->0, 16,
                set_bit32(set_bit32(old(regs).cpsr_of(), 31, msb(res) == 1), 30, res == 0))
        }),
{
    let rs = regs.get_reg_register(instr.get_rs().unwrap());
    let rm = regs.get_reg_register(instr.get_rm().unwrap());
    let res = crate::bits::exec_wmul(rm, rs);
    regs.set_reg_register(instr.get_rd().unwrap(), res);
    if instr.get_s_bit().unwrap() {
        let rd = regs.get_reg_register(instr.get_rd().unwrap());
        regs.set_n_flag(rd / 0x80000000 == 1);
        regs.set_z_flag(rd == 0);
    }
    InstrExecuteCondition::NOP
}

/// Software interrupt: a designated number halts, the two I/O service
/// numbers are deferred to the driver, anything else is a no-op. Exception
/// entry itself is the driver's job.
pub fn instr_swi(ram: &mut RAM, regs: &mut Registers, instr: &Instruction)
    -> (r: InstrExecuteCondition)
    requires
        old(ram).wf(),
        old(regs).wf(),
        instr.instr_type == InstrType::SWI,
        instr_wf(*instr),
    ensures
        *final(ram) == *old(ram),
        *final(regs) == *old(regs),
        r == (if instr.swi->0 == 0x11 {
            InstrExecuteCondition::HLT
        } else if instr.swi->0 == 0 || instr.swi->0 == 0x6A {
            InstrExecuteCondition::SWI
        } else {
            InstrExecuteCondition::NOP
        }),
{
    let num = instr.get_swi().unwrap();
    if num == 0x11 {
        InstrExecuteCondition::HLT
    } else if num == 0 || num == 0x6A {
        InstrExecuteCondition::SWI
    } else {
        InstrExecuteCondition::NOP
    }
}

/// Move from status register: CPSR, or the current mode's SPSR where one
/// exists; without one the move is dropped.
pub fn instr_mrs(ram: &mut RAM, regs: &mut Registers, instr: &Instruction)
    -> (r: InstrExecuteCondition)
    requires
        old(ram).wf(),
        old(regs).wf(),
        instr.instr_type == InstrType::MRS,
        instr_wf(*instr),
    ensures
        *final(ram) == *old(ram),
        r == InstrExecuteCondition::NOP,
        regs_post2(*old(regs), *final(regs),
            !instr.gpregister->0 || old(regs).has_spsr_of(),
            bank_index(old(regs).mode_bits_of(), spec_register_index(instr.rd->0)),
            (if instr.gpregister->0 {
                old(regs).spsr_of()
            } else {
                old(regs).cpsr_of()
            }), false, 0, 0),
{
    if instr.get_gpregister().unwrap() {
        if regs.current_mode_has_spsr() {
            let spsr = regs.get_spsr();
            regs.set_reg_register(instr.get_rd().unwrap(), spsr);
        }
    } else {
        let cpsr = regs.get_cpsr();
        regs.set_reg_register(instr.get_rd().unwrap(), cpsr);
    }
    InstrExecuteCondition::NOP
}

/// CPSR positions a user-mode MSR may write.
pub const MSR_USER_MASK: Word = 0xF80F0200;

/// CPSR positions only privileged modes may write.
pub const MSR_PRIV_MASK: Word = 0x000001DF;

/// Execution-state positions, writable only in an SPSR.
pub const MSR_STATE_MASK: Word = 0x01000020;

/// The byte lanes the four-bit field mask selects.
pub open spec fn msr_byte_mask(fm: Word) -> Word {
    ((if fm % 2 == 1 {
        0xFF as Word
    } else {
        0 as Word
    }) + (if (fm / 2) % 2 == 1 {
        0xFF00 as Word
    } else {
        0 as Word
    }) + (if (fm / 4) % 2 == 1 {
        0xFF0000 as Word
    } else {
        0 as Word
    }) + (if (fm / 8) % 2 == 1 {
        0xFF000000 as Word
    } else {
        0 as Word
    })) as Word
}

/// `cur` with the positions selected by `mask` replaced from `operand`.
pub open spec fn msr_merge(cur: Word, operand: Word, mask: Word) -> Word {
    (cur & !mask) | (operand & mask)
}

/// Effect of a move-to-status instruction with a resolved operand.
pub open spec fn msr_post(pre: Registers, post: Registers, instr: Instruction, operand: Word)
    -> bool {
    let bm = msr_byte_mask(instr.field_mask->0);
    if !instr.gpregister->0 {
        updated_slot(pre, post, 16,
            msr_merge(pre.cpsr_of(), operand, bm & (MSR_USER_MASK | MSR_PRIV_MASK)))
    } else if pre.has_spsr_of() {
        updated_slot(pre, post, pre.spsr_slot_of(),
            msr_merge(pre.spsr_of(), operand,
                bm & (MSR_USER_MASK | MSR_PRIV_MASK | MSR_STATE_MASK)))
    } else {
        post == pre
    }
}

/// Move to status register: only the byte lanes the field mask selects are
/// rewritten, further restricted to the architecturally writable positions.
fn instr_msr(regs: &mut Registers, instr: &Instruction, operand: Word)
    requires
        old(regs).wf(),
        instr.gpregister is Some,
        instr.field_mask is Some,
        instr.field_mask->0 <= 15,
    ensures
        msr_post(*old(regs), *final(regs), *instr, operand),
{
    let fm = instr.get_field_mask().unwrap();
    let byte_mask: Word = (if fm % 2 == 1 { 0xFF } else { 0 })
        + (if (fm / 2) % 2 == 1 { 0xFF00 } else { 0 })
        + (if (fm / 4) % 2 == 1 { 0xFF0000 } else { 0 })
        + (if (fm / 8) % 2 == 1 { 0xFF000000u32 } else { 0 });
    if !instr.get_gpregister().unwrap() {
        let cpsr = regs.get_cpsr();
        let mask = byte_mask & (MSR_USER_MASK | MSR_PRIV_MASK);
        regs.set_cpsr((cpsr & !mask) | (operand & mask));
    } else {
        if regs.current_mode_has_spsr() {
            let spsr = regs.get_spsr();
            let mask = byte_mask & (MSR_USER_MASK | MSR_PRIV_MASK | MSR_STATE_MASK);
            regs.set_spsr((spsr & !mask) | (operand & mask));
        }
    }
}

/// The rotated-immediate operand of a move-to-status instruction.
pub open spec fn msr_imm_operand(instr: Instruction) -> Word {
    rotate_value_spec(instr.rotate->0, instr.imm->0, 0).0
}

/// Move to status register from a rotated immediate.
pub fn instr_msr_imm(ram: &mut RAM, regs: &mut Registers, instr: &Instruction)
    -> (r: InstrExecuteCondition)
    requires
        old(ram).wf(),
        old(regs).wf(),
        instr.instr_type == InstrType::MSRImm,
        instr_wf(*instr),
    ensures
        *final(ram) == *old(ram),
        r == InstrExecuteCondition::NOP,
        msr_post(*old(regs), *final(regs), *instr, msr_imm_operand(*instr)),
{
    let operand = Instruction::rotate_value(instr.get_rotate().unwrap(),
        instr.get_imm().unwrap(), 0).0;
    instr_msr(regs, instr, operand);
    InstrExecuteCondition::NOP
}

/// Move to status register from a register.
pub fn instr_msr_reg(ram: &mut RAM, regs: &mut Registers, instr: &Instruction)
    -> (r: InstrExecuteCondition)
    requires
        old(ram).wf(),
        old(regs).wf(),
        instr.instr_type == InstrType::MSRReg,
        instr_wf(*instr),
    ensures
        *final(ram) == *old(ram),
        r == InstrExecuteCondition::NOP,
        msr_post(*old(regs), *final(regs), *instr,
            old(regs).reg_of(spec_register_index(instr.rm->0))),
{
    let operand = regs.get_reg_register(instr.get_rm().unwrap());
    instr_msr(regs, instr, operand);
    InstrExecuteCondition::NOP
}

/// The no-op handler.
pub fn instr_nop(ram: &mut RAM, regs: &mut Registers, instr: &Instruction)
    -> (r: InstrExecuteCondition)
    requires
        old(ram).wf(),
        old(regs).wf(),
    ensures
        *final(ram) == *old(ram),
        *final(regs) == *old(regs),
        r == InstrExecuteCondition::NOP,
{
    InstrExecuteCondition::NOP
}

/// The fifteen condition codes evaluated against the current flags.
pub open spec fn cond_passes(c: crate::cpu_enum::Condition, n: bool, z: bool, cf: bool,
    v: bool) -> bool {
    match c {
        crate::cpu_enum::Condition::EQ => z,
        crate::cpu_enum::Condition::NE => !z,
        crate::cpu_enum::Condition::CSHS => cf,
        crate::cpu_enum::Condition::CCLO => !cf,
        crate::cpu_enum::Condition::MI => n,
        crate::cpu_enum::Condition::PL => !n,
        crate::cpu_enum::Condition::VS => v,
        crate::cpu_enum::Condition::VC => !v,
        crate::cpu_enum::Condition::HI => cf && !z,
        crate::cpu_enum::Condition::LS => !cf || z,
        crate::cpu_enum::Condition::GE => (n && v) || (!n && !v),
        crate::cpu_enum::Condition::LT => (n && !v) || (!n && v),
        crate::cpu_enum::Condition::GT => !z && n == v,
        crate::cpu_enum::Condition::LE => z || (n && !v) || (!n && v),
        crate::cpu_enum::Condition::AL => true,
    }
}

/// Shapes that touch memory through a data-transfer addressing mode.
pub open spec fn is_mem_shape(t: InstrType) -> bool {
    match t {
        InstrType::LDRSTRShiftRegPre | InstrType::LDRSTRShiftRegPost | InstrType::LDRSTRRegPre
            | InstrType::LDRSTRRegPost | InstrType::LDRSTRImmPre | InstrType::LDRSTRImmPost
            | InstrType::LDRHSTRHImmPre | InstrType::LDRHSTRHImmPost
            | InstrType::LDRHSTRHRegPre | InstrType::LDRHSTRHRegPost => true,
        _ => false,
    }
}

/// Effective address of a half-word transfer.
pub open spec fn hs_addr_of(pre: Registers, instr: Instruction) -> Word {
    if pre_indexed_of(instr) {
        ls_offset_addr(instr.add_sub->0, pre.reg_of(spec_register_index(instr.rn->0)),
            ldrhstrh_offset_of(pre, instr))
    } else {
        pre.reg_of(spec_register_index(instr.rn->0))
    }
}

/// The full dispatch relation: what executing an instruction whose
/// condition passed does to the machine, shape by shape.
pub open spec fn exec_post(pre_ram: RAM, pre_regs: Registers, post_ram: RAM,
    post_regs: Registers, instr: Instruction, r: Result<InstrExecuteCondition, ExecFault>)
    -> bool {
    match instr.instr_type {
        InstrType::DataRegImm => r == Ok::<InstrExecuteCondition, ExecFault>(
            InstrExecuteCondition::NOP) && post_ram == pre_ram && data_op_post(pre_regs,
            post_regs, instr, pre_regs.reg_of(spec_register_index(instr.rn->0)),
            shift_imm_spec(pre_regs.reg_of(spec_register_index(instr.rm->0)),
                instr.imm_shift->0, instr.shift_type->0, cbit(pre_regs.c_of())).0,
            shift_imm_spec(pre_regs.reg_of(spec_register_index(instr.rm->0)),
                instr.imm_shift->0, instr.shift_type->0, cbit(pre_regs.c_of())).1),
        InstrType::DataRegReg => r == Ok::<InstrExecuteCondition, ExecFault>(
            InstrExecuteCondition::NOP) && post_ram == pre_ram && data_op_post(pre_regs,
            post_regs, instr, pre_regs.reg_of(spec_register_index(instr.rn->0)),
            shift_reg_spec(pre_regs.reg_of(spec_register_index(instr.rm->0)),
                pre_regs.reg_of(spec_register_index(instr.rs->0)), instr.shift_type->0,
                cbit(pre_regs.c_of())).0,
            shift_reg_spec(pre_regs.reg_of(spec_register_index(instr.rm->0)),
                pre_regs.reg_of(spec_register_index(instr.rs->0)), instr.shift_type->0,
                cbit(pre_regs.c_of())).1),
        InstrType::DataImm => r == Ok::<InstrExecuteCondition, ExecFault>(
            InstrExecuteCondition::NOP) && post_ram == pre_ram && data_op_post(pre_regs,
            post_regs, instr, pre_regs.reg_of(spec_register_index(instr.rn->0)),
            rotate_value_spec(instr.rotate->0, instr.imm->0, cbit(pre_regs.c_of()) as Byte).0,
            rotate_value_spec(instr.rotate->0, instr.imm->0, cbit(pre_regs.c_of()) as Byte).1),
        InstrType::LDRSTRShiftRegPre | InstrType::LDRSTRShiftRegPost | InstrType::LDRSTRRegPre
            | InstrType::LDRSTRRegPost | InstrType::LDRSTRImmPre | InstrType::LDRSTRImmPost => {
            &&& (r is Ok <==> ls_access_ok(pre_ram, instr, ls_addr_of(pre_regs, instr)))
            &&& (r is Ok ==> r == Ok::<InstrExecuteCondition, ExecFault>(
                InstrExecuteCondition::NOP) && ldrstr_post(pre_ram, pre_regs, post_ram,
                post_regs, instr, ldrstr_offset_of(pre_regs, instr), pre_indexed_of(instr)))
            &&& (r is Err ==> post_ram == pre_ram && post_regs == pre_regs)
        },
        InstrType::LDRHSTRHImmPre | InstrType::LDRHSTRHImmPost | InstrType::LDRHSTRHRegPre
            | InstrType::LDRHSTRHRegPost => {
            &&& (r is Ok <==> hs_access_ok(pre_ram, instr, hs_addr_of(pre_regs, instr)))
            &&& (r is Ok ==> r == Ok::<InstrExecuteCondition, ExecFault>(
                InstrExecuteCondition::NOP) && ldrhstrh_post(pre_ram, pre_regs, post_ram,
                post_regs, instr, ldrhstrh_offset_of(pre_regs, instr), pre_indexed_of(instr)))
            &&& (r is Err ==> post_ram == pre_ram && post_regs == pre_regs)
        },
        InstrType::LDMSTM => {
            let list = instr.reg_list->0;
            let code = instr.ldm->0;
            let rn_idx = spec_register_index(instr.rn->0);
            let m = pre_regs.mode_bits_of();
            let rn_val = pre_regs.reg_of(rn_idx);
            let cnt = bits_below(list, 16);
            let start = ldm_start_addr(code, rn_val, cnt);
            let wb = instr.writeback->0;
            let bank_rn = bank_index(m, rn_idx);
            let wbv = ldm_wb_value(code, rn_val, cnt);
            &&& (r is Ok <==> ldm_accesses_ok(pre_ram.size as int, list, start))
            &&& (r is Ok ==> r == Ok::<InstrExecuteCondition, ExecFault>(
                InstrExecuteCondition::NOP))
            &&& (r is Ok && instr.ldr_str->0 ==> post_ram == pre_ram && forall|j: int|
                0 <= j < 23 ==> post_regs.slot(j) == ldm_slot_val(pre_ram, pre_regs, m, wb,
                    bank_rn, wbv, list, start, 16, j))
            &&& (r is Ok && !instr.ldr_str->0 ==> {
                &&& post_ram.memory_array@ == stm_bytes(pre_regs, m, wb, bank_rn, wbv,
                    pre_ram.memory_array@, pre_ram.endianness, list, start, 16)
                &&& regs_post2(pre_regs, post_regs, false, 0, 0, wb, bank_rn, wbv)
            })
            &&& post_ram.wf() && post_regs.wf()
            &&& post_ram.size == pre_ram.size && post_ram.endianness == pre_ram.endianness
            &&& post_regs.size == pre_regs.size && post_regs.endianness == pre_regs.endianness
        },
        InstrType::B => r == Ok::<InstrExecuteCondition, ExecFault>(InstrExecuteCondition::NOP)
            && post_ram == pre_ram && regs_post2(pre_regs, post_regs, instr.l_bit->0,
            bank_index(pre_regs.mode_bits_of(), 14), wadd(wsub(pre_regs.slot(15), 8), 4),
            true, 15, branch_target(instr.pc_address, instr.offset->0 as int)),
        InstrType::BX => {
            let rm4 = wadd(pre_regs.reg_of(spec_register_index(instr.rm->0)), 4);
            r == Ok::<InstrExecuteCondition, ExecFault>(InstrExecuteCondition::NOP)
                && post_ram == pre_ram && regs_post2(pre_regs, post_regs, true, 16,
                set_bit32(pre_regs.cpsr_of(), 5, rm4 % 2 == 1), true, 15,
                (rm4 - rm4 % 2) as Word)
        },
        InstrType::MUL => {
            let res = crate::bits::wmul(pre_regs.reg_of(spec_register_index(instr.rm->0)),
                pre_regs.reg_of(spec_register_index(instr.rs->0)));
            r == Ok::<InstrExecuteCondition, ExecFault>(InstrExecuteCondition::NOP)
                && post_ram == pre_ram && regs_post2(pre_regs, post_regs, true,
                bank_index(pre_regs.mode_bits_of(), spec_register_index(instr.rd->0)), res,
                instr.s_bit->0, 16,
                set_bit32(set_bit32(pre_regs.cpsr_of(), 31, msb(res) == 1), 30, res == 0))
        },
        InstrType::SWI => post_ram == pre_ram && post_regs == pre_regs && r == Ok::<
            InstrExecuteCondition, ExecFault>(
            if instr.swi->0 == 0x11 {
                InstrExecuteCondition::HLT
            } else if instr.swi->0 == 0 || instr.swi->0 == 0x6A {
                InstrExecuteCondition::SWI
            } else {
                InstrExecuteCondition::NOP
            }),
        InstrType::MRS => r == Ok::<InstrExecuteCondition, ExecFault>(
            InstrExecuteCondition::NOP) && post_ram == pre_ram && regs_post2(pre_regs,
            post_regs, !instr.gpregister->0 || pre_regs.has_spsr_of(),
            bank_index(pre_regs.mode_bits_of(), spec_register_index(instr.rd->0)),
            (if instr.gpregister->0 {
                pre_regs.spsr_of()
            } else {
                pre_regs.cpsr_of()
            }), false, 0, 0),
        InstrType::MSRImm => r == Ok::<InstrExecuteCondition, ExecFault>(
            InstrExecuteCondition::NOP) && post_ram == pre_ram && msr_post(pre_regs,
            post_regs, instr, msr_imm_operand(instr)),
        InstrType::MSRReg => r == Ok::<InstrExecuteCondition, ExecFault>(
            InstrExecuteCondition::NOP) && post_ram == pre_ram && msr_post(pre_regs,
            post_regs, instr, pre_regs.reg_of(spec_register_index(instr.rm->0))),
        InstrType::NOP => r == Ok::<InstrExecuteCondition, ExecFault>(
            InstrExecuteCondition::NOP) && post_ram == pre_ram && post_regs == pre_regs,
    }
}

/// Dispatch: evaluates the condition field against the current flags and
/// runs the bound handler exactly when it passes; a failed condition is
/// architecturally a no-op.
pub fn execute(ram: &mut RAM, regs: &mut Registers, instr: &Instruction)
    -> (r: Result<InstrExecuteCondition, ExecFault>)
    requires
        old(ram).wf(),
        old(regs).wf(),
        instr_wf(*instr),
        is_mem_shape(instr.instr_type) && instr.ldr_str->0 ==> instr.last_char is Some,
    ensures
        final(ram).wf(),
        final(regs).wf(),
        !cond_passes(instr.condition, old(regs).n_of(), old(regs).z_of(), old(regs).c_of(),
            old(regs).v_of()) ==> *final(ram) == *old(ram) && *final(regs) == *old(regs)
            && r == Ok::<InstrExecuteCondition, ExecFault>(InstrExecuteCondition::NOP),
        cond_passes(instr.condition, old(regs).n_of(), old(regs).z_of(), old(regs).c_of(),
            old(regs).v_of()) ==> exec_post(*old(ram), *old(regs), *final(ram), *final(regs),
            *instr, r),
{
    let (n, z, c, v) = regs.get_nzcv_tuple();
    let go = match instr.get_condition() {
        crate::cpu_enum::Condition::EQ => z,
        crate::cpu_enum::Condition::NE => !z,
        crate::cpu_enum::Condition::CSHS => c,
        crate::cpu_enum::Condition::CCLO => !c,
        crate::cpu_enum::Condition::MI => n,
        crate::cpu_enum::Condition::PL => !n,
        crate::cpu_enum::Condition::VS => v,
        crate::cpu_enum::Condition::VC => !v,
        crate::cpu_enum::Condition::HI => c && !z,
        crate::cpu_enum::Condition::LS => !c || z,
        crate::cpu_enum::Condition::GE => (n && v) || (!n && !v),
        crate::cpu_enum::Condition::LT => (n && !v) || (!n && v),
        crate::cpu_enum::Condition::GT => !z && n == v,
        crate::cpu_enum::Condition::LE => z || (n && !v) || (!n && v),
        crate::cpu_enum::Condition::AL => true,
    };
    if !go {
        return Ok(InstrExecuteCondition::NOP);
    }
    match instr.get_type() {
        InstrType::DataRegImm => Ok(instr_data_reg_imm(ram, regs, instr)),
        InstrType::DataRegReg => Ok(instr_data_reg_reg(ram, regs, instr)),
        InstrType::DataImm => Ok(instr_data_imm(ram, regs, instr)),
        InstrType::LDRSTRShiftRegPre => instr_ldrstr_shifted_reg_pre(ram, regs, instr),
        InstrType::LDRSTRShiftRegPost => instr_ldrstr_shifted_reg_post(ram, regs, instr),
        InstrType::LDRSTRRegPre => instr_ldrstr_reg_pre(ram, regs, instr),
        InstrType::LDRSTRRegPost => instr_ldrstr_reg_post(ram, regs, instr),
        InstrType::LDRSTRImmPre => instr_ldrstr_imm_pre(ram, regs, instr),
        InstrType::LDRSTRImmPost => instr_ldrstr_imm_post(ram, regs, instr),
        InstrType::LDRHSTRHImmPre => instr_ldrhstrh_imm_pre(ram, regs, instr),
        InstrType::LDRHSTRHImmPost => instr_ldrhstrh_imm_post(ram, regs, instr),
        InstrType::LDRHSTRHRegPre => instr_ldrhstrh_reg_pre(ram, regs, instr),
        InstrType::LDRHSTRHRegPost => instr_ldrhstrh_reg_post(ram, regs, instr),
        InstrType::LDMSTM => instr_ldmstm(ram, regs, instr),
        InstrType::B => Ok(instr_b(ram, regs, instr)),
        InstrType::BX => Ok(instr_bx(ram, regs, instr)),
        InstrType::SWI => Ok(instr_swi(ram, regs, instr)),
        InstrType::MUL => Ok(instr_mul(ram, regs, instr)),
        InstrType::NOP => Ok(instr_nop(ram, regs, instr)),
        InstrType::MRS => Ok(instr_mrs(ram, regs, instr)),
        InstrType::MSRImm => Ok(instr_msr_imm(ram, regs, instr)),
        InstrType::MSRReg => Ok(instr_msr_reg(ram, regs, instr)),
    }
}

} // verus!
