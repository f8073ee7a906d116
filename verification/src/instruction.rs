//! The decoded instruction record and its factories, together with the
//! barrel shifter. One flat record carries the union of all operand fields;
//! a factory per instruction shape populates exactly the fields that shape
//! uses. The shifter is modelled arithmetically: a left shift multiplies by
//! a power of two modulo `2^32`, a right shift divides, and a rotation
//! splits the word and recombines the two parts.
use vstd::prelude::*;

verus! {

use crate::bits::{Byte, Word, wadd};
use crate::cpu_enum::{
    InstrType, ShiftType, DataOpcode, LDMCode, LSH, Condition,
    spec_condition_from_bits, condition_from_bits,
    spec_data_opcode_from_bits, data_opcode_from_bits,
    spec_shift_type_from_bits, shift_type_from_bits,
    spec_ldm_code_from_bits, ldm_code_from_bits,
    spec_lsh_from_bits, lsh_from_bits,
};
use crate::memory::{Register, spec_register_from_bits, register_from_bits};
use vstd::arithmetic::power2::{pow2, lemma_pow2_adds, lemma_pow2_pos, lemma2_to64};

/// Left shift by `s`, truncated to 32 bits.
pub open spec fn lsl32(x: Word, s: nat) -> Word
    recommends
        1 <= s <= 31,
{
    ((x * pow2(s)) % 0x100000000) as Word
}

/// Logical right shift by `s`.
pub open spec fn lsr32(x: Word, s: nat) -> Word
    recommends
        1 <= s <= 31,
{
    ((x as nat) / pow2(s)) as Word
}

/// Arithmetic right shift by `s`: the divided value with the sign bit
/// spread over the vacated positions.
pub open spec fn asr32(x: Word, s: nat) -> Word
    recommends
        1 <= s <= 31,
{
    if x < 0x80000000 {
        ((x as nat) / pow2(s)) as Word
    } else {
        ((x as nat) / pow2(s) + (pow2(s) - 1) * pow2((32 - s) as nat)) as Word
    }
}

/// Rotate right by `s`: the low part wraps around to the top.
pub open spec fn ror32(x: Word, s: nat) -> Word
    recommends
        1 <= s <= 31,
{
    ((x as nat) / pow2(s) + ((x as nat) % pow2(s)) * pow2((32 - s) as nat)) as Word
}

/// A value split at bit `32 - s` recombines below `2^32`.
proof fn lemma_combine_fits(lo: int, hi: int, p: int, q: int)
    requires
        p >= 1,
        q >= 1,
        p * q == 0x100000000,
        0 <= lo < q,
        0 <= hi < p,
    ensures
        lo + hi * q < 0x100000000,
{
    assert(hi * q <= (p - 1) * q) by (nonlinear_arith)
        requires q >= 1, hi <= p - 1;
    assert((p - 1) * q == p * q - q) by (nonlinear_arith);
}

/// Bounds for the arithmetic forms of the 32-bit shifts.
proof fn lemma_shift_bounds(x: Word, s: nat)
    requires
        1 <= s <= 31,
    ensures
        pow2(s) >= 2,
        pow2((32 - s) as nat) >= 2,
        pow2(s) * pow2((32 - s) as nat) == 0x100000000,
        (x as nat) / pow2(s) < pow2((32 - s) as nat),
        (x as nat) % pow2(s) < pow2(s),
        (x as nat) / pow2(s) + ((x as nat) % pow2(s)) * pow2((32 - s) as nat) < 0x100000000,
        (x as nat) / pow2(s) + (pow2(s) - 1) * pow2((32 - s) as nat) < 0x100000000,
{
    let p = pow2(s) as int;
    let q = pow2((32 - s) as nat) as int;
    lemma_pow2_pos(s);
    lemma_pow2_pos((32 - s) as nat);
    lemma_pow2_adds(s, (32 - s) as nat);
    lemma2_to64();
    if s > 1 {
        vstd::arithmetic::power2::lemma_pow2_strictly_increases(1, s);
    }
    if s < 31 {
        vstd::arithmetic::power2::lemma_pow2_strictly_increases(1, (32 - s) as nat);
    }
    assert((x as int) / p < q) by (nonlinear_arith)
        requires p >= 1, q >= 1, p * q == 0x100000000, 0 <= x < 0x100000000;
    vstd::arithmetic::div_mod::lemma_mod_division_less_than_divisor(x as int, p);
    lemma_combine_fits((x as int) / p, (x as int) % p, p, q);
    lemma_combine_fits((x as int) / p, p - 1, p, q);
}

/// Executable left shift, truncating.
pub fn exec_lsl32(x: Word, s: Word) -> (r: Word)
    requires
        1 <= s <= 31,
    ensures
        r == lsl32(x, s as nat),
{
    proof {
        lemma_shift_bounds(x, s as nat);
        assert(pow2(s as nat) <= 0x80000000) by (nonlinear_arith)
            requires
                pow2(s as nat) * pow2((32 - s) as nat) == 0x100000000,
                pow2((32 - s) as nat) >= 2,
                pow2(s as nat) >= 2;
    }
    let p = crate::bits::pow2u32(s);
    proof {
        assert((x as int) * (p as int) < 0x100000000 * 0x80000000) by (nonlinear_arith)
            requires 0 <= x < 0x100000000, 0 <= p <= 0x80000000;
    }
    let wide: u64 = (x as u64) * (p as u64);
    (wide % 0x100000000) as Word
}

/// Executable logical right shift.
pub fn exec_lsr32(x: Word, s: Word) -> (r: Word)
    requires
        1 <= s <= 31,
    ensures
        r == lsr32(x, s as nat),
{
    x / crate::bits::pow2u32(s)
}

/// Executable arithmetic right shift.
pub fn exec_asr32(x: Word, s: Word) -> (r: Word)
    requires
        1 <= s <= 31,
    ensures
        r == asr32(x, s as nat),
{
    proof {
        lemma_shift_bounds(x, s as nat);
    }
    let p = crate::bits::pow2u32(s);
    let q = crate::bits::pow2u32(32 - s);
    if x < 0x80000000 {
        x / p
    } else {
        x / p + (p - 1) * q
    }
}

/// Executable rotate right.
pub fn exec_ror32(x: Word, s: Word) -> (r: Word)
    requires
        1 <= s <= 31,
    ensures
        r == ror32(x, s as nat),
{
    proof {
        lemma_shift_bounds(x, s as nat);
    }
    let p = crate::bits::pow2u32(s);
    let q = crate::bits::pow2u32(32 - s);
    x / p + (x % p) * q
}

/// Carry-out taken from bit `s - 1` of the shifted value.
pub open spec fn carry_bit(x: Word, s: nat) -> Word
    recommends
        1 <= s <= 32,
{
    (((x as nat) / pow2((s - 1) as nat)) % 2) as Word
}

pub fn exec_carry_bit(x: Word, s: Word) -> (r: Word)
    requires
        1 <= s <= 32,
    ensures
        r == carry_bit(x, s as nat),
{
    (x / crate::bits::pow2u32(s - 1)) % 2
}

/// The most significant bit of `x`.
pub open spec fn msb(x: Word) -> Word {
    x / 0x80000000
}

/// Shift-by-immediate: the shifter operand and its carry-out, with the
/// architectural special cases for a zero amount (LSR/ASR act as their
/// by-32 forms; a zero-amount ROR is the carry-in rotate).
pub open spec fn shift_imm_spec(rm: Word, shift_imm: Word, t: ShiftType, c_flag: Word)
    -> (Word, Word)
    recommends
        shift_imm <= 31,
        c_flag <= 1,
{
    match t {
        ShiftType::LSL => if shift_imm == 0 {
            (rm, c_flag)
        } else {
            (lsl32(rm, shift_imm as nat), carry_bit(rm, (33 - shift_imm) as nat))
        },
        ShiftType::LSR => if shift_imm == 0 {
            (0, msb(rm))
        } else {
            (lsr32(rm, shift_imm as nat), carry_bit(rm, shift_imm as nat))
        },
        ShiftType::ASR => if shift_imm == 0 {
            (if msb(rm) == 0 { 0 as Word } else { 0xFFFFFFFF as Word }, msb(rm))
        } else {
            (asr32(rm, shift_imm as nat), carry_bit(rm, shift_imm as nat))
        },
        ShiftType::ROR => if shift_imm == 0 {
            ((c_flag * 0x80000000 + rm / 2) as Word, rm % 2)
        } else {
            (ror32(rm, shift_imm as nat), carry_bit(rm, shift_imm as nat))
        },
    }
}

/// Shift-by-register: the low byte of rs gives the amount, with the
/// architectural cases for 0, 32 and larger amounts.
pub open spec fn shift_reg_spec(rm: Word, rs: Word, t: ShiftType, c_flag: Word) -> (Word, Word)
    recommends
        c_flag <= 1,
{
    let amount = rs % 0x100;
    match t {
        ShiftType::LSL => if amount == 0 {
            (rm, c_flag)
        } else if amount < 32 {
            (lsl32(rm, amount as nat), carry_bit(rm, (33 - amount) as nat))
        } else if amount == 32 {
            (0, rm % 2)
        } else {
            (0, 0)
        },
        ShiftType::LSR => if amount == 0 {
            (rm, c_flag)
        } else if amount < 32 {
            (lsr32(rm, amount as nat), carry_bit(rm, amount as nat))
        } else if amount == 32 {
            (0, msb(rm))
        } else {
            (0, 0)
        },
        ShiftType::ASR => if amount == 0 {
            (rm, c_flag)
        } else if amount < 32 {
            (asr32(rm, amount as nat), carry_bit(rm, amount as nat))
        } else {
            (if msb(rm) == 0 { 0 as Word } else { 0xFFFFFFFF as Word }, msb(rm))
        },
        ShiftType::ROR => if amount == 0 {
            (rm, c_flag)
        } else if rs % 16 == 0 {
            (rm, msb(rm))
        } else {
            (ror32(rm, (rs % 32) as nat), carry_bit(rm, (rs % 16) as nat))
        },
    }
}

/// Rotated-immediate operand: the 8-bit immediate rotated right by twice
/// the rotate field, and its carry-out.
pub open spec fn rotate_value_spec(rotate_imm: Byte, immed_8: Byte, c_flag: Byte) -> (Word, Word)
    recommends
        rotate_imm <= 15,
        c_flag <= 1,
{
    let operand = if rotate_imm == 0 {
        immed_8 as Word
    } else {
        ror32(immed_8 as Word, (2 * rotate_imm) as nat)
    };
    if rotate_imm == 0 {
        (operand, c_flag as Word)
    } else {
        (operand, msb(operand))
    }
}

/// The instruction record. Only the fields of the decoded shape are
/// populated; the rest stay `None`. The instruction's own address and the
/// last keyboard character are injected by the driver before execution.
#[derive(Clone, Copy)]
pub struct Instruction {
    pub instr_type: InstrType,
    pub condition: Condition,
    pub rn: Option<Register>,
    pub rd: Option<Register>,
    pub rm: Option<Register>,
    pub rs: Option<Register>,
    pub data_opcode: Option<DataOpcode>,
    pub s_bit: Option<bool>,
    pub shift_type: Option<ShiftType>,
    pub imm_shift: Option<Word>,
    pub rotate: Option<Byte>,
    pub imm: Option<Byte>,
    pub writeback: Option<bool>,
    pub addr_mode: Option<bool>,
    pub swi: Option<Word>,
    pub add_sub: Option<bool>,
    pub byte_word: Option<bool>,
    pub ldr_str: Option<bool>,
    pub l_bit: Option<bool>,
    pub offset: Option<i32>,
    pub lsh: Option<LSH>,
    pub ldm: Option<LDMCode>,
    pub reg_list: Option<Word>,
    pub gpregister: Option<bool>,
    pub field_mask: Option<Word>,
    pub last_char: Option<char>,
    pub pc_address: Word,
}

/// An instruction of the given shape with no operand populated.
pub open spec fn spec_instr_base(t: InstrType, condition: Word) -> Instruction {
    Instruction {
        instr_type: t,
        condition: spec_condition_from_bits(condition),
        rn: None,
        rd: None,
        rm: None,
        rs: None,
        data_opcode: None,
        s_bit: None,
        shift_type: None,
        imm_shift: None,
        rotate: None,
        imm: None,
        writeback: None,
        addr_mode: None,
        swi: None,
        add_sub: None,
        byte_word: None,
        ldr_str: None,
        l_bit: None,
        offset: None,
        lsh: None,
        ldm: None,
        reg_list: None,
        gpregister: None,
        field_mask: None,
        last_char: None,
        pc_address: 0,
    }
}

impl Instruction {
    pub fn new(t: InstrType) -> (r: Self)
        ensures
            r == spec_instr_base(t, 14),
    {
        Instruction {
            instr_type: t,
            condition: Condition::AL,
            rn: None,
            rd: None,
            rm: None,
            rs: None,
            data_opcode: None,
            s_bit: None,
            shift_type: None,
            imm_shift: None,
            rotate: None,
            imm: None,
            writeback: None,
            addr_mode: None,
            swi: None,
            add_sub: None,
            byte_word: None,
            ldr_str: None,
            l_bit: None,
            offset: None,
            lsh: None,
            ldm: None,
            reg_list: None,
            gpregister: None,
            field_mask: None,
            last_char: None,
            pc_address: 0,
        }
    }

    pub fn get_type(&self) -> (r: InstrType)
        ensures
            r == self.instr_type,
    {
        self.instr_type
    }

    pub fn get_condition(&self) -> (r: Condition)
        ensures
            r == self.condition,
    {
        self.condition
    }

    pub fn get_rn(&self) -> (r: Option<Register>)
        ensures
            r == self.rn,
    {
        self.rn
    }

    pub fn get_rd(&self) -> (r: Option<Register>)
        ensures
            r == self.rd,
    {
        self.rd
    }

    pub fn get_rm(&self) -> (r: Option<Register>)
        ensures
            r == self.rm,
    {
        self.rm
    }

    pub fn get_rs(&self) -> (r: Option<Register>)
        ensures
            r == self.rs,
    {
        self.rs
    }

    pub fn get_data_opcode(&self) -> (r: Option<DataOpcode>)
        ensures
            r == self.data_opcode,
    {
        self.data_opcode
    }

    pub fn get_s_bit(&self) -> (r: Option<bool>)
        ensures
            r == self.s_bit,
    {
        self.s_bit
    }

    pub fn get_shift_type(&self) -> (r: Option<ShiftType>)
        ensures
            r == self.shift_type,
    {
        self.shift_type
    }

    pub fn get_imm_shift(&self) -> (r: Option<Word>)
        ensures
            r == self.imm_shift,
    {
        self.imm_shift
    }

    pub fn get_rotate(&self) -> (r: Option<Byte>)
        ensures
            r == self.rotate,
    {
        self.rotate
    }

    pub fn get_imm(&self) -> (r: Option<Byte>)
        ensures
            r == self.imm,
    {
        self.imm
    }

    pub fn get_writeback(&self) -> (r: Option<bool>)
        ensures
            r == self.writeback,
    {
        self.writeback
    }

    pub fn get_addr_mode(&self) -> (r: Option<bool>)
        ensures
            r == self.addr_mode,
    {
        self.addr_mode
    }

    pub fn get_swi(&self) -> (r: Option<Word>)
        ensures
            r == self.swi,
    {
        self.swi
    }

    pub fn get_add_sub(&self) -> (r: Option<bool>)
        ensures
            r == self.add_sub,
    {
        self.add_sub
    }

    pub fn get_byte_word(&self) -> (r: Option<bool>)
        ensures
            r == self.byte_word,
    {
        self.byte_word
    }

    pub fn get_ldr_str(&self) -> (r: Option<bool>)
        ensures
            r == self.ldr_str,
    {
        self.ldr_str
    }

    pub fn get_l_bit(&self) -> (r: Option<bool>)
        ensures
            r == self.l_bit,
    {
        self.l_bit
    }

    pub fn get_offset(&self) -> (r: Option<i32>)
        ensures
            r == self.offset,
    {
        self.offset
    }

    pub fn get_lsh(&self) -> (r: Option<LSH>)
        ensures
            r == self.lsh,
    {
        self.lsh
    }

    pub fn get_ldm(&self) -> (r: Option<LDMCode>)
        ensures
            r == self.ldm,
    {
        self.ldm
    }

    pub fn get_reg_list(&self) -> (r: Option<Word>)
        ensures
            r == self.reg_list,
    {
        self.reg_list
    }

    pub fn get_gpregister(&self) -> (r: Option<bool>)
        ensures
            r == self.gpregister,
    {
        self.gpregister
    }

    pub fn get_field_mask(&self) -> (r: Option<Word>)
        ensures
            r == self.field_mask,
    {
        self.field_mask
    }

    pub fn get_last_char(&self) -> (r: Option<char>)
        ensures
            r == self.last_char,
    {
        self.last_char
    }

    pub fn set_last_char(&mut self, c: char)
        ensures
            *final(self) == (Instruction { last_char: Some(c), ..*old(self) }),
    {
        self.last_char = Some(c);
    }

    pub fn get_pc_address(&self) -> (r: Word)
        ensures
            r == self.pc_address,
    {
        self.pc_address
    }

    pub fn set_pc_address(&mut self, a: Word)
        ensures
            *final(self) == (Instruction { pc_address: a, ..*old(self) }),
    {
        self.pc_address = a;
    }

    /// Shift-by-immediate variant of the barrel shifter; a zero amount under
    /// LSL passes the value through with the incoming carry as carry-out.
    pub fn shift_value_by_imm(rm: Word, shift_imm: Word, shift_type: ShiftType, c_flag: Byte)
        -> (r: (Word, Word))
        requires
            shift_imm <= 31,
            c_flag <= 1,
        ensures
            r == shift_imm_spec(rm, shift_imm, shift_type, c_flag as Word),
            shift_type == ShiftType::LSL && shift_imm == 0 ==> r == (rm, c_flag as Word),
    {
        match shift_type {
            ShiftType::LSL => {
                if shift_imm == 0 {
                    (rm, c_flag as Word)
                } else {
                    (exec_lsl32(rm, shift_imm), exec_carry_bit(rm, 33 - shift_imm))
                }
            },
            ShiftType::LSR => {
                if shift_imm == 0 {
                    (0, rm / 0x80000000)
                } else {
                    (exec_lsr32(rm, shift_imm), exec_carry_bit(rm, shift_imm))
                }
            },
            ShiftType::ASR => {
                if shift_imm == 0 {
                    if rm / 0x80000000 == 0 {
                        (0, 0)
                    } else {
                        (0xFFFFFFFF, 1)
                    }
                } else {
                    (exec_asr32(rm, shift_imm), exec_carry_bit(rm, shift_imm))
                }
            },
            ShiftType::ROR => {
                if shift_imm == 0 {
                    ((c_flag as Word) * 0x80000000 + rm / 2, rm % 2)
                } else {
                    (exec_ror32(rm, shift_imm), exec_carry_bit(rm, shift_imm))
                }
            },
        }
    }

    /// Shift-by-register variant of the barrel shifter.
    pub fn shift_value_by_reg(rm: Word, rs: Word, shift_type: ShiftType, c_flag: Byte)
        -> (r: (Word, Word))
        requires
            c_flag <= 1,
        ensures
            r == shift_reg_spec(rm, rs, shift_type, c_flag as Word),
    {
        let amount = rs % 0x100;
        match shift_type {
            ShiftType::LSL => {
                if amount == 0 {
                    (rm, c_flag as Word)
                } else if amount < 32 {
                    (exec_lsl32(rm, amount), exec_carry_bit(rm, 33 - amount))
                } else if amount == 32 {
                    (0, rm % 2)
                } else {
                    (0, 0)
                }
            },
            ShiftType::LSR => {
                if amount == 0 {
                    (rm, c_flag as Word)
                } else if amount < 32 {
                    (exec_lsr32(rm, amount), exec_carry_bit(rm, amount))
                } else if amount == 32 {
                    (0, rm / 0x80000000)
                } else {
                    (0, 0)
                }
            },
            ShiftType::ASR => {
                if amount == 0 {
                    (rm, c_flag as Word)
                } else if amount < 32 {
                    (exec_asr32(rm, amount), exec_carry_bit(rm, amount))
                } else {
                    if rm / 0x80000000 == 0 {
                        (0, 0)
                    } else {
                        (0xFFFFFFFF, 1)
                    }
                }
            },
            ShiftType::ROR => {
                if amount == 0 {
                    (rm, c_flag as Word)
                } else if rs % 16 == 0 {
                    (rm, rm / 0x80000000)
                } else {
                    proof {
                        vstd::arithmetic::div_mod::lemma_mod_breakdown(rs as int, 16, 2);
                    }
                    (exec_ror32(rm, rs % 32), exec_carry_bit(rm, rs % 16))
                }
            },
        }
    }

    /// Rotated-immediate operand and carry-out; a zero rotate keeps the
    /// incoming carry.
    pub fn rotate_value(rotate_imm: Byte, immed_8: Byte, c_flag: Byte) -> (r: (Word, Word))
        requires
            rotate_imm <= 15,
            c_flag <= 1,
        ensures
            r == rotate_value_spec(rotate_imm, immed_8, c_flag),
            rotate_imm == 0 ==> r == (immed_8 as Word, c_flag as Word),
    {
        if rotate_imm == 0 {
            (immed_8 as Word, c_flag as Word)
        } else {
            let operand = exec_ror32(immed_8 as Word, 2 * (rotate_imm as Word));
            (operand, operand / 0x80000000)
        }
    }
}

/// The branch offset held in the instruction: the 24-bit field sign
/// extended, scaled by the instruction width, plus the fixed pipeline
/// correction.
pub open spec fn branch_offset_spec(offset: Word) -> int
    recommends
        offset <= 0xFFFFFF,
{
    if offset >= 0x800000 {
        (offset - 0x1000000) * 4 + 8
    } else {
        offset * 4 + 8
    }
}

pub open spec fn spec_instr_data_reg_imm(
    condition: Word, opcode: Word, s_bit: Word, rn: Word, rd: Word, imm: Word,
    shift_type: Word, rm: Word) -> Instruction {
    Instruction {
        data_opcode: Some(spec_data_opcode_from_bits(opcode)),
        s_bit: Some(s_bit % 2 == 1),
        rn: Some(spec_register_from_bits(rn)),
        rd: Some(spec_register_from_bits(rd)),
        imm_shift: Some(imm),
        shift_type: Some(spec_shift_type_from_bits(shift_type)),
        rm: Some(spec_register_from_bits(rm)),
        ..spec_instr_base(InstrType::DataRegImm, condition)
    }
}

pub fn instr_data_reg_imm(
    condition: Word, opcode: Word, s_bit: Word, rn: Word, rd: Word, imm: Word,
    shift_type: Word, rm: Word) -> (r: Instruction)
    requires
        condition <= 14,
        opcode <= 15,
        rn <= 15,
        rd <= 15,
        imm <= 31,
        shift_type <= 3,
        rm <= 15,
    ensures
        r == spec_instr_data_reg_imm(condition, opcode, s_bit, rn, rd, imm, shift_type, rm),
{
    let mut instr = Instruction::new(InstrType::DataRegImm);
    instr.condition = condition_from_bits(condition);
    instr.data_opcode = Some(data_opcode_from_bits(opcode));
    instr.s_bit = Some(s_bit % 2 == 1);
    instr.rn = Some(register_from_bits(rn));
    instr.rd = Some(register_from_bits(rd));
    instr.imm_shift = Some(imm);
    instr.shift_type = Some(shift_type_from_bits(shift_type));
    instr.rm = Some(register_from_bits(rm));
    instr
}

pub open spec fn spec_instr_data_reg_reg(
    condition: Word, opcode: Word, s_bit: Word, rn: Word, rd: Word, rs: Word,
    shift_type: Word, rm: Word) -> Instruction {
    Instruction {
        data_opcode: Some(spec_data_opcode_from_bits(opcode)),
        s_bit: Some(s_bit % 2 == 1),
        rn: Some(spec_register_from_bits(rn)),
        rd: Some(spec_register_from_bits(rd)),
        rs: Some(spec_register_from_bits(rs)),
        shift_type: Some(spec_shift_type_from_bits(shift_type)),
        rm: Some(spec_register_from_bits(rm)),
        ..spec_instr_base(InstrType::DataRegReg, condition)
    }
}

pub fn instr_data_reg_reg(
    condition: Word, opcode: Word, s_bit: Word, rn: Word, rd: Word, rs: Word,
    shift_type: Word, rm: Word) -> (r: Instruction)
    requires
        condition <= 14,
        opcode <= 15,
        rn <= 15,
        rd <= 15,
        rs <= 15,
        shift_type <= 3,
        rm <= 15,
    ensures
        r == spec_instr_data_reg_reg(condition, opcode, s_bit, rn, rd, rs, shift_type, rm),
{
    let mut instr = Instruction::new(InstrType::DataRegReg);
    instr.condition = condition_from_bits(condition);
    instr.data_opcode = Some(data_opcode_from_bits(opcode));
    instr.s_bit = Some(s_bit % 2 == 1);
    instr.rn = Some(register_from_bits(rn));
    instr.rd = Some(register_from_bits(rd));
    instr.rs = Some(register_from_bits(rs));
    instr.shift_type = Some(shift_type_from_bits(shift_type));
    instr.rm = Some(register_from_bits(rm));
    instr
}

pub open spec fn spec_instr_data_imm(
    condition: Word, opcode: Word, s_bit: Word, rn: Word, rd: Word, rotate: Word, imm: Word)
    -> Instruction {
    Instruction {
        data_opcode: Some(spec_data_opcode_from_bits(opcode)),
        s_bit: Some(s_bit % 2 == 1),
        rn: Some(spec_register_from_bits(rn)),
        rd: Some(spec_register_from_bits(rd)),
        rotate: Some(rotate as Byte),
        imm: Some(imm as Byte),
        ..spec_instr_base(InstrType::DataImm, condition)
    }
}

pub fn instr_data_imm(
    condition: Word, opcode: Word, s_bit: Word, rn: Word, rd: Word, rotate: Word, imm: Word)
    -> (r: Instruction)
    requires
        condition <= 14,
        opcode <= 15,
        rn <= 15,
        rd <= 15,
        rotate <= 15,
        imm <= 255,
    ensures
        r == spec_instr_data_imm(condition, opcode, s_bit, rn, rd, rotate, imm),
{
    let mut instr = Instruction::new(InstrType::DataImm);
    instr.condition = condition_from_bits(condition);
    instr.data_opcode = Some(data_opcode_from_bits(opcode));
    instr.s_bit = Some(s_bit % 2 == 1);
    instr.rn = Some(register_from_bits(rn));
    instr.rd = Some(register_from_bits(rd));
    instr.rotate = Some(rotate as Byte);
    instr.imm = Some(imm as Byte);
    instr
}

pub open spec fn spec_instr_ldrstr_shifted_reg(
    t: InstrType, pre: bool, condition: Word, add_sub: Word, byte_word: Word, writeback: Word,
    ldr_str: Word, rn: Word, rd: Word, imm: Word, shift_type: Word, rm: Word) -> Instruction {
    Instruction {
        addr_mode: Some(pre),
        add_sub: Some(add_sub % 2 == 1),
        byte_word: Some(byte_word % 2 == 1),
        writeback: Some(writeback % 2 == 1),
        ldr_str: Some(ldr_str % 2 == 1),
        rn: Some(spec_register_from_bits(rn)),
        rd: Some(spec_register_from_bits(rd)),
        imm_shift: Some(imm),
        shift_type: Some(spec_shift_type_from_bits(shift_type)),
        rm: Some(spec_register_from_bits(rm)),
        ..spec_instr_base(t, condition)
    }
}

pub fn instr_ldrstr_shifted_reg_pre(
    condition: Word, add_sub: Word, byte_word: Word, writeback: Word, ldr_str: Word, rn: Word,
    rd: Word, imm: Word, shift_type: Word, rm: Word) -> (r: Instruction)
    requires
        condition <= 14,
        rn <= 15,
        rd <= 15,
        imm <= 31,
        shift_type <= 3,
        rm <= 15,
    ensures
        r == spec_instr_ldrstr_shifted_reg(InstrType::LDRSTRShiftRegPre, true, condition,
            add_sub, byte_word, writeback, ldr_str, rn, rd, imm, shift_type, rm),
{
    let mut instr = Instruction::new(InstrType::LDRSTRShiftRegPre);
    instr.condition = condition_from_bits(condition);
    instr.addr_mode = Some(true);
    instr.add_sub = Some(add_sub % 2 == 1);
    instr.byte_word = Some(byte_word % 2 == 1);
    instr.writeback = Some(writeback % 2 == 1);
    instr.ldr_str = Some(ldr_str % 2 == 1);
    instr.rn = Some(register_from_bits(rn));
    instr.rd = Some(register_from_bits(rd));
    instr.imm_shift = Some(imm);
    instr.shift_type = Some(shift_type_from_bits(shift_type));
    instr.rm = Some(register_from_bits(rm));
    instr
}

pub fn instr_ldrstr_shifted_reg_post(
    condition: Word, add_sub: Word, byte_word: Word, writeback: Word, ldr_str: Word, rn: Word,
    rd: Word, imm: Word, shift_type: Word, rm: Word) -> (r: Instruction)
    requires
        condition <= 14,
        rn <= 15,
        rd <= 15,
        imm <= 31,
        shift_type <= 3,
        rm <= 15,
    ensures
        r == spec_instr_ldrstr_shifted_reg(InstrType::LDRSTRShiftRegPost, false, condition,
            add_sub, byte_word, writeback, ldr_str, rn, rd, imm, shift_type, rm),
{
    let mut instr = Instruction::new(InstrType::LDRSTRShiftRegPost);
    instr.condition = condition_from_bits(condition);
    instr.addr_mode = Some(false);
    instr.add_sub = Some(add_sub % 2 == 1);
    instr.byte_word = Some(byte_word % 2 == 1);
    instr.writeback = Some(writeback % 2 == 1);
    instr.ldr_str = Some(ldr_str % 2 == 1);
    instr.rn = Some(register_from_bits(rn));
    instr.rd = Some(register_from_bits(rd));
    instr.imm_shift = Some(imm);
    instr.shift_type = Some(shift_type_from_bits(shift_type));
    instr.rm = Some(register_from_bits(rm));
    instr
}

pub open spec fn spec_instr_ldrstr_reg(
    t: InstrType, pre: bool, condition: Word, add_sub: Word, byte_word: Word, writeback: Word,
    ldr_str: Word, rn: Word, rd: Word, rm: Word) -> Instruction {
    Instruction {
        addr_mode: Some(pre),
        add_sub: Some(add_sub % 2 == 1),
        byte_word: Some(byte_word % 2 == 1),
        writeback: Some(writeback % 2 == 1),
        ldr_str: Some(ldr_str % 2 == 1),
        rn: Some(spec_register_from_bits(rn)),
        rd: Some(spec_register_from_bits(rd)),
        rm: Some(spec_register_from_bits(rm)),
        ..spec_instr_base(t, condition)
    }
}

pub fn instr_ldrstr_reg_pre(
    condition: Word, add_sub: Word, byte_word: Word, writeback: Word, ldr_str: Word, rn: Word,
    rd: Word, rm: Word) -> (r: Instruction)
    requires
        condition <= 14,
        rn <= 15,
        rd <= 15,
        rm <= 15,
    ensures
        r == spec_instr_ldrstr_reg(InstrType::LDRSTRRegPre, true, condition, add_sub,
            byte_word, writeback, ldr_str, rn, rd, rm),
{
    let mut instr = Instruction::new(InstrType::LDRSTRRegPre);
    instr.condition = condition_from_bits(condition);
    instr.addr_mode = Some(true);
    instr.add_sub = Some(add_sub % 2 == 1);
    instr.byte_word = Some(byte_word % 2 == 1);
    instr.writeback = Some(writeback % 2 == 1);
    instr.ldr_str = Some(ldr_str % 2 == 1);
    instr.rn = Some(register_from_bits(rn));
    instr.rd = Some(register_from_bits(rd));
    instr.rm = Some(register_from_bits(rm));
    instr
}

pub fn instr_ldrstr_reg_post(
    condition: Word, add_sub: Word, byte_word: Word, writeback: Word, ldr_str: Word, rn: Word,
    rd: Word, rm: Word) -> (r: Instruction)
    requires
        condition <= 14,
        rn <= 15,
        rd <= 15,
        rm <= 15,
    ensures
        r == spec_instr_ldrstr_reg(InstrType::LDRSTRRegPost, false, condition, add_sub,
            byte_word, writeback, ldr_str, rn, rd, rm),
{
    let mut instr = Instruction::new(InstrType::LDRSTRRegPost);
    instr.condition = condition_from_bits(condition);
    instr.addr_mode = Some(false);
    instr.add_sub = Some(add_sub % 2 == 1);
    instr.byte_word = Some(byte_word % 2 == 1);
    instr.writeback = Some(writeback % 2 == 1);
    instr.ldr_str = Some(ldr_str % 2 == 1);
    instr.rn = Some(register_from_bits(rn));
    instr.rd = Some(register_from_bits(rd));
    instr.rm = Some(register_from_bits(rm));
    instr
}

pub open spec fn spec_instr_ldrstr_imm(
    t: InstrType, pre: bool, condition: Word, add_sub: Word, byte_word: Word, writeback: Word,
    ldr_str: Word, rn: Word, rd: Word, imm: Word) -> Instruction {
    Instruction {
        addr_mode: Some(pre),
        add_sub: Some(add_sub % 2 == 1),
        byte_word: Some(byte_word % 2 == 1),
        writeback: Some(writeback % 2 == 1),
        ldr_str: Some(ldr_str % 2 == 1),
        rn: Some(spec_register_from_bits(rn)),
        rd: Some(spec_register_from_bits(rd)),
        imm_shift: Some(imm),
        ..spec_instr_base(t, condition)
    }
}

pub fn instr_ldrstr_imm_pre(
    condition: Word, add_sub: Word, byte_word: Word, writeback: Word, ldr_str: Word, rn: Word,
    rd: Word, imm: Word) -> (r: Instruction)
    requires
        condition <= 14,
        rn <= 15,
        rd <= 15,
        imm <= 0xFFF,
    ensures
        r == spec_instr_ldrstr_imm(InstrType::LDRSTRImmPre, true, condition, add_sub,
            byte_word, writeback, ldr_str, rn, rd, imm),
{
    let mut instr = Instruction::new(InstrType::LDRSTRImmPre);
    instr.condition = condition_from_bits(condition);
    instr.addr_mode = Some(true);
    instr.add_sub = Some(add_sub % 2 == 1);
    instr.byte_word = Some(byte_word % 2 == 1);
    instr.writeback = Some(writeback % 2 == 1);
    instr.ldr_str = Some(ldr_str % 2 == 1);
    instr.rn = Some(register_from_bits(rn));
    instr.rd = Some(register_from_bits(rd));
    instr.imm_shift = Some(imm);
    instr
}

pub fn instr_ldrstr_imm_post(
    condition: Word, add_sub: Word, byte_word: Word, writeback: Word, ldr_str: Word, rn: Word,
    rd: Word, imm: Word) -> (r: Instruction)
    requires
        condition <= 14,
        rn <= 15,
        rd <= 15,
        imm <= 0xFFF,
    ensures
        r == spec_instr_ldrstr_imm(InstrType::LDRSTRImmPost, false, condition, add_sub,
            byte_word, writeback, ldr_str, rn, rd, imm),
{
    let mut instr = Instruction::new(InstrType::LDRSTRImmPost);
    instr.condition = condition_from_bits(condition);
    instr.addr_mode = Some(false);
    instr.add_sub = Some(add_sub % 2 == 1);
    instr.byte_word = Some(byte_word % 2 == 1);
    instr.writeback = Some(writeback % 2 == 1);
    instr.ldr_str = Some(ldr_str % 2 == 1);
    instr.rn = Some(register_from_bits(rn));
    instr.rd = Some(register_from_bits(rd));
    instr.imm_shift = Some(imm);
    instr
}

pub open spec fn spec_instr_ldrhstrh_imm(
    t: InstrType, pre: bool, condition: Word, add_sub: Word, writeback: Word, ldr_str: Word,
    rn: Word, rd: Word, high_bits: Word, lsh: Word, low_bits: Word) -> Instruction {
    Instruction {
        addr_mode: Some(pre),
        add_sub: Some(add_sub % 2 == 1),
        writeback: Some(writeback % 2 == 1),
        ldr_str: Some(ldr_str % 2 == 1),
        rn: Some(spec_register_from_bits(rn)),
        rd: Some(spec_register_from_bits(rd)),
        lsh: Some(spec_lsh_from_bits(lsh)),
        imm: Some((high_bits * 16 + low_bits) as Byte),
        ..spec_instr_base(t, condition)
    }
}

pub fn instr_ldrhstrh_imm_pre(
    condition: Word, add_sub: Word, writeback: Word, ldr_str: Word, rn: Word, rd: Word,
    high_bits: Word, lsh: Word, low_bits: Word) -> (r: Instruction)
    requires
        condition <= 14,
        rn <= 15,
        rd <= 15,
        high_bits <= 15,
        low_bits <= 15,
        1 <= lsh <= 7 && lsh != 4,
    ensures
        r == spec_instr_ldrhstrh_imm(InstrType::LDRHSTRHImmPre, true, condition, add_sub,
            writeback, ldr_str, rn, rd, high_bits, lsh, low_bits),
{
    let mut instr = Instruction::new(InstrType::LDRHSTRHImmPre);
    instr.condition = condition_from_bits(condition);
    instr.addr_mode = Some(true);
    instr.add_sub = Some(add_sub % 2 == 1);
    instr.writeback = Some(writeback % 2 == 1);
    instr.ldr_str = Some(ldr_str % 2 == 1);
    instr.rn = Some(register_from_bits(rn));
    instr.rd = Some(register_from_bits(rd));
    instr.lsh = Some(lsh_from_bits(lsh));
    instr.imm = Some((high_bits * 16 + low_bits) as Byte);
    instr
}

pub fn instr_ldrhstrh_imm_post(
    condition: Word, add_sub: Word, writeback: Word, ldr_str: Word, rn: Word, rd: Word,
    high_bits: Word, lsh: Word, low_bits: Word) -> (r: Instruction)
    requires
        condition <= 14,
        rn <= 15,
        rd <= 15,
        high_bits <= 15,
        low_bits <= 15,
        1 <= lsh <= 7 && lsh != 4,
    ensures
        r == spec_instr_ldrhstrh_imm(InstrType::LDRHSTRHImmPost, false, condition, add_sub,
            writeback, ldr_str, rn, rd, high_bits, lsh, low_bits),
{
    let mut instr = Instruction::new(InstrType::LDRHSTRHImmPost);
    instr.condition = condition_from_bits(condition);
    instr.addr_mode = Some(false);
    instr.add_sub = Some(add_sub % 2 == 1);
    instr.writeback = Some(writeback % 2 == 1);
    instr.ldr_str = Some(ldr_str % 2 == 1);
    instr.rn = Some(register_from_bits(rn));
    instr.rd = Some(register_from_bits(rd));
    instr.lsh = Some(lsh_from_bits(lsh));
    instr.imm = Some((high_bits * 16 + low_bits) as Byte);
    instr
}

pub open spec fn spec_instr_ldrhstrh_reg(
    t: InstrType, pre: bool, condition: Word, add_sub: Word, writeback: Word, ldr_str: Word,
    rn: Word, rd: Word, lsh: Word, rm: Word) -> Instruction {
    Instruction {
        addr_mode: Some(pre),
        add_sub: Some(add_sub % 2 == 1),
        writeback: Some(writeback % 2 == 1),
        ldr_str: Some(ldr_str % 2 == 1),
        rn: Some(spec_register_from_bits(rn)),
        rd: Some(spec_register_from_bits(rd)),
        lsh: Some(spec_lsh_from_bits(lsh)),
        rm: Some(spec_register_from_bits(rm)),
        ..spec_instr_base(t, condition)
    }
}

pub fn instr_ldrhstrh_reg_pre(
    condition: Word, add_sub: Word, writeback: Word, ldr_str: Word, rn: Word, rd: Word,
    lsh: Word, rm: Word) -> (r: Instruction)
    requires
        condition <= 14,
        rn <= 15,
        rd <= 15,
        rm <= 15,
        1 <= lsh <= 7 && lsh != 4,
    ensures
        r == spec_instr_ldrhstrh_reg(InstrType::LDRHSTRHRegPre, true, condition, add_sub,
            writeback, ldr_str, rn, rd, lsh, rm),
{
    let mut instr = Instruction::new(InstrType::LDRHSTRHRegPre);
    instr.condition = condition_from_bits(condition);
    instr.addr_mode = Some(true);
    instr.add_sub = Some(add_sub % 2 == 1);
    instr.writeback = Some(writeback % 2 == 1);
    instr.ldr_str = Some(ldr_str % 2 == 1);
    instr.rn = Some(register_from_bits(rn));
    instr.rd = Some(register_from_bits(rd));
    instr.lsh = Some(lsh_from_bits(lsh));
    instr.rm = Some(register_from_bits(rm));
    instr
}

pub fn instr_ldrhstrh_reg_post(
    condition: Word, add_sub: Word, writeback: Word, ldr_str: Word, rn: Word, rd: Word,
    lsh: Word, rm: Word) -> (r: Instruction)
    requires
        condition <= 14,
        rn <= 15,
        rd <= 15,
        rm <= 15,
        1 <= lsh <= 7 && lsh != 4,
    ensures
        r == spec_instr_ldrhstrh_reg(InstrType::LDRHSTRHRegPost, false, condition, add_sub,
            writeback, ldr_str, rn, rd, lsh, rm),
{
    let mut instr = Instruction::new(InstrType::LDRHSTRHRegPost);
    instr.condition = condition_from_bits(condition);
    instr.addr_mode = Some(false);
    instr.add_sub = Some(add_sub % 2 == 1);
    instr.writeback = Some(writeback % 2 == 1);
    instr.ldr_str = Some(ldr_str % 2 == 1);
    instr.rn = Some(register_from_bits(rn));
    instr.rd = Some(register_from_bits(rd));
    instr.lsh = Some(lsh_from_bits(lsh));
    instr.rm = Some(register_from_bits(rm));
    instr
}

pub open spec fn spec_instr_b(condition: Word, l_bit: Word, offset: Word) -> Instruction {
    Instruction {
        l_bit: Some(l_bit % 2 == 1),
        offset: Some(branch_offset_spec(offset) as i32),
        ..spec_instr_base(InstrType::B, condition)
    }
}

pub fn instr_b(condition: Word, l_bit: Word, offset: Word) -> (r: Instruction)
    requires
        condition <= 14,
        offset <= 0xFFFFFF,
    ensures
        r == spec_instr_b(condition, l_bit, offset),
{
    let mut instr = Instruction::new(InstrType::B);
    instr.condition = condition_from_bits(condition);
    instr.l_bit = Some(l_bit % 2 == 1);
    let sval: i64 = if offset >= 0x800000 {
        offset as i64 - 0x1000000
    } else {
        offset as i64
    };
    instr.offset = Some((sval * 4 + 8) as i32);
    instr
}

pub open spec fn spec_instr_bx(condition: Word, rm: Word) -> Instruction {
    Instruction {
        rm: Some(spec_register_from_bits(rm)),
        ..spec_instr_base(InstrType::BX, condition)
    }
}

pub fn instr_bx(condition: Word, rm: Word) -> (r: Instruction)
    requires
        condition <= 14,
        rm <= 15,
    ensures
        r == spec_instr_bx(condition, rm),
{
    let mut instr = Instruction::new(InstrType::BX);
    instr.condition = condition_from_bits(condition);
    instr.rm = Some(register_from_bits(rm));
    instr
}

pub open spec fn spec_instr_ldmstm(
    condition: Word, ldm_code: Word, s_bit: Word, writeback: Word, ldr_str: Word, rn: Word,
    reg_list: Word) -> Instruction {
    Instruction {
        ldm: Some(spec_ldm_code_from_bits(ldm_code)),
        s_bit: Some(s_bit % 2 == 1),
        writeback: Some(writeback % 2 == 1),
        ldr_str: Some(ldr_str % 2 == 1),
        rn: Some(spec_register_from_bits(rn)),
        reg_list: Some(reg_list),
        ..spec_instr_base(InstrType::LDMSTM, condition)
    }
}

pub fn instr_ldmstm(
    condition: Word, ldm_code: Word, s_bit: Word, writeback: Word, ldr_str: Word, rn: Word,
    reg_list: Word) -> (r: Instruction)
    requires
        condition <= 14,
        ldm_code <= 3,
        rn <= 15,
        reg_list <= 0xFFFF,
    ensures
        r == spec_instr_ldmstm(condition, ldm_code, s_bit, writeback, ldr_str, rn, reg_list),
{
    let mut instr = Instruction::new(InstrType::LDMSTM);
    instr.condition = condition_from_bits(condition);
    instr.ldm = Some(ldm_code_from_bits(ldm_code));
    instr.s_bit = Some(s_bit % 2 == 1);
    instr.writeback = Some(writeback % 2 == 1);
    instr.ldr_str = Some(ldr_str % 2 == 1);
    instr.rn = Some(register_from_bits(rn));
    instr.reg_list = Some(reg_list);
    instr
}

pub open spec fn spec_instr_mul(
    condition: Word, s_bit: Word, rd: Word, rs: Word, rm: Word) -> Instruction {
    Instruction {
        s_bit: Some(s_bit % 2 == 1),
        rd: Some(spec_register_from_bits(rd)),
        rs: Some(spec_register_from_bits(rs)),
        rm: Some(spec_register_from_bits(rm)),
        ..spec_instr_base(InstrType::MUL, condition)
    }
}

pub fn instr_mul(condition: Word, s_bit: Word, rd: Word, rs: Word, rm: Word) -> (r: Instruction)
    requires
        condition <= 14,
        rd <= 15,
        rs <= 15,
        rm <= 15,
    ensures
        r == spec_instr_mul(condition, s_bit, rd, rs, rm),
{
    let mut instr = Instruction::new(InstrType::MUL);
    instr.condition = condition_from_bits(condition);
    instr.s_bit = Some(s_bit % 2 == 1);
    instr.rd = Some(register_from_bits(rd));
    instr.rs = Some(register_from_bits(rs));
    instr.rm = Some(register_from_bits(rm));
    instr
}

pub open spec fn spec_instr_swi(condition: Word, swi: Word) -> Instruction {
    Instruction { swi: Some(swi), ..spec_instr_base(InstrType::SWI, condition) }
}

pub fn instr_swi(condition: Word, swi: Word) -> (r: Instruction)
    requires
        condition <= 14,
        swi <= 0xFFFFFF,
    ensures
        r == spec_instr_swi(condition, swi),
{
    let mut instr = Instruction::new(InstrType::SWI);
    instr.condition = condition_from_bits(condition);
    instr.swi = Some(swi);
    instr
}

pub open spec fn spec_instr_mrs(condition: Word, gpregister: Word, rd: Word) -> Instruction {
    Instruction {
        gpregister: Some(gpregister % 2 == 1),
        rd: Some(spec_register_from_bits(rd)),
        ..spec_instr_base(InstrType::MRS, condition)
    }
}

pub fn instr_mrs(condition: Word, gpregister: Word, rd: Word) -> (r: Instruction)
    requires
        condition <= 14,
        rd <= 15,
    ensures
        r == spec_instr_mrs(condition, gpregister, rd),
{
    let mut instr = Instruction::new(InstrType::MRS);
    instr.condition = condition_from_bits(condition);
    instr.gpregister = Some(gpregister % 2 == 1);
    instr.rd = Some(register_from_bits(rd));
    instr
}

pub open spec fn spec_instr_msr_imm(
    condition: Word, gpregister: Word, field_mask: Word, rotate: Word, imm: Word) -> Instruction {
    Instruction {
        gpregister: Some(gpregister % 2 == 1),
        field_mask: Some(field_mask),
        rotate: Some(rotate as Byte),
        imm: Some(imm as Byte),
        ..spec_instr_base(InstrType::MSRImm, condition)
    }
}

pub fn instr_msr_imm(
    condition: Word, gpregister: Word, field_mask: Word, rotate: Word, imm: Word)
    -> (r: Instruction)
    requires
        condition <= 14,
        field_mask <= 15,
        rotate <= 15,
        imm <= 255,
    ensures
        r == spec_instr_msr_imm(condition, gpregister, field_mask, rotate, imm),
{
    let mut instr = Instruction::new(InstrType::MSRImm);
    instr.condition = condition_from_bits(condition);
    instr.gpregister = Some(gpregister % 2 == 1);
    instr.field_mask = Some(field_mask);
    instr.rotate = Some(rotate as Byte);
    instr.imm = Some(imm as Byte);
    instr
}

pub open spec fn spec_instr_msr_reg(
    condition: Word, gpregister: Word, field_mask: Word, rm: Word) -> Instruction {
    Instruction {
        gpregister: Some(gpregister % 2 == 1),
        field_mask: Some(field_mask),
        rm: Some(spec_register_from_bits(rm)),
        ..spec_instr_base(InstrType::MSRReg, condition)
    }
}

pub fn instr_msr_reg(condition: Word, gpregister: Word, field_mask: Word, rm: Word)
    -> (r: Instruction)
    requires
        condition <= 14,
        field_mask <= 15,
        rm <= 15,
    ensures
        r == spec_instr_msr_reg(condition, gpregister, field_mask, rm),
{
    let mut instr = Instruction::new(InstrType::MSRReg);
    instr.condition = condition_from_bits(condition);
    instr.gpregister = Some(gpregister % 2 == 1);
    instr.field_mask = Some(field_mask);
    instr.rm = Some(register_from_bits(rm));
    instr
}

pub open spec fn spec_instr_nop() -> Instruction {
    spec_instr_base(InstrType::NOP, 14)
}

pub fn instr_nop() -> (r: Instruction)
    ensures
        r == spec_instr_nop(),
{
    Instruction::new(InstrType::NOP)
}

} // verus!
