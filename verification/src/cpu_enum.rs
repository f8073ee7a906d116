//! Enumerated fields of the instruction set: instruction shapes, shift and
//! block-transfer codes, data-processing opcodes, condition codes, processor
//! modes, and the outcome type of one execution step. Every enum comes with
//! total (or guarded) conversions from and to its architectural bit pattern.
use vstd::prelude::*;

verus! {

use crate::bits::Word;

#[derive(Clone, Copy, Debug, PartialEq, Eq, Structural)]
pub enum InstrType {
    DataRegImm,
    DataRegReg,
    DataImm,
    LDRSTRShiftRegPre,
    LDRSTRShiftRegPost,
    LDRSTRRegPre,
    LDRSTRRegPost,
    LDRSTRImmPre,
    LDRSTRImmPost,
    LDRHSTRHImmPre,
    LDRHSTRHImmPost,
    LDRHSTRHRegPre,
    LDRHSTRHRegPost,
    LDMSTM,
    B,
    BX,
    SWI,
    MUL,
    NOP,
    MSRImm,
    MSRReg,
    MRS,
}

#[derive(Clone, Copy, Debug, PartialEq, Eq, Structural)]
pub enum ShiftType {
    LSL,
    LSR,
    ASR,
    ROR,
}

pub open spec fn spec_shift_type_from_bits(bits: Word) -> ShiftType {
    if bits == 0 {
        ShiftType::LSL
    } else if bits == 1 {
        ShiftType::LSR
    } else if bits == 2 {
        ShiftType::ASR
    } else {
        ShiftType::ROR
    }
}

pub open spec fn spec_shift_type_bits(t: ShiftType) -> Word {
    match t {
        ShiftType::LSL => 0,
        ShiftType::LSR => 1,
        ShiftType::ASR => 2,
        ShiftType::ROR => 3,
    }
}

pub fn shift_type_from_bits(bits: Word) -> (r: ShiftType)
    requires
        bits <= 3,
    ensures
        r == spec_shift_type_from_bits(bits),
{
    if bits == 0 {
        ShiftType::LSL
    } else if bits == 1 {
        ShiftType::LSR
    } else if bits == 2 {
        ShiftType::ASR
    } else {
        ShiftType::ROR
    }
}

#[derive(Clone, Copy, Debug, PartialEq, Eq, Structural)]
pub enum LDMCode {
    DecAfter,
    IncAfter,
    DecBefore,
    IncBefore,
}

pub open spec fn spec_ldm_code_from_bits(bits: Word) -> LDMCode {
    if bits == 0 {
        LDMCode::DecAfter
    } else if bits == 1 {
        LDMCode::IncAfter
    } else if bits == 2 {
        LDMCode::DecBefore
    } else {
        LDMCode::IncBefore
    }
}

pub open spec fn spec_ldm_code_bits(c: LDMCode) -> Word {
    match c {
        LDMCode::DecAfter => 0,
        LDMCode::IncAfter => 1,
        LDMCode::DecBefore => 2,
        LDMCode::IncBefore => 3,
    }
}

pub fn ldm_code_from_bits(bits: Word) -> (r: LDMCode)
    requires
        bits <= 3,
    ensures
        r == spec_ldm_code_from_bits(bits),
{
    if bits == 0 {
        LDMCode::DecAfter
    } else if bits == 1 {
        LDMCode::IncAfter
    } else if bits == 2 {
        LDMCode::DecBefore
    } else {
        LDMCode::IncBefore
    }
}

#[derive(Clone, Copy, Debug, PartialEq, Eq, Structural)]
pub enum AddressingMode {
    PreIndex,
    PostIndex,
    PreIndexWriteback,
}

#[derive(Clone, Copy, Debug, PartialEq, Eq, Structural)]
pub enum DataOpcode {
    AND,
    EOR,
    SUB,
    RSB,
    ADD,
    ADC,
    SBC,
    RSC,
    TST,
    TEQ,
    CMP,
    CMN,
    ORR,
    MOV,
    BIC,
    MVN,
}

pub open spec fn spec_data_opcode_from_bits(bits: Word) -> DataOpcode {
    if bits == 0 {
        DataOpcode::AND
    } else if bits == 1 {
        DataOpcode::EOR
    } else if bits == 2 {
        DataOpcode::SUB
    } else if bits == 3 {
        DataOpcode::RSB
    } else if bits == 4 {
        DataOpcode::ADD
    } else if bits == 5 {
        DataOpcode::ADC
    } else if bits == 6 {
        DataOpcode::SBC
    } else if bits == 7 {
        DataOpcode::RSC
    } else if bits == 8 {
        DataOpcode::TST
    } else if bits == 9 {
        DataOpcode::TEQ
    } else if bits == 10 {
        DataOpcode::CMP
    } else if bits == 11 {
        DataOpcode::CMN
    } else if bits == 12 {
        DataOpcode::ORR
    } else if bits == 13 {
        DataOpcode::MOV
    } else if bits == 14 {
        DataOpcode::BIC
    } else {
        DataOpcode::MVN
    }
}

pub open spec fn spec_data_opcode_bits(op: DataOpcode) -> Word {
    match op {
        DataOpcode::AND => 0,
        DataOpcode::EOR => 1,
        DataOpcode::SUB => 2,
        DataOpcode::RSB => 3,
        DataOpcode::ADD => 4,
        DataOpcode::ADC => 5,
        DataOpcode::SBC => 6,
        DataOpcode::RSC => 7,
        DataOpcode::TST => 8,
        DataOpcode::TEQ => 9,
        DataOpcode::CMP => 10,
        DataOpcode::CMN => 11,
        DataOpcode::ORR => 12,
        DataOpcode::MOV => 13,
        DataOpcode::BIC => 14,
        DataOpcode::MVN => 15,
    }
}

pub fn data_opcode_from_bits(bits: Word) -> (r: DataOpcode)
    requires
        bits <= 15,
    ensures
        r == spec_data_opcode_from_bits(bits),
{
    if bits == 0 {
        DataOpcode::AND
    } else if bits == 1 {
        DataOpcode::EOR
    } else if bits == 2 {
        DataOpcode::SUB
    } else if bits == 3 {
        DataOpcode::RSB
    } else if bits == 4 {
        DataOpcode::ADD
    } else if bits == 5 {
        DataOpcode::ADC
    } else if bits == 6 {
        DataOpcode::SBC
    } else if bits == 7 {
        DataOpcode::RSC
    } else if bits == 8 {
        DataOpcode::TST
    } else if bits == 9 {
        DataOpcode::TEQ
    } else if bits == 10 {
        DataOpcode::CMP
    } else if bits == 11 {
        DataOpcode::CMN
    } else if bits == 12 {
        DataOpcode::ORR
    } else if bits == 13 {
        DataOpcode::MOV
    } else if bits == 14 {
        DataOpcode::BIC
    } else {
        DataOpcode::MVN
    }
}

/// Secondary opcode of the half-word and signed transfer forms: the load
/// bit joined with the two S/H bits.
#[derive(Clone, Copy, Debug, PartialEq, Eq, Structural)]
pub enum LSH {
    StrHalfWord,
    LdrDoubleWord,
    StrDoubleWord,
    LdrUHalfWord,
    LdrSByte,
    LdrSHalfWord,
}

pub open spec fn spec_lsh_from_bits(bits: Word) -> LSH {
    if bits == 1 {
        LSH::StrHalfWord
    } else if bits == 2 {
        LSH::LdrDoubleWord
    } else if bits == 3 {
        LSH::StrDoubleWord
    } else if bits == 5 {
        LSH::LdrUHalfWord
    } else if bits == 6 {
        LSH::LdrSByte
    } else {
        LSH::LdrSHalfWord
    }
}

pub open spec fn spec_lsh_bits(l: LSH) -> Word {
    match l {
        LSH::StrHalfWord => 1,
        LSH::LdrDoubleWord => 2,
        LSH::StrDoubleWord => 3,
        LSH::LdrUHalfWord => 5,
        LSH::LdrSByte => 6,
        LSH::LdrSHalfWord => 7,
    }
}

pub fn lsh_from_bits(bits: Word) -> (r: LSH)
    requires
        1 <= bits <= 7,
        bits != 4,
    ensures
        r == spec_lsh_from_bits(bits),
{
    if bits == 1 {
        LSH::StrHalfWord
    } else if bits == 2 {
        LSH::LdrDoubleWord
    } else if bits == 3 {
        LSH::StrDoubleWord
    } else if bits == 5 {
        LSH::LdrUHalfWord
    } else if bits == 6 {
        LSH::LdrSByte
    } else {
        LSH::LdrSHalfWord
    }
}

#[derive(Clone, Copy, Debug, PartialEq, Eq, Structural)]
pub enum Condition {
    EQ,
    NE,
    CSHS,
    CCLO,
    MI,
    PL,
    VS,
    VC,
    HI,
    LS,
    GE,
    LT,
    GT,
    LE,
    AL,
}

pub open spec fn spec_condition_from_bits(bits: Word) -> Condition {
    if bits == 0 {
        Condition::EQ
    } else if bits == 1 {
        Condition::NE
    } else if bits == 2 {
        Condition::CSHS
    } else if bits == 3 {
        Condition::CCLO
    } else if bits == 4 {
        Condition::MI
    } else if bits == 5 {
        Condition::PL
    } else if bits == 6 {
        Condition::VS
    } else if bits == 7 {
        Condition::VC
    } else if bits == 8 {
        Condition::HI
    } else if bits == 9 {
        Condition::LS
    } else if bits == 10 {
        Condition::GE
    } else if bits == 11 {
        Condition::LT
    } else if bits == 12 {
        Condition::GT
    } else if bits == 13 {
        Condition::LE
    } else {
        Condition::AL
    }
}

pub open spec fn spec_condition_bits(c: Condition) -> Word {
    match c {
        Condition::EQ => 0,
        Condition::NE => 1,
        Condition::CSHS => 2,
        Condition::CCLO => 3,
        Condition::MI => 4,
        Condition::PL => 5,
        Condition::VS => 6,
        Condition::VC => 7,
        Condition::HI => 8,
        Condition::LS => 9,
        Condition::GE => 10,
        Condition::LT => 11,
        Condition::GT => 12,
        Condition::LE => 13,
        Condition::AL => 14,
    }
}

pub fn condition_from_bits(bits: Word) -> (r: Condition)
    requires
        bits <= 14,
    ensures
        r == spec_condition_from_bits(bits),
{
    if bits == 0 {
        Condition::EQ
    } else if bits == 1 {
        Condition::NE
    } else if bits == 2 {
        Condition::CSHS
    } else if bits == 3 {
        Condition::CCLO
    } else if bits == 4 {
        Condition::MI
    } else if bits == 5 {
        Condition::PL
    } else if bits == 6 {
        Condition::VS
    } else if bits == 7 {
        Condition::VC
    } else if bits == 8 {
        Condition::HI
    } else if bits == 9 {
        Condition::LS
    } else if bits == 10 {
        Condition::GE
    } else if bits == 11 {
        Condition::LT
    } else if bits == 12 {
        Condition::GT
    } else if bits == 13 {
        Condition::LE
    } else {
        Condition::AL
    }
}

/// Processor mode, selected by the low five bits of the CPSR.
#[derive(Clone, Copy, Debug, PartialEq, Eq, Structural)]
pub enum Mode {
    USR,
    FIQ,
    IRQ,
    SVC,
    ABT,
    UND,
    SYS,
}

pub const MODE_BITS_USR: Word = 0b10000;
pub const MODE_BITS_FIQ: Word = 0b10001;
pub const MODE_BITS_IRQ: Word = 0b10010;
pub const MODE_BITS_SVC: Word = 0b10011;
pub const MODE_BITS_ABT: Word = 0b10111;
pub const MODE_BITS_UND: Word = 0b11011;
pub const MODE_BITS_SYS: Word = 0b11111;

pub open spec fn spec_mode_bits(m: Mode) -> Word {
    match m {
        Mode::USR => MODE_BITS_USR,
        Mode::FIQ => MODE_BITS_FIQ,
        Mode::IRQ => MODE_BITS_IRQ,
        Mode::SVC => MODE_BITS_SVC,
        Mode::ABT => MODE_BITS_ABT,
        Mode::UND => MODE_BITS_UND,
        Mode::SYS => MODE_BITS_SYS,
    }
}

pub open spec fn spec_mode_of_bits(bits: Word) -> Option<Mode> {
    if bits == MODE_BITS_USR {
        Some(Mode::USR)
    } else if bits == MODE_BITS_FIQ {
        Some(Mode::FIQ)
    } else if bits == MODE_BITS_IRQ {
        Some(Mode::IRQ)
    } else if bits == MODE_BITS_SVC {
        Some(Mode::SVC)
    } else if bits == MODE_BITS_ABT {
        Some(Mode::ABT)
    } else if bits == MODE_BITS_UND {
        Some(Mode::UND)
    } else if bits == MODE_BITS_SYS {
        Some(Mode::SYS)
    } else {
        None
    }
}

pub fn mode_bits(m: Mode) -> (r: Word)
    ensures
        r == spec_mode_bits(m),
{
    match m {
        Mode::USR => MODE_BITS_USR,
        Mode::FIQ => MODE_BITS_FIQ,
        Mode::IRQ => MODE_BITS_IRQ,
        Mode::SVC => MODE_BITS_SVC,
        Mode::ABT => MODE_BITS_ABT,
        Mode::UND => MODE_BITS_UND,
        Mode::SYS => MODE_BITS_SYS,
    }
}

pub fn mode_of_bits(bits: Word) -> (r: Option<Mode>)
    ensures
        r == spec_mode_of_bits(bits),
{
    if bits == MODE_BITS_USR {
        Some(Mode::USR)
    } else if bits == MODE_BITS_FIQ {
        Some(Mode::FIQ)
    } else if bits == MODE_BITS_IRQ {
        Some(Mode::IRQ)
    } else if bits == MODE_BITS_SVC {
        Some(Mode::SVC)
    } else if bits == MODE_BITS_ABT {
        Some(Mode::ABT)
    } else if bits == MODE_BITS_UND {
        Some(Mode::UND)
    } else if bits == MODE_BITS_SYS {
        Some(Mode::SYS)
    } else {
        None
    }
}

/// Outcome of executing one instruction.
#[derive(Clone, Copy, Debug, PartialEq, Eq, Structural)]
pub enum InstrExecuteCondition {
    HLT,
    SWI,
    NOP,
}

} // verus!
