//! Textual pieces of the disassembly view: mnemonic suffixes, operand
//! signs, addressing-mode tags, and decimal rendering of immediates.
use vstd::prelude::*;

verus! {

use crate::bits::{Word, bit_get, wadd, wsub};
use crate::cpu_enum::{Condition, ShiftType, LDMCode, DataOpcode, InstrType};
use crate::instruction::Instruction;
use crate::memory::Register;
use vstd::string::StringExecFns;

/// The digit character of one decimal digit.
pub open spec fn dec_digit(d: Word) -> char {
    if d == 0 {
        '0'
    } else if d == 1 {
        '1'
    } else if d == 2 {
        '2'
    } else if d == 3 {
        '3'
    } else if d == 4 {
        '4'
    } else if d == 5 {
        '5'
    } else if d == 6 {
        '6'
    } else if d == 7 {
        '7'
    } else if d == 8 {
        '8'
    } else {
        '9'
    }
}

/// The decimal rendering of a word, most significant digit first.
pub open spec fn spec_dec(n: Word) -> Seq<char>
    decreases n,
{
    if n < 10 {
        seq![dec_digit(n)]
    } else {
        spec_dec(n / 10).push(dec_digit(n % 10))
    }
}

fn digit_str(d: Word) -> (r: &'static str)
    requires
        d <= 9,
    ensures
        r@ == seq![dec_digit(d)],
{
    proof {
        reveal_strlit("0");
        reveal_strlit("1");
        reveal_strlit("2");
        reveal_strlit("3");
        reveal_strlit("4");
        reveal_strlit("5");
        reveal_strlit("6");
        reveal_strlit("7");
        reveal_strlit("8");
        reveal_strlit("9");
    }
    let r = if d == 0 {
        "0"
    } else if d == 1 {
        "1"
    } else if d == 2 {
        "2"
    } else if d == 3 {
        "3"
    } else if d == 4 {
        "4"
    } else if d == 5 {
        "5"
    } else if d == 6 {
        "6"
    } else if d == 7 {
        "7"
    } else if d == 8 {
        "8"
    } else {
        "9"
    };
    proof {
        assert(r@ =~= seq![dec_digit(d)]);
    }
    r
}

/// The decimal rendering of a word.
pub fn dec_string(n: Word) -> (r: String)
    ensures
        r@ == spec_dec(n),
    decreases n,
{
    if n < 10 {
        digit_str(n).to_owned()
    } else {
        let mut s = dec_string(n / 10);
        s.append(digit_str(n % 10));
        proof {
            assert(s@ =~= spec_dec(n));
        }
        s
    }
}

/// The printed name of a register.
pub open spec fn spec_register_name(r: Register) -> Seq<char> {
    match r {
        Register::r0 => "r0"@,
        Register::r1 => "r1"@,
        Register::r2 => "r2"@,
        Register::r3 => "r3"@,
        Register::r4 => "r4"@,
        Register::r5 => "r5"@,
        Register::r6 => "r6"@,
        Register::r7 => "r7"@,
        Register::r8 => "r8"@,
        Register::r9 => "r9"@,
        Register::r10 => "r10"@,
        Register::r11 => "r11"@,
        Register::r12 => "r12"@,
        Register::r13 => "r13"@,
        Register::r14 => "r14"@,
        Register::r15 => "r15"@,
    }
}

pub fn register_name(r: Register) -> (s: &'static str)
    ensures
        s@ == spec_register_name(r),
{
    match r {
        Register::r0 => "r0",
        Register::r1 => "r1",
        Register::r2 => "r2",
        Register::r3 => "r3",
        Register::r4 => "r4",
        Register::r5 => "r5",
        Register::r6 => "r6",
        Register::r7 => "r7",
        Register::r8 => "r8",
        Register::r9 => "r9",
        Register::r10 => "r10",
        Register::r11 => "r11",
        Register::r12 => "r12",
        Register::r13 => "r13",
        Register::r14 => "r14",
        Register::r15 => "r15",
    }
}

/// The flag-setting suffix.
pub fn get_s_bit_str(s_bit: bool) -> (r: String)
    ensures
        r@ == (if s_bit { "s"@ } else { ""@ }),
{
    if s_bit {
        "s".to_owned()
    } else {
        "".to_owned()
    }
}

/// The link suffix of a branch.
pub fn get_l_bit_str(l_bit: bool) -> (r: String)
    ensures
        r@ == (if l_bit { "l"@ } else { ""@ }),
{
    if l_bit {
        "l".to_owned()
    } else {
        "".to_owned()
    }
}

/// The printed condition suffix; the always-condition prints nothing.
pub open spec fn spec_condition_str(c: Condition) -> Seq<char> {
    match c {
        Condition::EQ => "eq"@,
        Condition::NE => "ne"@,
        Condition::CSHS => "cshs"@,
        Condition::CCLO => "cclo"@,
        Condition::MI => "mi"@,
        Condition::PL => "pl"@,
        Condition::VS => "vs"@,
        Condition::VC => "vc"@,
        Condition::HI => "hi"@,
        Condition::LS => "ls"@,
        Condition::GE => "ge"@,
        Condition::LT => "lt"@,
        Condition::GT => "gt"@,
        Condition::LE => "le"@,
        Condition::AL => ""@,
    }
}

pub fn get_condition_str(condition: Condition) -> (r: String)
    ensures
        r@ == spec_condition_str(condition),
{
    match condition {
        Condition::EQ => "eq".to_owned(),
        Condition::NE => "ne".to_owned(),
        Condition::CSHS => "cshs".to_owned(),
        Condition::CCLO => "cclo".to_owned(),
        Condition::MI => "mi".to_owned(),
        Condition::PL => "pl".to_owned(),
        Condition::VS => "vs".to_owned(),
        Condition::VC => "vc".to_owned(),
        Condition::HI => "hi".to_owned(),
        Condition::LS => "ls".to_owned(),
        Condition::GE => "ge".to_owned(),
        Condition::LT => "lt".to_owned(),
        Condition::GT => "gt".to_owned(),
        Condition::LE => "le".to_owned(),
        Condition::AL => "".to_owned(),
    }
}

/// The byte-transfer suffix.
pub fn get_byte_word_str(op: bool) -> (r: String)
    ensures
        r@ == (if op { "b"@ } else { ""@ }),
{
    if op {
        "b".to_owned()
    } else {
        "".to_owned()
    }
}

/// Load or store mnemonic of the single-register transfers.
pub fn get_ldr_str_str(op: bool) -> (r: String)
    ensures
        r@ == (if op { "ldr"@ } else { "str"@ }),
{
    if op {
        "ldr".to_owned()
    } else {
        "str".to_owned()
    }
}

/// Load or store mnemonic of the block transfers.
pub fn get_ldm_stm_str(op: bool) -> (r: String)
    ensures
        r@ == (if op { "ldm"@ } else { "stm"@ }),
{
    if op {
        "ldm".to_owned()
    } else {
        "stm".to_owned()
    }
}

/// The writeback marker.
pub fn get_writeback_str(op: bool) -> (r: String)
    ensures
        r@ == (if op { "!"@ } else { ""@ }),
{
    if op {
        "!".to_owned()
    } else {
        "".to_owned()
    }
}

/// A signed immediate operand.
pub fn get_imm_sign_str(imm: Word, add: bool) -> (r: String)
    ensures
        r@ == (if add { "#"@ + spec_dec(imm) } else { "#-"@ + spec_dec(imm) }),
{
    let mut s = if add {
        "#".to_owned()
    } else {
        "#-".to_owned()
    };
    let num = dec_string(imm);
    s.append(num.as_str());
    s
}

/// A signed register operand.
pub fn get_rm_sign_str(rm: Register, add: bool) -> (r: String)
    ensures
        r@ == (if add { spec_register_name(rm) } else { "-"@ + spec_register_name(rm) }),
{
    let mut s = if add {
        "".to_owned()
    } else {
        "-".to_owned()
    };
    s.append(register_name(rm));
    proof {
        reveal_strlit("");
        if add {
            assert(s@ =~= spec_register_name(rm));
        }
    }
    s
}

/// The printed shift operation name.
pub open spec fn spec_shift_name(t: ShiftType) -> Seq<char> {
    match t {
        ShiftType::LSL => "lsl"@,
        ShiftType::LSR => "lsr"@,
        ShiftType::ASR => "asr"@,
        ShiftType::ROR => "ror"@,
    }
}

/// A shift operation with its immediate amount.
pub fn get_shift_str(shift_type: ShiftType, imm: Word) -> (r: String)
    ensures
        r@ == spec_shift_name(shift_type) + " #"@ + spec_dec(imm),
{
    let mut s = match shift_type {
        ShiftType::LSL => "lsl".to_owned(),
        ShiftType::LSR => "lsr".to_owned(),
        ShiftType::ASR => "asr".to_owned(),
        ShiftType::ROR => "ror".to_owned(),
    };
    s.append(" #");
    let num = dec_string(imm);
    s.append(num.as_str());
    s
}

/// The printed names of the registers whose bits are set among the low `n`
/// bits of the list, comma separated, lowest register first.
pub open spec fn spec_reg_list_str(list: Word, n: int) -> Seq<char>
    decreases n,
{
    if n <= 0 {
        Seq::empty()
    } else {
        let prev = spec_reg_list_str(list, n - 1);
        if bit_get(list, (n - 1) as nat) == 1 {
            let name = spec_register_name(
                crate::memory::spec_register_from_bits((n - 1) as Word));
            if prev.len() == 0 {
                name
            } else {
                prev + ", "@ + name
            }
        } else {
            prev
        }
    }
}

/// The comma-separated names of the registers in a block-transfer list.
pub fn get_reg_list_str(reg_list: Word) -> (r: String)
    ensures
        r@ == spec_reg_list_str(reg_list, 16),
{
    proof {
        reveal_strlit("");
    }
    let mut s = "".to_owned();
    let mut any = false;
    let mut ri: Word = 0;
    while ri < 16
        invariant
            ri <= 16,
            s@ == spec_reg_list_str(reg_list, ri as int),
            any == (s@.len() != 0),
        decreases 16 - ri,
    {
        proof {
            reveal_strlit("r0");
            reveal_strlit("r1");
            reveal_strlit("r2");
            reveal_strlit("r3");
            reveal_strlit("r4");
            reveal_strlit("r5");
            reveal_strlit("r6");
            reveal_strlit("r7");
            reveal_strlit("r8");
            reveal_strlit("r9");
            reveal_strlit("r10");
            reveal_strlit("r11");
            reveal_strlit("r12");
            reveal_strlit("r13");
            reveal_strlit("r14");
            reveal_strlit("r15");
            reveal_strlit(", ");
        }
        if crate::bits::get_bit(reg_list, ri) == 1 {
            let name = register_name(crate::memory::register_from_bits(ri));
            if any {
                s.append(", ");
            }
            s.append(name);
            proof {
                assert(name@.len() >= 2);
            }
            any = true;
        }
        ri = ri + 1;
    }
    s
}

/// The printed mnemonic of a data-processing opcode.
pub open spec fn spec_data_opcode_str(op: DataOpcode) -> Seq<char> {
    match op {
        DataOpcode::AND => "and"@,
        DataOpcode::EOR => "eor"@,
        DataOpcode::SUB => "sub"@,
        DataOpcode::RSB => "rsb"@,
        DataOpcode::ADD => "add"@,
        DataOpcode::ADC => "adc"@,
        DataOpcode::SBC => "sbc"@,
        DataOpcode::RSC => "rsc"@,
        DataOpcode::TST => "tst"@,
        DataOpcode::TEQ => "teq"@,
        DataOpcode::CMP => "cmp"@,
        DataOpcode::CMN => "cmn"@,
        DataOpcode::ORR => "orr"@,
        DataOpcode::MOV => "mov"@,
        DataOpcode::BIC => "bic"@,
        DataOpcode::MVN => "mvn"@,
    }
}

pub fn get_data_opcode_str(op: DataOpcode) -> (r: String)
    ensures
        r@ == spec_data_opcode_str(op),
{
    match op {
        DataOpcode::AND => "and".to_owned(),
        DataOpcode::EOR => "eor".to_owned(),
        DataOpcode::SUB => "sub".to_owned(),
        DataOpcode::RSB => "rsb".to_owned(),
        DataOpcode::ADD => "add".to_owned(),
        DataOpcode::ADC => "adc".to_owned(),
        DataOpcode::SBC => "sbc".to_owned(),
        DataOpcode::RSC => "rsc".to_owned(),
        DataOpcode::TST => "tst".to_owned(),
        DataOpcode::TEQ => "teq".to_owned(),
        DataOpcode::CMP => "cmp".to_owned(),
        DataOpcode::CMN => "cmn".to_owned(),
        DataOpcode::ORR => "orr".to_owned(),
        DataOpcode::MOV => "mov".to_owned(),
        DataOpcode::BIC => "bic".to_owned(),
        DataOpcode::MVN => "mvn".to_owned(),
    }
}

/// The character of one hexadecimal digit, upper case.
pub open spec fn hex_digit(d: Word) -> char {
    if d < 10 {
        dec_digit(d)
    } else if d == 10 {
        'A'
    } else if d == 11 {
        'B'
    } else if d == 12 {
        'C'
    } else if d == 13 {
        'D'
    } else if d == 14 {
        'E'
    } else {
        'F'
    }
}

/// The hexadecimal rendering of a word, most significant digit first.
pub open spec fn spec_hex(n: Word) -> Seq<char>
    decreases n,
{
    if n < 16 {
        seq![hex_digit(n)]
    } else {
        spec_hex(n / 16).push(hex_digit(n % 16))
    }
}

fn hex_digit_str(d: Word) -> (r: &'static str)
    requires
        d <= 15,
    ensures
        r@ == seq![hex_digit(d)],
{
    proof {
        reveal_strlit("A");
        reveal_strlit("B");
        reveal_strlit("C");
        reveal_strlit("D");
        reveal_strlit("E");
        reveal_strlit("F");
    }
    if d < 10 {
        digit_str(d)
    } else {
        let r = if d == 10 {
            "A"
        } else if d == 11 {
            "B"
        } else if d == 12 {
            "C"
        } else if d == 13 {
            "D"
        } else if d == 14 {
            "E"
        } else {
            "F"
        };
        proof {
            assert(r@ =~= seq![hex_digit(d)]);
        }
        r
    }
}

/// The hexadecimal rendering of a word.
pub fn hex_string(n: Word) -> (r: String)
    ensures
        r@ == spec_hex(n),
    decreases n,
{
    if n < 16 {
        hex_digit_str(n).to_owned()
    } else {
        let mut s = hex_string(n / 16);
        s.append(hex_digit_str(n % 16));
        proof {
            assert(s@ =~= spec_hex(n));
        }
        s
    }
}

/// The addressing-policy tag of a block transfer.
pub open spec fn spec_ldm_code_str(code: LDMCode) -> Seq<char> {
    match code {
        LDMCode::DecAfter => "da"@,
        LDMCode::IncAfter => "ia"@,
        LDMCode::DecBefore => "db"@,
        LDMCode::IncBefore => "ib"@,
    }
}

pub fn get_ldm_code_str(ldm: LDMCode) -> (r: String)
    ensures
        r@ == spec_ldm_code_str(ldm),
{
    match ldm {
        LDMCode::DecAfter => "da".to_owned(),
        LDMCode::IncAfter => "ia".to_owned(),
        LDMCode::DecBefore => "db".to_owned(),
        LDMCode::IncBefore => "ib".to_owned(),
    }
}

/// Which status register a transfer names.
pub fn get_cpsr_spsr_str(gpregister: bool) -> (r: String)
    ensures
        r@ == (if gpregister { "SPSR"@ } else { "CPSR"@ }),
{
    if gpregister {
        "SPSR".to_owned()
    } else {
        "CPSR".to_owned()
    }
}

/// The field letters of a status-register field mask, highest lane first.
pub open spec fn spec_fields_str(field_mask: Word) -> Seq<char> {
    (if bit_get(field_mask, 3) == 1 { "f"@ } else { ""@ })
        + (if bit_get(field_mask, 2) == 1 { "s"@ } else { ""@ })
        + (if bit_get(field_mask, 1) == 1 { "x"@ } else { ""@ })
        + (if bit_get(field_mask, 0) == 1 { "c"@ } else { ""@ })
}

pub fn get_fields_str(field_mask: Word) -> (r: String)
    ensures
        r@ == spec_fields_str(field_mask),
{
    let mut s = "".to_owned();
    if crate::bits::test_bit(field_mask, 3) {
        s.append("f");
    }
    if crate::bits::test_bit(field_mask, 2) {
        s.append("s");
    }
    if crate::bits::test_bit(field_mask, 1) {
        s.append("x");
    }
    if crate::bits::test_bit(field_mask, 0) {
        s.append("c");
    }
    proof {
        reveal_strlit("");
        assert(s@ =~= spec_fields_str(field_mask));
    }
    s
}

/// The printed shift operation name alone.
pub fn get_shift_name(t: ShiftType) -> (r: String)
    ensures
        r@ == spec_shift_name(t),
{
    match t {
        ShiftType::LSL => "lsl".to_owned(),
        ShiftType::LSR => "lsr".to_owned(),
        ShiftType::ASR => "asr".to_owned(),
        ShiftType::ROR => "ror".to_owned(),
    }
}

/// The address a branch's text shows: the instruction's own address plus
/// its stored offset.
pub open spec fn branch_text_target(pc: Word, off: int) -> Word {
    if off >= 0 {
        wadd(pc, off as Word)
    } else {
        wsub(pc, (-off) as Word)
    }
}

/// The text of a data-processing instruction: mnemonic with suffixes, the
/// destination, the first operand unless the opcode is a plain move, and
/// the shape's second operand.
pub open spec fn spec_data_text(i: Instruction) -> Seq<char> {
    let head = spec_data_opcode_str(i.data_opcode->0) + spec_condition_str(i.condition)
        + (if i.s_bit->0 { "s"@ } else { ""@ }) + " "@ + spec_register_name(i.rd->0) + ", "@
        + (match i.data_opcode->0 {
            DataOpcode::MOV | DataOpcode::MVN => ""@,
            _ => spec_register_name(i.rn->0) + ", "@,
        });
    match i.instr_type {
        InstrType::DataImm => head + "#"@ + spec_dec(
            crate::instruction::rotate_value_spec(i.rotate->0, i.imm->0, 0).0),
        InstrType::DataRegImm => head + spec_register_name(i.rm->0) + ", "@
            + spec_shift_name(i.shift_type->0) + " #"@ + spec_dec(i.imm_shift->0),
        _ => head + spec_register_name(i.rm->0) + ", "@ + spec_shift_name(i.shift_type->0)
            + " "@ + spec_register_name(i.rs->0),
    }
}

fn data_text(i: &Instruction) -> (r: String)
    requires
        crate::execute::instr_wf(*i),
        i.instr_type == InstrType::DataImm || i.instr_type == InstrType::DataRegImm
            || i.instr_type == InstrType::DataRegReg,
    ensures
        r@ == spec_data_text(*i),
{
    let mut s = get_data_opcode_str(i.get_data_opcode().unwrap());
    let c = get_condition_str(i.get_condition());
    s.append(c.as_str());
    if i.get_s_bit().unwrap() {
        s.append("s");
    }
    s.append(" ");
    s.append(register_name(i.get_rd().unwrap()));
    s.append(", ");
    match i.get_data_opcode().unwrap() {
        DataOpcode::MOV | DataOpcode::MVN => {},
        _ => {
            s.append(register_name(i.get_rn().unwrap()));
            s.append(", ");
        },
    }
    match i.get_type() {
        InstrType::DataImm => {
            s.append("#");
            let v = Instruction::rotate_value(i.get_rotate().unwrap(), i.get_imm().unwrap(),
                0).0;
            let d = dec_string(v);
            s.append(d.as_str());
        },
        InstrType::DataRegImm => {
            s.append(register_name(i.get_rm().unwrap()));
            s.append(", ");
            let sh = get_shift_str(i.get_shift_type().unwrap(), i.get_imm_shift().unwrap());
            s.append(sh.as_str());
        },
        _ => {
            s.append(register_name(i.get_rm().unwrap()));
            s.append(", ");
            let n = get_shift_name(i.get_shift_type().unwrap());
            s.append(n.as_str());
            s.append(" ");
            s.append(register_name(i.get_rs().unwrap()));
        },
    }
    proof {
        reveal_strlit("");
        assert(s@ =~= spec_data_text(*i));
    }
    s
}

/// The text of a word or byte transfer: mnemonic with suffixes, the
/// transferred register, and the addressing form.
pub open spec fn spec_ldrstr_text(i: Instruction) -> Seq<char> {
    let head = (if i.ldr_str->0 { "ldr"@ } else { "str"@ }) + spec_condition_str(i.condition)
        + (if i.byte_word->0 { "b"@ } else { ""@ }) + " "@ + spec_register_name(i.rd->0)
        + ", ["@ + spec_register_name(i.rn->0);
    let wb = if i.writeback->0 { "!"@ } else { ""@ };
    let srm = if i.add_sub->0 {
        spec_register_name(i.rm->0)
    } else {
        "-"@ + spec_register_name(i.rm->0)
    };
    let simm = if i.add_sub->0 {
        "#"@ + spec_dec(i.imm_shift->0)
    } else {
        "#-"@ + spec_dec(i.imm_shift->0)
    };
    let sh = spec_shift_name(i.shift_type->0) + " #"@ + spec_dec(i.imm_shift->0);
    match i.instr_type {
        InstrType::LDRSTRShiftRegPre => head + ", "@ + srm + ", "@ + sh + "]"@ + wb,
        InstrType::LDRSTRShiftRegPost => head + "], "@ + srm + ", "@ + sh,
        InstrType::LDRSTRRegPre => head + ", "@ + srm + "]"@ + wb,
        InstrType::LDRSTRRegPost => head + "], "@ + srm,
        InstrType::LDRSTRImmPre => head + ", "@ + simm + "]"@ + wb,
        _ => head + "], "@ + simm,
    }
}

fn ldrstr_text(i: &Instruction) -> (r: String)
    requires
        crate::execute::instr_wf(*i),
        i.instr_type == InstrType::LDRSTRShiftRegPre
            || i.instr_type == InstrType::LDRSTRShiftRegPost
            || i.instr_type == InstrType::LDRSTRRegPre
            || i.instr_type == InstrType::LDRSTRRegPost
            || i.instr_type == InstrType::LDRSTRImmPre
            || i.instr_type == InstrType::LDRSTRImmPost,
    ensures
        r@ == spec_ldrstr_text(*i),
{
    let mut s = get_ldr_str_str(i.get_ldr_str().unwrap());
    let c = get_condition_str(i.get_condition());
    s.append(c.as_str());
    if i.get_byte_word().unwrap() {
        s.append("b");
    }
    s.append(" ");
    s.append(register_name(i.get_rd().unwrap()));
    s.append(", [");
    s.append(register_name(i.get_rn().unwrap()));
    match i.get_type() {
        InstrType::LDRSTRShiftRegPre => {
            s.append(", ");
            let m = get_rm_sign_str(i.get_rm().unwrap(), i.get_add_sub().unwrap());
            s.append(m.as_str());
            s.append(", ");
            let sh = get_shift_str(i.get_shift_type().unwrap(), i.get_imm_shift().unwrap());
            s.append(sh.as_str());
            s.append("]");
            if i.get_writeback().unwrap() {
                s.append("!");
            }
        },
        InstrType::LDRSTRShiftRegPost => {
            s.append("], ");
            let m = get_rm_sign_str(i.get_rm().unwrap(), i.get_add_sub().unwrap());
            s.append(m.as_str());
            s.append(", ");
            let sh = get_shift_str(i.get_shift_type().unwrap(), i.get_imm_shift().unwrap());
            s.append(sh.as_str());
        },
        InstrType::LDRSTRRegPre => {
            s.append(", ");
            let m = get_rm_sign_str(i.get_rm().unwrap(), i.get_add_sub().unwrap());
            s.append(m.as_str());
            s.append("]");
            if i.get_writeback().unwrap() {
                s.append("!");
            }
        },
        InstrType::LDRSTRRegPost => {
            s.append("], ");
            let m = get_rm_sign_str(i.get_rm().unwrap(), i.get_add_sub().unwrap());
            s.append(m.as_str());
        },
        InstrType::LDRSTRImmPre => {
            s.append(", ");
            let m = get_imm_sign_str(i.get_imm_shift().unwrap(), i.get_add_sub().unwrap());
            s.append(m.as_str());
            s.append("]");
            if i.get_writeback().unwrap() {
                s.append("!");
            }
        },
        _ => {
            s.append("], ");
            let m = get_imm_sign_str(i.get_imm_shift().unwrap(), i.get_add_sub().unwrap());
            s.append(m.as_str());
        },
    }
    proof {
        reveal_strlit("");
        assert(s@ =~= spec_ldrstr_text(*i));
    }
    s
}

/// The text of a half-word or signed transfer.
pub open spec fn spec_ldrhstrh_text(i: Instruction) -> Seq<char> {
    let head = (if i.ldr_str->0 { "ldr"@ } else { "str"@ }) + spec_condition_str(i.condition)
        + "h"@ + " "@ + spec_register_name(i.rd->0) + ", ["@ + spec_register_name(i.rn->0);
    let wb = if i.writeback->0 { "!"@ } else { ""@ };
    let srm = if i.add_sub->0 {
        spec_register_name(i.rm->0)
    } else {
        "-"@ + spec_register_name(i.rm->0)
    };
    let simm = if i.add_sub->0 {
        "#"@ + spec_dec((i.imm->0) as Word)
    } else {
        "#-"@ + spec_dec((i.imm->0) as Word)
    };
    match i.instr_type {
        InstrType::LDRHSTRHImmPre => head + ", "@ + simm + "]"@ + wb,
        InstrType::LDRHSTRHImmPost => head + "], "@ + simm,
        InstrType::LDRHSTRHRegPre => head + ", "@ + srm + "]"@ + wb,
        _ => head + "], "@ + srm,
    }
}

fn ldrhstrh_text(i: &Instruction) -> (r: String)
    requires
        crate::execute::instr_wf(*i),
        i.instr_type == InstrType::LDRHSTRHImmPre
            || i.instr_type == InstrType::LDRHSTRHImmPost
            || i.instr_type == InstrType::LDRHSTRHRegPre
            || i.instr_type == InstrType::LDRHSTRHRegPost,
    ensures
        r@ == spec_ldrhstrh_text(*i),
{
    let mut s = get_ldr_str_str(i.get_ldr_str().unwrap());
    let c = get_condition_str(i.get_condition());
    s.append(c.as_str());
    s.append("h");
    s.append(" ");
    s.append(register_name(i.get_rd().unwrap()));
    s.append(", [");
    s.append(register_name(i.get_rn().unwrap()));
    match i.get_type() {
        InstrType::LDRHSTRHImmPre => {
            s.append(", ");
            let m = get_imm_sign_str(i.get_imm().unwrap() as Word, i.get_add_sub().unwrap());
            s.append(m.as_str());
            s.append("]");
            if i.get_writeback().unwrap() {
                s.append("!");
            }
        },
        InstrType::LDRHSTRHImmPost => {
            s.append("], ");
            let m = get_imm_sign_str(i.get_imm().unwrap() as Word, i.get_add_sub().unwrap());
            s.append(m.as_str());
        },
        InstrType::LDRHSTRHRegPre => {
            s.append(", ");
            let m = get_rm_sign_str(i.get_rm().unwrap(), i.get_add_sub().unwrap());
            s.append(m.as_str());
            s.append("]");
            if i.get_writeback().unwrap() {
                s.append("!");
            }
        },
        _ => {
            s.append("], ");
            let m = get_rm_sign_str(i.get_rm().unwrap(), i.get_add_sub().unwrap());
            s.append(m.as_str());
        },
    }
    proof {
        reveal_strlit("");
        assert(s@ =~= spec_ldrhstrh_text(*i));
    }
    s
}

/// The text of a block transfer; stack pushes and pops print under their
/// own mnemonics.
pub open spec fn spec_ldmstm_text(i: Instruction) -> Seq<char> {
    let list = "{"@ + spec_reg_list_str(i.reg_list->0, 16) + "}"@;
    if i.ldr_str->0 && i.ldm->0 == LDMCode::IncAfter && i.rn->0 == Register::r13
        && i.writeback->0 {
        "pop"@ + spec_condition_str(i.condition) + " "@ + list
    } else if !(i.ldr_str->0) && i.ldm->0 == LDMCode::DecBefore && i.rn->0 == Register::r13
        && i.writeback->0 {
        "push"@ + spec_condition_str(i.condition) + " "@ + list
    } else {
        (if i.ldr_str->0 { "ldm"@ } else { "stm"@ }) + spec_condition_str(i.condition)
            + spec_ldm_code_str(i.ldm->0) + " "@ + spec_register_name(i.rn->0)
            + (if i.writeback->0 { "!"@ } else { ""@ }) + ", "@ + list
    }
}

fn ldmstm_text(i: &Instruction) -> (r: String)
    requires
        crate::execute::instr_wf(*i),
        i.instr_type == InstrType::LDMSTM,
    ensures
        r@ == spec_ldmstm_text(*i),
{
    let ldr = i.get_ldr_str().unwrap();
    let code = i.get_ldm().unwrap();
    let rn = i.get_rn().unwrap();
    let wb = i.get_writeback().unwrap();
    let mut list = "{".to_owned();
    let body = get_reg_list_str(i.get_reg_list().unwrap());
    list.append(body.as_str());
    list.append("}");
    let mut s: String;
    if ldr && code == LDMCode::IncAfter && rn == Register::r13 && wb {
        s = "pop".to_owned();
        let c = get_condition_str(i.get_condition());
        s.append(c.as_str());
        s.append(" ");
        s.append(list.as_str());
    } else if !ldr && code == LDMCode::DecBefore && rn == Register::r13 && wb {
        s = "push".to_owned();
        let c = get_condition_str(i.get_condition());
        s.append(c.as_str());
        s.append(" ");
        s.append(list.as_str());
    } else {
        s = get_ldm_stm_str(ldr);
        let c = get_condition_str(i.get_condition());
        s.append(c.as_str());
        let cs = get_ldm_code_str(code);
        s.append(cs.as_str());
        s.append(" ");
        s.append(register_name(rn));
        if wb {
            s.append("!");
        }
        s.append(", ");
        s.append(list.as_str());
    }
    proof {
        reveal_strlit("");
        assert(s@ =~= spec_ldmstm_text(*i));
    }
    s
}

/// The assembly text of an instruction: mnemonic, condition suffix, and
/// operand list in conventional syntax. Pure; usable by a disassembly view
/// without touching machine state.
pub open spec fn spec_instruction_text(i: Instruction) -> Seq<char> {
    match i.instr_type {
        InstrType::NOP => "nop"@,
        InstrType::DataImm | InstrType::DataRegImm | InstrType::DataRegReg => spec_data_text(
            i),
        InstrType::LDRSTRShiftRegPre | InstrType::LDRSTRShiftRegPost
            | InstrType::LDRSTRRegPre | InstrType::LDRSTRRegPost | InstrType::LDRSTRImmPre
            | InstrType::LDRSTRImmPost => spec_ldrstr_text(i),
        InstrType::LDRHSTRHImmPre | InstrType::LDRHSTRHImmPost | InstrType::LDRHSTRHRegPre
            | InstrType::LDRHSTRHRegPost => spec_ldrhstrh_text(i),
        InstrType::LDMSTM => spec_ldmstm_text(i),
        InstrType::B => "b"@ + spec_condition_str(i.condition)
            + (if i.l_bit->0 { "l"@ } else { ""@ }) + " "@
            + spec_hex(branch_text_target(i.pc_address, i.offset->0 as int)),
        InstrType::BX => "bx"@ + spec_condition_str(i.condition) + " "@
            + spec_register_name(i.rm->0),
        InstrType::MUL => "mul"@ + spec_condition_str(i.condition)
            + (if i.s_bit->0 { "s"@ } else { ""@ }) + " "@ + spec_register_name(i.rd->0)
            + ", "@ + spec_register_name(i.rm->0) + ", "@ + spec_register_name(i.rs->0),
        InstrType::SWI => "swi"@ + spec_condition_str(i.condition) + " "@
            + spec_dec(i.swi->0),
        InstrType::MRS => "mrs"@ + spec_condition_str(i.condition) + " "@
            + spec_register_name(i.rd->0) + ", "@
            + (if i.gpregister->0 { "SPSR"@ } else { "CPSR"@ }),
        InstrType::MSRImm => "msr"@ + spec_condition_str(i.condition) + " "@
            + (if i.gpregister->0 { "SPSR"@ } else { "CPSR"@ }) + "_"@
            + spec_fields_str(i.field_mask->0) + " #"@ + spec_dec((i.imm->0) as Word),
        InstrType::MSRReg => "msr"@ + spec_condition_str(i.condition) + " "@
            + (if i.gpregister->0 { "SPSR"@ } else { "CPSR"@ }) + "_"@
            + spec_fields_str(i.field_mask->0) + ", "@ + spec_register_name(i.rm->0),
    }
}

/// Renders one instruction as assembly text.
pub fn instruction_text(i: &Instruction) -> (r: String)
    requires
        crate::execute::instr_wf(*i),
    ensures
        r@ == spec_instruction_text(*i),
{
    match i.get_type() {
        InstrType::NOP => "nop".to_owned(),
        InstrType::DataImm | InstrType::DataRegImm | InstrType::DataRegReg => data_text(i),
        InstrType::LDRSTRShiftRegPre | InstrType::LDRSTRShiftRegPost
            | InstrType::LDRSTRRegPre | InstrType::LDRSTRRegPost | InstrType::LDRSTRImmPre
            | InstrType::LDRSTRImmPost => ldrstr_text(i),
        InstrType::LDRHSTRHImmPre | InstrType::LDRHSTRHImmPost | InstrType::LDRHSTRHRegPre
            | InstrType::LDRHSTRHRegPost => ldrhstrh_text(i),
        InstrType::LDMSTM => ldmstm_text(i),
        InstrType::B => {
            let mut s = "b".to_owned();
            let c = get_condition_str(i.get_condition());
            s.append(c.as_str());
            if i.get_l_bit().unwrap() {
                s.append("l");
            }
            s.append(" ");
            let off = i.get_offset().unwrap();
            let target = if off >= 0 {
                crate::bits::exec_wadd(i.get_pc_address(), off as Word)
            } else {
                crate::bits::exec_wsub(i.get_pc_address(), (-(off as i64)) as Word)
            };
            let h = hex_string(target);
            s.append(h.as_str());
            proof {
                reveal_strlit("");
                assert(s@ =~= spec_instruction_text(*i));
            }
            s
        },
        InstrType::BX => {
            let mut s = "bx".to_owned();
            let c = get_condition_str(i.get_condition());
            s.append(c.as_str());
            s.append(" ");
            s.append(register_name(i.get_rm().unwrap()));
            proof {
                assert(s@ =~= spec_instruction_text(*i));
            }
            s
        },
        InstrType::MUL => {
            let mut s = "mul".to_owned();
            let c = get_condition_str(i.get_condition());
            s.append(c.as_str());
            if i.get_s_bit().unwrap() {
                s.append("s");
            }
            s.append(" ");
            s.append(register_name(i.get_rd().unwrap()));
            s.append(", ");
            s.append(register_name(i.get_rm().unwrap()));
            s.append(", ");
            s.append(register_name(i.get_rs().unwrap()));
            proof {
                reveal_strlit("");
                assert(s@ =~= spec_instruction_text(*i));
            }
            s
        },
        InstrType::SWI => {
            let mut s = "swi".to_owned();
            let c = get_condition_str(i.get_condition());
            s.append(c.as_str());
            s.append(" ");
            let d = dec_string(i.get_swi().unwrap());
            s.append(d.as_str());
            proof {
                assert(s@ =~= spec_instruction_text(*i));
            }
            s
        },
        InstrType::MRS => {
            let mut s = "mrs".to_owned();
            let c = get_condition_str(i.get_condition());
            s.append(c.as_str());
            s.append(" ");
            s.append(register_name(i.get_rd().unwrap()));
            s.append(", ");
            let which = get_cpsr_spsr_str(i.get_gpregister().unwrap());
            s.append(which.as_str());
            proof {
                assert(s@ =~= spec_instruction_text(*i));
            }
            s
        },
        InstrType::MSRImm => {
            let mut s = "msr".to_owned();
            let c = get_condition_str(i.get_condition());
            s.append(c.as_str());
            s.append(" ");
            let which = get_cpsr_spsr_str(i.get_gpregister().unwrap());
            s.append(which.as_str());
            s.append("_");
            let f = get_fields_str(i.get_field_mask().unwrap());
            s.append(f.as_str());
            s.append(" #");
            let d = dec_string(i.get_imm().unwrap() as Word);
            s.append(d.as_str());
            proof {
                assert(s@ =~= spec_instruction_text(*i));
            }
            s
        },
        InstrType::MSRReg => {
            let mut s = "msr".to_owned();
            let c = get_condition_str(i.get_condition());
            s.append(c.as_str());
            s.append(" ");
            let which = get_cpsr_spsr_str(i.get_gpregister().unwrap());
            s.append(which.as_str());
            s.append("_");
            let f = get_fields_str(i.get_field_mask().unwrap());
            s.append(f.as_str());
            s.append(", ");
            s.append(register_name(i.get_rm().unwrap()));
            proof {
                assert(s@ =~= spec_instruction_text(*i));
            }
            s
        },
    }
}

} // verus!
