use armemu::cpu::CPU;
use armemu::cpu_enum::{DataOpcode, InstrType, LDMCode, ShiftType};
use armemu::memory::Register;

#[test]
fn test_decode_mov() {
    let cpu = CPU::default();
    let instr = cpu.decode(0xe3a02030);
    assert_eq!(instr.get_type(), InstrType::DataImm);
    assert_eq!(instr.get_data_opcode().unwrap(), DataOpcode::MOV);
    assert!(!instr.get_s_bit().unwrap());
    assert_eq!(instr.get_rn().unwrap(), Register::r0);
    assert_eq!(instr.get_rd().unwrap(), Register::r2);
    assert_eq!(instr.get_imm().unwrap(), 48);
}

#[test]
fn test_decode_ldr_imm_pre() {
    let cpu = CPU::default();
    let instr = cpu.decode(0xe5925000);
    assert_eq!(instr.get_type(), InstrType::LDRSTRImmPre);
    assert_eq!(instr.get_byte_word().unwrap(), false);
    assert_eq!(instr.get_add_sub().unwrap(), true);
    assert_eq!(instr.get_writeback().unwrap(), false);
    assert_eq!(instr.get_ldr_str().unwrap(), true);
    assert_eq!(instr.get_rd().unwrap(), Register::r5);
    assert_eq!(instr.get_rn().unwrap(), Register::r2);
    assert_eq!(instr.get_imm_shift().unwrap(), 0);
}

#[test]
fn test_decode_str_imm_pre() {
    let cpu = CPU::default();
    let instr = cpu.decode(0xe5021004);
    assert_eq!(instr.get_type(), InstrType::LDRSTRImmPre);
    assert_eq!(instr.get_byte_word().unwrap(), false);
    assert_eq!(instr.get_add_sub().unwrap(), false);
    assert_eq!(instr.get_writeback().unwrap(), false);
    assert_eq!(instr.get_ldr_str().unwrap(), false);
    assert_eq!(instr.get_rd().unwrap(), Register::r1);
    assert_eq!(instr.get_rn().unwrap(), Register::r2);
    assert_eq!(instr.get_imm_shift().unwrap(), 4);
}

#[test]
fn test_decode_ldrb_imm_pre() {
    let cpu = CPU::default();
    let instr = cpu.decode(0xe5d2a00a);
    assert_eq!(instr.get_type(), InstrType::LDRSTRImmPre);
    assert_eq!(instr.get_byte_word().unwrap(), true);
    assert_eq!(instr.get_add_sub().unwrap(), true);
    assert_eq!(instr.get_writeback().unwrap(), false);
    assert_eq!(instr.get_ldr_str().unwrap(), true);
    assert_eq!(instr.get_rd().unwrap(), Register::r10);
    assert_eq!(instr.get_rn().unwrap(), Register::r2);
    assert_eq!(instr.get_imm_shift().unwrap(), 10);
}

#[test]
fn test_decode_strb_imm_pre() {
    let cpu = CPU::default();
    let instr = cpu.decode(0xe5c2100a);
    assert_eq!(instr.get_type(), InstrType::LDRSTRImmPre);
    assert_eq!(instr.get_byte_word().unwrap(), true);
    assert_eq!(instr.get_add_sub().unwrap(), true);
    assert_eq!(instr.get_writeback().unwrap(), false);
    assert_eq!(instr.get_ldr_str().unwrap(), false);
    assert_eq!(instr.get_rd().unwrap(), Register::r1);
    assert_eq!(instr.get_rn().unwrap(), Register::r2);
    assert_eq!(instr.get_imm_shift().unwrap(), 10);
}

#[test]
fn test_decode_ldr_shift_reg_pre() {
    let cpu = CPU::default();
    let instr = cpu.decode(0xe79290c4);
    assert_eq!(instr.get_type(), InstrType::LDRSTRShiftRegPre);
    assert_eq!(instr.get_byte_word().unwrap(), false);
    assert_eq!(instr.get_add_sub().unwrap(), true);
    assert_eq!(instr.get_writeback().unwrap(), false);
    assert_eq!(instr.get_ldr_str().unwrap(), true);
    assert_eq!(instr.get_rd().unwrap(), Register::r9);
    assert_eq!(instr.get_rn().unwrap(), Register::r2);
    assert_eq!(instr.get_rm().unwrap(), Register::r4);
    assert_eq!(instr.get_shift_type().unwrap(), ShiftType::ASR);
    assert_eq!(instr.get_imm_shift().unwrap(), 1);
}

#[test]
fn test_decode_str_shift_reg_pre() {
    let cpu = CPU::default();
    let instr = cpu.decode(0xe78210c4);
    assert_eq!(instr.get_type(), InstrType::LDRSTRShiftRegPre);
    assert_eq!(instr.get_byte_word().unwrap(), false);
    assert_eq!(instr.get_add_sub().unwrap(), true);
    assert_eq!(instr.get_writeback().unwrap(), false);
    assert_eq!(instr.get_ldr_str().unwrap(), false);
    assert_eq!(instr.get_rd().unwrap(), Register::r1);
    assert_eq!(instr.get_rn().unwrap(), Register::r2);
    assert_eq!(instr.get_rm().unwrap(), Register::r4);
    assert_eq!(instr.get_shift_type().unwrap(), ShiftType::ASR);
    assert_eq!(instr.get_imm_shift().unwrap(), 1);
}

#[test]
fn test_decode_ldm() {
    let cpu = CPU::default();
    let instr = cpu.decode(0xe8bd000a);
    assert_eq!(instr.get_type(), InstrType::LDMSTM);
    assert_eq!(instr.get_ldm().unwrap(), LDMCode::IncAfter);
    assert_eq!(instr.get_s_bit().unwrap(), false);
    assert_eq!(instr.get_writeback().unwrap(), true);
    assert_eq!(instr.get_ldr_str().unwrap(), true);
    assert_eq!(instr.get_rn().unwrap(), Register::r13);
    assert_eq!(instr.get_reg_list().unwrap(), 0b1010);
}

#[test]
fn test_decode_stm() {
    let cpu = CPU::default();
    let instr = cpu.decode(0xe92d0016);
    assert_eq!(instr.get_type(), InstrType::LDMSTM);
    assert_eq!(instr.get_ldm().unwrap(), LDMCode::DecBefore);
    assert_eq!(instr.get_s_bit().unwrap(), false);
    assert_eq!(instr.get_writeback().unwrap(), true);
    assert_eq!(instr.get_ldr_str().unwrap(), false);
    assert_eq!(instr.get_rn().unwrap(), Register::r13);
    assert_eq!(instr.get_reg_list().unwrap(), 0b10110);
}

#[test]
fn test_decode_mul() {
    let cpu = CPU::default();
    let instr = cpu.decode(0xe92d0016);
    assert_eq!(instr.get_type(), InstrType::LDMSTM);
    assert_eq!(instr.get_ldm().unwrap(), LDMCode::DecBefore);
    assert_eq!(instr.get_s_bit().unwrap(), false);
    assert_eq!(instr.get_writeback().unwrap(), true);
    assert_eq!(instr.get_ldr_str().unwrap(), false);
    assert_eq!(instr.get_rn().unwrap(), Register::r13);
    assert_eq!(instr.get_reg_list().unwrap(), 0b10110);
}

#[test]
fn test_decode_branch() {
    let cpu = CPU::default();
    let instr = cpu.decode(0xeb000006);
    assert_eq!(instr.get_type(), InstrType::B);
    assert_eq!(instr.get_l_bit().unwrap(), true);
    assert_eq!(instr.get_offset().unwrap(), 32);
}

#[test]
fn test_decode_swi() {
    let cpu = CPU::default();
    let instr = cpu.decode(0xef000011);
    assert_eq!(instr.get_type(), InstrType::SWI);
    assert_eq!(instr.get_swi().unwrap(), 17);
}

#[test]
fn test_add_breakpoint() {
    let mut cpu = CPU::default();
    cpu.add_breakpoint(1);
    assert_eq!(1, cpu.breakpoints[0])
}

#[test]
fn test_is_breakpoint() {
    let mut cpu = CPU::default();
    cpu.breakpoints.push(1);
    assert_eq!(true, cpu.is_breakpoint(&1))
}

#[test]
fn test_remove_breakpoint() {
    let mut cpu = CPU::default();
    cpu.breakpoints.push(1);
    cpu.breakpoints.push(2);
    cpu.breakpoints.push(3);
    cpu.remove_breakpoint(2);
    assert_eq!(false, cpu.is_breakpoint(&2))
}
