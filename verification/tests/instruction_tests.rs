use armemu::cpu::CPU;
use armemu::cpu_enum::ShiftType;
use armemu::disassemble::instruction_text;
use armemu::instruction::Instruction;

#[test]
fn test_shift_value() {
    // A zero amount under LSL passes the value through with the incoming
    // carry as carry-out.
    assert_eq!(Instruction::shift_value_by_imm(0x1234, 0, ShiftType::LSL, 1), (0x1234, 1));
    assert_eq!(Instruction::shift_value_by_imm(0x1234, 0, ShiftType::LSL, 0), (0x1234, 0));
    // Ordinary shifts.
    assert_eq!(Instruction::shift_value_by_imm(0x1, 4, ShiftType::LSL, 0), (0x10, 0));
    assert_eq!(Instruction::shift_value_by_imm(0x80000000, 1, ShiftType::LSL, 0), (0, 1));
    assert_eq!(Instruction::shift_value_by_imm(0xF0, 4, ShiftType::LSR, 0), (0xF, 0));
    assert_eq!(Instruction::shift_value_by_imm(0x80000000, 1, ShiftType::ASR, 0),
        (0xC0000000, 0));
    assert_eq!(Instruction::shift_value_by_imm(0xFF, 8, ShiftType::ROR, 0), (0xFF000000, 1));
    // Architectural zero-amount special cases: LSR/ASR act as their by-32
    // forms, ROR becomes the carry-in rotate.
    assert_eq!(Instruction::shift_value_by_imm(0x80000001, 0, ShiftType::LSR, 0), (0, 1));
    assert_eq!(Instruction::shift_value_by_imm(0x80000000, 0, ShiftType::ASR, 0),
        (0xFFFFFFFF, 1));
    assert_eq!(Instruction::shift_value_by_imm(0x7FFFFFFF, 0, ShiftType::ASR, 0), (0, 0));
    assert_eq!(Instruction::shift_value_by_imm(0x3, 0, ShiftType::ROR, 1), (0x80000001, 1));
    // Shift by register: the low byte selects the amount, 32 and larger
    // have their own cases.
    assert_eq!(Instruction::shift_value_by_reg(0x1234, 0, ShiftType::LSL, 1), (0x1234, 1));
    assert_eq!(Instruction::shift_value_by_reg(1, 32, ShiftType::LSL, 0), (0, 1));
    assert_eq!(Instruction::shift_value_by_reg(1, 33, ShiftType::LSL, 0), (0, 0));
    assert_eq!(Instruction::shift_value_by_reg(0x80000000, 32, ShiftType::LSR, 0), (0, 1));
    assert_eq!(Instruction::shift_value_by_reg(0x80000000, 40, ShiftType::ASR, 0),
        (0xFFFFFFFF, 1));
}

#[test]
fn test_rotate_value() {
    // A zero rotate keeps the incoming carry.
    assert_eq!(Instruction::rotate_value(0, 48, 0), (48, 0));
    assert_eq!(Instruction::rotate_value(0, 48, 1), (48, 1));
    // The rotate amount is twice the four-bit field.
    assert_eq!(Instruction::rotate_value(1, 1, 0), (0x40000000, 0));
    assert_eq!(Instruction::rotate_value(1, 4, 0), (1, 0));
    assert_eq!(Instruction::rotate_value(15, 255, 0), (0x3FC, 0));
    assert_eq!(Instruction::rotate_value(8, 0xFF, 0), (0x00FF0000, 0));
}

#[test]
fn test_get_reg_list_str() {
    assert_eq!(armemu::disassemble::get_reg_list_str(0b10110), "r1, r2, r4");
}

#[test]
fn test_disassemble_instr_data_imm() {
    let instr = armemu::instruction::instr_data_imm(0b1110, 0b1101, 0b0, 0b0000, 0b0010,
        0b0000, 0b110000);
    assert_eq!("mov r2, #48", armemu::disassemble::instruction_text(&instr));
}

#[test]
fn instruction_text_of_common_shapes() {
    let cpu = CPU::default();
    assert_eq!(instruction_text(&cpu.decode(0xE1A00000)), "nop");
    assert_eq!(instruction_text(&cpu.decode(0xE5925000)), "ldr r5, [r2, #0]");
    assert_eq!(instruction_text(&cpu.decode(0xE5021004)), "str r1, [r2, #-4]");
    assert_eq!(instruction_text(&cpu.decode(0xE79290C4)), "ldr r9, [r2, r4, asr #1]");
    assert_eq!(instruction_text(&cpu.decode(0xE8BD000A)), "pop {r1, r3}");
    assert_eq!(instruction_text(&cpu.decode(0xE92D0016)), "push {r1, r2, r4}");
    assert_eq!(instruction_text(&cpu.decode(0xE0010392)), "mul r1, r2, r3");
    assert_eq!(instruction_text(&cpu.decode(0xEF000011)), "swi 17");
    assert_eq!(instruction_text(&cpu.decode(0xE12FFF13)), "bx r3");
    assert_eq!(instruction_text(&cpu.decode(0xE10F3000)), "mrs r3, CPSR");
    assert_eq!(instruction_text(&cpu.decode(0xE128F004)), "msr CPSR_f, r4");
    assert_eq!(instruction_text(&cpu.decode(0xE1C210B0)), "strh r1, [r2, #0]");
    // The branch text shows the instruction's own address plus the stored
    // offset, in hexadecimal.
    let mut b = cpu.decode(0xEB000006);
    b.set_pc_address(0x100);
    assert_eq!(instruction_text(&b), "bl 120");
    // add r1, r2, r3, lsl r4
    assert_eq!(instruction_text(&cpu.decode(0xE0821413)), "add r1, r2, r3, lsl r4");
    // A compare renders like any data instruction of its shape.
    assert_eq!(instruction_text(&cpu.decode(0x01520003)), "cmpeqs r0, r2, r3, lsl #0");
}
