use armemu::cpu::{deliver_line, CPU, CPUThreadWatcher};
use armemu::cpu_enum::{Condition, DataOpcode, InstrExecuteCondition, InstrType, Mode};
use armemu::execute::execute;
use armemu::loader::{init_machine, load_segment};
use armemu::memory::{Endianness, Registers, RAM};
use armemu::payload::chunk_memory;
use armemu::cpu_enum::{LDMCode, ShiftType};
use armemu::disassemble::{dec_string, get_imm_sign_str, get_rm_sign_str, get_shift_str,
    get_condition_str, get_ldm_code_str, get_fields_str, get_cpsr_spsr_str, get_s_bit_str,
    get_ldr_str_str, get_ldm_stm_str, get_writeback_str, get_byte_word_str, get_l_bit_str};
use armemu::memory::Register;

#[test]
fn mov_immediate_sets_register_and_keeps_flags() {
    // Raw word 0xE3A02030: data-processing immediate, MOV r2, #48,
    // S clear, condition AL.
    let cpu = CPU::default();
    let instr = cpu.decode(0xE3A02030);
    assert_eq!(instr.get_type(), InstrType::DataImm);
    assert_eq!(instr.get_data_opcode().unwrap(), DataOpcode::MOV);
    assert!(!instr.get_s_bit().unwrap());
    assert_eq!(instr.get_rd().unwrap(), armemu::memory::Register::r2);
    assert_eq!(instr.get_imm().unwrap(), 48);
    assert_eq!(instr.get_condition(), Condition::AL);

    let mut ram = RAM::default();
    let mut regs = Registers::default();
    let r = execute(&mut ram, &mut regs, &instr).unwrap();
    assert_eq!(r, InstrExecuteCondition::NOP);
    assert_eq!(regs.get_register(2), 48);
    assert!(!regs.get_n_flag());
    assert!(!regs.get_z_flag());
    assert!(!regs.get_c_flag());
    assert!(!regs.get_v_flag());
}

#[test]
fn branch_with_link_from_a_known_address() {
    // Raw word 0xEB000006: branch with link, stored offset 32 after
    // scaling. From instruction address A the link register receives A+4
    // and the raw program counter lands at A+32+8.
    let mut cpu = CPU::default();
    let mut ram = RAM::default();
    let mut regs = Registers::default();
    let a: u32 = 0x100;
    ram.write_word(a, 0xEB000006);
    regs.set_pc(a + 8);
    let res = cpu.step(&mut ram, &mut regs, false, '\0').unwrap();
    assert_eq!(res.outcome, InstrExecuteCondition::NOP);
    assert_eq!(regs.get_register(14), a + 4);
    assert_eq!(regs.get_pc(), a + 32 + 8);
}

#[test]
fn software_interrupt_halt_keeps_instruction_in_view() {
    // SWI number 0x11 halts; the driver backs the program counter up so
    // the halting instruction's address stays current.
    let mut cpu = CPU::default();
    let mut ram = RAM::default();
    let mut regs = Registers::default();
    let a: u32 = 0x100;
    ram.write_word(a, 0xEF000011);
    regs.set_pc(a + 8);
    let res = cpu.step(&mut ram, &mut regs, false, '\0').unwrap();
    assert_eq!(res.outcome, InstrExecuteCondition::HLT);
    assert_eq!(regs.get_pc_current_address(), a);
}

#[test]
fn condition_gating_with_zero_flag() {
    // With Z set, an EQ move executes and an NE move is skipped.
    let cpu = CPU::default();
    let mut ram = RAM::default();
    let mut regs = Registers::default();
    regs.set_z_flag(true);
    let eq_mov = cpu.decode(0x03A02030);
    assert_eq!(eq_mov.get_condition(), Condition::EQ);
    execute(&mut ram, &mut regs, &eq_mov).unwrap();
    assert_eq!(regs.get_register(2), 48);

    let ne_mov = cpu.decode(0x13A05030);
    assert_eq!(ne_mov.get_condition(), Condition::NE);
    execute(&mut ram, &mut regs, &ne_mov).unwrap();
    assert_eq!(regs.get_register(5), 0);
}

#[test]
fn word_round_trip_and_byte_order_differ_by_endianness() {
    let mut little = RAM::new(64, Endianness::Little);
    let mut big = RAM::new(64, Endianness::Big);
    little.write_word(8, 0x0A0B0C0D);
    big.write_word(8, 0x0A0B0C0D);
    assert_eq!(little.read_word(8), 0x0A0B0C0D);
    assert_eq!(big.read_word(8), 0x0A0B0C0D);
    assert_eq!(little.memory_array[8], 0x0D);
    assert_eq!(big.memory_array[8], 0x0A);
    assert_ne!(little.memory_array[8..12], big.memory_array[8..12]);
}

#[test]
fn banked_r13_survives_a_mode_round_trip() {
    let mut regs = Registers::default();
    regs.set_cpsr_mode(Mode::SVC);
    regs.set_register(13, 0xAA);
    regs.set_cpsr_mode(Mode::SYS);
    // The Supervisor write is invisible from System mode.
    assert_eq!(regs.get_register(13), 0);
    regs.set_register(13, 0xBB);
    regs.set_cpsr_mode(Mode::SVC);
    assert_eq!(regs.get_register(13), 0xAA);
    regs.set_cpsr_mode(Mode::SYS);
    assert_eq!(regs.get_register(13), 0xBB);
}

#[test]
fn swi_putchar_enters_supervisor_mode_and_emits() {
    let mut cpu = CPU::default();
    let mut ram = RAM::default();
    let mut regs = Registers::default();
    let a: u32 = 0x100;
    ram.write_word(a, 0xEF000000);
    regs.set_pc(a + 8);
    regs.set_register(0, 65);
    let res = cpu.step(&mut ram, &mut regs, false, '\0').unwrap();
    assert_eq!(res.outcome, InstrExecuteCondition::SWI);
    assert_eq!(res.emit, Some(65));
    assert_eq!(regs.get_cpsr_mode(), Some(Mode::SVC));
    assert!(regs.get_i_flag());
    assert_eq!(regs.get_pc(), 16);
    // The return address and old status word sit in the Supervisor bank.
    assert_eq!(regs.get_register(14), a + 8);
    assert_eq!(regs.get_spsr(), 0);
}

#[test]
fn swi_readline_requests_input_and_delivery_writes_bytes() {
    let mut cpu = CPU::default();
    let mut ram = RAM::default();
    let mut regs = Registers::default();
    let a: u32 = 0x100;
    ram.write_word(a, 0xEF00006A);
    regs.set_pc(a + 8);
    regs.set_register(1, 0x200);
    regs.set_register(2, 10);
    let res = cpu.step(&mut ram, &mut regs, false, '\0').unwrap();
    assert_eq!(res.outcome, InstrExecuteCondition::SWI);
    let req = res.readline.unwrap();
    assert_eq!(req.dest, 0x200);
    assert_eq!(req.max_bytes, 10);

    let input: Vec<u8> = vec![b'h', b'i'];
    deliver_line(&mut ram, req.dest, req.max_bytes, &input);
    assert_eq!(ram.memory_array[0x200], b'h');
    assert_eq!(ram.memory_array[0x201], b'i');
    assert_eq!(ram.memory_array[0x202], 13);
    assert_eq!(ram.memory_array[0x203], 0);
}

#[test]
fn display_store_is_intercepted() {
    // A store aimed at the display sentinel hands the value out instead of
    // writing memory.
    let mut cpu = CPU::default();
    let mut ram = RAM::default();
    let mut regs = Registers::default();
    let a: u32 = 0x100;
    // str r1, [r2]
    ram.write_word(a, 0xE5821000);
    regs.set_pc(a + 8);
    regs.set_register(1, 0x21);
    regs.set_register(2, armemu::memory::DISPLAY_ADDR);
    let res = cpu.step(&mut ram, &mut regs, false, '\0').unwrap();
    assert_eq!(res.emit, Some(0x21));
}

#[test]
fn keyboard_load_yields_injected_character() {
    let mut cpu = CPU::default();
    let mut ram = RAM::default();
    let mut regs = Registers::default();
    let a: u32 = 0x100;
    // ldr r0, [r2]
    ram.write_word(a, 0xE5920000);
    regs.set_pc(a + 8);
    regs.set_register(2, armemu::memory::KEYBOARD_ADDR);
    cpu.step(&mut ram, &mut regs, false, 'A').unwrap();
    assert_eq!(regs.get_register(0), 65);
}

#[test]
fn irq_entry_at_instruction_boundary() {
    let mut cpu = CPU::default();
    let mut ram = RAM::default();
    let mut regs = Registers::default();
    let a: u32 = 0x100;
    ram.write_word(a, 0xE3A02030);
    regs.set_pc(a + 8);
    let res = cpu.step(&mut ram, &mut regs, true, 'q').unwrap();
    assert!(res.irq_taken);
    assert_eq!(regs.get_cpsr_mode(), Some(Mode::IRQ));
    assert!(regs.get_i_flag());
    assert_eq!(regs.get_pc(), 32);
}

#[test]
fn masked_irq_is_not_taken() {
    let mut cpu = CPU::default();
    let mut ram = RAM::default();
    let mut regs = Registers::default();
    let a: u32 = 0x100;
    ram.write_word(a, 0xE3A02030);
    regs.set_pc(a + 8);
    regs.set_i_flag(true);
    let res = cpu.step(&mut ram, &mut regs, true, 'q').unwrap();
    assert!(!res.irq_taken);
    assert_eq!(regs.get_cpsr_mode(), None);
}

#[test]
fn breakpoint_halts_before_executing() {
    let mut cpu = CPU::default();
    let mut ram = RAM::default();
    let mut regs = Registers::default();
    let a: u32 = 0x100;
    ram.write_word(a, 0xE3A02030);
    regs.set_pc(a + 8);
    cpu.add_breakpoint(a);
    let res = cpu.step(&mut ram, &mut regs, false, '\0').unwrap();
    assert_eq!(res.outcome, InstrExecuteCondition::HLT);
    assert_eq!(regs.get_register(2), 0);
    assert_eq!(regs.get_pc(), a + 8);
}

#[test]
fn zero_word_halts() {
    let mut cpu = CPU::default();
    let mut ram = RAM::default();
    let mut regs = Registers::default();
    regs.set_pc(0x108);
    let res = cpu.step(&mut ram, &mut regs, false, '\0').unwrap();
    assert_eq!(res.outcome, InstrExecuteCondition::HLT);
    assert_eq!(regs.get_pc(), 0x10C);
}

#[test]
fn multiply_truncates_to_32_bits() {
    let cpu = CPU::default();
    let mut ram = RAM::default();
    let mut regs = Registers::default();
    // mul r1, r2, r3
    let instr = cpu.decode(0xE0010392);
    assert_eq!(instr.get_type(), InstrType::MUL);
    regs.set_register(2, 6);
    regs.set_register(3, 7);
    execute(&mut ram, &mut regs, &instr).unwrap();
    assert_eq!(regs.get_register(1), 42);

    regs.set_register(2, 0x80000000);
    regs.set_register(3, 4);
    execute(&mut ram, &mut regs, &instr).unwrap();
    assert_eq!(regs.get_register(1), 0);
}

#[test]
fn compare_sets_flags() {
    let cpu = CPU::default();
    let mut ram = RAM::default();
    let mut regs = Registers::default();
    // cmp r2, r3
    let instr = cpu.decode(0xE1520003);
    assert_eq!(instr.get_data_opcode().unwrap(), DataOpcode::CMP);
    regs.set_register(2, 5);
    regs.set_register(3, 5);
    execute(&mut ram, &mut regs, &instr).unwrap();
    assert!(regs.get_z_flag());
    assert!(regs.get_c_flag());
    assert!(!regs.get_n_flag());
    assert!(!regs.get_v_flag());

    regs.set_register(3, 6);
    execute(&mut ram, &mut regs, &instr).unwrap();
    assert!(!regs.get_z_flag());
    assert!(!regs.get_c_flag());
    assert!(regs.get_n_flag());
}

#[test]
fn block_transfer_round_trip() {
    let cpu = CPU::default();
    let mut ram = RAM::default();
    let mut regs = Registers::default();
    regs.set_register(13, 0x200);
    regs.set_register(1, 11);
    regs.set_register(2, 22);
    regs.set_register(4, 44);
    // stmdb r13!, {r1, r2, r4}
    let push = cpu.decode(0xE92D0016);
    execute(&mut ram, &mut regs, &push).unwrap();
    assert_eq!(regs.get_register(13), 0x200 - 12);
    assert_eq!(ram.read_word(0x1F4), 11);
    assert_eq!(ram.read_word(0x1F8), 22);
    assert_eq!(ram.read_word(0x1FC), 44);

    regs.set_register(1, 0);
    regs.set_register(2, 0);
    regs.set_register(4, 0);
    // ldmia r13!, {r1, r2, r4}
    let pop = cpu.decode(0xE8BD0016);
    execute(&mut ram, &mut regs, &pop).unwrap();
    assert_eq!(regs.get_register(1), 11);
    assert_eq!(regs.get_register(2), 22);
    assert_eq!(regs.get_register(4), 44);
    assert_eq!(regs.get_register(13), 0x200);
}

#[test]
fn out_of_bounds_store_faults() {
    let cpu = CPU::default();
    let mut ram = RAM::default();
    let mut regs = Registers::default();
    // str r1, [r2] with the base far outside memory
    let instr = cpu.decode(0xE5821000);
    regs.set_register(2, 0x80000000);
    assert!(execute(&mut ram, &mut regs, &instr).is_err());
}

#[test]
fn loader_fills_segment_and_initializes_machine() {
    let mut ram = RAM::default();
    let mut regs = Registers::default();
    let data: Vec<u8> = vec![1, 2, 3];
    load_segment(&mut ram, 0x40, 6, &data);
    assert_eq!(ram.memory_array[0x40], 1);
    assert_eq!(ram.memory_array[0x41], 2);
    assert_eq!(ram.memory_array[0x42], 3);
    assert_eq!(ram.memory_array[0x43], 0);
    assert_eq!(ram.memory_array[0x45], 0);

    init_machine(&mut regs, 0x100);
    assert_eq!(regs.get_pc(), 0x108);
    assert_eq!(regs.get_cpsr_mode(), Some(Mode::SYS));
    assert_eq!(regs.get_register(13), 0x7000);
    assert!(!regs.get_n_flag());
    assert!(!regs.get_z_flag());
    assert!(!regs.get_c_flag());
    assert!(!regs.get_v_flag());
}

#[test]
fn chunked_memory_rows() {
    let input: Vec<u8> = (0..40).collect();
    let rows = chunk_memory(input.clone(), 0);
    assert_eq!(rows.len(), 3);
    assert_eq!(rows[0].len(), 16);
    assert_eq!(rows[1].len(), 16);
    assert_eq!(rows[2].len(), 8);
    let flat: Vec<u8> = rows.concat();
    assert_eq!(flat, input);

    let rows = chunk_memory(input.clone(), 5);
    assert_eq!(rows.len(), 4);
    assert_eq!(rows[0].len(), 5);
    assert_eq!(rows[1].len(), 16);
    assert_eq!(rows[2].len(), 16);
    assert_eq!(rows[3].len(), 3);
    let flat: Vec<u8> = rows.concat();
    assert_eq!(flat, input);

    let short: Vec<u8> = (0..10).collect();
    let rows = chunk_memory(short, 4);
    assert_eq!(rows.len(), 1);
    assert_eq!(rows[0], vec![0, 1, 2, 3]);
}

#[test]
fn watcher_flags_round_trip() {
    let mut w = CPUThreadWatcher::default();
    assert!(!w.is_running());
    w.set_running(true);
    assert!(w.is_running());
    w.set_prompt_input(String::from("line"));
    assert!(w.get_prompt_flag());
    assert_eq!(w.get_prompt_input(), "line");
    w.clear_prompt_flag();
    assert!(!w.get_prompt_flag());
    w.set_irq_flag();
    w.set_irq_last_char('x');
    assert!(w.get_irq_flag());
    assert_eq!(w.get_irq_last_char(), 'x');
    w.clear_irq_flag();
    assert!(!w.get_irq_flag());
}

#[test]
fn trace_record_of_an_executed_step() {
    let mut cpu = CPU::default();
    let mut ram = RAM::default();
    let mut regs = Registers::default();
    cpu.toggle_trace();
    let a: u32 = 0x100;
    ram.write_word(a, 0xE3A02030);
    regs.set_pc(a + 8);
    let res = cpu.step(&mut ram, &mut regs, false, '\0').unwrap();
    let trace = res.trace.unwrap();
    assert_eq!(trace.step, 1);
    assert_eq!(trace.pc, a);
    assert_eq!(trace.registers.len(), 15);
    assert_eq!(trace.registers[2], 48);
    assert_eq!(cpu.trace_step, 2);
}

#[test]
fn disassembly_text_pieces() {
    assert_eq!(dec_string(0), "0");
    assert_eq!(dec_string(48), "48");
    assert_eq!(dec_string(4294967295), "4294967295");
    assert_eq!(get_imm_sign_str(8, true), "#8");
    assert_eq!(get_imm_sign_str(8, false), "#-8");
    assert_eq!(get_rm_sign_str(Register::r4, false), "-r4");
    let _ = LDMCode::IncAfter;
    assert_eq!(get_shift_str(ShiftType::LSL, 3), "lsl #3");
    assert_eq!(get_condition_str(Condition::EQ), "eq");
    assert_eq!(get_condition_str(Condition::AL), "");
    assert_eq!(get_ldm_code_str(LDMCode::IncAfter), "ia");
    assert_eq!(get_fields_str(0b1011), "fxc");
    assert_eq!(get_cpsr_spsr_str(true), "SPSR");
    assert_eq!(get_s_bit_str(true), "s");
    assert_eq!(get_ldr_str_str(false), "str");
    assert_eq!(get_ldm_stm_str(true), "ldm");
    assert_eq!(get_writeback_str(true), "!");
    assert_eq!(get_byte_word_str(true), "b");
    assert_eq!(get_l_bit_str(false), "");
}

#[test]
fn status_register_transfers() {
    let cpu = CPU::default();
    let mut ram = RAM::default();
    let mut regs = Registers::default();
    regs.set_cpsr_mode(Mode::SVC);
    // mrs r3, CPSR
    let mrs = cpu.decode(0xE10F3000);
    assert_eq!(mrs.get_type(), InstrType::MRS);
    execute(&mut ram, &mut regs, &mrs).unwrap();
    assert_eq!(regs.get_register(3), regs.get_cpsr());

    // msr CPSR_f, r4 with the negative flag bit in r4
    regs.set_register(4, 0x80000000);
    let msr = cpu.decode(0xE128F004);
    assert_eq!(msr.get_type(), InstrType::MSRReg);
    execute(&mut ram, &mut regs, &msr).unwrap();
    assert!(regs.get_n_flag());
}

#[test]
fn shifted_register_load() {
    let cpu = CPU::default();
    let mut ram = RAM::default();
    let mut regs = Registers::default();
    // ldr r9, [r2, r4, asr #1]
    let instr = cpu.decode(0xE79290C4);
    ram.write_word(0x104, 0xDEADBEEF);
    regs.set_register(2, 0x100);
    regs.set_register(4, 8);
    let mut instr = instr;
    instr.set_last_char('\0');
    execute(&mut ram, &mut regs, &instr).unwrap();
    assert_eq!(regs.get_register(9), 0xDEADBEEF);
}

#[test]
fn half_word_store_load_and_signed_byte() {
    let cpu = CPU::default();
    let mut ram = RAM::default();
    let mut regs = Registers::default();
    regs.set_register(1, 0x1234ABCD);
    regs.set_register(2, 0x300);
    // strh r1, [r2]
    let strh = cpu.decode(0xE1C210B0);
    execute(&mut ram, &mut regs, &strh).unwrap();
    assert_eq!(ram.read_half_word(0x300), 0xABCD);

    regs.set_register(1, 0);
    // ldrh r1, [r2]
    let mut ldrh = cpu.decode(0xE1D210B0);
    ldrh.set_last_char('\0');
    execute(&mut ram, &mut regs, &ldrh).unwrap();
    assert_eq!(regs.get_register(1), 0xABCD);

    // ldrsb r1, [r2]: the byte 0xAB comes back sign extended.
    let mut ldrsb = cpu.decode(0xE1D210D0);
    ldrsb.set_last_char('\0');
    execute(&mut ram, &mut regs, &ldrsb).unwrap();
    assert_eq!(regs.get_register(1), 0xFFFFFFAB);
}

#[test]
fn branch_exchange_clears_low_bit() {
    let cpu = CPU::default();
    let mut ram = RAM::default();
    let mut regs = Registers::default();
    // bx r3
    let instr = cpu.decode(0xE12FFF13);
    regs.set_register(3, 0x200);
    execute(&mut ram, &mut regs, &instr).unwrap();
    assert_eq!(regs.get_pc(), 0x204);
    assert!(!regs.get_t_flag());
}

#[test]
fn register_shifted_add() {
    let cpu = CPU::default();
    let mut ram = RAM::default();
    let mut regs = Registers::default();
    // add r1, r2, r3, lsl r4
    let instr = cpu.decode(0xE0821413);
    regs.set_register(2, 10);
    regs.set_register(3, 3);
    regs.set_register(4, 2);
    execute(&mut ram, &mut regs, &instr).unwrap();
    assert_eq!(regs.get_register(1), 22);
}

#[test]
fn msr_immediate_sets_condition_flags() {
    let cpu = CPU::default();
    let mut ram = RAM::default();
    let mut regs = Registers::default();
    // msr CPSR_f, with the four condition flags in the rotated immediate
    let instr = cpu.decode(0xE328F20F);
    assert_eq!(instr.get_type(), InstrType::MSRImm);
    execute(&mut ram, &mut regs, &instr).unwrap();
    assert!(regs.get_n_flag());
    assert!(regs.get_z_flag());
    assert!(regs.get_c_flag());
    assert!(regs.get_v_flag());
}
