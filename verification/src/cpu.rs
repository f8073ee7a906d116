//! The CPU driver: fetch, decode, condition evaluation, dispatch, program
//! counter bookkeeping, breakpoints, and the exception entry sequences for
//! software interrupts and IRQs. The driver never performs host I/O itself:
//! one step returns the characters to emit, the line-input request to
//! serve, and the trace data to log, and the surrounding shell acts on
//! them.
use vstd::prelude::*;

verus! {

use crate::bits::{Byte, Word, AddressSize, Checksum, wadd, wsub, set_bit32};
use crate::cpu_enum::{Mode, InstrExecuteCondition, InstrType, MODE_BITS_SVC, MODE_BITS_IRQ};
use crate::decode::{decode_word, spec_decode};
use crate::execute::{ExecFault, execute, exec_post, cond_passes, is_mem_shape, instr_wf};
use crate::instruction::Instruction;
use crate::memory::{RAM, Registers, Register, bank_index, read_word_spec, with_mode_bits,
    DISPLAY_ADDR};

/// Shared flags through which the hosting shell talks to a running CPU:
/// the stop signal, completed line input, and the keyboard interrupt line.
pub struct CPUThreadWatcher {
    running: bool,
    prompt_flag: bool,
    prompt_input: String,
    irq_flag: bool,
    irq_last_char: char,
}

impl CPUThreadWatcher {
    pub closed spec fn running_of(&self) -> bool {
        self.running
    }

    pub closed spec fn prompt_flag_of(&self) -> bool {
        self.prompt_flag
    }

    pub closed spec fn prompt_input_of(&self) -> Seq<char> {
        self.prompt_input@
    }

    pub closed spec fn irq_flag_of(&self) -> bool {
        self.irq_flag
    }

    pub closed spec fn irq_last_char_of(&self) -> char {
        self.irq_last_char
    }

    pub fn set_running(&mut self, state: bool)
        ensures
            final(self).running_of() == state,
            final(self).prompt_flag_of() == old(self).prompt_flag_of(),
            final(self).prompt_input_of() == old(self).prompt_input_of(),
            final(self).irq_flag_of() == old(self).irq_flag_of(),
            final(self).irq_last_char_of() == old(self).irq_last_char_of(),
    {
        self.running = state;
    }

    pub fn is_running(&self) -> (r: bool)
        ensures
            r == self.running_of(),
    {
        self.running
    }

    /// Stores a completed input line and raises the completion flag.
    pub fn set_prompt_input(&mut self, value: String)
        ensures
            final(self).prompt_flag_of(),
            final(self).prompt_input_of() == value@,
            final(self).running_of() == old(self).running_of(),
            final(self).irq_flag_of() == old(self).irq_flag_of(),
            final(self).irq_last_char_of() == old(self).irq_last_char_of(),
    {
        self.prompt_flag = true;
        self.prompt_input = value;
    }

    pub fn get_prompt_input(&self) -> (r: String)
        ensures
            r@ == self.prompt_input_of(),
    {
        self.prompt_input.clone()
    }

    pub fn get_prompt_flag(&self) -> (r: bool)
        ensures
            r == self.prompt_flag_of(),
    {
        self.prompt_flag
    }

    pub fn clear_prompt_flag(&mut self)
        ensures
            !final(self).prompt_flag_of(),
            final(self).running_of() == old(self).running_of(),
            final(self).prompt_input_of() == old(self).prompt_input_of(),
            final(self).irq_flag_of() == old(self).irq_flag_of(),
            final(self).irq_last_char_of() == old(self).irq_last_char_of(),
    {
        self.prompt_flag = false;
    }

    pub fn set_irq_flag(&mut self)
        ensures
            final(self).irq_flag_of(),
            final(self).running_of() == old(self).running_of(),
            final(self).prompt_flag_of() == old(self).prompt_flag_of(),
            final(self).prompt_input_of() == old(self).prompt_input_of(),
            final(self).irq_last_char_of() == old(self).irq_last_char_of(),
    {
        self.irq_flag = true;
    }

    pub fn clear_irq_flag(&mut self)
        ensures
            !final(self).irq_flag_of(),
            final(self).running_of() == old(self).running_of(),
            final(self).prompt_flag_of() == old(self).prompt_flag_of(),
            final(self).prompt_input_of() == old(self).prompt_input_of(),
            final(self).irq_last_char_of() == old(self).irq_last_char_of(),
    {
        self.irq_flag = false;
    }

    pub fn get_irq_flag(&self) -> (r: bool)
        ensures
            r == self.irq_flag_of(),
    {
        self.irq_flag
    }

    pub fn set_irq_last_char(&mut self, c: char)
        ensures
            final(self).irq_last_char_of() == c,
            final(self).running_of() == old(self).running_of(),
            final(self).prompt_flag_of() == old(self).prompt_flag_of(),
            final(self).prompt_input_of() == old(self).prompt_input_of(),
            final(self).irq_flag_of() == old(self).irq_flag_of(),
    {
        self.irq_last_char = c;
    }

    pub fn get_irq_last_char(&self) -> (r: char)
        ensures
            r == self.irq_last_char_of(),
    {
        self.irq_last_char
    }
}

impl Default for CPUThreadWatcher {
    fn default() -> (r: Self)
        ensures
            !r.running_of(),
            !r.prompt_flag_of(),
            r.prompt_input_of() == Seq::<char>::empty(),
            !r.irq_flag_of(),
            r.irq_last_char_of() == '\0',
    {
        CPUThreadWatcher {
            running: false,
            prompt_flag: false,
            prompt_input: String::new(),
            irq_flag: false,
            irq_last_char: '\0',
        }
    }
}

/// Data of one trace-log line, handed to the hosting shell to format.
pub struct TraceRecord {
    pub step: Word,
    pub pc: Word,
    pub checksum: Checksum,
    pub n: Byte,
    pub c: Byte,
    pub z: Byte,
    pub v: Byte,
    pub mode_bits: Word,
    pub registers: Vec<Word>,
}

/// A blocking line-input request raised by the line-input service call.
pub struct ReadLineRequest {
    pub dest: AddressSize,
    pub max_bytes: Word,
}

/// Everything one step asks of the hosting shell.
pub struct StepResult {
    pub outcome: InstrExecuteCondition,
    pub emit: Option<Word>,
    pub readline: Option<ReadLineRequest>,
    pub trace: Option<TraceRecord>,
    pub irq_taken: bool,
}

/// Whether an instruction is a store of any addressing shape.
pub fn is_write_instr(instr: Instruction) -> (r: bool)
    ensures
        r == (is_mem_shape(instr.instr_type) && instr.ldr_str is Some && !(instr.ldr_str->0)),
{
    match instr.get_type() {
        InstrType::LDRSTRShiftRegPre | InstrType::LDRSTRShiftRegPost | InstrType::LDRSTRRegPre
            | InstrType::LDRSTRRegPost | InstrType::LDRSTRImmPre | InstrType::LDRSTRImmPost
            | InstrType::LDRHSTRHImmPre | InstrType::LDRHSTRHImmPost
            | InstrType::LDRHSTRHRegPre | InstrType::LDRHSTRHRegPost => {
            match instr.get_ldr_str() {
                Some(b) => !b,
                None => false,
            }
        },
        _ => false,
    }
}

/// The value a step hands to the display hook: the stored register of a
/// store instruction whose base register holds the display sentinel.
pub open spec fn display_emit_of(regs: Registers, instr: Instruction) -> Option<Word> {
    if is_mem_shape(instr.instr_type) && instr.ldr_str is Some && !(instr.ldr_str->0)
        && instr.rn is Some
        && regs.reg_of(crate::memory::spec_register_index(instr.rn->0)) == DISPLAY_ADDR
        && instr.rd is Some {
        Some(regs.reg_of(crate::memory::spec_register_index(instr.rd->0)))
    } else {
        None
    }
}

/// Everything the driver does after the handler ran: `mid_regs` is the
/// register file right after dispatch, `emit0` the display-hook value
/// detected before it. The program counter advances; a halt backs it up so
/// the halting instruction stays in view; a software interrupt performs
/// the Supervisor entry and raises the output or line-input request its
/// number selects; otherwise a pending unmasked IRQ performs the IRQ entry
/// and is reported as taken. The trace record is produced exactly when
/// tracing is on, over the post-dispatch state.
pub open spec fn step_dispatch_post(pre_self: CPU, post_self: CPU, saved_pc: Word,
    instr: Instruction, mid_ram: RAM, mid_regs: Registers, post_regs: Registers, irq: bool,
    emit0: Option<Word>, res: StepResult) -> bool {
    &&& post_self.breakpoints == pre_self.breakpoints
    &&& post_self.trace == pre_self.trace
    &&& post_self.trace_step == wadd(pre_self.trace_step, 1)
    &&& post_regs.wf()
    &&& post_regs.size == mid_regs.size
    &&& post_regs.endianness == mid_regs.endianness
    &&& match res.outcome {
        InstrExecuteCondition::HLT => {
            &&& !res.irq_taken
            &&& res.emit == emit0
            &&& res.readline is None
            &&& forall|j: int| 0 <= j < 23 ==> post_regs.slot(j) == mid_regs.slot(j)
        },
        InstrExecuteCondition::SWI => {
            &&& !res.irq_taken
            &&& post_regs.slot(16) == swi_entry_cpsr(mid_regs.slot(16))
            &&& post_regs.slot(18) == mid_regs.slot(15)
            &&& post_regs.slot(19) == mid_regs.slot(16)
            &&& post_regs.slot(15) == SWI_VECTOR_PC
            &&& forall|j: int| 0 <= j < 23 && j != 15 && j != 16 && j != 18 && j != 19
                ==> post_regs.slot(j) == mid_regs.slot(j)
            &&& (instr.swi is Some && instr.swi->0 == 0 ==> res.emit == Some(
                mid_regs.slot(0)) && res.readline is None)
            &&& (instr.swi is Some && instr.swi->0 == 0x6A ==> res.emit == emit0
                && res.readline == Some(ReadLineRequest {
                    dest: mid_regs.slot(1),
                    max_bytes: mid_regs.slot(2),
                }))
            &&& ((instr.swi is None || (instr.swi->0 != 0 && instr.swi->0 != 0x6A))
                ==> res.emit == emit0 && res.readline is None)
        },
        InstrExecuteCondition::NOP => {
            &&& res.emit == emit0
            &&& res.readline is None
            &&& if res.irq_taken {
                &&& irq
                &&& crate::bits::bit_get(mid_regs.slot(16), 7) == 0
                &&& post_regs.slot(16) == irq_entry_cpsr(mid_regs.slot(16))
                &&& post_regs.slot(21) == mid_regs.slot(15)
                &&& post_regs.slot(22) == mid_regs.slot(16)
                &&& post_regs.slot(15) == IRQ_VECTOR_PC
                &&& forall|j: int| 0 <= j < 23 && j != 15 && j != 16 && j != 21 && j != 22
                    ==> post_regs.slot(j) == mid_regs.slot(j)
            } else {
                &&& !irq || crate::bits::bit_get(mid_regs.slot(16), 7) == 1
                &&& post_regs.slot(15) == wadd(mid_regs.slot(15), 4)
                &&& forall|j: int| 0 <= j < 23 && j != 15
                    ==> post_regs.slot(j) == mid_regs.slot(j)
            }
        },
    }
    &&& (res.trace is Some <==> pre_self.trace)
    &&& (res.trace matches Some(t) ==> {
        &&& t.step == pre_self.trace_step
        &&& t.pc == saved_pc
        &&& t.checksum == mid_ram.checksum
        &&& t.mode_bits == mid_regs.mode_bits_of()
        &&& t.n == (if mid_regs.n_of() { 1 as Byte } else { 0 as Byte })
        &&& t.c == (if mid_regs.c_of() { 1 as Byte } else { 0 as Byte })
        &&& t.z == (if mid_regs.z_of() { 1 as Byte } else { 0 as Byte })
        &&& t.v == (if mid_regs.v_of() { 1 as Byte } else { 0 as Byte })
        &&& t.registers@.len() == 15
        &&& forall|k: int| 0 <= k < 15 ==> t.registers@[k] == mid_regs.reg_of(k)
    })
}

/// The SWI vector address the driver jumps to, pipeline offset included.
pub const SWI_VECTOR_PC: Word = 16;

/// The IRQ vector address the driver jumps to, pipeline offset included.
pub const IRQ_VECTOR_PC: Word = 32;

/// The CPSR after an exception entry into the given mode: the mode bits
/// rewritten, the instruction-state bit cleared only on a software
/// interrupt, interrupts disabled, and on IRQ entry imprecise aborts
/// disabled.
pub open spec fn swi_entry_cpsr(cpsr: Word) -> Word {
    set_bit32(set_bit32(with_mode_bits(cpsr, MODE_BITS_SVC), 5, false), 7, true)
}

pub open spec fn irq_entry_cpsr(cpsr: Word) -> Word {
    set_bit32(set_bit32(with_mode_bits(cpsr, MODE_BITS_IRQ), 7, true), 8, true)
}

/// The CPU driver state: breakpoints and trace bookkeeping. Machine state
/// lives in the register file and RAM, which every operation takes
/// explicitly.
pub struct CPU {
    pub breakpoints: Vec<AddressSize>,
    pub trace: bool,
    pub trace_step: Word,
}

impl CPU {
    pub fn new() -> (r: Self)
        ensures
            r.breakpoints@ == Seq::<AddressSize>::empty(),
            !r.trace,
            r.trace_step == 1,
    {
        CPU { breakpoints: Vec::new(), trace: false, trace_step: 1 }
    }

    pub fn get_trace(&self) -> (r: bool)
        ensures
            r == self.trace,
    {
        self.trace
    }

    pub fn toggle_trace(&mut self) -> (r: bool)
        ensures
            final(self).trace == !old(self).trace,
            r == final(self).trace,
            final(self).breakpoints == old(self).breakpoints,
            final(self).trace_step == old(self).trace_step,
    {
        self.trace = !self.trace;
        self.trace
    }

    pub fn reset_trace_step(&mut self)
        ensures
            final(self).trace_step == 1,
            final(self).breakpoints == old(self).breakpoints,
            final(self).trace == old(self).trace,
    {
        self.trace_step = 1;
    }

    pub fn add_breakpoint(&mut self, address: AddressSize)
        ensures
            final(self).breakpoints@ == old(self).breakpoints@.push(address),
            final(self).trace == old(self).trace,
            final(self).trace_step == old(self).trace_step,
    {
        self.breakpoints.push(address);
    }

    /// Removes the first occurrence of the address; the address must be
    /// among the breakpoints.
    pub fn remove_breakpoint(&mut self, address: AddressSize)
        requires
            old(self).breakpoints@.contains(address),
        ensures
            final(self).trace == old(self).trace,
            final(self).trace_step == old(self).trace_step,
            exists|i: int| 0 <= i < old(self).breakpoints@.len()
                && old(self).breakpoints@[i] == address
                && (forall|k: int| 0 <= k < i ==> old(self).breakpoints@[k] != address)
                && final(self).breakpoints@ == old(self).breakpoints@.remove(i),
    {
        let n = self.breakpoints.len();
        let mut i: usize = 0;
        while i < n
            invariant
                n == self.breakpoints@.len(),
                i <= n,
                *self == (CPU { breakpoints: old(self).breakpoints, ..*old(self) }),
                self.breakpoints@.contains(address),
                forall|k: int| 0 <= k < i ==> self.breakpoints@[k] != address,
            decreases n - i,
        {
            if self.breakpoints[i] == address {
                self.breakpoints.remove(i);
                return;
            }
            i = i + 1;
        }
        proof {
            let w = choose|j: int| 0 <= j < self.breakpoints@.len()
                && self.breakpoints@[j] == address;
            assert(self.breakpoints@[w] != address);
        }
    }

    pub fn is_breakpoint(&self, address: &AddressSize) -> (r: bool)
        ensures
            r == self.breakpoints@.contains(*address),
    {
        let n = self.breakpoints.len();
        let mut i: usize = 0;
        while i < n
            invariant
                n == self.breakpoints@.len(),
                i <= n,
                forall|k: int| 0 <= k < i ==> self.breakpoints@[k] != *address,
            decreases n - i,
        {
            if self.breakpoints[i] == *address {
                return true;
            }
            i = i + 1;
        }
        false
    }

    /// The raw word at the address the program counter points at.
    pub fn fetch(&self, ram: &RAM, regs: &Registers) -> (r: Result<Word, ExecFault>)
        requires
            ram.wf(),
            regs.wf(),
        ensures
            r is Ok <==> wsub(regs.slot(15), 8) + 4 <= ram.size,
            r is Ok ==> r->Ok_0 == read_word_spec(ram.memory_array@, ram.endianness,
                wsub(regs.slot(15), 8) as int),
    {
        let addr = regs.get_pc_current_address();
        if !ram.word_access_ok(addr) {
            return Err(ExecFault::MemOutOfBounds);
        }
        Ok(ram.read_word(addr))
    }

    /// Pure decoding, exposed for disassembly previews.
    pub fn decode(&self, instr: Word) -> (r: Instruction)
        ensures
            r == spec_decode(instr),
    {
        decode_word(instr)
    }

    /// Condition evaluation and dispatch, exposed for direct use.
    pub fn execute(&self, ram: &mut RAM, regs: &mut Registers, instr: &Instruction)
        -> (r: Result<InstrExecuteCondition, ExecFault>)
        requires
            old(ram).wf(),
            old(regs).wf(),
            instr_wf(*instr),
            is_mem_shape(instr.instr_type) && instr.ldr_str->0 ==> instr.last_char is Some,
        ensures
            final(ram).wf(),
            final(regs).wf(),
            !cond_passes(instr.condition, old(regs).n_of(), old(regs).z_of(), old(regs).c_of(),
                old(regs).v_of()) ==> *final(ram) == *old(ram) && *final(regs) == *old(regs)
                && r == Ok::<InstrExecuteCondition, ExecFault>(InstrExecuteCondition::NOP),
            cond_passes(instr.condition, old(regs).n_of(), old(regs).z_of(), old(regs).c_of(),
                old(regs).v_of()) ==> exec_post(*old(ram), *old(regs), *final(ram),
                *final(regs), *instr, r),
    {
        execute(ram, regs, instr)
    }

    /// Software-interrupt entry: save the return address and CPSR into the
    /// Supervisor bank, switch mode, leave Thumb state, mask interrupts,
    /// and jump to the SWI vector.
    pub fn swi_exception_entry(regs: &mut Registers)
        requires
            old(regs).wf(),
        ensures
            final(regs).wf(),
            final(regs).size == old(regs).size,
            final(regs).endianness == old(regs).endianness,
            final(regs).slot(16) == swi_entry_cpsr(old(regs).cpsr_of()),
            final(regs).slot(18) == wsub(old(regs).slot(15), 4),
            final(regs).slot(19) == old(regs).cpsr_of(),
            final(regs).slot(15) == SWI_VECTOR_PC,
            forall|j: int| 0 <= j < 23 && j != 15 && j != 16 && j != 18 && j != 19
                ==> final(regs).slot(j) == old(regs).slot(j),
    {
        let cpsr = regs.get_cpsr();
        let pc = regs.get_pc();
        regs.set_cpsr_mode(Mode::SVC);
        regs.set_register(14, crate::bits::exec_wsub(pc, 4));
        regs.set_spsr(cpsr);
        regs.set_cpsr_flag(5, false);
        regs.set_i_flag(true);
        regs.set_pc(SWI_VECTOR_PC);
    }

    /// IRQ entry: the parallel sequence into the IRQ bank and vector, also
    /// masking imprecise data aborts.
    pub fn irq_exception_entry(regs: &mut Registers)
        requires
            old(regs).wf(),
        ensures
            final(regs).wf(),
            final(regs).size == old(regs).size,
            final(regs).endianness == old(regs).endianness,
            final(regs).slot(16) == irq_entry_cpsr(old(regs).cpsr_of()),
            final(regs).slot(21) == wsub(old(regs).slot(15), 4),
            final(regs).slot(22) == old(regs).cpsr_of(),
            final(regs).slot(15) == IRQ_VECTOR_PC,
            forall|j: int| 0 <= j < 23 && j != 15 && j != 16 && j != 21 && j != 22
                ==> final(regs).slot(j) == old(regs).slot(j),
    {
        let pc = regs.get_pc();
        let cpsr = regs.get_cpsr();
        regs.set_cpsr_mode(Mode::IRQ);
        regs.set_register(14, crate::bits::exec_wsub(pc, 4));
        regs.set_spsr(cpsr);
        regs.set_i_flag(true);
        regs.set_cpsr_flag(8, true);
        regs.set_pc(IRQ_VECTOR_PC);
    }

    /// The display-hook value of a store aimed at the display sentinel.
    fn detect_display_write(regs: &Registers, instr: &Instruction) -> (r: Option<Word>)
        requires
            regs.wf(),
        ensures
            r == display_emit_of(*regs, *instr),
    {
        if is_write_instr(*instr) {
            match instr.get_rn() {
                Some(rn) => {
                    if regs.get_reg_register(rn) == DISPLAY_ADDR {
                        match instr.get_rd() {
                            Some(rd) => {
                                return Some(regs.get_reg_register(rd));
                            },
                            None => {},
                        }
                    }
                },
                None => {},
            }
        }
        None
    }

    /// One trace-log record for the step just executed.
    fn make_trace_record(&self, ram: &RAM, regs: &Registers, saved_pc: Word)
        -> (r: TraceRecord)
        requires
            ram.wf(),
            regs.wf(),
        ensures
            r.step == self.trace_step,
            r.pc == saved_pc,
            r.checksum == ram.checksum,
            r.mode_bits == regs.mode_bits_of(),
            r.n == (if regs.n_of() { 1 as Byte } else { 0 as Byte }),
            r.c == (if regs.c_of() { 1 as Byte } else { 0 as Byte }),
            r.z == (if regs.z_of() { 1 as Byte } else { 0 as Byte }),
            r.v == (if regs.v_of() { 1 as Byte } else { 0 as Byte }),
            r.registers@.len() == 15,
            forall|k: int| 0 <= k < 15 ==> r.registers@[k] == regs.reg_of(k),
    {
        let mut all = regs.get_all();
        let _ = all.pop();
        TraceRecord {
            step: self.trace_step,
            pc: saved_pc,
            checksum: ram.get_checksum(),
            n: if regs.get_n_flag() { 1 } else { 0 },
            c: if regs.get_c_flag() { 1 } else { 0 },
            z: if regs.get_z_flag() { 1 } else { 0 },
            v: if regs.get_v_flag() { 1 } else { 0 },
            mode_bits: regs.get_cpsr() % 32,
            registers: all,
        }
    }

    /// Post-dispatch bookkeeping for one executed instruction: the program
    /// counter advance, the trace record, the halt back-up, the
    /// software-interrupt and IRQ entry sequences, and the assembled
    /// result. `mid_regs` is the register file right after the handler ran.
    fn finish_step(&mut self, ram: &RAM, regs: &mut Registers, instr: &Instruction,
        exec_result: InstrExecuteCondition, emit0: Option<Word>, saved_pc: Word, irq: bool)
        -> (res: StepResult)
        requires
            ram.wf(),
            old(regs).wf(),
        ensures
            final(regs).wf(),
            res.outcome == exec_result,
            step_dispatch_post(*old(self), *final(self), saved_pc, *instr, *ram, *old(regs),
                *final(regs), irq, emit0, res),
    {
        regs.inc_pc();

        let trace = if self.trace {
            let t = self.make_trace_record(ram, regs, saved_pc);
            proof {
                assert forall|k: int| 0 <= k < 15 implies regs.reg_of(k) == old(regs).reg_of(
                    k) by {
                    assert(bank_index(regs.mode_bits_of(), k) != 15);
                }
            }
            Some(t)
        } else {
            None
        };
        self.trace_step = crate::bits::exec_wadd(self.trace_step, 1);

        let mut emit = emit0;
        let mut readline: Option<ReadLineRequest> = None;
        let mut irq_taken = false;
        match exec_result {
            InstrExecuteCondition::HLT => {
                proof {
                    crate::bits::lemma_wadd_wsub_cancel(old(regs).slot(15), 4);
                }
                regs.dec_pc();
            },
            InstrExecuteCondition::SWI => {
                CPU::swi_exception_entry(regs);
                proof {
                    crate::bits::lemma_wadd_wsub_cancel(old(regs).slot(15), 4);
                }
                match instr.get_swi() {
                    Some(num) => {
                        if num == 0 {
                            emit = Some(regs.get_register(0));
                        } else if num == 0x6A {
                            let dest = regs.get_register(1);
                            let max_bytes = regs.get_register(2);
                            readline = Some(ReadLineRequest { dest, max_bytes });
                        }
                    },
                    None => {},
                }
            },
            InstrExecuteCondition::NOP => {
                if irq && !regs.get_i_flag() {
                    CPU::irq_exception_entry(regs);
                    proof {
                        crate::bits::lemma_wadd_wsub_cancel(old(regs).slot(15), 4);
                    }
                    irq_taken = true;
                }
            },
        }

        StepResult { outcome: exec_result, emit, readline, trace, irq_taken }
    }

    /// One fetch-decode-execute step. Halts at a breakpoint or on a zero
    /// fetch; otherwise runs the handler when the condition passes,
    /// advances the program counter, and sequences software-interrupt and
    /// IRQ entry. A halt via software interrupt backs the program counter
    /// up so the halting instruction stays in view.
    #[verifier::rlimit(100)]
    pub fn step(&mut self, ram: &mut RAM, regs: &mut Registers, irq: bool, last_char: char)
        -> (r: Result<StepResult, ExecFault>)
        requires
            old(ram).wf(),
            old(regs).wf(),
        ensures
            final(ram).wf(),
            final(regs).wf(),
            ({
                let pc0 = wsub(old(regs).slot(15), 8);
                let raw = read_word_spec(old(ram).memory_array@, old(ram).endianness,
                    pc0 as int);
                let instr1 = (Instruction {
                    pc_address: pc0,
                    last_char: Some(last_char),
                    ..spec_decode(raw)
                });
                let passes = cond_passes(instr1.condition, old(regs).n_of(), old(regs).z_of(),
                    old(regs).c_of(), old(regs).v_of());
                &&& (old(self).breakpoints@.contains(pc0) ==> r is Ok
                    && r->Ok_0.outcome == InstrExecuteCondition::HLT
                    && *final(ram) == *old(ram) && *final(regs) == *old(regs)
                    && *final(self) == *old(self))
                &&& (!old(self).breakpoints@.contains(pc0) && pc0 + 4 > old(ram).size
                    ==> r is Err && *final(ram) == *old(ram) && *final(regs) == *old(regs))
                &&& (!old(self).breakpoints@.contains(pc0) && pc0 + 4 <= old(ram).size
                    && raw == 0 ==> r is Ok && r->Ok_0.outcome == InstrExecuteCondition::HLT
                    && *final(ram) == *old(ram)
                    && crate::execute::regs_post2(*old(regs), *final(regs), false, 0, 0, true,
                        15, wadd(old(regs).slot(15), 4)))
                &&& (!old(self).breakpoints@.contains(pc0) && pc0 + 4 <= old(ram).size
                    && raw != 0 && r is Ok ==> exists|mid_ram: RAM, mid_regs: Registers| {
                    &&& (passes ==> exec_post(*old(ram), *old(regs), mid_ram, mid_regs,
                        instr1, Ok::<InstrExecuteCondition, ExecFault>(r->Ok_0.outcome)))
                    &&& (!passes ==> mid_ram == *old(ram) && mid_regs == *old(regs)
                        && r->Ok_0.outcome == InstrExecuteCondition::NOP)
                    &&& *final(ram) == mid_ram
                    &&& #[trigger] step_dispatch_post(*old(self), *final(self), pc0, instr1,
                        mid_ram, mid_regs, *final(regs), irq,
                        display_emit_of(*old(regs), instr1), r->Ok_0)
                })
            }),
    {
        let saved_pc = regs.get_pc_current_address();

        if self.is_breakpoint(&saved_pc) {
            return Ok(StepResult {
                outcome: InstrExecuteCondition::HLT,
                emit: None,
                readline: None,
                trace: None,
                irq_taken: false,
            });
        }

        if !ram.word_access_ok(saved_pc) {
            return Err(ExecFault::MemOutOfBounds);
        }
        let instr_raw = ram.read_word(saved_pc);

        if instr_raw == 0 {
            regs.inc_pc();
            return Ok(StepResult {
                outcome: InstrExecuteCondition::HLT,
                emit: None,
                readline: None,
                trace: None,
                irq_taken: false,
            });
        }

        let mut instr = decode_word(instr_raw);
        instr.set_pc_address(saved_pc);
        instr.set_last_char(last_char);
        proof {
            crate::decode::lemma_decode_wf(instr_raw);
        }

        // Route a store aimed at the display sentinel to the output hook.
        let emit0: Option<Word> = CPU::detect_display_write(regs, &instr);

        let exec_result = match execute(ram, regs, &instr) {
            Ok(c) => c,
            Err(f) => {
                return Err(f);
            },
        };
        let ghost mid_ram_w = *ram;
        let ghost mid_regs_w = *regs;

        let res = self.finish_step(ram, regs, &instr, exec_result, emit0, saved_pc, irq);
        proof {
            assert(step_dispatch_post(*old(self), *self, saved_pc, instr, mid_ram_w,
                mid_regs_w, *regs, irq, emit0, res));
        }
        Ok(res)
    }
}

impl Default for CPU {
    fn default() -> (r: Self)
        ensures
            r.breakpoints@ == Seq::<AddressSize>::empty(),
            !r.trace,
            r.trace_step == 1,
    {
        CPU::new()
    }
}

/// The bytes the line-input service stores: the typed line, a carriage
/// return when it fits under the byte budget, then a null terminator.
pub open spec fn line_with_terminators(input: Seq<Byte>, max_bytes: Word) -> Seq<Byte> {
    let with_cr = if max_bytes >= 1 && input.len() < max_bytes - 1 {
        input.push(13)
    } else {
        input
    };
    with_cr.push(0)
}

/// The byte store after landing `data[0..n]` at successive addresses from
/// `dest`; out-of-range bytes are dropped.
pub open spec fn bytes_written_at(bytes: Seq<Byte>, dest: Word, data: Seq<Byte>, n: int)
    -> Seq<Byte>
    decreases n,
{
    if n <= 0 {
        bytes
    } else {
        let prev = bytes_written_at(bytes, dest, data, n - 1);
        let a = wadd(dest, (n - 1) as Word);
        if a < bytes.len() {
            prev.update(a as int, data[n - 1])
        } else {
            prev
        }
    }
}

/// Writing never changes the store's length.
pub proof fn lemma_bytes_written_len(bytes: Seq<Byte>, dest: Word, data: Seq<Byte>, n: int)
    ensures
        bytes_written_at(bytes, dest, data, n).len() == bytes.len(),
    decreases n,
{
    if n > 0 {
        lemma_bytes_written_len(bytes, dest, data, n - 1);
    }
}

/// Serves a completed line-input request: appends a carriage return when
/// room remains under the byte budget, then a null terminator, and stores
/// the result byte by byte from the destination address.
pub fn deliver_line(ram: &mut RAM, dest: AddressSize, max_bytes: Word, input: &Vec<Byte>)
    requires
        old(ram).wf(),
        input@.len() + 2 < 0x100000000,
    ensures
        final(ram).wf(),
        final(ram).size == old(ram).size,
        final(ram).endianness == old(ram).endianness,
        final(ram).loaded == old(ram).loaded,
        final(ram).display_offset == old(ram).display_offset,
        ({
            let data = line_with_terminators(input@, max_bytes);
            &&& final(ram).memory_array@ == bytes_written_at(old(ram).memory_array@, dest,
                data, data.len() as int)
            &&& (final(ram).checksum == crate::memory::checksum_of(final(ram).memory_array@)
                || *final(ram) == *old(ram))
        }),
{
    let mut line: Vec<Byte> = Vec::new();
    let mut i: usize = 0;
    let n = input.len();
    while i < n
        invariant
            i <= n,
            n == input@.len(),
            line@ == input@.take(i as int),
        decreases n - i,
    {
        let b = input[i];
        line.push(b);
        i = i + 1;
    }
    proof {
        assert(line@ =~= input@);
    }
    if max_bytes >= 1 && (n as u64) < (max_bytes as u64) - 1 {
        line.push(13);
    }
    line.push(0);
    proof {
        assert(line@ =~= line_with_terminators(input@, max_bytes));
    }

    let total = line.len();
    let mut k: usize = 0;
    while k < total
        invariant
            k <= total,
            total == line@.len(),
            total < 0x100000000,
            ram.wf(),
            ram.size == old(ram).size,
            ram.endianness == old(ram).endianness,
            ram.loaded == old(ram).loaded,
            ram.display_offset == old(ram).display_offset,
            ram.memory_array@ == bytes_written_at(old(ram).memory_array@, dest, line@,
                k as int),
            ram.checksum == crate::memory::checksum_of(ram.memory_array@)
                || *ram == *old(ram),
        decreases total - k,
    {
        proof {
            lemma_bytes_written_len(old(ram).memory_array@, dest, line@, k as int);
        }
        let a = crate::bits::exec_wadd(dest, k as Word);
        let b = line[k];
        ram.write_byte(a, b);
        k = k + 1;
    }
}

/// Payload mirrored to the hosting shell's status view.
pub struct CPUPayload {
    pub trace: bool,
    pub mode: Option<Mode>,
}

/// Payload of one character of terminal output.
pub struct TerminalPutcharPayload {
    pub char_value: Word,
}

/// Payload of a line-input prompt.
pub struct TerminalReadlinePayload {
    pub max_bytes: Word,
}

} // verus!
