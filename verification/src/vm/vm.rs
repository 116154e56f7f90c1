//! The machine itself: program load, single step and run to halt.
use super::instructions::{
    add_registers, and_registers, br_registers, jmp_registers, jsr_registers, ld_registers,
    ldi_registers, ldr_registers, lea_registers, not_registers, rti_registers, st_memory,
    sti_memory, str_memory, Add, And, Br, Instruction, JmpRet, Jsr, Ld, Ldi, Ldr, Lea, Not, Rti,
    St, Sti, Str,
};
use super::memory::{image_fits, loaded, Memory, MEMORY_SIZE};
use super::registers::{initial_registers, RegisterState, Registers};
use super::trap::{
    after_request, input_consistent, trap_output, trap_reads, trap_registers, trap_result,
    trap_vector, trapped, Trap,
};
use crate::io::Lc3IO;
use vstd::prelude::*;

verus! {

/// Why the machine stopped on its own.
#[derive(Clone, Copy, Debug, PartialEq, Eq, Structural)]
pub enum VmError {
    /// The program counter stood at the last address, so the next fetch would
    /// have had to move it past the address space.
    Overflow,
    /// The instruction is one this machine does not implement (`RTI`, the
    /// `PUTSP` trap).
    Unsupported,
    /// The word's opcode is the reserved one.
    ReservedOpcode,
    /// The trap vector names no service routine.
    InvalidTrap,
}

/// How one instruction ended.
#[derive(Clone, Copy, Debug, PartialEq, Eq, Structural)]
pub enum InstructionResult {
    /// The instruction is done and the next one can be fetched.
    Ready,
    /// The machine is halted.
    Halted,
    /// The instruction needs a character that is not there yet. Nothing was
    /// changed, so the same instruction can be executed again later.
    AwaitingInput,
    /// The machine stopped on an error and is halted.
    FatalError(VmError),
}

/// Opcode of `TRAP`, the only instruction that talks to the channel.
pub const TRAP_OPCODE: u16 = 15;

/// Opcode that no instruction has.
pub const RESERVED_OPCODE: u16 = 13;

/// The most steps that [`VM::resume`] takes before it gives up on a program
/// that does not halt.
pub const STEP_LIMIT: u64 = u64::MAX;

/// The mathematical content of a machine: its registers, its words, and
/// the text it has written.
pub struct MachineState {
    pub reg: RegisterState,
    pub mem: Seq<u16>,
    pub out: Seq<char>,
}

/// Bits 15 to 12 of an instruction word: the opcode.
pub open spec fn opcode_of(word: u16) -> u16 {
    word / 4096
}

/// Bits 11 to 0 of an instruction word: what the instruction works on.
pub open spec fn operand_bits(word: u16) -> u16 {
    word % 4096
}

/// The machine after the instruction `word` was executed in state `m`. The
/// program counter of `m` already points behind the instruction. `input` is
/// what the channel answered, if the instruction asked it for a character.
pub open spec fn execute(word: u16, m: MachineState, input: Option<char>) -> MachineState {
    let op = opcode_of(word);
    let value = operand_bits(word);
    if op == 0 {
        MachineState { reg: br_registers(value, m.reg), ..m }
    } else if op == 1 {
        MachineState { reg: add_registers(value, m.reg), ..m }
    } else if op == 2 {
        MachineState { reg: ld_registers(value, m.reg, m.mem), ..m }
    } else if op == 3 {
        MachineState { mem: st_memory(value, m.reg, m.mem), ..m }
    } else if op == 4 {
        MachineState { reg: jsr_registers(value, m.reg), ..m }
    } else if op == 5 {
        MachineState { reg: and_registers(value, m.reg), ..m }
    } else if op == 6 {
        MachineState { reg: ldr_registers(value, m.reg, m.mem), ..m }
    } else if op == 7 {
        MachineState { mem: str_memory(value, m.reg, m.mem), ..m }
    } else if op == 8 {
        MachineState { reg: rti_registers(m.reg), ..m }
    } else if op == 9 {
        MachineState { reg: not_registers(value, m.reg), ..m }
    } else if op == 10 {
        MachineState { reg: ldi_registers(value, m.reg, m.mem), ..m }
    } else if op == 11 {
        MachineState { mem: sti_memory(value, m.reg, m.mem), ..m }
    } else if op == 12 {
        MachineState { reg: jmp_registers(value, m.reg), ..m }
    } else if op == 14 {
        MachineState { reg: lea_registers(value, m.reg), ..m }
    } else if op == 15 {
        MachineState {
            reg: trap_registers(value, m.reg, input),
            out: m.out + trap_output(value, m.reg, m.mem),
            ..m
        }
    } else {
        MachineState { reg: m.reg.halted(), ..m }
    }
}

/// How the instruction `word` ends when the channel answers `input`.
pub open spec fn execute_result(word: u16, input: Option<char>) -> InstructionResult {
    let op = opcode_of(word);
    if op == TRAP_OPCODE {
        trap_result(operand_bits(word), input)
    } else if op == 8 {
        InstructionResult::FatalError(VmError::Unsupported)
    } else if op == RESERVED_OPCODE {
        InstructionResult::FatalError(VmError::ReservedOpcode)
    } else {
        InstructionResult::Ready
    }
}

/// Whether the instruction `word` asks the channel for a character.
pub open spec fn word_reads(word: u16) -> bool {
    opcode_of(word) == TRAP_OPCODE && trap_reads(trap_vector(operand_bits(word)))
}

/// Whether the next step of `m` asks the channel for a character.
pub open spec fn step_reads(m: MachineState) -> bool {
    !m.reg.halt && m.reg.pc != 0xFFFF && word_reads(m.mem[m.reg.pc as int])
}

/// The machine one step after `m`.
///
/// A halted machine stays as it is. A machine whose program counter is at the
/// last address halts without fetching. Any other machine fetches the word at
/// the program counter, moves the program counter behind it and executes the
/// word. An instruction that is left waiting for input takes back what the
/// fetch did, so that the same step can be taken again; only what it wrote
/// stays written.
pub open spec fn step(m: MachineState, input: Option<char>) -> MachineState {
    if m.reg.halt {
        m
    } else if m.reg.pc == 0xFFFF {
        MachineState { reg: m.reg.halted(), ..m }
    } else {
        let word = m.mem[m.reg.pc as int];
        let fetched = MachineState { reg: m.reg.with_pc((m.reg.pc + 1) as u16).with_ir(word), ..m };
        let done = execute(word, fetched, input);
        if execute_result(word, input) == InstructionResult::AwaitingInput {
            MachineState { out: done.out, ..m }
        } else {
            done
        }
    }
}

/// How the step from `m` ends.
pub open spec fn step_result(m: MachineState, input: Option<char>) -> InstructionResult {
    if m.reg.halt {
        InstructionResult::Halted
    } else if m.reg.pc == 0xFFFF {
        InstructionResult::FatalError(VmError::Overflow)
    } else {
        execute_result(m.mem[m.reg.pc as int], input)
    }
}

/// Whether the step from `before`, on a channel with `pending` queued, was
/// answered with `input` and led to `after` and `result`.
pub open spec fn stepped(
    before: MachineState,
    pending: Seq<char>,
    input: Option<char>,
    after: MachineState,
    result: InstructionResult,
) -> bool {
    &&& step_reads(before) ==> input_consistent(pending, input)
    &&& after == step(before, input)
    &&& result == step_result(before, input)
}

/// The machine after one step from `m` for each element of `inputs`, where
/// the element is what the channel answers during that step.
pub open spec fn run_steps(m: MachineState, inputs: Seq<Option<char>>) -> MachineState
    decreases inputs.len(),
{
    if inputs.len() == 0 {
        m
    } else {
        step(run_steps(m, inputs.drop_last()), inputs.last())
    }
}

/// How the last of the steps of [`run_steps`] ends. With no step taken, the
/// machine was halted from the start.
pub open spec fn run_result(m: MachineState, inputs: Seq<Option<char>>) -> InstructionResult {
    if inputs.len() == 0 {
        InstructionResult::Halted
    } else {
        step_result(run_steps(m, inputs.drop_last()), inputs.last())
    }
}

/// What is left of the queue `pending` after the steps of [`run_steps`]:
/// each step that asks the channel for a character takes one off the queue.
pub open spec fn run_pending(m: MachineState, pending: Seq<char>, inputs: Seq<Option<char>>) -> Seq<
    char,
>
    decreases inputs.len(),
{
    if inputs.len() == 0 {
        pending
    } else if step_reads(run_steps(m, inputs.drop_last())) {
        after_request(run_pending(m, pending, inputs.drop_last()))
    } else {
        run_pending(m, pending, inputs.drop_last())
    }
}

/// Whether a channel that starts with `pending` queued can have answered
/// `inputs` to the steps of [`run_steps`]: whenever a step asks for a
/// character while one is queued, it gets the first of the queue.
pub open spec fn run_consistent(
    m: MachineState,
    pending: Seq<char>,
    inputs: Seq<Option<char>>,
) -> bool
    decreases inputs.len(),
{
    inputs.len() == 0 || {
        &&& run_consistent(m, pending, inputs.drop_last())
        &&& step_reads(run_steps(m, inputs.drop_last())) ==> input_consistent(
            run_pending(m, pending, inputs.drop_last()),
            inputs.last(),
        )
    }
}

/// Whether the run from `start`, on a channel with `pending` queued, was
/// answered with `inputs` and led to `after`, `left` in the queue and
/// `result`. The run ends with the first step that leaves the machine
/// halted or waiting for input, or when the step limit is reached.
pub open spec fn ran(
    start: MachineState,
    pending: Seq<char>,
    inputs: Seq<Option<char>>,
    after: MachineState,
    left: Seq<char>,
    result: InstructionResult,
) -> bool {
    &&& run_consistent(start, pending, inputs)
    &&& after == run_steps(start, inputs)
    &&& left == run_pending(start, pending, inputs)
    &&& result == run_result(start, inputs)
    &&& after.reg.halt || result == InstructionResult::AwaitingInput || inputs.len() == STEP_LIMIT
    &&& forall|k: int|
        0 <= k < inputs.len() ==> !run_steps(start, #[trigger] inputs.take(k)).reg.halt
    &&& forall|k: int|
        0 < k < inputs.len() ==> run_result(start, #[trigger] inputs.take(k))
            != InstructionResult::AwaitingInput
}

/// The machine `m` with the image `file` loaded: the words of the image
/// are in place and the program counter is at the image's origin.
pub open spec fn load_image(m: MachineState, file: Seq<u16>) -> MachineState {
    MachineState { reg: m.reg.with_pc(file[0]), mem: loaded(m.mem, file), ..m }
}

/// A halted machine does not move: whatever the words behind the program
/// counter hold, a step changes nothing and reports the halt.
pub proof fn lemma_halted_stays(m: MachineState, input: Option<char>)
    requires
        m.reg.halt,
    ensures
        step(m, input) == m,
        step_result(m, input) == InstructionResult::Halted,
{
}

/// A halted machine stays as it is over any number of steps.
pub proof fn lemma_halted_stays_forever(m: MachineState, inputs: Seq<Option<char>>)
    requires
        m.reg.halt,
    ensures
        run_steps(m, inputs) == m,
    decreases inputs.len(),
{
    if inputs.len() > 0 {
        lemma_halted_stays_forever(m, inputs.drop_last());
    }
}

/// The `HALT` trap halts the machine, so no word behind it is ever executed.
pub proof fn lemma_halt_trap_halts(m: MachineState, input: Option<char>)
    requires
        !m.reg.halt,
        m.reg.pc != 0xFFFF,
        opcode_of(m.mem[m.reg.pc as int]) == TRAP_OPCODE,
        trap_vector(operand_bits(m.mem[m.reg.pc as int])) == super::trap::HALT_VECTOR,
    ensures
        step(m, input).reg.halt,
        step_result(m, input) == InstructionResult::Halted,
        forall|more: Seq<Option<char>>| #[trigger]
            run_steps(step(m, input), more) == step(m, input),
{
    assert forall|more: Seq<Option<char>>| #[trigger]
        run_steps(step(m, input), more) == step(m, input) by {
        lemma_halted_stays_forever(step(m, input), more);
    }
}

/// A step that is left waiting for input changes neither the registers nor
/// the words, so the same step can be taken again.
pub proof fn lemma_waiting_changes_nothing(m: MachineState, input: Option<char>)
    requires
        step_result(m, input) == InstructionResult::AwaitingInput,
    ensures
        step(m, input).reg == m.reg,
        step(m, input).mem == m.mem,
        step_reads(m),
        input.is_none(),
{
}

/// A running machine whose program counter is at the last address reports an
/// overflow and halts. Nothing but the halt flag changes.
pub proof fn lemma_overflow_halts(m: MachineState, input: Option<char>)
    requires
        !m.reg.halt,
        m.reg.pc == 0xFFFF,
    ensures
        step_result(m, input) == InstructionResult::FatalError(VmError::Overflow),
        step(m, input) == (MachineState { reg: m.reg.halted(), ..m }),
        step(m, input).mem == m.mem,
        step(m, input).out == m.out,
        step(m, input).reg == (RegisterState { halt: true, ..m.reg }),
{
}

/// The virtual machine.
pub struct VM {
    pub registers: Registers,
    pub memory: Memory,
    pub io: Lc3IO,
}

impl View for VM {
    type V = MachineState;

    open spec fn view(&self) -> MachineState {
        MachineState { reg: self.registers@, mem: self.memory@, out: self.io.transcript() }
    }
}

impl VM {
    /// A machine with zeroed registers and words that talks to `io`.
    pub fn new(io: Lc3IO) -> (vm: VM)
        ensures
            vm@.reg == initial_registers(),
            vm@.mem == Seq::new(MEMORY_SIZE as nat, |a: int| 0u16),
            vm.io == io,
    {
        VM { registers: Registers::new(), memory: Memory::new(), io }
    }

    /// Loads the image `file`: the program counter goes to the image's
    /// origin, `file[0]`, and the words after it go to the addresses from the
    /// origin upwards.
    pub fn load(&mut self, file: Vec<u16>)
        requires
            image_fits(file@),
        ensures
            final(self)@ == load_image(old(self)@, file@),
            final(self).io == old(self).io,
    {
        self.registers.pc = file[0];
        self.memory.load_file(file);
    }

    /// Loads the image `file` and runs it, as [`VM::resume`] does.
    pub fn run(&mut self, file: Vec<u16>) -> (result: InstructionResult)
        requires
            image_fits(file@),
        ensures
            exists|inputs: Seq<Option<char>>| #[trigger]
                ran(
                    load_image(old(self)@, file@),
                    old(self).io.pending(),
                    inputs,
                    final(self)@,
                    final(self).io.pending(),
                    result,
                ),
    {
        self.load(file);
        self.resume()
    }

    /// Steps the machine until it halts. The result is that of the last
    /// step; for a machine that is halted already it is `Halted`.
    ///
    /// A step that is left waiting for input ends the run as well, with the
    /// result `AwaitingInput`: the host can queue input and resume. With a
    /// channel that blocks until there is input this does not happen. A
    /// program that has neither halted nor waited after [`STEP_LIMIT`] steps
    /// is left where it is.
    pub fn resume(&mut self) -> (result: InstructionResult)
        ensures
            exists|inputs: Seq<Option<char>>| #[trigger]
                ran(
                    old(self)@,
                    old(self).io.pending(),
                    inputs,
                    final(self)@,
                    final(self).io.pending(),
                    result,
                ),
    {
        let ghost start = self@;
        let ghost pending = self.io.pending();
        let ghost mut inputs: Seq<Option<char>> = Seq::empty();
        let mut result = InstructionResult::Halted;
        let mut steps: u64 = 0;
        while !self.registers.halt && steps < STEP_LIMIT && (steps == 0 || result
            != InstructionResult::AwaitingInput)
            invariant
                run_consistent(start, pending, inputs),
                run_steps(start, inputs) == self@,
                run_pending(start, pending, inputs) == self.io.pending(),
                result == run_result(start, inputs),
                inputs.len() == steps,
                forall|k: int|
                    0 <= k < inputs.len() ==> !run_steps(start, #[trigger] inputs.take(k)).reg.halt,
                forall|k: int|
                    0 < k < inputs.len() ==> run_result(start, #[trigger] inputs.take(k))
                        != InstructionResult::AwaitingInput,
            decreases STEP_LIMIT - steps,
        {
            let ghost before = self@;
            let ghost queued = self.io.pending();
            let ghost earlier = inputs;
            result = self.run_single_command();
            proof {
                let input = choose|input: Option<char>|
                    stepped(before, queued, input, self@, result);
                inputs = earlier.push(input);
                assert(inputs.drop_last() =~= earlier);
                assert forall|k: int| 0 <= k < inputs.len() implies !run_steps(
                    start,
                    #[trigger] inputs.take(k),
                ).reg.halt by {
                    if k < earlier.len() {
                        assert(inputs.take(k) =~= earlier.take(k));
                    }
                }
                assert forall|k: int| 0 < k < inputs.len() implies run_result(
                    start,
                    #[trigger] inputs.take(k),
                ) != InstructionResult::AwaitingInput by {
                    if k < earlier.len() {
                        assert(inputs.take(k) =~= earlier.take(k));
                    }
                }
            }
            steps += 1;
        }
        assert(ran(start, pending, inputs, self@, self.io.pending(), result));
        result
    }

    /// Takes one step: fetches the word at the program counter, moves the
    /// program counter behind it and executes the word.
    ///
    /// A halted machine does nothing. A machine whose program counter is at
    /// the last address halts with an overflow error and fetches nothing. An
    /// instruction that is left waiting for input leaves the registers and
    /// the words as they were before the step, so that the step can be taken
    /// again once there is input.
    pub fn run_single_command(&mut self) -> (result: InstructionResult)
        ensures
            exists|input: Option<char>| #[trigger]
                stepped(old(self)@, old(self).io.pending(), input, final(self)@, result),
            final(self).io.pending() == if step_reads(old(self)@) {
                after_request(old(self).io.pending())
            } else {
                old(self).io.pending()
            },
    {
        if self.registers.halt {
            let result = InstructionResult::Halted;
            assert(stepped(old(self)@, old(self).io.pending(), None, self@, result));
            return result;
        }
        if self.registers.pc == u16::MAX {
            self.registers.halt = true;
            let result = InstructionResult::FatalError(VmError::Overflow);
            assert(stepped(old(self)@, old(self).io.pending(), None, self@, result));
            return result;
        }
        let saved = self.registers;
        let word = self.memory.get(self.registers.pc);
        self.registers.pc = self.registers.pc + 1;
        self.registers.ir = word;
        let ghost fetched = self@;
        assert(word >> 12 == word / 4096 && word & 0xFFF == word % 4096) by (bit_vector);
        let opcode = word >> 12;
        let value = word & 0xFFF;
        if opcode == TRAP_OPCODE {
            let result = (Trap {}).exe(value, &mut self.registers, &mut self.memory, &mut self.io);
            let ghost input = choose|input: Option<char>|
                trapped(value, old(self).io.pending(), fetched.reg, input, self.registers@, result);
            if result == InstructionResult::AwaitingInput {
                self.registers = saved;
            }
            assert(stepped(old(self)@, old(self).io.pending(), input, self@, result));
            result
        } else {
            let result = self.dispatch(opcode, value);
            assert(stepped(old(self)@, old(self).io.pending(), None, self@, result));
            result
        }
    }

    /// Executes an instruction that is no `TRAP`, by its opcode.
    fn dispatch(&mut self, opcode: u16, value: u16) -> (result: InstructionResult)
        requires
            opcode < 16,
            opcode != TRAP_OPCODE,
            value < 4096,
        ensures
            final(self)@ == execute((opcode * 4096 + value) as u16, old(self)@, None),
            result == execute_result((opcode * 4096 + value) as u16, None),
            final(self).io == old(self).io,
    {
        let reg = &mut self.registers;
        let mem = &mut self.memory;
        let io = &mut self.io;
        match opcode {
            0 => (Br {}).exe(value, reg, mem, io),
            1 => (Add {}).exe(value, reg, mem, io),
            2 => (Ld {}).exe(value, reg, mem, io),
            3 => (St {}).exe(value, reg, mem, io),
            4 => (Jsr {}).exe(value, reg, mem, io),
            5 => (And {}).exe(value, reg, mem, io),
            6 => (Ldr {}).exe(value, reg, mem, io),
            7 => (Str {}).exe(value, reg, mem, io),
            8 => (Rti {}).exe(value, reg, mem, io),
            9 => (Not {}).exe(value, reg, mem, io),
            10 => (Ldi {}).exe(value, reg, mem, io),
            11 => (Sti {}).exe(value, reg, mem, io),
            12 => (JmpRet {}).exe(value, reg, mem, io),
            14 => (Lea {}).exe(value, reg, mem, io),
            _ => {
                reg.halt = true;
                InstructionResult::FatalError(VmError::ReservedOpcode)
            },
        }
    }
}

} // verus!
