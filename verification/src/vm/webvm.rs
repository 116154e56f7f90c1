//! A machine for a host that steps it from its own event loop, such as a
//! page in a browser: it never blocks, and it remembers whether the machine
//! waits for input.
use super::memory::{image_fits, loaded, MEMORY_SIZE};
use super::registers::REGISTER_COUNT;
use super::trap::after_request;
use super::vm::{step_reads, stepped, InstructionResult, MachineState, VM};
use crate::console::{hex_form, hex_word};
use crate::io::Lc3IO;
use vstd::prelude::*;

verus! {

/// A machine and what its host knows about it.
pub struct WebVM {
    pub vm: VM,
    /// Whether the last step was left waiting for a character.
    pub awaiting_input: bool,
    /// Whether the host is stepping the machine.
    pub is_running: bool,
    /// Whether the host has loaded a program.
    pub program_loaded: bool,
}

impl WebVM {
    /// A fresh machine that talks to `io`: nothing loaded, not running, not
    /// waiting.
    pub fn new(io: Lc3IO) -> (made: WebVM)
        ensures
            made.vm@.reg == super::registers::initial_registers(),
            made.vm@.mem == Seq::new(MEMORY_SIZE as nat, |a: int| 0u16),
            made.vm.io == io,
            !made.awaiting_input,
            !made.is_running,
            !made.program_loaded,
    {
        WebVM { vm: VM::new(io), awaiting_input: false, is_running: false, program_loaded: false }
    }

    /// Takes one step, as [`VM::run_single_command`] does, and notes whether
    /// it was left waiting for a character. A step that waits has changed
    /// neither registers nor words, so the host takes it again once there is
    /// input.
    pub fn step(&mut self) -> (result: InstructionResult)
        ensures
            exists|input: Option<char>| #[trigger]
                stepped(old(self).vm@, old(self).vm.io.pending(), input, final(self).vm@, result),
            final(self).vm.io.pending() == if step_reads(old(self).vm@) {
                after_request(old(self).vm.io.pending())
            } else {
                old(self).vm.io.pending()
            },
            final(self).awaiting_input == (result == InstructionResult::AwaitingInput),
            final(self).is_running == old(self).is_running,
            final(self).program_loaded == old(self).program_loaded,
    {
        let result = self.vm.run_single_command();
        let ghost input = choose|input: Option<char>|
            stepped(old(self).vm@, old(self).vm.io.pending(), input, self.vm@, result);
        self.awaiting_input = match result {
            InstructionResult::AwaitingInput => true,
            _ => false,
        };
        assert(stepped(old(self).vm@, old(self).vm.io.pending(), input, self.vm@, result));
        result
    }

    /// Copies the image `file` into the words of the machine. The program
    /// counter stays where it is.
    pub fn load_into_memory(&mut self, file: Vec<u16>)
        requires
            image_fits(file@),
        ensures
            final(self).vm@ == (MachineState {
                mem: loaded(old(self).vm@.mem, file@),
                ..old(self).vm@
            }),
            final(self).vm.io == old(self).vm.io,
            final(self).awaiting_input == old(self).awaiting_input,
            final(self).is_running == old(self).is_running,
            final(self).program_loaded == old(self).program_loaded,
    {
        self.vm.memory.load_file(file);
    }

    /// Makes the machine ready for another program: every word zero, not
    /// halted, not waiting. The registers keep their values.
    pub fn reset_machine(&mut self)
        ensures
            final(self).vm@.mem == Seq::new(MEMORY_SIZE as nat, |a: int| 0u16),
            final(self).vm@.reg == (super::registers::RegisterState {
                halt: false,
                ..old(self).vm@.reg
            }),
            final(self).vm.io == old(self).vm.io,
            !final(self).awaiting_input,
            final(self).is_running == old(self).is_running,
            final(self).program_loaded == old(self).program_loaded,
    {
        self.vm.memory.clear();
        self.vm.registers.halt = false;
        self.awaiting_input = false;
    }

    /// Moves the program counter to `new_pc`.
    pub fn set_pc(&mut self, new_pc: u16)
        ensures
            final(self).vm@ == (MachineState {
                reg: old(self).vm@.reg.with_pc(new_pc),
                ..old(self).vm@
            }),
            final(self).vm.io == old(self).vm.io,
            final(self).awaiting_input == old(self).awaiting_input,
            final(self).is_running == old(self).is_running,
            final(self).program_loaded == old(self).program_loaded,
    {
        self.vm.registers.pc = new_pc;
    }

    /// The program counter.
    pub fn get_pc(&self) -> (pc: u16)
        ensures
            pc == self.vm@.reg.pc,
    {
        self.vm.registers.pc
    }

    /// Whether the machine is halted.
    pub fn is_halted(&self) -> (halted: bool)
        ensures
            halted == self.vm@.reg.halt,
    {
        self.vm.registers.halt
    }

    /// Writes `value` to general register `reg`.
    pub fn set_reg(&mut self, reg: usize, value: u16)
        requires
            reg < REGISTER_COUNT,
        ensures
            final(self).vm@ == (MachineState {
                reg: old(self).vm@.reg.with_reg(reg as int, value),
                ..old(self).vm@
            }),
            final(self).vm.io == old(self).vm.io,
            final(self).awaiting_input == old(self).awaiting_input,
            final(self).is_running == old(self).is_running,
            final(self).program_loaded == old(self).program_loaded,
    {
        self.vm.registers.set(reg, value);
    }

    /// General register `reg_value` as it is shown: `x` and four
    /// hexadecimal digits.
    pub fn get_reg_value_as_hex(&self, reg_value: usize) -> (shown: String)
        requires
            reg_value < REGISTER_COUNT,
        ensures
            shown@ == hex_form(self.vm@.reg.r[reg_value as int]),
    {
        hex_word(self.vm.registers.get(reg_value))
    }

    /// The program counter as it is shown.
    pub fn get_pc_value_as_hex(&self) -> (shown: String)
        ensures
            shown@ == hex_form(self.vm@.reg.pc),
    {
        hex_word(self.vm.registers.pc)
    }

    /// The instruction register as it is shown.
    pub fn get_ir_value_as_hex(&self) -> (shown: String)
        ensures
            shown@ == hex_form(self.vm@.reg.ir),
    {
        hex_word(self.vm.registers.ir)
    }

    /// Whether the last step was left waiting for a character.
    pub fn is_awaiting_input(&self) -> (waiting: bool)
        ensures
            waiting == self.awaiting_input,
    {
        self.awaiting_input
    }

    /// Notes whether the machine waits for a character.
    pub fn set_awaiting_input(&mut self, is: bool)
        ensures
            *final(self) == (WebVM { awaiting_input: is, ..*old(self) }),
    {
        self.awaiting_input = is;
    }

    /// The word at address `loc`.
    pub fn mem_get(&self, loc: u16) -> (word: u16)
        ensures
            word == self.vm@.mem[loc as int],
    {
        self.vm.memory.get(loc)
    }

    /// Notes whether the host is stepping the machine.
    pub fn set_is_running(&mut self, b: bool)
        ensures
            *final(self) == (WebVM { is_running: b, ..*old(self) }),
    {
        self.is_running = b;
    }

    /// Whether the host is stepping the machine.
    pub fn get_is_running(&self) -> (running: bool)
        ensures
            running == self.is_running,
    {
        self.is_running
    }

    /// Notes whether the host has loaded a program.
    pub fn set_program_loaded(&mut self, b: bool)
        ensures
            *final(self) == (WebVM { program_loaded: b, ..*old(self) }),
    {
        self.program_loaded = b;
    }

    /// Whether the host has loaded a program.
    pub fn get_program_loaded(&self) -> (loaded: bool)
        ensures
            loaded == self.program_loaded,
    {
        self.program_loaded
    }
}

} // verus!
