//! The service routines behind `TRAP`: character input and output, and halt.
use super::instructions::Instruction;
use super::memory::Memory;
use super::registers::{RegisterState, Registers};
use super::vm::{InstructionResult, VmError};
use crate::io::{char_to_word, char_word, low_char, string_at, Lc3IO};
use vstd::prelude::*;

verus! {

/// Trap vector of `GETC`: read one character into `R0`.
pub const GETC_VECTOR: u16 = 0x20;

/// Trap vector of `OUT`: write the character in `R0`.
pub const OUT_VECTOR: u16 = 0x21;

/// Trap vector of `PUTS`: write the text that `R0` points to.
pub const PUTS_VECTOR: u16 = 0x22;

/// Trap vector of `IN`: write a prompt, then read one character into `R0`.
pub const IN_VECTOR: u16 = 0x23;

/// Trap vector of `PUTSP`: write a text packed two characters to the word.
pub const PUTSP_VECTOR: u16 = 0x24;

/// Trap vector of `HALT`: stop the machine.
pub const HALT_VECTOR: u16 = 0x25;

/// Bits 7 to 0 of a `TRAP` instruction: the vector of the routine it calls.
pub open spec fn trap_vector(value: u16) -> u16 {
    value % 256
}

/// Whether a channel with `pending` queued can have answered `input` to a
/// request for a character: queued input is always served first.
pub open spec fn input_consistent(pending: Seq<char>, input: Option<char>) -> bool {
    pending.len() > 0 ==> input == Some(pending[0])
}

/// What is left of the queue `pending` after one request for a character.
pub open spec fn after_request(pending: Seq<char>) -> Seq<char> {
    if pending.len() > 0 {
        pending.skip(1)
    } else {
        pending
    }
}

/// The registers after a request for a character was answered with `input`:
/// a character goes to `R0`, and without one nothing changes.
pub open spec fn receive_registers(reg: RegisterState, input: Option<char>) -> RegisterState {
    match input {
        Some(c) => reg.with_reg(0, char_word(c)),
        None => reg,
    }
}

/// How a request for a character ends when it was answered with `input`.
pub open spec fn receive_result(input: Option<char>) -> InstructionResult {
    match input {
        Some(_) => InstructionResult::Ready,
        None => InstructionResult::AwaitingInput,
    }
}

/// Whether a request for a character that left `after` and `result` behind
/// was answered with `input`, on a channel that had `pending` queued.
pub open spec fn received(
    pending: Seq<char>,
    before: RegisterState,
    input: Option<char>,
    after: RegisterState,
    result: InstructionResult,
) -> bool {
    &&& input_consistent(pending, input)
    &&& after == receive_registers(before, input)
    &&& result == receive_result(input)
}

/// A request that finds no character changes nothing and can be made again;
/// a request that finds a character queued puts that character into `R0`.
pub proof fn lemma_request(
    pending: Seq<char>,
    before: RegisterState,
    input: Option<char>,
    after: RegisterState,
    result: InstructionResult,
)
    requires
        received(pending, before, input, after, result),
    ensures
        input.is_none() ==> after == before && result == InstructionResult::AwaitingInput,
        result == InstructionResult::AwaitingInput ==> after == before,
        pending.len() > 0 ==> result == InstructionResult::Ready && after == before.with_reg(
            0,
            char_word(pending[0]),
        ),
        after.pc == before.pc,
{
}

/// Whether the routine behind `vector` asks the channel for a character.
pub open spec fn trap_reads(vector: u16) -> bool {
    vector == GETC_VECTOR || vector == IN_VECTOR
}

/// The registers after the routine behind the vector in `value` ran, where
/// `input` is what the channel answered if the routine asked it.
pub open spec fn trap_registers(value: u16, reg: RegisterState, input: Option<char>)
    -> RegisterState {
    let vector = trap_vector(value);
    if trap_reads(vector) {
        receive_registers(reg, input)
    } else if vector == OUT_VECTOR || vector == PUTS_VECTOR {
        reg
    } else {
        reg.halted()
    }
}

/// What the routine behind the vector in `value` writes.
pub open spec fn trap_output(value: u16, reg: RegisterState, mem: Seq<u16>) -> Seq<char> {
    let vector = trap_vector(value);
    if vector == OUT_VECTOR {
        seq![low_char(reg.r[0])]
    } else if vector == PUTS_VECTOR || vector == IN_VECTOR {
        string_at(mem, reg.r[0] as int)
    } else {
        Seq::empty()
    }
}

/// How the routine behind the vector in `value` ends.
pub open spec fn trap_result(value: u16, input: Option<char>) -> InstructionResult {
    let vector = trap_vector(value);
    if trap_reads(vector) {
        receive_result(input)
    } else if vector == OUT_VECTOR || vector == PUTS_VECTOR {
        InstructionResult::Ready
    } else if vector == HALT_VECTOR {
        InstructionResult::Halted
    } else if vector == PUTSP_VECTOR {
        InstructionResult::FatalError(VmError::Unsupported)
    } else {
        InstructionResult::FatalError(VmError::InvalidTrap)
    }
}

/// Whether the routine behind the vector in `value` left `after` and `result`
/// behind when the channel, with `pending` queued, answered `input` to it.
pub open spec fn trapped(
    value: u16,
    pending: Seq<char>,
    before: RegisterState,
    input: Option<char>,
    after: RegisterState,
    result: InstructionResult,
) -> bool {
    &&& trap_reads(trap_vector(value)) ==> input_consistent(pending, input)
    &&& after == trap_registers(value, before, input)
    &&& result == trap_result(value, input)
}

/// The `TRAP` instruction and its service routines.
pub struct Trap;

impl Trap {
    /// Finishes a request for a character that the channel answered with
    /// `input`. A character is stored in `R0`; without one the registers stay
    /// as they are, so that the instruction can run again.
    pub fn receive(&self, reg: &mut Registers, input: Option<char>) -> (result: InstructionResult)
        ensures
            final(reg)@ == receive_registers(old(reg)@, input),
            result == receive_result(input),
    {
        match input {
            Some(c) => {
                reg.set(0, char_to_word(c));
                InstructionResult::Ready
            },
            None => InstructionResult::AwaitingInput,
        }
    }

    /// `GETC`: asks the channel for one character and stores it in `R0`.
    /// While the channel has none, the registers stay as they are and the
    /// result is `AwaitingInput`.
    pub fn get_c(&self, reg: &mut Registers, io: &mut Lc3IO) -> (result: InstructionResult)
        ensures
            exists|input: Option<char>|
                received(old(io).pending(), old(reg)@, input, final(reg)@, result),
            result == InstructionResult::AwaitingInput ==> final(reg)@ == old(reg)@,
            final(io).pending() == after_request(old(io).pending()),
            final(io).transcript() == old(io).transcript(),
    {
        let input = io.get_char();
        let result = self.receive(reg, input);
        assert(received(old(io).pending(), old(reg)@, input, reg@, result));
        result
    }

    /// `OUT`: writes the low byte of `R0` as a character.
    pub fn out(&self, reg: &mut Registers, io: &mut Lc3IO) -> (result: InstructionResult)
        ensures
            result == InstructionResult::Ready,
            final(reg)@ == old(reg)@,
            final(io).transcript() == old(io).transcript().push(low_char(old(reg)@.r[0])),
            final(io).pending() == old(io).pending(),
    {
        io.print_single_char(reg);
        InstructionResult::Ready
    }

    /// `PUTS`: writes the text that `R0` points to, one character per word,
    /// up to the first zero word.
    pub fn put_s(&self, reg: &mut Registers, mem: &mut Memory, io: &mut Lc3IO) -> (result:
        InstructionResult)
        ensures
            result == InstructionResult::Ready,
            final(reg)@ == old(reg)@,
            final(mem)@ == old(mem)@,
            final(io).transcript() == old(io).transcript() + string_at(
                old(mem)@,
                old(reg)@.r[0] as int,
            ),
            final(io).pending() == old(io).pending(),
    {
        io.print_string(reg, mem);
        InstructionResult::Ready
    }

    /// `PUTSP` is not implemented: the machine halts and reports the routine
    /// as unsupported.
    pub fn put_sp(&self, reg: &mut Registers, mem: &mut Memory, io: &mut Lc3IO) -> (result:
        InstructionResult)
        ensures
            result == InstructionResult::FatalError(VmError::Unsupported),
            final(reg)@ == old(reg)@.halted(),
            final(mem)@ == old(mem)@,
            *final(io) == *old(io),
    {
        reg.halt = true;
        InstructionResult::FatalError(VmError::Unsupported)
    }

    /// `IN`: writes the prompt that `R0` points to, then asks the channel for
    /// one character as `GETC` does.
    pub fn input(&self, reg: &mut Registers, mem: &mut Memory, io: &mut Lc3IO) -> (result:
        InstructionResult)
        ensures
            exists|input: Option<char>|
                received(old(io).pending(), old(reg)@, input, final(reg)@, result),
            result == InstructionResult::AwaitingInput ==> final(reg)@ == old(reg)@,
            final(mem)@ == old(mem)@,
            final(io).pending() == after_request(old(io).pending()),
            final(io).transcript() == old(io).transcript() + string_at(
                old(mem)@,
                old(reg)@.r[0] as int,
            ),
    {
        io.print_string(reg, mem);
        let input = io.get_char();
        let result = self.receive(reg, input);
        assert(received(old(io).pending(), old(reg)@, input, reg@, result));
        result
    }

    /// `HALT`: sets the halt flag.
    pub fn halt(&self, reg: &mut Registers) -> (result: InstructionResult)
        ensures
            result == InstructionResult::Halted,
            final(reg)@ == old(reg)@.halted(),
    {
        reg.halt = true;
        InstructionResult::Halted
    }

    /// A vector without a service routine: the machine halts on it.
    fn invalid(&self, reg: &mut Registers) -> (result: InstructionResult)
        ensures
            result == InstructionResult::FatalError(VmError::InvalidTrap),
            final(reg)@ == old(reg)@.halted(),
    {
        reg.halt = true;
        InstructionResult::FatalError(VmError::InvalidTrap)
    }
}

impl Instruction for Trap {
    /// Calls the service routine that bits 7 to 0 of `value` name.
    fn exe(&self, value: u16, reg: &mut Registers, mem: &mut Memory, io: &mut Lc3IO) -> (result:
        InstructionResult)
        ensures
            exists|input: Option<char>|
                trapped(value, old(io).pending(), old(reg)@, input, final(reg)@, result),
            result == InstructionResult::AwaitingInput ==> final(reg)@ == old(reg)@,
            final(mem)@ == old(mem)@,
            final(io).transcript() == old(io).transcript() + trap_output(
                value,
                old(reg)@,
                old(mem)@,
            ),
            final(io).pending() == if trap_reads(trap_vector(value)) {
                after_request(old(io).pending())
            } else {
                old(io).pending()
            },
    {
        assert(value & 0xFF == value % 256) by (bit_vector);
        let vector = value & 0xFF;
        if vector == GETC_VECTOR {
            let result = self.get_c(reg, io);
            proof {
                let input = choose|input: Option<char>|
                    received(old(io).pending(), old(reg)@, input, reg@, result);
                assert(trapped(value, old(io).pending(), old(reg)@, input, reg@, result));
            }
            result
        } else if vector == OUT_VECTOR {
            let result = self.out(reg, io);
            proof {
                assert(trapped(value, old(io).pending(), old(reg)@, None, reg@, result));
            }
            result
        } else if vector == PUTS_VECTOR {
            let result = self.put_s(reg, mem, io);
            assert(trapped(value, old(io).pending(), old(reg)@, None, reg@, result));
            result
        } else if vector == IN_VECTOR {
            let result = self.input(reg, mem, io);
            proof {
                let input = choose|input: Option<char>|
                    received(old(io).pending(), old(reg)@, input, reg@, result);
                assert(trapped(value, old(io).pending(), old(reg)@, input, reg@, result));
            }
            result
        } else {
            let result = if vector == HALT_VECTOR {
                self.halt(reg)
            } else if vector == PUTSP_VECTOR {
                self.put_sp(reg, mem, io)
            } else {
                self.invalid(reg)
            };
            proof {
                assert(trapped(value, old(io).pending(), old(reg)@, None, reg@, result));
            }
            result
        }
    }
}

} // verus!
