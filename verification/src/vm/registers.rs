//! The register file: eight general registers, the program counter, the
//! instruction register, the three condition flags and the halt flag.
use vstd::prelude::*;

verus! {

/// Number of general-purpose registers, `R0` to `R7`.
pub const REGISTER_COUNT: usize = 8;

/// The mathematical content of a register file.
pub struct RegisterState {
    /// The eight general registers.
    pub r: Seq<u16>,
    /// Address of the next instruction to fetch.
    pub pc: u16,
    /// The instruction word fetched last.
    pub ir: u16,
    /// Set when the last flag-setting result was negative.
    pub n: bool,
    /// Set when the last flag-setting result was zero.
    pub z: bool,
    /// Set when the last flag-setting result was positive.
    pub p: bool,
    /// Set once the machine has stopped.
    pub halt: bool,
}

/// `word` read as a signed two's-complement number.
pub open spec fn signed(word: u16) -> int {
    if word >= 0x8000 {
        word - 0x1_0000
    } else {
        word as int
    }
}

impl RegisterState {
    /// This state with general register `index` holding `value`.
    pub open spec fn with_reg(self, index: int, value: u16) -> RegisterState {
        RegisterState { r: self.r.update(index, value), ..self }
    }

    /// This state with the program counter at `pc`.
    pub open spec fn with_pc(self, pc: u16) -> RegisterState {
        RegisterState { pc, ..self }
    }

    /// This state with `ir` as the instruction fetched last.
    pub open spec fn with_ir(self, ir: u16) -> RegisterState {
        RegisterState { ir, ..self }
    }

    /// This state with the halt flag set.
    pub open spec fn halted(self) -> RegisterState {
        RegisterState { halt: true, ..self }
    }

    /// This state with the condition flags describing `value`: exactly one of
    /// them is set, by the sign of `value` read as a signed number.
    pub open spec fn with_flags(self, value: u16) -> RegisterState {
        RegisterState {
            n: signed(value) < 0,
            z: signed(value) == 0,
            p: signed(value) > 0,
            ..self
        }
    }

    /// Exactly one condition flag is set.
    pub open spec fn one_flag(self) -> bool {
        (self.n && !self.z && !self.p) || (!self.n && self.z && !self.p) || (!self.n && !self.z
            && self.p)
    }
}

/// The register file of one machine.
#[derive(Clone, Copy, Debug)]
pub struct Registers {
    pub r: [u16; 8],
    pub pc: u16,
    pub ir: u16,
    pub n: bool,
    pub z: bool,
    pub p: bool,
    pub halt: bool,
}

impl View for Registers {
    type V = RegisterState;

    open spec fn view(&self) -> RegisterState {
        RegisterState {
            r: self.r@,
            pc: self.pc,
            ir: self.ir,
            n: self.n,
            z: self.z,
            p: self.p,
            halt: self.halt,
        }
    }
}

/// The state of a machine that was just switched on: every register zero, no
/// flag set, not halted.
pub open spec fn initial_registers() -> RegisterState {
    RegisterState {
        r: Seq::new(REGISTER_COUNT as nat, |i: int| 0u16),
        pc: 0,
        ir: 0,
        n: false,
        z: false,
        p: false,
        halt: false,
    }
}

/// Setting the flags from any value leaves exactly one of them set.
pub proof fn lemma_flags_exclusive(state: RegisterState, value: u16)
    ensures
        state.with_flags(value).one_flag(),
{
}

impl Registers {
    /// A register file with every register zero and no flag set.
    pub fn new() -> (reg: Registers)
        ensures
            reg@ == initial_registers(),
    {
        let reg = Registers {
            r: [0u16; 8],
            pc: 0,
            ir: 0,
            n: false,
            z: false,
            p: false,
            halt: false,
        };
        assert(reg@.r =~= initial_registers().r);
        reg
    }

    /// The value of general register `index`.
    pub fn get(&self, index: usize) -> (value: u16)
        requires
            index < REGISTER_COUNT,
        ensures
            value == self@.r[index as int],
    {
        self.r[index]
    }

    /// Writes `value` to general register `index`. The flags are left alone.
    pub fn set(&mut self, index: usize, value: u16)
        requires
            index < REGISTER_COUNT,
        ensures
            final(self)@ == old(self)@.with_reg(index as int, value),
    {
        self.r[index] = value;
    }

    /// Sets the condition flags from `value`: negative, zero or positive when
    /// read as a signed number. Exactly one flag is set afterwards.
    pub fn update_flags(&mut self, value: u16)
        ensures
            final(self)@ == old(self)@.with_flags(value),
            final(self)@.one_flag(),
    {
        self.n = value >= 0x8000;
        self.z = value == 0;
        self.p = 0 < value && value < 0x8000;
    }
}

} // verus!
