//! The instructions as the assembler knows them: their names, the operands
//! they take, the width of their immediate field and their opcode.
use super::text::{spells, to_chars, to_upper_chars, upper_text};
use std::collections::VecDeque;
use vstd::prelude::*;

verus! {

/// Trap vector of `GETC`.
pub const GETC_VAL: u16 = 0x20;

/// Trap vector of `OUT`.
pub const OUT_VAL: u16 = 0x21;

/// Trap vector of `PUTS`.
pub const PUTS_VAL: u16 = 0x22;

/// Trap vector of `IN`.
pub const IN_VAL: u16 = 0x23;

/// Trap vector of `HALT`.
pub const HALT_VAL: u16 = 0x25;

/// The kinds of operand that an instruction or a directive can ask for.
#[derive(Debug, PartialEq, Eq, Clone, Copy, Structural)]
pub enum OperandType {
    Reg,
    Label,
    Imm,
    RegOrImm,
    String,
}

/// An instruction of the assembly language.
///
/// `Br` holds the flags n, z and p that the branch asks for; `Trap` holds the
/// vector of its service routine. `Reserved` and `INVALID` stand for no
/// instruction: they have no opcode and are never encoded.
#[derive(Debug, PartialEq, Eq, Clone, Copy, Structural)]
pub enum OpcodeIns {
    Add,
    And,
    Br(bool, bool, bool),
    Jmp,
    Jsr,
    Jsrr,
    Ld,
    Ldi,
    Ldr,
    Lea,
    Not,
    Ret,
    Rti,
    St,
    Sti,
    Str,
    Trap(u16),
    Reserved,
    INVALID,
}

/// Whether `vector` belongs to one of the five trap mnemonics.
pub open spec fn is_trap_vector(vector: u16) -> bool {
    vector == GETC_VAL || vector == OUT_VAL || vector == PUTS_VAL || vector == IN_VAL || vector
        == HALT_VAL
}

/// Whether `c` is one of the condition letters of a branch.
pub open spec fn is_condition_letter(c: char) -> bool {
    c == 'N' || c == 'Z' || c == 'P'
}

/// The branch that the condition letters `nzp` ask for: each of `N`, `Z` and
/// `P` at most once, in any order. No letter at all is the unconditional
/// branch, which asks for all three flags. Anything else is no instruction.
pub open spec fn branch_named(nzp: Seq<char>) -> OpcodeIns {
    if nzp.no_duplicates() && forall|i: int| 0 <= i < nzp.len() ==> is_condition_letter(nzp[i]) {
        if nzp.len() == 0 {
            OpcodeIns::Br(true, true, true)
        } else {
            OpcodeIns::Br(nzp.contains('N'), nzp.contains('Z'), nzp.contains('P'))
        }
    } else {
        OpcodeIns::INVALID
    }
}

/// The instruction that the upper-case word `name` names. A word that starts
/// with `BR` is a branch with the rest as its condition letters. A word that
/// names nothing gives `INVALID`.
pub open spec fn instruction_named(name: Seq<char>) -> OpcodeIns {
    if name.len() >= 2 && name[0] == 'B' && name[1] == 'R' {
        branch_named(name.skip(2))
    } else if name == "ADD"@ {
        OpcodeIns::Add
    } else if name == "AND"@ {
        OpcodeIns::And
    } else if name == "JMP"@ {
        OpcodeIns::Jmp
    } else if name == "JSR"@ {
        OpcodeIns::Jsr
    } else if name == "JSRR"@ {
        OpcodeIns::Jsrr
    } else if name == "LD"@ {
        OpcodeIns::Ld
    } else if name == "LDI"@ {
        OpcodeIns::Ldi
    } else if name == "LDR"@ {
        OpcodeIns::Ldr
    } else if name == "LEA"@ {
        OpcodeIns::Lea
    } else if name == "NOT"@ {
        OpcodeIns::Not
    } else if name == "RET"@ {
        OpcodeIns::Ret
    } else if name == "RTI"@ {
        OpcodeIns::Rti
    } else if name == "ST"@ {
        OpcodeIns::St
    } else if name == "STI"@ {
        OpcodeIns::Sti
    } else if name == "STR"@ {
        OpcodeIns::Str
    } else if name == "GETC"@ {
        OpcodeIns::Trap(GETC_VAL)
    } else if name == "OUT"@ {
        OpcodeIns::Trap(OUT_VAL)
    } else if name == "PUTS"@ {
        OpcodeIns::Trap(PUTS_VAL)
    } else if name == "IN"@ {
        OpcodeIns::Trap(IN_VAL)
    } else if name == "HALT"@ {
        OpcodeIns::Trap(HALT_VAL)
    } else {
        OpcodeIns::INVALID
    }
}

/// Whether `ins` can be encoded: it is an instruction, and a trap has one of
/// the five known vectors.
pub open spec fn is_encodable(ins: OpcodeIns) -> bool {
    match ins {
        OpcodeIns::Reserved | OpcodeIns::INVALID => false,
        OpcodeIns::Trap(vector) => is_trap_vector(vector),
        _ => true,
    }
}

/// The operands that `ins` takes, in order.
pub open spec fn expected_operands(ins: OpcodeIns) -> Seq<OperandType> {
    match ins {
        OpcodeIns::Add | OpcodeIns::And => seq![
            OperandType::Reg,
            OperandType::Reg,
            OperandType::RegOrImm,
        ],
        OpcodeIns::Br(_, _, _) | OpcodeIns::Jsr => seq![OperandType::Label],
        OpcodeIns::Jmp | OpcodeIns::Jsrr => seq![OperandType::Reg],
        OpcodeIns::Ld | OpcodeIns::Ldi | OpcodeIns::Lea | OpcodeIns::St | OpcodeIns::Sti => seq![
            OperandType::Reg,
            OperandType::Label,
        ],
        OpcodeIns::Ldr | OpcodeIns::Str => seq![
            OperandType::Reg,
            OperandType::Reg,
            OperandType::Imm,
        ],
        OpcodeIns::Not => seq![OperandType::Reg, OperandType::Reg],
        _ => Seq::empty(),
    }
}

/// The width in bits of the signed field that holds an immediate or an
/// offset of `ins`, for the instructions that have one.
pub open spec fn immediate_width(ins: OpcodeIns) -> Option<i32> {
    match ins {
        OpcodeIns::Add | OpcodeIns::And => Some(5i32),
        OpcodeIns::Ldr | OpcodeIns::Str => Some(6i32),
        OpcodeIns::Br(_, _, _) | OpcodeIns::Ld | OpcodeIns::Ldi | OpcodeIns::Lea | OpcodeIns::St
        | OpcodeIns::Sti => Some(9i32),
        OpcodeIns::Jsr => Some(11i32),
        _ => None,
    }
}

/// The four-bit opcode of `ins`. `Reserved` and `INVALID` have none.
pub open spec fn opcode_value(ins: OpcodeIns) -> u16 {
    match ins {
        OpcodeIns::Br(_, _, _) => 0,
        OpcodeIns::Add => 1,
        OpcodeIns::Ld => 2,
        OpcodeIns::St => 3,
        OpcodeIns::Jsr | OpcodeIns::Jsrr => 4,
        OpcodeIns::And => 5,
        OpcodeIns::Ldr => 6,
        OpcodeIns::Str => 7,
        OpcodeIns::Rti => 8,
        OpcodeIns::Not => 9,
        OpcodeIns::Ldi => 10,
        OpcodeIns::Sti => 11,
        OpcodeIns::Jmp | OpcodeIns::Ret => 12,
        OpcodeIns::Lea => 14,
        _ => 15,
    }
}

impl OperandType {
    /// The operand kind in words, as diagnostics name it.
    pub fn as_string(&self) -> (text: String)
        ensures
            text@ == match *self {
                OperandType::Reg => "a register"@,
                OperandType::Label => "a label"@,
                OperandType::Imm => "an immediate value"@,
                OperandType::RegOrImm => "a register or immediate value"@,
                OperandType::String => "a string"@,
            },
    {
        match self {
            OperandType::Reg => "a register".to_owned(),
            OperandType::Label => "a label".to_owned(),
            OperandType::Imm => "an immediate value".to_owned(),
            OperandType::RegOrImm => "a register or immediate value".to_owned(),
            OperandType::String => "a string".to_owned(),
        }
    }
}

impl OpcodeIns {
    /// The instruction that `name` names, in any mix of upper and lower case.
    /// `INVALID` if it names none.
    pub fn from(name: &str) -> (ins: OpcodeIns)
        ensures
            ins == instruction_named(upper_text(name@)),
    {
        let upper = to_upper_chars(name);
        if upper.len() >= 2 && upper[0] == 'B' && upper[1] == 'R' {
            return OpcodeIns::branch(&upper, 2);
        }
        if spells(&upper, "ADD") {
            OpcodeIns::Add
        } else if spells(&upper, "AND") {
            OpcodeIns::And
        } else if spells(&upper, "JMP") {
            OpcodeIns::Jmp
        } else if spells(&upper, "JSR") {
            OpcodeIns::Jsr
        } else if spells(&upper, "JSRR") {
            OpcodeIns::Jsrr
        } else if spells(&upper, "LD") {
            OpcodeIns::Ld
        } else if spells(&upper, "LDI") {
            OpcodeIns::Ldi
        } else if spells(&upper, "LDR") {
            OpcodeIns::Ldr
        } else if spells(&upper, "LEA") {
            OpcodeIns::Lea
        } else if spells(&upper, "NOT") {
            OpcodeIns::Not
        } else if spells(&upper, "RET") {
            OpcodeIns::Ret
        } else if spells(&upper, "RTI") {
            OpcodeIns::Rti
        } else if spells(&upper, "ST") {
            OpcodeIns::St
        } else if spells(&upper, "STI") {
            OpcodeIns::Sti
        } else if spells(&upper, "STR") {
            OpcodeIns::Str
        } else if spells(&upper, "GETC") {
            OpcodeIns::Trap(GETC_VAL)
        } else if spells(&upper, "OUT") {
            OpcodeIns::Trap(OUT_VAL)
        } else if spells(&upper, "PUTS") {
            OpcodeIns::Trap(PUTS_VAL)
        } else if spells(&upper, "IN") {
            OpcodeIns::Trap(IN_VAL)
        } else if spells(&upper, "HALT") {
            OpcodeIns::Trap(HALT_VAL)
        } else {
            OpcodeIns::INVALID
        }
    }

    /// The operands that this instruction takes, in order.
    pub fn get_expected_operands(&self) -> (operands: VecDeque<OperandType>)
        requires
            *self matches OpcodeIns::Trap(vector) ==> is_trap_vector(vector),
        ensures
            operands@ == expected_operands(*self),
    {
        let mut operands: VecDeque<OperandType> = VecDeque::new();
        match self {
            OpcodeIns::Add | OpcodeIns::And => {
                operands.push_back(OperandType::Reg);
                operands.push_back(OperandType::Reg);
                operands.push_back(OperandType::RegOrImm);
            },
            OpcodeIns::Br(_, _, _) | OpcodeIns::Jsr => {
                operands.push_back(OperandType::Label);
            },
            OpcodeIns::Jmp | OpcodeIns::Jsrr => {
                operands.push_back(OperandType::Reg);
            },
            OpcodeIns::Ld | OpcodeIns::Ldi | OpcodeIns::Lea | OpcodeIns::St | OpcodeIns::Sti => {
                operands.push_back(OperandType::Reg);
                operands.push_back(OperandType::Label);
            },
            OpcodeIns::Ldr | OpcodeIns::Str => {
                operands.push_back(OperandType::Reg);
                operands.push_back(OperandType::Reg);
                operands.push_back(OperandType::Imm);
            },
            OpcodeIns::Not => {
                operands.push_back(OperandType::Reg);
                operands.push_back(OperandType::Reg);
            },
            _ => {},
        }
        operands
    }

    /// The branch that the condition letters `nzp` ask for: what stands
    /// behind `BR` in the mnemonic, in upper case.
    pub fn get_br(nzp: &str) -> (ins: OpcodeIns)
        ensures
            ins == branch_named(nzp@),
    {
        let letters = to_chars(nzp);
        assert(letters@.skip(0) =~= letters@);
        OpcodeIns::branch(&letters, 0)
    }

    /// The branch that the letters of `word` from `start` on ask for.
    fn branch(word: &Vec<char>, start: usize) -> (ins: OpcodeIns)
        requires
            start <= word@.len(),
        ensures
            ins == branch_named(word@.skip(start as int)),
    {
        let ghost nzp = word@.skip(start as int);
        let mut n = false;
        let mut z = false;
        let mut p = false;
        let mut index: usize = start;
        while index < word.len()
            invariant
                start <= index <= word@.len(),
                nzp == word@.skip(start as int),
                nzp.take(index - start).no_duplicates(),
                forall|i: int| 0 <= i < index - start ==> is_condition_letter(nzp[i]),
                n == nzp.take(index - start).contains('N'),
                z == nzp.take(index - start).contains('Z'),
                p == nzp.take(index - start).contains('P'),
            decreases word@.len() - index,
        {
            let c = word[index];
            let ghost seen = nzp.take(index - start);
            let ghost at = index - start;
            assert(nzp.take(at + 1) =~= seen.push(c));
            let repeated = match c {
                'N' => n,
                'Z' => z,
                'P' => p,
                _ => {
                    assert(!is_condition_letter(nzp[at]));
                    return OpcodeIns::INVALID;
                },
            };
            if repeated {
                proof {
                    let earlier = choose|i: int| 0 <= i < seen.len() && seen[i] == c;
                    assert(nzp[earlier] == nzp[at] && earlier != at);
                }
                return OpcodeIns::INVALID;
            }
            match c {
                'N' => {
                    n = true;
                },
                'Z' => {
                    z = true;
                },
                _ => {
                    p = true;
                },
            }
            proof {
                let next = seen.push(c);
                assert(next[at] == c);
            }
            index += 1;
        }
        assert(nzp.take(nzp.len() as int) =~= nzp);
        if !n && !z && !p {
            proof {
                if nzp.len() > 0 {
                    assert(nzp.contains(nzp[0]));
                }
            }
            OpcodeIns::Br(true, true, true)
        } else {
            OpcodeIns::Br(n, z, p)
        }
    }

    /// The width in bits of the signed field that holds an immediate or an
    /// offset of this instruction, or `None` where it has none.
    pub fn get_immediate_value_width(&self) -> (width: Option<i32>)
        ensures
            width == immediate_width(*self),
    {
        match self {
            OpcodeIns::Add | OpcodeIns::And => Some(5),
            OpcodeIns::Ldr | OpcodeIns::Str => Some(6),
            OpcodeIns::Br(_, _, _) | OpcodeIns::Ld | OpcodeIns::Ldi => Some(9),
            OpcodeIns::Lea | OpcodeIns::St | OpcodeIns::Sti => Some(9),
            OpcodeIns::Jsr => Some(11),
            _ => None,
        }
    }

    /// The four-bit opcode of this instruction.
    pub fn get_opcode_value(&self) -> (opcode: u16)
        requires
            *self != OpcodeIns::Reserved,
            *self != OpcodeIns::INVALID,
        ensures
            opcode == opcode_value(*self),
            opcode < 16,
    {
        match self {
            OpcodeIns::Br(_, _, _) => 0,
            OpcodeIns::Add => 1,
            OpcodeIns::Ld => 2,
            OpcodeIns::St => 3,
            OpcodeIns::Jsr | OpcodeIns::Jsrr => 4,
            OpcodeIns::And => 5,
            OpcodeIns::Ldr => 6,
            OpcodeIns::Str => 7,
            OpcodeIns::Rti => 8,
            OpcodeIns::Not => 9,
            OpcodeIns::Ldi => 10,
            OpcodeIns::Sti => 11,
            OpcodeIns::Jmp | OpcodeIns::Ret => 12,
            OpcodeIns::Lea => 14,
            _ => 15,
        }
    }
}

} // verus!
