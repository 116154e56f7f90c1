//! The assembler directives.
use super::asm_ins::OperandType;
use super::text::{spells, to_chars};
use std::collections::VecDeque;
use vstd::pervasive::unreached;
use vstd::prelude::*;

verus! {

/// A directive: an order to the assembler that is no machine instruction.
#[derive(Debug, PartialEq, Eq, Clone, Copy, Structural)]
pub enum Directive {
    /// `.ORIG address`: the image is loaded at this address.
    ORIG,
    /// `.FILL value`: one word with this value.
    FILL,
    /// `.BLKW count`: this many words of zero.
    BLKW,
    /// `.STRINGZ "text"`: one word per character, then a zero word.
    STRINGZ,
    /// `.END`: the source ends here.
    END,
}

/// The directive that `word` names, if it names one. Names are written in
/// upper case, with the leading dot.
pub open spec fn directive_named(word: Seq<char>) -> Option<Directive> {
    if word == ".ORIG"@ {
        Some(Directive::ORIG)
    } else if word == ".FILL"@ {
        Some(Directive::FILL)
    } else if word == ".BLKW"@ {
        Some(Directive::BLKW)
    } else if word == ".STRINGZ"@ {
        Some(Directive::STRINGZ)
    } else if word == ".END"@ {
        Some(Directive::END)
    } else {
        None
    }
}

/// The operands that `directive` takes, in order.
pub open spec fn directive_operands(directive: Directive) -> Seq<OperandType> {
    match directive {
        Directive::ORIG | Directive::FILL | Directive::BLKW => seq![OperandType::Imm],
        Directive::STRINGZ => seq![OperandType::String],
        Directive::END => Seq::empty(),
    }
}

impl Directive {
    /// The directive that `word` names, or `None` if it names none.
    pub fn parse(word: &str) -> (directive: Option<Directive>)
        ensures
            directive == directive_named(word@),
    {
        let chars = to_chars(word);
        if spells(&chars, ".ORIG") {
            Some(Directive::ORIG)
        } else if spells(&chars, ".FILL") {
            Some(Directive::FILL)
        } else if spells(&chars, ".BLKW") {
            Some(Directive::BLKW)
        } else if spells(&chars, ".STRINGZ") {
            Some(Directive::STRINGZ)
        } else if spells(&chars, ".END") {
            Some(Directive::END)
        } else {
            None
        }
    }

    /// The directive that `word` names.
    pub fn from(word: &str) -> (directive: Directive)
        requires
            directive_named(word@).is_some(),
        ensures
            Some(directive) == directive_named(word@),
    {
        match Directive::parse(word) {
            Some(directive) => directive,
            None => unreached(),
        }
    }

    /// The operands that this directive takes, in order.
    pub fn get_expected_operands(&self) -> (operands: VecDeque<OperandType>)
        ensures
            operands@ == directive_operands(*self),
    {
        let mut operands: VecDeque<OperandType> = VecDeque::new();
        match self {
            Directive::ORIG | Directive::FILL | Directive::BLKW => {
                operands.push_back(OperandType::Imm);
            },
            Directive::STRINGZ => {
                operands.push_back(OperandType::String);
            },
            Directive::END => {},
        }
        operands
    }
}

} // verus!
