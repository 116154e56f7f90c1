//! From one statement to its words.
//!
//! An instruction word holds the opcode in bits 15 to 12 and the operands in
//! the twelve bits below. Registers take three bits each. An immediate or an
//! offset is a signed field at the low end of the word.
use super::asm_error::ErrorType;
use super::asm_ins::{
    expected_operands, immediate_width, is_encodable, opcode_value, OpcodeIns, OperandType,
    GETC_VAL, HALT_VAL, IN_VAL, OUT_VAL, PUTS_VAL,
};
use super::directive::{directive_operands, Directive};
use super::symbols::SymbolTable;
use super::token::{Token, TokenKind, TokenType, TokenView};
use crate::io::{char_to_word, char_word};
use crate::vm::instructions::field_modulus;
use std::collections::VecDeque;
use vstd::arithmetic::power2::{lemma2_to64, pow2};
use vstd::prelude::*;
use vstd::string::*;

verus! {

/// Whether the token `actual` is an operand of the kind `expected`. A
/// register has to be one of the eight that exist.
pub open spec fn operand_matches(expected: OperandType, actual: TokenKind) -> bool {
    match expected {
        OperandType::Reg => actual matches TokenKind::Register(index) && index < 8,
        OperandType::Label => actual is Label,
        OperandType::Imm => actual is Number,
        OperandType::RegOrImm => actual is Number || (actual matches TokenKind::Register(index)
            && index < 8),
        OperandType::String => actual is Text,
    }
}

/// Whether `operands` are what `expected` asks for, in number and in kind.
pub open spec fn shape_matches(expected: Seq<OperandType>, operands: Seq<TokenView>) -> bool {
    &&& expected.len() == operands.len()
    &&& forall|i: int| 0 <= i < expected.len() ==> operand_matches(expected[i], operands[i].kind)
}

/// Whether `value` fits a signed field of `width` bits.
pub open spec fn fits(value: int, width: nat) -> bool {
    -(pow2((width - 1) as nat) as int) <= value < pow2((width - 1) as nat)
}

/// The bits of a signed field of `width` bits that holds `value`: a
/// negative value is stored as its two's complement.
pub open spec fn field_bits(value: int, width: nat) -> int {
    if value < 0 {
        value + pow2(width)
    } else {
        value
    }
}

/// The field for the immediate `value`, or the error if it does not fit.
pub open spec fn immediate_field(value: int, width: nat) -> Result<u16, ErrorType> {
    if fits(value, width) {
        Ok(field_bits(value, width) as u16)
    } else {
        Err(ErrorType::ImmediateRangeError)
    }
}

/// The field for a reference to `label` from the instruction at `address`:
/// the distance from the address behind the instruction to the label. The
/// label has to be defined, and the distance has to fit the field.
pub open spec fn offset_field(
    symbols: Map<Seq<char>, u16>,
    label: Seq<char>,
    address: int,
    width: nat,
) -> Result<u16, ErrorType> {
    if !symbols.dom().contains(label) {
        Err(ErrorType::UnresolvedLabelError)
    } else {
        immediate_field(symbols[label] - (address + 1), width)
    }
}

/// The number of the register that the token names.
pub open spec fn register_of(kind: TokenKind) -> int {
    match kind {
        TokenKind::Register(index) => index as int,
        _ => 0,
    }
}

/// The value of the number that the token holds.
pub open spec fn number_of(kind: TokenKind) -> int {
    match kind {
        TokenKind::Number(value) => value as int,
        _ => 0,
    }
}

/// The name of the label that the token holds.
pub open spec fn label_of(kind: TokenKind) -> Seq<char> {
    match kind {
        TokenKind::Label(name) => name,
        _ => Seq::empty(),
    }
}

/// The text that the token holds.
pub open spec fn text_of(kind: TokenKind) -> Seq<char> {
    match kind {
        TokenKind::Text(text) => text,
        _ => Seq::empty(),
    }
}

/// A signed word as a pattern of sixteen bits.
pub open spec fn pattern(value: i16) -> u16 {
    if value < 0 {
        (value + 0x1_0000) as u16
    } else {
        value as u16
    }
}

/// The width in bits of the signed field of `ins`, or zero where it has
/// none.
pub open spec fn field_width(ins: OpcodeIns) -> nat {
    match immediate_width(ins) {
        Some(width) => width as nat,
        None => 0,
    }
}

/// `bits` put behind the opcode and the fixed bits in `base`.
pub open spec fn with_field(base: int, field: Result<u16, ErrorType>) -> Result<u16, ErrorType> {
    match field {
        Ok(bits) => Ok((base + bits) as u16),
        Err(e) => Err(e),
    }
}

/// The word for the instruction `ins` at `address` with the operands
/// `operands`, which are of the right shape.
pub open spec fn encode_instruction(
    ins: OpcodeIns,
    operands: Seq<TokenView>,
    address: int,
    symbols: Map<Seq<char>, u16>,
) -> Result<u16, ErrorType> {
    let op = opcode_value(ins) * 4096;
    match ins {
        OpcodeIns::Add | OpcodeIns::And => {
            let base = op + register_of(operands[0].kind) * 512 + register_of(operands[1].kind)
                * 64;
            if operands[2].kind is Register {
                Ok((base + register_of(operands[2].kind)) as u16)
            } else {
                with_field(base + 32, immediate_field(number_of(operands[2].kind), field_width(ins)))
            }
        },
        OpcodeIns::Not => Ok(
            (op + register_of(operands[0].kind) * 512 + register_of(operands[1].kind) * 64
                + 63) as u16,
        ),
        OpcodeIns::Br(n, z, p) => with_field(
            op + (if n {
                2048int
            } else {
                0
            }) + (if z {
                1024int
            } else {
                0
            }) + (if p {
                512int
            } else {
                0
            }),
            offset_field(symbols, label_of(operands[0].kind), address, field_width(ins)),
        ),
        OpcodeIns::Jmp | OpcodeIns::Jsrr => Ok((op + register_of(operands[0].kind) * 64) as u16),
        OpcodeIns::Ret => Ok((op + 7 * 64) as u16),
        OpcodeIns::Jsr => with_field(
            op + 2048,
            offset_field(symbols, label_of(operands[0].kind), address, field_width(ins)),
        ),
        OpcodeIns::Ld | OpcodeIns::Ldi | OpcodeIns::Lea | OpcodeIns::St | OpcodeIns::Sti => {
            with_field(
                op + register_of(operands[0].kind) * 512,
                offset_field(symbols, label_of(operands[1].kind), address, field_width(ins)),
            )
        },
        OpcodeIns::Ldr | OpcodeIns::Str => with_field(
            op + register_of(operands[0].kind) * 512 + register_of(operands[1].kind) * 64,
            immediate_field(number_of(operands[2].kind), field_width(ins)),
        ),
        OpcodeIns::Rti => Ok(op as u16),
        OpcodeIns::Trap(vector) => Ok((op + vector) as u16),
        _ => Err(ErrorType::InvalidTokenError),
    }
}

/// The words that a directive with the operands `operands`, which are of
/// the right shape, puts into the image.
pub open spec fn directive_words(directive: Directive, operands: Seq<TokenView>) -> Seq<u16> {
    match directive {
        Directive::FILL => seq![pattern(number_of(operands[0].kind) as i16)],
        Directive::BLKW => Seq::new(
            pattern(number_of(operands[0].kind) as i16) as nat,
            |i: int| 0u16,
        ),
        Directive::STRINGZ => text_of(operands[0].kind).map_values(|c: char| char_word(c)).push(
            0u16,
        ),
        _ => Seq::empty(),
    }
}

/// The words for the statement that starts with the token `head` at
/// `address`, or what is wrong with it.
///
/// A statement is refused, in this order, when its head is no instruction
/// that can be encoded, when its operands are not of the right shape, when a
/// label is not defined, and when a number or an offset does not fit its
/// field.
pub open spec fn encode_statement(
    head: TokenKind,
    operands: Seq<TokenView>,
    address: int,
    symbols: Map<Seq<char>, u16>,
) -> Result<Seq<u16>, ErrorType> {
    match head {
        TokenKind::Instruction(ins) => {
            if !is_encodable(ins) {
                Err(ErrorType::InvalidTokenError)
            } else if !shape_matches(expected_operands(ins), operands) {
                Err(ErrorType::OperandShapeError)
            } else {
                match encode_instruction(ins, operands, address, symbols) {
                    Ok(word) => Ok(seq![word]),
                    Err(e) => Err(e),
                }
            }
        },
        TokenKind::Directive(directive) => {
            if !shape_matches(directive_operands(directive), operands) {
                Err(ErrorType::OperandShapeError)
            } else {
                Ok(directive_words(directive, operands))
            }
        },
        _ => Err(ErrorType::InvalidTokenError),
    }
}

/// How many words the statement that starts with `head` takes up, as far as
/// its operands say.
pub open spec fn statement_size(head: TokenKind, operands: Seq<TokenView>) -> int {
    match head {
        TokenKind::Instruction(_) => 1,
        TokenKind::Directive(directive) => {
            if shape_matches(directive_operands(directive), operands) {
                directive_words(directive, operands).len() as int
            } else if directive == Directive::FILL {
                1
            } else {
                0
            }
        },
        _ => 0,
    }
}

/// A statement that is encoded takes up as many words as were counted for
/// it.
pub proof fn lemma_size_is_length(
    head: TokenKind,
    operands: Seq<TokenView>,
    address: int,
    symbols: Map<Seq<char>, u16>,
)
    ensures
        encode_statement(head, operands, address, symbols) matches Ok(words) ==> words.len()
            == statement_size(head, operands),
{
}

/// A reference that is encoded leads back to the label: the address behind
/// the instruction plus the value of the field is the address of the label.
pub proof fn lemma_offset_leads_to_label(
    symbols: Map<Seq<char>, u16>,
    label: Seq<char>,
    address: int,
    width: nat,
)
    requires
        1 <= width <= 16,
        offset_field(symbols, label, address, width).is_ok(),
    ensures
        symbols.dom().contains(label),
        offset_field(symbols, label, address, width).unwrap() < pow2(width),
        address + 1 + crate::vm::instructions::field_value(
            offset_field(symbols, label, address, width).unwrap(),
            width as u32,
        ) == symbols[label],
{
    lemma2_to64();
    vstd::arithmetic::power2::lemma_pow2_unfold(width);
    vstd::arithmetic::power2::lemma_pow2_strictly_increases((width - 1) as nat, 16);
    if width < 16 {
        vstd::arithmetic::power2::lemma_pow2_strictly_increases(width, 16);
    }
    let bits = offset_field(symbols, label, address, width).unwrap() as int;
    let modulus = pow2(width) as int;
    assert(bits % modulus == bits) by {
        vstd::arithmetic::div_mod::lemma_small_mod(bits as nat, modulus as nat);
    }
}

/// The machine arrives at the label: when it executes a word whose low
/// bits are the field of a reference, the address that it computes from the
/// program counter behind the word is the address of the label.
pub proof fn lemma_reference_is_followed(
    symbols: Map<Seq<char>, u16>,
    label: Seq<char>,
    address: int,
    width: nat,
    value: u16,
)
    requires
        1 <= width <= 16,
        0 <= address < 0xFFFF,
        offset_field(symbols, label, address, width).is_ok(),
        value as int % (pow2(width) as int) == offset_field(
            symbols,
            label,
            address,
            width,
        ).unwrap(),
    ensures
        crate::vm::instructions::target_address((address + 1) as u16, value, width as u32)
            == symbols[label],
{
    lemma_offset_leads_to_label(symbols, label, address, width);
    let bits = offset_field(symbols, label, address, width).unwrap();
    let modulus = pow2(width) as int;
    assert(bits as int % modulus == bits) by {
        vstd::arithmetic::div_mod::lemma_small_mod(bits as nat, modulus as nat);
    }
    crate::vm::instructions::lemma_sign_extend_value(value, width as u32);
}

/// Two references to one label lead to the same address, whether they stand
/// in front of the label's definition or behind it.
pub proof fn lemma_references_agree(
    symbols: Map<Seq<char>, u16>,
    label: Seq<char>,
    before: int,
    after: int,
    width_before: nat,
    width_after: nat,
)
    requires
        1 <= width_before <= 16,
        1 <= width_after <= 16,
        offset_field(symbols, label, before, width_before).is_ok(),
        offset_field(symbols, label, after, width_after).is_ok(),
    ensures
        before + 1 + crate::vm::instructions::field_value(
            offset_field(symbols, label, before, width_before).unwrap(),
            width_before as u32,
        ) == after + 1 + crate::vm::instructions::field_value(
            offset_field(symbols, label, after, width_after).unwrap(),
            width_after as u32,
        ),
{
    lemma_offset_leads_to_label(symbols, label, before, width_before);
    lemma_offset_leads_to_label(symbols, label, after, width_after);
}

/// Whether `token` is an operand of the kind `expected`.
fn operand_fits(expected: OperandType, token: &TokenType) -> (fits: bool)
    ensures
        fits == operand_matches(expected, token@),
{
    match expected {
        OperandType::Reg => match token {
            TokenType::Register(index) => *index < 8,
            _ => false,
        },
        OperandType::Label => match token {
            TokenType::Label(_) => true,
            _ => false,
        },
        OperandType::Imm => match token {
            TokenType::Number(_) => true,
            _ => false,
        },
        OperandType::RegOrImm => match token {
            TokenType::Number(_) => true,
            TokenType::Register(index) => *index < 8,
            _ => false,
        },
        OperandType::String => match token {
            TokenType::String(_) => true,
            _ => false,
        },
    }
}

/// Whether the tokens from `first` up to `end` are the operands that
/// `expected` asks for.
fn check_shape(expected: &VecDeque<OperandType>, tokens: &Vec<Token>, first: usize, end: usize)
    -> (ok: bool)
    requires
        first <= end <= tokens@.len(),
    ensures
        ok == shape_matches(expected@, tokens.deep_view().subrange(first as int, end as int)),
{
    let ghost operands = tokens.deep_view().subrange(first as int, end as int);
    if expected.len() != end - first {
        return false;
    }
    let mut index: usize = 0;
    while index < expected.len()
        invariant
            first <= end <= tokens@.len(),
            expected@.len() == end - first,
            index <= expected@.len(),
            operands == tokens.deep_view().subrange(first as int, end as int),
            forall|i: int| 0 <= i < index ==> operand_matches(expected@[i], operands[i].kind),
        decreases expected@.len() - index,
    {
        if !operand_fits(expected[index], &tokens[first + index].inner_token) {
            return false;
        }
        index += 1;
    }
    true
}

/// The number of the register that `token` names.
fn register_in(token: &Token) -> (index: u16)
    ensures
        index == register_of(token@.kind),
{
    match &token.inner_token {
        TokenType::Register(index) => *index,
        _ => 0,
    }
}

/// The value of the number that `token` holds.
fn number_in(token: &Token) -> (value: i16)
    ensures
        value == number_of(token@.kind),
{
    match &token.inner_token {
        TokenType::Number(value) => *value,
        _ => 0,
    }
}

/// The name of the label that `token` holds.
pub fn label_in(token: &Token) -> (name: &str)
    ensures
        name@ == label_of(token@.kind),
{
    match &token.inner_token {
        TokenType::Label(name) => name.as_str(),
        _ => {
            proof {
                reveal_strlit("");
            }
            ""
        },
    }
}

/// The bits of `value` as an unsigned word.
fn to_pattern(value: i16) -> (bits: u16)
    ensures
        bits == pattern(value),
{
    if value < 0 {
        (value as i32 + 0x1_0000) as u16
    } else {
        value as u16
    }
}

/// The field of `width` bits for `value`, or the error if it does not fit.
fn immediate(value: i32, width: u32) -> (field: Result<u16, ErrorType>)
    requires
        1 <= width <= 11,
        -0x2_0000 <= value <= 0x2_0000,
    ensures
        field == immediate_field(value as int, width as nat),
        field matches Ok(bits) ==> bits < pow2(width as nat),
{
    proof {
        lemma2_to64();
        vstd::arithmetic::power2::lemma_pow2_unfold(width as nat);
        if width < 11 {
            vstd::arithmetic::power2::lemma_pow2_strictly_increases((width - 1) as nat, 10);
        }
    }
    let half = field_modulus(width - 1) as i32;
    if -half <= value && value < half {
        if value < 0 {
            Ok((value + 2 * half) as u16)
        } else {
            Ok(value as u16)
        }
    } else {
        Err(ErrorType::ImmediateRangeError)
    }
}

/// The field of `width` bits for a reference to the label in `token` from
/// the instruction at `address`.
fn offset(symbols: &SymbolTable, token: &Token, address: u32, width: u32) -> (field: Result<
    u16,
    ErrorType,
>)
    requires
        1 <= width <= 11,
        address <= 0x1_0000,
        token@.kind is Label,
    ensures
        field == offset_field(symbols@, label_of(token@.kind), address as int, width as nat),
        field matches Ok(bits) ==> bits < pow2(width as nat),
{
    match symbols.lookup(label_in(token)) {
        Some(target) => immediate(target as i32 - (address as i32 + 1), width),
        None => Err(ErrorType::UnresolvedLabelError),
    }
}

/// Puts the field behind the fixed bits in `base`.
fn place(base: u16, field: Result<u16, ErrorType>) -> (word: Result<u16, ErrorType>)
    requires
        field matches Ok(bits) ==> base + bits <= 0xFFFF,
    ensures
        word == with_field(base as int, field),
{
    match field {
        Ok(bits) => Ok(base + bits),
        Err(e) => Err(e),
    }
}

/// The width in bits of the signed field of `ins`, or zero where it has
/// none.
fn width_of(ins: OpcodeIns) -> (width: u32)
    ensures
        width == field_width(ins),
{
    match ins.get_immediate_value_width() {
        Some(width) => width as u32,
        None => 0,
    }
}

/// The word for the instruction `ins` at `address`, whose operands are the
/// tokens from `first` up to `end`.
fn encode_word(
    ins: OpcodeIns,
    tokens: &Vec<Token>,
    first: usize,
    end: usize,
    address: u32,
    symbols: &SymbolTable,
) -> (word: Result<u16, ErrorType>)
    requires
        first <= end <= tokens@.len(),
        address <= 0x1_0000,
        is_encodable(ins),
        shape_matches(
            expected_operands(ins),
            tokens.deep_view().subrange(first as int, end as int),
        ),
    ensures
        word == encode_instruction(
            ins,
            tokens.deep_view().subrange(first as int, end as int),
            address as int,
            symbols@,
        ),
{
    let ghost operands = tokens.deep_view().subrange(first as int, end as int);
    let ghost expected = expected_operands(ins);
    proof {
        lemma2_to64();
    }
    let op: u16 = ins.get_opcode_value() * 4096;
    let width = width_of(ins);
    match ins {
        OpcodeIns::Add | OpcodeIns::And => {
            let dr = register_in(&tokens[first]);
            let sr1 = register_in(&tokens[first + 1]);
            let base = op + dr * 512 + sr1 * 64;
            match &tokens[first + 2].inner_token {
                TokenType::Register(sr2) => Ok(base + *sr2),
                _ => {
                    let value = number_in(&tokens[first + 2]);
                    let field = immediate(value as i32, width);
                    place(base + 32, field)
                },
            }
        },
        OpcodeIns::Not => {
            let dr = register_in(&tokens[first]);
            let sr = register_in(&tokens[first + 1]);
            Ok(op + dr * 512 + sr * 64 + 63)
        },
        OpcodeIns::Br(n, z, p) => {
            let flags: u16 = (if n {
                2048
            } else {
                0
            }) + (if z {
                1024
            } else {
                0
            }) + (if p {
                512
            } else {
                0
            });
            let field = offset(symbols, &tokens[first], address, width);
            place(op + flags, field)
        },
        OpcodeIns::Jmp | OpcodeIns::Jsrr => {
            assert(operand_matches(expected[0], operands[0].kind));
            Ok(op + register_in(&tokens[first]) * 64)
        },
        OpcodeIns::Ret => Ok(op + 7 * 64),
        OpcodeIns::Jsr => {
            let field = offset(symbols, &tokens[first], address, width);
            place(op + 2048, field)
        },
        OpcodeIns::Ld | OpcodeIns::Ldi | OpcodeIns::Lea | OpcodeIns::St | OpcodeIns::Sti => {
            let register = register_in(&tokens[first]);
            let field = offset(symbols, &tokens[first + 1], address, width);
            place(op + register * 512, field)
        },
        OpcodeIns::Ldr | OpcodeIns::Str => {
            let register = register_in(&tokens[first]);
            let base = register_in(&tokens[first + 1]);
            let value = number_in(&tokens[first + 2]);
            let field = immediate(value as i32, width);
            place(op + register * 512 + base * 64, field)
        },
        OpcodeIns::Rti => Ok(op),
        OpcodeIns::Trap(vector) => Ok(op + vector),
        _ => Err(ErrorType::InvalidTokenError),
    }
}

/// Whether `ins` can be encoded.
pub fn encodable(ins: OpcodeIns) -> (yes: bool)
    ensures
        yes == is_encodable(ins),
{
    match ins {
        OpcodeIns::Reserved | OpcodeIns::INVALID => false,
        OpcodeIns::Trap(vector) => vector == GETC_VAL || vector == OUT_VAL || vector == PUTS_VAL
            || vector == IN_VAL || vector == HALT_VAL,
        _ => true,
    }
}

/// The words that the directive puts into the image.
fn expand(directive: Directive, tokens: &Vec<Token>, first: usize, end: usize) -> (words: Vec<u16>)
    requires
        first <= end <= tokens@.len(),
        shape_matches(
            directive_operands(directive),
            tokens.deep_view().subrange(first as int, end as int),
        ),
    ensures
        words@ == directive_words(directive, tokens.deep_view().subrange(first as int, end as int)),
{
    let ghost operands = tokens.deep_view().subrange(first as int, end as int);
    let ghost expected = directive_operands(directive);
    let mut words: Vec<u16> = Vec::new();
    match directive {
        Directive::FILL => {
            words.push(to_pattern(number_in(&tokens[first])));
        },
        Directive::BLKW => {
            let count = to_pattern(number_in(&tokens[first]));
            let mut made: u16 = 0;
            while made < count
                invariant
                    made <= count,
                    words@.len() == made,
                    forall|i: int| 0 <= i < made ==> words@[i] == 0,
                decreases count - made,
            {
                words.push(0);
                made += 1;
            }
        },
        Directive::STRINGZ => {
            assert(operand_matches(expected[0], operands[0].kind));
            match &tokens[first].inner_token {
                TokenType::String(text) => {
                    let ghost codes = text@.map_values(|c: char| char_word(c));
                    let chars = text.as_str().chars();
                    for c in it: chars
                        invariant
                            it.seq() == text@,
                            codes == text@.map_values(|c: char| char_word(c)),
                            words@ == codes.take(it.index()),
                    {
                        words.push(char_to_word(c));
                    }
                    words.push(0);
                },
                _ => {},
            }
        },
        _ => {},
    }
    words
}

/// The words for the statement that starts with `head` at `address` and has
/// the tokens from `first` up to `end` as its operands, or what is wrong
/// with it.
pub fn encode(
    head: &TokenType,
    tokens: &Vec<Token>,
    first: usize,
    end: usize,
    address: u32,
    symbols: &SymbolTable,
) -> (words: Result<Vec<u16>, ErrorType>)
    requires
        first <= end <= tokens@.len(),
        address <= 0x1_0000,
    ensures
        match words {
            Ok(w) => encode_statement(
                head@,
                tokens.deep_view().subrange(first as int, end as int),
                address as int,
                symbols@,
            ) == Ok::<Seq<u16>, ErrorType>(w@),
            Err(e) => encode_statement(
                head@,
                tokens.deep_view().subrange(first as int, end as int),
                address as int,
                symbols@,
            ) == Err::<Seq<u16>, ErrorType>(e),
        },
{
    match head {
        TokenType::Instruction(ins) => {
            if !encodable(*ins) {
                return Err(ErrorType::InvalidTokenError);
            }
            let expected = ins.get_expected_operands();
            if !check_shape(&expected, tokens, first, end) {
                return Err(ErrorType::OperandShapeError);
            }
            match encode_word(*ins, tokens, first, end, address, symbols) {
                Ok(word) => {
                    let mut words: Vec<u16> = Vec::new();
                    words.push(word);
                    Ok(words)
                },
                Err(e) => Err(e),
            }
        },
        TokenType::Directive(directive) => {
            let expected = directive.get_expected_operands();
            if !check_shape(&expected, tokens, first, end) {
                return Err(ErrorType::OperandShapeError);
            }
            Ok(expand(*directive, tokens, first, end))
        },
        _ => Err(ErrorType::InvalidTokenError),
    }
}

/// The origin that the operands of `.ORIG` give, if they are one number.
pub open spec fn origin_of(operands: Seq<TokenView>) -> Option<u16> {
    if shape_matches(directive_operands(Directive::ORIG), operands) {
        Some(pattern(number_of(operands[0].kind) as i16))
    } else {
        None
    }
}

/// The origin that the tokens from `first` up to `end` give as the operands
/// of `.ORIG`.
pub fn read_origin(tokens: &Vec<Token>, first: usize, end: usize) -> (origin: Option<u16>)
    requires
        first <= end <= tokens@.len(),
    ensures
        origin == origin_of(tokens.deep_view().subrange(first as int, end as int)),
{
    let expected = Directive::ORIG.get_expected_operands();
    if check_shape(&expected, tokens, first, end) {
        Some(to_pattern(number_in(&tokens[first])))
    } else {
        None
    }
}

/// The size of a statement as the first pass counts it, where any size
/// that is larger than the whole address space counts as one word more than
/// the address space holds.
pub open spec fn capped_size(head: TokenKind, operands: Seq<TokenView>) -> int {
    if statement_size(head, operands) > 0x1_0000 {
        0x1_0001
    } else {
        statement_size(head, operands)
    }
}

/// How many words the statement that starts with `head` takes up, with the
/// tokens from `first` up to `end` as its operands.
pub fn size_of(head: &TokenType, tokens: &Vec<Token>, first: usize, end: usize) -> (size: u32)
    requires
        first <= end <= tokens@.len(),
    ensures
        size == capped_size(head@, tokens.deep_view().subrange(first as int, end as int)),
{
    let ghost operands = tokens.deep_view().subrange(first as int, end as int);
    match head {
        TokenType::Instruction(_) => 1,
        TokenType::Directive(directive) => {
            let expected = directive.get_expected_operands();
            if !check_shape(&expected, tokens, first, end) {
                return match directive {
                    Directive::FILL => 1,
                    _ => 0,
                };
            }
            match directive {
                Directive::FILL => 1,
                Directive::BLKW => {
                    to_pattern(number_in(&tokens[first])) as u32
                },
                Directive::STRINGZ => {
                    assert(operand_matches(directive_operands(*directive)[0], operands[0].kind));
                    match &tokens[first].inner_token {
                        TokenType::String(text) => {
                            let length = text.as_str().unicode_len();
                            if length >= 0x1_0000 {
                                0x1_0001
                            } else {
                                length as u32 + 1
                            }
                        },
                        _ => 0,
                    }
                },
                _ => 0,
            }
        },
        _ => 0,
    }
}

/// A word put together from an opcode, two registers and six low bits
/// comes apart into the same pieces.
proof fn lemma_word_fields(op: u16, dr: u16, sr1: u16, low: u16)
    by (bit_vector)
    requires
        op < 16,
        dr < 8,
        sr1 < 8,
        low < 64,
    ensures
        op * 4096 + dr * 512 + sr1 * 64 + low < 0x1_0000,
        ({
            let word = (op * 4096 + dr * 512 + sr1 * 64 + low) as u16;
            let value = word % 4096;
            &&& word / 4096 == op
            &&& (value / 512) % 8 == dr
            &&& (value / 64) % 8 == sr1
            &&& value % 64 == low
            &&& value % 32 == low % 32
            &&& value % 8 == low % 8
            &&& (value / 32) % 2 == low / 32
        }),
{
}

/// The operands of `ADD` and `AND` survive encoding: the word holds the
/// opcode, both registers and the second operand where the machine reads
/// them. An immediate from -16 to 15 comes back as the same number, and a
/// register as the same register.
pub proof fn lemma_add_and_round_trip(
    ins: OpcodeIns,
    operands: Seq<TokenView>,
    address: int,
    symbols: Map<Seq<char>, u16>,
)
    requires
        ins == OpcodeIns::Add || ins == OpcodeIns::And,
        shape_matches(expected_operands(ins), operands),
        operands[2].kind is Number ==> -16 <= number_of(operands[2].kind) <= 15,
    ensures
        encode_instruction(ins, operands, address, symbols).is_ok(),
        ({
            let word = encode_instruction(ins, operands, address, symbols).unwrap();
            let value = crate::vm::vm::operand_bits(word);
            &&& crate::vm::vm::opcode_of(word) == opcode_value(ins)
            &&& crate::vm::instructions::dest_reg(value) == register_of(operands[0].kind)
            &&& crate::vm::instructions::base_reg(value) == register_of(operands[1].kind)
            &&& crate::vm::instructions::bit_set(value, 5) == (operands[2].kind is Number)
            &&& operands[2].kind is Number ==> crate::vm::instructions::field_value(value, 5)
                == number_of(operands[2].kind)
            &&& operands[2].kind is Register ==> crate::vm::instructions::src2_reg(value)
                == register_of(operands[2].kind)
        }),
{
    lemma2_to64();
    let op = opcode_value(ins);
    let dr = register_of(operands[0].kind) as u16;
    let sr1 = register_of(operands[1].kind) as u16;
    let low: u16 = if operands[2].kind is Register {
        register_of(operands[2].kind) as u16
    } else {
        (32 + field_bits(number_of(operands[2].kind), 5)) as u16
    };
    lemma_word_fields(op, dr, sr1, low);
}

/// A branch is encoded with the flags it asks for in bits 11, 10 and 9, so
/// that the machine tests exactly those flags.
pub proof fn lemma_branch_flags(
    n: bool,
    z: bool,
    p: bool,
    operands: Seq<TokenView>,
    address: int,
    symbols: Map<Seq<char>, u16>,
)
    requires
        encode_instruction(OpcodeIns::Br(n, z, p), operands, address, symbols).is_ok(),
    ensures
        ({
            let word = encode_instruction(
                OpcodeIns::Br(n, z, p),
                operands,
                address,
                symbols,
            ).unwrap();
            let value = crate::vm::vm::operand_bits(word);
            &&& crate::vm::vm::opcode_of(word) == 0
            &&& crate::vm::instructions::bit_set(value, 11) == n
            &&& crate::vm::instructions::bit_set(value, 10) == z
            &&& crate::vm::instructions::bit_set(value, 9) == p
        }),
{
    lemma2_to64();
    vstd::arithmetic::power2::lemma_pow2_unfold(9);
}

} // verus!
