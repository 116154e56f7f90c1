//! What each instruction does to the registers and the word store.
//!
//! Every instruction gets the low twelve bits of its word, the opcode already
//! taken off. The `*_registers` and `*_memory` functions say what an
//! instruction leaves behind; the `exe` of each instruction is proved against
//! them.
use super::memory::Memory;
use super::registers::{RegisterState, Registers};
use super::vm::{InstructionResult, VmError};
use crate::io::Lc3IO;
use vstd::arithmetic::power2::{lemma2_to64, pow2};
use vstd::bits::{lemma_u16_shr_is_div, lemma_u32_shl_is_mul};
use vstd::prelude::*;

verus! {

/// Bits 11 to 9 of an instruction: the destination or source register.
pub open spec fn dest_reg(value: u16) -> int {
    ((value / 512) % 8) as int
}

/// Bits 8 to 6 of an instruction: the first source or the base register.
pub open spec fn base_reg(value: u16) -> int {
    ((value / 64) % 8) as int
}

/// Bits 2 to 0 of an instruction: the second source register.
pub open spec fn src2_reg(value: u16) -> int {
    (value % 8) as int
}

/// Whether bit `index` of `value` is set.
pub open spec fn bit_set(value: u16, index: u32) -> bool {
    (value as int / pow2(index as nat) as int) % 2 == 1
}

/// The number that the low `width` bits of `field` stand for in two's
/// complement: bit `width - 1` is the sign.
pub open spec fn field_value(field: u16, width: u32) -> int {
    let modulus = pow2(width as nat) as int;
    let low = field as int % modulus;
    if 2 * low >= modulus {
        low - modulus
    } else {
        low
    }
}

/// The low `width` bits of `field` widened to a word: the bits above the field
/// are all copies of the field's sign bit.
pub open spec fn sign_extend_spec(field: u16, width: u32) -> u16 {
    let v = field_value(field, width);
    if v < 0 {
        (v + 0x1_0000) as u16
    } else {
        v as u16
    }
}

/// The address `offset` words away from `base`, where `offset` is the signed
/// field in the low `width` bits of `value`. Addresses wrap around.
pub open spec fn target_address(base: u16, value: u16, width: u32) -> u16 {
    base.wrapping_add(sign_extend_spec(value, width))
}

/// What an extended field stands for: read as a signed word, it is the
/// field's two's-complement value.
pub proof fn lemma_sign_extend_value(field: u16, width: u32)
    requires
        1 <= width <= 16,
    ensures
        super::registers::signed(sign_extend_spec(field, width)) == field_value(field, width),
        -(pow2((width - 1) as nat) as int) <= field_value(field, width) < pow2(
            (width - 1) as nat,
        ),
        sign_extend_spec(field, width) as int % (pow2(width as nat) as int) == field as int % (pow2(
            width as nat,
        ) as int),
{
    lemma2_to64();
    vstd::arithmetic::power2::lemma_pow2_unfold(width as nat);
    vstd::arithmetic::power2::lemma_pow2_strictly_increases((width - 1) as nat, 16);
    if width < 16 {
        vstd::arithmetic::power2::lemma_pow2_strictly_increases(width as nat, 16);
    }
    let modulus = pow2(width as nat) as int;
    let low = field as int % modulus;
    vstd::arithmetic::div_mod::lemma_mod_twice(field as int, modulus);
    if 2 * low >= modulus {
        let rest = pow2((16 - width) as nat) as int;
        vstd::arithmetic::power2::lemma_pow2_adds(width as nat, (16 - width) as nat);
        vstd::arithmetic::power2::lemma_pow2_pos((16 - width) as nat);
        assert(low - modulus + 0x1_0000 == modulus * (rest - 1) + low) by (nonlinear_arith)
            requires
                modulus * rest == 0x1_0000,
        ;
        vstd::arithmetic::div_mod::lemma_mod_multiples_vanish(rest - 1, low, modulus);
    }
}

/// Two to the power `width`.
pub fn field_modulus(width: u32) -> (modulus: u32)
    requires
        width <= 16,
    ensures
        modulus == pow2(width as nat),
        1 <= modulus <= 0x1_0000,
{
    proof {
        lemma2_to64();
        if width < 16 {
            vstd::arithmetic::power2::lemma_pow2_strictly_increases(width as nat, 16);
        }
        vstd::arithmetic::power2::lemma_pow2_pos(width as nat);
        lemma_u32_shl_is_mul(1u32, width);
    }
    1u32 << width
}

/// Widens the signed field in the low `width` bits of `field` to a word.
pub fn sign_extend(field: u16, width: u32) -> (word: u16)
    requires
        1 <= width <= 16,
    ensures
        word == sign_extend_spec(field, width),
{
    let modulus = field_modulus(width);
    let low = (field as u32) % modulus;
    if 2 * low >= modulus {
        (low + 0x1_0000 - modulus) as u16
    } else {
        low as u16
    }
}

/// Bits 11 to 9 of `value` as a register number.
fn dest_index(value: u16) -> (index: usize)
    ensures
        index == dest_reg(value),
        index < 8,
{
    assert(((value >> 9) & 7) == (value / 512) % 8) by (bit_vector);
    ((value >> 9) & 7) as usize
}

/// Bits 8 to 6 of `value` as a register number.
fn base_index(value: u16) -> (index: usize)
    ensures
        index == base_reg(value),
        index < 8,
{
    assert(((value >> 6) & 7) == (value / 64) % 8) by (bit_vector);
    ((value >> 6) & 7) as usize
}

/// Bits 2 to 0 of `value` as a register number.
fn src2_index(value: u16) -> (index: usize)
    ensures
        index == src2_reg(value),
        index < 8,
{
    assert((value & 7) == value % 8) by (bit_vector);
    (value & 7) as usize
}

/// Whether bit `index` of `value` is set.
fn has_bit(value: u16, index: u16) -> (set: bool)
    requires
        index < 16,
    ensures
        set == bit_set(value, index as u32),
{
    let shifted = value >> index;
    proof {
        lemma_u16_shr_is_div(value, index);
        assert((shifted & 1) == shifted % 2) by (bit_vector);
    }
    (shifted & 1) == 1
}

/// The second operand of `ADD` and `AND`: with bit 5 set it is the signed
/// five-bit immediate in bits 4 to 0, else the register named by bits 2 to 0.
pub open spec fn second_operand(value: u16, reg: RegisterState) -> u16 {
    if bit_set(value, 5) {
        sign_extend_spec(value, 5)
    } else {
        reg.r[src2_reg(value)]
    }
}

/// `ADD`: the destination gets the sum of the first source and the second
/// operand, cut to sixteen bits, and the flags describe it.
pub open spec fn add_registers(value: u16, reg: RegisterState) -> RegisterState {
    let result = reg.r[base_reg(value)].wrapping_add(second_operand(value, reg));
    reg.with_reg(dest_reg(value), result).with_flags(result)
}

/// `AND`: the destination gets the bitwise and of the first source and the
/// second operand, and the flags describe it.
pub open spec fn and_registers(value: u16, reg: RegisterState) -> RegisterState {
    let result = reg.r[base_reg(value)] & second_operand(value, reg);
    reg.with_reg(dest_reg(value), result).with_flags(result)
}

/// `NOT`: the destination gets the bitwise complement of the source, and the
/// flags describe it.
pub open spec fn not_registers(value: u16, reg: RegisterState) -> RegisterState {
    let result = !reg.r[base_reg(value)];
    reg.with_reg(dest_reg(value), result).with_flags(result)
}

/// Whether `BR` branches: bits 11, 10 and 9 ask for the flags n, z and p. With
/// all three set the branch is unconditional; else it is taken when a flag
/// that was asked for is set.
pub open spec fn br_taken(value: u16, reg: RegisterState) -> bool {
    let n = bit_set(value, 11);
    let z = bit_set(value, 10);
    let p = bit_set(value, 9);
    (n && z && p) || (n && reg.n) || (z && reg.z) || (p && reg.p)
}

/// `BR`: a taken branch moves the program counter by the signed nine-bit
/// offset; a branch not taken changes nothing.
pub open spec fn br_registers(value: u16, reg: RegisterState) -> RegisterState {
    if br_taken(value, reg) {
        reg.with_pc(target_address(reg.pc, value, 9))
    } else {
        reg
    }
}

/// A branch that asks for all three flags is always taken. A branch that
/// asks for the zero flag alone is taken exactly when that flag is set. A
/// branch that is not taken changes nothing, so the program counter stays
/// behind the branch.
pub proof fn lemma_branch(value: u16, reg: RegisterState)
    ensures
        bit_set(value, 11) && bit_set(value, 10) && bit_set(value, 9) ==> br_taken(value, reg),
        !bit_set(value, 11) && bit_set(value, 10) && !bit_set(value, 9) ==> br_taken(value, reg)
            == reg.z,
        !br_taken(value, reg) ==> br_registers(value, reg) == reg,
        br_taken(value, reg) ==> br_registers(value, reg) == reg.with_pc(
            target_address(reg.pc, value, 9),
        ),
{
}

/// `JMP` and `RET`: the program counter gets the value of the base register.
pub open spec fn jmp_registers(value: u16, reg: RegisterState) -> RegisterState {
    reg.with_pc(reg.r[base_reg(value)])
}

/// `JSR` and `JSRR`: `R7` gets the program counter; then the program counter
/// moves by the signed eleven-bit offset (bit 11 set) or gets the value of the
/// base register (bit 11 clear).
pub open spec fn jsr_registers(value: u16, reg: RegisterState) -> RegisterState {
    let linked = reg.with_reg(7, reg.pc);
    if bit_set(value, 11) {
        linked.with_pc(target_address(reg.pc, value, 11))
    } else {
        linked.with_pc(linked.r[base_reg(value)])
    }
}

/// A load: the destination gets `loaded`, and the flags describe it.
pub open spec fn load_registers(value: u16, reg: RegisterState, loaded: u16) -> RegisterState {
    reg.with_reg(dest_reg(value), loaded).with_flags(loaded)
}

/// `LD`: loads the word at the program counter plus the nine-bit offset.
pub open spec fn ld_registers(value: u16, reg: RegisterState, mem: Seq<u16>) -> RegisterState {
    load_registers(value, reg, mem[target_address(reg.pc, value, 9) as int])
}

/// `LDI`: loads the word whose address is stored at the program counter plus
/// the nine-bit offset.
pub open spec fn ldi_registers(value: u16, reg: RegisterState, mem: Seq<u16>) -> RegisterState {
    load_registers(value, reg, mem[mem[target_address(reg.pc, value, 9) as int] as int])
}

/// `LDR`: loads the word at the base register plus the six-bit offset.
pub open spec fn ldr_registers(value: u16, reg: RegisterState, mem: Seq<u16>) -> RegisterState {
    load_registers(value, reg, mem[target_address(reg.r[base_reg(value)], value, 6) as int])
}

/// `LEA`: loads the address itself, the program counter plus the nine-bit
/// offset. No word is read.
pub open spec fn lea_registers(value: u16, reg: RegisterState) -> RegisterState {
    load_registers(value, reg, target_address(reg.pc, value, 9))
}

/// `ST`: stores the register at the program counter plus the nine-bit offset.
pub open spec fn st_memory(value: u16, reg: RegisterState, mem: Seq<u16>) -> Seq<u16> {
    mem.update(target_address(reg.pc, value, 9) as int, reg.r[dest_reg(value)])
}

/// `STI`: stores the register at the address that is stored at the program
/// counter plus the nine-bit offset.
pub open spec fn sti_memory(value: u16, reg: RegisterState, mem: Seq<u16>) -> Seq<u16> {
    mem.update(mem[target_address(reg.pc, value, 9) as int] as int, reg.r[dest_reg(value)])
}

/// `STR`: stores the register at the base register plus the six-bit offset.
pub open spec fn str_memory(value: u16, reg: RegisterState, mem: Seq<u16>) -> Seq<u16> {
    mem.update(
        target_address(reg.r[base_reg(value)], value, 6) as int,
        reg.r[dest_reg(value)],
    )
}

/// `RTI` is not implemented: the machine halts.
pub open spec fn rti_registers(reg: RegisterState) -> RegisterState {
    reg.halted()
}

/// The second operand of `ADD` and `AND`.
fn operand_two(value: u16, reg: &Registers) -> (operand: u16)
    ensures
        operand == second_operand(value, reg@),
{
    if has_bit(value, 5) {
        sign_extend(value, 5)
    } else {
        reg.get(src2_index(value))
    }
}

/// The address a signed field of `value` points to from `base`.
fn address(base: u16, value: u16, width: u32) -> (target: u16)
    requires
        1 <= width <= 16,
    ensures
        target == target_address(base, value, width),
{
    base.wrapping_add(sign_extend(value, width))
}

/// Writes a loaded word to the destination register and sets the flags.
fn load(value: u16, reg: &mut Registers, loaded: u16)
    ensures
        final(reg)@ == load_registers(value, old(reg)@, loaded),
{
    reg.set(dest_index(value), loaded);
    reg.update_flags(loaded);
}

/// One instruction of the machine. `value` is the instruction word without
/// its opcode.
pub trait Instruction {
    fn exe(
        &self,
        value: u16,
        reg: &mut Registers,
        mem: &mut Memory,
        io: &mut Lc3IO,
    ) -> InstructionResult;
}

/// `ADD`: addition of two registers, or of a register and an immediate.
pub struct Add;

/// `AND`: bitwise and of two registers, or of a register and an immediate.
pub struct And;

/// `BR`: branch on the condition flags.
pub struct Br;

/// `JMP` and `RET`: jump to the address in a register.
pub struct JmpRet;

/// `JSR` and `JSRR`: jump to a subroutine, with the way back in `R7`.
pub struct Jsr;

/// `LD`: load from an address relative to the program counter.
pub struct Ld;

/// `LDI`: load through a pointer that is stored relative to the program counter.
pub struct Ldi;

/// `LDR`: load from an address relative to a base register.
pub struct Ldr;

/// `LEA`: load an address relative to the program counter.
pub struct Lea;

/// `NOT`: bitwise complement of a register.
pub struct Not;

/// `RTI`: return from an interrupt, which this machine does not implement.
pub struct Rti;

/// `ST`: store at an address relative to the program counter.
pub struct St;

/// `STI`: store through a pointer that is stored relative to the program counter.
pub struct Sti;

/// `STR`: store at an address relative to a base register.
pub struct Str;

impl Instruction for Add {
    fn exe(&self, value: u16, reg: &mut Registers, mem: &mut Memory, io: &mut Lc3IO) -> (result:
        InstructionResult)
        ensures
            result == InstructionResult::Ready,
            final(reg)@ == add_registers(value, old(reg)@),
            final(mem)@ == old(mem)@,
            *final(io) == *old(io),
    {
        let sum = reg.get(base_index(value)).wrapping_add(operand_two(value, reg));
        load(value, reg, sum);
        InstructionResult::Ready
    }
}

impl Instruction for And {
    fn exe(&self, value: u16, reg: &mut Registers, mem: &mut Memory, io: &mut Lc3IO) -> (result:
        InstructionResult)
        ensures
            result == InstructionResult::Ready,
            final(reg)@ == and_registers(value, old(reg)@),
            final(mem)@ == old(mem)@,
            *final(io) == *old(io),
    {
        let both = reg.get(base_index(value)) & operand_two(value, reg);
        load(value, reg, both);
        InstructionResult::Ready
    }
}

impl Instruction for Not {
    fn exe(&self, value: u16, reg: &mut Registers, mem: &mut Memory, io: &mut Lc3IO) -> (result:
        InstructionResult)
        ensures
            result == InstructionResult::Ready,
            final(reg)@ == not_registers(value, old(reg)@),
            final(mem)@ == old(mem)@,
            *final(io) == *old(io),
    {
        let complement = !reg.get(base_index(value));
        load(value, reg, complement);
        InstructionResult::Ready
    }
}

impl Instruction for Br {
    fn exe(&self, value: u16, reg: &mut Registers, mem: &mut Memory, io: &mut Lc3IO) -> (result:
        InstructionResult)
        ensures
            result == InstructionResult::Ready,
            final(reg)@ == br_registers(value, old(reg)@),
            final(mem)@ == old(mem)@,
            *final(io) == *old(io),
    {
        let n = has_bit(value, 11);
        let z = has_bit(value, 10);
        let p = has_bit(value, 9);
        if (n && z && p) || (n && reg.n) || (z && reg.z) || (p && reg.p) {
            reg.pc = address(reg.pc, value, 9);
        }
        InstructionResult::Ready
    }
}

impl Instruction for JmpRet {
    fn exe(&self, value: u16, reg: &mut Registers, mem: &mut Memory, io: &mut Lc3IO) -> (result:
        InstructionResult)
        ensures
            result == InstructionResult::Ready,
            final(reg)@ == jmp_registers(value, old(reg)@),
            final(mem)@ == old(mem)@,
            *final(io) == *old(io),
    {
        reg.pc = reg.get(base_index(value));
        InstructionResult::Ready
    }
}

impl Instruction for Jsr {
    fn exe(&self, value: u16, reg: &mut Registers, mem: &mut Memory, io: &mut Lc3IO) -> (result:
        InstructionResult)
        ensures
            result == InstructionResult::Ready,
            final(reg)@ == jsr_registers(value, old(reg)@),
            final(mem)@ == old(mem)@,
            *final(io) == *old(io),
    {
        let return_address = reg.pc;
        reg.set(7, return_address);
        if has_bit(value, 11) {
            reg.pc = address(return_address, value, 11);
        } else {
            reg.pc = reg.get(base_index(value));
        }
        InstructionResult::Ready
    }
}

impl Instruction for Ld {
    fn exe(&self, value: u16, reg: &mut Registers, mem: &mut Memory, io: &mut Lc3IO) -> (result:
        InstructionResult)
        ensures
            result == InstructionResult::Ready,
            final(reg)@ == ld_registers(value, old(reg)@, old(mem)@),
            final(mem)@ == old(mem)@,
            *final(io) == *old(io),
    {
        let loaded = mem.get(address(reg.pc, value, 9));
        load(value, reg, loaded);
        InstructionResult::Ready
    }
}

impl Instruction for Ldi {
    fn exe(&self, value: u16, reg: &mut Registers, mem: &mut Memory, io: &mut Lc3IO) -> (result:
        InstructionResult)
        ensures
            result == InstructionResult::Ready,
            final(reg)@ == ldi_registers(value, old(reg)@, old(mem)@),
            final(mem)@ == old(mem)@,
            *final(io) == *old(io),
    {
        let pointer = mem.get(address(reg.pc, value, 9));
        let loaded = mem.get(pointer);
        load(value, reg, loaded);
        InstructionResult::Ready
    }
}

impl Instruction for Ldr {
    fn exe(&self, value: u16, reg: &mut Registers, mem: &mut Memory, io: &mut Lc3IO) -> (result:
        InstructionResult)
        ensures
            result == InstructionResult::Ready,
            final(reg)@ == ldr_registers(value, old(reg)@, old(mem)@),
            final(mem)@ == old(mem)@,
            *final(io) == *old(io),
    {
        let base = reg.get(base_index(value));
        let loaded = mem.get(address(base, value, 6));
        load(value, reg, loaded);
        InstructionResult::Ready
    }
}

impl Instruction for Lea {
    fn exe(&self, value: u16, reg: &mut Registers, mem: &mut Memory, io: &mut Lc3IO) -> (result:
        InstructionResult)
        ensures
            result == InstructionResult::Ready,
            final(reg)@ == lea_registers(value, old(reg)@),
            final(mem)@ == old(mem)@,
            *final(io) == *old(io),
    {
        let target = address(reg.pc, value, 9);
        load(value, reg, target);
        InstructionResult::Ready
    }
}

impl Instruction for St {
    fn exe(&self, value: u16, reg: &mut Registers, mem: &mut Memory, io: &mut Lc3IO) -> (result:
        InstructionResult)
        ensures
            result == InstructionResult::Ready,
            final(mem)@ == st_memory(value, old(reg)@, old(mem)@),
            final(reg)@ == old(reg)@,
            *final(io) == *old(io),
    {
        mem.set(address(reg.pc, value, 9), reg.get(dest_index(value)));
        InstructionResult::Ready
    }
}

impl Instruction for Sti {
    fn exe(&self, value: u16, reg: &mut Registers, mem: &mut Memory, io: &mut Lc3IO) -> (result:
        InstructionResult)
        ensures
            result == InstructionResult::Ready,
            final(mem)@ == sti_memory(value, old(reg)@, old(mem)@),
            final(reg)@ == old(reg)@,
            *final(io) == *old(io),
    {
        let pointer = mem.get(address(reg.pc, value, 9));
        mem.set(pointer, reg.get(dest_index(value)));
        InstructionResult::Ready
    }
}

impl Instruction for Str {
    fn exe(&self, value: u16, reg: &mut Registers, mem: &mut Memory, io: &mut Lc3IO) -> (result:
        InstructionResult)
        ensures
            result == InstructionResult::Ready,
            final(mem)@ == str_memory(value, old(reg)@, old(mem)@),
            final(reg)@ == old(reg)@,
            *final(io) == *old(io),
    {
        let base = reg.get(base_index(value));
        mem.set(address(base, value, 6), reg.get(dest_index(value)));
        InstructionResult::Ready
    }
}

impl Instruction for Rti {
    /// `RTI` needs the privileged mode that this machine does not have: the
    /// machine halts and reports the instruction as unsupported.
    fn exe(&self, value: u16, reg: &mut Registers, mem: &mut Memory, io: &mut Lc3IO) -> (result:
        InstructionResult)
        ensures
            result == InstructionResult::FatalError(VmError::Unsupported),
            final(reg)@ == rti_registers(old(reg)@),
            final(mem)@ == old(mem)@,
            *final(io) == *old(io),
    {
        reg.halt = true;
        InstructionResult::FatalError(VmError::Unsupported)
    }
}

} // verus!
