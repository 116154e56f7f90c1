use lc3::io::{DebugIO, Lc3IO};
use lc3::vm::instructions::{
    sign_extend, Add, And, Br, Instruction, JmpRet, Jsr, Ld, Ldi, Ldr, Lea, Not, Rti, St, Sti,
    Str,
};
use lc3::vm::memory::Memory;
use lc3::vm::registers::Registers;
use lc3::vm::vm::{InstructionResult, VmError};

fn parts() -> (Registers, Memory, Lc3IO) {
    (Registers::new(), Memory::new(), Lc3IO::new(Box::new(DebugIO::new())))
}

fn flags(reg: &Registers) -> (bool, bool, bool) {
    (reg.n, reg.z, reg.p)
}

#[test]
fn sign_extension_of_nine_bits() {
    assert_eq!(sign_extend(0b1_1111_1111, 9), 0xFFFF);
    assert_eq!(sign_extend(0b0_1111_1111, 9), 255);
    assert_eq!(sign_extend(0b1_0000_0000, 9), 0xFF00);
    assert_eq!(sign_extend(0, 9), 0);
}

#[test]
fn sign_extension_at_every_width_in_use() {
    assert_eq!(sign_extend(0x1F, 5), 0xFFFF);
    assert_eq!(sign_extend(0x0F, 5), 15);
    assert_eq!(sign_extend(0x10, 5), 0xFFF0);
    assert_eq!(sign_extend(0x3F, 6), 0xFFFF);
    assert_eq!(sign_extend(0x20, 6), 0xFFE0);
    assert_eq!(sign_extend(0x1F, 6), 31);
    assert_eq!(sign_extend(0x7FF, 11), 0xFFFF);
    assert_eq!(sign_extend(0x400, 11), 0xFC00);
    assert_eq!(sign_extend(0x3FF, 11), 1023);
    assert_eq!(sign_extend(0x8000, 16), 0x8000);
    assert_eq!(sign_extend(1, 1), 0xFFFF);
    assert_eq!(sign_extend(0, 1), 0);
}

#[test]
fn sign_extension_ignores_the_bits_above_the_field() {
    assert_eq!(sign_extend(0xFE0F, 5), 15);
    assert_eq!(sign_extend(0xABFF, 9), 0xFFFF);
    assert_eq!(sign_extend(0x12FF, 9), 255);
}

#[test]
fn add_register_and_immediate() {
    let (mut reg, mut mem, mut io) = parts();
    reg.set(2, 40);
    reg.set(3, 2);
    // ADD R1, R2, R3
    assert_eq!(Add {}.exe(0x283, &mut reg, &mut mem, &mut io), InstructionResult::Ready);
    assert_eq!(reg.get(1), 42);
    assert_eq!(flags(&reg), (false, false, true));
    // ADD R1, R1, #-16
    Add {}.exe(0x270, &mut reg, &mut mem, &mut io);
    assert_eq!(reg.get(1), 26);
    // ADD R4, R4, #-1
    Add {}.exe(0x93F, &mut reg, &mut mem, &mut io);
    assert_eq!(reg.get(4), 0xFFFF);
    assert_eq!(flags(&reg), (true, false, false));
    // ADD R4, R4, #1 wraps around to zero
    Add {}.exe(0x921, &mut reg, &mut mem, &mut io);
    assert_eq!(reg.get(4), 0);
    assert_eq!(flags(&reg), (false, true, false));
}

#[test]
fn and_register_and_immediate() {
    let (mut reg, mut mem, mut io) = parts();
    reg.set(2, 0b1100);
    reg.set(3, 0b1010);
    // AND R1, R2, R3
    And {}.exe(0x283, &mut reg, &mut mem, &mut io);
    assert_eq!(reg.get(1), 0b1000);
    assert_eq!(flags(&reg), (false, false, true));
    // AND R1, R2, #-1
    reg.set(2, 0xF00F);
    And {}.exe(0x2BF, &mut reg, &mut mem, &mut io);
    assert_eq!(reg.get(1), 0xF00F);
    assert_eq!(flags(&reg), (true, false, false));
    // AND R1, R1, #0
    And {}.exe(0x260, &mut reg, &mut mem, &mut io);
    assert_eq!(reg.get(1), 0);
    assert_eq!(flags(&reg), (false, true, false));
}

#[test]
fn not_complements() {
    let (mut reg, mut mem, mut io) = parts();
    reg.set(2, 0x00FF);
    // NOT R1, R2
    Not {}.exe(0x2BF, &mut reg, &mut mem, &mut io);
    assert_eq!(reg.get(1), 0xFF00);
    assert_eq!(reg.get(2), 0x00FF);
    assert_eq!(flags(&reg), (true, false, false));
}

#[test]
fn br_without_conditions_always_branches() {
    for (n, z, p) in [(false, false, false), (true, false, false), (false, true, false), (false, false, true)] {
        let (mut reg, mut mem, mut io) = parts();
        reg.pc = 0x3001;
        reg.n = n;
        reg.z = z;
        reg.p = p;
        // BRnzp +5
        Br {}.exe(0xE05, &mut reg, &mut mem, &mut io);
        assert_eq!(reg.pc, 0x3006);
    }
}

#[test]
fn brz_branches_exactly_when_z_is_set() {
    let (mut reg, mut mem, mut io) = parts();
    reg.pc = 0x3001;
    reg.p = true;
    // BRz -2
    Br {}.exe(0x5FE, &mut reg, &mut mem, &mut io);
    assert_eq!(reg.pc, 0x3001);
    reg.p = false;
    reg.n = true;
    Br {}.exe(0x5FE, &mut reg, &mut mem, &mut io);
    assert_eq!(reg.pc, 0x3001);
    reg.n = false;
    reg.z = true;
    Br {}.exe(0x5FE, &mut reg, &mut mem, &mut io);
    assert_eq!(reg.pc, 0x2FFF);
}

#[test]
fn br_with_no_bit_set_never_branches() {
    let (mut reg, mut mem, mut io) = parts();
    reg.pc = 0x3001;
    reg.z = true;
    Br {}.exe(0x005, &mut reg, &mut mem, &mut io);
    assert_eq!(reg.pc, 0x3001);
}

#[test]
fn br_wraps_around_the_address_space() {
    let (mut reg, mut mem, mut io) = parts();
    reg.pc = 0x0000;
    Br {}.exe(0xFFF, &mut reg, &mut mem, &mut io);
    assert_eq!(reg.pc, 0xFFFF);
    Br {}.exe(0xE01, &mut reg, &mut mem, &mut io);
    assert_eq!(reg.pc, 0x0000);
}

#[test]
fn jmp_and_ret() {
    let (mut reg, mut mem, mut io) = parts();
    reg.set(3, 0x4000);
    reg.set(7, 0x5000);
    // JMP R3
    JmpRet {}.exe(0x0C0, &mut reg, &mut mem, &mut io);
    assert_eq!(reg.pc, 0x4000);
    // RET
    JmpRet {}.exe(0x1C0, &mut reg, &mut mem, &mut io);
    assert_eq!(reg.pc, 0x5000);
}

#[test]
fn jsr_and_jsrr_link_through_r7() {
    let (mut reg, mut mem, mut io) = parts();
    reg.pc = 0x3001;
    // JSR -1
    Jsr {}.exe(0xFFF, &mut reg, &mut mem, &mut io);
    assert_eq!(reg.get(7), 0x3001);
    assert_eq!(reg.pc, 0x3000);
    // JSRR R2
    reg.set(2, 0x6000);
    reg.pc = 0x3005;
    Jsr {}.exe(0x080, &mut reg, &mut mem, &mut io);
    assert_eq!(reg.get(7), 0x3005);
    assert_eq!(reg.pc, 0x6000);
    // JSRR R7 reads the base after the link
    reg.pc = 0x3009;
    Jsr {}.exe(0x1C0, &mut reg, &mut mem, &mut io);
    assert_eq!(reg.get(7), 0x3009);
    assert_eq!(reg.pc, 0x3009);
}

#[test]
fn loads() {
    let (mut reg, mut mem, mut io) = parts();
    reg.pc = 0x3001;
    mem.set(0x3003, 0x4000);
    mem.set(0x4000, 0x8001);
    mem.set(0x4005, 0x0000);
    // LD R1, +2
    Ld {}.exe(0x202, &mut reg, &mut mem, &mut io);
    assert_eq!(reg.get(1), 0x4000);
    assert_eq!(flags(&reg), (false, false, true));
    // LDI R2, +2
    Ldi {}.exe(0x402, &mut reg, &mut mem, &mut io);
    assert_eq!(reg.get(2), 0x8001);
    assert_eq!(flags(&reg), (true, false, false));
    // LDR R3, R1, #5
    Ldr {}.exe(0x645, &mut reg, &mut mem, &mut io);
    assert_eq!(reg.get(3), 0);
    assert_eq!(flags(&reg), (false, true, false));
    // LEA R4, -1
    Lea {}.exe(0x9FF, &mut reg, &mut mem, &mut io);
    assert_eq!(reg.get(4), 0x3000);
    assert_eq!(flags(&reg), (false, false, true));
}

#[test]
fn stores() {
    let (mut reg, mut mem, mut io) = parts();
    reg.pc = 0x3001;
    reg.set(1, 0x1111);
    reg.set(2, 0x5000);
    reg.z = true;
    mem.set(0x3004, 0x4000);
    // ST R1, +2
    St {}.exe(0x202, &mut reg, &mut mem, &mut io);
    assert_eq!(mem.get(0x3003), 0x1111);
    // STI R1, +3
    Sti {}.exe(0x203, &mut reg, &mut mem, &mut io);
    assert_eq!(mem.get(0x4000), 0x1111);
    assert_eq!(mem.get(0x3004), 0x4000);
    // STR R1, R2, #-1
    Str {}.exe(0x2BF, &mut reg, &mut mem, &mut io);
    assert_eq!(mem.get(0x4FFF), 0x1111);
    assert_eq!(flags(&reg), (false, true, false));
    assert_eq!(reg.get(1), 0x1111);
}

#[test]
fn rti_halts_as_unsupported() {
    let (mut reg, mut mem, mut io) = parts();
    assert_eq!(
        Rti {}.exe(0, &mut reg, &mut mem, &mut io),
        InstructionResult::FatalError(VmError::Unsupported)
    );
    assert!(reg.halt);
}

#[test]
fn registers_start_at_zero() {
    let reg = Registers::new();
    assert_eq!(reg.r, [0; 8]);
    assert_eq!((reg.pc, reg.ir), (0, 0));
    assert_eq!(flags(&reg), (false, false, false));
    assert!(!reg.halt);
}

#[test]
fn registers_set_and_get() {
    let mut reg = Registers::new();
    reg.z = true;
    reg.set(7, 0xABCD);
    reg.set(0, 1);
    assert_eq!(reg.get(7), 0xABCD);
    assert_eq!(reg.get(0), 1);
    assert_eq!(reg.get(3), 0);
    assert_eq!(flags(&reg), (false, true, false));
}

#[test]
fn exactly_one_flag_after_an_update() {
    let mut reg = Registers::new();
    reg.update_flags(0);
    assert_eq!(flags(&reg), (false, true, false));
    reg.update_flags(1);
    assert_eq!(flags(&reg), (false, false, true));
    reg.update_flags(0x7FFF);
    assert_eq!(flags(&reg), (false, false, true));
    reg.update_flags(0x8000);
    assert_eq!(flags(&reg), (true, false, false));
    reg.update_flags(0xFFFF);
    assert_eq!(flags(&reg), (true, false, false));
}

#[test]
fn memory_starts_zeroed_and_keeps_what_is_set() {
    let mut mem = Memory::new();
    assert_eq!(mem.get(0), 0);
    assert_eq!(mem.get(0xFFFF), 0);
    mem.set(0xFFFF, 7);
    mem.set(0, 9);
    assert_eq!(mem.get(0xFFFF), 7);
    assert_eq!(mem.get(0), 9);
    assert_eq!(mem.get(1), 0);
    mem.clear();
    assert_eq!(mem.get(0xFFFF), 0);
    assert_eq!(mem.get(0), 0);
}

#[test]
fn load_file_copies_behind_the_origin() {
    let mut mem = Memory::new();
    mem.set(0x2FFF, 5);
    mem.set(0x3003, 6);
    mem.load_file(vec![0x3000, 1, 2, 3]);
    assert_eq!(mem.get(0x2FFF), 5);
    assert_eq!(mem.get(0x3000), 1);
    assert_eq!(mem.get(0x3001), 2);
    assert_eq!(mem.get(0x3002), 3);
    assert_eq!(mem.get(0x3003), 6);
    mem.load_file(vec![0xFFFF, 8]);
    assert_eq!(mem.get(0xFFFF), 8);
    mem.load_file(vec![0x1234]);
    assert_eq!(mem.get(0x1234), 0);
}

#[test]
fn memory_from_and_to_words() {
    let mut words = vec![0u16; 65536];
    words[0] = 1;
    words[0x3000] = 0xF025;
    words[65535] = 9;
    let mem = Memory::from_words(&words).unwrap();
    assert_eq!(mem.get(0), 1);
    assert_eq!(mem.get(0x3000), 0xF025);
    assert_eq!(mem.get(65535), 9);
    assert_eq!(mem.to_words(), words);
    assert!(Memory::from_words(&vec![0u16; 65535]).is_none());
    assert!(Memory::from_words(&vec![0u16; 65537]).is_none());
    assert!(Memory::from_words(&vec![]).is_none());
}
