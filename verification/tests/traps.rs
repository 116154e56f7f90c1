use lc3::io::{char_to_word, word_to_char, DebugIO, IOTarget, Lc3IO};
use lc3::vm::instructions::Instruction;
use lc3::vm::memory::Memory;
use lc3::vm::registers::Registers;
use lc3::vm::trap::Trap;
use lc3::vm::vm::{InstructionResult, VmError};
use std::collections::VecDeque;

fn written(io: &Lc3IO) -> String {
    io.output().iter().collect()
}

fn store(mem: &mut Memory, at: u16, text: &str) {
    let mut address = at;
    for c in text.chars() {
        mem.set(address, c as u16);
        address += 1;
    }
    mem.set(address, 0);
}

#[test]
fn trap_test_out() {
    let mut io = Lc3IO::new(Box::new(DebugIO::new()));
    let mut reg = Registers::new();
    let trap = Trap {};

    reg.set(0, 'a' as u16);

    trap.out(&mut reg, &mut io);

    reg.set(0, 'p' as u16);

    trap.out(&mut reg, &mut io);
    trap.out(&mut reg, &mut io);

    assert_eq!(written(&io), "app");
}

#[test]
fn test_out() {
    let mut io = Lc3IO::new(Box::new(DebugIO::new()));
    let mut reg = Registers::new();
    let trap = Trap {};
    reg.set(0, 0x1241);
    assert_eq!(trap.out(&mut reg, &mut io), InstructionResult::Ready);
    assert_eq!(written(&io), "A");
    assert_eq!(reg.get(0), 0x1241);
}

#[test]
fn getc_waits_without_touching_the_registers() {
    let mut io = Lc3IO::new(Box::new(DebugIO::new()));
    let mut reg = Registers::new();
    reg.set(0, 0xBEEF);
    reg.pc = 0x3001;
    let trap = Trap {};
    assert_eq!(trap.get_c(&mut reg, &mut io), InstructionResult::AwaitingInput);
    assert_eq!(reg.get(0), 0xBEEF);
    assert_eq!(reg.pc, 0x3001);
    io.push_input('q');
    assert_eq!(trap.get_c(&mut reg, &mut io), InstructionResult::Ready);
    assert_eq!(reg.get(0), 'q' as u16);
    assert_eq!(reg.pc, 0x3001);
    assert_eq!(trap.get_c(&mut reg, &mut io), InstructionResult::AwaitingInput);
    assert_eq!(reg.get(0), 'q' as u16);
}

#[test]
fn getc_reads_from_the_target_when_nothing_is_queued() {
    let mut io = Lc3IO::new(Box::new(DebugIO::with_input(VecDeque::from(vec![b'x', b'y']))));
    let mut reg = Registers::new();
    let trap = Trap {};
    io.push_input('a');
    assert_eq!(trap.get_c(&mut reg, &mut io), InstructionResult::Ready);
    assert_eq!(reg.get(0), 'a' as u16);
    assert_eq!(trap.get_c(&mut reg, &mut io), InstructionResult::Ready);
    assert_eq!(reg.get(0), 'x' as u16);
    assert_eq!(trap.get_c(&mut reg, &mut io), InstructionResult::Ready);
    assert_eq!(reg.get(0), 'y' as u16);
    assert_eq!(trap.get_c(&mut reg, &mut io), InstructionResult::AwaitingInput);
}

#[test]
fn receive_stores_the_character_or_waits() {
    let mut reg = Registers::new();
    let trap = Trap {};
    assert_eq!(trap.receive(&mut reg, None), InstructionResult::AwaitingInput);
    assert_eq!(reg.get(0), 0);
    assert_eq!(trap.receive(&mut reg, Some('Z')), InstructionResult::Ready);
    assert_eq!(reg.get(0), 'Z' as u16);
    assert_eq!(trap.receive(&mut reg, Some('\u{1F600}')), InstructionResult::Ready);
    assert_eq!(reg.get(0), 0xF600);
}

#[test]
fn puts_writes_up_to_the_first_zero_word() {
    let mut io = Lc3IO::new(Box::new(DebugIO::new()));
    let mut reg = Registers::new();
    let mut mem = Memory::new();
    store(&mut mem, 0x4000, "hello");
    mem.set(0x4006, 'x' as u16);
    reg.set(0, 0x4000);
    let trap = Trap {};
    assert_eq!(trap.put_s(&mut reg, &mut mem, &mut io), InstructionResult::Ready);
    assert_eq!(written(&io), "hello");
    assert_eq!(reg.get(0), 0x4000);
}

#[test]
fn puts_writes_the_low_byte_and_stops_only_at_a_zero_word() {
    let mut io = Lc3IO::new(Box::new(DebugIO::new()));
    let mut reg = Registers::new();
    let mut mem = Memory::new();
    mem.set(0x4000, 0x0141);
    mem.set(0x4001, 0x0100);
    mem.set(0x4002, 0x0042);
    reg.set(0, 0x4000);
    Trap {}.put_s(&mut reg, &mut mem, &mut io);
    assert_eq!(written(&io), "A\0B");
}

#[test]
fn puts_stops_at_the_top_of_memory() {
    let mut io = Lc3IO::new(Box::new(DebugIO::new()));
    let mut reg = Registers::new();
    let mut mem = Memory::new();
    mem.set(0xFFFE, 'o' as u16);
    mem.set(0xFFFF, 'k' as u16);
    mem.set(0x0000, '!' as u16);
    reg.set(0, 0xFFFE);
    Trap {}.put_s(&mut reg, &mut mem, &mut io);
    assert_eq!(written(&io), "ok");
}

#[test]
fn in_writes_the_prompt_and_then_reads() {
    let mut io = Lc3IO::new(Box::new(DebugIO::new()));
    let mut reg = Registers::new();
    let mut mem = Memory::new();
    store(&mut mem, 0x5000, "> ");
    reg.set(0, 0x5000);
    let trap = Trap {};
    assert_eq!(trap.input(&mut reg, &mut mem, &mut io), InstructionResult::AwaitingInput);
    assert_eq!(written(&io), "> ");
    assert_eq!(reg.get(0), 0x5000);
    io.push_input('7');
    assert_eq!(trap.input(&mut reg, &mut mem, &mut io), InstructionResult::Ready);
    assert_eq!(written(&io), "> > ");
    assert_eq!(reg.get(0), '7' as u16);
}

#[test]
fn halt_sets_the_flag() {
    let mut reg = Registers::new();
    assert_eq!(Trap {}.halt(&mut reg), InstructionResult::Halted);
    assert!(reg.halt);
}

#[test]
fn putsp_is_unsupported() {
    let mut io = Lc3IO::new(Box::new(DebugIO::new()));
    let mut reg = Registers::new();
    let mut mem = Memory::new();
    assert_eq!(
        Trap {}.put_sp(&mut reg, &mut mem, &mut io),
        InstructionResult::FatalError(VmError::Unsupported)
    );
    assert!(reg.halt);
    assert!(io.output().is_empty());
}

#[test]
fn trap_dispatches_on_the_vector() {
    let mut io = Lc3IO::new(Box::new(DebugIO::new()));
    let mut mem = Memory::new();
    let trap = Trap {};
    store(&mut mem, 0x4000, "hi");

    let mut reg = Registers::new();
    reg.set(0, 0x4000);
    assert_eq!(trap.exe(0x022, &mut reg, &mut mem, &mut io), InstructionResult::Ready);
    assert_eq!(written(&io), "hi");
    reg.set(0, '!' as u16);
    assert_eq!(trap.exe(0x021, &mut reg, &mut mem, &mut io), InstructionResult::Ready);
    assert_eq!(written(&io), "hi!");
    assert_eq!(trap.exe(0x020, &mut reg, &mut mem, &mut io), InstructionResult::AwaitingInput);
    io.push_input('c');
    assert_eq!(trap.exe(0x020, &mut reg, &mut mem, &mut io), InstructionResult::Ready);
    assert_eq!(reg.get(0), 'c' as u16);
    reg.set(0, 0x4000);
    io.push_input('d');
    assert_eq!(trap.exe(0x023, &mut reg, &mut mem, &mut io), InstructionResult::Ready);
    assert_eq!(written(&io), "hi!hi");
    assert_eq!(reg.get(0), 'd' as u16);
    assert!(!reg.halt);
    assert_eq!(trap.exe(0x025, &mut reg, &mut mem, &mut io), InstructionResult::Halted);
    assert!(reg.halt);

    let mut reg = Registers::new();
    assert_eq!(
        trap.exe(0x024, &mut reg, &mut mem, &mut io),
        InstructionResult::FatalError(VmError::Unsupported)
    );
    assert!(reg.halt);
    let mut reg = Registers::new();
    assert_eq!(
        trap.exe(0x0FF, &mut reg, &mut mem, &mut io),
        InstructionResult::FatalError(VmError::InvalidTrap)
    );
    assert!(reg.halt);
    let mut reg = Registers::new();
    assert_eq!(
        trap.exe(0x000, &mut reg, &mut mem, &mut io),
        InstructionResult::FatalError(VmError::InvalidTrap)
    );
    assert!(reg.halt);
}

#[test]
fn channel_queues_input_and_keeps_a_transcript() {
    let mut io = Lc3IO::new(Box::new(DebugIO::new()));
    assert_eq!(io.get_char(), None);
    io.push_input('1');
    io.push_input('2');
    assert_eq!(io.get_char(), Some('1'));
    assert_eq!(io.get_char(), Some('2'));
    assert_eq!(io.get_char(), None);
    io.put_char('a');
    io.put_str("bc");
    assert_eq!(written(&io), "abc");
    assert_eq!(io.take_output(), vec!['a', 'b', 'c']);
    assert!(io.output().is_empty());
    io.put_char('d');
    assert_eq!(written(&io), "d");
}

#[test]
fn errors_are_reported_on_a_line_of_their_own() {
    let mut io = Lc3IO::new(Box::new(DebugIO::new()));
    io.print_vm_error("Overflow Error", "the PC ran past xFFFF");
    assert_eq!(written(&io), "Overflow Error: the PC ran past xFFFF\n");
    io.take_output();
    io.print_asm_error("line 3: bad");
    assert_eq!(written(&io), "line 3: bad\n");
}

#[test]
fn print_helpers_write_from_r0() {
    let mut io = Lc3IO::new(Box::new(DebugIO::new()));
    let mut reg = Registers::new();
    let mut mem = Memory::new();
    store(&mut mem, 0x10, "xy");
    reg.set(0, 0x10);
    io.print_string(&reg, &mem);
    reg.set(0, 'z' as u16);
    io.print_single_char(&reg);
    assert_eq!(written(&io), "xyz");
}

#[test]
fn debug_target_reads_its_queue_and_collects_bytes() {
    let mut target = DebugIO::with_input(VecDeque::from(vec![b'o', 0xE9]));
    assert_eq!(target.get_char(), Some('o'));
    assert_eq!(target.get_char(), Some('\u{e9}'));
    assert_eq!(target.get_char(), None);
    target.put_char('k');
    target.put_char('\u{4e2d}');
    assert_eq!(target.collected(), &VecDeque::from(vec![b'k', 0x2D]));
    let mut empty = DebugIO::new();
    assert!(empty.collected().is_empty());
    assert_eq!(empty.get_char(), None);
}

#[test]
fn words_and_characters() {
    assert_eq!(word_to_char(0x0041), 'A');
    assert_eq!(word_to_char(0x1241), 'A');
    assert_eq!(word_to_char(0x00E9), '\u{e9}');
    assert_eq!(word_to_char(0xFF00), '\0');
    assert_eq!(char_to_word('A'), 0x41);
    assert_eq!(char_to_word('\u{4e2d}'), 0x4E2D);
    assert_eq!(char_to_word('\u{1F600}'), 0xF600);
}
