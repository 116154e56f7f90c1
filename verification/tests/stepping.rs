use lc3::io::{DebugIO, Lc3IO};
use lc3::vm::vm::{InstructionResult, VmError};
use lc3::vm::webvm::WebVM;

fn machine() -> WebVM {
    WebVM::new(Lc3IO::new(Box::new(DebugIO::new())))
}

#[test]
fn a_fresh_machine_waits_for_nothing() {
    let web = machine();
    assert!(!web.is_awaiting_input());
    assert!(!web.get_is_running());
    assert!(!web.get_program_loaded());
    assert!(!web.is_halted());
    assert_eq!(web.get_pc(), 0);
    assert_eq!(web.mem_get(0x3000), 0);
}

#[test]
fn stepping_notes_when_the_machine_waits() {
    let mut web = machine();
    // GETC, OUT, HALT
    web.load_into_memory(vec![0x3000, 0xF020, 0xF021, 0xF025]);
    assert_eq!(web.get_pc(), 0);
    web.set_pc(0x3000);
    assert_eq!(web.mem_get(0x3001), 0xF021);

    assert_eq!(web.step(), InstructionResult::AwaitingInput);
    assert!(web.is_awaiting_input());
    assert_eq!(web.get_pc(), 0x3000);
    assert_eq!(web.step(), InstructionResult::AwaitingInput);
    assert_eq!(web.get_pc(), 0x3000);

    web.vm.io.push_input('w');
    assert_eq!(web.step(), InstructionResult::Ready);
    assert!(!web.is_awaiting_input());
    assert_eq!(web.get_pc(), 0x3001);
    assert_eq!(web.get_reg_value_as_hex(0), "x0077");

    assert_eq!(web.step(), InstructionResult::Ready);
    assert_eq!(web.vm.io.output(), &vec!['w']);
    assert_eq!(web.get_ir_value_as_hex(), "xF021");
    assert_eq!(web.get_pc_value_as_hex(), "x3002");

    assert_eq!(web.step(), InstructionResult::Halted);
    assert!(web.is_halted());
    assert_eq!(web.step(), InstructionResult::Halted);
    assert_eq!(web.get_pc(), 0x3003);
}

#[test]
fn reset_clears_the_words_and_the_halt() {
    let mut web = machine();
    web.load_into_memory(vec![0x3000, 0xF025]);
    web.set_pc(0x3000);
    web.set_reg(4, 0xBEEF);
    web.set_awaiting_input(true);
    web.set_is_running(true);
    web.set_program_loaded(true);
    assert_eq!(web.step(), InstructionResult::Halted);
    assert!(web.is_halted());
    web.reset_machine();
    assert!(!web.is_halted());
    assert!(!web.is_awaiting_input());
    assert!(web.get_is_running());
    assert!(web.get_program_loaded());
    assert_eq!(web.mem_get(0x3000), 0);
    assert_eq!(web.get_pc(), 0x3001);
    assert_eq!(web.get_reg_value_as_hex(4), "xBEEF");
}

#[test]
fn flags_of_the_host_are_kept_apart() {
    let mut web = machine();
    web.set_is_running(true);
    assert!(web.get_is_running() && !web.get_program_loaded() && !web.is_awaiting_input());
    web.set_program_loaded(true);
    web.set_is_running(false);
    assert!(!web.get_is_running() && web.get_program_loaded());
    web.set_awaiting_input(true);
    assert!(web.is_awaiting_input());
}

#[test]
fn a_fatal_step_is_reported() {
    let mut web = machine();
    web.set_pc(0xFFFF);
    assert_eq!(web.step(), InstructionResult::FatalError(VmError::Overflow));
    assert!(web.is_halted());
    assert!(!web.is_awaiting_input());
}
