use lc3::assembler::assembler::Asm;
use lc3::io::{DebugIO, Lc3IO};
use lc3::vm::vm::{InstructionResult, VmError, VM};

fn quiet_io() -> Lc3IO {
    Lc3IO::new(Box::new(DebugIO::new()))
}

fn run_vm(file: &str) -> VM {
    let file = format!(
        ".orig x0000

        {file}

        halt
        .end"
    );
    let mut assembler = Asm::new().unwrap();

    let binary_file = assembler
        .run(file.to_string())
        .expect("Errors occurred during the assembly process, so the VM could not be run");

    if binary_file.len() == 0 {
        panic!();
    }

    let mut vm = VM::new(quiet_io());

    vm.run(binary_file);

    return vm;
}

#[test]
fn test_add() {
    let vm = run_vm("
        add r1, r1, #10 ; since every register should be set to 0 by default, this should always just put 10 in r1
        add r2, r2, #5
        add r3, r1, r2  ; r3 == 15
        add r4, r3, r3  ; r4 == 30
        ");

    assert_eq!(vm.registers.r[1], 10);
    assert_eq!(vm.registers.r[2], 5);
    assert_eq!(vm.registers.r[3], 15);
    assert_eq!(vm.registers.r[4], 30);
}

#[test]
fn test_and() {
    let vm = run_vm("
            add r1, r1, #15 ; since every register should be set to 0 by default, this should always just put 10 in r1
            add r2, r2, #5
            and r3, r1, r2  ; r3 == 5
            add r4, r4, #6  ; r4 == 6
            and r5, r4, r3  ; r4 == 4
        ");

    assert_eq!(vm.registers.r[3], 5);
    assert_eq!(vm.registers.r[5], 4);
    assert!(!vm.registers.n);
    assert!(!vm.registers.z);
    assert!(vm.registers.p);

    let vm = run_vm("
            add r1, r1, #15 ; since every register should be set to 0 by default, this should always just put 10 in r1
            add r2, r2, #-15
            and r3, r1, r2  ; r3 ==
        ");
    assert!(vm.registers.halt);
}

#[test]
fn test_not() {
    let vm = run_vm("
        br      start
num     .fill   #5300
start   add r1, r1, #15 ; since every register should be set to 0 by default, this should always just put 10 in r1
        add r2, r2, #6  ; r2 == 6

        not r1, r1
        not r2, r2

        ld  r3, num
        not r3, r3
        ");

    assert_eq!(vm.registers.r[1], !15);
    assert_eq!(vm.registers.r[2], !6);
    assert_eq!(vm.registers.r[3], !5300);
}

#[test]
fn test_jmp() {
    let vm = run_vm(
        "
        lea r0, start
        jmp r0
max     .fill xFFFF

end     ld r0, max
        halt

start   ld r1, max
        lea r7, end
        jmp r7
       ",
    );

    assert_eq!(vm.registers.r[0], u16::MAX);
    assert_eq!(vm.registers.r[1], u16::MAX);
}

#[test]
fn test_lea() {
    let vm = run_vm(
        r#"
        lea r0, start
        lea r1, max
        lea r2, string
        lea r3, end
        lea r4, num_16
        halt

max     .fill xFFFF     ; address = 6

end     ld r0, max      ; address = 7
        halt

string .stringz "len=6" ; address = 9 // NULL TERMINATED

start   ld r1, max      ; address = 15
        lea r7, end
        jmp r7
num_16  .fill   #16     ; address = 18
        "#,
    );

    assert_eq!(vm.registers.r[0], 15);
    assert_eq!(vm.registers.r[1], 6);
    assert_eq!(vm.registers.r[2], 9);
    assert_eq!(vm.registers.r[3], 7);
    assert_eq!(vm.registers.r[4], 18);
}

#[test]
fn test_ret() {
    let vm = run_vm(
        "
        lea r7, start
        ret
max     .fill xFFFF

end     ld r0, max
        halt

start   ld r1, max
        lea r7, end
        ret
       ",
    );

    assert_eq!(vm.registers.r[0], u16::MAX);
    assert_eq!(vm.registers.r[1], u16::MAX);
}

#[test]
fn test_pc_overflow_halts_vm() {
    let mut vm = VM::new(quiet_io());
    assert!(vm.registers.halt == false);

    vm.registers.pc = 0xFFFF;
    vm.run_single_command();

    assert!(vm.registers.halt == true);
}

#[test]
fn pc_overflow_changes_nothing_but_the_halt_flag() {
    let mut vm = VM::new(quiet_io());
    vm.registers.pc = 0xFFFF;
    vm.registers.r[3] = 77;
    vm.registers.ir = 0x1234;
    vm.registers.z = true;
    vm.memory.set(0xFFFF, 0x1021);
    vm.memory.set(0x0000, 0x1021);
    let result = vm.run_single_command();
    assert_eq!(result, InstructionResult::FatalError(VmError::Overflow));
    assert!(vm.registers.halt);
    assert_eq!(vm.registers.pc, 0xFFFF);
    assert_eq!(vm.registers.ir, 0x1234);
    assert_eq!(vm.registers.r, [0, 0, 0, 77, 0, 0, 0, 0]);
    assert!(vm.registers.z && !vm.registers.n && !vm.registers.p);
    assert_eq!(vm.memory.get(0xFFFF), 0x1021);
    assert_eq!(vm.memory.get(0x0000), 0x1021);
    assert!(vm.io.output().is_empty());
}

#[test]
fn end_to_end_sum() {
    let source = ".ORIG x3000\nADD R1,R1,#10\nADD R2,R2,#5\nADD R3,R1,R2\nHALT\n.END";
    let mut assembler = Asm::new().unwrap();
    let image = assembler.run(source.to_string()).unwrap();
    assert_eq!(image, vec![0x3000, 0x126A, 0x14A5, 0x1642, 0xF025]);
    let mut vm = VM::new(quiet_io());
    let result = vm.run(image);
    assert_eq!(result, InstructionResult::Halted);
    assert_eq!(vm.registers.r[1], 10);
    assert_eq!(vm.registers.r[2], 5);
    assert_eq!(vm.registers.r[3], 15);
    assert!(vm.registers.halt);
    assert_eq!(vm.registers.pc, 0x3004);
}

#[test]
fn nothing_runs_behind_halt() {
    let mut vm = VM::new(quiet_io());
    // HALT, then ADD R1, R1, #1 twice.
    let result = vm.run(vec![0x3000, 0xF025, 0x1261, 0x1261]);
    assert_eq!(result, InstructionResult::Halted);
    assert!(vm.registers.halt);
    assert_eq!(vm.registers.r[1], 0);
    assert_eq!(vm.registers.pc, 0x3001);
    // A halted machine stays where it is.
    let again = vm.run_single_command();
    assert_eq!(again, InstructionResult::Halted);
    assert_eq!(vm.registers.r[1], 0);
    assert_eq!(vm.registers.pc, 0x3001);
}

#[test]
fn load_places_the_image_at_its_origin() {
    let mut vm = VM::new(quiet_io());
    vm.load(vec![0x4000, 1, 2, 3]);
    assert_eq!(vm.registers.pc, 0x4000);
    assert_eq!(vm.memory.get(0x3FFF), 0);
    assert_eq!(vm.memory.get(0x4000), 1);
    assert_eq!(vm.memory.get(0x4001), 2);
    assert_eq!(vm.memory.get(0x4002), 3);
    assert_eq!(vm.memory.get(0x4003), 0);
}

#[test]
fn getc_step_waits_and_can_be_taken_again() {
    let mut vm = VM::new(quiet_io());
    vm.load(vec![0x3000, 0xF020, 0xF025]);
    let first = vm.run_single_command();
    assert_eq!(first, InstructionResult::AwaitingInput);
    assert_eq!(vm.registers.pc, 0x3000);
    assert_eq!(vm.registers.r[0], 0);
    assert!(!vm.registers.halt);
    vm.io.push_input('k');
    let second = vm.run_single_command();
    assert_eq!(second, InstructionResult::Ready);
    assert_eq!(vm.registers.pc, 0x3001);
    assert_eq!(vm.registers.r[0], 'k' as u16);
    assert_eq!(vm.run_single_command(), InstructionResult::Halted);
}

#[test]
fn reserved_opcode_halts_with_an_error() {
    let mut vm = VM::new(quiet_io());
    vm.load(vec![0x3000, 0xD000]);
    assert_eq!(vm.run_single_command(), InstructionResult::FatalError(VmError::ReservedOpcode));
    assert!(vm.registers.halt);
}

#[test]
fn rti_is_reported_as_unsupported() {
    let mut vm = VM::new(quiet_io());
    let result = vm.run(vec![0x3000, 0x8000, 0x1261]);
    assert_eq!(result, InstructionResult::FatalError(VmError::Unsupported));
    assert!(vm.registers.halt);
    assert_eq!(vm.registers.r[1], 0);
}

#[test]
fn hello_world_is_written() {
    let source = "
        .ORIG x3000
        LEA R0, HELLO
        PUTS
        HALT
HELLO   .STRINGZ \"Hello, World!\"
        .END";
    let mut assembler = Asm::new().unwrap();
    let image = assembler.run(source.to_string()).unwrap();
    let mut vm = VM::new(quiet_io());
    assert_eq!(vm.run(image), InstructionResult::Halted);
    let written: String = vm.io.output().iter().collect();
    assert_eq!(written, "Hello, World!");
}

#[test]
fn loop_counts_down() {
    let source = "
        .ORIG x3000
        AND R0, R0, #0
        ADD R1, R1, #5
LOOP    ADD R0, R0, #2
        ADD R1, R1, #-1
        BRp LOOP
        ST R0, RESULT
        LD R2, RESULT
        HALT
RESULT  .BLKW #1
        .END";
    let mut assembler = Asm::new().unwrap();
    let image = assembler.run(source.to_string()).unwrap();
    let mut vm = VM::new(quiet_io());
    assert_eq!(vm.run(image), InstructionResult::Halted);
    assert_eq!(vm.registers.r[0], 10);
    assert_eq!(vm.registers.r[1], 0);
    assert_eq!(vm.registers.r[2], 10);
    assert_eq!(vm.memory.get(0x3008), 10);
}

#[test]
fn subroutine_call_and_return() {
    let source = "
        .ORIG x3000
        JSR DOUBLE
        LEA R3, DOUBLE
        JSRR R3
        HALT
DOUBLE  ADD R1, R1, #3
        RET
        .END";
    let mut assembler = Asm::new().unwrap();
    let image = assembler.run(source.to_string()).unwrap();
    let mut vm = VM::new(quiet_io());
    assert_eq!(vm.run(image), InstructionResult::Halted);
    assert_eq!(vm.registers.r[1], 6);
    assert_eq!(vm.registers.r[7], 0x3003);
}

#[test]
fn a_run_ends_when_the_machine_waits_and_can_be_resumed() {
    let mut vm = VM::new(quiet_io());
    // ADD R1, R1, #1; GETC; OUT; HALT
    let result = vm.run(vec![0x3000, 0x1261, 0xF020, 0xF021, 0xF025]);
    assert_eq!(result, InstructionResult::AwaitingInput);
    assert_eq!(vm.registers.r[1], 1);
    assert_eq!(vm.registers.pc, 0x3001);
    assert!(!vm.registers.halt);
    assert_eq!(vm.resume(), InstructionResult::AwaitingInput);
    assert_eq!(vm.registers.pc, 0x3001);
    vm.io.push_input('!');
    assert_eq!(vm.resume(), InstructionResult::Halted);
    assert_eq!(vm.registers.r[0], '!' as u16);
    assert_eq!(vm.registers.r[1], 1);
    assert_eq!(vm.io.output(), &vec!['!']);
    assert_eq!(vm.resume(), InstructionResult::Halted);
}

#[test]
fn queued_input_is_read_without_waiting() {
    let source = "
        .ORIG x3000
        GETC
        OUT
        GETC
        OUT
        HALT
        .END";
    let mut assembler = Asm::new().unwrap();
    let image = assembler.run(source.to_string()).unwrap();
    let mut io = quiet_io();
    io.push_input('o');
    io.push_input('k');
    let mut vm = VM::new(io);
    assert_eq!(vm.run(image), InstructionResult::Halted);
    let written: String = vm.io.output().iter().collect();
    assert_eq!(written, "ok");
}

#[test]
fn any_words_can_be_stepped() {
    let mut state: u64 = 0x9E3779B97F4A7C15;
    for round in 0..50 {
        let mut image = vec![(round * 1300) as u16];
        for _ in 0..40 {
            state ^= state << 13;
            state ^= state >> 7;
            state ^= state << 17;
            image.push(state as u16);
        }
        let mut io = quiet_io();
        io.push_input('a');
        let mut vm = VM::new(io);
        vm.load(image);
        for _ in 0..2000 {
            let pc = vm.registers.pc;
            match vm.run_single_command() {
                InstructionResult::AwaitingInput => assert_eq!(vm.registers.pc, pc),
                InstructionResult::Halted | InstructionResult::FatalError(_) => {
                    assert!(vm.registers.halt)
                }
                InstructionResult::Ready => assert!(!vm.registers.halt),
            }
            let flags = [vm.registers.n, vm.registers.z, vm.registers.p];
            assert!(flags.iter().filter(|f| **f).count() <= 1);
        }
    }
}
