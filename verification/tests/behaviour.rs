use rbvm::vm::Fault;
use rbvm::vm::Signal;
use rbvm::vm::VM;

#[test]
fn test_load_all_registers() {
    let mut vm = VM::new();
    for reg in 0u8..32u8 {
        vm.program.push(10);
        vm.program.push(reg);
        vm.program.push(0x12);
        vm.program.push(0x34);
    }
    let signal = vm.run(100);

    assert_eq!(signal, Signal::OffEnd);
    for reg in 0..32 {
        assert_eq!(vm.registers[reg], 0x1234);
    }
}

#[test]
fn test_run_all_pad_falls_off_end() {
    let mut vm = VM::new();
    vm.program = vec![255; 64];
    let signal = vm.run(100);

    assert_eq!(signal, Signal::OffEnd);
    assert_eq!(vm.pc, 64);
}

#[test]
fn test_execute_off_end_is_noop() {
    let mut vm = VM::new();
    let signal = vm.run_once();

    assert_eq!(signal, Signal::OffEnd);
    assert_eq!(vm.pc, 0);
}

#[test]
fn test_single_halt_stops_after_one_step() {
    let mut vm = VM::new();
    vm.program = vec![0];
    let signal = vm.run_once();

    assert_eq!(signal, Signal::Halted);
    assert_eq!(vm.pc, 1);

    let after = vm.run_once();
    assert_eq!(after, Signal::OffEnd);
    assert_eq!(vm.pc, 1);
}

#[test]
fn test_arithmetic_program_scenario() {
    let mut vm = VM::new();
    vm.program = vec![10, 0, 0, 12, 10, 1, 0, 10, 11, 0, 1, 2, 14, 2, 1, 3];
    let signal = vm.run(100);

    assert_eq!(signal, Signal::OffEnd);
    assert_eq!(vm.registers[3], 2);
    assert_eq!(vm.remainder, 2);
}

#[test]
fn test_comparison_overwrites_flag() {
    let mut vm = VM::new();
    vm.registers[0] = 1;
    vm.registers[1] = 1;
    vm.registers[2] = 9;
    vm.program = vec![18, 0, 1, 0xFF, 18, 0, 2, 0xFF];
    vm.run_once();
    assert_eq!(vm.equivalence_flag, true);

    vm.run_once();
    assert_eq!(vm.equivalence_flag, false);
}

#[test]
fn test_jeq_without_flag_keeps_pc() {
    let mut vm = VM::new();
    vm.registers[0] = 7;
    vm.equivalence_flag = false;
    vm.program = vec![24, 0, 0xFF, 0xFF];
    let signal = vm.run_once();

    assert_eq!(signal, Signal::Continue);
    assert_eq!(vm.pc, 2);
}

#[test]
fn test_jumps_with_zero_register() {
    let mut vm = VM::new();
    vm.program = vec![15, 0];
    vm.pc = 0;
    vm.run_once();
    assert_eq!(vm.pc, 0);

    let mut vm = VM::new();
    vm.program = vec![16, 0];
    vm.run_once();
    assert_eq!(vm.pc, 2);

    let mut vm = VM::new();
    vm.program = vec![17, 0];
    vm.run_once();
    assert_eq!(vm.pc, 2);
}

#[test]
fn test_add_wraps_like_machine_arithmetic() {
    let mut vm = VM::new();
    vm.registers[0] = i32::MAX;
    vm.registers[1] = 1;
    vm.program = vec![11, 0, 1, 2];
    let signal = vm.run_once();

    assert_eq!(signal, Signal::Continue);
    assert_eq!(vm.registers[2], i32::MIN);
}

#[test]
fn test_negative_remainder_is_reinterpreted_unsigned() {
    let mut vm = VM::new();
    vm.registers[0] = -7;
    vm.registers[1] = 2;
    vm.program = vec![14, 0, 1, 2];
    let signal = vm.run_once();

    assert_eq!(signal, Signal::Continue);
    assert_eq!(vm.registers[2], -3);
    assert_eq!(vm.remainder, 0xFFFF_FFFF);
}

#[test]
fn test_divide_overflow_faults() {
    let mut vm = VM::new();
    vm.registers[0] = i32::MIN;
    vm.registers[1] = -1;
    vm.program = vec![14, 0, 1, 2];
    let signal = vm.run_once();

    assert_eq!(signal, Signal::Faulted(Fault::DivideOverflow));
    assert_eq!(vm.registers[2], 0);
    assert_eq!(vm.pc, 1);
}

#[test]
fn test_truncated_instruction_faults() {
    let mut vm = VM::new();
    vm.program = vec![10, 0];
    let signal = vm.run_once();

    assert_eq!(signal, Signal::Faulted(Fault::TruncatedInstruction));
    assert_eq!(vm.pc, 1);
}

#[test]
fn test_register_index_out_of_range_faults() {
    let mut vm = VM::new();
    vm.program = vec![11, 40, 0, 0];
    let signal = vm.run_once();

    assert_eq!(signal, Signal::Faulted(Fault::RegisterOutOfRange));
    assert_eq!(vm.pc, 1);
}

#[test]
fn test_jump_to_negative_target_faults() {
    let mut vm = VM::new();
    vm.registers[0] = -1;
    vm.program = vec![15, 0];
    let signal = vm.run_once();

    assert_eq!(signal, Signal::Faulted(Fault::JumpOutOfRange));
    assert_eq!(vm.pc, 1);
}

#[test]
fn test_jump_backward_past_start_faults() {
    let mut vm = VM::new();
    vm.registers[0] = 10;
    vm.program = vec![17, 0];
    let signal = vm.run_once();

    assert_eq!(signal, Signal::Faulted(Fault::JumpOutOfRange));
    assert_eq!(vm.pc, 1);
}

#[test]
fn test_run_with_no_budget_reports_continue() {
    let mut vm = VM::new();
    vm.program = vec![0];
    let signal = vm.run(0);

    assert_eq!(signal, Signal::Continue);
    assert_eq!(vm.pc, 0);
}

#[test]
fn test_append_builds_program() {
    let mut vm = VM::new();
    vm.add_byte(10);
    vm.add_byte(0);
    vm.add_byte(1);
    vm.add_byte(244);
    assert_eq!(vm.program, vec![10, 0, 1, 244]);

    let signal = vm.run_once();
    assert_eq!(signal, Signal::Continue);
    assert_eq!(vm.registers[0], 500);
}

#[test]
fn test_stdo_reserved_byte_is_illegal() {
    let mut vm = VM::new();
    vm.program = vec![254, 0, 0, 0];
    let signal = vm.run(100);

    assert_eq!(signal, Signal::Illegal);
    assert_eq!(vm.pc, 1);
}
