use rbvm::vm::Fault;
use rbvm::vm::Signal;
use rbvm::vm::VM;

fn get_test_vm() -> VM {
    let mut test_vm = VM::new();

    test_vm.registers[0] = 5;
    test_vm.registers[1] = 10;

    test_vm
}

#[test]
fn test_create_vm() {
    let test_vm = VM::new();

    assert_eq!(test_vm.registers[0], 0);
}

#[test]
fn test_execute_instruction() {
    let mut test_vm = VM::new();

    test_vm.program = vec![0xFF, 0, 0, 0];
    test_vm.run_once();

    assert_eq!(test_vm.pc, 1);
}

#[test]
fn test_opcode_jeq() {
    let mut test_vm = get_test_vm();

    test_vm.registers[0] = 7;
    test_vm.equivalence_flag = true;
    test_vm.program = vec![24, 0, 0xFF, 0xFF, 0xFF, 0xFF, 0xFF, 0xFF];
    test_vm.run_once();

    assert_eq!(test_vm.pc, 7);
}

#[test]
fn test_opcode_gte() {
    let mut test_vm = get_test_vm();

    test_vm.registers[0] = 10;
    test_vm.registers[1] = 10;
    test_vm.program = vec![23, 0, 1, 0xFF, 23, 0, 1, 0xFF];
    test_vm.run_once();

    assert_eq!(test_vm.equivalence_flag, true);

    test_vm.registers[1] = 20;
    test_vm.run_once();

    assert_eq!(test_vm.equivalence_flag, false);
}

#[test]
fn test_opcode_lte() {
    let mut test_vm = get_test_vm();

    test_vm.registers[0] = 10;
    test_vm.registers[1] = 10;
    test_vm.program = vec![22, 0, 1, 0xFF, 22, 0, 1, 0xFF];
    test_vm.run_once();

    assert_eq!(test_vm.equivalence_flag, true);

    test_vm.registers[1] = 5;
    test_vm.run_once();

    assert_eq!(test_vm.equivalence_flag, false);
}

#[test]
fn test_opcode_gt() {
    let mut test_vm = get_test_vm();

    test_vm.registers[0] = 10;
    test_vm.registers[1] = 10;
    test_vm.program = vec![21, 0, 1, 0xFF, 21, 0, 1, 0xFF];
    test_vm.run_once();

    assert_eq!(test_vm.equivalence_flag, false);

    test_vm.registers[0] = 20;
    test_vm.run_once();

    assert_eq!(test_vm.equivalence_flag, true);
}

#[test]
fn test_opcode_lt() {
    let mut test_vm = get_test_vm();

    test_vm.registers[0] = 10;
    test_vm.registers[1] = 10;
    test_vm.program = vec![20, 0, 1, 0xFF, 20, 0, 1, 0xFF];
    test_vm.run_once();

    assert_eq!(test_vm.equivalence_flag, false);

    test_vm.registers[1] = 20;
    test_vm.run_once();

    assert_eq!(test_vm.equivalence_flag, true);
}

#[test]
fn test_opcode_neq() {
    let mut test_vm = get_test_vm();

    test_vm.registers[0] = 10;
    test_vm.registers[1] = 10;
    test_vm.program = vec![19, 0, 1, 0xFF, 19, 0, 1, 0xFF];
    test_vm.run_once();

    assert_eq!(test_vm.equivalence_flag, false);

    test_vm.registers[1] = 20;
    test_vm.run_once();

    assert_eq!(test_vm.equivalence_flag, true);
}

#[test]
fn test_opcode_eq() {
    let mut test_vm = get_test_vm();

    test_vm.registers[0] = 10;
    test_vm.registers[1] = 10;
    test_vm.program = vec![18, 0, 1, 0xFF, 18, 0, 1, 0xFF];
    test_vm.run_once();

    assert_eq!(test_vm.equivalence_flag, true);

    test_vm.registers[1] = 20;
    test_vm.run_once();

    assert_eq!(test_vm.equivalence_flag, false);
}

#[test]
fn test_opcode_jmpb() {
    let mut test_vm = get_test_vm();

    test_vm.registers[0] = 1;
    test_vm.program = vec![15, 0, 0, 0];
    test_vm.run_once();

    assert_eq!(test_vm.pc, 1);
}

#[test]
fn test_opcode_jmpf() {
    let mut test_vm = get_test_vm();

    test_vm.registers[0] = 2;
    test_vm.program = vec![16, 0, 0, 0, 10, 0, 0b0, 0b1000];
    test_vm.run_once();

    assert_eq!(test_vm.pc, 4);
}

#[test]
fn test_opcode_jmp() {
    let mut test_vm = get_test_vm();

    test_vm.registers[0] = 1;
    test_vm.program = vec![15, 0, 0, 0];
    test_vm.run_once();

    assert_eq!(test_vm.pc, 1);
}

#[test]
fn test_opcode_div_remainder() {
    let mut test_vm = get_test_vm();

    test_vm.registers[0] = 3;
    test_vm.program = vec![14, 1, 0, 2];
    test_vm.run(100);

    assert_eq!(test_vm.registers[2], 3);
    assert_eq!(test_vm.remainder, 1);
}

#[test]
fn test_opcode_div_zero() {
    let mut test_vm = get_test_vm();

    test_vm.registers[0] = 0;
    test_vm.program = vec![14, 1, 0, 2];
    let signal = test_vm.run(100);

    assert_eq!(signal, Signal::Faulted(Fault::DivideByZero));
    assert_eq!(test_vm.registers[2], 0);
    assert_eq!(test_vm.remainder, 0);
}

#[test]
fn test_opcode_div() {
    let mut test_vm = get_test_vm();

    test_vm.program = vec![14, 1, 0, 2];
    test_vm.run(100);

    assert_eq!(test_vm.registers[2], 2);
}

#[test]
fn test_opcode_mul() {
    let mut test_vm = get_test_vm();

    test_vm.program = vec![13, 1, 0, 2];
    test_vm.run(100);

    assert_eq!(test_vm.registers[2], 50);
}

#[test]
fn test_opcode_sub() {
    let mut test_vm = get_test_vm();

    test_vm.program = vec![12, 1, 0, 2];
    test_vm.run(100);

    assert_eq!(test_vm.registers[2], 5);
}

#[test]
fn test_opcode_add() {
    let mut test_vm = get_test_vm();

    test_vm.program = vec![11, 1, 0, 2];
    test_vm.run(100);

    assert_eq!(test_vm.registers[2], 15);
}

#[test]
fn test_opcode_load() {
    let mut test_vm = get_test_vm();

    test_vm.program = vec![0xFF, 0xFF, 0xFF, 0xFF, 10, 0, 0b1, 0b11110100, 0];
    test_vm.run(100);

    assert_eq!(test_vm.registers[0], 500);
}

#[test]
fn test_opcode_pad() {
    let mut test_vm = VM::new();

    test_vm.program = vec![0xFF, 0xFF, 0xFF, 0xFF, 0];
    test_vm.run(100);

    assert_eq!(test_vm.registers[0], 0);
}

#[test]
fn test_opcode_hlt() {
    let mut test_vm = VM::new();
    let test_bytes = vec![0, 0, 0, 0];

    test_vm.program = test_bytes;
    test_vm.run(100);

    assert_eq!(test_vm.pc, 1);
}

#[test]
fn test_opcode_igl() {
    let mut test_vm = VM::new();
    let test_bytes = vec![200, 0, 0, 0];

    test_vm.program = test_bytes;
    test_vm.run(100);

    assert_eq!(test_vm.pc, 1);
}
