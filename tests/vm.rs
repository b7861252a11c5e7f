use iridium::instruction::Opcode;
use iridium::vm::{VmError, VM};

#[test]
fn test_create_vm() {
    let test_vm = VM::new();
    assert_eq!(test_vm.registers()[0], 0)
}

#[test]
fn test_hlt_opcode() {
    let mut test_vm = VM::new();
    let test_bytes = vec![u8::from(Opcode::HLT), 0, 0, 0];
    test_vm.set_program(test_bytes);
    test_vm.run(u64::MAX).unwrap();
    assert_eq!(test_vm.pc(), 1);
}

#[test]
fn test_igl_opcode() {
    let mut test_vm = VM::new();
    let test_bytes = vec![200, 0, 0, 0];
    test_vm.set_program(test_bytes);
    test_vm.run(u64::MAX).unwrap();
    assert_eq!(test_vm.pc(), 1);
}

#[test]
fn test_load_opcode() {
    let mut test_vm = VM::new();
    // 500 is 1 * 256 + 244
    test_vm.set_program(vec![u8::from(Opcode::LOAD), 0, 1, 244]);
    test_vm.run(u64::MAX).unwrap();
    assert_eq!(test_vm.registers()[0], 500);
}

#[test]
fn test_add_opcode() {
    let mut test_vm = VM::get_test_vm();
    test_vm.set_program(vec![u8::from(Opcode::ADD), 0, 1, 2]);
    test_vm.set_register(0, 2).unwrap();
    test_vm.set_register(1, 3).unwrap();
    test_vm.run(u64::MAX).unwrap();
    assert_eq!(test_vm.registers()[2], 5);
}

#[test]
fn test_sub_opcode() {
    let mut test_vm = VM::get_test_vm();
    test_vm.set_program(vec![u8::from(Opcode::SUB), 0, 1, 2]);
    test_vm.set_register(0, 30).unwrap();
    test_vm.set_register(1, 12).unwrap();
    test_vm.run(u64::MAX).unwrap();
    assert_eq!(test_vm.registers()[2], 18);
}

#[test]
fn test_mul_opcode() {
    let mut test_vm = VM::get_test_vm();
    test_vm.set_program(vec![u8::from(Opcode::MUL), 0, 1, 2]);
    test_vm.set_register(0, 15).unwrap();
    test_vm.set_register(1, 4).unwrap();
    test_vm.run(u64::MAX).unwrap();
    assert_eq!(test_vm.registers()[2], 60);
}

#[test]
fn test_div_opcode() {
    let mut test_vm = VM::get_test_vm();
    test_vm.set_program(vec![u8::from(Opcode::DIV), 0, 1, 2]);
    test_vm.set_register(0, 17).unwrap();
    test_vm.set_register(1, 5).unwrap();
    test_vm.run(u64::MAX).unwrap();
    assert_eq!(test_vm.registers()[2], 3);
    assert_eq!(test_vm.remainder(), 2);
}

#[test]
fn test_jump_opcode() {
    let mut test_vm = VM::get_test_vm();
    test_vm.set_register(0, 2).unwrap();
    test_vm.set_program(vec![u8::from(Opcode::JMP), 0, 0, 0]);
    test_vm.run_once().unwrap();
    assert_eq!(test_vm.pc(), 2);
}

#[test]
fn test_jmpf_opcode() {
    let mut test_vm = VM::get_test_vm();
    test_vm.set_register(0, 2).unwrap();
    test_vm.set_program(vec![u8::from(Opcode::JMPF), 0, 0, 0, 6, 0, 0, 0]);
    test_vm.run_once().unwrap();
    assert_eq!(test_vm.pc(), 4);
}

#[test]
fn test_jmpb_opcode() {
    let mut test_vm = VM::get_test_vm();
    test_vm.set_register(1, 6).unwrap();
    test_vm.set_program(vec![
        u8::from(Opcode::LOAD),
        0,
        0,
        1,
        u8::from(Opcode::JMPB),
        1,
        0,
        0,
        0,
    ]);
    test_vm.run_once().unwrap();
    test_vm.run_once().unwrap();
    assert_eq!(test_vm.pc(), 0);
}

#[test]
fn test_eq_opcode() {
    let mut test_vm = VM::get_test_vm();
    test_vm.set_register(0, 10).unwrap();
    test_vm.set_register(1, 10).unwrap();
    let eq = u8::from(Opcode::EQ);
    test_vm.set_program(vec![eq, 0, 1, 0, eq, 0, 1, 0]);
    test_vm.run_once().unwrap();
    assert_eq!(test_vm.equal_flag(), true);
    test_vm.set_register(1, 11).unwrap();
    test_vm.run_once().unwrap();
    assert_eq!(test_vm.equal_flag(), false);
}

#[test]
fn test_neq_opcode() {
    let mut test_vm = VM::get_test_vm();
    test_vm.set_register(0, 10).unwrap();
    test_vm.set_register(1, 10).unwrap();
    let neq = u8::from(Opcode::NEQ);
    test_vm.set_program(vec![neq, 0, 1, 0, neq, 0, 1, 0]);
    test_vm.run_once().unwrap();
    assert_eq!(test_vm.equal_flag(), false);
    test_vm.set_register(1, 11).unwrap();
    test_vm.run_once().unwrap();
    assert_eq!(test_vm.equal_flag(), true);
}

#[test]
fn test_jeq_opcode() {
    let mut test_vm = VM::get_test_vm();
    test_vm.set_register(0, 10).unwrap();
    let jeq = u8::from(Opcode::JEQ);
    test_vm.set_program(vec![jeq, 0, 0, 0, jeq, 0, 0, 0, 0, 0, 0, 0]);
    test_vm.set_equal_flag(false);
    test_vm.run_once().unwrap();
    assert_ne!(test_vm.pc(), 10);
    test_vm.set_equal_flag(true);
    test_vm.run_once().unwrap();
    assert_eq!(test_vm.pc(), 10);
}

#[test]
fn test_gt_opcode() {
    let mut test_vm = VM::get_test_vm();
    test_vm.set_register(0, 10).unwrap();
    test_vm.set_register(1, 10).unwrap();
    let op = u8::from(Opcode::GT);
    test_vm.set_program(vec![op, 0, 1, 0, op, 0, 1, 0]);
    test_vm.run_once().unwrap();
    assert_eq!(test_vm.equal_flag(), false);
    test_vm.set_register(1, 9).unwrap();
    test_vm.run_once().unwrap();
    assert_eq!(test_vm.equal_flag(), true);
}

#[test]
fn test_lt_opcode() {
    let mut test_vm = VM::get_test_vm();
    test_vm.set_register(0, 10).unwrap();
    test_vm.set_register(1, 10).unwrap();
    let op = u8::from(Opcode::LT);
    test_vm.set_program(vec![op, 0, 1, 0, op, 0, 1, 0]);
    test_vm.run_once().unwrap();
    assert_eq!(test_vm.equal_flag(), false);
    test_vm.set_register(1, 11).unwrap();
    test_vm.run_once().unwrap();
    assert_eq!(test_vm.equal_flag(), true);
}

#[test]
fn test_gtq_opcode() {
    let mut test_vm = VM::get_test_vm();
    test_vm.set_register(0, 10).unwrap();
    test_vm.set_register(1, 10).unwrap();
    let op = u8::from(Opcode::GTQ);
    test_vm.set_program(vec![op, 0, 1, 0, op, 0, 1, 0, op, 0, 1, 0]);
    test_vm.run_once().unwrap();
    assert_eq!(test_vm.equal_flag(), true);
    test_vm.set_register(1, 11).unwrap();
    test_vm.run_once().unwrap();
    assert_eq!(test_vm.equal_flag(), false);
    test_vm.set_register(1, 9).unwrap();
    test_vm.run_once().unwrap();
    assert_eq!(test_vm.equal_flag(), true);
}

#[test]
fn test_ltq_opcode() {
    let mut test_vm = VM::get_test_vm();
    test_vm.set_register(0, 10).unwrap();
    test_vm.set_register(1, 10).unwrap();
    let op = u8::from(Opcode::LTQ);
    test_vm.set_program(vec![op, 0, 1, 0, op, 0, 1, 0, op, 0, 1, 0]);
    test_vm.run_once().unwrap();
    assert_eq!(test_vm.equal_flag(), true);
    test_vm.set_register(1, 11).unwrap();
    test_vm.run_once().unwrap();
    assert_eq!(test_vm.equal_flag(), true);
    test_vm.set_register(1, 9).unwrap();
    test_vm.run_once().unwrap();
    assert_eq!(test_vm.equal_flag(), false);
}

#[test]
fn get_test_vm_presets_two_registers() {
    let test_vm = VM::get_test_vm();
    assert_eq!(test_vm.registers()[0], 5);
    assert_eq!(test_vm.registers()[1], 10);
    assert_eq!(test_vm.registers()[2], 0);
    assert_eq!(test_vm.pc(), 0);
    assert!(test_vm.program().is_empty());
}
