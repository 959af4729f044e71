use biobox::instructions::Opcode;
use biobox::vm::VM;

fn with_program(bytes: Vec<u8>) -> VM {
    let mut vm = VM::new();
    vm.append_bytes(bytes);
    vm
}

#[test]
fn test_create_vm() {
    let test_vm = VM::new();
    assert_eq!(test_vm.register(0), 0);
}

#[test]
fn test_opcode_hlt() {
    let mut test_vm = with_program(vec![Opcode::HLT.to_byte(), 0, 0, 0]);
    test_vm.run_once();
    assert_eq!(test_vm.pc(), 1);
}

#[test]
fn test_opcode_igl() {
    let mut test_vm = with_program(vec![200, 0, 0, 0]);
    test_vm.run_once();
    assert_eq!(test_vm.pc(), 1);
}

#[test]
fn test_load_opcode() {
    let mut test_vm = with_program(vec![Opcode::LOAD.to_byte(), 0, 1, 244]);
    test_vm.run_once();
    assert_eq!(test_vm.register(0), 500);
}

#[test]
fn test_add_opcode() {
    let mut test_vm = VM::new();
    test_vm.set_register(0, 500);
    test_vm.set_register(1, 24);
    test_vm.append_bytes(vec![Opcode::ADD.to_byte(), 0, 1, 3]);
    test_vm.run_once();
    assert_eq!(test_vm.register(3), 524);
}

#[test]
fn test_jmp_opcode() {
    let mut test_vm = VM::new();
    test_vm.set_register(0, 1);
    test_vm.append_bytes(vec![Opcode::JMP.to_byte(), 0, 0, 0]);
    test_vm.run_once();
    assert_eq!(test_vm.pc(), 1);
}

#[test]
fn test_jumpf_opcode() {
    let mut test_vm = VM::new();
    test_vm.set_register(0, 2);
    test_vm.append_bytes(vec![Opcode::JMPF.to_byte(), 0, 0, 0, Opcode::JMP.to_byte(), 0, 0, 0]);
    test_vm.run_once();
    assert_eq!(test_vm.pc(), 4);
}

#[test]
fn test_jumpb_opcode() {
    let mut test_vm = VM::new();
    test_vm.set_register(0, 2);
    test_vm.append_bytes(vec![Opcode::JMPB.to_byte(), 0, 0, 0]);
    test_vm.run_once();
    assert_eq!(test_vm.pc(), 0);
}

#[test]
fn test_eq_opcode() {
    let mut test_vm = VM::new();
    test_vm.set_register(0, 10);
    test_vm.set_register(1, 10);
    test_vm.append_bytes(vec![Opcode::EQ.to_byte(), 0, 1, 0, Opcode::EQ.to_byte(), 0, 1, 0]);
    test_vm.run_once();
    assert_eq!(test_vm.equal_flag(), true);
    test_vm.set_register(1, 11);
    test_vm.run_once();
    assert_eq!(test_vm.equal_flag(), false);
}

#[test]
fn test_neq_opcode() {
    let mut test_vm = VM::new();
    test_vm.set_register(0, 10);
    test_vm.set_register(1, 12);
    test_vm.append_bytes(vec![Opcode::NEQ.to_byte(), 0, 1, 0, Opcode::NEQ.to_byte(), 0, 1, 0]);
    test_vm.run_once();
    assert_eq!(test_vm.equal_flag(), true);
    test_vm.set_register(1, 10);
    test_vm.run_once();
    assert_eq!(test_vm.equal_flag(), false);
}

#[test]
fn test_gt_opcode() {
    let mut test_vm = VM::new();
    test_vm.set_register(0, 10);
    test_vm.set_register(1, 9);
    test_vm.append_bytes(vec![Opcode::GT.to_byte(), 0, 1, 0, Opcode::GT.to_byte(), 0, 1, 0]);
    test_vm.run_once();
    assert_eq!(test_vm.equal_flag(), true);
    test_vm.set_register(1, 11);
    test_vm.run_once();
    assert_eq!(test_vm.equal_flag(), false);
}

#[test]
fn test_lt_opcode() {
    let mut test_vm = VM::new();
    test_vm.set_register(0, 10);
    test_vm.set_register(1, 11);
    test_vm.append_bytes(vec![Opcode::LT.to_byte(), 0, 1, 0, Opcode::LT.to_byte(), 0, 1, 0]);
    test_vm.run_once();
    assert_eq!(test_vm.equal_flag(), true);
    test_vm.set_register(1, 9);
    test_vm.run_once();
    assert_eq!(test_vm.equal_flag(), false);
}

#[test]
fn test_gtq_opcode() {
    let mut test_vm = VM::new();
    test_vm.set_register(0, 10);
    test_vm.set_register(1, 9);
    let op = Opcode::GTEQ.to_byte();
    test_vm.append_bytes(vec![op, 0, 1, 0, op, 0, 1, 0, op, 0, 1, 0]);
    test_vm.run_once();
    assert_eq!(test_vm.equal_flag(), true);
    test_vm.set_register(1, 10);
    test_vm.run_once();
    assert_eq!(test_vm.equal_flag(), true);
    test_vm.set_register(1, 11);
    test_vm.run_once();
    assert_eq!(test_vm.equal_flag(), false);
}

#[test]
fn test_ltq_opcode() {
    let mut test_vm = VM::new();
    test_vm.set_register(0, 9);
    test_vm.set_register(1, 10);
    let op = Opcode::LTEQ.to_byte();
    test_vm.append_bytes(vec![op, 0, 1, 0, op, 0, 1, 0, op, 0, 1, 0]);
    test_vm.run_once();
    assert_eq!(test_vm.equal_flag(), true);
    test_vm.set_register(1, 9);
    test_vm.run_once();
    assert_eq!(test_vm.equal_flag(), true);
    test_vm.set_register(1, 8);
    test_vm.run_once();
    assert_eq!(test_vm.equal_flag(), false);
}

#[test]
fn test_btw_opcode() {
    let mut test_vm = VM::new();
    test_vm.set_register(0, 9);
    test_vm.set_register(1, 5);
    test_vm.set_register(2, 12);
    let op = Opcode::BETW.to_byte();
    test_vm.append_bytes(vec![op, 0, 1, 2, op, 0, 1, 2, op, 0, 1, 2]);
    test_vm.run_once();
    assert_eq!(test_vm.equal_flag(), true);
    test_vm.set_register(0, 4);
    test_vm.run_once();
    assert_eq!(test_vm.equal_flag(), false);
    test_vm.set_register(0, 13);
    test_vm.run_once();
    assert_eq!(test_vm.equal_flag(), false);
}

#[test]
fn test_jeq_opcode() {
    let mut test_vm = VM::new();
    test_vm.set_register(0, 7);
    test_vm.set_equal_flag(true);
    test_vm.append_bytes(vec![Opcode::JEQ.to_byte(), 0, 0, 0, 0, 0, 0, 0, 0, 0, 0, 0]);
    test_vm.run_once();
    assert_eq!(test_vm.pc(), 7);
}

#[test]
fn test_nop_opcode() {
    let mut test_vm = with_program(vec![Opcode::NOP.to_byte(), 0, 0, 0]);
    test_vm.run_once();
    assert_eq!(test_vm.pc(), 4);
}

#[test]
fn test_aloc_opcode() {
    let mut test_vm = VM::new();
    test_vm.set_register(0, 1024);
    test_vm.append_bytes(vec![Opcode::ALOC.to_byte(), 0, 0, 0]);
    test_vm.run_once();
    assert_eq!(test_vm.heap().len(), 1024);
    assert_eq!(test_vm.pc(), 4);
}
