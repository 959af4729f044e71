use biobox::assembler::{AssemblerInstruction, Program, Token};
use biobox::instructions::Opcode;
use biobox::vm::{Halt, VM};

fn with_program(bytes: Vec<u8>) -> VM {
    let mut vm = VM::new();
    vm.append_bytes(bytes);
    vm
}

fn load(reg: u8, value: i32) -> AssemblerInstruction {
    AssemblerInstruction {
        opcode: Some(Token::Op { code: Opcode::LOAD }),
        label: None,
        directive: None,
        operand1: Some(Token::Register { reg_num: reg }),
        operand2: Some(Token::IntegerOperand { value }),
        operand3: None,
    }
}

#[test]
fn assembled_load_then_step() {
    let bytes = load(0, 500).to_bytes().unwrap();
    assert_eq!(bytes, vec![1, 0, 1, 244]);
    let mut vm = with_program(bytes);
    vm.run_once();
    assert_eq!(vm.get_registers()[0], 500);
    assert_eq!(vm.pc(), 4);
}

#[test]
fn load_keeps_the_low_sixteen_bits() {
    for (reg, value, expected) in [(5u8, 70000, 70000 - 65536), (31, -1, 65535), (7, 65535, 65535), (0, 0, 0)] {
        let mut vm = with_program(load(reg, value).to_bytes().unwrap());
        assert_eq!(vm.execute_instruction(), None);
        assert_eq!(vm.register(reg as usize), expected);
    }
}

#[test]
fn add_sub_mul_are_exact_in_range() {
    let cases = [(Opcode::ADD, 500, 24, 524), (Opcode::SUB, 5, 12, -7), (Opcode::MUL, -300, 7, -2100)];
    for (op, x, y, expected) in cases {
        let mut vm = VM::new();
        vm.set_register(0, x);
        vm.set_register(1, y);
        vm.append_bytes(vec![op.to_byte(), 0, 1, 3]);
        assert_eq!(vm.execute_instruction(), None);
        assert_eq!(vm.register(3), expected);
        assert_eq!(vm.pc(), 4);
    }
}

#[test]
fn arithmetic_wraps_outside_the_range() {
    let mut vm = VM::new();
    vm.set_register(0, i32::MAX);
    vm.set_register(1, 1);
    vm.append_bytes(vec![Opcode::ADD.to_byte(), 0, 1, 2]);
    vm.run_once();
    assert_eq!(vm.register(2), i32::MIN);
}

#[test]
fn division_stores_quotient_and_remainder() {
    let mut vm = VM::new();
    vm.set_register(0, 17);
    vm.set_register(1, 5);
    vm.append_bytes(vec![Opcode::DIV.to_byte(), 0, 1, 2]);
    assert_eq!(vm.execute_instruction(), None);
    assert_eq!(vm.register(2), 3);
    assert_eq!(vm.remainder(), 2);
}

#[test]
fn division_truncates_toward_zero() {
    let mut vm = VM::new();
    vm.set_register(0, -17);
    vm.set_register(1, 5);
    vm.append_bytes(vec![Opcode::DIV.to_byte(), 0, 1, 2]);
    assert_eq!(vm.execute_instruction(), None);
    assert_eq!(vm.register(2), -3);
    assert_eq!(vm.remainder(), (-2i32) as u32);
}

#[test]
fn division_by_zero_halts() {
    let mut vm = VM::new();
    vm.set_register(0, 17);
    vm.append_bytes(vec![Opcode::DIV.to_byte(), 0, 1, 2]);
    assert_eq!(vm.execute_instruction(), Some(Halt::DivisionByZero));
    assert_eq!(vm.register(2), 0);
    assert_eq!(vm.remainder(), 0);
}

#[test]
fn absolute_jump_ignores_alignment() {
    let mut vm = VM::new();
    vm.set_register(0, 1);
    vm.append_bytes(vec![Opcode::JMP.to_byte(), 0, 0, 0]);
    assert_eq!(vm.execute_instruction(), None);
    assert_eq!(vm.pc(), 1);
}

#[test]
fn relative_jump_counts_bytes() {
    let mut vm = VM::new();
    vm.set_register(0, 2);
    vm.append_bytes(vec![Opcode::JMPF.to_byte(), 0, 0, 0, Opcode::JMP.to_byte(), 0, 0, 0]);
    assert_eq!(vm.execute_instruction(), None);
    assert_eq!(vm.pc(), 4);
}

#[test]
fn backward_jump_below_zero_halts() {
    let mut vm = VM::new();
    vm.set_register(0, 3);
    vm.append_bytes(vec![Opcode::JMPB.to_byte(), 0, 0, 0]);
    assert_eq!(vm.execute_instruction(), Some(Halt::JumpOverflow { pc: 2, offset: 3 }));
    assert_eq!(vm.pc(), 2);
}

#[test]
fn forward_jump_past_the_counter_range_halts() {
    let mut vm = VM::new();
    vm.set_register(0, -1);
    vm.append_bytes(vec![Opcode::JMPF.to_byte(), 0, 0, 0]);
    assert_eq!(vm.execute_instruction(), Some(Halt::JumpOverflow { pc: 2, offset: usize::MAX }));
}

#[test]
fn conditional_jump_falls_through_on_false_flag() {
    let mut vm = VM::new();
    vm.set_register(0, 7);
    vm.append_bytes(vec![Opcode::JEQ.to_byte(), 0, 0, 0]);
    assert_eq!(vm.execute_instruction(), None);
    assert_eq!(vm.pc(), 2);
}

#[test]
fn between_flag_sequence() {
    let mut vm = VM::new();
    vm.set_register(0, 9);
    vm.set_register(1, 5);
    vm.set_register(2, 12);
    let op = Opcode::BETW.to_byte();
    vm.append_bytes(vec![op, 0, 1, 2, op, 0, 1, 2, op, 0, 1, 2]);
    let mut flags = Vec::new();
    for value in [9, 4, 13] {
        vm.set_register(0, value);
        vm.run_once();
        flags.push(vm.equal_flag());
    }
    assert_eq!(flags, vec![true, false, false]);
}

#[test]
fn between_is_strict() {
    let mut vm = VM::new();
    vm.set_register(0, 5);
    vm.set_register(1, 5);
    vm.set_register(2, 12);
    vm.set_equal_flag(true);
    vm.append_bytes(vec![Opcode::BETW.to_byte(), 0, 1, 2]);
    vm.run_once();
    assert_eq!(vm.equal_flag(), false);
}

#[test]
fn aloc_grows_zero_filled() {
    let mut vm = VM::new();
    vm.set_register(0, 1024);
    vm.append_bytes(vec![Opcode::ALOC.to_byte(), 0, 0, 0, Opcode::ALOC.to_byte(), 0, 0, 0]);
    assert_eq!(vm.execute_instruction(), None);
    assert_eq!(vm.heap().len(), 1024);
    assert!(vm.heap().iter().all(|b| *b == 0));
    assert_eq!(vm.pc(), 4);
    assert_eq!(vm.execute_instruction(), None);
    assert_eq!(vm.heap().len(), 2048);
}

#[test]
fn aloc_negative_halts() {
    let mut vm = VM::new();
    vm.set_register(0, -4);
    vm.append_bytes(vec![Opcode::ALOC.to_byte(), 0, 0, 0]);
    assert_eq!(vm.execute_instruction(), Some(Halt::BadAllocation { bytes: -4 }));
    assert_eq!(vm.heap().len(), 0);
}

#[test]
fn unknown_opcode_halts_after_one_byte() {
    let mut vm = VM::new();
    vm.set_register(4, 99);
    vm.append_bytes(vec![200, 4, 4, 4]);
    assert_eq!(vm.execute_instruction(), Some(Halt::IllegalOpcode { code: 200 }));
    assert_eq!(vm.pc(), 1);
    let registers = vm.get_registers();
    assert_eq!(registers[4], 99);
    assert!(registers.iter().enumerate().all(|(i, r)| i == 4 || *r == 0));
}

#[test]
fn reserved_opcodes_halt_as_illegal() {
    for code in [19u8, 20, 254] {
        let mut vm = with_program(vec![code, 0, 0, 0]);
        assert_eq!(vm.execute_instruction(), Some(Halt::IllegalOpcode { code }));
        assert_eq!(vm.pc(), 1);
    }
}

#[test]
fn halt_and_end_of_program() {
    let mut vm = with_program(vec![Opcode::HLT.to_byte(), 0, 0, 0]);
    assert_eq!(vm.execute_instruction(), Some(Halt::Halted));
    let mut empty = VM::new();
    assert_eq!(empty.execute_instruction(), Some(Halt::EndOfProgram));
    assert_eq!(empty.pc(), 0);
}

#[test]
fn register_operand_out_of_range_halts() {
    let mut vm = with_program(vec![Opcode::ADD.to_byte(), 0, 32, 1]);
    assert_eq!(vm.execute_instruction(), Some(Halt::BadRegister { index: 32 }));
    let mut vm = with_program(vec![Opcode::LOAD.to_byte(), 200, 0, 1]);
    assert_eq!(vm.execute_instruction(), Some(Halt::BadRegister { index: 200 }));
    let mut vm = with_program(vec![Opcode::JMP.to_byte(), 40]);
    assert_eq!(vm.execute_instruction(), Some(Halt::BadRegister { index: 40 }));
}

#[test]
fn truncated_instruction_halts() {
    let mut vm = with_program(vec![Opcode::LOAD.to_byte(), 0, 1]);
    assert_eq!(vm.execute_instruction(), Some(Halt::Truncated));
    assert_eq!(vm.pc(), 1);
    assert_eq!(vm.register(0), 0);
}

#[test]
fn clear_registers_zeroes_all() {
    let mut vm = VM::new();
    for i in 0..32 {
        vm.set_register(i, i as i32 * 3 - 40);
    }
    vm.clear_registers();
    assert_eq!(vm.get_registers(), [0; 32]);
    vm.clear_registers();
    assert_eq!(vm.get_registers(), [0; 32]);
}

#[test]
fn clear_program_empties_it() {
    let mut vm = with_program(vec![Opcode::NOP.to_byte(), 0, 0, 0]);
    vm.add_byte(9);
    assert_eq!(vm.get_program(), vec![17, 0, 0, 0, 9]);
    vm.run_once();
    vm.clear_program();
    assert_eq!(vm.get_program(), Vec::<u8>::new());
    assert_eq!(vm.pc(), 0);
}

#[test]
fn program_encodes_in_order() {
    let hlt = AssemblerInstruction {
        opcode: Some(Token::Op { code: Opcode::HLT }),
        label: None,
        directive: None,
        operand1: None,
        operand2: None,
        operand3: None,
    };
    let program = Program::new(vec![load(0, 21), hlt]);
    assert_eq!(program.to_bytes(), Some(vec![1, 0, 0, 21, 0, 0, 0, 0]));
}
