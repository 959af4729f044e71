//! The machine: execution state and the fetch-decode-execute engine.

use vstd::prelude::*;
use crate::instructions::{Opcode, decode_spec, code_spec, lemma_decode_code};

verus! {

/// Number of general-purpose registers.
pub const REGISTER_COUNT: usize = 32;

/// Why a step did not let execution go on.
#[derive(Debug, PartialEq, Eq, Structural, Copy, Clone)]
pub enum Halt {
    /// An `HLT` instruction was executed.
    Halted,
    /// The program counter stood at or past the end of the program.
    EndOfProgram,
    /// The opcode byte names no operation that the engine executes.
    IllegalOpcode { code: u8 },
    /// The program ends before the operands of the instruction.
    Truncated,
    /// A register operand is not below the register count.
    BadRegister { index: u8 },
    /// A `DIV` whose divisor register holds zero.
    DivisionByZero,
    /// A relative jump would move the program counter out of its range.
    JumpOverflow { pc: usize, offset: usize },
    /// An `ALOC` with a negative size, or one that the heap length cannot hold.
    BadAllocation { bytes: i32 },
}

/// The abstract state of a machine.
pub struct VmState {
    pub registers: Seq<i32>,
    pub pc: usize,
    pub program: Seq<u8>,
    pub heap: Seq<u8>,
    pub remainder: u32,
    pub equal_flag: bool,
}

/// The state of a machine just created.
pub open spec fn initial_state() -> VmState {
    VmState {
        registers: Seq::new(32, |i: int| 0i32),
        pc: 0,
        program: Seq::empty(),
        heap: Seq::empty(),
        remainder: 0,
        equal_flag: false,
    }
}

/// Number of operand bytes that follow the opcode byte of an executed instruction.
pub open spec fn operand_width(op: Opcode) -> int {
    match op {
        Opcode::JMP | Opcode::JMPF | Opcode::JMPB | Opcode::JEQ => 1,
        Opcode::HLT | Opcode::INC | Opcode::DEC | Opcode::IGL => 0,
        _ => 3,
    }
}

/// Whether the engine executes this opcode (rather than halting on it as illegal).
pub open spec fn is_executable(op: Opcode) -> bool {
    op != Opcode::HLT && op != Opcode::INC && op != Opcode::DEC && op != Opcode::IGL
}

/// Wrapping quotient, truncated toward zero.
pub open spec fn div_wrapping(a: i32, b: i32) -> i32 {
    match i32::checked_div(a, b) {
        Some(q) => q,
        None => i32::MIN,
    }
}

/// Remainder of the truncating division, zero where the quotient wraps.
pub open spec fn rem_wrapping(a: i32, b: i32) -> i32 {
    match i32::checked_rem(a, b) {
        Some(r) => r,
        None => 0,
    }
}

/// Whether a register operand byte names a register.
pub open spec fn valid_reg(b: u8) -> bool {
    b < 32
}

/// `n` zero bytes.
pub open spec fn zeros(n: nat) -> Seq<u8> {
    Seq::new(n, |i: int| 0u8)
}

impl VmState {
    pub open spec fn reg(self, b: u8) -> i32 {
        self.registers[b as int]
    }

    pub open spec fn with_reg(self, b: u8, v: i32) -> VmState {
        VmState { registers: self.registers.update(b as int, v), ..self }
    }

    pub open spec fn with_pc(self, pc: usize) -> VmState {
        VmState { pc: pc, ..self }
    }

    pub open spec fn with_flag(self, f: bool) -> VmState {
        VmState { equal_flag: f, ..self }
    }

    /// Well-formed: exactly one value per register, and buffers whose
    /// lengths a `usize` holds.
    pub open spec fn wf(self) -> bool {
        &&& self.registers.len() == 32
        &&& self.program.len() <= usize::MAX
        &&& self.heap.len() <= usize::MAX
    }

    /// The state with every register zero.
    pub open spec fn cleared_registers(self) -> VmState {
        VmState { registers: Seq::new(32, |i: int| 0i32), ..self }
    }

    /// The state with an empty program and the counter back at its start.
    pub open spec fn cleared_program(self) -> VmState {
        VmState { program: Seq::empty(), pc: 0, ..self }
    }
}

/// Executes an opcode whose operand bytes `a`, `b`, `c` have been read; `s.pc`
/// already stands past them. Unused operand bytes are ignored.
pub open spec fn execute_spec(s: VmState, op: Opcode, a: u8, b: u8, c: u8) -> (VmState, Option<Halt>) {
    match op {
        Opcode::NOP => (s, None),
        Opcode::LOAD => if !valid_reg(a) {
            (s, Some(Halt::BadRegister { index: a }))
        } else {
            (s.with_reg(a, (b as int * 256 + c as int) as i32), None)
        },
        Opcode::ADD | Opcode::SUB | Opcode::MUL | Opcode::DIV | Opcode::BETW => if !valid_reg(a) {
            (s, Some(Halt::BadRegister { index: a }))
        } else if !valid_reg(b) {
            (s, Some(Halt::BadRegister { index: b }))
        } else if !valid_reg(c) {
            (s, Some(Halt::BadRegister { index: c }))
        } else {
            let x = s.reg(a);
            let y = s.reg(b);
            match op {
                Opcode::ADD => (s.with_reg(c, i32::wrapping_add(x, y)), None),
                Opcode::SUB => (s.with_reg(c, i32::wrapping_sub(x, y)), None),
                Opcode::MUL => (s.with_reg(c, i32::wrapping_mul(x, y)), None),
                Opcode::DIV => if y == 0 {
                    (s, Some(Halt::DivisionByZero))
                } else {
                    (VmState { remainder: rem_wrapping(x, y) as u32, ..s.with_reg(c, div_wrapping(x, y)) }, None)
                },
                _ => (s.with_flag(y < x && x < s.reg(c)), None),
            }
        },
        Opcode::EQ | Opcode::NEQ | Opcode::GT | Opcode::LT | Opcode::GTEQ | Opcode::LTEQ => if !valid_reg(a) {
            (s, Some(Halt::BadRegister { index: a }))
        } else if !valid_reg(b) {
            (s, Some(Halt::BadRegister { index: b }))
        } else {
            let x = s.reg(a);
            let y = s.reg(b);
            let f = match op {
                Opcode::EQ => x == y,
                Opcode::NEQ => x != y,
                Opcode::GT => x > y,
                Opcode::LT => x < y,
                Opcode::GTEQ => x >= y,
                _ => x <= y,
            };
            (s.with_flag(f), None)
        },
        Opcode::JMP | Opcode::JMPF | Opcode::JMPB | Opcode::JEQ => if !valid_reg(a) {
            (s, Some(Halt::BadRegister { index: a }))
        } else {
            let t = s.reg(a) as usize;
            match op {
                Opcode::JMP => (s.with_pc(t), None),
                Opcode::JMPF => if s.pc + t > usize::MAX {
                    (s, Some(Halt::JumpOverflow { pc: s.pc, offset: t }))
                } else {
                    (s.with_pc((s.pc + t) as usize), None)
                },
                Opcode::JMPB => if s.pc < t {
                    (s, Some(Halt::JumpOverflow { pc: s.pc, offset: t }))
                } else {
                    (s.with_pc((s.pc - t) as usize), None)
                },
                _ => if s.equal_flag {
                    (s.with_pc(t), None)
                } else {
                    (s, None)
                },
            }
        },
        Opcode::ALOC => if !valid_reg(a) {
            (s, Some(Halt::BadRegister { index: a }))
        } else {
            let n = s.reg(a);
            if n < 0 || s.heap.len() + n > usize::MAX {
                (s, Some(Halt::BadAllocation { bytes: n }))
            } else {
                (VmState { heap: s.heap + zeros(n as nat), ..s }, None)
            }
        },
        _ => (s, None),
    }
}

/// Operand byte `k` of an instruction whose operands start at `p`; zero where
/// the opcode takes fewer operand bytes.
pub open spec fn operand_byte(s: VmState, op: Opcode, p: int, k: int) -> u8 {
    if k < operand_width(op) { s.program[p + k] } else { 0 }
}

/// One step of the engine: the next state, and `None` to go on or the reason to halt.
pub open spec fn step_spec(s: VmState) -> (VmState, Option<Halt>) {
    if s.pc >= s.program.len() {
        (s, Some(Halt::EndOfProgram))
    } else {
        let code = s.program[s.pc as int];
        let op = decode_spec(code);
        let p = s.pc + 1;
        let s1 = s.with_pc(p as usize);
        if op == Opcode::HLT {
            (s1, Some(Halt::Halted))
        } else if !is_executable(op) {
            (s1, Some(Halt::IllegalOpcode { code: code }))
        } else if p + operand_width(op) > s.program.len() {
            (s1, Some(Halt::Truncated))
        } else {
            execute_spec(
                s.with_pc((p + operand_width(op)) as usize),
                op,
                operand_byte(s, op, p, 0),
                operand_byte(s, op, p, 1),
                operand_byte(s, op, p, 2),
            )
        }
    }
}

/// The four bytes of the program at `s.pc` are `w`.
pub open spec fn word_at(s: VmState, w: Seq<u8>) -> bool {
    &&& w.len() == 4
    &&& s.pc + 4 <= s.program.len()
    &&& s.program.subrange(s.pc as int, s.pc + 4) == w
}

/// `LOAD` stores its big-endian immediate in the named register, which then
/// reads back as that value; nothing else but the counter changes, and it
/// moves past the word.
pub proof fn lemma_load_reads_back(s: VmState, r: u8, hi: u8, lo: u8)
    requires
        s.wf(),
        r < 32,
        word_at(s, seq![1u8, r, hi, lo]),
    ensures
        step_spec(s) == (s.with_reg(r, (hi as int * 256 + lo as int) as i32).with_pc((s.pc + 4) as usize), None::<Halt>),
        step_spec(s).0.registers[r as int] == hi as int * 256 + lo as int,
{
    assert(s.program[s.pc + 0] == 1u8);
    assert(s.program[s.pc + 1] == r);
    assert(s.program[s.pc + 2] == hi);
    assert(s.program[s.pc + 3] == lo);
    assert(s.with_reg(r, (hi as int * 256 + lo as int) as i32).with_pc((s.pc + 4) as usize)
        == s.with_pc((s.pc + 4) as usize).with_reg(r, (hi as int * 256 + lo as int) as i32));
}

/// The value that `ADD`, `SUB` or `MUL` computes, where it fits in an `i32`.
pub open spec fn exact_result(op: Opcode, x: int, y: int) -> int {
    match op {
        Opcode::ADD => x + y,
        Opcode::SUB => x - y,
        _ => x * y,
    }
}

/// `ADD`, `SUB` and `MUL` store the exact result in the destination register
/// whenever it fits in an `i32`, and move the counter past the word.
pub proof fn lemma_arith_exact(s: VmState, op: Opcode, a: u8, b: u8, c: u8)
    requires
        s.wf(),
        op == Opcode::ADD || op == Opcode::SUB || op == Opcode::MUL,
        a < 32 && b < 32 && c < 32,
        word_at(s, seq![code_spec(op), a, b, c]),
        i32::MIN <= exact_result(op, s.reg(a) as int, s.reg(b) as int) <= i32::MAX,
    ensures
        step_spec(s).1 is None,
        step_spec(s).0.registers[c as int] == exact_result(op, s.reg(a) as int, s.reg(b) as int),
        step_spec(s).0.pc == s.pc + 4,
{
    assert(s.program[s.pc + 0] == code_spec(op));
    assert(s.program[s.pc + 1] == a);
    assert(s.program[s.pc + 2] == b);
    assert(s.program[s.pc + 3] == c);
    lemma_decode_code(op);
    let x = s.reg(a);
    let y = s.reg(b);
    if op == Opcode::MUL {
        let m = x as int * y as int;
        if m >= 0 {
            assert(m % 0x1_0000_0000int == m);
        } else {
            assert(m % 0x1_0000_0000int == m + 0x1_0000_0000int);
        }
    }
}

/// A byte that names no executable operation halts the step after moving the
/// counter past it, and changes nothing else.
pub proof fn lemma_illegal_opcode(s: VmState)
    requires
        s.pc < s.program.len(),
        !is_executable(decode_spec(s.program[s.pc as int])),
        decode_spec(s.program[s.pc as int]) != Opcode::HLT,
    ensures
        step_spec(s) == (s.with_pc((s.pc + 1) as usize), Some(Halt::IllegalOpcode { code: s.program[s.pc as int] })),
        step_spec(s).0.registers == s.registers,
{
}

/// After clearing the registers every register reads zero, whatever the state
/// was; clearing again changes nothing.
pub proof fn lemma_clear_registers(s: VmState)
    ensures
        forall|i: int| 0 <= i < 32 ==> #[trigger] s.cleared_registers().registers[i] == 0,
        s.cleared_registers().registers.len() == 32,
        s.cleared_registers().cleared_registers() == s.cleared_registers(),
{
}

/// After clearing the program it reads as empty; clearing again changes nothing.
pub proof fn lemma_clear_program(s: VmState)
    ensures
        s.cleared_program().program.len() == 0,
        s.cleared_program().cleared_program() == s.cleared_program(),
{
}

/// `ALOC` with a non-negative count that the heap length can hold appends
/// exactly that many zero bytes to the heap, and moves the counter past the word.
pub proof fn lemma_aloc_grows(s: VmState, a: u8, p1: u8, p2: u8)
    requires
        s.wf(),
        a < 32,
        word_at(s, seq![18u8, a, p1, p2]),
        s.reg(a) >= 0,
        s.heap.len() + s.reg(a) <= usize::MAX,
    ensures
        step_spec(s).1 is None,
        step_spec(s).0.heap.len() == s.heap.len() + s.reg(a),
        step_spec(s).0.heap.subrange(0, s.heap.len() as int) == s.heap,
        forall|i: int| s.heap.len() <= i < step_spec(s).0.heap.len() ==> #[trigger] step_spec(s).0.heap[i] == 0,
        step_spec(s).0.pc == s.pc + 4,
{
    assert(s.program[s.pc + 0] == 18u8);
    assert(s.program[s.pc + 1] == a);
    let t = step_spec(s).0;
    assert(t.heap == s.heap + zeros(s.reg(a) as nat));
    assert(t.heap.subrange(0, s.heap.len() as int) =~= s.heap);
}

/// A machine: registers, program counter, program, heap, remainder and flag.
pub struct VM {
    registers: [i32; 32],
    pc: usize,
    program: Vec<u8>,
    heap: Vec<u8>,
    remainder: u32,
    equal_flag: bool,
}

impl View for VM {
    type V = VmState;

    closed spec fn view(&self) -> VmState {
        VmState {
            registers: self.registers@,
            pc: self.pc,
            program: self.program@,
            heap: self.heap@,
            remainder: self.remainder,
            equal_flag: self.equal_flag,
        }
    }
}

impl VM {
    /// A machine with zeroed registers, an empty program and an empty heap.
    pub fn new() -> (r: VM)
        ensures
            r@ == initial_state(),
    {
        let r = VM {
            registers: [0; 32],
            program: Vec::new(),
            heap: Vec::new(),
            pc: 0,
            remainder: 0,
            equal_flag: false,
        };
        assert(r@.registers =~= initial_state().registers);
        r
    }

    /// Executes the instruction at the program counter, discarding the signal.
    pub fn run_once(&mut self)
        ensures
            final(self)@ == step_spec(old(self)@).0,
    {
        let _ = self.execute_instruction();
    }

    /// Executes the instruction at the program counter. Returns `None` when
    /// execution may go on, or the reason why it halts.
    pub fn execute_instruction(&mut self) -> (r: Option<Halt>)
        ensures
            (final(self)@, r) == step_spec(old(self)@),
    {
        if self.pc >= self.program.len() {
            return Some(Halt::EndOfProgram);
        }
        let code = self.program[self.pc];
        let opcode = self.decode_opcode();
        match opcode {
            Opcode::HLT => {
                return Some(Halt::Halted);
            },
            Opcode::INC | Opcode::DEC | Opcode::IGL => {
                return Some(Halt::IllegalOpcode { code });
            },
            _ => {},
        }
        let width: usize = match opcode {
            Opcode::JMP | Opcode::JMPF | Opcode::JMPB | Opcode::JEQ => 1,
            _ => 3,
        };
        if self.program.len() - self.pc < width {
            return Some(Halt::Truncated);
        }
        let a = self.next_8_bits();
        let mut b: u8 = 0;
        let mut c: u8 = 0;
        if width == 3 {
            b = self.next_8_bits();
            c = self.next_8_bits();
        }
        self.execute(opcode, a, b, c)
    }

    /// Executes an opcode whose operand bytes have been read.
    fn execute(&mut self, op: Opcode, a: u8, b: u8, c: u8) -> (r: Option<Halt>)
        requires
            is_executable(op),
        ensures
            (final(self)@, r) == execute_spec(old(self)@, op, a, b, c),
    {
        match op {
            Opcode::NOP => None,
            Opcode::LOAD => {
                if a >= 32 {
                    return Some(Halt::BadRegister { index: a });
                }
                let number = (b as u16) * 256 + (c as u16);
                self.registers[a as usize] = number as i32;
                None
            },
            Opcode::ADD | Opcode::SUB | Opcode::MUL | Opcode::DIV | Opcode::BETW => {
                self.execute_three(op, a, b, c)
            },
            Opcode::JMP | Opcode::JMPF | Opcode::JMPB | Opcode::JEQ => self.execute_jump(op, a),
            Opcode::ALOC => self.execute_aloc(a),
            _ => self.execute_compare(op, a, b),
        }
    }

    /// Arithmetic and the range test: three register operands.
    fn execute_three(&mut self, op: Opcode, a: u8, b: u8, c: u8) -> (r: Option<Halt>)
        requires
            op == Opcode::ADD || op == Opcode::SUB || op == Opcode::MUL || op == Opcode::DIV
                || op == Opcode::BETW,
        ensures
            (final(self)@, r) == execute_spec(old(self)@, op, a, b, c),
    {
        if a >= 32 {
            return Some(Halt::BadRegister { index: a });
        }
        if b >= 32 {
            return Some(Halt::BadRegister { index: b });
        }
        if c >= 32 {
            return Some(Halt::BadRegister { index: c });
        }
        let x = self.registers[a as usize];
        let y = self.registers[b as usize];
        match op {
            Opcode::ADD => {
                self.registers[c as usize] = x.wrapping_add(y);
            },
            Opcode::SUB => {
                self.registers[c as usize] = x.wrapping_sub(y);
            },
            Opcode::MUL => {
                self.registers[c as usize] = x.wrapping_mul(y);
            },
            Opcode::DIV => {
                if y == 0 {
                    return Some(Halt::DivisionByZero);
                }
                let q = match x.checked_div(y) {
                    Some(q) => q,
                    None => i32::MIN,
                };
                let m = match x.checked_rem(y) {
                    Some(m) => m,
                    None => 0,
                };
                self.registers[c as usize] = q;
                self.remainder = m as u32;
            },
            _ => {
                let upper = self.registers[c as usize];
                self.equal_flag = y < x && x < upper;
            },
        }
        None
    }

    /// The six comparisons: two register operands and a padding byte.
    fn execute_compare(&mut self, op: Opcode, a: u8, b: u8) -> (r: Option<Halt>)
        requires
            op == Opcode::EQ || op == Opcode::NEQ || op == Opcode::GT || op == Opcode::LT
                || op == Opcode::GTEQ || op == Opcode::LTEQ,
        ensures
            forall|c: u8| (final(self)@, r) == #[trigger] execute_spec(old(self)@, op, a, b, c),
    {
        if a >= 32 {
            return Some(Halt::BadRegister { index: a });
        }
        if b >= 32 {
            return Some(Halt::BadRegister { index: b });
        }
        let x = self.registers[a as usize];
        let y = self.registers[b as usize];
        self.equal_flag = match op {
            Opcode::EQ => x == y,
            Opcode::NEQ => x != y,
            Opcode::GT => x > y,
            Opcode::LT => x < y,
            Opcode::GTEQ => x >= y,
            _ => x <= y,
        };
        None
    }

    /// Absolute, relative and conditional jumps: one register operand.
    fn execute_jump(&mut self, op: Opcode, a: u8) -> (r: Option<Halt>)
        requires
            op == Opcode::JMP || op == Opcode::JMPF || op == Opcode::JMPB || op == Opcode::JEQ,
        ensures
            forall|b: u8, c: u8| (final(self)@, r) == #[trigger] execute_spec(old(self)@, op, a, b, c),
    {
        if a >= 32 {
            return Some(Halt::BadRegister { index: a });
        }
        let target = self.registers[a as usize] as usize;
        match op {
            Opcode::JMP => {
                self.pc = target;
            },
            Opcode::JMPF => {
                match self.pc.checked_add(target) {
                    Some(p) => {
                        self.pc = p;
                    },
                    None => {
                        return Some(Halt::JumpOverflow { pc: self.pc, offset: target });
                    },
                }
            },
            Opcode::JMPB => {
                match self.pc.checked_sub(target) {
                    Some(p) => {
                        self.pc = p;
                    },
                    None => {
                        return Some(Halt::JumpOverflow { pc: self.pc, offset: target });
                    },
                }
            },
            _ => {
                if self.equal_flag {
                    self.pc = target;
                }
            },
        }
        None
    }

    /// Heap growth by the byte count in a register, zero-filled.
    fn execute_aloc(&mut self, a: u8) -> (r: Option<Halt>)
        ensures
            forall|b: u8, c: u8| (final(self)@, r) == #[trigger] execute_spec(old(self)@, Opcode::ALOC, a, b, c),
    {
        if a >= 32 {
            return Some(Halt::BadRegister { index: a });
        }
        let bytes = self.registers[a as usize];
        if bytes < 0 {
            return Some(Halt::BadAllocation { bytes });
        }
        let new_end = match self.heap.len().checked_add(bytes as usize) {
            Some(n) => n,
            None => {
                return Some(Halt::BadAllocation { bytes });
            },
        };
        let ghost old_heap = self.heap@;
        self.heap.resize(new_end, 0);
        assert(self.heap@ =~= old_heap + zeros(bytes as nat));
        None
    }

    /// Reads the opcode byte at the program counter and moves past it.
    fn decode_opcode(&mut self) -> (r: Opcode)
        requires
            old(self).pc < old(self).program.len(),
        ensures
            r == decode_spec(old(self)@.program[old(self).pc as int]),
            final(self)@ == old(self)@.with_pc((old(self).pc + 1) as usize),
    {
        let opcode = Opcode::decode(self.program[self.pc]);
        self.pc = self.pc + 1;
        opcode
    }

    /// Reads the byte at the program counter and moves past it.
    fn next_8_bits(&mut self) -> (r: u8)
        requires
            old(self).pc < old(self).program.len(),
        ensures
            r == old(self)@.program[old(self).pc as int],
            final(self)@ == old(self)@.with_pc((old(self).pc + 1) as usize),
    {
        let result = self.program[self.pc];
        self.pc = self.pc + 1;
        result
    }
}

impl VM {
    /// The state of every machine is well-formed.
    pub proof fn lemma_wf(&self)
        ensures
            self@.wf(),
    {
        assert(self.program.len() == self.program@.len());
        assert(self.heap.len() == self.heap@.len());
    }

    /// A copy of the program bytes.
    pub fn get_program(&mut self) -> (r: Vec<u8>)
        ensures
            r@ == old(self)@.program,
            final(self)@ == old(self)@,
    {
        self.program.clone()
    }

    /// A copy of the registers.
    pub fn get_registers(&mut self) -> (r: [i32; 32])
        ensures
            r@ == old(self)@.registers,
            final(self)@ == old(self)@,
    {
        self.registers
    }

    /// Appends one byte to the program.
    pub fn add_byte(&mut self, byte: u8)
        ensures
            final(self)@ == (VmState { program: old(self)@.program.push(byte), ..old(self)@ }),
    {
        self.program.push(byte);
    }

    /// Appends bytes to the program.
    pub fn append_bytes(&mut self, bytes: Vec<u8>)
        ensures
            final(self)@ == (VmState { program: old(self)@.program + bytes@, ..old(self)@ }),
    {
        let mut bytes = bytes;
        self.program.append(&mut bytes);
    }

    /// Empties the program and puts the counter back at its start.
    pub fn clear_program(&mut self)
        ensures
            final(self)@ == old(self)@.cleared_program(),
    {
        self.program = Vec::new();
        self.pc = 0;
    }

    /// Sets every register to zero.
    pub fn clear_registers(&mut self)
        ensures
            final(self)@ == old(self)@.cleared_registers(),
    {
        self.registers = [0; 32];
        assert(self@.registers =~= old(self)@.cleared_registers().registers);
    }

    /// The value of one register.
    pub fn register(&self, index: usize) -> (r: i32)
        requires
            index < REGISTER_COUNT,
        ensures
            r == self@.registers[index as int],
    {
        self.registers[index]
    }

    /// Stores a value in one register.
    pub fn set_register(&mut self, index: usize, value: i32)
        requires
            index < REGISTER_COUNT,
        ensures
            final(self)@ == old(self)@.with_reg(index as u8, value),
    {
        self.registers[index] = value;
    }

    /// The program counter: the offset of the next byte to fetch.
    pub fn pc(&self) -> (r: usize)
        ensures
            r == self@.pc,
    {
        self.pc
    }

    /// The result of the most recent comparison.
    pub fn equal_flag(&self) -> (r: bool)
        ensures
            r == self@.equal_flag,
    {
        self.equal_flag
    }

    /// Overwrites the comparison flag.
    pub fn set_equal_flag(&mut self, value: bool)
        ensures
            final(self)@ == old(self)@.with_flag(value),
    {
        self.equal_flag = value;
    }

    /// The remainder of the most recent division.
    pub fn remainder(&self) -> (r: u32)
        ensures
            r == self@.remainder,
    {
        self.remainder
    }

    /// The heap contents.
    pub fn heap(&self) -> (r: &Vec<u8>)
        ensures
            r@ == self@.heap,
    {
        &self.heap
    }
}

} // verus!
