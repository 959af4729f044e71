//! Encoding of assembled instructions into the four-byte instruction words
//! that the engine executes.

use vstd::prelude::*;
use crate::instructions::{Opcode, code_spec};
use crate::vm::{VmState, Halt, step_spec, word_at, lemma_load_reads_back};

verus! {

/// A token of assembly text.
#[derive(Debug, PartialEq, Eq)]
pub enum Token {
    Op { code: Opcode },
    Register { reg_num: u8 },
    IntegerOperand { value: i32 },
    LabelDeclaration { name: String },
    LabelUsage { name: String },
    Directive { name: String },
}

/// One line of assembly: an opcode or a directive, an optional label and up to
/// three operands.
#[derive(Debug, PartialEq, Eq)]
pub struct AssemblerInstruction {
    pub opcode: Option<Token>,
    pub label: Option<Token>,
    pub directive: Option<Token>,
    pub operand1: Option<Token>,
    pub operand2: Option<Token>,
    pub operand3: Option<Token>,
}

/// High byte of the 16-bit immediate that an integer operand encodes to.
pub open spec fn imm_high(value: i32) -> u8 {
    ((value as u16) >> 8u16) as u8
}

/// Low byte of the 16-bit immediate that an integer operand encodes to.
pub open spec fn imm_low(value: i32) -> u8 {
    (value as u16) as u8
}

/// The bytes of an operand token: a register is its index, an integer its low
/// 16 bits, high byte first. Other tokens are not operands.
pub open spec fn operand_bytes(t: Token) -> Option<Seq<u8>> {
    match t {
        Token::Register { reg_num } => Some(seq![reg_num]),
        Token::IntegerOperand { value } => Some(seq![imm_high(value), imm_low(value)]),
        _ => None,
    }
}

/// The bytes of an optional operand; an absent one adds none.
pub open spec fn opt_operand_bytes(t: Option<Token>) -> Option<Seq<u8>> {
    match t {
        None => Some(Seq::empty()),
        Some(t) => operand_bytes(t),
    }
}

/// `bs` followed by zeros up to a length of four.
pub open spec fn pad_word(bs: Seq<u8>) -> Seq<u8> {
    if bs.len() < 4 {
        bs + Seq::new((4 - bs.len()) as nat, |i: int| 0u8)
    } else {
        bs
    }
}

/// The encoding of an instruction: its opcode's code, then the bytes of its
/// operands in order, padded with zeros to a word. `None` when the opcode
/// field holds no opcode or an operand field holds a token that is no operand.
pub open spec fn encode_spec(ins: AssemblerInstruction) -> Option<Seq<u8>> {
    match ins.opcode {
        Some(Token::Op { code }) => {
            match (opt_operand_bytes(ins.operand1), opt_operand_bytes(ins.operand2), opt_operand_bytes(ins.operand3)) {
                (Some(b1), Some(b2), Some(b3)) => Some(pad_word(seq![code_spec(code)] + b1 + b2 + b3)),
                _ => None,
            }
        },
        _ => None,
    }
}

/// The encoding of a sequence of instructions, one after the other; `None`
/// when any of them has none.
pub open spec fn encode_all(s: Seq<AssemblerInstruction>) -> Option<Seq<u8>>
    decreases s.len(),
{
    if s.len() == 0 {
        Some(Seq::empty())
    } else {
        match (encode_all(s.drop_last()), encode_spec(s.last())) {
            (Some(a), Some(b)) => Some(a + b),
            _ => None,
        }
    }
}

impl AssemblerInstruction {
    /// The instruction's bytes, or `None` when it cannot be encoded.
    pub fn to_bytes(&self) -> (r: Option<Vec<u8>>)
        ensures
            r matches Some(v) ==> encode_spec(*self) == Some(v@),
            r is None ==> encode_spec(*self) is None,
    {
        let mut results: Vec<u8> = Vec::new();
        match &self.opcode {
            Some(Token::Op { code }) => {
                results.push(code.to_byte());
            },
            _ => {
                return None;
            },
        }
        if !AssemblerInstruction::extract_optional(&self.operand1, &mut results) {
            return None;
        }
        if !AssemblerInstruction::extract_optional(&self.operand2, &mut results) {
            return None;
        }
        if !AssemblerInstruction::extract_optional(&self.operand3, &mut results) {
            return None;
        }
        let ghost unpadded = results@;
        while results.len() < 4
            invariant
                unpadded.len() <= results@.len() <= 4 || results@ == unpadded,
                results@.subrange(0, unpadded.len() as int) == unpadded,
                forall|i: int| unpadded.len() <= i < results@.len() ==> results@[i] == 0u8,
            decreases 4 - results@.len(),
        {
            results.push(0);
        }
        assert(results@ =~= pad_word(unpadded));
        Some(results)
    }

    /// Appends the bytes of an optional operand; false when it is no operand.
    fn extract_optional(t: &Option<Token>, results: &mut Vec<u8>) -> (ok: bool)
        ensures
            ok == opt_operand_bytes(*t) is Some,
            ok ==> final(results)@ == old(results)@ + opt_operand_bytes(*t)->0,
    {
        match t {
            Some(t) => AssemblerInstruction::extract_operand(t, results),
            None => {
                assert(old(results)@ + Seq::<u8>::empty() =~= old(results)@);
                true
            },
        }
    }

    /// Appends the bytes of an operand token; false when the token is no operand.
    fn extract_operand(t: &Token, results: &mut Vec<u8>) -> (ok: bool)
        ensures
            ok == operand_bytes(*t) is Some,
            ok ==> final(results)@ == old(results)@ + operand_bytes(*t)->0,
    {
        match t {
            Token::Register { reg_num } => {
                results.push(*reg_num);
                assert(final(results)@ =~= old(results)@ + seq![*reg_num]);
                true
            },
            Token::IntegerOperand { value } => {
                let converted = *value as u16;
                let high = (converted >> 8) as u8;
                let low = converted as u8;
                results.push(high);
                results.push(low);
                assert(final(results)@ =~= old(results)@ + seq![high, low]);
                true
            },
            _ => false,
        }
    }

    /// Whether the opcode field is filled and is not the illegal opcode.
    pub fn is_valid(&self) -> (r: bool)
        ensures
            r == (self.opcode is Some && self.opcode != Some(Token::Op { code: Opcode::IGL })),
    {
        match &self.opcode {
            Some(Token::Op { code }) => !matches!(code, Opcode::IGL),
            Some(_) => true,
            None => false,
        }
    }
}

/// A sequence of assembled instructions.
#[derive(Debug, PartialEq, Eq)]
pub struct Program {
    instructions: Vec<AssemblerInstruction>,
}

impl View for Program {
    type V = Seq<AssemblerInstruction>;

    closed spec fn view(&self) -> Seq<AssemblerInstruction> {
        self.instructions@
    }
}

proof fn lemma_encode_all_none(s: Seq<AssemblerInstruction>, i: int, n: int)
    requires
        0 <= i <= n <= s.len(),
        encode_all(s.take(i)) is None,
    ensures
        encode_all(s.take(n)) is None,
    decreases n - i,
{
    if i < n {
        assert(s.take(i + 1).drop_last() =~= s.take(i));
        lemma_encode_all_none(s, i + 1, n);
    }
}

impl Program {
    /// A program of the given instructions, in order.
    pub fn new(instructions: Vec<AssemblerInstruction>) -> (r: Program)
        ensures
            r@ == instructions@,
    {
        Program { instructions }
    }

    /// The bytes of all instructions, in order, or `None` when one of them
    /// cannot be encoded.
    pub fn to_bytes(&self) -> (r: Option<Vec<u8>>)
        ensures
            r matches Some(v) ==> encode_all(self@) == Some(v@),
            r is None ==> encode_all(self@) is None,
    {
        let mut program: Vec<u8> = Vec::new();
        let mut i: usize = 0;
        assert(self@.take(0) =~= Seq::<AssemblerInstruction>::empty());
        while i < self.instructions.len()
            invariant
                0 <= i <= self@.len(),
                self@ == self.instructions@,
                encode_all(self@.take(i as int)) == Some(program@),
            decreases self@.len() - i,
        {
            let ghost prefix = self@.take(i as int + 1);
            assert(prefix.drop_last() =~= self@.take(i as int));
            match self.instructions[i].to_bytes() {
                Some(mut bytes) => {
                    program.append(&mut bytes);
                },
                None => {
                    proof {
                        lemma_encode_all_none(self@, i as int + 1, self@.len() as int);
                        assert(self@.take(self@.len() as int) =~= self@);
                    }
                    return None;
                },
            }
            i = i + 1;
        }
        assert(self@.take(self@.len() as int) =~= self@);
        Some(program)
    }
}

/// The instruction `LOAD $r #v`.
pub open spec fn load_instruction(r: u8, v: i32) -> AssemblerInstruction {
    AssemblerInstruction {
        opcode: Some(Token::Op { code: Opcode::LOAD }),
        label: None,
        directive: None,
        operand1: Some(Token::Register { reg_num: r }),
        operand2: Some(Token::IntegerOperand { value: v }),
        operand3: None,
    }
}

proof fn lemma_immediate_bytes(v: i32)
    ensures
        imm_high(v) as int * 256 + imm_low(v) as int == (v as u16) as int,
{
    let x = v as u16;
    assert(((x >> 8u16) as u8) as u16 * 256u16 + (x as u8) as u16 == x) by (bit_vector);
}

/// Assembling `LOAD $r #v` and executing the word loads the low 16 bits of `v`
/// into register `r`, read as a non-negative number; a `v` in `[0, 65535]`
/// reads back unchanged.
pub proof fn lemma_assembled_load_reads_back(s: VmState, r: u8, v: i32)
    requires
        s.wf(),
        r < 32,
        encode_spec(load_instruction(r, v)) matches Some(w) && word_at(s, w),
    ensures
        step_spec(s).1 == None::<Halt>,
        step_spec(s).0.registers[r as int] == (v as u16) as int,
        0 <= v <= 0xffff ==> step_spec(s).0.registers[r as int] == v,
        step_spec(s).0.pc == s.pc + 4,
{
    let w = seq![1u8, r, imm_high(v), imm_low(v)];
    assert(pad_word(seq![1u8] + seq![r] + seq![imm_high(v), imm_low(v)] + Seq::<u8>::empty()) =~= w);
    lemma_immediate_bytes(v);
    lemma_load_reads_back(s, r, imm_high(v), imm_low(v));
    if 0 <= v <= 0xffff {
        assert((v as u16) as int == v) by (bit_vector)
            requires 0 <= v <= 0xffff;
    }
}

} // verus!
