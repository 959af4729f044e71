//! The instruction set: opcode tags and their numeric encoding.

use vstd::prelude::*;

verus! {

/// The operations of the machine. Every byte decodes to one of these; bytes
/// that name no operation decode to `IGL`.
#[derive(Debug, PartialEq, Eq, Structural, Copy, Clone)]
pub enum Opcode {
    // system
    LOAD,
    ALOC,
    // math
    ADD,
    SUB,
    INC,
    DEC,
    MUL,
    DIV,
    // comparison
    EQ,
    NEQ,
    GT,
    LT,
    GTEQ,
    LTEQ,
    BETW,
    // jumps
    JMP,
    JMPF,
    JMPB,
    JEQ,
    // defaults
    HLT,
    NOP,
    // illegal operation; produced by decoding only
    IGL,
}

/// The opcode that a byte decodes to.
pub open spec fn decode_spec(b: u8) -> Opcode {
    match b {
        0 => Opcode::HLT,
        1 => Opcode::LOAD,
        2 => Opcode::ADD,
        3 => Opcode::SUB,
        4 => Opcode::MUL,
        5 => Opcode::DIV,
        6 => Opcode::JMP,
        7 => Opcode::JMPF,
        8 => Opcode::JMPB,
        9 => Opcode::EQ,
        10 => Opcode::NEQ,
        11 => Opcode::GT,
        12 => Opcode::LT,
        13 => Opcode::GTEQ,
        14 => Opcode::LTEQ,
        15 => Opcode::BETW,
        16 => Opcode::JEQ,
        17 => Opcode::NOP,
        18 => Opcode::ALOC,
        19 => Opcode::INC,
        20 => Opcode::DEC,
        _ => Opcode::IGL,
    }
}

/// The byte that encodes an opcode.
pub open spec fn code_spec(op: Opcode) -> u8 {
    match op {
        Opcode::HLT => 0,
        Opcode::LOAD => 1,
        Opcode::ADD => 2,
        Opcode::SUB => 3,
        Opcode::MUL => 4,
        Opcode::DIV => 5,
        Opcode::JMP => 6,
        Opcode::JMPF => 7,
        Opcode::JMPB => 8,
        Opcode::EQ => 9,
        Opcode::NEQ => 10,
        Opcode::GT => 11,
        Opcode::LT => 12,
        Opcode::GTEQ => 13,
        Opcode::LTEQ => 14,
        Opcode::BETW => 15,
        Opcode::JEQ => 16,
        Opcode::NOP => 17,
        Opcode::ALOC => 18,
        Opcode::INC => 19,
        Opcode::DEC => 20,
        Opcode::IGL => 254,
    }
}

/// Every opcode, in the order of the catalogue.
pub open spec fn all_opcodes() -> Seq<Opcode> {
    seq![
        Opcode::LOAD, Opcode::ALOC,
        Opcode::ADD, Opcode::SUB, Opcode::INC, Opcode::DEC, Opcode::MUL, Opcode::DIV,
        Opcode::EQ, Opcode::NEQ, Opcode::GT, Opcode::LT, Opcode::GTEQ, Opcode::LTEQ, Opcode::BETW,
        Opcode::JMP, Opcode::JMPF, Opcode::JMPB, Opcode::JEQ,
        Opcode::HLT, Opcode::NOP, Opcode::IGL,
    ]
}

impl Opcode {
    /// The numeric code of this opcode.
    pub fn to_byte(self) -> (r: u8)
        ensures
            r == code_spec(self),
    {
        match self {
            Opcode::HLT => 0,
            Opcode::LOAD => 1,
            Opcode::ADD => 2,
            Opcode::SUB => 3,
            Opcode::MUL => 4,
            Opcode::DIV => 5,
            Opcode::JMP => 6,
            Opcode::JMPF => 7,
            Opcode::JMPB => 8,
            Opcode::EQ => 9,
            Opcode::NEQ => 10,
            Opcode::GT => 11,
            Opcode::LT => 12,
            Opcode::GTEQ => 13,
            Opcode::LTEQ => 14,
            Opcode::BETW => 15,
            Opcode::JEQ => 16,
            Opcode::NOP => 17,
            Opcode::ALOC => 18,
            Opcode::INC => 19,
            Opcode::DEC => 20,
            Opcode::IGL => 254,
        }
    }

    /// The opcode that a byte decodes to; total, `IGL` for unassigned bytes.
    pub fn decode(v: u8) -> (r: Opcode)
        ensures
            r == decode_spec(v),
    {
        match v {
            0 => Opcode::HLT,
            1 => Opcode::LOAD,
            2 => Opcode::ADD,
            3 => Opcode::SUB,
            4 => Opcode::MUL,
            5 => Opcode::DIV,
            6 => Opcode::JMP,
            7 => Opcode::JMPF,
            8 => Opcode::JMPB,
            9 => Opcode::EQ,
            10 => Opcode::NEQ,
            11 => Opcode::GT,
            12 => Opcode::LT,
            13 => Opcode::GTEQ,
            14 => Opcode::LTEQ,
            15 => Opcode::BETW,
            16 => Opcode::JEQ,
            17 => Opcode::NOP,
            18 => Opcode::ALOC,
            19 => Opcode::INC,
            20 => Opcode::DEC,
            _ => Opcode::IGL,
        }
    }

    /// Every opcode of the instruction set, each once.
    pub fn iterator() -> (r: Vec<Opcode>)
        ensures
            r@ == all_opcodes(),
    {
        vec![
            Opcode::LOAD, Opcode::ALOC,
            Opcode::ADD, Opcode::SUB, Opcode::INC, Opcode::DEC, Opcode::MUL, Opcode::DIV,
            Opcode::EQ, Opcode::NEQ, Opcode::GT, Opcode::LT, Opcode::GTEQ, Opcode::LTEQ, Opcode::BETW,
            Opcode::JMP, Opcode::JMPF, Opcode::JMPB, Opcode::JEQ,
            Opcode::HLT, Opcode::NOP, Opcode::IGL,
        ]
    }
}

/// The opcode that a lower-case mnemonic names; `IGL` for any other text.
pub open spec fn mnemonic_opcode(s: Seq<char>) -> Opcode {
    if s == "hlt"@ {
        Opcode::HLT
    } else if s == "load"@ {
        Opcode::LOAD
    } else if s == "add"@ {
        Opcode::ADD
    } else if s == "sub"@ {
        Opcode::SUB
    } else if s == "mul"@ {
        Opcode::MUL
    } else if s == "div"@ {
        Opcode::DIV
    } else if s == "jmp"@ {
        Opcode::JMP
    } else if s == "jmpf"@ {
        Opcode::JMPF
    } else if s == "jmpb"@ {
        Opcode::JMPB
    } else if s == "eq"@ {
        Opcode::EQ
    } else if s == "neq"@ {
        Opcode::NEQ
    } else if s == "gt"@ {
        Opcode::GT
    } else if s == "lt"@ {
        Opcode::LT
    } else if s == "gteq"@ {
        Opcode::GTEQ
    } else if s == "lteq"@ {
        Opcode::LTEQ
    } else if s == "betw"@ {
        Opcode::BETW
    } else if s == "jeq"@ {
        Opcode::JEQ
    } else if s == "nop"@ {
        Opcode::NOP
    } else if s == "aloc"@ {
        Opcode::ALOC
    } else if s == "inc"@ {
        Opcode::INC
    } else if s == "dec"@ {
        Opcode::DEC
    } else {
        Opcode::IGL
    }
}

/// The lower-case form of a text, as `str::to_lowercase` gives it.
pub uninterp spec fn lowercase_of(s: Seq<char>) -> Seq<char>;

/// Relies on `str::to_lowercase`: its result depends on the characters alone.
#[verifier::external_body]
fn to_lowercase(s: &str) -> (r: String)
    ensures
        r@ == lowercase_of(s@),
{
    s.to_lowercase()
}

/// Whether two strings hold the same characters.
pub(crate) fn same_chars(a: &str, b: &str) -> (r: bool)
    ensures
        r == (a@ == b@),
{
    let n = a.unicode_len();
    if n != b.unicode_len() {
        return false;
    }
    let mut i: usize = 0;
    while i < n
        invariant
            n == a@.len() == b@.len(),
            i <= n,
            forall|k: int| 0 <= k < i ==> a@[k] == b@[k],
        decreases n - i,
    {
        if a.get_char(i) != b.get_char(i) {
            return false;
        }
        i = i + 1;
    }
    assert(a@ =~= b@);
    true
}

impl Opcode {
    /// The opcode that a lower-case mnemonic names; `IGL` for any other text.
    pub fn from_lowercase_mnemonic(s: &str) -> (r: Opcode)
        ensures
            r == mnemonic_opcode(s@),
    {
        if same_chars(s, "hlt") {
            Opcode::HLT
        } else if same_chars(s, "load") {
            Opcode::LOAD
        } else if same_chars(s, "add") {
            Opcode::ADD
        } else if same_chars(s, "sub") {
            Opcode::SUB
        } else if same_chars(s, "mul") {
            Opcode::MUL
        } else if same_chars(s, "div") {
            Opcode::DIV
        } else if same_chars(s, "jmp") {
            Opcode::JMP
        } else if same_chars(s, "jmpf") {
            Opcode::JMPF
        } else if same_chars(s, "jmpb") {
            Opcode::JMPB
        } else if same_chars(s, "eq") {
            Opcode::EQ
        } else if same_chars(s, "neq") {
            Opcode::NEQ
        } else if same_chars(s, "gt") {
            Opcode::GT
        } else if same_chars(s, "lt") {
            Opcode::LT
        } else if same_chars(s, "gteq") {
            Opcode::GTEQ
        } else if same_chars(s, "lteq") {
            Opcode::LTEQ
        } else if same_chars(s, "betw") {
            Opcode::BETW
        } else if same_chars(s, "jeq") {
            Opcode::JEQ
        } else if same_chars(s, "nop") {
            Opcode::NOP
        } else if same_chars(s, "aloc") {
            Opcode::ALOC
        } else if same_chars(s, "inc") {
            Opcode::INC
        } else if same_chars(s, "dec") {
            Opcode::DEC
        } else {
            Opcode::IGL
        }
    }

    /// The opcode that a mnemonic names, in any case; `IGL` for any other text.
    pub fn from_mnemonic(s: &str) -> (r: Opcode)
        ensures
            r == mnemonic_opcode(lowercase_of(s@)),
    {
        let lower = to_lowercase(s);
        Opcode::from_lowercase_mnemonic(lower.as_str())
    }
}

impl From<u8> for Opcode {
    fn from(v: u8) -> (r: Opcode)
        ensures
            r == decode_spec(v),
    {
        Opcode::decode(v)
    }
}

impl vstd::std_specs::convert::FromSpecImpl<u8> for Opcode {
    open spec fn obeys_from_spec() -> bool {
        true
    }

    open spec fn from_spec(v: u8) -> Opcode {
        decode_spec(v)
    }
}

/// Decoding the code of an opcode gives the opcode back.
pub proof fn lemma_decode_code(op: Opcode)
    ensures
        decode_spec(code_spec(op)) == op,
{
}

/// A byte that decodes to an operation other than `IGL` is that operation's code.
pub proof fn lemma_code_decode(b: u8)
    requires
        decode_spec(b) != Opcode::IGL,
    ensures
        code_spec(decode_spec(b)) == b,
{
}

/// One decoded instruction.
#[derive(Debug, PartialEq, Eq, Structural, Copy, Clone)]
pub struct Instruction {
    pub opcode: Opcode,
}

impl Instruction {
    /// An instruction with the given opcode.
    pub fn new(opcode: Opcode) -> (r: Instruction)
        ensures
            r.opcode == opcode,
    {
        Instruction { opcode }
    }
}

} // verus!
