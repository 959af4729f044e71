//! The parts of the interactive shell that decide rather than do I/O: which
//! command a line is, and how a line of hex text becomes program bytes.

use vstd::prelude::*;
use crate::vm::{VM, initial_state};
use crate::instructions::same_chars;

verus! {

/// What a line typed into the shell asks for.
#[derive(Debug, PartialEq, Eq, Structural, Copy, Clone)]
pub enum Command {
    Help,
    Codes,
    Program,
    Registers,
    LoadFile,
    Run,
    ClearProgram,
    ClearRegisters,
    History,
    Quit,
    /// Raw instruction bytes as hex, after a `0x` prefix.
    Hex,
    /// Anything else: assembly text.
    Assembly,
}

/// A group of hex text that is not one byte.
#[derive(Debug, PartialEq, Eq, Structural, Copy, Clone)]
pub struct HexError {
    /// Index of the first space-separated group that does not parse.
    pub group: usize,
}

/// The command that a (trimmed) line asks for.
pub open spec fn command_of(s: Seq<char>) -> Command {
    if s == ".help"@ || s == ".usage"@ {
        Command::Help
    } else if s == ".codes"@ || s == ".instructions"@ || s == ".asm"@ {
        Command::Codes
    } else if s == ".program"@ {
        Command::Program
    } else if s == ".registers"@ {
        Command::Registers
    } else if s == ".loadfile"@ {
        Command::LoadFile
    } else if s == ".run"@ {
        Command::Run
    } else if s == ".clear_program"@ || s == ".clpro"@ {
        Command::ClearProgram
    } else if s == ".clear_registers"@ || s == ".clreg"@ {
        Command::ClearRegisters
    } else if s == ".history"@ {
        Command::History
    } else if s == ".quit"@ {
        Command::Quit
    } else if s.len() >= 2 && s[0] == '0' && s[1] == 'x' {
        Command::Hex
    } else {
        Command::Assembly
    }
}

/// The value of a hexadecimal digit, either case.
pub open spec fn hex_digit(c: char) -> Option<u32> {
    if '0' <= c && c <= '9' {
        Some((c as u32 - '0' as u32) as u32)
    } else if 'a' <= c && c <= 'f' {
        Some((c as u32 - 'a' as u32 + 10) as u32)
    } else if 'A' <= c && c <= 'F' {
        Some((c as u32 - 'A' as u32 + 10) as u32)
    } else {
        None
    }
}

/// Every character is a hexadecimal digit.
pub open spec fn all_hex(d: Seq<char>) -> bool {
    forall|i: int| 0 <= i < d.len() ==> (#[trigger] hex_digit(d[i])) is Some
}

/// The number that a string of hexadecimal digits denotes.
pub open spec fn hex_value(d: Seq<char>) -> nat
    decreases d.len(),
{
    if d.len() == 0 {
        0
    } else {
        hex_value(d.drop_last()) * 16 + (hex_digit(d.last())->0 as nat)
    }
}

/// The digits of a group: the group without a leading `+`.
pub open spec fn digits_of(g: Seq<char>) -> Seq<char> {
    if g.len() > 0 && g[0] == '+' {
        g.drop_first()
    } else {
        g
    }
}

/// The byte that a group of hex text denotes: an optional `+`, then one or
/// more hexadecimal digits whose value is below 256.
pub open spec fn byte_of_hex(g: Seq<char>) -> Option<u8> {
    let d = digits_of(g);
    if d.len() > 0 && all_hex(d) && hex_value(d) < 256 {
        Some(hex_value(d) as u8)
    } else {
        None
    }
}

/// The groups of a text between single spaces: `n` spaces give `n + 1`
/// groups, some of them possibly empty.
pub open spec fn split_spaces(s: Seq<char>) -> Seq<Seq<char>>
    decreases s.len(),
{
    if s.len() == 0 {
        seq![Seq::empty()]
    } else {
        let g = split_spaces(s.drop_last());
        if s.last() == ' ' {
            g.push(Seq::empty())
        } else {
            g.update(g.len() - 1, g.last().push(s.last()))
        }
    }
}

proof fn lemma_split_nonempty(s: Seq<char>)
    ensures
        split_spaces(s).len() >= 1,
    decreases s.len(),
{
    if s.len() > 0 {
        lemma_split_nonempty(s.drop_last());
    }
}

/// Extending a text keeps every group of the shorter text but its last.
proof fn lemma_split_prefix(s: Seq<char>, j: int, m: int)
    requires
        0 <= j <= m <= s.len(),
    ensures
        split_spaces(s.take(m)).len() >= split_spaces(s.take(j)).len(),
        forall|k: int| 0 <= k < split_spaces(s.take(j)).len() - 1
            ==> #[trigger] split_spaces(s.take(m))[k] == split_spaces(s.take(j))[k],
    decreases m - j,
{
    if j < m {
        lemma_split_prefix(s, j, m - 1);
        assert(s.take(m).drop_last() =~= s.take(m - 1));
        lemma_split_nonempty(s.take(m - 1));
    }
}

/// The value of a hex digit character.
fn hex_digit_value(c: char) -> (r: Option<u32>)
    ensures
        r == hex_digit(c),
{
    if '0' <= c && c <= '9' {
        Some(c as u32 - '0' as u32)
    } else if 'a' <= c && c <= 'f' {
        Some(c as u32 - 'a' as u32 + 10)
    } else if 'A' <= c && c <= 'F' {
        Some(c as u32 - 'A' as u32 + 10)
    } else {
        None
    }
}

/// The byte that one group of hex text denotes.
fn parse_hex_byte(g: &str) -> (r: Option<u8>)
    ensures
        r == byte_of_hex(g@),
{
    let n = g.unicode_len();
    let mut i: usize = 0;
    if n > 0 && g.get_char(0) == '+' {
        i = 1;
    }
    let ghost d = digits_of(g@);
    assert(d =~= g@.subrange(i as int, n as int));
    if i == n {
        return None;
    }
    let mut value: u32 = 0;
    let mut j: usize = i;
    while j < n
        invariant
            n == g@.len(),
            i <= j <= n,
            d == g@.subrange(i as int, n as int),
            d == digits_of(g@),
            all_hex(d.take(j - i)),
            value == if hex_value(d.take(j - i)) < 256 { hex_value(d.take(j - i)) } else { 256 },
        decreases n - j,
    {
        let c = g.get_char(j);
        let ghost k = j - i;
        assert(d.take(k + 1).drop_last() =~= d.take(k));
        assert(d[k] == c);
        match hex_digit_value(c) {
            Some(v) => {
                value = if value * 16 + v < 256 { value * 16 + v } else { 256 };
            },
            None => {
                assert(hex_digit(d[k]) is None);
                return None;
            },
        }
        assert forall|t: int| 0 <= t < d.take(k + 1).len() implies (#[trigger] hex_digit(d.take(k + 1)[t])) is Some by {
            if t < k {
                assert(d.take(k + 1)[t] == d.take(k)[t]);
            }
        }
        j = j + 1;
    }
    assert(d.take(n - i) =~= d);
    if value < 256 {
        Some(value as u8)
    } else {
        None
    }
}

/// The shell's state: the history of typed lines and the machine it drives.
pub struct REPL {
    pub command_buffer: Vec<String>,
    pub vm: VM,
}

impl REPL {
    /// A shell with no history and a new machine.
    pub fn new() -> (r: REPL)
        ensures
            r.command_buffer@.len() == 0,
            r.vm@ == initial_state(),
    {
        REPL { vm: VM::new(), command_buffer: Vec::new() }
    }

    /// The command that a trimmed input line asks for.
    pub fn interpret(line: &str) -> (r: Command)
        ensures
            r == command_of(line@),
    {
        if same_chars(line, ".help") || same_chars(line, ".usage") {
            Command::Help
        } else if same_chars(line, ".codes") || same_chars(line, ".instructions") || same_chars(line, ".asm") {
            Command::Codes
        } else if same_chars(line, ".program") {
            Command::Program
        } else if same_chars(line, ".registers") {
            Command::Registers
        } else if same_chars(line, ".loadfile") {
            Command::LoadFile
        } else if same_chars(line, ".run") {
            Command::Run
        } else if same_chars(line, ".clear_program") || same_chars(line, ".clpro") {
            Command::ClearProgram
        } else if same_chars(line, ".clear_registers") || same_chars(line, ".clreg") {
            Command::ClearRegisters
        } else if same_chars(line, ".history") {
            Command::History
        } else if same_chars(line, ".quit") {
            Command::Quit
        } else if line.unicode_len() >= 2 && line.get_char(0) == '0' && line.get_char(1) == 'x' {
            Command::Hex
        } else {
            Command::Assembly
        }
    }

    /// The text after the first two characters, or `None` when there are fewer.
    pub fn remove_first2(s: &str) -> (r: Option<&str>)
        ensures
            s@.len() < 2 ==> r is None,
            s@.len() >= 2 ==> (r matches Some(t) && t@ == s@.skip(2)),
    {
        let n = s.unicode_len();
        if n < 2 {
            None
        } else {
            let t = s.substring_char(2, n);
            assert(t@ =~= s@.skip(2));
            Some(t)
        }
    }

    /// The bytes that a line of hex text (without its `0x`) denotes: groups of
    /// hex digits separated by single spaces, each one byte. Fails on the
    /// first group that is not a byte.
    pub fn parse_hex(&mut self, i: &str) -> (r: Result<Vec<u8>, HexError>)
        ensures
            *final(self) == *old(self),
            r is Ok <==> forall|k: int| 0 <= k < split_spaces(i@).len()
                ==> (#[trigger] byte_of_hex(split_spaces(i@)[k])) is Some,
            r matches Ok(v) ==> v@.len() == split_spaces(i@).len() && forall|k: int| 0 <= k < v@.len()
                ==> byte_of_hex(split_spaces(i@)[k]) == Some(#[trigger] v@[k]),
            r matches Err(e) ==> e.group < split_spaces(i@).len()
                && byte_of_hex(split_spaces(i@)[e.group as int]) is None
                && forall|k: int| 0 <= k < e.group ==> (#[trigger] byte_of_hex(split_spaces(i@)[k])) is Some,
    {
        let n = i.unicode_len();
        let mut results: Vec<u8> = Vec::new();
        let mut start: usize = 0;
        let mut j: usize = 0;
        let ghost mut done: Seq<Seq<char>> = Seq::empty();
        assert(i@.take(0) =~= Seq::<char>::empty());
        assert(split_spaces(i@.take(0)) =~= done.push(i@.subrange(0, 0)));
        while j < n
            invariant
                n == i@.len(),
                start <= j <= n,
                split_spaces(i@.take(j as int)) == done.push(i@.subrange(start as int, j as int)),
                results@.len() == done.len(),
                forall|k: int| 0 <= k < done.len() ==> byte_of_hex(#[trigger] done[k]) == Some(results@[k]),
            decreases n - j,
        {
            let c = i.get_char(j);
            assert(i@.take(j + 1).drop_last() =~= i@.take(j as int));
            assert(i@.take(j + 1).last() == c);
            if c == ' ' {
                let g = i.substring_char(start, j);
                proof {
                    lemma_split_prefix(i@, j + 1, n as int);
                    assert(i@.take(n as int) =~= i@);
                    assert(split_spaces(i@.take(j + 1)) == done.push(g@).push(Seq::empty()));
                    assert(split_spaces(i@.take(j + 1))[done.len() as int] == g@);
                }
                match parse_hex_byte(g) {
                    Some(b) => {
                        results.push(b);
                    },
                    None => {
                        proof {
                            assert forall|k: int| 0 <= k < results@.len() implies (#[trigger] byte_of_hex(split_spaces(i@)[k])) is Some by {
                                assert(split_spaces(i@.take(j + 1))[k] == done[k]);
                            }
                        }
                        return Err(HexError { group: results.len() });
                    },
                }
                proof {
                    done = done.push(g@);
                    assert(i@.subrange(j + 1, j + 1) =~= Seq::<char>::empty());
                }
                start = j + 1;
            } else {
                assert(i@.subrange(start as int, j + 1) =~= i@.subrange(start as int, j as int).push(c));
                assert(split_spaces(i@.take(j + 1)) =~= done.push(i@.subrange(start as int, j + 1)));
            }
            j = j + 1;
        }
        assert(i@.take(n as int) =~= i@);
        let g = i.substring_char(start, n);
        match parse_hex_byte(g) {
            Some(b) => {
                results.push(b);
                assert forall|k: int| 0 <= k < split_spaces(i@).len() implies (#[trigger] byte_of_hex(split_spaces(i@)[k])) is Some by {
                    if k < done.len() {
                        assert(byte_of_hex(done[k]) == Some(results@[k]));
                    }
                }
                Ok(results)
            },
            None => {
                Err(HexError { group: results.len() })
            },
        }
    }
}

} // verus!
