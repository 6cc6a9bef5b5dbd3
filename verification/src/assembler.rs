//! The assembler front end. Line-oriented: blank lines and lines starting
//! with the comment marker `;` are skipped; each remaining line is split
//! on spaces, its first token resolved as a mnemonic against the same
//! registry as the decoder, and its operand count checked against the
//! mnemonic's arity. Numeric literals default to decimal; a `$` prefix
//! selects hexadecimal and a `%` prefix binary. Every accepted line emits
//! exactly one 16-bit little-endian encoded word, in file order; there are
//! no labels, macros, passes or relocation.

use vstd::prelude::*;
use vstd::string::StrSliceExecFns;

use crate::fault::Fault;
use crate::op::Instruction;
use crate::op::OpCode;
use crate::op::str_eq;
use crate::register::Register;

verus! {

/// The value of one digit character under a radix: `0`-`9`, then lower- or
/// upper-case letters from ten upward; a character whose value reaches the
/// radix is no digit of it.
pub open spec fn spec_digit(c: char, radix: int) -> Option<int> {
    let cv = c as int;
    let d = if 48 <= cv <= 57 {
        cv - 48
    } else if 97 <= cv <= 122 {
        cv - 87
    } else if 65 <= cv <= 90 {
        cv - 55
    } else {
        -1
    };
    if 0 <= d < radix {
        Some(d)
    } else {
        None
    }
}

/// Digit-by-digit value of a numeral, left to right from `acc`: a
/// character that is no digit of the radix is rejected, and a value is
/// rejected as soon as it no longer fits in eight bits.
pub open spec fn spec_radix_fold(s: Seq<char>, radix: int, acc: int) -> Result<int, Fault>
    decreases s.len(),
{
    if s.len() == 0 {
        Ok(acc)
    } else {
        match spec_digit(s[0], radix) {
            None => Err(Fault::InvalidDigit),
            Some(d) => if acc * radix + d > 255 {
                Err(Fault::NumeralOverflow)
            } else {
                spec_radix_fold(s.skip(1), radix, acc * radix + d)
            },
        }
    }
}

/// What a numeric literal denotes: an optional radix prefix (`$` for
/// sixteen, `%` for two, none for ten), an optional `+`, then at least one
/// digit, valued by `spec_radix_fold`.
pub open spec fn spec_parse_numeric(s: Seq<char>) -> Result<u8, Fault> {
    if s.len() == 0 {
        Err(Fault::EmptyNumeral)
    } else {
        let body0 = if s[0] == '$' || s[0] == '%' {
            s.skip(1)
        } else {
            s
        };
        let radix: int = if s[0] == '$' {
            16
        } else if s[0] == '%' {
            2
        } else {
            10
        };
        let body = if body0.len() > 0 && body0[0] == '+' {
            body0.skip(1)
        } else {
            body0
        };
        if body.len() == 0 {
            Err(Fault::EmptyNumeral)
        } else {
            match spec_radix_fold(body, radix, 0) {
                Ok(v) => Ok(v as u8),
                Err(e) => Err(e),
            }
        }
    }
}

/// Value of one digit character, if it is a digit of the radix.
fn digit_of(c: char, radix: u16) -> (d: Option<u8>)
    requires
        radix <= 16,
    ensures
        match d {
            Some(v) => spec_digit(c, radix as int) == Some(v as int) && v < radix,
            None => spec_digit(c, radix as int) == None::<int>,
        },
{
    let cv = c as u32;
    let dv: u32 = if 48 <= cv && cv <= 57 {
        cv - 48
    } else if 97 <= cv && cv <= 122 {
        cv - 87
    } else if 65 <= cv && cv <= 90 {
        cv - 55
    } else {
        return None;
    };
    if dv < radix as u32 {
        Some(dv as u8)
    } else {
        None
    }
}

/// Parses a numeric literal: decimal by default, hexadecimal after a `$`
/// prefix, binary after a `%` prefix; an optional `+` sign is accepted.
/// A literal with no digits, a character that is no digit of the radix,
/// and a value past eight bits are each rejected with a parse fault.
pub fn parse_numeric(s: &str) -> (r: Result<u8, Fault>)
    ensures
        r == spec_parse_numeric(s@),
{
    let n = s.unicode_len();
    if n == 0 {
        return Err(Fault::EmptyNumeral);
    }
    let first = s.get_char(0);
    let prefixed = first == '$' || first == '%';
    let start0: usize = if prefixed {
        1
    } else {
        0
    };
    let radix: u16 = if first == '$' {
        16
    } else if first == '%' {
        2
    } else {
        10
    };
    let start: usize = if start0 < n && s.get_char(start0) == '+' {
        start0 + 1
    } else {
        start0
    };
    let ghost body = s@.skip(start as int);
    proof {
        if prefixed {
            if start0 < n {
                assert(s@.skip(1).len() > 0);
                assert(s@.skip(1)[0] == s@[1]);
                if s@[1] == '+' {
                    assert(s@.skip(1).skip(1) =~= s@.skip(2));
                }
            }
        } else {
            assert(s@.skip(0) =~= s@);
        }
    }
    if start >= n {
        return Err(Fault::EmptyNumeral);
    }
    let mut acc: u16 = 0;
    let mut i: usize = start;
    while i < n
        invariant
            start <= i <= n,
            n == s@.len(),
            acc <= 255,
            radix == 2 || radix == 10 || radix == 16,
            (match spec_radix_fold(body, radix as int, 0) {
                Ok(v) => spec_parse_numeric(s@) == Ok::<u8, Fault>(v as u8),
                Err(e) => spec_parse_numeric(s@) == Err::<u8, Fault>(e),
            }),
            spec_radix_fold(body, radix as int, 0) == spec_radix_fold(
                s@.skip(i as int),
                radix as int,
                acc as int,
            ),
        decreases n - i,
    {
        assert(s@.skip(i as int)[0] == s@[i as int]);
        assert(s@.skip(i as int).skip(1) =~= s@.skip(i as int + 1));
        let c = s.get_char(i);
        let d = match digit_of(c, radix) {
            Some(d) => d,
            None => {
                return Err(Fault::InvalidDigit);
            },
        };
        assert(acc * radix + (d as u16) <= 4095) by (nonlinear_arith)
            requires
                acc <= 255,
                radix <= 16,
                d as u16 <= 15,
        ;
        let t = acc * radix + d as u16;
        if t > 255 {
            return Err(Fault::NumeralOverflow);
        }
        acc = t;
        i = i + 1;
    }
    assert(s@.skip(n as int) =~= Seq::<char>::empty());
    Ok(acc as u8)
}

/// The register named by an operand token, if any register bears that
/// name.
pub open spec fn spec_register_from_name(s: Seq<char>) -> Option<Register> {
    if s == "A"@ {
        Some(Register::A)
    } else if s == "B"@ {
        Some(Register::B)
    } else if s == "C"@ {
        Some(Register::C)
    } else if s == "M"@ {
        Some(Register::M)
    } else if s == "SP"@ {
        Some(Register::SP)
    } else if s == "PC"@ {
        Some(Register::PC)
    } else if s == "BP"@ {
        Some(Register::BP)
    } else if s == "FLAGS"@ {
        Some(Register::FLAGS)
    } else {
        None
    }
}

/// Resolves a register operand by name through the same name-to-ordinal
/// table the machine uses; an unknown name is a parse fault.
pub fn parse_register(s: &str) -> (r: Result<Register, Fault>)
    ensures
        r == match spec_register_from_name(s@) {
            Some(reg) => Ok::<Register, Fault>(reg),
            None => Err::<Register, Fault>(Fault::UnknownRegisterName),
        },
{
    if str_eq(s, "A") {
        Ok(Register::A)
    } else if str_eq(s, "B") {
        Ok(Register::B)
    } else if str_eq(s, "C") {
        Ok(Register::C)
    } else if str_eq(s, "M") {
        Ok(Register::M)
    } else if str_eq(s, "SP") {
        Ok(Register::SP)
    } else if str_eq(s, "PC") {
        Ok(Register::PC)
    } else if str_eq(s, "BP") {
        Ok(Register::BP)
    } else if str_eq(s, "FLAGS") {
        Ok(Register::FLAGS)
    } else {
        Err(Fault::UnknownRegisterName)
    }
}

/// Rejects a token list whose length is not exactly the arity the
/// mnemonic declares, naming the expected and the actual counts.
pub fn assert_length(parts: &Vec<&str>, n: usize) -> (r: Result<(), Fault>)
    ensures
        r == (if parts@.len() == n {
            Ok::<(), Fault>(())
        } else {
            Err::<(), Fault>(
                Fault::WrongOperandCount { expected: n, got: parts@.len() as usize },
            )
        }),
{
    if parts.len() == n {
        Ok(())
    } else {
        Err(Fault::WrongOperandCount { expected: n, got: parts.len() })
    }
}

/// Length of the leading run of characters other than `sep`.
pub open spec fn run_len(s: Seq<char>, sep: char) -> nat
    decreases s.len(),
{
    if s.len() == 0 || s[0] == sep {
        0
    } else {
        1 + run_len(s.skip(1), sep)
    }
}

/// A run never reaches past the end of the string.
pub proof fn lemma_run_len_le(s: Seq<char>, sep: char)
    ensures
        run_len(s, sep) <= s.len(),
    decreases s.len(),
{
    if s.len() > 0 && s[0] != sep {
        lemma_run_len_le(s.skip(1), sep);
    }
}

/// Scans from `start` to the end of the run of characters other than
/// `sep`: the first position at or after `start` holding `sep`, or the
/// end of the string.
fn scan_run(s: &str, start: usize, sep: char) -> (end: usize)
    requires
        start <= s@.len(),
    ensures
        start <= end <= s@.len(),
        end - start == run_len(s@.skip(start as int), sep),
{
    let n = s.unicode_len();
    let mut j: usize = start;
    while j < n && s.get_char(j) != sep
        invariant
            start <= j <= n,
            n == s@.len(),
            run_len(s@.skip(start as int), sep) == (j - start) + run_len(
                s@.skip(j as int),
                sep,
            ),
        decreases n - j,
    {
        proof {
            assert(s@.skip(j as int)[0] == s@[j as int]);
            assert(s@.skip(j as int).skip(1) =~= s@.skip(j as int + 1));
        }
        j = j + 1;
    }
    proof {
        if j < n {
            assert(s@.skip(j as int)[0] == s@[j as int]);
        }
        assert(run_len(s@.skip(j as int), sep) == 0);
    }
    j
}

/// The tokens of a line: the maximal runs of non-space characters, in
/// order. Splitting is on spaces alone; empty tokens do not arise.
pub open spec fn spec_tokens(s: Seq<char>) -> Seq<Seq<char>>
    decreases s.len(),
    via spec_tokens_decreases
{
    if s.len() == 0 {
        Seq::empty()
    } else if s[0] == ' ' {
        spec_tokens(s.skip(1))
    } else {
        seq![s.take(run_len(s, ' ') as int)] + spec_tokens(s.skip(run_len(s, ' ') as int))
    }
}

#[via_fn]
proof fn spec_tokens_decreases(s: Seq<char>) {
    lemma_run_len_le(s, ' ');
}

/// Splits a line on spaces into its non-empty tokens.
pub fn tokenize<'a>(line: &'a str) -> (toks: Vec<&'a str>)
    ensures
        toks.deep_view() == spec_tokens(line@),
{
    let n = line.unicode_len();
    let mut toks: Vec<&'a str> = Vec::new();
    let mut i: usize = 0;
    proof {
        assert(line@.skip(0) =~= line@);
        assert(toks.deep_view() =~= Seq::<Seq<char>>::empty());
        assert(Seq::<Seq<char>>::empty() + spec_tokens(line@) =~= spec_tokens(line@));
    }
    while i < n
        invariant
            i <= n,
            n == line@.len(),
            spec_tokens(line@) == toks.deep_view() + spec_tokens(line@.skip(i as int)),
        decreases n - i,
    {
        let ghost toks_old = toks.deep_view();
        let c = line.get_char(i);
        if c == ' ' {
            proof {
                assert(line@.skip(i as int)[0] == ' ');
                assert(line@.skip(i as int).skip(1) =~= line@.skip(i as int + 1));
            }
            i = i + 1;
        } else {
            proof {
                assert(line@.skip(i as int)[0] == line@[i as int]);
            }
            let j = scan_run(line, i, ' ');
            let token = line.substring_char(i, j);
            proof {
                let rem = line@.skip(i as int);
                assert(rem.take(run_len(rem, ' ') as int) =~= line@.subrange(
                    i as int,
                    j as int,
                ));
                assert(rem.skip(run_len(rem, ' ') as int) =~= line@.skip(j as int));
                assert(spec_tokens(rem) == seq![token@] + spec_tokens(line@.skip(j as int)));
            }
            toks.push(token);
            proof {
                assert(toks.deep_view() =~= toks_old.push(token@));
                assert(toks_old.push(token@) + spec_tokens(line@.skip(j as int)) =~= toks_old
                    + (seq![token@] + spec_tokens(line@.skip(j as int))));
            }
            i = j;
        }
    }
    proof {
        assert(line@.skip(n as int) =~= Seq::<char>::empty());
        assert(toks.deep_view() + Seq::<Seq<char>>::empty() =~= toks.deep_view());
    }
    toks
}

/// The source split into lines at newline characters. A trailing newline
/// ends the last line rather than opening an empty one.
pub open spec fn spec_lines(s: Seq<char>) -> Seq<Seq<char>>
    decreases s.len(),
    via spec_lines_decreases
{
    if s.len() == 0 {
        Seq::empty()
    } else {
        let l = run_len(s, '\n');
        if l == s.len() {
            seq![s]
        } else {
            seq![s.take(l as int)] + spec_lines(s.skip(l as int + 1))
        }
    }
}

#[via_fn]
proof fn spec_lines_decreases(s: Seq<char>) {
    lemma_run_len_le(s, '\n');
}

/// The parse fault for a line whose token count is not the arity its
/// mnemonic declares.
pub open spec fn spec_arity_fault(expected: int, got: int) -> Fault {
    Fault::WrongOperandCount { expected: expected as usize, got: got as usize }
}

/// What one tokenized source line denotes: the first token is the
/// mnemonic, the token count must equal the mnemonic's declared arity
/// (mnemonic included), and the operands are valued by their shapes —
/// numeric literals for immediates, register names for registers.
pub open spec fn spec_handle_line(toks: Seq<Seq<char>>) -> Result<Instruction, Fault>
    recommends
        toks.len() >= 1,
{
    match OpCode::spec_from_name(toks[0]) {
        None => Err(Fault::UnknownMnemonic),
        Some(op) => match op {
            OpCode::Nop => if toks.len() != 1 {
                Err(spec_arity_fault(1, toks.len() as int))
            } else {
                Ok(Instruction::Nop)
            },
            OpCode::Push => if toks.len() != 2 {
                Err(spec_arity_fault(2, toks.len() as int))
            } else {
                match spec_parse_numeric(toks[1]) {
                    Ok(v) => Ok(Instruction::Push(v)),
                    Err(e) => Err(e),
                }
            },
            OpCode::PopRegister => if toks.len() != 2 {
                Err(spec_arity_fault(2, toks.len() as int))
            } else {
                match spec_register_from_name(toks[1]) {
                    Some(r) => Ok(Instruction::PopRegister(r)),
                    None => Err(Fault::UnknownRegisterName),
                }
            },
            OpCode::PushRegister => if toks.len() != 2 {
                Err(spec_arity_fault(2, toks.len() as int))
            } else {
                match spec_register_from_name(toks[1]) {
                    Some(r) => Ok(Instruction::PushRegister(r)),
                    None => Err(Fault::UnknownRegisterName),
                }
            },
            OpCode::AddStack => if toks.len() != 1 {
                Err(spec_arity_fault(1, toks.len() as int))
            } else {
                Ok(Instruction::AddStack)
            },
            OpCode::AddRegister => if toks.len() != 3 {
                Err(spec_arity_fault(3, toks.len() as int))
            } else {
                match spec_register_from_name(toks[1]) {
                    None => Err(Fault::UnknownRegisterName),
                    Some(r1) => match spec_register_from_name(toks[2]) {
                        None => Err(Fault::UnknownRegisterName),
                        Some(r2) => Ok(Instruction::AddRegister(r1, r2)),
                    },
                }
            },
            OpCode::Signal => if toks.len() != 2 {
                Err(spec_arity_fault(2, toks.len() as int))
            } else {
                match spec_parse_numeric(toks[1]) {
                    Ok(v) => Ok(Instruction::Signal(v)),
                    Err(e) => Err(e),
                }
            },
        },
    }
}

/// Parses one tokenized source line into an instruction: the mnemonic is
/// resolved against the registry, the token count checked against its
/// arity, and each operand parsed by its shape.
pub fn handle_line(parts: Vec<&str>) -> (r: Result<Instruction, Fault>)
    requires
        parts@.len() >= 1,
    ensures
        r == spec_handle_line(parts.deep_view()),
{
    proof {
        assert(parts.deep_view().len() == parts@.len());
        assert forall|k: int| 0 <= k < parts@.len() implies parts.deep_view()[k]
            == parts@[k]@ by {}
    }
    let opcode = match OpCode::from_str(parts[0]) {
        Some(op) => op,
        None => {
            return Err(Fault::UnknownMnemonic);
        },
    };
    match opcode {
        OpCode::Nop => match assert_length(&parts, 1) {
            Err(e) => Err(e),
            Ok(()) => Ok(Instruction::Nop),
        },
        OpCode::Push => match assert_length(&parts, 2) {
            Err(e) => Err(e),
            Ok(()) => match parse_numeric(parts[1]) {
                Ok(v) => Ok(Instruction::Push(v)),
                Err(e) => Err(e),
            },
        },
        OpCode::PopRegister => match assert_length(&parts, 2) {
            Err(e) => Err(e),
            Ok(()) => match parse_register(parts[1]) {
                Ok(r) => Ok(Instruction::PopRegister(r)),
                Err(e) => Err(e),
            },
        },
        OpCode::PushRegister => match assert_length(&parts, 2) {
            Err(e) => Err(e),
            Ok(()) => match parse_register(parts[1]) {
                Ok(r) => Ok(Instruction::PushRegister(r)),
                Err(e) => Err(e),
            },
        },
        OpCode::AddStack => match assert_length(&parts, 1) {
            Err(e) => Err(e),
            Ok(()) => Ok(Instruction::AddStack),
        },
        OpCode::AddRegister => match assert_length(&parts, 3) {
            Err(e) => Err(e),
            Ok(()) => match parse_register(parts[1]) {
                Err(e) => Err(e),
                Ok(r1) => match parse_register(parts[2]) {
                    Err(e) => Err(e),
                    Ok(r2) => Ok(Instruction::AddRegister(r1, r2)),
                },
            },
        },
        OpCode::Signal => match assert_length(&parts, 2) {
            Err(e) => Err(e),
            Ok(()) => match parse_numeric(parts[1]) {
                Ok(v) => Ok(Instruction::Signal(v)),
                Err(e) => Err(e),
            },
        },
    }
}

/// What one source line contributes: nothing for a blank line, a line of
/// spaces alone, or a line opening with the comment marker `;`; otherwise
/// the instruction its tokens denote, or that line's parse fault. A
/// trailing carriage return is dropped first.
pub open spec fn spec_assemble_line(line: Seq<char>) -> Result<Option<Instruction>, Fault> {
    let l = if line.len() > 0 && line.last() == '\r' {
        line.drop_last()
    } else {
        line
    };
    if l.len() == 0 {
        Ok(None)
    } else if l[0] == ';' {
        Ok(None)
    } else {
        let toks = spec_tokens(l);
        if toks.len() == 0 {
            Ok(None)
        } else {
            match spec_handle_line(toks) {
                Ok(i) => Ok(Some(i)),
                Err(e) => Err(e),
            }
        }
    }
}

/// The encoded byte stream of a line sequence: every accepted instruction
/// line emits exactly one 16-bit little-endian word, appended in order;
/// the first faulty line aborts the whole assembly with its fault.
pub open spec fn spec_assemble_lines(lines: Seq<Seq<char>>) -> Result<Seq<u8>, Fault>
    decreases lines.len(),
{
    if lines.len() == 0 {
        Ok(Seq::empty())
    } else {
        match spec_assemble_line(lines[0]) {
            Err(e) => Err(e),
            Ok(None) => spec_assemble_lines(lines.skip(1)),
            Ok(Some(instr)) => match spec_assemble_lines(lines.skip(1)) {
                Err(e) => Err(e),
                Ok(rest) => Ok(
                    seq![
                        (instr.spec_encode() % 256) as u8,
                        (instr.spec_encode() / 256) as u8,
                    ] + rest,
                ),
            },
        }
    }
}

/// The encoded byte stream an assembly source denotes: its lines,
/// assembled in file order, single-pass.
pub open spec fn spec_assemble(src: Seq<char>) -> Result<Seq<u8>, Fault> {
    spec_assemble_lines(spec_lines(src))
}

/// Assembles mnemonic source text into the packed binary form the machine
/// executes: one little-endian 16-bit word per accepted instruction line,
/// in file order. The first faulty line aborts the assembly with its
/// fault; a fault never crashes the assembler.
#[verifier::rlimit(100)]
pub fn assemble(src: &str) -> (r: Result<Vec<u8>, Fault>)
    ensures
        (match r {
            Ok(bytes) => spec_assemble(src@) == Ok::<Seq<u8>, Fault>(bytes@),
            Err(e) => spec_assemble(src@) == Err::<Seq<u8>, Fault>(e),
        }),
{
    let n = src.unicode_len();
    let mut out: Vec<u8> = Vec::new();
    let mut pos: usize = 0;
    proof {
        assert(src@.skip(0) =~= src@);
        assert(Seq::<u8>::empty() + Seq::<u8>::empty() =~= Seq::<u8>::empty());
    }
    while pos < n
        invariant
            pos <= n,
            n == src@.len(),
            (match spec_assemble_lines(spec_lines(src@.skip(pos as int))) {
                Ok(rest) => spec_assemble(src@) == Ok::<Seq<u8>, Fault>(out@ + rest),
                Err(e) => spec_assemble(src@) == Err::<Seq<u8>, Fault>(e),
            }),
        decreases n - pos,
    {
        let ghost rem = src@.skip(pos as int);
        let ghost out_old = out@;
        let line_end = scan_run(src, pos, '\n');
        let next_pos = if line_end < n {
            line_end + 1
        } else {
            line_end
        };
        let ghost cur = src@.subrange(pos as int, line_end as int);
        proof {
            assert(rem.take(run_len(rem, '\n') as int) =~= cur);
            if line_end < n {
                assert(rem.skip(run_len(rem, '\n') as int + 1) =~= src@.skip(
                    next_pos as int,
                ));
                assert(spec_lines(rem) == seq![cur] + spec_lines(src@.skip(next_pos as int)));
            } else {
                assert(rem =~= cur);
                assert(src@.skip(next_pos as int) =~= Seq::<char>::empty());
                assert(spec_lines(rem) =~= seq![cur] + spec_lines(src@.skip(next_pos as int)));
            }
            assert((seq![cur] + spec_lines(src@.skip(next_pos as int)))[0] == cur);
            assert((seq![cur] + spec_lines(src@.skip(next_pos as int))).skip(1)
                =~= spec_lines(src@.skip(next_pos as int)));
        }
        let line = src.substring_char(pos, line_end);
        let llen = line_end - pos;
        let stripped = llen > 0 && line.get_char(llen - 1) == '\r';
        let line2 = if stripped {
            line.substring_char(0, llen - 1)
        } else {
            line
        };
        proof {
            if stripped {
                assert(line@.subrange(0, llen - 1) =~= cur.drop_last());
            }
        }
        let l2len = if stripped {
            llen - 1
        } else {
            llen
        };
        if l2len == 0 {
            pos = next_pos;
            continue;
        }
        if line2.get_char(0) == ';' {
            pos = next_pos;
            continue;
        }
        let toks = tokenize(line2);
        if toks.len() == 0 {
            proof {
                assert(toks.deep_view().len() == toks@.len());
            }
            pos = next_pos;
            continue;
        }
        proof {
            assert(toks.deep_view().len() == toks@.len());
        }
        let instr = match handle_line(toks) {
            Ok(instr) => instr,
            Err(e) => {
                return Err(e);
            },
        };
        let w = instr.encode_u16();
        out.push((w % 256) as u8);
        out.push((w / 256) as u8);
        proof {
            assert(out@ =~= out_old + seq![
                (instr.spec_encode() % 256) as u8,
                (instr.spec_encode() / 256) as u8,
            ]);
            if spec_assemble_lines(spec_lines(src@.skip(next_pos as int))) is Ok {
                let rest = spec_assemble_lines(spec_lines(src@.skip(next_pos as int)))->Ok_0;
                assert(out_old + (seq![
                    (instr.spec_encode() % 256) as u8,
                    (instr.spec_encode() / 256) as u8,
                ] + rest) =~= out@ + rest);
            }
        }
        pos = next_pos;
    }
    proof {
        assert(src@.skip(n as int) =~= Seq::<char>::empty());
        assert(out@ + Seq::<u8>::empty() =~= out@);
    }
    Ok(out)
}

} // verus!
