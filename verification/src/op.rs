//! The instruction format: the opcode registry and the encode/decode
//! functions mapping between a tagged instruction value and its 16-bit
//! little-endian wire form.
//!
//! Bits 0-7 of the wire word hold the opcode. Three operand shapes exist:
//! bare (opcode only), immediate (an 8-bit value in bits 8-15) and register
//! (a 4-bit register ordinal in bits 8-11, and an optional second one in
//! bits 12-15). Encoding is total; decoding rejects an opcode byte that is
//! not in the registry and a register field past the highest ordinal.

use vstd::arithmetic::div_mod::lemma_fundamental_div_mod_converse;
use vstd::prelude::*;
use vstd::string::StrSliceExecFns;

use crate::fault::Fault;
use crate::register::Register;

verus! {

/// The decoded, operand-bearing representation of one executable unit.
#[derive(Clone, Copy, Debug, PartialEq, Eq, Structural)]
pub enum Instruction {
    Nop,
    Push(u8),
    PopRegister(Register),
    PushRegister(Register),
    AddStack,
    AddRegister(Register, Register),
    Signal(u8),
}

/// The tag of an instruction: one entry of the opcode registry.
#[derive(Clone, Copy, Debug, PartialEq, Eq, Structural)]
pub enum OpCode {
    Nop,
    Push,
    PopRegister,
    PushRegister,
    Signal,
    AddStack,
    AddRegister,
}

impl OpCode {
    /// The 8-bit numeric code of this opcode; no two opcodes share a code.
    pub open spec fn spec_code(self) -> u8 {
        match self {
            OpCode::Nop => 0x00,
            OpCode::Push => 0x01,
            OpCode::PopRegister => 0x02,
            OpCode::PushRegister => 0x03,
            OpCode::Signal => 0x0f,
            OpCode::AddStack => 0x10,
            OpCode::AddRegister => 0x11,
        }
    }

    /// The opcode of a numeric code, if the registry holds one.
    pub open spec fn spec_from_u8(b: u8) -> Option<OpCode> {
        if b == 0x00 {
            Some(OpCode::Nop)
        } else if b == 0x01 {
            Some(OpCode::Push)
        } else if b == 0x02 {
            Some(OpCode::PopRegister)
        } else if b == 0x03 {
            Some(OpCode::PushRegister)
        } else if b == 0x0f {
            Some(OpCode::Signal)
        } else if b == 0x10 {
            Some(OpCode::AddStack)
        } else if b == 0x11 {
            Some(OpCode::AddRegister)
        } else {
            None
        }
    }

    /// Numeric code of this opcode.
    pub fn code(self) -> (c: u8)
        ensures
            c == self.spec_code(),
    {
        match self {
            OpCode::Nop => 0x00,
            OpCode::Push => 0x01,
            OpCode::PopRegister => 0x02,
            OpCode::PushRegister => 0x03,
            OpCode::Signal => 0x0f,
            OpCode::AddStack => 0x10,
            OpCode::AddRegister => 0x11,
        }
    }

    /// The opcode registered under a mnemonic, if the registry holds one.
    pub open spec fn spec_from_name(s: Seq<char>) -> Option<OpCode> {
        if s == "Nop"@ {
            Some(OpCode::Nop)
        } else if s == "Push"@ {
            Some(OpCode::Push)
        } else if s == "PopRegister"@ {
            Some(OpCode::PopRegister)
        } else if s == "PushRegister"@ {
            Some(OpCode::PushRegister)
        } else if s == "Signal"@ {
            Some(OpCode::Signal)
        } else if s == "AddStack"@ {
            Some(OpCode::AddStack)
        } else if s == "AddRegister"@ {
            Some(OpCode::AddRegister)
        } else {
            None
        }
    }

    /// Looks an opcode up by mnemonic; an unknown mnemonic is rejected,
    /// never defaulted.
    pub fn from_str(s: &str) -> (r: Option<OpCode>)
        ensures
            r == OpCode::spec_from_name(s@),
    {
        if str_eq(s, "Nop") {
            Some(OpCode::Nop)
        } else if str_eq(s, "Push") {
            Some(OpCode::Push)
        } else if str_eq(s, "PopRegister") {
            Some(OpCode::PopRegister)
        } else if str_eq(s, "PushRegister") {
            Some(OpCode::PushRegister)
        } else if str_eq(s, "Signal") {
            Some(OpCode::Signal)
        } else if str_eq(s, "AddStack") {
            Some(OpCode::AddStack)
        } else if str_eq(s, "AddRegister") {
            Some(OpCode::AddRegister)
        } else {
            None
        }
    }

    /// Looks an opcode up by numeric code; a code that is not in the
    /// registry is rejected, never defaulted.
    pub fn from_u8(b: u8) -> (r: Option<OpCode>)
        ensures
            r == OpCode::spec_from_u8(b),
    {
        match b {
            0x00 => Some(OpCode::Nop),
            0x01 => Some(OpCode::Push),
            0x02 => Some(OpCode::PopRegister),
            0x03 => Some(OpCode::PushRegister),
            0x0f => Some(OpCode::Signal),
            0x10 => Some(OpCode::AddStack),
            0x11 => Some(OpCode::AddRegister),
            _ => None,
        }
    }
}

impl Instruction {
    /// The 16-bit wire form: the opcode in the low byte and the operands,
    /// if any, in the high byte.
    pub open spec fn spec_encode(self) -> u16 {
        (match self {
            Instruction::Nop => OpCode::Nop.spec_code() as int,
            Instruction::Push(x) => OpCode::Push.spec_code() + 256 * (x as int),
            Instruction::PopRegister(r) => OpCode::PopRegister.spec_code() + 256
                * r.spec_ordinal(),
            Instruction::PushRegister(r) => OpCode::PushRegister.spec_code() + 256
                * r.spec_ordinal(),
            Instruction::AddStack => OpCode::AddStack.spec_code() as int,
            Instruction::AddRegister(r1, r2) => OpCode::AddRegister.spec_code() + 256
                * r1.spec_ordinal() + 4096 * r2.spec_ordinal(),
            Instruction::Signal(x) => OpCode::Signal.spec_code() + 256 * (x as int),
        }) as u16
    }

    /// First register operand, placed in bits 8-11.
    fn encode_r1(r: Register) -> (w: u16)
        ensures
            w == 256 * r.spec_ordinal(),
    {
        256 * (r.ordinal() as u16)
    }

    /// Second register operand, placed in bits 12-15.
    fn encode_r2(r: Register) -> (w: u16)
        ensures
            w == 4096 * r.spec_ordinal(),
    {
        4096 * (r.ordinal() as u16)
    }

    /// Immediate operand, placed in bits 8-15.
    fn encode_num(u: u8) -> (w: u16)
        ensures
            w == 256 * (u as int),
    {
        256 * (u as u16)
    }

    /// Both register operands of a two-register instruction.
    fn encode_rs(r1: Register, r2: Register) -> (w: u16)
        ensures
            w == 256 * r1.spec_ordinal() + 4096 * r2.spec_ordinal(),
    {
        Instruction::encode_r1(r1) + Instruction::encode_r2(r2)
    }

    /// Encodes this instruction into its wire form. Encoding is total for
    /// any well-formed instruction value.
    pub fn encode_u16(&self) -> (w: u16)
        ensures
            w == self.spec_encode(),
    {
        match self {
            Instruction::Nop => OpCode::Nop.code() as u16,
            Instruction::Push(x) => OpCode::Push.code() as u16 + Instruction::encode_num(*x),
            Instruction::PopRegister(r) => OpCode::PopRegister.code() as u16
                + Instruction::encode_r1(*r),
            Instruction::PushRegister(r) => OpCode::PushRegister.code() as u16
                + Instruction::encode_r1(*r),
            Instruction::AddStack => OpCode::AddStack.code() as u16,
            Instruction::AddRegister(r1, r2) => OpCode::AddRegister.code() as u16
                + Instruction::encode_rs(*r1, *r2),
            Instruction::Signal(x) => OpCode::Signal.code() as u16 + Instruction::encode_num(*x),
        }
    }
}

/// Character-wise string equality, used to resolve mnemonics and register
/// names against the registry.
pub(crate) fn str_eq(a: &str, b: &str) -> (r: bool)
    ensures
        r == (a@ == b@),
{
    let n = a.unicode_len();
    if n != b.unicode_len() {
        return false;
    }
    let mut i: usize = 0;
    while i < n
        invariant
            i <= n,
            n == a@.len(),
            n == b@.len(),
            forall|k: int| 0 <= k < i ==> a@[k] == b@[k],
        decreases n - i,
    {
        if a.get_char(i) != b.get_char(i) {
            return false;
        }
        i = i + 1;
    }
    proof {
        assert(a@ =~= b@);
    }
    true
}

/// The operand byte of a wire word: its high eight bits.
pub open spec fn spec_instruction_arg(ins: u16) -> u8 {
    (ins / 256) as u8
}

fn parse_instruction_arg(ins: u16) -> (arg: u8)
    ensures
        arg == spec_instruction_arg(ins),
{
    (ins / 256) as u8
}

/// What decoding a wire word yields: the instruction registered under the
/// word's opcode byte, with its operands drawn from the high byte, or a
/// descriptive decode fault.
pub open spec fn spec_parse_instruction(ins: u16) -> Result<Instruction, Fault> {
    let op = (ins % 256) as u8;
    let arg = (ins / 256) as u8;
    let r1 = ((ins / 256) % 16) as u8;
    let r2 = (ins / 4096) as u8;
    match OpCode::spec_from_u8(op) {
        None => Err(Fault::UnknownOpcode(op)),
        Some(OpCode::Nop) => Ok(Instruction::Nop),
        Some(OpCode::Push) => Ok(Instruction::Push(arg)),
        Some(OpCode::PopRegister) => match Register::spec_from_u8(r1) {
            Some(r) => Ok(Instruction::PopRegister(r)),
            None => Err(Fault::UnknownRegister(r1)),
        },
        Some(OpCode::PushRegister) => match Register::spec_from_u8(r1) {
            Some(r) => Ok(Instruction::PushRegister(r)),
            None => Err(Fault::UnknownRegister(r1)),
        },
        Some(OpCode::AddStack) => Ok(Instruction::AddStack),
        Some(OpCode::AddRegister) => match Register::spec_from_u8(r1) {
            None => Err(Fault::UnknownRegister(r1)),
            Some(ra) => match Register::spec_from_u8(r2) {
                None => Err(Fault::UnknownRegister(r2)),
                Some(rb) => Ok(Instruction::AddRegister(ra, rb)),
            },
        },
        Some(OpCode::Signal) => Ok(Instruction::Signal(arg)),
    }
}

/// Decodes a wire word. An opcode byte not present in the registry, and a
/// 4-bit register field past the highest valid ordinal, are reported as
/// decode faults, never silently defaulted.
pub fn parse_instruction(ins: u16) -> (r: Result<Instruction, Fault>)
    ensures
        r == spec_parse_instruction(ins),
{
    let op = (ins % 256) as u8;
    match OpCode::from_u8(op) {
        None => Err(Fault::UnknownOpcode(op)),
        Some(OpCode::Nop) => Ok(Instruction::Nop),
        Some(OpCode::Push) => Ok(Instruction::Push(parse_instruction_arg(ins))),
        Some(OpCode::PopRegister) => {
            let reg = ((ins / 256) % 16) as u8;
            match Register::from_u8(reg) {
                Some(r) => Ok(Instruction::PopRegister(r)),
                None => Err(Fault::UnknownRegister(reg)),
            }
        },
        Some(OpCode::PushRegister) => {
            let reg = ((ins / 256) % 16) as u8;
            match Register::from_u8(reg) {
                Some(r) => Ok(Instruction::PushRegister(r)),
                None => Err(Fault::UnknownRegister(reg)),
            }
        },
        Some(OpCode::AddStack) => Ok(Instruction::AddStack),
        Some(OpCode::AddRegister) => {
            let reg1_raw = ((ins / 256) % 16) as u8;
            let reg2_raw = (ins / 4096) as u8;
            match Register::from_u8(reg1_raw) {
                None => Err(Fault::UnknownRegister(reg1_raw)),
                Some(ra) => match Register::from_u8(reg2_raw) {
                    None => Err(Fault::UnknownRegister(reg2_raw)),
                    Some(rb) => Ok(Instruction::AddRegister(ra, rb)),
                },
            }
        },
        Some(OpCode::Signal) => Ok(Instruction::Signal(parse_instruction_arg(ins))),
    }
}

/// How an encoded word splits back into its low byte and its high byte.
proof fn lemma_split_bytes(lo: int, hi: int)
    requires
        0 <= lo < 256,
        0 <= hi < 256,
    ensures
        (lo + 256 * hi) % 256 == lo,
        (lo + 256 * hi) / 256 == hi,
        0 <= lo + 256 * hi < 0x10000,
{
    lemma_fundamental_div_mod_converse(lo + 256 * hi, 256, hi, lo);
}

/// Looking an opcode up by its own numeric code yields the opcode back:
/// no two opcodes share a code.
pub proof fn lemma_opcode_code_round_trip(op: OpCode)
    ensures
        OpCode::spec_from_u8(op.spec_code()) == Some(op),
{
}

/// Decoding inverts encoding: for every representable instruction value,
/// decoding its encoded wire form yields the instruction itself.
pub proof fn lemma_parse_instruction_inverts_encode(i: Instruction)
    ensures
        spec_parse_instruction(i.spec_encode()) == Ok::<Instruction, Fault>(i),
{
    match i {
        Instruction::Nop => {
        },
        Instruction::Push(x) => {
            lemma_split_bytes(0x01, x as int);
        },
        Instruction::PopRegister(r) => {
            lemma_split_bytes(0x02, r.spec_ordinal());
            lemma_fundamental_div_mod_converse(r.spec_ordinal(), 16, 0, r.spec_ordinal());
        },
        Instruction::PushRegister(r) => {
            lemma_split_bytes(0x03, r.spec_ordinal());
            lemma_fundamental_div_mod_converse(r.spec_ordinal(), 16, 0, r.spec_ordinal());
        },
        Instruction::AddStack => {
        },
        Instruction::AddRegister(r1, r2) => {
            let o1 = r1.spec_ordinal();
            let o2 = r2.spec_ordinal();
            let w = 0x11 + 256 * o1 + 4096 * o2;
            lemma_split_bytes(0x11, o1 + 16 * o2);
            lemma_fundamental_div_mod_converse(o1 + 16 * o2, 16, o2, o1);
            lemma_fundamental_div_mod_converse(w, 4096, o2, 0x11 + 256 * o1);
        },
        Instruction::Signal(x) => {
            lemma_split_bytes(0x0f, x as int);
        },
    }
}

} // verus!
