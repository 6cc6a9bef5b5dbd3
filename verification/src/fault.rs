//! The single flat taxonomy of faults: memory-bounds faults, decode faults,
//! dispatch faults and parse faults. Every fault propagates immediately to
//! its caller as an explicit failure value; none is retried or recovered
//! internally.

use vstd::prelude::*;

verus! {

/// A fault raised by the machine, the decoder or the assembler.
#[derive(Clone, Copy, Debug, PartialEq, Eq, Structural)]
pub enum Fault {
    /// A memory read past the backend's capacity, at the given address.
    ReadFault(u16),
    /// A memory write past the backend's capacity, at the given address.
    WriteFault(u16),
    /// A pop was attempted while the stack pointer was too small to move down.
    StackUnderflow,
    /// A decoded opcode byte that is not present in the instruction registry.
    UnknownOpcode(u8),
    /// A 4-bit register field whose value exceeds the highest register ordinal.
    UnknownRegister(u8),
    /// A `Signal` instruction referenced an id with no registered handler.
    UnknownSignal(u8),
    /// A source line whose mnemonic is not in the instruction registry.
    UnknownMnemonic,
    /// A source line whose token count does not match the mnemonic's arity.
    WrongOperandCount { expected: usize, got: usize },
    /// A numeric literal with no digits.
    EmptyNumeral,
    /// A numeric literal holding a character that is no digit of its radix.
    InvalidDigit,
    /// A numeric literal whose value does not fit in eight bits.
    NumeralOverflow,
    /// A register operand whose name is not a register name.
    UnknownRegisterName,
}

} // verus!
