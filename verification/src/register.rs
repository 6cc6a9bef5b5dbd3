//! The register file's names: eight fixed 16-bit slots, identified by
//! ordinal. There are no dynamic registers.

use vstd::prelude::*;

verus! {

/// One of the eight registers, in ordinal order.
#[derive(Clone, Copy, Debug, PartialEq, Eq, Structural)]
pub enum Register {
    A,
    B,
    C,
    M,
    SP,
    PC,
    BP,
    FLAGS,
}

impl Register {
    /// The register's ordinal: the index of its slot in the register file.
    pub open spec fn spec_ordinal(self) -> int {
        match self {
            Register::A => 0,
            Register::B => 1,
            Register::C => 2,
            Register::M => 3,
            Register::SP => 4,
            Register::PC => 5,
            Register::BP => 6,
            Register::FLAGS => 7,
        }
    }

    /// The register of a given ordinal, if the ordinal names one.
    pub open spec fn spec_from_u8(v: u8) -> Option<Register> {
        if v == 0 {
            Some(Register::A)
        } else if v == 1 {
            Some(Register::B)
        } else if v == 2 {
            Some(Register::C)
        } else if v == 3 {
            Some(Register::M)
        } else if v == 4 {
            Some(Register::SP)
        } else if v == 5 {
            Some(Register::PC)
        } else if v == 6 {
            Some(Register::BP)
        } else if v == 7 {
            Some(Register::FLAGS)
        } else {
            None
        }
    }

    /// Index of this register's slot.
    pub fn ordinal(self) -> (n: u8)
        ensures
            n == self.spec_ordinal(),
            n < 8,
    {
        match self {
            Register::A => 0,
            Register::B => 1,
            Register::C => 2,
            Register::M => 3,
            Register::SP => 4,
            Register::PC => 5,
            Register::BP => 6,
            Register::FLAGS => 7,
        }
    }

    /// Looks a register up by ordinal; ordinals past the highest one are
    /// rejected, never defaulted.
    pub fn from_u8(v: u8) -> (r: Option<Register>)
        ensures
            r == Register::spec_from_u8(v),
    {
        match v {
            0 => Some(Register::A),
            1 => Some(Register::B),
            2 => Some(Register::C),
            3 => Some(Register::M),
            4 => Some(Register::SP),
            5 => Some(Register::PC),
            6 => Some(Register::BP),
            7 => Some(Register::FLAGS),
            _ => None,
        }
    }
}

/// Looking a register up by its own ordinal yields the register back:
/// the ordinal assignment is injective.
pub proof fn lemma_register_ordinal_round_trip(r: Register)
    ensures
        Register::spec_from_u8(r.spec_ordinal() as u8) == Some(r),
{
}

} // verus!
