//! The addressable-memory capability: a contract for byte-level read and
//! write, with the 16-bit and bulk operations derived generically on top,
//! so alternative backends can be substituted without touching the engine.
//! Addresses are 16-bit; an out-of-range access fails softly with an
//! absence or failure value, never a trap.

use vstd::prelude::*;

verus! {

/// The byte at an address, or absence if the address is out of range.
/// Addresses are modelled as mathematical integers; only addresses below
/// the backend's capacity, and representable in 16 bits, are readable.
pub open spec fn spec_read(mem: Seq<u8>, addr: int) -> Option<u8> {
    if 0 <= addr <= 0xffff && addr < mem.len() {
        Some(mem[addr])
    } else {
        None
    }
}

/// Memory after a byte write, paired with whether the write took effect.
/// A write out of range fails and changes nothing.
pub open spec fn spec_write(mem: Seq<u8>, addr: int, value: u8) -> (bool, Seq<u8>) {
    if 0 <= addr <= 0xffff && addr < mem.len() {
        (true, mem.update(addr, value))
    } else {
        (false, mem)
    }
}

/// The 16-bit word composed little-endian from two bytes.
pub open spec fn word_of(lo: u8, hi: u8) -> u16 {
    (lo + 256 * (hi as int)) as u16
}

/// The little-endian word at `addr` and `addr + 1`, absent if either byte
/// is out of range.
pub open spec fn spec_read2(mem: Seq<u8>, addr: int) -> Option<u16> {
    match (spec_read(mem, addr), spec_read(mem, addr + 1)) {
        (Some(lo), Some(hi)) => Some(word_of(lo, hi)),
        _ => None,
    }
}

/// Memory after a little-endian word write at `addr` and `addr + 1`,
/// paired with whether both byte writes took effect. The low byte is
/// written first; if only the high byte is out of range, the low byte
/// stays written — a partial write is not rolled back.
pub open spec fn spec_write2(mem: Seq<u8>, addr: int, value: u16) -> (bool, Seq<u8>) {
    let lo = (value % 256) as u8;
    let hi = (value / 256) as u8;
    let first = spec_write(mem, addr, lo);
    if !first.0 {
        (false, mem)
    } else {
        let second = spec_write(first.1, addr + 1, hi);
        (second.0, second.1)
    }
}

/// Memory after a forward byte-by-byte copy of `n` bytes, paired with
/// whether every byte was copied. The copy stops at the first out-of-range
/// access; bytes already written before the failing one are not rolled
/// back.
pub open spec fn spec_copy(mem: Seq<u8>, from: int, to: int, n: nat) -> (bool, Seq<u8>)
    decreases n,
{
    if n == 0 {
        (true, mem)
    } else {
        match spec_read(mem, from) {
            None => (false, mem),
            Some(x) => {
                let w = spec_write(mem, to, x);
                if !w.0 {
                    (false, mem)
                } else {
                    spec_copy(w.1, from + 1, to + 1, (n - 1) as nat)
                }
            },
        }
    }
}

/// Memory after a byte sequence is written starting at `base`, paired with
/// whether every byte was written. Writing stops at the first out-of-range
/// address; bytes already written are not rolled back.
pub open spec fn spec_load(mem: Seq<u8>, bytes: Seq<u8>, base: int) -> (bool, Seq<u8>)
    decreases bytes.len(),
{
    if bytes.len() == 0 {
        (true, mem)
    } else {
        let w = spec_write(mem, base, bytes[0]);
        if !w.0 {
            (false, mem)
        } else {
            spec_load(w.1, bytes.skip(1), base + 1)
        }
    }
}

/// The contract any memory backend must satisfy: byte-level read and
/// write against a byte-sequence model, plus the derived 16-bit and bulk
/// operations, which are implemented once here on top of the primitives.
pub trait Addressable: Sized {
    /// The bytes the backend holds, one per address from zero upward.
    spec fn mem(&self) -> Seq<u8>;

    /// Reads the byte at an address; absent when out of range.
    fn read(&self, addr: u16) -> (r: Option<u8>)
        ensures
            r == spec_read(self.mem(), addr as int),
    ;

    /// Writes the byte at an address; reports failure when out of range.
    fn write(&mut self, addr: u16, value: u8) -> (r: bool)
        ensures
            r == spec_write(old(self).mem(), addr as int, value).0,
            final(self).mem() == spec_write(old(self).mem(), addr as int, value).1,
    ;

    /// Reads the little-endian 16-bit word at `addr` and `addr + 1`,
    /// failing if either byte is out of range.
    fn read2(&self, addr: u16) -> (r: Option<u16>)
        ensures
            r == spec_read2(self.mem(), addr as int),
    {
        if addr < 0xffff {
            if let Some(lower) = self.read(addr) {
                if let Some(upper) = self.read(addr + 1) {
                    return Some(lower as u16 + 256 * (upper as u16));
                }
            }
        }
        None
    }

    /// Writes a 16-bit word little-endian at `addr` and `addr + 1`,
    /// failing if either byte is out of range. A low byte already written
    /// before a failing high byte stays written.
    fn write2(&mut self, addr: u16, value: u16) -> (r: bool)
        ensures
            r == spec_write2(old(self).mem(), addr as int, value).0,
            final(self).mem() == spec_write2(old(self).mem(), addr as int, value).1,
    {
        let lower = (value % 256) as u8;
        let upper = (value / 256) as u8;
        if !self.write(addr, lower) {
            return false;
        }
        if addr == 0xffff {
            return false;
        }
        self.write(addr + 1, upper)
    }

    /// Copies `n` bytes forward, one at a time, failing at the first
    /// out-of-range access; bytes already copied are not rolled back.
    fn copy(&mut self, from: u16, to: u16, n: usize) -> (r: bool)
        ensures
            r == spec_copy(old(self).mem(), from as int, to as int, n as nat).0,
            final(self).mem() == spec_copy(old(self).mem(), from as int, to as int, n as nat).1,
    {
        let ghost mem0 = self.mem();
        let mut i: usize = 0;
        while i < n
            invariant
                i <= n,
                mem0 == old(self).mem(),
                spec_copy(mem0, from as int, to as int, n as nat) == spec_copy(
                    self.mem(),
                    from as int + i,
                    to as int + i,
                    (n - i) as nat,
                ),
            decreases n - i,
        {
            if i > 0xffff - (from as usize) {
                return false;
            }
            let src = (from as usize + i) as u16;
            let x = match self.read(src) {
                Some(x) => x,
                None => {
                    return false;
                },
            };
            if i > 0xffff - (to as usize) {
                return false;
            }
            let dst = (to as usize + i) as u16;
            if !self.write(dst, x) {
                return false;
            }
            i = i + 1;
        }
        true
    }

    /// Writes a byte slice into memory starting at `base`, failing at the
    /// first out-of-range address; bytes already written are not rolled
    /// back.
    fn load_from_vec(&mut self, from: &[u8], base: u16) -> (r: bool)
        ensures
            r == spec_load(old(self).mem(), from@, base as int).0,
            final(self).mem() == spec_load(old(self).mem(), from@, base as int).1,
    {
        let ghost mem0 = self.mem();
        let n = from.len();
        let mut i: usize = 0;
        assert(from@.skip(0) =~= from@);
        while i < n
            invariant
                i <= n,
                n == from@.len(),
                mem0 == old(self).mem(),
                spec_load(mem0, from@, base as int) == spec_load(
                    self.mem(),
                    from@.skip(i as int),
                    base as int + i,
                ),
            decreases n - i,
        {
            assert(from@.skip(i as int)[0] == from@[i as int]);
            assert(from@.skip(i as int).skip(1) =~= from@.skip(i as int + 1));
            if i > 0xffff - (base as usize) {
                proof {
                    assert(from@.skip(i as int).len() > 0);
                    assert(spec_write(self.mem(), base as int + i, from@.skip(i as int)[0]).0
                        == false);
                    assert(spec_load(self.mem(), from@.skip(i as int), base as int + i) == (
                    false,
                    self.mem(),
                    ));
                }
                return false;
            }
            let dst = (base as usize + i) as u16;
            let ghost pre = self.mem();
            if !self.write(dst, from[i]) {
                proof {
                    assert(spec_write(pre, base as int + i, from@.skip(i as int)[0]).0 == false);
                    assert(spec_load(pre, from@.skip(i as int), base as int + i) == (
                    false,
                    pre,
                    ));
                }
                return false;
            }
            i = i + 1;
        }
        assert(from@.skip(n as int) =~= Seq::<u8>::empty());
        true
    }
}

/// The sole provided backend: a fixed-capacity, zero-initialized byte
/// array that bounds-checks every access against its size.
pub struct LinearMemory {
    bytes: Vec<u8>,
}

impl LinearMemory {
    /// A fresh linear memory of `n` zeroed bytes.
    pub fn new(n: usize) -> (m: LinearMemory)
        ensures
            m.mem().len() == n,
            forall|a: int| 0 <= a < n ==> m.mem()[a] == 0u8,
    {
        let mut bytes: Vec<u8> = Vec::new();
        let mut i: usize = 0;
        while i < n
            invariant
                i <= n,
                bytes@.len() == i,
                forall|a: int| 0 <= a < i ==> bytes@[a] == 0u8,
            decreases n - i,
        {
            bytes.push(0);
            i = i + 1;
        }
        LinearMemory { bytes }
    }
}

impl Addressable for LinearMemory {
    closed spec fn mem(&self) -> Seq<u8> {
        self.bytes@
    }

    fn read(&self, addr: u16) -> (r: Option<u8>)
        ensures
            r == spec_read(self.mem(), addr as int),
    {
        if (addr as usize) < self.bytes.len() {
            Some(self.bytes[addr as usize])
        } else {
            None
        }
    }

    fn write(&mut self, addr: u16, value: u8) -> (r: bool)
        ensures
            r == spec_write(old(self).mem(), addr as int, value).0,
            final(self).mem() == spec_write(old(self).mem(), addr as int, value).1,
    {
        if (addr as usize) < self.bytes.len() {
            self.bytes[addr as usize] = value;
            true
        } else {
            false
        }
    }
}

/// Writing a byte and reading it back at the same in-bounds address yields
/// the byte written; a read at any address at or past the capacity is out
/// of range, whatever the capacity is.
pub proof fn lemma_write_then_read(mem: Seq<u8>, addr: u16, value: u8)
    ensures
        addr < mem.len() ==> spec_read(spec_write(mem, addr as int, value).1, addr as int)
            == Some(value),
        mem.len() <= addr ==> spec_read(mem, addr as int) == None::<u8>,
{
}

/// Writing a 16-bit word and reading it back at the same address yields
/// the word written, whenever both of its bytes are in bounds; and when
/// `addr + 1` is at or past the capacity, both the word write and the word
/// read fail, even though `addr` alone may be in bounds.
pub proof fn lemma_write2_then_read2(mem: Seq<u8>, addr: u16, value: u16)
    ensures
        addr < 0xffff && addr as int + 1 < mem.len() ==> spec_write2(mem, addr as int, value).0
            && spec_read2(spec_write2(mem, addr as int, value).1, addr as int) == Some(value),
        mem.len() <= addr as int + 1 ==> !spec_write2(mem, addr as int, value).0 && spec_read2(
            mem,
            addr as int,
        ) == None::<u16>,
{
    if addr < 0xffff && addr as int + 1 < mem.len() {
        let lo = (value % 256) as u8;
        let hi = (value / 256) as u8;
        vstd::arithmetic::div_mod::lemma_fundamental_div_mod(value as int, 256);
        assert(word_of(lo, hi) == value);
    }
}

} // verus!
