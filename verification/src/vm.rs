//! The execution engine: a register file of eight 16-bit slots, an
//! exclusively-owned memory backend behind the addressable capability, and
//! a table of signal handlers keyed by 8-bit id. One `step` fetches the
//! word at PC, advances PC by two before dispatch, decodes, and executes.

use std::collections::HashMap;

use vstd::prelude::*;

use crate::fault::Fault;
use crate::memory::Addressable;
use crate::memory::LinearMemory;
use crate::memory::spec_read2;
use crate::memory::spec_write2;
use crate::op::Instruction;
use crate::op::parse_instruction;
use crate::op::spec_parse_instruction;
use crate::register::Register;

verus! {

broadcast use vstd::std_specs::hash::group_hash_axioms;

/// 16-bit addition with wraparound; overflow is not an error.
pub open spec fn wrap_add16(x: u16, y: u16) -> u16 {
    if x + y > 0xffff {
        (x + y - 0x10000) as u16
    } else {
        (x + y) as u16
    }
}

/// The mathematical state of a machine: the register file by ordinal, the
/// halt flag, the memory contents, and the set of signal ids that have a
/// registered handler.
#[verifier::ext_equal]
pub struct MachineState {
    pub regs: Seq<u16>,
    pub halt: bool,
    pub mem: Seq<u8>,
    pub handlers: Set<u8>,
}

/// State and result of a push: the 16-bit value is written little-endian
/// at SP, and only on success does SP advance by two — a write fault
/// leaves SP unchanged (though a partially written low byte stays).
pub open spec fn spec_push_st(s: MachineState, value: u16) -> (MachineState, Result<(), Fault>) {
    let sp = s.regs[Register::SP.spec_ordinal()];
    let w = spec_write2(s.mem, sp as int, value);
    if w.0 {
        (
            MachineState {
                regs: s.regs.update(Register::SP.spec_ordinal(), wrap_add16(sp, 2)),
                mem: w.1,
                ..s
            },
            Ok(()),
        )
    } else {
        (MachineState { mem: w.1, ..s }, Err(Fault::WriteFault(sp)))
    }
}

/// State and result of a pop: the word at SP - 2 is read, and only on a
/// successful read does SP move down and the value come back — no partial
/// state change on failure. A stack pointer too small to move down is a
/// memory fault, never a silent zero.
pub open spec fn spec_pop_st(s: MachineState) -> (MachineState, Result<u16, Fault>) {
    let sp = s.regs[Register::SP.spec_ordinal()];
    if sp < 2 {
        (s, Err(Fault::StackUnderflow))
    } else {
        match spec_read2(s.mem, sp - 2) {
            Some(v) => (
                MachineState {
                    regs: s.regs.update(Register::SP.spec_ordinal(), (sp - 2) as u16),
                    ..s
                },
                Ok(v),
            ),
            None => (s, Err(Fault::ReadFault((sp - 2) as u16))),
        }
    }
}

/// What dispatching one decoded instruction does to a machine whose state
/// is `m` (the PC has already advanced past the instruction). For a
/// `Signal` with a registered handler nothing is promised: the handler has
/// exclusive mutable access to the whole machine.
pub open spec fn step_dispatch(
    m: MachineState,
    instr: Instruction,
    post: MachineState,
    r: Result<(), Fault>,
) -> bool {
    match instr {
        Instruction::Nop => post == m && r == Ok::<(), Fault>(()),
        Instruction::Push(x) => (post, r) == spec_push_st(m, x as u16),
        Instruction::PopRegister(reg) => {
            let p = spec_pop_st(m);
            match p.1 {
                Ok(v) => post == (MachineState {
                    regs: p.0.regs.update(reg.spec_ordinal(), v),
                    ..p.0
                }) && r == Ok::<(), Fault>(()),
                Err(e) => post == p.0 && r == Err::<(), Fault>(e),
            }
        },
        Instruction::PushRegister(reg) => (post, r) == spec_push_st(
            m,
            m.regs[reg.spec_ordinal()],
        ),
        Instruction::AddStack => {
            let p1 = spec_pop_st(m);
            match p1.1 {
                Err(e) => post == p1.0 && r == Err::<(), Fault>(e),
                Ok(a) => {
                    let p2 = spec_pop_st(p1.0);
                    match p2.1 {
                        Err(e) => post == p2.0 && r == Err::<(), Fault>(e),
                        Ok(b) => (post, r) == spec_push_st(p2.0, wrap_add16(a, b)),
                    }
                },
            }
        },
        Instruction::AddRegister(r1, r2) => post == (MachineState {
            regs: m.regs.update(
                r1.spec_ordinal(),
                wrap_add16(m.regs[r1.spec_ordinal()], m.regs[r2.spec_ordinal()]),
            ),
            ..m
        }) && r == Ok::<(), Fault>(()),
        Instruction::Signal(id) => if m.handlers.contains(id) {
            true
        } else {
            post == m && r == Err::<(), Fault>(Fault::UnknownSignal(id))
        },
    }
}

/// What one `step` does: fetch the word at PC (a fetch fault aborts the
/// step with the machine unchanged), advance PC by two before dispatch,
/// decode (a decode fault aborts the step, PC already advanced), then
/// dispatch.
pub open spec fn step_post(pre: MachineState, post: MachineState, r: Result<(), Fault>) -> bool {
    let pc = pre.regs[Register::PC.spec_ordinal()];
    match spec_read2(pre.mem, pc as int) {
        None => post == pre && r == Err::<(), Fault>(Fault::ReadFault(pc)),
        Some(w) => {
            let fetched = MachineState {
                regs: pre.regs.update(Register::PC.spec_ordinal(), wrap_add16(pc, 2)),
                ..pre
            };
            match spec_parse_instruction(w) {
                Err(e) => post == fetched && r == Err::<(), Fault>(e),
                Ok(instr) => step_dispatch(fetched, instr, post, r),
            }
        },
    }
}

/// A signal handler: the machine's only mechanism for host-defined
/// behaviour. A registered handler receives exclusive mutable access to
/// the whole machine — it may mutate any register, set the halt flag, or
/// push and pop — and its result becomes the step's result.
pub trait SignalHandler<M: Addressable>: Sized + Clone {
    /// Runs the handler on the machine it was registered in.
    fn handle(&self, vm: &mut Machine<M, Self>) -> Result<(), Fault>;
}

/// The machine: a register file, a halt flag settable only by a handler,
/// a signal-handler table keyed by 8-bit id, and an exclusively-owned
/// memory backend, swappable through the addressable capability.
pub struct Machine<M: Addressable, H> {
    registers: [u16; 8],
    /// The sole built-in termination signal; the caller's run loop stops
    /// when it is set.
    pub halt: bool,
    signal_handlers: HashMap<u8, H>,
    /// The memory backend. Exclusively owned: nothing else may hold a
    /// reference to it while the machine runs.
    pub memory: M,
}

impl<M: Addressable, H> View for Machine<M, H> {
    type V = MachineState;

    closed spec fn view(&self) -> MachineState {
        MachineState {
            regs: self.registers@,
            halt: self.halt,
            mem: self.memory.mem(),
            handlers: self.signal_handlers@.dom(),
        }
    }
}

impl<H> Machine<LinearMemory, H> {
    /// A fresh machine: zeroed registers, a fresh zeroed linear memory of
    /// eight KiB, an empty handler table, and the halt flag clear.
    pub fn new() -> (m: Machine<LinearMemory, H>)
        ensures
            m@.regs.len() == 8,
            forall|k: int| 0 <= k < 8 ==> m@.regs[k] == 0u16,
            !m@.halt,
            m@.mem.len() == 8192,
            forall|a: int| 0 <= a < 8192 ==> m@.mem[a] == 0u8,
            m@.handlers =~= Set::<u8>::empty(),
    {
        Machine {
            registers: [0, 0, 0, 0, 0, 0, 0, 0],
            halt: false,
            signal_handlers: HashMap::new(),
            memory: LinearMemory::new(8 * 1024),
        }
    }
}

impl<M: Addressable, H: SignalHandler<M>> Machine<M, H> {
    /// The register dump as text, for a caller that prints machine state
    /// between steps.
    pub fn state(&self) -> (out: String)
        ensures
            out@ == spec_state_text(self@),
    {
        let mut out = String::new();
        out.append("A: ");
        push_dec(&mut out, self.registers[0]);
        out.append(" | B: ");
        push_dec(&mut out, self.registers[1]);
        out.append(" | C: ");
        push_dec(&mut out, self.registers[2]);
        out.append(" | M: ");
        push_dec(&mut out, self.registers[3]);
        out.append("\nSP: ");
        push_dec(&mut out, self.registers[4]);
        out.append(" | PC: ");
        push_dec(&mut out, self.registers[5]);
        out.append(" | BP: ");
        push_dec(&mut out, self.registers[6]);
        out.append("\nFLAGS: ");
        push_hex(&mut out, self.registers[7]);
        out.append("\n");
        out
    }

    /// Current value of a register.
    pub fn get_register(&self, r: Register) -> (v: u16)
        ensures
            v == self@.regs[r.spec_ordinal()],
    {
        self.registers[r.ordinal() as usize]
    }

    /// Sets a register to a value; nothing else changes.
    pub fn set_register(&mut self, r: Register, v: u16)
        ensures
            final(self)@ == (MachineState {
                regs: old(self)@.regs.update(r.spec_ordinal(), v),
                ..old(self)@
            }),
    {
        self.registers[r.ordinal() as usize] = v;
    }

    /// Registers a handler for a signal id, replacing any earlier one;
    /// nothing else changes.
    pub fn define_handler(&mut self, index: u8, handler: H)
        ensures
            final(self)@ == (MachineState {
                handlers: old(self)@.handlers.insert(index),
                ..old(self)@
            }),
    {
        self.signal_handlers.insert(index, handler);
        proof {
            assert(final(self)@.handlers =~= old(self)@.handlers.insert(index));
        }
    }

    /// Pops the 16-bit word below SP, committing the stack-pointer
    /// decrement only after a successful read.
    pub fn pop(&mut self) -> (r: Result<u16, Fault>)
        ensures
            final(self)@ == spec_pop_st(old(self)@).0,
            r == spec_pop_st(old(self)@).1,
    {
        let sp = self.registers[4];
        if sp < 2 {
            return Err(Fault::StackUnderflow);
        }
        let addr = sp - 2;
        match self.memory.read2(addr) {
            Some(v) => {
                self.registers[4] = addr;
                Ok(v)
            },
            None => Err(Fault::ReadFault(addr)),
        }
    }

    /// Pushes a 16-bit word at SP; only on a successful write does SP
    /// advance by two.
    pub fn push(&mut self, arg: u16) -> (r: Result<(), Fault>)
        ensures
            final(self)@ == spec_push_st(old(self)@, arg).0,
            r == spec_push_st(old(self)@, arg).1,
    {
        let sp = self.registers[4];
        if !self.memory.write2(sp, arg) {
            return Err(Fault::WriteFault(sp));
        }
        self.registers[4] = sp.wrapping_add(2);
        Ok(())
    }

    /// One fetch-decode-execute cycle. The PC advances by two before
    /// dispatch, so an instruction that overwrites PC is honoured. Any
    /// fault aborts the step and is returned to the caller, who decides
    /// whether to halt the run.
    pub fn step(&mut self) -> (r: Result<(), Fault>)
        ensures
            step_post(old(self)@, final(self)@, r),
    {
        let pc = self.registers[5];
        let word = match self.memory.read2(pc) {
            Some(w) => w,
            None => {
                return Err(Fault::ReadFault(pc));
            },
        };
        self.registers[5] = pc.wrapping_add(2);
        let instruction = match parse_instruction(word) {
            Ok(i) => i,
            Err(e) => {
                return Err(e);
            },
        };
        match instruction {
            Instruction::Nop => Ok(()),
            Instruction::Push(arg) => self.push(arg as u16),
            Instruction::PopRegister(reg) => match self.pop() {
                Ok(value) => {
                    self.registers[reg.ordinal() as usize] = value;
                    Ok(())
                },
                Err(e) => Err(e),
            },
            Instruction::PushRegister(reg) => {
                let value = self.registers[reg.ordinal() as usize];
                self.push(value)
            },
            Instruction::AddStack => {
                let a = match self.pop() {
                    Ok(a) => a,
                    Err(e) => {
                        return Err(e);
                    },
                };
                let b = match self.pop() {
                    Ok(b) => b,
                    Err(e) => {
                        return Err(e);
                    },
                };
                self.push(a.wrapping_add(b))
            },
            Instruction::AddRegister(r1, r2) => {
                let i1 = r1.ordinal() as usize;
                let i2 = r2.ordinal() as usize;
                let v = self.registers[i1].wrapping_add(self.registers[i2]);
                self.registers[i1] = v;
                Ok(())
            },
            Instruction::Signal(signal) => {
                let handler = match self.signal_handlers.get(&signal) {
                    Some(h) => h.clone(),
                    None => {
                        return Err(Fault::UnknownSignal(signal));
                    },
                };
                handler.handle(self)
            },
        }
    }
}

/// The digit character of a value below sixteen: `0`-`9`, then `A`-`F`.
pub open spec fn spec_digit_char(d: nat) -> char {
    if d == 0 {
        '0'
    } else if d == 1 {
        '1'
    } else if d == 2 {
        '2'
    } else if d == 3 {
        '3'
    } else if d == 4 {
        '4'
    } else if d == 5 {
        '5'
    } else if d == 6 {
        '6'
    } else if d == 7 {
        '7'
    } else if d == 8 {
        '8'
    } else if d == 9 {
        '9'
    } else if d == 10 {
        'A'
    } else if d == 11 {
        'B'
    } else if d == 12 {
        'C'
    } else if d == 13 {
        'D'
    } else if d == 14 {
        'E'
    } else {
        'F'
    }
}

/// The decimal digits of a number, most significant first, no leading
/// zeroes but a lone zero.
pub open spec fn spec_dec_digits(n: nat) -> Seq<char>
    decreases n,
{
    if n < 10 {
        seq![spec_digit_char(n)]
    } else {
        spec_dec_digits(n / 10).push(spec_digit_char(n % 10))
    }
}

/// The uppercase hexadecimal digits of a number, most significant first,
/// no leading zeroes but a lone zero.
pub open spec fn spec_hex_digits(n: nat) -> Seq<char>
    decreases n,
{
    if n < 16 {
        seq![spec_digit_char(n)]
    } else {
        spec_hex_digits(n / 16).push(spec_digit_char(n % 16))
    }
}

/// One digit as text.
fn digit_str(d: u16) -> (s: &'static str)
    requires
        d < 16,
    ensures
        s@ =~= seq![spec_digit_char(d as nat)],
{
    proof {
        reveal_strlit("0");
        reveal_strlit("1");
        reveal_strlit("2");
        reveal_strlit("3");
        reveal_strlit("4");
        reveal_strlit("5");
        reveal_strlit("6");
        reveal_strlit("7");
        reveal_strlit("8");
        reveal_strlit("9");
        reveal_strlit("A");
        reveal_strlit("B");
        reveal_strlit("C");
        reveal_strlit("D");
        reveal_strlit("E");
        reveal_strlit("F");
    }
    match d {
        0 => "0",
        1 => "1",
        2 => "2",
        3 => "3",
        4 => "4",
        5 => "5",
        6 => "6",
        7 => "7",
        8 => "8",
        9 => "9",
        10 => "A",
        11 => "B",
        12 => "C",
        13 => "D",
        14 => "E",
        _ => "F",
    }
}

/// Appends a register value in decimal.
fn push_dec(out: &mut String, v: u16)
    ensures
        final(out)@ == old(out)@ + spec_dec_digits(v as nat),
    decreases v,
{
    let ghost out0 = out@;
    if v >= 10 {
        push_dec(out, v / 10);
        out.append(digit_str(v % 10));
        proof {
            assert(final(out)@ =~= out0 + spec_dec_digits(v as nat));
        }
    } else {
        out.append(digit_str(v));
        proof {
            assert(final(out)@ =~= out0 + spec_dec_digits(v as nat));
        }
    }
}

/// Appends a register value in uppercase hexadecimal.
fn push_hex(out: &mut String, v: u16)
    ensures
        final(out)@ == old(out)@ + spec_hex_digits(v as nat),
    decreases v,
{
    let ghost out0 = out@;
    if v >= 16 {
        push_hex(out, v / 16);
        out.append(digit_str(v % 16));
        proof {
            assert(final(out)@ =~= out0 + spec_hex_digits(v as nat));
        }
    } else {
        out.append(digit_str(v));
        proof {
            assert(final(out)@ =~= out0 + spec_hex_digits(v as nat));
        }
    }
}

/// The register dump a machine state prints as: the seven general and
/// pointer registers in decimal and FLAGS in uppercase hexadecimal.
pub open spec fn spec_state_text(s: MachineState) -> Seq<char> {
    "A: "@ + spec_dec_digits(s.regs[0] as nat) + " | B: "@ + spec_dec_digits(s.regs[1] as nat)
        + " | C: "@ + spec_dec_digits(s.regs[2] as nat) + " | M: "@ + spec_dec_digits(
        s.regs[3] as nat,
    ) + "\nSP: "@ + spec_dec_digits(s.regs[4] as nat) + " | PC: "@ + spec_dec_digits(
        s.regs[5] as nat,
    ) + " | BP: "@ + spec_dec_digits(s.regs[6] as nat) + "\nFLAGS: "@ + spec_hex_digits(
        s.regs[7] as nat,
    ) + "\n"@
}

/// The machine state after pushing a sequence of values, first element
/// first (meaningful where `spec_pushes_ok` holds).
pub open spec fn spec_push_seq(s: MachineState, vs: Seq<u16>) -> MachineState
    decreases vs.len(),
{
    if vs.len() == 0 {
        s
    } else {
        spec_push_seq(spec_push_st(s, vs[0]).0, vs.skip(1))
    }
}

/// Whether pushing a sequence of values, first element first, succeeds at
/// every step.
pub open spec fn spec_pushes_ok(s: MachineState, vs: Seq<u16>) -> bool
    decreases vs.len(),
{
    vs.len() == 0 || (spec_push_st(s, vs[0]).1 == Ok::<(), Fault>(()) && spec_pushes_ok(
        spec_push_st(s, vs[0]).0,
        vs.skip(1),
    ))
}

/// The machine state after `k` pops, paired with the popped values in pop
/// order (meaningful where `spec_pops_ok` holds).
pub open spec fn spec_pop_seq(s: MachineState, k: nat) -> (MachineState, Seq<u16>)
    decreases k,
{
    if k == 0 {
        (s, Seq::empty())
    } else {
        let p = spec_pop_st(s);
        match p.1 {
            Ok(v) => {
                let rest = spec_pop_seq(p.0, (k - 1) as nat);
                (rest.0, seq![v] + rest.1)
            },
            Err(_) => (s, Seq::empty()),
        }
    }
}

/// Whether `k` pops in a row all succeed.
pub open spec fn spec_pops_ok(s: MachineState, k: nat) -> bool
    decreases k,
{
    k == 0 || (spec_pop_st(s).1 is Ok && spec_pops_ok(spec_pop_st(s).0, (k - 1) as nat))
}

/// One more pop appends one more value: `k + 1` pops are `k` pops followed
/// by a single pop of the state they leave.
proof fn lemma_pop_seq_snoc(s: MachineState, k: nat)
    requires
        spec_pops_ok(s, k),
        spec_pop_st(spec_pop_seq(s, k).0).1 is Ok,
    ensures
        spec_pops_ok(s, k + 1),
        spec_pop_seq(s, k + 1).0 == spec_pop_st(spec_pop_seq(s, k).0).0,
        spec_pop_seq(s, k + 1).1 =~= spec_pop_seq(s, k).1 + seq![
            spec_pop_st(spec_pop_seq(s, k).0).1->Ok_0,
        ],
    decreases k,
{
    let p = spec_pop_st(s);
    if k == 0 {
        assert(spec_pop_seq(s, 0).0 == s);
        assert(spec_pop_seq(s, 0).1 =~= Seq::<u16>::empty());
        assert(p.1 is Ok);
        assert(spec_pops_ok(p.0, 0));
        assert(spec_pops_ok(s, 1));
        assert(spec_pop_seq(s, 1).0 == spec_pop_seq(p.0, 0).0);
        assert(spec_pop_seq(s, 1).1 =~= Seq::<u16>::empty() + seq![p.1->Ok_0]);
    } else {
        assert(p.1 is Ok && spec_pops_ok(p.0, (k - 1) as nat));
        assert(spec_pop_seq(s, k).0 == spec_pop_seq(p.0, (k - 1) as nat).0);
        assert(spec_pop_seq(s, k).1 == seq![p.1->Ok_0] + spec_pop_seq(p.0, (k - 1) as nat).1);
        lemma_pop_seq_snoc(p.0, (k - 1) as nat);
        let q = spec_pop_st(spec_pop_seq(p.0, (k - 1) as nat).0);
        assert(spec_pops_ok(s, k + 1)) by {
            assert(spec_pops_ok(p.0, k));
        }
        assert(spec_pop_seq(s, k + 1).0 == spec_pop_seq(p.0, k).0);
        assert(spec_pop_seq(s, k + 1).1 == seq![p.1->Ok_0] + spec_pop_seq(p.0, k).1);
        assert(seq![p.1->Ok_0] + (spec_pop_seq(p.0, (k - 1) as nat).1 + seq![q.1->Ok_0])
            =~= (seq![p.1->Ok_0] + spec_pop_seq(p.0, (k - 1) as nat).1) + seq![q.1->Ok_0]);
    }
}

/// Pushing a sequence of values and then popping as many returns them in
/// strict reverse (last-in, first-out) order, leaves the memory below the
/// original stack pointer untouched, and brings the stack pointer back to
/// where it started. The bounds keep the whole stack region inside memory
/// and inside the 16-bit address space.
pub proof fn lemma_stack_lifo(s: MachineState, vs: Seq<u16>)
    requires
        s.regs.len() == 8,
        s.regs[Register::SP.spec_ordinal()] + 2 * vs.len() <= s.mem.len(),
        s.regs[Register::SP.spec_ordinal()] + 2 * vs.len() <= 0xffff,
    ensures
        spec_pushes_ok(s, vs),
        ({
            let sp = s.regs[Register::SP.spec_ordinal()];
            let t = spec_push_seq(s, vs);
            &&& t.regs =~= s.regs.update(
                Register::SP.spec_ordinal(),
                (sp + 2 * vs.len()) as u16,
            )
            &&& t.halt == s.halt
            &&& t.handlers == s.handlers
            &&& t.mem.len() == s.mem.len()
            &&& forall|a: int| 0 <= a < sp ==> t.mem[a] == s.mem[a]
            &&& spec_pops_ok(t, vs.len())
            &&& spec_pop_seq(t, vs.len()).1 =~= vs.reverse()
            &&& spec_pop_seq(t, vs.len()).0 =~= (MachineState {
                regs: t.regs.update(Register::SP.spec_ordinal(), sp),
                ..t
            })
        }),
    decreases vs.len(),
{
    let sp = s.regs[Register::SP.spec_ordinal()];
    let t = spec_push_seq(s, vs);
    if vs.len() == 0 {
        assert(t.regs =~= s.regs.update(Register::SP.spec_ordinal(), (sp + 0) as u16));
        assert(spec_pop_seq(t, 0).0 =~= (MachineState {
            regs: t.regs.update(Register::SP.spec_ordinal(), sp),
            ..t
        }));
        assert(spec_pop_seq(t, 0).1 =~= vs.reverse());
    } else {
        let v0 = vs[0];
        let n = vs.len();
        let lo = (v0 % 256) as u8;
        let hi = (v0 / 256) as u8;
        let p = spec_push_st(s, v0);
        let s1 = p.0;
        assert(spec_write2(s.mem, sp as int, v0).0);
        assert(s1.mem =~= s.mem.update(sp as int, lo).update(sp as int + 1, hi));
        assert(s1.regs =~= s.regs.update(Register::SP.spec_ordinal(), (sp + 2) as u16));
        lemma_stack_lifo(s1, vs.skip(1));
        let t1 = spec_push_seq(s1, vs.skip(1));
        assert(t == t1);
        assert(t.regs =~= s.regs.update(Register::SP.spec_ordinal(), (sp + 2 * n) as u16));
        assert(forall|a: int| 0 <= a < sp ==> t.mem[a] == s.mem[a]);
        // the word pushed first still sits at the bottom of the stack region
        assert(t.mem[sp as int] == lo && t.mem[sp as int + 1] == hi);
        let u = spec_pop_seq(t, (n - 1) as nat).0;
        assert(u =~= (MachineState {
            regs: t.regs.update(Register::SP.spec_ordinal(), (sp + 2) as u16),
            ..t
        }));
        assert(spec_read2(u.mem, sp as int) == Some(crate::memory::word_of(lo, hi)));
        vstd::arithmetic::div_mod::lemma_fundamental_div_mod(v0 as int, 256);
        assert(crate::memory::word_of(lo, hi) == v0);
        assert(spec_pop_st(u).1 == Ok::<u16, Fault>(v0));
        lemma_pop_seq_snoc(t, (n - 1) as nat);
        assert(spec_pop_seq(t, n).1 =~= vs.skip(1).reverse() + seq![v0]);
        assert(vs.skip(1).reverse() + seq![v0] =~= vs.reverse()) by {
            assert forall|i: int| 0 <= i < n implies (vs.skip(1).reverse() + seq![v0])[i]
                == vs.reverse()[i] by {
                if i < n - 1 {
                    assert(vs.skip(1).reverse()[i] == vs.skip(1)[n - 2 - i]);
                    assert(vs.skip(1)[n - 2 - i] == vs[n - 1 - i]);
                }
            }
        }
        assert(spec_pop_seq(t, n).0 =~= (MachineState {
            regs: t.regs.update(Register::SP.spec_ordinal(), sp),
            ..t
        }));
    }
}

/// The one handler the library provides: it sets the halt flag, the sole
/// built-in termination signal, and succeeds.
#[derive(Clone, Copy, Debug)]
pub struct HaltHandler;

impl<M: Addressable> SignalHandler<M> for HaltHandler {
    /// Sets the halt flag; nothing else changes.
    fn handle(&self, vm: &mut Machine<M, Self>) -> (r: Result<(), Fault>)
        ensures
            final(vm)@ == (MachineState { halt: true, ..old(vm)@ }),
            r == Ok::<(), Fault>(()),
    {
        vm.halt = true;
        Ok(())
    }
}

} // verus!
