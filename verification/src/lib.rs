//! A small 16-bit virtual machine with a fixed-width instruction encoding,
//! an addressable-memory abstraction, a fetch-decode-execute engine with a
//! register file, an operand stack and a signal-based extension mechanism,
//! and a line-oriented assembler that shares the same instruction registry.

pub mod assembler;
pub mod fault;
pub mod memory;
pub mod op;
pub mod register;
pub mod vm;

pub use assembler::assemble;
pub use assembler::assert_length;
pub use assembler::handle_line;
pub use assembler::parse_numeric;
pub use assembler::parse_register;
pub use assembler::tokenize;
pub use fault::Fault;
pub use memory::Addressable;
pub use memory::LinearMemory;
pub use op::Instruction;
pub use op::OpCode;
pub use op::parse_instruction;
pub use register::Register;
pub use vm::HaltHandler;
pub use vm::Machine;
pub use vm::MachineState;
pub use vm::SignalHandler;
