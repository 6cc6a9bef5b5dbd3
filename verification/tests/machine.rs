use rusticvm::Addressable;
use rusticvm::Fault;
use rusticvm::HaltHandler;
use rusticvm::Instruction;
use rusticvm::LinearMemory;
use rusticvm::Machine;
use rusticvm::Register;
use rusticvm::SignalHandler;

fn image(program: &[Instruction]) -> Vec<u8> {
    let mut bytes = Vec::new();
    for instruction in program {
        let word = instruction.encode_u16();
        bytes.push((word % 256) as u8);
        bytes.push((word / 256) as u8);
    }
    bytes
}

fn loaded(program: &[Instruction]) -> Machine<LinearMemory, HaltHandler> {
    let mut vm: Machine<LinearMemory, HaltHandler> = Machine::new();
    vm.set_register(Register::SP, 0x1000);
    assert!(vm.memory.load_from_vec(&image(program), 0));
    vm
}

#[test]
fn a_fresh_machine_is_zeroed_and_not_halted() {
    let vm: Machine<LinearMemory, HaltHandler> = Machine::new();
    for r in [
        Register::A,
        Register::B,
        Register::C,
        Register::M,
        Register::SP,
        Register::PC,
        Register::BP,
        Register::FLAGS,
    ] {
        assert_eq!(vm.get_register(r), 0);
    }
    assert!(!vm.halt);
    assert_eq!(vm.memory.read(8191), Some(0));
    assert_eq!(vm.memory.read(8192), None);
}

#[test]
fn push_then_pop_is_lifo() {
    let mut vm: Machine<LinearMemory, HaltHandler> = Machine::new();
    vm.set_register(Register::SP, 0x1000);
    for v in [11u16, 22, 33, 44] {
        assert_eq!(vm.push(v), Ok(()));
    }
    assert_eq!(vm.pop(), Ok(44));
    assert_eq!(vm.pop(), Ok(33));
    assert_eq!(vm.pop(), Ok(22));
    assert_eq!(vm.pop(), Ok(11));
    assert_eq!(vm.get_register(Register::SP), 0x1000);
}

#[test]
fn popping_below_the_low_water_mark_is_a_memory_fault() {
    let mut vm: Machine<LinearMemory, HaltHandler> = Machine::new();
    // SP at zero cannot move down at all
    assert_eq!(vm.pop(), Err(Fault::StackUnderflow));
    // SP past the memory capacity reads out of range
    vm.set_register(Register::SP, 0x4000);
    assert_eq!(vm.pop(), Err(Fault::ReadFault(0x4000 - 2)));
    assert_eq!(vm.get_register(Register::SP), 0x4000);
}

#[test]
fn a_write_fault_leaves_the_stack_pointer_unchanged() {
    let mut vm: Machine<LinearMemory, HaltHandler> = Machine::new();
    vm.set_register(Register::SP, 0x2000);
    assert_eq!(vm.push(7), Err(Fault::WriteFault(0x2000)));
    assert_eq!(vm.get_register(Register::SP), 0x2000);
}

#[test]
fn push_add_pop_leaves_the_sum_in_the_register() {
    let mut vm = loaded(&[
        Instruction::Push(10),
        Instruction::Push(8),
        Instruction::AddStack,
        Instruction::PopRegister(Register::A),
    ]);
    for _ in 0..4 {
        assert_eq!(vm.step(), Ok(()));
    }
    assert_eq!(vm.get_register(Register::A), 18);
    assert_eq!(vm.get_register(Register::PC), 8);
    assert_eq!(vm.get_register(Register::SP), 0x1000);
}

#[test]
fn add_register_wraps_around_without_a_fault() {
    let mut vm = loaded(&[Instruction::AddRegister(Register::A, Register::B)]);
    vm.set_register(Register::A, 0xffff);
    vm.set_register(Register::B, 0x0002);
    assert_eq!(vm.step(), Ok(()));
    assert_eq!(vm.get_register(Register::A), 0x0001);
    assert_eq!(vm.get_register(Register::B), 0x0002);
}

#[test]
fn add_stack_wraps_around_without_a_fault() {
    let mut vm = loaded(&[Instruction::AddStack]);
    assert_eq!(vm.push(0xffff), Ok(()));
    assert_eq!(vm.push(0x0003), Ok(()));
    assert_eq!(vm.step(), Ok(()));
    assert_eq!(vm.pop(), Ok(0x0002));
}

#[test]
fn push_register_pushes_the_register_value() {
    let mut vm = loaded(&[
        Instruction::PushRegister(Register::B),
        Instruction::PopRegister(Register::C),
    ]);
    vm.set_register(Register::B, 4242);
    assert_eq!(vm.step(), Ok(()));
    assert_eq!(vm.step(), Ok(()));
    assert_eq!(vm.get_register(Register::C), 4242);
}

#[test]
fn nop_only_advances_the_program_counter() {
    let mut vm = loaded(&[Instruction::Nop]);
    assert_eq!(vm.step(), Ok(()));
    assert_eq!(vm.get_register(Register::PC), 2);
    assert_eq!(vm.get_register(Register::A), 0);
}

#[test]
fn a_decode_fault_aborts_the_step_with_the_pc_advanced() {
    let mut vm: Machine<LinearMemory, HaltHandler> = Machine::new();
    assert!(vm.memory.load_from_vec(&[0xee, 0x00], 0));
    assert_eq!(vm.step(), Err(Fault::UnknownOpcode(0xee)));
    assert_eq!(vm.get_register(Register::PC), 2);
}

#[test]
fn a_fetch_fault_aborts_the_step_unchanged() {
    let mut vm: Machine<LinearMemory, HaltHandler> = Machine::new();
    vm.set_register(Register::PC, 0x3000);
    assert_eq!(vm.step(), Err(Fault::ReadFault(0x3000)));
    assert_eq!(vm.get_register(Register::PC), 0x3000);
}

#[test]
fn an_unregistered_signal_is_a_dispatch_fault_not_a_silent_no_op() {
    let mut vm = loaded(&[Instruction::Signal(0x05)]);
    assert_eq!(vm.step(), Err(Fault::UnknownSignal(0x05)));
    assert!(!vm.halt);
}

#[test]
fn a_registered_halt_handler_sets_the_halt_flag() {
    let mut vm = loaded(&[Instruction::Signal(0xf0)]);
    vm.define_handler(0xf0, HaltHandler);
    assert!(!vm.halt);
    assert_eq!(vm.step(), Ok(()));
    assert!(vm.halt);
}

#[derive(Clone)]
struct PokeHandler;

impl SignalHandler<LinearMemory> for PokeHandler {
    fn handle(&self, vm: &mut Machine<LinearMemory, Self>) -> Result<(), Fault> {
        vm.set_register(Register::C, 99);
        Err(Fault::UnknownSignal(0x77))
    }
}

#[test]
fn a_handler_gets_the_whole_machine_and_its_result_becomes_the_steps_result() {
    let mut vm: Machine<LinearMemory, PokeHandler> = Machine::new();
    vm.set_register(Register::SP, 0x1000);
    assert!(vm
        .memory
        .load_from_vec(&image(&[Instruction::Signal(0x01)]), 0));
    vm.define_handler(0x01, PokeHandler);
    assert_eq!(vm.step(), Err(Fault::UnknownSignal(0x77)));
    assert_eq!(vm.get_register(Register::C), 99);
}

#[test]
fn a_full_run_loops_until_halt() {
    let mut vm = loaded(&[
        Instruction::Push(40),
        Instruction::Push(2),
        Instruction::AddStack,
        Instruction::PopRegister(Register::A),
        Instruction::Signal(0xf0),
    ]);
    vm.define_handler(0xf0, HaltHandler);
    let mut steps = 0;
    while !vm.halt {
        assert_eq!(vm.step(), Ok(()));
        steps += 1;
        assert!(steps <= 16, "runaway program");
    }
    assert_eq!(vm.get_register(Register::A), 42);
}

#[test]
fn the_state_dump_shows_every_register() {
    let mut vm: Machine<LinearMemory, HaltHandler> = Machine::new();
    assert_eq!(
        vm.state(),
        "A: 0 | B: 0 | C: 0 | M: 0\nSP: 0 | PC: 0 | BP: 0\nFLAGS: 0\n"
    );
    vm.set_register(Register::A, 65535);
    vm.set_register(Register::SP, 4096);
    vm.set_register(Register::FLAGS, 0xbeef);
    assert_eq!(
        vm.state(),
        "A: 65535 | B: 0 | C: 0 | M: 0\nSP: 4096 | PC: 0 | BP: 0\nFLAGS: BEEF\n"
    );
}
