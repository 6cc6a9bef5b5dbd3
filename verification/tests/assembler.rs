use rusticvm::Fault;
use rusticvm::HaltHandler;
use rusticvm::Instruction;
use rusticvm::LinearMemory;
use rusticvm::Machine;
use rusticvm::Register;
use rusticvm::assemble;
use rusticvm::handle_line;
use rusticvm::parse_numeric;
use rusticvm::parse_register;
use rusticvm::tokenize;

fn words(bytes: &[u8]) -> Vec<u16> {
    assert_eq!(bytes.len() % 2, 0);
    bytes
        .chunks(2)
        .map(|c| c[0] as u16 + 256 * (c[1] as u16))
        .collect()
}

#[test]
fn assembling_matches_direct_encoding_and_the_image_runs() {
    let source = "Push 10\nPush 8\nAddStack\nPopRegister A";
    let bytes = assemble(source).unwrap();
    let program = [
        Instruction::Push(10),
        Instruction::Push(8),
        Instruction::AddStack,
        Instruction::PopRegister(Register::A),
    ];
    let expected: Vec<u16> = program.iter().map(|i| i.encode_u16()).collect();
    assert_eq!(words(&bytes), expected);

    let mut vm: Machine<LinearMemory, HaltHandler> = Machine::new();
    vm.set_register(Register::SP, 0x1000);
    assert!(rusticvm::Addressable::load_from_vec(&mut vm.memory, &bytes, 0));
    for _ in 0..4 {
        assert_eq!(vm.step(), Ok(()));
    }
    assert_eq!(vm.get_register(Register::A), 18);
}

#[test]
fn an_unknown_mnemonic_is_a_parse_fault_never_a_crash() {
    assert_eq!(assemble("Frobnicate 1"), Err(Fault::UnknownMnemonic));
    assert_eq!(assemble("Nop\npush 1"), Err(Fault::UnknownMnemonic));
}

#[test]
fn blank_lines_comments_and_extra_spaces_are_skipped() {
    let source = "; a comment\n\n   \nNop\n;; another\n  Push   7  \n";
    let bytes = assemble(source).unwrap();
    assert_eq!(
        words(&bytes),
        vec![
            Instruction::Nop.encode_u16(),
            Instruction::Push(7).encode_u16()
        ]
    );
}

#[test]
fn carriage_returns_before_line_ends_are_tolerated() {
    let bytes = assemble("Nop\r\nPush 1\r\n").unwrap();
    assert_eq!(
        words(&bytes),
        vec![
            Instruction::Nop.encode_u16(),
            Instruction::Push(1).encode_u16()
        ]
    );
}

#[test]
fn the_empty_source_assembles_to_the_empty_image() {
    assert_eq!(assemble(""), Ok(Vec::new()));
    assert_eq!(assemble("\n\n"), Ok(Vec::new()));
}

#[test]
fn wrong_operand_counts_name_expected_and_actual() {
    assert_eq!(
        assemble("Push"),
        Err(Fault::WrongOperandCount {
            expected: 2,
            got: 1
        })
    );
    assert_eq!(
        assemble("Nop 1"),
        Err(Fault::WrongOperandCount {
            expected: 1,
            got: 2
        })
    );
    assert_eq!(
        assemble("AddRegister A"),
        Err(Fault::WrongOperandCount {
            expected: 3,
            got: 2
        })
    );
}

#[test]
fn the_first_faulty_line_aborts_the_assembly() {
    assert_eq!(
        assemble("Nop\nPush zz\nFrobnicate"),
        Err(Fault::InvalidDigit)
    );
}

#[test]
fn numeric_literals_take_decimal_hex_and_binary_forms() {
    assert_eq!(parse_numeric("10"), Ok(10));
    assert_eq!(parse_numeric("+10"), Ok(10));
    assert_eq!(parse_numeric("0"), Ok(0));
    assert_eq!(parse_numeric("255"), Ok(255));
    assert_eq!(parse_numeric("$ff"), Ok(255));
    assert_eq!(parse_numeric("$FF"), Ok(255));
    assert_eq!(parse_numeric("$a"), Ok(10));
    assert_eq!(parse_numeric("%101"), Ok(5));
    assert_eq!(parse_numeric("%0"), Ok(0));
}

#[test]
fn bad_numeric_literals_are_parse_faults() {
    assert_eq!(parse_numeric(""), Err(Fault::EmptyNumeral));
    assert_eq!(parse_numeric("$"), Err(Fault::EmptyNumeral));
    assert_eq!(parse_numeric("%"), Err(Fault::EmptyNumeral));
    assert_eq!(parse_numeric("+"), Err(Fault::EmptyNumeral));
    assert_eq!(parse_numeric("12x"), Err(Fault::InvalidDigit));
    assert_eq!(parse_numeric("$fg"), Err(Fault::InvalidDigit));
    assert_eq!(parse_numeric("%102"), Err(Fault::InvalidDigit));
    assert_eq!(parse_numeric("-1"), Err(Fault::InvalidDigit));
    assert_eq!(parse_numeric("256"), Err(Fault::NumeralOverflow));
    assert_eq!(parse_numeric("999"), Err(Fault::NumeralOverflow));
    assert_eq!(parse_numeric("$100"), Err(Fault::NumeralOverflow));
}

#[test]
fn register_operands_resolve_by_name() {
    assert_eq!(parse_register("A"), Ok(Register::A));
    assert_eq!(parse_register("SP"), Ok(Register::SP));
    assert_eq!(parse_register("FLAGS"), Ok(Register::FLAGS));
    assert_eq!(parse_register("Z"), Err(Fault::UnknownRegisterName));
    assert_eq!(parse_register("a"), Err(Fault::UnknownRegisterName));
    assert_eq!(parse_register(""), Err(Fault::UnknownRegisterName));
}

#[test]
fn tokenize_splits_on_runs_of_spaces() {
    assert_eq!(tokenize("Push 10"), vec!["Push", "10"]);
    assert_eq!(tokenize("  AddRegister   A  B "), vec!["AddRegister", "A", "B"]);
    assert_eq!(tokenize("   "), Vec::<&str>::new());
    assert_eq!(tokenize(""), Vec::<&str>::new());
}

#[test]
fn handle_line_builds_each_instruction_shape() {
    assert_eq!(handle_line(vec!["Nop"]), Ok(Instruction::Nop));
    assert_eq!(handle_line(vec!["Push", "$20"]), Ok(Instruction::Push(32)));
    assert_eq!(
        handle_line(vec!["PopRegister", "B"]),
        Ok(Instruction::PopRegister(Register::B))
    );
    assert_eq!(
        handle_line(vec!["PushRegister", "SP"]),
        Ok(Instruction::PushRegister(Register::SP))
    );
    assert_eq!(handle_line(vec!["AddStack"]), Ok(Instruction::AddStack));
    assert_eq!(
        handle_line(vec!["AddRegister", "A", "B"]),
        Ok(Instruction::AddRegister(Register::A, Register::B))
    );
    assert_eq!(handle_line(vec!["Signal", "$f0"]), Ok(Instruction::Signal(0xf0)));
    assert_eq!(
        handle_line(vec!["PopRegister", "Q"]),
        Err(Fault::UnknownRegisterName)
    );
    assert_eq!(handle_line(vec!["Bogus"]), Err(Fault::UnknownMnemonic));
}

#[test]
fn a_signal_line_assembles_and_halts_the_machine() {
    let bytes = assemble("Push 3\nPopRegister A\nSignal $f0\n").unwrap();
    let mut vm: Machine<LinearMemory, HaltHandler> = Machine::new();
    vm.set_register(Register::SP, 0x1000);
    vm.define_handler(0xf0, HaltHandler);
    assert!(rusticvm::Addressable::load_from_vec(&mut vm.memory, &bytes, 0));
    let mut steps = 0;
    while !vm.halt {
        assert_eq!(vm.step(), Ok(()));
        steps += 1;
        assert!(steps <= 8, "runaway program");
    }
    assert_eq!(vm.get_register(Register::A), 3);
}
