use dactor::messages::{ActorAddr, Atom, Value};
use dactor::vm::interpreter::VMState;
use dactor::vm::types::{IOState, VMError, IO};

const ME: IOState = IOState { self_addr: ActorAddr { addr: 0xabcd } };

fn word(n: u64) -> Vec<u8> {
    n.to_le_bytes().to_vec()
}

fn set_integer(reg: u8, n: u64) -> Vec<u8> {
    let mut code = vec![0x02, reg];
    code.extend(word(n));
    code
}

fn set_float(reg: u8, x: f64) -> Vec<u8> {
    let mut code = vec![0x01, reg];
    code.extend(word(x.to_bits()));
    code
}

fn float(x: f64) -> Value {
    Value::Float(x.to_bits())
}

/// Runs `code` to its end or its first error; the result of the last step.
fn run_all(vm: &mut VMState) -> Result<Option<IO>, VMError> {
    for _ in 0..10_000 {
        match vm.step_once(&ME) {
            Ok(None) => continue,
            other => return other,
        }
    }
    panic!("the program did not end");
}

#[test]
fn a_fresh_machine_has_256_zeroed_registers() {
    let code = [0u8; 0];
    let vm = VMState::new(&code, (0, 0));
    assert_eq!(vm.registers.len(), 256);
    assert!(vm.registers.iter().all(|r| *r == Value::Number(0)));
}

#[test]
fn the_end_of_the_program_is_done_and_stays_done() {
    let code = set_integer(0, 1);
    let mut vm = VMState::new(&code, (0, code.len()));
    assert_eq!(vm.step_once(&ME), Ok(None));
    assert_eq!(vm.step_once(&ME), Ok(Some(IO::Done)));
    assert_eq!(vm.step_once(&ME), Ok(Some(IO::Done)));
    assert_eq!(vm.registers[0], Value::Number(1));
}

#[test]
fn an_empty_program_is_done_at_once() {
    let code = set_integer(0, 1);
    let mut vm = VMState::new(&code, (4, 4));
    assert_eq!(vm.step_once(&ME), Ok(Some(IO::Done)));
    assert_eq!(vm.registers[0], Value::Number(0));
}

#[test]
fn a_machine_runs_its_own_program_only() {
    let mut code = set_integer(0, 1);
    code.extend(set_integer(1, 2));
    code.extend(set_integer(2, 3));
    let mut vm = VMState::new(&code, (10, 20));
    assert_eq!(run_all(&mut vm), Ok(Some(IO::Done)));
    assert_eq!(vm.registers[0], Value::Number(0));
    assert_eq!(vm.registers[1], Value::Number(2));
    assert_eq!(vm.registers[2], Value::Number(0));
}

#[test]
fn read_u8_walks_the_program() {
    let code = [7u8, 8, 9];
    let mut vm = VMState::new(&code, (1, 3));
    assert_eq!(vm.read_u8(), Ok(8));
    assert_eq!(vm.read_u8(), Ok(9));
    assert_eq!(vm.read_u8(), Err(VMError::OutOfBounds));
    assert_eq!(vm.read_u8(), Err(VMError::OutOfBounds));
}

#[test]
fn read_u64_needs_eight_bytes() {
    let mut code = word(0x1122334455667788);
    code.push(0x99);
    let mut vm = VMState::new(&code, (0, 9));
    assert_eq!(vm.read_u64(), Ok(0x1122334455667788));
    assert_eq!(vm.read_u64(), Err(VMError::OutOfBounds));
    // The failed read took nothing.
    assert_eq!(vm.read_u8(), Ok(0x99));
}

#[test]
fn set_integer_that_ends_early_is_out_of_bounds() {
    for len in 1..10 {
        let code = set_integer(3, 77);
        let mut vm = VMState::new(&code, (0, len));
        assert_eq!(vm.step_once(&ME), Err(VMError::OutOfBounds), "length {}", len);
        assert_eq!(vm.registers[3], Value::Number(0));
    }
}

#[test]
fn every_short_instruction_that_ends_early_is_out_of_bounds() {
    for op in [0x00u8, 0x05, 0x06, 0x82] {
        let code = [op, 0];
        let mut vm = VMState::new(&code, (0, 1));
        assert_eq!(vm.step_once(&ME), Err(VMError::OutOfBounds), "opcode {:#x}", op);
    }
    for op in [0x04u8, 0x10, 0x11, 0x12, 0x20, 0x21, 0x22, 0x23] {
        for len in 1..3 {
            let code = [op, 0, 1];
            let mut vm = VMState::new(&code, (0, len));
            assert_eq!(vm.step_once(&ME), Err(VMError::OutOfBounds), "opcode {:#x}", op);
        }
    }
}

#[test]
fn unknown_opcodes_are_named() {
    for op in [0x03u8, 0x07, 0x13, 0x24, 0x7f, 0x83, 0xff] {
        let code = [op, 0, 0];
        let mut vm = VMState::new(&code, (0, 3));
        assert_eq!(vm.step_once(&ME), Err(VMError::NoSuchInstruction(op)));
    }
}

#[test]
fn set_self_addr_takes_the_address_of_the_dispatch() {
    let code = [0x00u8, 200];
    let mut vm = VMState::new(&code, (0, 2));
    assert_eq!(vm.step_once(&ME), Ok(None));
    assert_eq!(vm.registers[200], Value::ActorAddr(ActorAddr { addr: 0xabcd }));
}

#[test]
fn copy_leaves_the_source_and_copies_strings() {
    let code = [0x04u8, 9, 8];
    let mut vm = VMState::new(&code, (0, 3));
    vm.set_register(8, Value::String("payload".to_string()));
    assert_eq!(vm.step_once(&ME), Ok(None));
    assert_eq!(vm.registers[8], Value::String("payload".to_string()));
    assert_eq!(vm.registers[9], Value::String("payload".to_string()));
    assert_eq!(vm.register(9), Value::String("payload".to_string()));
}

#[test]
fn generate_atom_puts_an_atom_into_the_register() {
    let code = [0x05u8, 4, 0x05, 5, 0x05, 6, 0x05, 7];
    let mut vm = VMState::new(&code, (0, code.len()));
    assert_eq!(run_all(&mut vm), Ok(Some(IO::Done)));
    let mut minted = Vec::new();
    for reg in 4..8 {
        match &vm.registers[reg] {
            Value::Atom(atom) => minted.push(*atom),
            other => panic!("register {} holds {:?}", reg, other),
        }
    }
    assert!(minted.iter().any(|a| *a != minted[0]));
}

#[test]
fn step_with_mints_the_atom_it_is_given() {
    let code = [0x05u8, 4, 0x02];
    let mut vm = VMState::new(&code, (0, 3));
    assert!(vm.next_mints_atom());
    assert_eq!(vm.step_with(&ME, Atom(99)), Ok(None));
    assert_eq!(vm.registers[4], Value::Atom(Atom(99)));
    assert!(!vm.next_mints_atom());
    assert_eq!(vm.step_with(&ME, Atom(100)), Err(VMError::OutOfBounds));
    assert!(!vm.next_mints_atom());
}

#[test]
fn integer_to_atom_keeps_the_number() {
    for n in [0u64, 1, 20, 0xffff_ffff, 0x1_0000_0000, u64::MAX - 1, u64::MAX] {
        let mut code = set_integer(17, n);
        code.extend([0x06, 17]);
        let mut vm = VMState::new(&code, (0, code.len()));
        assert_eq!(vm.step_once(&ME), Ok(None));
        assert_eq!(vm.step_once(&ME), Ok(None));
        assert_eq!(vm.registers[17], Value::Atom(Atom(n)));
    }
}

#[test]
fn integer_to_atom_rejects_what_is_no_integer() {
    for value in [
        float(1.0),
        Value::Atom(Atom(1)),
        Value::String("1".to_string()),
        Value::ActorAddr(ActorAddr { addr: 1 }),
    ] {
        let code = [0x06u8, 2];
        let mut vm = VMState::new(&code, (0, 2));
        vm.set_register(2, value.clone());
        assert_eq!(vm.step_once(&ME), Err(VMError::WrongValueType(value.clone())));
        assert_eq!(vm.registers[2], value);
    }
}

#[test]
fn integer_arithmetic_wraps() {
    let cases: [(u8, u64, u64, u64); 9] = [
        (0x10, 2, 3, 5),
        (0x10, u64::MAX, 1, 0),
        (0x10, u64::MAX, u64::MAX, u64::MAX - 1),
        (0x11, 5, 3, 2),
        (0x11, 20, 30, u64::MAX - 9),
        (0x11, 0, u64::MAX, 1),
        (0x12, 6, 7, 42),
        (0x12, 1 << 63, 2, 0),
        (0x12, u64::MAX, u64::MAX, 1),
    ];
    for (op, dest, src, expected) in cases {
        let mut code = set_integer(0, dest);
        code.extend(set_integer(1, src));
        code.extend([op, 0, 1]);
        let mut vm = VMState::new(&code, (0, code.len()));
        assert_eq!(run_all(&mut vm), Ok(Some(IO::Done)));
        assert_eq!(vm.registers[0], Value::Number(expected), "{:#x} {} {}", op, dest, src);
        assert_eq!(vm.registers[1], Value::Number(src));
    }
}

#[test]
fn integer_arithmetic_rejects_what_is_no_integer() {
    let others = [
        float(2.0),
        Value::Atom(Atom(2)),
        Value::String("2".to_string()),
        Value::ActorAddr(ActorAddr { addr: 2 }),
    ];
    for op in [0x10u8, 0x11, 0x12] {
        for other in &others {
            // The destination is no integer.
            let code = [op, 0, 1];
            let mut vm = VMState::new(&code, (0, 3));
            vm.set_register(0, other.clone());
            vm.set_register(1, Value::Number(7));
            assert_eq!(vm.step_once(&ME), Err(VMError::WrongValueType(other.clone())));
            assert_eq!(vm.registers[0], *other);
            // The source is no integer.
            let mut vm = VMState::new(&code, (0, 3));
            vm.set_register(0, Value::Number(7));
            vm.set_register(1, other.clone());
            assert_eq!(vm.step_once(&ME), Err(VMError::WrongValueType(other.clone())));
            assert_eq!(vm.registers[0], Value::Number(7));
        }
    }
}

#[test]
fn the_source_is_examined_before_the_destination() {
    let code = [0x10u8, 0, 1];
    let mut vm = VMState::new(&code, (0, 3));
    vm.set_register(0, Value::Atom(Atom(1)));
    vm.set_register(1, Value::Atom(Atom(2)));
    assert_eq!(vm.step_once(&ME), Err(VMError::WrongValueType(Value::Atom(Atom(2)))));
    let code = [0x20u8, 0, 1];
    let mut vm = VMState::new(&code, (0, 3));
    vm.set_register(0, Value::Number(1));
    vm.set_register(1, Value::Number(2));
    assert_eq!(vm.step_once(&ME), Err(VMError::WrongValueType(Value::Number(2))));
}

#[test]
fn float_arithmetic_is_that_of_the_machine() {
    let operands: [(f64, f64); 17] = [
        (20.5, 29.5),
        (1.0, 3.0),
        (0.1, 0.2),
        (-7.25, 1e300),
        (1e308, 1e308),
        (5e-324, 2.0),
        (1.0, 0.0),
        (-1.0, 0.0),
        (0.0, -0.0),
        (f64::INFINITY, 1.0),
        (f64::MAX, f64::MIN_POSITIVE),
        (123456789.125, -0.000001),
        (f64::INFINITY, f64::INFINITY),
        (f64::NAN, 1.0),
        (4.9e-324, 4.9e-324),
        (2.2250738585072014e-308, 0.5),
        (9007199254740993.0, 3.0),
    ];
    for (a, b) in operands {
        let expected = [(0x20u8, a + b), (0x21, a - b), (0x22, a * b), (0x23, a / b)];
        for (op, result) in expected {
            let mut code = set_float(0, a);
            code.extend(set_float(1, b));
            code.extend([op, 0, 1]);
            let mut vm = VMState::new(&code, (0, code.len()));
            assert_eq!(run_all(&mut vm), Ok(Some(IO::Done)));
            if result.is_nan() {
                // Which of the bit patterns of "not a number" comes out is
                // the library's own choice.
                match vm.registers[0] {
                    Value::Float(bits) => assert!(f64::from_bits(bits).is_nan()),
                    ref other => panic!("{:#x} {} {} gave {:?}", op, a, b, other),
                }
            } else {
                assert_eq!(vm.registers[0], float(result), "{:#x} {} {}", op, a, b);
            }
            assert_eq!(vm.registers[1], float(b));
        }
    }
}

#[test]
fn float_arithmetic_rejects_what_is_no_float() {
    let others = [
        Value::Number(2),
        Value::Atom(Atom(2)),
        Value::String("2".to_string()),
        Value::ActorAddr(ActorAddr { addr: 2 }),
    ];
    for op in [0x20u8, 0x21, 0x22, 0x23] {
        for other in &others {
            let code = [op, 0, 1];
            let mut vm = VMState::new(&code, (0, 3));
            vm.set_register(0, other.clone());
            vm.set_register(1, float(7.0));
            assert_eq!(vm.step_once(&ME), Err(VMError::WrongValueType(other.clone())));
            assert_eq!(vm.registers[0], *other);
            let mut vm = VMState::new(&code, (0, 3));
            vm.set_register(0, float(7.0));
            vm.set_register(1, other.clone());
            assert_eq!(vm.step_once(&ME), Err(VMError::WrongValueType(other.clone())));
            assert_eq!(vm.registers[0], float(7.0));
        }
    }
}

#[test]
fn send_message_needs_an_address_and_an_atom() {
    let mut code = vec![0x80u8, 0, 0, 1];
    code.extend(word(0));
    let mut vm = VMState::new(&code, (0, code.len()));
    assert_eq!(vm.step_once(&ME), Err(VMError::WrongValueType(Value::Number(0))));
    let mut vm = VMState::new(&code, (0, code.len()));
    vm.set_register(0, Value::ActorAddr(ActorAddr { addr: 5 }));
    vm.set_register(1, Value::String("no atom".to_string()));
    assert_eq!(
        vm.step_once(&ME),
        Err(VMError::WrongValueType(Value::String("no atom".to_string())))
    );
    let mut vm = VMState::new(&code, (0, code.len()));
    vm.set_register(0, Value::ActorAddr(ActorAddr { addr: 5 }));
    vm.set_register(1, Value::Atom(Atom(6)));
    assert_eq!(
        vm.step_once(&ME),
        Ok(Some(IO::SendMessage { to: ActorAddr { addr: 5 }, atom: Atom(6), values: vec![] }))
    );
    assert_eq!(vm.step_once(&ME), Ok(Some(IO::Done)));
}

#[test]
fn send_message_reports_a_wrong_target_before_a_short_program() {
    // The target register holds no address, and the instruction is cut short.
    let code = [0x80u8, 0];
    let mut vm = VMState::new(&code, (0, 2));
    assert_eq!(vm.step_once(&ME), Err(VMError::WrongValueType(Value::Number(0))));
}

#[test]
fn send_message_does_not_read_the_delay_register() {
    let mut code = vec![0x80u8, 0, 77, 1];
    code.extend(word(1));
    code.push(2);
    let mut vm = VMState::new(&code, (0, code.len()));
    vm.set_register(0, Value::ActorAddr(ActorAddr { addr: 5 }));
    vm.set_register(1, Value::Atom(Atom(6)));
    vm.set_register(2, Value::String("text".to_string()));
    vm.set_register(77, Value::String("no delay".to_string()));
    assert_eq!(
        vm.step_once(&ME),
        Ok(Some(IO::SendMessage {
            to: ActorAddr { addr: 5 },
            atom: Atom(6),
            values: vec![Value::String("text".to_string())],
        }))
    );
}

#[test]
fn send_message_with_more_arguments_than_bytes_is_out_of_bounds() {
    for count in [3u64, 1000, u64::MAX] {
        let mut code = vec![0x80u8, 0, 0, 1];
        code.extend(word(count));
        code.extend([2, 3]);
        let mut vm = VMState::new(&code, (0, code.len()));
        vm.set_register(0, Value::ActorAddr(ActorAddr { addr: 5 }));
        vm.set_register(1, Value::Atom(Atom(6)));
        assert_eq!(vm.step_once(&ME), Err(VMError::OutOfBounds));
        // The failed instruction took the rest of the program.
        assert_eq!(vm.step_once(&ME), Ok(Some(IO::Done)));
    }
}

#[test]
fn send_message_that_ends_early_is_out_of_bounds() {
    let mut code = vec![0x80u8, 0, 0, 1];
    code.extend(word(2));
    code.extend([2, 3]);
    for len in 2..code.len() {
        let mut vm = VMState::new(&code, (0, len));
        vm.set_register(0, Value::ActorAddr(ActorAddr { addr: 5 }));
        vm.set_register(1, Value::Atom(Atom(6)));
        assert_eq!(vm.step_once(&ME), Err(VMError::OutOfBounds), "length {}", len);
    }
}

#[test]
fn add_handler_takes_presets_from_registers() {
    let mut code = vec![0x81u8, 9];
    code.extend(word(3));
    code.extend(word(3));
    code.extend([0, 10, 255, 11, 0, 12]);
    let mut vm = VMState::new(&code, (0, code.len()));
    vm.set_register(9, Value::Atom(Atom(1234)));
    vm.set_register(10, Value::String("first".to_string()));
    vm.set_register(11, float(0.5));
    assert_eq!(
        vm.step_once(&ME),
        Ok(Some(IO::AddHandler {
            atom: Atom(1234),
            program: 3,
            presets: vec![
                (0, Value::String("first".to_string())),
                (255, float(0.5)),
                (0, Value::Number(0)),
            ],
        }))
    );
    assert_eq!(vm.step_once(&ME), Ok(Some(IO::Done)));
}

#[test]
fn add_handler_needs_an_atom() {
    let mut code = vec![0x81u8, 9];
    code.extend(word(3));
    code.extend(word(0));
    let mut vm = VMState::new(&code, (0, code.len()));
    vm.set_register(9, Value::Number(1234));
    assert_eq!(vm.step_once(&ME), Err(VMError::WrongValueType(Value::Number(1234))));
}

#[test]
fn add_handler_that_ends_early_is_out_of_bounds() {
    let mut code = vec![0x81u8, 9];
    code.extend(word(3));
    code.extend(word(2));
    code.extend([1, 1, 2, 2]);
    for len in 2..code.len() {
        let mut vm = VMState::new(&code, (0, len));
        vm.set_register(9, Value::Atom(Atom(1)));
        assert_eq!(vm.step_once(&ME), Err(VMError::OutOfBounds), "length {}", len);
    }
    let mut vm = VMState::new(&code, (0, code.len()));
    vm.set_register(9, Value::Atom(Atom(1)));
    assert!(matches!(vm.step_once(&ME), Ok(Some(IO::AddHandler { .. }))));
}

#[test]
fn remove_handler_needs_an_atom() {
    let code = [0x82u8, 1];
    let mut vm = VMState::new(&code, (0, 2));
    assert_eq!(vm.step_once(&ME), Err(VMError::WrongValueType(Value::Number(0))));
    let mut vm = VMState::new(&code, (0, 2));
    vm.set_register(1, Value::Atom(Atom(8)));
    assert_eq!(vm.step_once(&ME), Ok(Some(IO::RemoveHandler { atom: Atom(8) })));
}

#[test]
fn a_failed_step_fails_again_at_the_same_place() {
    // integer_to_atom r5 on an address fails after it has read its operand,
    // and the next step starts behind it.
    let mut code = vec![0x06u8, 5];
    code.extend(set_integer(1, 3));
    let mut vm = VMState::new(&code, (0, code.len()));
    vm.set_register(5, Value::ActorAddr(ActorAddr { addr: 1 }));
    assert!(matches!(vm.step_once(&ME), Err(VMError::WrongValueType(_))));
    assert_eq!(vm.step_once(&ME), Ok(None));
    assert_eq!(vm.registers[1], Value::Number(3));
}

#[test]
fn registers_without_preset_or_argument_stay_zero() {
    let code = [0u8; 0];
    let mut vm = VMState::new(&code, (0, 0));
    let presets = vec![(7, Value::Atom(Atom(1))), (200, Value::Number(5))];
    vm.load_registers(&presets, vec![Value::Number(10), Value::Number(11)]);
    for reg in 0..256 {
        let expected = match reg {
            0 => Value::Number(10),
            1 => Value::Number(11),
            7 => Value::Atom(Atom(1)),
            200 => Value::Number(5),
            _ => Value::Number(0),
        };
        assert_eq!(vm.registers[reg], expected, "register {}", reg);
    }
}

#[test]
fn an_argument_takes_the_place_of_a_preset() {
    let code = [0u8; 0];
    let mut vm = VMState::new(&code, (0, 0));
    let presets = vec![
        (0, Value::Atom(Atom(1))),
        (1, Value::Atom(Atom(2))),
        (2, Value::Atom(Atom(3))),
    ];
    vm.load_registers(&presets, vec![Value::Number(10), Value::Number(11)]);
    assert_eq!(vm.registers[0], Value::Number(10));
    assert_eq!(vm.registers[1], Value::Number(11));
    assert_eq!(vm.registers[2], Value::Atom(Atom(3)));
}

#[test]
fn the_last_preset_for_a_register_counts() {
    let code = [0u8; 0];
    let mut vm = VMState::new(&code, (0, 0));
    let presets = vec![(9, Value::Number(1)), (9, Value::Number(2))];
    vm.load_registers(&presets, vec![]);
    assert_eq!(vm.registers[9], Value::Number(2));
}

#[test]
fn arguments_beyond_the_last_register_are_dropped() {
    let code = [0u8; 0];
    let mut vm = VMState::new(&code, (0, 0));
    let args: Vec<Value> = (0..300).map(|i| Value::Number(i + 1)).collect();
    vm.load_registers(&vec![], args);
    assert_eq!(vm.registers.len(), 256);
    assert_eq!(vm.registers[0], Value::Number(1));
    assert_eq!(vm.registers[255], Value::Number(256));
}
