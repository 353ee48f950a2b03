use dactor::messages::{ActorAddr, Atom, Value};
use dactor::vm::interpreter::VMState;
use dactor::vm::types::{IOState, VMError, IO};

// set_self_addr r0
// set_integer r1 50
// integer_to_atom r1
// set_integer r2 69
// set_integer r3 420
// send_message r0 r0 r1 2 r2 r3
const SEND: [u8; 48] = [
    0x00, 0x00,
    0x02, 0x01, 0x32, 0x00, 0x00, 0x00, 0x00, 0x00, 0x00, 0x00,
    0x06, 0x01,
    0x02, 0x02, 0x45, 0x00, 0x00, 0x00, 0x00, 0x00, 0x00, 0x00,
    0x02, 0x03, 0xa4, 0x01, 0x00, 0x00, 0x00, 0x00, 0x00, 0x00,
    0x80, 0x00, 0x00, 0x01, 0x02, 0x00, 0x00, 0x00, 0x00, 0x00, 0x00, 0x00, 0x02, 0x03,
];

// set_integer r0 400
// integer_to_atom r0
// set_integer r1 20
// set_integer r2 30
// add_handler r0 43 2 (1 r1) (2 r2)
// remove_handler r0
const SELF_MODIFIER: [u8; 56] = [
    0x02, 0x00, 0x90, 0x01, 0x00, 0x00, 0x00, 0x00, 0x00, 0x00,
    0x06, 0x00,
    0x02, 0x01, 0x14, 0x00, 0x00, 0x00, 0x00, 0x00, 0x00, 0x00,
    0x02, 0x02, 0x1e, 0x00, 0x00, 0x00, 0x00, 0x00, 0x00, 0x00,
    0x81, 0x00,
    0x2b, 0x00, 0x00, 0x00, 0x00, 0x00, 0x00, 0x00,
    0x02, 0x00, 0x00, 0x00, 0x00, 0x00, 0x00, 0x00,
    0x01, 0x01, 0x02, 0x02,
    0x82, 0x00,
];

#[test]
fn mod_test_send_message() {
    let code = &SEND as &[u8];

    let io_state = IOState {
        self_addr: ActorAddr::random(),
    };
    let mut vm = VMState::new(code, (0, code.len()));

    let mut sent = 0;
    for _ in 0..1000 {
        // limit after 1000 cycles
        match vm.step_once(&io_state) {
            Ok(None) => continue,
            Ok(Some(IO::Done)) => break,
            Ok(Some(IO::SendMessage { to, atom, values })) => {
                assert_eq!(to, io_state.self_addr);
                assert_eq!(atom, Atom(50));
                assert_eq!(values, vec![Value::Number(69), Value::Number(420)]);
                sent += 1;
            }
            Ok(Some(io)) => {
                assert!(false, "Unexpected IO: {:?}", io);
            }
            Err(err) => {
                assert!(false, "Unexpected error: {:?}", err);
            }
        }
    }
    assert_eq!(sent, 1);
}

#[test]
fn mod_test_self_modifier() {
    let code = &SELF_MODIFIER as &[u8];

    let io_state = IOState {
        self_addr: ActorAddr::random(),
    };
    let mut vm = VMState::new(code, (0, code.len()));

    let mut added = 0;
    let mut removed = 0;
    for _ in 0..1000 {
        // limit after 1000 cycles
        match vm.step_once(&io_state) {
            Ok(None) => continue,
            Ok(Some(IO::Done)) => continue,
            Ok(Some(IO::AddHandler {
                atom,
                program,
                presets,
            })) => {
                assert_eq!(atom, Atom(400));
                assert_eq!(program, 43);
                assert_eq!(
                    presets,
                    vec![(1, Value::Number(20)), (2, Value::Number(30)),]
                );
                added += 1;
            }
            Ok(Some(IO::RemoveHandler { atom })) => {
                assert_eq!(atom, Atom(400));
                removed += 1;
            }
            Ok(Some(io)) => {
                assert!(false, "Unexpected IO: {:?}", io);
            }
            Err(err) => {
                assert!(false, "Unexpected error: {:?}", err);
            }
        }
    }
    assert_eq!((added, removed), (1, 1));
}

#[test]
fn mod_test_intops() {
    // set_integer r0 20
    // set_integer r1 30
    // add_int r0 r1
    // mul_int r0 r0
    // sub_int r1 r1
    let code = &[
        0x02, 0x00, 0x14, 0x00, 0x00, 0x00, 0x00, 0x00, 0x00, 0x00,
        0x02, 0x01, 0x1e, 0x00, 0x00, 0x00, 0x00, 0x00, 0x00, 0x00,
        0x10, 0x00, 0x01,
        0x12, 0x00, 0x00,
        0x11, 0x01, 0x01,
    ];
    let io_state = IOState {
        self_addr: ActorAddr::random(),
    };
    let mut vm = VMState::new(code, (0, code.len()));

    // set_integer r0 20
    // set_integer r1 30
    assert_eq!(vm.step_once(&io_state), Ok(None));
    assert_eq!(vm.step_once(&io_state), Ok(None));

    assert_eq!(
        (&vm.registers[0], &vm.registers[1]),
        (&Value::Number(20), &Value::Number(30)),
    );

    // add_int r0 r1
    assert_eq!(vm.step_once(&io_state), Ok(None));
    assert_eq!(
        (&vm.registers[0], &vm.registers[1]),
        (&Value::Number(50), &Value::Number(30)),
    );

    // mul_int r0 r0
    assert_eq!(vm.step_once(&io_state), Ok(None));
    assert_eq!(
        (&vm.registers[0], &vm.registers[1]),
        (&Value::Number(2500), &Value::Number(30)),
    );

    // sub_int r1 r1
    assert_eq!(vm.step_once(&io_state), Ok(None));
    assert_eq!(
        (&vm.registers[0], &vm.registers[1]),
        (&Value::Number(2500), &Value::Number(0)),
    );
}

#[test]
fn mod_test_setters() {
    // set_self_addr r5
    // set_integer r3 20
    // copy r4 r3
    // integer_to_atom r3
    // integer_to_atom r5 ; type error!
    let code = &[
        0x00, 0x05,
        0x02, 0x03, 0x14, 0x00, 0x00, 0x00, 0x00, 0x00, 0x00, 0x00,
        0x04, 0x04, 0x03,
        0x06, 0x03,
        0x06, 0x05,
    ];
    let io_state = IOState {
        self_addr: ActorAddr::random(),
    };
    let mut vm = VMState::new(code, (0, code.len()));

    // set_self_addr r5
    assert_eq!(vm.step_once(&io_state), Ok(None));
    assert_eq!(vm.registers[5], Value::ActorAddr(io_state.self_addr));

    // set_integer r3 20
    assert_eq!(vm.step_once(&io_state), Ok(None));
    assert_eq!(vm.registers[3], Value::Number(20));

    // copy r4 r3
    assert_eq!(vm.step_once(&io_state), Ok(None));
    assert_eq!(vm.registers[4], vm.registers[3]);
    assert_eq!(vm.registers[4], Value::Number(20));

    // integer_to_atom r3
    assert_eq!(vm.step_once(&io_state), Ok(None));
    assert_eq!(vm.registers[3], Value::Atom(Atom(20)));

    // integer_to_atom r5
    assert_eq!(
        vm.step_once(&io_state),
        Err(VMError::WrongValueType(Value::ActorAddr(
            io_state.self_addr
        )))
    );
}
