//! The register machine: one instruction per step, at most one effect per
//! step.

use vstd::prelude::*;
use crate::messages::{ActorAddr, Atom, Value};
use crate::vm::floats::{
    float_add, float_difference, float_div, float_mul, float_product, float_quotient, float_sub,
    float_sum,
};
use crate::vm::types::{effect_view, IOState, IOView, VMError, IO};
use crate::vm::wire::{le_bytes, le_u64, lemma_le_round_trip, word_at};

verus! {

/// How many registers a machine has.
pub const REGISTER_COUNT: usize = 256;

/// `set_self_addr reg`: reg <- the address of the actor that runs.
pub const OP_SET_SELF_ADDR: u8 = 0x00;

/// `set_float reg, word`: reg <- the float whose bits the word holds.
pub const OP_SET_FLOAT: u8 = 0x01;

/// `set_integer reg, word`: reg <- the integer that the word holds.
pub const OP_SET_INTEGER: u8 = 0x02;

/// `copy dest, src`: dest <- src.
pub const OP_COPY: u8 = 0x04;

/// `generate_atom reg`: reg <- a freshly minted atom.
pub const OP_GENERATE_ATOM: u8 = 0x05;

/// `integer_to_atom reg`: reg <- the atom of the integer in reg.
pub const OP_INTEGER_TO_ATOM: u8 = 0x06;

/// `add_int dest, src`: dest <- dest + src, on integers.
pub const OP_ADD_INT: u8 = 0x10;

/// `sub_int dest, src`: dest <- dest - src, on integers.
pub const OP_SUB_INT: u8 = 0x11;

/// `mul_int dest, src`: dest <- dest * src, on integers.
pub const OP_MUL_INT: u8 = 0x12;

/// `add_float dest, src`: dest <- dest + src, on floats.
pub const OP_ADD_FLOAT: u8 = 0x20;

/// `sub_float dest, src`: dest <- dest - src, on floats.
pub const OP_SUB_FLOAT: u8 = 0x21;

/// `mul_float dest, src`: dest <- dest * src, on floats.
pub const OP_MUL_FLOAT: u8 = 0x22;

/// `div_float dest, src`: dest <- dest / src, on floats.
pub const OP_DIV_FLOAT: u8 = 0x23;

/// `send_message to, delay, atom, count, args`: yields a message to send.
pub const OP_SEND_MESSAGE: u8 = 0x80;

/// `add_handler atom, program, count, presets`: yields a handler to bind.
pub const OP_ADD_HANDLER: u8 = 0x81;

/// `remove_handler atom`: yields an atom to unbind.
pub const OP_REMOVE_HANDLER: u8 = 0x82;

/// A machine as a mathematical value: the code it reads, where it stands,
/// where its program ends, and what its registers hold.
pub struct VMView {
    pub code: Seq<u8>,
    pub ip: int,
    pub end: int,
    pub regs: Seq<Value>,
}

/// What one step comes to: its result, and where it leaves the machine.
pub struct StepView {
    pub result: Result<Option<IOView>, VMError>,
    pub ip: int,
    pub regs: Seq<Value>,
}

/// The result of a step as a mathematical value.
pub open spec fn result_view(result: Result<Option<IO>, VMError>) -> Result<Option<IOView>, VMError> {
    match result {
        Ok(effect) => Ok(effect_view(effect)),
        Err(e) => Err(e),
    }
}

/// The registers of a machine that has not run yet.
pub open spec fn zeroed_registers() -> Seq<Value> {
    Seq::new(REGISTER_COUNT as nat, |i: int| Value::Number(0))
}

/// Registers with `presets` written into them, the first preset first.
pub open spec fn with_presets(regs: Seq<Value>, presets: Seq<(u8, Value)>) -> Seq<Value>
    decreases presets.len(),
{
    if presets.len() == 0 {
        regs
    } else {
        with_presets(regs, presets.drop_last()).update(
            presets.last().0 as int,
            presets.last().1,
        )
    }
}

/// Registers with `args` written into registers 0, 1, 2 and so on, as far as
/// there are registers.
pub open spec fn with_arguments(regs: Seq<Value>, args: Seq<Value>) -> Seq<Value> {
    Seq::new(
        regs.len(),
        |i: int|
            if i < args.len() {
                args[i]
            } else {
                regs[i]
            },
    )
}

/// The registers that a handler starts with: all at `Number(0)`, then the
/// presets written, then the arguments of the message.
pub open spec fn initial_registers(presets: Seq<(u8, Value)>, args: Seq<Value>) -> Seq<Value> {
    with_arguments(with_presets(zeroed_registers(), presets), args)
}

/// What an integer instruction leaves in its destination: the sum, the
/// difference or the product, reduced modulo 2^64.
pub open spec fn int_result(op: u8, dest: u64, src: u64) -> u64 {
    if op == OP_ADD_INT {
        ((dest + src) % 0x1_0000_0000_0000_0000) as u64
    } else if op == OP_SUB_INT {
        ((dest - src) % 0x1_0000_0000_0000_0000) as u64
    } else {
        ((dest * src) % 0x1_0000_0000_0000_0000) as u64
    }
}

/// What a float instruction leaves in its destination, as bits.
pub open spec fn float_result(op: u8, dest: u64, src: u64) -> u64 {
    if op == OP_ADD_FLOAT {
        float_sum(dest, src)
    } else if op == OP_SUB_FLOAT {
        float_difference(dest, src)
    } else if op == OP_MUL_FLOAT {
        float_product(dest, src)
    } else {
        float_quotient(dest, src)
    }
}

impl VMView {
    /// The program lies within the code, the machine stands within the
    /// program, and there are 256 registers.
    pub open spec fn wf(self) -> bool {
        &&& 0 <= self.ip <= self.end <= self.code.len()
        &&& self.regs.len() == REGISTER_COUNT
    }

    /// Whether the program still holds `n` bytes from position `at` on.
    pub open spec fn has(self, at: int, n: int) -> bool {
        at + n <= self.end
    }

    /// The word that starts at `at`.
    pub open spec fn word(self, at: int) -> u64 {
        le_u64(self.code.subrange(at, at + 8))
    }

    /// What the register holds that the byte at `at` names.
    pub open spec fn reg(self, at: int) -> Value {
        self.regs[self.code[at] as int]
    }

    /// A step that fails with `error`, having read up to `at`.
    pub open spec fn fail(self, at: int, error: VMError) -> StepView {
        StepView { result: Err(error), ip: at, regs: self.regs }
    }

    /// A step that finds the program at its end when it needs the bytes at
    /// `at`.
    pub open spec fn out_of_bounds(self, at: int) -> StepView {
        self.fail(at, VMError::OutOfBounds)
    }

    /// A step without effect that puts `value` into the register that the byte
    /// at `at` names, and goes on at `next`.
    pub open spec fn store(self, at: int, value: Value, next: int) -> StepView {
        StepView { result: Ok(None), ip: next, regs: self.regs.update(self.code[at] as int, value) }
    }

    /// A step that yields `effect` and goes on at `next`.
    pub open spec fn emit(self, effect: IOView, next: int) -> StepView {
        StepView { result: Ok(Some(effect)), ip: next, regs: self.regs }
    }

    /// `set_self_addr` and `generate_atom`, operand at `p`: reg <- `value`.
    pub open spec fn set_register(self, p: int, value: Value) -> StepView {
        if !self.has(p, 1) {
            self.out_of_bounds(p)
        } else {
            self.store(p, value, p + 1)
        }
    }

    /// `set_float` and `set_integer`, operands at `p`: reg <- the literal
    /// word that follows the register byte.
    pub open spec fn set_literal(self, p: int, float: bool) -> StepView {
        if !self.has(p, 1) {
            self.out_of_bounds(p)
        } else if !self.has(p + 1, 8) {
            self.out_of_bounds(p + 1)
        } else if float {
            self.store(p, Value::Float(self.word(p + 1)), p + 9)
        } else {
            self.store(p, Value::Number(self.word(p + 1)), p + 9)
        }
    }

    /// `copy`, operands at `p`: dest <- src.
    pub open spec fn copy(self, p: int) -> StepView {
        if !self.has(p, 1) {
            self.out_of_bounds(p)
        } else if !self.has(p + 1, 1) {
            self.out_of_bounds(p + 1)
        } else {
            self.store(p, self.reg(p + 1), p + 2)
        }
    }

    /// `integer_to_atom`, operand at `p`: the integer in reg becomes the atom
    /// of that number.
    pub open spec fn integer_to_atom(self, p: int) -> StepView {
        if !self.has(p, 1) {
            self.out_of_bounds(p)
        } else {
            match self.reg(p) {
                Value::Number(n) => self.store(p, Value::Atom(Atom(n)), p + 1),
                other => self.fail(p + 1, VMError::WrongValueType(other)),
            }
        }
    }

    /// `add_int`, `sub_int` and `mul_int`, operands at `p`: dest <- dest op
    /// src. The source is examined before the destination.
    pub open spec fn int_op(self, op: u8, p: int) -> StepView {
        if !self.has(p, 1) {
            self.out_of_bounds(p)
        } else if !self.has(p + 1, 1) {
            self.out_of_bounds(p + 1)
        } else {
            match self.reg(p + 1) {
                Value::Number(src) => match self.reg(p) {
                    Value::Number(dest) => self.store(
                        p,
                        Value::Number(int_result(op, dest, src)),
                        p + 2,
                    ),
                    other => self.fail(p + 2, VMError::WrongValueType(other)),
                },
                other => self.fail(p + 2, VMError::WrongValueType(other)),
            }
        }
    }

    /// `add_float`, `sub_float`, `mul_float` and `div_float`, operands at `p`:
    /// dest <- dest op src. The source is examined before the destination.
    pub open spec fn float_op(self, op: u8, p: int) -> StepView {
        if !self.has(p, 1) {
            self.out_of_bounds(p)
        } else if !self.has(p + 1, 1) {
            self.out_of_bounds(p + 1)
        } else {
            match self.reg(p + 1) {
                Value::Float(src) => match self.reg(p) {
                    Value::Float(dest) => self.store(
                        p,
                        Value::Float(float_result(op, dest, src)),
                        p + 2,
                    ),
                    other => self.fail(p + 2, VMError::WrongValueType(other)),
                },
                other => self.fail(p + 2, VMError::WrongValueType(other)),
            }
        }
    }

    /// The values of the `n` registers that the bytes from `at` on name.
    pub open spec fn arguments(self, at: int, n: int) -> Seq<Value> {
        Seq::new(n as nat, |i: int| self.reg(at + i))
    }

    /// The `n` presets that the byte pairs from `at` on spell: the register to
    /// preset, then the register whose value it gets.
    pub open spec fn presets(self, at: int, n: int) -> Seq<(u8, Value)> {
        Seq::new(n as nat, |i: int| (self.code[at + 2 * i], self.reg(at + 2 * i + 1)))
    }

    /// `send_message`, operands at `p`: the register of the target, a reserved
    /// byte, the register of the atom, the number of arguments, and one
    /// register for each argument.
    pub open spec fn send_message(self, p: int) -> StepView {
        if !self.has(p, 1) {
            self.out_of_bounds(p)
        } else {
            match self.reg(p) {
                Value::ActorAddr(to) => if !self.has(p + 1, 1) {
                    self.out_of_bounds(p + 1)
                } else if !self.has(p + 2, 1) {
                    self.out_of_bounds(p + 2)
                } else {
                    match self.reg(p + 2) {
                        Value::Atom(atom) => if !self.has(p + 3, 8) {
                            self.out_of_bounds(p + 3)
                        } else if !self.has(p + 11, self.word(p + 3) as int) {
                            self.out_of_bounds(self.end)
                        } else {
                            self.emit(
                                IOView::SendMessage {
                                    to,
                                    atom,
                                    values: self.arguments(p + 11, self.word(p + 3) as int),
                                },
                                p + 11 + self.word(p + 3),
                            )
                        },
                        other => self.fail(p + 3, VMError::WrongValueType(other)),
                    }
                },
                other => self.fail(p + 1, VMError::WrongValueType(other)),
            }
        }
    }

    /// `add_handler`, operands at `p`: the register of the atom, the number of
    /// the program, the number of presets, and one byte pair for each preset.
    pub open spec fn add_handler(self, p: int) -> StepView {
        if !self.has(p, 1) {
            self.out_of_bounds(p)
        } else {
            match self.reg(p) {
                Value::Atom(atom) => if !self.has(p + 1, 8) {
                    self.out_of_bounds(p + 1)
                } else if !self.has(p + 9, 8) {
                    self.out_of_bounds(p + 9)
                } else if !self.has(p + 17, 2 * self.word(p + 9)) {
                    self.out_of_bounds(self.end)
                } else {
                    self.emit(
                        IOView::AddHandler {
                            atom,
                            program: self.word(p + 1),
                            presets: self.presets(p + 17, self.word(p + 9) as int),
                        },
                        p + 17 + 2 * self.word(p + 9),
                    )
                },
                other => self.fail(p + 1, VMError::WrongValueType(other)),
            }
        }
    }

    /// `remove_handler`, operand at `p`: the register of the atom.
    pub open spec fn remove_handler(self, p: int) -> StepView {
        if !self.has(p, 1) {
            self.out_of_bounds(p)
        } else {
            match self.reg(p) {
                Value::Atom(atom) => self.emit(IOView::RemoveHandler { atom }, p + 1),
                other => self.fail(p + 1, VMError::WrongValueType(other)),
            }
        }
    }

    /// The instruction with opcode `op`, operands at `p`.
    pub open spec fn execute(self, op: u8, p: int, self_addr: ActorAddr, fresh: Atom) -> StepView {
        if op == OP_SET_SELF_ADDR {
            self.set_register(p, Value::ActorAddr(self_addr))
        } else if op == OP_SET_FLOAT {
            self.set_literal(p, true)
        } else if op == OP_SET_INTEGER {
            self.set_literal(p, false)
        } else if op == OP_COPY {
            self.copy(p)
        } else if op == OP_GENERATE_ATOM {
            self.set_register(p, Value::Atom(fresh))
        } else if op == OP_INTEGER_TO_ATOM {
            self.integer_to_atom(p)
        } else if op == OP_ADD_INT || op == OP_SUB_INT || op == OP_MUL_INT {
            self.int_op(op, p)
        } else if op == OP_ADD_FLOAT || op == OP_SUB_FLOAT || op == OP_MUL_FLOAT || op
            == OP_DIV_FLOAT {
            self.float_op(op, p)
        } else if op == OP_SEND_MESSAGE {
            self.send_message(p)
        } else if op == OP_ADD_HANDLER {
            self.add_handler(p)
        } else if op == OP_REMOVE_HANDLER {
            self.remove_handler(p)
        } else {
            self.fail(p, VMError::NoSuchInstruction(op))
        }
    }

    /// One step of the machine. At the end of the program the step is `Done`
    /// and changes nothing; before it, the step is the instruction at `ip`.
    /// `fresh` is the atom that `generate_atom` mints, should the instruction
    /// be one.
    pub open spec fn step(self, self_addr: ActorAddr, fresh: Atom) -> StepView {
        if self.ip >= self.end {
            self.emit(IOView::Done, self.ip)
        } else {
            self.execute(self.code[self.ip], self.ip + 1, self_addr, fresh)
        }
    }

    /// Whether the next step mints an atom.
    pub open spec fn mints_atom(self) -> bool {
        self.ip < self.end && self.code[self.ip] == OP_GENERATE_ATOM
    }

    /// The machine after a step.
    pub open spec fn after(self, step: StepView) -> VMView {
        VMView { code: self.code, ip: step.ip, end: self.end, regs: step.regs }
    }
}

/// Whether a machine that stood at `before` and is left at `after`, with
/// `result` handed out, has made the step `step`.
pub open spec fn steps_to(
    before: VMView,
    step: StepView,
    result: Result<Option<IO>, VMError>,
    after: VMView,
) -> bool {
    result_view(result) == step.result && after == before.after(step)
}

/// A register that no preset names and no argument reaches starts a run at
/// `Number(0)`.
pub proof fn lemma_untouched_register_is_zero(
    presets: Seq<(u8, Value)>,
    args: Seq<Value>,
    reg: int,
)
    requires
        0 <= reg < REGISTER_COUNT,
        args.len() <= reg,
        forall|k: int| 0 <= k < presets.len() ==> presets[k].0 != reg,
    ensures
        initial_registers(presets, args)[reg] == Value::Number(0),
{
    lemma_presets_keep_other_registers(zeroed_registers(), presets, reg);
}

/// A register that an argument of the message reaches starts a run with
/// that argument, whatever the presets say of it.
pub proof fn lemma_argument_overrides_preset(
    presets: Seq<(u8, Value)>,
    args: Seq<Value>,
    reg: int,
)
    requires
        0 <= reg < REGISTER_COUNT,
        reg < args.len(),
    ensures
        initial_registers(presets, args)[reg] == args[reg],
{
    lemma_presets_keep_length(zeroed_registers(), presets);
}

/// A register that no argument reaches starts a run with the value of the
/// last preset that names it.
pub proof fn lemma_preset_reaches_register(
    presets: Seq<(u8, Value)>,
    args: Seq<Value>,
    k: int,
)
    requires
        0 <= k < presets.len(),
        args.len() <= presets[k].0,
        forall|j: int| k < j < presets.len() ==> presets[j].0 != presets[k].0,
    ensures
        initial_registers(presets, args)[presets[k].0 as int] == presets[k].1,
    decreases presets.len(),
{
    lemma_presets_keep_length(zeroed_registers(), presets);
    lemma_presets_keep_length(zeroed_registers(), presets.drop_last());
    if k < presets.len() - 1 {
        lemma_preset_reaches_register(presets.drop_last(), args, k);
    }
}

/// Presets leave the number of registers as it is.
pub proof fn lemma_presets_keep_length(regs: Seq<Value>, presets: Seq<(u8, Value)>)
    requires
        regs.len() == REGISTER_COUNT,
    ensures
        with_presets(regs, presets).len() == regs.len(),
    decreases presets.len(),
{
    if presets.len() > 0 {
        lemma_presets_keep_length(regs, presets.drop_last());
    }
}

/// Presets leave a register that none of them names as it is.
pub proof fn lemma_presets_keep_other_registers(
    regs: Seq<Value>,
    presets: Seq<(u8, Value)>,
    reg: int,
)
    requires
        regs.len() == REGISTER_COUNT,
        0 <= reg < regs.len(),
        forall|k: int| 0 <= k < presets.len() ==> presets[k].0 != reg,
    ensures
        with_presets(regs, presets).len() == regs.len(),
        with_presets(regs, presets)[reg] == regs[reg],
    decreases presets.len(),
{
    if presets.len() > 0 {
        lemma_presets_keep_other_registers(regs, presets.drop_last(), reg);
    }
}

/// Integer arithmetic on a register that holds no integer fails with
/// `WrongValueType`: with the value of the source where that is no integer,
/// else with the value of the destination.
pub proof fn lemma_int_op_needs_integers(vm: VMView, self_addr: ActorAddr, fresh: Atom)
    requires
        vm.wf(),
        vm.has(vm.ip, 3),
        vm.code[vm.ip] == OP_ADD_INT || vm.code[vm.ip] == OP_SUB_INT || vm.code[vm.ip]
            == OP_MUL_INT,
        !(vm.reg(vm.ip + 1) is Number) || !(vm.reg(vm.ip + 2) is Number),
    ensures
        vm.step(self_addr, fresh).result == Err::<Option<IOView>, VMError>(
            VMError::WrongValueType(
                if vm.reg(vm.ip + 2) is Number {
                    vm.reg(vm.ip + 1)
                } else {
                    vm.reg(vm.ip + 2)
                },
            ),
        ),
        vm.step(self_addr, fresh).regs == vm.regs,
{
}

/// Float arithmetic on a register that holds no float fails with
/// `WrongValueType`: with the value of the source where that is no float,
/// else with the value of the destination.
pub proof fn lemma_float_op_needs_floats(vm: VMView, self_addr: ActorAddr, fresh: Atom)
    requires
        vm.wf(),
        vm.has(vm.ip, 3),
        vm.code[vm.ip] == OP_ADD_FLOAT || vm.code[vm.ip] == OP_SUB_FLOAT || vm.code[vm.ip]
            == OP_MUL_FLOAT || vm.code[vm.ip] == OP_DIV_FLOAT,
        !(vm.reg(vm.ip + 1) is Float) || !(vm.reg(vm.ip + 2) is Float),
    ensures
        vm.step(self_addr, fresh).result == Err::<Option<IOView>, VMError>(
            VMError::WrongValueType(
                if vm.reg(vm.ip + 2) is Float {
                    vm.reg(vm.ip + 1)
                } else {
                    vm.reg(vm.ip + 2)
                },
            ),
        ),
        vm.step(self_addr, fresh).regs == vm.regs,
{
}

/// `set_integer reg, n` and then `integer_to_atom reg` leave in `reg` the
/// atom of the number `n`, for every `n`.
pub proof fn lemma_integer_to_atom_round_trip(
    vm: VMView,
    self_addr: ActorAddr,
    fresh: Atom,
    reg: u8,
    n: u64,
)
    requires
        vm.wf(),
        vm.has(vm.ip, 12),
        vm.code.subrange(vm.ip, vm.ip + 12) == seq![OP_SET_INTEGER, reg] + le_bytes(n)
            + seq![OP_INTEGER_TO_ATOM, reg],
    ensures
        ({
            let first = vm.step(self_addr, fresh);
            let second = vm.after(first).step(self_addr, fresh);
            &&& first.result == Ok::<Option<IOView>, VMError>(None)
            &&& first.regs[reg as int] == Value::Number(n)
            &&& second.result == Ok::<Option<IOView>, VMError>(None)
            &&& second.regs[reg as int] == Value::Atom(Atom(n))
            &&& second.ip == vm.ip + 12
        }),
{
    let program = vm.code.subrange(vm.ip, vm.ip + 12);
    let spelled = seq![OP_SET_INTEGER, reg] + le_bytes(n) + seq![OP_INTEGER_TO_ATOM, reg];
    lemma_le_round_trip(n);
    assert forall|i: int| 0 <= i < 12 implies vm.code[vm.ip + i] == spelled[i] by {
        assert(program[i] == vm.code[vm.ip + i]);
    }
    assert(vm.code[vm.ip] == spelled[0]);
    assert(vm.code[vm.ip + 1] == spelled[1]);
    assert(vm.code[vm.ip + 10] == spelled[10]);
    assert(vm.code[vm.ip + 11] == spelled[11]);
    assert(vm.code.subrange(vm.ip + 2, vm.ip + 10) =~= le_bytes(n)) by {
        assert forall|i: int| 0 <= i < 8 implies vm.code[vm.ip + 2 + i] == le_bytes(n)[i] by {
            assert(vm.code[vm.ip + 2 + i] == spelled[2 + i]);
        }
    }
}

/// How many bytes an instruction of fixed width takes, opcode and operands.
/// `send_message` and `add_handler` have no fixed width, and an unknown
/// opcode has none.
pub open spec fn fixed_width(op: u8) -> Option<int> {
    if op == OP_SET_SELF_ADDR || op == OP_GENERATE_ATOM || op == OP_INTEGER_TO_ATOM || op
        == OP_REMOVE_HANDLER {
        Some(2)
    } else if op == OP_SET_FLOAT || op == OP_SET_INTEGER {
        Some(10)
    } else if op == OP_COPY || op == OP_ADD_INT || op == OP_SUB_INT || op == OP_MUL_INT || op
        == OP_ADD_FLOAT || op == OP_SUB_FLOAT || op == OP_MUL_FLOAT || op == OP_DIV_FLOAT {
        Some(3)
    } else {
        None
    }
}

/// A program that ends within an instruction of fixed width fails with
/// `OutOfBounds` at that instruction.
pub proof fn lemma_truncated_instruction_is_out_of_bounds(
    vm: VMView,
    self_addr: ActorAddr,
    fresh: Atom,
)
    requires
        vm.wf(),
        vm.ip < vm.end,
        fixed_width(vm.code[vm.ip]) matches Some(width) && vm.ip + width > vm.end,
    ensures
        vm.step(self_addr, fresh).result == Err::<Option<IOView>, VMError>(VMError::OutOfBounds),
{
}

/// A step is `Done` exactly at the end of the program, and then it changes
/// nothing. Before the end, a step moves the machine forward, whatever its
/// result, and leaves it within its program.
pub proof fn lemma_done_only_at_end(vm: VMView, self_addr: ActorAddr, fresh: Atom)
    requires
        vm.wf(),
    ensures
        vm.step(self_addr, fresh).result == Ok::<Option<IOView>, VMError>(Some(IOView::Done))
            <==> vm.ip >= vm.end,
        vm.ip >= vm.end ==> vm.after(vm.step(self_addr, fresh)) == vm,
        vm.ip < vm.end ==> vm.ip < vm.step(self_addr, fresh).ip <= vm.end,
        vm.after(vm.step(self_addr, fresh)).wf(),
{
}

/// What an instruction does is the same from wherever the machine is said to
/// stand: only the position of the operands counts.
pub proof fn lemma_operands_decide(a: VMView, b: VMView, op: u8, self_addr: ActorAddr, fresh: Atom)
    requires
        b == (VMView { ip: b.ip, ..a }),
    ensures
        forall|p: int| #[trigger] a.execute(op, p, self_addr, fresh) == b.execute(op, p, self_addr, fresh),
{
    assert forall|p: int| #[trigger]
        a.execute(op, p, self_addr, fresh) == b.execute(op, p, self_addr, fresh) by {
        assert(a.arguments(p + 11, a.word(p + 3) as int) =~= b.arguments(
            p + 11,
            b.word(p + 3) as int,
        ));
        assert(a.presets(p + 17, a.word(p + 9) as int) =~= b.presets(p + 17, b.word(p + 9) as int));
    }
}

/// A register machine bound to one program of a code blob.
pub struct VMState<'a> {
    actor_code: &'a [u8],
    instruction_pointer: usize,
    program_end: usize,
    pub registers: [Value; 256],
}

impl<'a> View for VMState<'a> {
    type V = VMView;

    closed spec fn view(&self) -> VMView {
        VMView {
            code: self.actor_code@,
            ip: self.instruction_pointer as int,
            end: self.program_end as int,
            regs: self.registers@,
        }
    }
}

impl<'a> VMState<'a> {
    /// A machine at the start of the program that spans `bounds` in
    /// `actor_code`, with every register at `Number(0)`.
    pub fn new(actor_code: &'a [u8], bounds: (usize, usize)) -> (vm: VMState<'a>)
        requires
            bounds.0 <= bounds.1 <= actor_code@.len(),
        ensures
            vm@ == (VMView {
                code: actor_code@,
                ip: bounds.0 as int,
                end: bounds.1 as int,
                regs: zeroed_registers(),
            }),
            vm@.wf(),
    {
        let registers: [Value; 256] = [
            Value::Number(0), Value::Number(0), Value::Number(0), Value::Number(0),
            Value::Number(0), Value::Number(0), Value::Number(0), Value::Number(0),
            Value::Number(0), Value::Number(0), Value::Number(0), Value::Number(0),
            Value::Number(0), Value::Number(0), Value::Number(0), Value::Number(0),
            Value::Number(0), Value::Number(0), Value::Number(0), Value::Number(0),
            Value::Number(0), Value::Number(0), Value::Number(0), Value::Number(0),
            Value::Number(0), Value::Number(0), Value::Number(0), Value::Number(0),
            Value::Number(0), Value::Number(0), Value::Number(0), Value::Number(0),
            Value::Number(0), Value::Number(0), Value::Number(0), Value::Number(0),
            Value::Number(0), Value::Number(0), Value::Number(0), Value::Number(0),
            Value::Number(0), Value::Number(0), Value::Number(0), Value::Number(0),
            Value::Number(0), Value::Number(0), Value::Number(0), Value::Number(0),
            Value::Number(0), Value::Number(0), Value::Number(0), Value::Number(0),
            Value::Number(0), Value::Number(0), Value::Number(0), Value::Number(0),
            Value::Number(0), Value::Number(0), Value::Number(0), Value::Number(0),
            Value::Number(0), Value::Number(0), Value::Number(0), Value::Number(0),
            Value::Number(0), Value::Number(0), Value::Number(0), Value::Number(0),
            Value::Number(0), Value::Number(0), Value::Number(0), Value::Number(0),
            Value::Number(0), Value::Number(0), Value::Number(0), Value::Number(0),
            Value::Number(0), Value::Number(0), Value::Number(0), Value::Number(0),
            Value::Number(0), Value::Number(0), Value::Number(0), Value::Number(0),
            Value::Number(0), Value::Number(0), Value::Number(0), Value::Number(0),
            Value::Number(0), Value::Number(0), Value::Number(0), Value::Number(0),
            Value::Number(0), Value::Number(0), Value::Number(0), Value::Number(0),
            Value::Number(0), Value::Number(0), Value::Number(0), Value::Number(0),
            Value::Number(0), Value::Number(0), Value::Number(0), Value::Number(0),
            Value::Number(0), Value::Number(0), Value::Number(0), Value::Number(0),
            Value::Number(0), Value::Number(0), Value::Number(0), Value::Number(0),
            Value::Number(0), Value::Number(0), Value::Number(0), Value::Number(0),
            Value::Number(0), Value::Number(0), Value::Number(0), Value::Number(0),
            Value::Number(0), Value::Number(0), Value::Number(0), Value::Number(0),
            Value::Number(0), Value::Number(0), Value::Number(0), Value::Number(0),
            Value::Number(0), Value::Number(0), Value::Number(0), Value::Number(0),
            Value::Number(0), Value::Number(0), Value::Number(0), Value::Number(0),
            Value::Number(0), Value::Number(0), Value::Number(0), Value::Number(0),
            Value::Number(0), Value::Number(0), Value::Number(0), Value::Number(0),
            Value::Number(0), Value::Number(0), Value::Number(0), Value::Number(0),
            Value::Number(0), Value::Number(0), Value::Number(0), Value::Number(0),
            Value::Number(0), Value::Number(0), Value::Number(0), Value::Number(0),
            Value::Number(0), Value::Number(0), Value::Number(0), Value::Number(0),
            Value::Number(0), Value::Number(0), Value::Number(0), Value::Number(0),
            Value::Number(0), Value::Number(0), Value::Number(0), Value::Number(0),
            Value::Number(0), Value::Number(0), Value::Number(0), Value::Number(0),
            Value::Number(0), Value::Number(0), Value::Number(0), Value::Number(0),
            Value::Number(0), Value::Number(0), Value::Number(0), Value::Number(0),
            Value::Number(0), Value::Number(0), Value::Number(0), Value::Number(0),
            Value::Number(0), Value::Number(0), Value::Number(0), Value::Number(0),
            Value::Number(0), Value::Number(0), Value::Number(0), Value::Number(0),
            Value::Number(0), Value::Number(0), Value::Number(0), Value::Number(0),
            Value::Number(0), Value::Number(0), Value::Number(0), Value::Number(0),
            Value::Number(0), Value::Number(0), Value::Number(0), Value::Number(0),
            Value::Number(0), Value::Number(0), Value::Number(0), Value::Number(0),
            Value::Number(0), Value::Number(0), Value::Number(0), Value::Number(0),
            Value::Number(0), Value::Number(0), Value::Number(0), Value::Number(0),
            Value::Number(0), Value::Number(0), Value::Number(0), Value::Number(0),
            Value::Number(0), Value::Number(0), Value::Number(0), Value::Number(0),
            Value::Number(0), Value::Number(0), Value::Number(0), Value::Number(0),
            Value::Number(0), Value::Number(0), Value::Number(0), Value::Number(0),
            Value::Number(0), Value::Number(0), Value::Number(0), Value::Number(0),
            Value::Number(0), Value::Number(0), Value::Number(0), Value::Number(0),
            Value::Number(0), Value::Number(0), Value::Number(0), Value::Number(0),
            Value::Number(0), Value::Number(0), Value::Number(0), Value::Number(0),
            Value::Number(0), Value::Number(0), Value::Number(0), Value::Number(0),
            Value::Number(0), Value::Number(0), Value::Number(0), Value::Number(0),
        ];
        assert(registers@ =~= zeroed_registers());
        VMState { actor_code, instruction_pointer: bounds.0, program_end: bounds.1, registers }
    }

    /// Reads the next byte of the program, if there is one.
    pub fn read_u8(&mut self) -> (byte: Result<u8, VMError>)
        requires
            old(self)@.wf(),
        ensures
            final(self)@.wf(),
            old(self)@.has(old(self)@.ip, 1) ==> byte == Ok::<u8, VMError>(
                old(self)@.code[old(self)@.ip],
            ) && final(self)@ == (VMView { ip: old(self)@.ip + 1, ..old(self)@ }),
            !old(self)@.has(old(self)@.ip, 1) ==> byte == Err::<u8, VMError>(VMError::OutOfBounds)
                && final(self)@ == old(self)@,
    {
        if self.instruction_pointer >= self.program_end {
            return Err(VMError::OutOfBounds);
        }
        let value: u8 = self.actor_code[self.instruction_pointer];
        self.instruction_pointer += 1;
        Ok(value)
    }

    /// Reads the next word of the program, if there are eight bytes left.
    pub fn read_u64(&mut self) -> (word: Result<u64, VMError>)
        requires
            old(self)@.wf(),
        ensures
            final(self)@.wf(),
            old(self)@.has(old(self)@.ip, 8) ==> word == Ok::<u64, VMError>(
                old(self)@.word(old(self)@.ip),
            ) && final(self)@ == (VMView { ip: old(self)@.ip + 8, ..old(self)@ }),
            !old(self)@.has(old(self)@.ip, 8) ==> word == Err::<u64, VMError>(
                VMError::OutOfBounds,
            ) && final(self)@ == old(self)@,
    {
        if self.program_end - self.instruction_pointer < 8 {
            return Err(VMError::OutOfBounds);
        }
        let value: u64 = word_at(self.actor_code, self.instruction_pointer);
        self.instruction_pointer += 8;
        Ok(value)
    }

    /// Puts `value` into register `reg`.
    pub fn set_register(&mut self, reg: u8, value: Value)
        requires
            old(self)@.wf(),
        ensures
            final(self)@ == (VMView { regs: old(self)@.regs.update(reg as int, value), ..old(self)@ }),
            final(self)@.wf(),
    {
        self.registers[reg as usize] = value;
    }

    /// `set_float` and `set_integer`, the opcode read.
    fn exec_set_literal(&mut self, float: bool) -> (res: Result<Option<IO>, VMError>)
        requires
            old(self)@.wf(),
        ensures
            final(self)@.wf(),
            steps_to(old(self)@, old(self)@.set_literal(old(self)@.ip, float), res, final(self)@),
    {
        let reg: u8 = self.read_u8()?;
        let word: u64 = self.read_u64()?;
        if float {
            self.set_register(reg, Value::Float(word));
        } else {
            self.set_register(reg, Value::Number(word));
        }
        Ok(None)
    }

    /// `set_self_addr` and `generate_atom`, the opcode read.
    fn exec_set_register(&mut self, value: Value) -> (res: Result<Option<IO>, VMError>)
        requires
            old(self)@.wf(),
        ensures
            final(self)@.wf(),
            steps_to(old(self)@, old(self)@.set_register(old(self)@.ip, value), res, final(self)@),
    {
        let reg: u8 = self.read_u8()?;
        self.set_register(reg, value);
        Ok(None)
    }

    /// `copy`, the opcode read.
    fn exec_copy(&mut self) -> (res: Result<Option<IO>, VMError>)
        requires
            old(self)@.wf(),
        ensures
            final(self)@.wf(),
            steps_to(old(self)@, old(self)@.copy(old(self)@.ip), res, final(self)@),
    {
        let dest: u8 = self.read_u8()?;
        let source: u8 = self.read_u8()?;
        let value = self.register(source);
        self.set_register(dest, value);
        Ok(None)
    }

    /// `integer_to_atom`, the opcode read.
    fn exec_integer_to_atom(&mut self) -> (res: Result<Option<IO>, VMError>)
        requires
            old(self)@.wf(),
        ensures
            final(self)@.wf(),
            steps_to(old(self)@, old(self)@.integer_to_atom(old(self)@.ip), res, final(self)@),
    {
        let reg: u8 = self.read_u8()?;
        match self.register(reg) {
            Value::Number(n) => {
                self.set_register(reg, Value::Atom(Atom(n)));
                Ok(None)
            },
            other => Err(VMError::WrongValueType(other)),
        }
    }

    /// `add_int`, `sub_int` and `mul_int`, the opcode read.
    fn exec_int_op(&mut self, op: u8) -> (res: Result<Option<IO>, VMError>)
        requires
            old(self)@.wf(),
            op == OP_ADD_INT || op == OP_SUB_INT || op == OP_MUL_INT,
        ensures
            final(self)@.wf(),
            steps_to(old(self)@, old(self)@.int_op(op, old(self)@.ip), res, final(self)@),
    {
        let dest: u8 = self.read_u8()?;
        let source: u8 = self.read_u8()?;
        match self.register(source) {
            Value::Number(src) => match self.register(dest) {
                Value::Number(old_dest) => {
                    let new_dest: u64 = if op == OP_ADD_INT {
                        old_dest.wrapping_add(src)
                    } else if op == OP_SUB_INT {
                        old_dest.wrapping_sub(src)
                    } else {
                        old_dest.wrapping_mul(src)
                    };
                    self.set_register(dest, Value::Number(new_dest));
                    Ok(None)
                },
                other => Err(VMError::WrongValueType(other)),
            },
            other => Err(VMError::WrongValueType(other)),
        }
    }

    /// `add_float`, `sub_float`, `mul_float` and `div_float`, the opcode read.
    fn exec_float_op(&mut self, op: u8) -> (res: Result<Option<IO>, VMError>)
        requires
            old(self)@.wf(),
            op == OP_ADD_FLOAT || op == OP_SUB_FLOAT || op == OP_MUL_FLOAT || op == OP_DIV_FLOAT,
        ensures
            final(self)@.wf(),
            steps_to(old(self)@, old(self)@.float_op(op, old(self)@.ip), res, final(self)@),
    {
        let dest: u8 = self.read_u8()?;
        let source: u8 = self.read_u8()?;
        match self.register(source) {
            Value::Float(src) => match self.register(dest) {
                Value::Float(old_dest) => {
                    let new_dest: u64 = if op == OP_ADD_FLOAT {
                        float_add(old_dest, src)
                    } else if op == OP_SUB_FLOAT {
                        float_sub(old_dest, src)
                    } else if op == OP_MUL_FLOAT {
                        float_mul(old_dest, src)
                    } else {
                        float_div(old_dest, src)
                    };
                    self.set_register(dest, Value::Float(new_dest));
                    Ok(None)
                },
                other => Err(VMError::WrongValueType(other)),
            },
            other => Err(VMError::WrongValueType(other)),
        }
    }

    /// `remove_handler`, the opcode read.
    fn exec_remove_handler(&mut self) -> (res: Result<Option<IO>, VMError>)
        requires
            old(self)@.wf(),
        ensures
            final(self)@.wf(),
            steps_to(old(self)@, old(self)@.remove_handler(old(self)@.ip), res, final(self)@),
    {
        let reg: u8 = self.read_u8()?;
        match self.register(reg) {
            Value::Atom(atom) => Ok(Some(IO::RemoveHandler { atom })),
            other => Err(VMError::WrongValueType(other)),
        }
    }

    /// `send_message`, the opcode read.
    fn exec_send_message(&mut self) -> (res: Result<Option<IO>, VMError>)
        requires
            old(self)@.wf(),
        ensures
            final(self)@.wf(),
            steps_to(old(self)@, old(self)@.send_message(old(self)@.ip), res, final(self)@),
    {
        let ghost pre = self@;
        let to_reg: u8 = self.read_u8()?;
        let to = match self.register(to_reg) {
            Value::ActorAddr(addr) => addr,
            other => {
                return Err(VMError::WrongValueType(other));
            },
        };
        let _delay_reg: u8 = self.read_u8()?;
        let atom_reg: u8 = self.read_u8()?;
        let atom = match self.register(atom_reg) {
            Value::Atom(atom) => atom,
            other => {
                return Err(VMError::WrongValueType(other));
            },
        };
        let n_args: u64 = self.read_u64()?;
        let ghost first = pre.ip + 11;
        let ghost goal = pre.send_message(pre.ip);
        let mut values: Vec<Value> = Vec::new();
        let mut i: u64 = 0;
        while i < n_args
            invariant
                pre.wf(),
                first == pre.ip + 11,
                pre == old(self)@,
                goal == pre.send_message(pre.ip),
                goal == if !pre.has(first, n_args as int) {
                    pre.out_of_bounds(pre.end)
                } else {
                    pre.emit(
                        IOView::SendMessage {
                            to,
                            atom,
                            values: pre.arguments(first, n_args as int),
                        },
                        first + n_args,
                    )
                },
                i <= n_args,
                self@ == (VMView { ip: first + i, ..pre }),
                self@.wf(),
                values@ == pre.arguments(first, i as int),
            decreases n_args - i,
        {
            let reg: u8 = match self.read_u8() {
                Ok(reg) => reg,
                Err(e) => {
                    return Err(e);
                },
            };
            values.push(self.register(reg));
            assert(values@ =~= pre.arguments(first, i + 1));
            i += 1;
        }
        Ok(Some(IO::SendMessage { to, atom, values }))
    }

    /// `add_handler`, the opcode read.
    fn exec_add_handler(&mut self) -> (res: Result<Option<IO>, VMError>)
        requires
            old(self)@.wf(),
        ensures
            final(self)@.wf(),
            steps_to(old(self)@, old(self)@.add_handler(old(self)@.ip), res, final(self)@),
    {
        let ghost pre = self@;
        let atom_reg: u8 = self.read_u8()?;
        let atom = match self.register(atom_reg) {
            Value::Atom(atom) => atom,
            other => {
                return Err(VMError::WrongValueType(other));
            },
        };
        let program: u64 = self.read_u64()?;
        let n_presets: u64 = self.read_u64()?;
        let ghost first = pre.ip + 17;
        let ghost goal = pre.add_handler(pre.ip);
        let mut presets: Vec<(u8, Value)> = Vec::new();
        let mut i: u64 = 0;
        while i < n_presets
            invariant
                pre.wf(),
                first == pre.ip + 17,
                pre == old(self)@,
                goal == pre.add_handler(pre.ip),
                goal == if !pre.has(first, 2 * n_presets) {
                    pre.out_of_bounds(pre.end)
                } else {
                    pre.emit(
                        IOView::AddHandler {
                            atom,
                            program,
                            presets: pre.presets(first, n_presets as int),
                        },
                        first + 2 * n_presets,
                    )
                },
                i <= n_presets,
                self@ == (VMView { ip: first + 2 * i, ..pre }),
                self@.wf(),
                presets@ == pre.presets(first, i as int),
            decreases n_presets - i,
        {
            let reg_idx: u8 = match self.read_u8() {
                Ok(reg) => reg,
                Err(e) => {
                    return Err(e);
                },
            };
            let value_reg: u8 = match self.read_u8() {
                Ok(reg) => reg,
                Err(e) => {
                    return Err(e);
                },
            };
            presets.push((reg_idx, self.register(value_reg)));
            assert(presets@ =~= pre.presets(first, i + 1));
            i += 1;
        }
        Ok(Some(IO::AddHandler { atom, program, presets }))
    }

    /// Whether the next step mints an atom.
    pub fn next_mints_atom(&self) -> (mints: bool)
        requires
            self@.wf(),
        ensures
            mints == self@.mints_atom(),
    {
        self.instruction_pointer < self.program_end && self.actor_code[self.instruction_pointer]
            == OP_GENERATE_ATOM
    }

    /// Makes one step, with `fresh` for the atom that `generate_atom` mints.
    ///
    /// Decodes the instruction at the instruction pointer, executes it and
    /// moves the pointer past it. At the end of the program the step is
    /// `Done`.
    pub fn step_with(&mut self, io_state: &IOState, fresh: Atom) -> (res: Result<
        Option<IO>,
        VMError,
    >)
        requires
            old(self)@.wf(),
        ensures
            final(self)@.wf(),
            steps_to(old(self)@, old(self)@.step(io_state.self_addr, fresh), res, final(self)@),
    {
        let ghost pre = self@;
        let inst: u8 = match self.read_u8() {
            Ok(inst) => inst,
            Err(_) => {
                return Ok(Some(IO::Done));
            },
        };
        proof {
            lemma_operands_decide(pre, self@, inst, io_state.self_addr, fresh);
        }
        if inst == OP_SET_SELF_ADDR {
            self.exec_set_register(Value::ActorAddr(io_state.self_addr))
        } else if inst == OP_SET_FLOAT {
            self.exec_set_literal(true)
        } else if inst == OP_SET_INTEGER {
            self.exec_set_literal(false)
        } else if inst == OP_COPY {
            self.exec_copy()
        } else if inst == OP_GENERATE_ATOM {
            self.exec_set_register(Value::Atom(fresh))
        } else if inst == OP_INTEGER_TO_ATOM {
            self.exec_integer_to_atom()
        } else if inst == OP_ADD_INT || inst == OP_SUB_INT || inst == OP_MUL_INT {
            self.exec_int_op(inst)
        } else if inst == OP_ADD_FLOAT || inst == OP_SUB_FLOAT || inst == OP_MUL_FLOAT || inst
            == OP_DIV_FLOAT {
            self.exec_float_op(inst)
        } else if inst == OP_SEND_MESSAGE {
            self.exec_send_message()
        } else if inst == OP_ADD_HANDLER {
            self.exec_add_handler()
        } else if inst == OP_REMOVE_HANDLER {
            self.exec_remove_handler()
        } else {
            Err(VMError::NoSuchInstruction(inst))
        }
    }

    /// Makes one step. A `generate_atom` instruction mints a random atom.
    ///
    /// The step is the one that [`VMView::step`] describes, for the atom that
    /// was minted; where the instruction mints none, for any atom.
    pub fn step_once(&mut self, io_state: &IOState) -> (res: Result<Option<IO>, VMError>)
        requires
            old(self)@.wf(),
        ensures
            final(self)@.wf(),
            exists|fresh: Atom|
                steps_to(
                    old(self)@,
                    #[trigger] old(self)@.step(io_state.self_addr, fresh),
                    res,
                    final(self)@,
                ),
            !old(self)@.mints_atom() ==> forall|fresh: Atom|
                steps_to(
                    old(self)@,
                    #[trigger] old(self)@.step(io_state.self_addr, fresh),
                    res,
                    final(self)@,
                ),
    {
        let fresh = if self.next_mints_atom() {
            Atom::random()
        } else {
            Atom(0)
        };
        self.step_with(io_state, fresh)
    }

    /// Writes `presets` into their registers, the first preset first, then
    /// `args` into registers 0, 1, 2 and so on. Arguments beyond the last
    /// register are dropped.
    pub fn load_registers(&mut self, presets: &Vec<(u8, Value)>, args: Vec<Value>)
        requires
            old(self)@.wf(),
        ensures
            final(self)@ == (VMView {
                regs: with_arguments(with_presets(old(self)@.regs, presets@), args@),
                ..old(self)@
            }),
            final(self)@.wf(),
    {
        let ghost pre = self@;
        let mut k: usize = 0;
        while k < presets.len()
            invariant
                k <= presets.len(),
                pre.wf(),
                self@ == (VMView { regs: with_presets(pre.regs, presets@.take(k as int)), ..pre }),
                self@.wf(),
            decreases presets.len() - k,
        {
            let reg: u8 = presets[k].0;
            let value = presets[k].1.clone();
            self.set_register(reg, value);
            assert(presets@.take(k + 1).drop_last() =~= presets@.take(k as int));
            k += 1;
        }
        assert(presets@.take(presets.len() as int) =~= presets@);
        let ghost preset = self@;
        let ghost all = args@;
        let mut i: usize = 0;
        assert(with_arguments(preset.regs, all.take(0)) =~= preset.regs);
        let count: usize = args.len();
        for value in it: args.into_iter()
            invariant
                it.seq() == all,
                all.len() == count,
                i == it.index(),
                preset.wf(),
                self@ == (VMView { regs: with_arguments(preset.regs, all.take(i as int)), ..preset }),
                self@.wf(),
        {
            if i < REGISTER_COUNT {
                self.set_register(i as u8, value);
            }
            assert(self@.regs =~= with_arguments(preset.regs, all.take(i + 1)));
            i += 1;
        }
        assert(all.take(all.len() as int) =~= all);
    }

    /// A copy of what register `reg` holds.
    pub fn register(&self, reg: u8) -> (value: Value)
        requires
            self@.wf(),
        ensures
            value == self@.regs[reg as int],
    {
        self.registers[reg as usize].clone()
    }
}

} // verus!
