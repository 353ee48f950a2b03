//! Actors whose behaviour is a table of bytecode handlers.
//!
//! A handler binds an atom to a program and to presets for its registers. A
//! run of a handler drives the interpreter to the end of the program or to
//! its first error. What the run asks to change in the handler table is put
//! into the table after the run, so the run sees the table as it was.

use vstd::prelude::*;
use std::collections::HashMap;
use crate::acting::{views, Actor, Context, DebugInfo};
use crate::messages::{ActorAddr, Atom, Message, MessageContent, MessageContentView, MessageView, Value};
use crate::vm::dactor_base::DactorBase;
use crate::vm::interpreter::{initial_registers, steps_to, VMState, VMView};
use crate::vm::types::{effect_view, IOState, IOView, VMError, IO};

verus! {

/// A program and the presets for its registers.
#[derive(Debug, PartialEq)]
pub struct Handler {
    pub program_idx: u64,
    pub presets: Vec<(u8, Value)>,
}

/// A handler as a mathematical value.
pub struct HandlerView {
    pub program_idx: u64,
    pub presets: Seq<(u8, Value)>,
}

impl View for Handler {
    type V = HandlerView;

    open spec fn view(&self) -> HandlerView {
        HandlerView { program_idx: self.program_idx, presets: self.presets@ }
    }
}

/// A change to a handler table: bind the atom to the handler, or unbind it.
pub open spec fn update_view(update: (Atom, Option<Handler>)) -> (Atom, Option<HandlerView>) {
    (
        update.0,
        match update.1 {
            Some(handler) => Some(handler@),
            None => None,
        },
    )
}

/// A list of changes to a handler table as mathematical values.
pub open spec fn update_views(updates: Seq<(Atom, Option<Handler>)>) -> Seq<
    (Atom, Option<HandlerView>),
> {
    updates.map_values(|u: (Atom, Option<Handler>)| update_view(u))
}

/// What a run comes to: the messages it sends, the changes it asks for, both
/// in the order of the program, and the error that ended it, if one did.
pub struct RunView {
    pub sent: Seq<MessageView>,
    pub updates: Seq<(Atom, Option<HandlerView>)>,
    pub error: Option<VMError>,
}

impl RunView {
    /// A run that does nothing and ends well.
    pub open spec fn finished() -> RunView {
        RunView { sent: Seq::empty(), updates: Seq::empty(), error: None }
    }

    /// A run that does nothing and ends with `error`.
    pub open spec fn failed(error: VMError) -> RunView {
        RunView { sent: Seq::empty(), updates: Seq::empty(), error: Some(error) }
    }

    /// This run, then `rest`.
    pub open spec fn followed_by(self, rest: RunView) -> RunView {
        RunView {
            sent: self.sent + rest.sent,
            updates: self.updates + rest.updates,
            error: rest.error,
        }
    }
}

/// What one step that succeeds adds to a run.
pub open spec fn effect_of(effect: Option<IOView>) -> RunView {
    match effect {
        Some(IOView::SendMessage { to, atom, values }) => RunView {
            sent: seq![
                MessageView {
                    to,
                    cont: MessageContentView { atom, data: values },
                    arrive_after: None,
                },
            ],
            updates: Seq::empty(),
            error: None,
        },
        Some(IOView::AddHandler { atom, program, presets }) => RunView {
            sent: Seq::empty(),
            updates: seq![(atom, Some(HandlerView { program_idx: program, presets }))],
            error: None,
        },
        Some(IOView::RemoveHandler { atom }) => RunView {
            sent: Seq::empty(),
            updates: seq![(atom, None)],
            error: None,
        },
        _ => RunView::finished(),
    }
}

/// The run of a machine from where it stands to the end of its program or to
/// its first error. `fresh` gives, for each position in the code, the atom
/// that a `generate_atom` at that position mints.
pub open spec fn run(vm: VMView, self_addr: ActorAddr, fresh: spec_fn(int) -> Atom) -> RunView
    decreases vm.end - vm.ip,
{
    if !vm.wf() || vm.ip >= vm.end {
        RunView::finished()
    } else {
        let step = vm.step(self_addr, fresh(vm.ip));
        match step.result {
            Err(error) => RunView::failed(error),
            Ok(effect) => effect_of(effect).followed_by(run(vm.after(step), self_addr, fresh)),
        }
    }
}

/// Whether the run of a machine from where it stands executes no
/// `generate_atom`.
pub open spec fn mints_nothing(vm: VMView, self_addr: ActorAddr) -> bool
    decreases vm.end - vm.ip,
{
    if !vm.wf() || vm.ip >= vm.end {
        true
    } else {
        let step = vm.step(self_addr, Atom(0));
        &&& !vm.mints_atom()
        &&& step.result is Ok ==> mints_nothing(vm.after(step), self_addr)
    }
}

/// A run that executes no `generate_atom` is the same for every choice of
/// fresh atoms.
pub proof fn lemma_run_without_minting_is_determined(
    vm: VMView,
    self_addr: ActorAddr,
    f: spec_fn(int) -> Atom,
    g: spec_fn(int) -> Atom,
)
    requires
        mints_nothing(vm, self_addr),
    ensures
        run(vm, self_addr, f) == run(vm, self_addr, g),
    decreases vm.end - vm.ip,
{
    if vm.wf() && vm.ip < vm.end {
        let step = vm.step(self_addr, Atom(0));
        assert(vm.step(self_addr, f(vm.ip)) == step);
        assert(vm.step(self_addr, g(vm.ip)) == step);
        if step.result is Ok {
            lemma_run_without_minting_is_determined(vm.after(step), self_addr, f, g);
        }
    }
}

/// Whether `base` holds a program number `idx` that starts before it ends
/// and lies within the code.
pub open spec fn runnable(base: &DactorBase, idx: u64) -> bool {
    &&& idx < base.programs@.len()
    &&& base.programs@[idx as int].0 <= base.programs@[idx as int].1
    &&& base.programs@[idx as int].1 <= base.actor_code@.len()
}

/// The machine that a handler starts on a message.
pub open spec fn machine_for(handler: HandlerView, base: &DactorBase, args: Seq<Value>) -> VMView {
    VMView {
        code: base.actor_code@,
        ip: base.programs@[handler.program_idx as int].0 as int,
        end: base.programs@[handler.program_idx as int].1 as int,
        regs: initial_registers(handler.presets, args),
    }
}

/// The run of a handler on a message. A handler whose program `base` cannot
/// run fails at once with `OutOfBounds`.
pub open spec fn handler_run(
    handler: HandlerView,
    base: &DactorBase,
    msg: MessageContentView,
    self_addr: ActorAddr,
    fresh: spec_fn(int) -> Atom,
) -> RunView {
    if runnable(base, handler.program_idx) {
        run(machine_for(handler, base, msg.data), self_addr, fresh)
    } else {
        RunView::failed(VMError::OutOfBounds)
    }
}

/// A handler table after one change.
pub open spec fn apply_update(
    table: Map<u64, HandlerView>,
    update: (Atom, Option<HandlerView>),
) -> Map<u64, HandlerView> {
    match update.1 {
        Some(handler) => table.insert(update.0.0, handler),
        None => table.remove(update.0.0),
    }
}

/// A handler table after a list of changes, the first change first.
pub open spec fn apply_updates(
    table: Map<u64, HandlerView>,
    updates: Seq<(Atom, Option<HandlerView>)>,
) -> Map<u64, HandlerView>
    decreases updates.len(),
{
    if updates.len() == 0 {
        table
    } else {
        apply_update(apply_updates(table, updates.drop_last()), updates.last())
    }
}

/// What the last change for `atom` in a list of changes says: to bind it to a
/// handler, to unbind it, or nothing where no change is for `atom`.
pub open spec fn last_update_for(
    updates: Seq<(Atom, Option<HandlerView>)>,
    atom: u64,
) -> Option<Option<HandlerView>>
    decreases updates.len(),
{
    if updates.len() == 0 {
        None
    } else if updates.last().0.0 == atom {
        Some(updates.last().1)
    } else {
        last_update_for(updates.drop_last(), atom)
    }
}

/// After the changes of a run, an atom is bound as the last change for it
/// says, whatever the changes before it said; an atom that no change is for
/// is bound as it was.
pub proof fn lemma_last_update_wins(
    table: Map<u64, HandlerView>,
    updates: Seq<(Atom, Option<HandlerView>)>,
    atom: u64,
)
    ensures
        match last_update_for(updates, atom) {
            Some(Some(handler)) => apply_updates(table, updates).contains_key(atom)
                && apply_updates(table, updates)[atom] == handler,
            Some(None) => !apply_updates(table, updates).contains_key(atom),
            None => apply_updates(table, updates).contains_key(atom) == table.contains_key(atom)
                && (table.contains_key(atom) ==> apply_updates(table, updates)[atom]
                == table[atom]),
        },
    decreases updates.len(),
{
    if updates.len() > 0 {
        lemma_last_update_wins(table, updates.drop_last(), atom);
    }
}

/// A run that binds an atom and then unbinds it leaves the atom unbound; one
/// that unbinds it and then binds it leaves it bound to the new handler.
pub proof fn lemma_add_and_remove_in_one_run(
    table: Map<u64, HandlerView>,
    atom: Atom,
    handler: HandlerView,
)
    ensures
        !apply_updates(table, seq![(atom, Some(handler)), (atom, None)]).contains_key(atom.0),
        apply_updates(table, seq![(atom, None), (atom, Some(handler))]).contains_key(atom.0),
        apply_updates(table, seq![(atom, None), (atom, Some(handler))])[atom.0] == handler,
{
    let add_remove = seq![(atom, Some(handler)), (atom, None::<HandlerView>)];
    let remove_add = seq![(atom, None::<HandlerView>), (atom, Some(handler))];
    lemma_last_update_wins(table, add_remove, atom.0);
    lemma_last_update_wins(table, remove_add, atom.0);
    assert(last_update_for(add_remove, atom.0) == Some(None::<HandlerView>));
    assert(last_update_for(remove_add, atom.0) == Some(Some(handler)));
}

/// The handler that every actor runs once when it is made: program 0,
/// without presets.
pub open spec fn start_handler() -> HandlerView {
    HandlerView { program_idx: 0, presets: Seq::empty() }
}

/// The message that the start handler runs on: atom 0, without arguments.
pub open spec fn start_message() -> MessageContentView {
    MessageContentView { atom: Atom(0), data: Seq::empty() }
}

/// What a run hands back.
pub struct RunOutcome {
    /// The messages to send, in the order of the program.
    pub sent: Vec<Message>,
    /// The changes to the handler table, in the order of the program.
    pub updates: Vec<(Atom, Option<Handler>)>,
    /// The error that ended the run, if one did.
    pub error: Option<VMError>,
}

impl View for RunOutcome {
    type V = RunView;

    open spec fn view(&self) -> RunView {
        RunView { sent: views(self.sent@), updates: update_views(self.updates@), error: self.error }
    }
}

/// What a handler run hands back to its actor.
pub struct HandlerResponse {
    /// The changes to the handler table, in the order of the program.
    pub updates: Vec<(Atom, Option<Handler>)>,
    /// The error that ended the run, if one did.
    pub error: Option<VMError>,
}

/// The address that a run takes for its own: that of its context, or address
/// 0 without one.
pub open spec fn address_in(ctx: Option<&mut Context>) -> ActorAddr {
    match ctx {
        Some(c) => c.addr(),
        None => ActorAddr { addr: 0 },
    }
}

/// `minted`, but with `fresh` for the atom minted at position `at`.
pub open spec fn minting(minted: spec_fn(int) -> Atom, at: int, fresh: Atom) -> spec_fn(int) -> Atom {
    |p: int|
        if p == at {
            fresh
        } else {
            minted(p)
        }
}

/// Whether two choices of fresh atoms agree at every position before `upto`.
pub open spec fn agree_below(
    f: spec_fn(int) -> Atom,
    g: spec_fn(int) -> Atom,
    upto: int,
) -> bool {
    forall|p: int| p < upto ==> #[trigger] f(p) == g(p)
}

/// Whether every run from `init` that mints as `minted` does before `vm.ip`
/// is `so_far`, followed by the run from `vm`.
pub open spec fn runs_through(
    init: VMView,
    vm: VMView,
    self_addr: ActorAddr,
    minted: spec_fn(int) -> Atom,
    so_far: RunView,
) -> bool {
    forall|f: spec_fn(int) -> Atom|
        agree_below(f, minted, vm.ip) ==> #[trigger] run(init, self_addr, f) == so_far.followed_by(
            run(vm, self_addr, f),
        )
}

/// Following a run by one that does nothing, or the other way round, is that
/// run, and following runs one by the other can be read from either end.
proof fn lemma_followed_by(a: RunView, b: RunView, c: RunView)
    ensures
        RunView::finished().followed_by(a) == a,
        a.error is None ==> a.followed_by(RunView::finished()) == a,
        a.followed_by(b).followed_by(c) == a.followed_by(b.followed_by(c)),
{
    assert(RunView::finished().followed_by(a).sent =~= a.sent);
    assert(RunView::finished().followed_by(a).updates =~= a.updates);
    assert(a.followed_by(RunView::finished()).sent =~= a.sent);
    assert(a.followed_by(RunView::finished()).updates =~= a.updates);
    assert(a.followed_by(b).followed_by(c).sent =~= a.followed_by(b.followed_by(c)).sent);
    assert(a.followed_by(b).followed_by(c).updates =~= a.followed_by(b.followed_by(c)).updates);
}

/// Before its first step, a run has done nothing.
proof fn lemma_run_begins(init: VMView, self_addr: ActorAddr, minted: spec_fn(int) -> Atom)
    ensures
        runs_through(init, init, self_addr, minted, RunView::finished()),
{
    assert forall|f: spec_fn(int) -> Atom| agree_below(f, minted, init.ip) implies #[trigger] run(
        init,
        self_addr,
        f,
    ) == RunView::finished().followed_by(run(init, self_addr, f)) by {
        lemma_followed_by(run(init, self_addr, f), RunView::finished(), RunView::finished());
    }
}

/// A step that succeeds carries a run further.
proof fn lemma_run_step(
    init: VMView,
    vm: VMView,
    self_addr: ActorAddr,
    minted: spec_fn(int) -> Atom,
    so_far: RunView,
    fresh: Atom,
    effect: Option<IOView>,
)
    requires
        vm.wf(),
        vm.ip < vm.end,
        runs_through(init, vm, self_addr, minted, so_far),
        vm.step(self_addr, fresh).result == Ok::<Option<IOView>, VMError>(effect),
    ensures
        runs_through(
            init,
            vm.after(vm.step(self_addr, fresh)),
            self_addr,
            minting(minted, vm.ip, fresh),
            so_far.followed_by(effect_of(effect)),
        ),
        vm.after(vm.step(self_addr, fresh)).ip > vm.ip,
{
    let next = vm.after(vm.step(self_addr, fresh));
    let minted_next = minting(minted, vm.ip, fresh);
    assert forall|f: spec_fn(int) -> Atom| agree_below(f, minted_next, next.ip) implies #[trigger] run(
        init,
        self_addr,
        f,
    ) == so_far.followed_by(effect_of(effect)).followed_by(run(next, self_addr, f)) by {
        assert(f(vm.ip) == minted_next(vm.ip));
        assert(agree_below(f, minted, vm.ip)) by {
            assert forall|p: int| p < vm.ip implies #[trigger] f(p) == minted(p) by {
                assert(f(p) == minted_next(p));
            }
        }
        lemma_followed_by(so_far, effect_of(effect), run(next, self_addr, f));
    }
}

/// A step that fails ends a run with its error.
proof fn lemma_run_fails(
    init: VMView,
    vm: VMView,
    self_addr: ActorAddr,
    minted: spec_fn(int) -> Atom,
    so_far: RunView,
    fresh: Atom,
    error: VMError,
)
    requires
        vm.wf(),
        runs_through(init, vm, self_addr, minted, so_far),
        vm.step(self_addr, fresh).result == Err::<Option<IOView>, VMError>(error),
    ensures
        run(init, self_addr, minting(minted, vm.ip, fresh)) == (RunView {
            error: Some(error),
            ..so_far
        }),
{
    let chosen = minting(minted, vm.ip, fresh);
    assert(agree_below(chosen, minted, vm.ip));
    assert(run(vm, self_addr, chosen) == RunView::failed(error));
    assert(so_far.followed_by(RunView::failed(error)).sent =~= so_far.sent);
    assert(so_far.followed_by(RunView::failed(error)).updates =~= so_far.updates);
}

/// At the end of the program a run is over.
proof fn lemma_run_ends(
    init: VMView,
    vm: VMView,
    self_addr: ActorAddr,
    minted: spec_fn(int) -> Atom,
    so_far: RunView,
)
    requires
        vm.ip >= vm.end,
        so_far.error is None,
        runs_through(init, vm, self_addr, minted, so_far),
    ensures
        run(init, self_addr, minted) == so_far,
{
    assert(agree_below(minted, minted, vm.ip));
    lemma_followed_by(so_far, RunView::finished(), RunView::finished());
}

impl RunOutcome {
    /// The outcome of a run that fails before its first step.
    fn failed(error: VMError) -> (outcome: RunOutcome)
        ensures
            outcome@ == RunView::failed(error),
    {
        let outcome = RunOutcome { sent: Vec::new(), updates: Vec::new(), error: Some(error) };
        assert(outcome@.sent =~= Seq::empty() && outcome@.updates =~= Seq::empty());
        outcome
    }

    /// The outcome of a run that has not made a step.
    fn begun() -> (outcome: RunOutcome)
        ensures
            outcome@ == RunView::finished(),
    {
        let outcome = RunOutcome { sent: Vec::new(), updates: Vec::new(), error: None };
        assert(outcome@.sent =~= Seq::empty() && outcome@.updates =~= Seq::empty());
        outcome
    }

    /// Takes down what a step that succeeds asks for: a message to send,
    /// each to be delivered at once, or a change to the handler table.
    fn record(&mut self, effect: Option<IO>)
        requires
            old(self).error is None,
        ensures
            final(self)@ == old(self)@.followed_by(effect_of(effect_view(effect))),
    {
        let ghost before = self@;
        let ghost added = effect_of(effect_view(effect));
        match effect {
            Some(IO::SendMessage { to, atom, values }) => {
                self.sent.push(
                    Message { to, arrive_after: None, cont: MessageContent { atom, data: values } },
                );
            },
            Some(IO::AddHandler { atom, program, presets }) => {
                self.updates.push((atom, Some(Handler { program_idx: program, presets })));
            },
            Some(IO::RemoveHandler { atom }) => {
                self.updates.push((atom, None));
            },
            _ => {},
        }
        assert(self@.sent =~= before.followed_by(added).sent);
        assert(self@.updates =~= before.followed_by(added).updates);
    }
}

impl Handler {
    /// Runs the handler on `msg` within `ctx`.
    ///
    /// The messages that the run sends are sent in `ctx`, each to be
    /// delivered at once; without a context they are dropped. The changes
    /// that the run asks for are handed back, also where an error ends the
    /// run early.
    pub fn handle(
        &self,
        base: &DactorBase,
        msg: MessageContent,
        ctx: Option<&mut Context>,
    ) -> (response: HandlerResponse)
        ensures
            exists|fresh: spec_fn(int) -> Atom|
                {
                    let r = #[trigger] handler_run(self@, base, msg@, address_in(ctx), fresh);
                    &&& update_views(response.updates@) == r.updates
                    &&& response.error == r.error
                    &&& ctx matches Some(c) ==> final(c).sent() == c.sent() + r.sent
                    &&& ctx matches Some(c) ==> final(c).addr() == c.addr()
                },
    {
        match ctx {
            Some(c) => {
                let ghost before = c.sent();
                let outcome = self.run(base, msg, c.self_addr());
                let ghost fresh = choose|fresh: spec_fn(int) -> Atom|
                    outcome@ == #[trigger] handler_run(self@, base, msg@, c.addr(), fresh);
                let ghost r = handler_run(self@, base, msg@, address_in(ctx), fresh);
                assert(r == outcome@);
                c.push_all(outcome.sent);
                assert(c.sent() == before + r.sent);
                HandlerResponse { updates: outcome.updates, error: outcome.error }
            },
            None => {
                let outcome = self.run(base, msg, ActorAddr { addr: 0 });
                HandlerResponse { updates: outcome.updates, error: outcome.error }
            },
        }
    }

    /// Runs the handler on `msg` for the actor at `self_addr`.
    ///
    /// Starts a machine on the handler's program, writes the presets into
    /// their registers and then the arguments of `msg` into registers 0, 1, 2
    /// and so on, and steps the machine to the end of the program or to its
    /// first error. The outcome is that of [`handler_run`] for the atoms that
    /// were minted.
    pub fn run(&self, base: &DactorBase, msg: MessageContent, self_addr: ActorAddr) -> (outcome:
        RunOutcome)
        ensures
            exists|fresh: spec_fn(int) -> Atom|
                outcome@ == #[trigger] handler_run(self@, base, msg@, self_addr, fresh),
    {
        let ghost unminted = |p: int| Atom(0);
        if self.program_idx >= base.programs.len() as u64 {
            let outcome = RunOutcome::failed(VMError::OutOfBounds);
            assert(outcome@ == handler_run(self@, base, msg@, self_addr, unminted));
            return outcome;
        }
        let bounds: (usize, usize) = base.programs[self.program_idx as usize];
        if bounds.0 > bounds.1 || bounds.1 > base.actor_code.len() {
            let outcome = RunOutcome::failed(VMError::OutOfBounds);
            assert(outcome@ == handler_run(self@, base, msg@, self_addr, unminted));
            return outcome;
        }
        let mut vm = VMState::new(base.actor_code.as_slice(), bounds);
        vm.load_registers(&self.presets, msg.data);
        let io_state = IOState { self_addr };
        let mut outcome = RunOutcome::begun();
        let ghost init = vm@;
        let ghost mut minted: spec_fn(int) -> Atom = unminted;
        proof {
            lemma_run_begins(init, self_addr, minted);
        }
        loop
            invariant
                vm@.wf(),
                io_state.self_addr == self_addr,
                outcome.error is None,
                runs_through(init, vm@, self_addr, minted, outcome@),
                runnable(base, self.program_idx),
                init == machine_for(self@, base, msg@.data),
            decreases vm@.end - vm@.ip,
        {
            let ghost before = vm@;
            let ghost so_far = outcome@;
            let res = vm.step_once(&io_state);
            let ghost fresh = choose|fresh: Atom|
                steps_to(before, #[trigger] before.step(self_addr, fresh), res, vm@);
            match res {
                Err(e) => {
                    proof {
                        lemma_run_fails(init, before, self_addr, minted, so_far, fresh, e);
                    }
                    outcome.error = Some(e);
                    assert(outcome@ == handler_run(
                        self@,
                        base,
                        msg@,
                        self_addr,
                        minting(minted, before.ip, fresh),
                    ));
                    return outcome;
                },
                Ok(Some(IO::Done)) => {
                    proof {
                        lemma_run_ends(init, before, self_addr, minted, so_far);
                    }
                    return outcome;
                },
                Ok(effect) => {
                    proof {
                        lemma_run_step(
                            init,
                            before,
                            self_addr,
                            minted,
                            so_far,
                            fresh,
                            before.step(self_addr, fresh).result.unwrap(),
                        );
                        minted = minting(minted, before.ip, fresh);
                    }
                    outcome.record(effect);
                },
            }
        }
    }
}

/// What has been sent since a context held `before` is read off what it
/// holds now in one way only.
proof fn lemma_sent_since(before: Seq<MessageView>, sent: Seq<MessageView>, now: Seq<MessageView>)
    requires
        now == before + sent,
    ensures
        forall|other: Seq<MessageView>| now == before + other ==> other == sent,
{
    assert forall|other: Seq<MessageView>| now == before + other implies other == sent by {
        assert((before + other).len() == before.len() + other.len());
        assert((before + sent).len() == before.len() + sent.len());
        assert forall|i: int| 0 <= i < sent.len() implies other[i] == sent[i] by {
            assert((before + other)[before.len() + i] == other[i]);
            assert((before + sent)[before.len() + i] == sent[i]);
        }
        assert(other =~= sent);
    }
}

/// An actor whose behaviour is a table of handlers over the programs of a
/// base.
pub struct Dactor<'a> {
    base: &'a DactorBase,
    handlers: HashMap<u64, Handler>,
    last_error: Option<VMError>,
}

impl<'a> Dactor<'a> {
    /// The base whose programs the actor runs.
    pub closed spec fn program_base(&self) -> &DactorBase {
        self.base
    }

    /// The handler table: for each bound atom, by its number, its handler.
    pub closed spec fn table(&self) -> Map<u64, HandlerView> {
        self.handlers@.map_values(|h: Handler| h@)
    }

    /// The error that ended the latest handler run, if one did.
    pub closed spec fn failure(&self) -> Option<VMError> {
        self.last_error
    }

    /// An actor over `base`.
    ///
    /// Runs program 0 once, without presets, on a message without arguments
    /// and without a context, and starts with the handler table that this run
    /// asks for. Where program 0 fails at once or asks for nothing, the table
    /// is empty.
    pub fn new(base: &'a DactorBase) -> (actor: Dactor<'a>)
        ensures
            actor.program_base() == base,
            exists|fresh: spec_fn(int) -> Atom|
                {
                    let r = #[trigger] handler_run(
                        start_handler(),
                        base,
                        start_message(),
                        ActorAddr { addr: 0 },
                        fresh,
                    );
                    &&& actor.table() == apply_updates(Map::empty(), r.updates)
                    &&& actor.failure() == r.error
                },
    {
        let mut this = Dactor { base, handlers: HashMap::new(), last_error: None };
        assert(this.table() =~= Map::empty());
        let start = Handler { program_idx: 0, presets: Vec::new() };
        let message = MessageContent { atom: Atom(0), data: Vec::new() };
        assert(start@ == start_handler());
        assert(message@ == start_message());
        let response = start.handle(base, message, None);
        this.last_error = response.error;
        this.handle_handler_response(response.updates);
        this
    }

    /// Puts the changes that a run asked for into the handler table, the
    /// first change first.
    fn handle_handler_response(&mut self, response: Vec<(Atom, Option<Handler>)>)
        ensures
            final(self).table() == apply_updates(old(self).table(), update_views(response@)),
            final(self).program_base() == old(self).program_base(),
            final(self).failure() == old(self).failure(),
    {
        let ghost all = response@;
        let ghost start = self.table();
        for update in it: response.into_iter()
            invariant
                it.seq() == all,
                self.program_base() == old(self).program_base(),
                self.failure() == old(self).failure(),
                start == old(self).table(),
                self.table() == apply_updates(start, update_views(all.take(it.index()))),
        {
            let ghost k = it.index();
            let ghost before = self.table();
            proof {
                assert(update_views(all.take(k + 1)).drop_last() =~= update_views(all.take(k)));
                assert(update_views(all.take(k + 1)).last() == update_view(update));
            }
            let atom = update.0;
            match update.1 {
                Some(handler) => {
                    self.handlers.insert(atom.0, handler);
                    assert(self.table() =~= before.insert(atom.0, handler@));
                },
                None => {
                    self.handlers.remove(&atom.0);
                    assert(self.table() =~= before.remove(atom.0));
                },
            }
        }
        assert(all.take(all.len() as int) =~= all);
    }

    /// The handler that `atom` is bound to, if it is bound.
    pub fn handler(&self, atom: Atom) -> (bound: Option<&Handler>)
        ensures
            match bound {
                Some(handler) => self.table().contains_key(atom.0) && handler@ == self.table()[atom.0],
                None => !self.table().contains_key(atom.0),
            },
    {
        self.handlers.get(&atom.0)
    }

    /// How many atoms are bound.
    pub fn handler_count(&self) -> (count: usize)
        ensures
            count == self.table().len(),
    {
        assert(self.table().dom() =~= self.handlers@.dom());
        self.handlers.len()
    }

    /// The error that ended the latest handler run, if one did.
    pub fn last_error(&self) -> (error: &Option<VMError>)
        ensures
            *error == self.failure(),
    {
        &self.last_error
    }
}

/// What a bytecode actor tells of itself. The programs name no message
/// kinds, so it knows its own name only.
pub struct DactorDebugInfo;

impl DebugInfo for DactorDebugInfo {
    fn get_actor_name(&self) -> (name: String)
        ensures
            name@ == "Dactor"@,
    {
        "Dactor".to_string()
    }

    fn get_atom_name(&self, atom: Atom) -> (name: Option<String>)
        ensures
            name.is_none(),
    {
        None
    }
}

impl<'a> Actor for Dactor<'a> {
    type Info = DactorDebugInfo;

    /// On a message whose atom is not bound, nothing changes and nothing is
    /// sent. On any other, the bound handler runs: its messages are sent,
    /// the table is the old one with the changes of the run, and the error of
    /// the run is kept.
    open spec fn handles(
        &self,
        message: MessageContentView,
        self_addr: ActorAddr,
        after: &Self,
        sent: Seq<MessageView>,
    ) -> bool {
        &&& after.program_base() == self.program_base()
        &&& if self.table().contains_key(message.atom.0) {
            exists|fresh: spec_fn(int) -> Atom|
                {
                    let r = #[trigger] handler_run(
                        self.table()[message.atom.0],
                        self.program_base(),
                        message,
                        self_addr,
                        fresh,
                    );
                    &&& sent == r.sent
                    &&& after.table() == apply_updates(self.table(), r.updates)
                    &&& after.failure() == r.error
                }
        } else {
            &&& sent == Seq::<MessageView>::empty()
            &&& after.table() == self.table()
            &&& after.failure() == self.failure()
        }
    }

    fn handle_message(&mut self, message: MessageContent, ctx: &mut Context)
        ensures
            old(ctx).sent().is_prefix_of(final(ctx).sent()),
            final(ctx).addr() == old(ctx).addr(),
    {
        let ghost before = self.table();
        let ghost msg_view = message@;
        let handler = match self.handlers.get(&message.atom.0) {
            Some(handler) => handler,
            None => {
                proof {
                    lemma_sent_since(ctx.sent(), Seq::empty(), ctx.sent());
                }
                return ;
            },
        };
        let ghost bound = handler@;
        assert(before.contains_key(msg_view.atom.0) && before[msg_view.atom.0] == bound);
        let response = handler.handle(self.base, message, Some(ctx));
        let ghost fresh = choose|fresh: spec_fn(int) -> Atom|
            {
                let r = #[trigger] handler_run(bound, self.base, msg_view, old(ctx).addr(), fresh);
                &&& update_views(response.updates@) == r.updates
                &&& response.error == r.error
                &&& ctx.sent() == old(ctx).sent() + r.sent
            };
        let ghost r = handler_run(bound, self.base, msg_view, old(ctx).addr(), fresh);
        self.last_error = response.error;
        self.handle_handler_response(response.updates);
        proof {
            lemma_sent_since(old(ctx).sent(), r.sent, ctx.sent());
            assert(old(self).handles(msg_view, old(ctx).addr(), self, r.sent));
        }
    }

    fn debug_info(&self) -> DactorDebugInfo {
        DactorDebugInfo
    }
}

} // verus!
