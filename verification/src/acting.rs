//! The message queue, the dispatch context and the worker.

use vstd::prelude::*;
use vstd::set_lib::{lemma_int_range, lemma_map_size, set_int_range};
use std::collections::HashMap;
use std::collections::VecDeque;
use std::time::{Duration, Instant};
use crate::messages::{ActorAddr, Atom, Message, MessageContent, MessageContentView, MessageView};

verus! {

/// The messages that wait for delivery. The message pushed last is popped
/// first.
pub struct MessageQueue {
    inner: VecDeque<Message>,
}

impl View for MessageQueue {
    type V = Seq<MessageView>;

    closed spec fn view(&self) -> Seq<MessageView> {
        views(self.inner@)
    }
}

impl MessageQueue {
    /// An empty queue.
    pub fn new() -> (queue: MessageQueue)
        ensures
            queue@ == Seq::<MessageView>::empty(),
    {
        let queue = MessageQueue { inner: VecDeque::new() };
        assert(queue@ =~= Seq::<MessageView>::empty());
        queue
    }

    /// Puts `msg` at the back.
    pub fn push_msg(&mut self, msg: Message)
        ensures
            final(self)@ == old(self)@.push(msg@),
    {
        self.inner.push_back(msg);
        assert(self@ =~= old(self)@.push(msg@));
    }

    /// Takes the message at the back, if there is one.
    pub fn pop_msg(&mut self) -> (popped: Option<Message>)
        ensures
            old(self)@.len() == 0 ==> popped.is_none() && final(self)@ == old(self)@,
            old(self)@.len() > 0 ==> popped.is_some() && popped.unwrap()@ == old(self)@.last()
                && final(self)@ == old(self)@.drop_last(),
    {
        let popped = self.inner.pop_back();
        assert(self@ =~= if old(self)@.len() == 0 {
            old(self)@
        } else {
            old(self)@.drop_last()
        });
        popped
    }

    /// The message at the back, which is the next to be taken, if there is
    /// one.
    pub fn peek_msg(&self) -> (next: Option<&Message>)
        ensures
            self@.len() == 0 ==> next.is_none(),
            self@.len() > 0 ==> next.is_some() && next.unwrap()@ == self@.last(),
    {
        let len: usize = self.inner.len();
        if len == 0 {
            None
        } else {
            Some(&self.inner[len - 1])
        }
    }

    /// Opens a dispatch context for the actor at `self_addr`. What the actor
    /// sends in it comes into this queue when the context is closed.
    pub fn make_ctx(&self, self_addr: ActorAddr) -> (ctx: Context)
        ensures
            ctx.addr() == self_addr,
            ctx.sent() == Seq::<MessageView>::empty(),
    {
        let ctx = Context { self_addr, outbox: Vec::new() };
        assert(ctx.sent() =~= Seq::<MessageView>::empty());
        ctx
    }

    /// Closes `ctx`: puts the messages sent in it at the back, the first
    /// first.
    pub fn close_ctx(&mut self, ctx: Context)
        ensures
            final(self)@ == old(self)@ + ctx.sent(),
    {
        let ghost all = ctx.outbox@;
        for msg in it: ctx.outbox.into_iter()
            invariant
                it.seq() == all,
                self@ == old(self)@ + views(all.take(it.index())),
        {
            proof {
                let k = it.index();
                assert(views(all.take(k + 1)) =~= views(all.take(k)).push(msg@));
                assert(old(self)@ + views(all.take(k)).push(msg@) =~= (old(self)@ + views(
                    all.take(k),
                )).push(msg@));
            }
            self.push_msg(msg);
        }
        assert(all.take(all.len() as int) =~= all);
    }
}

/// What a handler run holds of the worker: the address of the actor that
/// runs, and the means to send messages. A context can be sent into and
/// nothing else; the messages sent reach the queue when the run is over and
/// the context is closed.
pub struct Context {
    self_addr: ActorAddr,
    outbox: Vec<Message>,
}

impl Context {
    /// The address of the actor that runs.
    pub closed spec fn addr(&self) -> ActorAddr {
        self.self_addr
    }

    /// The messages sent in the context so far, the first first.
    pub closed spec fn sent(&self) -> Seq<MessageView> {
        views(self.outbox@)
    }

    /// The address of the actor that runs.
    pub fn self_addr(&self) -> (addr: ActorAddr)
        ensures
            addr == self.addr(),
    {
        self.self_addr
    }

    /// Sends `msg`.
    pub fn push_msg(&mut self, msg: Message)
        ensures
            final(self).sent() == old(self).sent().push(msg@),
            final(self).addr() == old(self).addr(),
    {
        self.outbox.push(msg);
        assert(self.sent() =~= old(self).sent().push(msg@));
    }

    /// Sends `msgs`, the first first.
    pub fn push_all(&mut self, msgs: Vec<Message>)
        ensures
            final(self).sent() == old(self).sent() + views(msgs@),
            final(self).addr() == old(self).addr(),
    {
        let ghost all = msgs@;
        for msg in it: msgs.into_iter()
            invariant
                it.seq() == all,
                self.addr() == old(self).addr(),
                self.sent() == old(self).sent() + views(all.take(it.index())),
        {
            proof {
                let k = it.index();
                assert(views(all.take(k + 1)) =~= views(all.take(k)).push(msg@));
                assert(old(self).sent() + views(all.take(k)).push(msg@) =~= (old(self).sent()
                    + views(all.take(k))).push(msg@));
            }
            self.push_msg(msg);
        }
        assert(all.take(all.len() as int) =~= all);
    }
}

/// What an actor tells of itself for diagnostics.
pub trait DebugInfo {
    /// The name of the actor.
    fn get_actor_name(&self) -> String;

    /// The name of the message kind `atom`, where the actor knows one.
    fn get_atom_name(&self, atom: Atom) -> Option<String>;
}

/// Something that takes messages.
pub trait Actor {
    /// What the actor tells of itself.
    type Info: DebugInfo;

    /// Whether an actor in this state, at address `self_addr`, may on
    /// `message` end in the state `after` having sent `sent`.
    /// An actor that does not say what it does may do anything.
    open spec fn handles(
        &self,
        message: MessageContentView,
        self_addr: ActorAddr,
        after: &Self,
        sent: Seq<MessageView>,
    ) -> bool {
        true
    }

    /// Takes one message, and sends what it has to send in `ctx`.
    ///
    /// What the actor has sent, where it has done nothing to `ctx` but send,
    /// and the state it ends in are as [`Actor::handles`] says.
    fn handle_message(&mut self, message: MessageContent, ctx: &mut Context)
        ensures
            forall|sent: Seq<MessageView>|
                #![trigger old(self).handles(message@, old(ctx).addr(), final(self), sent)]
                #![trigger old(ctx).sent() + sent]
                final(ctx).sent() == old(ctx).sent() + sent ==> old(self).handles(
                    message@,
                    old(ctx).addr(),
                    final(self),
                    sent,
                ),
    ;

    /// What the actor tells of itself.
    fn debug_info(&self) -> Self::Info;
}

/// A sequence of messages as mathematical values.
pub open spec fn views(msgs: Seq<Message>) -> Seq<MessageView> {
    msgs.map_values(|m: Message| m@)
}

/// `std::time::Instant`, a point on the monotonic clock of the machine.
#[verifier::external_type_specification]
#[verifier::external_body]
pub struct ExInstant(Instant);

/// `Instant::now` hands out the present instant. Nothing is claimed of it.
pub assume_specification[ Instant::now ]() -> (now: Instant);

/// `Instant::elapsed` hands out the time since the instant. Nothing is
/// claimed of it.
pub assume_specification[ Instant::elapsed ](instant: &Instant) -> (elapsed: Duration);

/// `Duration::as_nanos` hands out the duration in nanoseconds. Nothing is
/// claimed of the number.
pub assume_specification[ Duration::as_nanos ](duration: &Duration) -> (nanos: u128);

/// A clock that counts the nanoseconds since it was started.
#[derive(Clone, Copy)]
pub struct Clock {
    origin: Instant,
}

/// A count of nanoseconds in 64 bits: the count itself, or the largest number
/// of 64 bits where the count does not fit.
pub open spec fn saturated(nanos: u128) -> u64 {
    if nanos > u64::MAX {
        u64::MAX
    } else {
        nanos as u64
    }
}

/// Brings a count of nanoseconds to 64 bits.
pub fn saturate(nanos: u128) -> (fitted: u64)
    ensures
        fitted == saturated(nanos),
{
    if nanos > u64::MAX as u128 {
        u64::MAX
    } else {
        nanos as u64
    }
}

impl Clock {
    /// The instant from which the clock counts.
    pub closed spec fn origin(&self) -> Instant {
        self.origin
    }

    /// A clock that counts from `origin`.
    pub fn since(origin: Instant) -> (clock: Clock)
        ensures
            clock.origin() == origin,
    {
        Clock { origin }
    }

    /// A clock that starts now.
    pub fn start() -> (clock: Clock) {
        Clock::since(Instant::now())
    }

    /// The nanoseconds since the clock was started, or the largest number
    /// where they do not fit.
    pub fn now(&self) -> (nanos: u64) {
        saturate(self.origin.elapsed().as_nanos())
    }
}

/// Whether a message has to wait at time `now`.
pub open spec fn not_due(msg: MessageView, now: u64) -> bool {
    msg.arrive_after matches Some(arrive_after) && now < arrive_after
}

/// What one step of a worker did.
#[derive(Debug, PartialEq)]
pub enum StepReport {
    /// The queue was empty.
    Idle,
    /// The message at the back of the queue is not due and was put back.
    NotDue,
    /// No actor is registered at the target of this message, which was
    /// dropped.
    Undeliverable(Message),
    /// The actor at this address has taken a message.
    Delivered(ActorAddr),
}

/// Whether a worker with the actors `actors` and the queue `queue` may, at
/// time `now`, make a step that it reports as `report` and that leaves it
/// with `actors_after` and `queue_after`.
///
/// An empty queue gives `Idle`. Else the step is about the message at the
/// back. One that is not due stays, and nothing changes. One that is due
/// leaves the queue: without an actor at its target it is dropped, and with
/// one that actor takes it, and what the actor sends goes to the back of the
/// queue. No other actor changes.
pub open spec fn steps<A: Actor>(
    actors: Map<u32, A>,
    queue: Seq<MessageView>,
    now: u64,
    report: StepReport,
    actors_after: Map<u32, A>,
    queue_after: Seq<MessageView>,
) -> bool {
    match report {
        StepReport::Idle => {
            &&& queue.len() == 0
            &&& queue_after == queue
            &&& actors_after == actors
        },
        StepReport::NotDue => {
            &&& queue.len() > 0
            &&& not_due(queue.last(), now)
            &&& queue_after == queue
            &&& actors_after == actors
        },
        StepReport::Undeliverable(msg) => {
            &&& queue.len() > 0
            &&& !not_due(queue.last(), now)
            &&& !actors.contains_key(queue.last().to.addr)
            &&& msg@ == queue.last()
            &&& queue_after == queue.drop_last()
            &&& actors_after == actors
        },
        StepReport::Delivered(to) => {
            &&& queue.len() > 0
            &&& !not_due(queue.last(), now)
            &&& to == queue.last().to
            &&& actors.contains_key(to.addr)
            &&& actors_after.dom() == actors.dom()
            &&& forall|other: u32|
                other != to.addr && actors.contains_key(other) ==> #[trigger] actors_after[other]
                    == actors[other]
            &&& queue.drop_last().is_prefix_of(queue_after)
            &&& actors[to.addr].handles(
                queue.last().cont,
                to,
                &actors_after[to.addr],
                queue_after.skip(queue.len() - 1),
            )
        },
    }
}

/// A message that is not due is not delivered: the step puts it back, and
/// leaves the queue and every actor as they were.
pub proof fn lemma_delayed_message_waits<A: Actor>(
    actors: Map<u32, A>,
    queue: Seq<MessageView>,
    now: u64,
    report: StepReport,
    actors_after: Map<u32, A>,
    queue_after: Seq<MessageView>,
)
    requires
        steps(actors, queue, now, report, actors_after, queue_after),
        queue.len() > 0,
        not_due(queue.last(), now),
    ensures
        report == StepReport::NotDue,
        queue_after == queue,
        actors_after == actors,
{
}

/// A message at the back of the queue that is due leaves the queue in that
/// step, and where an actor is registered at its target, that actor takes it.
pub proof fn lemma_due_message_is_delivered<A: Actor>(
    actors: Map<u32, A>,
    queue: Seq<MessageView>,
    now: u64,
    report: StepReport,
    actors_after: Map<u32, A>,
    queue_after: Seq<MessageView>,
)
    requires
        steps(actors, queue, now, report, actors_after, queue_after),
        queue.len() > 0,
        !not_due(queue.last(), now),
    ensures
        queue.drop_last().is_prefix_of(queue_after),
        actors.contains_key(queue.last().to.addr) ==> report == StepReport::Delivered(
            queue.last().to,
        ) && actors[queue.last().to.addr].handles(
            queue.last().cont,
            queue.last().to,
            &actors_after[queue.last().to.addr],
            queue_after.skip(queue.len() - 1),
        ),
{
}

/// A due message to an address without an actor is dropped: the step is
/// reported as `Undeliverable`, the message leaves the queue, and every
/// actor stays as it was.
pub proof fn lemma_unregistered_target_changes_no_actor<A: Actor>(
    actors: Map<u32, A>,
    queue: Seq<MessageView>,
    now: u64,
    report: StepReport,
    actors_after: Map<u32, A>,
    queue_after: Seq<MessageView>,
)
    requires
        steps(actors, queue, now, report, actors_after, queue_after),
        queue.len() > 0,
        !not_due(queue.last(), now),
        !actors.contains_key(queue.last().to.addr),
    ensures
        report matches StepReport::Undeliverable(msg) && msg@ == queue.last(),
        queue_after == queue.drop_last(),
        actors_after == actors,
{
}

/// While the message at the back of the queue is not due, every step finds
/// work and none changes anything: steps at times before `arrive_after`, as
/// many as there may be, are all reported as `NotDue` and leave the queue
/// and the actors as they were before the first.
pub proof fn lemma_busy_spin<A: Actor>(
    actors: Seq<Map<u32, A>>,
    queues: Seq<Seq<MessageView>>,
    nows: Seq<u64>,
    reports: Seq<StepReport>,
    arrive_after: u64,
)
    requires
        actors.len() == nows.len() + 1,
        queues.len() == nows.len() + 1,
        reports.len() == nows.len(),
        queues[0].len() > 0,
        queues[0].last().arrive_after == Some(arrive_after),
        forall|i: int| 0 <= i < nows.len() ==> nows[i] < arrive_after,
        forall|i: int|
            0 <= i < nows.len() ==> #[trigger] steps(
                actors[i],
                queues[i],
                nows[i],
                reports[i],
                actors[i + 1],
                queues[i + 1],
            ),
    ensures
        forall|i: int|
            0 <= i < nows.len() ==> #[trigger] reports[i] == StepReport::NotDue && queues[i + 1]
                == queues[0] && actors[i + 1] == actors[0],
    decreases nows.len(),
{
    if nows.len() > 0 {
        let n = nows.len() - 1;
        assert forall|i: int| 0 <= i < n implies #[trigger] steps(
            actors.drop_last()[i],
            queues.drop_last()[i],
            nows.drop_last()[i],
            reports.drop_last()[i],
            actors.drop_last()[i + 1],
            queues.drop_last()[i + 1],
        ) by {
            assert(steps(actors[i], queues[i], nows[i], reports[i], actors[i + 1], queues[i + 1]));
        }
        lemma_busy_spin(
            actors.drop_last(),
            queues.drop_last(),
            nows.drop_last(),
            reports.drop_last(),
            arrive_after,
        );
        assert(queues[n] == queues[0] && actors[n] == actors[0]) by {
            if n > 0 {
                assert(reports.drop_last()[n - 1] == StepReport::NotDue && queues.drop_last()[n]
                    == queues.drop_last()[0] && actors.drop_last()[n] == actors.drop_last()[0]);
            }
        }
        assert(steps(actors[n], queues[n], nows[n], reports[n], actors[n + 1], queues[n + 1]));
        assert forall|i: int| 0 <= i < nows.len() implies #[trigger] reports[i]
            == StepReport::NotDue && queues[i + 1] == queues[0] && actors[i + 1] == actors[0] by {
            if i < n {
                assert(reports.drop_last()[i] == StepReport::NotDue && queues.drop_last()[i + 1]
                    == queues.drop_last()[0] && actors.drop_last()[i + 1]
                    == actors.drop_last()[0]);
            }
        }
    }
}

/// How many addresses there are.
pub const ADDRESS_COUNT: u64 = 0x1_0000_0000;

/// The address `k` places after `from`, going round at the last address.
pub open spec fn address_after(from: u32, k: int) -> u32 {
    ((from + k) % (ADDRESS_COUNT as int)) as u32
}

/// Whether `addr` is the first address at or after `drawn`, going round at
/// the last address, that is not in `taken`.
pub open spec fn first_free_from(taken: Set<u32>, drawn: u32, addr: u32) -> bool {
    exists|k: int|
        {
            &&& 0 <= k < ADDRESS_COUNT
            &&& addr == #[trigger] address_after(drawn, k)
            &&& !taken.contains(addr)
            &&& forall|j: int| 0 <= j < k ==> taken.contains(#[trigger] address_after(drawn, j))
        }
}

/// A finite set that holds every address holds as many as there are.
pub proof fn lemma_every_address_taken(taken: Set<u32>)
    requires
        taken.finite(),
        forall|a: u32| taken.contains(a),
    ensures
        taken.len() == ADDRESS_COUNT,
{
    let number = |a: u32| a as int;
    let numbers = set_int_range(0, ADDRESS_COUNT as int);
    assert forall|n: int| numbers.contains(n) implies taken.map(number).contains(n) by {
        let a = n as u32;
        assert(taken.contains(a) && number(a) == n);
    }
    assert(taken.map(number) =~= numbers);
    lemma_map_size(taken, numbers, number);
    lemma_int_range(0, ADDRESS_COUNT as int);
}

/// The actors of one thread of work and the messages that wait for them.
pub struct Worker<A: Actor> {
    actors: HashMap<u32, A>,
    pub msg_queue: MessageQueue,
    clock: Clock,
}

impl<A: Actor> Worker<A> {
    /// The registered actors, each by the number of its address.
    pub closed spec fn actors(&self) -> Map<u32, A> {
        self.actors@
    }

    /// The messages that wait, the next to be taken last.
    pub closed spec fn queue(&self) -> Seq<MessageView> {
        self.msg_queue@
    }

    /// The clock on which the worker reads the time.
    pub closed spec fn timer(&self) -> Clock {
        self.clock
    }

    /// A worker without actors and without messages.
    pub fn new() -> (worker: Worker<A>)
        ensures
            worker.actors() == Map::<u32, A>::empty(),
            worker.queue() == Seq::<MessageView>::empty(),
    {
        Worker { actors: HashMap::new(), msg_queue: MessageQueue::new(), clock: Clock::start() }
    }

    /// Whether an address is left for one more actor.
    pub open spec fn has_room(&self) -> bool {
        self.actors().len() < ADDRESS_COUNT
    }

    /// Whether an actor is registered at every address, so that no further
    /// actor can be.
    pub fn is_full(&self) -> (full: bool)
        ensures
            full == !self.has_room(),
    {
        self.actors.len() as u64 >= ADDRESS_COUNT
    }

    /// The first address at or after `drawn`, going round at the last
    /// address, at which no actor is registered.
    pub fn free_address(&self, drawn: ActorAddr) -> (addr: ActorAddr)
        requires
            self.has_room(),
        ensures
            first_free_from(self.actors().dom(), drawn.addr, addr.addr),
            !self.actors().contains_key(addr.addr),
    {
        let ghost taken = self.actors().dom();
        let mut addr: u32 = drawn.addr;
        let ghost mut passed: int = 0;
        while self.actors.contains_key(&addr)
            invariant
                self.has_room(),
                taken == self.actors().dom(),
                0 <= passed < ADDRESS_COUNT,
                addr == address_after(drawn.addr, passed),
                forall|j: int| 0 <= j < passed ==> taken.contains(#[trigger] address_after(drawn.addr, j)),
            decreases ADDRESS_COUNT - passed,
        {
            proof {
                if passed + 1 == ADDRESS_COUNT {
                    assert forall|a: u32| taken.contains(a) by {
                        let j = (a - drawn.addr) % (ADDRESS_COUNT as int);
                        assert(address_after(drawn.addr, j) == a);
                    }
                    lemma_every_address_taken(taken);
                }
                passed = passed + 1;
            }
            addr = addr.wrapping_add(1);
        }
        ActorAddr { addr }
    }

    /// Registers `actor` under a fresh address, and hands the address out.
    ///
    /// The address is drawn at random; where an actor is registered at the
    /// address drawn, the next free address takes its place. No actor that
    /// is registered is replaced or moved.
    pub fn add_actor(&mut self, actor: A) -> (addr: ActorAddr)
        requires
            old(self).has_room(),
        ensures
            !old(self).actors().contains_key(addr.addr),
            final(self).actors() == old(self).actors().insert(addr.addr, actor),
            final(self).queue() == old(self).queue(),
            final(self).timer() == old(self).timer(),
    {
        let drawn = ActorAddr::random();
        let addr = self.free_address(drawn);
        self.add_actor_at(addr, actor);
        addr
    }

    /// Registers `actor` under `addr`. An actor that was registered under
    /// that address before is replaced.
    pub fn add_actor_at(&mut self, addr: ActorAddr, actor: A)
        ensures
            final(self).actors() == old(self).actors().insert(addr.addr, actor),
            final(self).queue() == old(self).queue(),
            final(self).timer() == old(self).timer(),
    {
        self.actors.insert(addr.addr, actor);
    }

    /// Puts `msg` into the queue, to be taken before every message that
    /// waits there.
    pub fn enqueue(&mut self, msg: Message)
        ensures
            final(self).queue() == old(self).queue().push(msg@),
            final(self).actors() == old(self).actors(),
            final(self).timer() == old(self).timer(),
    {
        self.msg_queue.push_msg(msg);
    }

    /// The message that the next step is about, if any message waits.
    pub fn peek_msg(&self) -> (next: Option<&Message>)
        ensures
            self.queue().len() == 0 ==> next.is_none(),
            self.queue().len() > 0 ==> next.is_some() && next.unwrap()@ == self.queue().last(),
    {
        self.msg_queue.peek_msg()
    }

    /// The actor registered at `addr`, if there is one.
    pub fn actor(&self, addr: ActorAddr) -> (found: Option<&A>)
        ensures
            match found {
                Some(actor) => self.actors().contains_key(addr.addr) && *actor
                    == self.actors()[addr.addr],
                None => !self.actors().contains_key(addr.addr),
            },
    {
        self.actors.get(&addr.addr)
    }

    /// The time on the clock of this worker, in nanoseconds. Messages that
    /// this worker carries give their `arrive_after` on this clock.
    pub fn now(&self) -> (nanos: u64) {
        self.clock.now()
    }

    /// The clock of this worker, for those who send messages that are to
    /// wait.
    pub fn clock(&self) -> (clock: Clock)
        ensures
            clock == self.timer(),
    {
        self.clock
    }

    /// Makes the step that is due at time `now`, and reports it.
    pub fn step_at(&mut self, now: u64) -> (report: StepReport)
        ensures
            steps(
                old(self).actors(),
                old(self).queue(),
                now,
                report,
                final(self).actors(),
                final(self).queue(),
            ),
            final(self).timer() == old(self).timer(),
    {
        let ghost queue = self.queue();
        let msg = match self.msg_queue.pop_msg() {
            Some(msg) => msg,
            None => {
                return StepReport::Idle;
            },
        };
        let waits = match msg.arrive_after {
            Some(arrive_after) => now < arrive_after,
            None => false,
        };
        if waits {
            self.msg_queue.push_msg(msg);
            assert(self.queue() =~= queue);
            return StepReport::NotDue;
        }
        let ghost last = msg@;
        assert(last == queue.last() && self.queue() == queue.drop_last());
        match self.actors.remove(&msg.to.addr) {
            Some(mut act) => {
                let to = msg.to;
                let mut ctx = self.msg_queue.make_ctx(to);
                act.handle_message(msg.cont, &mut ctx);
                assert(ctx.sent() == Seq::<MessageView>::empty() + ctx.sent());
                self.msg_queue.close_ctx(ctx);
                assert(self.queue().skip(queue.len() - 1) =~= ctx.sent());
                self.actors.insert(to.addr, act);
                assert(self.actors().dom() =~= old(self).actors().dom());
                StepReport::Delivered(to)
            },
            None => {
                assert(self.actors() =~= old(self).actors());
                StepReport::Undeliverable(msg)
            },
        }
    }

    /// Makes the step that is due now, and tells whether there was one.
    ///
    /// The step is one that [`steps`] allows for some time `now`. The answer
    /// is `false` only where the queue was empty.
    pub fn step_once(&mut self) -> (did_work: bool)
        ensures
            did_work == (old(self).queue().len() > 0),
            final(self).timer() == old(self).timer(),
            exists|now: u64, report: StepReport| #[trigger]
                steps(
                    old(self).actors(),
                    old(self).queue(),
                    now,
                    report,
                    final(self).actors(),
                    final(self).queue(),
                ),
    {
        let now = self.clock.now();
        match self.step_at(now) {
            StepReport::Idle => false,
            _ => true,
        }
    }
}

} // verus!
