//! The engine: a lifecycle with guarded transitions, the drain point of the
//! event bus, and the owner of the worker pool.

use crate::error::Error;
use crate::event::create_handler;
use crate::event::Consumer;
use crate::event::Dispatcher;
use crate::event::EngineEvent;
use crate::event::Event;
use crate::event::Polled;
use crate::scheduler::pool;
use crate::scheduler::pool::send_outcome;
use crate::scheduler::pool::PoolView;
use crate::scheduler::pool::WorkerPool;
use crate::scheduler::worker::WorkerInstruction;
use crate::scheduler::worker::WorkerNotification;
use crate::scheduler::worker::WorkerRuntime;
use std::collections::VecDeque;
use vstd::prelude::*;

verus! {

/// The phases of an engine's life.
#[derive(Debug, Clone, Copy, PartialEq, Eq, Structural)]
pub enum EngineState {
    /// At rest. Only `run` leads on.
    Stopped,
    /// Inside `run`, on the way to `Running`.
    Starting,
    /// In service. Only `shutdown` leads on.
    Running,
    /// Inside `shutdown`, on the way to `Stopped`.
    Stopping,
}

/// What the engine does about an event before it passes the event on, or
/// about an instruction that the pool turned down. The engine only decides;
/// whoever drives it reads the reactions and writes the log.
#[derive(Debug, Clone, Copy, PartialEq, Eq)]
pub enum Reaction {
    /// Report that the engine started.
    Started,
    /// Report that the engine prepares to shut down.
    Shutdown,
    /// Report that the engine stopped.
    Stopped,
    /// Warn that the engine has no handling of its own for this event.
    Unhandled(Event),
    /// Report that the pool turned an instruction down.
    InstructionFailed(pool::Error),
    /// Report that the bus has lost every dispatcher and will bring no more
    /// events.
    BusDisconnected,
}

/// The state that follows `state` in the only cycle there is.
pub open spec fn successor(state: EngineState) -> EngineState {
    match state {
        EngineState::Stopped => EngineState::Starting,
        EngineState::Starting => EngineState::Running,
        EngineState::Running => EngineState::Stopping,
        EngineState::Stopping => EngineState::Stopped,
    }
}

/// The state at `at` in `history` is the successor of the one before it.
pub open spec fn follows(history: Seq<EngineState>, at: int) -> bool {
    history[at] == successor(history[at - 1])
}

/// A history of states is lawful if it begins at `Stopped` and every state in
/// it is the successor of the one before.
pub open spec fn lawful(history: Seq<EngineState>) -> bool {
    &&& history.len() > 0
    &&& history[0] == EngineState::Stopped
    &&& forall|at: int| 0 < at < history.len() ==> #[trigger] follows(history, at)
}

/// Where `run` leads from `state`: to `Running` from `Stopped`, and nowhere
/// from any other state.
pub open spec fn run_from(state: EngineState) -> Result<EngineState, Error> {
    if state == EngineState::Stopped {
        Ok(EngineState::Running)
    } else {
        Err(Error::InvalidState(EngineState::Stopped, state))
    }
}

/// Where `shutdown` leads from `state`: to `Stopped` from `Running`, and
/// nowhere from any other state.
pub open spec fn shutdown_from(state: EngineState) -> Result<EngineState, Error> {
    if state == EngineState::Running {
        Ok(EngineState::Stopped)
    } else {
        Err(Error::InvalidState(EngineState::Running, state))
    }
}

/// The engine's own reaction to `event`, if it has one. Mouse events get
/// none, so that they do not flood the log.
pub open spec fn reaction_to(event: Event) -> Option<Reaction> {
    match event {
        Event::Engine(EngineEvent::Started) => Some(Reaction::Started),
        Event::Engine(EngineEvent::Shutdown) => Some(Reaction::Shutdown),
        Event::Engine(EngineEvent::Stopped) => Some(Reaction::Stopped),
        Event::Mouse(_) => None,
        _ => Some(Reaction::Unhandled(event)),
    }
}

/// `reactions` with `reaction` put down behind them, if there is one.
pub open spec fn put_down(reactions: Seq<Reaction>, reaction: Option<Reaction>) -> Seq<Reaction> {
    match reaction {
        Some(reaction) => reactions.push(reaction),
        None => reactions,
    }
}

/// The engine's reaction to what a poll of the bus brought: its reaction to
/// the event, if there is one; none to an empty bus; and a report of its own
/// when the bus has lost every dispatcher.
pub open spec fn reaction_to_poll(polled: Polled) -> Option<Reaction> {
    match polled {
        Polled::Event(event) => reaction_to(event),
        Polled::Empty => None,
        Polled::Disconnected => Some(Reaction::BusDisconnected),
    }
}

/// The events among `polls`, in the order in which they came off the bus.
pub open spec fn events_of(polls: Seq<Polled>) -> Seq<Event>
    decreases polls.len(),
{
    if polls.len() == 0 {
        Seq::empty()
    } else {
        match polls.last() {
            Polled::Event(event) => events_of(polls.drop_last()).push(event),
            _ => events_of(polls.drop_last()),
        }
    }
}

/// The engine's reactions to `polls`, in the order of the polls.
pub open spec fn reactions_of(polls: Seq<Polled>) -> Seq<Reaction>
    decreases polls.len(),
{
    if polls.len() == 0 {
        Seq::empty()
    } else {
        put_down(reactions_of(polls.drop_last()), reaction_to_poll(polls.last()))
    }
}

/// `polls` are the polls of one drain: every poll but the last brought an
/// event, and the last one brought none. A drain that has polled
/// `usize::MAX` times gives up, whatever the last poll brought.
pub open spec fn drained(polls: Seq<Polled>) -> bool {
    &&& polls.len() > 0
    &&& forall|at: int| 0 <= at < polls.len() - 1 ==> (#[trigger] polls[at]) is Event
    &&& (!(polls.last() is Event) || polls.len() == usize::MAX)
}

/// What one poll of the bus makes of an engine: the poll goes on record, the
/// engine's reaction to it is put down, and an event that it brought joins
/// the back of the ready queue, after the reaction.
pub open spec fn after_poll(before: EngineView, polled: Polled) -> EngineView {
    EngineView {
        polled: before.polled.push(polled),
        reactions: put_down(before.reactions, reaction_to_poll(polled)),
        ready: match polled {
            Polled::Event(event) => before.ready.push(event),
            _ => before.ready,
        },
        ..before
    }
}

/// `run` and then `shutdown` bring a stopped engine back to `Stopped`, and
/// from there a second `shutdown` is refused. More generally, `shutdown`
/// undoes any `run` that went through, and after any `shutdown` that went
/// through another one is refused.
pub proof fn lemma_run_then_shutdown(state: EngineState)
    ensures
        run_from(EngineState::Stopped) == Ok::<EngineState, Error>(EngineState::Running),
        shutdown_from(EngineState::Running) == Ok::<EngineState, Error>(EngineState::Stopped),
        run_from(state) is Ok ==> shutdown_from(run_from(state)->Ok_0) == Ok::<EngineState, Error>(
            state,
        ),
        shutdown_from(state) is Ok ==> shutdown_from(shutdown_from(state)->Ok_0) == Err::<
            EngineState,
            Error,
        >(Error::InvalidState(EngineState::Running, EngineState::Stopped)),
        run_from(state) is Ok ==> run_from(run_from(state)->Ok_0) == Err::<EngineState, Error>(
            Error::InvalidState(EngineState::Stopped, EngineState::Running),
        ),
{
}

/// Events leave the ready queue in the order in which they joined it: with
/// `waiting` in the queue and `arrived` accepted after them, the event that
/// `require_event` hands out after `taken` earlier ones is the next of
/// `waiting`, and once those are used up the next of `arrived`.
pub proof fn lemma_ready_events_leave_in_order(
    waiting: Seq<Event>,
    arrived: Seq<Event>,
    taken: int,
)
    requires
        0 <= taken < waiting.len() + arrived.len(),
    ensures
        (waiting + arrived).skip(taken)[0] == if taken < waiting.len() {
            waiting[taken]
        } else {
            arrived[taken - waiting.len()]
        },
{
}

/// What the engine shares with the rest of the program.
pub struct EngineData {
    /// The current phase.
    pub state: EngineState,
    /// A dispatcher into the engine's bus; clone it freely.
    pub event_dispatcher: Dispatcher,
}

/// What an engine is, as far as its contracts are concerned. The two ends of
/// its bus are left out: they are opaque, and what the bus holds is up to
/// whoever holds a dispatcher. What the engine has taken off the bus is on
/// record in `polled`.
#[verifier::ext_equal]
pub struct EngineView {
    /// The current state.
    pub state: EngineState,
    /// Every state the engine has been in, oldest first, the current one
    /// last.
    pub history: Seq<EngineState>,
    /// The events that the engine has dealt with and that wait for an outside
    /// observer, oldest first.
    pub ready: Seq<Event>,
    /// The reactions that wait to be carried out, oldest first.
    pub reactions: Seq<Reaction>,
    /// What every poll of the bus has brought so far, oldest first.
    pub polled: Seq<Polled>,
    /// The worker pool.
    pub pool: PoolView,
}

/// The engine.
pub struct Engine {
    data: EngineData,
    event_consumer: Consumer,
    worker_pool: WorkerPool,
    ready_events: VecDeque<Event>,
    reactions: VecDeque<Reaction>,
    history: Ghost<Seq<EngineState>>,
    polled: Ghost<Seq<Polled>>,
}

impl View for Engine {
    type V = EngineView;

    closed spec fn view(&self) -> EngineView {
        EngineView {
            state: self.data.state,
            history: self.history@,
            ready: self.ready_events@,
            reactions: self.reactions@,
            polled: self.polled@,
            pool: self.worker_pool@,
        }
    }
}

impl Engine {
    pub open spec fn spec_state(&self) -> EngineState {
        self@.state
    }

    /// The runtimes of the pool's workers that wait for a thread, in the
    /// order of their slots.
    pub closed spec fn waiting(&self) -> Seq<WorkerRuntime> {
        self.worker_pool.waiting()
    }

    /// The invariant of an engine: its history is lawful and ends in the
    /// current state, and its pool is well formed.
    pub closed spec fn wf(&self) -> bool {
        &&& lawful(self.history@)
        &&& self.history@.last() == self.data.state
        &&& self.worker_pool.wf()
    }

    /// The engine has only ever moved along the cycle `Stopped`, `Starting`,
    /// `Running`, `Stopping`, `Stopped`: its history begins at `Stopped`, ends
    /// in the current state, and each state in it is the successor of the one
    /// before.
    pub proof fn lemma_lifecycle_follows_the_cycle(&self, at: int)
        requires
            self.wf(),
            0 < at < self@.history.len(),
        ensures
            self@.history[0] == EngineState::Stopped,
            self@.history.last() == self@.state,
            self@.history[at] == successor(self@.history[at - 1]),
    {
        assert(follows(self@.history, at));
    }

    /// A stopped engine around `worker_pool`, with a bus of its own.
    pub fn new(worker_pool: WorkerPool) -> (engine: Engine)
        requires
            worker_pool.wf(),
        ensures
            engine.wf(),
            engine@ == (EngineView {
                state: EngineState::Stopped,
                history: seq![EngineState::Stopped],
                ready: Seq::empty(),
                reactions: Seq::empty(),
                polled: Seq::empty(),
                pool: worker_pool@,
            }),
    {
        let (event_dispatcher, event_consumer) = create_handler();
        let ghost beginning = Seq::<EngineState>::empty().push(EngineState::Stopped);
        Engine {
            data: EngineData { state: EngineState::Stopped, event_dispatcher },
            event_consumer,
            worker_pool,
            ready_events: VecDeque::new(),
            reactions: VecDeque::new(),
            history: Ghost(beginning),
            polled: Ghost(Seq::empty()),
        }
    }

    /// The default engine, given the hardware parallelism that the platform
    /// reports, if it reports any: a stopped engine around the default pool.
    pub fn default(reported: Option<usize>) -> (engine: Engine)
        ensures
            engine.wf(),
            engine@ == (EngineView {
                state: EngineState::Stopped,
                history: seq![EngineState::Stopped],
                ready: Seq::empty(),
                reactions: Seq::empty(),
                polled: Seq::empty(),
                pool: PoolView {
                    joined: Seq::new(pool::default_size_of(reported) as nat, |slot: int| false),
                    dedicated: Set::empty(),
                    queued: Seq::empty(),
                    unstarted: pool::default_size_of(reported) as nat,
                },
            }),
    {
        Engine::new(WorkerPool::default(reported))
    }

    fn enter(&mut self, next: EngineState)
        requires
            old(self).wf(),
            next == successor(old(self)@.state),
        ensures
            final(self).wf(),
            final(self)@ == (EngineView {
                state: next,
                history: old(self)@.history.push(next),
                ..old(self)@
            }),
    {
        let ghost before = self.history@;
        self.data.state = next;
        proof {
            self.history@ = before.push(next);
            assert forall|at: int| 0 < at < self.history@.len() implies #[trigger] follows(
                self.history@,
                at,
            ) by {
                if at < before.len() {
                    assert(follows(before, at));
                }
            }
        }
    }

    /// Starts the engine. From `Stopped` it passes through `Starting` to
    /// `Running`. From any other state nothing changes and the answer is
    /// `InvalidState(Stopped, actual)`.
    pub fn run(&mut self) -> (result: Result<(), Error>)
        requires
            old(self).wf(),
        ensures
            final(self).wf(),
            match run_from(old(self)@.state) {
                Ok(next) => result is Ok && final(self)@ == (EngineView {
                    state: next,
                    history: old(self)@.history + seq![EngineState::Starting, EngineState::Running],
                    ..old(self)@
                }),
                Err(refusal) => result == Err::<(), Error>(refusal) && final(self)@ == old(self)@,
            },
    {
        match self.data.state {
            EngineState::Stopped => {
                self.enter(EngineState::Starting);
                self.start();
                Ok(())
            },
            _ => Err(Error::InvalidState(EngineState::Stopped, self.data.state)),
        }
    }

    /// Stops the engine. From `Running` it passes through `Stopping` to
    /// `Stopped`. From any other state nothing changes and the answer is
    /// `InvalidState(Running, actual)`.
    pub fn shutdown(&mut self) -> (result: Result<(), Error>)
        requires
            old(self).wf(),
        ensures
            final(self).wf(),
            match shutdown_from(old(self)@.state) {
                Ok(next) => result is Ok && final(self)@ == (EngineView {
                    state: next,
                    history: old(self)@.history + seq![EngineState::Stopping, EngineState::Stopped],
                    ..old(self)@
                }),
                Err(refusal) => result == Err::<(), Error>(refusal) && final(self)@ == old(self)@,
            },
    {
        match self.data.state {
            EngineState::Running => {
                self.enter(EngineState::Stopping);
                self.stop();
                Ok(())
            },
            _ => Err(Error::InvalidState(EngineState::Running, self.data.state)),
        }
    }

    /// Completes a start: takes the engine from `Starting` to `Running`. It
    /// is the second half of `run`. In any other state there is no start to
    /// complete and nothing changes.
    pub fn start(&mut self)
        requires
            old(self).wf(),
        ensures
            final(self).wf(),
            old(self)@.state == EngineState::Starting ==> final(self)@ == (EngineView {
                state: EngineState::Running,
                history: old(self)@.history.push(EngineState::Running),
                ..old(self)@
            }),
            old(self)@.state != EngineState::Starting ==> final(self)@ == old(self)@,
    {
        match self.data.state {
            EngineState::Starting => {
                self.enter(EngineState::Running);
            },
            _ => {},
        }
    }

    /// Completes a stop: takes the engine from `Stopping` to `Stopped`. It is
    /// the second half of `shutdown`. In any other state there is no stop to
    /// complete and nothing changes.
    pub fn stop(&mut self)
        requires
            old(self).wf(),
        ensures
            final(self).wf(),
            old(self)@.state == EngineState::Stopping ==> final(self)@ == (EngineView {
                state: EngineState::Stopped,
                history: old(self)@.history.push(EngineState::Stopped),
                ..old(self)@
            }),
            old(self)@.state != EngineState::Stopping ==> final(self)@ == old(self)@,
    {
        match self.data.state {
            EngineState::Stopping => {
                self.enter(EngineState::Stopped);
            },
            _ => {},
        }
    }

    /// The current state.
    #[verifier::when_used_as_spec(spec_state)]
    pub fn state(&self) -> (state: EngineState)
        ensures
            state == self@.state,
    {
        self.data.state
    }

    /// Sends `event` into the engine's bus. It reaches the ready queue with a
    /// later `step`.
    pub fn dispatch(&self, event: Event) {
        self.data.event_dispatcher.send(event);
    }

    /// A dispatcher into the engine's bus, for other threads to keep.
    pub fn dispatcher(&self) -> Dispatcher {
        self.data.event_dispatcher.clone()
    }

    /// The engine's reaction to `event`, if it has one.
    pub fn react(event: &Event) -> (reaction: Option<Reaction>)
        ensures
            reaction == reaction_to(*event),
    {
        match event {
            Event::Engine(EngineEvent::Started) => Some(Reaction::Started),
            Event::Engine(EngineEvent::Shutdown) => Some(Reaction::Shutdown),
            Event::Engine(EngineEvent::Stopped) => Some(Reaction::Stopped),
            Event::Mouse(_) => None,
            _ => Some(Reaction::Unhandled(*event)),
        }
    }

    /// Deals with one event that came off the bus: first the engine's own
    /// reaction, if any, is put down, then the event joins the back of the
    /// ready queue.
    pub fn accept(&mut self, event: Event)
        requires
            old(self).wf(),
        ensures
            final(self).wf(),
            final(self)@ == (EngineView {
                ready: old(self)@.ready.push(event),
                reactions: put_down(old(self)@.reactions, reaction_to(event)),
                ..old(self)@
            }),
    {
        match Engine::react(&event) {
            Some(reaction) => {
                self.reactions.push_back(reaction);
            },
            None => {},
        }
        self.ready_events.push_back(event);
    }

    /// Polls the bus once and deals with what the poll brought, as
    /// `after_poll` says: an event is dealt with as `accept` does, a bus that
    /// has lost every dispatcher is reported, and an empty bus changes
    /// nothing but the record of the poll. The answer is whether the poll
    /// brought an event.
    ///
    /// What the poll brings is up to the dispatchers.
    pub fn handle_event(&mut self) -> (handled: bool)
        requires
            old(self).wf(),
        ensures
            final(self).wf(),
            final(self)@.polled.len() == old(self)@.polled.len() + 1,
            final(self)@ == after_poll(old(self)@, final(self)@.polled.last()),
            handled == (final(self)@.polled.last() is Event),
    {
        let polled = self.event_consumer.try_poll();
        proof {
            self.polled@ = self.polled@.push(polled);
        }
        match polled {
            Polled::Event(event) => {
                self.accept(event);
                true
            },
            Polled::Empty => false,
            Polled::Disconnected => {
                self.reactions.push_back(Reaction::BusDisconnected);
                false
            },
        }
    }

    /// Drains the bus once: polls it until a poll brings no event, and deals
    /// with what each poll brought as `handle_event` does, in the order of
    /// the polls.
    ///
    /// The polls of this call are one drain, as `drained` says. The ready
    /// queue grows by their events, in order, and the reactions by the
    /// engine's reactions to them. The lifecycle state and the pool are
    /// untouched.
    pub fn step(&mut self)
        requires
            old(self).wf(),
        ensures
            final(self).wf(),
            old(self)@.polled.is_prefix_of(final(self)@.polled),
            drained(final(self)@.polled.skip(old(self)@.polled.len() as int)),
            final(self)@ == (EngineView {
                polled: final(self)@.polled,
                ready: old(self)@.ready + events_of(
                    final(self)@.polled.skip(old(self)@.polled.len() as int),
                ),
                reactions: old(self)@.reactions + reactions_of(
                    final(self)@.polled.skip(old(self)@.polled.len() as int),
                ),
                ..old(self)@
            }),
    {
        self.handle_all_events();
    }

    fn handle_all_events(&mut self)
        requires
            old(self).wf(),
        ensures
            final(self).wf(),
            old(self)@.polled.is_prefix_of(final(self)@.polled),
            drained(final(self)@.polled.skip(old(self)@.polled.len() as int)),
            final(self)@ == (EngineView {
                polled: final(self)@.polled,
                ready: old(self)@.ready + events_of(
                    final(self)@.polled.skip(old(self)@.polled.len() as int),
                ),
                reactions: old(self)@.reactions + reactions_of(
                    final(self)@.polled.skip(old(self)@.polled.len() as int),
                ),
                ..old(self)@
            }),
    {
        let ghost start = self@.polled.len() as int;
        proof {
            assert(self@.polled.skip(start) =~= Seq::<Polled>::empty());
        }
        let mut budget: usize = usize::MAX;
        let mut pending: bool = true;
        while pending && budget > 0
            invariant
                self.wf(),
                start == old(self)@.polled.len(),
                old(self)@.polled.is_prefix_of(self@.polled),
                self@ == (EngineView {
                    polled: self@.polled,
                    ready: old(self)@.ready + events_of(self@.polled.skip(start)),
                    reactions: old(self)@.reactions + reactions_of(self@.polled.skip(start)),
                    ..old(self)@
                }),
                pending ==> self@.polled.len() - start == usize::MAX - budget,
                pending ==> forall|at: int|
                    0 <= at < self@.polled.len() - start ==> (#[trigger] self@.polled.skip(
                        start,
                    )[at]) is Event,
                !pending ==> drained(self@.polled.skip(start)),
            decreases budget + (if pending { 1int } else { 0int }),
        {
            let ghost before = self@;
            pending = self.handle_event();
            proof {
                let earlier = before.polled.skip(start);
                let now = self@.polled.skip(start);
                let latest = self@.polled.last();
                assert(now =~= earlier.push(latest));
                assert(now.drop_last() =~= earlier);
                assert forall|at: int| 0 <= at < now.len() - 1 implies (#[trigger] now[at]) is Event by {
                    assert(now[at] == earlier[at]);
                }
                assert(reactions_of(now) == put_down(
                    reactions_of(earlier),
                    reaction_to_poll(latest),
                ));
                assert(self@.reactions =~= old(self)@.reactions + reactions_of(now));
                assert(self@.ready =~= old(self)@.ready + events_of(now));
            }
            if pending {
                budget -= 1;
            }
        }
    }

    /// Takes the oldest ready event, if any.
    pub fn require_event(&mut self) -> (event: Option<Event>)
        requires
            old(self).wf(),
        ensures
            final(self).wf(),
            match event {
                Some(oldest) => old(self)@.ready.len() > 0 && oldest == old(self)@.ready[0]
                    && final(self)@ == (EngineView {
                    ready: old(self)@.ready.skip(1),
                    ..old(self)@
                }),
                None => old(self)@.ready.len() == 0 && final(self)@ == old(self)@,
            },
    {
        self.ready_events.pop_front()
    }

    /// Takes the oldest reaction that waits to be carried out, if any.
    pub fn require_reaction(&mut self) -> (reaction: Option<Reaction>)
        requires
            old(self).wf(),
        ensures
            final(self).wf(),
            match reaction {
                Some(oldest) => old(self)@.reactions.len() > 0 && oldest == old(self)@.reactions[0]
                    && final(self)@ == (EngineView {
                    reactions: old(self)@.reactions.skip(1),
                    ..old(self)@
                }),
                None => old(self)@.reactions.len() == 0 && final(self)@ == old(self)@,
            },
    {
        self.reactions.pop_front()
    }

    /// Passes `instruction` to the worker pool, as `WorkerPool::send` does.
    /// If the pool turns it down the engine puts down an `InstructionFailed`
    /// reaction and carries on; its lifecycle state is never touched.
    pub fn instruct(&mut self, instruction: WorkerInstruction)
        requires
            old(self).wf(),
        ensures
            final(self).wf(),
            exists|seen: Seq<WorkerNotification>, result: Result<(), pool::Error>|
                {
                    &&& #[trigger] send_outcome(
                        old(self)@.pool,
                        seen,
                        instruction.order(),
                        final(self)@.pool,
                        result,
                    )
                    &&& final(self)@.reactions == match result {
                        Ok(_) => old(self)@.reactions,
                        Err(refusal) => old(self)@.reactions.push(
                            Reaction::InstructionFailed(refusal),
                        ),
                    }
                },
            final(self)@ == (EngineView {
                reactions: final(self)@.reactions,
                pool: final(self)@.pool,
                ..old(self)@
            }),
    {
        let ghost order = instruction.order();
        let result = self.worker_pool.send(instruction);
        match result {
            Ok(_) => {},
            Err(refusal) => {
                self.reactions.push_back(Reaction::InstructionFailed(refusal));
            },
        }
        proof {
            let seen = choose|seen: Seq<WorkerNotification>| #[trigger]
                send_outcome(old(self)@.pool, seen, order, self@.pool, result);
            assert(send_outcome(old(self)@.pool, seen, order, self@.pool, result));
        }
    }

    /// Hands out the runtimes of the pool's workers that wait for a thread,
    /// as `WorkerPool::take_unstarted` does.
    pub fn take_unstarted(&mut self) -> (runtimes: Vec<WorkerRuntime>)
        requires
            old(self).wf(),
        ensures
            final(self).wf(),
            final(self)@ == (EngineView {
                pool: PoolView { unstarted: 0, ..old(self)@.pool },
                ..old(self)@
            }),
            runtimes@ == old(self).waiting(),
            runtimes@.len() == old(self)@.pool.unstarted,
            pool::fresh_runtimes(runtimes@, old(self)@.pool.joined.len() as int),
    {
        self.worker_pool.take_unstarted()
    }
}

} // verus!
