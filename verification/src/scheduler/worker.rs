//! A worker: the record the pool keeps of it, and the runtime that its thread
//! drives, one instruction at a time.

use super::cell;
use super::transport;
use super::Job;
use crossbeam::channel::Receiver;
use crossbeam::channel::Sender;
use std::sync::Arc;
use std::sync::Mutex;
use vstd::prelude::*;

verus! {

/// Failures of joining a worker's thread.
#[derive(Debug, PartialEq, Eq)]
pub enum Error {
    /// The thread was joined before.
    ThreadAlreadyJoined,
    /// The thread ended by panicking; the text is what it panicked with.
    ThreadJoinFailure(String),
}

/// The role a worker currently plays.
#[derive(Debug, Clone, Copy, PartialEq, Eq, Hash, Structural)]
pub enum WorkerKind {
    /// Picks up any instruction. The number is the worker's slot in its pool
    /// and never changes.
    Generic(usize),
    /// Dedicated to networking.
    Networking,
}

impl WorkerKind {
    /// Number of distinct kinds.
    pub const COUNT: usize = 2;

    /// Whether this is the home kind of some worker rather than a dedicated
    /// tag.
    pub fn is_generic(&self) -> (generic: bool)
        ensures
            generic == (*self is Generic),
    {
        match self {
            WorkerKind::Generic(_) => true,
            WorkerKind::Networking => false,
        }
    }
}

/// Whether a worker is running a job.
#[derive(Debug, Clone, Copy, PartialEq, Eq, Structural)]
pub enum WorkerState {
    /// Waiting for an instruction.
    Idle,
    /// Inside a job.
    Executing,
}

/// What a pool can ask of a worker.
pub enum WorkerInstruction {
    /// Reserved. A worker that receives it leaves its loop.
    Wait,
    /// Run the job.
    Execute(Job),
    /// Leave the loop.
    Terminate,
    /// Take on the given kind for the duration of the job.
    Specialize(WorkerKind, Job),
}

/// What a worker reports back to its pool.
#[derive(Debug, Clone, Copy, PartialEq, Eq, Structural)]
pub enum WorkerNotification {
    /// A job is about to run on a worker of this kind.
    JobStarted(WorkerKind),
    /// That job returned.
    JobCompleted(WorkerKind),
    /// A worker took on this kind and is about to run the job.
    SpecializedJobStarted(WorkerKind),
    /// The specialized job returned; the reservation of this kind can go.
    SpecializedJobCompleted(WorkerKind),
}

/// An instruction without its job: all that decides how a worker behaves.
#[derive(Debug, Clone, Copy, PartialEq, Eq, Structural)]
pub enum Order {
    Wait,
    Execute,
    Terminate,
    Specialize(WorkerKind),
}

/// One observable action of a worker.
pub enum Step {
    /// Published this kind.
    Kind(WorkerKind),
    /// Published this state.
    State(WorkerState),
    /// Sent this notification.
    Notify(WorkerNotification),
    /// Ran a job body from start to end.
    Run,
}

/// How a worker's thread ended, as seen by whoever waited for it.
#[derive(Debug)]
pub enum ThreadExit {
    /// The loop returned.
    Finished,
    /// The thread panicked, with this text if the payload was one.
    Panicked(Option<String>),
}

impl WorkerInstruction {
    /// The instruction with its job left out.
    pub open spec fn spec_order(&self) -> Order {
        match *self {
            WorkerInstruction::Wait => Order::Wait,
            WorkerInstruction::Execute(_) => Order::Execute,
            WorkerInstruction::Terminate => Order::Terminate,
            WorkerInstruction::Specialize(kind, _) => Order::Specialize(kind),
        }
    }

    /// The instruction with its job left out.
    #[verifier::when_used_as_spec(spec_order)]
    pub fn order(&self) -> (order: Order)
        ensures
            order == self.order(),
    {
        match self {
            WorkerInstruction::Wait => Order::Wait,
            WorkerInstruction::Execute(_) => Order::Execute,
            WorkerInstruction::Terminate => Order::Terminate,
            WorkerInstruction::Specialize(kind, _) => Order::Specialize(*kind),
        }
    }
}

/// What a wait on the instruction queue brought, with the job left out.
pub open spec fn brought_by(received: Option<WorkerInstruction>) -> Option<Order> {
    match received {
        Some(instruction) => Some(instruction.order()),
        None => None,
    }
}

impl Order {
    /// Whether a worker goes on to wait for the next instruction after this
    /// one.
    pub open spec fn spec_keeps_serving(self) -> bool {
        self is Execute || self is Specialize
    }

    /// Whether a worker goes on to wait for the next instruction after this
    /// one.
    #[verifier::when_used_as_spec(spec_keeps_serving)]
    pub fn keeps_serving(self) -> (serving: bool)
        ensures
            serving == self.keeps_serving(),
    {
        match self {
            Order::Execute => true,
            Order::Specialize(_) => true,
            _ => false,
        }
    }
}

/// The actions, in order, by which a worker whose kind is `kind` answers
/// `order`.
///
/// A plain job is bracketed by the state change and by the two notifications.
/// A specialization is taken only by a generic worker: it adopts the new kind,
/// runs the job, reports completion while it still has that kind, and only
/// then returns to its home kind. Any other worker drops the job.
pub open spec fn script(kind: WorkerKind, order: Order) -> Seq<Step> {
    match order {
        Order::Wait => Seq::empty(),
        Order::Terminate => Seq::empty(),
        Order::Execute => seq![
            Step::State(WorkerState::Executing),
            Step::Notify(WorkerNotification::JobStarted(kind)),
            Step::Run,
            Step::State(WorkerState::Idle),
            Step::Notify(WorkerNotification::JobCompleted(kind)),
        ],
        Order::Specialize(specialization) => match kind {
            WorkerKind::Generic(_) => seq![
                Step::Kind(specialization),
                Step::State(WorkerState::Executing),
                Step::Notify(WorkerNotification::SpecializedJobStarted(specialization)),
                Step::Run,
                Step::Notify(WorkerNotification::SpecializedJobCompleted(specialization)),
                Step::Kind(kind),
                Step::State(WorkerState::Idle),
            ],
            _ => Seq::empty(),
        },
    }
}

/// The state a worker shows just before the step at `position`, when it
/// showed `start` before the first step.
pub open spec fn state_at(steps: Seq<Step>, position: int, start: WorkerState) -> WorkerState
    decreases position,
{
    if position <= 0 || position > steps.len() {
        start
    } else {
        match steps[position - 1] {
            Step::State(state) => state,
            _ => state_at(steps, position - 1, start),
        }
    }
}

/// The kind a worker shows just before the step at `position`, when it showed
/// `start` before the first step.
pub open spec fn kind_at(steps: Seq<Step>, position: int, start: WorkerKind) -> WorkerKind
    decreases position,
{
    if position <= 0 || position > steps.len() {
        start
    } else {
        match steps[position - 1] {
            Step::Kind(kind) => kind,
            _ => kind_at(steps, position - 1, start),
        }
    }
}

/// How often `notification` is sent among the first `position` steps of
/// `steps`.
pub open spec fn times_notified(
    steps: Seq<Step>,
    position: int,
    notification: WorkerNotification,
) -> nat
    decreases position,
{
    if position <= 0 || position > steps.len() {
        0
    } else if steps[position - 1] == Step::Notify(notification) {
        times_notified(steps, position - 1, notification) + 1
    } else {
        times_notified(steps, position - 1, notification)
    }
}

/// Everything a worker does while it answers `orders` one after the other,
/// under the kind `kind` that it has between instructions.
pub open spec fn serving(kind: WorkerKind, orders: Seq<Order>) -> Seq<Step>
    decreases orders.len(),
{
    if orders.len() == 0 {
        Seq::empty()
    } else {
        serving(kind, orders.drop_last()) + script(kind, orders.last())
    }
}

/// Replaying a state over two runs of steps is replaying it over the first
/// and then, from its result, over the second.
pub proof fn lemma_state_at_concat(first: Seq<Step>, second: Seq<Step>, position: int, start: WorkerState)
    requires
        0 <= position <= second.len(),
    ensures
        state_at(first + second, first.len() + position, start) == state_at(
            second,
            position,
            state_at(first, first.len() as int, start),
        ),
    decreases position,
{
    let whole = first + second;
    if position == 0 {
        lemma_state_at_prefix(first, second, first.len() as int, start);
    } else {
        assert(whole[first.len() + position - 1] == second[position - 1]);
        lemma_state_at_concat(first, second, position - 1, start);
    }
}

/// Steps that come later do not change what a worker showed earlier.
pub proof fn lemma_state_at_prefix(first: Seq<Step>, second: Seq<Step>, position: int, start: WorkerState)
    requires
        0 <= position <= first.len(),
    ensures
        state_at(first + second, position, start) == state_at(first, position, start),
    decreases position,
{
    if position > 0 {
        assert((first + second)[position - 1] == first[position - 1]);
        lemma_state_at_prefix(first, second, position - 1, start);
    }
}

/// Replaying a kind over two runs of steps is replaying it over the first and
/// then, from its result, over the second.
pub proof fn lemma_kind_at_concat(first: Seq<Step>, second: Seq<Step>, position: int, start: WorkerKind)
    requires
        0 <= position <= second.len(),
    ensures
        kind_at(first + second, first.len() + position, start) == kind_at(
            second,
            position,
            kind_at(first, first.len() as int, start),
        ),
    decreases position,
{
    let whole = first + second;
    if position == 0 {
        lemma_kind_at_prefix(first, second, first.len() as int, start);
    } else {
        assert(whole[first.len() + position - 1] == second[position - 1]);
        lemma_kind_at_concat(first, second, position - 1, start);
    }
}

/// Steps that come later do not change the kind a worker showed earlier.
pub proof fn lemma_kind_at_prefix(first: Seq<Step>, second: Seq<Step>, position: int, start: WorkerKind)
    requires
        0 <= position <= first.len(),
    ensures
        kind_at(first + second, position, start) == kind_at(first, position, start),
    decreases position,
{
    if position > 0 {
        assert((first + second)[position - 1] == first[position - 1]);
        lemma_kind_at_prefix(first, second, position - 1, start);
    }
}

/// Within one instruction, a job body runs only while the worker shows
/// `Executing`, and the worker shows `Idle` again once the instruction is
/// done.
pub proof fn lemma_job_runs_while_executing(kind: WorkerKind, order: Order, position: int)
    requires
        0 <= position < script(kind, order).len(),
        script(kind, order)[position] == Step::Run,
    ensures
        state_at(script(kind, order), position, WorkerState::Idle) == WorkerState::Executing,
        state_at(script(kind, order), script(kind, order).len() as int, WorkerState::Idle)
            == WorkerState::Idle,
{
    reveal_with_fuel(state_at, 8);
}

/// Within one instruction, a worker shows `Executing` only if the
/// instruction makes it run a job; an instruction without a job leaves the
/// state alone.
pub proof fn lemma_executing_only_with_a_job(kind: WorkerKind, order: Order, position: int)
    requires
        0 <= position <= script(kind, order).len(),
        state_at(script(kind, order), position, WorkerState::Idle) == WorkerState::Executing,
    ensures
        order.keeps_serving(),
        exists|at: int| 0 <= at < script(kind, order).len() && script(kind, order)[at] == Step::Run,
{
    reveal_with_fuel(state_at, 8);
    match order {
        Order::Execute => {
            assert(script(kind, order)[2] == Step::Run);
        },
        Order::Specialize(_) => {
            if kind is Generic {
                assert(script(kind, order)[3] == Step::Run);
            }
        },
        _ => {},
    }
}

/// Whatever the instruction, a worker has the kind it started with once the
/// instruction is done. A generic worker that took a specialization is
/// generic again, under the same number.
pub proof fn lemma_kind_is_restored(kind: WorkerKind, order: Order)
    ensures
        kind_at(script(kind, order), script(kind, order).len() as int, kind) == kind,
{
    reveal_with_fuel(kind_at, 8);
}

/// A worker reports the end of a specialized job while it still shows the
/// dedicated kind: at every step that sends `SpecializedJobCompleted(k)`, the
/// kind shown is `k`.
pub proof fn lemma_completion_is_reported_under_the_dedicated_kind(
    id: usize,
    order: Order,
    specialization: WorkerKind,
    position: int,
)
    requires
        0 <= position < script(WorkerKind::Generic(id), order).len(),
        script(WorkerKind::Generic(id), order)[position] == Step::Notify(
            WorkerNotification::SpecializedJobCompleted(specialization),
        ),
    ensures
        kind_at(script(WorkerKind::Generic(id), order), position, WorkerKind::Generic(id))
            == specialization,
{
    reveal_with_fuel(kind_at, 8);
}

/// A generic worker answers `Specialize(k)` with exactly one
/// `SpecializedJobCompleted(k)`. No other instruction makes it send one, and a
/// worker that is not generic sends none at all.
pub proof fn lemma_one_completion_per_specialization(
    kind: WorkerKind,
    order: Order,
    specialization: WorkerKind,
)
    ensures
        times_notified(
            script(kind, order),
            script(kind, order).len() as int,
            WorkerNotification::SpecializedJobCompleted(specialization),
        ) == if kind is Generic && order == Order::Specialize(specialization) {
            1nat
        } else {
            0nat
        },
{
    reveal_with_fuel(times_notified, 8);
}

/// Over the whole life of a worker that starts idle under its home kind:
/// whenever a job body runs the worker shows `Executing`, and between
/// instructions it shows `Idle` and its home kind.
pub proof fn lemma_worker_life(id: usize, orders: Seq<Order>, position: int)
    requires
        0 <= position <= serving(WorkerKind::Generic(id), orders).len(),
    ensures
        position < serving(WorkerKind::Generic(id), orders).len() && serving(
            WorkerKind::Generic(id),
            orders,
        )[position] == Step::Run ==> state_at(
            serving(WorkerKind::Generic(id), orders),
            position,
            WorkerState::Idle,
        ) == WorkerState::Executing,
        state_at(
            serving(WorkerKind::Generic(id), orders),
            serving(WorkerKind::Generic(id), orders).len() as int,
            WorkerState::Idle,
        ) == WorkerState::Idle,
        kind_at(
            serving(WorkerKind::Generic(id), orders),
            serving(WorkerKind::Generic(id), orders).len() as int,
            WorkerKind::Generic(id),
        ) == WorkerKind::Generic(id),
    decreases orders.len(),
{
    let home = WorkerKind::Generic(id);
    if orders.len() > 0 {
        let earlier = serving(home, orders.drop_last());
        let latest = script(home, orders.last());
        let whole = serving(home, orders);
        assert(whole == earlier + latest);
        lemma_worker_life(id, orders.drop_last(), earlier.len() as int);
        lemma_state_at_concat(earlier, latest, latest.len() as int, WorkerState::Idle);
        lemma_kind_at_concat(earlier, latest, latest.len() as int, home);
        lemma_kind_is_restored(home, orders.last());
        assert(state_at(latest, latest.len() as int, WorkerState::Idle) == WorkerState::Idle) by {
            reveal_with_fuel(state_at, 8);
        }
        if position < earlier.len() {
            lemma_worker_life(id, orders.drop_last(), position);
            lemma_state_at_prefix(earlier, latest, position, WorkerState::Idle);
            assert(whole[position] == earlier[position]);
        } else if position < whole.len() {
            let within = position - earlier.len();
            assert(whole[position] == latest[within]);
            lemma_state_at_concat(earlier, latest, within, WorkerState::Idle);
            if latest[within] == Step::Run {
                lemma_job_runs_while_executing(home, orders.last(), within);
            }
        }
    }
}

/// What `Worker::join` returns: `already_joined` is whether the worker was
/// joined before, `exit` how its thread ended.
pub open spec fn join_outcome(already_joined: bool, exit: ThreadExit, result: Result<(), Error>) -> bool {
    if already_joined {
        result == Err::<(), Error>(Error::ThreadAlreadyJoined)
    } else {
        match exit {
            ThreadExit::Finished => result is Ok,
            ThreadExit::Panicked(Some(message)) => {
                &&& result matches Err(Error::ThreadJoinFailure(text))
                &&& text@ == message@
            },
            ThreadExit::Panicked(None) => {
                &&& result matches Err(Error::ThreadJoinFailure(text))
                &&& text@ == "unknown reason"@
            },
        }
    }
}

/// The pool's record of one worker.
///
/// The kind and the state are read from cells that the worker's thread writes,
/// so what `kind` and `state` return is whatever that thread published last.
pub struct Worker {
    id: usize,
    kind: Arc<Mutex<WorkerKind>>,
    state: Arc<Mutex<WorkerState>>,
    joined: bool,
}

/// The half of a worker that lives on its thread: it receives instructions,
/// carries them out and reports to the pool.
pub struct WorkerRuntime {
    id: usize,
    kind: WorkerKind,
    state: WorkerState,
    shared_kind: Arc<Mutex<WorkerKind>>,
    shared_state: Arc<Mutex<WorkerState>>,
    receiver: Receiver<WorkerInstruction>,
    notification_sender: Sender<WorkerNotification>,
    orders: Ghost<Seq<Order>>,
    trace: Ghost<Seq<Step>>,
    waits: Ghost<Seq<Option<Order>>>,
}

impl Worker {
    /// Creates worker number `id`: the record for the pool, and the runtime
    /// that a thread of its own is to drive with `WorkerRuntime::serve` until
    /// that returns `false`.
    ///
    /// The runtime receives from `receiver` and reports through
    /// `notification_sender`.
    pub fn new(
        id: usize,
        receiver: Receiver<WorkerInstruction>,
        notification_sender: Sender<WorkerNotification>,
    ) -> (made: (Worker, WorkerRuntime))
        ensures
            made.0.id() == id,
            !made.0.is_joined(),
            made.1.id() == id,
            made.1.wf(),
            made.1.served() == Seq::<Order>::empty(),
            made.1.waited() == Seq::<Option<Order>>::empty(),
    {
        let kind = Arc::new(Mutex::new(WorkerKind::Generic(id)));
        let state = Arc::new(Mutex::new(WorkerState::Idle));
        let runtime = WorkerRuntime {
            id,
            kind: WorkerKind::Generic(id),
            state: WorkerState::Idle,
            shared_kind: cell::share(&kind),
            shared_state: cell::share(&state),
            receiver,
            notification_sender,
            orders: Ghost(Seq::empty()),
            trace: Ghost(Seq::empty()),
            waits: Ghost(Seq::empty()),
        };
        (Worker { id, kind, state, joined: false }, runtime)
    }

    pub closed spec fn spec_id(&self) -> usize {
        self.id
    }

    /// The worker's slot in its pool.
    #[verifier::when_used_as_spec(spec_id)]
    pub fn id(&self) -> (id: usize)
        ensures
            id == self.id(),
    {
        self.id
    }

    pub closed spec fn spec_is_joined(&self) -> bool {
        self.joined
    }

    /// Whether the worker's thread has been joined.
    #[verifier::when_used_as_spec(spec_is_joined)]
    pub fn is_joined(&self) -> (joined: bool)
        ensures
            joined == self.is_joined(),
    {
        self.joined
    }

    /// The kind the worker published last. It is written by the worker's
    /// thread, so nothing is promised of it here.
    pub fn kind(&self) -> WorkerKind {
        cell::load(&self.kind)
    }

    /// The state the worker published last. It is written by the worker's
    /// thread, so nothing is promised of it here.
    pub fn state(&self) -> WorkerState {
        cell::load(&self.state)
    }

    /// Records that the worker's thread was waited for and ended as `exit`
    /// says.
    ///
    /// A worker can be joined once. After that the answer is
    /// `ThreadAlreadyJoined`, whatever `exit` is.
    pub fn join(&mut self, exit: ThreadExit) -> (result: Result<(), Error>)
        ensures
            final(self).is_joined(),
            final(self).id() == old(self).id(),
            join_outcome(old(self).is_joined(), exit, result),
    {
        if self.joined {
            return Err(Error::ThreadAlreadyJoined);
        }
        self.joined = true;
        match exit {
            ThreadExit::Finished => Ok(()),
            ThreadExit::Panicked(Some(message)) => Err(Error::ThreadJoinFailure(message)),
            ThreadExit::Panicked(None) => Err(Error::ThreadJoinFailure("unknown reason".to_owned())),
        }
    }
}

impl WorkerRuntime {
    pub closed spec fn spec_id(&self) -> usize {
        self.id
    }

    /// The worker's slot in its pool.
    #[verifier::when_used_as_spec(spec_id)]
    pub fn id(&self) -> (id: usize)
        ensures
            id == self.id(),
    {
        self.id
    }

    pub closed spec fn spec_kind(&self) -> WorkerKind {
        self.kind
    }

    /// The kind the worker has right now.
    #[verifier::when_used_as_spec(spec_kind)]
    pub fn kind(&self) -> (kind: WorkerKind)
        ensures
            kind == self.kind(),
    {
        self.kind
    }

    pub closed spec fn spec_state(&self) -> WorkerState {
        self.state
    }

    /// The state the worker has right now.
    #[verifier::when_used_as_spec(spec_state)]
    pub fn state(&self) -> (state: WorkerState)
        ensures
            state == self.state(),
    {
        self.state
    }

    /// Every action the worker has taken so far, oldest first.
    pub closed spec fn trace(&self) -> Seq<Step> {
        self.trace@
    }

    /// Every order the worker has answered so far, oldest first.
    pub closed spec fn served(&self) -> Seq<Order> {
        self.orders@
    }

    /// What every wait on the instruction queue has brought so far, oldest
    /// first: an order, or nothing when the queue was gone.
    pub closed spec fn waited(&self) -> Seq<Option<Order>> {
        self.waits@
    }

    /// The worker is between instructions: idle, under its home kind.
    pub open spec fn is_home(&self) -> bool {
        self.kind() == WorkerKind::Generic(self.id()) && self.state() == WorkerState::Idle
    }

    /// The worker is at home, and its actions so far are those of a worker
    /// that started at home and answered `served()` in order.
    pub open spec fn wf(&self) -> bool {
        &&& self.is_home()
        &&& self.trace() == serving(WorkerKind::Generic(self.id()), self.served())
    }

    fn set_kind(&mut self, kind: WorkerKind)
        ensures
            final(self).kind() == kind,
            final(self).state() == old(self).state(),
            final(self).id() == old(self).id(),
            final(self).trace() == old(self).trace().push(Step::Kind(kind)),
            final(self).served() == old(self).served(),
            final(self).waited() == old(self).waited(),
    {
        cell::store(&self.shared_kind, kind);
        self.kind = kind;
        proof {
            self.trace@ = self.trace@.push(Step::Kind(kind));
        }
    }

    fn set_state(&mut self, state: WorkerState)
        ensures
            final(self).state() == state,
            final(self).kind() == old(self).kind(),
            final(self).id() == old(self).id(),
            final(self).trace() == old(self).trace().push(Step::State(state)),
            final(self).served() == old(self).served(),
            final(self).waited() == old(self).waited(),
    {
        cell::store(&self.shared_state, state);
        self.state = state;
        proof {
            self.trace@ = self.trace@.push(Step::State(state));
        }
    }

    /// Reports to the pool. A pool that is gone cannot be told; the worker
    /// carries on regardless.
    fn notify(&mut self, notification: WorkerNotification)
        ensures
            final(self).state() == old(self).state(),
            final(self).kind() == old(self).kind(),
            final(self).id() == old(self).id(),
            final(self).trace() == old(self).trace().push(Step::Notify(notification)),
            final(self).served() == old(self).served(),
            final(self).waited() == old(self).waited(),
    {
        let _ = transport::send(&self.notification_sender, notification);
        proof {
            self.trace@ = self.trace@.push(Step::Notify(notification));
        }
    }

    fn run(&mut self, job: Job)
        ensures
            final(self).state() == old(self).state(),
            final(self).kind() == old(self).kind(),
            final(self).id() == old(self).id(),
            final(self).trace() == old(self).trace().push(Step::Run),
            final(self).served() == old(self).served(),
            final(self).waited() == old(self).waited(),
    {
        job.run();
        proof {
            self.trace@ = self.trace@.push(Step::Run);
        }
    }

    /// Carries out one instruction and says whether the worker goes on
    /// serving.
    ///
    /// The actions taken are exactly `script` of the worker's kind and the
    /// instruction, in that order. The worker ends under the kind it started
    /// with, and idle whenever it ran a job.
    pub fn handle(&mut self, instruction: WorkerInstruction) -> (serving: bool)
        ensures
            serving == instruction.order().keeps_serving(),
            final(self).trace() == old(self).trace() + script(old(self).kind(), instruction.order()),
            final(self).served() == old(self).served().push(instruction.order()),
            final(self).waited() == old(self).waited(),
            final(self).id() == old(self).id(),
            final(self).kind() == old(self).kind(),
            final(self).state() == state_at(
                script(old(self).kind(), instruction.order()),
                script(old(self).kind(), instruction.order()).len() as int,
                old(self).state(),
            ),
            old(self).wf() ==> final(self).wf(),
    {
        let ghost before = self.trace@;
        let ghost steps = script(self.kind, instruction.order());
        proof {
            let answered = self.orders@.push(instruction.order());
            assert(answered.drop_last() =~= self.orders@);
            self.orders@ = answered;
        }
        match instruction {
            WorkerInstruction::Wait => {
                assert(self.trace@ =~= before + steps);
                false
            },
            WorkerInstruction::Terminate => {
                assert(self.trace@ =~= before + steps);
                false
            },
            WorkerInstruction::Execute(job) => {
                let kind = self.kind;
                self.set_state(WorkerState::Executing);
                self.notify(WorkerNotification::JobStarted(kind));
                self.run(job);
                self.set_state(WorkerState::Idle);
                self.notify(WorkerNotification::JobCompleted(kind));
                proof {
                    assert(self.trace@ =~= before + steps);
                    reveal_with_fuel(state_at, 3);
                }
                true
            },
            WorkerInstruction::Specialize(specialization, job) => {
                let home = self.kind;
                match home {
                    WorkerKind::Generic(_) => {
                        self.set_kind(specialization);
                        self.set_state(WorkerState::Executing);
                        self.notify(WorkerNotification::SpecializedJobStarted(specialization));
                        self.run(job);
                        self.notify(WorkerNotification::SpecializedJobCompleted(specialization));
                        self.set_kind(home);
                        self.set_state(WorkerState::Idle);
                    },
                    _ => {},
                }
                proof {
                    assert(self.trace@ =~= before + steps);
                    reveal_with_fuel(state_at, 3);
                }
                true
            },
        }
    }

    /// Waits once on the instruction queue and hands back what the wait
    /// brought: the next instruction, or nothing once the pool's end of the
    /// queue is gone. The wait is put on record; nothing else changes.
    ///
    /// Which instruction arrives is up to the senders.
    pub fn wait(&mut self) -> (received: Option<WorkerInstruction>)
        ensures
            final(self).waited() == old(self).waited().push(brought_by(received)),
            final(self).served() == old(self).served(),
            final(self).trace() == old(self).trace(),
            final(self).state() == old(self).state(),
            final(self).kind() == old(self).kind(),
            final(self).id() == old(self).id(),
    {
        let received = transport::receive(&self.receiver);
        proof {
            self.waits@ = self.waits@.push(brought_by(received));
        }
        received
    }

    /// Waits once for the next instruction. If one arrives, the worker carries
    /// it out as `handle` does, and the answer says whether it goes on
    /// serving. If the pool's end of the queue is gone, nothing but the record
    /// of the wait changes and the answer is `false`.
    ///
    /// Which instruction arrives is up to the senders. The worker keeps its
    /// kind either way.
    pub fn serve(&mut self) -> (serving: bool)
        ensures
            final(self).waited().len() == old(self).waited().len() + 1,
            final(self).waited().drop_last() == old(self).waited(),
            match final(self).waited().last() {
                Some(order) => {
                    &&& serving == order.keeps_serving()
                    &&& final(self).served() == old(self).served().push(order)
                    &&& final(self).trace() == old(self).trace() + script(old(self).kind(), order)
                    &&& final(self).state() == state_at(
                        script(old(self).kind(), order),
                        script(old(self).kind(), order).len() as int,
                        old(self).state(),
                    )
                },
                None => {
                    &&& !serving
                    &&& final(self).served() == old(self).served()
                    &&& final(self).trace() == old(self).trace()
                    &&& final(self).state() == old(self).state()
                },
            },
            final(self).id() == old(self).id(),
            final(self).kind() == old(self).kind(),
            old(self).wf() ==> final(self).wf(),
    {
        let received = self.wait();
        proof {
            assert(self.waited().drop_last() =~= old(self).waited());
        }
        match received {
            Some(instruction) => self.handle(instruction),
            None => false,
        }
    }
}

} // verus!
