//! The worker pool: a fixed set of worker slots behind one shared instruction
//! queue, and the set of specializations that are currently taken.

use super::transport;
use super::worker;
use super::worker::Order;
use super::worker::ThreadExit;
use super::worker::Worker;
use super::worker::WorkerInstruction;
use super::worker::WorkerKind;
use super::worker::WorkerNotification;
use super::worker::WorkerRuntime;
use crossbeam::channel::Receiver;
use crossbeam::channel::Sender;
use vstd::prelude::*;

verus! {

/// Why the pool turned an instruction down.
#[derive(Debug, Clone, Copy, PartialEq, Eq, Structural)]
pub enum Error {
    /// The instruction queue is broken.
    InstructionSendFail,
    /// This specialization is taken and its job has not been seen to end.
    SpecializationAlreadyExists(WorkerKind),
    /// A generic kind is no specialization.
    CannotSpecializeIntoGeneric,
    /// A pool keeps at least one worker. Reserved for shrinking.
    CannotShrinkToZeroOrLess,
}

/// The specializations that stay taken once the pool has seen `notification`.
/// Only the end of a specialized job frees one, and only its own.
pub open spec fn released(dedicated: Set<WorkerKind>, notification: WorkerNotification) -> Set<
    WorkerKind,
> {
    match notification {
        WorkerNotification::SpecializedJobCompleted(kind) => dedicated.remove(kind),
        _ => dedicated,
    }
}

/// The specializations that stay taken once the pool has seen all of
/// `notifications`, oldest first.
pub open spec fn released_all(
    dedicated: Set<WorkerKind>,
    notifications: Seq<WorkerNotification>,
) -> Set<WorkerKind>
    decreases notifications.len(),
{
    if notifications.len() == 0 {
        dedicated
    } else {
        released(released_all(dedicated, notifications.drop_last()), notifications.last())
    }
}

/// The admission rule. An order that asks for no specialization passes and
/// changes nothing. A specialization passes if it names a dedicated kind that
/// is free, and is taken from then on.
pub open spec fn admission(dedicated: Set<WorkerKind>, order: Order) -> Result<
    Set<WorkerKind>,
    Error,
> {
    match order {
        Order::Specialize(kind) => if kind is Generic {
            Err(Error::CannotSpecializeIntoGeneric)
        } else if dedicated.contains(kind) {
            Err(Error::SpecializationAlreadyExists(kind))
        } else {
            Ok(dedicated.insert(kind))
        },
        _ => Ok(dedicated),
    }
}

/// The number of workers a pool starts with by default, given the hardware
/// parallelism that the platform reports, if it reports any: one less than
/// reported, which leaves a thread to the caller, and never fewer than one.
pub open spec fn default_size_of(reported: Option<usize>) -> usize {
    match reported {
        Some(threads) => if threads >= 2 {
            (threads - 1) as usize
        } else {
            1
        },
        None => 1,
    }
}

/// Seeing one batch of notifications and then another is seeing them all in
/// one go.
pub proof fn lemma_released_all_concat(
    dedicated: Set<WorkerKind>,
    first: Seq<WorkerNotification>,
    second: Seq<WorkerNotification>,
)
    ensures
        released_all(released_all(dedicated, first), second) == released_all(
            dedicated,
            first + second,
        ),
    decreases second.len(),
{
    if second.len() == 0 {
        assert(first + second =~= first);
    } else {
        lemma_released_all_concat(dedicated, first, second.drop_last());
        assert((first + second).drop_last() =~= first + second.drop_last());
        assert((first + second).last() == second.last());
    }
}

/// Notifications only ever free specializations.
pub proof fn lemma_released_all_shrinks(dedicated: Set<WorkerKind>, seen: Seq<WorkerNotification>)
    ensures
        released_all(dedicated, seen).subset_of(dedicated),
    decreases seen.len(),
{
    if seen.len() > 0 {
        lemma_released_all_shrinks(dedicated, seen.drop_last());
    }
}

/// A taken specialization stays taken until the pool sees its job end: after
/// any notifications, `kind` is still taken exactly if none of them is
/// `SpecializedJobCompleted(kind)`.
pub proof fn lemma_taken_until_completion_is_seen(
    dedicated: Set<WorkerKind>,
    kind: WorkerKind,
    seen: Seq<WorkerNotification>,
)
    requires
        dedicated.contains(kind),
    ensures
        released_all(dedicated, seen).contains(kind) <==> !seen.contains(
            WorkerNotification::SpecializedJobCompleted(kind),
        ),
    decreases seen.len(),
{
    let wanted = WorkerNotification::SpecializedJobCompleted(kind);
    if seen.len() > 0 {
        let earlier = seen.drop_last();
        lemma_taken_until_completion_is_seen(dedicated, kind, earlier);
        lemma_released_all_shrinks(dedicated, earlier);
        if seen.contains(wanted) {
            let at = choose|at: int| 0 <= at < seen.len() && seen[at] == wanted;
            if at < earlier.len() {
                assert(earlier[at] == wanted);
            }
        } else {
            if earlier.contains(wanted) {
                let at = choose|at: int| 0 <= at < earlier.len() && earlier[at] == wanted;
                assert(seen[at] == wanted);
            }
            assert(seen[seen.len() - 1] != wanted);
        }
    }
}

/// Once a specialization has been admitted, asking for it again is refused
/// with `SpecializationAlreadyExists` for as long as the pool has not seen a
/// matching `SpecializedJobCompleted`, and is admitted as soon as it has.
pub proof fn lemma_readmission_needs_completion(
    dedicated: Set<WorkerKind>,
    kind: WorkerKind,
    seen: Seq<WorkerNotification>,
)
    requires
        admission(dedicated, Order::Specialize(kind)) is Ok,
    ensures
        admission(
            released_all(admission(dedicated, Order::Specialize(kind))->Ok_0, seen),
            Order::Specialize(kind),
        ) == if seen.contains(WorkerNotification::SpecializedJobCompleted(kind)) {
            Ok::<Set<WorkerKind>, Error>(
                released_all(dedicated.insert(kind), seen).insert(kind),
            )
        } else {
            Err::<Set<WorkerKind>, Error>(Error::SpecializationAlreadyExists(kind))
        },
{
    lemma_taken_until_completion_is_seen(dedicated.insert(kind), kind, seen);
}

/// `runtimes` are fresh and belong, in order, to the last slots of a pool of
/// `size` workers.
pub open spec fn fresh_runtimes(runtimes: Seq<WorkerRuntime>, size: int) -> bool {
    &&& runtimes.len() <= size
    &&& forall|at: int|
        0 <= at < runtimes.len() ==> {
            &&& (#[trigger] runtimes[at]).id() == size - runtimes.len() + at
            &&& runtimes[at].wf()
            &&& runtimes[at].served() == Seq::<Order>::empty()
        }
}

/// What a pool is, as far as its contracts are concerned. The ends of its
/// two channels and the cells of its workers are left out: they are opaque,
/// and what they hold is up to the workers' threads.
#[verifier::ext_equal]
pub struct PoolView {
    /// For each slot, whether the thread of its worker has been joined.
    pub joined: Seq<bool>,
    /// The specializations that are taken.
    pub dedicated: Set<WorkerKind>,
    /// The orders of the instructions that the pool has handed to its queue,
    /// oldest first.
    pub queued: Seq<Order>,
    /// How many runtimes wait for a thread. They belong to the last slots;
    /// `WorkerPool::waiting` gives the runtimes themselves.
    pub unstarted: nat,
}

/// What `WorkerPool::send` does and returns, given the notifications `seen`
/// that were waiting when it was called: those are taken in first, then the
/// admission rule decides. An instruction that passes is handed to the queue,
/// and only a broken queue can still fail it. One that is refused is dropped
/// and never reaches the queue.
pub open spec fn send_outcome(
    before: PoolView,
    seen: Seq<WorkerNotification>,
    order: Order,
    after: PoolView,
    result: Result<(), Error>,
) -> bool {
    match admission(released_all(before.dedicated, seen), order) {
        Ok(taken) => {
            &&& after == (PoolView {
                dedicated: taken,
                queued: before.queued.push(order),
                ..before
            })
            &&& (result is Ok || result == Err::<(), Error>(Error::InstructionSendFail))
        },
        Err(refusal) => {
            &&& after == (PoolView { dedicated: released_all(before.dedicated, seen), ..before })
            &&& result == Err::<(), Error>(refusal)
        },
    }
}

/// `results` are what joining every worker of a pool returns, slot by slot,
/// where `already_joined` says which workers were joined before and `exits`
/// how the threads ended: each worker answers as `Worker::join` does.
pub open spec fn terminated(
    already_joined: Seq<bool>,
    exits: Seq<ThreadExit>,
    results: Seq<Result<(), worker::Error>>,
) -> bool {
    &&& exits.len() == already_joined.len()
    &&& results.len() == already_joined.len()
    &&& forall|slot: int|
        0 <= slot < already_joined.len() ==> worker::join_outcome(
            already_joined[slot],
            exits[slot],
            #[trigger] results[slot],
        )
}

/// A default pool is never empty, whatever parallelism is reported: even
/// where the platform reports a single thread, or none at all, it has one
/// worker.
pub proof fn lemma_default_pool_is_never_empty(reported: Option<usize>)
    ensures
        default_size_of(reported) >= 1,
        default_size_of(Some(1usize)) == 1,
        default_size_of(None) == 1,
{
}

/// A bounded set of workers that share one instruction queue.
///
/// The pool creates the workers' runtimes but runs none of them: whoever owns
/// the pool takes them with `take_unstarted` and gives each a thread. At the
/// end `terminate_all` stops the workers and has their threads waited for.
pub struct WorkerPool {
    workers: Vec<Worker>,
    dedicated: Vec<WorkerKind>,
    instruction_sender: Sender<WorkerInstruction>,
    instruction_receiver: Receiver<WorkerInstruction>,
    notification_receiver: Receiver<WorkerNotification>,
    notification_sender: Sender<WorkerNotification>,
    unstarted: Vec<WorkerRuntime>,
    queued: Ghost<Seq<Order>>,
}

impl View for WorkerPool {
    type V = PoolView;

    closed spec fn view(&self) -> PoolView {
        PoolView {
            joined: Seq::new(self.workers@.len(), |slot: int| self.workers@[slot].is_joined()),
            dedicated: Set::new(|kind: WorkerKind| self.dedicated@.contains(kind)),
            queued: self.queued@,
            unstarted: self.unstarted@.len(),
        }
    }
}

impl WorkerPool {
    pub open spec fn spec_len(&self) -> usize {
        self@.joined.len() as usize
    }

    /// The runtimes that wait for a thread, in the order of their slots.
    pub closed spec fn waiting(&self) -> Seq<WorkerRuntime> {
        self.unstarted@
    }

    /// The invariant of a pool: no specialization is taken twice, none of
    /// them is a generic kind, worker `i` sits in slot `i`, and the runtimes
    /// that wait for a thread are fresh and belong to the last slots.
    pub closed spec fn wf(&self) -> bool {
        &&& self.dedicated@.no_duplicates()
        &&& forall|at: int| 0 <= at < self.dedicated@.len() ==> !(self.dedicated@[at] is Generic)
        &&& forall|slot: int|
            0 <= slot < self.workers@.len() ==> (#[trigger] self.workers@[slot]).id() == slot
        &&& fresh_runtimes(self.unstarted@, self.workers@.len() as int)
    }

    /// In a well-formed pool no generic kind is taken, no more runtimes wait
    /// than there are workers, and the number of workers fits a `usize`.
    pub proof fn lemma_wf(&self)
        requires
            self.wf(),
        ensures
            forall|kind: WorkerKind| self@.dedicated.contains(kind) ==> !(kind is Generic),
            self@.unstarted <= self@.joined.len() <= usize::MAX,
            self@.unstarted == self.waiting().len(),
            fresh_runtimes(self.waiting(), self@.joined.len() as int),
    {
        assert(self@.joined.len() == self.workers.len());
    }

    /// A pool of `size` workers in slots `0..size`, with nothing taken, no
    /// thread joined and every runtime waiting for a thread. Any size will
    /// do, zero too.
    pub fn new(size: usize) -> (pool: WorkerPool)
        ensures
            pool.wf(),
            pool@ == (PoolView {
                joined: Seq::new(size as nat, |slot: int| false),
                dedicated: Set::empty(),
                queued: Seq::empty(),
                unstarted: size as nat,
            }),
    {
        let (instruction_sender, instruction_receiver) = crossbeam::channel::unbounded();
        let (notification_sender, notification_receiver) = crossbeam::channel::unbounded();
        let mut pool = WorkerPool {
            workers: Vec::new(),
            dedicated: Vec::new(),
            instruction_sender,
            instruction_receiver,
            notification_receiver,
            notification_sender,
            unstarted: Vec::new(),
            queued: Ghost(Seq::empty()),
        };
        pool.add_workers(size);
        pool
    }

    /// The default number of workers for the reported hardware parallelism.
    pub fn default_size(reported: Option<usize>) -> (size: usize)
        ensures
            size == default_size_of(reported),
            size >= 1,
    {
        match reported {
            Some(threads) => if threads >= 2 {
                threads - 1
            } else {
                1
            },
            None => 1,
        }
    }

    /// The default pool, given the hardware parallelism that the platform
    /// reports, if it reports any: a pool of `default_size(reported)` workers.
    /// It is never empty.
    pub fn default(reported: Option<usize>) -> (pool: WorkerPool)
        ensures
            pool.wf(),
            pool@ == (PoolView {
                joined: Seq::new(default_size_of(reported) as nat, |slot: int| false),
                dedicated: Set::empty(),
                queued: Seq::empty(),
                unstarted: default_size_of(reported) as nat,
            }),
            pool.len() >= 1,
    {
        WorkerPool::new(WorkerPool::default_size(reported))
    }

    /// Whether a pool of `size` workers has fewer workers than there are
    /// kinds. Such a pool works, but cannot serve every kind at once.
    pub fn is_undersized(size: usize) -> (undersized: bool)
        ensures
            undersized == (size < WorkerKind::COUNT),
    {
        size < WorkerKind::COUNT
    }

    fn add_workers(&mut self, count: usize)
        requires
            old(self).wf(),
            old(self).len() + count <= usize::MAX,
        ensures
            final(self).wf(),
            final(self)@ == (PoolView {
                joined: old(self)@.joined + Seq::new(count as nat, |slot: int| false),
                unstarted: (old(self)@.unstarted + count) as nat,
                ..old(self)@
            }),
    {
        let first: usize = self.workers.len();
        let mut added: usize = 0;
        while added < count
            invariant
                added <= count,
                first + count <= usize::MAX,
                first == old(self).workers@.len(),
                self.workers@.len() == first + added,
                self.unstarted@.len() == old(self).unstarted@.len() + added,
                self.dedicated@ == old(self).dedicated@,
                self.queued@ == old(self).queued@,
                self.wf(),
                forall|slot: int|
                    0 <= slot < first ==> self.workers@[slot] == old(self).workers@[slot],
                forall|slot: int| first <= slot < first + added ==> !self.workers@[slot].is_joined(),
            decreases count - added,
        {
            let id: usize = first + added;
            let (worker, runtime) = Worker::new(
                id,
                self.instruction_receiver.clone(),
                self.notification_sender.clone(),
            );
            self.workers.push(worker);
            self.unstarted.push(runtime);
            added += 1;
        }
    }

    /// Adds `growth` workers in the slots after the last one and returns the
    /// new number of workers. Their runtimes wait for a thread.
    pub fn grow(&mut self, growth: usize) -> (size: usize)
        requires
            old(self).wf(),
            old(self).len() + growth <= usize::MAX,
        ensures
            final(self).wf(),
            size == old(self).len() + growth,
            final(self)@ == (PoolView {
                joined: old(self)@.joined + Seq::new(growth as nat, |slot: int| false),
                unstarted: (old(self)@.unstarted + growth) as nat,
                ..old(self)@
            }),
    {
        self.add_workers(growth);
        assert(self@.joined.len() == self.workers.len());
        self.workers.len()
    }

    /// Number of workers.
    #[verifier::when_used_as_spec(spec_len)]
    pub fn len(&self) -> (len: usize)
        ensures
            len == self@.joined.len(),
    {
        self.workers.len()
    }

    /// Whether the pool has no worker.
    pub fn is_empty(&self) -> (empty: bool)
        ensures
            empty == (self@.joined.len() == 0),
    {
        self.workers.len() == 0
    }

    /// The record of the worker in slot `index`.
    pub fn worker(&self, index: usize) -> (worker: &Worker)
        requires
            self.wf(),
            index < self@.joined.len(),
        ensures
            worker.id() == index,
            worker.is_joined() == self@.joined[index as int],
    {
        &self.workers[index]
    }

    /// Hands out the runtimes that wait for a thread, in the order of their
    /// slots: the last `n` slots of the pool, where `n` is their number. Each
    /// is fresh: at home, with nothing served.
    pub fn take_unstarted(&mut self) -> (runtimes: Vec<WorkerRuntime>)
        requires
            old(self).wf(),
        ensures
            final(self).wf(),
            final(self)@ == (PoolView { unstarted: 0, ..old(self)@ }),
            runtimes@ == old(self).waiting(),
            runtimes@.len() == old(self)@.unstarted,
            fresh_runtimes(runtimes@, old(self)@.joined.len() as int),
    {
        let mut runtimes: Vec<WorkerRuntime> = Vec::new();
        std::mem::swap(&mut self.unstarted, &mut runtimes);
        runtimes
    }

    /// Takes in one notification from a worker. The end of a specialized job
    /// frees its kind; every other notification changes nothing.
    pub fn observe(&mut self, notification: WorkerNotification)
        requires
            old(self).wf(),
        ensures
            final(self).wf(),
            final(self)@ == (PoolView {
                dedicated: released(old(self)@.dedicated, notification),
                ..old(self)@
            }),
    {
        match notification {
            WorkerNotification::SpecializedJobCompleted(kind) => {
                self.release(kind);
            },
            _ => {},
        }
    }

    fn release(&mut self, kind: WorkerKind)
        requires
            old(self).wf(),
        ensures
            final(self).wf(),
            final(self)@ == (PoolView {
                dedicated: old(self)@.dedicated.remove(kind),
                ..old(self)@
            }),
    {
        let mut at: usize = 0;
        while at < self.dedicated.len()
            invariant
                at <= self.dedicated@.len(),
                self.wf(),
                self.dedicated@ == old(self).dedicated@,
                self.workers == old(self).workers,
                self.unstarted == old(self).unstarted,
                self.queued@ == old(self).queued@,
                forall|seen: int| 0 <= seen < at ==> self.dedicated@[seen] != kind,
            decreases self.dedicated@.len() - at,
        {
            if self.dedicated[at] == kind {
                let ghost before = self.dedicated@;
                self.dedicated.remove(at);
                proof {
                    let after = self.dedicated@;
                    assert(before[at as int] == kind);
                    assert forall|i: int| 0 <= i < after.len() implies after[i] == (if i < at {
                        before[i]
                    } else {
                        before[i + 1]
                    }) by {}
                    assert(after.no_duplicates());
                    assert forall|other: WorkerKind|
                        after.contains(other) <==> (before.contains(other) && other != kind) by {
                        if after.contains(other) {
                            let i = choose|i: int| 0 <= i < after.len() && after[i] == other;
                            if i < at {
                                assert(before[i] == other);
                            } else {
                                assert(before[i + 1] == other);
                            }
                        }
                        if before.contains(other) && other != kind {
                            let i = choose|i: int| 0 <= i < before.len() && before[i] == other;
                            if i < at {
                                assert(after[i] == other);
                            } else {
                                assert(after[i - 1] == other);
                            }
                        }
                    }
                    assert(self@.dedicated =~= old(self)@.dedicated.remove(kind));
                }
                return ;
            }
            at += 1;
        }
        assert(!self.dedicated@.contains(kind));
        assert(self@.dedicated =~= old(self)@.dedicated.remove(kind));
    }

    /// Takes in every notification that is waiting, oldest first.
    ///
    /// Which notifications wait is up to the workers; whatever they are, the
    /// taken specializations end up as `released_all` says of them, and
    /// nothing else changes. The pool stops after `usize::MAX` notifications,
    /// should that many ever wait.
    pub fn process_notifications(&mut self)
        requires
            old(self).wf(),
        ensures
            final(self).wf(),
            exists|seen: Seq<WorkerNotification>|
                final(self)@ == (PoolView {
                    dedicated: #[trigger] released_all(old(self)@.dedicated, seen),
                    ..old(self)@
                }),
    {
        let ghost mut seen: Seq<WorkerNotification> = Seq::empty();
        let mut budget: usize = usize::MAX;
        while budget > 0
            invariant
                self.wf(),
                self@ == (PoolView {
                    dedicated: released_all(old(self)@.dedicated, seen),
                    ..old(self)@
                }),
            decreases budget,
        {
            match transport::try_receive(&self.notification_receiver) {
                Some(notification) => {
                    self.observe(notification);
                    proof {
                        assert(seen.push(notification).drop_last() =~= seen);
                        seen = seen.push(notification);
                    }
                },
                None => {
                    break ;
                },
            }
            budget -= 1;
        }
    }

    /// Applies the admission rule to `instruction` and, if it is a
    /// specialization that passes, takes its kind. Nothing is sent.
    pub fn reserve(&mut self, instruction: &WorkerInstruction) -> (result: Result<(), Error>)
        requires
            old(self).wf(),
        ensures
            final(self).wf(),
            match admission(old(self)@.dedicated, instruction.order()) {
                Ok(taken) => result is Ok && final(self)@ == (PoolView {
                    dedicated: taken,
                    ..old(self)@
                }),
                Err(refusal) => result == Err::<(), Error>(refusal) && final(self)@ == old(self)@,
            },
    {
        match instruction {
            WorkerInstruction::Specialize(kind, _) => {
                let kind: WorkerKind = *kind;
                if kind.is_generic() {
                    return Err(Error::CannotSpecializeIntoGeneric);
                }
                if self.is_dedicated(kind) {
                    return Err(Error::SpecializationAlreadyExists(kind));
                }
                self.dedicated.push(kind);
                proof {
                    let before = old(self).dedicated@;
                    let after = self.dedicated@;
                    assert forall|other: WorkerKind|
                        after.contains(other) <==> (before.contains(other) || other == kind) by {
                        if before.contains(other) {
                            let i = choose|i: int| 0 <= i < before.len() && before[i] == other;
                            assert(after[i] == other);
                        }
                        if other == kind {
                            assert(after[before.len() as int] == other);
                        }
                    }
                    assert(self@.dedicated =~= old(self)@.dedicated.insert(kind));
                }
                Ok(())
            },
            _ => Ok(()),
        }
    }

    /// Whether `kind` is taken.
    pub fn is_dedicated(&self, kind: WorkerKind) -> (taken: bool)
        ensures
            taken == self@.dedicated.contains(kind),
    {
        let mut at: usize = 0;
        while at < self.dedicated.len()
            invariant
                at <= self.dedicated@.len(),
                forall|seen: int| 0 <= seen < at ==> self.dedicated@[seen] != kind,
            decreases self.dedicated@.len() - at,
        {
            if self.dedicated[at] == kind {
                return true;
            }
            at += 1;
        }
        false
    }

    /// Hands `instruction` to the first worker that picks it up.
    ///
    /// First the pool takes in the notifications that are waiting, which may
    /// free specializations. Then the admission rule decides. A refused
    /// instruction is dropped. An admitted one is handed to the queue, and
    /// only a broken queue can still fail it, with `InstructionSendFail`; a
    /// specialization admitted this way stays taken even then.
    pub fn send(&mut self, instruction: WorkerInstruction) -> (result: Result<(), Error>)
        requires
            old(self).wf(),
        ensures
            final(self).wf(),
            exists|seen: Seq<WorkerNotification>| #[trigger]
                send_outcome(old(self)@, seen, instruction.order(), final(self)@, result),
    {
        self.process_notifications();
        let ghost seen = choose|seen: Seq<WorkerNotification>|
            self@ == (PoolView {
                dedicated: #[trigger] released_all(old(self)@.dedicated, seen),
                ..old(self)@
            });
        let ghost order = instruction.order();
        let reserved = self.reserve(&instruction);
        let result = match reserved {
            Ok(()) => {
                let taken = transport::send(&self.instruction_sender, instruction);
                proof {
                    self.queued@ = self.queued@.push(order);
                }
                WorkerPool::enqueued(taken)
            },
            Err(refusal) => Err(refusal),
        };
        assert(send_outcome(old(self)@, seen, order, self@, result));
        result
    }

    /// What `send` answers for an admitted instruction, given whether the
    /// queue took it.
    pub fn enqueued(taken: bool) -> (result: Result<(), Error>)
        ensures
            result == if taken {
                Ok::<(), Error>(())
            } else {
                Err::<(), Error>(Error::InstructionSendFail)
            },
    {
        if taken {
            Ok(())
        } else {
            Err(Error::InstructionSendFail)
        }
    }

    /// Hands one `Terminate` for every worker to the queue, behind whatever
    /// was handed to it before. Each worker that picks one up leaves its
    /// loop.
    ///
    /// Specializations can only have been freed on the way, by notifications
    /// that were waiting. Nothing else changes.
    pub fn send_terminations(&mut self)
        requires
            old(self).wf(),
        ensures
            final(self).wf(),
            exists|seen: Seq<WorkerNotification>|
                final(self)@ == (PoolView {
                    dedicated: #[trigger] released_all(old(self)@.dedicated, seen),
                    queued: old(self)@.queued + Seq::new(
                        old(self)@.joined.len(),
                        |slot: int| Order::Terminate,
                    ),
                    ..old(self)@
                }),
    {
        let ghost mut total: Seq<WorkerNotification> = Seq::empty();
        let count: usize = self.workers.len();
        let mut sent: usize = 0;
        while sent < count
            invariant
                sent <= count,
                count == old(self)@.joined.len(),
                self.wf(),
                self@ == (PoolView {
                    dedicated: released_all(old(self)@.dedicated, total),
                    queued: old(self)@.queued + Seq::new(sent as nat, |slot: int| Order::Terminate),
                    ..old(self)@
                }),
            decreases count - sent,
        {
            let ghost before = self@;
            let result = self.send(WorkerInstruction::Terminate);
            proof {
                let seen = choose|seen: Seq<WorkerNotification>| #[trigger]
                    send_outcome(before, seen, Order::Terminate, self@, result);
                lemma_released_all_concat(old(self)@.dedicated, total, seen);
                total = total + seen;
                assert(self@.queued =~= old(self)@.queued + Seq::new(
                    (sent + 1) as nat,
                    |slot: int| Order::Terminate,
                ));
            }
            sent += 1;
        }
    }

    /// Records how the thread of worker `index` ended, once it has been
    /// waited for. Answers as `Worker::join` does, and the worker counts as
    /// joined from then on.
    pub fn join_worker(&mut self, index: usize, exit: ThreadExit) -> (result: Result<
        (),
        worker::Error,
    >)
        requires
            old(self).wf(),
            index < old(self)@.joined.len(),
        ensures
            final(self).wf(),
            final(self)@ == (PoolView {
                joined: old(self)@.joined.update(index as int, true),
                ..old(self)@
            }),
            worker::join_outcome(old(self)@.joined[index as int], exit, result),
    {
        self.workers[index].join(exit)
    }

    /// Records, for every worker at once, how its thread ended: `exits` holds
    /// one entry per slot. Each worker answers as `Worker::join` does, and
    /// every worker counts as joined from then on.
    pub fn join_all(&mut self, exits: Vec<ThreadExit>) -> (results: Vec<Result<(), worker::Error>>)
        requires
            old(self).wf(),
            exits@.len() == old(self)@.joined.len(),
        ensures
            final(self).wf(),
            final(self)@ == (PoolView {
                joined: Seq::new(old(self)@.joined.len(), |slot: int| true),
                ..old(self)@
            }),
            terminated(old(self)@.joined, exits@, results@),
    {
        let mut exits = exits;
        let ghost given = exits@;
        let count: usize = self.workers.len();
        let mut results: Vec<Result<(), worker::Error>> = Vec::new();
        let mut slot: usize = 0;
        while slot < count
            invariant
                slot <= count,
                count == old(self)@.joined.len(),
                self.wf(),
                exits@.len() == count,
                results@.len() == slot,
                forall|at: int| slot <= at < count ==> exits@[at] == given[at],
                self@ == (PoolView {
                    joined: Seq::new(
                        count as nat,
                        |at: int| at < slot || old(self)@.joined[at],
                    ),
                    ..old(self)@
                }),
                forall|at: int|
                    0 <= at < slot ==> worker::join_outcome(
                        old(self)@.joined[at],
                        given[at],
                        #[trigger] results@[at],
                    ),
            decreases count - slot,
        {
            let mut exit = ThreadExit::Finished;
            std::mem::swap(&mut exits[slot], &mut exit);
            let result = self.join_worker(slot, exit);
            results.push(result);
            slot += 1;
        }
        results
    }

    /// Stops the pool: hands one `Terminate` for every worker to the queue,
    /// then waits for the thread of every worker that has not been joined
    /// yet and records how it ended. `wait` does the waiting: given a slot,
    /// it returns once the thread of that worker has ended, and says how.
    ///
    /// When the call returns every worker is joined. The pool keeps all its
    /// workers. A worker that was joined before is not waited for and
    /// answers `ThreadAlreadyJoined`.
    pub fn terminate_all<F>(&mut self, wait: F) -> (results: Vec<Result<(), worker::Error>>) where
        F: Fn(usize) -> ThreadExit,

        requires
            old(self).wf(),
            forall|slot: usize| slot < old(self)@.joined.len() ==> call_requires(wait, (slot,)),
        ensures
            final(self).wf(),
            exists|seen: Seq<WorkerNotification>|
                final(self)@ == (PoolView {
                    joined: Seq::new(old(self)@.joined.len(), |slot: int| true),
                    dedicated: #[trigger] released_all(old(self)@.dedicated, seen),
                    queued: old(self)@.queued + Seq::new(
                        old(self)@.joined.len(),
                        |slot: int| Order::Terminate,
                    ),
                    ..old(self)@
                }),
            exists|exits: Seq<ThreadExit>|
                {
                    &&& #[trigger] terminated(old(self)@.joined, exits, results@)
                    &&& forall|slot: int|
                        0 <= slot < exits.len() && !old(self)@.joined[slot] ==> call_ensures(
                            wait,
                            (slot as usize,),
                            #[trigger] exits[slot],
                        )
                },
    {
        self.send_terminations();
        let count: usize = self.workers.len();
        let mut exits: Vec<ThreadExit> = Vec::new();
        let mut slot: usize = 0;
        while slot < count
            invariant
                slot <= count,
                count == old(self)@.joined.len(),
                self.wf(),
                self@.joined == old(self)@.joined,
                exits@.len() == slot,
                forall|at: usize| at < count ==> call_requires(wait, (at,)),
                forall|at: int|
                    0 <= at < slot && !old(self)@.joined[at] ==> call_ensures(
                        wait,
                        (at as usize,),
                        #[trigger] exits@[at],
                    ),
            decreases count - slot,
        {
            let exit = if self.workers[slot].is_joined() {
                ThreadExit::Finished
            } else {
                wait(slot)
            };
            exits.push(exit);
            slot += 1;
        }
        let ghost waited = exits@;
        let results = self.join_all(exits);
        proof {
            assert(terminated(old(self)@.joined, waited, results@));
        }
        results
    }
}

} // verus!
