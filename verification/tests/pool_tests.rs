use engine::scheduler::pool::Error;
use engine::scheduler::pool::WorkerPool;
use engine::scheduler::worker;
use engine::scheduler::worker::ThreadExit;
use engine::scheduler::worker::WorkerInstruction;
use engine::scheduler::worker::WorkerKind;
use engine::scheduler::worker::WorkerNotification;
use engine::scheduler::worker::WorkerState;
use engine::scheduler::Job;
use std::cell::RefCell;
use std::sync::atomic::AtomicUsize;
use std::sync::atomic::Ordering;
use std::sync::Arc;
use std::time::Duration;

/// Blocks the calling thread for `millis` milliseconds.
fn nap(millis: u64) {
    let _ = crossbeam::channel::after(Duration::from_millis(millis)).recv();
}

fn napping_job() -> Job {
    Job::new(|| {
        nap(100);
    })
}

#[test]
fn create_pool() {
    let pool_size = WorkerKind::COUNT;
    let pool = WorkerPool::new(pool_size);
    assert!(pool.len() == pool_size, "Incorrect pool size");
}

#[test]
fn specialize() {
    let pool_size = WorkerKind::COUNT;
    let mut pool = WorkerPool::new(pool_size);
    let result = pool.send(WorkerInstruction::Specialize(
        WorkerKind::Networking,
        napping_job(),
    ));

    assert!(result.is_ok(), "Failed to specialize worker");
}

#[test]
fn specialize_duplicate() {
    let pool_size = WorkerKind::COUNT;
    let mut pool = WorkerPool::new(pool_size);
    let _ = pool.send(WorkerInstruction::Specialize(
        WorkerKind::Networking,
        napping_job(),
    ));
    let result = pool.send(WorkerInstruction::Specialize(
        WorkerKind::Networking,
        napping_job(),
    ));

    assert_eq!(
        result.err().unwrap(),
        Error::SpecializationAlreadyExists(WorkerKind::Networking),
        "Should not be able to specialize same kind two times",
    );
}

#[test]
fn specialize_duplicate_after_termination() {
    let pool_size = WorkerKind::COUNT;
    let mut pool = WorkerPool::new(pool_size);
    let mut runtimes = pool.take_unstarted();
    let _ = pool.send(WorkerInstruction::Specialize(
        WorkerKind::Networking,
        napping_job(),
    ));

    // Just to be sure our specialized execution is completed
    assert!(runtimes[0].serve());
    nap(110);

    let result = pool.send(WorkerInstruction::Specialize(
        WorkerKind::Networking,
        napping_job(),
    ));

    assert!(
        result.is_ok(),
        "Failed to specialize same after termination: {:?}",
        result.err().unwrap(),
    );
}

#[test]
fn pool_grow() {
    let pool_size = WorkerKind::COUNT;
    let mut pool = WorkerPool::new(pool_size);

    pool.grow(4);

    assert_eq!(
        pool.len(),
        WorkerKind::COUNT + 4,
        "Pool grow is not adding workers",
    );
}

#[test]
fn grow_returns_the_new_size_and_continues_the_slots() {
    let mut pool = WorkerPool::new(2);
    assert_eq!(pool.take_unstarted().len(), 2);
    assert_eq!(pool.grow(3), 5);
    assert_eq!(pool.grow(0), 5);
    let runtimes = pool.take_unstarted();
    let slots: Vec<usize> = runtimes.iter().map(|runtime| runtime.id()).collect();
    assert_eq!(slots, vec![2, 3, 4]);
    for slot in 0..5 {
        assert_eq!(pool.worker(slot).id(), slot);
        assert_eq!(pool.worker(slot).kind(), WorkerKind::Generic(slot));
        assert_eq!(pool.worker(slot).state(), WorkerState::Idle);
    }
}

#[test]
fn runtimes_wait_in_slot_order() {
    let mut pool = WorkerPool::new(4);
    let runtimes = pool.take_unstarted();
    assert_eq!(runtimes.len(), 4);
    for (slot, runtime) in runtimes.iter().enumerate() {
        assert_eq!(runtime.id(), slot);
        assert_eq!(runtime.kind(), WorkerKind::Generic(slot));
        assert_eq!(runtime.state(), WorkerState::Idle);
    }
    assert!(pool.take_unstarted().is_empty());
    assert_eq!(pool.len(), 4);
}

#[test]
fn len_and_is_empty() {
    let pool = WorkerPool::new(0);
    assert_eq!(pool.len(), 0);
    assert!(pool.is_empty());
    let pool = WorkerPool::new(1);
    assert_eq!(pool.len(), 1);
    assert!(!pool.is_empty());
}

#[test]
fn empty_pool_accepts_instructions_that_nobody_serves() {
    let mut pool = WorkerPool::new(0);
    let ran = Arc::new(AtomicUsize::new(0));
    let counter = Arc::clone(&ran);
    assert_eq!(
        pool.send(WorkerInstruction::Execute(Job::new(move || {
            counter.fetch_add(1, Ordering::SeqCst);
        }))),
        Ok(())
    );
    assert_eq!(
        pool.send(WorkerInstruction::Specialize(WorkerKind::Networking, Job::new(|| {}))),
        Ok(())
    );
    assert!(pool.take_unstarted().is_empty());
    assert_eq!(ran.load(Ordering::SeqCst), 0);
}

#[test]
fn specialize_into_generic_is_rejected() {
    let mut pool = WorkerPool::new(2);
    assert_eq!(
        pool.send(WorkerInstruction::Specialize(WorkerKind::Generic(7), Job::new(|| {}))),
        Err(Error::CannotSpecializeIntoGeneric)
    );
    assert_eq!(
        pool.send(WorkerInstruction::Specialize(WorkerKind::Generic(0), Job::new(|| {}))),
        Err(Error::CannotSpecializeIntoGeneric)
    );
    // Nothing was taken by the refused instructions.
    assert!(!pool.is_dedicated(WorkerKind::Generic(7)));
    assert_eq!(
        pool.send(WorkerInstruction::Specialize(WorkerKind::Networking, Job::new(|| {}))),
        Ok(())
    );
}

#[test]
fn specialization_admission() {
    let mut pool = WorkerPool::new(3);
    let mut runtimes = pool.take_unstarted();

    assert_eq!(
        pool.send(WorkerInstruction::Specialize(WorkerKind::Networking, napping_job())),
        Ok(())
    );
    assert!(pool.is_dedicated(WorkerKind::Networking));
    assert_eq!(
        pool.send(WorkerInstruction::Specialize(WorkerKind::Networking, napping_job())),
        Err(Error::SpecializationAlreadyExists(WorkerKind::Networking))
    );

    // A worker runs the specialized job to its end.
    assert!(runtimes[1].serve());
    nap(110);
    // The reservation goes only when the pool next takes in its notifications.
    assert!(pool.is_dedicated(WorkerKind::Networking));
    assert_eq!(pool.send(WorkerInstruction::Execute(Job::new(|| {}))), Ok(()));
    assert!(!pool.is_dedicated(WorkerKind::Networking));

    assert_eq!(
        pool.send(WorkerInstruction::Specialize(WorkerKind::Networking, napping_job())),
        Ok(())
    );
    assert!(pool.is_dedicated(WorkerKind::Networking));
}

#[test]
fn plain_instructions_take_no_specialization() {
    let mut pool = WorkerPool::new(1);
    assert_eq!(pool.send(WorkerInstruction::Execute(Job::new(|| {}))), Ok(()));
    assert_eq!(pool.send(WorkerInstruction::Wait), Ok(()));
    assert_eq!(pool.send(WorkerInstruction::Terminate), Ok(()));
    assert!(!pool.is_dedicated(WorkerKind::Networking));
}

#[test]
fn reserve_applies_the_admission_rule_without_sending() {
    let mut pool = WorkerPool::new(1);
    let mut runtimes = pool.take_unstarted();
    assert_eq!(
        pool.reserve(&WorkerInstruction::Specialize(WorkerKind::Generic(1), Job::new(|| {}))),
        Err(Error::CannotSpecializeIntoGeneric)
    );
    assert_eq!(
        pool.reserve(&WorkerInstruction::Specialize(WorkerKind::Networking, Job::new(|| {}))),
        Ok(())
    );
    assert_eq!(
        pool.reserve(&WorkerInstruction::Specialize(WorkerKind::Networking, Job::new(|| {}))),
        Err(Error::SpecializationAlreadyExists(WorkerKind::Networking))
    );
    assert_eq!(pool.reserve(&WorkerInstruction::Execute(Job::new(|| {}))), Ok(()));
    // Nothing reached the queue: a terminate sent now is the first thing the
    // worker sees.
    assert_eq!(pool.send(WorkerInstruction::Terminate), Ok(()));
    assert!(!runtimes[0].serve());
}

#[test]
fn observe_frees_only_the_completed_specialization() {
    let mut pool = WorkerPool::new(1);
    pool.reserve(&WorkerInstruction::Specialize(WorkerKind::Networking, Job::new(|| {})))
        .unwrap();
    pool.observe(WorkerNotification::JobStarted(WorkerKind::Networking));
    pool.observe(WorkerNotification::JobCompleted(WorkerKind::Networking));
    pool.observe(WorkerNotification::SpecializedJobStarted(WorkerKind::Networking));
    pool.observe(WorkerNotification::SpecializedJobCompleted(WorkerKind::Generic(0)));
    assert!(pool.is_dedicated(WorkerKind::Networking));
    pool.observe(WorkerNotification::SpecializedJobCompleted(WorkerKind::Networking));
    assert!(!pool.is_dedicated(WorkerKind::Networking));
    // Freeing what is free changes nothing.
    pool.observe(WorkerNotification::SpecializedJobCompleted(WorkerKind::Networking));
    assert!(!pool.is_dedicated(WorkerKind::Networking));
}

#[test]
fn process_notifications_frees_completed_specializations() {
    let mut pool = WorkerPool::new(1);
    let mut runtimes = pool.take_unstarted();
    assert_eq!(
        pool.send(WorkerInstruction::Specialize(WorkerKind::Networking, Job::new(|| {}))),
        Ok(())
    );
    pool.process_notifications();
    assert!(pool.is_dedicated(WorkerKind::Networking));
    assert!(runtimes[0].serve());
    pool.process_notifications();
    assert!(!pool.is_dedicated(WorkerKind::Networking));
}

#[test]
fn single_execute() {
    let mut pool = WorkerPool::new(1);
    let mut runtimes = pool.take_unstarted();
    let ran = Arc::new(AtomicUsize::new(0));
    let counter = Arc::clone(&ran);
    assert_eq!(
        pool.send(WorkerInstruction::Execute(Job::new(move || {
            nap(100);
            counter.fetch_add(1, Ordering::SeqCst);
        }))),
        Ok(())
    );
    assert!(runtimes[0].serve());
    assert_eq!(ran.load(Ordering::SeqCst), 1);
    assert_eq!(pool.worker(0).state(), WorkerState::Idle);
    assert_eq!(pool.worker(0).kind(), WorkerKind::Generic(0));
}

#[test]
fn over_subscription() {
    let mut pool = WorkerPool::new(4);
    let mut runtimes = pool.take_unstarted();
    let ran = Arc::new(AtomicUsize::new(0));
    for _ in 0..8 {
        let counter = Arc::clone(&ran);
        assert_eq!(
            pool.send(WorkerInstruction::Execute(Job::new(move || {
                nap(100);
                counter.fetch_add(1, Ordering::SeqCst);
            }))),
            Ok(())
        );
    }
    for runtime in runtimes.iter_mut() {
        assert!(runtime.serve());
    }
    assert_eq!(ran.load(Ordering::SeqCst), 4);
    for runtime in runtimes.iter_mut() {
        assert!(runtime.serve());
    }
    assert_eq!(ran.load(Ordering::SeqCst), 8);
    for slot in 0..4 {
        assert_eq!(pool.worker(slot).state(), WorkerState::Idle);
    }
}

#[test]
fn terminate_all_stops_every_worker_and_keeps_the_size() {
    let mut pool = WorkerPool::new(3);
    let runtimes = RefCell::new(pool.take_unstarted());
    let results = pool.terminate_all(|slot| {
        let mut runtimes = runtimes.borrow_mut();
        while runtimes[slot].serve() {}
        ThreadExit::Finished
    });
    assert_eq!(results, vec![Ok(()), Ok(()), Ok(())]);
    assert_eq!(pool.len(), 3);
    for slot in 0..3 {
        assert!(pool.worker(slot).is_joined());
        assert_eq!(
            pool.join_worker(slot, ThreadExit::Finished),
            Err(worker::Error::ThreadAlreadyJoined)
        );
    }
    assert_eq!(pool.len(), 3);
}

#[test]
fn terminate_all_lets_accepted_jobs_run_first() {
    let mut pool = WorkerPool::new(2);
    let runtimes = RefCell::new(pool.take_unstarted());
    let ran = Arc::new(AtomicUsize::new(0));
    for _ in 0..5 {
        let counter = Arc::clone(&ran);
        assert_eq!(
            pool.send(WorkerInstruction::Execute(Job::new(move || {
                counter.fetch_add(1, Ordering::SeqCst);
            }))),
            Ok(())
        );
    }
    let results = pool.terminate_all(|slot| {
        let mut runtimes = runtimes.borrow_mut();
        while runtimes[slot].serve() {}
        ThreadExit::Finished
    });
    assert_eq!(results, vec![Ok(()), Ok(())]);
    // Every job ran exactly once, and every worker took exactly one
    // termination: the queue is empty and the workers are idle.
    assert_eq!(ran.load(Ordering::SeqCst), 5);
    for slot in 0..2 {
        assert!(pool.worker(slot).is_joined());
        assert_eq!(pool.worker(slot).state(), WorkerState::Idle);
    }
    drop(pool);
    for runtime in runtimes.borrow_mut().iter_mut() {
        assert!(!runtime.serve());
    }
}

#[test]
fn terminate_all_reports_how_each_thread_ended() {
    let mut pool = WorkerPool::new(3);
    assert_eq!(pool.join_worker(1, ThreadExit::Finished), Ok(()));
    let asked = RefCell::new(Vec::new());
    let results = pool.terminate_all(|slot| {
        asked.borrow_mut().push(slot);
        if slot == 0 {
            ThreadExit::Panicked(Some("job failed".to_string()))
        } else {
            ThreadExit::Panicked(None)
        }
    });
    // A worker that was joined before is not waited for.
    assert_eq!(*asked.borrow(), vec![0, 2]);
    assert_eq!(
        results,
        vec![
            Err(worker::Error::ThreadJoinFailure("job failed".to_string())),
            Err(worker::Error::ThreadAlreadyJoined),
            Err(worker::Error::ThreadJoinFailure("unknown reason".to_string())),
        ]
    );
    for slot in 0..3 {
        assert!(pool.worker(slot).is_joined());
    }
}

#[test]
fn terminate_all_of_an_empty_pool_does_nothing() {
    let mut pool = WorkerPool::new(0);
    let results = pool.terminate_all(|_| ThreadExit::Finished);
    assert!(results.is_empty());
    assert_eq!(pool.len(), 0);
}

#[test]
fn send_terminations_queues_one_terminate_per_worker() {
    let mut pool = WorkerPool::new(3);
    let mut runtimes = pool.take_unstarted();
    pool.send_terminations();
    assert_eq!(pool.len(), 3);
    // One worker alone finds exactly three terminations in the queue.
    for _ in 0..3 {
        assert_eq!(
            runtimes[0].wait().map(|instruction| instruction.order()),
            Some(worker::Order::Terminate)
        );
    }
    for slot in 0..3 {
        assert!(!pool.worker(slot).is_joined());
    }
    drop(pool);
    drop(runtimes.split_off(1));
    assert!(runtimes[0].wait().is_none());
}

#[test]
fn join_all_records_every_worker() {
    let mut pool = WorkerPool::new(3);
    assert_eq!(pool.join_worker(2, ThreadExit::Finished), Ok(()));
    let results = pool.join_all(vec![
        ThreadExit::Finished,
        ThreadExit::Panicked(Some("boom".to_string())),
        ThreadExit::Finished,
    ]);
    assert_eq!(
        results,
        vec![
            Ok(()),
            Err(worker::Error::ThreadJoinFailure("boom".to_string())),
            Err(worker::Error::ThreadAlreadyJoined),
        ]
    );
    for slot in 0..3 {
        assert!(pool.worker(slot).is_joined());
    }
    assert_eq!(pool.len(), 3);
}

#[test]
fn sent_instructions_reach_the_queue_in_order() {
    let mut pool = WorkerPool::new(1);
    let mut runtimes = pool.take_unstarted();
    assert_eq!(pool.send(WorkerInstruction::Execute(Job::new(|| {}))), Ok(()));
    assert_eq!(
        pool.send(WorkerInstruction::Specialize(WorkerKind::Generic(1), Job::new(|| {}))),
        Err(Error::CannotSpecializeIntoGeneric)
    );
    assert_eq!(
        pool.send(WorkerInstruction::Specialize(WorkerKind::Networking, Job::new(|| {}))),
        Ok(())
    );
    assert_eq!(pool.send(WorkerInstruction::Wait), Ok(()));
    let mut found = Vec::new();
    for _ in 0..3 {
        found.push(runtimes[0].wait().map(|instruction| instruction.order()));
    }
    assert_eq!(
        found,
        vec![
            Some(worker::Order::Execute),
            Some(worker::Order::Specialize(WorkerKind::Networking)),
            Some(worker::Order::Wait),
        ]
    );
}

#[test]
fn join_worker_reports_a_panic() {
    let mut pool = WorkerPool::new(2);
    assert_eq!(
        pool.join_worker(1, ThreadExit::Panicked(Some("job failed".to_string()))),
        Err(worker::Error::ThreadJoinFailure("job failed".to_string()))
    );
    assert_eq!(
        pool.join_worker(0, ThreadExit::Panicked(None)),
        Err(worker::Error::ThreadJoinFailure("unknown reason".to_string()))
    );
    assert!(pool.worker(0).is_joined());
    assert!(pool.worker(1).is_joined());
    assert_eq!(pool.worker(0).id(), 0);
    assert_eq!(pool.worker(1).id(), 1);
}

#[test]
fn default_size_leaves_a_thread_to_the_caller_but_is_never_zero() {
    assert_eq!(WorkerPool::default_size(Some(1)), 1);
    assert_eq!(WorkerPool::default_size(Some(2)), 1);
    assert_eq!(WorkerPool::default_size(Some(3)), 2);
    assert_eq!(WorkerPool::default_size(Some(8)), 7);
    assert_eq!(WorkerPool::default_size(Some(0)), 1);
    assert_eq!(WorkerPool::default_size(None), 1);
    assert_eq!(WorkerPool::default_size(Some(usize::MAX)), usize::MAX - 1);
}

#[test]
fn default_builds_a_pool_of_the_default_size() {
    assert_eq!(WorkerPool::default(Some(1)).len(), 1);
    assert_eq!(WorkerPool::default(Some(6)).len(), 5);
    assert_eq!(WorkerPool::default(None).len(), 1);
}

#[test]
fn undersized_pools_are_those_below_the_number_of_kinds() {
    assert!(WorkerPool::is_undersized(0));
    assert!(WorkerPool::is_undersized(1));
    assert!(!WorkerPool::is_undersized(2));
    assert!(!WorkerPool::is_undersized(64));
}

#[test]
fn enqueued_maps_the_queue_answer() {
    assert_eq!(WorkerPool::enqueued(true), Ok(()));
    assert_eq!(WorkerPool::enqueued(false), Err(Error::InstructionSendFail));
}
