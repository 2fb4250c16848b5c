use rust_learning::runtime::barrier::{Arrival, BarrierError, PhaseBarrier};
use rust_learning::runtime::cache::ReadWriteCache;
use rust_learning::runtime::counter::{cas_step, next_value, AtomicCounter};
use rust_learning::runtime::dispatcher::{DispatchError, NextTask, TaskDispatcher};
use rust_learning::runtime::pool::{PoolError, WorkerPool, WorkerState};
use rust_learning::runtime::registry::{LockPoisoned, SharedRegistry};

#[test]
fn counter_counts_every_increment() {
    let c = AtomicCounter::new(0);
    for _ in 0..10 {
        for _ in 0..1000 {
            c.increment();
        }
    }
    assert_eq!(c.get(), 10000);
}

#[test]
fn counter_wraps_and_swaps() {
    let c = AtomicCounter::new(u64::MAX);
    assert_eq!(c.increment(), 0);
    assert_eq!(c.compare_and_swap(0, 7), (true, 0));
    assert_eq!(c.compare_and_swap(0, 9), (false, 7));
    assert_eq!(c.get(), 7);
    assert_eq!(next_value(41), 42);
    assert_eq!(next_value(u64::MAX), 0);
    let ok = cas_step(5, 5, 6);
    assert!(ok.success);
    assert_eq!((ok.observed, ok.stored), (5, 6));
    let miss = cas_step(5, 4, 6);
    assert!(!miss.success);
    assert_eq!((miss.observed, miss.stored), (5, 5));
}

#[test]
fn registry_holds_distinct_keys() {
    let mut r: SharedRegistry<u32> = SharedRegistry::new();
    for i in 0..100u32 {
        assert_eq!(r.insert(format!("key_{}", i), i * 10), Ok(()));
    }
    assert_eq!(r.len(), Ok(100));
    assert_eq!(r.get("key_7"), Ok(Some(&70)));
    assert_eq!(r.get("missing"), Ok(None));
}

#[test]
fn registry_last_writer_wins() {
    let mut r: SharedRegistry<&str> = SharedRegistry::new();
    r.insert(String::from("k"), "first").unwrap();
    r.insert(String::from("k"), "second").unwrap();
    assert_eq!(r.len(), Ok(1));
    assert_eq!(r.get("k"), Ok(Some(&"second")));
    assert_eq!(r.remove("k"), Ok(Some("second")));
    assert_eq!(r.remove("k"), Ok(None));
    assert_eq!(r.len(), Ok(0));
}

#[test]
fn poisoned_registry_reports_it() {
    let mut r: SharedRegistry<i32> = SharedRegistry::new();
    r.insert(String::from("a"), 1).unwrap();
    r.poison();
    assert!(r.is_poisoned());
    assert_eq!(r.get("a"), Err(LockPoisoned));
    assert_eq!(r.insert(String::from("b"), 2), Err(LockPoisoned));
    assert_eq!(r.remove("a"), Err(LockPoisoned));
    assert_eq!(r.len(), Err(LockPoisoned));
}

#[test]
fn cache_readers_see_committed_states() {
    let mut c = ReadWriteCache::new(vec![1, 2, 3]);
    assert_eq!(c.try_read(), Ok(true));
    assert_eq!(c.try_read(), Ok(true));
    assert_eq!(c.try_write(), Ok(false));
    assert_eq!(c.read(), &vec![1, 2, 3]);
    c.end_read();
    c.end_read();
    assert_eq!(c.try_write(), Ok(true));
    assert_eq!(c.try_read(), Ok(false));
    assert_eq!(c.try_write(), Ok(false));
    c.push(4);
    c.end_write();
    assert_eq!(c.try_read(), Ok(true));
    assert_eq!(c.read(), &vec![1, 2, 3, 4]);
    c.end_read();
}

#[test]
fn cache_snapshots_grow_one_append_at_a_time() {
    let mut c: ReadWriteCache<u32> = ReadWriteCache::new(Vec::new());
    let mut seen = Vec::new();
    for i in 0..1000u32 {
        assert_eq!(c.try_write(), Ok(true));
        c.push(i);
        c.end_write();
        assert_eq!(c.try_read(), Ok(true));
        seen.push(c.read().len());
        c.end_read();
    }
    assert_eq!(seen.len(), 1000);
    for (i, n) in seen.iter().enumerate() {
        assert_eq!(*n, i + 1);
    }
}

#[test]
fn abandoned_write_poisons_the_cache() {
    let mut c = ReadWriteCache::new(vec![1]);
    assert_eq!(c.try_write(), Ok(true));
    c.push(2);
    c.abandon_write();
    assert_eq!(c.try_read(), Err(LockPoisoned));
    assert_eq!(c.try_write(), Err(LockPoisoned));
}

#[test]
fn barrier_rejects_zero_participants() {
    assert!(matches!(PhaseBarrier::new(0), Err(BarrierError::InvalidParticipantCount)));
}

#[test]
fn barrier_releases_together_and_is_reused() {
    let mut b = PhaseBarrier::new(5).unwrap();
    for phase in 0..2u64 {
        for _ in 0..4 {
            assert_eq!(b.arrive(), Arrival::Wait { generation: phase });
            assert!(!b.has_released(phase));
        }
        assert_eq!(b.arrive(), Arrival::Release { generation: phase });
        assert!(b.has_released(phase));
        assert_eq!(b.current_generation(), phase + 1);
        assert_eq!(b.arrived_count(), 0);
    }
    assert_eq!(b.participant_count(), 5);
}

#[test]
fn barrier_withdraw_takes_an_arrival_back() {
    let mut b = PhaseBarrier::new(3).unwrap();
    b.arrive();
    b.arrive();
    assert!(b.withdraw(0));
    assert_eq!(b.arrived_count(), 1);
    assert!(!b.withdraw(1));
    b.arrive();
    assert_eq!(b.arrive(), Arrival::Release { generation: 0 });
    assert!(!b.withdraw(0));
}

#[test]
fn dispatcher_applies_backpressure() {
    let mut d: TaskDispatcher<&str> = TaskDispatcher::new(2);
    assert_eq!(d.submit("a"), Ok(0));
    assert_eq!(d.submit("b"), Ok(1));
    assert_eq!(d.submit("c"), Err((DispatchError::CapacityExceeded, "c")));
    match d.next() {
        NextTask::Run(t) => assert_eq!((t.id, t.payload), (0, "a")),
        _ => panic!("expected a task"),
    }
    assert_eq!(d.submit("c"), Ok(2));
    assert_eq!(d.pending(), 2);
}

#[test]
fn dispatcher_zero_capacity_is_a_hand_off() {
    let mut d: TaskDispatcher<u8> = TaskDispatcher::new(0);
    assert_eq!(d.submit(1), Ok(0));
    assert_eq!(d.submit(2), Err((DispatchError::CapacityExceeded, 2)));
}

#[test]
fn dispatcher_drains_after_close() {
    let mut d: TaskDispatcher<u32> = TaskDispatcher::new(4);
    assert!(matches!(d.next(), NextTask::Idle));
    d.submit(10).unwrap();
    d.submit(11).unwrap();
    d.close();
    assert!(d.is_shut_down());
    assert_eq!(d.submit(12), Err((DispatchError::Closed, 12)));
    let mut ids = Vec::new();
    while let NextTask::Run(t) = d.next() {
        ids.push(t.id);
    }
    assert_eq!(ids, vec![0, 1]);
    assert!(matches!(d.next(), NextTask::Finished));
    assert_eq!(d.accepted(), 2);
}

#[test]
fn pool_rejects_zero_workers() {
    let d: TaskDispatcher<u32> = TaskDispatcher::new(1);
    assert!(matches!(WorkerPool::new(0, d), Err(PoolError::ZeroWorkers)));
}

#[test]
fn pool_runs_each_task_once_and_drains() {
    let mut pool = WorkerPool::new(3, TaskDispatcher::new(64)).unwrap();
    let mut executed: SharedRegistry<u32> = SharedRegistry::new();
    for i in 0..50u32 {
        pool.submit(i).unwrap();
    }
    pool.shutdown();
    assert_eq!(pool.submit(99), Err((DispatchError::Closed, 99)));
    let mut w = 0;
    while !pool.is_joined() {
        if pool.worker(w) == WorkerState::Idle {
            if let NextTask::Run(t) = pool.next_for(w) {
                let key = format!("task_{}", t.id);
                let runs = match executed.get(&key).unwrap() {
                    Some(n) => *n + 1,
                    None => 1,
                };
                executed.insert(key, runs).unwrap();
                pool.finish(w, t.payload % 7 != 0);
            }
        }
        w = (w + 1) % pool.worker_count();
    }
    assert_eq!(executed.len(), Ok(50));
    for id in 0..50 {
        assert_eq!(executed.get(&format!("task_{}", id)), Ok(Some(&1)));
    }
    assert_eq!(pool.completed_count() + pool.failed_count(), 50);
    assert_eq!(pool.failed_count(), 8);
    assert!(pool.is_shut_down());
}

#[test]
fn pool_worker_waits_while_open() {
    let mut pool: WorkerPool<u8> = WorkerPool::new(2, TaskDispatcher::new(1)).unwrap();
    assert!(matches!(pool.next_for(0), NextTask::Idle));
    assert_eq!(pool.worker(0), WorkerState::Idle);
    pool.submit(1).unwrap();
    assert!(matches!(pool.next_for(1), NextTask::Run(_)));
    assert_eq!(pool.worker(1), WorkerState::Running(0));
    pool.shutdown();
    assert!(matches!(pool.next_for(0), NextTask::Finished));
    assert_eq!(pool.worker(0), WorkerState::Stopped);
    assert!(!pool.is_joined());
    pool.finish(1, true);
    assert!(matches!(pool.next_for(1), NextTask::Finished));
    assert!(pool.is_joined());
    assert_eq!(pool.completed_count(), 1);
}

#[test]
fn tasks_keep_their_payloads_in_order() {
    let mut pool: WorkerPool<&str> = WorkerPool::new(1, TaskDispatcher::new(3)).unwrap();
    assert_eq!(pool.submit("x"), Ok(0));
    assert_eq!(pool.submit("y"), Ok(1));
    assert_eq!(pool.accepted(), 2);
    match pool.next_for(0) {
        NextTask::Run(t) => assert_eq!((t.id, t.payload), (0, "x")),
        _ => panic!("expected a task"),
    }
    pool.finish(0, false);
    match pool.next_for(0) {
        NextTask::Run(t) => assert_eq!((t.id, t.payload), (1, "y")),
        _ => panic!("expected a task"),
    }
    pool.finish(0, true);
    assert_eq!((pool.completed_count(), pool.failed_count()), (1, 1));
}
