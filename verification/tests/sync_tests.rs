use mikan_os::sync::{
    run_events, LockEvent, LockStep, Mutex, MutexGuard, OnceMutex, OnceStatic, SharedLock,
};

#[test]
fn a_free_mutex_can_be_locked_once() {
    let mut mutex = Mutex::new(41);
    assert!(!mutex.locked());
    let mut guard = mutex.lock().unwrap();
    assert!(mutex.locked());
    assert!(mutex.lock().is_none());
    assert_eq!(*guard.get(), 41);
    guard.set(42);
    assert_eq!(mutex.unlock(guard), None);
    assert!(!mutex.locked());
    assert_eq!(*mutex.lock().unwrap().get(), 42);
}

#[test]
fn waiters_are_woken_in_the_order_in_which_they_came() {
    let mut mutex = Mutex::new(0u8);
    let guard = match mutex.lock_wait(1) {
        LockStep::Acquired(guard) => guard,
        LockStep::Wait => panic!("the lock was free"),
    };
    for who in [2, 3, 2, 4, 3] {
        assert!(matches!(mutex.lock_wait(who), LockStep::Wait));
    }
    let waiting: Vec<u64> = mutex.waiters.iter().copied().collect();
    assert_eq!(waiting, vec![2, 3, 4]);
    assert_eq!(mutex.unlock(guard), Some(2));
    let guard = match mutex.lock_wait(3) {
        LockStep::Acquired(guard) => guard,
        LockStep::Wait => panic!("the lock was free"),
    };
    let waiting: Vec<u64> = mutex.waiters.iter().copied().collect();
    assert_eq!(waiting, vec![4]);
    assert!(matches!(mutex.lock_wait(2), LockStep::Wait));
    assert_eq!(mutex.unlock(guard), Some(4));
    assert_eq!(mutex.waiters.len(), 1);
}

#[test]
fn interleaved_callers_never_hold_the_lock_together() {
    let tasks = 3usize;
    let steps = 9u32;
    for schedule in 0..tasks.pow(steps) {
        let mut mutex = Mutex::new(0u32);
        let mut guards: Vec<Option<MutexGuard<u32>>> = vec![None, None, None];
        let mut rest = schedule;
        for _ in 0..steps {
            let who = rest % tasks;
            rest /= tasks;
            match guards[who].take() {
                Some(mut guard) => {
                    let seen = *guard.get();
                    guard.set(seen + 1);
                    mutex.unlock(guard);
                }
                None => {
                    if let LockStep::Acquired(guard) = mutex.lock_wait(who as u64) {
                        guards[who] = Some(guard);
                    }
                }
            }
            let holders = guards.iter().filter(|g| g.is_some()).count();
            assert!(holders <= 1);
            assert_eq!(mutex.locked(), holders == 1);
        }
    }
}

#[test]
fn many_readers_or_one_writer() {
    let mut lock = SharedLock::new(String::from("shared"));
    let first = lock.read().unwrap();
    let second = lock.read().unwrap();
    assert_eq!(lock.readers, 2);
    assert_eq!(lock.get(&first), "shared");
    assert!(lock.write().is_none());
    assert_eq!(lock.release_read(first), None);
    assert!(lock.write().is_none());
    assert_eq!(lock.release_read(second), None);
    let mut writer = lock.write().unwrap();
    assert!(lock.read().is_none());
    assert!(lock.write().is_none());
    assert_eq!(writer.get(), "shared");
    writer.set(String::from("changed"));
    assert_eq!(lock.release_write(writer), None);
    let reader = lock.read().unwrap();
    assert_eq!(lock.get(&reader), "changed");
}

#[test]
fn a_writer_that_waits_is_woken_by_the_last_reader() {
    let mut lock = SharedLock::new(5);
    let first = match lock.read_wait(1) {
        LockStep::Acquired(guard) => guard,
        LockStep::Wait => panic!("the lock was free"),
    };
    let second = match lock.read_wait(2) {
        LockStep::Acquired(guard) => guard,
        LockStep::Wait => panic!("no writer holds the lock"),
    };
    assert!(matches!(lock.write_wait(3), LockStep::Wait));
    assert!(matches!(lock.write_wait(3), LockStep::Wait));
    assert_eq!(lock.release_read(first), None);
    assert_eq!(lock.release_read(second), Some(3));
    let writer = match lock.write_wait(3) {
        LockStep::Acquired(guard) => guard,
        LockStep::Wait => panic!("the lock was free"),
    };
    assert!(matches!(lock.read_wait(1), LockStep::Wait));
    assert_eq!(lock.release_write(writer), Some(1));
    assert!(lock.waiters.is_empty());
}

#[test]
fn a_once_static_is_set_once() {
    let mut cell = OnceStatic::new();
    assert!(!cell.initialized());
    assert_eq!(cell.get(), None);
    cell.init(17);
    assert!(cell.initialized());
    assert_eq!(*cell.as_ref(), 17);
    assert_eq!(cell.get(), Some(&17));
}

#[test]
fn a_once_mutex_locks_after_it_is_set() {
    let mut cell = OnceMutex::new();
    assert!(!cell.initialized());
    cell.init(vec![1, 2]);
    assert!(cell.initialized());
    let mut guard = cell.lock().unwrap();
    assert!(cell.lock().is_none());
    assert!(matches!(cell.lock_wait(9), LockStep::Wait));
    guard.set(vec![3]);
    assert_eq!(cell.unlock(guard), Some(9));
    match cell.lock_wait(9) {
        LockStep::Acquired(guard) => assert_eq!(guard.get(), &vec![3]),
        LockStep::Wait => panic!("the lock was free"),
    }
}

#[test]
fn events_on_a_mutex_leave_one_holder_at_most() {
    let take = LockEvent::Acquire;
    let give = LockEvent::Release;
    assert_eq!(run_events(&vec![]), None);
    assert_eq!(run_events(&vec![take(1), take(2), take(3)]), Some(1));
    assert_eq!(run_events(&vec![take(1), give(2), take(2)]), Some(1));
    assert_eq!(run_events(&vec![take(1), give(1), take(2), take(1)]), Some(2));
    assert_eq!(run_events(&vec![give(1), take(3), give(3)]), None);
}
