//! Locks for a single processor: a mutex, a lock for many readers or one
//! writer, and values that are set once before their first use.
//!
//! A lock is a state machine. The caller serialises the calls on one lock,
//! on this kernel by masking interrupts around each of them. A guard holds
//! the key to the lock until it is handed back; the lock hands out the
//! value with the guard, so nobody reaches the value without one.

use std::collections::VecDeque;
use vstd::prelude::*;

use crate::message::TaskId;
use crate::queue::{lemma_drop_first, lemma_push_new, lemma_without, push_unique, remove_id, without};

verus! {

/// What a blocking acquisition came to at one attempt.
pub enum LockStep<G> {
    /// The lock was free; here is its guard.
    Acquired(G),
    /// The lock is held. The caller was noted as waiting: it sleeps and
    /// tries again when a release names it.
    Wait,
}

/// The guard of a `Mutex`: it carries the guarded value while the lock is
/// held.
pub struct MutexGuard<T> {
    pub value: T,
}

impl<T> MutexGuard<T> {
    /// The guarded value.
    pub fn get(&self) -> (value: &T)
        ensures
            *value == self.value,
    {
        &self.value
    }

    /// Replaces the guarded value.
    pub fn set(&mut self, value: T)
        ensures
            final(self).value == value,
    {
        self.value = value;
    }
}

/// A lock with at most one holder.
pub struct Mutex<T> {
    pub slot: Option<T>,
    pub waiters: VecDeque<TaskId>,
}

impl<T> Mutex<T> {
    /// Whether a guard is out.
    pub open spec fn is_locked(&self) -> bool {
        self.slot is None
    }

    /// The tasks that wait for the lock, the one that waited longest first.
    pub open spec fn waiting(&self) -> Seq<TaskId> {
        self.waiters@
    }

    /// No task waits twice.
    pub open spec fn wf(&self) -> bool {
        self.waiters@.no_duplicates()
    }

    /// A free lock around `value`.
    pub fn new(value: T) -> (mutex: Self)
        ensures
            mutex.wf(),
            mutex.slot == Some(value),
            mutex.waiting() == Seq::<TaskId>::empty(),
    {
        Self { slot: Some(value), waiters: VecDeque::new() }
    }

    /// Whether a guard is out.
    pub fn locked(&self) -> (held: bool)
        ensures
            held == self.is_locked(),
    {
        self.slot.is_none()
    }

    /// Takes the lock if it is free; never waits.
    pub fn lock(&mut self) -> (guard: Option<MutexGuard<T>>)
        ensures
            guard is Some <==> !old(self).is_locked(),
            final(self).is_locked(),
            guard matches Some(g) ==> Some(g.value) == old(self).slot,
            final(self).waiters == old(self).waiters,
    {
        match self.slot.take() {
            Some(value) => Some(MutexGuard { value }),
            None => None,
        }
    }

    /// One attempt of the task `who` to take the lock. If the lock is free,
    /// `who` gets it and no longer waits. If not, `who` is put behind the
    /// tasks that wait, unless it waits already.
    pub fn lock_wait(&mut self, who: TaskId) -> (step: LockStep<MutexGuard<T>>)
        requires
            old(self).wf(),
        ensures
            final(self).wf(),
            final(self).is_locked(),
            step is Acquired <==> !old(self).is_locked(),
            step matches LockStep::Acquired(g) ==> Some(g.value) == old(self).slot && final(self).waiting() == without(old(self).waiting(), who),
            step is Wait ==> final(self).waiting() == (if old(self).waiting().contains(who) {
                old(self).waiting()
            } else {
                old(self).waiting().push(who)
            }),
    {
        match self.slot.take() {
            Some(value) => {
                proof {
                    lemma_without(self.waiters@, who);
                }
                let _ = remove_id(&mut self.waiters, who);
                LockStep::Acquired(MutexGuard { value })
            },
            None => {
                proof {
                    if !self.waiters@.contains(who) {
                        lemma_push_new(self.waiters@, who);
                    }
                }
                push_unique(&mut self.waiters, who);
                LockStep::Wait
            },
        }
    }

    /// Hands the lock back with the value that the guard carries, and names
    /// the task that waited longest, which the caller wakes.
    pub fn unlock(&mut self, guard: MutexGuard<T>) -> (wake: Option<TaskId>)
        requires
            old(self).wf(),
            old(self).is_locked(),
        ensures
            final(self).wf(),
            final(self).slot == Some(guard.value),
            old(self).waiting().len() == 0 ==> wake is None && final(self).waiting() == old(self).waiting(),
            old(self).waiting().len() > 0 ==> wake == Some(old(self).waiting()[0]) && final(self).waiting() == old(self).waiting().drop_first(),
    {
        self.slot = Some(guard.value);
        proof {
            if self.waiters@.len() > 0 {
                lemma_drop_first(self.waiters@);
            }
        }
        self.waiters.pop_front()
    }
}

/// What the tasks do to one mutex, as the mutex sees it.
#[derive(Clone, Copy, PartialEq, Eq, Structural, Debug)]
pub enum LockEvent {
    /// The task tries to take the lock.
    Acquire(TaskId),
    /// The task hands back the guard, if it has one.
    Release(TaskId),
}

/// A mutex and the tasks that hold a guard of it.
pub struct LockModel {
    pub locked: bool,
    pub holders: Set<TaskId>,
}

impl LockModel {
    /// The free lock.
    pub open spec fn free() -> Self {
        LockModel { locked: false, holders: Set::empty() }
    }

    /// The lock after one event: an attempt succeeds exactly when the lock is
    /// free, as `Mutex::lock` and `Mutex::lock_wait` do; a release frees the
    /// lock when the task holds a guard, and is ignored when it does not.
    pub open spec fn step(self, event: LockEvent) -> Self {
        match event {
            LockEvent::Acquire(task) => if self.locked {
                self
            } else {
                LockModel { locked: true, holders: self.holders.insert(task) }
            },
            LockEvent::Release(task) => if self.holders.contains(task) {
                LockModel { locked: false, holders: self.holders.remove(task) }
            } else {
                self
            },
        }
    }

    /// The lock after the events, starting free.
    pub open spec fn run(events: Seq<LockEvent>) -> Self
        decreases events.len(),
    {
        if events.len() == 0 {
            Self::free()
        } else {
            Self::run(events.drop_last()).step(events.last())
        }
    }
}

/// However the attempts and releases of the tasks interleave, at most one
/// task holds a guard at any time, and one does exactly while the lock is
/// locked.
pub proof fn lemma_lock_exclusive(events: Seq<LockEvent>)
    ensures
        LockModel::run(events).holders.finite(),
        LockModel::run(events).holders.len() <= 1,
        LockModel::run(events).locked <==> LockModel::run(events).holders.len() == 1,
    decreases events.len(),
{
    if events.len() > 0 {
        lemma_lock_exclusive(events.drop_last());
    }
}

/// Lets the tasks do to a mutex what `events` says, in that order, and tells
/// which task holds the guard at the end.
///
/// A task that holds the guard and is to release it hands it back; a task
/// that is to take the lock tries once. Whatever the order of the events, a
/// guard is handed out only while no task holds one, and the mutex is locked
/// exactly while a task holds the guard, as in `LockModel`.
pub fn run_events(events: &Vec<LockEvent>) -> (holder: Option<TaskId>)
    ensures
        LockModel::run(events@).locked == (holder is Some),
        LockModel::run(events@).holders == (match holder {
            Some(task) => Set::<TaskId>::empty().insert(task),
            None => Set::<TaskId>::empty(),
        }),
{
    let mut mutex: Mutex<u64> = Mutex::new(0);
    let mut held: Option<(TaskId, MutexGuard<u64>)> = None;
    let mut i: usize = 0;
    proof {
        assert(events@.take(0) =~= Seq::<LockEvent>::empty());
    }
    while i < events.len()
        invariant
            i <= events@.len(),
            mutex.wf(),
            mutex.is_locked() == (held is Some),
            LockModel::run(events@.take(i as int)).locked == (held is Some),
            LockModel::run(events@.take(i as int)).holders == (match held {
                Some(pair) => Set::<TaskId>::empty().insert(pair.0),
                None => Set::<TaskId>::empty(),
            }),
        decreases events@.len() - i,
    {
        proof {
            assert(events@.take(i + 1).drop_last() =~= events@.take(i as int));
            assert(events@.take(i + 1).last() == events@[i as int]);
        }
        let ghost before = LockModel::run(events@.take(i as int));
        match events[i] {
            LockEvent::Acquire(task) => {
                match mutex.lock_wait(task) {
                    LockStep::Acquired(guard) => {
                        assert(held is None);
                        held = Some((task, guard));
                    },
                    LockStep::Wait => {},
                }
            },
            LockEvent::Release(task) => {
                let taken = held;
                match taken {
                    Some((owner, guard)) => {
                        if owner == task {
                            let _ = mutex.unlock(guard);
                            held = None;
                            proof {
                                assert(before.holders.remove(task) =~= Set::<TaskId>::empty());
                            }
                        } else {
                            held = Some((owner, guard));
                        }
                    },
                    None => {
                        held = None;
                    },
                }
            },
        }
        i = i + 1;
    }
    proof {
        assert(events@.take(events@.len() as int) =~= events@);
    }
    match held {
        Some((task, _)) => Some(task),
        None => None,
    }
}

/// The guard of a reader. It carries nothing: the readers share the value,
/// which stays in the lock.
pub struct ReadGuard {}

/// The guard of the writer: it carries the value while the writer holds the
/// lock.
pub struct WriteGuard<T> {
    pub value: T,
}

impl<T> WriteGuard<T> {
    /// The guarded value.
    pub fn get(&self) -> (value: &T)
        ensures
            *value == self.value,
    {
        &self.value
    }

    /// Replaces the guarded value.
    pub fn set(&mut self, value: T)
        ensures
            final(self).value == value,
    {
        self.value = value;
    }
}

/// A lock with any number of readers or one writer.
pub struct SharedLock<T> {
    pub slot: Option<T>,
    pub readers: usize,
    pub waiters: VecDeque<TaskId>,
}

impl<T> SharedLock<T> {
    /// Whether the writer's guard is out.
    pub open spec fn writing(&self) -> bool {
        self.slot is None
    }

    /// The number of readers' guards that are out.
    pub open spec fn reading(&self) -> nat {
        self.readers as nat
    }

    /// The tasks that wait for the lock, the one that waited longest first.
    pub open spec fn waiting(&self) -> Seq<TaskId> {
        self.waiters@
    }

    /// Readers and a writer never hold the lock together, and no task waits
    /// twice.
    pub open spec fn wf(&self) -> bool {
        &&& self.writing() ==> self.reading() == 0
        &&& self.waiters@.no_duplicates()
    }

    /// A free lock around `value`.
    pub fn new(value: T) -> (lock: Self)
        ensures
            lock.wf(),
            lock.slot == Some(value),
            lock.reading() == 0,
            lock.waiting() == Seq::<TaskId>::empty(),
    {
        Self { slot: Some(value), readers: 0, waiters: VecDeque::new() }
    }

    /// Whether a reader can take the lock now.
    pub open spec fn can_read(&self) -> bool {
        !self.writing() && self.readers < usize::MAX
    }

    /// Whether the writer can take the lock now.
    pub open spec fn can_write(&self) -> bool {
        !self.writing() && self.readers == 0
    }

    /// Takes the lock for reading unless a writer holds it; never waits.
    pub fn read(&mut self) -> (guard: Option<ReadGuard>)
        requires
            old(self).wf(),
        ensures
            final(self).wf(),
            guard is Some <==> old(self).can_read(),
            final(self).slot == old(self).slot,
            final(self).waiters == old(self).waiters,
            final(self).reading() == old(self).reading() + (if guard is Some {
                1nat
            } else {
                0nat
            }),
    {
        if self.slot.is_some() && self.readers < usize::MAX {
            self.readers = self.readers + 1;
            Some(ReadGuard {})
        } else {
            None
        }
    }

    /// Takes the lock for writing if nobody holds it; never waits.
    pub fn write(&mut self) -> (guard: Option<WriteGuard<T>>)
        requires
            old(self).wf(),
        ensures
            final(self).wf(),
            guard is Some <==> old(self).can_write(),
            guard matches Some(g) ==> Some(g.value) == old(self).slot && final(self).writing(),
            guard is None ==> final(self).slot == old(self).slot,
            final(self).readers == old(self).readers,
            final(self).waiters == old(self).waiters,
    {
        if self.readers == 0 {
            match self.slot.take() {
                Some(value) => Some(WriteGuard { value }),
                None => None,
            }
        } else {
            None
        }
    }

    /// One attempt of the task `who` to take the lock for reading. If it
    /// cannot, `who` is put behind the tasks that wait, unless it waits
    /// already.
    pub fn read_wait(&mut self, who: TaskId) -> (step: LockStep<ReadGuard>)
        requires
            old(self).wf(),
        ensures
            final(self).wf(),
            step is Acquired <==> old(self).can_read(),
            final(self).slot == old(self).slot,
            step is Acquired ==> final(self).reading() == old(self).reading() + 1 && final(self).waiting() == without(old(self).waiting(), who),
            step is Wait ==> final(self).reading() == old(self).reading() && final(self).waiting() == (if old(self).waiting().contains(who) {
                old(self).waiting()
            } else {
                old(self).waiting().push(who)
            }),
    {
        if self.slot.is_some() && self.readers < usize::MAX {
            self.readers = self.readers + 1;
            proof {
                lemma_without(self.waiters@, who);
            }
            let _ = remove_id(&mut self.waiters, who);
            LockStep::Acquired(ReadGuard {})
        } else {
            proof {
                if !self.waiters@.contains(who) {
                    lemma_push_new(self.waiters@, who);
                }
            }
            push_unique(&mut self.waiters, who);
            LockStep::Wait
        }
    }

    /// One attempt of the task `who` to take the lock for writing. If it
    /// cannot, `who` is put behind the tasks that wait, unless it waits
    /// already.
    pub fn write_wait(&mut self, who: TaskId) -> (step: LockStep<WriteGuard<T>>)
        requires
            old(self).wf(),
        ensures
            final(self).wf(),
            step is Acquired <==> old(self).can_write(),
            final(self).readers == old(self).readers,
            step matches LockStep::Acquired(g) ==> Some(g.value) == old(self).slot && final(self).writing() && final(self).waiting() == without(old(self).waiting(), who),
            step is Wait ==> final(self).slot == old(self).slot && final(self).waiting() == (
            if old(self).waiting().contains(who) {
                old(self).waiting()
            } else {
                old(self).waiting().push(who)
            }),
    {
        if self.readers == 0 && self.slot.is_some() {
            match self.slot.take() {
                Some(value) => {
                    proof {
                        lemma_without(self.waiters@, who);
                    }
                    let _ = remove_id(&mut self.waiters, who);
                    return LockStep::Acquired(WriteGuard { value });
                },
                None => {},
            }
        }
        proof {
            if !self.waiters@.contains(who) {
                lemma_push_new(self.waiters@, who);
            }
        }
        push_unique(&mut self.waiters, who);
        LockStep::Wait
    }

    /// The value, for a reader that holds a guard.
    pub fn get(&self, guard: &ReadGuard) -> (value: &T)
        requires
            self.wf(),
            self.reading() > 0,
        ensures
            Some(*value) == self.slot,
    {
        self.slot.as_ref().unwrap()
    }

    /// Hands a reader's guard back. When the last reader leaves, the task
    /// that waited longest is named, which the caller wakes.
    pub fn release_read(&mut self, guard: ReadGuard) -> (wake: Option<TaskId>)
        requires
            old(self).wf(),
            old(self).reading() > 0,
        ensures
            final(self).wf(),
            final(self).slot == old(self).slot,
            final(self).reading() == old(self).reading() - 1,
            final(self).reading() > 0 || old(self).waiting().len() == 0 ==> wake is None
                && final(self).waiting() == old(self).waiting(),
            final(self).reading() == 0 && old(self).waiting().len() > 0 ==> wake == Some(
                old(self).waiting()[0],
            ) && final(self).waiting() == old(self).waiting().drop_first(),
    {
        self.readers = self.readers - 1;
        if self.readers == 0 {
            proof {
                if self.waiters@.len() > 0 {
                    lemma_drop_first(self.waiters@);
                }
            }
            self.waiters.pop_front()
        } else {
            None
        }
    }

    /// Hands the writer's guard back with the value that it carries, and
    /// names the task that waited longest, which the caller wakes.
    pub fn release_write(&mut self, guard: WriteGuard<T>) -> (wake: Option<TaskId>)
        requires
            old(self).wf(),
            old(self).writing(),
        ensures
            final(self).wf(),
            final(self).slot == Some(guard.value),
            final(self).reading() == 0,
            old(self).waiting().len() == 0 ==> wake is None && final(self).waiting() == old(self).waiting(),
            old(self).waiting().len() > 0 ==> wake == Some(old(self).waiting()[0]) && final(self).waiting() == old(self).waiting().drop_first(),
    {
        self.slot = Some(guard.value);
        proof {
            if self.waiters@.len() > 0 {
                lemma_drop_first(self.waiters@);
            }
        }
        self.waiters.pop_front()
    }
}

/// A value that is set once, before its first use, and only read after.
pub struct OnceStatic<T> {
    pub value: Option<T>,
}

impl<T> OnceStatic<T> {
    /// Whether the value was set.
    pub open spec fn is_initialized(&self) -> bool {
        self.value is Some
    }

    /// A cell without a value.
    pub fn new() -> (cell: Self)
        ensures
            !cell.is_initialized(),
    {
        Self { value: None }
    }

    /// Whether the value was set.
    pub fn initialized(&self) -> (set: bool)
        ensures
            set == self.is_initialized(),
    {
        self.value.is_some()
    }

    /// Sets the value. It must not have been set before.
    pub fn init(&mut self, value: T)
        requires
            !old(self).is_initialized(),
        ensures
            final(self).value == Some(value),
    {
        self.value = Some(value);
    }

    /// The value. It must have been set.
    pub fn as_ref(&self) -> (value: &T)
        requires
            self.is_initialized(),
        ensures
            Some(*value) == self.value,
    {
        self.value.as_ref().unwrap()
    }

    /// The value, or `None` while it is not set.
    pub fn get(&self) -> (value: Option<&T>)
        ensures
            value is Some <==> self.is_initialized(),
            value matches Some(v) ==> Some(*v) == self.value,
    {
        self.value.as_ref()
    }
}

/// A mutex whose value is set once, before its first use.
pub struct OnceMutex<T> {
    pub inner: Option<Mutex<T>>,
}

impl<T> OnceMutex<T> {
    /// Whether the value was set.
    pub open spec fn is_initialized(&self) -> bool {
        self.inner is Some
    }

    /// The mutex, once the value was set.
    pub open spec fn mutex(&self) -> Mutex<T> {
        self.inner->0
    }

    /// Where the value was set, the mutex is well formed.
    pub open spec fn wf(&self) -> bool {
        self.is_initialized() ==> self.mutex().wf()
    }

    /// A mutex without a value.
    pub fn new() -> (cell: Self)
        ensures
            cell.wf(),
            !cell.is_initialized(),
    {
        Self { inner: None }
    }

    /// Whether the value was set.
    pub fn initialized(&self) -> (set: bool)
        ensures
            set == self.is_initialized(),
    {
        self.inner.is_some()
    }

    /// Sets the value. It must not have been set before.
    pub fn init(&mut self, value: T)
        requires
            !old(self).is_initialized(),
        ensures
            final(self).wf(),
            final(self).is_initialized(),
            final(self).mutex().slot == Some(value),
            final(self).mutex().waiting() == Seq::<TaskId>::empty(),
    {
        self.inner = Some(Mutex::new(value));
    }

    /// Takes the lock if it is free; never waits. The value must have been
    /// set.
    pub fn lock(&mut self) -> (guard: Option<MutexGuard<T>>)
        requires
            old(self).is_initialized(),
        ensures
            final(self).is_initialized(),
            guard is Some <==> !old(self).mutex().is_locked(),
            final(self).mutex().is_locked(),
            guard matches Some(g) ==> Some(g.value) == old(self).mutex().slot,
            final(self).mutex().waiters == old(self).mutex().waiters,
    {
        match &mut self.inner {
            Some(mutex) => mutex.lock(),
            None => None,
        }
    }

    /// One attempt of the task `who` to take the lock, as `Mutex::lock_wait`
    /// makes it. The value must have been set.
    pub fn lock_wait(&mut self, who: TaskId) -> (step: LockStep<MutexGuard<T>>)
        requires
            old(self).is_initialized(),
            old(self).wf(),
        ensures
            final(self).is_initialized(),
            final(self).wf(),
            final(self).mutex().is_locked(),
            step is Acquired <==> !old(self).mutex().is_locked(),
            step matches LockStep::Acquired(g) ==> Some(g.value) == old(self).mutex().slot
                && final(self).mutex().waiting() == without(old(self).mutex().waiting(), who),
            step is Wait ==> final(self).mutex().waiting() == (if old(self).mutex().waiting().contains(who) {
                old(self).mutex().waiting()
            } else {
                old(self).mutex().waiting().push(who)
            }),
    {
        match &mut self.inner {
            Some(mutex) => mutex.lock_wait(who),
            None => LockStep::Wait,
        }
    }

    /// Hands the lock back, as `Mutex::unlock` does. The value must have
    /// been set.
    pub fn unlock(&mut self, guard: MutexGuard<T>) -> (wake: Option<TaskId>)
        requires
            old(self).is_initialized(),
            old(self).wf(),
            old(self).mutex().is_locked(),
        ensures
            final(self).is_initialized(),
            final(self).wf(),
            final(self).mutex().slot == Some(guard.value),
            old(self).mutex().waiting().len() == 0 ==> wake is None && final(self).mutex().waiting() == old(self).mutex().waiting(),
            old(self).mutex().waiting().len() > 0 ==> wake == Some(
                old(self).mutex().waiting()[0],
            ) && final(self).mutex().waiting() == old(self).mutex().waiting().drop_first(),
    {
        match &mut self.inner {
            Some(mutex) => mutex.unlock(guard),
            None => None,
        }
    }
}

} // verus!
