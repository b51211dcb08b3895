//! The tick counter and the pending timers, ordered by the tick at which
//! they expire.

use vstd::prelude::*;

use crate::message::TaskId;

verus! {

/// Ticks per second of the hardware timer.
pub const TIMER_FREQ: u64 = 100;

/// Ticks between two runs of the scheduler.
pub const TASK_TIMER_PERIOD: u64 = 2;

/// The value reserved for the scheduler's own timer.
pub const TASK_TIMER_VALUE: i32 = i32::MAX;

/// A pending timer. A negative `value` marks a timer that an application
/// asked for; `-value` is the number by which the application knows it.
#[derive(Clone, Copy, PartialEq, Eq, Structural, Debug)]
pub struct Timer {
    pub timeout: u64,
    pub value: i32,
    pub task_id: TaskId,
}

impl Timer {
    /// A timer that expires at tick `timeout` and belongs to `task_id`.
    pub fn new(timeout: u64, value: i32, task_id: TaskId) -> (timer: Self)
        ensures
            timer == (Timer { timeout, value, task_id }),
    {
        Self { timeout, value, task_id }
    }

    /// The tick at which the timer expires.
    pub fn timeout(&self) -> (timeout: u64)
        ensures
            timeout == self.timeout,
    {
        self.timeout
    }

    /// The value that tells the owner which timer expired.
    pub fn value(&self) -> (value: i32)
        ensures
            value == self.value,
    {
        self.value
    }

    /// The task that is told when the timer expires.
    pub fn task_id(&self) -> (task_id: TaskId)
        ensures
            task_id == self.task_id,
    {
        self.task_id
    }

    /// Whether this is the scheduler's own timer.
    pub fn is_task_timer(&self) -> (reserved: bool)
        ensures
            reserved == (self.value == TASK_TIMER_VALUE),
    {
        self.value == TASK_TIMER_VALUE
    }
}

/// Why a timer could not be added.
#[derive(Clone, Copy, PartialEq, Eq, Structural, Debug)]
pub enum TimerError {
    /// As many timers are pending as the manager can hold.
    Full,
}

/// Whether the timers stand in the order of their expiry.
pub open spec fn sorted_by_timeout(timers: Seq<Timer>) -> bool {
    forall|i: int, j: int| 0 <= i < j < timers.len() ==> timers[i].timeout <= timers[j].timeout
}

/// The number of timers that expire at `tick` or before.
pub open spec fn due_count(timers: Seq<Timer>, tick: u64) -> nat
    decreases timers.len(),
{
    if timers.len() == 0 {
        0
    } else {
        due_count(timers.drop_last(), tick) + if timers.last().timeout <= tick {
            1nat
        } else {
            0nat
        }
    }
}

/// In a sorted sequence the timers that are due at `tick` are the first
/// `due_count` ones: if the first `k` are due and no other is, `k` is that
/// number.
pub proof fn lemma_due_count_is_prefix(timers: Seq<Timer>, tick: u64, k: int)
    requires
        0 <= k <= timers.len(),
        forall|i: int| 0 <= i < k ==> timers[i].timeout <= tick,
        forall|i: int| k <= i < timers.len() ==> timers[i].timeout > tick,
    ensures
        due_count(timers, tick) == k,
    decreases timers.len(),
{
    if timers.len() > 0 {
        let front = timers.drop_last();
        if k == timers.len() {
            lemma_due_count_is_prefix(front, tick, k - 1);
        } else {
            lemma_due_count_is_prefix(front, tick, k);
        }
    }
}

/// The timers that are due at `tick` are the first `due_count` ones of a
/// sorted sequence, and no other is due.
pub proof fn lemma_due_prefix(timers: Seq<Timer>, tick: u64)
    requires
        sorted_by_timeout(timers),
    ensures
        due_count(timers, tick) <= timers.len(),
        forall|i: int| 0 <= i < due_count(timers, tick) ==> timers[i].timeout <= tick,
        forall|i: int| due_count(timers, tick) <= i < timers.len() ==> timers[i].timeout > tick,
    decreases timers.len(),
{
    if timers.len() > 0 {
        let front = timers.drop_last();
        assert(sorted_by_timeout(front)) by {
            assert forall|i: int, j: int| 0 <= i < j < front.len() implies front[i].timeout
                <= front[j].timeout by {
                assert(timers[i].timeout <= timers[j].timeout);
            }
        }
        lemma_due_prefix(front, tick);
        let k = due_count(front, tick);
        if timers.last().timeout <= tick {
            if k < front.len() {
                assert(front[k as int].timeout > tick);
                assert(timers[k as int].timeout <= timers[timers.len() - 1].timeout);
            }
            assert(k == front.len());
        }
        assert forall|i: int| 0 <= i < due_count(timers, tick) implies timers[i].timeout
            <= tick by {
            if i < front.len() {
                assert(front[i] == timers[i]);
            }
        }
        assert forall|i: int| due_count(timers, tick) <= i < timers.len() implies timers[i].timeout
            > tick by {
            if i < front.len() {
                assert(front[i] == timers[i]);
            }
        }
    }
}

/// The tick counter and the timers that have not expired.
pub struct TimerManager {
    pub tick: u64,
    pub timers: Vec<Timer>,
    pub limit: usize,
}

impl TimerManager {
    /// The pending timers, the next to expire first; among timers of one
    /// expiry, the one added first stands first.
    pub open spec fn pending(&self) -> Seq<Timer> {
        self.timers@
    }

    /// The timers are sorted and no more than the limit.
    pub open spec fn wf(&self) -> bool {
        &&& sorted_by_timeout(self.timers@)
        &&& self.timers@.len() <= self.limit
    }

    /// A manager at tick 0 without timers that holds up to `limit` timers.
    pub fn new(limit: usize) -> (manager: Self)
        ensures
            manager.wf(),
            manager.tick == 0,
            manager.limit == limit,
            manager.pending() == Seq::<Timer>::empty(),
    {
        Self { tick: 0, timers: Vec::new(), limit }
    }

    /// The number of ticks since the start.
    pub fn current_tick(&self) -> (tick: u64)
        ensures
            tick == self.tick,
    {
        self.tick
    }

    /// The number of pending timers.
    pub fn len(&self) -> (count: usize)
        ensures
            count == self.pending().len(),
    {
        self.timers.len()
    }

    /// The index of the first timer that expires after `tick`.
    fn first_after(&self, tick: u64) -> (k: usize)
        requires
            self.wf(),
        ensures
            k == due_count(self.pending(), tick),
            k <= self.pending().len(),
    {
        let mut k: usize = 0;
        while k < self.timers.len() && self.timers[k].timeout <= tick
            invariant
                k <= self.timers@.len(),
                forall|i: int| 0 <= i < k ==> self.timers@[i].timeout <= tick,
            decreases self.timers@.len() - k,
        {
            k = k + 1;
        }
        proof {
            assert forall|i: int| k <= i < self.timers@.len() implies self.timers@[i].timeout
                > tick by {
                assert(self.timers@[k as int].timeout <= self.timers@[i].timeout);
            }
            lemma_due_count_is_prefix(self.timers@, tick, k as int);
        }
        k
    }

    /// Adds `timer` behind the pending timers that expire no later than it
    /// does, or reports that the manager is full.
    pub fn add_timer(&mut self, timer: Timer) -> (added: Result<(), TimerError>)
        requires
            old(self).wf(),
        ensures
            final(self).wf(),
            final(self).tick == old(self).tick,
            final(self).limit == old(self).limit,
            added is Ok <==> old(self).pending().len() < old(self).limit,
            added is Ok ==> final(self).pending() == old(self).pending().insert(
                due_count(old(self).pending(), timer.timeout) as int,
                timer,
            ),
            added is Err ==> added == Err::<(), TimerError>(TimerError::Full) && final(self).pending() == old(self).pending(),
    {
        if self.timers.len() >= self.limit {
            return Err(TimerError::Full);
        }
        let k = self.first_after(timer.timeout);
        proof {
            lemma_due_prefix(self.timers@, timer.timeout);
        }
        self.timers.insert(k, timer);
        Ok(())
    }

    /// Advances the counter by one tick and hands out the timers that are
    /// then due, in the order of their expiry.
    pub fn tick(&mut self) -> (expired: Vec<Timer>)
        requires
            old(self).wf(),
            old(self).tick < u64::MAX,
        ensures
            final(self).wf(),
            final(self).tick == old(self).tick + 1,
            final(self).limit == old(self).limit,
            expired@ == old(self).pending().take(
                due_count(old(self).pending(), final(self).tick) as int,
            ),
            final(self).pending() == old(self).pending().skip(
                due_count(old(self).pending(), final(self).tick) as int,
            ),
            expired@ + final(self).pending() == old(self).pending(),
            sorted_by_timeout(expired@),
            forall|i: int| 0 <= i < expired@.len() ==> expired@[i].timeout <= final(self).tick,
            forall|i: int|
                0 <= i < final(self).pending().len() ==> final(self).pending()[i].timeout > final(self).tick,
    {
        self.tick = self.tick + 1;
        let k = self.first_after(self.tick);
        proof {
            lemma_due_prefix(self.timers@, self.tick);
        }
        let mut expired = self.timers.split_off(k);
        std::mem::swap(&mut self.timers, &mut expired);
        proof {
            assert(expired@ + self.timers@ =~= old(self).timers@);
        }
        expired
    }
}

} // verus!
