//! The state of the kernel as one value: the tasks and the timers, and the
//! handler of the timer interrupt that ties them together.

use vstd::prelude::*;

use crate::message::{Message, MessageType, TaskId};
use crate::scheduler::TaskManager;
use crate::task::{
    dispatch_between, lemma_demote_current, lemma_highest_below, lemma_queue_membership,
    lemma_schedule_tick, lemma_scheduling_keeps_mail, lemma_send_mail, lemma_send_message,
    lemma_wake_config, lemma_with_task_same_place, run_queue_entries, Dispatch, Sched,
    TaskConfig, TaskView,
};
use crate::timer::{
    due_count, lemma_due_prefix, sorted_by_timeout, Timer, TimerManager, TASK_TIMER_PERIOD,
    TASK_TIMER_VALUE,
};

verus! {

/// The sender of the messages that interrupt handlers send: no task has
/// this identifier.
pub const KERNEL_TASK: TaskId = 0;

/// The message that tells the owner of `timer` that it expired.
pub open spec fn timeout_message(timer: Timer) -> Message {
    Message {
        ty: MessageType::TimerTimeout { timeout: timer.timeout, value: timer.value },
        src_task: KERNEL_TASK,
    }
}

/// The scheduler's timer that follows one that expired at `tick`.
pub open spec fn next_task_timer(timer: Timer, tick: u64) -> Timer {
    Timer {
        timeout: (tick + TASK_TIMER_PERIOD) as u64,
        value: TASK_TIMER_VALUE,
        task_id: timer.task_id,
    }
}

/// The tasks after `timer` expired: the scheduler's own timer runs the
/// scheduler; any other is told to its owner by a message.
pub open spec fn fire(s: Sched, timer: Timer) -> Sched {
    if timer.value == TASK_TIMER_VALUE {
        s.schedule_tick()
    } else {
        s.send_message(timer.task_id, timeout_message(timer))
    }
}

/// The tasks after the timers expired, the first of them first.
pub open spec fn fire_all(s: Sched, timers: Seq<Timer>) -> Sched
    decreases timers.len(),
{
    if timers.len() == 0 {
        s
    } else {
        fire(fire_all(s, timers.drop_last()), timers.last())
    }
}

/// Those of the timers that could not be told to their owner when they
/// expired, because the owner was gone or its message queue full.
pub open spec fn lost(s: Sched, timers: Seq<Timer>) -> Seq<Timer>
    decreases timers.len(),
{
    if timers.len() == 0 {
        Seq::empty()
    } else {
        let before = fire_all(s, timers.drop_last());
        let rest = lost(s, timers.drop_last());
        if timers.last().value != TASK_TIMER_VALUE && !before.can_send(timers.last().task_id) {
            rest.push(timers.last())
        } else {
            rest
        }
    }
}

/// The pending timers after each of the scheduler's timers among `due` was
/// followed by its next one, `TASK_TIMER_PERIOD` ticks after `tick`.
pub open spec fn rearmed(pending: Seq<Timer>, due: Seq<Timer>, tick: u64) -> Seq<Timer>
    decreases due.len(),
{
    if due.len() == 0 {
        pending
    } else {
        let before = rearmed(pending, due.drop_last(), tick);
        if due.last().value == TASK_TIMER_VALUE {
            let next = next_task_timer(due.last(), tick);
            before.insert(due_count(before, next.timeout) as int, next)
        } else {
            before
        }
    }
}

/// The number of the scheduler's timers among `due`.
pub open spec fn task_timers(due: Seq<Timer>) -> nat
    decreases due.len(),
{
    if due.len() == 0 {
        0
    } else {
        task_timers(due.drop_last()) + if due.last().value == TASK_TIMER_VALUE {
            1nat
        } else {
            0nat
        }
    }
}

/// What the handler of the timer interrupt found.
pub struct TickOutcome {
    /// What the platform layer does next.
    pub dispatch: Dispatch,
    /// The timers that expired and could not be told to their owner, in the
    /// order in which they expired.
    pub undelivered: Vec<Timer>,
}

/// The tasks and the timers of the kernel.
pub struct Kernel {
    pub tasks: TaskManager,
    pub timers: TimerManager,
}

impl Kernel {
    /// Both parts are well formed.
    pub open spec fn wf(&self) -> bool {
        self.tasks.wf() && self.timers.wf()
    }

    /// The kernel at its start: the task 1 runs, and the scheduler's timer
    /// is set for tick `TASK_TIMER_PERIOD`. `None` when the configuration is
    /// not well formed or there is no room for a timer.
    pub fn new(config: TaskConfig, timer_limit: usize) -> (kernel: Option<Self>)
        ensures
            kernel is Some <==> config.wf() && timer_limit >= 1,
            kernel matches Some(k) ==> k.wf() && k.tasks@ == Sched::initial(config)
                && k.timers.tick == 0 && k.timers.limit == timer_limit && k.timers.pending()
                == seq![
                Timer { timeout: TASK_TIMER_PERIOD, value: TASK_TIMER_VALUE, task_id: 1 },
            ],
    {
        if timer_limit < 1 {
            return None;
        }
        let tasks = match TaskManager::new(config) {
            Some(tasks) => tasks,
            None => {
                return None;
            },
        };
        let mut timers = TimerManager::new(timer_limit);
        let _ = timers.add_timer(Timer::new(TASK_TIMER_PERIOD, TASK_TIMER_VALUE, 1));
        proof {
            assert(timers.pending() =~= seq![
                Timer { timeout: TASK_TIMER_PERIOD, value: TASK_TIMER_VALUE, task_id: 1 },
            ]);
        }
        Some(Self { tasks, timers })
    }

    /// The handler of the timer interrupt. It advances the tick counter by
    /// one and takes every timer that is then due, in the order of expiry.
    /// The scheduler's own timer runs the scheduler and is set again,
    /// `TASK_TIMER_PERIOD` ticks on; every other timer is told to its owner
    /// by a message that carries its expiry and its value. A timer whose
    /// owner is gone, or has a full message queue, is handed back to the
    /// caller.
    pub fn timer_interrupt(&mut self) -> (outcome: TickOutcome)
        requires
            old(self).wf(),
            old(self).timers.tick + 1 + TASK_TIMER_PERIOD <= u64::MAX,
        ensures
            final(self).wf(),
            final(self).timers.tick == old(self).timers.tick + 1,
            final(self).timers.limit == old(self).timers.limit,
            ({
                let tick = final(self).timers.tick;
                let before = old(self).timers.pending();
                let due = before.take(due_count(before, tick) as int);
                let rest = before.skip(due_count(before, tick) as int);
                &&& final(self).tasks@ == fire_all(old(self).tasks@, due)
                &&& final(self).timers.pending() == rearmed(rest, due, tick)
                &&& outcome.undelivered@ == lost(old(self).tasks@, due)
            }),
            outcome.dispatch == dispatch_between(
                old(self).tasks@.current,
                final(self).tasks@.current,
            ),
    {
        let before = self.tasks.current_id();
        let expired = self.timers.tick();
        let tick = self.timers.current_tick();
        let ghost rest = self.timers.pending();
        let mut undelivered: Vec<Timer> = Vec::new();
        let mut i: usize = 0;
        proof {
            assert(expired@.take(0) =~= Seq::<Timer>::empty());
        }
        while i < expired.len()
            invariant
                i <= expired@.len(),
                self.wf(),
                self.timers.tick == tick,
                tick + TASK_TIMER_PERIOD <= u64::MAX,
                self.timers.limit == old(self).timers.limit,
                self.timers.pending().len() + (expired@.len() - i) <= self.timers.limit,
                self.tasks@ == fire_all(old(self).tasks@, expired@.take(i as int)),
                self.timers.pending() == rearmed(rest, expired@.take(i as int), tick),
                undelivered@ == lost(old(self).tasks@, expired@.take(i as int)),
            decreases expired@.len() - i,
        {
            let timer = expired[i];
            proof {
                assert(expired@.take(i + 1).drop_last() =~= expired@.take(i as int));
                assert(expired@.take(i + 1).last() == timer);
            }
            if timer.is_task_timer() {
                let _ = self.tasks.schedule_tick();
                proof {
                    lemma_due_prefix(self.timers.pending(), (tick + TASK_TIMER_PERIOD) as u64);
                }
                let _ = self.timers.add_timer(
                    Timer::new(tick + TASK_TIMER_PERIOD, TASK_TIMER_VALUE, timer.task_id),
                );
            } else {
                let message = Message::new(
                    MessageType::TimerTimeout { timeout: timer.timeout, value: timer.value },
                    KERNEL_TASK,
                );
                match self.tasks.send_message(timer.task_id, message) {
                    Ok(_) => {},
                    Err(_) => {
                        undelivered.push(timer);
                    },
                }
            }
            i = i + 1;
        }
        proof {
            assert(expired@.take(expired@.len() as int) =~= expired@);
        }
        let after = self.tasks.current_id();
        let dispatch = if before == after {
            Dispatch::Continue
        } else {
            match after {
                Some(to) => Dispatch::Switch { from: before, to },
                None => match before {
                    Some(task) => Dispatch::Halt { task },
                    None => Dispatch::Continue,
                },
            }
        };
        TickOutcome { dispatch, undelivered }
    }
}

/// No timer is lost without a word: every timer that is due when the tick
/// counter advances runs the scheduler, reaches its owner, or is handed back
/// to the caller.
pub proof fn lemma_every_timer_accounted(s: Sched, due: Seq<Timer>)
    ensures
        lost(s, due).len() + task_timers(due) <= due.len(),
        forall|i: int|
            0 <= i < lost(s, due).len() ==> due.contains(#[trigger] lost(s, due)[i]) && lost(
                s,
                due,
            )[i].value != TASK_TIMER_VALUE,
    decreases due.len(),
{
    if due.len() > 0 {
        let front = due.drop_last();
        lemma_every_timer_accounted(s, front);
        assert forall|i: int| 0 <= i < lost(s, due).len() implies due.contains(
            #[trigger] lost(s, due)[i],
        ) && lost(s, due)[i].value != TASK_TIMER_VALUE by {
            if i < lost(s, front).len() {
                let timer = lost(s, front)[i];
                assert(front.contains(timer));
                let k = choose|k: int| 0 <= k < front.len() && front[k] == timer;
                assert(due[k] == timer);
            } else {
                assert(due[due.len() - 1] == due.last());
            }
        }
    }
}


/// Those of the timers `due` that are told to the task `owner` by a
/// message, in their order in `due`.
pub open spec fn told_to(due: Seq<Timer>, owner: TaskId) -> Seq<Timer> {
    due.filter(|timer: Timer| timer.task_id == owner && timer.value != TASK_TIMER_VALUE)
}

/// Every timer that expires keeps the tasks well formed.
pub proof fn lemma_fire(s: Sched, timer: Timer)
    requires
        s.wf(),
    ensures
        fire(s, timer).wf(),
{
    lemma_schedule_tick(s);
    lemma_send_message(s, timer.task_id, timeout_message(timer));
}

/// What the timers that expire bring a task, whatever else is pending and
/// whoever owns it: as long as the queue of the task has room, each of its
/// timers is told to it by one message, the messages stand behind those
/// that waited, in the order in which the timers expired, and none of its
/// timers is handed back. The task keeps its level, and stands in the run
/// queues once at most, however many of the messages wake it.
pub proof fn lemma_fire_all_delivers(s: Sched, due: Seq<Timer>, owner: TaskId)
    requires
        s.wf(),
        s.registered(owner),
        s.task(owner).inbox.len() + told_to(due, owner).len() <= s.config.message_capacity,
    ensures
        fire_all(s, due).wf(),
        fire_all(s, due).registered(owner),
        fire_all(s, due).config == s.config,
        fire_all(s, due).task(owner).level == s.task(owner).level,
        fire_all(s, due).task(owner).inbox == s.task(owner).inbox + told_to(
            due,
            owner,
        ).map_values(|timer: Timer| timeout_message(timer)),
        forall|i: int| 0 <= i < lost(s, due).len() ==> (#[trigger] lost(s, due)[i]).task_id != owner,
        run_queue_entries(fire_all(s, due), owner) <= 1,
    decreases due.len(),
{
    let tell = |timer: Timer| timeout_message(timer);
    let mine = |timer: Timer| timer.task_id == owner && timer.value != TASK_TIMER_VALUE;
    if due.len() == 0 {
        assert(told_to(due, owner) =~= Seq::<Timer>::empty());
        assert(s.task(owner).inbox + told_to(due, owner).map_values(tell) =~= s.task(
            owner,
        ).inbox);
    } else {
        let front = due.drop_last();
        let last = due.last();
        reveal(Seq::filter);
        assert(told_to(due, owner) == if mine(last) {
            told_to(front, owner).push(last)
        } else {
            told_to(front, owner)
        });
        lemma_fire_all_delivers(s, front, owner);
        let before = fire_all(s, front);
        lemma_fire(before, last);
        lemma_config_kept(before, last);
        if last.value == TASK_TIMER_VALUE {
            lemma_scheduling_keeps_mail(before, owner, 0);
        } else {
            lemma_send_mail(before, last.task_id, tell(last), owner);
        }
        assert forall|i: int| 0 <= i < lost(s, due).len() implies (#[trigger] lost(
            s,
            due,
        )[i]).task_id != owner by {
            if i < lost(s, front).len() {
                assert(lost(s, due)[i] == lost(s, front)[i]);
            } else {
                assert(lost(s, due)[i] == last);
                assert(!before.can_send(last.task_id));
            }
        }
        if mine(last) {
            assert(before.can_send(owner));
            assert(told_to(front, owner).push(last).map_values(tell) =~= told_to(
                front,
                owner,
            ).map_values(tell).push(tell(last)));
            assert(s.task(owner).inbox + told_to(front, owner).map_values(tell).push(tell(last))
                =~= (s.task(owner).inbox + told_to(front, owner).map_values(tell)).push(
                tell(last),
            ));
        }
    }
    lemma_queue_membership(fire_all(s, due), owner);
}

/// A timer that expires leaves the configuration of the tasks as it is.
proof fn lemma_config_kept(s: Sched, timer: Timer)
    requires
        s.wf(),
    ensures
        fire(s, timer).config == s.config,
{
    lemma_highest_below(s, s.queues.len() as int);
    lemma_demote_current(s);
    lemma_highest_below(s.demote_current(), s.demote_current().queues.len() as int);
    let message = timeout_message(timer);
    if timer.value != TASK_TIMER_VALUE && s.can_send(timer.task_id) {
        let t = s.task(timer.task_id);
        let pushed = TaskView { inbox: t.inbox.push(message), ..t };
        lemma_with_task_same_place(s, timer.task_id, pushed);
        lemma_wake_config(s.with_task(timer.task_id, pushed), timer.task_id, -1i32);
    }
}

/// The timers that are told to a task are told in the order of their
/// expiry: what the timer interrupt takes is sorted, and so is every part
/// of it.
pub proof fn lemma_told_in_expiry_order(due: Seq<Timer>, owner: TaskId)
    requires
        sorted_by_timeout(due),
    ensures
        sorted_by_timeout(told_to(due, owner)),
        forall|i: int|
            0 <= i < told_to(due, owner).len() ==> due.contains(#[trigger] told_to(due, owner)[i]),
    decreases due.len(),
{
    reveal(Seq::filter);
    if due.len() > 0 {
        let front = due.drop_last();
        let last = due.last();
        assert(sorted_by_timeout(front)) by {
            assert forall|i: int, j: int| 0 <= i < j < front.len() implies front[i].timeout
                <= front[j].timeout by {
                assert(due[i].timeout <= due[j].timeout);
            }
        }
        lemma_told_in_expiry_order(front, owner);
        let told = told_to(due, owner);
        let told_front = told_to(front, owner);
        assert forall|i: int| 0 <= i < told.len() implies due.contains(#[trigger] told[i]) by {
            if i < told_front.len() {
                assert(front.contains(told_front[i]));
                let k = choose|k: int| 0 <= k < front.len() && front[k] == told_front[i];
                assert(due[k] == told[i]);
            } else {
                assert(due[due.len() - 1] == told[i]);
            }
        }
        assert forall|i: int, j: int| 0 <= i < j < told.len() implies told[i].timeout
            <= told[j].timeout by {
            if j >= told_front.len() {
                assert(front.contains(told_front[i]));
                let k = choose|k: int| 0 <= k < front.len() && front[k] == told_front[i];
                assert(due[k].timeout <= due[due.len() - 1].timeout);
            } else {
                assert(told_front[i].timeout <= told_front[j].timeout);
            }
        }
    }
}

} // verus!
