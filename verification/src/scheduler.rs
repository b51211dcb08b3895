//! The task manager: the registry of tasks, the run queues and the
//! operations that move tasks between them.

use std::collections::VecDeque;
use vstd::prelude::*;

use crate::message::{Message, TaskId};
use crate::queue::remove_id;
use crate::task::{
    dispatch_between, lemma_became_ready, lemma_context, lemma_demote_current,
    lemma_dispatch_next, lemma_exit, lemma_highest_below, lemma_initial, lemma_left_inv,
    lemma_made_ready,
    lemma_moved_level, lemma_new_task, lemma_receive_message, lemma_remove,
    lemma_schedule_tick, lemma_sleep, lemma_wake_keeps_mail, lemma_wake_up,
    lemma_with_task_same_place, made_ready, moved_level, Dispatch, Sched, Task, TaskConfig,
    TaskContext, TaskError, TaskState, TaskView, DEFAULT_LEVEL, MAX_LEVEL, STACK_BYTES,
};

verus! {

/// The registry of tasks, the run queue of each level and the task on the
/// processor.
pub struct TaskManager {
    pub tasks: Vec<Option<Task>>,
    pub queues: Vec<VecDeque<TaskId>>,
    pub current: Option<TaskId>,
    pub config: TaskConfig,
}

impl View for TaskManager {
    type V = Sched;

    open spec fn view(&self) -> Sched {
        Sched {
            tasks: Seq::new(
                self.tasks@.len(),
                |i: int|
                    match self.tasks@[i] {
                        Some(task) => Some(task@),
                        None => None,
                    },
            ),
            queues: Seq::new(self.queues@.len(), |l: int| self.queues@[l]@),
            current: self.current,
            config: self.config,
        }
    }
}

impl TaskManager {
    /// Whether the state is one that the operations reach.
    pub open spec fn wf(&self) -> bool {
        self@.wf()
    }

    /// A manager in which the task 1, the caller, runs at the highest level.
    /// `None` when the configuration is not well formed: fewer than two
    /// identifiers, or an arena of stacks that leaves the address space.
    pub fn new(config: TaskConfig) -> (manager: Option<Self>)
        ensures
            manager is Some <==> config.wf(),
            manager matches Some(m) ==> m.wf() && m@ == Sched::initial(config),
    {
        if config.max_tasks < 2 {
            return None;
        }
        let room = (u64::MAX - config.stack_base) / STACK_BYTES;
        if config.max_tasks as u64 > room {
            return None;
        }
        let main = Task {
            id: 1,
            level: MAX_LEVEL,
            state: TaskState::Running,
            context: TaskContext::zeroed(),
            messages: VecDeque::new(),
            exit_code: 0,
            os_stack_ptr: 0,
            dpaging_end: 0,
            file_map_end: 0,
        };
        let mut tasks: Vec<Option<Task>> = Vec::new();
        tasks.push(None);
        tasks.push(Some(main));
        let mut queues: Vec<VecDeque<TaskId>> = Vec::new();
        let mut level: usize = 0;
        while level <= MAX_LEVEL
            invariant
                level <= MAX_LEVEL + 1,
                queues@.len() == level,
                forall|l: int| 0 <= l < level ==> (#[trigger] queues@[l])@ == Seq::<TaskId>::empty(),
            decreases MAX_LEVEL + 1 - level,
        {
            queues.push(VecDeque::new());
            level = level + 1;
        }
        let manager = Self { tasks, queues, current: Some(1), config };
        proof {
            lemma_initial(config);
            assert(manager@.tasks =~= Sched::initial(config).tasks);
            assert(manager@.queues =~= Sched::initial(config).queues);
        }
        Some(manager)
    }

    /// The index of the record of the task `id`.
    fn slot(&self, id: TaskId) -> (index: Option<usize>)
        ensures
            index is Some <==> self@.registered(id),
            index matches Some(i) ==> i == id && i < self.tasks@.len() && self.tasks@[i as int] is Some,
    {
        if id < self.tasks.len() as u64 {
            let i = id as usize;
            if self.tasks[i].is_some() {
                return Some(i);
            }
        }
        None
    }

    /// The record of the task `id`, or `None` if the registry holds no such
    /// task.
    pub fn task(&self, id: TaskId) -> (task: Option<&Task>)
        ensures
            task is Some <==> self@.registered(id),
            task matches Some(t) ==> t@ == self@.task(id),
    {
        match self.slot(id) {
            Some(i) => self.tasks[i].as_ref(),
            None => None,
        }
    }

    /// The identifiers of the tasks that the registry holds, the least
    /// first.
    pub fn ids(&self) -> (ids: Vec<TaskId>)
        ensures
            forall|k: int| 0 <= k < ids@.len() ==> self@.registered(#[trigger] ids@[k]),
            forall|j: int, k: int| 0 <= j < k < ids@.len() ==> ids@[j] < ids@[k],
            forall|id: TaskId| self@.registered(id) ==> ids@.contains(id),
    {
        let mut ids: Vec<TaskId> = Vec::new();
        let mut i: usize = 0;
        while i < self.tasks.len()
            invariant
                i <= self.tasks@.len(),
                forall|k: int|
                    0 <= k < ids@.len() ==> self@.registered(#[trigger] ids@[k]) && ids@[k] < i,
                forall|j: int, k: int| 0 <= j < k < ids@.len() ==> ids@[j] < ids@[k],
                forall|id: TaskId| id < i && self@.registered(id) ==> ids@.contains(id),
            decreases self.tasks@.len() - i,
        {
            if self.tasks[i].is_some() {
                let ghost before = ids@;
                ids.push(i as u64);
                proof {
                    assert(ids@[before.len() as int] == i);
                    assert forall|id: TaskId| id < i + 1 && self@.registered(id) implies ids@.contains(
                        id,
                    ) by {
                        if id < i {
                            let k = choose|k: int| 0 <= k < before.len() && before[k] == id;
                            assert(ids@[k] == id);
                        }
                    }
                }
            }
            i = i + 1;
        }
        ids
    }

    /// The identifier of the task on the processor.
    pub fn current_id(&self) -> (id: Option<TaskId>)
        ensures
            id == self@.current,
    {
        self.current
    }

    /// The record of the task on the processor, or `None` while the
    /// processor is idle.
    pub fn current_task(&self) -> (task: Option<&Task>)
        requires
            self.wf(),
        ensures
            task is Some <==> self@.current is Some,
            task matches Some(t) ==> t@ == self@.task(self@.current->0) && t@.state
                == TaskState::Running,
    {
        match self.current {
            Some(id) => self.task(id),
            None => None,
        }
    }

    /// The number of tasks that wait in the run queue of `level`.
    pub fn ready_count(&self, level: usize) -> (count: usize)
        requires
            level < self@.queues.len(),
        ensures
            count == self@.queues[level as int].len(),
    {
        self.queues[level].len()
    }

    /// The task at `index` of the run queue of `level`.
    pub fn ready_at(&self, level: usize, index: usize) -> (id: TaskId)
        requires
            level < self@.queues.len(),
            index < self@.queues[level as int].len(),
        ensures
            id == self@.queues[level as int][index as int],
    {
        self.queues[level][index]
    }

    /// The highest level whose run queue is not empty.
    fn highest_ready(&self) -> (found: Option<usize>)
        requires
            self@.queues.len() == MAX_LEVEL + 1,
        ensures
            found is Some <==> self@.highest_ready() is Some,
            found matches Some(level) ==> self@.highest_ready() == Some(level as int) && level
                <= MAX_LEVEL && self@.queues[level as int].len() > 0,
    {
        let mut top: usize = self.queues.len();
        while top > 0
            invariant
                top <= self.queues@.len(),
                self@.queues.len() == MAX_LEVEL + 1,
                self@.highest_ready() == self@.highest_below(top as int),
            decreases top,
        {
            if self.queues[top - 1].len() > 0 {
                return Some(top - 1);
            }
            top = top - 1;
        }
        None
    }

    /// Puts the first task of the highest run queue on the idle processor.
    fn dispatch_next(&mut self)
        requires
            old(self)@.inv(),
            old(self)@.current is None,
        ensures
            final(self)@ == old(self)@.dispatch_next(),
            final(self)@.wf(),
    {
        proof {
            lemma_dispatch_next(self@);
            lemma_highest_below(self@, self@.queues.len() as int);
        }
        match self.highest_ready() {
            Some(level) => {
                let next = self.queues[level].pop_front();
                match next {
                    Some(id) => {
                        assert(old(self)@.queues[level as int][0] == id);
                        assert(old(self)@.registered(id));
                        let index = id as usize;
                        match &mut self.tasks[index] {
                            Some(task) => {
                                task.state = TaskState::Running;
                            },
                            None => {},
                        }
                        self.current = Some(id);
                        proof {
                            let expected = old(self)@.dispatch_next();
                            assert(self@.tasks =~= expected.tasks);
                            assert(self@.queues =~= expected.queues);
                        }
                    },
                    None => {},
                }
            },
            None => {
                assert(self@ =~= old(self)@.dispatch_next());
            },
        }
    }

    /// Puts the running task at the back of the run queue of its level.
    fn demote_current(&mut self)
        requires
            old(self)@.inv(),
        ensures
            final(self)@ == old(self)@.demote_current(),
            final(self)@.inv(),
            final(self)@.current is None,
    {
        proof {
            lemma_demote_current(self@);
        }
        match self.current {
            Some(id) => {
                assert(old(self)@.registered(id));
                let index = id as usize;
                let mut level: usize = 0;
                match &mut self.tasks[index] {
                    Some(task) => {
                        task.state = TaskState::Ready;
                        level = task.level;
                    },
                    None => {},
                }
                assert(old(self)@.tasks[index as int] is Some);
                assert(level == old(self)@.task(id).level);
                self.queues[level].push_back(id);
                self.current = None;
                proof {
                    let expected = old(self)@.demote_current();
                    assert(self@.tasks =~= expected.tasks);
                    assert(self@.queues =~= expected.queues);
                }
            },
            None => {},
        }
    }

    /// The level of the running task.
    fn current_level(&self) -> (level: Option<usize>)
        requires
            self@.inv(),
        ensures
            level is Some <==> self@.current is Some,
            level matches Some(l) ==> l == self@.task(self@.current->0).level,
    {
        match self.current {
            Some(id) => {
                assert(self@.registered(id));
                match &self.tasks[id as usize] {
                    Some(task) => Some(task.level),
                    None => None,
                }
            },
            None => None,
        }
    }

    /// Lets the running task give way if the task that became ready at
    /// `level` is above it; puts a task on an idle processor.
    fn became_ready(&mut self, level: usize)
        requires
            old(self)@.inv(),
        ensures
            final(self)@ == old(self)@.became_ready(level as int),
            final(self)@.wf(),
    {
        proof {
            lemma_became_ready(self@, level as int);
        }
        match self.current_level() {
            Some(running) => {
                if level > running {
                    self.demote_current();
                    self.dispatch_next();
                }
            },
            None => {
                self.dispatch_next();
            },
        }
    }

    /// The scheduler's tick: the running task goes to the back of the run
    /// queue of its level and the first task of the highest run queue runs,
    /// if a task is ready at the level of the running task or above. If
    /// none is, the running task stays.
    pub fn schedule_tick(&mut self) -> (dispatch: Dispatch)
        requires
            old(self).wf(),
        ensures
            final(self).wf(),
            final(self)@ == old(self)@.schedule_tick(),
            dispatch == dispatch_between(old(self)@.current, final(self)@.current),
    {
        proof {
            lemma_schedule_tick(self@);
        }
        let before = self.current;
        let yields = match (self.current_level(), self.highest_ready()) {
            (Some(running), Some(level)) => level >= running,
            (None, Some(_)) => true,
            (_, None) => false,
        };
        if yields {
            self.demote_current();
            self.dispatch_next();
        }
        Self::dispatch_for(before, self.current)
    }

    /// The instruction that takes the processor from `before` to `after`.
    fn dispatch_for(before: Option<TaskId>, after: Option<TaskId>) -> (dispatch: Dispatch)
        requires
            after is None && before != after ==> before is Some,
        ensures
            dispatch == dispatch_between(before, after),
    {
        if before == after {
            return Dispatch::Continue;
        }
        match after {
            Some(to) => Dispatch::Switch { from: before, to },
            None => match before {
                Some(task) => Dispatch::Halt { task },
                None => Dispatch::Continue,
            },
        }
    }

    /// Wakes the task `id` at `level`, or at its own level if `level` is
    /// negative; `level` is at most `MAX_LEVEL`.
    ///
    /// A sleeping task becomes ready at the back of the run queue of the
    /// level. A ready task stays in its place if the level is its own and
    /// moves to the back of the run queue of the new level if not; a running
    /// task only takes the level. If the task is then ready above the level
    /// of the running task, the running task gives way at once.
    pub fn wake_up(&mut self, id: TaskId, level: i32) -> (dispatch: Result<Dispatch, TaskError>)
        requires
            old(self).wf(),
            level <= MAX_LEVEL,
        ensures
            final(self).wf(),
            final(self)@ == old(self)@.wake_up(id, level),
            dispatch == (if old(self)@.registered(id) {
                Ok::<Dispatch, TaskError>(
                    dispatch_between(old(self)@.current, final(self)@.current),
                )
            } else {
                Err::<Dispatch, TaskError>(TaskError::NoSuchTask)
            }),
    {
        proof {
            lemma_wake_up(self@, id, level);
        }
        let before = self.current;
        let index = match self.slot(id) {
            Some(index) => index,
            None => {
                return Err(TaskError::NoSuchTask);
            },
        };
        let (state, from) = match &self.tasks[index] {
            Some(task) => (task.state, task.level),
            None => (TaskState::Terminated, 0),
        };
        let to: usize = if level < 0 {
            from
        } else {
            level as usize
        };
        assert(to == old(self)@.target_level(id, level));
        match state {
            TaskState::Sleeping => {
                match &mut self.tasks[index] {
                    Some(task) => {
                        task.state = TaskState::Ready;
                        task.level = to;
                    },
                    None => {},
                }
                self.queues[to].push_back(id);
                proof {
                    let expected = made_ready(old(self)@, id, to);
                    lemma_made_ready(old(self)@, id, to);
                    assert(self@.tasks =~= expected.tasks);
                    assert(self@.queues =~= expected.queues);
                }
                self.became_ready(to);
            },
            TaskState::Ready => {
                if to != from {
                    match &mut self.tasks[index] {
                        Some(task) => {
                            task.level = to;
                        },
                        None => {},
                    }
                    let _ = remove_id(&mut self.queues[from], id);
                    self.queues[to].push_back(id);
                    proof {
                        let expected = moved_level(old(self)@, id, to);
                        lemma_moved_level(old(self)@, id, to);
                        assert(self@.tasks =~= expected.tasks);
                        assert(self@.queues =~= expected.queues);
                    }
                    self.became_ready(to);
                }
            },
            TaskState::Running => {
                match &mut self.tasks[index] {
                    Some(task) => {
                        task.level = to;
                    },
                    None => {},
                }
                proof {
                    let expected = old(self)@.wake_up(id, level);
                    assert(self@.tasks =~= expected.tasks);
                    assert(self@.queues =~= expected.queues);
                }
            },
            TaskState::Terminated => {},
        }
        Ok(Self::dispatch_for(before, self.current))
    }

    /// Puts the running task to sleep and the first task of the highest run
    /// queue on the processor; if no task is ready, the processor halts
    /// until the next interrupt. Does nothing while the processor is idle.
    pub fn sleep(&mut self) -> (dispatch: Dispatch)
        requires
            old(self).wf(),
        ensures
            final(self).wf(),
            final(self)@ == old(self)@.sleep(),
            dispatch == dispatch_between(old(self)@.current, final(self)@.current),
            old(self)@.current is Some ==> (dispatch is Halt <==> old(self)@.none_ready()),
    {
        proof {
            lemma_sleep(self@);
        }
        let before = self.current;
        match self.current {
            Some(id) => {
                assert(old(self)@.registered(id));
                match &mut self.tasks[id as usize] {
                    Some(task) => {
                        task.state = TaskState::Sleeping;
                    },
                    None => {},
                }
                self.current = None;
                proof {
                    let mid = old(self)@.with_task(
                        id,
                        TaskView { state: TaskState::Sleeping, ..old(self)@.task(id) },
                    ).with_current(None);
                    assert(self@.tasks =~= mid.tasks);
                    assert(self@.queues =~= mid.queues);
                    assert(self@ == mid);
                    lemma_left_inv(old(self)@, mid);
                }
                self.dispatch_next();
            },
            None => {},
        }
        Self::dispatch_for(before, self.current)
    }

    /// Ends the running task with `code`, keeps its record with the kernel
    /// stack pointer `stack_ptr`, and puts the first task of the highest run
    /// queue on the processor; if no task is ready, the processor halts
    /// until the next interrupt. Does nothing while the processor is idle.
    pub fn exit(&mut self, code: i32, stack_ptr: u64) -> (dispatch: Dispatch)
        requires
            old(self).wf(),
        ensures
            final(self).wf(),
            final(self)@ == old(self)@.exit(code, stack_ptr),
            dispatch == dispatch_between(old(self)@.current, final(self)@.current),
            old(self)@.current is Some ==> (dispatch is Halt <==> old(self)@.none_ready()),
    {
        proof {
            lemma_exit(self@, code, stack_ptr);
        }
        let before = self.current;
        match self.current {
            Some(id) => {
                assert(old(self)@.registered(id));
                match &mut self.tasks[id as usize] {
                    Some(task) => {
                        task.state = TaskState::Terminated;
                        task.exit_code = code;
                        task.os_stack_ptr = stack_ptr;
                    },
                    None => {},
                }
                self.current = None;
                proof {
                    let mid = old(self)@.with_task(
                        id,
                        TaskView {
                            state: TaskState::Terminated,
                            exit_code: code,
                            os_stack_ptr: stack_ptr,
                            ..old(self)@.task(id)
                        },
                    ).with_current(None);
                    assert(self@.tasks =~= mid.tasks);
                    assert(self@.queues =~= mid.queues);
                    assert(self@ == mid);
                    lemma_left_inv(old(self)@, mid);
                }
                self.dispatch_next();
            },
            None => {},
        }
        Self::dispatch_for(before, self.current)
    }

    /// Makes a task: asleep, at the default level, without messages. Its
    /// identifier is one greater than that of the task made before. `None`
    /// when no identifier is left.
    pub fn new_task(&mut self) -> (builder: Option<TaskBuilder>)
        requires
            old(self).wf(),
        ensures
            final(self).wf(),
            final(self)@ == old(self)@.new_task(),
            builder is Some <==> old(self)@.can_create(),
            builder matches Some(b) ==> b.id == old(self)@.tasks.len() && final(self)@.registered(
                b.id,
            ) && !old(self)@.registered(b.id),
    {
        proof {
            lemma_new_task(self@);
        }
        if self.tasks.len() >= self.config.max_tasks {
            return None;
        }
        let id = self.tasks.len() as u64;
        let task = Task {
            id,
            level: DEFAULT_LEVEL,
            state: TaskState::Sleeping,
            context: TaskContext::zeroed(),
            messages: VecDeque::new(),
            exit_code: 0,
            os_stack_ptr: 0,
            dpaging_end: 0,
            file_map_end: 0,
        };
        self.tasks.push(Some(task));
        proof {
            let expected = old(self)@.new_task();
            assert(self@.tasks =~= expected.tasks);
            assert(self@.queues =~= expected.queues);
        }
        Some(TaskBuilder { id })
    }

    /// Gives the task `id` the context from which it starts
    /// `entry(arg0, arg1)` on its own stack, with the kernel's segments and
    /// interrupts enabled.
    pub fn init_context(&mut self, id: TaskId, entry: u64, arg0: u64, arg1: u64) -> (done: Result<
        (),
        TaskError,
    >)
        requires
            old(self).wf(),
        ensures
            final(self).wf(),
            final(self)@ == old(self)@.init_context(id, entry, arg0, arg1),
            done == (if old(self)@.registered(id) {
                Ok::<(), TaskError>(())
            } else {
                Err::<(), TaskError>(TaskError::NoSuchTask)
            }),
    {
        let index = match self.slot(id) {
            Some(index) => index,
            None => {
                return Err(TaskError::NoSuchTask);
            },
        };
        assert((id + 1) * STACK_BYTES <= self.config.max_tasks * STACK_BYTES) by (nonlinear_arith)
            requires
                id + 1 <= self.config.max_tasks,
        ;
        let stack_end = self.config.stack_base + (id + 1) * STACK_BYTES;
        let context = TaskContext::initial(entry, arg0, arg1, stack_end, self.config.cr3);
        proof {
            lemma_context(self@, id, context);
        }
        match &mut self.tasks[index] {
            Some(task) => {
                task.context = context;
            },
            None => {},
        }
        proof {
            let expected = old(self)@.init_context(id, entry, arg0, arg1);
            assert(self@.tasks =~= expected.tasks);
            assert(self@.queues =~= expected.queues);
        }
        Ok(())
    }

    /// The one way from one task to another: saves the registers `live` of
    /// the processor as the context of the task `from` and hands out the
    /// context of the task `to`, which the processor loads. Both tasks are
    /// in the registry.
    pub fn switch_context(&mut self, from: TaskId, to: TaskId, live: TaskContext) -> (next:
        TaskContext)
        requires
            old(self).wf(),
            old(self)@.registered(from),
            old(self)@.registered(to),
        ensures
            final(self).wf(),
            final(self)@ == old(self)@.save_context(from, live),
            next == final(self)@.task(to).context,
            from != to ==> next == old(self)@.task(to).context,
    {
        proof {
            lemma_context(self@, from, live);
        }
        match &mut self.tasks[from as usize] {
            Some(task) => {
                task.context = live;
            },
            None => {},
        }
        proof {
            let expected = old(self)@.save_context(from, live);
            assert(self@.tasks =~= expected.tasks);
            assert(self@.queues =~= expected.queues);
        }
        match &self.tasks[to as usize] {
            Some(task) => task.context,
            None => live,
        }
    }

    /// Puts `message` behind the messages that wait for the task `target`
    /// and wakes the task, at its level, if it sleeps. Fails, and changes
    /// nothing, if the registry holds no such task or if as many messages
    /// wait for it as the capacity allows.
    pub fn send_message(&mut self, target: TaskId, message: Message) -> (sent: Result<
        Dispatch,
        TaskError,
    >)
        requires
            old(self).wf(),
        ensures
            final(self).wf(),
            final(self)@ == old(self)@.send_message(target, message),
            sent == (if !old(self)@.registered(target) {
                Err::<Dispatch, TaskError>(TaskError::NoSuchTask)
            } else if !old(self)@.can_send(target) {
                Err::<Dispatch, TaskError>(TaskError::QueueFull)
            } else {
                Ok::<Dispatch, TaskError>(
                    dispatch_between(old(self)@.current, final(self)@.current),
                )
            }),
            sent is Ok ==> final(self)@.task(target).inbox == old(self)@.task(target).inbox.push(
                message,
            ),
    {
        let index = match self.slot(target) {
            Some(index) => index,
            None => {
                return Err(TaskError::NoSuchTask);
            },
        };
        let waiting = match &self.tasks[index] {
            Some(task) => task.messages.len(),
            None => 0,
        };
        if waiting >= self.config.message_capacity {
            return Err(TaskError::QueueFull);
        }
        match &mut self.tasks[index] {
            Some(task) => {
                task.messages.push_back(message);
            },
            None => {},
        }
        proof {
            let t = old(self)@.task(target);
            let pushed = TaskView { inbox: t.inbox.push(message), ..t };
            let expected = old(self)@.with_task(target, pushed);
            lemma_with_task_same_place(old(self)@, target, pushed);
            assert(self@.tasks =~= expected.tasks);
            assert(self@.queues =~= expected.queues);
            lemma_wake_keeps_mail(expected, target, -1i32, target);
        }
        match self.wake_up(target, -1) {
            Ok(dispatch) => Ok(dispatch),
            Err(error) => Err(error),
        }
    }

    /// Takes the oldest message that waits for the running task; `None` if
    /// none waits or the processor is idle. Never waits.
    pub fn receive_message(&mut self) -> (message: Option<Message>)
        requires
            old(self).wf(),
        ensures
            final(self).wf(),
            final(self)@ == old(self)@.receive_message(),
            message == old(self)@.next_message(),
    {
        proof {
            lemma_receive_message(self@);
        }
        match self.current {
            Some(id) => {
                assert(old(self)@.registered(id));
                let mut message: Option<Message> = None;
                match &mut self.tasks[id as usize] {
                    Some(task) => {
                        message = task.messages.pop_front();
                    },
                    None => {},
                }
                proof {
                    let expected = old(self)@.receive_message();
                    assert(self@.tasks =~= expected.tasks);
                    assert(self@.queues =~= expected.queues);
                }
                message
            },
            None => None,
        }
    }

    /// Takes the record of the task `id` out of the registry and hands it
    /// out. The task must have ended: a task that can still run stays.
    pub fn remove(&mut self, id: TaskId) -> (task: Result<Task, TaskError>)
        requires
            old(self).wf(),
        ensures
            final(self).wf(),
            final(self)@ == old(self)@.remove(id),
            !old(self)@.registered(id) ==> task is Err && task->Err_0 == TaskError::NoSuchTask,
            old(self)@.registered(id) && old(self)@.task(id).state != TaskState::Terminated
                ==> task is Err && task->Err_0 == TaskError::NotTerminated,
            old(self)@.registered(id) && old(self)@.task(id).state == TaskState::Terminated
                ==> task is Ok && task->Ok_0@ == old(self)@.task(id) && !final(self)@.registered(
                id,
            ),
    {
        proof {
            lemma_remove(self@, id);
        }
        let index = match self.slot(id) {
            Some(index) => index,
            None => {
                return Err(TaskError::NoSuchTask);
            },
        };
        let state = match &self.tasks[index] {
            Some(task) => task.state,
            None => TaskState::Ready,
        };
        if state != TaskState::Terminated {
            return Err(TaskError::NotTerminated);
        }
        let taken = self.tasks[index].take();
        proof {
            let expected = old(self)@.remove(id);
            assert(self@.tasks =~= expected.tasks);
            assert(self@.queues =~= expected.queues);
        }
        match taken {
            Some(task) => Ok(task),
            None => Err(TaskError::NoSuchTask),
        }
    }

    /// Sets the end of the memory that the running task has asked for page
    /// by page; hands out the former end, or `None` while the processor is
    /// idle.
    pub fn set_dpaging_end(&mut self, end: u64) -> (former: Option<u64>)
        requires
            old(self).wf(),
        ensures
            final(self).wf(),
            former is Some <==> old(self)@.current is Some,
            old(self)@.current matches Some(c) ==> former == Some(old(self)@.task(c).dpaging_end)
                && final(self)@ == old(self)@.with_task(
                c,
                TaskView { dpaging_end: end, ..old(self)@.task(c) },
            ),
            old(self)@.current is None ==> final(self)@ == old(self)@,
    {
        match self.current {
            Some(id) => {
                assert(old(self)@.registered(id));
                let mut former: u64 = 0;
                match &mut self.tasks[id as usize] {
                    Some(task) => {
                        former = task.dpaging_end;
                        task.dpaging_end = end;
                    },
                    None => {},
                }
                proof {
                    let changed = TaskView { dpaging_end: end, ..old(self)@.task(id) };
                    let expected = old(self)@.with_task(id, changed);
                    lemma_with_task_same_place(old(self)@, id, changed);
                    assert(self@.tasks =~= expected.tasks);
                    assert(self@.queues =~= expected.queues);
                }
                Some(former)
            },
            None => None,
        }
    }

    /// Sets the lowest address at which a file is mapped for the running
    /// task; hands out the former one, or `None` while the processor is
    /// idle.
    pub fn set_file_map_end(&mut self, end: u64) -> (former: Option<u64>)
        requires
            old(self).wf(),
        ensures
            final(self).wf(),
            former is Some <==> old(self)@.current is Some,
            old(self)@.current matches Some(c) ==> former == Some(old(self)@.task(c).file_map_end)
                && final(self)@ == old(self)@.with_task(
                c,
                TaskView { file_map_end: end, ..old(self)@.task(c) },
            ),
            old(self)@.current is None ==> final(self)@ == old(self)@,
    {
        match self.current {
            Some(id) => {
                assert(old(self)@.registered(id));
                let mut former: u64 = 0;
                match &mut self.tasks[id as usize] {
                    Some(task) => {
                        former = task.file_map_end;
                        task.file_map_end = end;
                    },
                    None => {},
                }
                proof {
                    let changed = TaskView { file_map_end: end, ..old(self)@.task(id) };
                    let expected = old(self)@.with_task(id, changed);
                    lemma_with_task_same_place(old(self)@, id, changed);
                    assert(self@.tasks =~= expected.tasks);
                    assert(self@.queues =~= expected.queues);
                }
                Some(former)
            },
            None => None,
        }
    }
}

/// A task that was just made: the caller sets where it starts and wakes it.
pub struct TaskBuilder {
    pub id: TaskId,
}

impl TaskBuilder {
    /// The identifier of the task.
    pub fn id(&self) -> (id: TaskId)
        ensures
            id == self.id,
    {
        self.id
    }

    /// Gives the task the context from which it starts `entry(arg0, arg1)`
    /// on its own stack.
    pub fn init_context(
        self,
        manager: &mut TaskManager,
        entry: u64,
        arg0: u64,
        arg1: u64,
    ) -> (builder: Self)
        requires
            old(manager).wf(),
        ensures
            final(manager).wf(),
            final(manager)@ == old(manager)@.init_context(self.id, entry, arg0, arg1),
            builder.id == self.id,
    {
        let _ = manager.init_context(self.id, entry, arg0, arg1);
        self
    }

    /// Wakes the task at `level`, or at its own level if `level` is
    /// negative; `level` is at most `MAX_LEVEL`.
    pub fn wake_up(self, manager: &mut TaskManager, level: i32) -> (dispatch: Dispatch)
        requires
            old(manager).wf(),
            level <= MAX_LEVEL,
        ensures
            final(manager).wf(),
            final(manager)@ == old(manager)@.wake_up(self.id, level),
            dispatch == dispatch_between(old(manager)@.current, final(manager)@.current),
    {
        match manager.wake_up(self.id, level) {
            Ok(dispatch) => dispatch,
            Err(_) => Dispatch::Continue,
        }
    }
}

} // verus!
