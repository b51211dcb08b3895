//! Tasks, the registry that holds them, and the scheduler that picks the
//! task that runs.
//!
//! The scheduler is a state machine: each operation takes the state to the
//! next one and tells the platform layer, as a `Dispatch`, whether to switch
//! the processor to another task. `Sched` is the mathematical model of that
//! state; the operations of `TaskManager` are stated against it.

use std::collections::VecDeque;
use vstd::prelude::*;

use crate::message::{Message, TaskId};
use crate::queue::{
    lemma_drop_first, lemma_position, lemma_push_new, lemma_without, position, without,
};

verus! {

/// The highest priority level; levels run from 0, the lowest.
pub const MAX_LEVEL: usize = 3;

/// The level of a new task.
pub const DEFAULT_LEVEL: usize = 1;

/// The size of the stack of a task.
pub const STACK_BYTES: u64 = 32768;

/// The code segment selector of the kernel.
pub const KERNEL_CS: u64 = 8;

/// The stack segment selector of the kernel.
pub const KERNEL_SS: u64 = 16;

/// The flags of a new task: interrupts enabled.
pub const INITIAL_RFLAGS: u64 = 0x202;

/// Whether a task runs, can run, waits or has ended.
#[derive(Clone, Copy, PartialEq, Eq, Structural, Debug)]
pub enum TaskState {
    /// In a run queue, waiting for the processor.
    Ready,
    /// On the processor.
    Running,
    /// Waiting to be woken.
    Sleeping,
    /// Ended; only its record is kept.
    Terminated,
}

/// The registers of a task while it is off the processor.
#[derive(Clone, Copy, PartialEq, Eq, Structural, Debug)]
pub struct TaskContext {
    pub cr3: u64,
    pub rip: u64,
    pub rflags: u64,
    pub cs: u64,
    pub ss: u64,
    pub fs: u64,
    pub gs: u64,
    pub rax: u64,
    pub rbx: u64,
    pub rcx: u64,
    pub rdx: u64,
    pub rdi: u64,
    pub rsi: u64,
    pub rsp: u64,
    pub rbp: u64,
    pub r8: u64,
    pub r9: u64,
    pub r10: u64,
    pub r11: u64,
    pub r12: u64,
    pub r13: u64,
    pub r14: u64,
    pub r15: u64,
}

impl TaskContext {
    /// The context with every register zero.
    pub open spec fn spec_zeroed() -> Self {
        TaskContext {
            cr3: 0,
            rip: 0,
            rflags: 0,
            cs: 0,
            ss: 0,
            fs: 0,
            gs: 0,
            rax: 0,
            rbx: 0,
            rcx: 0,
            rdx: 0,
            rdi: 0,
            rsi: 0,
            rsp: 0,
            rbp: 0,
            r8: 0,
            r9: 0,
            r10: 0,
            r11: 0,
            r12: 0,
            r13: 0,
            r14: 0,
            r15: 0,
        }
    }

    /// The context with every register zero.
    pub fn zeroed() -> (context: Self)
        ensures
            context == Self::spec_zeroed(),
    {
        TaskContext {
            cr3: 0,
            rip: 0,
            rflags: 0,
            cs: 0,
            ss: 0,
            fs: 0,
            gs: 0,
            rax: 0,
            rbx: 0,
            rcx: 0,
            rdx: 0,
            rdi: 0,
            rsi: 0,
            rsp: 0,
            rbp: 0,
            r8: 0,
            r9: 0,
            r10: 0,
            r11: 0,
            r12: 0,
            r13: 0,
            r14: 0,
            r15: 0,
        }
    }

    /// The context from which a task starts: it runs `entry(arg0, arg1)` on
    /// the stack that ends at `stack_end`, in the address space `cr3`, with
    /// the kernel's segments and interrupts enabled. The stack pointer is
    /// eight below the highest multiple of sixteen in the stack.
    pub open spec fn spec_initial(
        entry: u64,
        arg0: u64,
        arg1: u64,
        stack_end: u64,
        cr3: u64,
    ) -> Self {
        TaskContext {
            cr3,
            rip: entry,
            rflags: INITIAL_RFLAGS,
            cs: KERNEL_CS,
            ss: KERNEL_SS,
            rdi: arg0,
            rsi: arg1,
            rsp: ((stack_end & !0xfu64) - 8) as u64,
            ..Self::spec_zeroed()
        }
    }

    /// The context from which a task starts.
    pub fn initial(entry: u64, arg0: u64, arg1: u64, stack_end: u64, cr3: u64) -> (context: Self)
        requires
            stack_end >= 16,
        ensures
            context == Self::spec_initial(entry, arg0, arg1, stack_end, cr3),
            context.rsp % 16 == 8,
            stack_end - 24 < context.rsp <= stack_end - 8,
    {
        assert((stack_end & !0xfu64) >= 16 && (stack_end & !0xfu64) <= stack_end && (stack_end
            & !0xfu64) % 16 == 0 && stack_end - (stack_end & !0xfu64) < 16) by (bit_vector)
            requires
                stack_end >= 16,
        ;
        let mut context = Self::zeroed();
        context.cr3 = cr3;
        context.rip = entry;
        context.rflags = INITIAL_RFLAGS;
        context.cs = KERNEL_CS;
        context.ss = KERNEL_SS;
        context.rdi = arg0;
        context.rsi = arg1;
        context.rsp = (stack_end & !0xfu64) - 8;
        context
    }
}

/// The record of one task.
pub struct Task {
    pub id: TaskId,
    pub level: usize,
    pub state: TaskState,
    pub context: TaskContext,
    pub messages: VecDeque<Message>,
    pub exit_code: i32,
    pub os_stack_ptr: u64,
    pub dpaging_end: u64,
    pub file_map_end: u64,
}

/// What a task is, with its waiting messages as a sequence, the oldest
/// first.
pub struct TaskView {
    pub id: TaskId,
    pub level: usize,
    pub state: TaskState,
    pub context: TaskContext,
    pub inbox: Seq<Message>,
    pub exit_code: i32,
    pub os_stack_ptr: u64,
    pub dpaging_end: u64,
    pub file_map_end: u64,
}

impl View for Task {
    type V = TaskView;

    open spec fn view(&self) -> TaskView {
        TaskView {
            id: self.id,
            level: self.level,
            state: self.state,
            context: self.context,
            inbox: self.messages@,
            exit_code: self.exit_code,
            os_stack_ptr: self.os_stack_ptr,
            dpaging_end: self.dpaging_end,
            file_map_end: self.file_map_end,
        }
    }
}

impl Task {
    /// The identifier of the task.
    pub fn id(&self) -> (id: TaskId)
        ensures
            id == self.id,
    {
        self.id
    }

    /// The priority level of the task.
    pub fn level(&self) -> (level: usize)
        ensures
            level == self.level,
    {
        self.level
    }

    /// Whether the task runs, can run, waits or has ended.
    pub fn state(&self) -> (state: TaskState)
        ensures
            state == self.state,
    {
        self.state
    }

    /// The saved registers of the task.
    pub fn context(&self) -> (context: TaskContext)
        ensures
            context == self.context,
    {
        self.context
    }

    /// The number of messages that wait for the task.
    pub fn pending_messages(&self) -> (count: usize)
        ensures
            count == self@.inbox.len(),
    {
        self.messages.len()
    }

    /// The code with which the task ended.
    pub fn exit_code(&self) -> (code: i32)
        ensures
            code == self.exit_code,
    {
        self.exit_code
    }

    /// The stack pointer of the kernel side of the task.
    pub fn os_stack_ptr(&self) -> (pointer: u64)
        ensures
            pointer == self.os_stack_ptr,
    {
        self.os_stack_ptr
    }

    /// The end of the memory that the task has asked for page by page.
    pub fn dpaging_end(&self) -> (end: u64)
        ensures
            end == self.dpaging_end,
    {
        self.dpaging_end
    }

    /// The lowest address at which a file is mapped for the task.
    pub fn file_map_end(&self) -> (end: u64)
        ensures
            end == self.file_map_end,
    {
        self.file_map_end
    }
}

/// What the platform layer does after an operation of the scheduler.
#[derive(Clone, Copy, PartialEq, Eq, Structural, Debug)]
pub enum Dispatch {
    /// The task on the processor stays there.
    Continue,
    /// Save the registers of `from`, if a task was running, and resume `to`.
    Switch { from: Option<TaskId>, to: TaskId },
    /// No task is ready: save the registers of `task` and halt the processor
    /// until the next interrupt.
    Halt { task: TaskId },
}

/// The instruction that takes the processor from the task `before` to the
/// task `after`.
pub open spec fn dispatch_between(before: Option<TaskId>, after: Option<TaskId>) -> Dispatch {
    if before == after {
        Dispatch::Continue
    } else {
        match after {
            Some(to) => Dispatch::Switch { from: before, to },
            None => Dispatch::Halt { task: before->0 },
        }
    }
}

/// Why an operation on a task failed.
#[derive(Clone, Copy, PartialEq, Eq, Structural, Debug)]
pub enum TaskError {
    /// The registry holds no task of that identifier.
    NoSuchTask,
    /// The message queue of the task is full.
    QueueFull,
    /// The task has not ended, so its record cannot be removed.
    NotTerminated,
}

/// What the task manager is made with.
#[derive(Clone, Copy, PartialEq, Eq, Structural, Debug)]
pub struct TaskConfig {
    /// The number of messages that can wait for one task.
    pub message_capacity: usize,
    /// The number of identifiers, and of stacks in the arena.
    pub max_tasks: usize,
    /// The address of the arena of stacks: the stack of task `id` is the
    /// `id`-th block of `STACK_BYTES` bytes in it.
    pub stack_base: u64,
    /// The address space in which new tasks start.
    pub cr3: u64,
}

impl TaskConfig {
    /// The arena of stacks lies inside the address space, and there is room
    /// for the first task.
    pub open spec fn wf(self) -> bool {
        &&& self.max_tasks >= 2
        &&& self.stack_base + self.max_tasks * STACK_BYTES <= u64::MAX
    }

    /// The address just above the stack of task `id`.
    pub open spec fn stack_end(self, id: TaskId) -> int {
        self.stack_base + (id + 1) * STACK_BYTES
    }

    /// The address of the lowest byte of the stack of task `id`.
    pub open spec fn stack_start(self, id: TaskId) -> int {
        self.stack_base + id * STACK_BYTES
    }
}

/// The state of the scheduler: the registry, the run queues and the task on
/// the processor.
pub struct Sched {
    /// The registry: the record of task `id` stands at index `id`; `None`
    /// where no task has that identifier.
    pub tasks: Seq<Option<TaskView>>,
    /// The run queue of each level, the task that runs next first.
    pub queues: Seq<Seq<TaskId>>,
    /// The task on the processor.
    pub current: Option<TaskId>,
    pub config: TaskConfig,
}

impl Sched {
    /// Whether the registry holds a task `id`.
    pub open spec fn registered(self, id: TaskId) -> bool {
        id < self.tasks.len() && self.tasks[id as int] is Some
    }

    /// The record of the task `id`.
    pub open spec fn task(self, id: TaskId) -> TaskView {
        self.tasks[id as int]->0
    }

    /// The state with `task` as the record of the task `id`.
    pub open spec fn with_task(self, id: TaskId, task: TaskView) -> Sched {
        Sched { tasks: self.tasks.update(id as int, Some(task)), ..self }
    }

    /// The state with `queue` as the run queue of `level`.
    pub open spec fn with_queue(self, level: int, queue: Seq<TaskId>) -> Sched {
        Sched { queues: self.queues.update(level, queue), ..self }
    }

    /// The state with no task, or `current`, on the processor.
    pub open spec fn with_current(self, current: Option<TaskId>) -> Sched {
        Sched { current, ..self }
    }

    /// Every record is sound: it stands at its identifier, its level is one
    /// of the levels and no more messages wait than the capacity allows.
    pub open spec fn records_sound(self) -> bool {
        forall|i: int|
            0 <= i < self.tasks.len() ==> (#[trigger] self.tasks[i] matches Some(t) ==> t.id == i
                && t.level <= MAX_LEVEL && t.inbox.len() <= self.config.message_capacity)
    }

    /// Every member of a run queue is a ready task of the level of the queue.
    pub open spec fn queued_are_ready(self) -> bool {
        forall|l: int, k: int|
            0 <= l < self.queues.len() && 0 <= k < self.queues[l].len() ==> {
                let id = #[trigger] self.queues[l][k];
                &&& self.registered(id)
                &&& self.task(id).state == TaskState::Ready
                &&& self.task(id).level == l
            }
    }

    /// No task stands twice in a run queue.
    pub open spec fn queues_distinct(self) -> bool {
        forall|l: int| 0 <= l < self.queues.len() ==> (#[trigger] self.queues[l]).no_duplicates()
    }

    /// Every ready task stands in the run queue of its level.
    pub open spec fn ready_are_queued(self) -> bool {
        forall|i: int|
            0 <= i < self.tasks.len() ==> (#[trigger] self.tasks[i] matches Some(t) ==> (t.state
                == TaskState::Ready ==> self.queues[t.level as int].contains(i as TaskId)))
    }

    /// The task on the processor is the one running task.
    pub open spec fn current_is_running(self) -> bool {
        &&& self.current matches Some(c) ==> self.registered(c) && self.task(c).state
            == TaskState::Running
        &&& forall|i: int|
            0 <= i < self.tasks.len() ==> (#[trigger] self.tasks[i] matches Some(t) ==> (t.state
                == TaskState::Running ==> self.current == Some(i as TaskId)))
    }

    /// Whether no task is ready.
    pub open spec fn none_ready(self) -> bool {
        forall|l: int| 0 <= l < self.queues.len() ==> (#[trigger] self.queues[l]).len() == 0
    }

    /// What holds of the state between the steps of an operation: all of
    /// `wf` but that the processor is busy while a task is ready.
    pub open spec fn inv(self) -> bool {
        &&& self.config.wf()
        &&& self.queues.len() == MAX_LEVEL + 1
        &&& 1 <= self.tasks.len() <= self.config.max_tasks
        &&& self.tasks[0] is None
        &&& self.records_sound()
        &&& self.queued_are_ready()
        &&& self.queues_distinct()
        &&& self.ready_are_queued()
        &&& self.current_is_running()
    }

    /// What holds of every state that the operations reach. A task is in a
    /// run queue exactly when it is ready, then in the queue of its level
    /// and once; one task at most is running, the one on the processor; and
    /// the processor is idle only when no task is ready.
    pub open spec fn wf(self) -> bool {
        &&& self.inv()
        &&& self.current is None ==> self.none_ready()
    }

    /// The highest level below `top` whose run queue is not empty.
    pub open spec fn highest_below(self, top: int) -> Option<int>
        decreases top,
    {
        if top <= 0 {
            None
        } else if self.queues[top - 1].len() > 0 {
            Some(top - 1)
        } else {
            self.highest_below(top - 1)
        }
    }

    /// The highest level whose run queue is not empty.
    pub open spec fn highest_ready(self) -> Option<int> {
        self.highest_below(self.queues.len() as int)
    }

    /// The state after the first task of the highest run queue that is not
    /// empty was put on the processor; the processor idle if none is ready.
    pub open spec fn dispatch_next(self) -> Sched {
        match self.highest_ready() {
            Some(level) => {
                let next = self.queues[level][0];
                self.with_task(
                    next,
                    TaskView { state: TaskState::Running, ..self.task(next) },
                ).with_queue(level, self.queues[level].drop_first()).with_current(Some(next))
            },
            None => self.with_current(None),
        }
    }

    /// The state after the running task was put at the back of the run queue
    /// of its level.
    pub open spec fn demote_current(self) -> Sched {
        match self.current {
            Some(c) => {
                let level = self.task(c).level as int;
                self.with_task(c, TaskView { state: TaskState::Ready, ..self.task(c) }).with_queue(
                    level,
                    self.queues[level].push(c),
                ).with_current(None)
            },
            None => self,
        }
    }

    /// The state after the running task gave way to the first task of the
    /// highest run queue.
    pub open spec fn preempt(self) -> Sched {
        self.demote_current().dispatch_next()
    }

    /// Whether a task is ready at the level of the running task or above.
    pub open spec fn must_yield(self) -> bool {
        match (self.current, self.highest_ready()) {
            (Some(c), Some(level)) => level >= self.task(c).level,
            (None, Some(_)) => true,
            (_, None) => false,
        }
    }

    /// The state after a tick of the scheduler: the running task gives way
    /// if a task is ready at its level or above, and stays if not.
    pub open spec fn schedule_tick(self) -> Sched {
        if self.must_yield() {
            self.preempt()
        } else {
            self
        }
    }

    /// The state after a task became ready at `level`: if that is above the
    /// level of the running task, the running task gives way at once; an
    /// idle processor takes the ready task.
    pub open spec fn became_ready(self, level: int) -> Sched {
        match self.current {
            Some(c) => if level > self.task(c).level {
                self.preempt()
            } else {
                self
            },
            None => self.dispatch_next(),
        }
    }

    /// The level that `wake_up` gives the task `id`: `level`, or the level
    /// that the task has if `level` is negative.
    pub open spec fn target_level(self, id: TaskId, level: i32) -> usize {
        if level < 0 {
            self.task(id).level
        } else {
            level as usize
        }
    }

    /// The state after the task `id` was woken at `level`.
    ///
    /// A sleeping task becomes ready at the back of the run queue of its new
    /// level. A ready task stays where it is if the level is its own, and
    /// moves to the back of the run queue of the new level if not. A running
    /// task only takes the new level. A task that has ended, or an
    /// identifier that the registry does not hold, changes nothing.
    pub open spec fn wake_up(self, id: TaskId, level: i32) -> Sched {
        if !self.registered(id) {
            self
        } else {
            let t = self.task(id);
            let to = self.target_level(id, level);
            match t.state {
                TaskState::Sleeping => made_ready(self, id, to).became_ready(to as int),
                TaskState::Ready => if to == t.level {
                    self
                } else {
                    moved_level(self, id, to).became_ready(to as int)
                },
                TaskState::Running => self.with_task(id, TaskView { level: to, ..t }),
                TaskState::Terminated => self,
            }
        }
    }

    /// The state after the running task went to sleep: the first task of the
    /// highest run queue runs; the processor is idle if none is ready.
    pub open spec fn sleep(self) -> Sched {
        match self.current {
            Some(c) => self.with_task(
                c,
                TaskView { state: TaskState::Sleeping, ..self.task(c) },
            ).with_current(None).dispatch_next(),
            None => self,
        }
    }

    /// The state after the running task ended with `code`, its kernel stack
    /// pointer at `stack_ptr`.
    pub open spec fn exit(self, code: i32, stack_ptr: u64) -> Sched {
        match self.current {
            Some(c) => self.with_task(
                c,
                TaskView {
                    state: TaskState::Terminated,
                    exit_code: code,
                    os_stack_ptr: stack_ptr,
                    ..self.task(c)
                },
            ).with_current(None).dispatch_next(),
            None => self,
        }
    }

    /// Whether `message` can be put into the queue of the task `target`.
    pub open spec fn can_send(self, target: TaskId) -> bool {
        self.registered(target) && self.task(target).inbox.len() < self.config.message_capacity
    }

    /// The state after `message` was sent to the task `target`: it stands
    /// behind the messages that wait, and a sleeping task is woken at its
    /// level. Nothing changes where the message cannot be sent.
    pub open spec fn send_message(self, target: TaskId, message: Message) -> Sched {
        if self.can_send(target) {
            let t = self.task(target);
            self.with_task(target, TaskView { inbox: t.inbox.push(message), ..t }).wake_up(
                target,
                -1i32,
            )
        } else {
            self
        }
    }

    /// The oldest message that waits for the running task.
    pub open spec fn next_message(self) -> Option<Message> {
        match self.current {
            Some(c) => if self.task(c).inbox.len() > 0 {
                Some(self.task(c).inbox[0])
            } else {
                None
            },
            None => None,
        }
    }

    /// The state after the running task took its oldest message.
    pub open spec fn receive_message(self) -> Sched {
        match self.current {
            Some(c) => if self.task(c).inbox.len() > 0 {
                self.with_task(
                    c,
                    TaskView { inbox: self.task(c).inbox.drop_first(), ..self.task(c) },
                )
            } else {
                self
            },
            None => self,
        }
    }

    /// The record of a task that was just made: asleep at the default level,
    /// without messages, every register zero.
    pub open spec fn fresh_task(id: TaskId) -> TaskView {
        TaskView {
            id,
            level: DEFAULT_LEVEL,
            state: TaskState::Sleeping,
            context: TaskContext::spec_zeroed(),
            inbox: Seq::empty(),
            exit_code: 0,
            os_stack_ptr: 0,
            dpaging_end: 0,
            file_map_end: 0,
        }
    }

    /// Whether an identifier is left for a new task.
    pub open spec fn can_create(self) -> bool {
        self.tasks.len() < self.config.max_tasks
    }

    /// The state after a task was made. Its identifier is the number of
    /// identifiers used so far, so one greater than that of the task made
    /// before.
    pub open spec fn new_task(self) -> Sched {
        if self.can_create() {
            Sched {
                tasks: self.tasks.push(Some(Self::fresh_task(self.tasks.len() as TaskId))),
                ..self
            }
        } else {
            self
        }
    }

    /// The state in which a manager starts: the task 1 runs at the highest
    /// level, and no other task exists.
    pub open spec fn initial(config: TaskConfig) -> Sched {
        Sched {
            tasks: seq![
                None,
                Some(
                    TaskView {
                        level: MAX_LEVEL,
                        state: TaskState::Running,
                        ..Self::fresh_task(1)
                    },
                ),
            ],
            queues: Seq::new((MAX_LEVEL + 1) as nat, |l: int| Seq::<TaskId>::empty()),
            current: Some(1),
            config,
        }
    }

    /// The state after the task `id` was given the context from which it
    /// starts `entry(arg0, arg1)` on its own stack.
    pub open spec fn init_context(self, id: TaskId, entry: u64, arg0: u64, arg1: u64) -> Sched {
        if self.registered(id) {
            self.with_task(
                id,
                TaskView {
                    context: TaskContext::spec_initial(
                        entry,
                        arg0,
                        arg1,
                        self.config.stack_end(id) as u64,
                        self.config.cr3,
                    ),
                    ..self.task(id)
                },
            )
        } else {
            self
        }
    }

    /// The state after the registers `live` of the processor were saved as
    /// the context of the task `from`.
    pub open spec fn save_context(self, from: TaskId, live: TaskContext) -> Sched {
        if self.registered(from) {
            self.with_task(from, TaskView { context: live, ..self.task(from) })
        } else {
            self
        }
    }

    /// The state after the record of the task `id`, which has ended, was
    /// taken out of the registry.
    pub open spec fn remove(self, id: TaskId) -> Sched {
        if self.registered(id) && self.task(id).state == TaskState::Terminated {
            Sched { tasks: self.tasks.update(id as int, None), ..self }
        } else {
            self
        }
    }
}


/// `highest_below` finds the highest run queue below `top` that is not empty.
pub proof fn lemma_highest_below(s: Sched, top: int)
    requires
        0 <= top <= s.queues.len(),
    ensures
        match s.highest_below(top) {
            Some(level) => 0 <= level < top && s.queues[level].len() > 0 && forall|l: int|
                level < l < top ==> (#[trigger] s.queues[l]).len() == 0,
            None => forall|l: int| 0 <= l < top ==> (#[trigger] s.queues[l]).len() == 0,
        },
    decreases top,
{
    if top > 0 && s.queues[top - 1].len() == 0 {
        lemma_highest_below(s, top - 1);
    }
}

/// Putting the first task of the highest run queue on an idle processor
/// leads to a state in which all of `wf` holds.
pub proof fn lemma_dispatch_next(s: Sched)
    requires
        s.inv(),
        s.current is None,
    ensures
        s.dispatch_next().wf(),
        s.dispatch_next().current is None <==> s.none_ready(),
        s.dispatch_next().tasks.len() == s.tasks.len(),
{
    lemma_highest_below(s, s.queues.len() as int);
    let after = s.dispatch_next();
    match s.highest_ready() {
        Some(level) => {
            let next = s.queues[level][0];
            lemma_drop_first(s.queues[level]);
            assert(s.registered(next));
            assert forall|l: int, k: int|
                0 <= l < after.queues.len() && 0 <= k < after.queues[l].len() implies {
                let id = #[trigger] after.queues[l][k];
                &&& after.registered(id)
                &&& after.task(id).state == TaskState::Ready
                &&& after.task(id).level == l
            } by {
                if l == level {
                    assert(after.queues[l][k] == s.queues[l][k + 1]);
                    assert(after.queues[l].contains(after.queues[l][k]));
                } else {
                    assert(after.queues[l][k] == s.queues[l][k]);
                }
            }
            assert forall|i: int| 0 <= i < after.tasks.len() implies (
            #[trigger] after.tasks[i] matches Some(t) ==> (t.state == TaskState::Ready
                ==> after.queues[t.level as int].contains(i as TaskId))) by {
                if i != next {
                    assert(after.tasks[i] == s.tasks[i]);
                }
            }
            assert forall|i: int| 0 <= i < after.tasks.len() implies (
            #[trigger] after.tasks[i] matches Some(t) ==> (t.state == TaskState::Running
                ==> after.current == Some(i as TaskId))) by {
                if i != next {
                    assert(after.tasks[i] == s.tasks[i]);
                }
            }
            assert forall|i: int| 0 <= i < after.tasks.len() implies (
            #[trigger] after.tasks[i] matches Some(t) ==> t.id == i && t.level <= MAX_LEVEL
                && t.inbox.len() <= after.config.message_capacity) by {
                if i != next {
                    assert(after.tasks[i] == s.tasks[i]);
                } else {
                    assert(s.tasks[i] is Some);
                }
            }
        },
        None => {},
    }
}

/// Putting the running task at the back of the run queue of its level
/// keeps `inv` and leaves the processor idle.
pub proof fn lemma_demote_current(s: Sched)
    requires
        s.inv(),
    ensures
        s.demote_current().inv(),
        s.demote_current().current is None,
        s.demote_current().tasks.len() == s.tasks.len(),
        s.current matches Some(c) ==> s.demote_current().queues[s.task(c).level as int]
            == s.queues[s.task(c).level as int].push(c),
{
    let after = s.demote_current();
    match s.current {
        Some(c) => {
            let level = s.task(c).level as int;
            assert(s.tasks[c as int] is Some);
            if s.queues[level].contains(c) {
                let k = choose|k: int| 0 <= k < s.queues[level].len() && s.queues[level][k] == c;
                assert(s.task(s.queues[level][k]).state == TaskState::Ready);
            }
            lemma_push_new(s.queues[level], c);
            assert forall|l: int, k: int|
                0 <= l < after.queues.len() && 0 <= k < after.queues[l].len() implies {
                let id = #[trigger] after.queues[l][k];
                &&& after.registered(id)
                &&& after.task(id).state == TaskState::Ready
                &&& after.task(id).level == l
            } by {
                if l == level && k == s.queues[level].len() {
                } else {
                    assert(after.queues[l][k] == s.queues[l][k]);
                    assert(s.queues[l][k] != c);
                }
            }
            assert forall|i: int| 0 <= i < after.tasks.len() implies (
            #[trigger] after.tasks[i] matches Some(t) ==> (t.state == TaskState::Ready
                ==> after.queues[t.level as int].contains(i as TaskId))) by {
                if i != c {
                    assert(after.tasks[i] == s.tasks[i]);
                }
            }
            assert forall|i: int| 0 <= i < after.tasks.len() implies (
            #[trigger] after.tasks[i] matches Some(t) ==> (t.state == TaskState::Running
                ==> after.current == Some(i as TaskId))) by {
                if i != c {
                    assert(after.tasks[i] == s.tasks[i]);
                }
            }
            assert forall|i: int| 0 <= i < after.tasks.len() implies (
            #[trigger] after.tasks[i] matches Some(t) ==> t.id == i && t.level <= MAX_LEVEL
                && t.inbox.len() <= after.config.message_capacity) by {
                if i != c {
                    assert(after.tasks[i] == s.tasks[i]);
                }
            }
        },
        None => {},
    }
}

/// When the running task gives way, all of `wf` holds after, and another
/// task runs if one was ready at the level of the running task or above.
pub proof fn lemma_preempt(s: Sched)
    requires
        s.inv(),
    ensures
        s.preempt().wf(),
        s.preempt().tasks.len() == s.tasks.len(),
{
    lemma_demote_current(s);
    lemma_dispatch_next(s.demote_current());
}

/// A tick of the scheduler keeps `wf`.
pub proof fn lemma_schedule_tick(s: Sched)
    requires
        s.wf(),
    ensures
        s.schedule_tick().wf(),
        s.schedule_tick().tasks.len() == s.tasks.len(),
{
    lemma_preempt(s);
}

/// After a task became ready, all of `wf` holds.
pub proof fn lemma_became_ready(s: Sched, level: int)
    requires
        s.inv(),
    ensures
        s.became_ready(level).wf(),
        s.became_ready(level).tasks.len() == s.tasks.len(),
{
    lemma_preempt(s);
    if s.current is None {
        lemma_dispatch_next(s);
    }
}


/// Changing what a record holds besides its level and state keeps `inv`,
/// where the record stays sound.
pub proof fn lemma_with_task_same_place(s: Sched, id: TaskId, t: TaskView)
    requires
        s.inv(),
        s.registered(id),
        t.id == id,
        t.level == s.task(id).level,
        t.state == s.task(id).state,
        t.inbox.len() <= s.config.message_capacity,
    ensures
        s.with_task(id, t).inv(),
        s.wf() ==> s.with_task(id, t).wf(),
{
    let after = s.with_task(id, t);
    assert forall|l: int, k: int|
        0 <= l < after.queues.len() && 0 <= k < after.queues[l].len() implies {
        let q = #[trigger] after.queues[l][k];
        &&& after.registered(q)
        &&& after.task(q).state == TaskState::Ready
        &&& after.task(q).level == l
    } by {
        assert(after.queues[l][k] == s.queues[l][k]);
    }
    assert forall|i: int| 0 <= i < after.tasks.len() implies (#[trigger] after.tasks[i] matches Some(
        r,
    ) ==> (r.state == TaskState::Ready ==> after.queues[r.level as int].contains(
        i as TaskId,
    ))) by {
        assert(s.tasks[i] is Some ==> true);
    }
    assert forall|i: int| 0 <= i < after.tasks.len() implies (#[trigger] after.tasks[i] matches Some(
        r,
    ) ==> (r.state == TaskState::Running ==> after.current == Some(i as TaskId))) by {
        assert(s.tasks[i] is Some ==> true);
    }
    assert forall|i: int| 0 <= i < after.tasks.len() implies (#[trigger] after.tasks[i] matches Some(
        r,
    ) ==> r.id == i && r.level <= MAX_LEVEL && r.inbox.len()
        <= after.config.message_capacity) by {
        assert(s.tasks[i] is Some ==> true);
    }
}

/// The state in which the sleeping task `id` is ready at the back of the run
/// queue of the level `to`.
pub open spec fn made_ready(s: Sched, id: TaskId, to: usize) -> Sched {
    s.with_task(id, TaskView { state: TaskState::Ready, level: to, ..s.task(id) }).with_queue(
        to as int,
        s.queues[to as int].push(id),
    )
}

/// The state in which the ready task `id` stands at the back of the run
/// queue of the level `to` and no longer in that of its former level.
pub open spec fn moved_level(s: Sched, id: TaskId, to: usize) -> Sched {
    s.with_task(id, TaskView { level: to, ..s.task(id) }).with_queue(
        s.task(id).level as int,
        without(s.queues[s.task(id).level as int], id),
    ).with_queue(to as int, s.queues[to as int].push(id))
}

/// Making a sleeping task ready keeps `inv`.
pub proof fn lemma_made_ready(s: Sched, id: TaskId, to: usize)
    requires
        s.wf(),
        s.registered(id),
        s.task(id).state == TaskState::Sleeping,
        to <= MAX_LEVEL,
    ensures
        made_ready(s, id, to).inv(),
        made_ready(s, id, to).tasks.len() == s.tasks.len(),
{
    let t = s.task(id);
    assert(s.tasks[id as int] is Some);
    let mid = made_ready(s, id, to);
    if s.queues[to as int].contains(id) {
        let k = choose|k: int|
            0 <= k < s.queues[to as int].len() && s.queues[to as int][k] == id;
        assert(s.task(s.queues[to as int][k]).state == TaskState::Ready);
    }
    lemma_push_new(s.queues[to as int], id);
    assert forall|l: int, k: int|
        0 <= l < mid.queues.len() && 0 <= k < mid.queues[l].len() implies {
        let q = #[trigger] mid.queues[l][k];
        &&& mid.registered(q)
        &&& mid.task(q).state == TaskState::Ready
        &&& mid.task(q).level == l
    } by {
        if l == to && k == s.queues[to as int].len() {
        } else {
            assert(mid.queues[l][k] == s.queues[l][k]);
            assert(s.task(s.queues[l][k]).state == TaskState::Ready);
        }
    }
    assert forall|i: int| 0 <= i < mid.tasks.len() implies (
    #[trigger] mid.tasks[i] matches Some(r) ==> (r.state == TaskState::Ready
        ==> mid.queues[r.level as int].contains(i as TaskId))) by {
        if i != id {
            assert(mid.tasks[i] == s.tasks[i]);
        }
    }
    assert forall|i: int| 0 <= i < mid.tasks.len() implies (
    #[trigger] mid.tasks[i] matches Some(r) ==> (r.state == TaskState::Running
        ==> mid.current == Some(i as TaskId))) by {
        if i != id {
            assert(mid.tasks[i] == s.tasks[i]);
        }
    }
    assert forall|i: int| 0 <= i < mid.tasks.len() implies (
    #[trigger] mid.tasks[i] matches Some(r) ==> r.id == i && r.level <= MAX_LEVEL
        && r.inbox.len() <= mid.config.message_capacity) by {
        if i != id {
            assert(mid.tasks[i] == s.tasks[i]);
        }
    }
    assert(mid.current matches Some(c) ==> mid.registered(c) && mid.task(c).state
        == TaskState::Running) by {
        if let Some(c) = mid.current {
            assert(c != id);
        }
    }
}

/// Moving a ready task to another level keeps `inv`.
pub proof fn lemma_moved_level(s: Sched, id: TaskId, to: usize)
    requires
        s.wf(),
        s.registered(id),
        s.task(id).state == TaskState::Ready,
        to <= MAX_LEVEL,
        to != s.task(id).level,
    ensures
        moved_level(s, id, to).inv(),
        moved_level(s, id, to).tasks.len() == s.tasks.len(),
{
    let t = s.task(id);
    assert(s.tasks[id as int] is Some);
    let from = t.level as int;
    let mid = moved_level(s, id, to);
    lemma_without(s.queues[from], id);
    lemma_position(s.queues[from], id);
    if s.queues[to as int].contains(id) {
        let k = choose|k: int|
            0 <= k < s.queues[to as int].len() && s.queues[to as int][k] == id;
        assert(s.task(s.queues[to as int][k]).level == to);
    }
    lemma_push_new(s.queues[to as int], id);
    assert forall|l: int, k: int|
        0 <= l < mid.queues.len() && 0 <= k < mid.queues[l].len() implies {
        let q = #[trigger] mid.queues[l][k];
        &&& mid.registered(q)
        &&& mid.task(q).state == TaskState::Ready
        &&& mid.task(q).level == l
    } by {
        if l == to {
            if k < s.queues[to as int].len() {
                assert(mid.queues[l][k] == s.queues[l][k]);
                assert(s.task(s.queues[l][k]).level == l);
            }
        } else if l == from {
            let p = position(s.queues[from], id);
            let k0 = if k < p {
                k
            } else {
                k + 1
            };
            assert(mid.queues[l][k] == s.queues[l][k0]);
            assert(mid.queues[l].contains(mid.queues[l][k]));
            assert(s.task(s.queues[l][k0]).level == l);
        } else {
            assert(mid.queues[l][k] == s.queues[l][k]);
            assert(s.task(s.queues[l][k]).level == l);
        }
    }
    assert forall|i: int| 0 <= i < mid.tasks.len() implies (
    #[trigger] mid.tasks[i] matches Some(r) ==> (r.state == TaskState::Ready
        ==> mid.queues[r.level as int].contains(i as TaskId))) by {
        if i != id {
            assert(mid.tasks[i] == s.tasks[i]);
        }
    }
    assert forall|i: int| 0 <= i < mid.tasks.len() implies (
    #[trigger] mid.tasks[i] matches Some(r) ==> (r.state == TaskState::Running
        ==> mid.current == Some(i as TaskId))) by {
        if i != id {
            assert(mid.tasks[i] == s.tasks[i]);
        }
    }
    assert forall|i: int| 0 <= i < mid.tasks.len() implies (
    #[trigger] mid.tasks[i] matches Some(r) ==> r.id == i && r.level
        <= MAX_LEVEL && r.inbox.len() <= mid.config.message_capacity) by {
        if i != id {
            assert(mid.tasks[i] == s.tasks[i]);
        }
    }
    assert forall|l: int| 0 <= l < mid.queues.len() implies (
    #[trigger] mid.queues[l]).no_duplicates() by {
        if l != to && l != from {
            assert(mid.queues[l] == s.queues[l]);
        }
    }
}

/// Giving the running task another level keeps `wf`.
pub proof fn lemma_running_level(s: Sched, id: TaskId, to: usize)
    requires
        s.wf(),
        s.registered(id),
        s.task(id).state == TaskState::Running,
        to <= MAX_LEVEL,
    ensures
        s.with_task(id, TaskView { level: to, ..s.task(id) }).wf(),
{
    let t = s.task(id);
    assert(s.tasks[id as int] is Some);
    let after = s.with_task(id, TaskView { level: to, ..t });
    assert forall|l: int, k: int|
        0 <= l < after.queues.len() && 0 <= k < after.queues[l].len() implies {
        let q = #[trigger] after.queues[l][k];
        &&& after.registered(q)
        &&& after.task(q).state == TaskState::Ready
        &&& after.task(q).level == l
    } by {
        assert(after.queues[l][k] == s.queues[l][k]);
        assert(s.task(s.queues[l][k]).state == TaskState::Ready);
    }
    assert forall|i: int| 0 <= i < after.tasks.len() implies (
    #[trigger] after.tasks[i] matches Some(r) ==> (r.state == TaskState::Ready
        ==> after.queues[r.level as int].contains(i as TaskId))) by {
        if i != id {
            assert(after.tasks[i] == s.tasks[i]);
        }
    }
    assert forall|i: int| 0 <= i < after.tasks.len() implies (
    #[trigger] after.tasks[i] matches Some(r) ==> (r.state == TaskState::Running
        ==> after.current == Some(i as TaskId))) by {
        if i != id {
            assert(after.tasks[i] == s.tasks[i]);
        }
    }
    assert forall|i: int| 0 <= i < after.tasks.len() implies (
    #[trigger] after.tasks[i] matches Some(r) ==> r.id == i && r.level <= MAX_LEVEL
        && r.inbox.len() <= after.config.message_capacity) by {
        if i != id {
            assert(after.tasks[i] == s.tasks[i]);
        }
    }
}

/// Waking a task keeps `wf`.
pub proof fn lemma_wake_up(s: Sched, id: TaskId, level: i32)
    requires
        s.wf(),
        level <= MAX_LEVEL,
    ensures
        s.wake_up(id, level).wf(),
        s.wake_up(id, level).tasks.len() == s.tasks.len(),
{
    if s.registered(id) {
        let t = s.task(id);
        let to = s.target_level(id, level);
        assert(s.tasks[id as int] is Some);
        match t.state {
            TaskState::Sleeping => {
                lemma_made_ready(s, id, to);
                lemma_became_ready(made_ready(s, id, to), to as int);
            },
            TaskState::Ready => {
                if to != t.level {
                    lemma_moved_level(s, id, to);
                    lemma_became_ready(moved_level(s, id, to), to as int);
                }
            },
            TaskState::Running => {
                lemma_running_level(s, id, to);
            },
            TaskState::Terminated => {},
        }
    }
}

/// Taking the running task off the processor for good, asleep or ended,
/// and putting the next one on keeps `wf`.
pub proof fn lemma_leave_processor(s: Sched, t: TaskView)
    requires
        s.wf(),
        s.current is Some,
        t.id == s.current->0,
        t.level == s.task(s.current->0).level,
        t.inbox == s.task(s.current->0).inbox,
        t.state == TaskState::Sleeping || t.state == TaskState::Terminated,
    ensures
        s.with_task(s.current->0, t).with_current(None).dispatch_next().wf(),
        s.with_task(s.current->0, t).with_current(None).dispatch_next().tasks.len()
            == s.tasks.len(),
        s.with_task(s.current->0, t).with_current(None).dispatch_next().current is None
            <==> s.none_ready(),
{
    let c = s.current->0;
    let mid = s.with_task(c, t).with_current(None);
    lemma_left_inv(s, mid);
    lemma_dispatch_next(mid);
}

/// Going to sleep keeps `wf`, and leaves the processor idle exactly if no
/// task is ready.
pub proof fn lemma_sleep(s: Sched)
    requires
        s.wf(),
    ensures
        s.sleep().wf(),
        s.sleep().tasks.len() == s.tasks.len(),
        s.current is Some ==> (s.sleep().current is None <==> s.none_ready()),
{
    if let Some(c) = s.current {
        lemma_leave_processor(s, TaskView { state: TaskState::Sleeping, ..s.task(c) });
    }
}

/// Ending keeps `wf`, and leaves the processor idle exactly if no task is
/// ready.
pub proof fn lemma_exit(s: Sched, code: i32, stack_ptr: u64)
    requires
        s.wf(),
    ensures
        s.exit(code, stack_ptr).wf(),
        s.exit(code, stack_ptr).tasks.len() == s.tasks.len(),
        s.current is Some ==> (s.exit(code, stack_ptr).current is None <==> s.none_ready()),
{
    if let Some(c) = s.current {
        lemma_leave_processor(
            s,
            TaskView {
                state: TaskState::Terminated,
                exit_code: code,
                os_stack_ptr: stack_ptr,
                ..s.task(c)
            },
        );
    }
}

/// Sending a message keeps `wf`.
pub proof fn lemma_send_message(s: Sched, target: TaskId, message: Message)
    requires
        s.wf(),
    ensures
        s.send_message(target, message).wf(),
        s.send_message(target, message).tasks.len() == s.tasks.len(),
{
    if s.can_send(target) {
        let t = s.task(target);
        let mid = s.with_task(target, TaskView { inbox: t.inbox.push(message), ..t });
        lemma_with_task_same_place(s, target, TaskView { inbox: t.inbox.push(message), ..t });
        lemma_wake_up(mid, target, -1i32);
    }
}

/// Taking a message keeps `wf`.
pub proof fn lemma_receive_message(s: Sched)
    requires
        s.wf(),
    ensures
        s.receive_message().wf(),
        s.receive_message().tasks.len() == s.tasks.len(),
{
    if let Some(c) = s.current {
        if s.task(c).inbox.len() > 0 {
            assert(s.tasks[c as int] is Some);
            lemma_with_task_same_place(
                s,
                c,
                TaskView { inbox: s.task(c).inbox.drop_first(), ..s.task(c) },
            );
        }
    }
}

/// Making a task keeps `wf`.
pub proof fn lemma_new_task(s: Sched)
    requires
        s.wf(),
    ensures
        s.new_task().wf(),
{
    if s.can_create() {
        let after = s.new_task();
        let id = s.tasks.len() as TaskId;
        assert forall|l: int, k: int|
            0 <= l < after.queues.len() && 0 <= k < after.queues[l].len() implies {
            let q = #[trigger] after.queues[l][k];
            &&& after.registered(q)
            &&& after.task(q).state == TaskState::Ready
            &&& after.task(q).level == l
        } by {
            assert(after.queues[l][k] == s.queues[l][k]);
            assert(s.task(s.queues[l][k]).state == TaskState::Ready);
        }
        assert forall|i: int| 0 <= i < after.tasks.len() implies (
        #[trigger] after.tasks[i] matches Some(r) ==> (r.state == TaskState::Ready
            ==> after.queues[r.level as int].contains(i as TaskId))) by {
            if i != id {
                assert(after.tasks[i] == s.tasks[i]);
            }
        }
        assert forall|i: int| 0 <= i < after.tasks.len() implies (
        #[trigger] after.tasks[i] matches Some(r) ==> (r.state == TaskState::Running
            ==> after.current == Some(i as TaskId))) by {
            if i != id {
                assert(after.tasks[i] == s.tasks[i]);
            }
        }
        assert forall|i: int| 0 <= i < after.tasks.len() implies (
        #[trigger] after.tasks[i] matches Some(r) ==> r.id == i && r.level <= MAX_LEVEL
            && r.inbox.len() <= after.config.message_capacity) by {
            if i != id {
                assert(after.tasks[i] == s.tasks[i]);
            }
        }
        assert(after.tasks[0] == s.tasks[0]);
    }
}

/// Taking the record of an ended task out of the registry keeps `wf`.
pub proof fn lemma_remove(s: Sched, id: TaskId)
    requires
        s.wf(),
    ensures
        s.remove(id).wf(),
        s.remove(id).tasks.len() == s.tasks.len(),
{
    if s.registered(id) && s.task(id).state == TaskState::Terminated {
        let after = s.remove(id);
        assert(s.tasks[id as int] is Some);
        assert forall|l: int, k: int|
            0 <= l < after.queues.len() && 0 <= k < after.queues[l].len() implies {
            let q = #[trigger] after.queues[l][k];
            &&& after.registered(q)
            &&& after.task(q).state == TaskState::Ready
            &&& after.task(q).level == l
        } by {
            assert(after.queues[l][k] == s.queues[l][k]);
            assert(s.task(s.queues[l][k]).state == TaskState::Ready);
        }
        assert forall|i: int| 0 <= i < after.tasks.len() implies (
        #[trigger] after.tasks[i] matches Some(r) ==> (r.state == TaskState::Ready
            ==> after.queues[r.level as int].contains(i as TaskId))) by {
            if i != id {
                assert(after.tasks[i] == s.tasks[i]);
            }
        }
        assert forall|i: int| 0 <= i < after.tasks.len() implies (
        #[trigger] after.tasks[i] matches Some(r) ==> (r.state == TaskState::Running
            ==> after.current == Some(i as TaskId))) by {
            if i != id {
                assert(after.tasks[i] == s.tasks[i]);
            }
        }
        assert forall|i: int| 0 <= i < after.tasks.len() implies (
        #[trigger] after.tasks[i] matches Some(r) ==> r.id == i && r.level <= MAX_LEVEL
            && r.inbox.len() <= after.config.message_capacity) by {
            if i != id {
                assert(after.tasks[i] == s.tasks[i]);
            }
        }
    }
}


/// The number of times that `id` stands in `queue`.
pub open spec fn occurrences(queue: Seq<TaskId>, id: TaskId) -> nat
    decreases queue.len(),
{
    if queue.len() == 0 {
        0
    } else {
        occurrences(queue.drop_last(), id) + if queue.last() == id {
            1nat
        } else {
            0nat
        }
    }
}

/// The number of times that `id` stands in the run queues of the levels
/// below `top`.
pub open spec fn entries_below(s: Sched, id: TaskId, top: int) -> nat
    decreases top,
{
    if top <= 0 {
        0
    } else {
        entries_below(s, id, top - 1) + occurrences(s.queues[top - 1], id)
    }
}

/// The number of times that `id` stands in the run queues.
pub open spec fn run_queue_entries(s: Sched, id: TaskId) -> nat {
    entries_below(s, id, s.queues.len() as int)
}

/// A member of a queue without repetitions stands in it once, and what is
/// no member stands in it no times.
pub proof fn lemma_occurrences(queue: Seq<TaskId>, id: TaskId)
    requires
        queue.no_duplicates(),
    ensures
        occurrences(queue, id) == (if queue.contains(id) {
            1nat
        } else {
            0nat
        }),
    decreases queue.len(),
{
    if queue.len() > 0 {
        let front = queue.drop_last();
        assert forall|i: int, j: int| 0 <= i < front.len() && 0 <= j < front.len() && i
            != j implies front[i] != front[j] by {
            assert(front[i] == queue[i] && front[j] == queue[j]);
        }
        lemma_occurrences(front, id);
        if front.contains(id) {
            let i = choose|i: int| 0 <= i < front.len() && front[i] == id;
            assert(queue[i] == id);
        }
        if queue.contains(id) && queue.last() != id {
            let i = choose|i: int| 0 <= i < queue.len() && queue[i] == id;
            assert(front[i] == id);
        }
    }
}

/// The run queues below `top` hold a ready task once if its level is below
/// `top`, and hold no other task.
proof fn lemma_entries_below(s: Sched, id: TaskId, top: int)
    requires
        s.wf(),
        0 <= top <= s.queues.len(),
    ensures
        entries_below(s, id, top) == (if s.registered(id) && s.task(id).state
            == TaskState::Ready && s.task(id).level < top {
            1nat
        } else {
            0nat
        }),
    decreases top,
{
    if top > 0 {
        lemma_entries_below(s, id, top - 1);
        let queue = s.queues[top - 1];
        lemma_occurrences(queue, id);
        if queue.contains(id) {
            let k = choose|k: int| 0 <= k < queue.len() && queue[k] == id;
            assert(s.task(s.queues[top - 1][k]).level == top - 1);
        }
        if s.registered(id) && s.task(id).state == TaskState::Ready && s.task(id).level == top
            - 1 {
            assert(s.tasks[id as int] is Some);
        }
    }
}

/// In every state that the operations reach, a ready task stands in the run
/// queues exactly once, and a task that runs, sleeps or has ended, or an
/// identifier without a task, stands in none.
pub proof fn lemma_queue_membership(s: Sched, id: TaskId)
    requires
        s.wf(),
    ensures
        run_queue_entries(s, id) == (if s.registered(id) && s.task(id).state
            == TaskState::Ready {
            1nat
        } else {
            0nat
        }),
        s.registered(id) && s.task(id).state == TaskState::Ready ==> occurrences(
            s.queues[s.task(id).level as int],
            id,
        ) == 1,
{
    lemma_entries_below(s, id, s.queues.len() as int);
    if s.registered(id) && s.task(id).state == TaskState::Ready {
        assert(s.tasks[id as int] is Some);
        lemma_occurrences(s.queues[s.task(id).level as int], id);
    }
}

/// Waking a task that is ready does not put it into a run queue a second
/// time: it stands in the run queues once while it is ready, and nothing
/// changes at all where the level asked for is the one it has.
pub proof fn lemma_wake_idempotent(s: Sched, id: TaskId, level: i32)
    requires
        s.wf(),
        level <= MAX_LEVEL,
        s.registered(id),
        s.task(id).state == TaskState::Ready,
    ensures
        run_queue_entries(s.wake_up(id, level), id) <= 1,
        level < 0 || level == s.task(id).level ==> s.wake_up(id, level) == s,
        s.wake_up(id, level).wake_up(id, level) == s.wake_up(id, level),
{
    lemma_wake_up(s, id, level);
    let once = s.wake_up(id, level);
    lemma_queue_membership(once, id);
    let to = s.target_level(id, level);
    if to != s.task(id).level {
        lemma_moved_level(s, id, to);
        let mid = moved_level(s, id, to);
        lemma_became_ready(mid, to as int);
        lemma_wake_after_move(mid, id, to);
    }
}

/// The task `id`, ready at the level `to` before a task became ready at that
/// level, has the level `to` after, and is ready or running.
proof fn lemma_wake_after_move(mid: Sched, id: TaskId, to: usize)
    requires
        mid.inv(),
        mid.registered(id),
        mid.task(id).state == TaskState::Ready,
        mid.task(id).level == to,
        to <= MAX_LEVEL,
    ensures
        ({
            let after = mid.became_ready(to as int);
            &&& after.registered(id)
            &&& after.task(id).level == to
            &&& after.task(id).state == TaskState::Ready || after.task(id).state
                == TaskState::Running
            &&& forall|level: i32|
                level == to || level < 0 ==> #[trigger] after.wake_up(id, level) == after
        }),
{
    let after = mid.became_ready(to as int);
    lemma_became_ready(mid, to as int);
    lemma_demote_current(mid);
    let demoted = mid.demote_current();
    lemma_highest_below(mid, mid.queues.len() as int);
    lemma_highest_below(demoted, demoted.queues.len() as int);
    assert(mid.tasks[id as int] is Some);
    assert(after.registered(id) && after.task(id).level == to && (after.task(id).state
        == TaskState::Ready || after.task(id).state == TaskState::Running));
    assert forall|level: i32| level == to || level < 0 implies #[trigger] after.wake_up(
        id,
        level,
    ) == after by {
        if after.task(id).state == TaskState::Running {
            assert(after.tasks.update(id as int, Some(after.task(id))) =~= after.tasks);
        }
    }
}

/// A higher level preempts at once: when a sleeping task is woken at a
/// level above that of the running task, at which and above which no task
/// is ready, it runs at once, and the task that ran stands at the back of
/// the run queue of its level.
pub proof fn lemma_wake_preempts(s: Sched, id: TaskId, level: i32)
    requires
        s.wf(),
        level <= MAX_LEVEL,
        s.registered(id),
        s.task(id).state == TaskState::Sleeping,
        s.current is Some,
        s.target_level(id, level) > s.task(s.current->0).level,
        forall|l: int|
            s.target_level(id, level) <= l < s.queues.len() ==> (#[trigger] s.queues[l]).len()
                == 0,
    ensures
        s.wake_up(id, level).current == Some(id),
        s.wake_up(id, level).task(id).state == TaskState::Running,
        s.wake_up(id, level).task(id).level == s.target_level(id, level),
        s.wake_up(id, level).task(s.current->0).state == TaskState::Ready,
        s.wake_up(id, level).queues[s.task(s.current->0).level as int] == s.queues[s.task(
            s.current->0,
        ).level as int].push(s.current->0),
{
    let c = s.current->0;
    let to = s.target_level(id, level);
    assert(s.tasks[id as int] is Some);
    assert(s.tasks[c as int] is Some);
    lemma_made_ready(s, id, to);
    let mid = made_ready(s, id, to);
    assert(mid.queues[to as int] =~= seq![id]);
    lemma_demote_current(mid);
    let demoted = mid.demote_current();
    assert(demoted.queues[to as int] == mid.queues[to as int]);
    assert forall|l: int| to < l < demoted.queues.len() implies (#[trigger] demoted.queues[l]).len()
        == 0 by {
        assert(demoted.queues[l] == s.queues[l]);
    }
    lemma_highest_below(demoted, demoted.queues.len() as int);
    assert(demoted.highest_ready() == Some(to as int));
    lemma_dispatch_next(demoted);
    let after = s.wake_up(id, level);
    assert(after == demoted.dispatch_next());
    assert(after.queues[s.task(c).level as int] == demoted.queues[s.task(c).level as int]);
}

/// The state after `count` ticks of the scheduler.
pub open spec fn after_ticks(s: Sched, count: nat) -> Sched
    decreases count,
{
    if count == 0 {
        s
    } else {
        after_ticks(s.schedule_tick(), (count - 1) as nat)
    }
}

/// Whether a task runs and no task is ready above its level.
pub open spec fn runs_at_top(s: Sched) -> bool {
    &&& s.current is Some
    &&& forall|l: int| s.task(s.current->0).level < l < s.queues.len() ==> (#[trigger] s.queues[l]).len() == 0
}

/// A tick rotates the tasks of the level of the running task: the first of
/// the run queue runs, and the task that ran stands at the back.
pub proof fn lemma_tick_rotates(s: Sched)
    requires
        s.wf(),
        runs_at_top(s),
        s.queues[s.task(s.current->0).level as int].len() > 0,
    ensures
        ({
            let level = s.task(s.current->0).level as int;
            let after = s.schedule_tick();
            &&& after.wf()
            &&& runs_at_top(after)
            &&& after.current == Some(s.queues[level][0])
            &&& after.task(after.current->0).level == level
            &&& after.queues[level] == s.queues[level].drop_first().push(s.current->0)
        }),
{
    let c = s.current->0;
    let level = s.task(c).level as int;
    assert(s.tasks[c as int] is Some);
    lemma_highest_below(s, s.queues.len() as int);
    lemma_schedule_tick(s);
    lemma_demote_current(s);
    let demoted = s.demote_current();
    lemma_highest_below(demoted, demoted.queues.len() as int);
    assert(forall|l: int| level < l < s.queues.len() ==> demoted.queues[l] == s.queues[l]);
    assert(demoted.highest_ready() == Some(level));
    let after = s.schedule_tick();
    assert(demoted.queues[level][0] == s.queues[level][0]);
    assert(s.task(s.queues[level][0]).level == level);
    assert(after.queues[level] =~= s.queues[level].drop_first().push(c));
    assert forall|l: int| level < l < after.queues.len() implies (#[trigger] after.queues[l]).len() == 0 by {
        assert(after.queues[l] == s.queues[l]);
    }
}

/// Round robin. While the tasks of the highest level in use neither sleep
/// nor end and no task of a higher level wakes, the task at index `i` of the
/// run queue runs after `i + 1` ticks, and the task that runs now runs again
/// one tick after the last of them: between two turns of a task each of the
/// others has one turn, and no more.
pub proof fn lemma_round_robin(s: Sched, i: int)
    requires
        s.wf(),
        runs_at_top(s),
        0 <= i < s.queues[s.task(s.current->0).level as int].len(),
    ensures
        ({
            let queue = s.queues[s.task(s.current->0).level as int];
            &&& after_ticks(s, (i + 1) as nat).current == Some(queue[i])
            &&& after_ticks(s, (queue.len() + 1) as nat).current == s.current
        }),
    decreases i,
{
    let c = s.current->0;
    let level = s.task(c).level as int;
    let queue = s.queues[level];
    lemma_tick_rotates(s);
    let next = s.schedule_tick();
    assert(next.queues[level].len() == queue.len());
    assert(after_ticks(s, (i + 1) as nat) == after_ticks(next, i as nat));
    assert(after_ticks(s, (queue.len() + 1) as nat) == after_ticks(next, queue.len()));
    lemma_runs_again(next, queue.len() - 1);
    if i > 0 {
        assert(next.queues[level][i - 1] == queue[i]);
        lemma_round_robin(next, i - 1);
    } else {
        assert(after_ticks(next, 0) == next);
    }
}

/// The task at index `i` of the run queue of the running task's level runs
/// after `i + 1` ticks.
proof fn lemma_runs_again(s: Sched, i: int)
    requires
        s.wf(),
        runs_at_top(s),
        0 <= i < s.queues[s.task(s.current->0).level as int].len(),
    ensures
        after_ticks(s, (i + 1) as nat).current == Some(
            s.queues[s.task(s.current->0).level as int][i],
        ),
    decreases i,
{
    let level = s.task(s.current->0).level as int;
    let queue = s.queues[level];
    lemma_tick_rotates(s);
    let next = s.schedule_tick();
    assert(after_ticks(s, (i + 1) as nat) == after_ticks(next, i as nat));
    if i > 0 {
        assert(next.queues[level][i - 1] == queue[i]);
        lemma_runs_again(next, i - 1);
    } else {
        assert(after_ticks(next, 0) == next);
    }
}


/// The state in which a manager starts is well formed.
pub proof fn lemma_initial(config: TaskConfig)
    requires
        config.wf(),
    ensures
        Sched::initial(config).wf(),
{
    let s = Sched::initial(config);
    assert(s.tasks[1] is Some);
    assert forall|i: int| 0 <= i < s.tasks.len() implies (#[trigger] s.tasks[i] matches Some(t)
        ==> t.id == i && t.level <= MAX_LEVEL && t.inbox.len() <= s.config.message_capacity) by {
        if i == 1 {
            assert(s.tasks[1]->0.inbox.len() == 0);
        }
    }
}

/// Setting or saving the context of a task keeps `wf`.
pub proof fn lemma_context(s: Sched, id: TaskId, context: TaskContext)
    requires
        s.wf(),
        s.registered(id),
    ensures
        s.with_task(id, TaskView { context, ..s.task(id) }).wf(),
{
    assert(s.tasks[id as int] is Some);
    lemma_with_task_same_place(s, id, TaskView { context, ..s.task(id) });
}

/// The stacks of two tasks share no byte, and the stack of every task that
/// the registry can hold lies inside the arena.
pub proof fn lemma_stacks_apart(config: TaskConfig, a: TaskId, b: TaskId)
    requires
        config.wf(),
        a != b,
    ensures
        config.stack_end(a) <= config.stack_start(b) || config.stack_end(b) <= config.stack_start(
            a,
        ),
        a < config.max_tasks ==> config.stack_base <= config.stack_start(a) && config.stack_end(a)
            <= config.stack_base + config.max_tasks * STACK_BYTES && config.stack_end(a)
            <= u64::MAX,
        config.stack_end(a) - config.stack_start(a) == STACK_BYTES,
{
}


/// One operation of the task manager.
pub enum Step {
    /// A tick of the scheduler.
    Tick,
    /// The task is woken at the level.
    WakeUp(TaskId, i32),
    /// The running task goes to sleep.
    Sleep,
    /// The running task ends with the code, its stack pointer noted.
    Exit(i32, u64),
    /// The message is sent to the task.
    Send(TaskId, Message),
    /// The running task takes its oldest message.
    Receive,
    /// A task is made.
    NewTask,
    /// The task is given the context from which it starts.
    InitContext(TaskId, u64, u64, u64),
    /// The registers are saved as the context of the task.
    SaveContext(TaskId, TaskContext),
    /// The record of the task, which has ended, is taken out.
    Remove(TaskId),
}

impl Step {
    /// Whether the operation can be asked for: a task is woken at one of
    /// the levels, or at its own.
    pub open spec fn allowed(self) -> bool {
        self matches Step::WakeUp(_, level) ==> level <= MAX_LEVEL
    }
}

impl Sched {
    /// The state after the operation `step`.
    pub open spec fn step(self, step: Step) -> Sched {
        match step {
            Step::Tick => self.schedule_tick(),
            Step::WakeUp(id, level) => self.wake_up(id, level),
            Step::Sleep => self.sleep(),
            Step::Exit(code, stack_ptr) => self.exit(code, stack_ptr),
            Step::Send(target, message) => self.send_message(target, message),
            Step::Receive => self.receive_message(),
            Step::NewTask => self.new_task(),
            Step::InitContext(id, entry, arg0, arg1) => self.init_context(id, entry, arg0, arg1),
            Step::SaveContext(id, live) => self.save_context(id, live),
            Step::Remove(id) => self.remove(id),
        }
    }

    /// The state that the operations `steps` lead to from the start.
    pub open spec fn reached(config: TaskConfig, steps: Seq<Step>) -> Sched
        decreases steps.len(),
    {
        if steps.len() == 0 {
            Self::initial(config)
        } else {
            Self::reached(config, steps.drop_last()).step(steps.last())
        }
    }
}

/// Every operation keeps `wf`.
pub proof fn lemma_step(s: Sched, step: Step)
    requires
        s.wf(),
        step.allowed(),
    ensures
        s.step(step).wf(),
{
    match step {
        Step::Tick => lemma_schedule_tick(s),
        Step::WakeUp(id, level) => lemma_wake_up(s, id, level),
        Step::Sleep => lemma_sleep(s),
        Step::Exit(code, stack_ptr) => lemma_exit(s, code, stack_ptr),
        Step::Send(target, message) => lemma_send_message(s, target, message),
        Step::Receive => lemma_receive_message(s),
        Step::NewTask => lemma_new_task(s),
        Step::InitContext(id, entry, arg0, arg1) => {
            if s.registered(id) {
                lemma_context(
                    s,
                    id,
                    TaskContext::spec_initial(
                        entry,
                        arg0,
                        arg1,
                        s.config.stack_end(id) as u64,
                        s.config.cr3,
                    ),
                );
            }
        },
        Step::SaveContext(id, live) => {
            if s.registered(id) {
                lemma_context(s, id, live);
            }
        },
        Step::Remove(id) => lemma_remove(s, id),
    }
}

/// Every state that the operations reach from the start is well formed: in
/// it a task stands in the run queues exactly once if it is ready, and in
/// none if it runs, sleeps or has ended.
pub proof fn lemma_reached(config: TaskConfig, steps: Seq<Step>, id: TaskId)
    requires
        config.wf(),
        forall|k: int| 0 <= k < steps.len() ==> (#[trigger] steps[k]).allowed(),
    ensures
        Sched::reached(config, steps).wf(),
        run_queue_entries(Sched::reached(config, steps), id) == (if Sched::reached(
            config,
            steps,
        ).registered(id) && Sched::reached(config, steps).task(id).state == TaskState::Ready {
            1nat
        } else {
            0nat
        }),
    decreases steps.len(),
{
    if steps.len() == 0 {
        lemma_initial(config);
    } else {
        let front = steps.drop_last();
        assert forall|k: int| 0 <= k < front.len() implies (#[trigger] front[k]).allowed() by {
            assert(front[k] == steps[k]);
        }
        lemma_reached(config, front, id);
        assert(steps[steps.len() - 1].allowed());
        lemma_step(Sched::reached(config, front), steps.last());
    }
    lemma_queue_membership(Sched::reached(config, steps), id);
}

/// Putting a task on the processor, or taking the running one off it,
/// changes no task that sleeps or has ended.
proof fn lemma_scheduling_keeps(s: Sched, id: TaskId)
    requires
        s.inv(),
        s.registered(id),
        s.task(id).state == TaskState::Sleeping || s.task(id).state == TaskState::Terminated,
    ensures
        s.dispatch_next().task(id) == s.task(id),
        s.dispatch_next().registered(id),
        s.demote_current().task(id) == s.task(id),
        s.demote_current().registered(id),
        s.preempt().task(id) == s.task(id),
        s.preempt().registered(id),
{
    assert(s.tasks[id as int] is Some);
    lemma_highest_below(s, s.queues.len() as int);
    lemma_demote_current(s);
    let demoted = s.demote_current();
    assert(demoted.tasks[id as int] == s.tasks[id as int]);
    lemma_highest_below(demoted, demoted.queues.len() as int);
}

/// Waking a task other than `id`, or waking `id` when it has ended, leaves
/// a task `id` that sleeps or has ended as it is.
proof fn lemma_wake_keeps(s: Sched, woken: TaskId, level: i32, id: TaskId)
    requires
        s.wf(),
        level <= MAX_LEVEL,
        s.registered(id),
        s.task(id).state == TaskState::Terminated || (s.task(id).state == TaskState::Sleeping
            && woken != id),
    ensures
        s.wake_up(woken, level).registered(id),
        s.wake_up(woken, level).task(id) == s.task(id),
{
    assert(s.tasks[id as int] is Some);
    if s.registered(woken) && woken != id {
        assert(s.tasks[woken as int] is Some);
        let to = s.target_level(woken, level);
        match s.task(woken).state {
            TaskState::Sleeping => {
                lemma_made_ready(s, woken, to);
                lemma_scheduling_keeps(made_ready(s, woken, to), id);
            },
            TaskState::Ready => {
                if to != s.task(woken).level {
                    lemma_moved_level(s, woken, to);
                    lemma_scheduling_keeps(moved_level(s, woken, to), id);
                }
            },
            _ => {},
        }
    }
}

/// A task that has ended stays as it is, whatever is done, until its record
/// is taken out of the registry: no operation wakes it, runs it or changes
/// what it holds.
pub proof fn lemma_terminated_is_absorbing(s: Sched, step: Step, id: TaskId)
    requires
        s.wf(),
        step.allowed(),
        s.registered(id),
        s.task(id).state == TaskState::Terminated,
        step != Step::Remove(id),
    ensures
        s.step(step).registered(id),
        s.step(step).task(id).state == TaskState::Terminated,
        s.step(step).task(id).exit_code == s.task(id).exit_code,
        s.step(step).task(id).os_stack_ptr == s.task(id).os_stack_ptr,
{
    assert(s.tasks[id as int] is Some);
    match step {
        Step::Tick => lemma_scheduling_keeps(s, id),
        Step::WakeUp(woken, level) => lemma_wake_keeps(s, woken, level, id),
        Step::Sleep => {
            if let Some(c) = s.current {
                let mid = s.with_task(
                    c,
                    TaskView { state: TaskState::Sleeping, ..s.task(c) },
                ).with_current(None);
                lemma_left_inv(s, mid);
                lemma_scheduling_keeps(mid, id);
            }
        },
        Step::Exit(code, stack_ptr) => {
            if let Some(c) = s.current {
                let mid = s.with_task(
                    c,
                    TaskView {
                        state: TaskState::Terminated,
                        exit_code: code,
                        os_stack_ptr: stack_ptr,
                        ..s.task(c)
                    },
                ).with_current(None);
                lemma_left_inv(s, mid);
                lemma_scheduling_keeps(mid, id);
            }
        },
        Step::Send(target, message) => {
            if s.can_send(target) {
                let t = s.task(target);
                let pushed = TaskView { inbox: t.inbox.push(message), ..t };
                lemma_with_task_same_place(s, target, pushed);
                let mid = s.with_task(target, pushed);
                assert(mid.tasks[id as int] is Some);
                lemma_wake_keeps(mid, target, -1i32, id);
            }
        },
        _ => {},
    }
}

/// A sleeping task sleeps until it is woken: only waking it, or sending it
/// a message, makes it ready.
pub proof fn lemma_sleeping_until_woken(s: Sched, step: Step, id: TaskId)
    requires
        s.wf(),
        step.allowed(),
        s.registered(id),
        s.task(id).state == TaskState::Sleeping,
        !(step matches Step::WakeUp(woken, _) && woken == id),
        !(step matches Step::Send(target, _) && target == id),
    ensures
        s.step(step).registered(id),
        s.step(step).task(id).state == TaskState::Sleeping,
        s.step(step).task(id).level == s.task(id).level,
        s.step(step).task(id).inbox == s.task(id).inbox,
{
    assert(s.tasks[id as int] is Some);
    match step {
        Step::Tick => lemma_scheduling_keeps(s, id),
        Step::WakeUp(woken, level) => lemma_wake_keeps(s, woken, level, id),
        Step::Sleep => {
            if let Some(c) = s.current {
                let mid = s.with_task(
                    c,
                    TaskView { state: TaskState::Sleeping, ..s.task(c) },
                ).with_current(None);
                lemma_left_inv(s, mid);
                lemma_scheduling_keeps(mid, id);
            }
        },
        Step::Exit(code, stack_ptr) => {
            if let Some(c) = s.current {
                let mid = s.with_task(
                    c,
                    TaskView {
                        state: TaskState::Terminated,
                        exit_code: code,
                        os_stack_ptr: stack_ptr,
                        ..s.task(c)
                    },
                ).with_current(None);
                lemma_left_inv(s, mid);
                lemma_scheduling_keeps(mid, id);
            }
        },
        Step::Send(target, message) => {
            if s.can_send(target) {
                let t = s.task(target);
                let pushed = TaskView { inbox: t.inbox.push(message), ..t };
                lemma_with_task_same_place(s, target, pushed);
                let mid = s.with_task(target, pushed);
                assert(mid.tasks[id as int] is Some);
                lemma_wake_keeps(mid, target, -1i32, id);
            }
        },
        _ => {},
    }
}

/// After the running task left the processor, asleep or ended, all of `inv`
/// holds.
pub proof fn lemma_left_inv(s: Sched, mid: Sched)
    requires
        s.wf(),
        s.current is Some,
        mid.current is None,
        mid.queues == s.queues,
        mid.config == s.config,
        mid.tasks == s.tasks.update(s.current->0 as int, mid.tasks[s.current->0 as int]),
        mid.tasks[s.current->0 as int] matches Some(t) && t.id == s.current->0 && t.level
            == s.task(s.current->0).level && t.inbox == s.task(s.current->0).inbox && (t.state
            == TaskState::Sleeping || t.state == TaskState::Terminated),
    ensures
        mid.inv(),
{
    let c = s.current->0;
    assert(s.tasks[c as int] is Some);
    assert forall|l: int, k: int|
        0 <= l < mid.queues.len() && 0 <= k < mid.queues[l].len() implies {
        let q = #[trigger] mid.queues[l][k];
        &&& mid.registered(q)
        &&& mid.task(q).state == TaskState::Ready
        &&& mid.task(q).level == l
    } by {
        assert(mid.queues[l][k] == s.queues[l][k]);
        assert(s.task(s.queues[l][k]).state == TaskState::Ready);
    }
    assert forall|i: int| 0 <= i < mid.tasks.len() implies (#[trigger] mid.tasks[i] matches Some(
        r,
    ) ==> (r.state == TaskState::Ready ==> mid.queues[r.level as int].contains(
        i as TaskId,
    ))) by {
        if i != c {
            assert(mid.tasks[i] == s.tasks[i]);
        }
    }
    assert forall|i: int| 0 <= i < mid.tasks.len() implies (#[trigger] mid.tasks[i] matches Some(
        r,
    ) ==> (r.state == TaskState::Running ==> mid.current == Some(i as TaskId))) by {
        if i != c {
            assert(mid.tasks[i] == s.tasks[i]);
        }
    }
    assert forall|i: int| 0 <= i < mid.tasks.len() implies (#[trigger] mid.tasks[i] matches Some(
        r,
    ) ==> r.id == i && r.level <= MAX_LEVEL && r.inbox.len()
        <= mid.config.message_capacity) by {
        if i != c {
            assert(mid.tasks[i] == s.tasks[i]);
        }
    }
}


/// Whether the task `id` has, in `after`, the level and the messages that
/// it has in `before`.
pub open spec fn same_mail(before: Sched, after: Sched, id: TaskId) -> bool {
    &&& after.registered(id)
    &&& after.task(id).level == before.task(id).level
    &&& after.task(id).inbox == before.task(id).inbox
}

/// Putting a task on the processor, or taking the running one off it,
/// changes no task's level and no task's messages.
pub proof fn lemma_scheduling_keeps_mail(s: Sched, id: TaskId, level: int)
    requires
        s.inv(),
        s.registered(id),
    ensures
        same_mail(s, s.dispatch_next(), id),
        same_mail(s, s.demote_current(), id),
        same_mail(s, s.preempt(), id),
        same_mail(s, s.became_ready(level), id),
        s.wf() ==> same_mail(s, s.schedule_tick(), id),
{
    assert(s.tasks[id as int] is Some);
    lemma_highest_below(s, s.queues.len() as int);
    lemma_demote_current(s);
    let demoted = s.demote_current();
    assert(demoted.registered(id) && demoted.task(id).inbox == s.task(id).inbox
        && demoted.task(id).level == s.task(id).level);
    lemma_highest_below(demoted, demoted.queues.len() as int);
}

/// Waking a task changes no task's messages, and no task's level but that
/// of the task that is woken at a level of its own.
pub proof fn lemma_wake_keeps_mail(s: Sched, woken: TaskId, level: i32, id: TaskId)
    requires
        s.wf(),
        level <= MAX_LEVEL,
        s.registered(id),
    ensures
        s.wake_up(woken, level).registered(id),
        s.wake_up(woken, level).task(id).inbox == s.task(id).inbox,
        woken != id || level < 0 ==> same_mail(s, s.wake_up(woken, level), id),
{
    assert(s.tasks[id as int] is Some);
    if s.registered(woken) {
        assert(s.tasks[woken as int] is Some);
        let to = s.target_level(woken, level);
        match s.task(woken).state {
            TaskState::Sleeping => {
                lemma_made_ready(s, woken, to);
                let mid = made_ready(s, woken, to);
                assert(mid.tasks[id as int] is Some);
                lemma_scheduling_keeps_mail(mid, id, to as int);
            },
            TaskState::Ready => {
                if to != s.task(woken).level {
                    lemma_moved_level(s, woken, to);
                    let mid = moved_level(s, woken, to);
                    assert(mid.tasks[id as int] is Some);
                    lemma_scheduling_keeps_mail(mid, id, to as int);
                }
            },
            _ => {},
        }
    }
}

/// Sending a message puts it behind the messages of the task that it is
/// sent to, once, and changes no other task's messages and no task's level.
pub proof fn lemma_send_mail(s: Sched, target: TaskId, message: Message, id: TaskId)
    requires
        s.wf(),
        s.registered(id),
    ensures
        s.send_message(target, message).registered(id),
        s.send_message(target, message).task(id).level == s.task(id).level,
        s.send_message(target, message).task(id).inbox == (if id == target && s.can_send(target) {
            s.task(id).inbox.push(message)
        } else {
            s.task(id).inbox
        }),
{
    assert(s.tasks[id as int] is Some);
    if s.can_send(target) {
        let t = s.task(target);
        let pushed = TaskView { inbox: t.inbox.push(message), ..t };
        lemma_with_task_same_place(s, target, pushed);
        let mid = s.with_task(target, pushed);
        assert(mid.tasks[id as int] is Some);
        lemma_wake_keeps_mail(mid, target, -1i32, id);
    }
}

/// Waking is idempotent for messages too: a message sent to a task that
/// does not sleep leaves the run queues, the levels and the running task as
/// they are, so the task stands in the run queues as often as before, once
/// at most.
pub proof fn lemma_send_to_awake(s: Sched, target: TaskId, message: Message)
    requires
        s.wf(),
        s.can_send(target),
        s.task(target).state != TaskState::Sleeping,
    ensures
        s.send_message(target, message) == s.with_task(
            target,
            TaskView { inbox: s.task(target).inbox.push(message), ..s.task(target) },
        ),
        s.send_message(target, message).queues == s.queues,
        s.send_message(target, message).current == s.current,
        run_queue_entries(s.send_message(target, message), target) == run_queue_entries(
            s,
            target,
        ),
        run_queue_entries(s.send_message(target, message), target) <= 1,
{
    assert(s.tasks[target as int] is Some);
    let t = s.task(target);
    let pushed = TaskView { inbox: t.inbox.push(message), ..t };
    lemma_with_task_same_place(s, target, pushed);
    let mid = s.with_task(target, pushed);
    assert(mid.tasks[target as int] is Some);
    assert(mid.tasks.update(target as int, Some(mid.task(target))) =~= mid.tasks);
    lemma_queue_membership(s, target);
    lemma_queue_membership(mid, target);
}


/// Waking a task leaves the configuration as it is.
pub proof fn lemma_wake_config(s: Sched, woken: TaskId, level: i32)
    requires
        s.wf(),
        level <= MAX_LEVEL,
    ensures
        s.wake_up(woken, level).config == s.config,
{
    if s.registered(woken) {
        let to = s.target_level(woken, level);
        match s.task(woken).state {
            TaskState::Sleeping => {
                lemma_made_ready(s, woken, to);
                let mid = made_ready(s, woken, to);
                lemma_highest_below(mid, mid.queues.len() as int);
                lemma_demote_current(mid);
                lemma_highest_below(mid.demote_current(), mid.demote_current().queues.len() as int);
            },
            TaskState::Ready => {
                if to != s.task(woken).level {
                    lemma_moved_level(s, woken, to);
                    let mid = moved_level(s, woken, to);
                    lemma_highest_below(mid, mid.queues.len() as int);
                    lemma_demote_current(mid);
                    lemma_highest_below(
                        mid.demote_current(),
                        mid.demote_current().queues.len() as int,
                    );
                }
            },
            _ => {},
        }
    }
}

} // verus!
