//! The system calls, as far as they compute: what each one decides, hands
//! back and does to the tasks and timers. Reading and writing the memory of
//! the application is left to the caller.

use vstd::prelude::*;

use crate::bitfield::{low_mask_u64, BitField};
use crate::errno::ErrNo;
use crate::kernel::{timeout_message, Kernel};
use crate::message::{Message, MessageType, TaskId};
use crate::queue::without;
use crate::sync::{LockStep, Mutex};
use crate::scheduler::TaskManager;
use crate::task::{dispatch_between, Dispatch, Sched, TaskView};
use crate::timer::{due_count, Timer, TimerManager, TIMER_FREQ};

verus! {

/// The number of system calls.
pub const SYSCALL_COUNT: usize = 16;

/// The model specific register that switches the `syscall` instruction on.
pub const IA32_EFER: u32 = 0xc000_0080;

/// The model specific register of the segments for `syscall` and `sysret`.
pub const IA32_STAR: u32 = 0xc000_0081;

/// The model specific register of the entry point of `syscall`.
pub const IA32_LSTAR: u32 = 0xc000_0082;

/// The model specific register of the flags that `syscall` clears.
pub const IA32_FMASK: u32 = 0xc000_0084;

/// The size of a page frame.
pub const BYTES_PER_FRAME: u64 = 4096;

/// The key code of the letter Q.
pub const KEYCODE_Q: u8 = 20;

/// The bit of the key modifiers for the left control key.
pub const LCONTROL_BIT: u32 = 0;

/// The bit of the key modifiers for the right control key.
pub const RCONTROL_BIT: u32 = 4;

/// What a system call hands back: a value and an error number, zero for
/// success.
#[derive(Clone, Copy, PartialEq, Eq, Structural, Debug)]
pub struct Result {
    pub value: u64,
    pub error: i32,
}

impl Result {
    /// The result with the given value and error number.
    pub fn new(value: u64, error: i32) -> (result: Self)
        ensures
            result == (Result { value, error }),
    {
        Self { value, error }
    }

    /// The successful result `value`.
    pub fn value(value: u64) -> (result: Self)
        ensures
            result == (Result { value, error: 0 }),
    {
        Self::new(value, 0)
    }

    /// The failure with the error number `error`.
    pub fn error(error: i32) -> (result: Self)
        ensures
            result == (Result { value: 0, error }),
    {
        Self::new(0, error)
    }

    /// The failure `errno`.
    pub fn from_errno(errno: ErrNo) -> (result: Self)
        ensures
            result == (Result { value: 0, error: errno.spec_code() }),
            result.error != 0,
    {
        Self::error(errno.code())
    }
}

/// One write to a model specific register.
#[derive(Clone, Copy, PartialEq, Eq, Structural, Debug)]
pub struct MsrWrite {
    pub register: u32,
    pub value: u64,
}

/// The writes that switch system calls on, in their order: `syscall` and
/// no-execute on, the entry point at `syscall_entry`, the kernel's segments
/// at 8 for `syscall` and the application's at 16 with privilege level 3
/// for `sysret`, and no flag cleared on entry.
pub fn init(syscall_entry: u64) -> (writes: [MsrWrite; 4])
    ensures
        writes@ == seq![
            MsrWrite { register: IA32_EFER, value: 0x0501 },
            MsrWrite { register: IA32_LSTAR, value: syscall_entry },
            MsrWrite { register: IA32_STAR, value: 0x0013_0008_0000_0000 },
            MsrWrite { register: IA32_FMASK, value: 0 },
        ],
{
    assert(8u64 << 32 | (16u64 | 3) << 48 == 0x0013_0008_0000_0000) by (bit_vector);
    [
        MsrWrite { register: IA32_EFER, value: 0x0501 },
        MsrWrite { register: IA32_LSTAR, value: syscall_entry },
        MsrWrite { register: IA32_STAR, value: 8u64 << 32 | (16u64 | 3) << 48 },
        MsrWrite { register: IA32_FMASK, value: 0 },
    ]
}

/// What an application is told of the events that reach its task.
#[derive(Clone, Copy, PartialEq, Eq, Structural, Debug)]
pub enum AppEvent {
    /// The application is asked to end.
    Quit,
    /// The pointer moved.
    MouseMove { x: i32, y: i32, dx: i32, dy: i32, buttons: u8 },
    /// A pointer button went down or up.
    MouseButton { x: i32, y: i32, press: bool, button: i32 },
    /// A timer of the application expired; `value` is the number that the
    /// application gave it.
    Timer { timeout: u64, value: i32 },
    /// A key went down or up.
    KeyPush { modifier: u8, keycode: u8, ascii: u8, press: bool },
}

/// Whether the key modifiers `modifier` hold a control key.
pub open spec fn control_held(modifier: u8) -> bool {
    modifier.spec_get_bit(LCONTROL_BIT) || modifier.spec_get_bit(RCONTROL_BIT)
}

/// The negative of `value`, and `value` itself where that is the least
/// number.
pub open spec fn negated(value: i32) -> i32 {
    if value == i32::MIN {
        value
    } else {
        (-value) as i32
    }
}

/// The event that an application is told for `message`, if any: Q with a
/// control key, and the closing of its window, ask it to end; keys, the
/// pointer and its own timers, which have a negative value, are passed on;
/// of anything else it is told nothing.
pub open spec fn spec_app_event(message: Message) -> Option<AppEvent> {
    match message.ty {
        MessageType::KeyPush { modifier, keycode, ascii, press } => if keycode == KEYCODE_Q
            && control_held(modifier) {
            Some(AppEvent::Quit)
        } else {
            Some(AppEvent::KeyPush { modifier, keycode, ascii, press })
        },
        MessageType::MouseMove { x, y, dx, dy, buttons } => Some(
            AppEvent::MouseMove { x, y, dx, dy, buttons },
        ),
        MessageType::MouseButton { x, y, press, button } => Some(
            AppEvent::MouseButton { x, y, press, button },
        ),
        MessageType::TimerTimeout { timeout, value } => if value < 0 {
            Some(AppEvent::Timer { timeout, value: negated(value) })
        } else {
            None
        },
        MessageType::WindowClose { layer_id } => Some(AppEvent::Quit),
        _ => None,
    }
}

/// The event that an application is told for `message`, if any.
pub fn app_event(message: &Message) -> (event: Option<AppEvent>)
    ensures
        event == spec_app_event(*message),
{
    match message.ty {
        MessageType::KeyPush { modifier, keycode, ascii, press } => {
            if keycode == KEYCODE_Q && (modifier.get_bit(LCONTROL_BIT) || modifier.get_bit(
                RCONTROL_BIT,
            )) {
                Some(AppEvent::Quit)
            } else {
                Some(AppEvent::KeyPush { modifier, keycode, ascii, press })
            }
        },
        MessageType::MouseMove { x, y, dx, dy, buttons } => Some(
            AppEvent::MouseMove { x, y, dx, dy, buttons },
        ),
        MessageType::MouseButton { x, y, press, button } => Some(
            AppEvent::MouseButton { x, y, press, button },
        ),
        MessageType::TimerTimeout { timeout, value } => {
            if value < 0 {
                let number = if value == i32::MIN {
                    value
                } else {
                    -value
                };
                Some(AppEvent::Timer { timeout, value: number })
            } else {
                None
            }
        },
        MessageType::WindowClose { layer_id } => Some(AppEvent::Quit),
        _ => None,
    }
}

/// How weighty a line of the log is.
#[derive(Clone, Copy, PartialEq, Eq, Structural, Debug)]
pub enum LogLevel {
    Error,
    Warn,
    Info,
    Debug,
}

impl LogLevel {
    /// The level with the number `level`: 3 for errors, 4 for warnings, 6
    /// for information and 7 for the details.
    pub open spec fn spec_from_number(level: u64) -> Option<LogLevel> {
        if level == 3 {
            Some(LogLevel::Error)
        } else if level == 4 {
            Some(LogLevel::Warn)
        } else if level == 6 {
            Some(LogLevel::Info)
        } else if level == 7 {
            Some(LogLevel::Debug)
        } else {
            None
        }
    }

    /// The level with the number `level`, if there is one.
    pub fn from_number(level: u64) -> (found: Option<LogLevel>)
        ensures
            found == Self::spec_from_number(level),
    {
        if level == 3 {
            Some(LogLevel::Error)
        } else if level == 4 {
            Some(LogLevel::Warn)
        } else if level == 6 {
            Some(LogLevel::Info)
        } else if level == 7 {
            Some(LogLevel::Debug)
        } else {
            None
        }
    }
}

/// What `log_string` came to: the result for the application and, on
/// success, the level at which the line is logged.
#[derive(Clone, Copy, PartialEq, Eq, Structural, Debug)]
pub struct LogString {
    pub result: Result,
    pub level: Option<LogLevel>,
}

/// The system call by which an application writes a line to the log.
/// `text_len` is the length of the line in bytes, `None` if the line is no
/// text. Fails with `EPERM` if `level` is no level, and with `EINVAL` if the
/// line is no text; if not, the line is logged and its length is the result.
pub fn log_string(level: u64, text_len: Option<usize>) -> (outcome: LogString)
    ensures
        outcome == (match (LogLevel::spec_from_number(level), text_len) {
            (None, _) => LogString {
                result: Result { value: 0, error: ErrNo::EPERM.spec_code() },
                level: None,
            },
            (Some(_), None) => LogString {
                result: Result { value: 0, error: ErrNo::EINVAL.spec_code() },
                level: None,
            },
            (Some(found), Some(len)) => LogString {
                result: Result { value: len as u64, error: 0 },
                level: Some(found),
            },
        }),
{
    let found = match LogLevel::from_number(level) {
        Some(found) => found,
        None => {
            return LogString { result: Result::from_errno(ErrNo::EPERM), level: None };
        },
    };
    match text_len {
        Some(len) => LogString { result: Result::value(len as u64), level: Some(found) },
        None => LogString { result: Result::from_errno(ErrNo::EINVAL), level: None },
    }
}

/// The number of messages, from the oldest on, that `read_event` takes from
/// `inbox` when it has room for `room` events: it stops when the room is
/// used up or no message is left.
pub open spec fn taken(inbox: Seq<Message>, room: nat) -> nat
    decreases inbox.len(),
{
    if room == 0 || inbox.len() == 0 {
        0
    } else if spec_app_event(inbox[0]) is Some {
        1 + taken(inbox.drop_first(), (room - 1) as nat)
    } else {
        1 + taken(inbox.drop_first(), room)
    }
}

/// The events of the messages `inbox`, in their order.
pub open spec fn events_of(inbox: Seq<Message>) -> Seq<AppEvent> {
    inbox.filter(|m: Message| spec_app_event(m) is Some).map_values(
        |m: Message| spec_app_event(m)->0,
    )
}

/// What `read_event` came to.
pub enum ReadEvent {
    /// The address of the buffer is not one of the application.
    Fault,
    /// These are the events, fewer than asked for if no more message waited.
    Events(Vec<AppEvent>),
    /// No event waited and the task was put to sleep. The caller lets the
    /// processor go as told and tries again when the task runs.
    Blocked(Dispatch),
}

/// The lowest address that belongs to applications.
pub const USER_SPACE_START: u64 = 0x8000_0000_0000_0000;


/// The state in which the messages `inbox` wait for the running task.
pub open spec fn with_inbox(s: Sched, inbox: Seq<Message>) -> Sched {
    s.with_task(s.current->0, TaskView { inbox, ..s.task(s.current->0) })
}

/// The events of a sequence of messages and one more message are the
/// events of the sequence, followed by the event of the message if it has
/// one.
pub proof fn lemma_events_of_push(inbox: Seq<Message>, message: Message)
    ensures
        events_of(inbox.push(message)) == (match spec_app_event(message) {
            Some(event) => events_of(inbox).push(event),
            None => events_of(inbox),
        }),
{
    reveal(Seq::filter);
    let keep = |m: Message| spec_app_event(m) is Some;
    let event = |m: Message| spec_app_event(m)->0;
    assert(inbox.push(message).drop_last() =~= inbox);
    match spec_app_event(message) {
        Some(e) => {
            assert(inbox.push(message).filter(keep) =~= inbox.filter(keep).push(message));
            assert(inbox.filter(keep).push(message).map_values(event) =~= inbox.filter(
                keep,
            ).map_values(event).push(e));
        },
        None => {
            assert(inbox.push(message).filter(keep) =~= inbox.filter(keep));
        },
    }
}

/// The system call by which an application reads the events that wait for
/// it, into a buffer at `events` with room for `len` events.
///
/// Fails if `events` lies below the addresses of applications. If not, the
/// messages of the running task are taken one after the other, the oldest
/// first, until `len` events are found or no message is left; the events
/// are handed out in the order of their messages, and messages that tell
/// the application nothing are dropped. If `len` is not zero and not one
/// event was found, the task is put to sleep.
pub fn read_event(tasks: &mut TaskManager, events: u64, len: usize) -> (outcome: ReadEvent)
    requires
        old(tasks).wf(),
        old(tasks)@.current is Some,
    ensures
        final(tasks).wf(),
        ({
            let before = old(tasks)@;
            let inbox = before.task(before.current->0).inbox;
            let count = taken(inbox, len as nat) as int;
            let found = events_of(inbox.take(count));
            if events < USER_SPACE_START {
                &&& outcome is Fault
                &&& final(tasks)@ == before
            } else if len > 0 && found.len() == 0 {
                &&& count == inbox.len()
                &&& final(tasks)@ == with_inbox(before, Seq::empty()).sleep()
                &&& outcome matches ReadEvent::Blocked(dispatch)
                &&& dispatch == dispatch_between(before.current, final(tasks)@.current)
            } else {
                &&& final(tasks)@ == with_inbox(before, inbox.skip(count))
                &&& outcome matches ReadEvent::Events(list)
                &&& list@ == found
                &&& list@.len() <= len
            }
        }),
{
    if events < USER_SPACE_START {
        return ReadEvent::Fault;
    }
    let ghost before = tasks@;
    let ghost inbox = before.task(before.current->0).inbox;
    let mut list: Vec<AppEvent> = Vec::new();
    let ghost mut used: int = 0;
    proof {
        assert(before.tasks[before.current->0 as int] is Some);
        assert(inbox.skip(0) =~= inbox);
        assert(with_inbox(before, inbox).tasks =~= before.tasks);
        assert(inbox.take(0) =~= Seq::<Message>::empty());
        assert(events_of(inbox.take(0)) =~= Seq::<AppEvent>::empty());
    }
    let mut more = true;
    while more && list.len() < len
        invariant
            old(tasks).wf(),
            before == old(tasks)@,
            before.current is Some,
            inbox == before.task(before.current->0).inbox,
            tasks.wf(),
            0 <= used <= inbox.len(),
            list@.len() <= len,
            !more ==> used == inbox.len(),
            tasks@ == with_inbox(before, inbox.skip(used)),
            list@ == events_of(inbox.take(used)),
            taken(inbox, len as nat) == used + taken(
                inbox.skip(used),
                (len - list@.len()) as nat,
            ),
        decreases inbox.len() - used + (if more { 1int } else { 0int }),
    {
        proof {
            assert(tasks@.current == before.current);
            assert(tasks@.task(before.current->0).inbox == inbox.skip(used));
        }
        match tasks.receive_message() {
            Some(message) => {
                proof {
                    assert(message == inbox[used]);
                    assert(inbox.skip(used).drop_first() =~= inbox.skip(used + 1));
                    assert(inbox.take(used + 1) =~= inbox.take(used).push(message));
                    lemma_events_of_push(inbox.take(used), message);
                    assert(tasks@.tasks =~= with_inbox(before, inbox.skip(used + 1)).tasks);
                }
                match app_event(&message) {
                    Some(event) => {
                        list.push(event);
                    },
                    None => {},
                }
                proof {
                    used = used + 1;
                }
            },
            None => {
                proof {
                    assert(inbox.skip(used).len() == 0);
                }
                more = false;
            },
        }
    }
    proof {
        if !more {
            assert(inbox.take(used) =~= inbox);
            assert(inbox.skip(used) =~= Seq::<Message>::empty());
        }
    }
    if len > 0 && list.len() == 0 {
        let dispatch = tasks.sleep();
        return ReadEvent::Blocked(dispatch);
    }
    ReadEvent::Events(list)
}

/// How the halves of a `u64` read as numbers.
proof fn lemma_halves(x: u64)
    by (bit_vector)
    ensures
        (x >> 0u32) & low_mask_u64(32) == x % 0x1_0000_0000,
        (x >> 32u32) & low_mask_u64(32) == x / 0x1_0000_0000,
{
}

/// How the lowest bit of a `u32` reads as a number.
proof fn lemma_lowest_bit(x: u32)
    by (bit_vector)
    ensures
        ((x >> 0u32) & 1 == 1) == (x % 2 == 1),
{
}

/// The low 32 bits of `x`.
pub fn low_half(x: u64) -> (low: u32)
    ensures
        low == x % 0x1_0000_0000,
{
    proof {
        lemma_halves(x);
    }
    x.get_bits(0, 32) as u32
}

/// The high 32 bits of `x`.
pub fn high_half(x: u64) -> (high: u32)
    ensures
        high == x / 0x1_0000_0000,
{
    proof {
        lemma_halves(x);
    }
    x.get_bits(32, 64) as u32
}

/// The low 32 bits of `x` as a number with a sign, or `None` where that
/// number is negative.
pub fn as_non_negative(x: u64) -> (number: Option<i32>)
    ensures
        number is Some <==> x % 0x1_0000_0000 <= i32::MAX,
        number matches Some(n) ==> n == x % 0x1_0000_0000,
{
    let low = low_half(x);
    if low > 0x7fff_ffff {
        None
    } else {
        Some(low as i32)
    }
}

/// The system call that tells the time: the ticks since the start, and the
/// number of ticks in a second in place of the error number.
pub fn get_current_tick(timers: &TimerManager) -> (result: Result)
    ensures
        result == (Result { value: timers.tick, error: TIMER_FREQ as i32 }),
{
    Result::new(timers.current_tick(), TIMER_FREQ as i32)
}

/// The system call by which an application ends: the stack pointer of the
/// kernel side of the running task, and the low 32 bits of `code`, read
/// with a sign, in place of the error number.
pub fn exit(tasks: &TaskManager, code: u64) -> (result: Result)
    requires
        tasks.wf(),
        tasks@.current is Some,
    ensures
        result.value == tasks@.task(tasks@.current->0).os_stack_ptr,
        result.error == (if code % 0x1_0000_0000 <= i32::MAX {
            (code % 0x1_0000_0000) as int
        } else {
            code % 0x1_0000_0000 - 0x1_0000_0000
        }),
{
    let low = low_half(code);
    let error: i32 = if low > 0x7fff_ffff {
        ((low - 0x8000_0000) as i32) + i32::MIN
    } else {
        low as i32
    };
    match tasks.current_task() {
        Some(task) => Result::new(task.os_stack_ptr(), error),
        None => Result::new(0, error),
    }
}

/// The tick at which a timer asked for with `mode` and `timeout`
/// milliseconds expires: the milliseconds in ticks, counted from `tick` if
/// bit 0 of `mode` is set and from the start if not.
pub open spec fn timer_expiry(mode: u64, timeout: u64, tick: u64) -> int {
    timeout * TIMER_FREQ / 1000 + (if (mode % 0x1_0000_0000) % 2 == 1 {
        tick as int
    } else {
        0
    })
}

/// Whether the arguments of `create_timer` make a timer: the value is above
/// zero, so that its negative marks a timer of an application, and the
/// expiry, in ticks and in milliseconds, fits.
pub open spec fn timer_request_valid(mode: u64, timer_value: u64, timeout: u64, tick: u64) -> bool {
    &&& 0 < timer_value % 0x1_0000_0000 <= i32::MAX
    &&& timeout * TIMER_FREQ <= u64::MAX
    &&& timer_expiry(mode, timeout, tick) * 1000 <= u64::MAX
}

/// What `create_timer` does: whether `after` and `result` are what the call
/// makes of the kernel `before`.
///
/// The tasks, the tick and the limit of the timers stay. If the request is
/// not valid, the result is `EINVAL`, and if no timer can be added, it is
/// `ENOMEM`; the pending timers stay then. If not, the timer stands among
/// the pending ones behind those that expire no later, it has a negative
/// value, under which its expiry reaches the application as an event with
/// the number that was asked for, and the result is the expiry in
/// milliseconds.
pub open spec fn timer_created(
    before: Kernel,
    after: Kernel,
    mode: u64,
    timer_value: u64,
    timeout: u64,
    result: Result,
) -> bool {
    let tick = before.timers.tick;
    let pending = before.timers.pending();
    let expiry = timer_expiry(mode, timeout, tick);
    &&& after.wf()
    &&& after.tasks@ == before.tasks@
    &&& after.timers.tick == before.timers.tick
    &&& after.timers.limit == before.timers.limit
    &&& if !timer_request_valid(mode, timer_value, timeout, tick) {
        &&& result == (Result { value: 0, error: ErrNo::EINVAL.spec_code() })
        &&& after.timers.pending() == pending
    } else if pending.len() >= before.timers.limit {
        &&& result == (Result { value: 0, error: ErrNo::ENOMEM.spec_code() })
        &&& after.timers.pending() == pending
    } else {
        let timer = Timer {
            timeout: expiry as u64,
            value: (-(timer_value % 0x1_0000_0000)) as i32,
            task_id: before.tasks@.current->0,
        };
        &&& result == (Result { value: (expiry * 1000 / TIMER_FREQ as int) as u64, error: 0 })
        &&& after.timers.pending() == pending.insert(
            due_count(pending, timer.timeout) as int,
            timer,
        )
        &&& timer.value < 0
        &&& spec_app_event(timeout_message(timer)) == Some(
            AppEvent::Timer { timeout: timer.timeout, value: (timer_value % 0x1_0000_0000) as i32 },
        )
    }
}

/// The system call by which an application sets a timer. The timer belongs
/// to the running task and expires `timeout` milliseconds from now, if bit
/// 0 of `mode` is set, or from the start; its value is the negative of the
/// low 32 bits of `timer_value`, which must be above zero themselves: a
/// timer of an application always has a negative value, and its expiry
/// reaches the application as an event with the number that it gave.
/// The result is the expiry in milliseconds from the start.
///
/// Fails with `EINVAL` if the value is zero or negative or the expiry does
/// not fit, and with `ENOMEM` if no timer can be added; nothing changes
/// then.
pub fn create_timer(kernel: &mut Kernel, mode: u64, timer_value: u64, timeout: u64) -> (result:
    Result)
    requires
        old(kernel).wf(),
        old(kernel).tasks@.current is Some,
    ensures
        timer_created(*old(kernel), *final(kernel), mode, timer_value, timeout, result),
{
    let relative = low_half(mode).get_bit(0);
    proof {
        lemma_lowest_bit((mode % 0x1_0000_0000) as u32);
    }
    let value = match as_non_negative(timer_value) {
        Some(value) => value,
        None => {
            return Result::from_errno(ErrNo::EINVAL);
        },
    };
    if value == 0 {
        return Result::from_errno(ErrNo::EINVAL);
    }
    let task_id = match kernel.tasks.current_id() {
        Some(id) => id,
        None => {
            return Result::from_errno(ErrNo::EINVAL);
        },
    };
    if timeout > u64::MAX / TIMER_FREQ {
        return Result::from_errno(ErrNo::EINVAL);
    }
    let ticks = timeout * TIMER_FREQ / 1000;
    let tick = kernel.timers.current_tick();
    let start = if relative {
        tick
    } else {
        0
    };
    if start > u64::MAX / 1000 || ticks > u64::MAX / 1000 - start {
        return Result::from_errno(ErrNo::EINVAL);
    }
    let expiry = ticks + start;
    match kernel.timers.add_timer(Timer::new(expiry, -value, task_id)) {
        Ok(_) => Result::value(expiry * 1000 / TIMER_FREQ),
        Err(_) => Result::from_errno(ErrNo::ENOMEM),
    }
}

/// What a system call that needs the lock of the kernel hands back: its
/// result, and the task that waited longest for the lock, which the caller
/// wakes.
pub struct Guarded {
    pub result: Result,
    pub wake: Option<TaskId>,
}

/// `create_timer` for a kernel behind a lock, as one attempt of the task
/// `who`. If the lock is held, `who` is noted as waiting, nothing else
/// changes, and the caller sleeps and tries again. If it is free, `who`
/// takes it, the timer is set as `create_timer` says on the kernel as the
/// lock holds it, and the lock is handed back: the tick is read and the
/// timer added under one guard, so that no other holder comes between the
/// two.
pub fn create_timer_wait(
    lock: &mut Mutex<Kernel>,
    who: TaskId,
    mode: u64,
    timer_value: u64,
    timeout: u64,
) -> (step: LockStep<Guarded>)
    requires
        old(lock).wf(),
        old(lock).slot matches Some(kernel) ==> kernel.wf() && kernel.tasks@.current is Some,
    ensures
        final(lock).wf(),
        final(lock).is_locked() == old(lock).is_locked(),
        step is Acquired <==> !old(lock).is_locked(),
        step is Wait ==> final(lock).waiting() == (if old(lock).waiting().contains(who) {
            old(lock).waiting()
        } else {
            old(lock).waiting().push(who)
        }),
        step matches LockStep::Acquired(done) ==> {
            let waiting = without(old(lock).waiting(), who);
            &&& final(lock).slot matches Some(after)
            &&& timer_created(old(lock).slot->0, after, mode, timer_value, timeout, done.result)
            &&& waiting.len() == 0 ==> done.wake is None && final(lock).waiting() == waiting
            &&& waiting.len() > 0 ==> done.wake == Some(waiting[0]) && final(lock).waiting()
                == waiting.drop_first()
        },
{
    match lock.lock_wait(who) {
        LockStep::Acquired(guard) => {
            let mut guard = guard;
            let result = create_timer(&mut guard.value, mode, timer_value, timeout);
            let wake = lock.unlock(guard);
            LockStep::Acquired(Guarded { result, wake })
        },
        LockStep::Wait => LockStep::Wait,
    }
}

/// `get_current_tick` for a kernel behind a lock, as one attempt of the
/// task `who`: the tick is read under the guard, and the kernel is handed
/// back as it was.
pub fn get_current_tick_wait(lock: &mut Mutex<Kernel>, who: TaskId) -> (step: LockStep<Guarded>)
    requires
        old(lock).wf(),
    ensures
        final(lock).wf(),
        final(lock).slot == old(lock).slot,
        step is Acquired <==> !old(lock).is_locked(),
        step is Wait ==> final(lock).waiting() == (if old(lock).waiting().contains(who) {
            old(lock).waiting()
        } else {
            old(lock).waiting().push(who)
        }),
        step matches LockStep::Acquired(done) ==> {
            let waiting = without(old(lock).waiting(), who);
            &&& done.result == (Result {
                value: old(lock).slot->0.timers.tick,
                error: TIMER_FREQ as i32,
            })
            &&& waiting.len() == 0 ==> done.wake is None && final(lock).waiting() == waiting
            &&& waiting.len() > 0 ==> done.wake == Some(waiting[0]) && final(lock).waiting()
                == waiting.drop_first()
        },
{
    match lock.lock_wait(who) {
        LockStep::Acquired(guard) => {
            let result = get_current_tick(&guard.get().timers);
            let wake = lock.unlock(guard);
            LockStep::Acquired(Guarded { result, wake })
        },
        LockStep::Wait => LockStep::Wait,
    }
}

/// The system call by which an application asks for `num_pages` more pages
/// of memory: the end of what the running task has asked for moves up by
/// that many pages, and the former end is the result. Fails with `ENOMEM`,
/// and changes nothing, if the new end is no address.
pub fn demand_pages(tasks: &mut TaskManager, num_pages: u64) -> (result: Result)
    requires
        old(tasks).wf(),
        old(tasks)@.current is Some,
    ensures
        final(tasks).wf(),
        ({
            let before = old(tasks)@;
            let task = before.task(before.current->0);
            let end = task.dpaging_end + num_pages * BYTES_PER_FRAME;
            if end <= u64::MAX {
                &&& result == (Result { value: task.dpaging_end, error: 0 })
                &&& final(tasks)@ == before.with_task(
                    before.current->0,
                    TaskView { dpaging_end: end as u64, ..task },
                )
            } else {
                &&& result == (Result { value: 0, error: ErrNo::ENOMEM.spec_code() })
                &&& final(tasks)@ == before
            }
        }),
{
    let end = match tasks.current_task() {
        Some(task) => task.dpaging_end(),
        None => 0,
    };
    if num_pages > (u64::MAX - end) / BYTES_PER_FRAME {
        return Result::from_errno(ErrNo::ENOMEM);
    }
    let _ = tasks.set_dpaging_end(end + num_pages * BYTES_PER_FRAME);
    Result::value(end)
}

/// Where a file is mapped into the memory of a task.
#[derive(Clone, Copy, PartialEq, Eq, Structural, Debug)]
pub struct FileMapping {
    pub fd: i32,
    pub vaddr_begin: u64,
    pub vaddr_end: u64,
}

/// The address at which a file of `file_size` bytes is mapped below
/// `vaddr_end`: the highest start of a page that leaves room for the file.
pub open spec fn spec_map_begin(vaddr_end: u64, file_size: u64) -> u64 {
    ((vaddr_end - file_size) as u64) & !0xfffu64
}

/// What `map_file` came to: the result for the application and, on
/// success, the mapping to record.
pub struct MapFile {
    pub result: Result,
    pub mapping: Option<FileMapping>,
}

/// The system call by which an application maps the file `fd` into its
/// memory. `file_size` is the size of that file, `None` if the task has no
/// such file open. The file is mapped below the lowest mapping so far, at
/// the start of a page; that address is the result.
///
/// Fails with `EBADF` if the low 32 bits of `fd`, read with a sign, are
/// negative or no such file is open, and with `ENOMEM` if the file does not
/// fit below the lowest mapping; nothing changes then.
pub fn map_file(tasks: &mut TaskManager, fd: u64, file_size: Option<u64>) -> (outcome: MapFile)
    requires
        old(tasks).wf(),
        old(tasks)@.current is Some,
    ensures
        final(tasks).wf(),
        ({
            let before = old(tasks)@;
            let task = before.task(before.current->0);
            if fd % 0x1_0000_0000 > i32::MAX || file_size is None {
                &&& outcome.result == (Result { value: 0, error: ErrNo::EBADF.spec_code() })
                &&& outcome.mapping is None
                &&& final(tasks)@ == before
            } else if file_size->0 > task.file_map_end {
                &&& outcome.result == (Result { value: 0, error: ErrNo::ENOMEM.spec_code() })
                &&& outcome.mapping is None
                &&& final(tasks)@ == before
            } else {
                let begin = spec_map_begin(task.file_map_end, file_size->0);
                &&& outcome.result == (Result { value: begin, error: 0 })
                &&& outcome.mapping == Some(
                    FileMapping {
                        fd: (fd % 0x1_0000_0000) as i32,
                        vaddr_begin: begin,
                        vaddr_end: task.file_map_end,
                    },
                )
                &&& begin <= task.file_map_end - file_size->0
                &&& begin % 4096 == 0
                &&& final(tasks)@ == before.with_task(
                    before.current->0,
                    TaskView { file_map_end: begin, ..task },
                )
            }
        }),
{
    let descriptor = match as_non_negative(fd) {
        Some(descriptor) => descriptor,
        None => {
            return MapFile { result: Result::from_errno(ErrNo::EBADF), mapping: None };
        },
    };
    let size = match file_size {
        Some(size) => size,
        None => {
            return MapFile { result: Result::from_errno(ErrNo::EBADF), mapping: None };
        },
    };
    let vaddr_end = match tasks.current_task() {
        Some(task) => task.file_map_end(),
        None => 0,
    };
    if size > vaddr_end {
        return MapFile { result: Result::from_errno(ErrNo::ENOMEM), mapping: None };
    }
    let room = vaddr_end - size;
    assert((room & !0xfffu64) <= room && (room & !0xfffu64) % 4096 == 0) by (bit_vector);
    let vaddr_begin = room & !0xfff;
    let _ = tasks.set_file_map_end(vaddr_begin);
    MapFile {
        result: Result::value(vaddr_begin),
        mapping: Some(FileMapping { fd: descriptor, vaddr_begin, vaddr_end }),
    }
}

/// The lowest file descriptor that is free. `used` tells of each
/// descriptor below its length whether a file is open at it; if every one
/// is in use, the result is that length.
pub fn allocate_fd(used: &Vec<bool>) -> (fd: i32)
    requires
        used@.len() <= i32::MAX,
    ensures
        0 <= fd <= used@.len(),
        forall|i: int| 0 <= i < fd ==> used@[i],
        fd < used@.len() ==> !used@[fd as int],
{
    let mut fd: usize = 0;
    while fd < used.len() && used[fd]
        invariant
            fd <= used@.len(),
            forall|i: int| 0 <= i < fd ==> used@[i],
        decreases used@.len() - fd,
    {
        fd = fd + 1;
    }
    fd as i32
}

/// Why an operation on the file system failed.
#[derive(Clone, Copy, PartialEq, Eq, Structural, Debug)]
pub enum Code {
    Full,
    Empty,
    NoEnoughMemory,
    IndexOutOfRange,
    InvalidFormat,
    NoSuchEntry,
    IsDirectory,
    NoSuchTask,
}

/// Whether making a file can fail with `code`.
pub open spec fn create_file_fails_with(code: Code) -> bool {
    code == Code::IsDirectory || code == Code::NoSuchEntry || code == Code::NoEnoughMemory
}

/// The error number for the failure `code` of making a file, which is one
/// of those with which making a file fails.
pub fn create_file(code: Code) -> (errno: ErrNo)
    requires
        create_file_fails_with(code),
    ensures
        errno == (match code {
            Code::IsDirectory => ErrNo::EISDIR,
            Code::NoSuchEntry => ErrNo::ENOENT,
            _ => ErrNo::ENOSPC,
        }),
{
    match code {
        Code::IsDirectory => ErrNo::EISDIR,
        Code::NoSuchEntry => ErrNo::ENOENT,
        _ => ErrNo::ENOSPC,
    }
}

/// The file descriptor that the low 32 bits of `fd` name, read with a
/// sign, if a task with room for `cap` files has a file open at it, which
/// `open` tells: `None` if the descriptor is negative, is `cap` or more, or
/// has no file.
pub open spec fn spec_descriptor(fd: u64, cap: usize, open: bool) -> Option<i32> {
    if fd % 0x1_0000_0000 > i32::MAX || fd % 0x1_0000_0000 >= cap || !open {
        None
    } else {
        Some((fd % 0x1_0000_0000) as i32)
    }
}

/// The file descriptor to which `put_string` writes, `None` if there is no
/// such file; nothing is written then.
pub fn put_string_descriptor(fd: u64, cap: usize, open: bool) -> (descriptor: Option<i32>)
    ensures
        descriptor == spec_descriptor(fd, cap, open),
{
    match as_non_negative(fd) {
        Some(descriptor) => {
            if valid_fd(descriptor, cap) && open {
                Some(descriptor)
            } else {
                None
            }
        },
        None => None,
    }
}

/// The system call by which an application writes to the file `fd`. `cap`
/// is the room of the task for files, `open` tells whether a file is open
/// at the descriptor, and `written` is the outcome of the write to that
/// file: the number of bytes written, or `None` where the memory ran out,
/// the one failure that writing has.
///
/// Fails with `EBADF` if the low 32 bits of `fd`, read with a sign, are
/// negative or `cap` or more, or if no file is open there; `written` is
/// not looked at then. If not, the number of bytes written is the result,
/// or `ENOSPC` where the write failed.
pub fn put_string(fd: u64, cap: usize, open: bool, written: Option<usize>) -> (result: Result)
    ensures
        result == (if spec_descriptor(fd, cap, open) is None {
            Result { value: 0, error: ErrNo::EBADF.spec_code() }
        } else {
            match written {
                Some(len) => Result { value: len as u64, error: 0 },
                None => Result { value: 0, error: ErrNo::ENOSPC.spec_code() },
            }
        }),
{
    if put_string_descriptor(fd, cap, open).is_none() {
        return Result::from_errno(ErrNo::EBADF);
    }
    match written {
        Some(len) => Result::value(len as u64),
        None => Result::from_errno(ErrNo::ENOSPC),
    }
}

/// The system call by which an application reads from the file `fd`.
/// `open` tells whether the task has a file open at the descriptor, and
/// `read` is the number of bytes that reading from that file gave.
///
/// Fails with `EBADF` if the low 32 bits of `fd`, read with a sign, are
/// negative or no file is open there; `read` is not looked at then. If
/// not, the number of bytes read is the result.
pub fn read_file(fd: u64, open: bool, read: usize) -> (result: Result)
    ensures
        result == (if fd % 0x1_0000_0000 > i32::MAX || !open {
            Result { value: 0, error: ErrNo::EBADF.spec_code() }
        } else {
            Result { value: read as u64, error: 0 }
        }),
{
    match as_non_negative(fd) {
        Some(_) => {
            if open {
                Result::value(read as u64)
            } else {
                Result::from_errno(ErrNo::EBADF)
            }
        },
        None => Result::from_errno(ErrNo::EBADF),
    }
}

/// What opening a file comes to, before a descriptor is given out.
#[derive(Clone, Copy, PartialEq, Eq, Structural, Debug)]
pub enum OpenFile {
    /// The path names the standard input, which is the descriptor 0.
    Stdin,
    /// The call fails with this error.
    Failed(ErrNo),
    /// The file exists: it gets the lowest free descriptor.
    Open,
    /// The file does not exist and is to be made; then it gets the lowest
    /// free descriptor, or the call fails as `create_file` says.
    Create,
}

/// The system call by which an application opens a file, as far as it
/// decides. `stdin` tells whether the path is that of the standard input;
/// `found` tells whether the path names an entry and, if so, whether that
/// is a directory; `trailing_slash` tells whether the path goes on behind
/// the entry that was found; `creat` tells whether the flags ask for the
/// file to be made.
///
/// The standard input is open already. An entry that is no directory
/// cannot have a path that goes on behind it: `ENOENT`. A file that does
/// not exist is made if the flags ask for it, and is an error, `ENOENT`,
/// if not.
pub fn open_file(stdin: bool, found: Option<bool>, trailing_slash: bool, creat: bool) -> (step:
    OpenFile)
    ensures
        step == (if stdin {
            OpenFile::Stdin
        } else {
            match found {
                Some(directory) => if !directory && trailing_slash {
                    OpenFile::Failed(ErrNo::ENOENT)
                } else {
                    OpenFile::Open
                },
                None => if creat {
                    OpenFile::Create
                } else {
                    OpenFile::Failed(ErrNo::ENOENT)
                },
            }
        }),
{
    if stdin {
        return OpenFile::Stdin;
    }
    match found {
        Some(directory) => {
            if !directory && trailing_slash {
                OpenFile::Failed(ErrNo::ENOENT)
            } else {
                OpenFile::Open
            }
        },
        None => {
            if creat {
                OpenFile::Create
            } else {
                OpenFile::Failed(ErrNo::ENOENT)
            }
        },
    }
}

/// Whether `fd` can be a file descriptor of a task with room for `cap`
/// files.
pub fn valid_fd(fd: i32, cap: usize) -> (valid: bool)
    ensures
        valid == (0 <= fd && fd < cap),
{
    fd >= 0 && (fd as usize) < cap
}

/// The layer that a window system call speaks of, and its flags.
#[derive(Clone, Copy, PartialEq, Eq, Structural, Debug)]
pub struct LayerTarget {
    pub layer_id: u32,
    pub flags: u32,
}

impl LayerTarget {
    /// Whether the layer is drawn again after the call: unless bit 0 of
    /// the flags is set.
    pub open spec fn spec_redraws(self) -> bool {
        self.flags % 2 == 0
    }

    /// Whether the layer is drawn again after the call.
    pub fn redraws(&self) -> (redraw: bool)
        ensures
            redraw == self.spec_redraws(),
    {
        proof {
            lemma_lowest_bit(self.flags);
        }
        !self.flags.get_bit(0)
    }
}

/// The layer in the low half of `layer_id_flags`, and the flags in its
/// high half.
pub fn layer_target(layer_id_flags: u64) -> (target: LayerTarget)
    ensures
        target.layer_id == layer_id_flags % 0x1_0000_0000,
        target.flags == layer_id_flags / 0x1_0000_0000,
{
    LayerTarget { layer_id: low_half(layer_id_flags), flags: high_half(layer_id_flags) }
}

/// What a window system call came to.
#[derive(Clone, Copy, PartialEq, Eq, Structural, Debug)]
pub struct WinOutcome {
    /// The result for the application.
    pub result: Result,
    /// The layer to draw again, if any.
    pub redraw: Option<u32>,
}

/// The end of a window system call. `worked` is the result of what the call
/// did to the window of the layer, `None` if there is no such layer. The
/// call fails with `EBADF` if there is none, and with the failure of the
/// work if that failed; if it succeeded, the layer is drawn again unless the
/// flags say not to.
pub fn do_win_func(worked: Option<Result>, layer_id_flags: u64) -> (outcome: WinOutcome)
    ensures
        outcome == (match worked {
            None => WinOutcome {
                result: Result { value: 0, error: ErrNo::EBADF.spec_code() },
                redraw: None,
            },
            Some(result) => WinOutcome {
                result,
                redraw: if result.error == 0 && (layer_id_flags / 0x1_0000_0000) % 2 == 0 {
                    Some((layer_id_flags % 0x1_0000_0000) as u32)
                } else {
                    None
                },
            },
        }),
{
    let target = layer_target(layer_id_flags);
    match worked {
        None => WinOutcome { result: Result::from_errno(ErrNo::EBADF), redraw: None },
        Some(result) => {
            if result.error != 0 {
                return WinOutcome { result, redraw: None };
            }
            let redraw = if target.redraws() {
                Some(target.layer_id)
            } else {
                None
            };
            WinOutcome { result, redraw }
        },
    }
}

} // verus!
