use mikan_os::errno::ErrNo;
use mikan_os::graphics::Vector2D;
use mikan_os::kernel::Kernel;
use mikan_os::message::{LayerOperation, Message, MessageType};
use mikan_os::scheduler::TaskManager;
use mikan_os::sync::{LockStep, Mutex};
use mikan_os::syscall::{
    allocate_fd, app_event, as_non_negative, create_file, create_timer, create_timer_wait,
    demand_pages, get_current_tick_wait,
    do_win_func, exit, get_current_tick, high_half, init, layer_target, log_string, low_half,
    map_file, open_file, put_string, put_string_descriptor, read_event, read_file, valid_fd,
    AppEvent, Code, FileMapping, LogLevel, LogString, MsrWrite, OpenFile, ReadEvent, Result,
    WinOutcome, IA32_EFER, IA32_FMASK, IA32_LSTAR, IA32_STAR, USER_SPACE_START,
};
use mikan_os::task::{Dispatch, TaskConfig, TaskState};
use mikan_os::timer::{Timer, TimerManager};

fn tasks() -> TaskManager {
    TaskManager::new(TaskConfig {
        message_capacity: 8,
        max_tasks: 8,
        stack_base: 0x10_0000,
        cr3: 0,
    })
    .unwrap()
}

fn kernel(limit: usize) -> Kernel {
    Kernel::new(
        TaskConfig { message_capacity: 8, max_tasks: 8, stack_base: 0x10_0000, cr3: 0 },
        limit,
    )
    .unwrap()
}

fn key(keycode: u8, modifier: u8) -> Message {
    Message::new(MessageType::KeyPush { modifier, keycode, ascii: b'q', press: true }, 0)
}

fn events(outcome: ReadEvent) -> Vec<AppEvent> {
    match outcome {
        ReadEvent::Events(list) => list,
        ReadEvent::Fault => panic!("fault"),
        ReadEvent::Blocked(dispatch) => panic!("blocked: {:?}", dispatch),
    }
}

#[test]
fn results_carry_a_value_or_an_error() {
    assert_eq!(Result::new(5, 7), Result { value: 5, error: 7 });
    assert_eq!(Result::value(9), Result { value: 9, error: 0 });
    assert_eq!(Result::error(3), Result { value: 0, error: 3 });
    assert_eq!(Result::from_errno(ErrNo::EBADF), Result { value: 0, error: 9 });
}

#[test]
fn every_error_has_its_number() {
    let numbers: Vec<i32> = [
        ErrNo::EPERM,
        ErrNo::ENOENT,
        ErrNo::EBADF,
        ErrNo::ENOMEM,
        ErrNo::EFAULT,
        ErrNo::EISDIR,
        ErrNo::EINVAL,
        ErrNo::ENOSPC,
    ]
    .iter()
    .map(|e| e.code())
    .collect();
    assert_eq!(numbers, vec![1, 2, 9, 12, 14, 21, 22, 28]);
}

#[test]
fn init_lists_the_register_writes() {
    let writes = init(0xffff_8000_0010_0000);
    assert_eq!(
        writes,
        [
            MsrWrite { register: IA32_EFER, value: 0x0501 },
            MsrWrite { register: IA32_LSTAR, value: 0xffff_8000_0010_0000 },
            MsrWrite { register: IA32_STAR, value: (8 << 32) | ((16 | 3) << 48) },
            MsrWrite { register: IA32_FMASK, value: 0 },
        ]
    );
    assert_eq!(
        [IA32_EFER, IA32_STAR, IA32_LSTAR, IA32_FMASK],
        [0xc000_0080, 0xc000_0081, 0xc000_0082, 0xc000_0084]
    );
}

#[test]
fn halves_of_an_argument() {
    assert_eq!(low_half(0x1234_5678_9abc_def0), 0x9abc_def0);
    assert_eq!(high_half(0x1234_5678_9abc_def0), 0x1234_5678);
    assert_eq!(as_non_negative(0xffff_ffff_0000_0007), Some(7));
    assert_eq!(as_non_negative(0x7fff_ffff), Some(i32::MAX));
    assert_eq!(as_non_negative(0x8000_0000), None);
    assert_eq!(as_non_negative(u64::MAX), None);
}

#[test]
fn messages_become_events() {
    assert_eq!(
        app_event(&key(4, 0)),
        Some(AppEvent::KeyPush { modifier: 0, keycode: 4, ascii: b'q', press: true })
    );
    assert_eq!(
        app_event(&key(20, 0b10)),
        Some(AppEvent::KeyPush { modifier: 0b10, keycode: 20, ascii: b'q', press: true })
    );
    assert_eq!(app_event(&key(20, 0b1)), Some(AppEvent::Quit));
    assert_eq!(app_event(&key(20, 0b1_0000)), Some(AppEvent::Quit));
    assert_eq!(
        app_event(&Message::new(
            MessageType::MouseMove { x: 1, y: 2, dx: -3, dy: 4, buttons: 5 },
            0
        )),
        Some(AppEvent::MouseMove { x: 1, y: 2, dx: -3, dy: 4, buttons: 5 })
    );
    assert_eq!(
        app_event(&Message::new(
            MessageType::MouseButton { x: 1, y: 2, press: true, button: 1 },
            0
        )),
        Some(AppEvent::MouseButton { x: 1, y: 2, press: true, button: 1 })
    );
    assert_eq!(
        app_event(&Message::new(MessageType::TimerTimeout { timeout: 30, value: -4 }, 0)),
        Some(AppEvent::Timer { timeout: 30, value: 4 })
    );
    assert_eq!(
        app_event(&Message::new(MessageType::TimerTimeout { timeout: 30, value: i32::MIN }, 0)),
        Some(AppEvent::Timer { timeout: 30, value: i32::MIN })
    );
    assert_eq!(
        app_event(&Message::new(MessageType::TimerTimeout { timeout: 30, value: 0 }, 0)),
        None
    );
    assert_eq!(
        app_event(&Message::new(MessageType::WindowClose { layer_id: 3 }, 0)),
        Some(AppEvent::Quit)
    );
    assert_eq!(app_event(&Message::new(MessageType::InterruptXHCI, 0)), None);
    assert_eq!(app_event(&Message::new(MessageType::LayerFinish, 0)), None);
    assert_eq!(
        app_event(&Message::new(
            MessageType::Layer {
                op: LayerOperation::Draw,
                layer_id: 1,
                pos: Vector2D::new(0, 0),
                size: Vector2D::new(0, 0),
            },
            0
        )),
        None
    );
}

#[test]
fn read_event_rejects_kernel_addresses() {
    let mut tasks = tasks();
    tasks.send_message(1, key(4, 0)).unwrap();
    assert!(matches!(read_event(&mut tasks, USER_SPACE_START - 1, 4), ReadEvent::Fault));
    assert!(matches!(read_event(&mut tasks, 0, 4), ReadEvent::Fault));
    assert_eq!(tasks.current_task().unwrap().pending_messages(), 1);
}

#[test]
fn read_event_takes_events_in_order_and_drops_the_rest() {
    let mut tasks = tasks();
    let sent = [
        Message::new(MessageType::InterruptXHCI, 0),
        key(4, 0),
        Message::new(MessageType::TimerTimeout { timeout: 9, value: 3 }, 0),
        Message::new(MessageType::TimerTimeout { timeout: 9, value: -3 }, 0),
        Message::new(MessageType::WindowClose { layer_id: 1 }, 0),
        key(5, 0),
    ];
    for message in sent {
        tasks.send_message(1, message).unwrap();
    }
    let first = events(read_event(&mut tasks, USER_SPACE_START, 2));
    assert_eq!(
        first,
        vec![
            AppEvent::KeyPush { modifier: 0, keycode: 4, ascii: b'q', press: true },
            AppEvent::Timer { timeout: 9, value: 3 },
        ]
    );
    assert_eq!(tasks.current_task().unwrap().pending_messages(), 2);
    let second = events(read_event(&mut tasks, USER_SPACE_START, 5));
    assert_eq!(
        second,
        vec![
            AppEvent::Quit,
            AppEvent::KeyPush { modifier: 0, keycode: 5, ascii: b'q', press: true },
        ]
    );
    assert_eq!(tasks.current_task().unwrap().pending_messages(), 0);
}

#[test]
fn read_event_sleeps_when_no_event_waits() {
    let mut tasks = tasks();
    let other = tasks.new_task().unwrap().id();
    tasks.wake_up(other, 1).unwrap();
    tasks.send_message(1, Message::new(MessageType::LayerFinish, other)).unwrap();
    match read_event(&mut tasks, USER_SPACE_START, 3) {
        ReadEvent::Blocked(dispatch) => {
            assert_eq!(dispatch, Dispatch::Switch { from: Some(1), to: other })
        }
        _ => panic!("the task should sleep"),
    }
    assert_eq!(tasks.task(1).unwrap().state(), TaskState::Sleeping);
    assert_eq!(tasks.task(1).unwrap().pending_messages(), 0);
}

#[test]
fn read_event_with_no_room_returns_at_once() {
    let mut tasks = tasks();
    tasks.send_message(1, key(4, 0)).unwrap();
    assert_eq!(events(read_event(&mut tasks, USER_SPACE_START, 0)), vec![]);
    assert_eq!(tasks.current_id(), Some(1));
    assert_eq!(tasks.current_task().unwrap().pending_messages(), 1);
}

#[test]
fn create_timer_counts_milliseconds_in_ticks() {
    let mut kernel = kernel(8);
    kernel.timer_interrupt();
    assert_eq!(kernel.timers.current_tick(), 1);
    assert_eq!(create_timer(&mut kernel, 0, 5, 250), Result::value(250));
    assert_eq!(create_timer(&mut kernel, 1, 6, 250), Result::value(260));
    assert_eq!(create_timer(&mut kernel, 0, 7, 1234), Result::value(1230));
    assert_eq!(create_timer(&mut kernel, 0xffff_ffff_0000_0000, 1, 9), Result::value(0));
    let mine: Vec<Timer> =
        kernel.timers.timers.iter().copied().filter(|t| !t.is_task_timer()).collect();
    assert_eq!(
        mine,
        vec![
            Timer::new(0, -1, 1),
            Timer::new(25, -5, 1),
            Timer::new(26, -6, 1),
            Timer::new(123, -7, 1),
        ]
    );
}

#[test]
fn create_timer_rejects_bad_requests() {
    let mut kernel = kernel(2);
    let einval = Result::from_errno(ErrNo::EINVAL);
    assert_eq!(create_timer(&mut kernel, 0, 0, 10), einval);
    assert_eq!(create_timer(&mut kernel, 1, 0xffff_ffff_0000_0000, 10), einval);
    assert_eq!(create_timer(&mut kernel, 0, 0x8000_0000, 10), einval);
    assert_eq!(create_timer(&mut kernel, 0, u64::MAX, 10), einval);
    assert_eq!(create_timer(&mut kernel, 0, 1, u64::MAX / 100 + 1), einval);
    assert_eq!(create_timer(&mut kernel, 0, 1, u64::MAX), einval);
    assert_eq!(kernel.timers.len(), 1);
    let most = u64::MAX / 100;
    assert_eq!(create_timer(&mut kernel, 0, 1, most), Result::value(most / 10 * 10));
    assert_eq!(kernel.timers.timers[1], Timer::new(most / 10, -1, 1));
    assert_eq!(create_timer(&mut kernel, 0, 1, 10), Result::from_errno(ErrNo::ENOMEM));
    assert_eq!(kernel.timers.len(), 2);
}

#[test]
fn get_current_tick_tells_the_tick_and_the_frequency() {
    let mut timers = TimerManager::new(1);
    timers.tick();
    timers.tick();
    assert_eq!(get_current_tick(&timers), Result { value: 2, error: 100 });
}

#[test]
fn exit_hands_back_the_stack_pointer_and_the_code() {
    let mut tasks = tasks();
    assert_eq!(exit(&tasks, 3), Result { value: 0, error: 3 });
    assert_eq!(exit(&tasks, u64::MAX), Result { value: 0, error: -1 });
    assert_eq!(exit(&tasks, 0x1_8000_0000), Result { value: 0, error: i32::MIN });
    let next = tasks.new_task().unwrap().id();
    tasks.wake_up(next, 1).unwrap();
    tasks.exit(1, 0xbeef);
    tasks.exit(2, 0xf00d);
    assert_eq!(tasks.task(next).unwrap().os_stack_ptr(), 0xf00d);
    assert_eq!(tasks.task(1).unwrap().os_stack_ptr(), 0xbeef);
}

#[test]
fn demand_pages_moves_the_end_up() {
    let mut tasks = tasks();
    tasks.set_dpaging_end(0x4000_0000);
    assert_eq!(demand_pages(&mut tasks, 3), Result::value(0x4000_0000));
    assert_eq!(tasks.current_task().unwrap().dpaging_end(), 0x4000_3000);
    assert_eq!(demand_pages(&mut tasks, 0), Result::value(0x4000_3000));
    assert_eq!(demand_pages(&mut tasks, u64::MAX / 4096), Result::from_errno(ErrNo::ENOMEM));
    assert_eq!(tasks.current_task().unwrap().dpaging_end(), 0x4000_3000);
}

#[test]
fn map_file_maps_below_the_lowest_mapping() {
    let mut tasks = tasks();
    tasks.set_file_map_end(0xffff_ffff_ffff_e000);
    let first = map_file(&mut tasks, 3, Some(0x1234));
    assert_eq!(first.result, Result::value(0xffff_ffff_ffff_c000));
    assert_eq!(
        first.mapping,
        Some(FileMapping {
            fd: 3,
            vaddr_begin: 0xffff_ffff_ffff_c000,
            vaddr_end: 0xffff_ffff_ffff_e000,
        })
    );
    let second = map_file(&mut tasks, 4, Some(0x1000));
    assert_eq!(second.result, Result::value(0xffff_ffff_ffff_b000));
    assert_eq!(tasks.current_task().unwrap().file_map_end(), 0xffff_ffff_ffff_b000);
}

#[test]
fn map_file_rejects_bad_requests() {
    let mut tasks = tasks();
    tasks.set_file_map_end(0x2000);
    let ebadf = Result::from_errno(ErrNo::EBADF);
    assert_eq!(map_file(&mut tasks, 0x8000_0000, Some(1)).result, ebadf);
    assert_eq!(map_file(&mut tasks, 3, None).result, ebadf);
    let too_large = map_file(&mut tasks, 3, Some(0x2001));
    assert_eq!(too_large.result, Result::from_errno(ErrNo::ENOMEM));
    assert_eq!(too_large.mapping, None);
    assert_eq!(tasks.current_task().unwrap().file_map_end(), 0x2000);
    assert_eq!(map_file(&mut tasks, 3, Some(0x2000)).result, Result::value(0));
}

#[test]
fn allocate_fd_finds_the_lowest_free_descriptor() {
    assert_eq!(allocate_fd(&vec![]), 0);
    assert_eq!(allocate_fd(&vec![false, true]), 0);
    assert_eq!(allocate_fd(&vec![true, true, false, true, false]), 2);
    assert_eq!(allocate_fd(&vec![true, true, true]), 3);
}

#[test]
fn file_descriptors_are_checked() {
    assert!(valid_fd(0, 1));
    assert!(valid_fd(15, 16));
    assert!(!valid_fd(16, 16));
    assert!(!valid_fd(-1, 16));
    assert!(!valid_fd(0, 0));
}

#[test]
fn failures_of_the_file_system_have_error_numbers() {
    assert_eq!(create_file(Code::IsDirectory), ErrNo::EISDIR);
    assert_eq!(create_file(Code::NoSuchEntry), ErrNo::ENOENT);
    assert_eq!(create_file(Code::NoEnoughMemory), ErrNo::ENOSPC);
}

#[test]
fn put_string_checks_the_descriptor_before_the_outcome() {
    let ebadf = Result::from_errno(ErrNo::EBADF);
    assert_eq!(put_string(1, 16, true, Some(12)), Result::value(12));
    assert_eq!(put_string(0xffff_ffff_0000_0001, 16, true, Some(0)), Result::value(0));
    assert_eq!(put_string(1, 16, true, None), Result::from_errno(ErrNo::ENOSPC));
    assert_eq!(put_string(0x8000_0000, 16, true, Some(12)), ebadf);
    assert_eq!(put_string(u64::MAX, 16, true, Some(12)), ebadf);
    assert_eq!(put_string(16, 16, true, Some(12)), ebadf);
    assert_eq!(put_string(0, 0, true, Some(12)), ebadf);
    assert_eq!(put_string(15, 16, false, Some(12)), ebadf);
    assert_eq!(put_string(15, 16, false, None), ebadf);
    assert_eq!(put_string_descriptor(15, 16, true), Some(15));
    assert_eq!(put_string_descriptor(16, 16, true), None);
    assert_eq!(put_string_descriptor(3, 16, false), None);
    assert_eq!(put_string_descriptor(0x8000_0003, 16, true), None);
}

#[test]
fn read_file_needs_an_open_descriptor() {
    let ebadf = Result::from_errno(ErrNo::EBADF);
    assert_eq!(read_file(3, true, 256), Result::value(256));
    assert_eq!(read_file(3, true, 0), Result::value(0));
    assert_eq!(read_file(0x1_0000_0003, true, 7), Result::value(7));
    assert_eq!(read_file(3, false, 256), ebadf);
    assert_eq!(read_file(0x8000_0000, true, 256), ebadf);
    assert_eq!(read_file(u64::MAX, true, 256), ebadf);
}

#[test]
fn open_file_decides_by_what_was_found() {
    let enoent = OpenFile::Failed(ErrNo::ENOENT);
    assert_eq!(open_file(true, None, false, false), OpenFile::Stdin);
    assert_eq!(open_file(true, Some(false), true, true), OpenFile::Stdin);
    assert_eq!(open_file(false, Some(false), false, false), OpenFile::Open);
    assert_eq!(open_file(false, Some(false), true, true), enoent);
    assert_eq!(open_file(false, Some(true), true, false), OpenFile::Open);
    assert_eq!(open_file(false, Some(true), false, true), OpenFile::Open);
    assert_eq!(open_file(false, None, false, true), OpenFile::Create);
    assert_eq!(open_file(false, None, true, true), OpenFile::Create);
    assert_eq!(open_file(false, None, false, false), enoent);
}

#[test]
fn a_timer_of_an_application_reaches_it_with_its_number() {
    let mut kernel = kernel(8);
    assert_eq!(create_timer(&mut kernel, 0, 42, 10), Result::value(10));
    let added = kernel.timers.timers[0];
    assert_eq!(added, Timer::new(1, -42, 1));
    assert!(added.value() < 0);
    let outcome = kernel.timer_interrupt();
    assert!(outcome.undelivered.is_empty());
    assert_eq!(
        events(read_event(&mut kernel.tasks, USER_SPACE_START, 4)),
        vec![AppEvent::Timer { timeout: 1, value: 42 }]
    );
}

#[test]
fn window_calls_redraw_unless_told_not_to() {
    let target = layer_target(0x0000_0001_0000_0007);
    assert_eq!((target.layer_id, target.flags), (7, 1));
    assert!(!target.redraws());
    assert!(layer_target(7).redraws());
    assert!(layer_target(0x0000_0002_0000_0007).redraws());
    let ok = Result::value(0);
    assert_eq!(do_win_func(Some(ok), 7), WinOutcome { result: ok, redraw: Some(7) });
    assert_eq!(
        do_win_func(Some(ok), 0x0000_0001_0000_0007),
        WinOutcome { result: ok, redraw: None }
    );
    let failed = Result::from_errno(ErrNo::EINVAL);
    assert_eq!(do_win_func(Some(failed), 7), WinOutcome { result: failed, redraw: None });
    assert_eq!(
        do_win_func(None, 7),
        WinOutcome { result: Result::from_errno(ErrNo::EBADF), redraw: None }
    );
}

#[test]
fn log_string_checks_the_level_and_the_text() {
    let eperm = LogString { result: Result::from_errno(ErrNo::EPERM), level: None };
    assert_eq!(log_string(0, Some(3)), eperm);
    assert_eq!(log_string(5, Some(3)), eperm);
    assert_eq!(log_string(8, None), eperm);
    assert_eq!(
        log_string(3, None),
        LogString { result: Result::from_errno(ErrNo::EINVAL), level: None }
    );
    assert_eq!(
        log_string(6, Some(11)),
        LogString { result: Result::value(11), level: Some(LogLevel::Info) }
    );
    assert_eq!(LogLevel::from_number(3), Some(LogLevel::Error));
    assert_eq!(LogLevel::from_number(4), Some(LogLevel::Warn));
    assert_eq!(LogLevel::from_number(7), Some(LogLevel::Debug));
}

#[test]
fn timers_set_by_an_application_arrive_in_the_order_of_expiry() {
    let mut kernel = kernel(8);
    assert_eq!(create_timer(&mut kernel, 0, 1, 50), Result::value(50));
    assert_eq!(create_timer(&mut kernel, 0, 2, 30), Result::value(30));
    assert_eq!(create_timer(&mut kernel, 0, 3, 80), Result::value(80));
    while kernel.timers.current_tick() < 10 {
        assert!(kernel.timer_interrupt().undelivered.is_empty());
    }
    assert_eq!(
        events(read_event(&mut kernel.tasks, USER_SPACE_START, 8)),
        vec![
            AppEvent::Timer { timeout: 3, value: 2 },
            AppEvent::Timer { timeout: 5, value: 1 },
            AppEvent::Timer { timeout: 8, value: 3 },
        ]
    );
    assert!(kernel.timers.timers.iter().all(|timer| timer.is_task_timer()));
}

#[test]
fn two_timers_at_one_tick_do_not_queue_a_ready_task_twice() {
    let mut kernel = kernel(8);
    let other = kernel.tasks.new_task().unwrap().id();
    kernel.tasks.wake_up(other, 2).unwrap();
    kernel.tasks.sleep();
    assert_eq!(kernel.tasks.current_id(), Some(other));
    assert_eq!(create_timer(&mut kernel, 0, 7, 10), Result::value(10));
    assert_eq!(create_timer(&mut kernel, 0, 8, 10), Result::value(10));
    kernel.tasks.wake_up(1, 1).unwrap();
    assert_eq!(kernel.tasks.wake_up(other, 0), Ok(Dispatch::Continue));
    assert_eq!(kernel.tasks.schedule_tick(), Dispatch::Switch { from: Some(other), to: 1 });
    let outcome = kernel.timer_interrupt();
    assert!(outcome.undelivered.is_empty());
    let entries: usize =
        kernel.tasks.queues.iter().map(|q| q.iter().filter(|t| **t == other).count()).sum();
    assert_eq!(entries, 1);
    let task = kernel.tasks.task(other).unwrap();
    assert_eq!(task.state(), TaskState::Ready);
    assert_eq!(task.level(), 0);
    assert_eq!(task.pending_messages(), 2);
}

#[test]
fn a_timer_is_set_under_the_lock_of_the_kernel() {
    let mut lock = Mutex::new(kernel(8));
    match create_timer_wait(&mut lock, 1, 0, 5, 250) {
        LockStep::Acquired(done) => {
            assert_eq!(done.result, Result::value(250));
            assert_eq!(done.wake, None);
        }
        LockStep::Wait => panic!("the lock was free"),
    }
    assert!(!lock.locked());
    let guard = lock.lock().unwrap();
    assert_eq!(guard.get().timers.timers[1], Timer::new(25, -5, 1));
    assert!(matches!(create_timer_wait(&mut lock, 2, 0, 6, 250), LockStep::Wait));
    assert!(matches!(get_current_tick_wait(&mut lock, 3), LockStep::Wait));
    assert_eq!(guard.get().timers.len(), 2);
    assert_eq!(lock.unlock(guard), Some(2));
    match get_current_tick_wait(&mut lock, 2) {
        LockStep::Acquired(done) => {
            assert_eq!(done.result, Result { value: 0, error: 100 });
            assert_eq!(done.wake, Some(3));
        }
        LockStep::Wait => panic!("the lock was free"),
    }
    assert!(!lock.locked());
}
