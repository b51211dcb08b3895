use mikan_os::message::{Message, MessageType, TaskId};
use mikan_os::scheduler::TaskManager;
use mikan_os::task::{
    Dispatch, TaskConfig, TaskContext, TaskError, TaskState, DEFAULT_LEVEL, INITIAL_RFLAGS,
    KERNEL_CS, KERNEL_SS, MAX_LEVEL, STACK_BYTES,
};

fn config(capacity: usize) -> TaskConfig {
    TaskConfig { message_capacity: capacity, max_tasks: 16, stack_base: 0x10_0000, cr3: 0x7000 }
}

fn manager(capacity: usize) -> TaskManager {
    TaskManager::new(config(capacity)).unwrap()
}

fn create(tasks: &mut TaskManager, level: i32) -> TaskId {
    let builder = tasks.new_task().unwrap();
    let id = builder.id();
    builder.wake_up(tasks, level);
    id
}

fn queue(tasks: &TaskManager, level: usize) -> Vec<TaskId> {
    tasks.queues[level].iter().copied().collect()
}

fn occurrences(tasks: &TaskManager, id: TaskId) -> usize {
    tasks.queues.iter().map(|q| q.iter().filter(|t| **t == id).count()).sum()
}

fn state(tasks: &TaskManager, id: TaskId) -> TaskState {
    tasks.task(id).unwrap().state()
}

fn key(code: u8, from: TaskId) -> Message {
    Message::new(
        MessageType::KeyPush { modifier: 0, keycode: code, ascii: code, press: true },
        from,
    )
}

fn check_membership(tasks: &TaskManager) {
    for id in 0..tasks.tasks.len() as TaskId {
        let expected = match tasks.task(id) {
            Some(task) if task.state() == TaskState::Ready => 1,
            _ => 0,
        };
        assert_eq!(occurrences(tasks, id), expected);
        if let Some(task) = tasks.task(id) {
            if task.state() == TaskState::Ready {
                assert!(queue(tasks, task.level()).contains(&id));
            }
            assert_eq!(task.state() == TaskState::Running, tasks.current_id() == Some(id));
        }
    }
}

#[test]
fn a_new_manager_runs_the_main_task_at_the_top_level() {
    let tasks = manager(4);
    assert_eq!(tasks.current_id(), Some(1));
    let main = tasks.current_task().unwrap();
    assert_eq!(main.id(), 1);
    assert_eq!(main.level(), MAX_LEVEL);
    assert_eq!(main.state(), TaskState::Running);
    assert_eq!(main.pending_messages(), 0);
    assert!(tasks.task(0).is_none());
    for level in 0..=MAX_LEVEL {
        assert_eq!(tasks.ready_count(level), 0);
    }
    check_membership(&tasks);
}

#[test]
fn a_manager_needs_a_sound_configuration() {
    assert!(TaskManager::new(TaskConfig { max_tasks: 1, ..config(4) }).is_none());
    assert!(TaskManager::new(TaskConfig { stack_base: u64::MAX - 10, ..config(4) }).is_none());
    let room = (u64::MAX - 0x1000) / STACK_BYTES;
    let fits = TaskConfig { stack_base: 0x1000, max_tasks: room as usize, ..config(4) };
    assert!(TaskManager::new(fits).is_some());
    let over = TaskConfig { stack_base: 0x1000, max_tasks: room as usize + 1, ..config(4) };
    assert!(TaskManager::new(over).is_none());
}

#[test]
fn new_tasks_get_rising_identifiers_and_sleep() {
    let mut tasks = manager(4);
    let a = tasks.new_task().unwrap().id();
    let b = tasks.new_task().unwrap().id();
    assert_eq!((a, b), (2, 3));
    for id in [a, b] {
        let task = tasks.task(id).unwrap();
        assert_eq!(task.state(), TaskState::Sleeping);
        assert_eq!(task.level(), DEFAULT_LEVEL);
        assert_eq!(task.context(), TaskContext::zeroed());
    }
    assert_eq!(occurrences(&tasks, a), 0);
    check_membership(&tasks);
}

#[test]
fn new_task_fails_when_identifiers_run_out() {
    let mut tasks = TaskManager::new(TaskConfig { max_tasks: 3, ..config(4) }).unwrap();
    assert!(tasks.new_task().is_some());
    assert!(tasks.new_task().is_none());
    assert_eq!(tasks.tasks.len(), 3);
}

#[test]
fn init_context_starts_the_entry_on_the_stack_of_the_task() {
    let mut tasks = manager(4);
    let builder = tasks.new_task().unwrap().init_context(&mut tasks, 0xdead_beef, 11, 22);
    let id = builder.id();
    let context = tasks.task(id).unwrap().context();
    let stack_end = 0x10_0000 + (id + 1) * STACK_BYTES;
    assert_eq!(context.rip, 0xdead_beef);
    assert_eq!(context.rdi, 11);
    assert_eq!(context.rsi, 22);
    assert_eq!(context.rsp, stack_end - 8);
    assert_eq!(context.rsp % 16, 8);
    assert_eq!(context.cr3, 0x7000);
    assert_eq!(context.rflags, INITIAL_RFLAGS);
    assert_eq!(context.cs, KERNEL_CS);
    assert_eq!(context.ss, KERNEL_SS);
    assert_eq!(context.rax, 0);
    assert_eq!(tasks.init_context(99, 1, 2, 3), Err(TaskError::NoSuchTask));
}

#[test]
fn unaligned_stack_ends_are_rounded_down() {
    let context = TaskContext::initial(1, 2, 3, 0x1007, 4);
    assert_eq!(context.rsp, 0x1000 - 8);
}

#[test]
fn waking_a_task_of_a_lower_level_does_not_preempt() {
    let mut tasks = manager(4);
    let id = tasks.new_task().unwrap().id();
    assert_eq!(tasks.wake_up(id, 2), Ok(Dispatch::Continue));
    assert_eq!(state(&tasks, id), TaskState::Ready);
    assert_eq!(tasks.task(id).unwrap().level(), 2);
    assert_eq!(queue(&tasks, 2), vec![id]);
    assert_eq!(tasks.current_id(), Some(1));
    check_membership(&tasks);
}

#[test]
fn waking_with_a_negative_level_keeps_the_level() {
    let mut tasks = manager(4);
    let id = create(&mut tasks, -1);
    assert_eq!(tasks.task(id).unwrap().level(), DEFAULT_LEVEL);
    assert_eq!(queue(&tasks, DEFAULT_LEVEL), vec![id]);
}

#[test]
fn waking_an_unknown_task_is_a_lookup_failure() {
    let mut tasks = manager(4);
    assert_eq!(tasks.wake_up(0, 1), Err(TaskError::NoSuchTask));
    assert_eq!(tasks.wake_up(42, 1), Err(TaskError::NoSuchTask));
    assert_eq!(tasks.wake_up(u64::MAX, -1), Err(TaskError::NoSuchTask));
    check_membership(&tasks);
}

#[test]
fn waking_a_ready_task_does_not_duplicate_its_entry() {
    let mut tasks = manager(4);
    let id = create(&mut tasks, 1);
    let other = create(&mut tasks, 1);
    for level in [-1, 1, 1, -1] {
        assert_eq!(tasks.wake_up(id, level), Ok(Dispatch::Continue));
        assert_eq!(queue(&tasks, 1), vec![id, other]);
        assert_eq!(occurrences(&tasks, id), 1);
    }
    check_membership(&tasks);
}

#[test]
fn waking_a_ready_task_at_another_level_moves_it() {
    let mut tasks = manager(4);
    let a = create(&mut tasks, 1);
    let b = create(&mut tasks, 1);
    let c = create(&mut tasks, 2);
    assert_eq!(tasks.wake_up(a, 2), Ok(Dispatch::Continue));
    assert_eq!(queue(&tasks, 1), vec![b]);
    assert_eq!(queue(&tasks, 2), vec![c, a]);
    assert_eq!(tasks.task(a).unwrap().level(), 2);
    assert_eq!(occurrences(&tasks, a), 1);
    check_membership(&tasks);
}

#[test]
fn waking_the_running_task_only_changes_its_level() {
    let mut tasks = manager(4);
    let other = create(&mut tasks, 2);
    assert_eq!(tasks.wake_up(1, 0), Ok(Dispatch::Continue));
    assert_eq!(tasks.current_id(), Some(1));
    assert_eq!(tasks.current_task().unwrap().level(), 0);
    assert_eq!(occurrences(&tasks, 1), 0);
    assert_eq!(queue(&tasks, 2), vec![other]);
    check_membership(&tasks);
    assert_eq!(tasks.schedule_tick(), Dispatch::Switch { from: Some(1), to: other });
    assert_eq!(queue(&tasks, 0), vec![1]);
    check_membership(&tasks);
}

#[test]
fn a_higher_level_preempts_at_once() {
    let mut tasks = manager(4);
    tasks.wake_up(1, 1).unwrap();
    let high = tasks.new_task().unwrap().id();
    assert_eq!(tasks.wake_up(high, 2), Ok(Dispatch::Switch { from: Some(1), to: high }));
    assert_eq!(tasks.current_id(), Some(high));
    assert_eq!(state(&tasks, high), TaskState::Running);
    assert_eq!(state(&tasks, 1), TaskState::Ready);
    assert_eq!(queue(&tasks, 1), vec![1]);
    assert_eq!(queue(&tasks, 2), Vec::<TaskId>::new());
    check_membership(&tasks);
}

#[test]
fn the_same_level_does_not_preempt_before_the_tick() {
    let mut tasks = manager(4);
    let other = tasks.new_task().unwrap().id();
    assert_eq!(tasks.wake_up(other, MAX_LEVEL as i32), Ok(Dispatch::Continue));
    assert_eq!(tasks.current_id(), Some(1));
    assert_eq!(tasks.schedule_tick(), Dispatch::Switch { from: Some(1), to: other });
    assert_eq!(queue(&tasks, MAX_LEVEL), vec![1]);
}

#[test]
fn a_tick_leaves_the_running_task_if_only_lower_levels_are_ready() {
    let mut tasks = manager(4);
    let low = create(&mut tasks, 0);
    assert_eq!(tasks.schedule_tick(), Dispatch::Continue);
    assert_eq!(tasks.current_id(), Some(1));
    assert_eq!(queue(&tasks, 0), vec![low]);
    assert_eq!(tasks.schedule_tick(), Dispatch::Continue);
    check_membership(&tasks);
}

#[test]
fn three_tasks_of_one_level_run_in_rotation() {
    let mut tasks = manager(4);
    let b = create(&mut tasks, MAX_LEVEL as i32);
    let c = create(&mut tasks, MAX_LEVEL as i32);
    let mut running = vec![tasks.current_id().unwrap()];
    for _ in 0..9 {
        let before = tasks.current_id();
        let dispatch = tasks.schedule_tick();
        let after = tasks.current_id().unwrap();
        assert_eq!(dispatch, Dispatch::Switch { from: before, to: after });
        running.push(after);
        check_membership(&tasks);
    }
    assert_eq!(running, vec![1, b, c, 1, b, c, 1, b, c, 1]);
    for task in [1, b, c] {
        let turns: Vec<usize> =
            running.iter().enumerate().filter(|(_, t)| **t == task).map(|(i, _)| i).collect();
        for pair in turns.windows(2) {
            assert_eq!(pair[1] - pair[0], 3);
            assert!(pair[1] - pair[0] - 1 <= 2 * 2);
        }
    }
}

#[test]
fn sleeping_lets_the_next_task_run() {
    let mut tasks = manager(4);
    let a = create(&mut tasks, 2);
    let b = create(&mut tasks, 1);
    assert_eq!(tasks.sleep(), Dispatch::Switch { from: Some(1), to: a });
    assert_eq!(state(&tasks, 1), TaskState::Sleeping);
    assert_eq!(occurrences(&tasks, 1), 0);
    assert_eq!(tasks.sleep(), Dispatch::Switch { from: Some(a), to: b });
    check_membership(&tasks);
}

#[test]
fn the_processor_halts_when_nothing_is_ready() {
    let mut tasks = manager(4);
    assert_eq!(tasks.sleep(), Dispatch::Halt { task: 1 });
    assert_eq!(tasks.current_id(), None);
    assert!(tasks.current_task().is_none());
    assert_eq!(tasks.sleep(), Dispatch::Continue);
    assert_eq!(tasks.schedule_tick(), Dispatch::Continue);
    assert_eq!(tasks.receive_message(), None);
    check_membership(&tasks);
    assert_eq!(tasks.wake_up(1, -1), Ok(Dispatch::Switch { from: None, to: 1 }));
    assert_eq!(tasks.current_id(), Some(1));
    check_membership(&tasks);
}

#[test]
fn a_sleeping_task_is_woken_by_a_timer_and_preempts() {
    let mut tasks = manager(4);
    let a = tasks.new_task().unwrap().id();
    let b = tasks.new_task().unwrap().id();
    tasks.wake_up(a, 2).unwrap();
    tasks.wake_up(b, 1).unwrap();
    let mut running = Vec::new();
    assert_eq!(tasks.sleep(), Dispatch::Switch { from: Some(1), to: a });
    match tasks.sleep() {
        Dispatch::Switch { to, .. } => running.push(to),
        other => panic!("unexpected {:?}", other),
    }
    let expiry = Message::new(MessageType::TimerTimeout { timeout: 7, value: -1 }, 0);
    match tasks.send_message(a, expiry) {
        Ok(Dispatch::Switch { from, to }) => {
            assert_eq!(from, Some(b));
            running.push(to);
        }
        other => panic!("unexpected {:?}", other),
    }
    assert_eq!(running, vec![b, a]);
    assert_eq!(tasks.task(a).unwrap().level(), 2);
    assert_eq!(state(&tasks, b), TaskState::Ready);
    assert_eq!(tasks.receive_message(), Some(expiry));
    check_membership(&tasks);
}

#[test]
fn a_full_queue_reports_the_failure_and_keeps_the_first_four() {
    let mut tasks = manager(4);
    let target = create(&mut tasks, 1);
    for n in 1..=4 {
        assert_eq!(tasks.send_message(target, key(n, 1)), Ok(Dispatch::Continue));
    }
    assert_eq!(tasks.send_message(target, key(5, 1)), Err(TaskError::QueueFull));
    assert_eq!(tasks.task(target).unwrap().pending_messages(), 4);
    tasks.sleep();
    assert_eq!(tasks.current_id(), Some(target));
    for n in 1..=4 {
        assert_eq!(tasks.receive_message(), Some(key(n, 1)));
    }
    assert_eq!(tasks.receive_message(), None);
    assert_eq!(tasks.send_message(target, key(5, 1)), Ok(Dispatch::Continue));
}

#[test]
fn messages_of_one_sender_arrive_in_the_order_sent() {
    let mut tasks = manager(8);
    let a = create(&mut tasks, 1);
    let c = create(&mut tasks, 1);
    let b = create(&mut tasks, 1);
    let sent = [key(1, a), key(9, c), key(2, a), key(8, c), key(7, c), key(3, a)];
    for message in sent {
        assert_eq!(tasks.send_message(b, message), Ok(Dispatch::Continue));
    }
    tasks.sleep();
    tasks.wake_up(b, 3).unwrap();
    assert_eq!(tasks.current_id(), Some(b));
    let mut received = Vec::new();
    while let Some(message) = tasks.receive_message() {
        received.push(message);
    }
    assert_eq!(received, sent.to_vec());
    let from_a: Vec<Message> = received.iter().copied().filter(|m| m.src_task == a).collect();
    assert_eq!(from_a, vec![key(1, a), key(2, a), key(3, a)]);
}

#[test]
fn sending_wakes_a_sleeping_task_at_its_level() {
    let mut tasks = manager(4);
    let id = tasks.new_task().unwrap().id();
    tasks.wake_up(id, 2).unwrap();
    tasks.sleep();
    assert_eq!(tasks.sleep(), Dispatch::Halt { task: id });
    assert_eq!(tasks.send_message(id, key(1, 1)), Ok(Dispatch::Switch { from: None, to: id }));
    assert_eq!(tasks.task(id).unwrap().level(), 2);
    assert_eq!(tasks.send_message(1, key(2, id)), Ok(Dispatch::Switch { from: Some(id), to: 1 }));
    assert_eq!(tasks.task(1).unwrap().level(), MAX_LEVEL);
    check_membership(&tasks);
}

#[test]
fn sending_to_an_unknown_task_is_a_lookup_failure() {
    let mut tasks = manager(4);
    assert_eq!(tasks.send_message(7, key(1, 1)), Err(TaskError::NoSuchTask));
    assert_eq!(tasks.send_message(0, key(1, 1)), Err(TaskError::NoSuchTask));
}

#[test]
fn a_queue_without_room_takes_nothing() {
    let mut tasks = manager(0);
    assert_eq!(tasks.send_message(1, key(1, 1)), Err(TaskError::QueueFull));
}

#[test]
fn an_ended_task_keeps_its_record_until_it_is_removed() {
    let mut tasks = manager(4);
    let next = create(&mut tasks, 1);
    assert_eq!(tasks.remove(1).err(), Some(TaskError::NotTerminated));
    assert_eq!(tasks.remove(next).err(), Some(TaskError::NotTerminated));
    assert_eq!(tasks.exit(-3, 0xcafe), Dispatch::Switch { from: Some(1), to: next });
    let ended = tasks.task(1).unwrap();
    assert_eq!(ended.state(), TaskState::Terminated);
    assert_eq!(ended.exit_code(), -3);
    assert_eq!(ended.os_stack_ptr(), 0xcafe);
    assert_eq!(tasks.wake_up(1, 2), Ok(Dispatch::Continue));
    assert_eq!(state(&tasks, 1), TaskState::Terminated);
    assert_eq!(occurrences(&tasks, 1), 0);
    check_membership(&tasks);
    let record = tasks.remove(1).unwrap();
    assert_eq!(record.id(), 1);
    assert_eq!(record.exit_code(), -3);
    assert!(tasks.task(1).is_none());
    assert_eq!(tasks.remove(1).err(), Some(TaskError::NoSuchTask));
    assert_eq!(tasks.wake_up(1, 1), Err(TaskError::NoSuchTask));
    assert_eq!(tasks.send_message(1, key(1, next)), Err(TaskError::NoSuchTask));
    assert_eq!(tasks.new_task().unwrap().id(), 3);
    check_membership(&tasks);
}

#[test]
fn switch_context_saves_one_context_and_hands_out_the_other() {
    let mut tasks = manager(4);
    let id = tasks.new_task().unwrap().init_context(&mut tasks, 0x4000, 1, 2).id();
    let saved = tasks.task(id).unwrap().context();
    let live = TaskContext { rip: 0x1234, rsp: 0x9000, rax: 5, ..TaskContext::zeroed() };
    assert_eq!(tasks.switch_context(1, id, live), saved);
    assert_eq!(tasks.task(1).unwrap().context(), live);
    assert_eq!(tasks.task(id).unwrap().context(), saved);
    let again = TaskContext { rbx: 9, ..live };
    assert_eq!(tasks.switch_context(1, 1, again), again);
}

#[test]
fn the_memory_bookkeeping_of_the_running_task_can_be_set() {
    let mut tasks = manager(4);
    assert_eq!(tasks.set_dpaging_end(0x1000), Some(0));
    assert_eq!(tasks.set_dpaging_end(0x3000), Some(0x1000));
    assert_eq!(tasks.set_file_map_end(0xffff_0000), Some(0));
    let main = tasks.current_task().unwrap();
    assert_eq!(main.dpaging_end(), 0x3000);
    assert_eq!(main.file_map_end(), 0xffff_0000);
    tasks.sleep();
    assert_eq!(tasks.set_dpaging_end(1), None);
    assert_eq!(tasks.set_file_map_end(1), None);
}

#[test]
fn the_registry_lists_its_tasks() {
    let mut tasks = manager(4);
    assert_eq!(tasks.ids(), vec![1]);
    let a = create(&mut tasks, 1);
    let b = create(&mut tasks, 1);
    assert_eq!(tasks.ids(), vec![1, a, b]);
    tasks.exit(0, 0);
    tasks.remove(1).unwrap();
    assert_eq!(tasks.ids(), vec![a, b]);
}
