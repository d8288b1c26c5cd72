use kernel_sched::config::{BIG_STRIDE, MAX_SYSCALL_NUM};
use kernel_sched::manager::{add_task, fetch_task, TaskManager};
use kernel_sched::processor::{
    block_current_and_run_next, count_syscall, current_task, current_task_id, current_user_token,
    exit_current_and_run_next, get_current_run_time, get_current_task_status, get_syscall_times,
    run_tasks, set_priority, suspend_current_and_run_next, take_current_task, wakeup_task,
    Processor,
};
use kernel_sched::task::{TaskControlBlock, TaskStatus};

fn running(tid: usize, now: usize) -> (Processor, TaskManager) {
    let mut manager = TaskManager::new();
    let mut processor = Processor::new();
    manager.add(TaskControlBlock::new(tid, 1000 + tid));
    assert!(run_tasks(&mut processor, &mut manager, now));
    (processor, manager)
}

#[test]
fn new_processor_runs_nothing() {
    let mut processor = Processor::new();
    assert!(processor.current().is_none());
    assert!(processor.take_current().is_none());
    assert_eq!(current_task_id(&processor), None);
}

#[test]
fn run_tasks_reports_idle_on_empty_queue() {
    let mut manager = TaskManager::new();
    let mut processor = Processor::new();
    assert!(!run_tasks(&mut processor, &mut manager, 5));
    assert!(processor.current().is_none());
    let (mut busy, mut empty) = running(3, 10);
    assert!(!run_tasks(&mut busy, &mut empty, 20));
    assert_eq!(busy.current().unwrap().tid, 3);
}

#[test]
fn run_tasks_dispatches_front_and_stamps_start_once() {
    let (mut processor, mut manager) = running(1, 123);
    let current = processor.current().unwrap();
    assert_eq!(current.tid, 1);
    assert_eq!(current.status, TaskStatus::Running);
    assert_eq!(current.start_time, Some(123));
    assert_eq!(manager.len(), 0);
    suspend_current_and_run_next(&mut processor, &mut manager);
    assert!(processor.current().is_none());
    assert!(run_tasks(&mut processor, &mut manager, 999));
    let again = processor.current().unwrap();
    assert_eq!(again.start_time, Some(123));
    assert_eq!(again.status, TaskStatus::Running);
}

#[test]
fn take_current_moves_and_current_copies() {
    let (mut processor, _manager) = running(4, 0);
    assert_eq!(processor.current().unwrap().tid, 4);
    assert_eq!(processor.current().unwrap().tid, 4);
    assert_eq!(current_task_id(&processor), Some(4));
    assert_eq!(current_user_token(&processor), 1004);
    let taken = processor.take_current().unwrap();
    assert_eq!(taken.tid, 4);
    assert!(processor.current().is_none());
}

#[test]
fn suspend_requeues_as_ready_with_advanced_stride() {
    let (mut processor, mut manager) = running(1, 0);
    suspend_current_and_run_next(&mut processor, &mut manager);
    assert!(processor.current().is_none());
    let queued = manager.fetch().unwrap();
    assert_eq!(queued.status, TaskStatus::Ready);
    assert_eq!(queued.stride, 2 * (BIG_STRIDE / 16));
}

#[test]
fn block_and_exit_mark_the_record() {
    let (mut processor, _m) = running(1, 0);
    let blocked = block_current_and_run_next(&mut processor);
    assert_eq!(blocked.status, TaskStatus::Blocked);
    assert_eq!(blocked.tid, 1);
    assert!(processor.current().is_none());
    let (mut processor, _m) = running(2, 0);
    let exited = exit_current_and_run_next(&mut processor);
    assert_eq!(exited.status, TaskStatus::Exited);
    assert_eq!(exited.tid, 2);
    assert!(processor.current().is_none());
}

#[test]
fn wakeup_marks_ready_and_enqueues() {
    let mut manager = TaskManager::new();
    let mut tcb = TaskControlBlock::new(8, 0);
    tcb.status = TaskStatus::Blocked;
    tcb.stride = 100;
    wakeup_task(&mut manager, tcb);
    let got = manager.fetch().unwrap();
    assert_eq!(got.status, TaskStatus::Ready);
    assert_eq!(got.stride, 100 + BIG_STRIDE / 16);
}

#[test]
fn set_priority_below_two_is_rejected() {
    let (mut processor, _m) = running(1, 0);
    assert_eq!(set_priority(&mut processor, 1), -1);
    assert_eq!(processor.current().unwrap().priority, 16);
    assert_eq!(set_priority(&mut processor, 0), -1);
    assert_eq!(set_priority(&mut processor, -7), -1);
    assert_eq!(processor.current().unwrap().priority, 16);
    let mut idle = Processor::new();
    assert_eq!(set_priority(&mut idle, 1), -1);
    assert!(idle.current().is_none());
}

#[test]
fn set_priority_five_changes_next_pass() {
    let (mut processor, mut manager) = running(1, 0);
    let before = processor.current().unwrap().stride;
    assert_eq!(set_priority(&mut processor, 5), 5);
    assert_eq!(processor.current().unwrap().priority, 5);
    suspend_current_and_run_next(&mut processor, &mut manager);
    let queued = manager.fetch().unwrap();
    assert_eq!(queued.stride, before + BIG_STRIDE / 5);
    assert_eq!(queued.stride - before, 214748364);
}

#[test]
fn set_priority_two_is_accepted() {
    let (mut processor, _m) = running(1, 0);
    assert_eq!(set_priority(&mut processor, 2), 2);
    assert_eq!(processor.current().unwrap().priority, 2);
}

#[test]
fn syscall_counters_count_per_number() {
    let (mut processor, _m) = running(1, 0);
    count_syscall(&mut processor, 64);
    count_syscall(&mut processor, 64);
    count_syscall(&mut processor, MAX_SYSCALL_NUM - 1);
    let times = get_syscall_times(&processor);
    assert_eq!(times[64], 2);
    assert_eq!(times[MAX_SYSCALL_NUM - 1], 1);
    assert_eq!(times.iter().map(|&n| n as usize).sum::<usize>(), 3);
    assert_eq!(processor.current().unwrap().tid, 1);
    assert_eq!(get_current_task_status(&processor), TaskStatus::Running);
}

#[test]
fn run_time_is_ticks_over_ticks_per_millisecond() {
    let (processor, _m) = running(1, 1000);
    assert_eq!(get_current_run_time(&processor, 1000), 0);
    assert_eq!(get_current_run_time(&processor, 1000 + 12499), 0);
    assert_eq!(get_current_run_time(&processor, 1000 + 12500), 1);
    assert_eq!(get_current_run_time(&processor, 1000 + 125000 + 1), 10);
}

#[test]
fn boundary_functions_act_on_the_given_state() {
    let mut manager = TaskManager::new();
    let mut processor = Processor::new();
    assert!(fetch_task(&mut manager).is_none());
    let mut late = TaskControlBlock::new(1, 0);
    late.stride = 50;
    add_task(&mut manager, late);
    add_task(&mut manager, TaskControlBlock::new(2, 0));
    assert_eq!(manager.len(), 2);
    let first = fetch_task(&mut manager).unwrap();
    assert_eq!(first.tid, 2);
    assert_eq!(first.stride, BIG_STRIDE / 16);
    assert!(current_task(&processor).is_none());
    assert!(run_tasks(&mut processor, &mut manager, 1));
    assert_eq!(current_task(&processor).unwrap().tid, 1);
    assert_eq!(current_task(&processor).unwrap().stride, 50 + BIG_STRIDE / 16);
    let taken = take_current_task(&mut processor).unwrap();
    assert_eq!(taken.tid, 1);
    assert!(take_current_task(&mut processor).is_none());
    assert!(current_task(&processor).is_none());
}
