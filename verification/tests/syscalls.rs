use kernel_sched::manager::TaskManager;
use kernel_sched::processor::{count_syscall, run_tasks, Processor};
use kernel_sched::syscall::{sys_exit, sys_get_time, sys_sbrk, sys_task_info, sys_yield, TimeVal};
use kernel_sched::task::{TaskControlBlock, TaskStatus};

#[test]
fn get_time_splits_microseconds() {
    assert_eq!(sys_get_time(3_500_000), TimeVal { sec: 3, usec: 500_000 });
    assert_eq!(sys_get_time(0), TimeVal { sec: 0, usec: 0 });
    assert_eq!(sys_get_time(999_999), TimeVal { sec: 0, usec: 999_999 });
    assert_eq!(sys_get_time(1_000_000), TimeVal { sec: 1, usec: 0 });
}

#[test]
fn sbrk_maps_refusal_to_minus_one() {
    assert_eq!(sys_sbrk(None), -1);
    assert_eq!(sys_sbrk(Some(0x1000)), 0x1000);
    assert_eq!(sys_sbrk(Some(0)), 0);
}

#[test]
fn yield_returns_zero_and_requeues() {
    let mut manager = TaskManager::new();
    let mut processor = Processor::new();
    manager.add(TaskControlBlock::new(1, 0));
    manager.add(TaskControlBlock::new(2, 0));
    assert!(run_tasks(&mut processor, &mut manager, 0));
    assert_eq!(processor.current().unwrap().tid, 1);
    assert_eq!(sys_yield(&mut processor, &mut manager), 0);
    assert!(processor.current().is_none());
    assert_eq!(manager.len(), 2);
    assert!(run_tasks(&mut processor, &mut manager, 1));
    assert_eq!(processor.current().unwrap().tid, 2);
    assert_eq!(sys_yield(&mut processor, &mut manager), 0);
    assert!(run_tasks(&mut processor, &mut manager, 2));
    assert_eq!(processor.current().unwrap().tid, 1);
}

#[test]
fn exit_leaves_processor_empty_and_queue_untouched() {
    let mut manager = TaskManager::new();
    let mut processor = Processor::new();
    manager.add(TaskControlBlock::new(1, 0));
    manager.add(TaskControlBlock::new(2, 0));
    assert!(run_tasks(&mut processor, &mut manager, 0));
    let exited = sys_exit(&mut processor, 0);
    assert_eq!(exited.tid, 1);
    assert_eq!(exited.status, TaskStatus::Exited);
    assert!(processor.current().is_none());
    assert_eq!(manager.len(), 1);
    assert_eq!(manager.fetch().unwrap().tid, 2);
}

#[test]
fn task_info_reports_status_counters_and_time() {
    let mut manager = TaskManager::new();
    let mut processor = Processor::new();
    manager.add(TaskControlBlock::new(1, 0));
    assert!(run_tasks(&mut processor, &mut manager, 500));
    count_syscall(&mut processor, 169);
    count_syscall(&mut processor, 410);
    count_syscall(&mut processor, 410);
    let info = sys_task_info(&processor, 500 + 3 * 12500);
    assert_eq!(info.status, TaskStatus::Running);
    assert_eq!(info.syscall_times[169], 1);
    assert_eq!(info.syscall_times[410], 2);
    assert_eq!(info.syscall_times[0], 0);
    assert_eq!(info.time, 3);
}
