use kernel_sched::config::{BIG_STRIDE, DEFAULT_PRIORITY};
use kernel_sched::manager::TaskManager;
use kernel_sched::task::{TaskControlBlock, TaskStatus};

fn thread(tid: usize, priority: usize, stride: usize) -> TaskControlBlock {
    let mut tcb = TaskControlBlock::new(tid, 0);
    tcb.priority = priority;
    tcb.stride = stride;
    tcb
}

fn drain(manager: &mut TaskManager) -> Vec<TaskControlBlock> {
    let mut out = Vec::new();
    while let Some(task) = manager.fetch() {
        out.push(task);
    }
    out
}

#[test]
fn new_thread_has_documented_defaults() {
    let tcb = TaskControlBlock::new(7, 0x8000);
    assert_eq!(tcb.tid, 7);
    assert_eq!(tcb.user_token, 0x8000);
    assert_eq!(tcb.status, TaskStatus::Ready);
    assert_eq!(tcb.priority, DEFAULT_PRIORITY);
    assert_eq!(tcb.stride, 0);
    assert_eq!(tcb.start_time, None);
    assert!(tcb.syscall_times.iter().all(|&n| n == 0));
}

#[test]
fn fetch_on_empty_queue_is_none() {
    let mut manager = TaskManager::new();
    assert_eq!(manager.len(), 0);
    assert!(manager.fetch().is_none());
    assert_eq!(manager.len(), 0);
}

#[test]
fn add_advances_stride_by_one_pass() {
    let mut manager = TaskManager::new();
    manager.add(thread(1, 16, 0));
    let got = manager.fetch().unwrap();
    assert_eq!(got.tid, 1);
    assert_eq!(got.stride, 67108864);
    assert_eq!(got.stride, BIG_STRIDE / 16);
    manager.add(got);
    let again = manager.fetch().unwrap();
    assert_eq!(again.stride, 2 * 67108864);
}

#[test]
fn pass_uses_integer_division() {
    let mut manager = TaskManager::new();
    manager.add(thread(1, 5, 0));
    manager.add(thread(2, 3, 10));
    let order = drain(&mut manager);
    assert_eq!(order[0].tid, 1);
    assert_eq!(order[0].stride, 214748364);
    assert_eq!(order[1].tid, 2);
    assert_eq!(order[1].stride, 357913951);
}

#[test]
fn queue_is_sorted_after_any_adds() {
    let mut manager = TaskManager::new();
    let strides = [900usize, 5, 77, 5, 100000, 0, 42, 77, 3];
    for (tid, s) in strides.iter().enumerate() {
        manager.add(thread(tid, 2 + tid, *s));
    }
    assert_eq!(manager.len(), strides.len());
    let order = drain(&mut manager);
    assert_eq!(order.len(), strides.len());
    for pair in order.windows(2) {
        assert!(pair[0].stride <= pair[1].stride);
    }
}

#[test]
fn equal_strides_keep_arrival_order() {
    let mut manager = TaskManager::new();
    manager.add(thread(10, 16, 0));
    manager.add(thread(11, 16, 0));
    manager.add(thread(12, 16, 0));
    manager.add(thread(13, 32, 0));
    manager.add(thread(14, 16, 0));
    let tids: Vec<usize> = drain(&mut manager).iter().map(|t| t.tid).collect();
    assert_eq!(tids, vec![13, 10, 11, 12, 14]);
}

#[test]
fn add_inserts_before_first_greater_stride() {
    let mut manager = TaskManager::new();
    manager.add(thread(1, 2, 0));
    manager.add(thread(2, 4, 0));
    manager.add(thread(3, 2, 0));
    manager.add(thread(4, 8, 0));
    let order = drain(&mut manager);
    let tids: Vec<usize> = order.iter().map(|t| t.tid).collect();
    assert_eq!(tids, vec![4, 2, 1, 3]);
    assert_eq!(order[0].stride, BIG_STRIDE / 8);
    assert_eq!(order[1].stride, BIG_STRIDE / 4);
    assert_eq!(order[2].stride, BIG_STRIDE / 2);
}

#[test]
fn add_keeps_status_and_other_fields() {
    let mut manager = TaskManager::new();
    let mut tcb = thread(5, 9, 1);
    tcb.status = TaskStatus::Blocked;
    tcb.start_time = Some(33);
    tcb.user_token = 99;
    manager.add(tcb);
    let got = manager.fetch().unwrap();
    assert_eq!(got.status, TaskStatus::Blocked);
    assert_eq!(got.start_time, Some(33));
    assert_eq!(got.user_token, 99);
    assert_eq!(got.priority, 9);
    assert_eq!(got.stride, 1 + BIG_STRIDE / 9);
}

#[test]
fn stride_saturates_instead_of_wrapping() {
    let mut manager = TaskManager::new();
    manager.add(thread(1, 2, usize::MAX - 3));
    manager.add(thread(2, 2, 0));
    let order = drain(&mut manager);
    assert_eq!(order[0].tid, 2);
    assert_eq!(order[1].tid, 1);
    assert_eq!(order[1].stride, usize::MAX);
}

#[test]
fn stride_just_below_the_limit_is_exact() {
    let mut manager = TaskManager::new();
    let pass = BIG_STRIDE / 2;
    manager.add(thread(1, 2, usize::MAX - pass));
    assert_eq!(manager.fetch().unwrap().stride, usize::MAX);
    manager.add(thread(1, 2, usize::MAX - pass - 1));
    assert_eq!(manager.fetch().unwrap().stride, usize::MAX - 1);
}

#[test]
fn higher_priority_gets_proportionally_more_dispatches() {
    let mut manager = TaskManager::new();
    manager.add(thread(2, 2, 0));
    manager.add(thread(20, 20, 0));
    let mut low = 0usize;
    let mut high = 0usize;
    for _ in 0..1100 {
        let task = manager.fetch().unwrap();
        if task.tid == 2 {
            low += 1;
        } else {
            high += 1;
        }
        manager.add(task);
    }
    assert_eq!(low + high, 1100);
    assert!(high > low);
    assert!(high >= 9 * low && high <= 11 * low, "low {} high {}", low, high);
}
