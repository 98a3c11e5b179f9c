use kernel::threading::irq_cell::IrqCell;
use kernel::threading::scheduler::{
    AddedTask, EventQueue, EventTy, ScheduleAction, Scheduler, SchedulerEvent, Switch, ThreadControlBlock,
    ThreadState, Tid, TidCounter, TimerAction, QUANTUM,
};

// One tick lasts 4 * 250_000 ps = 1 us.
const PICOS: u64 = 250_000;

fn tcb(name: &str, state: ThreadState) -> ThreadControlBlock {
    ThreadControlBlock { name: String::from(name), state }
}

fn booted() -> (Scheduler, TidCounter) {
    let mut s = Scheduler::new();
    s.init(tcb("init", ThreadState::Running));
    (s, TidCounter::new())
}

#[test]
fn tids_count_up_from_one() {
    let mut c = TidCounter::new();
    assert_eq!(Tid::new(&mut c), Tid(1));
    assert_eq!(Tid::new(&mut c), Tid(2));
}

#[test]
fn add_task_queues_new_thread() {
    let (mut s, mut c) = booted();
    let added = s.add_task(&mut c, tcb("worker", ThreadState::Ready));
    assert_eq!(added, AddedTask { tid: Tid(1), defer_schedule: true });
    let t = added.tid;
    assert_eq!(s.next_in_queue(), Some(Tid(1)));
    assert_eq!(s.current_tid(), Tid(0));
    assert!(s.has_task(Tid(1)));
}

#[test]
fn schedule_switches_round_robin() {
    let (mut s, mut c) = booted();
    let t = s.add_task(&mut c, tcb("worker", ThreadState::Ready)).tid;
    let a = s.schedule(1_000, PICOS);
    assert_eq!(
        a,
        ScheduleAction {
            timer: TimerAction { defer_schedule: false, oneshot_ticks: Some((QUANTUM / 1000) as u128) },
            switch: Some(Switch { from: Tid(0), to: t }),
        }
    );
    assert_eq!(s.current_tid(), t);
    assert_eq!(s.task_state(t), Some(ThreadState::Running));
    assert_eq!(s.task_state(Tid(0)), Some(ThreadState::Ready));
    assert_eq!(s.next_in_queue(), Some(Tid(0)));
    assert_eq!(s.event_queue.yield_event(), Some((1_000 + QUANTUM, t)));
}

#[test]
fn schedule_without_waiting_threads_keeps_running() {
    let (mut s, _c) = booted();
    let a = s.schedule(1_000, PICOS);
    assert_eq!(a, ScheduleAction { timer: TimerAction { defer_schedule: false, oneshot_ticks: None }, switch: None });
    assert_eq!(s.current_tid(), Tid(0));
    assert_eq!(s.event_queue.yield_event(), None);
}

#[test]
fn sleeping_thread_is_woken_by_timer() {
    let (mut s, mut c) = booted();
    let t = s.add_task(&mut c, tcb("worker", ThreadState::Ready)).tid;
    // Thread 0 sleeps 5 us from time 1000 ns.
    let a = s.sleep(5_000, 1_000, PICOS);
    assert_eq!(a, TimerAction { defer_schedule: true, oneshot_ticks: Some(5) });
    assert_eq!(s.task_state(Tid(0)), Some(ThreadState::Blocked));
    // The worker runs; thread 0 is not queued as it is blocked.
    let a = s.schedule(2_000, PICOS);
    assert_eq!(a.switch, Some(Switch { from: Tid(0), to: t }));
    assert_eq!(a.timer, TimerAction { defer_schedule: false, oneshot_ticks: Some(4) });
    assert_eq!(s.next_in_queue(), None);
    // At 6000 ns the sleep is over: thread 0 is ready and queued.
    let a = s.wake_and_reset_timer(6_000, PICOS);
    assert_eq!(a, TimerAction { defer_schedule: true, oneshot_ticks: Some(((2_000 + QUANTUM - 6_000) / 1000) as u128) });
    assert_eq!(s.task_state(Tid(0)), Some(ThreadState::Ready));
    assert_eq!(s.next_in_queue(), Some(Tid(0)));
}

#[test]
fn expired_time_slice_requests_reschedule() {
    let (mut s, mut c) = booted();
    s.add_task(&mut c, tcb("worker", ThreadState::Ready));
    s.schedule(0, PICOS);
    let a = s.wake_and_reset_timer(QUANTUM, PICOS);
    assert_eq!(a, TimerAction { defer_schedule: true, oneshot_ticks: None });
    assert_eq!(s.event_queue.yield_event(), None);
}

#[test]
fn unblock_unknown_thread_does_nothing() {
    let (mut s, _c) = booted();
    assert!(!s.unblock(Tid(42)));
    assert_eq!(s.next_in_queue(), None);
}

#[test]
fn block_then_unblock() {
    let (mut s, _c) = booted();
    let a = s.block(ThreadState::Blocked, 0, PICOS);
    assert_eq!(a, TimerAction { defer_schedule: true, oneshot_ticks: None });
    assert_eq!(s.task_state(Tid(0)), Some(ThreadState::Blocked));
    assert!(s.unblock(Tid(0)));
    assert_eq!(s.task_state(Tid(0)), Some(ThreadState::Ready));
    assert_eq!(s.next_in_queue(), Some(Tid(0)));
}

#[test]
fn sleep_until_queues_event() {
    let (mut s, _c) = booted();
    s.sleep_until(10_000, 0, PICOS);
    assert_eq!(s.event_queue.front_time(), Some(10_000));
}

#[test]
fn event_queue_stays_in_time_order() {
    let mut q = EventQueue::new();
    q.add(SchedulerEvent { time: 30, tid: Tid(1), action: EventTy::Unblock });
    q.add(SchedulerEvent { time: 10, tid: Tid(2), action: EventTy::Unblock });
    q.add(SchedulerEvent { time: 20, tid: Tid(3), action: EventTy::Unblock });
    q.add(SchedulerEvent { time: 10, tid: Tid(4), action: EventTy::Unblock });
    let order: Vec<(u64, usize)> = std::iter::from_fn(|| q.pop_front().map(|e| (e.time, e.tid.0))).collect();
    assert_eq!(order, vec![(10, 2), (10, 4), (20, 3), (30, 1)]);
}

#[test]
fn irq_cell_round_trip() {
    let mut cell = IrqCell::new(5u32);
    assert!(!cell.is_locked());
    let mut guard = cell.lock(0x202);
    assert_eq!(*guard.get(), 5);
    guard.set(7);
    assert_eq!(guard.release(), 0x202);
    assert!(!cell.is_locked());
    let mut guard = cell.lock(0x2);
    *guard.get_mut() += 1;
    assert_eq!(*guard.get(), 8);
    assert_eq!(cell_unlock(guard), 0x2);
}

fn cell_unlock(guard: kernel::threading::irq_cell::IrqGuard<'_, u32>) -> usize {
    guard.release()
}

#[test]
fn events_compare_by_time() {
    let a = SchedulerEvent { time: 5, tid: Tid(1), action: EventTy::Unblock };
    let b = SchedulerEvent { time: 5, tid: Tid(2), action: EventTy::Unblock };
    let c = SchedulerEvent { time: 9, tid: Tid(1), action: EventTy::Unblock };
    assert!(a == b);
    assert!(a != c);
    assert!(a < c);
    assert_eq!(c.partial_cmp(&a), Some(std::cmp::Ordering::Greater));
}

#[test]
fn added_ids_are_fresh() {
    let (mut s, mut c) = booted();
    let a = s.add_task(&mut c, tcb("a", ThreadState::Ready)).tid;
    let b = s.add_task(&mut c, tcb("b", ThreadState::Ready)).tid;
    assert!(a != b && a != Tid(0) && b != Tid(0));
    assert!(a < b);
}
