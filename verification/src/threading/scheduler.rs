//! The per-core thread scheduler's decisions.
//!
//! The scheduler keeps the threads of its core, a run queue of threads ready
//! to run, the thread currently running and a queue of timed events. Timers,
//! inter-processor interrupts and the context switch itself belong to the
//! platform: each operation here returns what the platform must do next.
//! Times are nanoseconds since boot.

use vstd::prelude::*;
use crate::memory::refcount::count_up;

verus! {

/// A thread id.
#[derive(Debug, Clone, Copy, PartialEq, Eq, Structural, PartialOrd, Ord, Hash)]
pub struct Tid(pub usize);

/// Hands out thread ids, counting up from 1 (id 0 is the boot thread's).
#[derive(Debug)]
pub struct TidCounter {
    next: usize,
}

impl TidCounter {
    /// The id that the next thread gets.
    pub closed spec fn next_id(&self) -> usize {
        self.next
    }

    /// A counter whose first id is 1.
    pub fn new() -> (c: Self)
        ensures
            c.next_id() == 1,
    {
        TidCounter { next: 1 }
    }
}

impl Tid {
    /// A fresh thread id: the counter's next id, after which the counter moves
    /// on by one (wrapping around at the top of `usize`).
    pub fn new(counter: &mut TidCounter) -> (tid: Tid)
        ensures
            tid.0 == old(counter).next_id(),
            final(counter).next_id() == count_up(old(counter).next_id()),
    {
        let tid = Tid(counter.next);
        counter.next = counter.next.wrapping_add(1);
        tid
    }
}

/// What a thread is doing.
#[derive(Debug, Clone, Copy, PartialEq, Eq, Structural)]
pub enum ThreadState {
    Running,
    Ready,
    Blocked,
}

/// What the scheduler knows of a thread.
#[derive(Debug)]
pub struct ThreadControlBlock {
    pub name: String,
    pub state: ThreadState,
}

/// The kinds of timed events.
#[derive(Debug, Clone, Copy, PartialEq, Eq, Structural)]
pub enum EventTy {
    /// Make the thread ready again.
    Unblock,
}

/// A timed event: at `time`, apply `action` to thread `tid`.
#[derive(Debug, Clone, Copy)]
pub struct SchedulerEvent {
    pub time: u64,
    pub tid: Tid,
    pub action: EventTy,
}

/// Events ordered by time, earliest first.
pub open spec fn sorted_by_time(events: Seq<SchedulerEvent>) -> bool {
    forall|i: int, j: int| 0 <= i <= j < events.len() ==> events[i].time <= events[j].time
}

/// Where an event at `time` goes in the events `s`: after every event at or
/// before that time that leads the queue.
pub open spec fn insertion_point(s: Seq<SchedulerEvent>, time: u64) -> int
    decreases s.len(),
{
    if s.len() == 0 || s[0].time > time {
        0
    } else {
        1 + insertion_point(s.drop_first(), time)
    }
}

proof fn lemma_insertion_point(s: Seq<SchedulerEvent>, time: u64)
    ensures
        0 <= insertion_point(s, time) <= s.len(),
        forall|k: int| 0 <= k < insertion_point(s, time) ==> s[k].time <= time,
        insertion_point(s, time) < s.len() ==> s[insertion_point(s, time)].time > time,
    decreases s.len(),
{
    if s.len() > 0 && s[0].time <= time {
        lemma_insertion_point(s.drop_first(), time);
        assert forall|k: int| 0 <= k < insertion_point(s, time) implies s[k].time <= time by {
            if k > 0 {
                assert(s[k] == s.drop_first()[k - 1]);
            }
        }
    }
}

/// The timed events of a core, and the end of the running thread's time
/// slice.
#[derive(Debug)]
pub struct EventQueue {
    events: std::collections::VecDeque<SchedulerEvent>,
    yield_event: Option<(u64, Tid)>,
}

impl EventQueue {
    /// The queue is kept in time order.
    #[verifier::type_invariant]
    pub closed spec fn in_time_order(&self) -> bool {
        sorted_by_time(self.events@)
    }

    /// The queued events, earliest first.
    pub closed spec fn events(&self) -> Seq<SchedulerEvent> {
        self.events@
    }

    /// When the running thread's time slice ends, and which thread it is.
    pub closed spec fn yield_at(&self) -> Option<(u64, Tid)> {
        self.yield_event
    }

    /// An empty queue.
    pub fn new() -> (q: Self)
        ensures
            q.events() == Seq::<SchedulerEvent>::empty(),
            q.yield_at() is None,
            sorted_by_time(q.events()),
    {
        EventQueue { events: std::collections::VecDeque::new(), yield_event: None }
    }

    /// Queues `event` after every queued event that is not later than it.
    pub fn add(&mut self, event: SchedulerEvent)
        ensures
            final(self).events() == old(self).events().insert(
                insertion_point(old(self).events(), event.time),
                event,
            ),
            final(self).yield_at() == old(self).yield_at(),
            sorted_by_time(old(self).events()),
            sorted_by_time(final(self).events()),
    {
        proof {
            use_type_invariant(&*self);
            lemma_insertion_point(self.events@, event.time);
        }
        let ghost old_events = self.events@;
        let mut i: usize = 0;
        proof {
            assert(old_events.skip(0) =~= old_events);
        }
        while i < self.events.len() && self.events[i].time <= event.time
            invariant
                self.events@ == old_events,
                i <= old_events.len(),
                insertion_point(old_events, event.time) == i + insertion_point(
                    old_events.skip(i as int),
                    event.time,
                ),
            decreases old_events.len() - i,
        {
            proof {
                assert(old_events.skip(i as int).drop_first() =~= old_events.skip(i + 1));
            }
            i = i + 1;
        }
        proof {
            assert(insertion_point(old_events.skip(i as int), event.time) == 0);
            let new_events = old_events.insert(i as int, event);
            assert forall|a: int, b: int| 0 <= a <= b < new_events.len() implies new_events[a].time
                <= new_events[b].time by {
                if a < i as int && b > i as int {
                    assert(old_events[a].time <= event.time);
                }
            }
        }
        let mut events = std::collections::VecDeque::new();
        std::mem::swap(&mut events, &mut self.events);
        events.insert(i, event);
        std::mem::swap(&mut events, &mut self.events);
    }

    /// The time of the earliest queued event, if any.
    pub fn front_time(&self) -> (t: Option<u64>)
        ensures
            self.events().len() == 0 ==> t is None,
            self.events().len() > 0 ==> t == Some(self.events()[0].time),
    {
        if self.events.len() == 0 {
            None
        } else {
            Some(self.events[0].time)
        }
    }

    /// Takes the earliest queued event.
    pub fn pop_front(&mut self) -> (e: Option<SchedulerEvent>)
        ensures
            old(self).events().len() == 0 ==> (e is None && final(self).events()
                == old(self).events()),
            old(self).events().len() > 0 ==> (e == Some(old(self).events()[0]) && final(self).events()
                == old(self).events().drop_first()),
            final(self).yield_at() == old(self).yield_at(),
            sorted_by_time(old(self).events()),
            sorted_by_time(final(self).events()),
    {
        proof {
            use_type_invariant(&*self);
        }
        let mut events = std::collections::VecDeque::new();
        std::mem::swap(&mut events, &mut self.events);
        let e = events.pop_front();
        proof {
            assert(sorted_by_time(events@));
        }
        std::mem::swap(&mut events, &mut self.events);
        e
    }

    /// Sets the end of the running thread's time slice.
    pub fn set_yield_event(&mut self, yield_event: Option<(u64, Tid)>)
        ensures
            final(self).yield_at() == yield_event,
            final(self).events() == old(self).events(),
            sorted_by_time(final(self).events()),
    {
        proof {
            use_type_invariant(&*self);
        }
        self.yield_event = yield_event;
    }

    /// The end of the running thread's time slice, if one is set.
    pub fn yield_event(&self) -> (y: Option<(u64, Tid)>)
        ensures
            y == self.yield_at(),
    {
        self.yield_event
    }
}

/// The length of a thread's time slice, in nanoseconds.
pub const QUANTUM: u64 = 50_000_000;

/// The scheduler's state, as values.
pub struct SchedulerView {
    /// The threads of the core, by id.
    pub tasks: Map<usize, ThreadControlBlock>,
    /// The threads waiting to run, in order.
    pub run_queue: Seq<Tid>,
    /// The thread that runs now.
    pub current: Tid,
    /// The timed events, earliest first.
    pub events: Seq<SchedulerEvent>,
    /// When the running thread's time slice ends, and which thread it is.
    pub yield_at: Option<(u64, Tid)>,
}

/// What the platform's timer must do after the scheduler looked at its
/// events.
#[derive(Debug, Clone, Copy, PartialEq, Eq, Structural)]
pub struct TimerAction {
    /// A reschedule must be requested (an inter-processor interrupt to this
    /// core).
    pub defer_schedule: bool,
    /// Arm the one-shot timer for this many ticks, if any.
    pub oneshot_ticks: Option<u128>,
}

/// A thread just added, and whether a reschedule must be requested.
#[derive(Debug, Clone, Copy, PartialEq, Eq, Structural)]
pub struct AddedTask {
    pub tid: Tid,
    pub defer_schedule: bool,
}

/// What the platform must do after a scheduling decision.
#[derive(Debug, Clone, Copy, PartialEq, Eq, Structural)]
pub struct ScheduleAction {
    pub timer: TimerAction,
    /// The context switch to perform, if any.
    pub switch: Option<Switch>,
}

/// A context switch from thread `from` to thread `to`.
#[derive(Debug, Clone, Copy, PartialEq, Eq, Structural)]
pub struct Switch {
    pub from: Tid,
    pub to: Tid,
}

/// The control block `t` with its state set to `state`.
pub open spec fn with_state(t: ThreadControlBlock, state: ThreadState) -> ThreadControlBlock {
    ThreadControlBlock { name: t.name, state }
}

/// The number of timer ticks from `now` until `time`, for ticks of `period`
/// picoseconds, rounded down; zero when `time` has passed.
pub open spec fn ticks_until(time: u64, now: u64, period: int) -> int {
    1000 * (if time > now {
        time - now
    } else {
        0int
    }) / period
}

/// Unblocking thread `tid`: a known thread becomes ready and joins the back
/// of the run queue, and a reschedule is requested; an unknown id changes
/// nothing.
pub open spec fn unblock_view(v: SchedulerView, tid: Tid) -> (SchedulerView, bool) {
    if v.tasks.contains_key(tid.0) {
        (
            SchedulerView {
                tasks: v.tasks.insert(tid.0, with_state(v.tasks[tid.0], ThreadState::Ready)),
                run_queue: v.run_queue.push(tid),
                ..v
            },
            true,
        )
    } else {
        (v, false)
    }
}

/// Handling the events that are due at `now`: while the earliest event is
/// less than one tick away, it is taken off the queue and its thread
/// unblocked. Also whether any of them requested a reschedule.
pub open spec fn run_due_events(v: SchedulerView, now: u64, period: int) -> (SchedulerView, bool)
    decreases v.events.len(),
{
    if v.events.len() > 0 && ticks_until(v.events[0].time, now, period) == 0 {
        let (v1, d1) = unblock_view(SchedulerView { events: v.events.drop_first(), ..v }, v.events[0].tid);
        let (v2, d2) = run_due_events(v1, now, period);
        (v2, d1 || d2)
    } else {
        (v, false)
    }
}

/// The smaller of `b` and `a`, if `a` is there.
pub open spec fn min_ticks(a: Option<int>, b: int) -> int {
    match a {
        Some(x) => if x < b {
            x
        } else {
            b
        },
        None => b,
    }
}

/// Handling the events due at `now` and setting the timer for the next: the
/// due events are run; an expired time slice is cleared and asks for a
/// reschedule; the timer is set for the nearer of the next event and the
/// end of the running time slice.
pub open spec fn wake_view(v: SchedulerView, now: u64, period: int) -> (SchedulerView, TimerAction) {
    let (v1, d) = run_due_events(v, now, period);
    let next_event: Option<int> = if v1.events.len() > 0 {
        Some(ticks_until(v1.events[0].time, now, period))
    } else {
        None
    };
    match v1.yield_at {
        Some((t, _)) => if ticks_until(t, now, period) == 0 {
            (
                SchedulerView { yield_at: None, ..v1 },
                TimerAction {
                    defer_schedule: true,
                    oneshot_ticks: match next_event {
                        Some(x) => Some(x as u128),
                        None => None,
                    },
                },
            )
        } else {
            (
                v1,
                TimerAction {
                    defer_schedule: d,
                    oneshot_ticks: Some(min_ticks(next_event, ticks_until(t, now, period)) as u128),
                },
            )
        },
        None => (
            v1,
            TimerAction {
                defer_schedule: d,
                oneshot_ticks: match next_event {
                    Some(x) => Some(x as u128),
                    None => None,
                },
            },
        ),
    }
}

/// Blocking the running thread in `state`: its state is recorded, its time
/// slice is dropped, the timer is reset, and a reschedule is always
/// requested so that another thread runs.
pub open spec fn block_view(v: SchedulerView, state: ThreadState, now: u64, period: int) -> (
    SchedulerView,
    TimerAction,
) {
    let (w, a) = wake_view(
        SchedulerView {
            tasks: v.tasks.insert(v.current.0, with_state(v.tasks[v.current.0], state)),
            yield_at: None,
            ..v
        },
        now,
        period,
    );
    (w, TimerAction { defer_schedule: true, oneshot_ticks: a.oneshot_ticks })
}

/// Putting the running thread to sleep until `wake`: an event that unblocks
/// it at `wake` is queued after every event not later than it, and the
/// thread is blocked.
pub open spec fn sleep_until_view(v: SchedulerView, wake: u64, now: u64, period: int) -> (
    SchedulerView,
    TimerAction,
) {
    block_view(
        SchedulerView {
            events: v.events.insert(
                insertion_point(v.events, wake),
                SchedulerEvent { time: wake, tid: v.current, action: EventTy::Unblock },
            ),
            ..v
        },
        ThreadState::Blocked,
        now,
        period,
    )
}

/// Putting the running thread to sleep for `duration` nanoseconds from
/// `now`: an event that unblocks it `duration` after `now` is queued, and the
/// thread is blocked.
pub open spec fn sleep_view(v: SchedulerView, duration: u64, now: u64, period: int) -> (
    SchedulerView,
    TimerAction,
) {
    let wake = (now + duration) as u64;
    let event = SchedulerEvent { time: wake, tid: v.current, action: EventTy::Unblock };
    block_view(
        SchedulerView { events: v.events.insert(insertion_point(v.events, wake), event), ..v },
        ThreadState::Blocked,
        now,
        period,
    )
}

/// Sleeping for `duration` has the same effect as sleeping until `now +
/// duration`.
pub proof fn lemma_sleep_is_sleep_until(v: SchedulerView, duration: u64, now: u64, period: int)
    requires
        now + duration <= u64::MAX,
    ensures
        sleep_view(v, duration, now, period) == sleep_until_view(v, (now + duration) as u64, now, period),
{
}

/// A scheduling decision at `now`. With a thread waiting, it becomes the
/// running thread with a fresh time slice, the timer is reset, the thread
/// that ran goes to the back of the run queue if it was still running, and
/// the platform switches from it to the new one. With no thread waiting,
/// the running thread keeps running without a time slice.
pub open spec fn schedule_view(v: SchedulerView, now: u64, period: int) -> (
    SchedulerView,
    ScheduleAction,
) {
    if v.run_queue.len() > 0 {
        let new = v.run_queue[0];
        let old = v.current;
        let v1 = SchedulerView {
            run_queue: v.run_queue.drop_first(),
            current: new,
            yield_at: Some(((now + QUANTUM) as u64, new)),
            ..v
        };
        let (v2, timer) = wake_view(v1, now, period);
        let v3 = if v2.tasks[old.0].state == ThreadState::Running {
            SchedulerView {
                tasks: v2.tasks.insert(old.0, with_state(v2.tasks[old.0], ThreadState::Ready)),
                run_queue: v2.run_queue.push(old),
                ..v2
            }
        } else {
            v2
        };
        (
            SchedulerView {
                tasks: v3.tasks.insert(new.0, with_state(v3.tasks[new.0], ThreadState::Running)),
                ..v3
            },
            ScheduleAction { timer, switch: Some(Switch { from: old, to: new }) },
        )
    } else {
        let (v1, timer) = wake_view(SchedulerView { yield_at: None, ..v }, now, period);
        (v1, ScheduleAction { timer, switch: None })
    }
}

/// Running due events keeps the set of threads and their names, and leaves
/// the events in time order with none due at its head.
pub proof fn lemma_run_due_events(v: SchedulerView, now: u64, period: int)
    ensures
        run_due_events(v, now, period).0.tasks.dom() == v.tasks.dom(),
        forall|k: usize| #[trigger] v.tasks.contains_key(k) ==> run_due_events(v, now, period).0.tasks[k].name
            == v.tasks[k].name,
        run_due_events(v, now, period).0.current == v.current,
        run_due_events(v, now, period).0.yield_at == v.yield_at,
        sorted_by_time(v.events) ==> sorted_by_time(run_due_events(v, now, period).0.events),
        period > 0 && run_due_events(v, now, period).0.events.len() > 0 ==> ticks_until(
            run_due_events(v, now, period).0.events[0].time,
            now,
            period,
        ) > 0,
    decreases v.events.len(),
{
    if v.events.len() > 0 && ticks_until(v.events[0].time, now, period) == 0 {
        let (v1, d1) = unblock_view(SchedulerView { events: v.events.drop_first(), ..v }, v.events[0].tid);
        assert(v1.tasks.dom() =~= v.tasks.dom());
        lemma_run_due_events(v1, now, period);
    } else if period > 0 {
        assert(v.events.len() > 0 ==> ticks_until(v.events[0].time, now, period) >= 0) by (
        nonlinear_arith)
            requires
                period > 0,
        ;
    }
}

/// Later events are no nearer: the tick count to an event grows with its
/// time.
pub proof fn lemma_ticks_monotonic(t1: u64, t2: u64, now: u64, period: int)
    requires
        t1 <= t2,
        period > 0,
    ensures
        0 <= ticks_until(t1, now, period) <= ticks_until(t2, now, period),
{
    let d1: int = if t1 > now { t1 - now } else { 0int };
    let d2: int = if t2 > now { t2 - now } else { 0int };
    vstd::arithmetic::div_mod::lemma_div_is_ordered(1000 * d1, 1000 * d2, period);
    vstd::arithmetic::div_mod::lemma_div_is_ordered(0, 1000 * d1, period);
}

/// After the scheduler has looked at its events at `now`, nothing queued is
/// due and the time slice, if one is left, has not ended; the timer is armed
/// exactly when an event or a time slice is pending, and then for at least
/// one tick. The threads, their names and the running thread are unchanged.
pub proof fn lemma_wake_leaves_nothing_due(v: SchedulerView, now: u64, period: int)
    requires
        period > 0,
        sorted_by_time(v.events),
    ensures
        ({
            let (w, a) = wake_view(v, now, period);
            &&& forall|i: int| 0 <= i < w.events.len() ==> ticks_until(w.events[i].time, now, period) > 0
            &&& (w.yield_at matches Some((t, _)) ==> ticks_until(t, now, period) > 0)
            &&& (a.oneshot_ticks is Some <==> (w.events.len() > 0 || w.yield_at is Some))
            &&& (a.oneshot_ticks matches Some(k) ==> k > 0)
            &&& w.tasks.dom() == v.tasks.dom()
            &&& w.current == v.current
            &&& sorted_by_time(w.events)
        }),
{
    lemma_run_due_events(v, now, period);
    let (v1, d) = run_due_events(v, now, period);
    assert forall|i: int| 0 <= i < v1.events.len() implies ticks_until(v1.events[i].time, now, period)
        > 0 by {
        lemma_ticks_monotonic(v1.events[0].time, v1.events[i].time, now, period);
    }
    if v1.events.len() > 0 {
        lemma_ticks_monotonic(v1.events[0].time, v1.events[0].time, now, period);
    }
    if let Some((t, _)) = v1.yield_at {
        lemma_ticks_monotonic(t, t, now, period);
    }
}

/// Blocking, unblocking and scheduling keep the set of threads: no thread is
/// lost or made up.
pub proof fn lemma_threads_kept(v: SchedulerView, tid: Tid, state: ThreadState, now: u64, period: int)
    requires
        period > 0,
        v.tasks.contains_key(v.current.0),
        v.run_queue.len() > 0 ==> v.tasks.contains_key(v.run_queue[0].0),
    ensures
        unblock_view(v, tid).0.tasks.dom() == v.tasks.dom(),
        wake_view(v, now, period).0.tasks.dom() == v.tasks.dom(),
        block_view(v, state, now, period).0.tasks.dom() == v.tasks.dom(),
        schedule_view(v, now, period).0.tasks.dom() == v.tasks.dom(),
{
    assert(unblock_view(v, tid).0.tasks.dom() =~= v.tasks.dom());
    lemma_run_due_events(v, now, period);
    let vb = SchedulerView {
        tasks: v.tasks.insert(v.current.0, with_state(v.tasks[v.current.0], state)),
        yield_at: None,
        ..v
    };
    assert(vb.tasks.dom() =~= v.tasks.dom());
    lemma_run_due_events(vb, now, period);
    if v.run_queue.len() > 0 {
        let new = v.run_queue[0];
        let v1 = SchedulerView {
            run_queue: v.run_queue.drop_first(),
            current: new,
            yield_at: Some(((now + QUANTUM) as u64, new)),
            ..v
        };
        lemma_run_due_events(v1, now, period);
        let (v2, timer) = wake_view(v1, now, period);
        let old = v.current;
        let v3 = if v2.tasks[old.0].state == ThreadState::Running {
            SchedulerView {
                tasks: v2.tasks.insert(old.0, with_state(v2.tasks[old.0], ThreadState::Ready)),
                run_queue: v2.run_queue.push(old),
                ..v2
            }
        } else {
            v2
        };
        assert(v3.tasks.dom() =~= v.tasks.dom());
        assert(v3.tasks.insert(new.0, with_state(v3.tasks[new.0], ThreadState::Running)).dom()
            =~= v.tasks.dom());
    } else {
        lemma_run_due_events(SchedulerView { yield_at: None, ..v }, now, period);
    }
}

/// With a thread waiting, scheduling switches from the running thread to
/// the head of the run queue, which becomes the running thread; the thread
/// that ran, if it was still running, waits at the back of the queue as
/// ready.
pub proof fn lemma_schedule_switches_to_head(v: SchedulerView, now: u64, period: int)
    requires
        period > 0,
        v.run_queue.len() > 0,
        v.run_queue[0] != v.current,
        v.tasks.contains_key(v.current.0),
        v.tasks.contains_key(v.run_queue[0].0),
    ensures
        ({
            let (w, a) = schedule_view(v, now, period);
            &&& a.switch == Some(Switch { from: v.current, to: v.run_queue[0] })
            &&& w.current == v.run_queue[0]
            &&& w.tasks[v.run_queue[0].0].state == ThreadState::Running
            &&& w.yield_at is Some ==> w.yield_at == Some(((now + QUANTUM) as u64, v.run_queue[0]))
            &&& w.tasks.contains_key(v.current.0)
            &&& (w.tasks[v.current.0].state == ThreadState::Ready || w.tasks[v.current.0].state
                == ThreadState::Blocked || w.tasks[v.current.0].state == ThreadState::Running)
        }),
{
    let new = v.run_queue[0];
    let v1 = SchedulerView {
        run_queue: v.run_queue.drop_first(),
        current: new,
        yield_at: Some(((now + QUANTUM) as u64, new)),
        ..v
    };
    lemma_run_due_events(v1, now, period);
}

/// Unblocking a known thread makes it ready and appends it at the back of
/// the run queue, behind every thread already waiting, and asks for a
/// reschedule; no other thread changes. Unblocking an unknown id changes
/// nothing and asks for nothing.
pub proof fn lemma_unblock_appends(v: SchedulerView, tid: Tid)
    ensures
        ({
            let (w, defer) = unblock_view(v, tid);
            &&& v.tasks.contains_key(tid.0) ==> {
                &&& defer
                &&& w.run_queue == v.run_queue.push(tid)
                &&& w.run_queue.len() == v.run_queue.len() + 1
                &&& w.run_queue.last() == tid
                &&& w.run_queue.drop_last() == v.run_queue
                &&& w.tasks.dom() == v.tasks.dom()
                &&& w.tasks[tid.0].state == ThreadState::Ready
                &&& w.tasks[tid.0].name == v.tasks[tid.0].name
                &&& forall|k: usize| k != tid.0 && #[trigger] v.tasks.contains_key(k) ==> w.tasks[k]
                    == v.tasks[k]
                &&& w.current == v.current
                &&& w.events == v.events
                &&& w.yield_at == v.yield_at
            }
            &&& !v.tasks.contains_key(tid.0) ==> !defer && w == v
        }),
{
    if v.tasks.contains_key(tid.0) {
        let (w, defer) = unblock_view(v, tid);
        assert(w.run_queue.drop_last() =~= v.run_queue);
        assert(w.tasks.dom() =~= v.tasks.dom());
    }
}

/// Running the due events only appends to the run queue: the threads that
/// were waiting keep their places at its front. A thread whose state changes
/// becomes ready and is among the threads appended.
pub proof fn lemma_run_due_appends(v: SchedulerView, now: u64, period: int)
    ensures
        ({
            let r = run_due_events(v, now, period).0;
            &&& r.run_queue.len() >= v.run_queue.len()
            &&& r.run_queue.subrange(0, v.run_queue.len() as int) == v.run_queue
            &&& forall|k: usize|
                #[trigger] v.tasks.contains_key(k) ==> r.tasks[k].state == v.tasks[k].state || (
                r.tasks[k].state == ThreadState::Ready && r.run_queue.subrange(
                    v.run_queue.len() as int,
                    r.run_queue.len() as int,
                ).contains(Tid(k)))
            &&& forall|k: usize|
                #[trigger] v.tasks.contains_key(k) && v.tasks[k].state == ThreadState::Ready
                    ==> r.tasks[k].state == ThreadState::Ready
        }),
    decreases v.events.len(),
{
    lemma_run_due_events(v, now, period);
    if v.events.len() > 0 && ticks_until(v.events[0].time, now, period) == 0 {
        let tid = v.events[0].tid;
        let v0 = SchedulerView { events: v.events.drop_first(), ..v };
        let (v1, d1) = unblock_view(v0, tid);
        lemma_run_due_appends(v1, now, period);
        lemma_run_due_events(v1, now, period);
        let r = run_due_events(v1, now, period).0;
        assert(r == run_due_events(v, now, period).0);
        let n = v.run_queue.len() as int;
        let n1 = v1.run_queue.len() as int;
        assert(r.run_queue.subrange(0, n) =~= r.run_queue.subrange(0, n1).subrange(0, n));
        assert(v1.tasks.dom() =~= v.tasks.dom());
        assert forall|k: usize| #[trigger] v.tasks.contains_key(k) implies r.tasks[k].state
            == v.tasks[k].state || (r.tasks[k].state == ThreadState::Ready && r.run_queue.subrange(
            n,
            r.run_queue.len() as int,
        ).contains(Tid(k))) by {
            assert(v1.tasks.contains_key(k));
            if v.tasks.contains_key(tid.0) && k == tid.0 {
                assert(v1.run_queue[n] == tid);
                assert(r.run_queue[n] == v1.run_queue[n]);
                assert(r.run_queue.subrange(n, r.run_queue.len() as int)[0] == Tid(k));
                assert(v1.tasks[k].state == ThreadState::Ready);
            } else {
                assert(v1.tasks[k] == v.tasks[k]);
                if r.tasks[k].state != v.tasks[k].state {
                    let tail1 = r.run_queue.subrange(n1, r.run_queue.len() as int);
                    let tail = r.run_queue.subrange(n, r.run_queue.len() as int);
                    let i = choose|i: int| 0 <= i < tail1.len() && tail1[i] == Tid(k);
                    assert(tail[i + (n1 - n)] == Tid(k));
                }
            }
        }
    }
}

/// When a thread is due to wake (its unblock event is at the head of the
/// queue and its time has come) the scheduler makes it ready, queues it, and
/// asks for a reschedule, whether or not a time slice is running.
pub proof fn lemma_wake_requests_reschedule(v: SchedulerView, now: u64, period: int)
    requires
        period > 0,
        v.events.len() > 0,
        v.events[0].time <= now,
        v.tasks.contains_key(v.events[0].tid.0),
    ensures
        ({
            let (w, a) = wake_view(v, now, period);
            let tid = v.events[0].tid;
            &&& a.defer_schedule
            &&& w.tasks[tid.0].state == ThreadState::Ready
            &&& w.run_queue.contains(tid)
        }),
{
    let tid = v.events[0].tid;
    assert(ticks_until(v.events[0].time, now, period) == 0);
    let v0 = SchedulerView { events: v.events.drop_first(), ..v };
    let (v1, d1) = unblock_view(v0, tid);
    lemma_run_due_appends(v1, now, period);
    let r = run_due_events(v1, now, period).0;
    assert(v1.tasks.contains_key(tid.0));
    let n1 = v1.run_queue.len() as int;
    assert(r.run_queue.subrange(0, n1)[n1 - 1] == tid);
    assert(r.run_queue[n1 - 1] == tid);
}

/// A reschedule that the due events ask for is never lost: when running them
/// unblocks a known thread, the timer interrupt asks for a reschedule,
/// whether a time slice is running, has expired, or there is none.
pub proof fn lemma_wake_keeps_reschedule(v: SchedulerView, now: u64, period: int)
    ensures
        run_due_events(v, now, period).1 ==> wake_view(v, now, period).1.defer_schedule,
{
}

/// Round robin: when the running thread is switched away from while still
/// running, the threads that were waiting behind the head of the run queue
/// move up in order to its front, and the thread that ran is queued, ready,
/// behind all of them.
pub proof fn lemma_schedule_round_robin(v: SchedulerView, now: u64, period: int)
    requires
        v.run_queue.len() > 0,
        v.run_queue[0] != v.current,
        v.tasks.contains_key(v.current.0),
        v.tasks.contains_key(v.run_queue[0].0),
        v.tasks[v.current.0].state == ThreadState::Running,
    ensures
        ({
            let (w, a) = schedule_view(v, now, period);
            let n = v.run_queue.len() as int;
            &&& w.run_queue.len() >= n
            &&& w.run_queue.subrange(0, n - 1) == v.run_queue.drop_first()
            &&& w.run_queue.subrange(n - 1, w.run_queue.len() as int).contains(v.current)
            &&& w.tasks[v.current.0].state == ThreadState::Ready
            &&& !(v.events.len() > 0 && ticks_until(v.events[0].time, now, period) == 0)
                ==> w.run_queue == v.run_queue.drop_first().push(v.current)
        }),
{
    let new = v.run_queue[0];
    let old = v.current;
    let n = v.run_queue.len() as int;
    let v1 = SchedulerView {
        run_queue: v.run_queue.drop_first(),
        current: new,
        yield_at: Some(((now + QUANTUM) as u64, new)),
        ..v
    };
    lemma_run_due_appends(v1, now, period);
    lemma_run_due_events(v1, now, period);
    let (v2, timer) = wake_view(v1, now, period);
    assert(v2.run_queue == run_due_events(v1, now, period).0.run_queue);
    assert(v2.tasks == run_due_events(v1, now, period).0.tasks);
    assert(v1.tasks.contains_key(old.0));
    let (w, a) = schedule_view(v, now, period);
    if v2.tasks[old.0].state == ThreadState::Running {
        assert(w.run_queue == v2.run_queue.push(old));
        assert(w.run_queue.subrange(0, n - 1) =~= v2.run_queue.subrange(0, n - 1));
        let tail = w.run_queue.subrange(n - 1, w.run_queue.len() as int);
        assert(tail[tail.len() - 1] == old);
    } else {
        assert(w.run_queue == v2.run_queue);
        let tail = v2.run_queue.subrange(n - 1, v2.run_queue.len() as int);
        assert(tail.contains(Tid(old.0)));
        assert(Tid(old.0) == old);
    }
}

/// Every thread known has id 0 or an id below `next`, that is, one that a
/// counter now at `next` handed out, counting from 1.
pub open spec fn ids_issued_by(tasks: Map<usize, ThreadControlBlock>, next: usize) -> bool {
    forall|k: usize| #[trigger] tasks.contains_key(k) ==> k == 0 || 1 <= k < next
}

/// The counter's next id after `k` further ids from `c` were handed out.
pub open spec fn counter_after(c: usize, k: nat) -> usize
    decreases k,
{
    if k == 0 {
        c
    } else {
        count_up(counter_after(c, (k - 1) as nat))
    }
}

proof fn lemma_counter_after(c: usize, k: nat)
    requires
        c + k <= usize::MAX,
    ensures
        counter_after(c, k) == c + k,
    decreases k,
{
    if k > 0 {
        lemma_counter_after(c, (k - 1) as nat);
    }
}

/// Ids are never reused and never 0: starting from a counter at `c >= 1`,
/// the id that the `i`-th call of [`Tid::new`] hands out is at least 1 and
/// smaller than the one of any later `j`-th call, as long as the counter does
/// not wrap around.
pub proof fn lemma_ids_increase(c: usize, i: nat, j: nat)
    requires
        1 <= c,
        i < j,
        c + j <= usize::MAX,
    ensures
        1 <= counter_after(c, i) < counter_after(c, j),
{
    lemma_counter_after(c, i);
    lemma_counter_after(c, j);
}

/// A core's scheduler.
#[derive(Debug)]
pub struct Scheduler {
    tasks: std::collections::BTreeMap<usize, ThreadControlBlock>,
    run_queue: std::collections::VecDeque<Tid>,
    current_tid: Tid,
    pub event_queue: EventQueue,
}

impl View for Scheduler {
    type V = SchedulerView;

    closed spec fn view(&self) -> SchedulerView {
        SchedulerView {
            tasks: self.tasks@,
            run_queue: self.run_queue@,
            current: self.current_tid,
            events: self.event_queue.events(),
            yield_at: self.event_queue.yield_at(),
        }
    }
}

/// The number of timer ticks from `now` until `time`, for ticks of `period`
/// picoseconds.
fn ticks_to_event(time: u64, now: u64, period: u128) -> (ticks: u128)
    requires
        period > 0,
    ensures
        ticks == ticks_until(time, now, period as int),
{
    let wait: u64 = if time > now {
        time - now
    } else {
        0
    };
    (1000 * (wait as u128)) / period
}

impl Scheduler {
    /// A scheduler with no threads, running thread 0.
    pub fn new() -> (s: Self)
        ensures
            s@.tasks == Map::<usize, ThreadControlBlock>::empty(),
            s@.run_queue == Seq::<Tid>::empty(),
            s@.current == Tid(0),
            s@.events == Seq::<SchedulerEvent>::empty(),
            s@.yield_at is None,
            sorted_by_time(s@.events),
    {
        Scheduler {
            tasks: std::collections::BTreeMap::new(),
            run_queue: std::collections::VecDeque::new(),
            current_tid: Tid(0),
            event_queue: EventQueue::new(),
        }
    }

    /// Records the boot thread as thread 0. The scheduler must not know a
    /// thread 0 yet.
    pub fn init(&mut self, tid0: ThreadControlBlock)
        requires
            !old(self)@.tasks.contains_key(0),
        ensures
            final(self)@ == (SchedulerView { tasks: old(self)@.tasks.insert(0, tid0), ..old(self)@ }),
            sorted_by_time(final(self)@.events),
    {
        proof {
            use_type_invariant(&self.event_queue);
        }
        self.tasks.insert(0, tid0);
    }

    /// The thread that runs now.
    pub fn current_tid(&self) -> (tid: Tid)
        ensures
            tid == self@.current,
    {
        self.current_tid
    }

    /// Whether the scheduler knows thread `tid`.
    pub fn has_task(&self, tid: Tid) -> (known: bool)
        ensures
            known == self@.tasks.contains_key(tid.0),
    {
        self.tasks.contains_key(&tid.0)
    }

    /// The state of thread `tid`, if the scheduler knows it.
    pub fn task_state(&self, tid: Tid) -> (state: Option<ThreadState>)
        ensures
            self@.tasks.contains_key(tid.0) ==> state == Some(self@.tasks[tid.0].state),
            !self@.tasks.contains_key(tid.0) ==> state is None,
    {
        match self.tasks.get(&tid.0) {
            Some(t) => Some(t.state),
            None => None,
        }
    }

    /// The thread at the head of the run queue, if any.
    pub fn next_in_queue(&self) -> (tid: Option<Tid>)
        ensures
            self@.run_queue.len() == 0 ==> tid is None,
            self@.run_queue.len() > 0 ==> tid == Some(self@.run_queue[0]),
    {
        if self.run_queue.len() == 0 {
            None
        } else {
            Some(self.run_queue[0])
        }
    }

    /// Adds a thread, ready to run, under the next id from `counter`, and
    /// always asks for a reschedule. When every thread known has id 0 or an
    /// id that `counter` handed out before, and the counter has not wrapped
    /// around, the new id is fresh and that stays so.
    pub fn add_task(&mut self, counter: &mut TidCounter, tcb: ThreadControlBlock) -> (added: AddedTask)
        ensures
            added.tid.0 == old(counter).next_id(),
            added.defer_schedule,
            final(counter).next_id() == count_up(old(counter).next_id()),
            final(self)@ == (SchedulerView {
                tasks: old(self)@.tasks.insert(added.tid.0, tcb),
                run_queue: old(self)@.run_queue.push(added.tid),
                ..old(self)@
            }),
            1 <= old(counter).next_id() < usize::MAX && ids_issued_by(
                old(self)@.tasks,
                old(counter).next_id(),
            ) ==> {
                &&& !old(self)@.tasks.contains_key(added.tid.0)
                &&& added.tid.0 != 0
                &&& ids_issued_by(final(self)@.tasks, final(counter).next_id())
            },
            sorted_by_time(final(self)@.events),
    {
        proof {
            use_type_invariant(&self.event_queue);
        }
        let tid = Tid::new(counter);
        self.tasks.insert(tid.0, tcb);
        self.run_queue.push_back(tid);
        AddedTask { tid, defer_schedule: true }
    }

    /// Makes thread `tid` ready to run again; see [`unblock_view`]. True when a
    /// reschedule must be requested.
    pub fn unblock(&mut self, tid: Tid) -> (defer: bool)
        ensures
            (final(self)@, defer) == unblock_view(old(self)@, tid),
            sorted_by_time(final(self)@.events),
    {
        proof {
            use_type_invariant(&self.event_queue);
        }
        match self.tasks.remove(&tid.0) {
            Some(tcb) => {
                let ThreadControlBlock { name, state: _ } = tcb;
                self.tasks.insert(tid.0, ThreadControlBlock { name, state: ThreadState::Ready });
                self.run_queue.push_back(tid);
                proof {
                    assert(self.tasks@ =~= old(self)@.tasks.insert(
                        tid.0,
                        with_state(old(self)@.tasks[tid.0], ThreadState::Ready),
                    ));
                }
                true
            },
            None => {
                proof {
                    assert(self.tasks@ =~= old(self)@.tasks);
                }
                false
            },
        }
    }

    /// Applies a timed event.
    fn handle_event(&mut self, event: SchedulerEvent) -> (defer: bool)
        ensures
            (final(self)@, defer) == unblock_view(old(self)@, event.tid),
    {
        match event.action {
            EventTy::Unblock => self.unblock(event.tid),
        }
    }

    /// Runs the events that are due at `now` and says how to set the timer;
    /// see [`wake_view`]. `tick_period_picos` is the local timer's period in
    /// picoseconds before the divisor of 4 that the scheduler programs, so
    /// one tick lasts `4 * tick_period_picos` picoseconds.
    pub fn wake_and_reset_timer(&mut self, now: u64, tick_period_picos: u64) -> (action: TimerAction)
        requires
            tick_period_picos > 0,
            tick_period_picos * 4 <= u64::MAX,
        ensures
            (final(self)@, action) == wake_view(old(self)@, now, tick_period_picos * 4),
            sorted_by_time(final(self)@.events),
    {
        proof {
            use_type_invariant(&self.event_queue);
        }
        let tick_period: u128 = (tick_period_picos * 4) as u128;
        let ghost period = tick_period as int;
        let mut defer = false;
        let mut timer_ticks: Option<u128> = None;
        loop
            invariant_except_break
                timer_ticks is None,
            invariant
                period == tick_period_picos * 4,
                tick_period == period,
                period > 0,
                sorted_by_time(self@.events),
                run_due_events(old(self)@, now, period) == (
                    run_due_events(self@, now, period).0,
                    defer || run_due_events(self@, now, period).1,
                ),
            ensures
                run_due_events(old(self)@, now, period) == (self@, defer),
                self@.events.len() > 0 ==> timer_ticks == Some(
                    ticks_until(self@.events[0].time, now, period) as u128,
                ),
                self@.events.len() == 0 ==> timer_ticks is None,
            decreases self@.events.len(),
        {
            match self.event_queue.front_time() {
                None => {
                    break;
                },
                Some(time) => {
                    let ticks = ticks_to_event(time, now, tick_period);
                    if ticks == 0 {
                        let ghost before = self@;
                        let event = self.event_queue.pop_front().unwrap();
                        proof {
                            assert(self@ == (SchedulerView { events: before.events.drop_first(), ..before }));
                        }
                        let d = self.handle_event(event);
                        defer = defer || d;
                    } else {
                        timer_ticks = Some(ticks);
                        break;
                    }
                },
            }
        }
        match self.event_queue.yield_event() {
            Some((t, _)) => {
                let ticks = ticks_to_event(t, now, tick_period);
                if ticks == 0 {
                    self.event_queue.set_yield_event(None);
                    defer = true;
                } else {
                    timer_ticks = Some(
                        match timer_ticks {
                            Some(current) => if current < ticks {
                                current
                            } else {
                                ticks
                            },
                            None => ticks,
                        },
                    );
                }
            },
            None => {},
        }
        TimerAction { defer_schedule: defer, oneshot_ticks: timer_ticks }
    }

    /// Blocks the running thread in `state` and resets the timer; see
    /// [`block_view`]. The running thread must be known.
    pub fn block(&mut self, state: ThreadState, now: u64, tick_period_picos: u64) -> (action: TimerAction)
        requires
            old(self)@.tasks.contains_key(old(self)@.current.0),
            tick_period_picos > 0,
            tick_period_picos * 4 <= u64::MAX,
        ensures
            (final(self)@, action) == block_view(old(self)@, state, now, tick_period_picos * 4),
            sorted_by_time(final(self)@.events),
    {
        proof {
            use_type_invariant(&self.event_queue);
        }
        let current = self.current_tid;
        let tcb = self.tasks.remove(&current.0).unwrap();
        let ThreadControlBlock { name, state: _ } = tcb;
        self.tasks.insert(current.0, ThreadControlBlock { name, state });
        self.event_queue.set_yield_event(None);
        proof {
            assert(self.tasks@ =~= old(self)@.tasks.insert(
                current.0,
                with_state(old(self)@.tasks[current.0], state),
            ));
        }
        let timer = self.wake_and_reset_timer(now, tick_period_picos);
        TimerAction { defer_schedule: true, oneshot_ticks: timer.oneshot_ticks }
    }

    /// Puts the running thread to sleep until `time_of_wake`; see
    /// [`sleep_until_view`]. The running thread must be known.
    pub fn pinned_sleep(&mut self, time_of_wake: u64, now: u64, tick_period_picos: u64) -> (action:
        TimerAction)
        requires
            old(self)@.tasks.contains_key(old(self)@.current.0),
            tick_period_picos > 0,
            tick_period_picos * 4 <= u64::MAX,
        ensures
            (final(self)@, action) == sleep_until_view(old(self)@, time_of_wake, now, tick_period_picos
                * 4),
            sorted_by_time(final(self)@.events),
    {
        proof {
            use_type_invariant(&self.event_queue);
        }
        let sleep_event = SchedulerEvent {
            tid: self.current_tid,
            time: time_of_wake,
            action: EventTy::Unblock,
        };
        self.event_queue.add(sleep_event);
        self.block(ThreadState::Blocked, now, tick_period_picos)
    }

    /// Puts the running thread to sleep for `duration` nanoseconds from `now`;
    /// see [`sleep_view`]. Only sleeps of at most one second are supported.
    pub fn sleep(&mut self, duration: u64, now: u64, tick_period_picos: u64) -> (action: TimerAction)
        requires
            duration <= 1_000_000_000,
            now + duration <= u64::MAX,
            old(self)@.tasks.contains_key(old(self)@.current.0),
            tick_period_picos > 0,
            tick_period_picos * 4 <= u64::MAX,
        ensures
            (final(self)@, action) == sleep_view(old(self)@, duration, now, tick_period_picos * 4),
            sorted_by_time(final(self)@.events),
    {
        proof {
            use_type_invariant(&self.event_queue);
        }
        self.pinned_sleep(now + duration, now, tick_period_picos)
    }

    /// Puts the running thread to sleep until `wake_time`; see
    /// [`Scheduler::pinned_sleep`].
    pub fn sleep_until(&mut self, wake_time: u64, now: u64, tick_period_picos: u64) -> (action:
        TimerAction)
        requires
            old(self)@.tasks.contains_key(old(self)@.current.0),
            tick_period_picos > 0,
            tick_period_picos * 4 <= u64::MAX,
        ensures
            (final(self)@, action) == sleep_until_view(old(self)@, wake_time, now, tick_period_picos * 4),
            sorted_by_time(final(self)@.events),
    {
        proof {
            use_type_invariant(&self.event_queue);
        }
        self.pinned_sleep(wake_time, now, tick_period_picos)
    }

    /// Decides which thread runs next at `now`; see [`schedule_view`]. With a
    /// thread waiting, it must be another thread than the running one, and
    /// both must be known; with none waiting, the running thread must be
    /// known and still running.
    pub fn schedule(&mut self, now: u64, tick_period_picos: u64) -> (action: ScheduleAction)
        requires
            tick_period_picos > 0,
            tick_period_picos * 4 <= u64::MAX,
            old(self)@.run_queue.len() > 0 ==> {
                &&& old(self)@.run_queue[0] != old(self)@.current
                &&& old(self)@.tasks.contains_key(old(self)@.run_queue[0].0)
                &&& old(self)@.tasks.contains_key(old(self)@.current.0)
                &&& now + QUANTUM <= u64::MAX
            },
            old(self)@.run_queue.len() == 0 ==> {
                &&& old(self)@.tasks.contains_key(old(self)@.current.0)
                &&& old(self)@.tasks[old(self)@.current.0].state == ThreadState::Running
            },
        ensures
            (final(self)@, action) == schedule_view(old(self)@, now, tick_period_picos * 4),
            sorted_by_time(final(self)@.events),
    {
        proof {
            use_type_invariant(&self.event_queue);
        }
        match self.run_queue.pop_front() {
            Some(new_tid) => {
                let old_tid = self.current_tid;
                self.current_tid = new_tid;
                self.event_queue.set_yield_event(Some((now + QUANTUM, new_tid)));
                let ghost v1 = self@;
                proof {
                    use_type_invariant(&self.event_queue);
                    lemma_run_due_events(v1, now, tick_period_picos * 4);
                }
                let timer = self.wake_and_reset_timer(now, tick_period_picos);
                let ghost v2 = self@;
                let old_tcb = self.tasks.remove(&old_tid.0).unwrap();
                let ThreadControlBlock { name: old_name, state: old_state } = old_tcb;
                if old_state == ThreadState::Running {
                    self.tasks.insert(
                        old_tid.0,
                        ThreadControlBlock { name: old_name, state: ThreadState::Ready },
                    );
                    self.run_queue.push_back(old_tid);
                    proof {
                        assert(self.tasks@ =~= v2.tasks.insert(
                            old_tid.0,
                            with_state(v2.tasks[old_tid.0], ThreadState::Ready),
                        ));
                    }
                } else {
                    self.tasks.insert(old_tid.0, ThreadControlBlock { name: old_name, state: old_state });
                    proof {
                        assert(self.tasks@ =~= v2.tasks);
                    }
                }
                let ghost v3 = self@;
                let new_tcb = self.tasks.remove(&new_tid.0).unwrap();
                let ThreadControlBlock { name: new_name, state: _ } = new_tcb;
                self.tasks.insert(new_tid.0, ThreadControlBlock { name: new_name, state: ThreadState::Running });
                proof {
                    assert(self.tasks@ =~= v3.tasks.insert(
                        new_tid.0,
                        with_state(v3.tasks[new_tid.0], ThreadState::Running),
                    ));
                }
                ScheduleAction { timer, switch: Some(Switch { from: old_tid, to: new_tid }) }
            },
            None => {
                self.event_queue.set_yield_event(None);
                let timer = self.wake_and_reset_timer(now, tick_period_picos);
                ScheduleAction { timer, switch: None }
            },
        }
    }
}

} // verus!