use vstd::prelude::*;
use crate::syscalls::ThreadServices;

verus! {

/// Bytes of stack given to every thread.
pub const THREAD_STACK_SIZE: usize = 8192;

/// Id of the idle thread, which runs whenever no other thread is ready.
pub const IDLE_THREAD_ID: usize = 0;

/// Number of timer ticks a thread may run before the scheduler is invoked.
pub const SCHEDULER_INTERVAL: u32 = 5;

/// Bytes of the context frame synthesised on a new thread's stack
/// (CPSR, link register and r0-r12: fifteen words).
pub const INITIAL_FRAME_SIZE: usize = 60;

/// A message delivered by an interrupt handler to a subscribed thread.
#[derive(Debug, Clone, Copy, PartialEq, Eq, Structural)]
pub enum ThreadMessage {
    DBGU(u8),
}

/// Why a thread is blocked.
#[derive(Debug)]
pub enum WaitingReason {
    /// Blocked on a character from the debug unit.
    DBGU,
    /// Blocked until the real-time counter reaches the given tick.
    Sleep(usize),
    /// Blocked until every listed child has stopped, or the optional tick is reached.
    Join(Vec<usize>, Option<usize>),
}

/// Scheduling state of a thread.
#[derive(Debug)]
pub enum ThreadState {
    Ready,
    Running,
    Waiting(WaitingReason),
    Stopped,
}

/// Per-thread message queues, one for each service the thread subscribed to.
#[derive(Debug)]
pub struct Subscriptions {
    pub dbgu: Option<Vec<ThreadMessage>>,
}

impl View for Subscriptions {
    type V = Map<ThreadServices, Seq<ThreadMessage>>;

    open spec fn view(&self) -> Map<ThreadServices, Seq<ThreadMessage>> {
        match self.dbgu {
            Some(q) => map![ThreadServices::DBGU => q@],
            None => Map::empty(),
        }
    }
}

impl Subscriptions {
    /// Whether the service has a queue.
    pub fn contains(&self, service: ThreadServices) -> (r: bool)
        ensures
            r == self@.contains_key(service),
    {
        match service {
            ThreadServices::DBGU => self.dbgu.is_some(),
        }
    }

    /// Adds an empty queue for the service; `false`, and nothing changed, if it had one.
    pub fn insert(&mut self, service: ThreadServices) -> (r: bool)
        ensures
            r == !old(self)@.contains_key(service),
            r ==> final(self)@ == old(self)@.insert(service, Seq::empty()),
            !r ==> *final(self) == *old(self),
    {
        match service {
            ThreadServices::DBGU => {
                if self.dbgu.is_some() {
                    false
                } else {
                    self.dbgu = Some(Vec::new());
                    proof {
                        assert(self@ =~= old(self)@.insert(service, Seq::empty()));
                    }
                    true
                }
            },
        }
    }

    /// Drops the service's queue; `false`, and nothing changed, if it had none.
    pub fn remove(&mut self, service: ThreadServices) -> (r: bool)
        ensures
            r == old(self)@.contains_key(service),
            final(self)@ == old(self)@.remove(service),
    {
        match service {
            ThreadServices::DBGU => {
                let had = self.dbgu.is_some();
                self.dbgu = None;
                proof {
                    assert(self@ =~= old(self)@.remove(service));
                }
                had
            },
        }
    }

    /// Appends a message to the service's queue, if the service has one.
    pub fn push_back(&mut self, service: ThreadServices, m: ThreadMessage)
        ensures
            old(self)@.contains_key(service) ==> final(self)@ == old(self)@.insert(
                service,
                old(self)@[service].push(m),
            ),
            !old(self)@.contains_key(service) ==> final(self)@ == old(self)@,
    {
        match service {
            ThreadServices::DBGU => {
                match &mut self.dbgu {
                    Some(q) => {
                        q.push(m);
                    },
                    None => {},
                }
                proof {
                    assert(self@ =~= old(self)@.insert(service, old(self)@[service].push(m))
                        || !old(self)@.contains_key(service));
                }
            },
        }
    }

    /// Takes the oldest message of the service's queue.
    pub fn pop_front(&mut self, service: ThreadServices) -> (r: Option<ThreadMessage>)
        ensures
            r is None ==> *final(self) == *old(self),
            !old(self)@.contains_key(service) ==> r is None,
            old(self)@.contains_key(service) && old(self)@[service].len() == 0 ==> r is None,
            old(self)@.contains_key(service) && old(self)@[service].len() > 0 ==> r == Some(
                old(self)@[service][0],
            ) && final(self)@ == old(self)@.insert(service, old(self)@[service].drop_first()),
    {
        match service {
            ThreadServices::DBGU => {
                let r = match &mut self.dbgu {
                    Some(q) => {
                        if q.len() > 0 {
                            Some(q.remove(0))
                        } else {
                            None
                        }
                    },
                    None => None,
                };
                proof {
                    if old(self)@.contains_key(service) && old(self)@[service].len() > 0 {
                        assert(self@ =~= old(self)@.insert(service, old(self)@[service].drop_first()));
                    } else {
                        assert(self@ =~= old(self)@);
                    }
                }
                r
            },
        }
    }
}

/// Thread control block: the kernel's record of one thread.
#[derive(Debug)]
pub struct TCB {
    pub id: usize,
    pub state: ThreadState,
    /// Handle of the entry closure, kept by the runtime glue.
    pub entry: usize,
    /// Saved stack pointer; meaningful while the thread is not running.
    pub stack_current: usize,
    /// Top of the thread's downward-growing stack region.
    pub stack_start: usize,
    pub parent_thread_id: usize,
    pub subscribed_services: Subscriptions,
}

/// A context switch decided by the scheduler, between two thread ids.
#[derive(Debug, Clone, Copy, PartialEq, Eq, Structural)]
pub struct Switch {
    pub from: usize,
    pub to: usize,
}

/// Fatal kernel errors: each is a programming error of the calling thread.
#[derive(Debug, Clone, Copy, PartialEq, Eq, Structural)]
pub enum KernelError {
    /// The service id names no service.
    InvalidService,
    /// `Subscribe` on a service the thread already subscribed to.
    AlreadySubscribed,
    /// `Unsubscribe` or `ReceiveDBGU` on a service the thread did not subscribe to.
    NotSubscribed,
    /// `JoinThread` on a thread whose parent is not the caller.
    NotParent,
    /// A thread woken for a character found its queue empty.
    MissingMessage,
}

pub open spec fn is_join(st: ThreadState) -> bool {
    st matches ThreadState::Waiting(WaitingReason::Join(_, _))
}

pub open spec fn join_ids(st: ThreadState) -> Seq<usize> {
    match st {
        ThreadState::Waiting(WaitingReason::Join(ids, _)) => ids@,
        _ => Seq::empty(),
    }
}

/// Per-thread validity: a join set is a non-empty set, and a parent is older than its child.
pub open spec fn tcb_wf(t: TCB) -> bool {
    &&& is_join(t.state) ==> join_ids(t.state).len() > 0 && join_ids(t.state).no_duplicates()
    &&& t.id != IDLE_THREAD_ID ==> t.parent_thread_id < t.id
}

/// Thread table, current thread and id counter.
#[derive(Debug)]
pub struct Runtime {
    /// All threads, in creation order; the idle thread comes first.
    pub threads: Vec<TCB>,
    pub running_thread_id: usize,
    /// The id the next created thread gets.
    pub last_thread_id: usize,
    /// Timer ticks left before the scheduler preempts the running thread.
    pub scheduler_interval_counter: u32,
}

/// Some thread in the table has this id.
pub open spec fn has_id(s: Seq<TCB>, id: usize) -> bool {
    exists|i: int| 0 <= i < s.len() && s[i].id == id
}

/// Ids strictly increase along the table.
pub open spec fn ids_increasing(s: Seq<TCB>) -> bool {
    forall|i: int, j: int| 0 <= i < j < s.len() ==> s[i].id < s[j].id
}

/// The table as the scheduler may find it: the current thread may have just
/// blocked or stopped itself, but no other thread is `Running`.
pub open spec fn table_wf_core(s: Seq<TCB>, running: usize, last: usize) -> bool {
    &&& s.len() > 0
    &&& s[0].id == IDLE_THREAD_ID
    &&& (s[0].state is Running || s[0].state is Ready)
    &&& ids_increasing(s)
    &&& forall|i: int| 0 <= i < s.len() ==> s[i].id < last && tcb_wf(#[trigger] s[i])
    &&& forall|i: int|
        0 <= i < s.len() ==> ((#[trigger] s[i]).state is Running ==> s[i].id == running)
    &&& forall|i: int|
        0 <= i < s.len() ==> ((#[trigger] s[i]).id == running ==> !(s[i].state is Ready))
    &&& has_id(s, running)
}

/// The table at a quiescent point: exactly the current thread is `Running`.
pub open spec fn table_wf(s: Seq<TCB>, running: usize, last: usize) -> bool {
    &&& table_wf_core(s, running, last)
    &&& forall|i: int|
        0 <= i < s.len() ==> ((#[trigger] s[i]).id == running ==> s[i].state is Running)
}

/// Index of the thread with this id (meaningful when `has_id`).
pub open spec fn position_of(s: Seq<TCB>, id: usize) -> int {
    choose|i: int| 0 <= i < s.len() && s[i].id == id
}

/// A thread survives reaping unless it stopped and is not the current one.
pub open spec fn keep(t: TCB, running: usize) -> bool {
    !(t.state is Stopped) || t.id == running
}

/// The table without stopped threads other than the current one, order kept.
pub open spec fn reaped(s: Seq<TCB>, running: usize) -> Seq<TCB>
    decreases s.len(),
{
    if s.len() == 0 {
        Seq::empty()
    } else {
        let r = reaped(s.drop_last(), running);
        if keep(s.last(), running) {
            r.push(s.last())
        } else {
            r
        }
    }
}

/// Round-robin scan: the first `Ready` thread other than the idle one, looking
/// at positions `pos + k, pos + k + 1, ...` cyclically, before coming back to `pos`.
pub open spec fn rr_scan(s: Seq<TCB>, pos: int, k: int) -> Option<int>
    decreases s.len() - k,
{
    if 0 <= k < s.len() {
        let j = (pos + k) % (s.len() as int);
        if j != 0 && s[j].state is Ready {
            Some(j)
        } else {
            rr_scan(s, pos, k + 1)
        }
    } else {
        None
    }
}

/// The explicitly requested thread, if it exists and is `Ready`.
pub open spec fn explicit_choice(s: Seq<TCB>, next: Option<usize>) -> Option<int> {
    match next {
        Some(n) => if has_id(s, n) && s[position_of(s, n)].state is Ready {
            Some(position_of(s, n))
        } else {
            None
        },
        None => None,
    }
}

/// Position the scheduler switches to, or `None` when the current thread
/// (at `pos`) keeps running.
pub open spec fn scheduled_position(s: Seq<TCB>, pos: int, next: Option<usize>) -> Option<int> {
    if explicit_choice(s, next) is Some {
        explicit_choice(s, next)
    } else if rr_scan(s, pos, 1) is Some {
        rr_scan(s, pos, 1)
    } else if s[pos].state is Running {
        None
    } else {
        Some(0)
    }
}

/// What one scheduler pass does: from table `s0` with current thread
/// `running` and preemption counter `counter`, asked for `next`, it answers
/// `r` and leaves table `s1`, current thread `running1` and counter `counter1`.
pub open spec fn schedule_result(
    s0: Seq<TCB>,
    running: usize,
    counter: u32,
    next: Option<usize>,
    r: Option<Switch>,
    s1: Seq<TCB>,
    running1: usize,
    counter1: u32,
) -> bool {
    let s = reaped(s0, running);
    let pos = position_of(s, running);
    match scheduled_position(s, pos, next) {
        None => {
            &&& r is None
            &&& s1 == s
            &&& running1 == running
            &&& counter1 == counter
        },
        Some(c) => {
            &&& r == Some(Switch { from: running, to: s[c].id })
            &&& s1 == switched(s, pos, c)
            &&& running1 == s[c].id
            &&& counter1 == SCHEDULER_INTERVAL
        },
    }
}

pub open spec fn with_state(t: TCB, st: ThreadState) -> TCB {
    TCB { state: st, ..t }
}

/// The table after switching from `pos` to `c`: the incoming thread runs, and
/// the outgoing one becomes `Ready` only if it was still running.
pub open spec fn switched(s: Seq<TCB>, pos: int, c: int) -> Seq<TCB> {
    let s1 = s.update(c, with_state(s[c], ThreadState::Running));
    if s[pos].state is Running {
        s1.update(pos, with_state(s[pos], ThreadState::Ready))
    } else {
        s1
    }
}

/// The thread with this id has been created and is stopped or already reaped.
pub open spec fn finished(s: Seq<TCB>, last: usize, id: usize) -> bool {
    &&& id < last
    &&& forall|i: int| 0 <= i < s.len() && #[trigger] s[i].id == id ==> s[i].state is Stopped
}

/// No finished thread comes back.
pub open spec fn finished_stays(s0: Seq<TCB>, last0: usize, s1: Seq<TCB>, last1: usize) -> bool {
    forall|id: usize| finished(s0, last0, id) ==> #[trigger] finished(s1, last1, id)
}

pub open spec fn new_tcb(id: usize, entry: usize, stack_start: usize, parent: usize) -> TCB {
    TCB {
        id,
        state: ThreadState::Ready,
        entry,
        stack_current: (stack_start - INITIAL_FRAME_SIZE) as usize,
        stack_start,
        parent_thread_id: parent,
        subscribed_services: Subscriptions { dbgu: None },
    }
}

proof fn lemma_reaped(s: Seq<TCB>, running: usize)
    requires
        ids_increasing(s),
    ensures
        ids_increasing(reaped(s, running)),
        reaped(s, running).len() <= s.len(),
        forall|i: int|
            0 <= i < reaped(s, running).len() ==> s.contains(#[trigger] reaped(s, running)[i]),
        forall|i: int|
            0 <= i < reaped(s, running).len() ==> keep(#[trigger] reaped(s, running)[i], running),
        forall|j: int|
            0 <= j < s.len() && keep(#[trigger] s[j], running) ==> reaped(s, running).contains(s[j]),
        s.len() > 0 && keep(s[0], running) ==> reaped(s, running).len() > 0 && reaped(s, running)[0]
            == s[0],
    decreases s.len(),
{
    if s.len() > 0 {
        let p = s.drop_last();
        let rp = reaped(p, running);
        let r = reaped(s, running);
        assert(ids_increasing(p));
        lemma_reaped(p, running);
        assert forall|i: int| 0 <= i < rp.len() implies (#[trigger] rp[i]).id < s.last().id by {
            let k = choose|k: int| 0 <= k < p.len() && p[k] == rp[i];
            assert(s[k] == p[k]);
        }
        if keep(s.last(), running) {
            assert(r == rp.push(s.last()));
            assert forall|i: int| 0 <= i < r.len() implies s.contains(#[trigger] r[i]) by {
                if i < rp.len() {
                    assert(r[i] == rp[i]);
                    let k = choose|k: int| 0 <= k < p.len() && p[k] == rp[i];
                    assert(s[k] == p[k]);
                } else {
                    assert(r[i] == s[s.len() - 1]);
                }
            }
            assert forall|j: int|
                0 <= j < s.len() && keep(#[trigger] s[j], running) implies r.contains(s[j]) by {
                if j < s.len() - 1 {
                    assert(p[j] == s[j]);
                    assert(rp.contains(p[j]));
                    let k = choose|k: int| 0 <= k < rp.len() && rp[k] == p[j];
                    assert(r[k] == rp[k]);
                } else {
                    assert(r[rp.len() as int] == s[j]);
                }
            }
            assert forall|i: int| 0 <= i < r.len() implies keep(#[trigger] r[i], running) by {
                if i < rp.len() {
                    assert(r[i] == rp[i]);
                }
            }
            if s.len() > 1 && keep(s[0], running) {
                assert(p[0] == s[0]);
            }
        } else {
            assert(r == rp);
            assert forall|i: int| 0 <= i < r.len() implies s.contains(#[trigger] r[i]) by {
                let k = choose|k: int| 0 <= k < p.len() && p[k] == rp[i];
                assert(s[k] == p[k]);
            }
            assert forall|j: int|
                0 <= j < s.len() && keep(#[trigger] s[j], running) implies r.contains(s[j]) by {
                assert(j < s.len() - 1);
                assert(p[j] == s[j]);
            }
            if s.len() > 1 && keep(s[0], running) {
                assert(p[0] == s[0]);
            }
        }
    }
}

/// Reaping keeps a table valid for the scheduler.
proof fn lemma_reaped_wf(s: Seq<TCB>, running: usize, last: usize)
    requires
        table_wf_core(s, running, last),
    ensures
        table_wf_core(reaped(s, running), running, last),
        finished_stays(s, last, reaped(s, running), last),
{
    lemma_reaped(s, running);
    let r = reaped(s, running);
    assert(keep(s[0], running));
    assert forall|i: int| 0 <= i < r.len() implies (#[trigger] r[i]).id < last && tcb_wf(r[i])
        && (r[i].state is Running ==> r[i].id == running) && (r[i].id == running ==> !(
    r[i].state is Ready)) by {
        assert(s.contains(r[i]));
    }
    let k = choose|k: int| 0 <= k < s.len() && s[k].id == running;
    assert(keep(s[k], running));
    assert(r.contains(s[k]));
    assert forall|id: usize| finished(s, last, id) implies #[trigger] finished(r, last, id) by {
        assert forall|i: int| 0 <= i < r.len() && #[trigger] r[i].id == id implies r[i].state is Stopped by {
            assert(s.contains(r[i]));
        }
    }
}

/// Ids are unique, so an index holding the id is the one `position_of` picks.
pub proof fn lemma_position_of(s: Seq<TCB>, i: int)
    requires
        ids_increasing(s),
        0 <= i < s.len(),
    ensures
        position_of(s, s[i].id) == i,
        has_id(s, s[i].id),
{
    let id = s[i].id;
    assert(has_id(s, id));
    let p = position_of(s, id);
    if p < i {
        assert(s[p].id < s[i].id);
    } else if p > i {
        assert(s[i].id < s[p].id);
    }
}

impl Runtime {
    /// The table holds the idle thread first, ids strictly increase and stay
    /// below the id counter, and exactly the current thread is `Running`.
    pub open spec fn wf(&self) -> bool {
        table_wf(self.threads@, self.running_thread_id, self.last_thread_id)
    }
}

impl Runtime {
    /// Creates the idle thread (id 0) and the first real thread (id 1), and
    /// makes the first thread the running one. The runtime glue then jumps to
    /// the first thread's entry on its own stack.
    pub fn init_runtime(idle_entry: usize, idle_stack: usize, entry: usize, stack: usize) -> (r:
        Runtime)
        requires
            idle_stack >= INITIAL_FRAME_SIZE,
            stack >= INITIAL_FRAME_SIZE,
        ensures
            r.wf(),
            r.running_thread_id == 1,
            r.last_thread_id == 2,
            r.scheduler_interval_counter == 0,
            r.threads@ == seq![
                new_tcb(IDLE_THREAD_ID, idle_entry, idle_stack, IDLE_THREAD_ID),
                TCB {
                    state: ThreadState::Running,
                    stack_current: stack,
                    ..new_tcb(1, entry, stack, IDLE_THREAD_ID)
                },
            ],
    {
        let mut rt = Runtime {
            threads: Vec::new(),
            running_thread_id: IDLE_THREAD_ID,
            last_thread_id: 0,
            scheduler_interval_counter: 0,
        };
        rt.threads.push(
            TCB {
                id: IDLE_THREAD_ID,
                state: ThreadState::Ready,
                entry: idle_entry,
                stack_current: idle_stack - INITIAL_FRAME_SIZE,
                stack_start: idle_stack,
                parent_thread_id: IDLE_THREAD_ID,
                subscribed_services: Subscriptions { dbgu: None },
            },
        );
        rt.threads.push(
            TCB {
                id: 1,
                state: ThreadState::Running,
                entry,
                stack_current: stack,
                stack_start: stack,
                parent_thread_id: IDLE_THREAD_ID,
                subscribed_services: Subscriptions { dbgu: None },
            },
        );
        rt.running_thread_id = 1;
        rt.last_thread_id = 2;
        proof {
            assert(rt.threads@[1].id == 1);
        }
        rt
    }

    /// Adds a `Ready` thread whose saved context sits at the top of the given
    /// stack, child of the current thread; returns its id, the next unused one.
    pub fn create_thread_internal(&mut self, entry: usize, stack_start: usize) -> (id: usize)
        requires
            old(self).wf(),
            old(self).last_thread_id < usize::MAX,
            stack_start >= INITIAL_FRAME_SIZE,
        ensures
            final(self).wf(),
            id == old(self).last_thread_id,
            final(self).last_thread_id == id + 1,
            forall|i: int| 0 <= i < old(self).threads@.len() ==> old(self).threads@[i].id < id,
            final(self).threads@ == old(self).threads@.push(
                new_tcb(id, entry, stack_start, old(self).running_thread_id),
            ),
            final(self).running_thread_id == old(self).running_thread_id,
            final(self).scheduler_interval_counter == old(self).scheduler_interval_counter,
            finished_stays(
                old(self).threads@,
                old(self).last_thread_id,
                final(self).threads@,
                final(self).last_thread_id,
            ),
    {
        let id = self.last_thread_id;
        self.last_thread_id = id + 1;
        let tcb = TCB {
            id,
            state: ThreadState::Ready,
            entry,
            stack_current: stack_start - INITIAL_FRAME_SIZE,
            stack_start,
            parent_thread_id: self.running_thread_id,
            subscribed_services: Subscriptions { dbgu: None },
        };
        self.threads.push(tcb);
        proof {
            let s0 = old(self).threads@;
            let s = self.threads@;
            assert(s[s.len() - 1] == new_tcb(id, entry, stack_start, old(self).running_thread_id));
            assert forall|i: int| 0 <= i < s0.len() implies s0[i].id < id by {
                assert(s0[i] == s[i]);
            }
            assert forall|i: int, j: int| 0 <= i < j < s.len() implies s[i].id < s[j].id by {
                if j < s0.len() {
                    assert(s[i] == s0[i] && s[j] == s0[j]);
                } else {
                    assert(s[i] == s0[i]);
                }
            }
            let k = choose|k: int| 0 <= k < s0.len() && s0[k].id == old(self).running_thread_id;
            assert(s[k] == s0[k]);
            assert(has_id(s, self.running_thread_id));
            assert forall|id2: usize|
                finished(s0, old(self).last_thread_id, id2) implies #[trigger] finished(
                s,
                self.last_thread_id,
                id2,
            ) by {
                assert forall|i: int| 0 <= i < s.len() && #[trigger] s[i].id == id2 implies s[i].state is Stopped by {
                    if i < s0.len() {
                        assert(s[i] == s0[i]);
                    }
                }
            }
        }
        id
    }

    /// Index of the thread with the given id in the table.
    pub fn find_position(&self, id: usize) -> (r: Option<usize>)
        ensures
            r matches Some(i) ==> i < self.threads@.len() && self.threads@[i as int].id == id,
            r is None ==> !has_id(self.threads@, id),
    {
        let mut i: usize = 0;
        while i < self.threads.len()
            invariant
                i <= self.threads@.len(),
                forall|k: int| 0 <= k < i ==> self.threads@[k].id != id,
            decreases self.threads@.len() - i,
        {
            if self.threads[i].id == id {
                return Some(i);
            }
            i += 1;
        }
        None
    }

    /// The thread with the given id, if it is in the table.
    pub fn get_thread_by_id(&self, thread_id: usize) -> (r: Option<&TCB>)
        ensures
            r is Some <==> has_id(self.threads@, thread_id),
            r matches Some(t) ==> t.id == thread_id && self.threads@.contains(*t),
    {
        match self.find_position(thread_id) {
            Some(i) => Some(&self.threads[i]),
            None => None,
        }
    }

    /// The running thread.
    pub fn get_current_thread(&self) -> (r: &TCB)
        requires
            self.wf(),
        ensures
            r.id == self.running_thread_id,
            r.state is Running,
            self.threads@.contains(*r),
    {
        let i = self.current_position();
        &self.threads[i]
    }

    /// Index of the current thread.
    pub(crate) fn current_position(&self) -> (i: usize)
        requires
            table_wf_core(self.threads@, self.running_thread_id, self.last_thread_id),
        ensures
            i < self.threads@.len(),
            self.threads@[i as int].id == self.running_thread_id,
            i == position_of(self.threads@, self.running_thread_id),
    {
        match self.find_position(self.running_thread_id) {
            Some(i) => {
                proof {
                    lemma_position_of(self.threads@, i as int);
                }
                i
            },
            None => {
                proof {
                    assert(false);
                }
                0
            },
        }
    }
}

impl ThreadState {
    pub fn is_ready(&self) -> (r: bool)
        ensures
            r == self is Ready,
    {
        match self {
            ThreadState::Ready => true,
            _ => false,
        }
    }

    pub fn is_running(&self) -> (r: bool)
        ensures
            r == self is Running,
    {
        match self {
            ThreadState::Running => true,
            _ => false,
        }
    }

    pub fn is_stopped(&self) -> (r: bool)
        ensures
            r == self is Stopped,
    {
        match self {
            ThreadState::Stopped => true,
            _ => false,
        }
    }
}

impl Runtime {
    /// Removes every stopped thread but the current one, keeping the order.
    fn reap_stopped(&mut self)
        ensures
            final(self).threads@ == reaped(old(self).threads@, old(self).running_thread_id),
            final(self).running_thread_id == old(self).running_thread_id,
            final(self).last_thread_id == old(self).last_thread_id,
            final(self).scheduler_interval_counter == old(self).scheduler_interval_counter,
    {
        let mut rest: Vec<TCB> = Vec::new();
        core::mem::swap(&mut rest, &mut self.threads);
        let ghost s0 = rest@;
        let ghost n = s0.len();
        let ghost running = self.running_thread_id;
        let mut k: usize = 0;
        proof {
            assert(n == rest.len());
            assert(s0.subrange(0, 0) =~= Seq::<TCB>::empty());
            assert(s0.subrange(0, n as int) =~= s0);
        }
        while rest.len() > 0
            invariant
                self.running_thread_id == running,
                self.last_thread_id == old(self).last_thread_id,
                self.scheduler_interval_counter == old(self).scheduler_interval_counter,
                running == old(self).running_thread_id,
                s0 == old(self).threads@,
                n == s0.len(),
                n <= usize::MAX,
                k <= n,
                rest@ == s0.subrange(k as int, n as int),
                self.threads@ == reaped(s0.subrange(0, k as int), running),
            decreases rest@.len(),
        {
            let t = rest.remove(0);
            proof {
                assert(t == s0[k as int]);
                assert(s0.subrange(0, k + 1).drop_last() =~= s0.subrange(0, k as int));
                assert(s0.subrange(0, k + 1).last() == t);
                assert(rest@ =~= s0.subrange(k + 1, n as int));
            }
            assert(k < n);
            if !(t.state.is_stopped()) || t.id == self.running_thread_id {
                self.threads.push(t);
            }
            k += 1;
        }
        proof {
            assert(s0.subrange(0, n as int) =~= s0);
        }
    }

    /// Round-robin choice of the next thread after the current one at `pos`.
    fn round_robin(&self, pos: usize) -> (r: Option<usize>)
        requires
            pos < self.threads@.len(),
        ensures
            r matches Some(j) ==> rr_scan(self.threads@, pos as int, 1) == Some(j as int) && j
                < self.threads@.len() && j != 0 && self.threads@[j as int].state is Ready,
            r is None ==> rr_scan(self.threads@, pos as int, 1) is None,
    {
        let len = self.threads.len();
        let ghost s = self.threads@;
        let mut k: usize = 1;
        let mut found: Option<usize> = None;
        while k < len && found.is_none()
            invariant
                len == s.len(),
                s == self.threads@,
                pos < len,
                1 <= k <= len,
                found is None ==> rr_scan(s, pos as int, 1) == rr_scan(s, pos as int, k as int),
                found matches Some(j) ==> rr_scan(s, pos as int, 1) == Some(j as int) && j < len && j
                    != 0 && s[j as int].state is Ready,
            decreases len - k, (if found is None { 1int } else { 0int }),
        {
            let j = if k < len - pos {
                pos + k
            } else {
                k - (len - pos)
            };
            proof {
                let x = pos + k;
                assert(0 <= x < 2 * len);
                if x < len {
                    assert(x % (len as int) == x) by (nonlinear_arith)
                        requires 0 <= x < len;
                } else {
                    assert(x % (len as int) == x - len) by (nonlinear_arith)
                        requires len <= x < 2 * len;
                }
                assert(j == (pos + k) % (s.len() as int));
            }
            if j != 0 && self.threads[j].state.is_ready() {
                found = Some(j);
            } else {
                k += 1;
            }
        }
        found
    }

    /// Picks and marks the next thread to run, removing stopped threads other
    /// than the current one first. An explicitly requested thread that is
    /// `Ready` wins; otherwise the first `Ready` thread after the current one,
    /// cyclically and skipping the idle thread; otherwise the current thread
    /// keeps running if it still can, and the idle thread runs if it cannot.
    /// On a switch the outgoing thread becomes `Ready` only if it was running,
    /// the preemption counter is reset, and the caller performs the context
    /// switch that the result names.
    pub fn schedule(&mut self, next_thread_id: Option<usize>) -> (r: Option<Switch>)
        requires
            table_wf_core(old(self).threads@, old(self).running_thread_id, old(self).last_thread_id),
        ensures
            final(self).wf(),
            final(self).last_thread_id == old(self).last_thread_id,
            schedule_result(
                old(self).threads@,
                old(self).running_thread_id,
                old(self).scheduler_interval_counter,
                next_thread_id,
                r,
                final(self).threads@,
                final(self).running_thread_id,
                final(self).scheduler_interval_counter,
            ),
            !(old(self).threads@[position_of(
                old(self).threads@,
                old(self).running_thread_id,
            )].state is Running) ==> r is Some,
            finished_stays(
                old(self).threads@,
                old(self).last_thread_id,
                final(self).threads@,
                final(self).last_thread_id,
            ),
    {
        let ghost s0 = self.threads@;
        let ghost running = self.running_thread_id;
        let ghost last = self.last_thread_id;
        proof {
            lemma_reaped_wf(s0, running, last);
            lemma_reaped(s0, running);
        }
        self.reap_stopped();
        let ghost s = self.threads@;
        let pos = self.current_position();
        proof {
            let k0 = position_of(s0, running);
            assert(s0[k0].id == running);
            assert(keep(s0[k0], running));
            assert(s.contains(s0[k0]));
            let q = choose|q: int| 0 <= q < s.len() && s[q] == s0[k0];
            lemma_position_of(s, q);
            assert(s[pos as int] == s0[k0]);
        }
        let mut chosen: Option<usize> = None;
        match next_thread_id {
            Some(n) => match self.find_position(n) {
                Some(p) => {
                    proof {
                        lemma_position_of(s, p as int);
                    }
                    if self.threads[p].state.is_ready() {
                        chosen = Some(p);
                    }
                },
                None => {},
            },
            None => {},
        }
        assert(chosen matches Some(c) ==> explicit_choice(s, next_thread_id) == Some(c as int));
        assert(chosen is None ==> explicit_choice(s, next_thread_id) is None);
        if chosen.is_none() {
            chosen = self.round_robin(pos);
        }
        let c = match chosen {
            Some(c) => c,
            None => {
                if self.threads[pos].state.is_running() {
                    return None;
                }
                proof {
                    assert(pos != 0);
                    assert(s[0].state is Ready);
                }
                0
            },
        };
        proof {
            assert(scheduled_position(s, pos as int, next_thread_id) == Some(c as int));
            assert(s[c as int].state is Ready);
            assert(c != pos);
        }
        let from = self.running_thread_id;
        let was_running = self.threads[pos].state.is_running();
        self.threads[c].state = ThreadState::Running;
        if was_running {
            self.threads[pos].state = ThreadState::Ready;
        }
        let to = self.threads[c].id;
        self.running_thread_id = to;
        self.scheduler_interval_counter = SCHEDULER_INTERVAL;
        proof {
            let s1 = self.threads@;
            assert(s1 == switched(s, pos as int, c as int));
            assert(s0 == old(self).threads@);
            assert forall|i: int| 0 <= i < s1.len() implies #[trigger] s1[i].id == s[i].id && (i != c && i != pos ==> s1[i] == s[i]) by {}
            assert forall|i: int| 0 <= i < s1.len() implies tcb_wf(#[trigger] s1[i]) by {
                assert(tcb_wf(s[i]));
            }
            assert forall|i: int| 0 <= i < s1.len() implies ((#[trigger] s1[i]).state is Running <==> s1[i].id == to) by {
                if i != c {
                    assert(s[i].id != s[c as int].id) by {
                        if i < c { assert(s[i].id < s[c as int].id); } else { assert(s[c as int].id < s[i].id); }
                    }
                }
            }
            assert(s1[c as int].id == to);
            assert(has_id(s1, to));
            assert forall|id2: usize| finished(s, last, id2) implies #[trigger] finished(s1, last, id2) by {
                assert forall|i: int| 0 <= i < s1.len() && #[trigger] s1[i].id == id2 implies s1[i].state is Stopped by {
                    assert(s[i].id == id2);
                }
            }
            assert forall|id2: usize| finished(s0, last, id2) implies #[trigger] finished(s1, last, id2) by {
                assert(finished(s, last, id2));
            }
        }
        Some(Switch { from, to })
    }
}

} // verus!
