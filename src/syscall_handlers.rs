use vstd::prelude::*;
use crate::events::same_frame;
use crate::syscalls::{service_of, ThreadServices};
use crate::threads::{
    finished, finished_stays, has_id, ids_increasing, is_join, join_ids, lemma_position_of,
    position_of, schedule_result, table_wf, table_wf_core, tcb_wf, with_state, KernelError, Runtime,
    Switch, ThreadMessage, ThreadState, WaitingReason, IDLE_THREAD_ID, TCB,
};

verus! {

/// What a system call hands back to the exception glue.
#[derive(Debug, Clone, Copy, PartialEq, Eq, Structural)]
pub enum SyscallResult {
    /// The call completed; the value goes to the caller's `r0`.
    Return(usize),
    /// The caller blocked; the glue performs the switch and finishes the call
    /// when the caller runs again.
    Blocked(Switch),
}

/// Value of a non-blocking `ReceiveDBGU` that found no character.
pub const NO_CHARACTER: usize = 0xFFFF;

/// The current thread's entry.
pub open spec fn current(s: Seq<TCB>, running: usize) -> TCB {
    s[position_of(s, running)]
}

/// Only the current thread's subscriptions changed, to `m`.
pub open spec fn subscriptions_now(s0: Seq<TCB>, s1: Seq<TCB>, running: usize, m: Map<
    ThreadServices,
    Seq<ThreadMessage>,
>) -> bool {
    let pos = position_of(s0, running);
    &&& s1.len() == s0.len()
    &&& forall|i: int| 0 <= i < s0.len() && i != pos ==> s1[i] == s0[i]
    &&& same_frame(s0[pos], s1[pos])
    &&& s1[pos].state == s0[pos].state
    &&& s1[pos].subscribed_services@ == m
}

/// The table after the current thread blocked for `reason`.
pub open spec fn blocked(s: Seq<TCB>, running: usize, reason: WaitingReason) -> Seq<TCB> {
    let pos = position_of(s, running);
    s.update(pos, with_state(s[pos], ThreadState::Waiting(reason)))
}

/// Milliseconds that passed between two readings of the real-time counter.
pub open spec fn elapsed_ms(start: usize, now: usize, unit_ms: usize) -> int {
    unit_ms * (now - start)
}

/// Decodes a raw service id.
fn decode_service(id: usize) -> (r: Option<ThreadServices>)
    ensures
        r == service_of(id as int),
{
    if id == 10 {
        Some(ThreadServices::DBGU)
    } else {
        None
    }
}

/// Milliseconds slept, from the real-time counter before and after the sleep.
pub fn sleep_elapsed_ms(start: usize, now: usize, unit_ms: usize) -> (r: usize)
    requires
        start <= now,
        unit_ms * (now - start) <= usize::MAX,
    ensures
        r == elapsed_ms(start, now, unit_ms),
{
    unit_ms * (now - start)
}

impl Runtime {
    /// Lets the scheduler pick another ready thread.
    pub fn yield_thread(&mut self) -> (r: Option<Switch>)
        requires
            old(self).wf(),
        ensures
            final(self).wf(),
            final(self).last_thread_id == old(self).last_thread_id,
            schedule_result(
                old(self).threads@,
                old(self).running_thread_id,
                old(self).scheduler_interval_counter,
                None,
                r,
                final(self).threads@,
                final(self).running_thread_id,
                final(self).scheduler_interval_counter,
            ),
            finished_stays(
                old(self).threads@,
                old(self).last_thread_id,
                final(self).threads@,
                final(self).last_thread_id,
            ),
    {
        self.schedule(None)
    }

    /// One timer tick at real-time `now`: wakes elapsed sleepers and timed-out
    /// joiners and switches to the first of them at once; with none woken,
    /// counts down the preemption quantum and runs the scheduler when it is
    /// used up.
    pub fn on_tick(&mut self, now: usize) -> (r: Option<Switch>)
        requires
            old(self).wf(),
        ensures
            final(self).wf(),
            final(self).last_thread_id == old(self).last_thread_id,
            ({
                let s0 = old(self).threads@;
                let s1 = s0.map_values(|t: TCB| crate::events::woken(t, now));
                let any = exists|i: int|
                    0 <= i < s0.len() && crate::events::timed_out(#[trigger] s0[i].state, now);
                let counter = old(self).scheduler_interval_counter;
                if any {
                    exists|id: usize|
                        crate::events::first_timed_out(s0, now, id) && #[trigger] schedule_result(
                            s1,
                            old(self).running_thread_id,
                            counter,
                            Some(id),
                            r,
                            final(self).threads@,
                            final(self).running_thread_id,
                            final(self).scheduler_interval_counter,
                        )
                } else if counter > 0 {
                    &&& r is None
                    &&& final(self).threads@ == s0
                    &&& final(self).running_thread_id == old(self).running_thread_id
                    &&& final(self).scheduler_interval_counter == counter - 1
                } else {
                    schedule_result(
                        s0,
                        old(self).running_thread_id,
                        0,
                        None,
                        r,
                        final(self).threads@,
                        final(self).running_thread_id,
                        final(self).scheduler_interval_counter,
                    )
                }
            }),
            finished_stays(
                old(self).threads@,
                old(self).last_thread_id,
                final(self).threads@,
                final(self).last_thread_id,
            ),
    {
        let ghost s0 = self.threads@;
        let first = self.wakeup_elapsed_threads(now);
        proof {
            assert(self.threads@ =~= s0.map_values(|t: TCB| crate::events::woken(t, now)));
        }
        match first {
            Some(id) => self.schedule(Some(id)),
            None => {
                proof {
                    assert(self.threads@ =~= s0);
                }
                if self.scheduler_interval_counter == 0 {
                    self.schedule(None)
                } else {
                    self.scheduler_interval_counter = self.scheduler_interval_counter - 1;
                    None
                }
            },
        }
    }

    /// Blocks the current thread for `reason` and switches away from it.
    fn block_current(&mut self, reason: WaitingReason) -> (r: Switch)
        requires
            old(self).wf(),
            old(self).running_thread_id != IDLE_THREAD_ID,
            tcb_wf(
                with_state(
                    current(old(self).threads@, old(self).running_thread_id),
                    ThreadState::Waiting(reason),
                ),
            ),
        ensures
            final(self).wf(),
            final(self).last_thread_id == old(self).last_thread_id,
            schedule_result(
                blocked(old(self).threads@, old(self).running_thread_id, reason),
                old(self).running_thread_id,
                old(self).scheduler_interval_counter,
                None,
                Some(r),
                final(self).threads@,
                final(self).running_thread_id,
                final(self).scheduler_interval_counter,
            ),
            finished_stays(
                old(self).threads@,
                old(self).last_thread_id,
                final(self).threads@,
                final(self).last_thread_id,
            ),
    {
        let ghost s0 = self.threads@;
        let ghost running = self.running_thread_id;
        let ghost last = self.last_thread_id;
        let pos = self.current_position();
        self.threads[pos].state = ThreadState::Waiting(reason);
        proof {
            let s1 = self.threads@;
            assert(s1 == blocked(s0, running, reason));
            assert(s0[pos as int].id != IDLE_THREAD_ID);
            assert(pos != 0);
            assert(table_wf_core(s1, running, last)) by {
                assert forall|i: int| 0 <= i < s1.len() implies s1[i].id == s0[i].id && (i != pos
                    ==> s1[i] == s0[i]) by {}
                assert forall|i: int| 0 <= i < s1.len() implies s1[i].id < last && tcb_wf(
                    #[trigger] s1[i],
                ) by {}
                assert(has_id(s1, running)) by {
                    assert(s1[pos as int].id == running);
                }
            }
            assert forall|id: usize| finished(s0, last, id) implies #[trigger] finished(
                s1,
                last,
                id,
            ) by {
                assert forall|k: int| 0 <= k < s1.len() && #[trigger] s1[k].id == id implies s1[k].state is Stopped by {
                    assert(s0[k].id == id);
                    if k == pos {
                        assert(s0[k].state is Running);
                    }
                }
            }
        }
        match self.schedule(None) {
            Some(sw) => sw,
            None => {
                proof {
                    let s1 = blocked(s0, running, reason);
                    lemma_position_of(s1, pos as int);
                    assert(false);
                }
                Switch { from: 0, to: 0 }
            },
        }
    }
}

/// The byte a message carries.
pub open spec fn message_byte(m: ThreadMessage) -> u8 {
    match m {
        ThreadMessage::DBGU(b) => b,
    }
}

/// Timeout tick of a join.
pub open spec fn join_timeout(st: ThreadState) -> Option<usize> {
    match st {
        ThreadState::Waiting(WaitingReason::Join(_, t)) => t,
        _ => None,
    }
}

/// The parent `before` becomes `after` when its child `child` stops: the child leaves
/// its join set, and the parent is `Ready` once that set is empty.
pub open spec fn notified(before: TCB, after: TCB, child: usize) -> bool {
    let ids = join_ids(before.state);
    if is_join(before.state) && ids.contains(child) {
        &&& same_frame(before, after)
        &&& after.subscribed_services == before.subscribed_services
        &&& exists|j: int|
            0 <= j < ids.len() && ids[j] == child && if ids.len() == 1 {
                after.state is Ready
            } else {
                is_join(after.state) && join_ids(after.state) == ids.remove(j) && join_timeout(after.state)
                    == join_timeout(before.state)
            }
    } else {
        after == before
    }
}

/// The table `s1` after the current thread stopped in `s0`, before scheduling.
pub open spec fn exited(s0: Seq<TCB>, running: usize, s1: Seq<TCB>) -> bool {
    let pos = position_of(s0, running);
    let parent = s0[pos].parent_thread_id;
    &&& s1.len() == s0.len()
    &&& s1[pos] == with_state(s0[pos], ThreadState::Stopped)
    &&& forall|i: int|
        0 <= i < s0.len() && i != pos ==> if s0[i].id == parent {
            notified(s0[i], #[trigger] s1[i], running)
        } else {
            s1[i] == s0[i]
        }
}

/// The current thread blocked to join `target` with the given timeout tick,
/// and the scheduler switched away with `sw`.
pub open spec fn joined(
    s0: Seq<TCB>,
    running: usize,
    target: usize,
    timeout: Option<usize>,
    counter: u32,
    sw: Switch,
    s1: Seq<TCB>,
    running1: usize,
    counter1: u32,
) -> bool {
    exists|ids: Vec<usize>|
        #![trigger blocked(s0, running, WaitingReason::Join(ids, timeout))]
        ids@ == seq![target] && schedule_result(
            blocked(s0, running, WaitingReason::Join(ids, timeout)),
            running,
            counter,
            None,
            Some(sw),
            s1,
            running1,
            counter1,
        )
}

/// Changing only the current thread's queues keeps the table valid.
proof fn lemma_subscriptions_now(
    s0: Seq<TCB>,
    s1: Seq<TCB>,
    running: usize,
    last: usize,
    m: Map<ThreadServices, Seq<ThreadMessage>>,
)
    requires
        table_wf(s0, running, last),
        subscriptions_now(s0, s1, running, m),
    ensures
        table_wf(s1, running, last),
        finished_stays(s0, last, s1, last),
        position_of(s1, running) == position_of(s0, running),
{
    let pos = position_of(s0, running);
    assert(s0[pos].id == running);
    assert forall|i: int| 0 <= i < s1.len() implies #[trigger] s1[i].id == s0[i].id && s1[i].state
        == s0[i].state && s1[i].parent_thread_id == s0[i].parent_thread_id by {}
    assert forall|i: int| 0 <= i < s1.len() implies tcb_wf(#[trigger] s1[i]) by {
        assert(tcb_wf(s0[i]));
    }
    assert(has_id(s1, running)) by {
        assert(s1[pos].id == running);
    }
    lemma_position_of(s1, pos);
    assert forall|id: usize| finished(s0, last, id) implies #[trigger] finished(s1, last, id) by {
        assert forall|k: int| 0 <= k < s1.len() && #[trigger] s1[k].id == id implies s1[k].state is Stopped by {
            assert(s0[k].id == id);
        }
    }
}

/// Index of `x` in `v`.
fn index_of(v: &Vec<usize>, x: usize) -> (r: Option<usize>)
    ensures
        r matches Some(j) ==> j < v@.len() && v@[j as int] == x,
        r is None ==> !v@.contains(x),
{
    let mut j: usize = 0;
    while j < v.len()
        invariant
            j <= v@.len(),
            forall|k: int| 0 <= k < j ==> v@[k] != x,
        decreases v@.len() - j,
    {
        if v[j] == x {
            return Some(j);
        }
        j += 1;
    }
    None
}

impl Runtime {
    /// Takes the oldest character queued for the current thread.
    pub fn pop_dbgu_character(&mut self) -> (r: Result<Option<u8>, KernelError>)
        requires
            old(self).wf(),
        ensures
            final(self).wf(),
            final(self).running_thread_id == old(self).running_thread_id,
            final(self).last_thread_id == old(self).last_thread_id,
            final(self).scheduler_interval_counter == old(self).scheduler_interval_counter,
            ({
                let m = current(old(self).threads@, old(self).running_thread_id).subscribed_services@;
                let d = ThreadServices::DBGU;
                &&& !m.contains_key(d) ==> r == Err::<Option<u8>, KernelError>(
                    KernelError::NotSubscribed,
                ) && final(self).threads@ == old(self).threads@
                &&& m.contains_key(d) && m[d].len() == 0 ==> r == Ok::<Option<u8>, KernelError>(
                    None,
                ) && final(self).threads@ == old(self).threads@
                &&& m.contains_key(d) && m[d].len() > 0 ==> r == Ok::<Option<u8>, KernelError>(
                    Some(message_byte(m[d][0])),
                ) && subscriptions_now(
                    old(self).threads@,
                    final(self).threads@,
                    old(self).running_thread_id,
                    m.insert(d, m[d].drop_first()),
                )
            }),
            finished_stays(
                old(self).threads@,
                old(self).last_thread_id,
                final(self).threads@,
                final(self).last_thread_id,
            ),
    {
        let pos = self.current_position();
        if !self.threads[pos].subscribed_services.contains(ThreadServices::DBGU) {
            return Err(KernelError::NotSubscribed);
        }
        let r = self.threads[pos].subscribed_services.pop_front(ThreadServices::DBGU);
        proof {
            let m = current(old(self).threads@, old(self).running_thread_id).subscribed_services@;
            let d = ThreadServices::DBGU;
            if m[d].len() > 0 {
                lemma_subscriptions_now(
                    old(self).threads@,
                    self.threads@,
                    self.running_thread_id,
                    self.last_thread_id,
                    m.insert(d, m[d].drop_first()),
                );
            } else {
                assert(self.threads@ =~= old(self).threads@);
            }
        }
        match r {
            Some(ThreadMessage::DBGU(c)) => Ok(Some(c)),
            None => Ok(None),
        }
    }

    /// `ReceiveDBGU`: returns the oldest queued character; with none queued,
    /// blocks until one arrives if `blocking`, else returns `NO_CHARACTER`.
    /// Receiving without a subscription to the debug unit is fatal.
    pub fn receive_dbgu(&mut self, blocking: bool) -> (r: Result<SyscallResult, KernelError>)
        requires
            old(self).wf(),
            old(self).running_thread_id != IDLE_THREAD_ID,
        ensures
            final(self).wf(),
            final(self).last_thread_id == old(self).last_thread_id,
            ({
                let m = current(old(self).threads@, old(self).running_thread_id).subscribed_services@;
                let d = ThreadServices::DBGU;
                &&& !m.contains_key(d) ==> r == Err::<SyscallResult, KernelError>(
                    KernelError::NotSubscribed,
                ) && final(self).threads@ == old(self).threads@
                &&& m.contains_key(d) && m[d].len() > 0 ==> r == Ok::<SyscallResult, KernelError>(
                    SyscallResult::Return(message_byte(m[d][0]) as usize),
                ) && subscriptions_now(
                    old(self).threads@,
                    final(self).threads@,
                    old(self).running_thread_id,
                    m.insert(d, m[d].drop_first()),
                ) && final(self).running_thread_id == old(self).running_thread_id
                &&& m.contains_key(d) && m[d].len() == 0 && !blocking ==> r == Ok::<
                    SyscallResult,
                    KernelError,
                >(SyscallResult::Return(NO_CHARACTER)) && final(self).threads@ == old(self).threads@
                    && final(self).running_thread_id == old(self).running_thread_id
                &&& m.contains_key(d) && m[d].len() == 0 && blocking ==> (r matches Ok(
                    SyscallResult::Blocked(sw),
                ) && schedule_result(
                    blocked(old(self).threads@, old(self).running_thread_id, WaitingReason::DBGU),
                    old(self).running_thread_id,
                    old(self).scheduler_interval_counter,
                    None,
                    Some(sw),
                    final(self).threads@,
                    final(self).running_thread_id,
                    final(self).scheduler_interval_counter,
                ))
            }),
            finished_stays(
                old(self).threads@,
                old(self).last_thread_id,
                final(self).threads@,
                final(self).last_thread_id,
            ),
    {
        match self.pop_dbgu_character() {
            Err(e) => Err(e),
            Ok(Some(c)) => Ok(SyscallResult::Return(c as usize)),
            Ok(None) => {
                if blocking {
                    let sw = self.block_current(WaitingReason::DBGU);
                    Ok(SyscallResult::Blocked(sw))
                } else {
                    Ok(SyscallResult::Return(NO_CHARACTER))
                }
            },
        }
    }

    /// Completes a blocking `ReceiveDBGU` once the caller runs again: the
    /// character that woke it must be queued.
    pub fn finish_receive_dbgu(&mut self) -> (r: Result<usize, KernelError>)
        requires
            old(self).wf(),
        ensures
            final(self).wf(),
            final(self).running_thread_id == old(self).running_thread_id,
            final(self).last_thread_id == old(self).last_thread_id,
            ({
                let m = current(old(self).threads@, old(self).running_thread_id).subscribed_services@;
                let d = ThreadServices::DBGU;
                &&& !m.contains_key(d) ==> r == Err::<usize, KernelError>(KernelError::NotSubscribed)
                    && final(self).threads@ == old(self).threads@
                &&& m.contains_key(d) && m[d].len() == 0 ==> r == Err::<usize, KernelError>(
                    KernelError::MissingMessage,
                ) && final(self).threads@ == old(self).threads@
                &&& m.contains_key(d) && m[d].len() > 0 ==> r == Ok::<usize, KernelError>(
                    message_byte(m[d][0]) as usize,
                ) && subscriptions_now(
                    old(self).threads@,
                    final(self).threads@,
                    old(self).running_thread_id,
                    m.insert(d, m[d].drop_first()),
                )
            }),
            finished_stays(
                old(self).threads@,
                old(self).last_thread_id,
                final(self).threads@,
                final(self).last_thread_id,
            ),
    {
        match self.pop_dbgu_character() {
            Err(e) => Err(e),
            Ok(Some(c)) => Ok(c as usize),
            Ok(None) => Err(KernelError::MissingMessage),
        }
    }

    /// `Subscribe`: gives the current thread an empty queue for the service.
    /// An unknown service, or one already subscribed to, is fatal.
    pub fn subscribe_thread_service(&mut self, service_id: usize) -> (r: Result<(), KernelError>)
        requires
            old(self).wf(),
        ensures
            final(self).wf(),
            final(self).running_thread_id == old(self).running_thread_id,
            final(self).last_thread_id == old(self).last_thread_id,
            final(self).scheduler_interval_counter == old(self).scheduler_interval_counter,
            ({
                let m = current(old(self).threads@, old(self).running_thread_id).subscribed_services@;
                match service_of(service_id as int) {
                    None => r == Err::<(), KernelError>(KernelError::InvalidService)
                        && final(self).threads@ == old(self).threads@,
                    Some(sv) => if m.contains_key(sv) {
                        r == Err::<(), KernelError>(KernelError::AlreadySubscribed)
                            && final(self).threads@ == old(self).threads@
                    } else {
                        r == Ok::<(), KernelError>(()) && subscriptions_now(
                            old(self).threads@,
                            final(self).threads@,
                            old(self).running_thread_id,
                            m.insert(sv, Seq::empty()),
                        )
                    },
                }
            }),
            finished_stays(
                old(self).threads@,
                old(self).last_thread_id,
                final(self).threads@,
                final(self).last_thread_id,
            ),
    {
        let service = match decode_service(service_id) {
            Some(sv) => sv,
            None => {
                return Err(KernelError::InvalidService);
            },
        };
        let pos = self.current_position();
        let inserted = self.threads[pos].subscribed_services.insert(service);
        proof {
            let m = current(old(self).threads@, old(self).running_thread_id).subscribed_services@;
            if inserted {
                lemma_subscriptions_now(
                    old(self).threads@,
                    self.threads@,
                    self.running_thread_id,
                    self.last_thread_id,
                    m.insert(service, Seq::empty()),
                );
            } else {
                assert(self.threads@ =~= old(self).threads@);
            }
        }
        if inserted {
            Ok(())
        } else {
            Err(KernelError::AlreadySubscribed)
        }
    }

    /// `Unsubscribe`: drops the current thread's queue for the service. An
    /// unknown service, or one not subscribed to, is fatal.
    pub fn unsubscribe_thread_service(&mut self, service_id: usize) -> (r: Result<(), KernelError>)
        requires
            old(self).wf(),
        ensures
            final(self).wf(),
            final(self).running_thread_id == old(self).running_thread_id,
            final(self).last_thread_id == old(self).last_thread_id,
            final(self).scheduler_interval_counter == old(self).scheduler_interval_counter,
            ({
                let m = current(old(self).threads@, old(self).running_thread_id).subscribed_services@;
                match service_of(service_id as int) {
                    None => r == Err::<(), KernelError>(KernelError::InvalidService)
                        && final(self).threads@ == old(self).threads@,
                    Some(sv) => if !m.contains_key(sv) {
                        r == Err::<(), KernelError>(KernelError::NotSubscribed)
                            && final(self).threads@ == old(self).threads@
                    } else {
                        r == Ok::<(), KernelError>(()) && subscriptions_now(
                            old(self).threads@,
                            final(self).threads@,
                            old(self).running_thread_id,
                            m.remove(sv),
                        )
                    },
                }
            }),
            finished_stays(
                old(self).threads@,
                old(self).last_thread_id,
                final(self).threads@,
                final(self).last_thread_id,
            ),
    {
        let service = match decode_service(service_id) {
            Some(sv) => sv,
            None => {
                return Err(KernelError::InvalidService);
            },
        };
        let pos = self.current_position();
        if !self.threads[pos].subscribed_services.contains(service) {
            return Err(KernelError::NotSubscribed);
        }
        self.threads[pos].subscribed_services.remove(service);
        proof {
            let m = current(old(self).threads@, old(self).running_thread_id).subscribed_services@;
            lemma_subscriptions_now(
                old(self).threads@,
                self.threads@,
                self.running_thread_id,
                self.last_thread_id,
                m.remove(service),
            );
        }
        Ok(())
    }

    /// `Sleep`: blocks the current thread until the real-time counter, now at
    /// `now`, has advanced by `time_ms` worth of `unit_ms` units. A sleep
    /// shorter than one unit returns 0 at once.
    pub fn sleep(&mut self, time_ms: usize, now: usize, unit_ms: usize) -> (r: SyscallResult)
        requires
            old(self).wf(),
            old(self).running_thread_id != IDLE_THREAD_ID,
            unit_ms > 0,
            now + time_ms / unit_ms <= usize::MAX,
        ensures
            final(self).wf(),
            final(self).last_thread_id == old(self).last_thread_id,
            time_ms / unit_ms == 0 ==> r == SyscallResult::Return(0) && final(self).threads@
                == old(self).threads@ && final(self).running_thread_id
                == old(self).running_thread_id && final(self).scheduler_interval_counter
                == old(self).scheduler_interval_counter,
            time_ms / unit_ms > 0 ==> (r matches SyscallResult::Blocked(sw) && schedule_result(
                blocked(
                    old(self).threads@,
                    old(self).running_thread_id,
                    WaitingReason::Sleep((now + time_ms / unit_ms) as usize),
                ),
                old(self).running_thread_id,
                old(self).scheduler_interval_counter,
                None,
                Some(sw),
                final(self).threads@,
                final(self).running_thread_id,
                final(self).scheduler_interval_counter,
            )),
            finished_stays(
                old(self).threads@,
                old(self).last_thread_id,
                final(self).threads@,
                final(self).last_thread_id,
            ),
    {
        let units = time_ms / unit_ms;
        if units == 0 {
            return SyscallResult::Return(0);
        }
        let sw = self.block_current(WaitingReason::Sleep(now + units));
        SyscallResult::Blocked(sw)
    }

    /// `JoinThread`: blocks the current thread until its child `thread_id`
    /// stops, or until `timeout_ms` ticks after `now` when that is non-zero.
    /// Returns 0 at once if the thread is unknown or already stopped; joining
    /// a thread that is not a child of the caller is fatal. (The caller is
    /// running, so its join set is always a fresh one.)
    pub fn join_thread(&mut self, thread_id: usize, timeout_ms: usize, now: usize) -> (r: Result<
        SyscallResult,
        KernelError,
    >)
        requires
            old(self).wf(),
            old(self).running_thread_id != IDLE_THREAD_ID,
            now + timeout_ms <= usize::MAX,
        ensures
            final(self).wf(),
            final(self).last_thread_id == old(self).last_thread_id,
            ({
                let s0 = old(self).threads@;
                let running = old(self).running_thread_id;
                let target = s0[position_of(s0, thread_id)];
                let timeout = if timeout_ms > 0 {
                    Some((now + timeout_ms) as usize)
                } else {
                    None
                };
                if !has_id(s0, thread_id) || target.state is Stopped {
                    r == Ok::<SyscallResult, KernelError>(SyscallResult::Return(0))
                        && final(self).threads@ == s0 && final(self).running_thread_id == running
                        && final(self).scheduler_interval_counter
                        == old(self).scheduler_interval_counter
                } else if target.parent_thread_id != running {
                    r == Err::<SyscallResult, KernelError>(KernelError::NotParent)
                        && final(self).threads@ == s0 && final(self).running_thread_id == running
                        && final(self).scheduler_interval_counter
                        == old(self).scheduler_interval_counter
                } else {
                    r matches Ok(SyscallResult::Blocked(sw)) && joined(
                        s0,
                        running,
                        thread_id,
                        timeout,
                        old(self).scheduler_interval_counter,
                        sw,
                        final(self).threads@,
                        final(self).running_thread_id,
                        final(self).scheduler_interval_counter,
                    )
                }
            }),
            finished_stays(
                old(self).threads@,
                old(self).last_thread_id,
                final(self).threads@,
                final(self).last_thread_id,
            ),
    {
        let p = match self.find_position(thread_id) {
            Some(p) => p,
            None => {
                return Ok(SyscallResult::Return(0));
            },
        };
        proof {
            lemma_position_of(self.threads@, p as int);
        }
        if self.threads[p].state.is_stopped() {
            return Ok(SyscallResult::Return(0));
        }
        if self.threads[p].parent_thread_id != self.running_thread_id {
            return Err(KernelError::NotParent);
        }
        let timeout = if timeout_ms > 0 {
            Some(now + timeout_ms)
        } else {
            None
        };
        let mut ids: Vec<usize> = Vec::new();
        ids.push(thread_id);
        let ghost gids = ids;
        proof {
            assert(ids@ =~= seq![thread_id]);
            assert(ids@.no_duplicates());
        }
        let ghost s0 = self.threads@;
        let ghost running = self.running_thread_id;
        let ghost counter = self.scheduler_interval_counter;
        let sw = self.block_current(WaitingReason::Join(ids, timeout));
        proof {
            assert(gids@ == seq![thread_id]);
            assert(schedule_result(
                blocked(s0, running, WaitingReason::Join(gids, timeout)),
                running,
                counter,
                None,
                Some(sw),
                self.threads@,
                self.running_thread_id,
                self.scheduler_interval_counter,
            ));
        }
        let r = Ok(SyscallResult::Blocked(sw));
        proof {
            let t = if timeout_ms > 0 {
                Some((now + timeout_ms) as usize)
            } else {
                None
            };
            assert(t == timeout);
            assert(joined(
                s0,
                running,
                thread_id,
                t,
                counter,
                sw,
                self.threads@,
                self.running_thread_id,
                self.scheduler_interval_counter,
            ));
        }
        r
    }
}

impl Runtime {
    /// `ExitThread`: stops the current thread, takes it out of its parent's
    /// join set (waking the parent when the set empties), and switches away.
    /// The stopped thread is reaped by a later scheduler pass.
    pub fn exit_internal(&mut self) -> (r: Switch)
        requires
            old(self).wf(),
            old(self).running_thread_id != IDLE_THREAD_ID,
        ensures
            final(self).wf(),
            final(self).last_thread_id == old(self).last_thread_id,
            exists|s1: Seq<TCB>|
                exited(old(self).threads@, old(self).running_thread_id, s1) && #[trigger] schedule_result(
                    s1,
                    old(self).running_thread_id,
                    old(self).scheduler_interval_counter,
                    None,
                    Some(r),
                    final(self).threads@,
                    final(self).running_thread_id,
                    final(self).scheduler_interval_counter,
                ),
            finished(final(self).threads@, final(self).last_thread_id, old(self).running_thread_id),
            finished_stays(
                old(self).threads@,
                old(self).last_thread_id,
                final(self).threads@,
                final(self).last_thread_id,
            ),
    {
        let ghost s0 = self.threads@;
        let ghost running = self.running_thread_id;
        let ghost last = self.last_thread_id;
        let pos = self.current_position();
        let me = self.running_thread_id;
        self.threads[pos].state = ThreadState::Stopped;
        let parent = self.threads[pos].parent_thread_id;
        proof {
            assert(tcb_wf(s0[pos as int]));
            assert(s0[pos as int].id == running);
        }
        match self.find_position(parent) {
            Some(pp) => {
                proof {
                    assert(pp != pos);
                    lemma_position_of(s0, pp as int);
                }
                let mut st = ThreadState::Ready;
                core::mem::swap(&mut st, &mut self.threads[pp].state);
                let new_st = match st {
                    ThreadState::Waiting(WaitingReason::Join(mut ids, timeout)) => {
                        let ghost ids0 = ids@;
                        match index_of(&ids, me) {
                            Some(j) => {
                                ids.remove(j);
                                proof {
                                    assert(ids@ == ids0.remove(j as int));
                                }
                                if ids.len() == 0 {
                                    ThreadState::Ready
                                } else {
                                    ThreadState::Waiting(WaitingReason::Join(ids, timeout))
                                }
                            },
                            None => ThreadState::Waiting(WaitingReason::Join(ids, timeout)),
                        }
                    },
                    other => other,
                };
                self.threads[pp].state = new_st;
            },
            None => {},
        }
        let ghost s1 = self.threads@;
        proof {
            let cur = position_of(s0, running);
            assert(cur == pos);
            assert(exited(s0, running, s1)) by {
                assert forall|i: int|
                    0 <= i < s0.len() && i != pos implies if s0[i].id == parent {
                    notified(s0[i], #[trigger] s1[i], running)
                } else {
                    s1[i] == s0[i]
                } by {
                    if s0[i].id == parent {
                        let ids = join_ids(s0[i].state);
                        if is_join(s0[i].state) && ids.contains(running) {
                            let j = choose|j: int| 0 <= j < ids.len() && ids[j] == running;
                            assert(ids.no_duplicates());
                            lemma_remove_no_duplicates(ids, j);
                        }
                    }
                }
            }
            lemma_exited_wf(s0, running, last, s1);
        }
        let sw = match self.schedule(None) {
            Some(sw) => sw,
            None => {
                proof {
                    lemma_position_of(s1, pos as int);
                    assert(false);
                }
                Switch { from: 0, to: 0 }
            },
        };
        sw
    }
}

/// Removing an element keeps a sequence free of duplicates.
proof fn lemma_remove_no_duplicates(ids: Seq<usize>, j: int)
    requires
        ids.no_duplicates(),
        0 <= j < ids.len(),
    ensures
        ids.remove(j).no_duplicates(),
{
    let r = ids.remove(j);
    assert forall|a: int, b: int| 0 <= a < r.len() && 0 <= b < r.len() && a != b implies r[a]
        != r[b] by {
        let a0 = if a < j {
            a
        } else {
            a + 1
        };
        let b0 = if b < j {
            b
        } else {
            b + 1
        };
        assert(r[a] == ids[a0]);
        assert(r[b] == ids[b0]);
    }
}

/// Stopping the current thread and notifying its parent leaves a table the
/// scheduler can work on, in which the stopped thread is finished.
proof fn lemma_exited_wf(s0: Seq<TCB>, running: usize, last: usize, s1: Seq<TCB>)
    requires
        table_wf(s0, running, last),
        running != IDLE_THREAD_ID,
        exited(s0, running, s1),
    ensures
        table_wf_core(s1, running, last),
        finished_stays(s0, last, s1, last),
        finished(s1, last, running),
        position_of(s1, running) == position_of(s0, running),
        !(s1[position_of(s1, running)].state is Running),
{
    let pos = position_of(s0, running);
    let parent = s0[pos].parent_thread_id;
    assert(s0[pos].id == running);
    assert(tcb_wf(s0[pos]));
    assert(pos != 0);
    assert forall|i: int| 0 <= i < s1.len() implies #[trigger] s1[i].id == s0[i].id && tcb_wf(s1[i])
        && (s1[i].state is Running ==> s1[i].id == running) && (s1[i].id == running ==> !(
    s1[i].state is Ready)) && (s0[i].state is Stopped ==> s1[i].state is Stopped) && (i != pos
        ==> s1[i].id != running) by {
        assert(tcb_wf(s0[i]));
        if i != pos {
            if i < pos {
                assert(s0[i].id < s0[pos].id);
            } else {
                assert(s0[pos].id < s0[i].id);
            }
            if s0[i].id == parent {
                let ids = join_ids(s0[i].state);
                if is_join(s0[i].state) && ids.contains(running) {
                    let j = choose|j: int|
                        0 <= j < ids.len() && ids[j] == running && if ids.len() == 1 {
                            s1[i].state is Ready
                        } else {
                            is_join(s1[i].state) && join_ids(s1[i].state) == ids.remove(j)
                                && join_timeout(s1[i].state) == join_timeout(s0[i].state)
                        };
                    if ids.len() != 1 {
                        lemma_remove_no_duplicates(ids, j);
                    }
                }
            }
        }
    }
    assert(ids_increasing(s1)) by {
        assert forall|a: int, b: int| 0 <= a < b < s1.len() implies s1[a].id < s1[b].id by {
            assert(s1[a].id == s0[a].id && s1[b].id == s0[b].id);
        }
    }
    assert(s1[0].id == s0[0].id);
    if parent == IDLE_THREAD_ID {
        assert(!is_join(s0[0].state));
        assert(s1[0] == s0[0]);
    } else {
        assert(s0[0].id != parent);
        assert(s1[0] == s0[0]);
    }
    assert(has_id(s1, running)) by {
        assert(s1[pos].id == running);
    }
    lemma_position_of(s1, pos);
    assert forall|id: usize| finished(s0, last, id) implies #[trigger] finished(s1, last, id) by {
        assert forall|k: int| 0 <= k < s1.len() && #[trigger] s1[k].id == id implies s1[k].state is Stopped by {
            assert(s0[k].id == id);
        }
    }
    assert forall|k: int| 0 <= k < s1.len() && #[trigger] s1[k].id == running implies s1[k].state is Stopped by {
        assert(k == pos);
    }
}

} // verus!
