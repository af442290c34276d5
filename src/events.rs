use vstd::prelude::*;
use crate::syscalls::ThreadServices;
use crate::threads::{
    finished, finished_stays, tcb_wf, with_state, Runtime, ThreadMessage, ThreadState, WaitingReason,
    TCB,
};

verus! {

/// Fields that no event or system call changes.
pub open spec fn same_frame(a: TCB, b: TCB) -> bool {
    &&& a.id == b.id
    &&& a.entry == b.entry
    &&& a.stack_current == b.stack_current
    &&& a.stack_start == b.stack_start
    &&& a.parent_thread_id == b.parent_thread_id
}

/// A sleep, or a join with a timeout, whose wake-up tick has been reached.
pub open spec fn timed_out(st: ThreadState, now: usize) -> bool {
    match st {
        ThreadState::Waiting(WaitingReason::Sleep(t)) => t <= now,
        ThreadState::Waiting(WaitingReason::Join(_, Some(t))) => t <= now,
        _ => false,
    }
}

/// `id` is the first thread in the table whose wait timed out at `now`.
pub open spec fn first_timed_out(s: Seq<TCB>, now: usize, id: usize) -> bool {
    exists|i: int|
        0 <= i < s.len() && #[trigger] s[i].id == id && timed_out(s[i].state, now) && forall|k: int|
            0 <= k < i ==> !timed_out(#[trigger] s[k].state, now)
}

/// A thread after the timer reached tick `now`.
pub open spec fn woken(t: TCB, now: usize) -> TCB {
    if timed_out(t.state, now) {
        with_state(t, ThreadState::Ready)
    } else {
        t
    }
}

/// The subscriptions after a character arrived: appended to the debug-unit
/// queue, if there is one.
pub open spec fn delivered(m: Map<ThreadServices, Seq<ThreadMessage>>, c: u8) -> Map<
    ThreadServices,
    Seq<ThreadMessage>,
> {
    if m.contains_key(ThreadServices::DBGU) {
        m.insert(ThreadServices::DBGU, m[ThreadServices::DBGU].push(ThreadMessage::DBGU(c)))
    } else {
        m
    }
}

/// A thread blocked on the debug unit that will be woken by a character.
pub open spec fn waits_for_dbgu(t: TCB) -> bool {
    &&& t.state matches ThreadState::Waiting(WaitingReason::DBGU)
    &&& t.subscribed_services@.contains_key(ThreadServices::DBGU)
}

/// A thread after a character arrived.
pub open spec fn received(t0: TCB, t1: TCB, c: u8) -> bool {
    &&& same_frame(t0, t1)
    &&& t1.subscribed_services@ == delivered(t0.subscribed_services@, c)
    &&& if waits_for_dbgu(t0) {
        t1.state is Ready
    } else {
        t1.state == t0.state
    }
}

impl Runtime {
    /// Makes `Ready` every thread sleeping until a tick at or before `now`, and
    /// every joining thread whose timeout tick is at or before `now`; returns
    /// the id of the first of them in the table.
    pub fn wakeup_elapsed_threads(&mut self, now: usize) -> (r: Option<usize>)
        requires
            old(self).wf(),
        ensures
            final(self).wf(),
            r is None <==> forall|i: int|
                0 <= i < old(self).threads@.len() ==> !timed_out(
                    #[trigger] old(self).threads@[i].state,
                    now,
                ),
            r matches Some(id) ==> first_timed_out(old(self).threads@, now, id),
            final(self).threads@.len() == old(self).threads@.len(),
            forall|i: int|
                0 <= i < final(self).threads@.len() ==> #[trigger] final(self).threads@[i] == woken(
                    old(self).threads@[i],
                    now,
                ),
            final(self).running_thread_id == old(self).running_thread_id,
            final(self).last_thread_id == old(self).last_thread_id,
            final(self).scheduler_interval_counter == old(self).scheduler_interval_counter,
            finished_stays(
                old(self).threads@,
                old(self).last_thread_id,
                final(self).threads@,
                final(self).last_thread_id,
            ),
    {
        let ghost s0 = self.threads@;
        let mut first: Option<usize> = None;
        let mut i: usize = 0;
        while i < self.threads.len()
            invariant
                self.threads@.len() == s0.len(),
                s0 == old(self).threads@,
                self.running_thread_id == old(self).running_thread_id,
                self.last_thread_id == old(self).last_thread_id,
                self.scheduler_interval_counter == old(self).scheduler_interval_counter,
                forall|k: int| 0 <= k < i ==> #[trigger] self.threads@[k] == woken(s0[k], now),
                first is None ==> forall|k: int| 0 <= k < i ==> !timed_out(#[trigger] s0[k].state, now),
                first matches Some(id) ==> first_timed_out(s0, now, id),
                forall|k: int| i <= k < s0.len() ==> #[trigger] self.threads@[k] == s0[k],
            decreases s0.len() - i,
        {
            let wake = match &self.threads[i].state {
                ThreadState::Waiting(WaitingReason::Sleep(t)) => *t <= now,
                ThreadState::Waiting(WaitingReason::Join(_, Some(t))) => *t <= now,
                _ => false,
            };
            if wake {
                if first.is_none() {
                    first = Some(self.threads[i].id);
                    proof {
                        assert(first_timed_out(s0, now, s0[i as int].id)) by {
                            assert(timed_out(s0[i as int].state, now));
                        }
                    }
                }
                self.threads[i].state = ThreadState::Ready;
            }
            proof {
                assert(self.threads@[i as int] == woken(s0[i as int], now));
            }
            i += 1;
        }
        proof {
            let s1 = self.threads@;
            let running = self.running_thread_id;
            assert forall|k: int| 0 <= k < s1.len() implies s1[k].id == s0[k].id && tcb_wf(
                #[trigger] s1[k],
            ) && (s1[k].state is Running <==> s0[k].state is Running) && (s1[k].state is Stopped
                <==> s0[k].state is Stopped) && (s1[k].state is Ready ==> (s0[k].state is Ready
                || s0[k].state is Waiting)) by {
                assert(s1[k] == woken(s0[k], now));
                assert(tcb_wf(s0[k]));
            }
            let p = choose|p: int| 0 <= p < s0.len() && s0[p].id == running;
            assert(s1[p].id == running);
            assert forall|id: usize|
                finished(s0, self.last_thread_id, id) implies #[trigger] finished(
                s1,
                self.last_thread_id,
                id,
            ) by {
                assert forall|k: int| 0 <= k < s1.len() && #[trigger] s1[k].id == id implies s1[k].state is Stopped by {
                    assert(s0[k].id == id);
                }
            }
        }
        first
    }

    /// Delivers a character from the debug unit: appends it to the queue of
    /// every thread subscribed to the debug unit, and makes `Ready` each of
    /// those threads that was blocked waiting for one.
    pub fn handle_dbgu_new_character_event(&mut self, character: u8)
        requires
            old(self).wf(),
        ensures
            final(self).wf(),
            final(self).threads@.len() == old(self).threads@.len(),
            forall|i: int|
                0 <= i < final(self).threads@.len() ==> received(
                    old(self).threads@[i],
                    #[trigger] final(self).threads@[i],
                    character,
                ),
            final(self).running_thread_id == old(self).running_thread_id,
            final(self).last_thread_id == old(self).last_thread_id,
            final(self).scheduler_interval_counter == old(self).scheduler_interval_counter,
            finished_stays(
                old(self).threads@,
                old(self).last_thread_id,
                final(self).threads@,
                final(self).last_thread_id,
            ),
    {
        let ghost s0 = self.threads@;
        let mut i: usize = 0;
        while i < self.threads.len()
            invariant
                self.threads@.len() == s0.len(),
                s0 == old(self).threads@,
                self.running_thread_id == old(self).running_thread_id,
                self.last_thread_id == old(self).last_thread_id,
                self.scheduler_interval_counter == old(self).scheduler_interval_counter,
                forall|k: int|
                    0 <= k < i ==> received(s0[k], #[trigger] self.threads@[k], character),
                forall|k: int| i <= k < s0.len() ==> #[trigger] self.threads@[k] == s0[k],
            decreases s0.len() - i,
        {
            let subscribed = self.threads[i].subscribed_services.contains(ThreadServices::DBGU);
            self.threads[i].subscribed_services.push_back(
                ThreadServices::DBGU,
                ThreadMessage::DBGU(character),
            );
            let waiting = match &self.threads[i].state {
                ThreadState::Waiting(WaitingReason::DBGU) => true,
                _ => false,
            };
            if waiting && subscribed {
                self.threads[i].state = ThreadState::Ready;
            }
            proof {
                assert(received(s0[i as int], self.threads@[i as int], character));
            }
            i += 1;
        }
        proof {
            let s1 = self.threads@;
            let running = self.running_thread_id;
            assert forall|k: int| 0 <= k < s1.len() implies s1[k].id == s0[k].id && tcb_wf(
                #[trigger] s1[k],
            ) && (s1[k].state is Running <==> s0[k].state is Running) && (s1[k].state is Stopped
                <==> s0[k].state is Stopped) && (s1[k].state is Ready ==> (s0[k].state is Ready
                || s0[k].state is Waiting)) by {
                assert(received(s0[k], s1[k], character));
                assert(tcb_wf(s0[k]));
            }
            let p = choose|p: int| 0 <= p < s0.len() && s0[p].id == running;
            assert(s1[p].id == running);
            assert forall|id: usize|
                finished(s0, self.last_thread_id, id) implies #[trigger] finished(
                s1,
                self.last_thread_id,
                id,
            ) by {
                assert forall|k: int| 0 <= k < s1.len() && #[trigger] s1[k].id == id implies s1[k].state is Stopped by {
                    assert(s0[k].id == id);
                }
            }
        }
    }
}

} // verus!
