use vstd::prelude::*;
use crate::events::delivered;
use crate::syscall_handlers::{current, elapsed_ms};
use crate::syscalls::ThreadServices;
use crate::threads::{
    finished, has_id, keep, lemma_position_of, position_of, reaped, tcb_wf, Runtime,
    ThreadMessage, IDLE_THREAD_ID, TCB,
};

verus! {

/// Characters delivered one after the other, in arrival order.
pub open spec fn delivered_all(m: Map<ThreadServices, Seq<ThreadMessage>>, cs: Seq<u8>) -> Map<
    ThreadServices,
    Seq<ThreadMessage>,
>
    decreases cs.len(),
{
    if cs.len() == 0 {
        m
    } else {
        delivered(delivered_all(m, cs.drop_last()), cs.last())
    }
}

/// The messages carrying the given characters.
pub open spec fn dbgu_messages(cs: Seq<u8>) -> Seq<ThreadMessage> {
    cs.map_values(|c: u8| ThreadMessage::DBGU(c))
}

/// At every quiescent point exactly one thread is `Running`: the current one.
pub proof fn lemma_exactly_one_running(rt: &Runtime)
    requires
        rt.wf(),
    ensures
        exists|i: int|
            0 <= i < rt.threads@.len() && rt.threads@[i].state is Running && rt.threads@[i].id
                == rt.running_thread_id,
        forall|i: int, j: int|
            0 <= i < rt.threads@.len() && 0 <= j < rt.threads@.len()
                && rt.threads@[i].state is Running && rt.threads@[j].state is Running ==> i == j,
{
    let s = rt.threads@;
    let p = choose|p: int| 0 <= p < s.len() && s[p].id == rt.running_thread_id;
    assert(s[p].state is Running);
    assert forall|i: int, j: int|
        0 <= i < s.len() && 0 <= j < s.len() && s[i].state is Running && s[j].state
            is Running implies i == j by {
        if i < j {
            assert(s[i].id < s[j].id);
        } else if j < i {
            assert(s[j].id < s[i].id);
        }
    }
}

/// Thread ids are unique: they strictly increase in creation order and stay
/// below the id the next created thread gets.
pub proof fn lemma_thread_ids_increase(rt: &Runtime, i: int, j: int)
    requires
        rt.wf(),
        0 <= i < j < rt.threads@.len(),
    ensures
        rt.threads@[i].id < rt.threads@[j].id,
        rt.threads@[j].id < rt.last_thread_id,
{
    assert(tcb_wf(rt.threads@[j]));
}

/// A thread that stopped (or was reaped since) is seen as stopped by a join:
/// either it is no longer in the table, or its entry is `Stopped`.
pub proof fn lemma_join_sees_finished(s: Seq<TCB>, last: usize, id: usize)
    requires
        finished(s, last, id),
    ensures
        !has_id(s, id) || s[position_of(s, id)].state is Stopped,
{
}

/// Every character delivered after a subscription is queued, in arrival order,
/// behind what was already queued.
pub proof fn lemma_delivery_in_order(m: Map<ThreadServices, Seq<ThreadMessage>>, cs: Seq<u8>)
    requires
        m.contains_key(ThreadServices::DBGU),
    ensures
        delivered_all(m, cs).contains_key(ThreadServices::DBGU),
        delivered_all(m, cs)[ThreadServices::DBGU] == m[ThreadServices::DBGU] + dbgu_messages(cs),
    decreases cs.len(),
{
    if cs.len() > 0 {
        lemma_delivery_in_order(m, cs.drop_last());
        assert(dbgu_messages(cs) =~= dbgu_messages(cs.drop_last()).push(
            ThreadMessage::DBGU(cs.last()),
        ));
        assert(m[ThreadServices::DBGU] + dbgu_messages(cs) =~= (m[ThreadServices::DBGU]
            + dbgu_messages(cs.drop_last())).push(ThreadMessage::DBGU(cs.last())));
    }
}

/// A thread woken from `Sleep(ms)` reports between `ms - unit_ms` and
/// `ms + jitter * unit_ms` milliseconds, when it wakes at the first tick at or
/// after its wake-up tick and runs again within `jitter` ticks of it.
pub proof fn lemma_sleep_return_bounds(ms: usize, unit_ms: usize, start: usize, now: usize, jitter: nat)
    requires
        unit_ms > 0,
        start + ms / unit_ms <= now,
        now <= start + ms / unit_ms + jitter,
    ensures
        ms - unit_ms < elapsed_ms(start, now, unit_ms) <= ms + jitter * unit_ms,
{
    let q = ms / unit_ms;
    let e = now - start;
    assert(q <= e <= q + jitter);
    assert(unit_ms * q <= ms < unit_ms * q + unit_ms) by (nonlinear_arith)
        requires
            unit_ms > 0,
            q == ms / unit_ms,
    ;
    assert(unit_ms * q <= unit_ms * e <= unit_ms * q + unit_ms * jitter) by (nonlinear_arith)
        requires
            unit_ms > 0,
            q <= e <= q + jitter,
    ;
}

/// Subscribing to a service and unsubscribing from it again leaves the
/// subscriptions as they were.
pub proof fn lemma_subscribe_unsubscribe(
    m: Map<ThreadServices, Seq<ThreadMessage>>,
    service: ThreadServices,
)
    requires
        !m.contains_key(service),
    ensures
        m.insert(service, Seq::empty()).remove(service) == m,
{
    assert(m.insert(service, Seq::empty()).remove(service) =~= m);
}

/// A thread that was created and has stopped, other than the current one,
/// leaves nothing behind after the next scheduler pass: the table is reaped to
/// what it would have been without it.
pub proof fn lemma_created_then_stopped_is_reaped(s: Seq<TCB>, t: TCB, running: usize)
    requires
        t.state is Stopped,
        t.id != running,
    ensures
        reaped(s.push(t), running) == reaped(s, running),
        reaped(s.push(t), running).len() == reaped(s, running).len(),
{
    assert(s.push(t).drop_last() =~= s);
    assert(!keep(t, running));
}

/// A thread joining itself is not its own parent: the join is fatal.
pub proof fn lemma_join_self_not_parent(rt: &Runtime)
    requires
        rt.wf(),
        rt.running_thread_id != IDLE_THREAD_ID,
    ensures
        has_id(rt.threads@, rt.running_thread_id),
        !(current(rt.threads@, rt.running_thread_id).state is Stopped),
        current(rt.threads@, rt.running_thread_id).parent_thread_id != rt.running_thread_id,
{
    let s = rt.threads@;
    let p = choose|p: int| 0 <= p < s.len() && s[p].id == rt.running_thread_id;
    lemma_position_of(s, p);
    assert(tcb_wf(s[p]));
}

} // verus!
