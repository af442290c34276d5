use rost::syscall_handlers::{sleep_elapsed_ms, SyscallResult, NO_CHARACTER};
use rost::threads::{
    KernelError, Runtime, Switch, ThreadState, WaitingReason, INITIAL_FRAME_SIZE, SCHEDULER_INTERVAL,
};

const STACK: usize = 0x2000_2000;

fn boot() -> Runtime {
    Runtime::init_runtime(100, STACK, 101, STACK + 0x2000)
}

fn running_count(rt: &Runtime) -> usize {
    rt.threads.iter().filter(|t| t.state.is_running()).count()
}

fn state_of(rt: &Runtime, id: usize) -> Option<&ThreadState> {
    rt.get_thread_by_id(id).map(|t| &t.state)
}

/// Runs the given thread: yields until it is the current one.
fn run(rt: &mut Runtime, id: usize) {
    for _ in 0..rt.threads.len() + 1 {
        if rt.running_thread_id == id {
            return;
        }
        rt.yield_thread();
    }
    assert_eq!(rt.running_thread_id, id);
}

#[test]
fn init_runtime_starts_first_thread() {
    let rt = boot();
    assert_eq!(rt.threads.len(), 2);
    assert_eq!(rt.threads[0].id, 0);
    assert!(rt.threads[0].state.is_ready());
    assert_eq!(rt.threads[1].id, 1);
    assert!(rt.threads[1].state.is_running());
    assert_eq!(rt.running_thread_id, 1);
    assert_eq!(rt.last_thread_id, 2);
    assert_eq!(rt.threads[1].parent_thread_id, 0);
    assert_eq!(rt.threads[0].stack_current, STACK - INITIAL_FRAME_SIZE);
}

#[test]
fn create_thread_gives_increasing_ids() {
    let mut rt = boot();
    let a = rt.create_thread_internal(7, 0x2001_0000);
    let b = rt.create_thread_internal(8, 0x2001_4000);
    let c = rt.create_thread_internal(9, 0x2001_8000);
    assert_eq!((a, b, c), (2, 3, 4));
    assert_eq!(rt.last_thread_id, 5);
    let ids: Vec<usize> = rt.threads.iter().map(|t| t.id).collect();
    assert_eq!(ids, vec![0, 1, 2, 3, 4]);
    let t = rt.get_thread_by_id(3).unwrap();
    assert!(t.state.is_ready());
    assert_eq!(t.parent_thread_id, 1);
    assert_eq!(t.entry, 8);
    assert_eq!(t.stack_start, 0x2001_4000);
    assert_eq!(t.stack_current, 0x2001_4000 - 60);
    assert_eq!(running_count(&rt), 1);
}

#[test]
fn yield_is_round_robin_and_skips_idle() {
    let mut rt = boot();
    rt.create_thread_internal(7, 0x2001_0000);
    rt.create_thread_internal(8, 0x2001_4000);
    assert_eq!(rt.yield_thread(), Some(Switch { from: 1, to: 2 }));
    assert!(rt.get_thread_by_id(1).unwrap().state.is_ready());
    assert_eq!(rt.scheduler_interval_counter, SCHEDULER_INTERVAL);
    assert_eq!(rt.yield_thread(), Some(Switch { from: 2, to: 3 }));
    assert_eq!(rt.yield_thread(), Some(Switch { from: 3, to: 1 }));
    assert_eq!(running_count(&rt), 1);
}

#[test]
fn yield_alone_keeps_running() {
    let mut rt = boot();
    assert_eq!(rt.yield_thread(), None);
    assert_eq!(rt.running_thread_id, 1);
    assert!(rt.threads[0].state.is_ready());
}

#[test]
fn schedule_prefers_requested_ready_thread() {
    let mut rt = boot();
    rt.create_thread_internal(7, 0x2001_0000);
    rt.create_thread_internal(8, 0x2001_4000);
    assert_eq!(rt.schedule(Some(3)), Some(Switch { from: 1, to: 3 }));
    // a request for an unknown thread falls back to round robin
    assert_eq!(rt.schedule(Some(42)), Some(Switch { from: 3, to: 1 }));
}

#[test]
fn blocked_thread_falls_back_to_idle() {
    let mut rt = boot();
    match rt.sleep(100, 0, 10) {
        SyscallResult::Blocked(sw) => assert_eq!(sw, Switch { from: 1, to: 0 }),
        other => panic!("unexpected {:?}", other),
    }
    assert_eq!(rt.running_thread_id, 0);
    assert!(rt.threads[0].state.is_running());
    assert!(matches!(
        state_of(&rt, 1),
        Some(ThreadState::Waiting(WaitingReason::Sleep(10)))
    ));
    assert_eq!(running_count(&rt), 1);
    // idle with nothing ready stays
    assert_eq!(rt.yield_thread(), None);
}

#[test]
fn sleep_zero_returns_at_once() {
    let mut rt = boot();
    assert_eq!(rt.sleep(0, 123, 10), SyscallResult::Return(0));
    assert_eq!(rt.sleep(9, 123, 10), SyscallResult::Return(0));
    assert_eq!(rt.running_thread_id, 1);
    assert!(rt.threads[1].state.is_running());
}

#[test]
fn sleep_wakes_at_its_tick() {
    let mut rt = boot();
    let start = 40;
    assert!(matches!(rt.sleep(5000, start, 10), SyscallResult::Blocked(_)));
    let mut now = start;
    loop {
        now += 1;
        if let Some(sw) = rt.on_tick(now) {
            assert_eq!(sw.to, 1);
            break;
        }
        assert!(now < start + 1000);
    }
    assert_eq!(now, start + 500);
    let slept = sleep_elapsed_ms(start, now, 10);
    assert_eq!(slept, 5000);
    assert!((slept as i64 - 5000).abs() < 50);
}

#[test]
fn sleep_return_within_a_tick() {
    // 25 ms with 10 ms units: two units, woken at the second tick
    let mut rt = boot();
    assert!(matches!(rt.sleep(25, 0, 10), SyscallResult::Blocked(_)));
    assert_eq!(rt.on_tick(1), None);
    assert_eq!(rt.on_tick(2), Some(Switch { from: 0, to: 1 }));
    let slept = sleep_elapsed_ms(0, 2, 10);
    assert!(25 - 10 < slept && slept <= 25 + 10);
}

#[test]
fn preemption_after_quantum() {
    let mut rt = boot();
    let b = rt.create_thread_internal(7, 0x2001_0000);
    // thread 1 busy; thread b sleeps 100 ms
    run(&mut rt, b);
    assert!(matches!(rt.sleep(100, 0, 10), SyscallResult::Blocked(Switch { from: 2, to: 1 })));
    let mut switches = 0;
    for now in 1..=9 {
        if rt.on_tick(now).is_some() {
            switches += 1;
        }
        // the busy thread keeps the processor: only it and idle may run
        assert!(rt.running_thread_id == 1);
    }
    assert_eq!(switches, 0);
    assert_eq!(rt.on_tick(10), Some(Switch { from: 1, to: b }));
    assert_eq!(rt.scheduler_interval_counter, SCHEDULER_INTERVAL);
}

#[test]
fn quantum_counter_triggers_scheduler() {
    let mut rt = boot();
    rt.create_thread_internal(7, 0x2001_0000);
    assert_eq!(rt.scheduler_interval_counter, 0);
    assert_eq!(rt.on_tick(1), Some(Switch { from: 1, to: 2 }));
    for now in 2..=6 {
        assert_eq!(rt.on_tick(now), None);
    }
    assert_eq!(rt.scheduler_interval_counter, 0);
    assert_eq!(rt.on_tick(7), Some(Switch { from: 2, to: 1 }));
}

#[test]
fn exit_then_join_returns_at_once() {
    let mut rt = boot();
    let child = rt.create_thread_internal(7, 0x2001_0000);
    run(&mut rt, child);
    let sw = rt.exit_internal();
    assert_eq!(sw, Switch { from: child, to: 1 });
    assert!(rt.get_thread_by_id(child).unwrap().state.is_stopped());
    assert_eq!(rt.join_thread(child, 0, 0), Ok(SyscallResult::Return(0)));
    // the stopped child is reaped by the next scheduler pass
    rt.yield_thread();
    assert!(rt.get_thread_by_id(child).is_none());
    assert_eq!(rt.join_thread(child, 0, 0), Ok(SyscallResult::Return(0)));
}

#[test]
fn create_exit_join_keeps_thread_count() {
    let mut rt = boot();
    let before = rt.threads.len();
    let child = rt.create_thread_internal(7, 0x2001_0000);
    // parent joins first, then the child runs and exits
    let r = rt.join_thread(child, 0, 0);
    assert_eq!(r, Ok(SyscallResult::Blocked(Switch { from: 1, to: child })));
    assert_eq!(rt.exit_internal(), Switch { from: child, to: 1 });
    assert!(rt.get_thread_by_id(1).unwrap().state.is_running());
    rt.yield_thread();
    assert_eq!(rt.threads.len(), before);
    assert_eq!(running_count(&rt), 1);
}

#[test]
fn join_timeout_wakes_parent() {
    let mut rt = boot();
    let child = rt.create_thread_internal(7, 0x2001_0000);
    let r = rt.join_thread(child, 30, 5);
    assert!(matches!(r, Ok(SyscallResult::Blocked(_))));
    assert!(matches!(
        state_of(&rt, 1),
        Some(ThreadState::Waiting(WaitingReason::Join(ids, Some(35)))) if ids == &vec![child]
    ));
    // child spins; parent wakes when the timeout tick comes
    let mut woke_at = 0;
    for now in 6..=40 {
        if let Some(sw) = rt.on_tick(now) {
            if sw.to == 1 {
                woke_at = now;
                break;
            }
        }
    }
    assert_eq!(woke_at, 35);
}

#[test]
fn join_of_non_child_is_fatal() {
    let mut rt = boot();
    let a = rt.create_thread_internal(7, 0x2001_0000);
    run(&mut rt, a);
    let b = rt.create_thread_internal(8, 0x2001_4000);
    // thread 1 (not b's parent) joins b
    run(&mut rt, 1);
    assert_eq!(rt.get_thread_by_id(b).unwrap().parent_thread_id, a);
    assert_eq!(rt.join_thread(b, 0, 0), Err(KernelError::NotParent));
    assert_eq!(rt.running_thread_id, 1);
}

#[test]
fn join_self_is_fatal() {
    let mut rt = boot();
    assert_eq!(rt.join_thread(1, 0, 0), Err(KernelError::NotParent));
    let a = rt.create_thread_internal(7, 0x2001_0000);
    run(&mut rt, a);
    assert_eq!(rt.join_thread(a, 0, 0), Err(KernelError::NotParent));
}

#[test]
fn join_unknown_thread_returns_zero() {
    let mut rt = boot();
    assert_eq!(rt.join_thread(99, 0, 0), Ok(SyscallResult::Return(0)));
}

#[test]
fn non_blocking_receive_without_character() {
    let mut rt = boot();
    assert_eq!(rt.subscribe_thread_service(10), Ok(()));
    assert_eq!(rt.receive_dbgu(false), Ok(SyscallResult::Return(NO_CHARACTER)));
    assert_eq!(NO_CHARACTER, 0xFFFF);
}

#[test]
fn one_running_thread_through_a_session() {
    let mut rt = boot();
    assert_eq!(running_count(&rt), 1);
    let a = rt.create_thread_internal(7, 0x2001_0000);
    assert_eq!(running_count(&rt), 1);
    run(&mut rt, a);
    assert_eq!(running_count(&rt), 1);
    rt.subscribe_thread_service(10).unwrap();
    rt.receive_dbgu(true).unwrap();
    assert_eq!(running_count(&rt), 1);
    rt.handle_dbgu_new_character_event(b'z');
    assert_eq!(running_count(&rt), 1);
    for now in 1..20 {
        rt.on_tick(now);
        assert_eq!(running_count(&rt), 1);
    }
}
