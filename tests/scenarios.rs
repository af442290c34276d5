use rost::dbgu::write_char;
use rost::syscall_handlers::{sleep_elapsed_ms, SyscallResult};
use rost::syscalls::{syscall_handler, Request, ThreadServices};
use rost::threads::{KernelError, Runtime, ThreadMessage};
use std::collections::HashMap;

const UNIT_MS: usize = 10;

fn boot() -> Runtime {
    Runtime::init_runtime(100, 0x2000_2000, 101, 0x2000_4000)
}

fn queue_of(rt: &Runtime, id: usize) -> Option<Vec<ThreadMessage>> {
    rt.get_thread_by_id(id).unwrap().subscribed_services.dbgu.clone()
}

fn run(rt: &mut Runtime, id: usize) {
    for _ in 0..rt.threads.len() + 1 {
        if rt.running_thread_id == id {
            return;
        }
        rt.yield_thread();
    }
    assert_eq!(rt.running_thread_id, id);
}

#[test]
fn echo_thread_until_q() {
    let mut rt = boot();
    let echo = rt.create_thread_internal(7, 0x2001_0000);
    let count_before = rt.threads.len();
    run(&mut rt, echo);
    assert_eq!(
        syscall_handler(10, 0, 0, 34),
        Some(Request::Subscribe(10))
    );
    rt.subscribe_thread_service(10).unwrap();
    let mut output: Vec<u8> = Vec::new();
    let input = b"hiq";
    let mut next_input = 0;
    loop {
        let c = match rt.receive_dbgu(true).unwrap() {
            SyscallResult::Return(c) => c,
            SyscallResult::Blocked(_) => {
                // a character arrives; the echo thread runs again
                rt.handle_dbgu_new_character_event(input[next_input]);
                next_input += 1;
                run(&mut rt, echo);
                rt.finish_receive_dbgu().unwrap()
            }
        };
        let byte = match syscall_handler(c, 0, 0, 10) {
            Some(Request::SendDBGU(b)) => b,
            other => panic!("unexpected {:?}", other),
        };
        let w = write_char(0x2, byte as char).unwrap();
        output.push(w.value as u8);
        if byte == b'q' {
            break;
        }
    }
    assert_eq!(output, b"hiq".to_vec());
    rt.exit_internal();
    rt.yield_thread();
    assert_eq!(rt.threads.len(), count_before - 1);
}

#[test]
fn dbgu_broadcast_to_three_subscribers() {
    let mut rt = boot();
    let ids: Vec<usize> = (0..3).map(|k| rt.create_thread_internal(10 + k, 0x2001_0000 + k * 0x4000)).collect();
    for &id in &ids {
        run(&mut rt, id);
        rt.subscribe_thread_service(10).unwrap();
        assert!(matches!(rt.receive_dbgu(true), Ok(SyscallResult::Blocked(_))));
    }
    rt.handle_dbgu_new_character_event(b'x');
    for &id in &ids {
        assert!(rt.get_thread_by_id(id).unwrap().state.is_ready());
        assert_eq!(queue_of(&rt, id), Some(vec![ThreadMessage::DBGU(b'x')]));
    }
    let mut got = HashMap::new();
    for &id in &ids {
        run(&mut rt, id);
        got.insert(id, rt.finish_receive_dbgu().unwrap());
        assert_eq!(rt.receive_dbgu(false), Ok(SyscallResult::Return(0xFFFF)));
    }
    for &id in &ids {
        assert_eq!(got[&id], b'x' as usize);
    }
    // the parent did not subscribe and gets nothing
    assert_eq!(queue_of(&rt, 1), None);
}

#[test]
fn characters_queue_in_arrival_order() {
    let mut rt = boot();
    rt.handle_dbgu_new_character_event(b'a');
    rt.subscribe_thread_service(10).unwrap();
    for &c in b"xyz" {
        rt.handle_dbgu_new_character_event(c);
    }
    assert_eq!(
        queue_of(&rt, 1),
        Some(vec![ThreadMessage::DBGU(b'x'), ThreadMessage::DBGU(b'y'), ThreadMessage::DBGU(b'z')])
    );
    let mut got = Vec::new();
    while let Ok(SyscallResult::Return(c)) = rt.receive_dbgu(false) {
        if c == 0xFFFF {
            break;
        }
        got.push(c as u8);
    }
    assert_eq!(got, b"xyz".to_vec());
    rt.unsubscribe_thread_service(10).unwrap();
    rt.handle_dbgu_new_character_event(b'w');
    assert_eq!(queue_of(&rt, 1), None);
}

#[test]
fn subscribe_unsubscribe_restores_subscriptions() {
    let mut rt = boot();
    assert_eq!(queue_of(&rt, 1), None);
    assert_eq!(rt.subscribe_thread_service(10), Ok(()));
    assert_eq!(queue_of(&rt, 1), Some(vec![]));
    assert_eq!(rt.unsubscribe_thread_service(10), Ok(()));
    assert_eq!(queue_of(&rt, 1), None);
}

#[test]
fn subscription_errors() {
    let mut rt = boot();
    assert_eq!(rt.subscribe_thread_service(11), Err(KernelError::InvalidService));
    assert_eq!(rt.unsubscribe_thread_service(10), Err(KernelError::NotSubscribed));
    assert_eq!(rt.receive_dbgu(true), Err(KernelError::NotSubscribed));
    assert_eq!(rt.subscribe_thread_service(10), Ok(()));
    assert_eq!(rt.subscribe_thread_service(10), Err(KernelError::AlreadySubscribed));
    assert_eq!(rt.finish_receive_dbgu(), Err(KernelError::MissingMessage));
    assert_eq!(rt.unsubscribe_thread_service(99), Err(KernelError::InvalidService));
    assert_eq!(ThreadServices::DBGU.id(), 10);
}

/// Progress of one thread of the thread test.
#[derive(Clone, Copy)]
enum Step {
    Start,
    FirstSleep(usize),
    SecondSleep(usize),
}

#[test]
fn thread_test_counts_753() {
    let mut rt = boot();
    let mut now: usize = 0;
    let mut counter = 0;
    let mut children: Vec<usize> = Vec::new();
    let mut index_of: HashMap<usize, usize> = HashMap::new();
    let mut steps: HashMap<usize, Step> = HashMap::new();
    for k in 0..=250usize {
        let id = rt.create_thread_internal(1000 + k, 0x2010_0000 + k * 0x2000);
        children.push(id);
        index_of.insert(id, k);
        steps.insert(id, Step::Start);
    }
    let mut joined = 0;
    let mut parent_waiting = false;
    let mut guard = 0;
    while joined < children.len() {
        guard += 1;
        assert!(guard < 1_000_000);
        let cur = rt.running_thread_id;
        if cur == 0 {
            now += 1;
            rt.on_tick(now);
            continue;
        }
        if cur == 1 {
            if parent_waiting {
                parent_waiting = false;
                joined += 1;
                continue;
            }
            match rt.join_thread(children[joined], 0, now).unwrap() {
                SyscallResult::Return(0) => joined += 1,
                SyscallResult::Blocked(_) => parent_waiting = true,
                other => panic!("unexpected {:?}", other),
            }
            continue;
        }
        let k = index_of[&cur];
        match steps[&cur] {
            Step::Start => {
                counter += 1;
                steps.insert(cur, Step::FirstSleep(now));
                if let SyscallResult::Return(v) = rt.sleep(k * 50, now, UNIT_MS) {
                    assert_eq!(v, 0);
                }
            }
            Step::FirstSleep(start) => {
                let slept = if now == start { 0 } else { sleep_elapsed_ms(start, now, UNIT_MS) };
                assert!(slept >= k * 50 && slept - k * 50 < 50);
                counter += 1;
                steps.insert(cur, Step::SecondSleep(now));
                if let SyscallResult::Return(v) = rt.sleep(k * 75, now, UNIT_MS) {
                    assert_eq!(v, 0);
                }
            }
            Step::SecondSleep(start) => {
                let slept = if now == start { 0 } else { sleep_elapsed_ms(start, now, UNIT_MS) };
                assert!(slept + 10 > k * 75 && slept < k * 75 + 50);
                counter += 1;
                rt.exit_internal();
            }
        }
    }
    assert_eq!(counter, 753);
    rt.yield_thread();
    assert_eq!(rt.threads.len(), 2);
}
