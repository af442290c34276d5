use vstd::prelude::*;
use vstd::string::StrSliceExecFns;

verus! {

/// Identifier of a software-interrupt service (the immediate of `swi #id`).
#[derive(Debug, Clone, Copy, PartialEq, Eq, Structural)]
pub enum Syscalls {
    SendDBGU,
    ReceiveDBGU,
    Allocate,
    Deallocate,
    CreateThread,
    ExitThread,
    YieldThread,
    JoinThread,
    Subscribe,
    Unsubscribe,
    GetCurrentRealTime,
    Sleep,
}

/// The numeric service id of each system call.
pub open spec fn syscall_id(s: Syscalls) -> u32 {
    match s {
        Syscalls::SendDBGU => 10,
        Syscalls::ReceiveDBGU => 11,
        Syscalls::Allocate => 20,
        Syscalls::Deallocate => 21,
        Syscalls::CreateThread => 30,
        Syscalls::ExitThread => 31,
        Syscalls::YieldThread => 32,
        Syscalls::JoinThread => 33,
        Syscalls::Subscribe => 34,
        Syscalls::Unsubscribe => 35,
        Syscalls::GetCurrentRealTime => 40,
        Syscalls::Sleep => 41,
    }
}

/// The system call a service id names, if any.
pub open spec fn syscall_of(id: int) -> Option<Syscalls> {
    if id == 10 {
        Some(Syscalls::SendDBGU)
    } else if id == 11 {
        Some(Syscalls::ReceiveDBGU)
    } else if id == 20 {
        Some(Syscalls::Allocate)
    } else if id == 21 {
        Some(Syscalls::Deallocate)
    } else if id == 30 {
        Some(Syscalls::CreateThread)
    } else if id == 31 {
        Some(Syscalls::ExitThread)
    } else if id == 32 {
        Some(Syscalls::YieldThread)
    } else if id == 33 {
        Some(Syscalls::JoinThread)
    } else if id == 34 {
        Some(Syscalls::Subscribe)
    } else if id == 35 {
        Some(Syscalls::Unsubscribe)
    } else if id == 40 {
        Some(Syscalls::GetCurrentRealTime)
    } else if id == 41 {
        Some(Syscalls::Sleep)
    } else {
        None
    }
}

impl Syscalls {
    /// The service id placed in the `swi` immediate.
    pub fn id(self) -> (r: u32)
        ensures
            r == syscall_id(self),
    {
        match self {
            Syscalls::SendDBGU => 10,
            Syscalls::ReceiveDBGU => 11,
            Syscalls::Allocate => 20,
            Syscalls::Deallocate => 21,
            Syscalls::CreateThread => 30,
            Syscalls::ExitThread => 31,
            Syscalls::YieldThread => 32,
            Syscalls::JoinThread => 33,
            Syscalls::Subscribe => 34,
            Syscalls::Unsubscribe => 35,
            Syscalls::GetCurrentRealTime => 40,
            Syscalls::Sleep => 41,
        }
    }

    /// Decodes a service id; `None` for an id that names no system call.
    pub fn try_from_id(id: u32) -> (r: Option<Syscalls>)
        ensures
            r == syscall_of(id as int),
            r matches Some(s) ==> syscall_id(s) == id,
            r is None ==> forall|s: Syscalls| syscall_id(s) != id,
    {
        match id {
            10 => Some(Syscalls::SendDBGU),
            11 => Some(Syscalls::ReceiveDBGU),
            20 => Some(Syscalls::Allocate),
            21 => Some(Syscalls::Deallocate),
            30 => Some(Syscalls::CreateThread),
            31 => Some(Syscalls::ExitThread),
            32 => Some(Syscalls::YieldThread),
            33 => Some(Syscalls::JoinThread),
            34 => Some(Syscalls::Subscribe),
            35 => Some(Syscalls::Unsubscribe),
            40 => Some(Syscalls::GetCurrentRealTime),
            41 => Some(Syscalls::Sleep),
            _ => None,
        }
    }
}

/// A named channel on which interrupt handlers deliver messages to subscribed threads.
#[derive(Debug, Clone, Copy, PartialEq, Eq, Structural)]
pub enum ThreadServices {
    DBGU,
}

/// The numeric id of each service.
pub open spec fn service_id(s: ThreadServices) -> u32 {
    match s {
        ThreadServices::DBGU => 10,
    }
}

/// The service a service id names, if any.
pub open spec fn service_of(id: int) -> Option<ThreadServices> {
    if id == 10 {
        Some(ThreadServices::DBGU)
    } else {
        None
    }
}

impl ThreadServices {
    /// The numeric id passed in `r0` to `Subscribe` and `Unsubscribe`.
    pub fn id(self) -> (r: u32)
        ensures
            r == service_id(self),
    {
        match self {
            ThreadServices::DBGU => 10,
        }
    }

    /// Decodes a service id; `None` for an id that names no service.
    pub fn try_from_id(id: u32) -> (r: Option<ThreadServices>)
        ensures
            r == service_of(id as int),
            r matches Some(s) ==> service_id(s) == id,
            r is None ==> forall|s: ThreadServices| service_id(s) != id,
    {
        match id {
            10 => Some(ThreadServices::DBGU),
            _ => None,
        }
    }
}

/// A system call with its arguments, decoded from the registers at the
/// software interrupt.
#[derive(Debug, Clone, Copy, PartialEq, Eq, Structural)]
pub enum Request {
    SendDBGU(u8),
    ReceiveDBGU { blocking: bool },
    Allocate { size: usize, align: usize },
    Deallocate { ptr: usize, size: usize, align: usize },
    /// The handle of the thread's entry, in two register-sized halves.
    CreateThread { entry_lo: usize, entry_hi: usize },
    ExitThread,
    YieldThread,
    JoinThread { thread_id: usize, timeout_ms: usize },
    Subscribe(usize),
    Unsubscribe(usize),
    GetCurrentRealTime,
    Sleep(usize),
}

/// The request a system call makes with arguments `r0`, `r1`, `r2`.
pub open spec fn request_of(s: Syscalls, arg0: usize, arg1: usize, arg2: usize) -> Request {
    match s {
        Syscalls::SendDBGU => Request::SendDBGU(arg0 as u8),
        Syscalls::ReceiveDBGU => Request::ReceiveDBGU { blocking: arg0 != 0 },
        Syscalls::Allocate => Request::Allocate { size: arg0, align: arg1 },
        Syscalls::Deallocate => Request::Deallocate { ptr: arg0, size: arg1, align: arg2 },
        Syscalls::CreateThread => Request::CreateThread { entry_lo: arg0, entry_hi: arg1 },
        Syscalls::ExitThread => Request::ExitThread,
        Syscalls::YieldThread => Request::YieldThread,
        Syscalls::JoinThread => Request::JoinThread { thread_id: arg0, timeout_ms: arg1 },
        Syscalls::Subscribe => Request::Subscribe(arg0),
        Syscalls::Unsubscribe => Request::Unsubscribe(arg0),
        Syscalls::GetCurrentRealTime => Request::GetCurrentRealTime,
        Syscalls::Sleep => Request::Sleep(arg0),
    }
}

/// Decodes a software interrupt: the service id and the argument registers.
/// `None` for an id that names no system call, which is fatal to the kernel.
pub fn syscall_handler(arg0: usize, arg1: usize, arg2: usize, service_id: usize) -> (r: Option<
    Request,
>)
    ensures
        r == (match syscall_of(service_id as int) {
            Some(s) => Some(request_of(s, arg0, arg1, arg2)),
            None => None,
        }),
        r is None <==> forall|s: Syscalls| syscall_id(s) != service_id,
{
    if service_id > 0xFFFF_FFFF {
        return None;
    }
    match Syscalls::try_from_id(service_id as u32) {
        Some(Syscalls::SendDBGU) => Some(Request::SendDBGU(arg0 as u8)),
        Some(Syscalls::ReceiveDBGU) => Some(Request::ReceiveDBGU { blocking: arg0 != 0 }),
        Some(Syscalls::Allocate) => Some(Request::Allocate { size: arg0, align: arg1 }),
        Some(Syscalls::Deallocate) => Some(
            Request::Deallocate { ptr: arg0, size: arg1, align: arg2 },
        ),
        Some(Syscalls::CreateThread) => Some(
            Request::CreateThread { entry_lo: arg0, entry_hi: arg1 },
        ),
        Some(Syscalls::ExitThread) => Some(Request::ExitThread),
        Some(Syscalls::YieldThread) => Some(Request::YieldThread),
        Some(Syscalls::JoinThread) => Some(
            Request::JoinThread { thread_id: arg0, timeout_ms: arg1 },
        ),
        Some(Syscalls::Subscribe) => Some(Request::Subscribe(arg0)),
        Some(Syscalls::Unsubscribe) => Some(Request::Unsubscribe(arg0)),
        Some(Syscalls::GetCurrentRealTime) => Some(Request::GetCurrentRealTime),
        Some(Syscalls::Sleep) => Some(Request::Sleep(arg0)),
        None => None,
    }
}

/// The bytes a thread hands to `SendDBGU` for a string: the low byte of each
/// character, in order.
pub fn send_str_to_dbgu(chars: &str) -> (r: Vec<u8>)
    ensures
        r@ == chars@.map_values(|c: char| (c as u32) as u8),
{
    let n = chars.unicode_len();
    let mut out: Vec<u8> = Vec::new();
    let mut i: usize = 0;
    while i < n
        invariant
            n == chars@.len(),
            i <= n,
            out@ == chars@.subrange(0, i as int).map_values(|c: char| (c as u32) as u8),
        decreases n - i,
    {
        let c = chars.get_char(i);
        out.push((c as u32) as u8);
        proof {
            assert(chars@.subrange(0, i + 1) =~= chars@.subrange(0, i as int).push(c));
        }
        i += 1;
    }
    assert(chars@.subrange(0, n as int) =~= chars@);
    out
}

/// What a `ReceiveDBGU` result in `r0` means to the caller: `None` for the
/// no-character value 0xFFFF, else the received byte.
pub fn decode_received_character(out_char: u32) -> (r: Option<u8>)
    ensures
        out_char == 0xFFFF ==> r is None,
        out_char != 0xFFFF ==> r == Some(out_char as u8),
{
    if out_char == 0xFFFF {
        None
    } else {
        Some(out_char as u8)
    }
}

} // verus!
