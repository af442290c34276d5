use rost::dbgu::{is_char_available, read_char, set_dbgu_recv_interrupt, write_char};
use rost::exceptions::{Exception, TrampolineConfig};
use rost::fmt::send_str;
use rost::helpers::{read_register_bit, write_register, RegisterWrite};
use rost::interrupt_controller::{init_system_interrupt, mark_end_of_interrupt, system_interrupt, SystemEvents};
use rost::memory::{toggle_memory_remap, SP_IRQ_START, SP_UND_START};
use rost::processor::{
    get_processor_mode, interrupts_enabled, set_interrupts_enabled, switch_processor_mode,
    ProcessorMode,
};
use rost::syscalls::{
    decode_received_character, send_str_to_dbgu, syscall_handler, Request, Syscalls, ThreadServices,
};
use rost::system_timer::{
    get_current_real_time_as_duration, get_periodic_interrupts_enabled, has_system_timer_elapsed,
    init_system_timer_interrupt, set_real_time_timer_interval,
};

#[test]
fn register_helpers() {
    assert_eq!(write_register(0xFFFF_F000, 0x130, 5), RegisterWrite { address: 0xFFFF_F130, value: 5 });
    assert!(read_register_bit(0b100, 2));
    assert!(!read_register_bit(0b100, 1));
    assert!(read_register_bit(0x8000_0000, 31));
}

#[test]
fn dbgu_registers() {
    assert_eq!(set_dbgu_recv_interrupt(true), RegisterWrite { address: 0xFFFF_F208, value: 1 });
    assert_eq!(set_dbgu_recv_interrupt(false), RegisterWrite { address: 0xFFFF_F20C, value: 1 });
    assert!(is_char_available(0b01));
    assert!(!is_char_available(0b10));
    assert_eq!(read_char(0b11, 0x41), Some(0x41));
    assert_eq!(read_char(0b10, 0x41), None);
    assert_eq!(write_char(0b10, 'h'), Some(RegisterWrite { address: 0xFFFF_F21C, value: 0x68 }));
    assert_eq!(write_char(0b01, 'h'), None);
}

#[test]
fn strings_to_transmit_values() {
    assert_eq!(send_str("hi\n"), vec![0x68, 0x69, 0x0A]);
    assert_eq!(send_str(""), Vec::<u32>::new());
    assert_eq!(send_str("é"), vec![0xE9]);
    assert_eq!(send_str_to_dbgu("ok"), vec![b'o', b'k']);
    assert_eq!(send_str_to_dbgu("\u{141}"), vec![0x41]);
}

#[test]
fn timer_registers() {
    let (ier, pimr) = init_system_timer_interrupt(10);
    assert_eq!(ier, RegisterWrite { address: 0xFFFF_FD14, value: 1 });
    assert_eq!(pimr, RegisterWrite { address: 0xFFFF_FD04, value: 327 });
    assert_eq!(init_system_timer_interrupt(2000).1.value, 65536);
    assert_eq!(set_real_time_timer_interval(10), RegisterWrite { address: 0xFFFF_FD0C, value: 327 });
    assert_eq!(set_real_time_timer_interval(1000).value, 32768);
    assert_eq!(get_current_real_time_as_duration(123, 10), 1230);
    assert!(has_system_timer_elapsed(1));
    assert!(!has_system_timer_elapsed(2));
    assert!(get_periodic_interrupts_enabled(3));
    assert!(!get_periodic_interrupts_enabled(0));
}

#[test]
fn interrupt_controller_registers() {
    let (svr, iecr) = init_system_interrupt(0x2000_1234, 0x10);
    assert_eq!(svr, RegisterWrite { address: 0xFFFF_F084, value: 0x2000_1234 });
    assert_eq!(iecr, RegisterWrite { address: 0xFFFF_F120, value: 0x12 });
    assert_eq!(mark_end_of_interrupt(), RegisterWrite { address: 0xFFFF_F130, value: 0xFFFF_F000 });
    assert_eq!(system_interrupt(1, 1, 1), SystemEvents { tick: true, character: true });
    assert_eq!(system_interrupt(0, 1, 0), SystemEvents { tick: false, character: false });
    assert_eq!(system_interrupt(1, 0, 1), SystemEvents { tick: false, character: true });
}

#[test]
fn memory_layout() {
    assert_eq!(toggle_memory_remap(), RegisterWrite { address: 0xFFFF_FF00, value: 1 });
    assert_eq!(SP_IRQ_START, 0x22FF_E000);
    assert_eq!(SP_UND_START, 0x22FF_B000);
}

#[test]
fn processor_modes() {
    assert_eq!(get_processor_mode(0x6000_00DF), Some(ProcessorMode::System));
    assert_eq!(get_processor_mode(0x10), Some(ProcessorMode::User));
    assert_eq!(get_processor_mode(0x15), None);
    assert_eq!(switch_processor_mode(0x6000_00DF, ProcessorMode::User), 0x6000_00D0);
    assert_eq!(switch_processor_mode(0x13, ProcessorMode::Undefined), 0x1B);
    assert!(!interrupts_enabled(0xDF));
    assert!(interrupts_enabled(0x5F));
    assert_eq!(set_interrupts_enabled(0xDF, true), 0x5F);
    assert_eq!(set_interrupts_enabled(0x5F, false), 0xDF);
    assert_eq!(ProcessorMode::try_from_bits(0x17), Some(ProcessorMode::Abort));
    assert_eq!(ProcessorMode::FIQ.bits(), 0x11);
}

#[test]
fn exception_trampolines() {
    assert_eq!(Exception::from_handler_name("DataAbort"), Some(Exception::DataAbort));
    assert_eq!(Exception::from_handler_name("SystemInterrupt"), Some(Exception::Interrupt));
    assert_eq!(Exception::from_handler_name("dataabort"), None);
    assert_eq!(Exception::from_handler_name(""), None);
    let cfg = |lr_size, n| TrampolineConfig { lr_size, nested_interrupt: n, mark_end_of_interrupt: n };
    assert_eq!(Exception::UndefinedInstruction.trampoline_config(), cfg(4, false));
    assert_eq!(Exception::SoftwareInterrupt.trampoline_config(), cfg(0, false));
    assert_eq!(Exception::PrefetchAbort.trampoline_config(), cfg(4, false));
    assert_eq!(Exception::DataAbort.trampoline_config(), cfg(8, false));
    assert_eq!(Exception::Interrupt.trampoline_config(), cfg(4, true));
    assert_eq!(Exception::Reset.trampoline_config(), cfg(0, false));
    assert_eq!(Exception::DataAbort.return_address(0x108), 0x100);
    assert_eq!(Exception::SoftwareInterrupt.return_address(0x108), 0x108);
}

#[test]
fn syscall_decoding() {
    assert_eq!(Syscalls::try_from_id(41), Some(Syscalls::Sleep));
    assert_eq!(Syscalls::try_from_id(99), None);
    assert_eq!(Syscalls::JoinThread.id(), 33);
    assert_eq!(ThreadServices::try_from_id(10), Some(ThreadServices::DBGU));
    assert_eq!(ThreadServices::try_from_id(11), None);
    assert_eq!(syscall_handler(0x141, 0, 0, 10), Some(Request::SendDBGU(0x41)));
    assert_eq!(syscall_handler(1, 0, 0, 11), Some(Request::ReceiveDBGU { blocking: true }));
    assert_eq!(syscall_handler(0, 0, 0, 11), Some(Request::ReceiveDBGU { blocking: false }));
    assert_eq!(syscall_handler(64, 8, 0, 20), Some(Request::Allocate { size: 64, align: 8 }));
    assert_eq!(
        syscall_handler(0x100, 64, 8, 21),
        Some(Request::Deallocate { ptr: 0x100, size: 64, align: 8 })
    );
    assert_eq!(
        syscall_handler(5, 6, 0, 30),
        Some(Request::CreateThread { entry_lo: 5, entry_hi: 6 })
    );
    assert_eq!(syscall_handler(0, 0, 0, 31), Some(Request::ExitThread));
    assert_eq!(syscall_handler(0, 0, 0, 32), Some(Request::YieldThread));
    assert_eq!(
        syscall_handler(3, 100, 0, 33),
        Some(Request::JoinThread { thread_id: 3, timeout_ms: 100 })
    );
    assert_eq!(syscall_handler(10, 0, 0, 34), Some(Request::Subscribe(10)));
    assert_eq!(syscall_handler(10, 0, 0, 35), Some(Request::Unsubscribe(10)));
    assert_eq!(syscall_handler(0, 0, 0, 40), Some(Request::GetCurrentRealTime));
    assert_eq!(syscall_handler(500, 0, 0, 41), Some(Request::Sleep(500)));
    assert_eq!(syscall_handler(0, 0, 0, 99), None);
    assert_eq!(syscall_handler(0, 0, 0, (1usize << 32) + 10), None);
    assert_eq!(decode_received_character(0xFFFF), None);
    assert_eq!(decode_received_character(0x71), Some(b'q'));
}

#[test]
fn processor_state_extremes() {
    assert_eq!(get_processor_mode(u32::MAX), Some(ProcessorMode::System));
    assert_eq!(get_processor_mode(0), None);
    assert_eq!(set_interrupts_enabled(u32::MAX, true), 0xFFFF_FF7F);
    assert_eq!(set_interrupts_enabled(0, false), 0x80);
    assert_eq!(switch_processor_mode(u32::MAX, ProcessorMode::User), 0xFFFF_FFF0);
    assert_eq!(switch_processor_mode(0, ProcessorMode::System), 0x1F);
}

#[test]
fn timer_interval_bounds() {
    assert_eq!(init_system_timer_interrupt(1).1.value, 32);
    assert_eq!(set_real_time_timer_interval(0).value, 0);
    assert_eq!(get_current_real_time_as_duration(0xF_FFFF, 10), 10_485_750);
    assert_eq!(get_current_real_time_as_duration(u32::MAX, 1), u32::MAX as u64);
}
