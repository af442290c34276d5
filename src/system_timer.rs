use vstd::prelude::*;
use crate::helpers::{bit_set, read_register_bit, write_register, RegisterWrite};

verus! {

/// System timer base address.
pub const ST_BASE_ADDRESS: u32 = 0xFFFF_FD00;
/// Period interval mode register offset.
pub const ST_PIMR: u32 = 0x4;
/// Real-time mode register offset.
pub const ST_RTMR: u32 = 0x000C;
/// Status register offset.
pub const ST_SR: u32 = 0x10;
/// Interrupt enable register offset.
pub const ST_IER: u32 = 0x14;
/// Interrupt mask register offset.
pub const ST_IMR: u32 = 0x1C;
/// Current real-time register offset.
pub const ST_CRTR: u32 = 0x24;
/// Frequency of the slow clock that feeds the timer.
pub const ST_CLOCK_HZ: u64 = 32768;

/// Slow-clock cycles in `ms` milliseconds.
pub open spec fn clock_cycles(ms: u64) -> int {
    ST_CLOCK_HZ * ms / 1000
}

/// The stores that enable the periodic interrupt and set its period to
/// `time_between_ticks_ms`, between 1 ms and 2 s.
pub fn init_system_timer_interrupt(time_between_ticks_ms: u64) -> (r: (RegisterWrite, RegisterWrite))
    requires
        1 <= time_between_ticks_ms <= 2000,
    ensures
        r.0 == (RegisterWrite { address: (ST_BASE_ADDRESS + ST_IER) as u32, value: 1 }),
        r.1 == (RegisterWrite {
            address: (ST_BASE_ADDRESS + ST_PIMR) as u32,
            value: clock_cycles(time_between_ticks_ms) as u32,
        }),
{
    let enable = write_register(ST_BASE_ADDRESS, ST_IER, 0x1);
    let counter_value = ST_CLOCK_HZ * time_between_ticks_ms / 1000;
    let period = write_register(ST_BASE_ADDRESS, ST_PIMR, counter_value as u32);
    (enable, period)
}

/// The store that makes one real-time unit last `interval_ms` milliseconds.
pub fn set_real_time_timer_interval(interval_ms: u64) -> (r: RegisterWrite)
    requires
        interval_ms <= u32::MAX,
    ensures
        r == (RegisterWrite {
            address: (ST_BASE_ADDRESS + ST_RTMR) as u32,
            value: clock_cycles(interval_ms) as u32,
        }),
{
    let interval_value = ST_CLOCK_HZ * interval_ms / 1000;
    write_register(ST_BASE_ADDRESS, ST_RTMR, interval_value as u32)
}

/// Milliseconds since boot, from the real-time counter and the unit length.
pub fn get_current_real_time_as_duration(real_time: u32, unit_ms: u64) -> (r: u64)
    requires
        real_time * unit_ms <= u64::MAX,
    ensures
        r == real_time * unit_ms,
{
    real_time as u64 * unit_ms
}

/// Whether the status register value says the period has elapsed.
pub fn has_system_timer_elapsed(status: u32) -> (r: bool)
    ensures
        r == bit_set(status, 0),
{
    read_register_bit(status, 0)
}

/// Whether the interrupt mask register value has the periodic interrupt on.
pub fn get_periodic_interrupts_enabled(mask: u32) -> (r: bool)
    ensures
        r == bit_set(mask, 0),
{
    read_register_bit(mask, 0)
}

} // verus!
