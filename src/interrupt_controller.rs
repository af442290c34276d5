use vstd::prelude::*;
use crate::helpers::{bit_set, write_register, RegisterWrite};
use crate::dbgu::DBGU_RXRDY;

verus! {

/// The advanced interrupt controller's registers.
pub struct AIC;

impl AIC {
    /// Interrupt controller base address.
    pub const BASE_ADDRESS: u32 = 0xFFFF_F000;
    /// Source vector register of the system interrupt.
    pub const SVR1: u32 = 0x84;
    /// Interrupt mask register offset.
    pub const IMR: u32 = 0x110;
    /// Interrupt enable command register offset.
    pub const IECR: u32 = 0x120;
    /// End of interrupt command register offset.
    pub const EOICR: u32 = 0x130;
}
/// Bit of the system interrupt source.
pub const SYSTEM_INTERRUPT_BIT: u32 = 0x2;

/// The sources of one system interrupt that need handling.
#[derive(Debug, Clone, Copy, PartialEq, Eq, Structural)]
pub struct SystemEvents {
    /// The periodic timer elapsed while its interrupt is on.
    pub tick: bool,
    /// The debug unit received a character.
    pub character: bool,
}

/// The stores that install the system interrupt's handler address and enable
/// it, given the current interrupt mask.
pub fn init_system_interrupt(handler_address: u32, mask: u32) -> (r: (RegisterWrite, RegisterWrite))
    ensures
        r.0 == (RegisterWrite { address: (AIC::BASE_ADDRESS + AIC::SVR1) as u32, value: handler_address }),
        r.1 == (RegisterWrite {
            address: (AIC::BASE_ADDRESS + AIC::IECR) as u32,
            value: mask | SYSTEM_INTERRUPT_BIT,
        }),
{
    let vector = write_register(AIC::BASE_ADDRESS, AIC::SVR1, handler_address);
    let enable = write_register(AIC::BASE_ADDRESS, AIC::IECR, mask | SYSTEM_INTERRUPT_BIT);
    (vector, enable)
}

/// The store that acknowledges the interrupt being handled.
pub fn mark_end_of_interrupt() -> (r: RegisterWrite)
    ensures
        r == (RegisterWrite { address: (AIC::BASE_ADDRESS + AIC::EOICR) as u32, value: AIC::BASE_ADDRESS }),
{
    write_register(AIC::BASE_ADDRESS, AIC::EOICR, AIC::BASE_ADDRESS)
}

/// Which sources the system interrupt handler serves, from the timer's mask
/// and status registers and the debug unit's status register. Both are
/// served in one entry, the timer first.
pub fn system_interrupt(st_mask: u32, st_status: u32, dbgu_status: u32) -> (r: SystemEvents)
    ensures
        r.tick == (bit_set(st_mask, 0) && bit_set(st_status, 0)),
        r.character == bit_set(dbgu_status, DBGU_RXRDY),
{
    let tick = crate::system_timer::get_periodic_interrupts_enabled(st_mask)
        && crate::system_timer::has_system_timer_elapsed(st_status);
    let character = crate::dbgu::is_char_available(dbgu_status);
    SystemEvents { tick, character }
}

} // verus!
