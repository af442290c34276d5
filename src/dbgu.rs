use vstd::prelude::*;
use crate::helpers::{bit_set, read_register_bit, write_register, RegisterWrite};

verus! {

/// Debug unit (serial port) base address.
pub const DBGU_BASE_ADDRESS: u32 = 0xFFFF_F200;
/// Interrupt enable register offset.
pub const DBGU_IER: u32 = 0x0008;
/// Interrupt disable register offset.
pub const DBGU_IDR: u32 = 0x000C;
/// Status register offset.
pub const DBGU_SR: u32 = 0x0014;
/// Receive holding register offset.
pub const DBGU_RHR: u32 = 0x0018;
/// Transmit holding register offset.
pub const DBGU_THR: u32 = 0x001C;
/// Status bit: a character was received.
pub const DBGU_RXRDY: u32 = 0;
/// Status bit: the transmitter takes a character.
pub const DBGU_TXRDY: u32 = 1;

/// The store that enables (`true`) or disables the receive interrupt.
pub fn set_dbgu_recv_interrupt(value: bool) -> (r: RegisterWrite)
    ensures
        r.address == DBGU_BASE_ADDRESS + (if value {
            DBGU_IER
        } else {
            DBGU_IDR
        }),
        r.value == 1,
{
    if value {
        write_register(DBGU_BASE_ADDRESS, DBGU_IER, 0x1)
    } else {
        write_register(DBGU_BASE_ADDRESS, DBGU_IDR, 0x1)
    }
}

/// Whether the status register value says a character was received.
pub fn is_char_available(status: u32) -> (r: bool)
    ensures
        r == bit_set(status, DBGU_RXRDY),
{
    read_register_bit(status, DBGU_RXRDY)
}

/// The received character, given the status and receive holding register
/// values; `None` when the status says nothing was received.
pub fn read_char(status: u32, receive_holding: u32) -> (r: Option<u32>)
    ensures
        bit_set(status, DBGU_RXRDY) ==> r == Some(receive_holding),
        !bit_set(status, DBGU_RXRDY) ==> r is None,
{
    if is_char_available(status) {
        Some(receive_holding)
    } else {
        None
    }
}

/// The store that transmits a character, when the status register value says
/// the transmitter is ready; `None` (poll again) when it is not.
pub fn write_char(status: u32, character: char) -> (r: Option<RegisterWrite>)
    ensures
        bit_set(status, DBGU_TXRDY) ==> r == Some(
            RegisterWrite { address: (DBGU_BASE_ADDRESS + DBGU_THR) as u32, value: character as u32 },
        ),
        !bit_set(status, DBGU_TXRDY) ==> r is None,
{
    if read_register_bit(status, DBGU_TXRDY) {
        Some(write_register(DBGU_BASE_ADDRESS, DBGU_THR, character as u32))
    } else {
        None
    }
}

} // verus!
