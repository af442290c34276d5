use vstd::prelude::*;
use crate::helpers::{write_register, RegisterWrite};

verus! {

/// End of the SRAM region that holds the per-mode stacks.
pub const SRAM_END: usize = 0x2300_0000;
/// Bytes of each per-mode stack.
pub const STACK_SIZE: usize = 4096;

pub const SP_USER_SYSTEM_START: usize = SRAM_END;
pub const SP_FIQ_START: usize = SRAM_END - STACK_SIZE;
pub const SP_IRQ_START: usize = SRAM_END - 2 * STACK_SIZE;
pub const SP_SVC_START: usize = SRAM_END - 3 * STACK_SIZE;
pub const SP_ABT_START: usize = SRAM_END - 4 * STACK_SIZE;
pub const SP_UND_START: usize = SRAM_END - 5 * STACK_SIZE;

/// Memory controller base address.
pub const MC_BASE_ADDRESS: u32 = 0xFFFF_FF00;
/// Remap control register offset.
pub const MC_RCR: u32 = 0x0;
/// Abort address status register offset.
pub const MC_AASR: u32 = 0x8;

/// The store that toggles the remap of SRAM to address 0.
pub fn toggle_memory_remap() -> (r: RegisterWrite)
    ensures
        r == (RegisterWrite { address: (MC_BASE_ADDRESS + MC_RCR) as u32, value: 1 }),
{
    write_register(MC_BASE_ADDRESS, MC_RCR, 1)
}

} // verus!
