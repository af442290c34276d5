use vstd::prelude::*;

verus! {

/// A 32-bit store to a memory-mapped register, performed by the caller.
#[derive(Debug, Clone, Copy, PartialEq, Eq, Structural)]
pub struct RegisterWrite {
    pub address: u32,
    pub value: u32,
}

/// Whether bit `bit` of a register value is set.
pub open spec fn bit_set(value: u32, bit: u32) -> bool {
    value & (1u32 << bit) != 0
}

/// The store of `value` to the register at `base + offset`.
pub fn write_register(base: u32, offset: u32, value: u32) -> (r: RegisterWrite)
    requires
        base + offset <= u32::MAX,
    ensures
        r == (RegisterWrite { address: (base + offset) as u32, value }),
{
    RegisterWrite { address: base + offset, value }
}

/// Bit `bit` of a register value.
pub fn read_register_bit(value: u32, bit: u32) -> (r: bool)
    requires
        bit < 32,
    ensures
        r == bit_set(value, bit),
{
    value & (1u32 << bit) != 0
}

} // verus!
