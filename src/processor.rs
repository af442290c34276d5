use vstd::prelude::*;

verus! {

/// Privilege modes of the processor, as encoded in the low five CPSR bits.
#[derive(Debug, Clone, Copy, PartialEq, Eq, Structural)]
pub enum ProcessorMode {
    User,
    FIQ,
    IRQ,
    Supervisor,
    Abort,
    Undefined,
    System,
}

/// Mask of the mode bits in the CPSR.
pub const MODE_MASK: u32 = 0x1F;

/// The IRQ-disable bit of the CPSR.
pub const IRQ_DISABLE_BIT: u32 = 0x80;

/// The mode field value of each mode.
pub open spec fn mode_bits(m: ProcessorMode) -> u32 {
    match m {
        ProcessorMode::User => 0x10,
        ProcessorMode::FIQ => 0x11,
        ProcessorMode::IRQ => 0x12,
        ProcessorMode::Supervisor => 0x13,
        ProcessorMode::Abort => 0x17,
        ProcessorMode::Undefined => 0x1b,
        ProcessorMode::System => 0x1F,
    }
}

/// The mode a mode field value names, if any.
pub open spec fn mode_of_bits(b: u32) -> Option<ProcessorMode> {
    if b == 0x10 {
        Some(ProcessorMode::User)
    } else if b == 0x11 {
        Some(ProcessorMode::FIQ)
    } else if b == 0x12 {
        Some(ProcessorMode::IRQ)
    } else if b == 0x13 {
        Some(ProcessorMode::Supervisor)
    } else if b == 0x17 {
        Some(ProcessorMode::Abort)
    } else if b == 0x1b {
        Some(ProcessorMode::Undefined)
    } else if b == 0x1F {
        Some(ProcessorMode::System)
    } else {
        None
    }
}

impl ProcessorMode {
    /// The mode field value of this mode.
    pub fn bits(self) -> (r: u32)
        ensures
            r == mode_bits(self),
            r & MODE_MASK == r,
    {
        let r: u32 = match self {
            ProcessorMode::User => 0x10,
            ProcessorMode::FIQ => 0x11,
            ProcessorMode::IRQ => 0x12,
            ProcessorMode::Supervisor => 0x13,
            ProcessorMode::Abort => 0x17,
            ProcessorMode::Undefined => 0x1b,
            ProcessorMode::System => 0x1F,
        };
        assert(r <= 0x1F ==> r & 0x1F == r) by (bit_vector);
        r
    }

    /// Decodes a mode field value.
    pub fn try_from_bits(b: u32) -> (r: Option<ProcessorMode>)
        ensures
            r == mode_of_bits(b),
    {
        match b {
            0x10 => Some(ProcessorMode::User),
            0x11 => Some(ProcessorMode::FIQ),
            0x12 => Some(ProcessorMode::IRQ),
            0x13 => Some(ProcessorMode::Supervisor),
            0x17 => Some(ProcessorMode::Abort),
            0x1b => Some(ProcessorMode::Undefined),
            0x1F => Some(ProcessorMode::System),
            _ => None,
        }
    }
}

/// The privilege mode a CPSR value is in; `None` for a reserved mode field.
pub fn get_processor_mode(cpsr: u32) -> (r: Option<ProcessorMode>)
    ensures
        r == mode_of_bits(cpsr & MODE_MASK),
{
    ProcessorMode::try_from_bits(cpsr & MODE_MASK)
}

/// Whether IRQs are unmasked in a CPSR value.
pub fn interrupts_enabled(cpsr: u32) -> (r: bool)
    ensures
        r == (cpsr & IRQ_DISABLE_BIT == 0),
{
    cpsr & IRQ_DISABLE_BIT == 0
}

/// The CPSR value with IRQs unmasked (`enabled`) or masked, all else kept.
pub fn set_interrupts_enabled(cpsr: u32, enabled: bool) -> (r: u32)
    ensures
        r == (if enabled {
            cpsr & !IRQ_DISABLE_BIT
        } else {
            cpsr | IRQ_DISABLE_BIT
        }),
        (r & IRQ_DISABLE_BIT == 0) == enabled,
        r & !IRQ_DISABLE_BIT == cpsr & !IRQ_DISABLE_BIT,
{
    if enabled {
        let r = cpsr & !IRQ_DISABLE_BIT;
        assert(r == cpsr & !0x80u32 ==> (r & 0x80 == 0 && r & !0x80u32 == cpsr & !0x80u32))
            by (bit_vector);
        r
    } else {
        let r = cpsr | IRQ_DISABLE_BIT;
        assert(r == cpsr | 0x80u32 ==> (r & 0x80 != 0 && r & !0x80u32 == cpsr & !0x80u32))
            by (bit_vector);
        r
    }
}

/// The CPSR value switched to `mode`, all bits outside the mode field kept.
pub fn switch_processor_mode(cpsr: u32, mode: ProcessorMode) -> (r: u32)
    ensures
        r == (cpsr & !MODE_MASK) | mode_bits(mode),
        get_processor_mode_spec(r) == Some(mode),
        r & !MODE_MASK == cpsr & !MODE_MASK,
{
    let b = mode.bits();
    let r = (cpsr & !MODE_MASK) | b;
    assert(b & 0x1F == b ==> ((cpsr & !0x1Fu32) | b) & 0x1F == b && ((cpsr & !0x1Fu32) | b)
        & !0x1Fu32 == cpsr & !0x1Fu32) by (bit_vector);
    r
}

/// What `get_processor_mode` reports for a CPSR value.
pub open spec fn get_processor_mode_spec(cpsr: u32) -> Option<ProcessorMode> {
    mode_of_bits(cpsr & MODE_MASK)
}

} // verus!
