use vstd::prelude::*;
use vstd::string::StrSliceExecFns;

verus! {

/// The exception kinds that get an entry trampoline.
#[derive(Debug, Clone, Copy, PartialEq, Eq, Structural)]
pub enum Exception {
    Reset,
    UndefinedInstruction,
    SoftwareInterrupt,
    PrefetchAbort,
    DataAbort,
    Interrupt,
}

/// The parameters of an exception's entry trampoline.
#[derive(Debug, Clone, Copy, PartialEq, Eq, Structural)]
pub struct TrampolineConfig {
    /// Subtracted from the exception link register to get the return address.
    pub lr_size: u32,
    /// IRQs are unmasked while the handler runs.
    pub nested_interrupt: bool,
    /// End of interrupt is signalled to the interrupt controller on return.
    pub mark_end_of_interrupt: bool,
}

/// The trampoline of each exception kind, by the ARM return-address rules.
pub open spec fn config_of(e: Exception) -> TrampolineConfig {
    match e {
        Exception::Reset => TrampolineConfig {
            lr_size: 0,
            nested_interrupt: false,
            mark_end_of_interrupt: false,
        },
        Exception::UndefinedInstruction => TrampolineConfig {
            lr_size: 4,
            nested_interrupt: false,
            mark_end_of_interrupt: false,
        },
        Exception::SoftwareInterrupt => TrampolineConfig {
            lr_size: 0,
            nested_interrupt: false,
            mark_end_of_interrupt: false,
        },
        Exception::PrefetchAbort => TrampolineConfig {
            lr_size: 4,
            nested_interrupt: false,
            mark_end_of_interrupt: false,
        },
        Exception::DataAbort => TrampolineConfig {
            lr_size: 8,
            nested_interrupt: false,
            mark_end_of_interrupt: false,
        },
        Exception::Interrupt => TrampolineConfig {
            lr_size: 4,
            nested_interrupt: true,
            mark_end_of_interrupt: true,
        },
    }
}

/// The exception a handler's name selects.
pub open spec fn exception_of_name(name: Seq<char>) -> Option<Exception> {
    if name == "Reset"@ {
        Some(Exception::Reset)
    } else if name == "SoftwareInterrupt"@ {
        Some(Exception::SoftwareInterrupt)
    } else if name == "UndefinedInstruction"@ {
        Some(Exception::UndefinedInstruction)
    } else if name == "PrefetchAbort"@ {
        Some(Exception::PrefetchAbort)
    } else if name == "DataAbort"@ {
        Some(Exception::DataAbort)
    } else if name == "SystemInterrupt"@ {
        Some(Exception::Interrupt)
    } else {
        None
    }
}

/// Whether two strings hold the same characters.
fn str_equal(a: &str, b: &str) -> (r: bool)
    ensures
        r == (a@ == b@),
{
    let n = a.unicode_len();
    if n != b.unicode_len() {
        return false;
    }
    let mut i: usize = 0;
    while i < n
        invariant
            n == a@.len(),
            n == b@.len(),
            i <= n,
            forall|k: int| 0 <= k < i ==> a@[k] == b@[k],
        decreases n - i,
    {
        if a.get_char(i) != b.get_char(i) {
            return false;
        }
        i += 1;
    }
    assert(a@ =~= b@);
    true
}

impl Exception {
    /// The exception whose handler carries this name; `None` for a name that
    /// is not a valid exception name.
    pub fn from_handler_name(name: &str) -> (r: Option<Exception>)
        ensures
            r == exception_of_name(name@),
    {
        if str_equal(name, "Reset") {
            Some(Exception::Reset)
        } else if str_equal(name, "SoftwareInterrupt") {
            Some(Exception::SoftwareInterrupt)
        } else if str_equal(name, "UndefinedInstruction") {
            Some(Exception::UndefinedInstruction)
        } else if str_equal(name, "PrefetchAbort") {
            Some(Exception::PrefetchAbort)
        } else if str_equal(name, "DataAbort") {
            Some(Exception::DataAbort)
        } else if str_equal(name, "SystemInterrupt") {
            Some(Exception::Interrupt)
        } else {
            None
        }
    }

    /// The trampoline parameters: return-address adjustment, nesting and
    /// end-of-interrupt signalling. Only the external interrupt nests and
    /// signals end of interrupt.
    pub fn trampoline_config(self) -> (r: TrampolineConfig)
        ensures
            r == config_of(self),
    {
        match self {
            Exception::Reset => TrampolineConfig {
                lr_size: 0,
                nested_interrupt: false,
                mark_end_of_interrupt: false,
            },
            Exception::UndefinedInstruction => TrampolineConfig {
                lr_size: 4,
                nested_interrupt: false,
                mark_end_of_interrupt: false,
            },
            Exception::SoftwareInterrupt => TrampolineConfig {
                lr_size: 0,
                nested_interrupt: false,
                mark_end_of_interrupt: false,
            },
            Exception::PrefetchAbort => TrampolineConfig {
                lr_size: 4,
                nested_interrupt: false,
                mark_end_of_interrupt: false,
            },
            Exception::DataAbort => TrampolineConfig {
                lr_size: 8,
                nested_interrupt: false,
                mark_end_of_interrupt: false,
            },
            Exception::Interrupt => TrampolineConfig {
                lr_size: 4,
                nested_interrupt: true,
                mark_end_of_interrupt: true,
            },
        }
    }

    /// Address of the instruction to return to, from the exception link register.
    pub fn return_address(self, lr: u32) -> (r: u32)
        requires
            lr >= config_of(self).lr_size,
        ensures
            r == lr - config_of(self).lr_size,
    {
        lr - self.trampoline_config().lr_size
    }
}

} // verus!
