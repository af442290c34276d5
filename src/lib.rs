//! Thread runtime of a small preemptive kernel for a single-core ARM9
//! microcontroller.
//!
//! The scheduler, the thread table and the system calls work on a
//! [`threads::Runtime`]; each operation states how the table changes and
//! which context switch the caller must perform. The register-level drivers
//! decide which stores to make from the register values they are given, and
//! the exception, processor-mode and system-call modules fix the encodings
//! that the assembly glue relies on.
pub mod syscalls;
pub mod threads;
pub mod events;
pub mod syscall_handlers;
pub mod laws;
pub mod processor;
pub mod exceptions;
pub mod helpers;
pub mod dbgu;
pub mod fmt;
pub mod system_timer;
pub mod memory;
pub mod interrupt_controller;
pub mod shell;
