//! What the kernel does when the processor reports an exception.

use vstd::prelude::*;
use crate::mem::{map_pages, mapped, MemoryManager};
use crate::process::{ExitCode, Process, ProcessTable, MAX_PROCS, USER_FLAGS};

verus! {

/// The exceptions that the kernel installs a handler for.
#[derive(Clone, Copy, Debug, PartialEq, Eq, Structural)]
pub enum Exception {
    Breakpoint,
    NonMaskableInterrupt,
    DivideError,
    InvalidOpcode,
    GeneralProtectionFault,
    StackSegmentFault,
    SegmentNotPresent,
    DoubleFault,
    PageFault,
}

/// The exception that a vector stands for, for the vectors that the kernel
/// installs an exception handler on.
pub open spec fn spec_exception_of(vector: u8) -> Option<Exception> {
    if vector == 0 {
        Some(Exception::DivideError)
    } else if vector == 2 {
        Some(Exception::NonMaskableInterrupt)
    } else if vector == 3 {
        Some(Exception::Breakpoint)
    } else if vector == 6 {
        Some(Exception::InvalidOpcode)
    } else if vector == 8 {
        Some(Exception::DoubleFault)
    } else if vector == 11 {
        Some(Exception::SegmentNotPresent)
    } else if vector == 12 {
        Some(Exception::StackSegmentFault)
    } else if vector == 13 {
        Some(Exception::GeneralProtectionFault)
    } else if vector == 14 {
        Some(Exception::PageFault)
    } else {
        None
    }
}

/// Tells which exception a vector stands for.
pub fn exception_of(vector: u8) -> (exception: Option<Exception>)
    ensures
        exception == spec_exception_of(vector),
{
    match vector {
        0 => Some(Exception::DivideError),
        2 => Some(Exception::NonMaskableInterrupt),
        3 => Some(Exception::Breakpoint),
        6 => Some(Exception::InvalidOpcode),
        8 => Some(Exception::DoubleFault),
        11 => Some(Exception::SegmentNotPresent),
        12 => Some(Exception::StackSegmentFault),
        13 => Some(Exception::GeneralProtectionFault),
        14 => Some(Exception::PageFault),
        _ => None,
    }
}

/// How the kernel goes on after an exception.
#[derive(Clone, Copy, Debug, PartialEq, Eq, Structural)]
pub enum FaultAction {
    /// The interrupted code runs on.
    Resume,
    /// The running process is ended with this exit code.
    Exit(ExitCode),
    /// The kernel stops.
    Halt,
}

/// A breakpoint is reported and passed; every other exception stops the
/// kernel. A page fault comes here only where it is not given to
/// `page_fault_handler`, which can serve it.
pub fn exception_handler(exception: Exception) -> (action: FaultAction)
    ensures
        action == if exception == Exception::Breakpoint {
            FaultAction::Resume
        } else {
            FaultAction::Halt
        },
{
    match exception {
        Exception::Breakpoint => FaultAction::Resume,
        _ => FaultAction::Halt,
    }
}

/// Handles a page fault at `addr`: the page that holds the address is
/// mapped for the running process, and the process runs on. Where the page
/// cannot be mapped, a fault from user mode ends the process with
/// `PageFaultError`, and one from the kernel stops the kernel.
pub fn page_fault_handler(
    table: &mut ProcessTable,
    manager: &mut MemoryManager,
    addr: u64,
    user_mode: bool,
) -> (action: FaultAction)
    requires
        old(table).wf(),
    ensures
        final(table).wf(),
        final(table).same_but_current(old(table)),
        final(table).current() == (Process {
            space: final(table).current().space,
            ..old(table).current()
        }),
        final(manager).mapper == old(manager).mapper,
        final(manager).phys_mem_offset == old(manager).phys_mem_offset,
        final(manager).memory_size == old(manager).memory_size,
        final(manager).allocator.memory_regions == old(manager).allocator.memory_regions,
        ({
            let outcome = mapped(
                old(table).current().space@,
                old(manager).allocator.memory_regions@,
                old(manager).allocator.next as int,
                addr,
                1,
                Some(USER_FLAGS),
            );
            &&& final(table).current().space@ == outcome.pages
            &&& final(manager).allocator.next == outcome.next
            &&& action == if outcome.result is Ok {
                FaultAction::Resume
            } else if user_mode {
                FaultAction::Exit(ExitCode::PageFaultError)
            } else {
                FaultAction::Halt
            }
        }),
{
    let pid: usize = table.pid;
    let result = map_pages(
        &mut table.procs[pid].space,
        &mut manager.allocator,
        addr,
        1,
        Some(USER_FLAGS),
    );
    if result.is_ok() {
        FaultAction::Resume
    } else if user_mode {
        FaultAction::Exit(ExitCode::PageFaultError)
    } else {
        FaultAction::Halt
    }
}

} // verus!
