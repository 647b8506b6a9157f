//! The core of a small x86-64 kernel, as state machines over plain values:
//! frame allocation and paging, the kernel heap, interrupt dispatch, the
//! framebuffer terminal, processes with their handle tables, and the system
//! calls that tie them together.

pub mod acpi;
pub mod allocator;
pub mod apic;
pub mod console;
pub mod exceptions;
pub mod framebuffer;
pub mod fs;
pub mod idt;
pub mod interrupts;
pub mod kernel;
pub mod keyboard;
pub mod mem;
pub mod mouse;
pub mod pci;
pub mod process;
pub mod prompt;
pub mod queue;
pub mod shell;
pub mod syscall;
pub mod task;
pub mod time;
pub mod vga;
pub mod vt;
