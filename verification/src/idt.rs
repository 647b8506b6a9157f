//! Interrupt vectors and the table of handlers for the sixteen IRQ lines.

use vstd::prelude::*;

verus! {

/// The vector of IRQ 0.
pub const IRQ_INDEX: u8 = 0x20;

/// How many IRQ lines there are.
pub const IRQ_LINES: usize = 16;

/// The vector of the system-call gate.
pub const SYSCALL_VECTOR: u8 = 0x80;

/// The vector that an IRQ line raises.
pub fn interrupt_index(irq: u8) -> (vector: u8)
    requires
        irq as int + IRQ_INDEX <= u8::MAX,
    ensures
        vector == IRQ_INDEX + irq,
{
    IRQ_INDEX + irq
}

/// Handles an IRQ on a line that has no handler of its own: it does
/// nothing.
pub fn default_irq_handler() {
}

/// What an IRQ line can be handled by.
#[derive(Clone, Copy, Debug, PartialEq, Eq, Structural)]
pub enum IrqHandler {
    /// Nothing is done.
    Default,
    /// The interval timer counts a tick.
    Pit,
    /// The real-time clock notes the time of its update.
    Rtc,
    /// The local APIC's timer.
    Timer,
    /// The local APIC reports an error.
    ApicError,
    /// A scancode is fetched and queued.
    Keyboard,
    /// A packet byte is fetched and queued.
    Mouse,
}

/// The handlers of the IRQ lines. Every line has one; a line that none was
/// set for has the one that does nothing.
pub struct IrqHandlers {
    pub handlers: Vec<IrqHandler>,
}

impl IrqHandlers {
    pub open spec fn wf(&self) -> bool {
        self.handlers@.len() == IRQ_LINES
    }

    /// Every line handled by the handler that does nothing.
    pub fn new() -> (table: Self)
        ensures
            table.wf(),
            forall|i: int| 0 <= i < IRQ_LINES ==> table.handlers@[i] == IrqHandler::Default,
    {
        let mut handlers: Vec<IrqHandler> = Vec::new();
        let mut i: usize = 0;
        while i < IRQ_LINES
            invariant
                i <= IRQ_LINES,
                handlers@.len() == i,
                forall|k: int| 0 <= k < i ==> handlers@[k] == IrqHandler::Default,
            decreases IRQ_LINES - i,
        {
            handlers.push(IrqHandler::Default);
            i = i + 1;
        }
        IrqHandlers { handlers }
    }

    /// The handler of an IRQ line.
    pub fn handler(&self, irq: usize) -> (handler: IrqHandler)
        requires
            self.wf(),
            irq < IRQ_LINES,
        ensures
            handler == self.handlers@[irq as int],
    {
        self.handlers[irq]
    }
}

/// Sets up interrupt handling: every IRQ line gets the handler that does
/// nothing.
pub fn init() -> (table: IrqHandlers)
    ensures
        table.wf(),
        forall|i: int| 0 <= i < IRQ_LINES ==> table.handlers@[i] == IrqHandler::Default,
{
    IrqHandlers::new()
}

/// Gives an IRQ line its handler.
pub fn set_irq_handler(table: &mut IrqHandlers, irq: u8, handler: IrqHandler)
    requires
        old(table).wf(),
        irq < IRQ_LINES,
    ensures
        final(table).wf(),
        final(table).handlers@ == old(table).handlers@.update(irq as int, handler),
{
    table.handlers[irq as usize] = handler;
}

/// What the processor has raised.
#[derive(Clone, Copy, Debug, PartialEq, Eq, Structural)]
pub enum Interrupt {
    /// An IRQ line, with the handler to run for it.
    Irq { line: u8, handler: IrqHandler },
    /// The system-call gate.
    Syscall,
    /// An exception or a vector that nothing is installed for.
    Other,
}

/// What a vector stands for.
pub open spec fn spec_classify(handlers: Seq<IrqHandler>, vector: u8) -> Interrupt {
    if IRQ_INDEX <= vector < IRQ_INDEX + IRQ_LINES {
        Interrupt::Irq {
            line: (vector - IRQ_INDEX) as u8,
            handler: handlers[vector - IRQ_INDEX],
        }
    } else if vector == SYSCALL_VECTOR {
        Interrupt::Syscall
    } else {
        Interrupt::Other
    }
}

/// Tells what a vector stands for, and for an IRQ line which handler runs.
pub fn classify(table: &IrqHandlers, vector: u8) -> (interrupt: Interrupt)
    requires
        table.wf(),
    ensures
        interrupt == spec_classify(table.handlers@, vector),
{
    if IRQ_INDEX <= vector && (vector as usize) < IRQ_INDEX as usize + IRQ_LINES {
        let line: u8 = vector - IRQ_INDEX;
        Interrupt::Irq { line, handler: table.handler(line as usize) }
    } else if vector == SYSCALL_VECTOR {
        Interrupt::Syscall
    } else {
        Interrupt::Other
    }
}

/// Whether the local APIC is told that the interrupt is handled: after
/// every IRQ and after a system call, and after no exception.
pub fn end_of_interrupt(interrupt: Interrupt) -> (signal: bool)
    ensures
        signal == !(interrupt is Other),
{
    match interrupt {
        Interrupt::Irq { .. } => true,
        Interrupt::Syscall => true,
        Interrupt::Other => false,
    }
}

} // verus!
