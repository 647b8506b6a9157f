//! The process table: one record for each process with its address space,
//! its saved context and its file handles.

use vstd::prelude::*;
use std::collections::HashMap;
use crate::fs::{Device, Resource, ResourceView};
use crate::mem::{bump, frame_at, map_pages, mapped, MemoryManager, MemoryRegion, PageEntry, Pages};
use crate::mem::{free_pages, freed, RangeOutcome, MapError};

verus! {

/// Handles that a process can hold.
pub const MAX_HANDLES: usize = 64;

/// Records in the process table; the kernel has the first.
pub const MAX_PROCS: usize = 4;

/// Bytes of virtual memory that each process gets: 10 MiB.
pub const MAX_PROC_SIZE: u64 = 0xA0_0000;

/// How a process ended: one of the codes that the kernel itself gives, or
/// any other code that fits a byte.
#[derive(Clone, Copy, Debug, PartialEq, Eq, Structural)]
pub enum ExitCode {
    Success,
    Failure,
    UsageError,
    DataError,
    OpenError,
    ReadError,
    ExecError,
    PageFaultError,
    ShellExit,
    Other(u8),
}

impl ExitCode {
    /// The number that stands for the exit code in a register.
    pub open spec fn spec_code(self) -> usize {
        match self {
            ExitCode::Success => 0,
            ExitCode::Failure => 1,
            ExitCode::UsageError => 64,
            ExitCode::DataError => 65,
            ExitCode::OpenError => 128,
            ExitCode::ReadError => 129,
            ExitCode::ExecError => 130,
            ExitCode::PageFaultError => 200,
            ExitCode::ShellExit => 255,
            ExitCode::Other(code) => code as usize,
        }
    }

    /// The exit code that the low byte of a number stands for.
    pub open spec fn spec_from(code: usize) -> ExitCode {
        let byte = (code % 256) as u8;
        if byte == 0 {
            ExitCode::Success
        } else if byte == 1 {
            ExitCode::Failure
        } else if byte == 64 {
            ExitCode::UsageError
        } else if byte == 65 {
            ExitCode::DataError
        } else if byte == 128 {
            ExitCode::OpenError
        } else if byte == 129 {
            ExitCode::ReadError
        } else if byte == 130 {
            ExitCode::ExecError
        } else if byte == 200 {
            ExitCode::PageFaultError
        } else if byte == 255 {
            ExitCode::ShellExit
        } else {
            ExitCode::Other(byte)
        }
    }

    pub fn code(self) -> (code: usize)
        ensures
            code == self.spec_code(),
            code <= 255,
    {
        match self {
            ExitCode::Success => 0,
            ExitCode::Failure => 1,
            ExitCode::UsageError => 64,
            ExitCode::DataError => 65,
            ExitCode::OpenError => 128,
            ExitCode::ReadError => 129,
            ExitCode::ExecError => 130,
            ExitCode::PageFaultError => 200,
            ExitCode::ShellExit => 255,
            ExitCode::Other(code) => code as usize,
        }
    }

    pub fn from_code(code: usize) -> (exit: ExitCode)
        ensures
            exit == ExitCode::spec_from(code),
    {
        let byte: u8 = (code % 256) as u8;
        match byte {
            0 => ExitCode::Success,
            1 => ExitCode::Failure,
            64 => ExitCode::UsageError,
            65 => ExitCode::DataError,
            128 => ExitCode::OpenError,
            129 => ExitCode::ReadError,
            130 => ExitCode::ExecError,
            200 => ExitCode::PageFaultError,
            255 => ExitCode::ShellExit,
            _ => ExitCode::Other(byte),
        }
    }
}

/// The number that an exit code stands for in a register is the low byte
/// of every number that gives the exit code.
pub proof fn lemma_exit_code_round_trip(code: usize)
    ensures
        ExitCode::spec_from(code).spec_code() == code % 256,
        ExitCode::spec_from(ExitCode::spec_from(code).spec_code()) == ExitCode::spec_from(code),
{
}

/// The scratch registers, in the order in which the system-call entry
/// pushes them, last pushed first.
#[derive(Clone, Copy, Debug, PartialEq, Eq, Structural)]
pub struct Registers {
    pub r11: usize,
    pub r10: usize,
    pub r9: usize,
    pub r8: usize,
    pub rdi: usize,
    pub rsi: usize,
    pub rdx: usize,
    pub rcx: usize,
    pub rax: usize,
}

impl Registers {
    /// Every register zero.
    pub open spec fn zero() -> Registers {
        Registers { r11: 0, r10: 0, r9: 0, r8: 0, rdi: 0, rsi: 0, rdx: 0, rcx: 0, rax: 0 }
    }
}

impl Default for Registers {
    fn default() -> (registers: Registers)
        ensures
            registers == Registers::zero(),
    {
        Registers { r11: 0, r10: 0, r9: 0, r8: 0, rdi: 0, rsi: 0, rdx: 0, rcx: 0, rax: 0 }
    }
}

/// What the processor pushes when an interrupt arrives, and pops when the
/// handler returns.
#[derive(Clone, Copy, Debug, PartialEq, Eq, Structural)]
pub struct StackFrame {
    pub instruction_pointer: u64,
    pub code_segment: u64,
    pub cpu_flags: u64,
    pub stack_pointer: u64,
    pub stack_segment: u64,
}

/// What a handle slot holds, as contracts see it.
pub open spec fn slot_view(slot: Option<Resource>) -> Option<ResourceView> {
    match slot {
        Some(resource) => Some(resource@),
        None => None,
    }
}

/// The handles of a fresh process: the console three times, the null
/// device, and every other slot empty.
pub open spec fn initial_handles() -> Seq<Option<ResourceView>> {
    Seq::new(
        MAX_HANDLES as nat,
        |i: int|
            if i < 3 {
                Some(ResourceView::Device(Device::Console))
            } else if i == 3 {
                Some(ResourceView::Device(Device::Null))
            } else {
                None
            },
    )
}

/// What a process passes on to its children.
#[derive(Debug)]
pub struct ProcessData {
    pub dir: String,
    pub handles: Vec<Option<Resource>>,
}

impl ProcessData {
    /// There is a slot for every handle.
    pub open spec fn wf(&self) -> bool {
        self.handles@.len() == MAX_HANDLES
    }

    /// The handle slots as contracts see them.
    pub open spec fn slots(&self) -> Seq<Option<ResourceView>> {
        Seq::new(self.handles@.len(), |i: int| slot_view(self.handles@[i]))
    }

    /// Process data with `dir` as working directory and the standard
    /// handles.
    pub fn new(dir: &str) -> (data: Self)
        ensures
            data.wf(),
            data.dir@ == dir@,
            data.slots() == initial_handles(),
    {
        let mut handles: Vec<Option<Resource>> = Vec::new();
        handles.push(Some(Resource::Device(Device::Console)));
        handles.push(Some(Resource::Device(Device::Console)));
        handles.push(Some(Resource::Device(Device::Console)));
        handles.push(Some(Resource::Device(Device::Null)));
        let mut i: usize = 4;
        while i < MAX_HANDLES
            invariant
                4 <= i <= MAX_HANDLES,
                handles@.len() == i,
                forall|k: int|
                    0 <= k < i ==> slot_view(#[trigger] handles@[k]) == initial_handles()[k],
            decreases MAX_HANDLES - i,
        {
            handles.push(None);
            i = i + 1;
        }
        let data = ProcessData { dir: dir.to_owned(), handles };
        assert(data.slots() =~= initial_handles());
        data
    }

    /// The same working directory and handles once more.
    pub fn duplicate(&self) -> (copy: Self)
        ensures
            copy.dir@ == self.dir@,
            copy.slots() == self.slots(),
            copy.handles@.len() == self.handles@.len(),
    {
        let mut handles: Vec<Option<Resource>> = Vec::new();
        let mut i: usize = 0;
        while i < self.handles.len()
            invariant
                i <= self.handles@.len(),
                handles@.len() == i,
                forall|k: int|
                    0 <= k < i ==> slot_view(#[trigger] handles@[k]) == slot_view(
                        self.handles@[k],
                    ),
            decreases self.handles@.len() - i,
        {
            let slot = match &self.handles[i] {
                Some(resource) => Some(resource.duplicate()),
                None => None,
            };
            handles.push(slot);
            i = i + 1;
        }
        let copy = ProcessData { dir: self.dir.clone(), handles };
        assert(copy.slots() =~= self.slots());
        copy
    }
}

/// A loaded piece of a program: bytes and the address they belong at.
#[derive(Debug)]
pub struct Segment {
    pub addr: u64,
    pub data: Vec<u8>,
}

/// One record of the process table.
#[derive(Debug)]
pub struct Process {
    pub id: usize,
    pub parent_id: usize,
    /// Start of the process's stretch of virtual memory.
    pub code_addr: u64,
    /// Top of its stack, the highest address that it has.
    pub stack_addr: u64,
    /// Where it starts to run, counted from `code_addr`.
    pub entry_point_addr: u64,
    /// The frame of its top-level page table.
    pub page_table_frame: u64,
    /// The pages that its page table maps.
    pub space: HashMap<u64, PageEntry>,
    /// What was loaded for it, and where.
    pub image: Vec<Segment>,
    /// Start and size of its heap.
    pub heap_addr: u64,
    pub heap_size: u64,
    pub stack_frame: StackFrame,
    pub registers: Registers,
    pub data: ProcessData,
}

impl Process {
    /// Whether the record is an empty one under the page table at
    /// `page_table_frame`: every number zero, nothing mapped or loaded, the
    /// root as working directory and the standard handles.
    pub open spec fn fresh(self, page_table_frame: u64) -> bool {
        &&& self.id == 0
        &&& self.parent_id == 0
        &&& self.code_addr == 0
        &&& self.stack_addr == 0
        &&& self.entry_point_addr == 0
        &&& self.page_table_frame == page_table_frame
        &&& self.space@ == Map::<u64, PageEntry>::empty()
        &&& self.image@.len() == 0
        &&& self.heap_addr == 0
        &&& self.heap_size == 0
        &&& self.stack_frame == (StackFrame {
            instruction_pointer: 0,
            code_segment: 0,
            cpu_flags: 0,
            stack_pointer: 0,
            stack_segment: 0,
        })
        &&& self.registers == Registers::zero()
        &&& self.data.wf()
        &&& self.data.dir@ == "/"@
        &&& self.data.slots() == initial_handles()
    }

    /// An empty record under the page table at `page_table_frame`, with
    /// the root as working directory.
    pub fn new(page_table_frame: u64) -> (process: Self)
        ensures
            process.fresh(page_table_frame),
    {
        Process {
            id: 0,
            parent_id: 0,
            code_addr: 0,
            stack_addr: 0,
            entry_point_addr: 0,
            page_table_frame,
            space: HashMap::new(),
            image: Vec::new(),
            heap_addr: 0,
            heap_size: 0,
            stack_frame: StackFrame {
                instruction_pointer: 0,
                code_segment: 0,
                cpu_flags: 0,
                stack_pointer: 0,
                stack_segment: 0,
            },
            registers: Registers::default(),
            data: ProcessData::new("/"),
        }
    }
}

/// The process table with the numbers that go with it.
pub struct ProcessTable {
    pub procs: Vec<Process>,
    /// The process that runs.
    pub pid: usize,
    /// The number that the next process gets.
    pub max_pid: usize,
    /// Where the next process's stretch of virtual memory starts.
    pub next_code_addr: u64,
}

impl ProcessTable {
    /// The table is full length, the running process has a record in use,
    /// every record in use sits at its own number, and every process but the
    /// kernel has a parent with a smaller number.
    pub open spec fn wf(&self) -> bool {
        &&& self.procs@.len() == MAX_PROCS
        &&& self.pid < self.max_pid <= MAX_PROCS
        &&& forall|k: int| 0 <= k < MAX_PROCS ==> (#[trigger] self.procs@[k]).data.wf()
        &&& forall|k: int|
            0 <= k < self.max_pid ==> (#[trigger] self.procs@[k]).id == k && (k > 0
                ==> self.procs@[k].parent_id < k)
    }

    /// The record of the process that runs.
    pub open spec fn current(&self) -> Process {
        self.procs@[self.pid as int]
    }

    /// A table in which only the kernel runs, under the page table at
    /// `page_table_frame`.
    pub fn new(page_table_frame: u64) -> (table: Self)
        ensures
            table.wf(),
            table.pid == 0,
            table.max_pid == 1,
            table.next_code_addr == 0,
            forall|k: int| 0 <= k < MAX_PROCS ==> (#[trigger] table.procs@[k]).fresh(page_table_frame),
    {
        let mut procs: Vec<Process> = Vec::new();
        let mut i: usize = 0;
        while i < MAX_PROCS
            invariant
                i <= MAX_PROCS,
                procs@.len() == i,
                forall|k: int| 0 <= k < i ==> (#[trigger] procs@[k]).fresh(page_table_frame),
            decreases MAX_PROCS - i,
        {
            procs.push(Process::new(page_table_frame));
            i = i + 1;
        }
        ProcessTable { procs, pid: 0, max_pid: 1, next_code_addr: 0 }
    }
}


impl Process {
    /// Everything but the process data is the same in both records.
    pub open spec fn same_but_data(self, other: Process) -> bool {
        &&& self.id == other.id
        &&& self.parent_id == other.parent_id
        &&& self.code_addr == other.code_addr
        &&& self.stack_addr == other.stack_addr
        &&& self.entry_point_addr == other.entry_point_addr
        &&& self.page_table_frame == other.page_table_frame
        &&& self.space == other.space
        &&& self.image == other.image
        &&& self.heap_addr == other.heap_addr
        &&& self.heap_size == other.heap_size
        &&& self.stack_frame == other.stack_frame
        &&& self.registers == other.registers
    }

    /// Everything but the saved context is the same in both records.
    pub open spec fn same_but_context(self, other: Process) -> bool {
        &&& self.id == other.id
        &&& self.parent_id == other.parent_id
        &&& self.code_addr == other.code_addr
        &&& self.stack_addr == other.stack_addr
        &&& self.entry_point_addr == other.entry_point_addr
        &&& self.page_table_frame == other.page_table_frame
        &&& self.space == other.space
        &&& self.image == other.image
        &&& self.heap_addr == other.heap_addr
        &&& self.heap_size == other.heap_size
        &&& self.data == other.data
    }
}

impl ProcessTable {
    /// The numbers of the table and every record but that of the running
    /// process are the same in both tables.
    pub open spec fn same_but_current(&self, other: &ProcessTable) -> bool {
        &&& self.pid == other.pid
        &&& self.max_pid == other.max_pid
        &&& self.next_code_addr == other.next_code_addr
        &&& self.procs@.len() == other.procs@.len()
        &&& forall|k: int|
            0 <= k < self.procs@.len() && k != self.pid ==> self.procs@[k] == other.procs@[k]
    }

    /// The handle slots of the running process.
    pub open spec fn slots(&self) -> Seq<Option<ResourceView>> {
        self.current().data.slots()
    }
}

/// The number of the process that runs.
pub fn id(table: &ProcessTable) -> (id: usize)
    ensures
        id == table.pid,
{
    table.pid
}

/// Makes another process the one that runs.
pub fn set_id(table: &mut ProcessTable, id: usize)
    requires
        old(table).wf(),
        id < old(table).max_pid,
    ensures
        final(table).wf(),
        *final(table) == (ProcessTable { pid: id, ..*old(table) }),
{
    table.pid = id;
}

/// The working directory of the running process.
pub fn dir(table: &ProcessTable) -> (dir: String)
    requires
        table.wf(),
    ensures
        dir@ == table.current().data.dir@,
{
    table.procs[table.pid].data.dir.clone()
}

pub fn set_dir(table: &mut ProcessTable, dir: &str)
    requires
        old(table).wf(),
    ensures
        final(table).wf(),
        final(table).same_but_current(old(table)),
        final(table).current().same_but_data(old(table).current()),
        final(table).current().data.dir@ == dir@,
        final(table).current().data.handles == old(table).current().data.handles,
{
    let pid: usize = table.pid;
    table.procs[pid].data.dir = dir.to_owned();
}

/// Puts a resource into the lowest free slot from 4 on and returns the
/// slot's number; fails where every slot is taken.
pub fn create_handle(table: &mut ProcessTable, file: Resource) -> (result: Result<usize, ()>)
    requires
        old(table).wf(),
    ensures
        final(table).wf(),
        final(table).same_but_current(old(table)),
        final(table).current().same_but_data(old(table).current()),
        final(table).current().data.dir == old(table).current().data.dir,
        match result {
            Ok(handle) => {
                &&& 4 <= handle < MAX_HANDLES
                &&& old(table).slots()[handle as int] is None
                &&& forall|g: int| 4 <= g < handle ==> old(table).slots()[g] is Some
                &&& final(table).slots() == old(table).slots().update(
                    handle as int,
                    Some(file@),
                )
            },
            Err(_) => {
                &&& forall|g: int| 4 <= g < MAX_HANDLES ==> old(table).slots()[g] is Some
                &&& final(table).slots() == old(table).slots()
            },
        },
{
    let pid: usize = table.pid;
    let mut handle: usize = 4;
    while handle < MAX_HANDLES
        invariant
            4 <= handle <= MAX_HANDLES,
            pid == table.pid,
            *table == *old(table),
            table.wf(),
            forall|g: int| 4 <= g < handle ==> old(table).slots()[g] is Some,
        decreases MAX_HANDLES - handle,
    {
        if table.procs[pid].data.handles[handle].is_none() {
            table.procs[pid].data.handles[handle] = Some(file);
            assert(table.slots() =~= old(table).slots().update(handle as int, Some(file@)));
            return Ok(handle);
        }
        handle = handle + 1;
    }
    Err(())
}

/// Puts a resource into a slot, whatever the slot held.
pub fn update_handle(table: &mut ProcessTable, handle: usize, file: Resource)
    requires
        old(table).wf(),
        handle < MAX_HANDLES,
    ensures
        final(table).wf(),
        final(table).same_but_current(old(table)),
        final(table).current().same_but_data(old(table).current()),
        final(table).current().data.dir == old(table).current().data.dir,
        final(table).slots() == old(table).slots().update(handle as int, Some(file@)),
{
    let pid: usize = table.pid;
    table.procs[pid].data.handles[handle] = Some(file);
    assert(table.slots() =~= old(table).slots().update(handle as int, Some(file@)));
}

/// Empties a slot.
pub fn delete_handle(table: &mut ProcessTable, handle: usize)
    requires
        old(table).wf(),
        handle < MAX_HANDLES,
    ensures
        final(table).wf(),
        final(table).same_but_current(old(table)),
        final(table).current().same_but_data(old(table).current()),
        final(table).current().data.dir == old(table).current().data.dir,
        final(table).slots() == old(table).slots().update(handle as int, None),
{
    let pid: usize = table.pid;
    table.procs[pid].data.handles[handle] = None;
    assert(table.slots() =~= old(table).slots().update(handle as int, None));
}

/// What a slot holds, as a handle of its own on the same state.
pub fn handle(table: &ProcessTable, slot: usize) -> (file: Option<Resource>)
    requires
        table.wf(),
        slot < MAX_HANDLES,
    ensures
        slot_view(file) == table.slots()[slot as int],
{
    match &table.procs[table.pid].data.handles[slot] {
        Some(resource) => Some(resource.duplicate()),
        None => None,
    }
}

/// All slots of the running process.
pub fn handles(table: &ProcessTable) -> (all: Vec<Option<Resource>>)
    requires
        table.wf(),
    ensures
        all@.len() == MAX_HANDLES,
        forall|h: int| 0 <= h < MAX_HANDLES ==> slot_view(#[trigger] all@[h]) == table.slots()[h],
{
    let copy = table.procs[table.pid].data.duplicate();
    assert forall|h: int| 0 <= h < MAX_HANDLES implies slot_view(#[trigger] copy.handles@[h])
        == table.slots()[h] by {
        assert(copy.slots()[h] == table.slots()[h]);
    }
    copy.handles
}

/// Where the running process's stretch of virtual memory starts.
pub fn code_addr(table: &ProcessTable) -> (addr: u64)
    requires
        table.wf(),
    ensures
        addr == table.current().code_addr,
{
    table.procs[table.pid].code_addr
}

pub fn set_code_addr(table: &mut ProcessTable, addr: u64)
    requires
        old(table).wf(),
    ensures
        final(table).wf(),
        final(table).same_but_current(old(table)),
        final(table).current() == (Process { code_addr: addr, ..old(table).current() }),
{
    let pid: usize = table.pid;
    table.procs[pid].code_addr = addr;
}

/// The address that a process means by `addr`: one below the start of its
/// own memory counts from that start.
pub open spec fn rebased(base: u64, addr: u64) -> int {
    if addr < base {
        base + addr
    } else {
        addr as int
    }
}

/// Turns an address that the running process passed into one that the
/// kernel can use.
pub fn ptr_from_addr(table: &ProcessTable, addr: u64) -> (ptr: u64)
    requires
        table.wf(),
        rebased(table.current().code_addr, addr) <= u64::MAX,
    ensures
        ptr == rebased(table.current().code_addr, addr),
{
    let base: u64 = code_addr(table);
    if addr < base {
        base + addr
    } else {
        addr
    }
}

/// The registers that were saved for the running process.
pub fn registers(table: &ProcessTable) -> (registers: Registers)
    requires
        table.wf(),
    ensures
        registers == table.current().registers,
{
    table.procs[table.pid].registers
}

pub fn set_registers(table: &mut ProcessTable, regs: Registers)
    requires
        old(table).wf(),
    ensures
        final(table).wf(),
        final(table).same_but_current(old(table)),
        final(table).current() == (Process { registers: regs, ..old(table).current() }),
{
    let pid: usize = table.pid;
    table.procs[pid].registers = regs;
}

/// The stack frame that was saved for the running process.
pub fn stack_frame(table: &ProcessTable) -> (frame: StackFrame)
    requires
        table.wf(),
    ensures
        frame == table.current().stack_frame,
{
    table.procs[table.pid].stack_frame
}

pub fn set_stack_frame(table: &mut ProcessTable, stack_frame: StackFrame)
    requires
        old(table).wf(),
    ensures
        final(table).wf(),
        final(table).same_but_current(old(table)),
        final(table).current() == (Process { stack_frame, ..old(table).current() }),
{
    let pid: usize = table.pid;
    table.procs[pid].stack_frame = stack_frame;
}

/// The frame of the running process's top-level page table.
pub fn page_table_frame(table: &ProcessTable) -> (frame: u64)
    requires
        table.wf(),
    ensures
        frame == table.current().page_table_frame,
{
    table.procs[table.pid].page_table_frame
}

/// Sets where the first process's stretch of virtual memory starts.
pub fn init_process_addr(table: &mut ProcessTable, addr: u64)
    ensures
        *final(table) == (ProcessTable { next_code_addr: addr, ..*old(table) }),
{
    table.next_code_addr = addr;
}


/// The flags of a page of a user process: present, writable, and open to
/// user mode.
pub const USER_FLAGS: u64 = 0x7;

/// The formats that a program can come in.
#[derive(Clone, Copy, Debug, PartialEq, Eq, Structural)]
pub enum BinaryKind {
    /// An ELF object, which starts with `7F 45 4C 46`.
    Elf,
    /// Raw code after the four bytes `7F 42 49 4E`.
    Flat,
    Unknown,
}

pub open spec fn spec_binary_kind(bin: Seq<u8>) -> BinaryKind {
    if bin.len() >= 4 && bin[0] == 0x7F && bin[1] == 0x45 && bin[2] == 0x4C && bin[3] == 0x46 {
        BinaryKind::Elf
    } else if bin.len() >= 4 && bin[0] == 0x7F && bin[1] == 0x42 && bin[2] == 0x49 && bin[3]
        == 0x4E {
        BinaryKind::Flat
    } else {
        BinaryKind::Unknown
    }
}

/// Tells the format of a program by its first four bytes.
pub fn binary_kind(bin: &[u8]) -> (kind: BinaryKind)
    ensures
        kind == spec_binary_kind(bin@),
{
    if bin.len() < 4 || bin[0] != 0x7F {
        BinaryKind::Unknown
    } else if bin[1] == 0x45 && bin[2] == 0x4C && bin[3] == 0x46 {
        BinaryKind::Elf
    } else if bin[1] == 0x42 && bin[2] == 0x49 && bin[3] == 0x4E {
        BinaryKind::Flat
    } else {
        BinaryKind::Unknown
    }
}

/// A segment of an ELF object: its address, and its bytes where the object
/// holds them.
#[derive(Debug)]
pub struct ElfSegment {
    pub address: u64,
    pub data: Option<Vec<u8>>,
}

/// What the loader reads of an ELF object.
#[derive(Debug)]
pub struct ElfImage {
    pub entry: u64,
    pub segments: Vec<ElfSegment>,
}

impl View for ElfSegment {
    type V = (u64, Option<Seq<u8>>);

    open spec fn view(&self) -> (u64, Option<Seq<u8>>) {
        (
            self.address,
            match self.data {
                Some(data) => Some(data@),
                None => None,
            },
        )
    }
}

/// An ELF object as contracts see it.
pub struct ElfImageView {
    pub entry: u64,
    pub segments: Seq<(u64, Option<Seq<u8>>)>,
}

impl View for ElfImage {
    type V = ElfImageView;

    open spec fn view(&self) -> ElfImageView {
        ElfImageView {
            entry: self.entry,
            segments: Seq::new(self.segments@.len(), |i: int| self.segments@[i]@),
        }
    }
}

/// What the object crate makes of a program: its entry point and its
/// segments, or nothing where it cannot read the program.
pub uninterp spec fn elf_image(bin: Seq<u8>) -> Option<ElfImageView>;

/// `File::parse` of the object crate, with the entry point and, of each
/// segment, the address and the bytes copied out.
#[verifier::external_body]
fn parse_elf(bin: &[u8]) -> (image: Option<ElfImage>)
    ensures
        match image {
            Some(image) => elf_image(bin@) == Some(image@),
            None => elf_image(bin@) is None,
        },
{
    match object::File::parse(bin) {
        Ok(obj) => Some(
            ElfImage {
                entry: object::Object::entry(&obj),
                segments: object::Object::segments(&obj).map(
                    |s|
                        ElfSegment {
                            address: object::ObjectSegment::address(&s),
                            data: object::ObjectSegment::data(&s).ok().map(|d| d.to_vec()),
                        },
                ).collect(),
            },
        ),
        Err(_) => None,
    }
}

impl View for Segment {
    type V = (u64, Seq<u8>);

    open spec fn view(&self) -> (u64, Seq<u8>) {
        (self.addr, self.data@)
    }
}

/// Loaded pieces as contracts see them.
pub open spec fn image_view(image: Seq<Segment>) -> Seq<(u64, Seq<u8>)> {
    Seq::new(image.len(), |i: int| image[i]@)
}

/// Where the segments of an ELF object go in a process that starts at
/// `base`: each segment that has bytes, at `base` plus its address. A
/// segment that would lie past the end of the address space is left out.
pub open spec fn placed(segments: Seq<(u64, Option<Seq<u8>>)>, base: u64) -> Seq<(u64, Seq<u8>)>
    decreases segments.len(),
{
    if segments.len() == 0 {
        Seq::empty()
    } else {
        let before = placed(segments.drop_last(), base);
        match segments.last().1 {
            Some(data) => if base + segments.last().0 <= u64::MAX {
                before.push(((base + segments.last().0) as u64, data))
            } else {
                before
            },
            None => before,
        }
    }
}

/// Places the segments of an ELF object in a process that starts at `base`.
pub fn place_segments(image: ElfImage, base: u64) -> (segments: Vec<Segment>)
    ensures
        image_view(segments@) == placed(image@.segments, base),
{
    let ghost all = image@.segments;
    let mut out: Vec<Segment> = Vec::new();
    let mut rest = image.segments;
    let mut taken: Vec<ElfSegment> = Vec::new();
    // The segments are taken from the end, so they are put back in order afterwards.
    while rest.len() > 0
        invariant
            rest@.len() + taken@.len() == all.len(),
            forall|i: int| 0 <= i < rest@.len() ==> (#[trigger] rest@[i])@ == all[i],
            forall|j: int|
                0 <= j < taken@.len() ==> (#[trigger] taken@[j])@ == all[all.len() - 1 - j],
        decreases rest@.len(),
    {
        let segment = rest.pop().unwrap();
        taken.push(segment);
    }
    assert(all.take(0) =~= Seq::<(u64, Option<Seq<u8>>)>::empty());
    assert(image_view(out@) =~= placed(all.take(0), base));
    while taken.len() > 0
        invariant
            taken@.len() <= all.len(),
            forall|j: int|
                0 <= j < taken@.len() ==> (#[trigger] taken@[j])@ == all[all.len() - 1 - j],
            image_view(out@) == placed(all.take(all.len() - taken@.len()), base),
        decreases taken@.len(),
    {
        let ghost done = all.len() - taken@.len();
        let segment = taken.pop().unwrap();
        assert(segment@ == all[done]);
        assert(all.take(done + 1).drop_last() =~= all.take(done));
        assert(all.take(done + 1).last() == all[done]);
        match segment.data {
            Some(data) => {
                if segment.address <= u64::MAX - base {
                    let ghost before = out@;
                    out.push(Segment { addr: base + segment.address, data });
                    assert(image_view(out@) =~= image_view(before).push(
                        ((base + segment.address) as u64, data@),
                    ));
                }
            },
            None => {},
        }
    }
    assert(all.take(all.len() as int) =~= all);
    out
}

/// What loading a program gives: where it starts to run, counted from the
/// start of its memory; whether the memory from there on is to be mapped
/// too; and the pieces to put into its memory.
pub struct Loaded {
    pub entry: u64,
    pub remap: bool,
    pub segments: Seq<(u64, Seq<u8>)>,
}

/// What loading `bin` into a process that starts at `code_addr` gives: of a
/// flat binary the bytes after the magic, at the start; of an ELF object its
/// segments, or nothing to load where the object cannot be read; and
/// nothing at all of a program in another format.
pub open spec fn loaded(bin: Seq<u8>, code_addr: u64) -> Option<Loaded> {
    match spec_binary_kind(bin) {
        BinaryKind::Unknown => None,
        BinaryKind::Flat => Some(
            Loaded { entry: 0, remap: false, segments: seq![(code_addr, bin.skip(4))] },
        ),
        BinaryKind::Elf => match elf_image(bin) {
            None => Some(Loaded { entry: 0, remap: false, segments: Seq::empty() }),
            Some(image) => Some(
                Loaded {
                    entry: image.entry,
                    remap: true,
                    segments: placed(image.segments, code_addr),
                },
            ),
        },
    }
}

/// What `load` hands back.
#[derive(Debug)]
pub struct LoadedBinary {
    pub entry: u64,
    pub remap: bool,
    pub segments: Vec<Segment>,
}

/// Loads a program for a process that starts at `code_addr`.
pub fn load(bin: &[u8], code_addr: u64) -> (binary: Option<LoadedBinary>)
    ensures
        match binary {
            Some(binary) => loaded(bin@, code_addr) == Some(
                Loaded {
                    entry: binary.entry,
                    remap: binary.remap,
                    segments: image_view(binary.segments@),
                },
            ),
            None => loaded(bin@, code_addr) is None,
        },
{
    match binary_kind(bin) {
        BinaryKind::Unknown => None,
        BinaryKind::Flat => {
            let mut code: Vec<u8> = Vec::new();
            let mut i: usize = 4;
            while i < bin.len()
                invariant
                    4 <= i <= bin@.len(),
                    code@.len() == i - 4,
                    forall|k: int| 0 <= k < code@.len() ==> code@[k] == bin@[k + 4],
                decreases bin@.len() - i,
            {
                code.push(bin[i]);
                i = i + 1;
            }
            assert(code@ =~= bin@.skip(4));
            let mut segments: Vec<Segment> = Vec::new();
            segments.push(Segment { addr: code_addr, data: code });
            assert(image_view(segments@) =~= seq![(code_addr, bin@.skip(4))]);
            Some(LoadedBinary { entry: 0, remap: false, segments })
        },
        BinaryKind::Elf => match parse_elf(bin) {
            None => {
                let segments: Vec<Segment> = Vec::new();
                assert(image_view(segments@) =~= Seq::<(u64, Seq<u8>)>::empty());
                Some(LoadedBinary { entry: 0, remap: false, segments })
            },
            Some(image) => {
                let entry: u64 = image.entry;
                let segments = place_segments(image, code_addr);
                Some(LoadedBinary { entry, remap: true, segments })
            },
        },
    }
}


/// What an attempt to create a process comes to.
pub struct Creation {
    /// Whether the process is created.
    pub ok: bool,
    /// Where the process after it will start.
    pub next_code_addr: u64,
    /// How many frames the allocator has handed out afterwards.
    pub frames: int,
    pub code_addr: u64,
    pub page_table_frame: u64,
    pub space: Pages,
    pub entry: u64,
    pub segments: Seq<(u64, Seq<u8>)>,
}

/// The pages mapped after the memory from a program's entry point on was
/// mapped besides its code.
pub open spec fn remapped(
    code: RangeOutcome,
    regions: Seq<MemoryRegion>,
    code_addr: u64,
    entry: u64,
    size: u64,
) -> RangeOutcome {
    if code_addr + entry > u64::MAX {
        RangeOutcome { result: Err(MapError::OutOfRange), ..code }
    } else {
        mapped(code.pages, regions, code.next, (code_addr + entry) as u64, size, Some(USER_FLAGS))
    }
}

/// What creating a process from `bin` comes to, step by step. A full table
/// or a used-up address space stops it before anything is taken. Then a
/// frame is taken for the page table, the process's stretch of virtual
/// memory is reserved, and the pages for the program are mapped on top of
/// the kernel's; then the program is loaded. Each of these steps can fail,
/// and what was taken up to there stays taken.
pub open spec fn creation(
    max_pid: usize,
    next_code_addr: u64,
    kernel: Pages,
    regions: Seq<MemoryRegion>,
    next: int,
    bin: Seq<u8>,
) -> Creation {
    let nothing = Creation {
        ok: false,
        next_code_addr,
        frames: next,
        code_addr: 0,
        page_table_frame: 0,
        space: kernel,
        entry: 0,
        segments: Seq::empty(),
    };
    if max_pid >= MAX_PROCS || next_code_addr + MAX_PROC_SIZE > u64::MAX {
        nothing
    } else {
        match frame_at(regions, next) {
            None => Creation { frames: bump(next), ..nothing },
            Some(frame) => {
                let reserved = (next_code_addr + MAX_PROC_SIZE) as u64;
                let code = mapped(
                    kernel,
                    regions,
                    bump(next),
                    next_code_addr,
                    bin.len() as u64,
                    Some(USER_FLAGS),
                );
                if code.result is Err {
                    Creation { next_code_addr: reserved, frames: code.next, ..nothing }
                } else {
                    match loaded(bin, next_code_addr) {
                        None => Creation {
                            next_code_addr: reserved,
                            frames: code.next,
                            ..nothing
                        },
                        Some(program) => {
                            let all = if program.remap {
                                remapped(
                                    code,
                                    regions,
                                    next_code_addr,
                                    program.entry,
                                    bin.len() as u64,
                                )
                            } else {
                                code
                            };
                            if all.result is Err {
                                Creation { next_code_addr: reserved, frames: all.next, ..nothing }
                            } else {
                                Creation {
                                    ok: true,
                                    next_code_addr: reserved,
                                    frames: all.next,
                                    code_addr: next_code_addr,
                                    page_table_frame: frame,
                                    space: all.pages,
                                    entry: program.entry,
                                    segments: program.segments,
                                }
                            }
                        },
                    }
                }
            },
        }
    }
}

impl Process {
    /// Creates a process from a program and puts it into the table under
    /// the next free number, as a child of the running process: it gets the
    /// parent's working directory, handles and saved context. The running
    /// process stays the same.
    pub fn create(table: &mut ProcessTable, manager: &mut MemoryManager, bin: &[u8]) -> (result:
        Result<usize, ()>)
        requires
            old(table).wf(),
        ensures
            final(table).wf(),
            final(table).pid == old(table).pid,
            final(table).procs@.len() == old(table).procs@.len(),
            final(manager).mapper == old(manager).mapper,
            final(manager).phys_mem_offset == old(manager).phys_mem_offset,
            final(manager).memory_size == old(manager).memory_size,
            final(manager).allocator.memory_regions == old(manager).allocator.memory_regions,
            ({
                let c = creation(
                    old(table).max_pid,
                    old(table).next_code_addr,
                    old(manager).pages(),
                    old(manager).allocator.memory_regions@,
                    old(manager).allocator.next as int,
                    bin@,
                );
                &&& result is Ok == c.ok
                &&& final(table).next_code_addr == c.next_code_addr
                &&& final(manager).allocator.next == c.frames
                &&& !c.ok ==> final(table).procs == old(table).procs && final(table).max_pid
                    == old(table).max_pid
                &&& c.ok ==> {
                    let id = old(table).max_pid as int;
                    let child = final(table).procs@[id];
                    let parent = old(table).current();
                    &&& result == Ok::<usize, ()>(old(table).max_pid)
                    &&& final(table).max_pid == old(table).max_pid + 1
                    &&& forall|k: int|
                        0 <= k < MAX_PROCS && k != id ==> final(table).procs@[k] == old(table).procs@[k]
                    &&& child.id == id
                    &&& child.parent_id == old(table).pid
                    &&& child.code_addr == c.code_addr
                    &&& child.stack_addr == c.code_addr + MAX_PROC_SIZE - 4096
                    &&& child.entry_point_addr == c.entry
                    &&& child.page_table_frame == c.page_table_frame
                    &&& child.space@ == c.space
                    &&& image_view(child.image@) == c.segments
                    &&& child.heap_addr == 0
                    &&& child.heap_size == 0
                    &&& child.registers == parent.registers
                    &&& child.stack_frame == parent.stack_frame
                    &&& child.data.dir@ == parent.data.dir@
                    &&& child.data.slots() == parent.data.slots()
                }
            }),
    {
        if table.max_pid >= MAX_PROCS || table.next_code_addr > u64::MAX - MAX_PROC_SIZE {
            return Err(());
        }
        let page_table_frame: u64 = match manager.allocator.allocate_frame() {
            Some(frame) => frame,
            None => {
                return Err(());
            },
        };
        let mut space = manager.mapper.clone();
        let code_addr: u64 = table.next_code_addr;
        table.next_code_addr = code_addr + MAX_PROC_SIZE;
        let stack_addr: u64 = code_addr + MAX_PROC_SIZE - 4096;
        let code_size: u64 = bin.len() as u64;
        if map_pages(
            &mut space,
            &mut manager.allocator,
            code_addr,
            code_size,
            Some(USER_FLAGS),
        ).is_err() {
            return Err(());
        }
        let binary = match load(bin, code_addr) {
            Some(binary) => binary,
            None => {
                return Err(());
            },
        };
        if binary.remap {
            if binary.entry > u64::MAX - code_addr {
                return Err(());
            }
            if map_pages(
                &mut space,
                &mut manager.allocator,
                code_addr + binary.entry,
                code_size,
                Some(USER_FLAGS),
            ).is_err() {
                return Err(());
            }
        }
        let pid: usize = table.pid;
        let data = table.procs[pid].data.duplicate();
        let registers = table.procs[pid].registers;
        let stack_frame = table.procs[pid].stack_frame;
        let id: usize = table.max_pid;
        table.max_pid = id + 1;
        let process = Process {
            id,
            parent_id: pid,
            code_addr,
            stack_addr,
            entry_point_addr: binary.entry,
            page_table_frame,
            space,
            image: binary.segments,
            heap_addr: 0,
            heap_size: 0,
            stack_frame,
            registers,
            data,
        };
        table.procs[id] = process;
        Ok(id)
    }
}


/// The segment selectors of user mode.
#[derive(Clone, Copy, Debug, PartialEq, Eq, Structural)]
pub struct UserSelectors {
    pub code: u64,
    pub data: u64,
}

/// Flags of a process that starts to run: interrupts enabled.
pub const USER_CPU_FLAGS: u64 = 0x200;

/// What is left to do to enter a process: the bytes of its arguments to put
/// into its memory, the array that describes them, the page table to switch
/// to and the frame to return through.
#[derive(Debug)]
pub struct Launch {
    pub page_table_frame: u64,
    pub frame: StackFrame,
    /// Where the array of descriptors goes; handed over in the first
    /// argument register.
    pub args_ptr: u64,
    /// How many arguments there are; handed over in the second.
    pub args_len: usize,
    /// The bytes of each argument with their address.
    pub copies: Vec<Segment>,
    /// Address and length of each argument.
    pub descriptors: Vec<(u64, usize)>,
}

/// Where the bytes end when the arguments are laid out one after the other
/// from `start` on.
pub open spec fn args_end(args: Seq<Seq<u8>>, start: int) -> int
    decreases args.len(),
{
    if args.len() == 0 {
        start
    } else {
        args_end(args.drop_last(), start) + args.last().len()
    }
}

/// The next address after `addr` that is a multiple of 8; it lies eight
/// bytes further where `addr` is one itself.
pub open spec fn aligned_after(addr: int) -> int {
    addr + 8 - addr % 8
}

/// Where the arguments of a process start: halfway between the start of
/// its memory and the top of its stack.
pub open spec fn args_start(code_addr: u64, stack_addr: u64) -> int {
    code_addr + (stack_addr - code_addr) / 2
}

/// Whether a process can be entered with these arguments: its memory is
/// laid out the right way round, the page for the arguments can be mapped,
/// and the arguments with the gap after them end below the stack.
pub open spec fn can_enter(
    code_addr: u64,
    stack_addr: u64,
    space: Pages,
    regions: Seq<MemoryRegion>,
    next: int,
    args: Seq<Seq<u8>>,
) -> bool {
    &&& code_addr <= stack_addr
    &&& mapped(
        space,
        regions,
        next,
        args_start(code_addr, stack_addr) as u64,
        1,
        Some(USER_FLAGS),
    ).result is Ok
    &&& aligned_after(args_end(args, args_start(code_addr, stack_addr))) <= stack_addr
}

impl Process {
    /// Where the process's arguments start.
    pub open spec fn args_start(self) -> int {
        args_start(self.code_addr, self.stack_addr)
    }

    /// Where the array of argument descriptors goes, and the heap starts.
    pub open spec fn args_ptr(self, args: Seq<Seq<u8>>) -> int {
        aligned_after(args_end(args, self.args_start()))
    }

    /// The pages mapped after the page for the arguments was mapped.
    pub open spec fn with_args_page(self, regions: Seq<MemoryRegion>, next: int) -> RangeOutcome {
        mapped(self.space@, regions, next, self.args_start() as u64, 1, Some(USER_FLAGS))
    }

    /// Whether the process can be entered with these arguments.
    pub open spec fn can_exec(self, regions: Seq<MemoryRegion>, next: int, args: Seq<Seq<u8>>) -> bool {
        can_enter(self.code_addr, self.stack_addr, self.space@, regions, next, args)
    }
}

/// The arguments end where they start or later.
proof fn lemma_args_end_from_start(args: Seq<Seq<u8>>, start: int)
    ensures
        start <= args_end(args, start),
    decreases args.len(),
{
    if args.len() > 0 {
        lemma_args_end_from_start(args.drop_last(), start);
    }
}

/// The heap of a process that can be entered starts on a multiple of 8
/// behind the process's arguments, which start at or behind the start of
/// its memory, and it ends at or below the top of its stack.
pub proof fn lemma_heap_below_stack(code_addr: u64, stack_addr: u64, args: Seq<Seq<u8>>)
    requires
        code_addr <= stack_addr,
        aligned_after(args_end(args, args_start(code_addr, stack_addr))) <= stack_addr,
    ensures
        ({
            let heap = aligned_after(args_end(args, args_start(code_addr, stack_addr)));
            &&& code_addr <= args_start(code_addr, stack_addr) < heap
            &&& heap % 8 == 0
            &&& heap + (stack_addr - heap) / 2 <= stack_addr
        }),
{
    lemma_args_end_from_start(args, args_start(code_addr, stack_addr));
}

/// The rows of the arguments, seen as sequences, are the arguments.
proof fn lemma_args_view(args: &Vec<Vec<u8>>)
    ensures
        args.deep_view().len() == args@.len(),
        forall|i: int| 0 <= i < args@.len() ==> #[trigger] args.deep_view()[i] == args@[i]@,
{
    assert forall|i: int| 0 <= i < args@.len() implies #[trigger] args.deep_view()[i]
        == args@[i]@ by {
        assert(args@[i].deep_view() =~= args@[i]@);
    }
}

/// Whether `copies` and `descriptors` lay the arguments out one after the
/// other from `start` on: each argument's bytes at the address where the
/// one before it ends, and the address and length of each in the array.
pub open spec fn laid_out(
    copies: Seq<Segment>,
    descriptors: Seq<(u64, usize)>,
    args: Seq<Seq<u8>>,
    start: int,
) -> bool {
    &&& copies.len() == args.len()
    &&& descriptors.len() == args.len()
    &&& forall|i: int|
        0 <= i < args.len() ==> (#[trigger] copies[i]).addr == args_end(args.take(i), start)
            && copies[i].data@ == args[i]
    &&& forall|i: int|
        0 <= i < args.len() ==> (#[trigger] descriptors[i]).0 == args_end(args.take(i), start)
            && descriptors[i].1 == args[i].len()
}

/// Lays the arguments out from `start` on. Fails where they would reach
/// past `limit`.
pub fn layout_args(args: &Vec<Vec<u8>>, start: u64, limit: u64) -> (layout: Option<
    (Vec<Segment>, Vec<(u64, usize)>, u64),
>)
    requires
        start <= limit,
    ensures
        layout is Some == (args_end(args.deep_view(), start as int) <= limit),
        layout matches Some(l) ==> l.2 == args_end(args.deep_view(), start as int) && laid_out(
            l.0@,
            l.1@,
            args.deep_view(),
            start as int,
        ),
{
    let ghost rows = args.deep_view();
    proof {
        lemma_args_view(args);
        assert(rows.take(0) =~= Seq::<Seq<u8>>::empty());
    }
    let mut copies: Vec<Segment> = Vec::new();
    let mut descriptors: Vec<(u64, usize)> = Vec::new();
    let mut addr: u64 = start;
    let mut i: usize = 0;
    while i < args.len()
        invariant
            i <= args@.len(),
            rows == args.deep_view(),
            rows.len() == args@.len(),
            forall|k: int| 0 <= k < args@.len() ==> #[trigger] rows[k] == args@[k]@,
            addr == args_end(rows.take(i as int), start as int),
            start <= addr <= limit,
            copies@.len() == i,
            descriptors@.len() == i,
            forall|k: int|
                0 <= k < i ==> (#[trigger] copies@[k]).addr == args_end(rows.take(k), start as int)
                    && copies@[k].data@ == rows[k],
            forall|k: int|
                0 <= k < i ==> (#[trigger] descriptors@[k]).0 == args_end(
                    rows.take(k),
                    start as int,
                ) && descriptors@[k].1 == rows[k].len(),
        decreases args@.len() - i,
    {
        let arg = &args[i];
        let len: usize = arg.len();
        proof {
            assert(rows.take(i + 1).drop_last() =~= rows.take(i as int));
            assert(rows.take(i + 1).last() == arg@);
            lemma_args_end_grows(rows, start as int, i + 1);
        }
        if len as u64 > limit - addr {
            return None;
        }
        let mut data: Vec<u8> = Vec::new();
        let mut j: usize = 0;
        while j < len
            invariant
                j <= len,
                len == arg@.len(),
                data@ == arg@.take(j as int),
            decreases len - j,
        {
            data.push(arg[j]);
            assert(arg@.take(j + 1) =~= arg@.take(j as int).push(arg@[j as int]));
            j = j + 1;
        }
        assert(arg@.take(len as int) =~= arg@);
        copies.push(Segment { addr, data });
        descriptors.push((addr, len));
        addr = addr + len as u64;
        i = i + 1;
    }
    assert(rows.take(args@.len() as int) =~= rows);
    Some((copies, descriptors, addr))
}

impl Process {
    /// Gets process `id` ready to run with `args` and makes it the running
    /// process. The arguments are laid out from the middle of the process's
    /// memory on, the array that describes them after them, and the
    /// process's heap takes half of what is left below the stack. Where the
    /// process cannot be entered, the running process stays.
    pub fn exec(
        table: &mut ProcessTable,
        manager: &mut MemoryManager,
        id: usize,
        args: &Vec<Vec<u8>>,
        selectors: UserSelectors,
    ) -> (result: Result<Launch, ()>)
        requires
            old(table).wf(),
            id < old(table).max_pid,
        ensures
            final(table).wf(),
            final(table).max_pid == old(table).max_pid,
            final(table).next_code_addr == old(table).next_code_addr,
            final(table).procs@.len() == old(table).procs@.len(),
            forall|k: int|
                0 <= k < MAX_PROCS && k != id ==> final(table).procs@[k] == old(table).procs@[k],
            final(manager).mapper == old(manager).mapper,
            final(manager).phys_mem_offset == old(manager).phys_mem_offset,
            final(manager).memory_size == old(manager).memory_size,
            final(manager).allocator.memory_regions == old(manager).allocator.memory_regions,
            ({
                let before = old(table).procs@[id as int];
                let after = final(table).procs@[id as int];
                let regions = old(manager).allocator.memory_regions@;
                let next = old(manager).allocator.next as int;
                let page = before.with_args_page(regions, next);
                &&& result is Ok == before.can_exec(regions, next, args.deep_view())
                &&& after.same_but_data(
                    Process {
                        space: after.space,
                        heap_addr: after.heap_addr,
                        heap_size: after.heap_size,
                        ..before
                    },
                )
                &&& after.data == before.data
                &&& before.code_addr <= before.stack_addr ==> after.space@ == page.pages
                    && final(manager).allocator.next == page.next
                &&& before.code_addr > before.stack_addr ==> after.space == before.space
                    && final(manager).allocator.next == next
                &&& result is Err ==> final(table).pid == old(table).pid && after.heap_addr
                    == before.heap_addr && after.heap_size == before.heap_size
                &&& result matches Ok(launch) ==> {
                    &&& final(table).pid == id
                    &&& after.heap_addr == before.args_ptr(args.deep_view())
                    &&& after.heap_size == (before.stack_addr - after.heap_addr) / 2
                    &&& launch.page_table_frame == before.page_table_frame
                    &&& launch.frame == (StackFrame {
                        instruction_pointer: launch.frame.instruction_pointer,
                        code_segment: selectors.code,
                        cpu_flags: USER_CPU_FLAGS,
                        stack_pointer: before.stack_addr,
                        stack_segment: selectors.data,
                    })
                    &&& launch.frame.instruction_pointer as int == (before.code_addr
                        + before.entry_point_addr) % 0x1_0000_0000_0000_0000
                    &&& launch.args_ptr == after.heap_addr
                    &&& launch.args_len == args@.len()
                    &&& launch.copies@.len() == args@.len()
                    &&& launch.descriptors@.len() == args@.len()
                    &&& laid_out(
                        launch.copies@,
                        launch.descriptors@,
                        args.deep_view(),
                        before.args_start(),
                    )
                }
            }),
    {
        let code_addr: u64 = table.procs[id].code_addr;
        let stack_addr: u64 = table.procs[id].stack_addr;
        if code_addr > stack_addr {
            return Err(());
        }
        let args_start: u64 = code_addr + (stack_addr - code_addr) / 2;
        let mapping = map_pages(
            &mut table.procs[id].space,
            &mut manager.allocator,
            args_start,
            1,
            Some(USER_FLAGS),
        );
        if mapping.is_err() {
            return Err(());
        }
        let (copies, descriptors, addr) = match layout_args(args, args_start, stack_addr) {
            Some(layout) => layout,
            None => {
                return Err(());
            },
        };
        let over: u64 = addr % 8;
        if 8 - over > stack_addr - addr {
            return Err(());
        }
        let args_ptr: u64 = addr + (8 - over);
        let heap_size: u64 = (stack_addr - args_ptr) / 2;
        table.procs[id].heap_addr = args_ptr;
        table.procs[id].heap_size = heap_size;
        table.pid = id;
        let entry: u64 = table.procs[id].entry_point_addr;
        let instruction_pointer: u64 = code_addr.wrapping_add(entry);
        Ok(
            Launch {
                page_table_frame: table.procs[id].page_table_frame,
                frame: StackFrame {
                    instruction_pointer,
                    code_segment: selectors.code,
                    cpu_flags: USER_CPU_FLAGS,
                    stack_pointer: stack_addr,
                    stack_segment: selectors.data,
                },
                args_ptr,
                args_len: args.len(),
                copies,
                descriptors,
            },
        )
    }
}

/// Each argument moves the end further, never back.
proof fn lemma_args_end_grows(rows: Seq<Seq<u8>>, start: int, upto: int)
    requires
        0 <= upto <= rows.len(),
    ensures
        args_end(rows.take(upto), start) <= args_end(rows, start),
    decreases rows.len() - upto,
{
    if upto < rows.len() {
        assert(rows.take(upto + 1).drop_last() =~= rows.take(upto));
        lemma_args_end_grows(rows, start, upto + 1);
    } else {
        assert(rows.take(upto) =~= rows);
    }
}


impl ProcessTable {
    /// The table after the running process has ended: its pages are
    /// unmapped, its number is free again, and its parent runs. The kernel
    /// itself does not end.
    pub open spec fn exited(&self, after: &ProcessTable) -> bool {
        if self.pid == 0 {
            *after == *self
        } else {
            &&& after.pid == self.current().parent_id
            &&& after.max_pid == self.max_pid - 1
            &&& after.next_code_addr == self.next_code_addr
            &&& after.procs@.len() == self.procs@.len()
            &&& forall|k: int|
                0 <= k < self.procs@.len() && k != self.pid ==> after.procs@[k] == self.procs@[k]
            &&& after.procs@[self.pid as int] == (Process {
                space: after.procs@[self.pid as int].space,
                ..self.current()
            })
            &&& after.procs@[self.pid as int].space@ == freed(
                self.current().space@,
                self.current().code_addr,
                MAX_PROC_SIZE,
            )
        }
    }
}

/// Ends the running process and goes back to its parent.
pub fn exit(table: &mut ProcessTable)
    requires
        old(table).wf(),
    ensures
        final(table).wf(),
        old(table).exited(final(table)),
{
    let pid: usize = table.pid;
    if pid == 0 {
        return ;
    }
    let code_addr: u64 = table.procs[pid].code_addr;
    free_pages(&mut table.procs[pid].space, code_addr, MAX_PROC_SIZE);
    table.max_pid = table.max_pid - 1;
    table.pid = table.procs[pid].parent_id;
}

/// What a spawn comes to. It succeeds where the process can be created and
/// then be entered; the child is then the running process, with the next
/// free number, the parent's data and saved context, and the program's
/// pieces as its image. Where it fails, the error is `ExecError`, and the
/// running process and the number of processes are as before.
pub open spec fn spawned(
    before: ProcessTable,
    after: ProcessTable,
    kernel: Pages,
    regions: Seq<MemoryRegion>,
    next: int,
    frames: int,
    bin: Seq<u8>,
    args: Seq<Seq<u8>>,
    selectors: UserSelectors,
    result: Result<Launch, ExitCode>,
) -> bool {
    let c = creation(before.max_pid, before.next_code_addr, kernel, regions, next, bin);
    let child = after.procs@[before.max_pid as int];
    &&& after.procs@.len() == before.procs@.len()
    &&& forall|k: int| 0 <= k < before.max_pid ==> after.procs@[k] == before.procs@[k]
    &&& after.next_code_addr == c.next_code_addr
    &&& result is Ok == (c.ok && can_enter(
        c.code_addr,
        (c.code_addr + MAX_PROC_SIZE - 4096) as u64,
        c.space,
        regions,
        c.frames,
        args,
    ))
    &&& result is Err ==> result == Err::<Launch, ExitCode>(ExitCode::ExecError) && after.pid
        == before.pid && after.max_pid == before.max_pid
    &&& !c.ok ==> after.procs == before.procs && frames == c.frames
    &&& result matches Ok(launch) ==> {
        &&& after.pid == before.max_pid
        &&& after.max_pid == before.max_pid + 1
        &&& child.id == before.max_pid
        &&& child.parent_id == before.pid
        &&& child.code_addr == c.code_addr
        &&& child.stack_addr == c.code_addr + MAX_PROC_SIZE - 4096
        &&& child.entry_point_addr == c.entry
        &&& child.page_table_frame == c.page_table_frame
        &&& image_view(child.image@) == c.segments
        &&& child.registers == before.current().registers
        &&& child.stack_frame == before.current().stack_frame
        &&& child.data.dir@ == before.current().data.dir@
        &&& child.data.slots() == before.current().data.slots()
        &&& child.space@ == mapped(
            c.space,
            regions,
            c.frames,
            child.args_start() as u64,
            1,
            Some(USER_FLAGS),
        ).pages
        &&& frames == mapped(
            c.space,
            regions,
            c.frames,
            child.args_start() as u64,
            1,
            Some(USER_FLAGS),
        ).next
        &&& child.heap_addr == aligned_after(args_end(args, child.args_start()))
        &&& child.heap_size == (child.stack_addr - child.heap_addr) / 2
        &&& launch.page_table_frame == c.page_table_frame
        &&& launch.frame.stack_pointer == child.stack_addr
        &&& launch.frame.code_segment == selectors.code
        &&& launch.frame.stack_segment == selectors.data
        &&& launch.frame.cpu_flags == USER_CPU_FLAGS
        &&& launch.frame.instruction_pointer as int == (c.code_addr + c.entry)
            % 0x1_0000_0000_0000_0000
        &&& launch.args_len == args.len()
        &&& launch.args_ptr == child.heap_addr
        &&& laid_out(launch.copies@, launch.descriptors@, args, child.args_start())
    }
}

impl Process {
    /// Creates a process from a program and enters it. Where it cannot be
    /// created or entered, the table holds the processes that it held
    /// before, and the error is `ExecError`.
    pub fn spawn(
        table: &mut ProcessTable,
        manager: &mut MemoryManager,
        bin: &[u8],
        args: &Vec<Vec<u8>>,
        selectors: UserSelectors,
    ) -> (result: Result<Launch, ExitCode>)
        requires
            old(table).wf(),
        ensures
            final(table).wf(),
            final(manager).mapper == old(manager).mapper,
            final(manager).phys_mem_offset == old(manager).phys_mem_offset,
            final(manager).memory_size == old(manager).memory_size,
            final(manager).allocator.memory_regions == old(manager).allocator.memory_regions,
            spawned(
                *old(table),
                *final(table),
                old(manager).pages(),
                old(manager).allocator.memory_regions@,
                old(manager).allocator.next as int,
                final(manager).allocator.next as int,
                bin@,
                args.deep_view(),
                selectors,
                result,
            ),
    {
        match Process::create(table, manager, bin) {
            Ok(id) => {
                match Process::exec(table, manager, id, args, selectors) {
                    Ok(launch) => Ok(launch),
                    Err(_) => {
                        table.max_pid = id;
                        Err(ExitCode::ExecError)
                    },
                }
            },
            Err(_) => Err(ExitCode::ExecError),
        }
    }
}

} // verus!
