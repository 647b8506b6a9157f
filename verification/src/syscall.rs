//! The system calls: their numbers, what each of them asks of the kernel,
//! and what they do to the process table and the console.

use vstd::prelude::*;
use crate::console::{filled, taken, Console};
use crate::fs::{Device, File, FileIO, FileView, Resource, ResourceView};
use crate::mem::MemoryManager;
use crate::process::{create_handle, delete_handle, handle, update_handle};
use crate::process::{rebased, registers, set_registers, set_stack_frame, stack_frame};
use crate::process::{ExitCode, Launch, Process, ProcessTable, Registers, StackFrame};
use crate::process::{spawned, UserSelectors, MAX_HANDLES};

verus! {

pub const EXIT: usize = 1;

pub const INFO: usize = 2;

pub const OPEN: usize = 3;

pub const DUP: usize = 4;

pub const READ: usize = 5;

pub const WRITE: usize = 6;

pub const CLOSE: usize = 7;

pub const SPAWN: usize = 8;

pub const ALLOC: usize = 9;

pub const FREE: usize = 10;

/// What kind of thing a path names.
#[derive(Clone, Copy, Debug, PartialEq, Eq, Structural)]
pub enum FileType {
    Dir,
    File,
    Device,
}

/// What the file system tells about a path.
#[derive(Clone, Copy, Debug, PartialEq, Eq, Structural)]
pub struct FileInfo {
    pub kind: FileType,
    pub size: u32,
    pub time: u64,
}

impl FileInfo {
    /// The information on an empty file from time zero.
    pub fn new() -> (info: FileInfo)
        ensures
            info == (FileInfo { kind: FileType::File, size: 0, time: 0 }),
    {
        FileInfo { kind: FileType::File, size: 0, time: 0 }
    }

    pub fn kind(&self) -> (kind: FileType)
        ensures
            kind == self.kind,
    {
        self.kind
    }
}

/// A count as a system call returns it; one beyond the largest return
/// value is returned as that value.
pub open spec fn count_value(n: int) -> isize {
    if n <= isize::MAX {
        n as isize
    } else {
        isize::MAX
    }
}

fn to_isize(n: usize) -> (value: isize)
    ensures
        value == count_value(n as int),
{
    if n <= isize::MAX as usize {
        n as isize
    } else {
        isize::MAX
    }
}

/// Ends the running process and hands its exit code on to the parent.
pub fn exit(table: &mut ProcessTable, code: ExitCode) -> (returned: ExitCode)
    requires
        old(table).wf(),
    ensures
        final(table).wf(),
        old(table).exited(final(table)),
        returned == code,
{
    crate::process::exit(table);
    code
}

/// Stores what the file system found out about a path. Returns 0, or -1
/// where it found nothing.
pub fn info(found: Option<FileInfo>, stat: &mut FileInfo) -> (value: isize)
    ensures
        match found {
            Some(res) => value == 0 && *final(stat) == res,
            None => value == -1 && *final(stat) == *old(stat),
        },
{
    if let Some(res) = found {
        *stat = res;
        0
    } else {
        -1
    }
}

/// Gives the resource that the file system opened the lowest free handle
/// from 4 on and returns that handle. Returns -1, and changes nothing, where
/// the file system opened nothing or no handle is free.
pub fn open(table: &mut ProcessTable, found: Option<Resource>) -> (value: isize)
    requires
        old(table).wf(),
    ensures
        final(table).wf(),
        final(table).same_but_current(old(table)),
        final(table).current().same_but_data(old(table).current()),
        final(table).current().data.dir == old(table).current().data.dir,
        match found {
            Some(resource) => if exists|h: int|
                4 <= h < MAX_HANDLES && old(table).slots()[h] is None {
                &&& 4 <= value < MAX_HANDLES
                &&& old(table).slots()[value as int] is None
                &&& forall|g: int| 4 <= g < value ==> old(table).slots()[g] is Some
                &&& final(table).slots() == old(table).slots().update(
                    value as int,
                    Some(resource@),
                )
            } else {
                value == -1 && final(table).slots() == old(table).slots()
            },
            None => value == -1 && final(table).slots() == old(table).slots(),
        },
{
    if let Some(resource) = found {
        if let Ok(handle) = create_handle(table, resource) {
            return handle as isize;
        }
    }
    -1
}

/// The slots after a duplication: the new handle stands for what the old
/// one stands for. Nothing changes where a handle is out of range or the
/// old one is empty.
pub open spec fn duplicated(
    slots: Seq<Option<ResourceView>>,
    old_handle: usize,
    new_handle: usize,
) -> Seq<Option<ResourceView>> {
    if old_handle < MAX_HANDLES && new_handle < MAX_HANDLES && slots[old_handle as int] is Some {
        slots.update(new_handle as int, slots[old_handle as int])
    } else {
        slots
    }
}

/// Makes `new_handle` stand for what `old_handle` stands for, whatever it
/// stood for before, and returns it. Returns -1 where a handle is out of
/// range or the old one is empty.
pub fn dup(table: &mut ProcessTable, old_handle: usize, new_handle: usize) -> (value: isize)
    requires
        old(table).wf(),
    ensures
        final(table).wf(),
        final(table).same_but_current(old(table)),
        final(table).current().same_but_data(old(table).current()),
        final(table).current().data.dir == old(table).current().data.dir,
        final(table).slots() == duplicated(old(table).slots(), old_handle, new_handle),
        value == if old_handle < MAX_HANDLES && new_handle < MAX_HANDLES && old(
            table,
        ).slots()[old_handle as int] is Some {
            new_handle as isize
        } else {
            -1isize
        },
{
    if old_handle < MAX_HANDLES && new_handle < MAX_HANDLES {
        if let Some(file) = handle(table, old_handle) {
            update_handle(table, new_handle, file);
            return new_handle as isize;
        }
    }
    assert(table.slots() =~= duplicated(old(table).slots(), old_handle, new_handle));
    -1
}

/// What a read through a handle comes to.
pub struct ReadOutcome {
    /// What the system call returns.
    pub value: isize,
    /// The buffer afterwards.
    pub buf: Seq<u8>,
    /// What the handle stands for afterwards.
    pub slot: Option<ResourceView>,
    /// The typed bytes that still wait.
    pub stdin: Seq<u8>,
}

/// What reading into `buf` through a slot comes to: the console gives the
/// oldest typed bytes, the null device gives nothing, a file gives its next
/// bytes and moves on. An empty slot gives -1.
pub open spec fn read_outcome(slot: Option<ResourceView>, stdin: Seq<u8>, buf: Seq<u8>) -> ReadOutcome {
    match slot {
        None => ReadOutcome { value: -1isize, buf, slot, stdin },
        Some(ResourceView::Device(Device::Null)) => ReadOutcome { value: 0, buf, slot, stdin },
        Some(ResourceView::Device(Device::Console)) => ReadOutcome {
            value: count_value(taken(stdin, buf.len() as int)),
            buf: filled(stdin, buf),
            slot,
            stdin: stdin.skip(taken(stdin, buf.len() as int)),
        },
        Some(ResourceView::File(file)) => ReadOutcome {
            value: count_value(file.read_len(buf.len() as int)),
            buf: file.read_into(buf),
            slot: Some(ResourceView::File(file.after_read(buf.len() as int))),
            stdin,
        },
    }
}

/// Reads through a handle into `buf` and returns the number of bytes read,
/// or -1 where the handle is out of range or stands for nothing.
pub fn read(
    table: &mut ProcessTable,
    console: &mut Console,
    handle: usize,
    buf: &mut Vec<u8>,
) -> (value: isize)
    requires
        old(table).wf(),
    ensures
        final(table).wf(),
        final(table).same_but_current(old(table)),
        final(table).current().same_but_data(old(table).current()),
        final(table).current().data.dir == old(table).current().data.dir,
        final(console).screen == old(console).screen,
        handle >= MAX_HANDLES ==> value == -1 && final(buf)@ == old(buf)@
            && final(table).slots() == old(table).slots() && final(console).stdin@ == old(
            console,
        ).stdin@,
        handle < MAX_HANDLES ==> {
            let outcome = read_outcome(
                old(table).slots()[handle as int],
                old(console).stdin@,
                old(buf)@,
            );
            &&& value == outcome.value
            &&& final(buf)@ == outcome.buf
            &&& final(table).slots() == old(table).slots().update(handle as int, outcome.slot)
            &&& final(console).stdin@ == outcome.stdin
        },
{
    if handle >= MAX_HANDLES {
        assert(table.slots() =~= old(table).slots());
        return -1;
    }
    match crate::process::handle(table, handle) {
        None => {
            assert(table.slots() =~= old(table).slots().update(handle as int, None));
            -1
        },
        Some(Resource::Device(Device::Null)) => {
            assert(table.slots() =~= old(table).slots().update(
                handle as int,
                old(table).slots()[handle as int],
            ));
            0
        },
        Some(Resource::Device(Device::Console)) => {
            let count = console.read(buf);
            assert(table.slots() =~= old(table).slots().update(
                handle as int,
                old(table).slots()[handle as int],
            ));
            to_isize(count)
        },
        Some(Resource::File(mut file)) => {
            match file.read(buf) {
                Ok(bytes) => {
                    update_handle(table, handle, Resource::File(file));
                    to_isize(bytes)
                },
                Err(_) => -1,
            }
        },
    }
}

/// What a write through a handle does to what the handle stands for.
pub open spec fn written_slot(slot: Option<ResourceView>, buf: Seq<u8>) -> Option<ResourceView> {
    match slot {
        Some(ResourceView::File(file)) => if file.offset + buf.len() <= usize::MAX {
            Some(
                ResourceView::File(
                    FileView { data: file.written(buf), offset: file.offset + buf.len() },
                ),
            )
        } else {
            slot
        },
        _ => slot,
    }
}

/// What a write of `buf` through a slot returns: the number of bytes, or -1
/// for an empty slot and for a file that would grow past the largest size.
pub open spec fn written_value(slot: Option<ResourceView>, buf: Seq<u8>) -> isize {
    match slot {
        None => -1isize,
        Some(ResourceView::File(file)) => if file.offset + buf.len() <= usize::MAX {
            count_value(buf.len() as int)
        } else {
            -1isize
        },
        Some(ResourceView::Device(_)) => count_value(buf.len() as int),
    }
}

/// Writes `buf` through a handle and returns the number of bytes written,
/// or -1 where the handle is out of range or stands for nothing. The
/// console shows the bytes on the terminal, the null device drops them, a
/// file takes them at its position.
pub fn write(table: &mut ProcessTable, console: &mut Console, handle: usize, buf: &[u8]) -> (value:
    isize)
    requires
        old(table).wf(),
        old(console).wf(),
    ensures
        final(table).wf(),
        final(console).wf(),
        final(table).same_but_current(old(table)),
        final(table).current().same_but_data(old(table).current()),
        final(table).current().data.dir == old(table).current().data.dir,
        final(console).stdin == old(console).stdin,
        final(console).screen@ == if handle < MAX_HANDLES && old(table).slots()[handle as int]
            == Some(ResourceView::Device(Device::Console)) {
            old(console).screen@.fed(final(console).screen@.parser, buf@)
        } else {
            old(console).screen@
        },
        old(console).screen@.keeps(final(console).screen@),
        handle >= MAX_HANDLES ==> value == -1 && final(table).slots() == old(table).slots(),
        handle < MAX_HANDLES ==> value == written_value(old(table).slots()[handle as int], buf@)
            && final(table).slots() == old(table).slots().update(
            handle as int,
            written_slot(old(table).slots()[handle as int], buf@),
        ),
{
    if handle >= MAX_HANDLES {
        assert(table.slots() =~= old(table).slots());
        return -1;
    }
    proof {
        assert(old(table).slots() =~= old(table).slots().update(
            handle as int,
            old(table).slots()[handle as int],
        ));
    }
    match crate::process::handle(table, handle) {
        None => -1,
        Some(Resource::Device(Device::Null)) => to_isize(buf.len()),
        Some(Resource::Device(Device::Console)) => {
            let count = console.write(buf);
            to_isize(count)
        },
        Some(Resource::File(mut file)) => {
            match file.write(buf) {
                Ok(bytes) => {
                    update_handle(table, handle, Resource::File(file));
                    to_isize(bytes)
                },
                Err(_) => -1,
            }
        },
    }
}

/// Closes what a handle stands for and empties the handle. A handle that
/// is out of range or empty is left alone.
pub fn close(table: &mut ProcessTable, handle: usize)
    requires
        old(table).wf(),
    ensures
        final(table).wf(),
        final(table).same_but_current(old(table)),
        final(table).current().same_but_data(old(table).current()),
        final(table).current().data.dir == old(table).current().data.dir,
        final(table).slots() == if handle < MAX_HANDLES {
            old(table).slots().update(handle as int, None)
        } else {
            old(table).slots()
        },
{
    if handle < MAX_HANDLES {
        match crate::process::handle(table, handle) {
            Some(Resource::File(mut file)) => {
                file.close();
                delete_handle(table, handle);
            },
            Some(Resource::Device(_)) => {
                delete_handle(table, handle);
            },
            None => {
                assert(table.slots() =~= old(table).slots().update(handle as int, None));
            },
        }
    } else {
        assert(table.slots() =~= old(table).slots());
    }
}

/// The bytes of a file from its position to its end.
pub open spec fn unread(file: FileView) -> Seq<u8> {
    if file.offset <= file.data.len() {
        file.data.skip(file.offset)
    } else {
        Seq::empty()
    }
}

/// Starts the program in `file` as a child of the running process. Where
/// there is no file the result is `OpenError` and nothing changes;
/// otherwise the rest of the file is read and spawned as a program: where
/// that fails the result is `ExecError`, else it is `Success`, the child
/// runs, and what is left to do to enter it comes back.
pub fn spawn(
    table: &mut ProcessTable,
    manager: &mut MemoryManager,
    file: Option<File>,
    args: &Vec<Vec<u8>>,
    selectors: UserSelectors,
) -> (result: (ExitCode, Option<Launch>))
    requires
        old(table).wf(),
    ensures
        final(table).wf(),
        final(manager).mapper == old(manager).mapper,
        final(manager).phys_mem_offset == old(manager).phys_mem_offset,
        final(manager).memory_size == old(manager).memory_size,
        final(manager).allocator.memory_regions == old(manager).allocator.memory_regions,
        result.1 is Some == (result.0 == ExitCode::Success),
        match file {
            None => result.0 == ExitCode::OpenError && *final(table) == *old(table)
                && *final(manager) == *old(manager),
            Some(f) => spawned(
                *old(table),
                *final(table),
                old(manager).pages(),
                old(manager).allocator.memory_regions@,
                old(manager).allocator.next as int,
                final(manager).allocator.next as int,
                unread(f@),
                args.deep_view(),
                selectors,
                match result.1 {
                    Some(launch) => Ok(launch),
                    None => Err(result.0),
                },
            ),
        },
{
    if let Some(mut file) = file {
        let mut buf: Vec<u8> = Vec::new();
        let size: usize = file.size();
        let mut i: usize = 0;
        while i < size
            invariant
                i <= size,
                buf@.len() == i,
            decreases size - i,
        {
            buf.push(0);
            i = i + 1;
        }
        let ghost opened = file@;
        if let Ok(bytes) = file.read(&mut buf) {
            buf.truncate(bytes);
            assert(buf@ =~= unread(opened));
            match Process::spawn(table, manager, buf.as_slice(), args, selectors) {
                Err(code) => (code, None),
                Ok(launch) => (ExitCode::Success, Some(launch)),
            }
        } else {
            (ExitCode::ReadError, None)
        }
    } else {
        (ExitCode::OpenError, None)
    }
}

/// What a system call asks of the kernel, with every address turned into
/// one that the kernel can use.
#[derive(Clone, Copy, Debug, PartialEq, Eq, Structural)]
pub enum Request {
    Exit { code: ExitCode },
    Info { path_ptr: u64, path_len: usize, info_ptr: u64 },
    Open { path_ptr: u64, path_len: usize, flags: usize },
    Dup { old_handle: usize, new_handle: usize },
    Read { handle: usize, buf_ptr: u64, buf_len: usize },
    Write { handle: usize, buf_ptr: u64, buf_len: usize },
    Close { handle: usize },
    Spawn { path_ptr: u64, path_len: usize, args_ptr: u64, args_len: usize },
    Alloc { size: usize, align: usize },
    Free { ptr: u64, size: usize, align: usize },
    /// No system call has this number, or an address is out of range: the
    /// call returns -1.
    Invalid,
}

/// Whether an address that a process passed can be turned into one of the
/// kernel's.
pub open spec fn reachable(base: u64, addr: usize) -> bool {
    rebased(base, addr as u64) <= u64::MAX
}

/// What the call with number `n` and the four arguments asks for, in a
/// process whose memory starts at `base`.
pub open spec fn request(
    base: u64,
    n: usize,
    arg1: usize,
    arg2: usize,
    arg3: usize,
    arg4: usize,
) -> Request {
    if n == EXIT {
        Request::Exit { code: ExitCode::spec_from(arg1) }
    } else if n == INFO {
        if reachable(base, arg1) && reachable(base, arg3) {
            Request::Info {
                path_ptr: rebased(base, arg1 as u64) as u64,
                path_len: arg2,
                info_ptr: rebased(base, arg3 as u64) as u64,
            }
        } else {
            Request::Invalid
        }
    } else if n == OPEN {
        if reachable(base, arg1) {
            Request::Open {
                path_ptr: rebased(base, arg1 as u64) as u64,
                path_len: arg2,
                flags: arg3,
            }
        } else {
            Request::Invalid
        }
    } else if n == DUP {
        Request::Dup { old_handle: arg1, new_handle: arg2 }
    } else if n == READ {
        if reachable(base, arg2) {
            Request::Read {
                handle: arg1,
                buf_ptr: rebased(base, arg2 as u64) as u64,
                buf_len: arg3,
            }
        } else {
            Request::Invalid
        }
    } else if n == WRITE {
        if reachable(base, arg2) {
            Request::Write {
                handle: arg1,
                buf_ptr: rebased(base, arg2 as u64) as u64,
                buf_len: arg3,
            }
        } else {
            Request::Invalid
        }
    } else if n == CLOSE {
        Request::Close { handle: arg1 }
    } else if n == SPAWN {
        if reachable(base, arg1) && reachable(base, arg3) {
            Request::Spawn {
                path_ptr: rebased(base, arg1 as u64) as u64,
                path_len: arg2,
                args_ptr: rebased(base, arg3 as u64) as u64,
                args_len: arg4,
            }
        } else {
            Request::Invalid
        }
    } else if n == ALLOC {
        Request::Alloc { size: arg1, align: arg2 }
    } else if n == FREE {
        Request::Free { ptr: arg1 as u64, size: arg2, align: arg3 }
    } else {
        Request::Invalid
    }
}

fn user_ptr(table: &ProcessTable, addr: usize) -> (ptr: Option<u64>)
    requires
        table.wf(),
    ensures
        ptr is Some == reachable(table.current().code_addr, addr),
        ptr matches Some(p) ==> p == rebased(table.current().code_addr, addr as u64),
{
    let base: u64 = crate::process::code_addr(table);
    let addr: u64 = addr as u64;
    if addr < base && addr > u64::MAX - base {
        None
    } else {
        Some(crate::process::ptr_from_addr(table, addr))
    }
}

/// Tells by its number what a system call asks for.
pub fn dispatcher(
    table: &ProcessTable,
    n: usize,
    arg1: usize,
    arg2: usize,
    arg3: usize,
    arg4: usize,
) -> (call: Request)
    requires
        table.wf(),
    ensures
        call == request(table.current().code_addr, n, arg1, arg2, arg3, arg4),
{
    if n == EXIT {
        Request::Exit { code: ExitCode::from_code(arg1) }
    } else if n == INFO {
        match (user_ptr(table, arg1), user_ptr(table, arg3)) {
            (Some(path_ptr), Some(info_ptr)) => Request::Info {
                path_ptr,
                path_len: arg2,
                info_ptr,
            },
            _ => Request::Invalid,
        }
    } else if n == OPEN {
        match user_ptr(table, arg1) {
            Some(path_ptr) => Request::Open { path_ptr, path_len: arg2, flags: arg3 },
            None => Request::Invalid,
        }
    } else if n == DUP {
        Request::Dup { old_handle: arg1, new_handle: arg2 }
    } else if n == READ {
        match user_ptr(table, arg2) {
            Some(buf_ptr) => Request::Read { handle: arg1, buf_ptr, buf_len: arg3 },
            None => Request::Invalid,
        }
    } else if n == WRITE {
        match user_ptr(table, arg2) {
            Some(buf_ptr) => Request::Write { handle: arg1, buf_ptr, buf_len: arg3 },
            None => Request::Invalid,
        }
    } else if n == CLOSE {
        Request::Close { handle: arg1 }
    } else if n == SPAWN {
        match (user_ptr(table, arg1), user_ptr(table, arg3)) {
            (Some(path_ptr), Some(args_ptr)) => Request::Spawn {
                path_ptr,
                path_len: arg2,
                args_ptr,
                args_len: arg4,
            },
            _ => Request::Invalid,
        }
    } else if n == ALLOC {
        Request::Alloc { size: arg1, align: arg2 }
    } else if n == FREE {
        Request::Free { ptr: arg1 as u64, size: arg2, align: arg3 }
    } else {
        Request::Invalid
    }
}

impl ProcessTable {
    /// `after` is this table with a stack frame and registers saved for
    /// the running process.
    pub open spec fn saved(&self, after: &ProcessTable, frame: StackFrame, regs: Registers) -> bool {
        &&& after.same_but_current(self)
        &&& after.current() == (Process { stack_frame: frame, registers: regs, ..self.current() })
    }
}

/// Takes a system call in. The call's number is in `rax` and its arguments
/// are in `rdi`, `rsi`, `rdx` and `r8`. Before a process is spawned, the
/// caller's stack frame and registers are saved, for the child's exit to
/// come back to.
pub fn syscall_handler(table: &mut ProcessTable, stack_frame: &StackFrame, regs: &Registers) -> (call:
    Request)
    requires
        old(table).wf(),
    ensures
        final(table).wf(),
        call == request(
            old(table).current().code_addr,
            regs.rax,
            regs.rdi,
            regs.rsi,
            regs.rdx,
            regs.r8,
        ),
        regs.rax == SPAWN ==> old(table).saved(final(table), *stack_frame, *regs),
        regs.rax != SPAWN ==> *final(table) == *old(table),
{
    let n: usize = regs.rax;
    if n == SPAWN {
        set_stack_frame(table, *stack_frame);
        set_registers(table, *regs);
    }
    dispatcher(table, n, regs.rdi, regs.rsi, regs.rdx, regs.r8)
}

/// The registers that a system call returns with: after an exit those that
/// were saved for the process that now runs, else those of the caller; and
/// in either case the result in `rax`.
pub open spec fn returned_registers(
    table: &ProcessTable,
    n: usize,
    res: usize,
    regs: Registers,
) -> Registers {
    if n == EXIT {
        Registers { rax: res, ..table.current().registers }
    } else {
        Registers { rax: res, ..regs }
    }
}

/// The stack frame that a system call returns through.
pub open spec fn returned_frame(table: &ProcessTable, n: usize, frame: StackFrame) -> StackFrame {
    if n == EXIT {
        table.current().stack_frame
    } else {
        frame
    }
}

/// Sets up the return from system call `n` with result `res`. After an
/// exit, the saved context of the process that now runs replaces the
/// caller's.
pub fn syscall_return(
    table: &ProcessTable,
    n: usize,
    res: usize,
    stack_frame: &mut StackFrame,
    regs: &mut Registers,
)
    requires
        table.wf(),
    ensures
        *final(regs) == returned_registers(table, n, res, *old(regs)),
        *final(stack_frame) == returned_frame(table, n, *old(stack_frame)),
{
    if n == EXIT {
        *stack_frame = crate::process::stack_frame(table);
        *regs = registers(table);
    }
    regs.rax = res;
}

/// A parent that spawns a child gets its own context back when the child
/// exits. `before` is the table when the parent's call comes in with
/// `frame` and `regs`, and `saved` the table after they were saved; `child`
/// is any table in which the child runs and the records up to the parent's
/// are as they were saved; `after` is the table after the child's exit with
/// `code`. Then the parent runs again, the next process number is what it
/// was, and the parent returns through `frame` with `regs`, but for `rax`,
/// which holds the child's exit code.
pub proof fn lemma_spawn_then_exit(
    before: ProcessTable,
    saved: ProcessTable,
    child: ProcessTable,
    after: ProcessTable,
    frame: StackFrame,
    regs: Registers,
    code: ExitCode,
)
    requires
        before.wf(),
        before.saved(&saved, frame, regs),
        child.wf(),
        child.pid == saved.max_pid,
        child.max_pid == saved.max_pid + 1,
        child.current().parent_id == saved.pid,
        forall|k: int| 0 <= k < saved.max_pid ==> child.procs@[k] == saved.procs@[k],
        child.exited(&after),
    ensures
        after.pid == before.pid,
        after.max_pid == before.max_pid,
        after.current().registers == regs,
        after.current().stack_frame == frame,
        returned_frame(&after, EXIT, child.current().stack_frame) == frame,
        returned_registers(&after, EXIT, code.spec_code(), child.current().registers) == (Registers {
            rax: code.spec_code(),
            ..regs
        }),
{
    assert(after.procs@[saved.pid as int] == saved.procs@[saved.pid as int]);
}

/// After `dup(a, b)` and `dup(b, c)`, a read through `c` comes to what a
/// read through `a` comes to: the same value returned and the same bytes in
/// the buffer.
pub proof fn lemma_dup_chain(
    slots: Seq<Option<ResourceView>>,
    a: usize,
    b: usize,
    c: usize,
    stdin: Seq<u8>,
    buf: Seq<u8>,
)
    requires
        slots.len() == MAX_HANDLES,
        a < MAX_HANDLES,
        b < MAX_HANDLES,
        c < MAX_HANDLES,
        slots[a as int] is Some,
    ensures
        ({
            let chained = duplicated(duplicated(slots, a, b), b, c);
            &&& chained[c as int] == slots[a as int]
            &&& chained[a as int] == slots[a as int]
            &&& read_outcome(chained[c as int], stdin, buf) == read_outcome(
                chained[a as int],
                stdin,
                buf,
            )
        }),
{
}

} // verus!
