//! The syscall relay: a sandboxed payload's shim sends the syscall number
//! and six arguments; the supervisor decodes the number against the
//! standard aarch64 numbering, acts on the caller's task record, and
//! replies with one word, errors being the two's-complement negative of a
//! POSIX error code.

use vstd::prelude::*;
use crate::label::{CustomMessageLabel, Message};
use crate::page::{align_up, page_aligned, page_floor, PAGE_SIZE, USPACE_HEAP_BASE, USPACE_HEAP_SIZE};
use crate::task::{brk_pages, brk_watermark, unrecorded_between, BrkPlan, Sel4Task};

verus! {

// System call numbers of the aarch64 table.
pub const SYS_WRITE: u64 = 64;
pub const SYS_EXIT: u64 = 93;
pub const SYS_EXIT_GROUP: u64 = 94;
pub const SYS_SET_TID_ADDRESS: u64 = 96;
pub const SYS_GETPID: u64 = 172;
pub const SYS_GETPPID: u64 = 173;
pub const SYS_GETUID: u64 = 174;
pub const SYS_GETEUID: u64 = 175;
pub const SYS_GETTID: u64 = 178;
pub const SYS_BRK: u64 = 214;
pub const SYS_MUNMAP: u64 = 215;
pub const SYS_MMAP: u64 = 222;
pub const SYS_MPROTECT: u64 = 226;

// POSIX error codes.
pub const EPERM: u64 = 1;
pub const ENOMEM: u64 = 12;
pub const EFAULT: u64 = 14;
pub const EINVAL: u64 = 22;
pub const ENOSYS: u64 = 38;

pub const STDOUT_FD: u64 = 1;
pub const STDERR_FD: u64 = 2;

/// Number of message registers in a syscall request: the number and six
/// arguments.
pub const SYSCALL_REQUEST_LEN: usize = 7;

/// The reply word for error `e`: its two's-complement negative.
pub open spec fn neg_errno(e: u64) -> u64 {
    (u64::MAX - e + 1) as u64
}

/// The reply word for error `e`.
pub fn error_word(e: u64) -> (r: u64)
    requires
        e > 0,
    ensures
        r == neg_errno(e),
{
    u64::MAX - e + 1
}

/// Whether `id` names a system call of the standard aarch64 numbering.
pub uninterp spec fn sysno_known(id: u64) -> bool;

/// Relies on syscalls' `aarch64::Sysno::new`: `Some` exactly when the
/// number is in the aarch64 system-call table.
#[verifier::external_body]
fn sysno_exists(id: u64) -> (r: bool)
    ensures
        r == sysno_known(id),
{
    syscalls::aarch64::Sysno::new(id as usize).is_some()
}

/// A decoded system call.
#[derive(Debug, Clone, Copy, PartialEq, Eq, Structural)]
pub enum Syscall {
    Write { fd: u64, buf: u64, count: u64 },
    Brk(u64),
    Mmap { addr: u64, len: u64 },
    Munmap,
    Mprotect,
    Exit(i32),
    ExitGroup(i32),
    GetPid,
    GetPpid,
    GetUid,
    GetEuid,
    GetTid,
    SetTidAddress(u64),
    /// A system call this supervisor does not implement.
    Unsupported(u64),
    /// A number that names no system call.
    Invalid(u64),
}

pub open spec fn decode_syscall(id: u64, args: Seq<u64>, known: bool) -> Syscall {
    if !known {
        Syscall::Invalid(id)
    } else if id == SYS_WRITE {
        Syscall::Write { fd: args[0], buf: args[1], count: args[2] }
    } else if id == SYS_BRK {
        Syscall::Brk(args[0])
    } else if id == SYS_MMAP {
        Syscall::Mmap { addr: args[0], len: args[1] }
    } else if id == SYS_MUNMAP {
        Syscall::Munmap
    } else if id == SYS_MPROTECT {
        Syscall::Mprotect
    } else if id == SYS_EXIT {
        Syscall::Exit(args[0] as i32)
    } else if id == SYS_EXIT_GROUP {
        Syscall::ExitGroup(args[0] as i32)
    } else if id == SYS_GETPID {
        Syscall::GetPid
    } else if id == SYS_GETPPID {
        Syscall::GetPpid
    } else if id == SYS_GETUID {
        Syscall::GetUid
    } else if id == SYS_GETEUID {
        Syscall::GetEuid
    } else if id == SYS_GETTID {
        Syscall::GetTid
    } else if id == SYS_SET_TID_ADDRESS {
        Syscall::SetTidAddress(args[0])
    } else {
        Syscall::Unsupported(id)
    }
}

/// Decodes a system call given whether its number is in the table.
pub fn decode_with(id: u64, args: &Vec<u64>, known: bool) -> (r: Syscall)
    requires
        args@.len() == 6,
    ensures
        r == decode_syscall(id, args@, known),
{
    if !known {
        Syscall::Invalid(id)
    } else if id == SYS_WRITE {
        Syscall::Write { fd: args[0], buf: args[1], count: args[2] }
    } else if id == SYS_BRK {
        Syscall::Brk(args[0])
    } else if id == SYS_MMAP {
        Syscall::Mmap { addr: args[0], len: args[1] }
    } else if id == SYS_MUNMAP {
        Syscall::Munmap
    } else if id == SYS_MPROTECT {
        Syscall::Mprotect
    } else if id == SYS_EXIT {
        Syscall::Exit(args[0] as i32)
    } else if id == SYS_EXIT_GROUP {
        Syscall::ExitGroup(args[0] as i32)
    } else if id == SYS_GETPID {
        Syscall::GetPid
    } else if id == SYS_GETPPID {
        Syscall::GetPpid
    } else if id == SYS_GETUID {
        Syscall::GetUid
    } else if id == SYS_GETEUID {
        Syscall::GetEuid
    } else if id == SYS_GETTID {
        Syscall::GetTid
    } else if id == SYS_SET_TID_ADDRESS {
        Syscall::SetTidAddress(args[0])
    } else {
        Syscall::Unsupported(id)
    }
}

/// Decodes a system call, looking its number up in the aarch64 table.
pub fn decode(id: u64, args: &Vec<u64>) -> (r: Syscall)
    requires
        args@.len() == 6,
    ensures
        r == decode_syscall(id, args@, sysno_known(id)),
{
    let known = sysno_exists(id);
    decode_with(id, args, known)
}

/// Reads the syscall number and the six arguments of a relayed request;
/// `None` when the payload is shorter.
pub fn syscall_request(message: &Message) -> (r: Option<(u64, Vec<u64>)>)
    ensures
        message.regs@.len() >= SYSCALL_REQUEST_LEN ==> r is Some && r.unwrap().0
            == message.regs@[0] && r.unwrap().1@ == message.regs@.subrange(1, 7),
        message.regs@.len() < SYSCALL_REQUEST_LEN ==> r is None,
{
    if message.regs.len() < SYSCALL_REQUEST_LEN {
        return None;
    }
    let mut args: Vec<u64> = Vec::new();
    let mut i: usize = 1;
    while i < 7
        invariant
            1 <= i <= 7,
            message.regs@.len() >= 7,
            args@ == message.regs@.subrange(1, i as int),
        decreases 7 - i,
    {
        args.push(message.regs[i]);
        i = i + 1;
        assert(args@ =~= message.regs@.subrange(1, i as int));
    }
    Some((message.regs[0], args))
}

/// The request a shim sends for system call `id` with arguments `args`.
pub fn syscall_message(id: u64, args: &Vec<u64>) -> (r: Message)
    requires
        args@.len() == 6,
    ensures
        r.label == CustomMessageLabel::SysCall.label_of(),
        r.extra_caps == 0,
        r.regs@ == seq![id] + args@,
{
    let mut regs: Vec<u64> = vec![id];
    let mut i: usize = 0;
    while i < 6
        invariant
            i <= 6,
            args@.len() == 6,
            regs@ == seq![id] + args@.subrange(0, i as int),
        decreases 6 - i,
    {
        regs.push(args[i]);
        i = i + 1;
        assert(regs@ =~= seq![id] + args@.subrange(0, i as int));
    }
    assert(args@.subrange(0, 6) =~= args@);
    Message { label: CustomMessageLabel::SysCall.to_label(), extra_caps: 0, regs }
}

/// The reply carrying one result word.
pub fn reply_message(word: u64) -> (r: Message)
    ensures
        r.label == 0,
        r.extra_caps == 0,
        r.regs@ == seq![word],
{
    Message { label: 0, extra_caps: 0, regs: vec![word] }
}

/// The result word of a reply; `None` unless it carries exactly one word.
pub fn reply_value(reply: &Message) -> (r: Option<u64>)
    ensures
        reply.regs@.len() == 1 ==> r == Some(reply.regs@[0]),
        reply.regs@.len() != 1 ==> r is None,
{
    if reply.regs.len() == 1 {
        Some(reply.regs[0])
    } else {
        None
    }
}

/// The shim's first half of a relayed call. `tp` is the thread-pointer
/// register: the payload's value is saved and the shim's own installed,
/// and the request to send is built.
pub fn vsyscall_enter(tp: &mut u64, shim_tp: u64, id: u64, args: &Vec<u64>) -> (r: (Message, u64))
    requires
        args@.len() == 6,
    ensures
        *final(tp) == shim_tp,
        r.1 == *old(tp),
        r.0.label == CustomMessageLabel::SysCall.label_of(),
        r.0.extra_caps == 0,
        r.0.regs@ == seq![id] + args@,
{
    let saved = *tp;
    *tp = shim_tp;
    (syscall_message(id, args), saved)
}

/// The shim's second half: the payload's thread pointer is put back,
/// whatever the reply, and the result word is read from the reply.
pub fn vsyscall_leave(tp: &mut u64, saved: u64, reply: &Message) -> (r: Option<u64>)
    ensures
        *final(tp) == saved,
        reply.regs@.len() == 1 ==> r == Some(reply.regs@[0]),
        reply.regs@.len() != 1 ==> r is None,
{
    *tp = saved;
    reply_value(reply)
}

/// A run of bytes of one mapped frame to forward to the console.
#[derive(Debug, Clone, Copy, PartialEq, Eq, Structural)]
pub struct WriteChunk {
    pub frame: u64,
    pub offset: u64,
    pub len: u64,
}

/// The runs that cover `[addr, addr + remaining)` page by page, stopping at
/// the first page that is not mapped.
pub open spec fn write_plan(pages: Map<u64, u64>, addr: u64, remaining: u64) -> Seq<WriteChunk>
    decreases remaining,
{
    if remaining == 0 || addr as int + remaining as int > u64::MAX {
        seq![]
    } else {
        let page = (addr - addr % PAGE_SIZE) as u64;
        let offset = (addr % PAGE_SIZE) as u64;
        let len = if PAGE_SIZE - offset < remaining {
            (PAGE_SIZE - offset) as u64
        } else {
            remaining
        };
        if pages.contains_key(page) {
            seq![WriteChunk { frame: pages[page], offset, len }] + write_plan(
                pages,
                (addr + len) as u64,
                (remaining - len) as u64,
            )
        } else {
            seq![]
        }
    }
}

/// How many bytes `write_plan` covers.
pub open spec fn written(chunks: Seq<WriteChunk>) -> nat
    decreases chunks.len(),
{
    if chunks.len() == 0 {
        0
    } else {
        (chunks[0].len + written(chunks.drop_first())) as nat
    }
}

proof fn lemma_written_append(a: Seq<WriteChunk>, b: Seq<WriteChunk>)
    ensures
        written(a + b) == written(a) + written(b),
    decreases a.len(),
{
    if a.len() > 0 {
        assert((a + b).drop_first() =~= a.drop_first() + b);
        lemma_written_append(a.drop_first(), b);
    } else {
        assert(a + b =~= b);
    }
}

/// Plans forwarding `count` bytes at `buf` of the task's memory.
pub fn write_chunks(task: &Sel4Task, buf: u64, count: u64) -> (r: Vec<WriteChunk>)
    requires
        task.wf(),
        buf as int + count as int <= u64::MAX,
    ensures
        r@ == write_plan(task.pages(), buf, count),
{
    let mut out: Vec<WriteChunk> = Vec::new();
    let mut addr = buf;
    let mut remaining = count;
    while remaining > 0
        invariant
            task.wf(),
            addr as int + remaining as int <= u64::MAX,
            out@ + write_plan(task.pages(), addr, remaining) == write_plan(task.pages(), buf, count),
        decreases remaining,
    {
        let page = page_floor(addr);
        let offset = addr % PAGE_SIZE;
        let len = if PAGE_SIZE - offset < remaining {
            PAGE_SIZE - offset
        } else {
            remaining
        };
        match task.lookup_page(page) {
            Some(frame) => {
                let chunk = WriteChunk { frame, offset, len };
                proof {
                    assert(write_plan(task.pages(), addr, remaining) == seq![chunk] + write_plan(
                        task.pages(),
                        (addr + len) as u64,
                        (remaining - len) as u64,
                    ));
                    assert(out@.push(chunk) + write_plan(
                        task.pages(),
                        (addr + len) as u64,
                        (remaining - len) as u64,
                    ) =~= out@ + write_plan(task.pages(), addr, remaining));
                }
                out.push(chunk);
                addr = addr + len;
                remaining = remaining - len;
            },
            None => {
                assert(write_plan(task.pages(), addr, remaining) == Seq::<WriteChunk>::empty());
                assert(out@ =~= out@ + write_plan(task.pages(), addr, remaining));
                return out;
            },
        }
    }
    assert(out@ =~= out@ + write_plan(task.pages(), addr, remaining));
    out
}

/// The address an anonymous mapping of task `t` goes to: the one asked
/// for, or, for `0`, the task's mapping cursor.
pub open spec fn mmap_addr(t: Sel4Task, addr: u64) -> u64 {
    if addr == 0 {
        t.mmap_top
    } else {
        addr
    }
}

/// An anonymous mapping is made only at a page-aligned address whose
/// range stays inside the address space.
pub open spec fn mmap_ok(t: Sel4Task, addr: u64, len: u64) -> bool {
    page_aligned(mmap_addr(t, addr)) && mmap_addr(t, addr) as int + len as int + PAGE_SIZE as int
        <= u64::MAX
}

/// The mapping cursor after the call: a mapping placed by the cursor moves
/// it past its last page, so the next one does not overlap it.
pub open spec fn mmap_next(t: Sel4Task, addr: u64, len: u64) -> u64 {
    if addr == 0 && mmap_ok(t, addr, len) {
        align_up(t.mmap_top + len, PAGE_SIZE as int) as u64
    } else {
        t.mmap_top
    }
}

/// The pages of an anonymous mapping that still need a frame.
pub open spec fn mmap_pages(t: Sel4Task, addr: u64, len: u64) -> Seq<u64> {
    unrecorded_between(t.pages(), mmap_addr(t, addr) as int, mmap_addr(t, addr) + len)
}

/// A heap watermark the task may move to.
pub open spec fn heap_value_ok(value: u64) -> bool {
    value == 0 || (USPACE_HEAP_BASE <= value && value <= USPACE_HEAP_BASE + USPACE_HEAP_SIZE)
}

/// A write is served for the console descriptors only, over a range that
/// stays inside the address space.
pub open spec fn write_ok(fd: u64, buf: u64, count: u64) -> bool {
    (fd == STDOUT_FD || fd == STDERR_FD) && buf as int + count as int <= u64::MAX
}

/// The word the relay replies with for `call` made by task `t`.
pub open spec fn syscall_reply(t: Sel4Task, call: Syscall) -> u64 {
    match call {
        Syscall::Write { fd, buf, count } => if !(fd == STDOUT_FD || fd == STDERR_FD) {
            neg_errno(ENOSYS)
        } else if buf as int + count as int > u64::MAX {
            neg_errno(EFAULT)
        } else if written(write_plan(t.pages(), buf, count)) < count {
            neg_errno(EFAULT)
        } else {
            count
        },
        Syscall::Brk(value) => if heap_value_ok(value) {
            brk_watermark(t.heap, value)
        } else {
            neg_errno(ENOMEM)
        },
        Syscall::Mmap { addr, len } => if mmap_ok(t, addr, len) {
            mmap_addr(t, addr)
        } else {
            neg_errno(EINVAL)
        },
        Syscall::Munmap => 0,
        Syscall::Mprotect => neg_errno(EPERM),
        Syscall::Exit(_) => 0,
        Syscall::ExitGroup(_) => 0,
        Syscall::GetPid => t.id,
        Syscall::GetPpid => t.parent,
        Syscall::GetUid => 0,
        Syscall::GetEuid => 0,
        Syscall::GetTid => t.id,
        Syscall::SetTidAddress(_) => t.id,
        Syscall::Unsupported(_) => neg_errno(ENOSYS),
        Syscall::Invalid(_) => neg_errno(EINVAL),
    }
}

/// The pages that `call` asks to back with fresh frames.
pub open spec fn syscall_pages(t: Sel4Task, call: Syscall) -> Seq<u64> {
    match call {
        Syscall::Brk(value) => if heap_value_ok(value) {
            brk_pages(t.pages(), t.heap, value)
        } else {
            seq![]
        },
        Syscall::Mmap { addr, len } => if mmap_ok(t, addr, len) {
            mmap_pages(t, addr, len)
        } else {
            seq![]
        },
        _ => seq![],
    }
}

/// What the caller of `relay` does besides replying: back `map_pages` with
/// fresh frames (mapping and recording each), forward `console` to the
/// console, and suspend the calling thread when `suspend` is set.
pub struct SyscallEffect {
    pub reply: u64,
    pub map_pages: Vec<u64>,
    pub console: Vec<WriteChunk>,
    pub suspend: bool,
}

/// Serves one relayed system call for `task` and says what the caller must
/// do besides replying.
pub fn relay(task: &mut Sel4Task, call: Syscall) -> (r: SyscallEffect)
    requires
        old(task).wf(),
    ensures
        final(task).wf(),
        r.reply == syscall_reply(*old(task), call),
        r.map_pages@ == syscall_pages(*old(task), call),
        r.console@ == (match call {
            Syscall::Write { fd, buf, count } => if write_ok(fd, buf, count) {
                write_plan(old(task).pages(), buf, count)
            } else {
                seq![]
            },
            _ => seq![],
        }),
        r.suspend == (call is Exit || call is ExitGroup),
        final(task).heap == (match call {
            Syscall::Brk(value) => if heap_value_ok(value) {
                brk_watermark(old(task).heap, value)
            } else {
                old(task).heap
            },
            _ => old(task).heap,
        }),
        final(task).mmap_top == (match call {
            Syscall::Mmap { addr, len } => mmap_next(*old(task), addr, len),
            _ => old(task).mmap_top,
        }),
        final(task).exit == (match call {
            Syscall::Exit(code) => Some(code),
            Syscall::ExitGroup(code) => Some(code),
            _ => old(task).exit,
        }),
        final(task).clear_child_tid == (match call {
            Syscall::SetTidAddress(p) => Some(p),
            _ => old(task).clear_child_tid,
        }),
        final(task).mapped_page@ == old(task).mapped_page@,
        final(task).mapped_pt@ == old(task).mapped_pt@,
        final(task).tcb == old(task).tcb && final(task).cnode == old(task).cnode
            && final(task).vspace == old(task).vspace,
        final(task).id == old(task).id && final(task).parent == old(task).parent,
        final(task).torn_down == old(task).torn_down,
{
    match call {
        Syscall::Write { fd, buf, count } => {
            if fd != STDOUT_FD && fd != STDERR_FD {
                return SyscallEffect {
                    reply: error_word(ENOSYS),
                    map_pages: Vec::new(),
                    console: Vec::new(),
                    suspend: false,
                };
            }
            if buf > u64::MAX - count {
                return SyscallEffect {
                    reply: error_word(EFAULT),
                    map_pages: Vec::new(),
                    console: Vec::new(),
                    suspend: false,
                };
            }
            let chunks = write_chunks(task, buf, count);
            proof {
                lemma_write_plan_bounded(task.pages(), buf, count);
            }
            let mut total: u64 = 0;
            let mut i: usize = 0;
            while i < chunks.len()
                invariant
                    i <= chunks@.len(),
                    chunks@ == write_plan(task.pages(), buf, count),
                    total == written(chunks@.take(i as int)),
                    written(chunks@) <= count,
                decreases chunks@.len() - i,
            {
                proof {
                    lemma_written_append(chunks@.take(i as int), seq![chunks@[i as int]]);
                    assert(chunks@.take(i as int + 1) =~= chunks@.take(i as int) + seq![chunks@[i as int]]);
                    assert(written(seq![chunks@[i as int]]) == chunks@[i as int].len) by {
                        reveal_with_fuel(written, 2);
                    }
                    lemma_written_prefix(chunks@, i as int + 1);
                }
                total = total + chunks[i].len;
                i = i + 1;
            }
            assert(chunks@.take(i as int) =~= chunks@);
            let reply = if total < count {
                error_word(EFAULT)
            } else {
                count
            };
            SyscallEffect { reply, map_pages: Vec::new(), console: chunks, suspend: false }
        },
        Syscall::Brk(value) => {
            if value != 0 && (value < USPACE_HEAP_BASE || value > USPACE_HEAP_BASE + USPACE_HEAP_SIZE) {
                return SyscallEffect {
                    reply: error_word(ENOMEM),
                    map_pages: Vec::new(),
                    console: Vec::new(),
                    suspend: false,
                };
            }
            let plan: BrkPlan = task.brk(value);
            SyscallEffect {
                reply: plan.watermark,
                map_pages: plan.pages,
                console: Vec::new(),
                suspend: false,
            }
        },
        Syscall::Mmap { addr, len } => {
            let start = if addr == 0 { task.mmap_top } else { addr };
            if start % PAGE_SIZE != 0 || start > u64::MAX - PAGE_SIZE || len > u64::MAX - PAGE_SIZE - start {
                return SyscallEffect {
                    reply: error_word(EINVAL),
                    map_pages: Vec::new(),
                    console: Vec::new(),
                    suspend: false,
                };
            }
            let pages = task.unrecorded_pages(start, len);
            if addr == 0 {
                let end = start + len;
                let rem = end % PAGE_SIZE;
                task.mmap_top = if rem == 0 { end } else { end - rem + PAGE_SIZE };
            }
            SyscallEffect { reply: start, map_pages: pages, console: Vec::new(), suspend: false }
        },
        Syscall::Munmap => SyscallEffect {
            reply: 0,
            map_pages: Vec::new(),
            console: Vec::new(),
            suspend: false,
        },
        Syscall::Mprotect => SyscallEffect {
            reply: error_word(EPERM),
            map_pages: Vec::new(),
            console: Vec::new(),
            suspend: false,
        },
        Syscall::Exit(code) | Syscall::ExitGroup(code) => {
            task.mark_exited(code);
            SyscallEffect { reply: 0, map_pages: Vec::new(), console: Vec::new(), suspend: true }
        },
        Syscall::GetPid | Syscall::GetTid | Syscall::SetTidAddress(_) => {
            if let Syscall::SetTidAddress(p) = call {
                task.clear_child_tid = Some(p);
            }
            SyscallEffect { reply: task.id, map_pages: Vec::new(), console: Vec::new(), suspend: false }
        },
        Syscall::GetPpid => SyscallEffect {
            reply: task.parent,
            map_pages: Vec::new(),
            console: Vec::new(),
            suspend: false,
        },
        Syscall::GetUid | Syscall::GetEuid => SyscallEffect {
            reply: 0,
            map_pages: Vec::new(),
            console: Vec::new(),
            suspend: false,
        },
        Syscall::Unsupported(_) => SyscallEffect {
            reply: error_word(ENOSYS),
            map_pages: Vec::new(),
            console: Vec::new(),
            suspend: false,
        },
        Syscall::Invalid(_) => SyscallEffect {
            reply: error_word(EINVAL),
            map_pages: Vec::new(),
            console: Vec::new(),
            suspend: false,
        },
    }
}

proof fn lemma_written_prefix(chunks: Seq<WriteChunk>, n: int)
    requires
        0 <= n <= chunks.len(),
    ensures
        written(chunks.take(n)) <= written(chunks),
{
    assert(chunks =~= chunks.take(n) + chunks.skip(n));
    lemma_written_append(chunks.take(n), chunks.skip(n));
}

proof fn lemma_write_plan_bounded(pages: Map<u64, u64>, addr: u64, remaining: u64)
    ensures
        written(write_plan(pages, addr, remaining)) <= remaining,
    decreases remaining,
{
    if remaining == 0 || addr as int + remaining as int > u64::MAX {
    } else {
        let page = (addr - addr % PAGE_SIZE) as u64;
        let offset = (addr % PAGE_SIZE) as u64;
        let len = if PAGE_SIZE - offset < remaining {
            (PAGE_SIZE - offset) as u64
        } else {
            remaining
        };
        if pages.contains_key(page) {
            let rest = write_plan(pages, (addr + len) as u64, (remaining - len) as u64);
            lemma_write_plan_bounded(pages, (addr + len) as u64, (remaining - len) as u64);
            let c = WriteChunk { frame: pages[page], offset, len };
            assert((seq![c] + rest).drop_first() =~= rest);
        }
    }
}

/// Relaying `brk(x)`: the request the shim builds carries the number and
/// the arguments, the supervisor decodes it as `brk(x)`, and, for a query
/// or a value inside the heap's range, the word it replies with is exactly
/// the watermark that `brk` computes for `x` (any other value is refused
/// with `ENOMEM`).
pub proof fn lemma_syscall_brk_round_trip(t: Sel4Task, args: Seq<u64>)
    requires
        args.len() == 6,
        heap_value_ok(args[0]),
    ensures
        (seq![SYS_BRK] + args)[0] == SYS_BRK,
        (seq![SYS_BRK] + args).subrange(1, 7) == args,
        decode_syscall(SYS_BRK, args, true) == Syscall::Brk(args[0]),
        syscall_reply(t, decode_syscall(SYS_BRK, args, true)) == brk_watermark(t.heap, args[0]),
{
    assert((seq![SYS_BRK] + args).subrange(1, 7) =~= args);
}

} // verus!
