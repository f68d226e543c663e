use syscalls::aarch64::Sysno;
use rel4_linux_kit::label::CustomMessageLabel;
use rel4_linux_kit::syscall::{
    decode, decode_with, relay, reply_message, reply_value, syscall_message, syscall_request,
    write_chunks, Syscall, SYS_BRK, SYS_EXIT_GROUP, SYS_GETPID, SYS_GETPPID, SYS_GETTID,
    SYS_GETUID, SYS_MMAP, SYS_MPROTECT, SYS_MUNMAP, SYS_SET_TID_ADDRESS, SYS_WRITE, SYS_EXIT,
    SYS_GETEUID, WriteChunk,
};
use rel4_linux_kit::task::Sel4Task;

fn neg(e: i64) -> u64 {
    (-e) as u64
}

fn task() -> Sel4Task {
    Sel4Task::new(7, 3, 100, 101, 102)
}

#[test]
fn numbers_follow_the_aarch64_table() {
    assert_eq!(SYS_WRITE, Sysno::write.id() as u64);
    assert_eq!(SYS_BRK, Sysno::brk.id() as u64);
    assert_eq!(SYS_MMAP, Sysno::mmap.id() as u64);
    assert_eq!(SYS_MUNMAP, Sysno::munmap.id() as u64);
    assert_eq!(SYS_MPROTECT, Sysno::mprotect.id() as u64);
    assert_eq!(SYS_EXIT, Sysno::exit.id() as u64);
    assert_eq!(SYS_EXIT_GROUP, Sysno::exit_group.id() as u64);
    assert_eq!(SYS_GETPID, Sysno::getpid.id() as u64);
    assert_eq!(SYS_GETPPID, Sysno::getppid.id() as u64);
    assert_eq!(SYS_GETUID, Sysno::getuid.id() as u64);
    assert_eq!(SYS_GETEUID, Sysno::geteuid.id() as u64);
    assert_eq!(SYS_GETTID, Sysno::gettid.id() as u64);
    assert_eq!(SYS_SET_TID_ADDRESS, Sysno::set_tid_address.id() as u64);
}

#[test]
fn decode_consults_the_table() {
    let args = vec![1, 2, 3, 4, 5, 6];
    assert_eq!(decode(SYS_BRK, &args), Syscall::Brk(1));
    assert_eq!(decode(57, &args), Syscall::Unsupported(57));
    assert_eq!(decode(5000, &args), Syscall::Invalid(5000));
    assert_eq!(decode_with(SYS_BRK, &args, false), Syscall::Invalid(SYS_BRK));
    assert_eq!(decode(SYS_WRITE, &args), Syscall::Write { fd: 1, buf: 2, count: 3 });
    assert_eq!(decode(SYS_EXIT, &vec![u64::MAX, 0, 0, 0, 0, 0]), Syscall::Exit(-1));
}

#[test]
fn brk_relay_returns_the_watermark() {
    let base = 0x1_0000_0000u64;
    let mut t = task();
    let req = syscall_message(SYS_BRK, &vec![base + 0x1800, 0, 0, 0, 0, 0]);
    assert_eq!(req.label, CustomMessageLabel::SysCall.to_label());
    assert_eq!(req.regs.len(), 7);
    let (id, args) = syscall_request(&req).unwrap();
    let call = decode(id, &args);
    let mut expected = task();
    let plan = expected.brk(base + 0x1800);
    let effect = relay(&mut t, call);
    assert_eq!(effect.reply, plan.watermark);
    assert_eq!(effect.reply, base + 0x1800);
    assert_eq!(effect.map_pages, vec![base, base + 0x1000]);
    assert_eq!(t.heap, base + 0x1800);
    let reply = reply_message(effect.reply);
    assert_eq!(reply_value(&reply), Some(base + 0x1800));
    let q = relay(&mut t, Syscall::Brk(0));
    assert_eq!(q.reply, base + 0x1800);
    let bad = relay(&mut t, Syscall::Brk(5));
    assert_eq!(bad.reply, neg(12));
    assert!(bad.map_pages.is_empty());
    assert_eq!(t.heap, base + 0x1800);
    let past = relay(&mut t, Syscall::Brk(base + 0x10_0001));
    assert_eq!(past.reply, neg(12));
}

#[test]
fn short_request_is_rejected() {
    let mut req = syscall_message(SYS_BRK, &vec![0; 6]);
    req.regs.truncate(6);
    assert!(syscall_request(&req).is_none());
    let mut two = reply_message(1);
    two.regs.push(2);
    assert_eq!(reply_value(&two), None);
}

#[test]
fn write_forwards_mapped_bytes_page_by_page() {
    let mut t = task();
    t.record_page(0x5000, 200);
    t.record_page(0x6000, 201);
    let chunks = write_chunks(&t, 0x5ff0, 0x20);
    assert_eq!(
        chunks,
        vec![
            WriteChunk { frame: 200, offset: 0xff0, len: 0x10 },
            WriteChunk { frame: 201, offset: 0, len: 0x10 },
        ]
    );
    let e = relay(&mut t, Syscall::Write { fd: 1, buf: 0x5ff0, count: 0x20 });
    assert_eq!(e.reply, 0x20);
    let e = relay(&mut t, Syscall::Write { fd: 1, buf: 0x6ff0, count: 0x40 });
    assert_eq!(e.reply, neg(14));
    assert_eq!(e.console, vec![WriteChunk { frame: 201, offset: 0xff0, len: 0x10 }]);
    let e = relay(&mut t, Syscall::Write { fd: 1, buf: 0x9000, count: 4 });
    assert_eq!(e.reply, neg(14));
    assert!(e.console.is_empty());
    let e = relay(&mut t, Syscall::Write { fd: 3, buf: 0x5000, count: 1 });
    assert_eq!(e.reply, neg(38));
    let e = relay(&mut t, Syscall::Write { fd: 2, buf: u64::MAX, count: 2 });
    assert_eq!(e.reply, neg(14));
}

#[test]
fn mmap_backs_only_unmapped_pages() {
    let mut t = task();
    t.record_page(0x3_0000_1000, 200);
    let e = relay(&mut t, Syscall::Mmap { addr: 0, len: 0x2800 });
    assert_eq!(e.reply, 0x3_0000_0000);
    assert_eq!(e.map_pages, vec![0x3_0000_0000, 0x3_0000_2000]);
    let e = relay(&mut t, Syscall::Mmap { addr: 0, len: 0x1000 });
    assert_eq!(e.reply, 0x3_0000_3000);
    assert_eq!(e.map_pages, vec![0x3_0000_3000]);
    assert_eq!(t.mmap_top, 0x3_0000_4000);
    let e = relay(&mut t, Syscall::Mmap { addr: 0x1234, len: 0x1000 });
    assert_eq!(e.reply, neg(22));
    assert!(e.map_pages.is_empty());
}

#[test]
fn identity_exit_and_errors() {
    let mut t = task();
    assert_eq!(relay(&mut t, Syscall::GetPid).reply, 7);
    assert_eq!(relay(&mut t, Syscall::GetPpid).reply, 3);
    assert_eq!(relay(&mut t, Syscall::GetUid).reply, 0);
    assert_eq!(relay(&mut t, Syscall::GetEuid).reply, 0);
    assert_eq!(relay(&mut t, Syscall::GetTid).reply, 7);
    assert_eq!(relay(&mut t, Syscall::SetTidAddress(0x88)).reply, 7);
    assert_eq!(t.clear_child_tid, Some(0x88));
    assert_eq!(relay(&mut t, Syscall::Munmap).reply, 0);
    assert_eq!(relay(&mut t, Syscall::Mprotect).reply, neg(1));
    assert_eq!(relay(&mut t, Syscall::Unsupported(57)).reply, neg(38));
    assert_eq!(relay(&mut t, Syscall::Invalid(5000)).reply, neg(22));
    let e = relay(&mut t, Syscall::ExitGroup(4));
    assert!(e.suspend);
    assert_eq!(e.reply, 0);
    assert_eq!(t.exit, Some(4));
}

#[test]
fn shim_restores_the_thread_pointer() {
    let mut tp = 0xaaaa_0000u64;
    let (req, saved) = rel4_linux_kit::syscall::vsyscall_enter(&mut tp, 0x5555, SYS_BRK, &vec![0, 0, 0, 0, 0, 0]);
    assert_eq!(tp, 0x5555);
    assert_eq!(saved, 0xaaaa_0000);
    assert_eq!(req.regs[0], SYS_BRK);
    let reply = reply_message(0x1_0000_0000);
    let r = rel4_linux_kit::syscall::vsyscall_leave(&mut tp, saved, &reply);
    assert_eq!(r, Some(0x1_0000_0000));
    assert_eq!(tp, 0xaaaa_0000);
}
