use rel4_linux_kit::elf::{add_rights, footprint, load_segments, page_copies, page_rights, segment_copies, segment_pages, segment_rights, PageCopy, ProgramHeader, Rights, Segment};
use rel4_linux_kit::logging::{fmt_with_module, init, Level, LevelFilter};
use rel4_linux_kit::net::{alloc_socket_id, LibcSocketAddr, PollState};

#[test]
fn log_lines_are_colored_and_name_the_target() {
    let line = fmt_with_module(Level::Error, "kernel", Some("kt::main"), "boom");
    assert_eq!(line, b"\x1b[31m[ERROR] [kernel] boom\x1b[0m".to_vec());
    let line = fmt_with_module(Level::Trace, "", Some("kt::main"), "x");
    assert_eq!(line, b"\x1b[90m[TRACE] [kt::main] x\x1b[0m".to_vec());
    let line = fmt_with_module(Level::Warn, "", None, "");
    assert_eq!(line, b"\x1b[93m[WARN] [] \x1b[0m".to_vec());
}

#[test]
fn level_settings() {
    assert_eq!(init(Some("debug")), LevelFilter::Debug);
    assert_eq!(init(Some("error")), LevelFilter::Error);
    assert_eq!(init(Some("warn")), LevelFilter::Warn);
    assert_eq!(init(Some("info")), LevelFilter::Info);
    assert_eq!(init(Some("trace")), LevelFilter::Trace);
    assert_eq!(init(Some("verbose")), LevelFilter::Off);
    assert_eq!(init(None), LevelFilter::Off);
}

#[test]
fn socket_ids_reuse_the_first_free_slot() {
    let mut slots: Vec<bool> = vec![];
    assert_eq!(alloc_socket_id(&mut slots), 0);
    assert_eq!(slots, vec![false]);
    slots[0] = true;
    assert_eq!(alloc_socket_id(&mut slots), 1);
    slots[1] = true;
    slots.push(true);
    slots[1] = false;
    assert_eq!(alloc_socket_id(&mut slots), 1);
    assert_eq!(slots.len(), 3);
}

#[test]
fn socket_address_layout() {
    let a = LibcSocketAddr::from_ipv4([10, 0, 2, 15], 8080);
    assert_eq!(a.sa_family, 2);
    assert_eq!(&a.sa_data[..6], &[0x1f, 0x90, 10, 0, 2, 15]);
    assert_eq!(a.to_ipv4(), ([10, 0, 2, 15], 8080));
    let p = PollState { readable: true, writable: false };
    assert!(p.readable && !p.writable);
}

#[test]
fn segment_plans() {
    let seg = Segment {
        vaddr: 0x1_0ff0,
        offset: 0xff0,
        file_size: 0x20,
        mem_size: 0x1020,
        readable: true,
        writable: false,
        executable: true,
    };
    assert_eq!(
        segment_copies(&seg),
        vec![
            PageCopy { page: 0x1_0000, page_offset: 0xff0, file_offset: 0xff0, len: 0x10 },
            PageCopy { page: 0x1_1000, page_offset: 0, file_offset: 0x1000, len: 0x10 },
        ]
    );
    assert_eq!(segment_pages(&seg), vec![0x1_0000, 0x1_1000, 0x1_2000]);
    let mut r = segment_rights(&seg);
    assert_eq!(r, Rights { read: true, write: false, grant: true });
    let data = Segment { writable: true, readable: true, executable: false, ..seg };
    add_rights(&mut r, &data);
    assert_eq!(r, Rights { read: true, write: true, grant: true });
    let other = Segment { vaddr: 0x4_0100, mem_size: 0x10, ..seg };
    assert_eq!(footprint(&vec![seg, other]), Some((0x1_0000, 0x4_1000)));
    assert_eq!(footprint(&vec![]), None);
}

#[test]
fn program_headers_to_segments() {
    let ph = |kind: u32, flags: u32, offset: u64, vaddr: u64, file_size: u64, mem_size: u64| ProgramHeader {
        kind,
        flags,
        offset,
        vaddr,
        file_size,
        mem_size,
    };
    let phs = vec![
        ph(6, 4, 0x40, 0x40, 0x100, 0x100),
        ph(1, 5, 0, 0x1_0000, 0x800, 0x800),
        ph(1, 6, 0x1000, 0x1_0c00, 0x100, 0x2000),
    ];
    let segs = load_segments(&phs, 0x2000).unwrap();
    assert_eq!(segs.len(), 2);
    assert_eq!(segs[0].vaddr, 0x1_0000);
    assert!(segs[0].readable && !segs[0].writable && segs[0].executable);
    assert!(segs[1].readable && segs[1].writable && !segs[1].executable);
    assert_eq!(load_segments(&phs, 0x1050), None);
    let huge = vec![ph(1, 4, 0, u64::MAX - 0x10, 0, 0x20)];
    assert_eq!(load_segments(&huge, 0x10), None);
    assert_eq!(page_rights(&segs, 0x1_0000), Rights { read: true, write: true, grant: true });
    assert_eq!(page_rights(&segs, 0x1_2000), Rights { read: true, write: true, grant: false });
    assert_eq!(page_rights(&segs, 0x1_3000), Rights { read: false, write: false, grant: false });
    assert_eq!(
        page_copies(&segs, 0x1_0000),
        vec![
            PageCopy { page: 0x1_0000, page_offset: 0, file_offset: 0, len: 0x800 },
            PageCopy { page: 0x1_0000, page_offset: 0xc00, file_offset: 0x1000, len: 0x100 },
        ]
    );
    assert!(page_copies(&segs, 0x1_1000).is_empty());
}
