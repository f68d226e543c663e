use rel4_linux_kit::stack::{layout_stack, AuxV};
use rel4_linux_kit::task::Sel4Task;

fn word(page: &[u8], off: usize) -> u64 {
    u64::from_le_bytes(page[off..off + 8].try_into().unwrap())
}

#[test]
fn busybox_help_stack_layout() {
    let top: u64 = 0x2_0000_0000;
    let base = top - 0x1000;
    let entry = 0x40_0000u64;
    let args = vec![b"busybox".to_vec(), b"--help".to_vec()];
    let img = layout_stack(top, &args, entry).unwrap();
    assert_eq!(img.page.len(), 0x1000);
    let at = |addr: u64| (addr - base) as usize;
    let sp = img.sp;
    assert_eq!(sp, top - 200);
    assert_eq!(word(&img.page, at(sp)), 2);
    let argv0 = word(&img.page, at(sp + 8));
    let argv1 = word(&img.page, at(sp + 16));
    assert_eq!(argv0, top - 16);
    assert_eq!(argv1, top - 32);
    assert_eq!(argv0 % 16, 0);
    assert_eq!(argv1 % 16, 0);
    assert_eq!(&img.page[at(argv0)..at(argv0) + 8], b"busybox\0");
    assert_eq!(&img.page[at(argv1)..at(argv1) + 7], b"--help\0");
    assert_eq!(word(&img.page, at(sp + 24)), 0);
    assert_eq!(word(&img.page, at(sp + 32)), 0);
    let aux: Vec<u64> = (0..16).map(|i| word(&img.page, at(sp + 40 + 8 * i))).collect();
    assert_eq!(
        aux,
        vec![31, argv0, 14, 0, 13, 0, 12, 0, 11, 0, 9, entry, 6, 4096, 0, 0]
    );
    assert_eq!(sp + 40 + 8 * 16, argv1);
    assert!(img.page[..at(sp)].iter().all(|b| *b == 0));
}

#[test]
fn layout_that_overflows_the_page_is_refused() {
    let top: u64 = 0x2_0000_0000;
    let args = vec![vec![b'a'; 5000]];
    assert!(layout_stack(top, &args, 0).is_none());
    let many = vec![b"x".to_vec(); 300];
    assert!(layout_stack(top, &many, 0).is_none());
    let some = vec![b"x".to_vec(); 100];
    assert!(layout_stack(top, &some, 0).is_some());
}

#[test]
fn auxv_keys() {
    assert_eq!(AuxV::Null.key(), 0);
    assert_eq!(AuxV::PageSz.key(), 6);
    assert_eq!(AuxV::Entry.key(), 9);
    assert_eq!(AuxV::DCacheBSize.key(), 19);
    assert_eq!(AuxV::ExecFn.key(), 31);
}

#[test]
fn stack_plan_backs_every_page() {
    let t = Sel4Task::new(1, 0, 100, 101, 102);
    let top: u64 = 0x2_0000_0000;
    let args = vec![b"busybox".to_vec(), b"--help".to_vec()];
    let plan = t.map_stack(top - 0x3000, top, &args, 0x40_0000).unwrap();
    assert_eq!(plan.pages, vec![top - 0x3000, top - 0x2000, top - 0x1000]);
    assert_eq!(plan.top_page.sp, top - 200);
    assert_eq!(plan.top_page.page, layout_stack(top, &args, 0x40_0000).unwrap().page);
    let big = vec![vec![b'a'; 4090]];
    assert!(t.map_stack(top - 0x1000, top, &big, 0).is_none());
}
