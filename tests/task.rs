use rel4_linux_kit::page::{align_bits, coarsen_footprint, page_floor, round_down};
use rel4_linux_kit::task::{CapOp, MapAction, MapOutcome, Sel4Task};

fn task() -> Sel4Task {
    Sel4Task::new(1, 0, 100, 101, 102)
}

#[test]
fn mapped_page_translates_to_its_frame() {
    let mut t = task();
    assert_eq!(t.translate(0x5000), None);
    assert_eq!(t.record_page(0x5000, 200), None);
    assert_eq!(t.translate(0x5000), Some(200));
    assert_eq!(t.translate(0x5fff), Some(200));
    assert_eq!(t.translate(0x6000), None);
    assert_eq!(t.lookup_page(0x5000), Some(200));
}

#[test]
fn remapping_returns_the_old_frame() {
    let mut t = task();
    t.record_page(0x5000, 200);
    assert_eq!(t.record_page(0x5000, 201), Some(200));
    assert_eq!(t.translate(0x5000), Some(201));
    assert_eq!(t.record_page(0x5000, 201), None);
    assert_eq!(t.mapped_page.len(), 1);
}

#[test]
fn teardown_twice_hands_out_each_cap_once() {
    let mut t = task();
    t.record_table(300);
    t.record_page(0x1000, 200);
    t.record_page(0x2000, 201);
    let first = t.teardown();
    assert_eq!(first, vec![100, 101, 102, 300, 200, 201]);
    let second = t.teardown();
    assert!(second.is_empty());
    assert!(t.torn_down);
    assert_eq!(t.translate(0x1000), None);
}

#[test]
fn brk_grows_queries_and_moves() {
    let mut t = task();
    let base = 0x1_0000_0000u64;
    let q = t.brk(0);
    assert_eq!(q.watermark, base);
    assert!(q.pages.is_empty());
    let g = t.brk(base + 0x2800);
    assert_eq!(g.watermark, base + 0x2800);
    assert_eq!(g.pages, vec![base, base + 0x1000, base + 0x2000]);
    for p in &g.pages {
        t.record_page(*p, 500 + (*p - base) / 0x1000);
    }
    let g = t.brk(base + 0x3000);
    assert_eq!(g.pages, Vec::<u64>::new());
    let g = t.brk(base + 0x3001);
    assert_eq!(g.pages, vec![base + 0x3000]);
    let shrink = t.brk(base + 0x1000);
    assert_eq!(shrink.watermark, base + 0x1000);
    assert!(shrink.pages.is_empty());
    // Growing again skips the pages still recorded from before.
    let regrow = t.brk(base + 0x5000);
    assert_eq!(regrow.pages, vec![base + 0x3000, base + 0x4000]);
    let anywhere = t.brk(5);
    assert_eq!(anywhere.watermark, 5);
    assert_eq!(t.heap, 5);
}

#[test]
fn unrecord_hands_back_the_old_frame() {
    let mut t = task();
    t.record_page(0x5000, 200);
    assert_eq!(t.unrecord_page(0x5000), Some(200));
    assert_eq!(t.translate(0x5000), None);
    assert_eq!(t.unrecord_page(0x5000), None);
    assert_eq!(t.record_page(0x5000, 201), None);
    assert_eq!(t.translate(0x5000), Some(201));
}

#[test]
fn kill_marks_exit_and_tears_down() {
    let mut t = task();
    t.record_page(0x1000, 200);
    assert_eq!(t.kill(139), vec![100, 101, 102, 200]);
    assert_eq!(t.exit, Some(139));
    assert!(t.torn_down);
    assert!(t.kill(139).is_empty());
}

#[test]
fn map_retries_are_bounded_by_the_depth() {
    assert_eq!(Sel4Task::map_step(0, MapOutcome::Mapped), MapAction::Record);
    assert_eq!(Sel4Task::map_step(0, MapOutcome::MissingTable), MapAction::InstallTable);
    assert_eq!(Sel4Task::map_step(2, MapOutcome::MissingTable), MapAction::InstallTable);
    assert_eq!(Sel4Task::map_step(3, MapOutcome::MissingTable), MapAction::Abort);
    assert_eq!(Sel4Task::map_step(0, MapOutcome::Failed), MapAction::Abort);
}

#[test]
fn mark_exited_records_the_status() {
    let mut t = task();
    assert_eq!(t.exit, None);
    t.mark_exited(3);
    assert_eq!(t.exit, Some(3));
}

#[test]
fn page_arithmetic() {
    assert_eq!(align_bits(0x12345, 12), 0x12000);
    assert_eq!(align_bits(0x12345, 0), 0x12345);
    assert_eq!(round_down(1000, 16), 992);
    assert_eq!(coarsen_footprint(0x1234, 0x5678, 0x1000), (0x1000, 0x6000));
    assert_eq!(coarsen_footprint(0x1000, 0x2000, 0x1000), (0x1000, 0x2000));
    assert_eq!(page_floor(0x2_0000_0fff), 0x2_0000_0000);
    assert_eq!(coarsen_footprint(3, usize::MAX - 1, 2), (2, usize::MAX - 1));
}

#[test]
fn configure_fills_the_conventional_slots() {
    let t = task();
    let ops = t.configure(40, 41, 7, 12, 6, 5);
    assert_eq!(
        ops,
        vec![
            CapOp::Mint { dest: 18, src: 40, data: 7 },
            CapOp::Mint { dest: 20, src: 41, data: 7 },
            CapOp::Copy { dest: 6, src: 6 },
            CapOp::Copy { dest: 5, src: 5 },
            CapOp::Mint { dest: 2, src: 101, data: 52 },
            CapOp::Copy { dest: 1, src: 100 },
            CapOp::Copy { dest: 3, src: 102 },
        ]
    );
}
