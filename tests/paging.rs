use rel4_linux_kit::dispatch::{
    translate_reply, IrqClient, IrqPhase,
};
use rel4_linux_kit::fault::{handle_fault, FaultAction, FaultRecord};
use rel4_linux_kit::label::{Message, RootMessageLabel};
use rel4_linux_kit::task::Sel4Task;

#[test]
fn fault_maps_one_fresh_page_and_converges() {
    let mut t = Sel4Task::new(1, 0, 100, 101, 102);
    let fault = FaultRecord::from_message(&Message { label: 5, extra_caps: 0, regs: vec![0x400, 0x1_2345, 0, 0x7] });
    assert_eq!(fault, FaultRecord::VmFault { ip: 0x400, addr: 0x1_2345, prefetch: 0, fsr: 0x7 });
    let action = handle_fault(&t, &fault);
    assert_eq!(action, FaultAction::MapFresh(0x1_2000));
    let before = t.mapped_page.len();
    if let FaultAction::MapFresh(page) = action {
        t.record_page(page, 500);
    }
    assert_eq!(t.mapped_page.len(), before + 1);
    assert_eq!(t.translate(0x1_2345), Some(500));
}

#[test]
fn other_faults_kill_and_ended_tasks_are_ignored() {
    let mut t = Sel4Task::new(1, 0, 100, 101, 102);
    assert_eq!(handle_fault(&t, &FaultRecord::Other(1)), FaultAction::Kill);
    let short = FaultRecord::from_message(&Message { label: 5, extra_caps: 0, regs: vec![1] });
    assert_eq!(short, FaultRecord::Other(5));
    t.mark_exited(0);
    let f = FaultRecord::VmFault { ip: 0, addr: 0x9000, prefetch: 0, fsr: 0 };
    assert_eq!(handle_fault(&t, &f), FaultAction::Ignore);
    let mut gone = Sel4Task::new(2, 0, 100, 101, 102);
    gone.teardown();
    assert_eq!(handle_fault(&gone, &f), FaultAction::Ignore);
}

#[test]
fn translation_reply_adds_the_page_offset() {
    let r = translate_reply(0x8000_0000, 0x1_2345);
    assert_eq!(r.regs, vec![0x8000_0345]);
    assert_eq!(RootMessageLabel::try_from(&r), Some(RootMessageLabel::TranslateAddr(0x8000_0345)));
}

#[test]
fn irq_handshake_unblocks_only_on_the_bound_notification() {
    let mut c = IrqClient::new();
    let req = c.request(33);
    assert_eq!(req.label, 0x202);
    assert_eq!(req.regs, vec![33]);
    c.signal(9);
    assert!(!c.try_wait());
    c.handler_received();
    assert_eq!(c.phase, IrqPhase::HandlerReceived(33));
    c.bind(9);
    assert!(!c.try_wait());
    for other in [0u64, 1, 8, 10, u64::MAX] {
        c.signal(other);
        assert!(!c.try_wait());
    }
    c.signal(9);
    c.signal(9);
    assert!(c.try_wait());
    assert!(!c.try_wait());
}
