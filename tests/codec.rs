use rel4_linux_kit::dispatch::{classify, unknown_request_reply, Request};
use rel4_linux_kit::fault::FaultRecord;
use rel4_linux_kit::label::{
    BlkMessageLabel, CustomMessageLabel, Message, NetRequsetabel, RootMessageLabel,
};

fn msg(label: u64, regs: Vec<u64>) -> Message {
    Message { label, extra_caps: 0, regs }
}

#[test]
fn custom_labels_start_at_their_base() {
    assert_eq!(CustomMessageLabel::TestCustomMessage.to_label(), 0x100);
    assert_eq!(CustomMessageLabel::SysCall.to_label(), 0x101);
    assert_eq!(CustomMessageLabel::Exit.to_label(), 0x102);
    assert_eq!(CustomMessageLabel::try_from(&msg(0x101, vec![])), Some(CustomMessageLabel::SysCall));
    assert_eq!(CustomMessageLabel::try_from(&msg(0x103, vec![])), None);
    assert_eq!(CustomMessageLabel::try_from(&msg(0xff, vec![])), None);
}

#[test]
fn root_requests_round_trip() {
    for req in [
        RootMessageLabel::RegisterIRQ(7, 33),
        RootMessageLabel::TranslateAddr(0x1234_5678),
        RootMessageLabel::RegisterIRQWithCap(33),
    ] {
        let m = req.build();
        assert_eq!(m.extra_caps, 0);
        assert_eq!(RootMessageLabel::try_from(&m), Some(req));
    }
    let m = RootMessageLabel::RegisterIRQ(7, 33).build();
    assert_eq!(m.label, 0x200);
    assert_eq!(m.regs, vec![7, 33]);
}

#[test]
fn short_payload_is_rejected() {
    assert_eq!(RootMessageLabel::try_from(&msg(0x200, vec![7])), None);
    assert_eq!(BlkMessageLabel::try_from(&msg(0x301, vec![1])), None);
    assert_eq!(NetRequsetabel::try_from(&msg(0x406, vec![1, 2, 3])), None);
    assert_eq!(BlkMessageLabel::try_from(&msg(0x300, vec![])), Some(BlkMessageLabel::Ping));
}

#[test]
fn blk_requests_round_trip() {
    for req in [
        BlkMessageLabel::Ping,
        BlkMessageLabel::ReadBlock(3, 4),
        BlkMessageLabel::WriteBlock(5, 6),
        BlkMessageLabel::NumBlock,
    ] {
        assert_eq!(BlkMessageLabel::try_from(&req.build()), Some(req));
    }
    assert_eq!(BlkMessageLabel::NumBlock.to_label(), 0x303);
    assert_eq!(BlkMessageLabel::try_from(&msg(0x304, vec![0, 0])), None);
}

#[test]
fn net_requests_round_trip_and_transfer_caps() {
    let all = [
        NetRequsetabel::New,
        NetRequsetabel::IsNonBlocking(1),
        NetRequsetabel::SetNonBlocking(1, 1),
        NetRequsetabel::Bind(1, 0x1000),
        NetRequsetabel::Send(1, 0x2000, 16),
        NetRequsetabel::Recv(1, 0x2000, 16),
        NetRequsetabel::RecvTimeout(1, 0x2000, 16, 99),
        NetRequsetabel::Connect(1, 0x1000),
        NetRequsetabel::Listen(1),
        NetRequsetabel::Accept(1),
        NetRequsetabel::Shutdown(1),
        NetRequsetabel::Close(1),
    ];
    for (i, req) in all.iter().enumerate() {
        let m = req.build();
        assert_eq!(m.label, 0x400 + i as u64);
        assert_eq!(NetRequsetabel::try_from(&m), Some(*req));
    }
    assert_eq!(NetRequsetabel::Bind(1, 2).build().extra_caps, 1);
    assert_eq!(NetRequsetabel::Send(1, 2, 3).build().regs, vec![1, 2, 3]);
    assert_eq!(NetRequsetabel::Listen(1).build().extra_caps, 0);
    assert_eq!(NetRequsetabel::Close(4).to_label(), 0x40b);
    assert_eq!(NetRequsetabel::try_from(&msg(0x40c, vec![0; 4])), None);
}

#[test]
fn families_partition_the_labels() {
    let regs = vec![1u64, 2, 3, 4];
    for label in 0u64..0x500 {
        let m = msg(label, regs.clone());
        let hits = [
            CustomMessageLabel::try_from(&m).is_some(),
            RootMessageLabel::try_from(&m).is_some(),
            BlkMessageLabel::try_from(&m).is_some(),
            NetRequsetabel::try_from(&m).is_some(),
        ];
        let expected = [
            (0x100..0x103).contains(&label),
            (0x200..0x203).contains(&label),
            (0x300..0x304).contains(&label),
            (0x400..0x40c).contains(&label),
        ];
        assert_eq!(hits, expected, "label {label:#x}");
        assert!(hits.iter().filter(|h| **h).count() <= 1);
    }
}

#[test]
fn classify_tries_faults_first_then_families() {
    assert_eq!(
        classify(&msg(5, vec![0x40, 0x1234, 0, 0x47])),
        Request::Fault(FaultRecord::VmFault { ip: 0x40, addr: 0x1234, prefetch: 0, fsr: 0x47 })
    );
    assert_eq!(classify(&msg(2, vec![])), Request::Fault(FaultRecord::Other(2)));
    assert_eq!(classify(&msg(0x102, vec![])), Request::Runtime(CustomMessageLabel::Exit));
    assert_eq!(
        classify(&msg(0x201, vec![0x5000])),
        Request::Coordination(RootMessageLabel::TranslateAddr(0x5000))
    );
    assert_eq!(classify(&msg(0x303, vec![])), Request::Block(BlkMessageLabel::NumBlock));
    assert_eq!(classify(&msg(0x408, vec![3])), Request::Network(NetRequsetabel::Listen(3)));
    assert_eq!(classify(&msg(0x999, vec![])), Request::Unknown);
    assert_eq!(classify(&msg(0x201, vec![])), Request::Unknown);
}

#[test]
fn unknown_request_gets_an_error_word() {
    let r = unknown_request_reply();
    assert_eq!(r.label, 0);
    assert_eq!(r.regs, vec![(-38i64) as u64]);
}
