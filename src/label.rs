//! Fixed-layout IPC messages and the protocol families that share the label
//! space. Each family owns the labels `[base, base + size)`; a label outside
//! that range decodes to `None` so that a dispatcher can probe the families
//! in turn.

use vstd::prelude::*;

verus! {

/// First label of the runtime family.
pub const CUSTOM_LABEL_START: u64 = 0x100;
/// Number of labels of the runtime family.
pub const CUSTOM_LABEL_COUNT: u64 = 3;
/// First label of the coordination family.
pub const ROOT_LABEL_START: u64 = 0x200;
/// Number of labels of the coordination family.
pub const ROOT_LABEL_COUNT: u64 = 3;
/// First label of the block-I/O family.
pub const BLK_LABEL_START: u64 = 0x300;
/// Number of labels of the block-I/O family.
pub const BLK_LABEL_COUNT: u64 = 4;
/// First label of the network family.
pub const NET_LABEL_START: u64 = 0x400;
/// Number of labels of the network family.
pub const NET_LABEL_COUNT: u64 = 12;

/// Labels below this one are fault records written by the kernel.
pub const FAULT_LABEL_LIMIT: u64 = CUSTOM_LABEL_START;

/// One message as it crosses an endpoint: the label, the number of
/// capabilities transferred with it (0 or 1) and the message registers.
pub struct Message {
    pub label: u64,
    pub extra_caps: u64,
    pub regs: Vec<u64>,
}

/// The value that `label` has inside the family starting at `base` with
/// `size` labels, or `None` when the label belongs elsewhere.
pub open spec fn family_offset(label: u64, base: u64, size: u64) -> Option<u64> {
    if base <= label && label < base + size {
        Some((label - base) as u64)
    } else {
        None
    }
}

/// Messages of the runtime family, sent by a sandboxed payload's shim.
#[derive(Debug, Clone, Copy, PartialEq, Eq, Structural)]
pub enum CustomMessageLabel {
    TestCustomMessage,
    SysCall,
    Exit,
}

impl CustomMessageLabel {
    pub open spec fn index(self) -> u64 {
        match self {
            CustomMessageLabel::TestCustomMessage => 0,
            CustomMessageLabel::SysCall => 1,
            CustomMessageLabel::Exit => 2,
        }
    }

    pub open spec fn label_of(self) -> u64 {
        (CUSTOM_LABEL_START + self.index()) as u64
    }

    pub open spec fn decode(label: u64) -> Option<CustomMessageLabel> {
        if label == CUSTOM_LABEL_START {
            Some(CustomMessageLabel::TestCustomMessage)
        } else if label == CUSTOM_LABEL_START + 1 {
            Some(CustomMessageLabel::SysCall)
        } else if label == CUSTOM_LABEL_START + 2 {
            Some(CustomMessageLabel::Exit)
        } else {
            None
        }
    }

    /// Reads the runtime-family variant named by the message's label.
    pub fn try_from(message: &Message) -> (r: Option<CustomMessageLabel>)
        ensures
            r == Self::decode(message.label),
    {
        let label = message.label;
        if label < CUSTOM_LABEL_START {
            return None;
        }
        match label - CUSTOM_LABEL_START {
            0 => Some(CustomMessageLabel::TestCustomMessage),
            1 => Some(CustomMessageLabel::SysCall),
            2 => Some(CustomMessageLabel::Exit),
            _ => None,
        }
    }

    pub fn to_label(&self) -> (r: u64)
        ensures
            r == self.label_of(),
    {
        let n: u64 = match self {
            CustomMessageLabel::TestCustomMessage => 0,
            CustomMessageLabel::SysCall => 1,
            CustomMessageLabel::Exit => 2,
        };
        CUSTOM_LABEL_START + n
    }
}


/// Requests served by the privileged coordinator.
#[derive(Debug, Clone, Copy, PartialEq, Eq, Structural)]
pub enum RootMessageLabel {
    /// Bind interrupt `irq` to the handler slot named in the caller's table.
    RegisterIRQ(u64, u64),
    /// Resolve the physical address behind a virtual address of the caller.
    TranslateAddr(u64),
    /// Bind an interrupt and deliver a fresh handler capability.
    RegisterIRQWithCap(u64),
}

impl RootMessageLabel {
    pub open spec fn index(self) -> u64 {
        match self {
            RootMessageLabel::RegisterIRQ(_, _) => 0,
            RootMessageLabel::TranslateAddr(_) => 1,
            RootMessageLabel::RegisterIRQWithCap(_) => 2,
        }
    }

    pub open spec fn label_of(self) -> u64 {
        (ROOT_LABEL_START + self.index()) as u64
    }

    pub open spec fn payload(self) -> Seq<u64> {
        match self {
            RootMessageLabel::RegisterIRQ(handler, irq) => seq![handler, irq],
            RootMessageLabel::TranslateAddr(addr) => seq![addr],
            RootMessageLabel::RegisterIRQWithCap(irq) => seq![irq],
        }
    }

    pub open spec fn decode(label: u64, regs: Seq<u64>) -> Option<RootMessageLabel> {
        if label == ROOT_LABEL_START && regs.len() >= 2 {
            Some(RootMessageLabel::RegisterIRQ(regs[0], regs[1]))
        } else if label == ROOT_LABEL_START + 1 && regs.len() >= 1 {
            Some(RootMessageLabel::TranslateAddr(regs[0]))
        } else if label == ROOT_LABEL_START + 2 && regs.len() >= 1 {
            Some(RootMessageLabel::RegisterIRQWithCap(regs[0]))
        } else {
            None
        }
    }

    /// Reads a coordination request; `None` for a label of another family
    /// or a payload shorter than the variant needs.
    pub fn try_from(message: &Message) -> (r: Option<RootMessageLabel>)
        ensures
            r == Self::decode(message.label, message.regs@),
    {
        let label = message.label;
        let regs = &message.regs;
        if label < ROOT_LABEL_START {
            return None;
        }
        match label - ROOT_LABEL_START {
            0 => if regs.len() >= 2 {
                Some(RootMessageLabel::RegisterIRQ(regs[0], regs[1]))
            } else {
                None
            },
            1 => if regs.len() >= 1 {
                Some(RootMessageLabel::TranslateAddr(regs[0]))
            } else {
                None
            },
            2 => if regs.len() >= 1 {
                Some(RootMessageLabel::RegisterIRQWithCap(regs[0]))
            } else {
                None
            },
            _ => None,
        }
    }

    pub fn to_label(&self) -> (r: u64)
        ensures
            r == self.label_of(),
    {
        let n: u64 = match self {
            RootMessageLabel::RegisterIRQ(_, _) => 0,
            RootMessageLabel::TranslateAddr(_) => 1,
            RootMessageLabel::RegisterIRQWithCap(_) => 2,
        };
        ROOT_LABEL_START + n
    }

    /// Encodes the request: its label and its payload, no capability.
    pub fn build(&self) -> (r: Message)
        ensures
            r.label == self.label_of(),
            r.regs@ == self.payload(),
            r.extra_caps == 0,
    {
        let regs = match self {
            RootMessageLabel::RegisterIRQ(handler, irq) => vec![*handler, *irq],
            RootMessageLabel::TranslateAddr(addr) => vec![*addr],
            RootMessageLabel::RegisterIRQWithCap(irq) => vec![*irq],
        };
        Message { label: self.to_label(), extra_caps: 0, regs }
    }
}

/// Requests served by the block-device task.
#[derive(Debug, Clone, Copy, PartialEq, Eq, Structural)]
pub enum BlkMessageLabel {
    Ping,
    /// Block index and number of blocks.
    ReadBlock(u64, u64),
    /// Block index and number of blocks.
    WriteBlock(u64, u64),
    NumBlock,
}

impl BlkMessageLabel {
    pub open spec fn index(self) -> u64 {
        match self {
            BlkMessageLabel::Ping => 0,
            BlkMessageLabel::ReadBlock(_, _) => 1,
            BlkMessageLabel::WriteBlock(_, _) => 2,
            BlkMessageLabel::NumBlock => 3,
        }
    }

    pub open spec fn label_of(self) -> u64 {
        (BLK_LABEL_START + self.index()) as u64
    }

    pub open spec fn payload(self) -> Seq<u64> {
        match self {
            BlkMessageLabel::Ping => seq![],
            BlkMessageLabel::ReadBlock(idx, num) => seq![idx, num],
            BlkMessageLabel::WriteBlock(idx, num) => seq![idx, num],
            BlkMessageLabel::NumBlock => seq![],
        }
    }

    pub open spec fn decode(label: u64, regs: Seq<u64>) -> Option<BlkMessageLabel> {
        if label == BLK_LABEL_START {
            Some(BlkMessageLabel::Ping)
        } else if label == BLK_LABEL_START + 1 && regs.len() >= 2 {
            Some(BlkMessageLabel::ReadBlock(regs[0], regs[1]))
        } else if label == BLK_LABEL_START + 2 && regs.len() >= 2 {
            Some(BlkMessageLabel::WriteBlock(regs[0], regs[1]))
        } else if label == BLK_LABEL_START + 3 {
            Some(BlkMessageLabel::NumBlock)
        } else {
            None
        }
    }

    /// Reads a block-I/O request; `None` for a label of another family or a
    /// payload shorter than the variant needs.
    pub fn try_from(message: &Message) -> (r: Option<BlkMessageLabel>)
        ensures
            r == Self::decode(message.label, message.regs@),
    {
        let label = message.label;
        let regs = &message.regs;
        if label < BLK_LABEL_START {
            return None;
        }
        match label - BLK_LABEL_START {
            0 => Some(BlkMessageLabel::Ping),
            1 => if regs.len() >= 2 {
                Some(BlkMessageLabel::ReadBlock(regs[0], regs[1]))
            } else {
                None
            },
            2 => if regs.len() >= 2 {
                Some(BlkMessageLabel::WriteBlock(regs[0], regs[1]))
            } else {
                None
            },
            3 => Some(BlkMessageLabel::NumBlock),
            _ => None,
        }
    }

    pub fn to_label(&self) -> (r: u64)
        ensures
            r == self.label_of(),
    {
        let n: u64 = match self {
            BlkMessageLabel::Ping => 0,
            BlkMessageLabel::ReadBlock(_, _) => 1,
            BlkMessageLabel::WriteBlock(_, _) => 2,
            BlkMessageLabel::NumBlock => 3,
        };
        BLK_LABEL_START + n
    }

    /// Encodes the request: its label and its payload, no capability.
    pub fn build(&self) -> (r: Message)
        ensures
            r.label == self.label_of(),
            r.regs@ == self.payload(),
            r.extra_caps == 0,
    {
        let regs = match self {
            BlkMessageLabel::Ping => vec![],
            BlkMessageLabel::ReadBlock(idx, num) => vec![*idx, *num],
            BlkMessageLabel::WriteBlock(idx, num) => vec![*idx, *num],
            BlkMessageLabel::NumBlock => vec![],
        };
        Message { label: self.to_label(), extra_caps: 0, regs }
    }
}


/// Requests served by the network task. A request that hands over a user
/// buffer or a socket address also transfers the frame that holds it.
#[derive(Debug, Clone, Copy, PartialEq, Eq, Structural)]
pub enum NetRequsetabel {
    New,
    IsNonBlocking(u64),
    SetNonBlocking(u64, u64),
    Bind(u64, u64),
    /// Socket id, buffer address, buffer length.
    Send(u64, u64, u64),
    Recv(u64, u64, u64),
    RecvTimeout(u64, u64, u64, u64),
    Connect(u64, u64),
    Listen(u64),
    Accept(u64),
    Shutdown(u64),
    Close(u64),
}

impl NetRequsetabel {
    pub open spec fn index(self) -> u64 {
        match self {
            NetRequsetabel::New => 0,
            NetRequsetabel::IsNonBlocking(_) => 1,
            NetRequsetabel::SetNonBlocking(_, _) => 2,
            NetRequsetabel::Bind(_, _) => 3,
            NetRequsetabel::Send(_, _, _) => 4,
            NetRequsetabel::Recv(_, _, _) => 5,
            NetRequsetabel::RecvTimeout(_, _, _, _) => 6,
            NetRequsetabel::Connect(_, _) => 7,
            NetRequsetabel::Listen(_) => 8,
            NetRequsetabel::Accept(_) => 9,
            NetRequsetabel::Shutdown(_) => 10,
            NetRequsetabel::Close(_) => 11,
        }
    }

    pub open spec fn label_of(self) -> u64 {
        (NET_LABEL_START + self.index()) as u64
    }

    pub open spec fn payload(self) -> Seq<u64> {
        match self {
            NetRequsetabel::New => seq![],
            NetRequsetabel::IsNonBlocking(id) => seq![id],
            NetRequsetabel::SetNonBlocking(id, nb) => seq![id, nb],
            NetRequsetabel::Bind(id, addr) => seq![id, addr],
            NetRequsetabel::Send(id, buf, len) => seq![id, buf, len],
            NetRequsetabel::Recv(id, buf, len) => seq![id, buf, len],
            NetRequsetabel::RecvTimeout(id, buf, len, deadline) => seq![id, buf, len, deadline],
            NetRequsetabel::Connect(id, addr) => seq![id, addr],
            NetRequsetabel::Listen(id) => seq![id],
            NetRequsetabel::Accept(id) => seq![id],
            NetRequsetabel::Shutdown(id) => seq![id],
            NetRequsetabel::Close(id) => seq![id],
        }
    }

    /// Whether the request carries the frame of a user buffer or address.
    pub open spec fn transfers_cap(self) -> bool {
        match self {
            NetRequsetabel::Bind(_, _) | NetRequsetabel::Send(_, _, _) | NetRequsetabel::Recv(
                _,
                _,
                _,
            ) | NetRequsetabel::RecvTimeout(_, _, _, _) | NetRequsetabel::Connect(_, _) => true,
            _ => false,
        }
    }

    pub open spec fn decode(label: u64, regs: Seq<u64>) -> Option<NetRequsetabel> {
        let b = NET_LABEL_START;
        if label == b {
            Some(NetRequsetabel::New)
        } else if label == b + 1 && regs.len() >= 1 {
            Some(NetRequsetabel::IsNonBlocking(regs[0]))
        } else if label == b + 2 && regs.len() >= 2 {
            Some(NetRequsetabel::SetNonBlocking(regs[0], regs[1]))
        } else if label == b + 3 && regs.len() >= 2 {
            Some(NetRequsetabel::Bind(regs[0], regs[1]))
        } else if label == b + 4 && regs.len() >= 3 {
            Some(NetRequsetabel::Send(regs[0], regs[1], regs[2]))
        } else if label == b + 5 && regs.len() >= 3 {
            Some(NetRequsetabel::Recv(regs[0], regs[1], regs[2]))
        } else if label == b + 6 && regs.len() >= 4 {
            Some(NetRequsetabel::RecvTimeout(regs[0], regs[1], regs[2], regs[3]))
        } else if label == b + 7 && regs.len() >= 2 {
            Some(NetRequsetabel::Connect(regs[0], regs[1]))
        } else if label == b + 8 && regs.len() >= 1 {
            Some(NetRequsetabel::Listen(regs[0]))
        } else if label == b + 9 && regs.len() >= 1 {
            Some(NetRequsetabel::Accept(regs[0]))
        } else if label == b + 10 && regs.len() >= 1 {
            Some(NetRequsetabel::Shutdown(regs[0]))
        } else if label == b + 11 && regs.len() >= 1 {
            Some(NetRequsetabel::Close(regs[0]))
        } else {
            None
        }
    }

    /// Reads a network request; `None` for a label of another family or a
    /// payload shorter than the variant needs.
    pub fn try_from(message: &Message) -> (r: Option<NetRequsetabel>)
        ensures
            r == Self::decode(message.label, message.regs@),
    {
        let label = message.label;
        let regs = &message.regs;
        let n = regs.len();
        if label < NET_LABEL_START {
            return None;
        }
        match label - NET_LABEL_START {
            0 => Some(NetRequsetabel::New),
            1 if n >= 1 => Some(NetRequsetabel::IsNonBlocking(regs[0])),
            2 if n >= 2 => Some(NetRequsetabel::SetNonBlocking(regs[0], regs[1])),
            3 if n >= 2 => Some(NetRequsetabel::Bind(regs[0], regs[1])),
            4 if n >= 3 => Some(NetRequsetabel::Send(regs[0], regs[1], regs[2])),
            5 if n >= 3 => Some(NetRequsetabel::Recv(regs[0], regs[1], regs[2])),
            6 if n >= 4 => Some(NetRequsetabel::RecvTimeout(regs[0], regs[1], regs[2], regs[3])),
            7 if n >= 2 => Some(NetRequsetabel::Connect(regs[0], regs[1])),
            8 if n >= 1 => Some(NetRequsetabel::Listen(regs[0])),
            9 if n >= 1 => Some(NetRequsetabel::Accept(regs[0])),
            10 if n >= 1 => Some(NetRequsetabel::Shutdown(regs[0])),
            11 if n >= 1 => Some(NetRequsetabel::Close(regs[0])),
            _ => None,
        }
    }

    pub fn to_label(&self) -> (r: u64)
        ensures
            r == self.label_of(),
    {
        let n: u64 = match self {
            NetRequsetabel::New => 0,
            NetRequsetabel::IsNonBlocking(_) => 1,
            NetRequsetabel::SetNonBlocking(_, _) => 2,
            NetRequsetabel::Bind(_, _) => 3,
            NetRequsetabel::Send(_, _, _) => 4,
            NetRequsetabel::Recv(_, _, _) => 5,
            NetRequsetabel::RecvTimeout(_, _, _, _) => 6,
            NetRequsetabel::Connect(_, _) => 7,
            NetRequsetabel::Listen(_) => 8,
            NetRequsetabel::Accept(_) => 9,
            NetRequsetabel::Shutdown(_) => 10,
            NetRequsetabel::Close(_) => 11,
        };
        NET_LABEL_START + n
    }

    /// Encodes the request: its label, its payload, and one transferred
    /// capability where the request hands over a user frame.
    pub fn build(&self) -> (r: Message)
        ensures
            r.label == self.label_of(),
            r.regs@ == self.payload(),
            r.extra_caps == (if self.transfers_cap() { 1u64 } else { 0u64 }),
    {
        let (regs, caps): (Vec<u64>, u64) = match self {
            NetRequsetabel::New => (vec![], 0),
            NetRequsetabel::IsNonBlocking(id) => (vec![*id], 0),
            NetRequsetabel::SetNonBlocking(id, nb) => (vec![*id, *nb], 0),
            NetRequsetabel::Bind(id, addr) => (vec![*id, *addr], 1),
            NetRequsetabel::Send(id, buf, len) => (vec![*id, *buf, *len], 1),
            NetRequsetabel::Recv(id, buf, len) => (vec![*id, *buf, *len], 1),
            NetRequsetabel::RecvTimeout(id, buf, len, deadline) => (
                vec![*id, *buf, *len, *deadline],
                1,
            ),
            NetRequsetabel::Connect(id, addr) => (vec![*id, *addr], 1),
            NetRequsetabel::Listen(id) => (vec![*id], 0),
            NetRequsetabel::Accept(id) => (vec![*id], 0),
            NetRequsetabel::Shutdown(id) => (vec![*id], 0),
            NetRequsetabel::Close(id) => (vec![*id], 0),
        };
        Message { label: self.to_label(), extra_caps: caps, regs }
    }
}

/// Decoding what a family encodes gives back the request.
pub proof fn lemma_encode_decode_round_trip(
    root: RootMessageLabel,
    blk: BlkMessageLabel,
    net: NetRequsetabel,
)
    ensures
        RootMessageLabel::decode(root.label_of(), root.payload()) == Some(root),
        BlkMessageLabel::decode(blk.label_of(), blk.payload()) == Some(blk),
        NetRequsetabel::decode(net.label_of(), net.payload()) == Some(net),
{
}

/// Each family decodes exactly the labels of its own range (given a payload
/// long enough for every variant), and the ranges of the families, and of
/// the kernel's fault records below them, do not overlap.
pub proof fn lemma_label_partition(label: u64, regs: Seq<u64>)
    requires
        regs.len() >= 4,
    ensures
        CustomMessageLabel::decode(label) is Some <==> family_offset(
            label,
            CUSTOM_LABEL_START,
            CUSTOM_LABEL_COUNT,
        ) is Some,
        RootMessageLabel::decode(label, regs) is Some <==> family_offset(
            label,
            ROOT_LABEL_START,
            ROOT_LABEL_COUNT,
        ) is Some,
        BlkMessageLabel::decode(label, regs) is Some <==> family_offset(
            label,
            BLK_LABEL_START,
            BLK_LABEL_COUNT,
        ) is Some,
        NetRequsetabel::decode(label, regs) is Some <==> family_offset(
            label,
            NET_LABEL_START,
            NET_LABEL_COUNT,
        ) is Some,
        CustomMessageLabel::decode(label) is Some ==> CustomMessageLabel::decode(label).unwrap().index()
            == label - CUSTOM_LABEL_START,
        RootMessageLabel::decode(label, regs) is Some ==> RootMessageLabel::decode(
            label,
            regs,
        ).unwrap().index() == label - ROOT_LABEL_START,
        BlkMessageLabel::decode(label, regs) is Some ==> BlkMessageLabel::decode(
            label,
            regs,
        ).unwrap().index() == label - BLK_LABEL_START,
        NetRequsetabel::decode(label, regs) is Some ==> NetRequsetabel::decode(
            label,
            regs,
        ).unwrap().index() == label - NET_LABEL_START,
        CUSTOM_LABEL_START + CUSTOM_LABEL_COUNT <= ROOT_LABEL_START,
        ROOT_LABEL_START + ROOT_LABEL_COUNT <= BLK_LABEL_START,
        BLK_LABEL_START + BLK_LABEL_COUNT <= NET_LABEL_START,
        FAULT_LABEL_LIMIT <= CUSTOM_LABEL_START,
{
}

} // verus!
