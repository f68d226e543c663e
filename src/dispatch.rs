//! The receive-decode-act-reply loop's decisions: which family a message
//! belongs to, what the coordinator does for each request, and the
//! requester's side of the interrupt handshake.

use vstd::prelude::*;
use crate::fault::FaultRecord;
use crate::label::{
    BlkMessageLabel, CustomMessageLabel, Message, NetRequsetabel, RootMessageLabel,
    FAULT_LABEL_LIMIT,
};
use crate::page::PAGE_SIZE;
use crate::syscall::{error_word, neg_errno, ENOSYS};

verus! {

/// A received message, by the first family whose labels it falls in.
#[derive(Debug, Clone, Copy, PartialEq, Eq, Structural)]
pub enum Request {
    Fault(FaultRecord),
    Runtime(CustomMessageLabel),
    Coordination(RootMessageLabel),
    Block(BlkMessageLabel),
    Network(NetRequsetabel),
    /// No family decodes it; the caller is answered with an error.
    Unknown,
}

pub open spec fn classify_spec(label: u64, regs: Seq<u64>) -> Request {
    if label < FAULT_LABEL_LIMIT {
        Request::Fault(FaultRecord::decode(label, regs))
    } else if CustomMessageLabel::decode(label) is Some {
        Request::Runtime(CustomMessageLabel::decode(label).unwrap())
    } else if RootMessageLabel::decode(label, regs) is Some {
        Request::Coordination(RootMessageLabel::decode(label, regs).unwrap())
    } else if BlkMessageLabel::decode(label, regs) is Some {
        Request::Block(BlkMessageLabel::decode(label, regs).unwrap())
    } else if NetRequsetabel::decode(label, regs) is Some {
        Request::Network(NetRequsetabel::decode(label, regs).unwrap())
    } else {
        Request::Unknown
    }
}

/// Decodes a message: fault record first, then the runtime, coordination
/// and I/O families in turn.
pub fn classify(message: &Message) -> (r: Request)
    ensures
        r == classify_spec(message.label, message.regs@),
{
    if message.label < FAULT_LABEL_LIMIT {
        return Request::Fault(FaultRecord::from_message(message));
    }
    if let Some(m) = CustomMessageLabel::try_from(message) {
        return Request::Runtime(m);
    }
    if let Some(m) = RootMessageLabel::try_from(message) {
        return Request::Coordination(m);
    }
    if let Some(m) = BlkMessageLabel::try_from(message) {
        return Request::Block(m);
    }
    if let Some(m) = NetRequsetabel::try_from(message) {
        return Request::Network(m);
    }
    Request::Unknown
}

/// The answer to a message that no family decodes: a "not implemented"
/// error rather than silence.
pub fn unknown_request_reply() -> (r: Message)
    ensures
        r.label == 0,
        r.extra_caps == 0,
        r.regs@ == seq![neg_errno(ENOSYS)],
{
    let word = error_word(ENOSYS);
    Message { label: 0, extra_caps: 0, regs: vec![word] }
}

/// The physical address of `vaddr`, given the physical address of the
/// frame that backs its page.
pub open spec fn physical_address(frame_paddr: u64, vaddr: u64) -> int {
    frame_paddr + vaddr % PAGE_SIZE
}

/// The coordinator's reply to a translation request: the physical address
/// behind `vaddr`, carried as a translation message.
pub fn translate_reply(frame_paddr: u64, vaddr: u64) -> (r: Message)
    requires
        frame_paddr % PAGE_SIZE == 0,
        frame_paddr as int + PAGE_SIZE <= u64::MAX,
    ensures
        r.label == RootMessageLabel::TranslateAddr(0).label_of(),
        r.regs@ == seq![physical_address(frame_paddr, vaddr) as u64],
        r.extra_caps == 0,
{
    let paddr = frame_paddr + vaddr % PAGE_SIZE;
    RootMessageLabel::TranslateAddr(paddr).build()
}

/// The requester's progress through the interrupt handshake.
#[derive(Debug, Clone, Copy, PartialEq, Eq, Structural)]
pub enum IrqPhase {
    Idle,
    /// The request for interrupt `irq` was acknowledged.
    Requested(u64),
    /// The handler capability arrived in the armed receive slot.
    HandlerReceived(u64),
    /// The handler signals `notification`.
    Bound { irq: u64, notification: u64 },
}

/// The requester's view of one interrupt: the handshake phase and whether
/// a signal is pending on the bound notification. Signals coalesce: any
/// number before a wait count as one wakeup.
#[derive(Debug, Clone, Copy, PartialEq, Eq, Structural)]
pub struct IrqClient {
    pub phase: IrqPhase,
    pub pending: bool,
}

/// An event the requester observes once its handler is bound.
#[derive(Debug, Clone, Copy, PartialEq, Eq, Structural)]
pub enum NotificationEvent {
    /// The kernel signals this notification object.
    Signal(u64),
}

impl IrqClient {
    pub open spec fn after_signal(self, notification: u64) -> IrqClient {
        match self.phase {
            IrqPhase::Bound { notification: n, .. } => if n == notification {
                IrqClient { pending: true, ..self }
            } else {
                self
            },
            _ => self,
        }
    }

    pub open spec fn run(self, events: Seq<NotificationEvent>) -> IrqClient
        decreases events.len(),
    {
        if events.len() == 0 {
            self
        } else {
            match events.last() {
                NotificationEvent::Signal(n) => self.run(events.drop_last()).after_signal(n),
            }
        }
    }

    pub fn new() -> (r: IrqClient)
        ensures
            r.phase == IrqPhase::Idle && !r.pending,
    {
        IrqClient { phase: IrqPhase::Idle, pending: false }
    }

    /// Asks the coordinator for interrupt `irq`; returns the request to
    /// send.
    pub fn request(&mut self, irq: u64) -> (r: Message)
        ensures
            final(self).phase == IrqPhase::Requested(irq),
            !final(self).pending,
            r.label == RootMessageLabel::RegisterIRQWithCap(irq).label_of(),
            r.regs@ == seq![irq],
            r.extra_caps == 0,
    {
        self.phase = IrqPhase::Requested(irq);
        self.pending = false;
        RootMessageLabel::RegisterIRQWithCap(irq).build()
    }

    /// The coordinator's second call delivered the handler capability into
    /// the armed slot. Ignored unless a request is outstanding.
    pub fn handler_received(&mut self)
        ensures
            old(self).phase matches IrqPhase::Requested(irq) ==> final(self).phase
                == IrqPhase::HandlerReceived(irq),
            !(old(self).phase is Requested) ==> final(self).phase == old(self).phase,
            final(self).pending == old(self).pending,
    {
        if let IrqPhase::Requested(irq) = self.phase {
            self.phase = IrqPhase::HandlerReceived(irq);
        }
    }

    /// The handler now signals `notification`. Ignored unless the handler
    /// has arrived.
    pub fn bind(&mut self, notification: u64)
        ensures
            old(self).phase matches IrqPhase::HandlerReceived(irq) ==> final(self).phase
                == (IrqPhase::Bound { irq, notification }) && !final(self).pending,
            !(old(self).phase is HandlerReceived) ==> *final(self) == *old(self),
    {
        if let IrqPhase::HandlerReceived(irq) = self.phase {
            self.phase = IrqPhase::Bound { irq, notification };
            self.pending = false;
        }
    }

    /// The kernel signalled `notification`.
    pub fn signal(&mut self, notification: u64)
        ensures
            *final(self) == old(self).after_signal(notification),
    {
        if let IrqPhase::Bound { notification: n, .. } = self.phase {
            if n == notification {
                self.pending = true;
            }
        }
    }

    /// A wait on the bound notification: returns whether it unblocks now,
    /// consuming the pending signal.
    pub fn try_wait(&mut self) -> (r: bool)
        ensures
            r == (old(self).pending && old(self).phase is Bound),
            final(self).phase == old(self).phase,
            !(old(self).phase is Bound) ==> final(self).pending == old(self).pending,
            old(self).phase is Bound ==> !final(self).pending,
    {
        if let IrqPhase::Bound { .. } = self.phase {
            let r = self.pending;
            self.pending = false;
            r
        } else {
            false
        }
    }
}

/// After the handshake binds the handler to notification `n`, a wait
/// unblocks exactly when some signal on `n` came since, never before and
/// never for a signal on another notification; signals coalesce into one
/// wakeup.
pub proof fn lemma_irq_handshake(irq: u64, n: u64, events: Seq<NotificationEvent>)
    ensures
        ({
            let bound = IrqClient { phase: IrqPhase::Bound { irq, notification: n }, pending: false };
            let after = bound.run(events);
            &&& after.phase == bound.phase
            &&& after.pending <==> events.contains(NotificationEvent::Signal(n))
        }),
    decreases events.len(),
{
    let bound = IrqClient { phase: IrqPhase::Bound { irq, notification: n }, pending: false };
    if events.len() > 0 {
        lemma_irq_handshake(irq, n, events.drop_last());
        let prev = events.drop_last();
        assert(events =~= prev.push(events.last()));
        if events.contains(NotificationEvent::Signal(n)) {
            let k = choose|k: int| 0 <= k < events.len() && events[k] == NotificationEvent::Signal(n);
            if k < events.len() - 1 {
                assert(prev[k] == events[k]);
            }
        }
        if prev.contains(NotificationEvent::Signal(n)) {
            let k = choose|k: int| 0 <= k < prev.len() && prev[k] == NotificationEvent::Signal(n);
            assert(events[k] == prev[k]);
        }
    } else {
        assert(!events.contains(NotificationEvent::Signal(n)));
    }
}

} // verus!
