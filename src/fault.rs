//! Demand paging: fault records written by the kernel, and what the
//! supervisor does about each.

use vstd::prelude::*;
use crate::label::{Message, FAULT_LABEL_LIMIT};
use crate::page::{page_aligned, page_of, page_floor};
use crate::task::{lemma_page_map_finite, Sel4Task};

verus! {

/// Label of a virtual-memory fault record.
pub const VM_FAULT_LABEL: u64 = 5;
/// Registers of a virtual-memory fault record: faulting instruction,
/// faulting address, instruction-fetch flag, fault status.
pub const VM_FAULT_LENGTH: usize = 4;

/// A fault record, read with the kernel's fixed layout.
#[derive(Debug, Clone, Copy, PartialEq, Eq, Structural)]
pub enum FaultRecord {
    /// A translation for `addr` is missing (or refused).
    VmFault { ip: u64, addr: u64, prefetch: u64, fsr: u64 },
    /// Any other fault class, by its label.
    Other(u64),
}

/// What the supervisor does about a fault.
#[derive(Debug, Clone, Copy, PartialEq, Eq, Structural)]
pub enum FaultAction {
    /// Back this page with a fresh frame, map and record it, then resume
    /// the faulting thread.
    MapFresh(u64),
    /// The fault cannot be recovered: the task is killed, that is marked
    /// exited with `FAULT_EXIT_CODE` and torn down (`Sel4Task::kill`).
    Kill,
    /// The task has already exited or been torn down: nothing is served
    /// for it any more.
    Ignore,
}

/// Exit status of a task killed by an unrecoverable fault, as a shell
/// reports a death by a segmentation fault.
pub const FAULT_EXIT_CODE: i32 = 139;

impl FaultRecord {
    pub open spec fn decode(label: u64, regs: Seq<u64>) -> FaultRecord {
        if label == VM_FAULT_LABEL && regs.len() >= VM_FAULT_LENGTH {
            FaultRecord::VmFault { ip: regs[0], addr: regs[1], prefetch: regs[2], fsr: regs[3] }
        } else {
            FaultRecord::Other(label)
        }
    }

    /// Reads a fault record; only meaningful for labels below
    /// `FAULT_LABEL_LIMIT`.
    pub fn from_message(message: &Message) -> (r: FaultRecord)
        requires
            message.label < FAULT_LABEL_LIMIT,
        ensures
            r == Self::decode(message.label, message.regs@),
    {
        let regs = &message.regs;
        if message.label == VM_FAULT_LABEL && regs.len() >= VM_FAULT_LENGTH {
            FaultRecord::VmFault { ip: regs[0], addr: regs[1], prefetch: regs[2], fsr: regs[3] }
        } else {
            FaultRecord::Other(message.label)
        }
    }
}

pub open spec fn fault_action(t: Sel4Task, fault: FaultRecord) -> FaultAction {
    if t.exit is Some || t.torn_down {
        FaultAction::Ignore
    } else {
        match fault {
            FaultRecord::VmFault { addr, .. } => FaultAction::MapFresh(page_of(addr)),
            FaultRecord::Other(_) => FaultAction::Kill,
        }
    }
}

/// Decides what to do about a fault of `task`: a missing translation in a
/// running task is served by mapping a fresh frame at the faulting page;
/// any other fault kills the task.
pub fn handle_fault(task: &Sel4Task, fault: &FaultRecord) -> (r: FaultAction)
    ensures
        r == fault_action(*task, *fault),
        r matches FaultAction::MapFresh(p) ==> page_aligned(p),
{
    if task.exit.is_some() || task.torn_down {
        return FaultAction::Ignore;
    }
    match fault {
        FaultRecord::VmFault { addr, .. } => FaultAction::MapFresh(page_floor(*addr)),
        FaultRecord::Other(_) => FaultAction::Kill,
    }
}

/// A missing translation at an unmapped address `a` of a running task is
/// served by mapping one fresh frame at the page holding `a`: once it is
/// recorded (`after` being the task as `record_page` leaves it), the record
/// has gained exactly that page, and `a` translates, so it cannot fault
/// again for want of a translation.
pub proof fn lemma_fault_convergence(
    t: Sel4Task,
    after: Sel4Task,
    ip: u64,
    a: u64,
    prefetch: u64,
    fsr: u64,
    f: u64,
)
    requires
        t.wf(),
        t.exit is None,
        !t.torn_down,
        !t.pages().contains_key(page_of(a)),
        after.pages() == t.pages().insert(page_of(a), f),
    ensures
        fault_action(t, FaultRecord::VmFault { ip, addr: a, prefetch, fsr })
            == FaultAction::MapFresh(page_of(a)),
        page_aligned(page_of(a)),
        after.pages().dom() == t.pages().dom().insert(page_of(a)),
        after.pages().dom().len() == t.pages().dom().len() + 1,
        after.translation(a) == Some(f),
{
    lemma_page_map_finite(t.mapped_page@);
    assert(after.pages().dom() =~= t.pages().dom().insert(page_of(a)));
}

} // verus!
