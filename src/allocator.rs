//! Carving kernel objects: capability slots are taken from a private,
//! append-only range organised as a two-level radix index, and each object
//! is retyped out of one untyped region selected at boot.

use vstd::prelude::*;

verus! {

/// Slots per second-level capability table (radix of 12 bits).
pub const CNODE_SLOTS: usize = 4096;
/// Radix, in bits, of the second-level tables the allocator creates.
pub const CNODE_RADIX_BITS: usize = 12;

/// The kinds of kernel object the allocator can produce.
#[derive(Debug, Clone, Copy, PartialEq, Eq, Structural)]
pub enum ObjectKind {
    Endpoint,
    Notification,
    Tcb,
    /// A capability table with `2^radix` slots.
    CNode(usize),
    VSpace,
    PageTable,
    /// A page frame of `2^size_bits` bytes.
    Frame(usize),
    /// An interrupt handler: only a slot, which the interrupt-control
    /// authority fills.
    IrqHandler,
}

impl ObjectKind {
    /// Whether the object is carved from untyped memory.
    pub open spec fn is_retyped(self) -> bool {
        !(self is IrqHandler)
    }

    /// The size argument handed to the retype call.
    pub open spec fn size_arg(self) -> usize {
        match self {
            ObjectKind::CNode(radix) => radix,
            ObjectKind::Frame(bits) => bits,
            _ => 0,
        }
    }
}

/// Where a freshly taken slot lies in the two-level index.
#[derive(Debug, Clone, Copy, PartialEq, Eq, Structural)]
pub struct SlotAlloc {
    /// The flat slot number.
    pub raw: usize,
    /// Which second-level table holds it.
    pub cnode_index: usize,
    /// The slot inside that table.
    pub slot_index: usize,
    /// The second-level table does not exist yet and must be carved (a
    /// `CNode` of radix `CNODE_RADIX_BITS` placed at `cnode_index` of the
    /// root) before anything is placed in it.
    pub new_table: bool,
}

impl SlotAlloc {
    pub open spec fn locates(self, raw: usize) -> bool {
        &&& self.raw == raw
        &&& self.cnode_index == raw / CNODE_SLOTS
        &&& self.slot_index == raw % CNODE_SLOTS
        &&& self.new_table == (raw % CNODE_SLOTS == 0)
    }
}

/// What the caller must do to materialise one object: fill the slot (first
/// creating its table when `slot.new_table`) by retyping `kind` with
/// `size_arg`, unless `retype` is false.
#[derive(Debug, Clone, Copy, PartialEq, Eq, Structural)]
pub struct Allocation {
    pub slot: SlotAlloc,
    pub kind: ObjectKind,
    pub size_arg: usize,
    pub retype: bool,
}

/// The allocator's state: the unused part `[next, end)` of its slot range
/// and the untyped region objects are carved from.
pub struct ObjectAllocator {
    pub next: usize,
    pub end: usize,
    pub untyped: u64,
}

impl ObjectAllocator {
    pub open spec fn wf(self) -> bool {
        self.next <= self.end
    }

    /// An allocator with no slots; `init` gives it its range.
    pub fn empty() -> (r: ObjectAllocator)
        ensures
            r.wf(),
            r.next == 0 && r.end == 0 && r.untyped == 0,
    {
        ObjectAllocator { next: 0, end: 0, untyped: 0 }
    }

    /// Hands the allocator the slot range `[start, end)` and the untyped
    /// region. An inverted range is taken as empty.
    pub fn init(&mut self, start: usize, end: usize, untyped: u64)
        ensures
            final(self).wf(),
            final(self).next == start,
            final(self).end == (if start <= end { end } else { start }),
            final(self).untyped == untyped,
    {
        self.next = start;
        self.end = if start <= end { end } else { start };
        self.untyped = untyped;
    }

    /// Takes the next slot of the range, flat, without the two-level index.
    /// `None` when the range is used up.
    pub fn allocate_normal_cap(&mut self) -> (r: Option<usize>)
        requires
            old(self).wf(),
        ensures
            final(self).wf(),
            final(self).end == old(self).end,
            final(self).untyped == old(self).untyped,
            old(self).next < old(self).end ==> r == Some(old(self).next) && final(self).next
                == old(self).next + 1,
            old(self).next >= old(self).end ==> r is None && final(self).next == old(self).next,
    {
        if self.next < self.end {
            let slot = self.next;
            self.next = self.next + 1;
            Some(slot)
        } else {
            None
        }
    }

    /// Takes the next slot and locates it in the two-level index. `None`
    /// when the range is used up, which the caller treats as fatal.
    pub fn allocate_slot(&mut self) -> (r: Option<SlotAlloc>)
        requires
            old(self).wf(),
        ensures
            final(self).wf(),
            final(self).end == old(self).end,
            final(self).untyped == old(self).untyped,
            old(self).next < old(self).end ==> r is Some && r.unwrap().locates(old(self).next)
                && final(self).next == old(self).next + 1,
            old(self).next >= old(self).end ==> r is None && final(self).next == old(self).next,
    {
        match self.allocate_normal_cap() {
            Some(raw) => {
                let slot_index = raw % CNODE_SLOTS;
                Some(
                    SlotAlloc {
                        raw,
                        cnode_index: raw / CNODE_SLOTS,
                        slot_index,
                        new_table: slot_index == 0,
                    },
                )
            },
            None => None,
        }
    }

    /// Plans one object of the given kind in a fresh slot. `None` when the
    /// slot range is used up.
    pub fn allocate(&mut self, kind: ObjectKind) -> (r: Option<Allocation>)
        requires
            old(self).wf(),
        ensures
            final(self).wf(),
            final(self).end == old(self).end,
            final(self).untyped == old(self).untyped,
            old(self).next < old(self).end ==> r is Some && r.unwrap().slot.locates(old(self).next)
                && r.unwrap().kind == kind && r.unwrap().size_arg == kind.size_arg()
                && r.unwrap().retype == kind.is_retyped() && final(self).next == old(self).next
                + 1,
            old(self).next >= old(self).end ==> r is None && final(self).next == old(self).next,
    {
        let size_arg = match kind {
            ObjectKind::CNode(radix) => radix,
            ObjectKind::Frame(bits) => bits,
            _ => 0,
        };
        let retype = match kind {
            ObjectKind::IrqHandler => false,
            _ => true,
        };
        match self.allocate_slot() {
            Some(slot) => Some(Allocation { slot, kind, size_arg, retype }),
            None => None,
        }
    }
}

/// One untyped memory region as the boot protocol describes it.
#[derive(Debug, Clone, Copy, PartialEq, Eq, Structural)]
pub struct UntypedDesc {
    pub paddr: usize,
    pub size_bits: u8,
    pub is_device: bool,
}

/// `k` is the last of the largest general-purpose regions of `list`.
pub open spec fn is_largest_untyped(list: Seq<UntypedDesc>, k: int) -> bool {
    &&& 0 <= k < list.len()
    &&& !list[k].is_device
    &&& forall|i: int|
        0 <= i < list.len() && !list[i].is_device ==> list[i].size_bits <= list[k].size_bits
    &&& forall|i: int|
        k < i < list.len() && !list[i].is_device ==> list[i].size_bits < list[k].size_bits
}

/// Picks the region that objects are carved from: the largest
/// general-purpose region (the last one among equals), by its position in
/// the list; `None` when every region is device memory.
pub fn find_largest_untyped(list: &Vec<UntypedDesc>) -> (r: Option<usize>)
    ensures
        r is None <==> forall|i: int| 0 <= i < list@.len() ==> list@[i].is_device,
        r matches Some(k) ==> is_largest_untyped(list@, k as int),
{
    let mut best: Option<usize> = None;
    let mut i: usize = 0;
    while i < list.len()
        invariant
            i <= list@.len(),
            best is None <==> forall|j: int| 0 <= j < i ==> list@[j].is_device,
            best matches Some(k) ==> {
                &&& k < i
                &&& !list@[k as int].is_device
                &&& forall|j: int|
                    0 <= j < i && !list@[j].is_device ==> list@[j].size_bits
                        <= list@[k as int].size_bits
                &&& forall|j: int|
                    k < j < i && !list@[j].is_device ==> list@[j].size_bits
                        < list@[k as int].size_bits
            },
        decreases list@.len() - i,
    {
        let d = list[i];
        if !d.is_device {
            match best {
                Some(k) => {
                    if d.size_bits >= list[k].size_bits {
                        best = Some(i);
                    }
                },
                None => {
                    best = Some(i);
                },
            }
        }
        i = i + 1;
    }
    best
}

} // verus!
