//! A task's capabilities and the record of what is mapped in its address
//! space. The kernel calls that install frames and tables are made by the
//! caller; this record is what later lookups, heap growth, address
//! translation and teardown rely on.

use vstd::prelude::*;
use crate::page::{
    align_down, align_up, page_aligned, page_of, page_floor, PAGE_SIZE, NUM_LEVELS, USPACE_HEAP_BASE,
    MMAP_DEFAULT_ADDR,
};

verus! {

/// The mapping that a list of `(page address, frame)` records describes.
pub open spec fn page_map(entries: Seq<(u64, u64)>) -> Map<u64, u64>
    decreases entries.len(),
{
    if entries.len() == 0 {
        Map::empty()
    } else {
        page_map(entries.drop_last()).insert(entries.last().0, entries.last().1)
    }
}

/// No page address is recorded twice.
pub open spec fn keys_unique(entries: Seq<(u64, u64)>) -> bool {
    forall|i: int, j: int|
        0 <= i < j < entries.len() ==> entries[i].0 != entries[j].0
}

/// The frames of a list of records, in order.
pub open spec fn frames_of(entries: Seq<(u64, u64)>) -> Seq<u64> {
    entries.map_values(|e: (u64, u64)| e.1)
}

/// Looks a page up in a mapping.
pub open spec fn lookup(m: Map<u64, u64>, page: u64) -> Option<u64> {
    if m.contains_key(page) {
        Some(m[page])
    } else {
        None
    }
}

proof fn lemma_page_map_has(entries: Seq<(u64, u64)>, i: int)
    requires
        keys_unique(entries),
        0 <= i < entries.len(),
    ensures
        page_map(entries).contains_key(entries[i].0),
        page_map(entries)[entries[i].0] == entries[i].1,
    decreases entries.len(),
{
    if i < entries.len() - 1 {
        lemma_page_map_has(entries.drop_last(), i);
    }
}

proof fn lemma_page_map_absent(entries: Seq<(u64, u64)>, k: u64)
    requires
        forall|i: int| 0 <= i < entries.len() ==> entries[i].0 != k,
    ensures
        !page_map(entries).contains_key(k),
    decreases entries.len(),
{
    if entries.len() > 0 {
        lemma_page_map_absent(entries.drop_last(), k);
    }
}

proof fn lemma_page_map_update(entries: Seq<(u64, u64)>, i: int, f: u64)
    requires
        keys_unique(entries),
        0 <= i < entries.len(),
    ensures
        page_map(entries.update(i, (entries[i].0, f))) == page_map(entries).insert(
            entries[i].0,
            f,
        ),
    decreases entries.len(),
{
    let updated = entries.update(i, (entries[i].0, f));
    if i == entries.len() - 1 {
        assert(updated.drop_last() =~= entries.drop_last());
        assert(page_map(updated) =~= page_map(entries).insert(entries[i].0, f));
    } else {
        assert(updated.drop_last() =~= entries.drop_last().update(i, (entries[i].0, f)));
        lemma_page_map_update(entries.drop_last(), i, f);
        assert(page_map(updated) =~= page_map(entries).insert(entries[i].0, f));
    }
}

proof fn lemma_page_map_remove(entries: Seq<(u64, u64)>, i: int)
    requires
        keys_unique(entries),
        0 <= i < entries.len(),
    ensures
        page_map(entries.remove(i)) == page_map(entries).remove(entries[i].0),
    decreases entries.len(),
{
    let k = entries[i].0;
    if i == entries.len() - 1 {
        assert(entries.remove(i) =~= entries.drop_last());
        lemma_page_map_absent(entries.drop_last(), k);
        assert(page_map(entries.remove(i)) =~= page_map(entries).remove(k));
    } else {
        let rest = entries.remove(i);
        assert(rest.drop_last() =~= entries.drop_last().remove(i));
        assert(rest.last() == entries.last());
        lemma_page_map_remove(entries.drop_last(), i);
        assert(page_map(rest) =~= page_map(entries).remove(k));
    }
}

pub proof fn lemma_page_map_finite(entries: Seq<(u64, u64)>)
    ensures
        page_map(entries).dom().finite(),
    decreases entries.len(),
{
    if entries.len() > 0 {
        lemma_page_map_finite(entries.drop_last());
    }
}

proof fn lemma_page_map_push(entries: Seq<(u64, u64)>, e: (u64, u64))
    ensures
        page_map(entries.push(e)) == page_map(entries).insert(e.0, e.1),
{
    assert(entries.push(e).drop_last() =~= entries);
}

/// Result of one attempt to install a frame.
#[derive(Debug, Clone, Copy, PartialEq, Eq, Structural)]
pub enum MapOutcome {
    Mapped,
    /// An intermediate translation table is missing.
    MissingTable,
    /// Any other refusal by the kernel.
    Failed,
}

/// What to do after an attempt to install a frame.
#[derive(Debug, Clone, Copy, PartialEq, Eq, Structural)]
pub enum MapAction {
    /// Record the mapping with `record_page`.
    Record,
    /// Carve one page table, install it at the address, record it with
    /// `record_table`, and try again.
    InstallTable,
    /// The mapping cannot be made; the owning task aborts.
    Abort,
}

/// What the heap must do for one `brk` request: the pages to back with
/// fresh frames (each to be mapped and recorded), and the watermark that
/// is returned to the caller.
pub struct BrkPlan {
    pub watermark: u64,
    pub pages: Vec<u64>,
}

/// How many of the addresses `start, start + PAGE_SIZE, ...` lie below
/// `end`.
pub open spec fn page_count_between(start: int, end: int) -> nat {
    if start < end {
        ((end - start + PAGE_SIZE - 1) / PAGE_SIZE as int) as nat
    } else {
        0
    }
}

/// The page addresses `start, start + PAGE_SIZE, ...` below `end`.
pub open spec fn pages_between(start: int, end: int) -> Seq<u64> {
    Seq::new(page_count_between(start, end), |k: int| (start + k * PAGE_SIZE) as u64)
}

/// The pages that hold some byte of `[start, end)`, lowest first.
pub fn page_range(start: u64, end: u64) -> (r: Vec<u64>)
    requires
        start <= end,
        end as int + PAGE_SIZE <= u64::MAX,
    ensures
        r@ == pages_between(align_down(start as int, PAGE_SIZE as int), end as int),
{
    let ghost all = pages_between(align_down(start as int, PAGE_SIZE as int), end as int);
    let start = page_floor(start);
    let mut out: Vec<u64> = Vec::new();
    let mut p = start;
    proof {
        if start < end {
            assert((end - start + 4096 - 1) / 4096 <= 0x10_0000_0000_0000) by (nonlinear_arith)
                requires
                    start < end,
                    end <= u64::MAX,
            ;
        }
    }
    while p < end
        invariant
            all == pages_between(start as int, end as int),
            end as int + PAGE_SIZE <= u64::MAX,
            start <= p <= end + PAGE_SIZE,
            p == start + out@.len() * PAGE_SIZE,
            out@.len() > 0 ==> p - PAGE_SIZE < end,
            out@ =~= Seq::new(out@.len(), |k: int| (start + k * PAGE_SIZE) as u64),
        decreases end + PAGE_SIZE - p,
    {
        out.push(p);
        p = p + PAGE_SIZE;
    }
    proof {
        let n = out@.len() as int;
        if start < end {
            assert(n > 0);
            assert((end - start + 4096 - 1) / 4096 == n) by (nonlinear_arith)
                requires
                    start + (n - 1) * 4096 < end <= start + n * 4096,
            ;
        }
        assert(out@ =~= all);
    }
    out
}

/// The watermark that `brk(value)` leaves and returns when the current
/// watermark is `heap`: `0` queries it, any other value becomes it.
pub open spec fn brk_watermark(heap: u64, value: u64) -> u64 {
    if value == 0 {
        heap
    } else {
        value
    }
}

/// The pages among `[start, end)` that `pages` does not record yet.
pub open spec fn unrecorded_between(pages: Map<u64, u64>, start: int, end: int) -> Seq<u64> {
    pages_between(start, end).filter(|p: u64| !pages.contains_key(p))
}

/// The pages that `brk(value)` backs with fresh frames: those that start
/// at or above the current watermark and below the new one, and are not
/// mapped yet (a heap shrunk and grown again keeps its old pages).
pub open spec fn brk_pages(pages: Map<u64, u64>, heap: u64, value: u64) -> Seq<u64> {
    if value > heap {
        unrecorded_between(pages, align_up(heap as int, PAGE_SIZE as int), value as int)
    } else {
        seq![]
    }
}

/// Slot of a task's own thread-control capability.
pub const INIT_TCB_SLOT: u64 = 1;
/// Slot of a task's own capability-table root.
pub const INIT_CNODE_SLOT: u64 = 2;
/// Slot of a task's own address-space root.
pub const INIT_VSPACE_SLOT: u64 = 3;
/// Slot of the address-space-identifier control authority.
pub const INIT_ASID_CONTROL_SLOT: u64 = 5;
/// Slot of the address-space-identifier pool.
pub const INIT_ASID_POOL_SLOT: u64 = 6;
/// Slot of the endpoint a task sends faults and requests to.
pub const DEFAULT_THREAD_FAULT_EP: u64 = 18;
/// Slot armed to receive a transferred capability.
pub const DEFAULT_THREAD_RECV_SLOT: u64 = 19;
/// Slot of the endpoint for interrupt registration.
pub const DEFAULT_THREAD_IRQ_EP: u64 = 20;
/// Bits in a capability address.
pub const WORD_BITS: u64 = 64;

/// One capability operation into the new task's table: the source is a
/// capability of the caller, the destination a slot of the task.
#[derive(Debug, Clone, Copy, PartialEq, Eq, Structural)]
pub enum CapOp {
    /// Copy with a badge (for endpoints) or with guard data (for a
    /// capability table, `data` being the guard size in bits).
    Mint { dest: u64, src: u64, data: u64 },
    Copy { dest: u64, src: u64 },
}

/// The operations that make a task runnable, in order.
pub open spec fn configure_ops(
    t: Sel4Task,
    fault_ep: u64,
    irq_ep: u64,
    badge: u64,
    radix_bits: u64,
    asid_pool: u64,
    asid_control: u64,
) -> Seq<CapOp> {
    seq![
        CapOp::Mint { dest: DEFAULT_THREAD_FAULT_EP, src: fault_ep, data: badge },
        CapOp::Mint { dest: DEFAULT_THREAD_IRQ_EP, src: irq_ep, data: badge },
        CapOp::Copy { dest: INIT_ASID_POOL_SLOT, src: asid_pool },
        CapOp::Copy { dest: INIT_ASID_CONTROL_SLOT, src: asid_control },
        CapOp::Mint { dest: INIT_CNODE_SLOT, src: t.cnode, data: (WORD_BITS - radix_bits) as u64 },
        CapOp::Copy { dest: INIT_TCB_SLOT, src: t.tcb },
        CapOp::Copy { dest: INIT_VSPACE_SLOT, src: t.vspace },
    ]
}

/// A task: its root capabilities, the tables and frames installed in its
/// address space, its heap watermark and its exit status.
pub struct Sel4Task {
    /// Identity, used as the badge of its endpoint capabilities.
    pub id: u64,
    pub parent: u64,
    pub tcb: u64,
    pub cnode: u64,
    pub vspace: u64,
    /// Page tables installed on the task's behalf.
    pub mapped_pt: Vec<u64>,
    /// `(page address, frame)` for every mapped page.
    pub mapped_page: Vec<(u64, u64)>,
    /// The heap watermark.
    pub heap: u64,
    /// `None` while the task runs.
    pub exit: Option<i32>,
    /// Address registered with `set_tid_address`.
    pub clear_child_tid: Option<u64>,
    /// Set once its capabilities have been handed out for deletion.
    pub torn_down: bool,
    /// Where the next anonymous mapping without an address goes.
    pub mmap_top: u64,
}

impl Sel4Task {
    pub open spec fn pages(self) -> Map<u64, u64> {
        page_map(self.mapped_page@)
    }

    pub open spec fn frames(self) -> Seq<u64> {
        frames_of(self.mapped_page@)
    }

    pub open spec fn is_root(self, c: u64) -> bool {
        c == self.tcb || c == self.cnode || c == self.vspace
    }

    /// The task holds capability `c`.
    pub open spec fn owns(self, c: u64) -> bool {
        self.is_root(c) || self.mapped_pt@.contains(c) || self.frames().contains(c)
    }

    /// Every capability the task holds is held once.
    pub open spec fn caps_distinct(self) -> bool {
        &&& self.tcb != self.cnode && self.tcb != self.vspace && self.cnode != self.vspace
        &&& self.mapped_pt@.no_duplicates()
        &&& self.frames().no_duplicates()
        &&& forall|c: u64| #[trigger]
            self.mapped_pt@.contains(c) ==> !self.is_root(c) && !self.frames().contains(c)
        &&& forall|c: u64| #[trigger] self.frames().contains(c) ==> !self.is_root(c)
    }

    pub open spec fn wf(self) -> bool {
        &&& keys_unique(self.mapped_page@)
        &&& forall|i: int|
            0 <= i < self.mapped_page@.len() ==> page_aligned(#[trigger] self.mapped_page@[i].0)
        &&& self.caps_distinct()
        &&& self.heap as int + PAGE_SIZE <= u64::MAX
        &&& page_aligned(self.mmap_top)
        &&& self.torn_down ==> self.mapped_pt@.len() == 0 && self.mapped_page@.len() == 0
    }

    /// The capabilities that teardown revokes and deletes.
    pub open spec fn teardown_caps(self) -> Seq<u64> {
        if self.torn_down {
            seq![]
        } else {
            seq![self.tcb, self.cnode, self.vspace] + self.mapped_pt@ + self.frames()
        }
    }

    /// The frame that backs the page holding `vaddr`.
    pub open spec fn translation(self, vaddr: u64) -> Option<u64> {
        lookup(self.pages(), page_of(vaddr))
    }

    /// A running task over the three root capabilities, with nothing mapped
    /// and the heap watermark at the heap's base.
    pub fn new(id: u64, parent: u64, tcb: u64, cnode: u64, vspace: u64) -> (r: Sel4Task)
        requires
            tcb != cnode && tcb != vspace && cnode != vspace,
        ensures
            r.wf(),
            r.id == id && r.parent == parent,
            r.tcb == tcb && r.cnode == cnode && r.vspace == vspace,
            r.pages() == Map::<u64, u64>::empty(),
            r.mapped_pt@ == Seq::<u64>::empty(),
            r.heap == USPACE_HEAP_BASE,
            r.exit is None && r.clear_child_tid is None && !r.torn_down,
            r.mmap_top == MMAP_DEFAULT_ADDR,
    {
        let r = Sel4Task {
            id,
            parent,
            tcb,
            cnode,
            vspace,
            mapped_pt: Vec::new(),
            mapped_page: Vec::new(),
            heap: USPACE_HEAP_BASE,
            mmap_top: MMAP_DEFAULT_ADDR,
            exit: None,
            clear_child_tid: None,
            torn_down: false,
        };
        assert(r.frames() =~= Seq::<u64>::empty());
        r
    }

    /// Position of the record for `page`, if any.
    fn find_page(&self, page: u64) -> (r: Option<usize>)
        ensures
            r matches Some(i) ==> i < self.mapped_page@.len() && self.mapped_page@[i as int].0
                == page,
            r is None ==> forall|i: int|
                0 <= i < self.mapped_page@.len() ==> self.mapped_page@[i].0 != page,
    {
        let mut i: usize = 0;
        while i < self.mapped_page.len()
            invariant
                i <= self.mapped_page@.len(),
                forall|j: int| 0 <= j < i ==> self.mapped_page@[j].0 != page,
            decreases self.mapped_page@.len() - i,
        {
            if self.mapped_page[i].0 == page {
                return Some(i);
            }
            i = i + 1;
        }
        None
    }

    /// The frame mapped at page address `page`.
    pub fn lookup_page(&self, page: u64) -> (r: Option<u64>)
        requires
            self.wf(),
        ensures
            r == lookup(self.pages(), page),
    {
        match self.find_page(page) {
            Some(i) => {
                proof {
                    lemma_page_map_has(self.mapped_page@, i as int);
                }
                Some(self.mapped_page[i].1)
            },
            None => {
                proof {
                    lemma_page_map_absent(self.mapped_page@, page);
                }
                None
            },
        }
    }

    /// The frame that backs the page holding `vaddr`.
    pub fn translate(&self, vaddr: u64) -> (r: Option<u64>)
        requires
            self.wf(),
        ensures
            r == self.translation(vaddr),
    {
        self.lookup_page(page_floor(vaddr))
    }

    /// Decides the next step of mapping a frame after attempt number
    /// `attempt` (from 0) ended with `outcome`. A missing table is installed
    /// and the mapping retried, at most `NUM_LEVELS` attempts in all.
    pub fn map_step(attempt: usize, outcome: MapOutcome) -> (r: MapAction)
        ensures
            outcome == MapOutcome::Mapped ==> r == MapAction::Record,
            outcome == MapOutcome::MissingTable ==> r == (if attempt + 1 < NUM_LEVELS {
                MapAction::InstallTable
            } else {
                MapAction::Abort
            }),
            outcome == MapOutcome::Failed ==> r == MapAction::Abort,
    {
        match outcome {
            MapOutcome::Mapped => MapAction::Record,
            MapOutcome::MissingTable => if attempt < NUM_LEVELS - 1 {
                MapAction::InstallTable
            } else {
                MapAction::Abort
            },
            MapOutcome::Failed => MapAction::Abort,
        }
    }

    /// Records a page table installed in the task's address space.
    pub fn record_table(&mut self, pt: u64)
        requires
            old(self).wf(),
            !old(self).torn_down,
            !old(self).owns(pt),
        ensures
            final(self).wf(),
            final(self).mapped_pt@ == old(self).mapped_pt@.push(pt),
            final(self).mapped_page@ == old(self).mapped_page@,
            final(self).tcb == old(self).tcb && final(self).cnode == old(self).cnode
                && final(self).vspace == old(self).vspace,
            final(self).heap == old(self).heap && final(self).exit == old(self).exit,
            final(self).id == old(self).id && final(self).parent == old(self).parent,
            final(self).clear_child_tid == old(self).clear_child_tid,
            final(self).mmap_top == old(self).mmap_top,
            final(self).torn_down == old(self).torn_down,
    {
        self.mapped_pt.push(pt);
        proof {
            assert forall|c: u64| #[trigger] self.mapped_pt@.contains(c) implies !self.is_root(c)
                && !self.frames().contains(c) by {
                if c != pt {
                    let k = choose|k: int|
                        0 <= k < self.mapped_pt@.len() && self.mapped_pt@[k] == c;
                    assert(old(self).mapped_pt@[k] == c);
                    assert(old(self).mapped_pt@.contains(c));
                }
            }
        }
    }

    /// Records that `frame` is now mapped at page address `vaddr`. Returns
    /// the frame that was mapped there before, if it was another one: it is
    /// no longer recorded, and the caller unmaps and recycles it.
    pub fn record_page(&mut self, vaddr: u64, frame: u64) -> (r: Option<u64>)
        requires
            old(self).wf(),
            !old(self).torn_down,
            page_aligned(vaddr),
            !old(self).owns(frame) || lookup(old(self).pages(), vaddr) == Some(frame),
        ensures
            final(self).wf(),
            final(self).pages() == old(self).pages().insert(vaddr, frame),
            r == (if old(self).pages().contains_key(vaddr) && old(self).pages()[vaddr] != frame {
                Some(old(self).pages()[vaddr])
            } else {
                None
            }),
            final(self).mapped_pt@ == old(self).mapped_pt@,
            final(self).tcb == old(self).tcb && final(self).cnode == old(self).cnode
                && final(self).vspace == old(self).vspace,
            final(self).heap == old(self).heap && final(self).exit == old(self).exit,
            final(self).id == old(self).id && final(self).parent == old(self).parent,
            final(self).clear_child_tid == old(self).clear_child_tid,
            final(self).mmap_top == old(self).mmap_top,
            final(self).torn_down == old(self).torn_down,
    {
        let ghost entries = self.mapped_page@;
        match self.find_page(vaddr) {
            Some(i) => {
                let prev = self.mapped_page[i].1;
                proof {
                    lemma_page_map_has(entries, i as int);
                    lemma_page_map_update(entries, i as int, frame);
                }
                self.mapped_page.set(i, (vaddr, frame));
                proof {
                    assert(self.mapped_page@ == entries.update(i as int, (entries[i as int].0, frame)));
                    assert(self.frames() =~= frames_of(entries).update(i as int, frame));
                    if prev != frame {
                        assert(!old(self).owns(frame));
                        assert forall|c: u64| #[trigger] self.frames().contains(c) implies !self.is_root(c)
                            && !self.mapped_pt@.contains(c) by {
                            let k = choose|k: int| 0 <= k < self.frames().len() && self.frames()[k] == c;
                            if k != i {
                                assert(frames_of(entries)[k] == c);
                                assert(old(self).frames().contains(c));
                            }
                        }
                        assert forall|c: u64| #[trigger] self.mapped_pt@.contains(c) implies !self.is_root(c)
                            && !self.frames().contains(c) by {
                            assert(old(self).mapped_pt@.contains(c));
                            if self.frames().contains(c) {
                                let k = choose|k: int| 0 <= k < self.frames().len() && self.frames()[k] == c;
                                if k != i {
                                    assert(frames_of(entries)[k] == c);
                                }
                            }
                        }
                        assert forall|a: int, b: int| 0 <= a < b < self.frames().len() implies self.frames()[a] != self.frames()[b] by {
                            if a != i && b != i {
                                assert(frames_of(entries)[a] != frames_of(entries)[b]);
                            } else if a == i {
                                assert(frames_of(entries).contains(frames_of(entries)[b]));
                            } else {
                                assert(frames_of(entries).contains(frames_of(entries)[a]));
                            }
                        }
                    } else {
                        assert(self.frames() =~= frames_of(entries));
                    }
                }
                if prev != frame {
                    Some(prev)
                } else {
                    None
                }
            },
            None => {
                proof {
                    lemma_page_map_absent(entries, vaddr);
                    lemma_page_map_push(entries, (vaddr, frame));
                }
                self.mapped_page.push((vaddr, frame));
                proof {
                    assert(self.frames() =~= frames_of(entries).push(frame));
                    assert forall|c: u64| #[trigger] self.frames().contains(c) implies !self.is_root(c)
                        && !self.mapped_pt@.contains(c) by {
                        let k = choose|k: int| 0 <= k < self.frames().len() && self.frames()[k] == c;
                        if k < entries.len() {
                            assert(frames_of(entries)[k] == c);
                            assert(old(self).frames().contains(c));
                        }
                    }
                    assert forall|c: u64| #[trigger] self.mapped_pt@.contains(c) implies !self.is_root(c)
                        && !self.frames().contains(c) by {
                        assert(old(self).mapped_pt@.contains(c));
                        if self.frames().contains(c) {
                            let k = choose|k: int| 0 <= k < self.frames().len() && self.frames()[k] == c;
                            if k < entries.len() {
                                assert(frames_of(entries)[k] == c);
                            }
                        }
                    }
                    assert forall|a: int, b: int| 0 <= a < b < self.frames().len() implies self.frames()[a] != self.frames()[b] by {
                        if b == entries.len() {
                            assert(frames_of(entries).contains(frames_of(entries)[a]));
                        }
                    }
                }
                None
            },
        }
    }

    /// What `configure` puts in the task's own table: the fault and
    /// interrupt endpoints minted with its badge, the shared
    /// address-space-identifier authorities, and its three roots, the
    /// table root with a guard that makes a `radix_bits` table span a whole
    /// capability address. The caller then binds the roots and the IPC
    /// buffer to the thread with the fault endpoint's slot.
    pub fn configure(
        &self,
        fault_ep: u64,
        irq_ep: u64,
        badge: u64,
        radix_bits: u64,
        asid_pool: u64,
        asid_control: u64,
    ) -> (r: Vec<CapOp>)
        requires
            radix_bits <= WORD_BITS,
        ensures
            r@ == configure_ops(*self, fault_ep, irq_ep, badge, radix_bits, asid_pool, asid_control),
    {
        let guard = WORD_BITS - radix_bits;
        let r = vec![
            CapOp::Mint { dest: DEFAULT_THREAD_FAULT_EP, src: fault_ep, data: badge },
            CapOp::Mint { dest: DEFAULT_THREAD_IRQ_EP, src: irq_ep, data: badge },
            CapOp::Copy { dest: INIT_ASID_POOL_SLOT, src: asid_pool },
            CapOp::Copy { dest: INIT_ASID_CONTROL_SLOT, src: asid_control },
            CapOp::Mint { dest: INIT_CNODE_SLOT, src: self.cnode, data: guard },
            CapOp::Copy { dest: INIT_TCB_SLOT, src: self.tcb },
            CapOp::Copy { dest: INIT_VSPACE_SLOT, src: self.vspace },
        ];
        assert(r@ =~= configure_ops(*self, fault_ep, irq_ep, badge, radix_bits, asid_pool, asid_control));
        r
    }

    /// Forgets the mapping at page address `vaddr`, before another frame
    /// is installed there. Returns the frame that was mapped, which the
    /// caller unmaps and recycles.
    pub fn unrecord_page(&mut self, vaddr: u64) -> (r: Option<u64>)
        requires
            old(self).wf(),
        ensures
            final(self).wf(),
            final(self).pages() == old(self).pages().remove(vaddr),
            r == lookup(old(self).pages(), vaddr),
            r matches Some(f) ==> !final(self).owns(f),
            forall|c: u64| final(self).owns(c) ==> old(self).owns(c),
            final(self).mapped_pt@ == old(self).mapped_pt@,
            final(self).tcb == old(self).tcb && final(self).cnode == old(self).cnode
                && final(self).vspace == old(self).vspace,
            final(self).heap == old(self).heap && final(self).exit == old(self).exit,
            final(self).id == old(self).id && final(self).parent == old(self).parent,
            final(self).clear_child_tid == old(self).clear_child_tid,
            final(self).mmap_top == old(self).mmap_top,
            final(self).torn_down == old(self).torn_down,
    {
        let ghost entries = self.mapped_page@;
        match self.find_page(vaddr) {
            Some(i) => {
                proof {
                    lemma_page_map_has(entries, i as int);
                    lemma_page_map_remove(entries, i as int);
                }
                let (_, frame) = self.mapped_page.remove(i);
                proof {
                    let old_frames = frames_of(entries);
                    assert(self.frames() =~= old_frames.remove(i as int));
                    assert(old_frames[i as int] == frame);
                    assert forall|c: u64| #[trigger] self.frames().contains(c) implies old_frames.contains(c)
                        && c != frame by {
                        let k = choose|k: int| 0 <= k < self.frames().len() && self.frames()[k] == c;
                        if k < i {
                            assert(old_frames[k] == c);
                        } else {
                            assert(old_frames[k + 1] == c);
                        }
                    }
                    assert forall|c: u64| #[trigger] self.frames().contains(c) implies !self.is_root(c) by {
                        assert(old(self).frames().contains(c));
                    }
                    assert forall|c: u64| #[trigger] self.mapped_pt@.contains(c) implies !self.is_root(c)
                        && !self.frames().contains(c) by {
                        assert(old(self).mapped_pt@.contains(c));
                    }
                    assert forall|a: int, b: int| 0 <= a < b < self.frames().len() implies self.frames()[a]
                        != self.frames()[b] by {
                        let a2 = if a < i { a } else { a + 1 };
                        let b2 = if b < i { b } else { b + 1 };
                        assert(old_frames[a2] != old_frames[b2]);
                    }
                    assert(old_frames.contains(frame));
                    assert(!self.is_root(frame));
                    assert(!self.mapped_pt@.contains(frame));
                    assert(keys_unique(self.mapped_page@));
                    assert forall|j: int| 0 <= j < self.mapped_page@.len() implies page_aligned(
                        #[trigger] self.mapped_page@[j].0) by {
                        if j >= i {
                            assert(self.mapped_page@[j] == entries[j + 1]);
                        }
                    }
                }
                Some(frame)
            },
            None => {
                proof {
                    lemma_page_map_absent(entries, vaddr);
                    assert(self.pages() =~= old(self).pages().remove(vaddr));
                }
                None
            },
        }
    }

    /// `self` is what teardown leaves of `before`: the same identity and
    /// roots, no recorded tables or frames, and the teardown mark set.
    pub open spec fn is_teardown_of(self, before: Sel4Task) -> bool {
        &&& self.torn_down
        &&& self.mapped_pt@.len() == 0
        &&& self.mapped_page@.len() == 0
        &&& self.tcb == before.tcb && self.cnode == before.cnode && self.vspace == before.vspace
        &&& self.id == before.id && self.parent == before.parent
        &&& self.heap == before.heap && self.exit == before.exit
        &&& self.clear_child_tid == before.clear_child_tid
        &&& self.mmap_top == before.mmap_top
    }

    /// Hands out every capability the task holds, to be revoked and then
    /// deleted, and forgets them: thread control, capability-table root,
    /// address-space root, every recorded page table and every recorded
    /// frame. A task already torn down hands out nothing.
    pub fn teardown(&mut self) -> (r: Vec<u64>)
        requires
            old(self).wf(),
        ensures
            final(self).wf(),
            r@ == old(self).teardown_caps(),
            final(self).is_teardown_of(*old(self)),
    {
        if self.torn_down {
            return Vec::new();
        }
        let mut caps: Vec<u64> = vec![self.tcb, self.cnode, self.vspace];
        let ghost roots = caps@;
        let mut i: usize = 0;
        while i < self.mapped_pt.len()
            invariant
                i <= self.mapped_pt@.len(),
                caps@ == roots + self.mapped_pt@.subrange(0, i as int),
            decreases self.mapped_pt@.len() - i,
        {
            caps.push(self.mapped_pt[i]);
            i = i + 1;
            assert(caps@ =~= roots + self.mapped_pt@.subrange(0, i as int));
        }
        assert(self.mapped_pt@.subrange(0, i as int) =~= self.mapped_pt@);
        let ghost with_tables = caps@;
        let mut j: usize = 0;
        while j < self.mapped_page.len()
            invariant
                j <= self.mapped_page@.len(),
                caps@ == with_tables + self.frames().subrange(0, j as int),
            decreases self.mapped_page@.len() - j,
        {
            caps.push(self.mapped_page[j].1);
            j = j + 1;
            assert(caps@ =~= with_tables + self.frames().subrange(0, j as int));
        }
        assert(self.frames().subrange(0, j as int) =~= self.frames());
        self.mapped_pt = Vec::new();
        self.mapped_page = Vec::new();
        self.torn_down = true;
        proof {
            assert(self.frames() =~= Seq::<u64>::empty());
        }
        caps
    }

    /// Moves the heap watermark: `0` queries it, any other value becomes
    /// the new watermark. Returns the watermark and the pages that the
    /// caller backs with fresh frames.
    pub fn brk(&mut self, value: u64) -> (r: BrkPlan)
        requires
            old(self).wf(),
            value as int + PAGE_SIZE <= u64::MAX,
        ensures
            final(self).wf(),
            r.watermark == brk_watermark(old(self).heap, value),
            r.pages@ == brk_pages(old(self).pages(), old(self).heap, value),
            final(self).heap == r.watermark,
            final(self).mapped_page@ == old(self).mapped_page@,
            final(self).mapped_pt@ == old(self).mapped_pt@,
            final(self).tcb == old(self).tcb && final(self).cnode == old(self).cnode
                && final(self).vspace == old(self).vspace,
            final(self).exit == old(self).exit && final(self).torn_down == old(self).torn_down,
            final(self).id == old(self).id && final(self).parent == old(self).parent,
            final(self).clear_child_tid == old(self).clear_child_tid,
            final(self).mmap_top == old(self).mmap_top,
    {
        let heap = self.heap;
        if value == 0 {
            let pages: Vec<u64> = Vec::new();
            assert(pages@ =~= brk_pages(self.pages(), heap, value));
            return BrkPlan { watermark: heap, pages };
        }
        let mut pages: Vec<u64> = Vec::new();
        if value > heap {
            let rem = heap % PAGE_SIZE;
            let start: u64 = if rem == 0 { heap } else { heap - rem + PAGE_SIZE };
            if start < value {
                pages = self.unrecorded_pages(start, value - start);
            } else {
                proof {
                    reveal(Seq::filter);
                    assert(pages_between(start as int, value as int).len() == 0);
                    assert(pages@ =~= brk_pages(self.pages(), heap, value));
                }
            }
        } else {
            assert(pages@ =~= brk_pages(self.pages(), heap, value));
        }
        self.heap = value;
        BrkPlan { watermark: value, pages }
    }

    /// The pages of `[addr, addr + len)` that are not mapped yet.
    pub fn unrecorded_pages(&self, addr: u64, len: u64) -> (r: Vec<u64>)
        requires
            self.wf(),
            page_aligned(addr),
            addr as int + len as int + PAGE_SIZE as int <= u64::MAX,
        ensures
            r@ == unrecorded_between(self.pages(), addr as int, addr + len),
    {
        let ghost all = pages_between(addr as int, addr + len);
        let ghost pred = |p: u64| !self.pages().contains_key(p);
        let end = addr + len;
        let mut out: Vec<u64> = Vec::new();
        let mut p = addr;
        let mut k: u64 = 0;
        proof {
            if addr < end {
                assert((end - addr + 4096 - 1) / 4096 <= 0x10_0000_0000_0000) by (nonlinear_arith)
                    requires
                        addr < end,
                        end <= u64::MAX,
                ;
            }
        }
        while p < end
            invariant
                all.len() <= 0x10_0000_0000_0000,
                self.wf(),
                end == addr + len,
                addr as int + len as int + PAGE_SIZE as int <= u64::MAX,
                p == addr + k * PAGE_SIZE,
                addr <= p <= end + PAGE_SIZE,
                k > 0 ==> p - PAGE_SIZE < end,
                k <= all.len(),
                p < end ==> k < all.len(),
                p >= end ==> k == all.len(),
                all == pages_between(addr as int, addr + len),
                pred == (|p: u64| !self.pages().contains_key(p)),
                out@ == all.take(k as int).filter(pred),
            decreases end + PAGE_SIZE - p,
        {
            proof {
                assert(all.take(k as int + 1).drop_last() =~= all.take(k as int));
                reveal(Seq::filter);
                assert(all[k as int] == p);
            }
            match self.lookup_page(p) {
                Some(_) => {},
                None => {
                    out.push(p);
                },
            }
            p = p + PAGE_SIZE;
            k = k + 1;
            proof {
                if p < end {
                    assert((end - addr + 4096 - 1) / 4096 >= k + 1) by (nonlinear_arith)
                        requires
                            p == addr + k * 4096,
                            p < end,
                    ;
                } else {
                    assert((end - addr + 4096 - 1) / 4096 == k) by (nonlinear_arith)
                        requires
                            p == addr + k * 4096,
                            p >= end,
                            p - 4096 < end,
                            k >= 1,
                    ;
                }
            }
        }
        proof {
            if addr >= end {
                assert(k == 0);
            }
            assert(all.take(k as int) =~= all);
        }
        out
    }

    /// Kills the task: marks it exited with `code` and hands out what
    /// `teardown` hands out.
    pub fn kill(&mut self, code: i32) -> (r: Vec<u64>)
        requires
            old(self).wf(),
        ensures
            final(self).wf(),
            final(self).exit == Some(code),
            r@ == old(self).teardown_caps(),
            final(self).torn_down,
            final(self).mapped_pt@.len() == 0 && final(self).mapped_page@.len() == 0,
            final(self).tcb == old(self).tcb && final(self).cnode == old(self).cnode
                && final(self).vspace == old(self).vspace,
            final(self).heap == old(self).heap,
            final(self).id == old(self).id && final(self).parent == old(self).parent,
            final(self).clear_child_tid == old(self).clear_child_tid,
            final(self).mmap_top == old(self).mmap_top,
    {
        self.exit = Some(code);
        self.teardown()
    }

    /// Marks the task exited with `code`; no further faults are served for
    /// it.
    pub fn mark_exited(&mut self, code: i32)
        ensures
            final(self).exit == Some(code),
            final(self).mapped_page@ == old(self).mapped_page@,
            final(self).mapped_pt@ == old(self).mapped_pt@,
            final(self).tcb == old(self).tcb && final(self).cnode == old(self).cnode
                && final(self).vspace == old(self).vspace,
            final(self).heap == old(self).heap && final(self).torn_down == old(self).torn_down,
            final(self).id == old(self).id && final(self).parent == old(self).parent,
            final(self).clear_child_tid == old(self).clear_child_tid,
            final(self).mmap_top == old(self).mmap_top,
    {
        self.exit = Some(code);
    }
}

/// After a frame is recorded at a page-aligned address (`after` being
/// the task as `record_page` leaves it), translating that address gives
/// the frame.
pub proof fn lemma_map_round_trip(before: Sel4Task, after: Sel4Task, v: u64, f: u64)
    requires
        page_aligned(v),
        after.pages() == before.pages().insert(v, f),
    ensures
        after.translation(v) == Some(f),
{
}

/// Teardown hands every capability out at most once: a second teardown
/// hands out nothing, and what the two hand out together names no
/// capability twice.
pub proof fn lemma_teardown_idempotent(t: Sel4Task, once: Sel4Task)
    requires
        t.wf(),
        once.is_teardown_of(t),
    ensures
        once.teardown_caps() == Seq::<u64>::empty(),
        (t.teardown_caps() + once.teardown_caps()).no_duplicates(),
{
    assert(t.teardown_caps() + once.teardown_caps() =~= t.teardown_caps());
    if !t.torn_down {
        let roots = seq![t.tcb, t.cnode, t.vspace];
        let pts = t.mapped_pt@;
        let frames = t.frames();
        let s = roots + pts + frames;
        assert(s == t.teardown_caps());
        assert forall|a: int, b: int| 0 <= a < b < s.len() implies s[a] != s[b] by {
            let np = pts.len() as int;
            if b < 3 {
            } else if b < 3 + np {
                assert(pts.contains(s[b]));
                if a >= 3 {
                    assert(s[a] == pts[a - 3]);
                }
            } else {
                assert(frames.contains(s[b]));
                assert(s[b] == frames[b - 3 - np]);
                if a >= 3 + np {
                    assert(s[a] == frames[a - 3 - np]);
                } else if a >= 3 {
                    assert(pts.contains(s[a]));
                }
            }
        }
    }
}

} // verus!
