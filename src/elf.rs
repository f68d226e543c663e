//! Loading an ELF image into a task: which pages each loadable segment
//! covers, which bytes of the file go where, and the rights each page gets.
//! The caller stages every copy through a scratch mapping of its own.

use vstd::prelude::*;
use crate::page::{align_down, align_up, page_of, page_floor, PAGE_SIZE};
use crate::task::{page_range, pages_between};

verus! {

/// One loadable segment, as its program header describes it.
#[derive(Debug, Clone, Copy, PartialEq, Eq, Structural)]
pub struct Segment {
    pub vaddr: u64,
    pub offset: u64,
    pub file_size: u64,
    pub mem_size: u64,
    pub readable: bool,
    pub writable: bool,
    pub executable: bool,
}

/// Access rights of a mapping.
#[derive(Debug, Clone, Copy, PartialEq, Eq, Structural)]
pub struct Rights {
    pub read: bool,
    pub write: bool,
    pub grant: bool,
}

/// `len` bytes of the file at `file_offset` go to `page` at `page_offset`.
#[derive(Debug, Clone, Copy, PartialEq, Eq, Structural)]
pub struct PageCopy {
    pub page: u64,
    pub page_offset: u64,
    pub file_offset: u64,
    pub len: u64,
}

impl Segment {
    /// The segment's addresses and file range stay inside 64 bits, and its
    /// file data does not exceed its memory image.
    pub open spec fn valid(self) -> bool {
        &&& self.file_size <= self.mem_size
        &&& self.vaddr as int + self.mem_size as int + PAGE_SIZE <= u64::MAX
        &&& self.offset as int + self.file_size as int <= u64::MAX
    }

    /// The pages the segment's memory image touches.
    pub open spec fn pages(self) -> Seq<u64> {
        pages_between(
            align_down(self.vaddr as int, PAGE_SIZE as int),
            self.vaddr + self.mem_size,
        )
    }

    pub open spec fn rights_of(self) -> Rights {
        Rights { read: self.readable, write: self.writable, grant: self.executable }
    }
}

/// The copies that place `remaining` file bytes from `offset` at `vaddr`
/// onwards, one per page.
pub open spec fn copy_plan(vaddr: u64, offset: u64, remaining: u64) -> Seq<PageCopy>
    decreases remaining,
{
    if remaining == 0 || vaddr as int + remaining as int > u64::MAX || offset as int
        + remaining as int > u64::MAX {
        seq![]
    } else {
        let in_page = (vaddr % PAGE_SIZE) as u64;
        let len = if PAGE_SIZE - in_page < remaining {
            (PAGE_SIZE - in_page) as u64
        } else {
            remaining
        };
        seq![PageCopy { page: page_of(vaddr), page_offset: in_page, file_offset: offset, len }]
            + copy_plan((vaddr + len) as u64, (offset + len) as u64, (remaining - len) as u64)
    }
}

/// The copies that bring a segment's file data into its pages.
pub fn segment_copies(seg: &Segment) -> (r: Vec<PageCopy>)
    requires
        seg.valid(),
    ensures
        r@ == copy_plan(seg.vaddr, seg.offset, seg.file_size),
{
    let mut out: Vec<PageCopy> = Vec::new();
    let mut vaddr = seg.vaddr;
    let mut offset = seg.offset;
    let mut remaining = seg.file_size;
    while remaining > 0
        invariant
            vaddr as int + remaining as int <= u64::MAX,
            offset as int + remaining as int <= u64::MAX,
            out@ + copy_plan(vaddr, offset, remaining) == copy_plan(
                seg.vaddr,
                seg.offset,
                seg.file_size,
            ),
        decreases remaining,
    {
        let in_page = vaddr % PAGE_SIZE;
        let len = if PAGE_SIZE - in_page < remaining {
            PAGE_SIZE - in_page
        } else {
            remaining
        };
        let copy = PageCopy { page: page_floor(vaddr), page_offset: in_page, file_offset: offset, len };
        proof {
            assert(copy_plan(vaddr, offset, remaining) == seq![copy] + copy_plan(
                (vaddr + len) as u64,
                (offset + len) as u64,
                (remaining - len) as u64,
            ));
            assert(out@.push(copy) + copy_plan(
                (vaddr + len) as u64,
                (offset + len) as u64,
                (remaining - len) as u64,
            ) =~= out@ + copy_plan(vaddr, offset, remaining));
        }
        out.push(copy);
        vaddr = vaddr + len;
        offset = offset + len;
        remaining = remaining - len;
    }
    assert(out@ =~= out@ + copy_plan(vaddr, offset, remaining));
    out
}

/// The pages a segment's memory image touches, lowest first.
pub fn segment_pages(seg: &Segment) -> (r: Vec<u64>)
    requires
        seg.valid(),
    ensures
        r@ == seg.pages(),
{
    page_range(seg.vaddr, seg.vaddr + seg.mem_size)
}

/// The rights a segment's flags give its pages: read, write, and execute
/// (carried as the grant right).
pub fn segment_rights(seg: &Segment) -> (r: Rights)
    ensures
        r == seg.rights_of(),
{
    Rights { read: seg.readable, write: seg.writable, grant: seg.executable }
}

/// The rights of a page touched by several segments: the union of theirs.
pub fn add_rights(rights: &mut Rights, seg: &Segment)
    ensures
        final(rights).read == (old(rights).read || seg.readable),
        final(rights).write == (old(rights).write || seg.writable),
        final(rights).grant == (old(rights).grant || seg.executable),
{
    if seg.readable {
        rights.read = true;
    }
    if seg.writable {
        rights.write = true;
    }
    if seg.executable {
        rights.grant = true;
    }
}

/// The lowest start and highest end of the segments' memory images.
pub open spec fn span(segs: Seq<Segment>) -> (int, int)
    decreases segs.len(),
{
    if segs.len() == 0 {
        (u64::MAX as int, 0)
    } else {
        let rest = span(segs.drop_last());
        let s = segs.last();
        (
            if s.vaddr < rest.0 { s.vaddr as int } else { rest.0 },
            if s.vaddr + s.mem_size > rest.1 { s.vaddr + s.mem_size } else { rest.1 },
        )
    }
}

/// The image's virtual footprint: the page-aligned range that covers every
/// segment. `None` for an image without segments.
pub fn footprint(segs: &Vec<Segment>) -> (r: Option<(u64, u64)>)
    requires
        forall|i: int| 0 <= i < segs@.len() ==> (#[trigger] segs@[i]).valid(),
    ensures
        segs@.len() == 0 ==> r is None,
        segs@.len() > 0 ==> r == Some(
            (
                align_down(span(segs@).0, PAGE_SIZE as int) as u64,
                align_up(span(segs@).1, PAGE_SIZE as int) as u64,
            ),
        ),
{
    if segs.len() == 0 {
        return None;
    }
    let mut lo: u64 = u64::MAX;
    let mut hi: u64 = 0;
    let mut i: usize = 0;
    while i < segs.len()
        invariant
            i <= segs@.len(),
            forall|j: int| 0 <= j < segs@.len() ==> (#[trigger] segs@[j]).valid(),
            (lo as int, hi as int) == span(segs@.subrange(0, i as int)),
            hi as int + PAGE_SIZE <= u64::MAX,
        decreases segs@.len() - i,
    {
        let s = segs[i];
        assert(segs@.subrange(0, i as int + 1).drop_last() =~= segs@.subrange(0, i as int));
        assert(segs@[i as int].valid());
        if s.vaddr < lo {
            lo = s.vaddr;
        }
        if s.vaddr + s.mem_size > hi {
            hi = s.vaddr + s.mem_size;
        }
        i = i + 1;
    }
    assert(segs@.subrange(0, i as int) =~= segs@);
    let rem = hi % PAGE_SIZE;
    let up = if rem == 0 { hi } else { hi - rem + PAGE_SIZE };
    Some((page_floor(lo), up))
}

/// Program-header type of a loadable segment.
pub const PT_LOAD: u32 = 1;
/// Program-header flag: executable.
pub const PF_X: u32 = 1;
/// Program-header flag: writable.
pub const PF_W: u32 = 2;
/// Program-header flag: readable.
pub const PF_R: u32 = 4;

/// The fields of one program header, as read from the image.
#[derive(Debug, Clone, Copy, PartialEq, Eq, Structural)]
pub struct ProgramHeader {
    pub kind: u32,
    pub flags: u32,
    pub offset: u64,
    pub vaddr: u64,
    pub file_size: u64,
    pub mem_size: u64,
}

/// The segment a program header describes.
pub open spec fn segment_of(ph: ProgramHeader) -> Segment {
    Segment {
        vaddr: ph.vaddr,
        offset: ph.offset,
        file_size: ph.file_size,
        mem_size: ph.mem_size,
        readable: ph.flags & PF_R != 0,
        writable: ph.flags & PF_W != 0,
        executable: ph.flags & PF_X != 0,
    }
}

/// The segment is valid and its file data lies inside an image of
/// `image_len` bytes.
pub open spec fn fits_image(seg: Segment, image_len: u64) -> bool {
    seg.valid() && seg.offset as int + seg.file_size as int <= image_len
}

/// The loadable segments of the headers, in order; `None` when one of them
/// does not fit the image or the address space.
pub open spec fn loadable(phs: Seq<ProgramHeader>, image_len: u64) -> Option<Seq<Segment>>
    decreases phs.len(),
{
    if phs.len() == 0 {
        Some(seq![])
    } else {
        match loadable(phs.drop_last(), image_len) {
            None => None,
            Some(segs) => {
                let ph = phs.last();
                if ph.kind != PT_LOAD {
                    Some(segs)
                } else if fits_image(segment_of(ph), image_len) {
                    Some(segs.push(segment_of(ph)))
                } else {
                    None
                }
            },
        }
    }
}

/// Picks the loadable segments out of an image's program headers, checking
/// that each fits the image and the address space.
pub fn load_segments(phs: &Vec<ProgramHeader>, image_len: u64) -> (r: Option<Vec<Segment>>)
    ensures
        r matches Some(v) ==> loadable(phs@, image_len) == Some(v@),
        r is None ==> loadable(phs@, image_len) is None,
{
    let mut out: Vec<Segment> = Vec::new();
    let mut i: usize = 0;
    while i < phs.len()
        invariant
            i <= phs@.len(),
            loadable(phs@.subrange(0, i as int), image_len) == Some(out@),
        decreases phs@.len() - i,
    {
        let ph = phs[i];
        assert(phs@.subrange(0, i as int + 1).drop_last() =~= phs@.subrange(0, i as int));
        assert(phs@.subrange(0, i as int + 1).last() == ph);
        if ph.kind == PT_LOAD {
            let seg = Segment {
                vaddr: ph.vaddr,
                offset: ph.offset,
                file_size: ph.file_size,
                mem_size: ph.mem_size,
                readable: ph.flags & PF_R != 0,
                writable: ph.flags & PF_W != 0,
                executable: ph.flags & PF_X != 0,
            };
            let fits = seg.file_size <= seg.mem_size && seg.vaddr <= u64::MAX - PAGE_SIZE
                && seg.mem_size <= u64::MAX - PAGE_SIZE - seg.vaddr && seg.file_size <= image_len
                && seg.offset <= image_len - seg.file_size;
            if !fits {
                proof {
                    lemma_loadable_none_extends(phs@, i as int + 1, image_len);
                }
                return None;
            }
            out.push(seg);
        }
        i = i + 1;
    }
    assert(phs@.subrange(0, i as int) =~= phs@);
    Some(out)
}

proof fn lemma_loadable_none_extends(phs: Seq<ProgramHeader>, n: int, image_len: u64)
    requires
        0 <= n <= phs.len(),
        loadable(phs.subrange(0, n), image_len) is None,
    ensures
        loadable(phs, image_len) is None,
    decreases phs.len() - n,
{
    if n < phs.len() {
        assert(phs.subrange(0, n + 1).drop_last() =~= phs.subrange(0, n));
        lemma_loadable_none_extends(phs, n + 1, image_len);
    } else {
        assert(phs.subrange(0, n) =~= phs);
    }
}

/// Segment `s` touches the page starting at `page`.
pub open spec fn covers(s: Segment, page: u64) -> bool {
    align_down(s.vaddr as int, PAGE_SIZE as int) <= page && page < s.vaddr + s.mem_size
}

/// The rights of a page: the union of those of every segment touching it.
pub open spec fn page_rights_of(segs: Seq<Segment>, page: u64) -> Rights
    decreases segs.len(),
{
    if segs.len() == 0 {
        Rights { read: false, write: false, grant: false }
    } else {
        let r = page_rights_of(segs.drop_last(), page);
        let s = segs.last();
        if covers(s, page) {
            Rights {
                read: r.read || s.readable,
                write: r.write || s.writable,
                grant: r.grant || s.executable,
            }
        } else {
            r
        }
    }
}

/// The rights the page starting at `page` is mapped with.
pub fn page_rights(segs: &Vec<Segment>, page: u64) -> (r: Rights)
    ensures
        r == page_rights_of(segs@, page),
{
    let mut r = Rights { read: false, write: false, grant: false };
    let mut i: usize = 0;
    while i < segs.len()
        invariant
            i <= segs@.len(),
            r == page_rights_of(segs@.subrange(0, i as int), page),
        decreases segs@.len() - i,
    {
        let s = segs[i];
        assert(segs@.subrange(0, i as int + 1).drop_last() =~= segs@.subrange(0, i as int));
        let low = page_floor(s.vaddr);
        if low <= page && (page as u128) < s.vaddr as u128 + s.mem_size as u128 {
            add_rights(&mut r, &s);
        }
        i = i + 1;
    }
    assert(segs@.subrange(0, i as int) =~= segs@);
    r
}

/// The copies, over all segments in order, that go to `page`.
pub open spec fn copies_for(segs: Seq<Segment>, page: u64) -> Seq<PageCopy>
    decreases segs.len(),
{
    if segs.len() == 0 {
        seq![]
    } else {
        let s = segs.last();
        copies_for(segs.drop_last(), page) + copy_plan(s.vaddr, s.offset, s.file_size).filter(
            |c: PageCopy| c.page == page,
        )
    }
}

/// Every copy that fills `page`, so that the page can be filled before it
/// is mapped.
pub fn page_copies(segs: &Vec<Segment>, page: u64) -> (r: Vec<PageCopy>)
    requires
        forall|i: int| 0 <= i < segs@.len() ==> (#[trigger] segs@[i]).valid(),
    ensures
        r@ == copies_for(segs@, page),
{
    let mut out: Vec<PageCopy> = Vec::new();
    let mut i: usize = 0;
    while i < segs.len()
        invariant
            i <= segs@.len(),
            forall|j: int| 0 <= j < segs@.len() ==> (#[trigger] segs@[j]).valid(),
            out@ == copies_for(segs@.subrange(0, i as int), page),
        decreases segs@.len() - i,
    {
        assert(segs@[i as int].valid());
        let copies = segment_copies(&segs[i]);
        let ghost pred = |c: PageCopy| c.page == page;
        let ghost head = out@;
        let mut k: usize = 0;
        while k < copies.len()
            invariant
                k <= copies@.len(),
                pred == (|c: PageCopy| c.page == page),
                out@ == head + copies@.take(k as int).filter(pred),
            decreases copies@.len() - k,
        {
            proof {
                assert(copies@.take(k as int + 1).drop_last() =~= copies@.take(k as int));
                reveal(Seq::filter);
            }
            if copies[k].page == page {
                out.push(copies[k]);
                assert(out@ =~= head + copies@.take(k as int + 1).filter(pred));
            } else {
                assert(out@ =~= head + copies@.take(k as int + 1).filter(pred));
            }
            k = k + 1;
        }
        assert(copies@.take(k as int) =~= copies@);
        assert(segs@.subrange(0, i as int + 1).drop_last() =~= segs@.subrange(0, i as int));
        i = i + 1;
    }
    assert(segs@.subrange(0, i as int) =~= segs@);
    out
}

} // verus!
