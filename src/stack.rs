//! The initial user stack: argument strings, auxiliary vector, environment
//! and argument pointers and the argument count, laid out top-down in the
//! highest stack page exactly as the loaded program's runtime parses them.

use vstd::prelude::*;
use crate::page::{align_down, page_aligned, PAGE_SIZE};
use crate::task::{page_range, pages_between, Sel4Task};

verus! {

/// Argument strings start on boundaries of this many bytes.
pub const STACK_ALIGN_SIZE: u64 = 16;

/// Bytes in the stack page.
pub const PAGE_BYTES: usize = 4096;

/// Keys of the auxiliary vector.
#[derive(Debug, Clone, Copy, PartialEq, Eq, Structural)]
pub enum AuxV {
    /// End of the vector.
    Null,
    Ignore,
    ExecFd,
    Phdr,
    Phent,
    Phnum,
    /// System page size.
    PageSz,
    Base,
    Flags,
    /// Entry point of the program.
    Entry,
    NotElf,
    Uid,
    Euid,
    Gid,
    Egid,
    Platform,
    HwCap,
    ClkTck,
    DCacheBSize,
    Secure,
    BasePlatform,
    Random,
    HwCap2,
    /// File name of the program.
    ExecFn,
}

impl AuxV {
    pub open spec fn key_of(self) -> u64 {
        match self {
            AuxV::Null => 0,
            AuxV::Ignore => 1,
            AuxV::ExecFd => 2,
            AuxV::Phdr => 3,
            AuxV::Phent => 4,
            AuxV::Phnum => 5,
            AuxV::PageSz => 6,
            AuxV::Base => 7,
            AuxV::Flags => 8,
            AuxV::Entry => 9,
            AuxV::NotElf => 10,
            AuxV::Uid => 11,
            AuxV::Euid => 12,
            AuxV::Gid => 13,
            AuxV::Egid => 14,
            AuxV::Platform => 15,
            AuxV::HwCap => 16,
            AuxV::ClkTck => 17,
            AuxV::DCacheBSize => 19,
            AuxV::Secure => 23,
            AuxV::BasePlatform => 24,
            AuxV::Random => 25,
            AuxV::HwCap2 => 26,
            AuxV::ExecFn => 31,
        }
    }

    /// The numeric key of the entry.
    pub fn key(&self) -> (r: u64)
        ensures
            r == self.key_of(),
    {
        match self {
            AuxV::Null => 0,
            AuxV::Ignore => 1,
            AuxV::ExecFd => 2,
            AuxV::Phdr => 3,
            AuxV::Phent => 4,
            AuxV::Phnum => 5,
            AuxV::PageSz => 6,
            AuxV::Base => 7,
            AuxV::Flags => 8,
            AuxV::Entry => 9,
            AuxV::NotElf => 10,
            AuxV::Uid => 11,
            AuxV::Euid => 12,
            AuxV::Gid => 13,
            AuxV::Egid => 14,
            AuxV::Platform => 15,
            AuxV::HwCap => 16,
            AuxV::ClkTck => 17,
            AuxV::DCacheBSize => 19,
            AuxV::Secure => 23,
            AuxV::BasePlatform => 24,
            AuxV::Random => 25,
            AuxV::HwCap2 => 26,
            AuxV::ExecFn => 31,
        }
    }
}

/// Byte `k` (from 0, least significant first) of word `w`.
pub open spec fn word_byte(w: u64, k: u64) -> u8 {
    ((w >> (8 * k)) & 0xff) as u8
}

/// Writes `bytes` into `page` at offset `off`.
fn write_bytes(page: &mut Vec<u8>, off: usize, bytes: &Vec<u8>)
    requires
        old(page)@.len() == PAGE_BYTES,
        off + bytes@.len() <= PAGE_BYTES,
    ensures
        final(page)@.len() == old(page)@.len(),
        forall|o: int|
            0 <= o < final(page)@.len() ==> #[trigger] final(page)@[o] == if off <= o < off
                + bytes@.len() {
                bytes@[o - off]
            } else {
                old(page)@[o]
            },
{
    let mut i: usize = 0;
    while i < bytes.len()
        invariant
            i <= bytes@.len(),
            off + bytes@.len() <= PAGE_BYTES,
            page@.len() == PAGE_BYTES,
            old(page)@.len() == PAGE_BYTES,
            forall|o: int|
                0 <= o < page@.len() ==> #[trigger] page@[o] == if off <= o < off + i {
                    bytes@[o - off]
                } else {
                    old(page)@[o]
                },
        decreases bytes@.len() - i,
    {
        page.set(off + i, bytes[i]);
        i = i + 1;
    }
}

/// Writes word `w`, least significant byte first, into `page` at `off`.
fn write_word(page: &mut Vec<u8>, off: usize, w: u64)
    requires
        old(page)@.len() == PAGE_BYTES,
        off + 8 <= PAGE_BYTES,
    ensures
        final(page)@.len() == old(page)@.len(),
        forall|o: int|
            0 <= o < final(page)@.len() ==> #[trigger] final(page)@[o] == if off <= o < off + 8 {
                word_byte(w, (o - off) as u64)
            } else {
                old(page)@[o]
            },
{
    let mut k: u64 = 0;
    while k < 8
        invariant
            k <= 8,
            off + 8 <= PAGE_BYTES,
            page@.len() == PAGE_BYTES,
            old(page)@.len() == PAGE_BYTES,
            forall|o: int|
                0 <= o < page@.len() ==> #[trigger] page@[o] == if off <= o < off + k {
                    word_byte(w, (o - off) as u64)
                } else {
                    old(page)@[o]
                },
        decreases 8 - k,
    {
        let b = #[verifier::truncate] (((w >> (8 * k)) & 0xff) as u8);
        page.set(off + k as usize, b);
        k = k + 1;
    }
}

/// Where argument string `i` starts: each string, with its terminating
/// NUL, is placed below the previous one (below `top` for the first) on a
/// `STACK_ALIGN_SIZE` boundary.
pub open spec fn arg_addr(top: int, strs: Seq<Seq<u8>>, i: int) -> int
    decreases i,
{
    let prev = if i <= 0 {
        top
    } else {
        arg_addr(top, strs, i - 1)
    };
    (prev - strs[i].len() - 1) / STACK_ALIGN_SIZE as int * STACK_ALIGN_SIZE as int
}

/// The argument strings as byte sequences.
pub open spec fn strs_of(args: Seq<Vec<u8>>) -> Seq<Seq<u8>> {
    args.map_values(|a: Vec<u8>| a@)
}

/// The auxiliary vector from low to high addresses: `(key, value)` pairs
/// in decreasing key order, ending with the `Null` entry.
pub open spec fn auxv_words(entry: u64, execfn: u64) -> Seq<u64> {
    seq![
        AuxV::ExecFn.key_of(), execfn,
        AuxV::Egid.key_of(), 0,
        AuxV::Gid.key_of(), 0,
        AuxV::Euid.key_of(), 0,
        AuxV::Uid.key_of(), 0,
        AuxV::Entry.key_of(), entry,
        AuxV::PageSz.key_of(), PAGE_SIZE,
        AuxV::Null.key_of(), 0,
    ]
}

/// The argument pointers, in order.
pub open spec fn arg_ptrs(top: int, strs: Seq<Seq<u8>>) -> Seq<u64> {
    Seq::new(strs.len(), |i: int| arg_addr(top, strs, i) as u64)
}

/// The words below the strings, from the stack pointer upwards: the
/// argument count, the argument pointers, the NULL that ends them, the
/// NULL environment pointer and the auxiliary vector.
pub open spec fn stack_words(top: int, strs: Seq<Seq<u8>>, entry: u64) -> Seq<u64> {
    seq![strs.len() as u64] + arg_ptrs(top, strs) + seq![0u64, 0u64] + auxv_words(
        entry,
        arg_ptrs(top, strs)[0],
    )
}

/// The lowest argument string.
pub open spec fn strings_low(top: int, strs: Seq<Seq<u8>>) -> int {
    arg_addr(top, strs, strs.len() - 1)
}

/// The resulting stack pointer.
pub open spec fn stack_sp(top: int, strs: Seq<Seq<u8>>, entry: u64) -> int {
    strings_low(top, strs) - 8 * stack_words(top, strs, entry).len()
}

/// The whole layout fits in the highest stack page.
pub open spec fn stack_fits(top: int, strs: Seq<Seq<u8>>, entry: u64) -> bool {
    stack_sp(top, strs, entry) >= top - PAGE_SIZE
}

proof fn lemma_arg_addr_below(top: int, strs: Seq<Seq<u8>>, i: int, j: int)
    requires
        0 <= i <= j,
    ensures
        arg_addr(top, strs, j) <= arg_addr(top, strs, i),
        i < j ==> arg_addr(top, strs, j) + strs[j].len() < arg_addr(top, strs, j - 1),
        arg_addr(top, strs, i) + strs[i].len() < (if i == 0 {
            top
        } else {
            arg_addr(top, strs, i - 1)
        }),
    decreases j - i,
{
    let prev_j = if j <= 0 { top } else { arg_addr(top, strs, j - 1) };
    let x = prev_j - strs[j].len() - 1;
    assert(x / 16 * 16 <= x) by (nonlinear_arith);
    let prev_i = if i <= 0 { top } else { arg_addr(top, strs, i - 1) };
    let y = prev_i - strs[i].len() - 1;
    assert(y / 16 * 16 <= y) by (nonlinear_arith);
    if i < j {
        lemma_arg_addr_below(top, strs, i, j - 1);
    }
}

proof fn lemma_arg_addr_top(top: int, strs: Seq<Seq<u8>>, j: int)
    requires
        0 <= j,
    ensures
        arg_addr(top, strs, j) + strs[j].len() < top,
    decreases j,
{
    lemma_arg_addr_below(top, strs, j, j);
    if j > 0 {
        lemma_arg_addr_top(top, strs, j - 1);
    }
}

/// `page` is the highest stack page, ending at `top`, laid out for `strs`
/// and `entry`: the words from the stack pointer up, each argument string
/// at its address, and zeros everywhere else (which ends each string with
/// its NUL).
pub open spec fn is_stack_page(page: Seq<u8>, top: int, strs: Seq<Seq<u8>>, entry: u64) -> bool {
    let base = top - PAGE_SIZE;
    let sp = stack_sp(top, strs, entry);
    let words = stack_words(top, strs, entry);
    &&& page.len() == PAGE_SIZE
    &&& forall|j: int, k: int|
        0 <= j < words.len() && 0 <= k < 8 ==> page[sp - base + 8 * j + k]
            == #[trigger] word_byte(words[j], k as u64)
    &&& forall|i: int, k: int|
        0 <= i < strs.len() && 0 <= k < strs[i].len() ==> page[arg_addr(top, strs, i) - base + k]
            == strs[i][k]
    &&& forall|o: int|
        0 <= o < PAGE_SIZE && !(sp - base <= o < sp - base + 8 * words.len()) && (forall|i: int|
            0 <= i < strs.len() ==> !(#[trigger] arg_addr(top, strs, i) - base <= o < arg_addr(
                top,
                strs,
                i,
            ) - base + strs[i].len())) ==> page[o] == 0
}

/// The highest stack page, laid out, and the stack pointer to start with.
pub struct StackImage {
    pub page: Vec<u8>,
    pub sp: u64,
}

/// Lays out the highest stack page for a program started with `args`
/// whose entry point is `entry`, the page ending at `top`. `None` when the
/// layout does not fit in one page.
pub fn layout_stack(top: u64, args: &Vec<Vec<u8>>, entry: u64) -> (r: Option<StackImage>)
    requires
        page_aligned(top),
        top >= PAGE_SIZE,
        args@.len() > 0,
    ensures
        r is Some <==> stack_fits(top as int, strs_of(args@), entry),
        r matches Some(img) ==> img.sp == stack_sp(top as int, strs_of(args@), entry)
            && is_stack_page(img.page@, top as int, strs_of(args@), entry),
{
    let ghost strs = strs_of(args@);
    let base: u64 = top - PAGE_SIZE;
    let mut page: Vec<u8> = Vec::new();
    while page.len() < PAGE_BYTES
        invariant
            page@.len() <= PAGE_BYTES,
            forall|o: int| 0 <= o < page@.len() ==> page@[o] == 0,
        decreases PAGE_BYTES - page@.len(),
    {
        page.push(0);
    }
    let mut ptrs: Vec<u64> = Vec::new();
    let mut sp: u64 = top;
    let mut i: usize = 0;
    while i < args.len()
        invariant
            i <= args@.len(),
            strs == strs_of(args@),
            base == top - PAGE_SIZE,
            page@.len() == PAGE_BYTES,
            base <= sp <= top,
            sp == (if i == 0 { top as int } else { arg_addr(top as int, strs, i - 1) }),
            ptrs@ == Seq::new(i as nat, |x: int| arg_addr(top as int, strs, x) as u64),
            forall|x: int, k: int|
                0 <= x < i && 0 <= k < strs[x].len() ==> page@[arg_addr(top as int, strs, x)
                    - base + k] == strs[x][k],
            forall|o: int|
                0 <= o < PAGE_SIZE && (forall|x: int|
                    0 <= x < i ==> !(#[trigger] arg_addr(top as int, strs, x) - base <= o < arg_addr(
                        top as int,
                        strs,
                        x,
                    ) - base + strs[x].len())) ==> page@[o] == 0,
        decreases args@.len() - i,
    {
        let len = args[i].len();
        proof {
            lemma_arg_addr_below(top as int, strs, i as int, i as int);
        }
        if len as u64 >= sp - base {
            proof {
                lemma_arg_addr_below(top as int, strs, i as int, strs.len() - 1);
                lemma_words_positive(top as int, strs, entry);
            }
            return None;
        }
        let next = (sp - len as u64 - 1) / STACK_ALIGN_SIZE * STACK_ALIGN_SIZE;
        if next < base {
            proof {
                lemma_arg_addr_below(top as int, strs, i as int, strs.len() - 1);
                lemma_words_positive(top as int, strs, entry);
            }
            return None;
        }
        assert(next == arg_addr(top as int, strs, i as int));
        let off = (next - base) as usize;
        let ghost before = page@;
        write_bytes(&mut page, off, &args[i]);
        proof {
            assert(strs[i as int] == args@[i as int]@);
            assert forall|x: int, k: int|
                0 <= x < i + 1 && 0 <= k < strs[x].len() implies page@[arg_addr(
                top as int,
                strs,
                x,
            ) - base + k] == strs[x][k] by {
                if x < i {
                    lemma_arg_addr_below(top as int, strs, x, i as int - 1);
                    lemma_arg_addr_below(top as int, strs, x, x);
                    lemma_arg_addr_top(top as int, strs, x);
                    assert(page@[arg_addr(top as int, strs, x) - base + k] == before[arg_addr(
                        top as int,
                        strs,
                        x,
                    ) - base + k]);
                } else {
                    assert(page@[off + k] == args@[i as int]@[k]);
                }
            }
            assert forall|o: int|
                0 <= o < PAGE_SIZE && (forall|x: int|
                    0 <= x < i + 1 ==> !(#[trigger] arg_addr(top as int, strs, x) - base <= o
                        < arg_addr(top as int, strs, x) - base + strs[x].len())) implies page@[o]
                == 0 by {
                assert(!(arg_addr(top as int, strs, i as int) - base <= o < arg_addr(
                    top as int,
                    strs,
                    i as int,
                ) - base + strs[i as int].len()));
                assert(page@[o] == before[o]);
            }
        }
        ptrs.push(next);
        sp = next;
        i = i + 1;
        proof {
            assert(ptrs@ =~= Seq::new(i as nat, |x: int| arg_addr(top as int, strs, x) as u64));
        }
    }
    proof {
        assert(ptrs@ =~= arg_ptrs(top as int, strs));
    }
    let mut words: Vec<u64> = Vec::new();
    words.push(args.len() as u64);
    let mut j: usize = 0;
    while j < ptrs.len()
        invariant
            j <= ptrs@.len(),
            words@ == seq![args@.len() as u64] + ptrs@.subrange(0, j as int),
        decreases ptrs@.len() - j,
    {
        words.push(ptrs[j]);
        j = j + 1;
        assert(words@ =~= seq![args@.len() as u64] + ptrs@.subrange(0, j as int));
    }
    assert(ptrs@.subrange(0, j as int) =~= ptrs@);
    words.push(0);
    words.push(0);
    let aux: Vec<u64> = vec![
        AuxV::ExecFn.key(), ptrs[0],
        AuxV::Egid.key(), 0,
        AuxV::Gid.key(), 0,
        AuxV::Euid.key(), 0,
        AuxV::Uid.key(), 0,
        AuxV::Entry.key(), entry,
        AuxV::PageSz.key(), PAGE_SIZE,
        AuxV::Null.key(), 0,
    ];
    let mut a: usize = 0;
    let ghost head = words@;
    while a < aux.len()
        invariant
            a <= aux@.len(),
            words@ == head + aux@.subrange(0, a as int),
        decreases aux@.len() - a,
    {
        words.push(aux[a]);
        a = a + 1;
        assert(words@ =~= head + aux@.subrange(0, a as int));
    }
    assert(aux@.subrange(0, a as int) =~= aux@);
    assert(words@ =~= stack_words(top as int, strs, entry));
    if words.len() > 512 {
        return None;
    }
    let need = 8 * words.len() as u64;
    if need > sp - base {
        return None;
    }
    let low = sp - need;
    let ghost strings_page = page@;
    let off0: usize = (low - base) as usize;
    let mut w: usize = 0;
    while w < words.len()
        invariant
            w <= words@.len(),
            words@ == stack_words(top as int, strs, entry),
            page@.len() == PAGE_BYTES,
            base <= low,
            low + 8 * words@.len() == sp,
            sp == strings_low(top as int, strs),
            sp <= top,
            words@.len() <= 512,
            off0 == low - base,
            base == top - PAGE_SIZE,
            strs == strs_of(args@),
            strings_page.len() == PAGE_BYTES,
            forall|x: int, k: int|
                0 <= x < strs.len() && 0 <= k < strs[x].len() ==> strings_page[arg_addr(
                    top as int,
                    strs,
                    x,
                ) - base + k] == strs[x][k],
            forall|o: int|
                0 <= o < PAGE_SIZE && (forall|x: int|
                    0 <= x < strs.len() ==> !(#[trigger] arg_addr(top as int, strs, x) - base
                        <= o < arg_addr(top as int, strs, x) - base + strs[x].len()))
                    ==> strings_page[o] == 0,
            forall|x: int, k: int|
                0 <= x < w && 0 <= k < 8 ==> page@[low - base + 8 * x + k] == #[trigger] word_byte(
                    words@[x],
                    k as u64,
                ),
            forall|o: int|
                0 <= o < PAGE_SIZE && !(low - base <= o < low - base + 8 * w) ==> page@[o]
                    == strings_page[o],
        decreases words@.len() - w,
    {
        let off = off0 + 8 * w;
        let ghost before = page@;
        write_word(&mut page, off, words[w]);
        proof {
            assert forall|x: int, k: int|
                0 <= x < w + 1 && 0 <= k < 8 implies page@[low - base + 8 * x + k]
                == #[trigger] word_byte(words@[x], k as u64) by {
                assert(page@[low - base + 8 * x + k] == if off <= low - base + 8 * x + k < off + 8 {
                    word_byte(words@[w as int], (low - base + 8 * x + k - off) as u64)
                } else {
                    before[low - base + 8 * x + k]
                });
            }
        }
        w = w + 1;
    }
    proof {
        assert forall|x: int, k: int|
            0 <= x < strs.len() && 0 <= k < strs[x].len() implies page@[arg_addr(
            top as int,
            strs,
            x,
        ) - base + k] == strs[x][k] by {
            lemma_arg_addr_below(top as int, strs, x, strs.len() - 1);
            lemma_arg_addr_top(top as int, strs, x);
            assert(page@[arg_addr(top as int, strs, x) - base + k] == strings_page[arg_addr(
                top as int,
                strs,
                x,
            ) - base + k]);
        }
    }
    proof {
        assert forall|o: int|
            0 <= o < PAGE_SIZE && !(low - base <= o < low - base + 8 * words@.len()) && (forall|
                x: int,
            |
                0 <= x < strs.len() ==> !(#[trigger] arg_addr(top as int, strs, x) - base <= o
                    < arg_addr(top as int, strs, x) - base + strs[x].len())) implies page@[o]
            == 0 by {
            assert(page@[o] == strings_page[o]);
        }
    }
    Some(StackImage { page, sp: low })
}

proof fn lemma_words_positive(top: int, strs: Seq<Seq<u8>>, entry: u64)
    ensures
        stack_words(top, strs, entry).len() > 0,
{
}

/// The stack of a new program: the pages to back with fresh frames and
/// the content of the highest one.
pub struct StackPlan {
    pub pages: Vec<u64>,
    pub top_page: StackImage,
}

impl Sel4Task {
    /// Plans the stack `[start, end)` of a program started with `args` whose
    /// entry point is `entry`: every page of the range gets a fresh frame,
    /// and the highest is filled as `layout_stack` lays it out. `None` when
    /// that layout does not fit in one page.
    pub fn map_stack(&self, start: u64, end: u64, args: &Vec<Vec<u8>>, entry: u64) -> (r: Option<
        StackPlan,
    >)
        requires
            page_aligned(end),
            end >= PAGE_SIZE,
            start < end,
            end as int + PAGE_SIZE <= u64::MAX,
            args@.len() > 0,
        ensures
            r is Some <==> stack_fits(end as int, strs_of(args@), entry),
            r matches Some(plan) ==> {
                &&& plan.pages@ == pages_between(align_down(start as int, PAGE_SIZE as int), end as int)
                &&& plan.top_page.sp == stack_sp(end as int, strs_of(args@), entry)
                &&& is_stack_page(plan.top_page.page@, end as int, strs_of(args@), entry)
            },
    {
        match layout_stack(end, args, entry) {
            Some(top_page) => {
                let pages = page_range(start, end);
                Some(StackPlan { pages, top_page })
            },
            None => None,
        }
    }
}

} // verus!
