//! First-fit heap allocator over a free list of address-ordered blocks.
//!
//! The free list is held as a sequence of `(address, size)` blocks, in the
//! order the allocator links them. Allocation takes the first block that
//! can hold the request at the requested alignment and splits off what is
//! left; freeing inserts the block before the first block at a higher
//! address and merges it with adjacent neighbours.

use vstd::prelude::*;

verus! {

/// Smallest block the allocator hands out or keeps on the free list (the
/// size of a free-block header: a size and a link).
pub const MIN_BLOCK_SIZE: usize = 16;

/// Alignment of every allocation.
pub const HEAP_ALIGN: usize = 8;

/// `align` is a power of two.
pub open spec fn is_pow2_usize(align: usize) -> bool {
    align > 0 && align & ((align - 1) as usize) == 0
}

/// The heap's alignment is a power of two.
pub proof fn lemma_heap_align_pow2()
    ensures
        is_pow2_usize(HEAP_ALIGN),
{
    assert(8usize > 0 && 8usize & ((8usize - 1) as usize) == 0) by (bit_vector);
}

/// `val` rounded up to a multiple of `align` (a power of two).
pub open spec fn spec_align_up_usize(val: usize, align: usize) -> usize {
    ((val + (align - 1)) as usize) & !((align - 1) as usize)
}

proof fn lemma_align_up_usize(val: usize, align: usize)
    requires
        is_pow2_usize(align),
        val + (align - 1) <= usize::MAX,
    ensures
        val <= spec_align_up_usize(val, align),
        spec_align_up_usize(val, align) - val < align,
        spec_align_up_usize(val, align) & ((align - 1) as usize) == 0,
{
    let m = (align - 1) as usize;
    let x = (val + m) as usize;
    assert(align > 0 && align & m == 0 && m == align - 1 && x == val + m ==> (
    x & !m) >= val && (x & !m) - val < align && (x & !m) & m == 0) by (bit_vector);
}

/// The larger of two values.
pub open spec fn spec_max(a: usize, b: usize) -> usize {
    if a >= b {
        a
    } else {
        b
    }
}

/// Where an allocation of `size` bytes at `align` starts inside block `b`.
pub open spec fn spec_block_start(b: (usize, usize), align: usize) -> usize {
    spec_align_up_usize(b.0, align)
}

/// Whether block `b` can hold `size` bytes at alignment `align`.
pub open spec fn spec_fits(b: (usize, usize), size: usize, align: usize) -> bool {
    b.1 >= size + (spec_block_start(b, align) - b.0)
}

/// What is left of block `b` on the free list after an allocation in it:
/// the tail, if it can hold a block, preceded by the alignment gap if that
/// can hold a block too; smaller pieces are given up.
#[verifier::opaque]
pub open spec fn spec_leftover(b: (usize, usize), size: usize, align: usize) -> Seq<(usize, usize)> {
    let start = spec_block_start(b, align);
    let off = start - b.0;
    let rem = b.1 - size - off;
    if rem >= MIN_BLOCK_SIZE {
        if off >= MIN_BLOCK_SIZE {
            seq![(b.0, off as usize), ((start + size) as usize, rem as usize)]
        } else {
            seq![((start + size) as usize, rem as usize)]
        }
    } else {
        Seq::empty()
    }
}

/// Index of the first block that can hold the request, if any.
pub open spec fn spec_first_fit(list: Seq<(usize, usize)>, size: usize, align: usize) -> Option<int> {
    if exists|i: int| 0 <= i < list.len() && spec_fits(#[trigger] list[i], size, align) {
        Some(choose|i: int|
            0 <= i < list.len() && spec_fits(#[trigger] list[i], size, align) && forall|j: int|
                0 <= j < i ==> !spec_fits(list[j], size, align))
    } else {
        None
    }
}

/// Index of the first block at an address above `addr` (the list length if none).
#[verifier::opaque]
pub open spec fn spec_insert_pos(list: Seq<(usize, usize)>, addr: usize) -> int {
    if exists|i: int| 0 <= i < list.len() && addr < (#[trigger] list[i]).0 {
        choose|i: int|
            0 <= i < list.len() && addr < (#[trigger] list[i]).0 && forall|j: int| 0 <= j < i ==> addr >= list[j].0
    } else {
        list.len() as int
    }
}

/// The free list after freeing `[addr, addr + size)`: the block goes in
/// at its insertion position, absorbing the next block when it ends where
/// that one starts, and is absorbed by the previous block when that one
/// ends where it starts.
pub open spec fn spec_free_list_after(list: Seq<(usize, usize)>, addr: usize, size: usize) -> Seq<(usize, usize)> {
    spec_free_list_at(list, spec_insert_pos(list, addr), addr, size)
}

/// The free list after freeing `[addr, addr + size)` with insertion
/// position `i`.
pub open spec fn spec_free_list_at(list: Seq<(usize, usize)>, i: int, addr: usize, size: usize) -> Seq<(usize, usize)> {
    let merge_next = i < list.len() && addr + size == list[i].0;
    let merged: (usize, usize) = if merge_next {
        (addr, (size + list[i].1) as usize)
    } else {
        (addr, size)
    };
    let rest = if merge_next {
        list.skip(i + 1)
    } else {
        list.skip(i)
    };
    if i > 0 && list[i - 1].0 + list[i - 1].1 == addr {
        list.take(i - 1).push((list[i - 1].0, (list[i - 1].1 + merged.1) as usize)) + rest
    } else {
        list.take(i).push(merged) + rest
    }
}

/// The free list is sorted by address and its blocks are disjoint.
pub open spec fn spec_sorted_disjoint(list: Seq<(usize, usize)>) -> bool {
    forall|i: int, j: int| 0 <= i < j < list.len() ==> list[i].0 + list[i].1 <= list[j].0
}

/// First-fit free-list heap allocator.
pub struct HeapAllocator {
    blocks: Vec<(usize, usize)>,
}

impl View for HeapAllocator {
    type V = Seq<(usize, usize)>;

    closed spec fn view(&self) -> Seq<(usize, usize)> {
        self.blocks@
    }
}

impl HeapAllocator {
    /// Every free block ends within the address space and can hold a
    /// block header.
    pub open spec fn wf(&self) -> bool {
        forall|i: int| 0 <= i < self@.len() ==> (#[trigger] self@[i]).0 + self@[i].1 <= usize::MAX
            && self@[i].1 >= MIN_BLOCK_SIZE
    }

    /// Creates an allocator without memory.
    pub fn new() -> (r: Self)
        ensures
            r.wf(),
            r@ == Seq::<(usize, usize)>::empty(),
    {
        HeapAllocator { blocks: Vec::new() }
    }

    /// Hands the region `[heap_start, heap_start + heap_size)` to the
    /// allocator as one free block starting at the first 8-aligned address.
    /// A region too small for one block leaves the allocator unchanged.
    pub fn init(&mut self, heap_start: usize, heap_size: usize)
        requires
            old(self).wf(),
            heap_start + heap_size <= usize::MAX,
            heap_start + 7 <= usize::MAX,
        ensures
            final(self).wf(),
            ({
                let start = spec_align_up_usize(heap_start, 8);
                let adjusted = if heap_size >= start - heap_start { heap_size - (start - heap_start) } else { 0 };
                if adjusted < MIN_BLOCK_SIZE {
                    final(self)@ == old(self)@
                } else {
                    final(self)@ == seq![(start, adjusted as usize)]
                }
            }),
    {
        proof {
            lemma_heap_align_pow2();
            lemma_align_up_usize(heap_start, 8);
        }
        let aligned_start = align_up_usize(heap_start, HEAP_ALIGN);
        let adjusted_size = heap_size.saturating_sub(aligned_start - heap_start);
        if adjusted_size < MIN_BLOCK_SIZE {
            return;
        }
        self.blocks = Vec::new();
        self.blocks.push((aligned_start, adjusted_size));
    }

    /// Allocates `size` bytes at alignment `align` (a power of two) and
    /// returns the address, 0 when no free block fits. Requests are rounded
    /// up to at least 16 bytes and 8-byte alignment. A zero-sized request
    /// returns the dangling address 1 and changes nothing.
    pub fn allocate(&mut self, size: usize, align: usize) -> (r: usize)
        requires
            old(self).wf(),
            is_pow2_usize(align),
            spec_max(size, MIN_BLOCK_SIZE) + spec_max(align, HEAP_ALIGN) <= usize::MAX,
            forall|i: int| 0 <= i < old(self)@.len() ==> (#[trigger] old(self)@[i]).0 + spec_max(align, HEAP_ALIGN) <= usize::MAX,
        ensures
            final(self).wf(),
            size == 0 ==> r == 1 && final(self)@ == old(self)@,
            size > 0 ==> ({
                let sz = spec_max(size, MIN_BLOCK_SIZE);
                let al = spec_max(align, HEAP_ALIGN);
                match spec_first_fit(old(self)@, sz, al) {
                    Some(i) => {
                        &&& r == spec_block_start(old(self)@[i], al)
                        &&& final(self)@ == old(self)@.take(i) + spec_leftover(old(self)@[i], sz, al) + old(self)@.skip(i + 1)
                    },
                    None => r == 0 && final(self)@ == old(self)@,
                }
            }),
    {
        if size == 0 {
            return 1;
        }
        let sz = if size >= MIN_BLOCK_SIZE { size } else { MIN_BLOCK_SIZE };
        let al = if align >= HEAP_ALIGN { align } else { HEAP_ALIGN };
        proof {
            lemma_heap_align_pow2();
        }
        let ghost list = self@;
        let mut i: usize = 0;
        while i < self.blocks.len()
            invariant
                self@ == list,
                old(self)@ == list,
                old(self).wf(),
                0 <= i <= list.len(),
                size > 0,
                sz == spec_max(size, MIN_BLOCK_SIZE),
                al == spec_max(align, HEAP_ALIGN),
                is_pow2_usize(al),
                sz + al <= usize::MAX,
                sz >= MIN_BLOCK_SIZE,
                forall|k: int| 0 <= k < list.len() ==> (#[trigger] list[k]).0 + al <= usize::MAX,
                forall|j: int| 0 <= j < i ==> !spec_fits(#[trigger] list[j], sz, al),
            decreases list.len() - i,
        {
            let (block_addr, block_size) = self.blocks[i];
            proof {
                assert(list[i as int].0 + al <= usize::MAX);
                lemma_align_up_usize(block_addr, al);
            }
            let aligned_addr = align_up_usize(block_addr, al);
            let alignment_offset = aligned_addr - block_addr;
            if block_size >= sz + alignment_offset {
                let remaining = block_size - sz - alignment_offset;
                let ghost b = list[i as int];
                let ghost left = spec_leftover(b, sz, al);
                proof {
                    reveal(spec_leftover);
                    assert(spec_fits(b, sz, al));
                    let k = choose|k: int|
                        0 <= k < list.len() && spec_fits(#[trigger] list[k], sz, al) && forall|j: int|
                            0 <= j < k ==> !spec_fits(list[j], sz, al);
                    if k < i {
                    } else if k > i {
                        assert(!spec_fits(list[i as int], sz, al));
                    }
                    assert(spec_first_fit(list, sz, al) == Some(i as int));
                }
                if remaining >= MIN_BLOCK_SIZE {
                    let new_block = (aligned_addr + sz, remaining);
                    if alignment_offset >= MIN_BLOCK_SIZE {
                        self.blocks.set(i, (block_addr, alignment_offset));
                        self.blocks.insert(i + 1, new_block);
                        assert(self@ =~= list.take(i as int) + left + list.skip(i as int + 1));
                    } else {
                        self.blocks.set(i, new_block);
                        assert(self@ =~= list.take(i as int) + left + list.skip(i as int + 1));
                    }
                } else {
                    self.blocks.remove(i);
                    assert(self@ =~= list.take(i as int) + left + list.skip(i as int + 1));
                }
                proof {
                    assert forall|k: int| 0 <= k < self@.len() implies (#[trigger] self@[k]).0 + self@[k].1
                        <= usize::MAX && self@[k].1 >= MIN_BLOCK_SIZE by {
                        if k < i {
                            assert(self@[k] == list[k]);
                        } else if k >= i + left.len() {
                            assert(self@[k] == list[k - left.len() + 1]);
                        }
                    }
                }
                return aligned_addr;
            }
            i = i + 1;
        }
        0
    }

    /// Frees the `size` bytes at `addr` (sizes below 16 count as 16): the
    /// block is linked in before the first block at a higher address and
    /// merged with a neighbour it touches. Zero-sized frees do nothing.
    #[verifier::rlimit(80)]
    pub fn dealloc(&mut self, addr: usize, size: usize)
        requires
            old(self).wf(),
            addr + spec_max(size, MIN_BLOCK_SIZE) <= usize::MAX,
        ensures
            final(self).wf(),
            size == 0 ==> final(self)@ == old(self)@,
            size > 0 ==> final(self)@ == spec_free_list_after(old(self)@, addr, spec_max(size, MIN_BLOCK_SIZE)),
    {
        if size == 0 {
            return;
        }
        let sz = if size >= MIN_BLOCK_SIZE { size } else { MIN_BLOCK_SIZE };
        let ghost list = self@;
        let mut i: usize = 0;
        while i < self.blocks.len() && addr >= self.blocks[i].0
            invariant
                self@ == list,
                0 <= i <= list.len(),
                forall|j: int| 0 <= j < i ==> addr >= (#[trigger] list[j]).0,
            decreases list.len() - i,
        {
            i = i + 1;
        }
        proof {
            reveal(spec_insert_pos);
            if i < list.len() {
                assert(addr < list[i as int].0);
                let k = choose|k: int|
                    0 <= k < list.len() && addr < (#[trigger] list[k]).0 && forall|j: int| 0 <= j < k ==> addr >= list[j].0;
                if k < i {
                } else if k > i {
                    assert(addr >= list[i as int].0);
                }
            } else {
                if exists|k: int| 0 <= k < list.len() && addr < (#[trigger] list[k]).0 {
                    let k = choose|k: int| 0 <= k < list.len() && addr < (#[trigger] list[k]).0;
                    assert(addr >= list[k].0);
                }
            }
            assert(spec_insert_pos(list, addr) == i as int);
        }
        let merge_next = i < self.blocks.len() && addr + sz == self.blocks[i].0;
        let mut merged = (addr, sz);
        if merge_next {
            proof {
                assert(list[i as int].0 + list[i as int].1 <= usize::MAX);
            }
            merged = (addr, sz + self.blocks[i].1);
            self.blocks.remove(i);
        }
        let ghost rest = if merge_next { list.skip(i as int + 1) } else { list.skip(i as int) };
        assert(self@ =~= list.take(i as int) + rest);
        if i > 0 && self.blocks[i - 1].0 + self.blocks[i - 1].1 == addr {
            let (paddr, psize) = self.blocks[i - 1];
            self.blocks.set(i - 1, (paddr, psize + merged.1));
            assert(self@ =~= list.take(i as int - 1).push((list[i - 1].0, (list[i - 1].1 + merged.1) as usize)) + rest);
        } else {
            self.blocks.insert(i, merged);
            assert(self@ =~= list.take(i as int).push(merged) + rest);
        }
        proof {
            assert forall|k: int| 0 <= k < self@.len() implies (#[trigger] self@[k]).0 + self@[k].1 <= usize::MAX
                && self@[k].1 >= MIN_BLOCK_SIZE by {
                let t = if i > 0 && list[i - 1].0 + list[i - 1].1 == addr { i - 1 } else { i as int };
                if k < t {
                    assert(self@[k] == list[k]);
                } else if k > t {
                    assert(self@[k] == rest[k - t - 1]);
                }
            }
        }
    }
}

proof fn lemma_leftover_inside(b: (usize, usize), sz: usize, al: usize)
    requires
        is_pow2_usize(al),
        b.0 + al <= usize::MAX,
        b.0 + b.1 <= usize::MAX,
        spec_fits(b, sz, al),
    ensures
        b.0 <= spec_block_start(b, al),
        spec_block_start(b, al) + sz <= b.0 + b.1,
        spec_sorted_disjoint(spec_leftover(b, sz, al)),
        forall|k: int| 0 <= k < spec_leftover(b, sz, al).len() ==> b.0 <= (#[trigger] spec_leftover(b, sz, al)[k]).0
            && spec_leftover(b, sz, al)[k].0 + spec_leftover(b, sz, al)[k].1 <= b.0 + b.1
            && (spec_leftover(b, sz, al)[k].0 + spec_leftover(b, sz, al)[k].1 <= spec_block_start(b, al)
            || spec_block_start(b, al) + sz <= spec_leftover(b, sz, al)[k].0),
{
    reveal(spec_leftover);
    lemma_align_up_usize(b.0, al);
}

proof fn lemma_splice_index(list: Seq<(usize, usize)>, i: int, left: Seq<(usize, usize)>, k: int)
    requires
        0 <= i < list.len(),
        0 <= k < list.len() - 1 + left.len(),
    ensures
        ({
            let n = list.take(i) + left + list.skip(i + 1);
            &&& k < i ==> n[k] == list[k]
            &&& i <= k < i + left.len() ==> n[k] == left[k - i]
            &&& k >= i + left.len() ==> n[k] == list[k - left.len() + 1]
        }),
{
}

proof fn lemma_splice_sorted(list: Seq<(usize, usize)>, i: int, left: Seq<(usize, usize)>, start: int, sz: int)
    requires
        spec_sorted_disjoint(list),
        0 <= i < list.len(),
        spec_sorted_disjoint(left),
        list[i].0 <= start,
        start + sz <= list[i].0 + list[i].1,
        forall|k: int| 0 <= k < left.len() ==> list[i].0 <= (#[trigger] left[k]).0 && left[k].0 + left[k].1
            <= list[i].0 + list[i].1 && (left[k].0 + left[k].1 <= start || start + sz <= left[k].0),
    ensures
        ({
            let n = list.take(i) + left + list.skip(i + 1);
            &&& spec_sorted_disjoint(n)
            &&& forall|k: int| 0 <= k < n.len() ==> (#[trigger] n[k]).0 + n[k].1 <= start || start + sz <= n[k].0
        }),
{
    let n = list.take(i) + left + list.skip(i + 1);
    let ll = left.len() as int;
    assert(n.len() == list.len() - 1 + ll);
    assert forall|p: int, q: int| 0 <= p < q < n.len() implies n[p].0 + n[p].1 <= n[q].0 by {
        lemma_splice_index(list, i, left, p);
        lemma_splice_index(list, i, left, q);
        if q < i {
        } else if p < i && q < i + ll {
            assert(list[p].0 + list[p].1 <= list[i].0);
        } else if p < i {
            assert(list[p].0 + list[p].1 <= list[q - ll + 1].0);
        } else if p < i + ll && q < i + ll {
        } else if p < i + ll {
            assert(list[i].0 + list[i].1 <= list[q - ll + 1].0);
        } else {
            assert(list[p - ll + 1].0 + list[p - ll + 1].1 <= list[q - ll + 1].0);
        }
    }
    assert forall|k: int| 0 <= k < n.len() implies (#[trigger] n[k]).0 + n[k].1 <= start || start + sz <= n[k].0 by {
        lemma_splice_index(list, i, left, k);
        if k < i {
            assert(list[k].0 + list[k].1 <= list[i].0);
        } else if k < i + ll {
        } else {
            assert(list[i].0 + list[i].1 <= list[k - ll + 1].0);
        }
    }
}

/// Allocating from a block that fits keeps the free list sorted and
/// disjoint, and the range handed out lies inside that block and overlaps
/// no block left on the free list.
pub proof fn lemma_allocate_keeps_order(list: Seq<(usize, usize)>, i: int, sz: usize, al: usize)
    requires
        spec_sorted_disjoint(list),
        is_pow2_usize(al),
        0 <= i < list.len(),
        list[i].0 + al <= usize::MAX,
        list[i].0 + list[i].1 <= usize::MAX,
        spec_fits(list[i], sz, al),
    ensures
        ({
            let b = list[i];
            let start = spec_block_start(b, al);
            let n = list.take(i) + spec_leftover(b, sz, al) + list.skip(i + 1);
            &&& spec_sorted_disjoint(n)
            &&& b.0 <= start && start + sz <= b.0 + b.1
            &&& start & ((al - 1) as usize) == 0
            &&& forall|k: int| 0 <= k < n.len() ==> (#[trigger] n[k]).0 + n[k].1 <= start || start + sz <= n[k].0
        }),
{
    let b = list[i];
    lemma_align_up_usize(b.0, al);
    lemma_leftover_inside(b, sz, al);
    lemma_splice_sorted(list, i, spec_leftover(b, sz, al), spec_block_start(b, al) as int, sz as int);
}

proof fn lemma_concat_sorted(x: Seq<(usize, usize)>, y: Seq<(usize, usize)>)
    requires
        spec_sorted_disjoint(x),
        spec_sorted_disjoint(y),
        x.len() > 0 && y.len() > 0 ==> x.last().0 + x.last().1 <= y[0].0,
    ensures
        spec_sorted_disjoint(x + y),
{
    let n = x + y;
    assert forall|p: int, q: int| 0 <= p < q < n.len() implies n[p].0 + n[p].1 <= n[q].0 by {
        if q < x.len() {
        } else if p >= x.len() {
            assert(y[p - x.len()].0 + y[p - x.len()].1 <= y[q - x.len()].0);
        } else {
            if p < x.len() - 1 {
                assert(x[p].0 + x[p].1 <= x[x.len() - 1].0);
            }
            if q > x.len() {
                assert(y[0].0 + y[0].1 <= y[q - x.len()].0);
            }
        }
    }
}

#[verifier::rlimit(40)]
proof fn lemma_free_at_keeps_order(list: Seq<(usize, usize)>, i: int, addr: usize, size: usize)
    requires
        spec_sorted_disjoint(list),
        0 <= i <= list.len(),
        size > 0,
        addr + size <= usize::MAX,
        forall|k: int| 0 <= k < list.len() ==> (#[trigger] list[k]).0 + list[k].1 <= usize::MAX,
        forall|j: int| 0 <= j < i ==> (#[trigger] list[j]).0 + list[j].1 <= addr,
        i < list.len() ==> addr + size <= list[i].0,
    ensures
        spec_sorted_disjoint(spec_free_list_at(list, i, addr, size)),
{
    let merge_next = i < list.len() && addr + size == list[i].0;
    let merged: (usize, usize) = if merge_next { (addr, (size + list[i].1) as usize) } else { (addr, size) };
    let rest = if merge_next { list.skip(i + 1) } else { list.skip(i) };
    assert(spec_sorted_disjoint(rest));
    assert(rest.len() > 0 ==> merged.0 + merged.1 <= rest[0].0) by {
        if rest.len() > 0 {
            if merge_next {
                assert(list[i].0 + list[i].1 <= list[i + 1].0);
            }
        }
    }
    if i > 0 && list[i - 1].0 + list[i - 1].1 == addr {
        let head = list.take(i - 1).push((list[i - 1].0, (list[i - 1].1 + merged.1) as usize));
        assert(spec_sorted_disjoint(head)) by {
            assert forall|p: int, q: int| 0 <= p < q < head.len() implies head[p].0 + head[p].1 <= head[q].0 by {
                if q == head.len() - 1 {
                    assert(list[p].0 + list[p].1 <= list[i - 1].0);
                } else {
                    assert(list[p].0 + list[p].1 <= list[q].0);
                }
            }
        }
        lemma_concat_sorted(head, rest);
    } else {
        let head = list.take(i).push(merged);
        assert(spec_sorted_disjoint(head)) by {
            assert forall|p: int, q: int| 0 <= p < q < head.len() implies head[p].0 + head[p].1 <= head[q].0 by {
                if q == head.len() - 1 {
                    assert(list[p].0 + list[p].1 <= addr);
                } else {
                    assert(list[p].0 + list[p].1 <= list[q].0);
                }
            }
        }
        lemma_concat_sorted(head, rest);
    }
}

proof fn lemma_exists_first_above(list: Seq<(usize, usize)>, addr: usize, k: int)
    requires
        0 <= k < list.len(),
        addr < list[k].0,
    ensures
        exists|m: int| 0 <= m < list.len() && addr < (#[trigger] list[m]).0 && forall|j: int| 0 <= j < m ==> addr >= list[j].0,
    decreases k,
{
    if exists|j: int| 0 <= j < k && addr < (#[trigger] list[j]).0 {
        let j = choose|j: int| 0 <= j < k && addr < (#[trigger] list[j]).0;
        lemma_exists_first_above(list, addr, j);
    } else {
        assert(forall|j: int| 0 <= j < k ==> addr >= (#[trigger] list[j]).0);
    }
}

proof fn lemma_insert_pos(list: Seq<(usize, usize)>, addr: usize)
    ensures
        0 <= spec_insert_pos(list, addr) <= list.len(),
        forall|j: int| 0 <= j < spec_insert_pos(list, addr) ==> addr >= (#[trigger] list[j]).0,
        spec_insert_pos(list, addr) < list.len() ==> addr < list[spec_insert_pos(list, addr)].0,
{
    reveal(spec_insert_pos);
    if exists|k: int| 0 <= k < list.len() && addr < (#[trigger] list[k]).0 {
        let k = choose|k: int| 0 <= k < list.len() && addr < (#[trigger] list[k]).0;
        lemma_exists_first_above(list, addr, k);
    } else {
        assert forall|j: int| 0 <= j < list.len() implies addr >= (#[trigger] list[j]).0 by {
            if addr < list[j].0 {
                assert(exists|k: int| 0 <= k < list.len() && addr < (#[trigger] list[k]).0);
            }
        }
    }
}

/// Freeing a range that overlaps no free block keeps the free list sorted
/// by address and its blocks disjoint.
pub proof fn lemma_dealloc_keeps_order(list: Seq<(usize, usize)>, addr: usize, size: usize)
    requires
        spec_sorted_disjoint(list),
        size > 0,
        addr + size <= usize::MAX,
        forall|k: int| 0 <= k < list.len() ==> (#[trigger] list[k]).0 + list[k].1 <= usize::MAX,
        forall|k: int| 0 <= k < list.len() ==> (#[trigger] list[k]).0 + list[k].1 <= addr || addr + size <= list[k].0,
    ensures
        spec_sorted_disjoint(spec_free_list_after(list, addr, size)),
{
    lemma_insert_pos(list, addr);
    let i = spec_insert_pos(list, addr);
    assert forall|j: int| 0 <= j < i implies (#[trigger] list[j]).0 + list[j].1 <= addr by {
        assert(addr >= list[j].0);
    }
    lemma_free_at_keeps_order(list, i, addr, size);
}

/// Memory just freed can be allocated again: after `[addr, addr + size)`
/// goes back on the free list (at an 8-byte aligned address), a first-fit
/// search for `size` bytes at the heap's alignment finds a block.
pub proof fn lemma_freed_block_fits_again(list: Seq<(usize, usize)>, addr: usize, size: usize)
    requires
        size > 0,
        addr + size <= usize::MAX,
        addr & 7usize == 0,
        forall|k: int| 0 <= k < list.len() ==> (#[trigger] list[k]).0 + list[k].1 <= usize::MAX,
    ensures
        spec_first_fit(spec_free_list_after(list, addr, size), size, HEAP_ALIGN) is Some,
{
    lemma_insert_pos(list, addr);
    let i = spec_insert_pos(list, addr);
    let n = spec_free_list_after(list, addr, size);
    let merge_next = i < list.len() && addr + size == list[i].0;
    let merged: (usize, usize) = if merge_next {
        (addr, (size + list[i].1) as usize)
    } else {
        (addr, size)
    };
    let rest = if merge_next {
        list.skip(i + 1)
    } else {
        list.skip(i)
    };
    assert(merged.0 == addr && merged.1 >= size && addr + merged.1 <= usize::MAX);
    let j: int;
    let b: (usize, usize);
    if i > 0 && list[i - 1].0 + list[i - 1].1 == addr {
        j = i - 1;
        b = (list[i - 1].0, (list[i - 1].1 + merged.1) as usize);
        assert(n == list.take(i - 1).push(b) + rest);
    } else {
        j = i;
        b = merged;
        assert(n == list.take(i).push(b) + rest);
    }
    assert(n[j] == b);
    assert(b.0 <= addr && b.0 + b.1 >= addr + size && b.0 + b.1 <= usize::MAX);
    let b0 = b.0;
    let st = spec_align_up_usize(b0, HEAP_ALIGN);
    assert(st == ((b0 + 7) as usize) & !7usize);
    assert(b0 <= addr && addr & 7usize == 0 ==> b0 <= ((b0 + 7) as usize) & !7usize
        && ((b0 + 7) as usize) & !7usize <= addr) by (bit_vector);
    assert(spec_fits(n[j], size, HEAP_ALIGN));
    assert(0 <= j < n.len());
}

/// The blocks are sorted by address with a gap between any two: they
/// neither overlap nor touch.
pub open spec fn spec_separated(list: Seq<(usize, usize)>) -> bool {
    forall|i: int, j: int| 0 <= i < j < list.len() ==> list[i].0 + list[i].1 < list[j].0
}

/// The free list invariant: blocks separated, each at least
/// `MIN_BLOCK_SIZE` bytes and ending within the address space.
pub open spec fn spec_heap_inv(list: Seq<(usize, usize)>) -> bool {
    &&& spec_separated(list)
    &&& forall|k: int| 0 <= k < list.len() ==> (#[trigger] list[k]).1 >= MIN_BLOCK_SIZE && list[k].0 + list[k].1
        <= usize::MAX
}

proof fn lemma_concat_separated(x: Seq<(usize, usize)>, y: Seq<(usize, usize)>)
    requires
        spec_separated(x),
        spec_separated(y),
        x.len() > 0 && y.len() > 0 ==> x.last().0 + x.last().1 < y[0].0,
    ensures
        spec_separated(x + y),
{
    let n = x + y;
    assert forall|p: int, q: int| 0 <= p < q < n.len() implies n[p].0 + n[p].1 < n[q].0 by {
        if q < x.len() {
        } else if p >= x.len() {
            assert(y[p - x.len()].0 + y[p - x.len()].1 < y[q - x.len()].0);
        } else {
            if p < x.len() - 1 {
                assert(x[p].0 + x[p].1 < x[x.len() - 1].0);
            }
            if q > x.len() {
                assert(y[0].0 + y[0].1 < y[q - x.len()].0);
            }
        }
    }
}

/// What an allocation from block `i` leaves: the address handed out is
/// aligned, the range `[start, start + sz)` lies in that old block and
/// meets no block of the new free list, and the new list keeps the
/// invariant.
pub open spec fn spec_allocation_sound(list: Seq<(usize, usize)>, i: int, sz: usize, al: usize) -> bool {
    let b = list[i];
    let start = spec_block_start(b, al);
    let n = list.take(i) + spec_leftover(b, sz, al) + list.skip(i + 1);
    &&& 0 <= i < list.len()
    &&& start & ((al - 1) as usize) == 0
    &&& b.0 <= start && start + sz <= b.0 + b.1
    &&& forall|k: int| 0 <= k < n.len() ==> (#[trigger] n[k]).0 + n[k].1 <= start || start + sz <= n[k].0
    &&& spec_heap_inv(n)
}

/// What one allocation does to a free list that keeps the invariant: when
/// a block fits, the allocation from the first such block is sound.
pub proof fn lemma_allocate_law(list: Seq<(usize, usize)>, size: usize, align: usize)
    requires
        spec_heap_inv(list),
        is_pow2_usize(align),
        size > 0,
        spec_max(size, MIN_BLOCK_SIZE) + spec_max(align, HEAP_ALIGN) <= usize::MAX,
        forall|k: int| 0 <= k < list.len() ==> (#[trigger] list[k]).0 + spec_max(align, HEAP_ALIGN) <= usize::MAX,
    ensures
        spec_first_fit(list, spec_max(size, MIN_BLOCK_SIZE), spec_max(align, HEAP_ALIGN)) matches Some(i)
            ==> spec_allocation_sound(list, i, spec_max(size, MIN_BLOCK_SIZE), spec_max(align, HEAP_ALIGN)),
{
    let sz = spec_max(size, MIN_BLOCK_SIZE);
    let al = spec_max(align, HEAP_ALIGN);
    if align < HEAP_ALIGN {
        lemma_heap_align_pow2();
    }
    lemma_first_fit_found(list, sz, al);
    let ff = spec_first_fit(list, sz, al);
    if ff is Some {
        let i = ff->0;
        assert(list[i].0 + al <= usize::MAX);
        lemma_allocate_at(list, i, sz, al);
    }
}

/// The block first fit picks can hold the request.
pub proof fn lemma_first_fit_found(list: Seq<(usize, usize)>, sz: usize, al: usize)
    ensures
        spec_first_fit(list, sz, al) matches Some(i) ==> 0 <= i < list.len() && spec_fits(list[i], sz, al),
{
    if exists|k: int| 0 <= k < list.len() && spec_fits(#[trigger] list[k], sz, al) {
        let k = choose|k: int| 0 <= k < list.len() && spec_fits(#[trigger] list[k], sz, al);
        lemma_first_fit_minimal(list, sz, al, k);
    }
}

proof fn lemma_first_fit_minimal(list: Seq<(usize, usize)>, sz: usize, al: usize, k: int)
    requires
        0 <= k < list.len(),
        spec_fits(list[k], sz, al),
    ensures
        exists|i: int|
            0 <= i < list.len() && spec_fits(#[trigger] list[i], sz, al) && forall|j: int|
                0 <= j < i ==> !spec_fits(list[j], sz, al),
    decreases k,
{
    if exists|j: int| 0 <= j < k && spec_fits(#[trigger] list[j], sz, al) {
        let j = choose|j: int| 0 <= j < k && spec_fits(#[trigger] list[j], sz, al);
        lemma_first_fit_minimal(list, sz, al, j);
    } else {
        assert(forall|j: int| 0 <= j < k ==> !spec_fits(#[trigger] list[j], sz, al));
    }
}

proof fn lemma_allocate_at(list: Seq<(usize, usize)>, i: int, sz: usize, al: usize)
    requires
        spec_heap_inv(list),
        is_pow2_usize(al),
        0 <= i < list.len(),
        list[i].0 + al <= usize::MAX,
        spec_fits(list[i], sz, al),
        sz >= MIN_BLOCK_SIZE,
    ensures
        spec_allocation_sound(list, i, sz, al),
{
    let b = list[i];
    assert(spec_sorted_disjoint(list)) by {
        assert forall|p: int, q: int| 0 <= p < q < list.len() implies list[p].0 + list[p].1 <= list[q].0 by {
            assert(list[p].0 + list[p].1 < list[q].0);
        }
    }
    lemma_allocate_keeps_order(list, i, sz, al);
    let left = spec_leftover(b, sz, al);
    lemma_leftover_inside(b, sz, al);
    assert(spec_separated(left) && forall|k: int| 0 <= k < left.len() ==> (#[trigger] left[k]).1 >= MIN_BLOCK_SIZE)
        by {
        reveal(spec_leftover);
    }
    lemma_splice_heap_inv(list, i, left);
}

proof fn lemma_splice_heap_inv(list: Seq<(usize, usize)>, i: int, left: Seq<(usize, usize)>)
    requires
        spec_heap_inv(list),
        0 <= i < list.len(),
        spec_separated(left),
        forall|k: int| 0 <= k < left.len() ==> list[i].0 <= (#[trigger] left[k]).0 && left[k].0 + left[k].1
            <= list[i].0 + list[i].1 && left[k].1 >= MIN_BLOCK_SIZE,
    ensures
        spec_heap_inv(list.take(i) + left + list.skip(i + 1)),
{
    let n = list.take(i) + left + list.skip(i + 1);
    let ll = left.len() as int;
    assert forall|p: int, q: int| 0 <= p < q < n.len() implies n[p].0 + n[p].1 < n[q].0 by {
        lemma_splice_index(list, i, left, p);
        lemma_splice_index(list, i, left, q);
        if q < i {
        } else if p < i && q < i + ll {
            assert(list[p].0 + list[p].1 < list[i].0);
        } else if p < i {
            assert(list[p].0 + list[p].1 < list[q - ll + 1].0);
        } else if p < i + ll && q < i + ll {
        } else if p < i + ll {
            assert(list[i].0 + list[i].1 < list[q - ll + 1].0);
        } else {
            assert(list[p - ll + 1].0 + list[p - ll + 1].1 < list[q - ll + 1].0);
        }
    }
    assert forall|k: int| 0 <= k < n.len() implies (#[trigger] n[k]).1 >= MIN_BLOCK_SIZE && n[k].0 + n[k].1
        <= usize::MAX by {
        lemma_splice_index(list, i, left, k);
        if k < i {
        } else if k < i + ll {
            assert(left[k - i].1 >= MIN_BLOCK_SIZE);
        } else {
            assert(list[k - ll + 1].1 >= MIN_BLOCK_SIZE);
        }
    }
}

/// The addresses of one block.
pub open spec fn spec_block_bytes(b: (usize, usize)) -> Set<int> {
    Set::new(|x: int| b.0 <= x < b.0 + b.1)
}

/// The addresses the free list covers.
pub open spec fn spec_free_bytes(list: Seq<(usize, usize)>) -> Set<int>
    decreases list.len(),
{
    if list.len() == 0 {
        Set::empty()
    } else {
        spec_free_bytes(list.drop_last()).union(spec_block_bytes(list.last()))
    }
}

proof fn lemma_free_bytes_concat(a: Seq<(usize, usize)>, b: Seq<(usize, usize)>)
    ensures
        spec_free_bytes(a + b) == spec_free_bytes(a).union(spec_free_bytes(b)),
    decreases b.len(),
{
    if b.len() == 0 {
        assert(a + b =~= a);
        assert(spec_free_bytes(a + b) =~= spec_free_bytes(a).union(spec_free_bytes(b)));
    } else {
        assert((a + b).drop_last() =~= a + b.drop_last());
        assert((a + b).last() == b.last());
        lemma_free_bytes_concat(a, b.drop_last());
        assert(spec_free_bytes(a + b) =~= spec_free_bytes(a).union(spec_free_bytes(b)));
    }
}

proof fn lemma_free_bytes_one(x: (usize, usize))
    ensures
        spec_free_bytes(seq![x]) == spec_block_bytes(x),
{
    let s = seq![x];
    assert(s.drop_last() =~= Seq::<(usize, usize)>::empty());
    assert(s.last() == x);
    assert(spec_free_bytes(s.drop_last()) == Set::<int>::empty());
    assert(spec_free_bytes(s) =~= spec_block_bytes(x));
}

/// The bytes of `take(i)`, of the block at `i` and of `skip(i + 1)` make up
/// the bytes of the list.
proof fn lemma_free_bytes_split(list: Seq<(usize, usize)>, i: int)
    requires
        0 <= i < list.len(),
    ensures
        spec_free_bytes(list) == spec_free_bytes(list.take(i)).union(spec_block_bytes(list[i])).union(
            spec_free_bytes(list.skip(i + 1)),
        ),
{
    assert(list =~= list.take(i) + seq![list[i]] + list.skip(i + 1));
    lemma_free_bytes_concat(list.take(i) + seq![list[i]], list.skip(i + 1));
    lemma_free_bytes_concat(list.take(i), seq![list[i]]);
    lemma_free_bytes_one(list[i]);
}

/// What freeing does to a free list that keeps the invariant, for a range
/// that meets no free block: the new list keeps the invariant (touching
/// blocks are merged, so no two blocks touch) and covers exactly the old
/// bytes and the freed ones.
#[verifier::rlimit(40)]
pub proof fn lemma_dealloc_law(list: Seq<(usize, usize)>, addr: usize, size: usize)
    requires
        spec_heap_inv(list),
        size >= MIN_BLOCK_SIZE,
        addr + size <= usize::MAX,
        forall|k: int| 0 <= k < list.len() ==> (#[trigger] list[k]).0 + list[k].1 <= addr || addr + size <= list[k].0,
    ensures
        spec_heap_inv(spec_free_list_after(list, addr, size)),
        spec_free_bytes(spec_free_list_after(list, addr, size)) == spec_free_bytes(list).union(
            spec_block_bytes((addr, size)),
        ),
{
    lemma_insert_pos(list, addr);
    let i = spec_insert_pos(list, addr);
    assert forall|j: int| 0 <= j < i implies (#[trigger] list[j]).0 + list[j].1 <= addr by {
        assert(addr >= list[j].0);
    }
    lemma_free_at_law(list, i, addr, size);
}

#[verifier::rlimit(40)]
proof fn lemma_free_at_law(list: Seq<(usize, usize)>, i: int, addr: usize, size: usize)
    requires
        spec_heap_inv(list),
        0 <= i <= list.len(),
        size >= MIN_BLOCK_SIZE,
        addr + size <= usize::MAX,
        forall|j: int| 0 <= j < i ==> (#[trigger] list[j]).0 + list[j].1 <= addr,
        i < list.len() ==> addr + size <= list[i].0,
    ensures
        spec_heap_inv(spec_free_list_at(list, i, addr, size)),
        spec_free_bytes(spec_free_list_at(list, i, addr, size)) == spec_free_bytes(list).union(
            spec_block_bytes((addr, size)),
        ),
{
    let n = spec_free_list_at(list, i, addr, size);
    let merge_next = i < list.len() && addr + size == list[i].0;
    let merged: (usize, usize) = if merge_next { (addr, (size + list[i].1) as usize) } else { (addr, size) };
    let rest = if merge_next { list.skip(i + 1) } else { list.skip(i) };
    assert(merged.0 == addr && merged.1 >= MIN_BLOCK_SIZE && addr + merged.1 <= usize::MAX);
    assert(spec_separated(rest));
    assert(rest.len() > 0 ==> merged.0 + merged.1 < rest[0].0) by {
        if rest.len() > 0 {
            if merge_next {
                assert(list[i].0 + list[i].1 < list[i + 1].0);
            }
        }
    }
    assert(forall|k: int| 0 <= k < rest.len() ==> (#[trigger] rest[k]).1 >= MIN_BLOCK_SIZE && rest[k].0 + rest[k].1
        <= usize::MAX) by {
        assert forall|k: int| 0 <= k < rest.len() implies (#[trigger] rest[k]).1 >= MIN_BLOCK_SIZE && rest[k].0
            + rest[k].1 <= usize::MAX by {
            if merge_next {
                assert(rest[k] == list[k + i + 1]);
            } else {
                assert(rest[k] == list[k + i]);
            }
        }
    }
    // The bytes of the merged block and of what follows it.
    let tail_bytes = spec_block_bytes(merged).union(spec_free_bytes(rest));
    if i < list.len() {
        lemma_free_bytes_split(list, i);
    } else {
        assert(list.take(i) =~= list);
    }
    assert(tail_bytes =~= spec_block_bytes((addr, size)).union(spec_free_bytes(list.skip(i)))) by {
        if merge_next {
            lemma_free_bytes_split(list.skip(i), 0);
            assert(list.skip(i).take(0) =~= Seq::<(usize, usize)>::empty());
            assert(list.skip(i).skip(1) =~= list.skip(i + 1));
            assert(spec_block_bytes(merged) =~= spec_block_bytes((addr, size)).union(spec_block_bytes(list[i])));
        }
    }
    assert(list =~= list.take(i) + list.skip(i));
    lemma_free_bytes_concat(list.take(i), list.skip(i));
    if i > 0 && list[i - 1].0 + list[i - 1].1 == addr {
        let p = (list[i - 1].0, (list[i - 1].1 + merged.1) as usize);
        let head = list.take(i - 1).push(p);
        assert(spec_separated(head)) by {
            assert forall|a: int, b: int| 0 <= a < b < head.len() implies head[a].0 + head[a].1 < head[b].0 by {
                if b == head.len() - 1 {
                    assert(list[a].0 + list[a].1 < list[i - 1].0);
                } else {
                    assert(list[a].0 + list[a].1 < list[b].0);
                }
            }
        }
        lemma_concat_separated(head, rest);
        assert(n == head + rest);
        assert forall|k: int| 0 <= k < n.len() implies (#[trigger] n[k]).1 >= MIN_BLOCK_SIZE && n[k].0 + n[k].1
            <= usize::MAX by {
            if k < head.len() {
                assert(n[k] == head[k]);
                if k < i - 1 {
                    assert(head[k] == list[k]);
                }
            } else {
                assert(n[k] == rest[k - head.len()]);
            }
        }
        assert(head =~= list.take(i - 1) + seq![p]);
        lemma_free_bytes_concat(head, rest);
        lemma_free_bytes_concat(list.take(i - 1), seq![p]);
        lemma_free_bytes_one(p);
        lemma_free_bytes_split(list.take(i), i - 1);
        assert(list.take(i).take(i - 1) =~= list.take(i - 1));
        assert(list.take(i).skip(i) =~= Seq::<(usize, usize)>::empty());
        assert(spec_block_bytes(p) =~= spec_block_bytes(list[i - 1]).union(spec_block_bytes(merged)));
        assert(spec_free_bytes(n) =~= spec_free_bytes(list).union(spec_block_bytes((addr, size))));
    } else {
        let head = list.take(i).push(merged);
        assert(spec_separated(head)) by {
            assert forall|a: int, b: int| 0 <= a < b < head.len() implies head[a].0 + head[a].1 < head[b].0 by {
                if b == head.len() - 1 {
                    if a < i - 1 {
                        assert(list[a].0 + list[a].1 < list[i - 1].0);
                    }
                } else {
                    assert(list[a].0 + list[a].1 < list[b].0);
                }
            }
        }
        lemma_concat_separated(head, rest);
        assert(n == head + rest);
        assert forall|k: int| 0 <= k < n.len() implies (#[trigger] n[k]).1 >= MIN_BLOCK_SIZE && n[k].0 + n[k].1
            <= usize::MAX by {
            if k < head.len() {
                assert(n[k] == head[k]);
                if k < i {
                    assert(head[k] == list[k]);
                }
            } else {
                assert(n[k] == rest[k - head.len()]);
            }
        }
        assert(head =~= list.take(i) + seq![merged]);
        lemma_free_bytes_concat(head, rest);
        lemma_free_bytes_concat(list.take(i), seq![merged]);
        lemma_free_bytes_one(merged);
        assert(spec_free_bytes(n) =~= spec_free_bytes(list).union(spec_block_bytes((addr, size))));
    }
}

/// `val` rounded up to a multiple of the power of two `align`.
fn align_up_usize(val: usize, align: usize) -> (r: usize)
    requires
        is_pow2_usize(align),
        val + (align - 1) <= usize::MAX,
    ensures
        r == spec_align_up_usize(val, align),
{
    (val + (align - 1)) & !(align - 1)
}

} // verus!
