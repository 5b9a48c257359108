//! Physical page allocator: one bit per 4 KiB page (set = used), built
//! from the bootloader's memory map.

use vstd::prelude::*;
use super::addr::{align_down, align_up, spec_align_down, spec_align_up, PAGE_SIZE};

verus! {

/// Kind of a memory map entry reported by the bootloader.
#[derive(Debug, Clone, Copy, PartialEq, Eq, Structural)]
pub enum MemoryMapEntryKind {
    Usable,
    Reserved,
    AcpiReclaimable,
    AcpiNvs,
    BadMemory,
    BootloaderReclaimable,
    ExecutableAndModules,
    Framebuffer,
}

/// One entry of the bootloader's physical memory map.
#[derive(Debug, Clone, Copy, PartialEq, Eq, Structural)]
pub struct MemoryMapEntry {
    pub base: u64,
    pub length: u64,
    pub kind: MemoryMapEntryKind,
}

/// Number of pages one bitmap word covers.
pub const BITS_PER_ENTRY: usize = 64;

/// Whether page `p` is marked used in the bitmap `bm`.
pub open spec fn spec_page_used(bm: Seq<u64>, p: int) -> bool {
    (bm[p / 64] >> ((p % 64) as u64)) & 1u64 == 1u64
}

/// The highest end address of the entries.
pub open spec fn spec_highest(entries: Seq<MemoryMapEntry>) -> int
    decreases entries.len(),
{
    if entries.len() == 0 {
        0
    } else {
        let rest = spec_highest(entries.drop_last());
        let end = entries.last().base + entries.last().length;
        if end > rest {
            end
        } else {
            rest
        }
    }
}

/// First whole page of a usable entry.
pub open spec fn spec_first_page(e: MemoryMapEntry) -> int {
    spec_align_up(e.base, 4096) as int / 4096
}

/// Number of whole pages inside an entry.
pub open spec fn spec_page_count(e: MemoryMapEntry) -> int {
    (spec_align_down((e.base + e.length) as u64, 4096) - spec_align_up(e.base, 4096)) / 4096
}

/// Whether page `p` lies wholly inside a usable entry among the first `n`.
pub open spec fn spec_usable_covers(entries: Seq<MemoryMapEntry>, n: int, p: int) -> bool {
    exists|j: int|
        0 <= j < n && (#[trigger] entries[j]).kind == MemoryMapEntryKind::Usable && spec_first_page(entries[j]) <= p
            < spec_first_page(entries[j]) + spec_page_count(entries[j])
}

/// Total number of whole pages in the usable entries among the first `n`.
pub open spec fn spec_usable_pages(entries: Seq<MemoryMapEntry>, n: int) -> int
    decreases n,
{
    if n <= 0 {
        0
    } else {
        spec_usable_pages(entries, n - 1) + if entries[n - 1].kind == MemoryMapEntryKind::Usable {
            spec_page_count(entries[n - 1])
        } else {
            0
        }
    }
}

/// Base of the first usable entry at least `size` bytes long (0 if none).
pub open spec fn spec_bitmap_base(entries: Seq<MemoryMapEntry>, size: int) -> u64
    decreases entries.len(),
{
    if entries.len() == 0 {
        0
    } else if entries[0].kind == MemoryMapEntryKind::Usable && entries[0].length >= size {
        entries[0].base
    } else {
        spec_bitmap_base(entries.drop_first(), size)
    }
}

/// Number of pages of `[start, start + count)` below `total`.
pub open spec fn spec_count_below(start: int, count: int, total: int) -> int {
    if start >= total {
        0
    } else if start + count <= total {
        count
    } else {
        total - start
    }
}

/// The page geometry `init` derives from a memory map: total pages,
/// bitmap words and bitmap size in bytes.
pub open spec fn spec_total_pages(entries: Seq<MemoryMapEntry>) -> int {
    (spec_highest(entries) + 4095) / 4096
}

/// Number of bitmap words for the entries.
pub open spec fn spec_bitmap_words(entries: Seq<MemoryMapEntry>) -> int {
    (spec_total_pages(entries) + 63) / 64
}

/// What `init` needs of a memory map: the end of every entry fits in a
/// `usize` with room for page rounding, each usable entry holds at least
/// its rounded range, the page counts fit in a `usize`, and a usable entry
/// at a non-zero address can hold the bitmap.
pub open spec fn spec_memory_map_ok(entries: Seq<MemoryMapEntry>) -> bool {
    &&& forall|j: int| 0 <= j < entries.len() ==> (#[trigger] entries[j]).base + entries[j].length + 4095 <= usize::MAX
    &&& forall|j: int| 0 <= j < entries.len() && (#[trigger] entries[j]).kind == MemoryMapEntryKind::Usable
        ==> spec_align_up(entries[j].base, 4096) <= spec_align_down((entries[j].base + entries[j].length) as u64, 4096)
    &&& spec_usable_pages(entries, entries.len() as int) <= usize::MAX
    &&& spec_bitmap_base(entries, spec_bitmap_words(entries) * 8) != 0
}

/// Tests what `PhysicalMemoryManager::init` needs of a memory map.
pub fn memory_map_ok(entries: &Vec<MemoryMapEntry>) -> (r: bool)
    ensures
        r == spec_memory_map_ok(entries@),
{
    let n = entries.len();
    let max: u64 = usize::MAX as u64;
    // Every end fits with room for page rounding.
    let mut i: usize = 0;
    while i < n
        invariant
            n == entries@.len(),
            0 <= i <= n,
            max == usize::MAX,
            forall|j: int| 0 <= j < i ==> (#[trigger] entries@[j]).base + entries@[j].length + 4095 <= usize::MAX,
        decreases n - i,
    {
        let e = entries[i];
        if e.base > max || e.length > max - e.base || 4095 > max - e.base - e.length {
            assert(!(entries@[i as int].base + entries@[i as int].length + 4095 <= usize::MAX));
            return false;
        }
        i = i + 1;
    }
    // Every usable entry holds its rounded range.
    let mut i: usize = 0;
    while i < n
        invariant
            n == entries@.len(),
            0 <= i <= n,
            forall|j: int| 0 <= j < n ==> (#[trigger] entries@[j]).base + entries@[j].length + 4095 <= usize::MAX,
            forall|j: int| 0 <= j < i && (#[trigger] entries@[j]).kind == MemoryMapEntryKind::Usable
                ==> spec_align_up(entries@[j].base, 4096) <= spec_align_down((entries@[j].base + entries@[j].length) as u64, 4096),
        decreases n - i,
    {
        let e = entries[i];
        assert(e.base + e.length + 4095 <= usize::MAX);
        if e.kind == MemoryMapEntryKind::Usable {
            let start = align_up(e.base, PAGE_SIZE as u64);
            let stop = align_down(e.base + e.length, PAGE_SIZE as u64);
            if start > stop {
                return false;
            }
        }
        i = i + 1;
    }
    // The usable page count fits.
    let mut pages: usize = 0;
    let mut i: usize = 0;
    while i < n
        invariant
            n == entries@.len(),
            0 <= i <= n,
            forall|j: int| 0 <= j < n ==> (#[trigger] entries@[j]).base + entries@[j].length + 4095 <= usize::MAX,
            forall|j: int| 0 <= j < n && (#[trigger] entries@[j]).kind == MemoryMapEntryKind::Usable
                ==> spec_align_up(entries@[j].base, 4096) <= spec_align_down((entries@[j].base + entries@[j].length) as u64, 4096),
            pages == spec_usable_pages(entries@, i as int),
        decreases n - i,
    {
        let e = entries[i];
        assert(e.base + e.length + 4095 <= usize::MAX);
        if e.kind == MemoryMapEntryKind::Usable {
            proof {
                super::addr::lemma_page_size_pow2();
            }
            let start = align_up(e.base, PAGE_SIZE as u64);
            let stop = align_down(e.base + e.length, PAGE_SIZE as u64);
            assert(start <= stop);
            let count = ((stop - start) / (PAGE_SIZE as u64)) as usize;
            assert(count == spec_page_count(e)) by {
                assert(stop - start <= usize::MAX);
            }
            if count > usize::MAX - pages {
                proof {
                    lemma_usable_pages_le(entries@, i as int + 1);
                }
                return false;
            }
            pages = pages + count;
        }
        i = i + 1;
    }
    // A usable entry at a non-zero address can hold the bitmap.
    let mut highest: u64 = 0;
    let mut i: usize = 0;
    while i < n
        invariant
            n == entries@.len(),
            0 <= i <= n,
            highest == spec_highest(entries@.take(i as int)),
            forall|j: int| 0 <= j < entries@.len() ==> (#[trigger] entries@[j]).base + entries@[j].length + 4095 <= usize::MAX,
            highest + 4095 <= usize::MAX,
        decreases n - i,
    {
        let e = entries[i];
        assert(entries@.take(i as int + 1).drop_last() =~= entries@.take(i as int));
        let end = e.base + e.length;
        if end > highest {
            highest = end;
        }
        i = i + 1;
    }
    assert(entries@.take(n as int) =~= entries@);
    let total_pages = (highest as usize + (PAGE_SIZE - 1)) / PAGE_SIZE;
    let bitmap_entries = (total_pages + (BITS_PER_ENTRY - 1)) / BITS_PER_ENTRY;
    assert(total_pages * 4096 <= usize::MAX) by (nonlinear_arith)
        requires total_pages == (highest + 4095) / 4096, highest + 4095 <= usize::MAX;
    assert(bitmap_entries * 64 <= usize::MAX && total_pages <= bitmap_entries * 64) by (nonlinear_arith)
        requires bitmap_entries == (total_pages + 63) / 64, total_pages * 4096 <= usize::MAX;
    let bitmap_size = bitmap_entries * 8;
    PhysicalMemoryManager::bitmap_region(entries, bitmap_size as u64) != 0
}

/// Bitmap page allocator over the physical address space.
pub struct PhysicalMemoryManager {
    bitmap: Vec<u64>,
    bitmap_entries: usize,
    total_pages: usize,
    free_pages: usize,
    highest_addr: u64,
}

proof fn lemma_bit_clear(w: u64, b: u64, c: u64)
    requires
        b < 64,
        c < 64,
    ensures
        ((w & !(1u64 << b)) >> c) & 1u64 == (if b == c { 0u64 } else { (w >> c) & 1u64 }),
{
    assert(b < 64 && c < 64 ==> ((w & !(1u64 << b)) >> c) & 1u64 == (if b == c { 0u64 } else { (w >> c) & 1u64 })) by (bit_vector);
}

proof fn lemma_bit_set(w: u64, b: u64, c: u64)
    requires
        b < 64,
        c < 64,
    ensures
        ((w | (1u64 << b)) >> c) & 1u64 == (if b == c { 1u64 } else { (w >> c) & 1u64 }),
{
    assert(b < 64 && c < 64 ==> ((w | (1u64 << b)) >> c) & 1u64 == (if b == c { 1u64 } else { (w >> c) & 1u64 })) by (bit_vector);
}

proof fn lemma_bit_test(w: u64, b: u64)
    requires
        b < 64,
    ensures
        (w & (1u64 << b) == 0) == ((w >> b) & 1u64 != 1u64),
{
    assert(b < 64 ==> ((w & (1u64 << b) == 0) == ((w >> b) & 1u64 != 1u64))) by (bit_vector);
}

impl PhysicalMemoryManager {
    /// The bitmap words.
    pub closed spec fn spec_bitmap(&self) -> Seq<u64> {
        self.bitmap@
    }

    /// Pages managed.
    pub closed spec fn spec_total(&self) -> usize {
        self.total_pages
    }

    /// The free-page counter.
    pub closed spec fn spec_free(&self) -> usize {
        self.free_pages
    }

    /// Whether page `p` is in use.
    pub open spec fn page_used(&self, p: int) -> bool {
        spec_page_used(self.spec_bitmap(), p)
    }

    /// The bitmap covers every managed page.
    pub closed spec fn wf(&self) -> bool {
        &&& self.bitmap@.len() == self.bitmap_entries
        &&& self.total_pages <= self.bitmap_entries * 64
        &&& self.bitmap_entries * 64 <= usize::MAX
        &&& self.total_pages * 4096 <= usize::MAX
    }

    /// The bitmap has a bit for every managed page.
    pub proof fn lemma_bitmap_covers_total(&self)
        requires
            self.wf(),
        ensures
            self.spec_total() <= self.spec_bitmap().len() * 64,
    {
    }

    /// An allocator that manages no memory.
    pub fn new() -> (r: Self)
        ensures
            r.wf(),
            r.spec_total() == 0,
            r.spec_free() == 0,
            r.spec_bitmap() == Seq::<u64>::empty(),
    {
        PhysicalMemoryManager {
            bitmap: Vec::new(),
            bitmap_entries: 0,
            total_pages: 0,
            free_pages: 0,
            highest_addr: 0,
        }
    }

    /// Base of the first usable entry that can hold `size` bytes, 0 if none.
    pub fn bitmap_region(entries: &Vec<MemoryMapEntry>, size: u64) -> (r: u64)
        ensures
            r == spec_bitmap_base(entries@, size as int),
    {
        let mut i: usize = 0;
        assert(entries@.skip(0) =~= entries@);
        while i < entries.len()
            invariant
                0 <= i <= entries@.len(),
                spec_bitmap_base(entries@, size as int) == spec_bitmap_base(entries@.skip(i as int), size as int),
            decreases entries@.len() - i,
        {
            let e = entries[i];
            assert(entries@.skip(i as int)[0] == e);
            assert(entries@.skip(i as int).drop_first() =~= entries@.skip(i as int + 1));
            if e.kind == MemoryMapEntryKind::Usable && e.length >= size {
                return e.base;
            }
            i = i + 1;
        }
        assert(entries@.skip(i as int) =~= Seq::<MemoryMapEntry>::empty());
        0
    }

    fn mark_page(&mut self, page: usize, used: bool)
        requires
            old(self).wf(),
        ensures
            final(self).wf(),
            final(self).spec_total() == old(self).spec_total(),
            final(self).spec_free() == old(self).spec_free(),
            final(self).highest_addr == old(self).highest_addr,
            final(self).spec_bitmap().len() == old(self).spec_bitmap().len(),
            forall|q: int| 0 <= q < final(self).spec_bitmap().len() * 64 ==> #[trigger] final(self).page_used(q) == (if q
                == page && page < old(self).spec_total() { used } else { old(self).page_used(q) }),
    {
        if page >= self.total_pages {
            return;
        }
        let entry_idx = page / BITS_PER_ENTRY;
        let bit_idx = (page % BITS_PER_ENTRY) as u64;
        let w = self.bitmap[entry_idx];
        let nw = if used { w | (1u64 << bit_idx) } else { w & !(1u64 << bit_idx) };
        self.bitmap.set(entry_idx, nw);
        proof {
            assert forall|q: int| 0 <= q < self.bitmap@.len() * 64 implies #[trigger] self.page_used(q) == (if q == page {
                used
            } else {
                old(self).page_used(q)
            }) by {
                let qi = q / 64;
                let qb = (q % 64) as u64;
                if qi == entry_idx {
                    if used {
                        lemma_bit_set(w, bit_idx, qb);
                    } else {
                        lemma_bit_clear(w, bit_idx, qb);
                    }
                    if q != page {
                        assert(qb != bit_idx);
                    }
                }
            }
        }
    }

    /// Builds the bitmap from the memory map: pages wholly inside usable
    /// entries are free, everything else is used, and the pages holding
    /// the bitmap itself (placed in the first usable entry large enough)
    /// are used. The free counter counts the pages of the usable entries,
    /// less the bitmap pages (never below zero).
    pub fn init(&mut self, entries: &Vec<MemoryMapEntry>)
        requires
            spec_memory_map_ok(entries@),
        ensures
            final(self).wf(),
            final(self).spec_total() == spec_total_pages(entries@),
            final(self).spec_bitmap().len() == spec_bitmap_words(entries@),
            ({
                let size = spec_bitmap_words(entries@) * 8;
                let bstart = spec_bitmap_base(entries@, size) as int / 4096;
                let bpages = (size + 4095) / 4096;
                let total = spec_total_pages(entries@);
                &&& forall|p: int| 0 <= p < final(self).spec_bitmap().len() * 64 ==> #[trigger] final(self).page_used(p)
                    == !(p < total && spec_usable_covers(entries@, entries@.len() as int, p) && !(bstart <= p < bstart + bpages))
                &&& final(self).spec_free() == (if spec_usable_pages(entries@, entries@.len() as int)
                    >= spec_count_below(bstart, bpages, total) {
                    spec_usable_pages(entries@, entries@.len() as int) - spec_count_below(bstart, bpages, total)
                } else {
                    0
                })
            }),
    {
        let n = entries.len();
        // Highest physical address.
        let mut highest: u64 = 0;
        let mut i: usize = 0;
        while i < n
            invariant
                n == entries@.len(),
                0 <= i <= n,
                highest == spec_highest(entries@.take(i as int)),
                forall|j: int| 0 <= j < entries@.len() ==> (#[trigger] entries@[j]).base + entries@[j].length + 4095 <= usize::MAX,
                highest + 4095 <= usize::MAX,
            decreases n - i,
        {
            let e = entries[i];
            assert(entries@.take(i as int + 1).drop_last() =~= entries@.take(i as int));
            let end = e.base + e.length;
            if end > highest {
                highest = end;
            }
            i = i + 1;
        }
        assert(entries@.take(n as int) =~= entries@);
        self.highest_addr = highest;
        let total_pages = (highest as usize + (PAGE_SIZE - 1)) / PAGE_SIZE;
        let bitmap_entries = (total_pages + (BITS_PER_ENTRY - 1)) / BITS_PER_ENTRY;
        let bitmap_size = bitmap_entries * 8;
        assert(total_pages * 4096 <= usize::MAX) by (nonlinear_arith)
            requires total_pages == (highest + 4095) / 4096, highest + 4095 <= usize::MAX;
        assert(bitmap_entries * 64 <= usize::MAX && total_pages <= bitmap_entries * 64) by (nonlinear_arith)
            requires bitmap_entries == (total_pages + 63) / 64, total_pages * 4096 <= usize::MAX;
        self.total_pages = total_pages;
        self.bitmap_entries = bitmap_entries;
        let bitmap_phys = Self::bitmap_region(entries, bitmap_size as u64);
        // Every page starts out used.
        let mut bitmap: Vec<u64> = Vec::new();
        let mut k: usize = 0;
        while k < bitmap_entries
            invariant
                0 <= k <= bitmap_entries,
                bitmap@.len() == k,
                forall|j: int| 0 <= j < k ==> bitmap@[j] == !0u64,
            decreases bitmap_entries - k,
        {
            bitmap.push(!0u64);
            k = k + 1;
        }
        self.bitmap = bitmap;
        proof {
            assert forall|p: int| 0 <= p < self.bitmap@.len() * 64 implies #[trigger] self.page_used(p) by {
                let c = (p % 64) as u64;
                assert(c < 64 ==> (!0u64 >> c) & 1u64 == 1u64) by (bit_vector);
                assert(0 <= p / 64 < bitmap_entries) by (nonlinear_arith)
                    requires 0 <= p < bitmap_entries * 64;
            }
            assert forall|p: int| !spec_usable_covers(entries@, 0, p) by {}
        }
        // Free the pages of usable entries.
        let mut free_count: usize = 0;
        let mut i: usize = 0;
        while i < n
            invariant
                n == entries@.len(),
                0 <= i <= n,
                spec_memory_map_ok(entries@),
                self.wf(),
                self.total_pages == total_pages,
                self.bitmap@.len() == bitmap_entries,
                total_pages == spec_total_pages(entries@),
                free_count == spec_usable_pages(entries@, i as int),
                forall|p: int| 0 <= p < self.bitmap@.len() * 64 ==> #[trigger] self.page_used(p) == !(p < total_pages
                    && spec_usable_covers(entries@, i as int, p)),
            decreases n - i,
        {
            let e = entries[i];
            if e.kind == MemoryMapEntryKind::Usable {
                proof {
                    super::addr::lemma_page_size_pow2();
                    super::addr::lemma_align_up_is_ceiling(e.base, 4096);
                    super::addr::lemma_align_down_is_floor((e.base + e.length) as u64, 4096);
                    lemma_usable_pages_le(entries@, i as int + 1);
                }
                let start = align_up(e.base, PAGE_SIZE as u64);
                let end = align_down(e.base + e.length, PAGE_SIZE as u64);
                let start_page = (start as usize) / PAGE_SIZE;
                let page_count = ((end - start) as usize) / PAGE_SIZE;
                assert(start_page + page_count <= usize::MAX) by (nonlinear_arith)
                    requires start_page == start / 4096, page_count == (end - start) / 4096, start <= end, end <= usize::MAX;
                let mut page: usize = start_page;
                while page < start_page + page_count
                    invariant
                        start_page <= page <= start_page + page_count,
                        start_page + page_count <= usize::MAX,
                        start_page == spec_first_page(e),
                        page_count == spec_page_count(e),
                        e == entries@[i as int],
                        e.kind == MemoryMapEntryKind::Usable,
                        0 <= i < n,
                        n == entries@.len(),
                        spec_memory_map_ok(entries@),
                        self.wf(),
                        self.total_pages == total_pages,
                        self.bitmap@.len() == bitmap_entries,
                        free_count == spec_usable_pages(entries@, i as int) + (page - start_page),
                        spec_usable_pages(entries@, i as int + 1) <= usize::MAX,
                        forall|p: int| 0 <= p < self.bitmap@.len() * 64 ==> #[trigger] self.page_used(p) == !(p < total_pages
                            && (spec_usable_covers(entries@, i as int, p) || start_page <= p < page)),
                    decreases start_page + page_count - page,
                {
                    self.mark_page(page, false);
                    free_count = free_count + 1;
                    page = page + 1;
                }
                proof {
                    assert forall|p: int| 0 <= p < self.bitmap@.len() * 64 implies #[trigger] self.page_used(p) == !(p < total_pages
                        && spec_usable_covers(entries@, i as int + 1, p)) by {
                        if spec_usable_covers(entries@, i as int + 1, p) && !spec_usable_covers(entries@, i as int, p) {
                            let j = choose|j: int| 0 <= j < i + 1 && (#[trigger] entries@[j]).kind == MemoryMapEntryKind::Usable
                                && spec_first_page(entries@[j]) <= p < spec_first_page(entries@[j]) + spec_page_count(entries@[j]);
                            if j < i {
                                assert(spec_usable_covers(entries@, i as int, p));
                            }
                        }
                        if start_page <= p < page {
                            assert(entries@[i as int] == e);
                            assert(spec_usable_covers(entries@, i as int + 1, p));
                        }
                        if spec_usable_covers(entries@, i as int, p) {
                            let j = choose|j: int| 0 <= j < i && (#[trigger] entries@[j]).kind == MemoryMapEntryKind::Usable
                                && spec_first_page(entries@[j]) <= p < spec_first_page(entries@[j]) + spec_page_count(entries@[j]);
                            assert(spec_usable_covers(entries@, i as int + 1, p));
                        }
                    }
                }
            } else {
                proof {
                    assert forall|p: int| spec_usable_covers(entries@, i as int + 1, p) == spec_usable_covers(entries@, i as int, p) by {
                        if spec_usable_covers(entries@, i as int + 1, p) {
                            let j = choose|j: int| 0 <= j < i + 1 && (#[trigger] entries@[j]).kind == MemoryMapEntryKind::Usable
                                && spec_first_page(entries@[j]) <= p < spec_first_page(entries@[j]) + spec_page_count(entries@[j]);
                            assert(j != i);
                        }
                        if spec_usable_covers(entries@, i as int, p) {
                            let j = choose|j: int| 0 <= j < i && (#[trigger] entries@[j]).kind == MemoryMapEntryKind::Usable
                                && spec_first_page(entries@[j]) <= p < spec_first_page(entries@[j]) + spec_page_count(entries@[j]);
                            assert(spec_usable_covers(entries@, i as int + 1, p));
                        }
                    }
                }
            }
            i = i + 1;
        }
        // The bitmap's own pages are used.
        proof {
            lemma_bitmap_base_bound(entries@, bitmap_size as int);
        }
        let bitmap_pages = (bitmap_size + (PAGE_SIZE - 1)) / PAGE_SIZE;
        let bitmap_start_page = (bitmap_phys as usize) / PAGE_SIZE;
        let ghost fc0 = free_count as int;
        let mut page: usize = bitmap_start_page;
        assert(bitmap_start_page + bitmap_pages <= usize::MAX) by (nonlinear_arith)
            requires bitmap_start_page == bitmap_phys / 4096, bitmap_phys <= usize::MAX, bitmap_pages == (bitmap_size + 4095) / 4096, bitmap_size <= usize::MAX / 8;
        proof {
            assert forall|p: int| 0 <= p < self.bitmap@.len() * 64 implies #[trigger] self.page_used(p) == !(p < total_pages
                && spec_usable_covers(entries@, n as int, p) && !(bitmap_start_page <= p < page)) by {}
        }
        while page < bitmap_start_page + bitmap_pages
            invariant
                bitmap_start_page <= page <= bitmap_start_page + bitmap_pages,
                bitmap_start_page + bitmap_pages <= usize::MAX,
                bitmap_start_page == spec_bitmap_base(entries@, spec_bitmap_words(entries@) * 8) as int / 4096,
                bitmap_pages == (spec_bitmap_words(entries@) * 8 + 4095) / 4096,
                self.wf(),
                self.total_pages == total_pages,
                self.bitmap@.len() == bitmap_entries,
                total_pages == spec_total_pages(entries@),
                fc0 == spec_usable_pages(entries@, n as int),
                n == entries@.len(),
                free_count == (if fc0 >= spec_count_below(bitmap_start_page as int, page - bitmap_start_page, total_pages as int) {
                    fc0 - spec_count_below(bitmap_start_page as int, page - bitmap_start_page, total_pages as int)
                } else {
                    0
                }),
                forall|p: int| 0 <= p < self.bitmap@.len() * 64 ==> #[trigger] self.page_used(p) == !(p < total_pages
                    && spec_usable_covers(entries@, n as int, p) && !(bitmap_start_page <= p < page)),
            decreases bitmap_start_page + bitmap_pages - page,
        {
            proof {
                lemma_count_below_step(bitmap_start_page as int, page - bitmap_start_page, total_pages as int);
            }
            if page < self.total_pages {
                self.mark_page(page, true);
                free_count = free_count.saturating_sub(1);
            }
            page = page + 1;
        }
        let ghost pre = *self;
        self.free_pages = free_count;
        proof {
            assert forall|p: int| 0 <= p < self.bitmap@.len() * 64 implies #[trigger] self.page_used(p) == pre.page_used(p) by {}
            assert(highest == spec_highest(entries@));
            assert(total_pages == spec_total_pages(entries@));
            assert(bitmap_entries == spec_bitmap_words(entries@));
            assert(bitmap_phys == spec_bitmap_base(entries@, spec_bitmap_words(entries@) * 8));
            assert(page == bitmap_start_page + bitmap_pages);
        }
    }

    /// Allocates the lowest free page below the managed total and returns
    /// its physical address; `None` when the free counter is zero or no
    /// page is free.
    pub fn alloc_page(&mut self) -> (r: Option<u64>)
        requires
            old(self).wf(),
        ensures
            final(self).wf(),
            final(self).spec_total() == old(self).spec_total(),
            final(self).spec_bitmap().len() == old(self).spec_bitmap().len(),
            match r {
                Some(a) => {
                    let p = a as int / 4096;
                    &&& a % 4096 == 0
                    &&& old(self).spec_free() > 0
                    &&& p < old(self).spec_total()
                    &&& !old(self).page_used(p)
                    &&& forall|q: int| 0 <= q < p ==> old(self).page_used(q)
                    &&& final(self).spec_free() == old(self).spec_free() - 1
                    &&& forall|q: int| 0 <= q < old(self).spec_bitmap().len() * 64 ==> #[trigger] final(self).page_used(q)
                        == (q == p || old(self).page_used(q))
                },
                None => {
                    &&& old(self).spec_free() == 0 || forall|q: int| 0 <= q < old(self).spec_total() ==> old(self).page_used(q)
                    &&& final(self).spec_free() == old(self).spec_free()
                    &&& final(self).spec_bitmap() == old(self).spec_bitmap()
                },
            },
    {
        if self.free_pages == 0 {
            return None;
        }
        let mut entry_idx: usize = 0;
        while entry_idx < self.bitmap_entries
            invariant
                self.wf(),
                self == old(self),
                0 <= entry_idx <= self.bitmap_entries,
                self.free_pages > 0,
                forall|q: int| 0 <= q < entry_idx * 64 && q < self.total_pages ==> self.page_used(q),
            decreases self.bitmap_entries - entry_idx,
        {
            let entry = self.bitmap[entry_idx];
            if entry != !0u64 {
                let mut bit_idx: usize = 0;
                while bit_idx < BITS_PER_ENTRY
                    invariant
                        self.wf(),
                        self == old(self),
                        0 <= entry_idx < self.bitmap_entries,
                        entry == self.bitmap@[entry_idx as int],
                        0 <= bit_idx <= 64,
                        self.free_pages > 0,
                        forall|q: int| 0 <= q < entry_idx * 64 && q < self.total_pages ==> self.page_used(q),
                        forall|q: int| entry_idx * 64 <= q < entry_idx * 64 + bit_idx && q < self.total_pages ==> self.page_used(q),
                    decreases 64 - bit_idx,
                {
                    proof {
                        lemma_bit_test(entry, bit_idx as u64);
                    }
                    if (entry & (1u64 << (bit_idx as u64))) == 0 {
                        let page = entry_idx * BITS_PER_ENTRY + bit_idx;
                        if page < self.total_pages {
                            proof {
                                assert(page / 64 == entry_idx && page % 64 == bit_idx) by (nonlinear_arith)
                                    requires page == entry_idx * 64 + bit_idx, bit_idx < 64;
                                assert forall|q: int| 0 <= q < page implies old(self).page_used(q) by {
                                    if q >= entry_idx * 64 {
                                    }
                                }
                            }
                            self.mark_page(page, true);
                            let ghost mid = *self;
                            self.free_pages = self.free_pages - 1;
                            proof {
                                assert forall|q: int| 0 <= q < self.bitmap@.len() * 64 implies #[trigger] self.page_used(q) == mid.page_used(q) by {}
                                assert((page * 4096) / 4096 == page && (page * 4096) % 4096 == 0) by (nonlinear_arith);
                            }
                            return Some((page * PAGE_SIZE) as u64);
                        }
                    } else {
                        proof {
                            let q = entry_idx * 64 + bit_idx;
                            assert(q / 64 == entry_idx && q % 64 == bit_idx) by (nonlinear_arith)
                                requires q == entry_idx * 64 + bit_idx, bit_idx < 64;
                        }
                    }
                    bit_idx = bit_idx + 1;
                }
            } else {
                proof {
                    assert forall|q: int| entry_idx * 64 <= q < entry_idx * 64 + 64 implies self.page_used(q) by {
                        let c = (q % 64) as u64;
                        assert(q / 64 == entry_idx) by (nonlinear_arith)
                            requires entry_idx * 64 <= q < entry_idx * 64 + 64;
                        assert(c < 64 ==> (!0u64 >> c) & 1u64 == 1u64) by (bit_vector);
                    }
                }
            }
            entry_idx = entry_idx + 1;
        }
        None
    }

    /// Frees the page at `addr`. Unaligned addresses, pages beyond the
    /// managed range and pages already free are ignored.
    pub fn free_page(&mut self, addr: u64)
        requires
            old(self).wf(),
            old(self).spec_free() < usize::MAX,
        ensures
            final(self).wf(),
            final(self).spec_total() == old(self).spec_total(),
            final(self).spec_bitmap().len() == old(self).spec_bitmap().len(),
            ({
                let p = addr as int / 4096;
                if addr % 4096 == 0 && p < old(self).spec_total() && old(self).page_used(p) {
                    &&& final(self).spec_free() == old(self).spec_free() + 1
                    &&& forall|q: int| 0 <= q < old(self).spec_bitmap().len() * 64 ==> #[trigger] final(self).page_used(q)
                        == (q != p && old(self).page_used(q))
                } else {
                    final(self).spec_free() == old(self).spec_free() && final(self).spec_bitmap() == old(self).spec_bitmap()
                }
            }),
    {
        if addr % PAGE_SIZE as u64 != 0 {
            return;
        }
        let page64 = addr / PAGE_SIZE as u64;
        if page64 >= self.total_pages as u64 {
            return;
        }
        let page = page64 as usize;
        let entry_idx = page / BITS_PER_ENTRY;
        let bit_idx = (page % BITS_PER_ENTRY) as u64;
        let entry = self.bitmap[entry_idx];
        proof {
            lemma_bit_test(entry, bit_idx);
        }
        if (entry & (1u64 << bit_idx)) == 0 {
            return;
        }
        self.mark_page(page, false);
        let ghost mid = *self;
        self.free_pages = self.free_pages + 1;
        proof {
            assert forall|q: int| 0 <= q < self.bitmap@.len() * 64 implies #[trigger] self.page_used(q) == mid.page_used(q) by {}
        }
    }

    /// The free-page counter.
    pub fn free_pages(&self) -> (r: usize)
        ensures
            r == self.spec_free(),
    {
        self.free_pages
    }

    /// The number of managed pages.
    pub fn total_pages(&self) -> (r: usize)
        ensures
            r == self.spec_total(),
    {
        self.total_pages
    }

    /// Managed pages minus the free counter, never below zero.
    pub fn used_pages(&self) -> (r: usize)
        ensures
            r == (if self.spec_total() >= self.spec_free() { self.spec_total() - self.spec_free() } else { 0 }),
    {
        self.total_pages.saturating_sub(self.free_pages)
    }
}

proof fn lemma_count_below_step(bs: int, k: int, total: int)
    requires
        k >= 0,
    ensures
        spec_count_below(bs, k + 1, total) == spec_count_below(bs, k, total) + (if bs + k < total { 1int } else { 0int }),
{
}

proof fn lemma_bitmap_base_bound(s: Seq<MemoryMapEntry>, size: int)
    requires
        forall|j: int| 0 <= j < s.len() ==> (#[trigger] s[j]).base + s[j].length + 4095 <= usize::MAX,
    ensures
        spec_bitmap_base(s, size) + 4095 <= usize::MAX,
    decreases s.len(),
{
    if s.len() > 0 {
        assert(s[0].base + s[0].length + 4095 <= usize::MAX);
        let t = s.drop_first();
        assert forall|j: int| 0 <= j < t.len() implies (#[trigger] t[j]).base + t[j].length + 4095 <= usize::MAX by {
            assert(t[j] == s[j + 1]);
        }
        lemma_bitmap_base_bound(t, size);
    }
}

proof fn lemma_usable_pages_le(entries: Seq<MemoryMapEntry>, n: int)
    requires
        0 <= n <= entries.len(),
        forall|j: int| 0 <= j < entries.len() && (#[trigger] entries[j]).kind == MemoryMapEntryKind::Usable
            ==> spec_align_up(entries[j].base, 4096) <= spec_align_down((entries[j].base + entries[j].length) as u64, 4096),
    ensures
        spec_usable_pages(entries, n) <= spec_usable_pages(entries, entries.len() as int),
    decreases entries.len() - n,
{
    if n < entries.len() {
        lemma_usable_pages_le(entries, n + 1);
        if entries[n].kind == MemoryMapEntryKind::Usable {
            assert(spec_page_count(entries[n]) >= 0);
        }
    }
}

} // verus!
