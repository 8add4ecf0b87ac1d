//! The boot frame allocator: hands out, one after another, the 4 KiB frames of
//! the usable regions of the boot memory map.
use vstd::prelude::*;
use crate::address::{PAGE_SIZE, PHYS_ADDR_LIMIT, page_base, frame_containing, lemma_page_base};

verus! {

/// One region of the boot memory map: the physical addresses `start..end`, and
/// whether the firmware reports them as usable RAM.
#[derive(Clone, Copy, Debug, PartialEq, Eq)]
pub struct MemoryRegion {
    pub start: u64,
    pub end: u64,
    pub usable: bool,
}

/// Number of addresses `start, start + 4096, ...` below `end`.
pub open spec fn step_count(r: MemoryRegion) -> nat {
    if r.start < r.end {
        ((r.end - r.start - 1) as nat / 4096 + 1) as nat
    } else {
        0
    }
}

/// The frames that a region contributes: for a usable region, the frame holding
/// each of `start, start + 4096, ...` below `end`; none for another region.
pub open spec fn region_frames(r: MemoryRegion) -> Seq<u64> {
    if r.usable {
        Seq::new(step_count(r), |k: int| page_base((r.start + k * 4096) as u64))
    } else {
        Seq::empty()
    }
}

/// The usable frames of a memory map, region after region, in map order.
pub open spec fn usable_frames_of(regions: Seq<MemoryRegion>) -> Seq<u64>
    decreases regions.len(),
{
    if regions.len() == 0 {
        Seq::empty()
    } else {
        region_frames(regions[0]) + usable_frames_of(regions.skip(1))
    }
}

/// A memory map whose usable regions lie in the physical address space (an
/// empty region holds no address and is never walked).
pub open spec fn valid_map(regions: Seq<MemoryRegion>) -> bool {
    forall|i: int|
        0 <= i < regions.len() && #[trigger] regions[i].usable && regions[i].start < regions[i].end
            ==> regions[i].end <= PHYS_ADDR_LIMIT
}

/// Most regions a boot memory map holds.
pub const MAX_REGIONS: usize = 64;

/// Hands out the usable frames of the boot memory map in order. The map is kept
/// in a fixed array, as the bootloader hands it over, so that no heap is needed.
pub struct BootFrameAllocator {
    regions: [MemoryRegion; MAX_REGIONS],
    len: usize,
    next: usize,
}

proof fn lemma_usable_frames_step(regions: Seq<MemoryRegion>, i: int)
    requires
        0 <= i < regions.len(),
    ensures
        usable_frames_of(regions.skip(i)) == region_frames(regions[i]) + usable_frames_of(regions.skip(i + 1)),
{
    assert(regions.skip(i).skip(1) =~= regions.skip(i + 1));
    assert(regions.skip(i)[0] == regions[i]);
}

proof fn lemma_step_in_region(r: MemoryRegion, k: u64)
    requires
        r.start < r.end,
        k < step_count(r),
    ensures
        r.start + k * 4096 < r.end,
{
    let d = (r.end - r.start - 1) as int;
    assert(k * 4096 <= d) by (nonlinear_arith)
        requires
            k < d / 4096 + 1,
            d >= 0,
    {}
}

/// A usable region's frame at step `k`, with the address it was taken from.
proof fn lemma_region_frame(r: MemoryRegion, k: int)
    requires
        r.usable,
        0 <= k < step_count(r),
    ensures
        r.start <= r.start + k * 4096 < r.end,
        region_frames(r)[k] == page_base((r.start + k * 4096) as u64),
{
    lemma_step_in_region(r, k as u64);
}

/// Every frame that the allocator hands out is 4 KiB aligned and holds an
/// address of a usable region of the memory map.
pub proof fn lemma_frames_in_usable_regions(regions: Seq<MemoryRegion>, k: int)
    requires
        0 <= k < usable_frames_of(regions).len(),
    ensures
        usable_frames_of(regions)[k] % PAGE_SIZE == 0,
        exists|j: int, a: u64|
            #![trigger regions[j].usable, page_base(a)]
            0 <= j < regions.len() && regions[j].usable && regions[j].start <= a < regions[j].end
                && usable_frames_of(regions)[k] == page_base(a),
    decreases regions.len(),
{
    let frames = usable_frames_of(regions);
    let head = region_frames(regions[0]);
    let rest = regions.skip(1);
    if k < head.len() {
        let r = regions[0];
        lemma_region_frame(r, k);
        let a = (r.start + k * 4096) as u64;
        lemma_page_base(a);
        assert(frames[k] == head[k]);
        assert(regions[0].usable && regions[0].start <= a < regions[0].end && frames[k] == page_base(a));
    } else {
        lemma_frames_in_usable_regions(rest, k - head.len());
        assert(frames[k] == usable_frames_of(rest)[k - head.len()]);
        let (j, a) = choose|j: int, a: u64|
            #![trigger rest[j].usable, page_base(a)]
            0 <= j < rest.len() && rest[j].usable && rest[j].start <= a < rest[j].end
                && usable_frames_of(rest)[k - head.len()] == page_base(a);
        assert(rest[j] == regions[j + 1]);
        assert(regions[j + 1].usable && regions[j + 1].start <= a < regions[j + 1].end && frames[k] == page_base(a));
    }
}

/// A memory map whose usable regions start on frame boundaries and come in
/// ascending, non-overlapping order.
pub open spec fn ascending_map(regions: Seq<MemoryRegion>) -> bool {
    &&& forall|i: int| 0 <= i < regions.len() && #[trigger] regions[i].usable ==> regions[i].start % PAGE_SIZE == 0
    &&& forall|i: int, j: int|
        0 <= i < j < regions.len() && #[trigger] regions[i].usable && #[trigger] regions[j].usable
            && regions[i].start < regions[i].end ==> regions[i].end <= regions[j].start
}

pub proof fn lemma_aligned_below_page_base(x: u64, a: u64)
    requires
        x % 4096 == 0,
        x <= a,
    ensures
        x <= page_base(a),
{
    lemma_page_base(a);
    assert(x <= a - a % 4096) by (nonlinear_arith)
        requires
            x % 4096 == 0,
            x <= a,
    {}
}

/// On an ascending map the frames come out in strictly increasing order, so the
/// allocator never hands out one frame twice.
pub proof fn lemma_frames_increasing(regions: Seq<MemoryRegion>)
    requires
        ascending_map(regions),
    ensures
        forall|a: int, b: int|
            0 <= a < b < usable_frames_of(regions).len() ==> #[trigger] usable_frames_of(regions)[a]
                < #[trigger] usable_frames_of(regions)[b],
    decreases regions.len(),
{
    if regions.len() == 0 {
        return;
    }
    let frames = usable_frames_of(regions);
    let r = regions[0];
    let head = region_frames(r);
    let rest = regions.skip(1);
    assert forall|i: int| 0 <= i < rest.len() && #[trigger] rest[i].usable implies rest[i].start % PAGE_SIZE == 0 by {
        assert(rest[i] == regions[i + 1]);
    }
    assert forall|i: int, j: int|
        0 <= i < j < rest.len() && #[trigger] rest[i].usable && #[trigger] rest[j].usable
            && rest[i].start < rest[i].end implies rest[i].end <= rest[j].start by {
        assert(rest[i] == regions[i + 1]);
        assert(rest[j] == regions[j + 1]);
    }
    lemma_frames_increasing(rest);
    let tail = usable_frames_of(rest);
    // Frames of the first region: start, start + 4096, ...
    assert forall|k: int| 0 <= k < head.len() implies #[trigger] head[k] == r.start + k * 4096 && head[k] < r.end by {
        lemma_region_frame(r, k);
        let x = (r.start + k * 4096) as u64;
        lemma_page_base(x);
        assert(x % 4096 == 0) by (nonlinear_arith)
            requires
                x == r.start + k * 4096,
                r.start % 4096 == 0,
        {}
    }
    // Frames of the later regions lie at or above the end of the first one.
    assert forall|m: int| 0 <= m < tail.len() && head.len() > 0 implies r.end <= #[trigger] tail[m] by {
        lemma_frames_in_usable_regions(rest, m);
        let (j, a) = choose|j: int, a: u64|
            #![trigger rest[j].usable, page_base(a)]
            0 <= j < rest.len() && rest[j].usable && rest[j].start <= a < rest[j].end
                && tail[m] == page_base(a);
        assert(rest[j] == regions[j + 1]);
        assert(regions[0].usable && regions[j + 1].usable);
        assert(r.end <= regions[j + 1].start);
        lemma_aligned_below_page_base(regions[j + 1].start, a);
    }
    assert forall|a: int, b: int| 0 <= a < b < frames.len() implies #[trigger] frames[a] < #[trigger] frames[b] by {
        if b < head.len() {
            assert(frames[a] == head[a] && frames[b] == head[b]);
        } else if a < head.len() {
            assert(frames[a] == head[a]);
            assert(frames[b] == tail[b - head.len()]);
        } else {
            assert(frames[a] == tail[a - head.len()] && frames[b] == tail[b - head.len()]);
        }
    }
}

/// Whether every usable region of `regions` lies in the physical address space
/// (what `init` needs).
pub fn valid_memory_map(regions: &[MemoryRegion]) -> (r: bool)
    ensures
        r == valid_map(regions@),
{
    let mut i: usize = 0;
    while i < regions.len()
        invariant
            i <= regions.len(),
            forall|j: int|
                0 <= j < i && #[trigger] regions@[j].usable && regions@[j].start < regions@[j].end
                    ==> regions@[j].end <= PHYS_ADDR_LIMIT,
        decreases regions.len() - i,
    {
        if regions[i].usable && regions[i].start < regions[i].end && regions[i].end > PHYS_ADDR_LIMIT {
            return false;
        }
        i = i + 1;
    }
    true
}

/// No usable address is skipped: for every usable region and every address
/// `start + k * 4096` below its end, the frame holding that address is among
/// the frames the allocator hands out.
pub proof fn lemma_frames_complete(regions: Seq<MemoryRegion>, i: int, k: nat)
    requires
        0 <= i < regions.len(),
        regions[i].usable,
        regions[i].start + k * 4096 < regions[i].end,
    ensures
        usable_frames_of(regions).contains(page_base((regions[i].start + k * 4096) as u64)),
    decreases regions.len(),
{
    let frames = usable_frames_of(regions);
    let head = region_frames(regions[0]);
    let rest = regions.skip(1);
    let f = page_base((regions[i].start + k * 4096) as u64);
    if i == 0 {
        let r = regions[0];
        let d = (r.end - r.start - 1) as int;
        assert(k < d / 4096 + 1) by (nonlinear_arith)
            requires
                k * 4096 <= d,
                d >= 0,
        {}
        assert(head[k as int] == f);
        assert(frames[k as int] == f);
    } else {
        assert(rest[i - 1] == regions[i]);
        lemma_frames_complete(rest, i - 1, k);
        let tail = usable_frames_of(rest);
        let p = choose|p: int| 0 <= p < tail.len() && tail[p] == f;
        assert(frames[head.len() + p] == f);
    }
}

/// `a` is a physical address (`PhysAddr::new` takes it).
pub open spec fn physical(a: u64) -> bool {
    a < PHYS_ADDR_LIMIT
}

/// A memory map is valid exactly when every address of every usable region is
/// a physical address (below 2^52), whatever the regions' starts.
pub proof fn lemma_valid_map_is_physical(regions: Seq<MemoryRegion>)
    ensures
        valid_map(regions) <==> forall|i: int, a: u64|
            0 <= i < regions.len() && #[trigger] regions[i].usable && regions[i].start <= a < regions[i].end
                ==> #[trigger] physical(a),
{
    if !valid_map(regions) {
        let i = choose|i: int|
            0 <= i < regions.len() && #[trigger] regions[i].usable && regions[i].start < regions[i].end
                && !(regions[i].end <= PHYS_ADDR_LIMIT);
        let a = (regions[i].end - 1) as u64;
        assert(regions[i].start <= a < regions[i].end && !physical(a));
    }
}

/// On a map whose usable regions start on frame boundaries, every frame that the
/// allocator hands out starts inside a usable region.
pub proof fn lemma_frames_start_in_usable_regions(regions: Seq<MemoryRegion>, k: int)
    requires
        ascending_map(regions),
        0 <= k < usable_frames_of(regions).len(),
    ensures
        exists|j: int|
            0 <= j < regions.len() && #[trigger] regions[j].usable && regions[j].start <= usable_frames_of(regions)[k]
                < regions[j].end,
{
    lemma_frames_in_usable_regions(regions, k);
    let f = usable_frames_of(regions)[k];
    let (j, a) = choose|j: int, a: u64|
        #![trigger regions[j].usable, page_base(a)]
        0 <= j < regions.len() && regions[j].usable && regions[j].start <= a < regions[j].end
            && f == page_base(a);
    lemma_page_base(a);
    lemma_aligned_below_page_base(regions[j].start, a);
    assert(regions[j].usable && regions[j].start <= f < regions[j].end);
}

impl BootFrameAllocator {
    /// The memory map stays valid.
    #[verifier::type_invariant]
    spec fn inv(self) -> bool {
        &&& self.len <= MAX_REGIONS
        &&& valid_map(self.regions@.take(self.len as int))
    }

    /// The memory map the allocator walks.
    pub closed spec fn memory_map(&self) -> Seq<MemoryRegion> {
        self.regions@.take(self.len as int)
    }

    /// How many frames have been requested so far.
    pub closed spec fn next_index(&self) -> nat {
        self.next as nat
    }

    /// The frames this allocator hands out, in order.
    pub open spec fn frames(&self) -> Seq<u64> {
        usable_frames_of(self.memory_map())
    }

    /// An allocator at the start of the memory map made of the first `len`
    /// entries of `regions`.
    pub fn init(regions: [MemoryRegion; MAX_REGIONS], len: usize) -> (r: Self)
        requires
            len <= MAX_REGIONS,
            valid_map(regions@.take(len as int)),
        ensures
            r.memory_map() == regions@.take(len as int),
            r.next_index() == 0,
    {
        BootFrameAllocator { regions, len, next: 0 }
    }

    /// Number of steps of `r` (see `step_count`).
    fn steps(r: &MemoryRegion) -> (n: u64)
        ensures
            n == step_count(*r),
    {
        if r.start < r.end {
            (r.end - r.start - 1) / PAGE_SIZE + 1
        } else {
            0
        }
    }

    /// The usable frames of the memory map, in order.
    pub fn usable_frames(&self) -> (v: Vec<u64>)
        ensures
            v@ == self.frames(),
    {
        proof {
            use_type_invariant(self);
        }
        let mut v: Vec<u64> = Vec::new();
        let mut i: usize = 0;
        let ghost rs = self.memory_map();
        assert(rs.skip(0) =~= rs);
        assert(v@ + usable_frames_of(rs) =~= usable_frames_of(rs));
        while i < self.len
            invariant
                rs == self.memory_map(),
                self.len <= MAX_REGIONS,
                valid_map(rs),
                i <= rs.len(),
                usable_frames_of(rs) == v@ + usable_frames_of(rs.skip(i as int)),
            decreases rs.len() - i,
        {
            let r = self.regions[i];
            proof {
                lemma_usable_frames_step(rs, i as int);
            }
            if r.usable {
                let n = Self::steps(&r);
                let mut k: u64 = 0;
                let ghost v0 = v@;
                while k < n
                    invariant
                        i < rs.len(),
                        r == rs[i as int],
                        r.usable,
                        r.start < r.end ==> r.end <= PHYS_ADDR_LIMIT,
                        n == step_count(r),
                        k <= n,
                        v@ == v0 + region_frames(r).take(k as int),
                    decreases n - k,
                {
                    proof {
                        lemma_step_in_region(r, k);
                    }
                    let f = frame_containing(r.start + k * PAGE_SIZE);
                    v.push(f);
                    k = k + 1;
                    assert(region_frames(r).take(k as int) =~= region_frames(r).take(k - 1).push(f));
                }
                assert(region_frames(r).take(n as int) =~= region_frames(r));
            } else {
                assert(region_frames(r) =~= Seq::<u64>::empty());
                assert(v@ + region_frames(r) =~= v@);
            }
            i = i + 1;
            assert(usable_frames_of(rs) =~= v@ + usable_frames_of(rs.skip(i as int)));
        }
        assert(rs.skip(i as int) =~= Seq::<MemoryRegion>::empty());
        assert(v@ + usable_frames_of(rs.skip(i as int)) =~= v@);
        v
    }

    /// The next usable frame, or `None` once the usable frames are used up; each
    /// call counts as one request, whether a frame came back or not.
    pub fn allocate_frame(&mut self) -> (r: Option<u64>)
        requires
            old(self).next_index() < usize::MAX,
        ensures
            final(self).memory_map() == old(self).memory_map(),
            final(self).next_index() == old(self).next_index() + 1,
            r == (if old(self).next_index() < old(self).frames().len() {
                Some(old(self).frames()[old(self).next_index() as int])
            } else {
                None::<u64>
            }),
            final(self).handed_out() == match r {
                Some(f) => old(self).handed_out().push(f),
                None => old(self).handed_out(),
            },
            ascending_map(old(self).memory_map()) ==> (r matches Some(f) ==> !old(self).handed_out().contains(f)),
    {
        proof {
            use_type_invariant(&*self);
        }
        let frame = self.nth_frame(self.next);
        self.next = self.next + 1;
        proof {
            let fs = old(self).frames();
            let n = old(self).next_index();
            if n < fs.len() {
                assert(fs.take(n + 1int) =~= fs.take(n as int).push(fs[n as int]));
                if ascending_map(old(self).memory_map()) {
                    lemma_frames_increasing(old(self).memory_map());
                    assert forall|i: int| 0 <= i < fs.take(n as int).len() implies fs.take(n as int)[i] != fs[n as int] by {
                        assert(fs.take(n as int)[i] == fs[i]);
                        assert(fs[i] < fs[n as int]);
                    }
                }
            }
        }
        frame
    }

    /// The frames handed out so far, in the order they went out.
    pub open spec fn handed_out(&self) -> Seq<u64> {
        if self.next_index() <= self.frames().len() {
            self.frames().take(self.next_index() as int)
        } else {
            self.frames()
        }
    }

    /// Number of frame requests so far.
    pub fn requests(&self) -> (r: usize)
        ensures
            r == self.next_index(),
    {
        self.next
    }

    /// The frame at position `index` of `frames()`, found region by region.
    fn nth_frame(&self, index: usize) -> (r: Option<u64>)
        ensures
            r == (if index < self.frames().len() {
                Some(self.frames()[index as int])
            } else {
                None::<u64>
            }),
    {
        proof {
            use_type_invariant(self);
        }
        let ghost rs = self.memory_map();
        let ghost mut pre: Seq<u64> = Seq::empty();
        let mut n: u64 = index as u64;
        let mut i: usize = 0;
        assert(rs.skip(0) =~= rs);
        assert(pre + usable_frames_of(rs) =~= usable_frames_of(rs));
        while i < self.len
            invariant
                rs == self.memory_map(),
                self.len <= MAX_REGIONS,
                valid_map(rs),
                i <= rs.len(),
                usable_frames_of(rs) == pre + usable_frames_of(rs.skip(i as int)),
                pre.len() + n == index,
            decreases rs.len() - i,
        {
            let r = self.regions[i];
            proof {
                lemma_usable_frames_step(rs, i as int);
            }
            if r.usable {
                let c = Self::steps(&r);
                if n < c {
                    proof {
                        lemma_step_in_region(r, n);
                        assert(usable_frames_of(rs) =~= pre + region_frames(r) + usable_frames_of(rs.skip(i + 1)));
                    }
                    return Some(frame_containing(r.start + n * PAGE_SIZE));
                }
                n = n - c;
                proof {
                    pre = pre + region_frames(r);
                }
            } else {
                assert(region_frames(r) =~= Seq::<u64>::empty());
            }
            i = i + 1;
            assert(usable_frames_of(rs) =~= pre + usable_frames_of(rs.skip(i as int)));
        }
        assert(rs.skip(i as int) =~= Seq::<MemoryRegion>::empty());
        assert(usable_frames_of(rs) =~= pre);
        None
    }
}

} // verus!
