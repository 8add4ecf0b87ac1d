//! The plan that maps the kernel heap: which pages to map, in which order, what
//! to do when a frame or a mapping is refused, and when to hand the heap to the
//! allocator. The page-table writes themselves happen outside the library.
use vstd::prelude::*;
use crate::address::{PAGE_SIZE, page_base, page_containing, lemma_page_base, lemma_lower_half_canonical};

verus! {

/// First virtual address of the kernel heap.
pub const HEAP_START: u64 = 0x_4444_4444_0000;

/// Size of the kernel heap in bytes (100 KiB).
pub const HEAP_SIZE: u64 = 100 * 1024;

/// Lowest address of the upper canonical half: heaps are placed below it.
pub const LOWER_HALF_END: u64 = 0x8000_0000_0000;

/// Page-table flags of a heap page (`PRESENT | WRITABLE`).
pub open spec fn heap_page_flags_spec() -> u64 {
    3
}

/// `PageTableFlags::PRESENT | PageTableFlags::WRITABLE` of the `x86_64` crate, as
/// raw bits (`PRESENT` is bit 0 and `WRITABLE` bit 1 there).
#[verifier::external_body]
fn present_writable_bits() -> (r: u64)
    ensures
        r == heap_page_flags_spec(),
{
    (x86_64::structures::paging::PageTableFlags::PRESENT
        | x86_64::structures::paging::PageTableFlags::WRITABLE).bits()
}

/// Why mapping a heap page failed.
#[derive(Clone, Copy, Debug, PartialEq, Eq)]
pub enum MapError {
    /// No frame was left for the page or for a page table on its way.
    FrameAllocationFailed,
    /// A parent entry maps a huge page that covers the page.
    ParentEntryHugePage,
    /// The page is already mapped, to the frame that starts at this address.
    PageAlreadyMapped(u64),
}

/// What the outside world reports back to the plan.
#[derive(Clone, Copy, Debug, PartialEq, Eq)]
pub enum HeapEvent {
    /// The plan is started.
    Begin,
    /// The frame allocator answered a request.
    FrameAllocated(Option<u64>),
    /// The mapper answered a mapping request.
    Mapped(Result<(), MapError>),
}

/// What the plan asks the outside world to do next.
#[derive(Clone, Copy, Debug, PartialEq, Eq)]
pub enum HeapAction {
    /// Ask the frame allocator for a frame.
    AllocateFrame,
    /// Map the page at `page` to the frame at `frame` with the page-table `flags`.
    MapPage { page: u64, frame: u64, flags: u64 },
    /// Every page is mapped: hand `start..start + size` to the heap allocator.
    InitAllocator { start: u64, size: u64 },
    /// Give up with this error.
    Fail(MapError),
}

/// Where a plan stands.
#[derive(Clone, Copy, Debug, PartialEq, Eq)]
pub enum HeapPhase {
    NotStarted,
    AwaitingFrame,
    AwaitingMapping,
    Finished,
}

/// Abstract state of a heap plan.
pub struct HeapPlanView {
    pub start: u64,
    pub size: u64,
    pub first_page: u64,
    pub page_count: nat,
    pub next: nat,
    pub phase: HeapPhase,
}

/// The heap `start..start + size` is one the plan handles: it lies in the lower
/// canonical half and its last byte exists.
pub open spec fn heap_fits(start: u64, size: u64) -> bool {
    start < LOWER_HALF_END && start + size <= LOWER_HALF_END && start + size >= 1
}

/// The page holding the first heap byte.
pub open spec fn first_heap_page(start: u64) -> u64 {
    page_base(start)
}

/// The page holding the last heap byte.
pub open spec fn last_heap_page(start: u64, size: u64) -> u64 {
    page_base((start + size - 1) as u64)
}

/// Number of pages from the first to the last heap page, both included.
pub open spec fn heap_page_count(start: u64, size: u64) -> nat {
    if first_heap_page(start) <= last_heap_page(start, size) {
        ((last_heap_page(start, size) - first_heap_page(start)) as nat / 4096 + 1) as nat
    } else {
        0
    }
}

/// The `i`-th page that the plan maps.
pub open spec fn plan_page(v: HeapPlanView, i: int) -> u64 {
    (v.first_page + i * 4096) as u64
}

/// A fresh plan for the heap `start..start + size`.
pub open spec fn fresh_plan(start: u64, size: u64) -> HeapPlanView {
    HeapPlanView {
        start,
        size,
        first_page: first_heap_page(start),
        page_count: heap_page_count(start, size),
        next: 0,
        phase: HeapPhase::NotStarted,
    }
}

/// The event a plan in state `v` waits for.
pub open spec fn expects(v: HeapPlanView, e: HeapEvent) -> bool {
    match v.phase {
        HeapPhase::NotStarted => e is Begin,
        HeapPhase::AwaitingFrame => e is FrameAllocated,
        HeapPhase::AwaitingMapping => e is Mapped,
        HeapPhase::Finished => false,
    }
}

/// After page `next` is done: map the following page, or hand the heap over.
pub open spec fn advance(v: HeapPlanView, next: nat) -> (HeapPlanView, HeapAction) {
    if next < v.page_count {
        (HeapPlanView { next, phase: HeapPhase::AwaitingFrame, ..v }, HeapAction::AllocateFrame)
    } else {
        (
            HeapPlanView { next, phase: HeapPhase::Finished, ..v },
            HeapAction::InitAllocator { start: v.start, size: v.size },
        )
    }
}

/// One step of the plan: the next state and the action that answers `e`.
pub open spec fn heap_step(v: HeapPlanView, e: HeapEvent) -> (HeapPlanView, HeapAction) {
    match e {
        HeapEvent::Begin => advance(v, v.next),
        HeapEvent::FrameAllocated(None) => (
            HeapPlanView { phase: HeapPhase::Finished, ..v },
            HeapAction::Fail(MapError::FrameAllocationFailed),
        ),
        HeapEvent::FrameAllocated(Some(frame)) => (
            HeapPlanView { phase: HeapPhase::AwaitingMapping, ..v },
            HeapAction::MapPage {
                page: plan_page(v, v.next as int),
                frame,
                flags: heap_page_flags_spec(),
            },
        ),
        HeapEvent::Mapped(Err(err)) => (
            HeapPlanView { phase: HeapPhase::Finished, ..v },
            HeapAction::Fail(err),
        ),
        HeapEvent::Mapped(Ok(())) => advance(v, v.next + 1),
    }
}

/// The actions a plan in state `v` gives in answer to `events`, one by one.
pub open spec fn run_plan(v: HeapPlanView, events: Seq<HeapEvent>) -> Seq<HeapAction>
    decreases events.len(),
{
    if events.len() == 0 {
        Seq::empty()
    } else {
        let (w, a) = heap_step(v, events[0]);
        seq![a] + run_plan(w, events.skip(1))
    }
}

/// The events of a run in which the allocator grants `frames`, one per request,
/// and every mapping succeeds.
pub open spec fn granted(frames: Seq<u64>) -> Seq<HeapEvent>
    decreases frames.len(),
{
    if frames.len() == 0 {
        Seq::empty()
    } else {
        seq![HeapEvent::FrameAllocated(Some(frames[0])), HeapEvent::Mapped(Ok(()))] + granted(frames.skip(1))
    }
}

/// What follows the mapping of page `k`: a request for the next frame, or the
/// hand-over of the heap after the last page.
pub open spec fn after_page(v: HeapPlanView, k: int) -> HeapAction {
    if k + 1 < v.page_count {
        HeapAction::AllocateFrame
    } else {
        HeapAction::InitAllocator { start: v.start, size: v.size }
    }
}

/// The actions of a successful run from page `k` on, given the frames for the
/// remaining pages: each page mapped to its frame, then `after_page`.
pub open spec fn mapping_actions(v: HeapPlanView, k: int, frames: Seq<u64>) -> Seq<HeapAction> {
    Seq::new(
        2 * frames.len(),
        |j: int|
            if j % 2 == 0 {
                HeapAction::MapPage {
                    page: plan_page(v, k + j / 2),
                    frame: frames[j / 2],
                    flags: heap_page_flags_spec(),
                }
            } else {
                after_page(v, k + j / 2)
            },
    )
}

proof fn lemma_granted_from(v: HeapPlanView, frames: Seq<u64>)
    requires
        v.phase == HeapPhase::AwaitingFrame,
        v.next + frames.len() == v.page_count,
    ensures
        run_plan(v, granted(frames)) == mapping_actions(v, v.next as int, frames),
    decreases frames.len(),
{
    if frames.len() == 0 {
        assert(run_plan(v, granted(frames)) =~= mapping_actions(v, v.next as int, frames));
        return;
    }
    let f = frames[0];
    let rest = frames.skip(1);
    let evs = granted(frames);
    let (v1, a1) = heap_step(v, evs[0]);
    assert(evs.skip(1) =~= seq![HeapEvent::Mapped(Ok(()))] + granted(rest));
    let evs1 = evs.skip(1);
    let (v2, a2) = heap_step(v1, evs1[0]);
    assert(evs1.skip(1) =~= granted(rest));
    assert(run_plan(v1, evs1) == seq![a2] + run_plan(v2, granted(rest)));
    let tail = run_plan(v2, granted(rest));
    if rest.len() > 0 {
        lemma_granted_from(v2, rest);
        assert(tail == mapping_actions(v2, v2.next as int, rest));
    } else {
        assert(tail =~= Seq::<HeapAction>::empty());
    }
    let expected = mapping_actions(v, v.next as int, frames);
    assert forall|j: int| 0 <= j < expected.len() implies #[trigger] expected[j] == (seq![a1, a2] + tail)[j] by {
        if j >= 2 {
            assert((seq![a1, a2] + tail)[j] == tail[j - 2]);
            assert(plan_page(v2, v2.next + (j - 2) / 2) == plan_page(v, v.next + j / 2));
            assert(after_page(v2, v2.next + (j - 2) / 2) == after_page(v, v.next + j / 2));
            assert(rest[(j - 2) / 2] == frames[j / 2]);
        }
    }
    assert(run_plan(v, evs) =~= expected);
}

/// A heap plan that is started, granted one frame per page and sees every
/// mapping succeed maps each heap page exactly once, in ascending order, to the
/// frame granted for it, and then hands the whole heap to the allocator.
pub proof fn lemma_successful_run(start: u64, size: u64, frames: Seq<u64>)
    requires
        heap_fits(start, size),
        frames.len() == heap_page_count(start, size),
    ensures
        ({
            let v = fresh_plan(start, size);
            run_plan(v, seq![HeapEvent::Begin] + granted(frames)) == if frames.len() == 0 {
                seq![HeapAction::InitAllocator { start, size }]
            } else {
                seq![HeapAction::AllocateFrame] + mapping_actions(v, 0, frames)
            }
        }),
{
    let v = fresh_plan(start, size);
    let evs = seq![HeapEvent::Begin] + granted(frames);
    assert(evs.skip(1) =~= granted(frames));
    let (v1, a1) = heap_step(v, evs[0]);
    if frames.len() == 0 {
        assert(granted(frames) =~= Seq::<HeapEvent>::empty());
        assert(evs.len() == 1);
        assert(evs[0] == HeapEvent::Begin);
        assert(run_plan(v1, evs.skip(1)) =~= Seq::<HeapAction>::empty());
        assert(a1 == HeapAction::InitAllocator { start, size });
        assert(run_plan(v, evs) =~= seq![HeapAction::InitAllocator { start, size }]);
    } else {
        lemma_granted_from(v1, frames);
        assert(mapping_actions(v1, 0, frames) =~= mapping_actions(v, 0, frames));
        assert(run_plan(v, evs) =~= seq![HeapAction::AllocateFrame] + mapping_actions(v, 0, frames));
    }
}

/// The plan always waits for the answer to the action it just gave: after a
/// frame request it takes any answer of the frame allocator and nothing else,
/// after a mapping request any answer of the mapper and nothing else, and after
/// handing over the heap or failing it takes no further event. A fresh plan
/// waits only for `Begin`.
pub proof fn lemma_plan_awaits_answer(v: HeapPlanView, e: HeapEvent, next: HeapEvent, start: u64, size: u64)
    ensures
        expects(fresh_plan(start, size), HeapEvent::Begin),
        expects(fresh_plan(start, size), next) ==> next is Begin,
        expects(v, e) ==> {
            let (w, a) = heap_step(v, e);
            &&& a is AllocateFrame ==> (expects(w, next) <==> next is FrameAllocated)
            &&& a is MapPage ==> (expects(w, next) <==> next is Mapped)
            &&& (a is InitAllocator || a is Fail) ==> !expects(w, next)
        },
{
}

/// A refused frame request ends the plan with `FrameAllocationFailed`, and a
/// refused mapping ends it with the mapper's error; a finished plan takes no
/// further event.
pub proof fn lemma_refusal_ends_plan(v: HeapPlanView, err: MapError, e: HeapEvent)
    ensures
        heap_step(v, HeapEvent::FrameAllocated(None)).1 == HeapAction::Fail(MapError::FrameAllocationFailed),
        heap_step(v, HeapEvent::Mapped(Err(err))).1 == HeapAction::Fail(err),
        !expects(heap_step(v, HeapEvent::FrameAllocated(None)).0, e),
        !expects(heap_step(v, HeapEvent::Mapped(Err(err))).0, e),
{
}

/// Every byte of the heap lies in exactly one of the pages the plan maps, and
/// every page the plan maps holds a byte of the heap.
pub proof fn lemma_heap_pages_cover(start: u64, size: u64, addr: u64, i: int)
    requires
        heap_fits(start, size),
    ensures
        start <= addr < start + size ==> {
            let k = (page_base(addr) - first_heap_page(start)) / 4096;
            &&& 0 <= k < heap_page_count(start, size)
            &&& plan_page(fresh_plan(start, size), k) == page_base(addr)
            &&& forall|j: int|
                0 <= j < heap_page_count(start, size) && #[trigger] plan_page(fresh_plan(start, size), j) <= addr
                    < plan_page(fresh_plan(start, size), j) + 4096 ==> j == k
        },
        0 <= i < heap_page_count(start, size) ==> {
            let p = plan_page(fresh_plan(start, size), i);
            p < start + size && start < p + 4096
        },
{
    let v = fresh_plan(start, size);
    let first = first_heap_page(start);
    let last = last_heap_page(start, size);
    let end = (start + size - 1) as u64;
    lemma_page_base(start);
    lemma_page_base(end);
    if start <= addr < start + size {
        lemma_page_base(addr);
        let pa = page_base(addr);
        // first <= pa <= last, all multiples of 4096
        crate::frames::lemma_aligned_below_page_base(first, addr);
        crate::frames::lemma_aligned_below_page_base(pa, end);
        let k = (pa - first) / 4096;
        assert(k * 4096 == pa - first) by (nonlinear_arith)
            requires
                pa % 4096 == 0,
                first % 4096 == 0,
                first <= pa,
                k == (pa - first) / 4096,
        {}
        assert(k < heap_page_count(start, size)) by (nonlinear_arith)
            requires
                k == (pa - first) / 4096,
                first <= pa <= last,
                heap_page_count(start, size) == (last - first) / 4096 + 1,
        {}
        assert forall|j: int|
            0 <= j < heap_page_count(start, size) && #[trigger] plan_page(v, j) <= addr < plan_page(v, j) + 4096 implies j == k by {
            assert(j == k) by (nonlinear_arith)
                requires
                    first + j * 4096 <= addr < first + j * 4096 + 4096,
                    first + k * 4096 <= addr < first + k * 4096 + 4096,
            {}
        }
    }
    if 0 <= i < heap_page_count(start, size) {
        assert(i * 4096 <= last - first) by (nonlinear_arith)
            requires
                i < (last - first) / 4096 + 1,
                first <= last,
                0 <= i,
        {}
    }
}

/// The plan that maps the kernel heap page by page (see `heap_step`).
pub struct HeapPlan {
    start: u64,
    size: u64,
    first_page: u64,
    page_count: u64,
    next: u64,
    phase: HeapPhase,
}

impl View for HeapPlan {
    type V = HeapPlanView;

    closed spec fn view(&self) -> HeapPlanView {
        HeapPlanView {
            start: self.start,
            size: self.size,
            first_page: self.first_page,
            page_count: self.page_count as nat,
            next: self.next as nat,
            phase: self.phase,
        }
    }
}

impl HeapPlan {
    /// Every page the plan maps lies in the lower half, and a plan that waits
    /// for an answer about a page has that page still to map.
    #[verifier::type_invariant]
    spec fn wf(&self) -> bool {
        &&& self.next <= self.page_count
        &&& self.first_page + self.page_count * 4096 <= LOWER_HALF_END
        &&& (self.phase is AwaitingFrame || self.phase is AwaitingMapping) ==> self.next < self.page_count
    }

    /// The plan for the heap `start..start + size`: its pages are those from the
    /// one holding `start` to the one holding the last heap byte, the way
    /// `Page::range_inclusive` over `Page::containing_address` gives them.
    pub fn new(start: u64, size: u64) -> (r: Self)
        requires
            heap_fits(start, size),
        ensures
            r@ == fresh_plan(start, size),
    {
        proof {
            lemma_lower_half_canonical(start);
            lemma_lower_half_canonical((start + size - 1) as u64);
        }
        let first = page_containing(start);
        let last = page_containing(start + size - 1);
        proof {
            lemma_page_base(start);
            lemma_page_base((start + size - 1) as u64);
        }
        let count = if first <= last { (last - first) / PAGE_SIZE + 1 } else { 0 };
        proof {
            if first <= last {
                let d = (last - first) as int;
                assert((d / 4096) * 4096 <= d) by (nonlinear_arith)
                    requires
                        d >= 0,
                {}
                assert(last <= LOWER_HALF_END - 4096) by (nonlinear_arith)
                    requires
                        last < LOWER_HALF_END,
                        last % 4096 == 0,
                {}
                assert(count * 4096 == (d / 4096) * 4096 + 4096) by (nonlinear_arith)
                    requires
                        count == d / 4096 + 1,
                {}
            }
        }
        HeapPlan { start, size, first_page: first, page_count: count, next: 0, phase: HeapPhase::NotStarted }
    }

    /// Answers `event` with the next action (see `heap_step`).
    pub fn step(&mut self, event: HeapEvent) -> (action: HeapAction)
        requires
            expects(old(self)@, event),
        ensures
            (final(self)@, action) == heap_step(old(self)@, event),
    {
        proof {
            use_type_invariant(&*self);
        }
        match event {
            HeapEvent::Begin => self.advance(self.next),
            HeapEvent::FrameAllocated(None) => {
                self.phase = HeapPhase::Finished;
                HeapAction::Fail(MapError::FrameAllocationFailed)
            },
            HeapEvent::FrameAllocated(Some(frame)) => {
                self.phase = HeapPhase::AwaitingMapping;
                proof {
                    assert(self.next * 4096 <= self.page_count * 4096) by (nonlinear_arith)
                        requires
                            self.next <= self.page_count,
                    {}
                }
                HeapAction::MapPage {
                    page: self.first_page + self.next * PAGE_SIZE,
                    frame,
                    flags: present_writable_bits(),
                }
            },
            HeapEvent::Mapped(Err(err)) => {
                self.phase = HeapPhase::Finished;
                HeapAction::Fail(err)
            },
            HeapEvent::Mapped(Ok(())) => self.advance(self.next + 1),
        }
    }

    fn advance(&mut self, next: u64) -> (action: HeapAction)
        requires
            next <= old(self).page_count,
        ensures
            (final(self)@, action) == advance(old(self)@, next as nat),
    {
        proof {
            use_type_invariant(&*self);
        }
        let phase = if next < self.page_count { HeapPhase::AwaitingFrame } else { HeapPhase::Finished };
        *self = HeapPlan {
            start: self.start,
            size: self.size,
            first_page: self.first_page,
            page_count: self.page_count,
            next,
            phase,
        };
        if next < self.page_count {
            HeapAction::AllocateFrame
        } else {
            HeapAction::InitAllocator { start: self.start, size: self.size }
        }
    }

    /// Whether the plan waits for `event` (what `step` needs).
    pub fn accepts(&self, event: &HeapEvent) -> (r: bool)
        ensures
            r == expects(self@, *event),
    {
        match self.phase {
            HeapPhase::NotStarted => matches!(event, HeapEvent::Begin),
            HeapPhase::AwaitingFrame => matches!(event, HeapEvent::FrameAllocated(_)),
            HeapPhase::AwaitingMapping => matches!(event, HeapEvent::Mapped(_)),
            HeapPhase::Finished => false,
        }
    }
}

} // verus!
