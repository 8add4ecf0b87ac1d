use lessbad::heap::{HeapAction, HeapEvent, HeapPlan, MapError, HEAP_SIZE, HEAP_START};

#[test]
fn kernel_heap_maps_25_pages_in_order() {
    let mut plan = HeapPlan::new(HEAP_START, HEAP_SIZE);
    assert_eq!(plan.step(HeapEvent::Begin), HeapAction::AllocateFrame);
    let mut mapped = Vec::new();
    let mut frame = 0x10_0000u64;
    loop {
        match plan.step(HeapEvent::FrameAllocated(Some(frame))) {
            HeapAction::MapPage { page, frame: f, flags } => {
                assert_eq!(f, frame);
                assert_eq!(flags, 3);
                mapped.push(page);
            }
            other => panic!("unexpected {:?}", other),
        }
        frame += 0x1000;
        match plan.step(HeapEvent::Mapped(Ok(()))) {
            HeapAction::AllocateFrame => {}
            HeapAction::InitAllocator { start, size } => {
                assert_eq!(start, HEAP_START);
                assert_eq!(size, HEAP_SIZE);
                break;
            }
            other => panic!("unexpected {:?}", other),
        }
    }
    assert_eq!(mapped.len(), 25);
    for (i, p) in mapped.iter().enumerate() {
        assert_eq!(*p, HEAP_START + 4096 * i as u64);
    }
}

#[test]
fn refused_frame_fails() {
    let mut plan = HeapPlan::new(HEAP_START, HEAP_SIZE);
    assert_eq!(plan.step(HeapEvent::Begin), HeapAction::AllocateFrame);
    assert_eq!(
        plan.step(HeapEvent::FrameAllocated(None)),
        HeapAction::Fail(MapError::FrameAllocationFailed)
    );
}

#[test]
fn mapping_error_is_passed_on() {
    let mut plan = HeapPlan::new(0x1000, 0x2000);
    assert_eq!(plan.step(HeapEvent::Begin), HeapAction::AllocateFrame);
    assert_eq!(
        plan.step(HeapEvent::FrameAllocated(Some(0x5000))),
        HeapAction::MapPage { page: 0x1000, frame: 0x5000, flags: 3 }
    );
    assert_eq!(
        plan.step(HeapEvent::Mapped(Err(MapError::PageAlreadyMapped(0x7000)))),
        HeapAction::Fail(MapError::PageAlreadyMapped(0x7000))
    );
}

#[test]
fn unaligned_heap_covers_partial_pages() {
    // 0x1800..0x2800 touches the pages at 0x1000 and 0x2000.
    let mut plan = HeapPlan::new(0x1800, 0x1000);
    assert_eq!(plan.step(HeapEvent::Begin), HeapAction::AllocateFrame);
    assert_eq!(
        plan.step(HeapEvent::FrameAllocated(Some(0x9000))),
        HeapAction::MapPage { page: 0x1000, frame: 0x9000, flags: 3 }
    );
    assert_eq!(plan.step(HeapEvent::Mapped(Ok(()))), HeapAction::AllocateFrame);
    assert_eq!(
        plan.step(HeapEvent::FrameAllocated(Some(0xa000))),
        HeapAction::MapPage { page: 0x2000, frame: 0xa000, flags: 3 }
    );
    assert_eq!(
        plan.step(HeapEvent::Mapped(Ok(()))),
        HeapAction::InitAllocator { start: 0x1800, size: 0x1000 }
    );
}

#[test]
fn empty_aligned_heap_maps_nothing() {
    let mut plan = HeapPlan::new(0x2000, 0);
    assert_eq!(
        plan.step(HeapEvent::Begin),
        HeapAction::InitAllocator { start: 0x2000, size: 0 }
    );
}

#[test]
fn plan_accepts_only_the_awaited_event() {
    let mut plan = HeapPlan::new(HEAP_START, HEAP_SIZE);
    assert!(plan.accepts(&HeapEvent::Begin));
    assert!(!plan.accepts(&HeapEvent::Mapped(Ok(()))));
    plan.step(HeapEvent::Begin);
    assert!(plan.accepts(&HeapEvent::FrameAllocated(None)));
    assert!(!plan.accepts(&HeapEvent::Begin));
    plan.step(HeapEvent::FrameAllocated(None));
    assert!(!plan.accepts(&HeapEvent::FrameAllocated(Some(0x1000))));
    assert!(!plan.accepts(&HeapEvent::Begin));
}
