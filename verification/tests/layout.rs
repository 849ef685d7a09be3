use acom::layout::{raw_task_layout, MemLayout, RawTaskOffsets};

fn ml(size: usize, align: usize) -> MemLayout {
    MemLayout { size, align }
}

#[test]
fn extend_pads_to_next_alignment() {
    let (l, off) = ml(5, 1).extend(ml(8, 8)).unwrap();
    assert_eq!(off, 8);
    assert_eq!(l, ml(16, 8));
}

#[test]
fn extend_needs_no_padding_when_aligned() {
    let (l, off) = ml(16, 8).extend(ml(3, 1)).unwrap();
    assert_eq!(off, 16);
    assert_eq!(l, ml(19, 8));
}

#[test]
fn extend_fails_past_isize_max() {
    let big = ml(isize::MAX as usize - 7, 8);
    assert!(ml(8, 8).extend(big).is_none());
    assert!(big.extend(ml(1, 1)).is_none());
}

#[test]
fn task_layout_places_parts_in_order() {
    let header = ml(24, 8);
    let future = ml(1, 1);
    let output = ml(4, 4);
    let scheduler = ml(16, 8);
    let (l, offs) = raw_task_layout(header, future, output, scheduler).unwrap();
    assert_eq!(
        offs,
        RawTaskOffsets {
            future: 24,
            output: 28,
            scheduler: 32
        }
    );
    assert_eq!(l, ml(48, 8));
}

#[test]
fn task_layout_with_zero_sized_parts() {
    let (l, offs) = raw_task_layout(ml(24, 8), ml(0, 1), ml(0, 1), ml(0, 1)).unwrap();
    assert_eq!(
        offs,
        RawTaskOffsets {
            future: 24,
            output: 24,
            scheduler: 24
        }
    );
    assert_eq!(l, ml(24, 8));
}

#[test]
fn task_layout_takes_largest_alignment() {
    let (l, offs) = raw_task_layout(ml(24, 8), ml(64, 64), ml(1, 1), ml(0, 1)).unwrap();
    assert_eq!(offs.future, 64);
    assert_eq!(offs.output, 128);
    assert_eq!(offs.scheduler, 129);
    assert_eq!(l, ml(129, 64));
}

#[test]
fn task_layout_fails_when_too_large() {
    let huge = ml(isize::MAX as usize - 15, 16);
    assert!(raw_task_layout(ml(24, 8), huge, ml(0, 1), ml(0, 1)).is_none());
}
