use acom::parallel::{Parallel, ResultSlots};

#[test]
fn add_keeps_jobs_in_order() {
    let p = Parallel::new().add(2).add(3);
    assert_eq!(p.len(), 2);
    assert_eq!(p.into_closures(), vec![2, 3]);
}

#[test]
fn each_adds_one_job_per_item() {
    let p = Parallel::new().add(100).each(vec![0, 1, 2, 3, 4], |t: i32| t * 10);
    assert_eq!(p.into_closures(), vec![100, 0, 10, 20, 30, 40]);
}

#[test]
fn add_with_wraps_the_value() {
    let p = Parallel::new().add_with(7, |v: i32| v + 1);
    assert_eq!(p.into_closures(), vec![8]);
}

#[test]
fn each_with_shares_the_value() {
    let base = 5;
    let p = Parallel::new().each_with(&base, vec![1, 2, 3], |v: &i32, t: i32| *v + t);
    assert_eq!(p.into_closures(), vec![6, 7, 8]);
}

#[test]
fn empty_batch_has_no_jobs() {
    let p: Parallel<i32> = Parallel::new();
    assert_eq!(p.len(), 0);
    assert!(p.into_closures().is_empty());
}

#[test]
fn results_come_back_in_job_order() {
    let mut slots = ResultSlots::new(4);
    assert_eq!(slots.len(), 4);
    assert!(!slots.is_complete());
    slots.record(2, "c");
    slots.record(0, "a");
    slots.record(3, "d");
    assert!(!slots.is_complete());
    slots.record(1, "b");
    assert!(slots.is_complete());
    assert_eq!(slots.into_ordered(), vec!["a", "b", "c", "d"]);
}

#[test]
fn missing_results_stay_empty() {
    let mut slots = ResultSlots::new(3);
    slots.record(1, 10);
    assert_eq!(slots.into_results(), vec![None, Some(10), None]);
}

#[test]
fn no_jobs_is_complete() {
    let slots: ResultSlots<u8> = ResultSlots::new(0);
    assert!(slots.is_complete());
    assert!(slots.into_ordered().is_empty());
}

#[test]
fn late_results_are_not_recorded() {
    let mut slots = ResultSlots::new(3);
    assert!(slots.record_unless_late(2, 'c', false));
    assert!(!slots.record_unless_late(0, 'a', true));
    assert_eq!(slots.into_results(), vec![None, None, Some('c')]);
}
