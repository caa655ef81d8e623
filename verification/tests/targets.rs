use digit_synthesis::target::TargetVector;

#[test]
fn reconstruction_target_has_its_one_at_the_class() {
    let target = TargetVector::reconstruction(10, 3).unwrap();
    assert_eq!(target.len, 11);
    assert_eq!(target.hot, 3);
    assert_eq!(target.to_vec(), vec![0, 0, 0, 1, 0, 0, 0, 0, 0, 0, 0]);
}

#[test]
fn sentinel_target_has_its_one_at_the_extra_slot() {
    let target = TargetVector::sentinel(10).unwrap();
    assert_eq!(target.to_vec(), vec![0, 0, 0, 0, 0, 0, 0, 0, 0, 0, 1]);
    assert_eq!(target.get(10), 1);
    assert_eq!(target.get(9), 0);
}

#[test]
fn reconstruction_refuses_the_sentinel_slot_and_beyond() {
    assert_eq!(TargetVector::reconstruction(10, 10), None);
    assert_eq!(TargetVector::reconstruction(10, 11), None);
    assert_eq!(TargetVector::reconstruction(0, 0), None);
    assert!(TargetVector::reconstruction(10, 9).is_some());
}

#[test]
fn targets_need_room_for_the_extra_slot() {
    assert_eq!(TargetVector::sentinel(usize::MAX), None);
    assert_eq!(TargetVector::reconstruction(usize::MAX, 0), None);
    let widest = TargetVector::sentinel(usize::MAX - 1).unwrap();
    assert_eq!(widest.len, usize::MAX);
    assert_eq!(widest.hot, usize::MAX - 1);
}

#[test]
fn new_target_needs_its_one_inside() {
    assert_eq!(TargetVector::new(4, 4), None);
    assert_eq!(TargetVector::new(0, 0), None);
    assert_eq!(TargetVector::new(4, 3), Some(TargetVector { len: 4, hot: 3 }));
    assert_eq!(TargetVector::new(1, 0).unwrap().to_vec(), vec![1]);
}

#[test]
fn reconstruction_and_sentinel_never_agree() {
    for class in 0..10 {
        let wanted = TargetVector::reconstruction(10, class).unwrap();
        let sentinel = TargetVector::sentinel(10).unwrap();
        assert_ne!(wanted.to_vec(), sentinel.to_vec());
        assert_eq!(wanted.to_vec().iter().filter(|&&slot| slot == 1).count(), 1);
    }
}
