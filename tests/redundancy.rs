use am_i_alive::{LifeState, Redundant};

#[test]
fn new_value_reads_back_exactly() {
    let v = Redundant::new(1_700_000_000u64);
    assert_eq!(v.read(), Some(1_700_000_000u64));
    assert_eq!(v.get(), 1_700_000_000u64);
    let s = Redundant::new(LifeState::MissingOrDead);
    assert_eq!(s.read(), Some(LifeState::MissingOrDead));
}

#[test]
fn corrupted_copy_is_detected() {
    assert_eq!(Redundant::from_copies(5u64, 5, 7).read(), None);
    assert_eq!(Redundant::from_copies(5u64, 7, 5).read(), None);
    assert_eq!(Redundant::from_copies(7u64, 5, 5).read(), None);
    assert_eq!(Redundant::from_copies(5u64, 5, 5).read(), Some(5));
    let s = Redundant::from_copies(LifeState::Alive, LifeState::Dead, LifeState::Alive);
    assert_eq!(s.read(), None);
}
