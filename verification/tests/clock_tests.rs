use p2p_ledger::clock::{
    finality_in_range, finalized_height_after, now_secs, secs_until, SlotClock, EPOCH_SLOTS, SLOT_SECONDS,
};

#[test]
fn constants() {
    assert_eq!(SLOT_SECONDS, 30);
    assert_eq!(EPOCH_SLOTS, 32);
}

#[test]
fn slots_and_epochs() {
    let c = SlotClock { genesis: 1000 };
    assert_eq!(c.slot_of(999), 0);
    assert_eq!(c.slot_of(1000), 0);
    assert_eq!(c.slot_of(1029), 0);
    assert_eq!(c.slot_of(1030), 1);
    assert_eq!(c.slot_of(1000 + 30 * 70 + 5), 70);
    assert_eq!(c.epoch_of_slot(70), 2);
    assert_eq!(c.slot_in_epoch(70), 6);
    assert_eq!(c.epoch_of_slot(31), 0);
    assert_eq!(c.slot_in_epoch(32), 0);
}

#[test]
fn aligned_clock() {
    let c = SlotClock::new_aligned_at(1_000_007);
    assert_eq!(c.genesis, 999_990);
    assert_eq!(c.slot_of(1_000_007), 0);
    let now = SlotClock::new_aligned_now().unwrap();
    assert_eq!(now.genesis % 30, 0);
    assert!(now.genesis <= now_secs().unwrap());
}

#[test]
fn next_slot_start() {
    let c = SlotClock { genesis: 1000 };
    assert_eq!(c.next_slot_start_from(1000), Some(1030));
    assert_eq!(c.next_slot_start_from(1029), Some(1030));
    assert_eq!(c.next_slot_start_from(1030), Some(1060));
    assert_eq!(c.next_slot_start_from(10), Some(1030));
    let late = SlotClock { genesis: u64::MAX - 10 };
    assert_eq!(late.next_slot_start_from(u64::MAX), None);
    let live = SlotClock::new_aligned_now().unwrap();
    let next = live.next_slot_start().unwrap();
    assert!(next > live.genesis);
    assert!(live.now_slot().unwrap() < 2);
}

#[test]
fn waiting() {
    assert_eq!(secs_until(100, 40), 60);
    assert_eq!(secs_until(100, 100), 0);
    assert_eq!(secs_until(100, 140), 0);
}

#[test]
fn finality_steps_at_epoch_starts() {
    assert_eq!(finalized_height_after(7, 33, 1), 7);
    assert_eq!(finalized_height_after(7, 32, 1), 0);
    assert_eq!(finalized_height_after(7, 64, 2), 31);
    assert_eq!(finalized_height_after(7, 96, 3), 63);
    assert_eq!(finalized_height_after(7, 97, 3), 7);
    assert_eq!(finalized_height_after(5, 0, 0), 0);
    assert_eq!(finalized_height_after(5, 0, u64::MAX / 32 + 2), u64::MAX);
}

#[test]
fn finality_range() {
    assert!(finality_in_range(33, u64::MAX));
    assert!(finality_in_range(0, 1));
    assert!(finality_in_range(0, u64::MAX / 32 + 2));
    assert!(!finality_in_range(0, u64::MAX / 32 + 3));
    assert!(!finality_in_range(64, u64::MAX));
}
