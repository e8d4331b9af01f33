use launchpad_ji::voices::VoiceTable;

#[test]
fn fifteen_pads_fill_member_channels() {
    let mut v = VoiceTable::new();
    for (i, pad) in (0u8..15).enumerate() {
        assert_eq!(v.allocate(pad), Some(i as u8 + 1));
    }
    assert_eq!(v.slots[0], None);
    for c in 1..16 {
        assert_eq!(v.slots[c], Some(c as u8 - 1));
    }
    let before = v.slots;
    assert_eq!(v.allocate(100), None);
    assert_eq!(v.slots, before);
}

#[test]
fn release_frees_one_slot_for_a_new_pad() {
    let mut v = VoiceTable::new();
    for pad in 0u8..15 {
        v.allocate(pad);
    }
    assert_eq!(v.release(6), Some(7));
    let free = v.slots.iter().skip(1).filter(|s| s.is_none()).count();
    assert_eq!(free, 1);
    assert_eq!(v.allocate(99), Some(7));
    assert_eq!(v.slots[7], Some(99));
    assert_eq!(v.allocate(98), None);
}

#[test]
fn releasing_twice_has_no_further_effect() {
    let mut v = VoiceTable::new();
    v.allocate(20);
    v.allocate(21);
    assert_eq!(v.release(20), Some(1));
    let after_first = v.slots;
    assert_eq!(v.release(20), None);
    assert_eq!(v.slots, after_first);
}

#[test]
fn releasing_an_unheld_pad_is_ignored() {
    let mut v = VoiceTable::new();
    v.allocate(3);
    let before = v.slots;
    assert_eq!(v.release(4), None);
    assert_eq!(v.slots, before);
}

#[test]
fn same_pad_twice_takes_two_channels() {
    let mut v = VoiceTable::new();
    assert_eq!(v.allocate(33), Some(1));
    assert_eq!(v.allocate(33), Some(2));
    assert_eq!(v.release(33), Some(1));
    assert_eq!(v.release(33), Some(2));
    assert_eq!(v.release(33), None);
}

#[test]
fn first_fit_reuses_lowest_channel() {
    let mut v = VoiceTable::new();
    v.allocate(1);
    v.allocate(2);
    v.allocate(3);
    v.release(1);
    v.release(2);
    assert_eq!(v.allocate(9), Some(1));
    assert_eq!(v.allocate(10), Some(2));
    assert_eq!(v.allocate(11), Some(4));
}
