use launchpad_ji::modifiers::{Modifiers, Ratio, RatioSet};

#[test]
fn no_flags_give_unit_multiplier() {
    let m = Modifiers::new(RatioSet::Ascending);
    assert_eq!(m.current_multiplier(), Ratio { num: 1, den: 1 });
    let m = Modifiers::new(RatioSet::Descending);
    assert_eq!(m.current_multiplier(), Ratio { num: 1, den: 1 });
}

#[test]
fn right_ratio_tables() {
    let asc = Modifiers::new(RatioSet::Ascending);
    let desc = Modifiers::new(RatioSet::Descending);
    let asc_expected = [(9, 8), (8, 7), (7, 6), (6, 5), (5, 4), (4, 3), (3, 2), (2, 1)];
    for i in 0..8 {
        let (n, d) = asc_expected[i];
        assert_eq!(asc.right_ratio(i), Ratio { num: n, den: d });
        let (n, d) = asc_expected[7 - i];
        assert_eq!(desc.right_ratio(i), Ratio { num: n, den: d });
        assert_eq!(Modifiers::top_ratio(i), Ratio { num: i as u64 + 1, den: i as u64 + 2 });
    }
}

#[test]
fn toggling_a_flag_multiplies_and_restores() {
    let mut m = Modifiers::new(RatioSet::Ascending);
    m.set_right(0, true);
    assert_eq!(m.current_multiplier(), Ratio { num: 9, den: 8 });
    m.set_top(0, true);
    assert_eq!(m.current_multiplier(), Ratio { num: 9, den: 16 });
    m.set_top(0, false);
    assert_eq!(m.current_multiplier(), Ratio { num: 9, den: 8 });
    m.set_right(0, false);
    assert_eq!(m.current_multiplier(), Ratio { num: 1, den: 1 });
}

#[test]
fn every_flag_toggles_by_its_ratio() {
    for set in [RatioSet::Ascending, RatioSet::Descending] {
        let mut m = Modifiers::new(set);
        m.set_right(2, true);
        let before = m.current_multiplier();
        for i in 0..8 {
            if i != 2 {
                let r = m.right_ratio(i);
                m.set_right(i, true);
                let after = m.current_multiplier();
                assert_eq!(after, Ratio { num: before.num * r.num, den: before.den * r.den });
                m.set_right(i, false);
                assert_eq!(m.current_multiplier(), before);
            }
            let r = Modifiers::top_ratio(i);
            m.set_top(i, true);
            let after = m.current_multiplier();
            assert_eq!(after, Ratio { num: before.num * r.num, den: before.den * r.den });
            m.set_top(i, false);
            assert_eq!(m.current_multiplier(), before);
        }
    }
}

#[test]
fn all_flags_held() {
    let mut m = Modifiers::new(RatioSet::Ascending);
    for i in 0..8 {
        m.set_right(i, true);
        m.set_top(i, true);
    }
    assert_eq!(m.current_multiplier(), Ratio { num: 362880 * 40320, den: 40320 * 362880 });
}

#[test]
fn setting_a_held_flag_again_changes_nothing() {
    let mut m = Modifiers::new(RatioSet::Descending);
    m.set_right(0, true);
    m.set_right(0, true);
    assert_eq!(m.current_multiplier(), Ratio { num: 2, den: 1 });
}
