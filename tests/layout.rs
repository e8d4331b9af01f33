use launchpad_ji::layout::{harmonic_index_of, pad_of_harmonic, right_edge_index_of, top_edge_index_of};

#[test]
fn grid_corners_map_to_first_and_last_harmonic() {
    assert_eq!(harmonic_index_of(112), Some(1));
    assert_eq!(harmonic_index_of(119), Some(8));
    assert_eq!(harmonic_index_of(96), Some(9));
    assert_eq!(harmonic_index_of(0), Some(57));
    assert_eq!(harmonic_index_of(7), Some(64));
    assert_eq!(harmonic_index_of(54), Some(39));
    assert_eq!(harmonic_index_of(55), Some(40));
    assert_eq!(harmonic_index_of(22), Some(55));
}

#[test]
fn grid_table_round_trips_for_every_pad() {
    let mut seen = [false; 128];
    for h in 1u8..=64 {
        let pad = pad_of_harmonic(h);
        assert!(!seen[pad as usize]);
        seen[pad as usize] = true;
        assert_eq!(harmonic_index_of(pad), Some(h));
    }
    let grid_pads = (0u8..128).filter(|p| harmonic_index_of(*p).is_some()).count();
    assert_eq!(grid_pads, 64);
}

#[test]
fn edge_controls_are_not_grid_pads() {
    for n in [8u8, 24, 40, 56, 72, 88, 104, 120, 127, 128, 200] {
        assert_eq!(harmonic_index_of(n), None);
    }
}

#[test]
fn right_edge_lookup() {
    let notes = [8u8, 24, 40, 56, 72, 88, 104, 120];
    for (i, n) in notes.iter().enumerate() {
        assert_eq!(right_edge_index_of(*n), Some(i as u8));
    }
    assert_eq!(right_edge_index_of(0), None);
    assert_eq!(right_edge_index_of(9), None);
    assert_eq!(right_edge_index_of(136), None);
}

#[test]
fn top_edge_lookup() {
    for cc in 104u8..=111 {
        assert_eq!(top_edge_index_of(cc), Some(cc - 104));
    }
    assert_eq!(top_edge_index_of(103), None);
    assert_eq!(top_edge_index_of(112), None);
}
