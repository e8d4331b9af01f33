use launchpad_ji::dispatch::{Dispatcher, OutEvent, QueueFull};
use launchpad_ji::engine::Engine;
use launchpad_ji::modifiers::{Ratio, RatioSet};

fn init_sequence() -> Vec<OutEvent> {
    vec![
        OutEvent::Control { status: 0xB0, data1: 0x79, data2: 0x00 },
        OutEvent::Control { status: 0xB0, data1: 0x64, data2: 0x06 },
        OutEvent::Control { status: 0xB0, data1: 0x65, data2: 0x00 },
        OutEvent::Control { status: 0xB0, data1: 0x06, data2: 0x0F },
    ]
}

const UNIT: Ratio = Ratio { num: 1, den: 1 };

fn grid_pads(n: usize) -> Vec<u8> {
    (0u8..128).filter(|p| p % 16 < 8).take(n).collect()
}

#[test]
fn startup_sends_mpe_configuration_once() {
    let mut e = Engine::new(RatioSet::Ascending);
    assert_eq!(e.drain_pending(), init_sequence());
    assert_eq!(e.drain_pending(), vec![]);
}

#[test]
fn note_on_assigns_first_free_channels() {
    let mut e = Engine::new(RatioSet::Ascending);
    e.drain_pending();
    assert_eq!(
        e.handle_midi_in([0x90, 54, 100]),
        vec![
            OutEvent::PitchBend { channel: 1, harmonic: 39, multiplier: UNIT },
            OutEvent::NoteOn { channel: 1, harmonic: 39, velocity: 100 },
        ]
    );
    assert_eq!(
        e.handle_midi_in([0x90, 55, 90]),
        vec![
            OutEvent::PitchBend { channel: 2, harmonic: 40, multiplier: UNIT },
            OutEvent::NoteOn { channel: 2, harmonic: 40, velocity: 90 },
        ]
    );
    assert_eq!(
        e.handle_midi_in([0x80, 54, 0]),
        vec![OutEvent::NoteOff { channel: 1, harmonic: 39, velocity: 0 }]
    );
    assert_eq!(e.voices.slots[1], None);
    assert_eq!(e.voices.slots[2], Some(55));
}

#[test]
fn right_edge_press_rebends_every_sounding_channel() {
    let mut e = Engine::new(RatioSet::Ascending);
    e.drain_pending();
    e.handle_midi_in([0x90, 54, 100]);
    e.handle_midi_in([0x90, 55, 100]);
    let nine_eighths = Ratio { num: 9, den: 8 };
    assert_eq!(
        e.handle_midi_in([0x90, 8, 127]),
        vec![
            OutEvent::PitchBend { channel: 1, harmonic: 39, multiplier: nine_eighths },
            OutEvent::PitchBend { channel: 2, harmonic: 40, multiplier: nine_eighths },
        ]
    );
    assert_eq!(e.current_multiplier(), nine_eighths);
    assert_eq!(
        e.handle_midi_in([0x80, 8, 0]),
        vec![
            OutEvent::PitchBend { channel: 1, harmonic: 39, multiplier: UNIT },
            OutEvent::PitchBend { channel: 2, harmonic: 40, multiplier: UNIT },
        ]
    );
}

#[test]
fn new_note_is_bent_by_held_modifiers() {
    let mut e = Engine::new(RatioSet::Descending);
    e.drain_pending();
    assert_eq!(e.handle_midi_in([0x90, 8, 127]), vec![]);
    assert_eq!(e.handle_midi_in([0xB0, 104, 127]), vec![]);
    let m = Ratio { num: 2, den: 2 };
    assert_eq!(
        e.handle_midi_in([0x90, 112, 64]),
        vec![
            OutEvent::PitchBend { channel: 1, harmonic: 1, multiplier: m },
            OutEvent::NoteOn { channel: 1, harmonic: 1, velocity: 64 },
        ]
    );
    assert_eq!(
        e.handle_midi_in([0xB0, 104, 0]),
        vec![OutEvent::PitchBend { channel: 1, harmonic: 1, multiplier: Ratio { num: 2, den: 1 } }]
    );
}

#[test]
fn unmapped_input_is_ignored() {
    let mut e = Engine::new(RatioSet::Ascending);
    e.drain_pending();
    assert_eq!(e.handle_midi_in([0x90, 9, 100]), vec![]);
    assert_eq!(e.handle_midi_in([0x80, 60, 0]), vec![]);
    assert_eq!(e.handle_midi_in([0xB0, 20, 127]), vec![]);
    assert_eq!(e.handle_midi_in([0x91, 54, 100]), vec![]);
    assert_eq!(e.handle_midi_in([0xE0, 0, 64]), vec![]);
    assert!(e.voices.slots.iter().all(|s| s.is_none()));
    assert_eq!(e.current_multiplier(), UNIT);
}

#[test]
fn sixteenth_note_is_dropped_silently() {
    let mut e = Engine::new(RatioSet::Ascending);
    e.drain_pending();
    for pad in grid_pads(15) {
        let out = e.handle_midi_in([0x90, pad, 100]);
        assert_eq!(out.len(), 2);
    }
    assert_eq!(e.handle_midi_in([0x90, 23, 100]), vec![]);
    assert_eq!(e.handle_midi_in([0x80, 23, 0]), vec![]);
    assert_eq!(
        e.handle_midi_in([0x80, 3, 0]),
        vec![OutEvent::NoteOff { channel: 4, harmonic: 60, velocity: 0 }]
    );
    assert_eq!(
        e.handle_midi_in([0x90, 23, 100]),
        vec![
            OutEvent::PitchBend { channel: 4, harmonic: 56, multiplier: UNIT },
            OutEvent::NoteOn { channel: 4, harmonic: 56, velocity: 100 },
        ]
    );
    assert_eq!(e.voices.slots[4], Some(23));
}

#[test]
fn queue_keeps_order_across_messages() {
    let mut e = Engine::new(RatioSet::Ascending);
    e.midi_input([0x90, 112, 1]);
    e.midi_input([0x80, 112, 2]);
    let mut expected = init_sequence();
    expected.push(OutEvent::PitchBend { channel: 1, harmonic: 1, multiplier: UNIT });
    expected.push(OutEvent::NoteOn { channel: 1, harmonic: 1, velocity: 1 });
    expected.push(OutEvent::NoteOff { channel: 1, harmonic: 1, velocity: 2 });
    assert_eq!(e.drain_pending(), expected);
}

#[test]
fn queue_overflow_drops_and_counts() {
    let mut e = Engine::new(RatioSet::Ascending);
    for pad in grid_pads(15) {
        e.midi_input([0x90, pad, 100]);
    }
    // four set-up events and thirty note events: two did not fit
    assert_eq!(e.dispatcher.dropped, 2);
    let out = e.drain_pending();
    assert_eq!(out.len(), 32);
    assert_eq!(out[31], OutEvent::NoteOn { channel: 14, harmonic: 54, velocity: 100 });
    assert_eq!(e.dispatcher.dropped, 2);
}

#[test]
fn dispatcher_enqueue_reports_full_queue() {
    let mut d = Dispatcher::new();
    for i in 0..28u8 {
        assert_eq!(d.enqueue(OutEvent::Control { status: 0xB0, data1: i, data2: 0 }), Ok(()));
    }
    assert_eq!(d.enqueue(OutEvent::Control { status: 0xB0, data1: 99, data2: 0 }), Err(QueueFull));
    assert_eq!(d.dropped, 1);
    let out = d.drain();
    assert_eq!(out.len(), 32);
    assert_eq!(out[4], OutEvent::Control { status: 0xB0, data1: 0, data2: 0 });
    assert_eq!(out[31], OutEvent::Control { status: 0xB0, data1: 27, data2: 0 });
    assert_eq!(d.enqueue(OutEvent::Control { status: 0xB0, data1: 5, data2: 5 }), Ok(()));
    assert_eq!(d.drain(), vec![OutEvent::Control { status: 0xB0, data1: 5, data2: 5 }]);
}
