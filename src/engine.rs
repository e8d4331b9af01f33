//! The remapping engine: incoming controller MIDI in, MPE events out.
use vstd::prelude::*;

use crate::dispatch::{dropped_count, mpe_init, offered, saturating_sum, Dispatcher, OutEvent};
use crate::layout::{
    harmonic_index_of, harmonic_of, is_grid_pad, is_right_edge, is_top_edge, right_edge_index_of,
    right_edge_note, top_edge_index_of, TOP_EDGE_FIRST_CC,
};
use crate::modifiers::{held_den, held_num, lemma_toggle_flag, multiplier_of, Modifiers, Ratio, RatioSet};
use crate::voices::{first_free, first_holding, VoiceTable};

verus! {

/// Status byte of a note-on on the global channel.
pub const NOTE_ON: u8 = 0x90;

/// Status byte of a note-off on the global channel.
pub const NOTE_OFF: u8 = 0x80;

/// Status byte of a control change on the global channel.
pub const CONTROL_CHANGE: u8 = 0xB0;

/// A pitch bend to `m` for each slot among the first `k` that holds a pad,
/// in channel order.
pub open spec fn rebends(slots: Seq<Option<u8>>, m: Ratio, k: int) -> Seq<OutEvent>
    decreases k,
{
    if k <= 0 {
        Seq::empty()
    } else {
        let before = rebends(slots, m, k - 1);
        match slots[k - 1] {
            Some(p) => before.push(
                OutEvent::PitchBend { channel: (k - 1) as u8, harmonic: harmonic_of(p as int) as u8, multiplier: m },
            ),
            None => before,
        }
    }
}

/// Flag `i` set to `held`, and every sounding channel bent to the new multiplier.
pub open spec fn flag_changed(
    flags: Seq<bool>,
    ratios: Seq<Ratio>,
    slots: Seq<Option<u8>>,
    i: int,
    held: bool,
) -> (Seq<bool>, Seq<Option<u8>>, Seq<OutEvent>) {
    let f = flags.update(i, held);
    (f, slots, rebends(slots, multiplier_of(f, ratios), 16))
}

/// What one incoming message does: the new flags, the new slots, and the
/// events it gives, in order.
pub open spec fn step(
    flags: Seq<bool>,
    ratios: Seq<Ratio>,
    slots: Seq<Option<u8>>,
    kind: u8,
    d1: u8,
    d2: u8,
) -> (Seq<bool>, Seq<Option<u8>>, Seq<OutEvent>) {
    if kind == NOTE_ON && is_grid_pad(d1 as int) {
        let h = harmonic_of(d1 as int) as u8;
        match first_free(slots) {
            Some(c) => (
                flags,
                slots.update(c, Some(d1)),
                seq![
                    OutEvent::PitchBend { channel: c as u8, harmonic: h, multiplier: multiplier_of(flags, ratios) },
                    OutEvent::NoteOn { channel: c as u8, harmonic: h, velocity: d2 },
                ],
            ),
            None => (flags, slots, Seq::empty()),
        }
    } else if kind == NOTE_ON && is_right_edge(d1 as int) {
        flag_changed(flags, ratios, slots, d1 as int / 16, true)
    } else if kind == NOTE_OFF && first_holding(slots, d1) is Some {
        let c = first_holding(slots, d1)->0;
        (
            flags,
            slots.update(c, None),
            seq![OutEvent::NoteOff { channel: c as u8, harmonic: harmonic_of(d1 as int) as u8, velocity: d2 }],
        )
    } else if kind == NOTE_OFF && is_right_edge(d1 as int) {
        flag_changed(flags, ratios, slots, d1 as int / 16, false)
    } else if kind == CONTROL_CHANGE && is_top_edge(d1 as int) {
        flag_changed(flags, ratios, slots, 8 + d1 - TOP_EDGE_FIRST_CC, d2 > 0)
    } else {
        (flags, slots, Seq::empty())
    }
}

/// Every occupied slot holds a grid pad.
pub open spec fn slots_hold_pads(s: Seq<Option<u8>>) -> bool {
    forall|c: int| 0 <= c < s.len() ==> (#[trigger] s[c] matches Some(p) ==> is_grid_pad(p as int))
}

/// Held modifiers, sounding voices and the outgoing queue.
pub struct Engine {
    pub modifiers: Modifiers,
    pub voices: VoiceTable,
    pub dispatcher: Dispatcher,
}

impl Engine {
    pub open spec fn wf(&self) -> bool {
        &&& self.voices.wf()
        &&& slots_hold_pads(self.voices.slots@)
        &&& self.dispatcher.wf()
    }

    /// What `msg` does to this engine.
    pub open spec fn outcome(&self, msg: [u8; 3]) -> (Seq<bool>, Seq<Option<u8>>, Seq<OutEvent>) {
        step(self.modifiers.flags(), self.modifiers.ratios(), self.voices.slots@, msg[0], msg[1], msg[2])
    }

    /// No button held, no voice sounding, and the MPE set-up waiting to go out.
    pub fn new(ratio_set: RatioSet) -> (r: Engine)
        ensures
            r.wf(),
            r.modifiers.ratio_set == ratio_set,
            forall|i: int| 0 <= i < 16 ==> !#[trigger] r.modifiers.flags()[i],
            forall|c: int| 0 <= c < 16 ==> #[trigger] r.voices.slots@[c] is None,
            r.dispatcher.pending() == mpe_init(),
            r.dispatcher.dropped == 0,
    {
        Engine { modifiers: Modifiers::new(ratio_set), voices: VoiceTable::new(), dispatcher: Dispatcher::new() }
    }

    /// The multiplier of the held buttons.
    pub fn current_multiplier(&self) -> (r: Ratio)
        ensures
            r == self.modifiers.multiplier(),
    {
        self.modifiers.current_multiplier()
    }

    /// A pitch bend to the current multiplier for every sounding channel.
    fn all_bends(&self) -> (r: Vec<OutEvent>)
        requires
            self.wf(),
        ensures
            r@ == rebends(self.voices.slots@, self.modifiers.multiplier(), 16),
    {
        let m = self.modifiers.current_multiplier();
        let mut out: Vec<OutEvent> = Vec::new();
        let mut c: usize = 0;
        while c < 16
            invariant
                c <= 16,
                self.wf(),
                m == self.modifiers.multiplier(),
                out@ == rebends(self.voices.slots@, m, c as int),
            decreases 16 - c,
        {
            match self.voices.slots[c] {
                Some(p) => {
                    assert(is_grid_pad(p as int)) by {
                        assert(self.voices.slots@[c as int] == Some(p));
                    }
                    match harmonic_index_of(p) {
                        Some(h) => {
                            out.push(OutEvent::PitchBend { channel: c as u8, harmonic: h, multiplier: m });
                        },
                        None => {},
                    }
                },
                None => {},
            }
            c = c + 1;
        }
        out
    }

    /// Updates the state for `msg` and returns the events it gives.
    fn respond(&mut self, msg: [u8; 3]) -> (r: Vec<OutEvent>)
        requires
            old(self).wf(),
        ensures
            final(self).wf(),
            final(self).modifiers.ratio_set == old(self).modifiers.ratio_set,
            final(self).modifiers.flags() == old(self).outcome(msg).0,
            final(self).voices.slots@ == old(self).outcome(msg).1,
            r@ == old(self).outcome(msg).2,
            final(self).dispatcher == old(self).dispatcher,
    {
        let kind = msg[0];
        let d1 = msg[1];
        let d2 = msg[2];
        let mut out: Vec<OutEvent> = Vec::new();
        if kind == NOTE_ON {
            match harmonic_index_of(d1) {
                Some(h) => {
                    let m = self.modifiers.current_multiplier();
                    match self.voices.allocate(d1) {
                        Some(c) => {
                            out.push(OutEvent::PitchBend { channel: c, harmonic: h, multiplier: m });
                            out.push(OutEvent::NoteOn { channel: c, harmonic: h, velocity: d2 });
                            assert(out@ =~= old(self).outcome(msg).2);
                        },
                        None => {},
                    }
                },
                None => match right_edge_index_of(d1) {
                    Some(i) => {
                        self.modifiers.set_right(i as usize, true);
                        out = self.all_bends();
                    },
                    None => {},
                },
            }
        } else if kind == NOTE_OFF {
            match self.voices.release(d1) {
                Some(c) => {
                    proof {
                        lemma_first_holding_is(old(self).voices.slots@, d1);
                    }
                    match harmonic_index_of(d1) {
                        Some(h) => {
                            out.push(OutEvent::NoteOff { channel: c, harmonic: h, velocity: d2 });
                            assert(out@ =~= old(self).outcome(msg).2);
                        },
                        None => {},
                    }
                },
                None => match right_edge_index_of(d1) {
                    Some(i) => {
                        self.modifiers.set_right(i as usize, false);
                        out = self.all_bends();
                    },
                    None => {},
                },
            }
        } else if kind == CONTROL_CHANGE {
            match top_edge_index_of(d1) {
                Some(i) => {
                    self.modifiers.set_top(i as usize, d2 > 0);
                    out = self.all_bends();
                },
                None => {},
            }
        }
        out
    }

    /// Handles one incoming message: updates the held buttons and the voices
    /// and queues the events it gives, dropping those that find the queue full.
    pub fn midi_input(&mut self, msg: [u8; 3])
        requires
            old(self).wf(),
        ensures
            final(self).wf(),
            final(self).modifiers.ratio_set == old(self).modifiers.ratio_set,
            final(self).modifiers.flags() == old(self).outcome(msg).0,
            final(self).voices.slots@ == old(self).outcome(msg).1,
            final(self).dispatcher.pending() == offered(old(self).dispatcher.pending(), old(self).outcome(msg).2),
            final(self).dispatcher.dropped == saturating_sum(
                old(self).dispatcher.dropped as int,
                dropped_count(old(self).dispatcher.pending(), old(self).outcome(msg).2),
            ),
    {
        let evs = self.respond(msg);
        self.dispatcher.enqueue_all(&evs);
    }

    /// Takes every queued event out, oldest first.
    pub fn drain_pending(&mut self) -> (r: Vec<OutEvent>)
        requires
            old(self).wf(),
        ensures
            final(self).wf(),
            r@ == old(self).dispatcher.pending(),
            final(self).dispatcher.pending() == Seq::<OutEvent>::empty(),
            final(self).dispatcher.dropped == old(self).dispatcher.dropped,
            final(self).modifiers == old(self).modifiers,
            final(self).voices == old(self).voices,
    {
        self.dispatcher.drain()
    }

    /// Handles one incoming message and returns everything queued so far,
    /// oldest first, leaving the queue empty.
    pub fn handle_midi_in(&mut self, msg: [u8; 3]) -> (r: Vec<OutEvent>)
        requires
            old(self).wf(),
        ensures
            final(self).wf(),
            final(self).modifiers.ratio_set == old(self).modifiers.ratio_set,
            final(self).modifiers.flags() == old(self).outcome(msg).0,
            final(self).voices.slots@ == old(self).outcome(msg).1,
            r@ == offered(old(self).dispatcher.pending(), old(self).outcome(msg).2),
            final(self).dispatcher.pending() == Seq::<OutEvent>::empty(),
    {
        self.midi_input(msg);
        self.drain_pending()
    }
}


proof fn lemma_first_holding_is(s: Seq<Option<u8>>, pad: u8)
    requires
        slots_hold_pads(s),
        first_holding(s, pad) is Some,
    ensures
        is_grid_pad(pad as int),
{
    crate::voices::lemma_first_holding_some(s, pad, 0);
    let c = first_holding(s, pad)->0;
    assert(s[c] == Some(pad));
}

/// Pressing a released right-edge button leaves the voices as they are and
/// gives one pitch bend for each sounding channel, in channel order, and
/// nothing else; the bend is to the new multiplier, which is the old one
/// times the button's ratio, numerator and denominator alike.
pub proof fn lemma_right_press_rebends(e: Engine, i: int, velocity: u8)
    requires
        e.wf(),
        0 <= i < 8,
        !e.modifiers.flags()[i],
    ensures
        ({
            let flags = e.modifiers.flags();
            let ratios = e.modifiers.ratios();
            let out = step(flags, ratios, e.voices.slots@, NOTE_ON, right_edge_note(i) as u8, velocity);
            &&& out.0 == flags.update(i, true)
            &&& out.1 == e.voices.slots@
            &&& out.2 == rebends(e.voices.slots@, multiplier_of(flags.update(i, true), ratios), 16)
            &&& held_num(flags.update(i, true), ratios) == held_num(flags, ratios) * ratios[i].num
            &&& held_den(flags.update(i, true), ratios) == held_den(flags, ratios) * ratios[i].den
        }),
{
    let n = right_edge_note(i);
    assert(n % 16 == 8 && n / 16 == i && 0 <= n < 128);
    lemma_toggle_flag(e.modifiers.flags(), e.modifiers.ratios(), i);
}

} // verus!
