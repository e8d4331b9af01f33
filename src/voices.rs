//! Which pad sounds on which MIDI channel.
//!
//! Slot 0 is the global channel and never holds a pad; slots 1 to 15 are the
//! member channels, one voice each.
use vstd::prelude::*;

verus! {

/// Number of channels, the global one included.
pub const CHANNELS: usize = 16;

/// The lowest free member channel at or after `c`, if any.
pub open spec fn first_free_from(s: Seq<Option<u8>>, c: int) -> Option<int>
    decreases 16 - c,
{
    if c < 1 || c >= 16 || c >= s.len() {
        None
    } else if s[c] is None {
        Some(c)
    } else {
        first_free_from(s, c + 1)
    }
}

/// The lowest free member channel, if any.
pub open spec fn first_free(s: Seq<Option<u8>>) -> Option<int> {
    first_free_from(s, 1)
}

/// The lowest slot at or after `c` that holds `pad`, if any.
pub open spec fn first_holding_from(s: Seq<Option<u8>>, pad: u8, c: int) -> Option<int>
    decreases 16 - c,
{
    if c < 0 || c >= 16 || c >= s.len() {
        None
    } else if s[c] == Some(pad) {
        Some(c)
    } else {
        first_holding_from(s, pad, c + 1)
    }
}

/// The lowest slot that holds `pad`, if any.
pub open spec fn first_holding(s: Seq<Option<u8>>, pad: u8) -> Option<int> {
    first_holding_from(s, pad, 0)
}

/// The slots after `pad` was given the lowest free member channel, and that
/// channel; the slots unchanged and no channel when all are taken.
pub open spec fn allocated(s: Seq<Option<u8>>, pad: u8) -> (Seq<Option<u8>>, Option<int>) {
    match first_free(s) {
        Some(c) => (s.update(c, Some(pad)), Some(c)),
        None => (s, None),
    }
}

/// The slots after the lowest slot holding `pad` was freed, and that slot;
/// the slots unchanged and no slot when none holds it.
pub open spec fn released(s: Seq<Option<u8>>, pad: u8) -> (Seq<Option<u8>>, Option<int>) {
    match first_holding(s, pad) {
        Some(c) => (s.update(c, None), Some(c)),
        None => (s, None),
    }
}

/// The slots after allocating each pad of `pads` in turn.
pub open spec fn allocated_all(s: Seq<Option<u8>>, pads: Seq<u8>) -> Seq<Option<u8>>
    decreases pads.len(),
{
    if pads.len() == 0 {
        s
    } else {
        allocated(allocated_all(s, pads.drop_last()), pads.last()).0
    }
}

/// A channel number as an index.
pub open spec fn as_index(c: Option<u8>) -> Option<int> {
    match c {
        Some(c) => Some(c as int),
        None => None,
    }
}

/// Sixteen slots, the global one empty.
pub open spec fn slots_wf(s: Seq<Option<u8>>) -> bool {
    s.len() == 16 && s[0] is None
}

/// The channel of each sounding pad.
pub struct VoiceTable {
    pub slots: [Option<u8>; 16],
}

impl VoiceTable {
    pub open spec fn wf(&self) -> bool {
        slots_wf(self.slots@)
    }

    /// All channels free.
    pub fn new() -> (r: VoiceTable)
        ensures
            r.wf(),
            forall|c: int| 0 <= c < 16 ==> #[trigger] r.slots@[c] is None,
    {
        VoiceTable { slots: [None; 16] }
    }

    /// Gives `pad` the lowest free member channel and returns it; returns
    /// `None`, changing nothing, when all fifteen are taken.
    pub fn allocate(&mut self, pad: u8) -> (r: Option<u8>)
        requires
            old(self).wf(),
        ensures
            final(self).wf(),
            final(self).slots@ == allocated(old(self).slots@, pad).0,
            as_index(r) == allocated(old(self).slots@, pad).1,
            r matches Some(c) ==> 1 <= c < 16,
    {
        let ghost s = self.slots@;
        let mut c: usize = 1;
        while c < CHANNELS
            invariant
                1 <= c <= 16,
                self.slots@ == s,
                s == old(self).slots@,
                slots_wf(s),
                first_free(s) == first_free_from(s, c as int),
            decreases 16 - c,
        {
            if self.slots[c].is_none() {
                self.slots[c] = Some(pad);
                assert(first_free_from(s, c as int) == Some(c as int));
                assert(self.slots@ =~= s.update(c as int, Some(pad)));
                return Some(c as u8);
            }
            c = c + 1;
        }
        None
    }

    /// Frees the lowest slot that holds `pad` and returns it; returns `None`,
    /// changing nothing, when no slot holds it.
    pub fn release(&mut self, pad: u8) -> (r: Option<u8>)
        requires
            old(self).wf(),
        ensures
            final(self).wf(),
            final(self).slots@ == released(old(self).slots@, pad).0,
            as_index(r) == released(old(self).slots@, pad).1,
            r matches Some(c) ==> 1 <= c < 16,
    {
        let ghost s = self.slots@;
        let mut c: usize = 0;
        while c < CHANNELS
            invariant
                c <= 16,
                self.slots@ == s,
                s == old(self).slots@,
                slots_wf(s),
                first_holding(s, pad) == first_holding_from(s, pad, c as int),
            decreases 16 - c,
        {
            if self.slots[c] == Some(pad) {
                self.slots[c] = None;
                assert(first_holding_from(s, pad, c as int) == Some(c as int));
                assert(self.slots@ =~= s.update(c as int, None));
                return Some(c as u8);
            }
            c = c + 1;
        }
        None
    }
}


/// Sixteen empty slots.
pub open spec fn no_voices() -> Seq<Option<u8>> {
    Seq::new(16, |c: int| None::<u8>)
}

/// Channels 1 to `k` hold `pads[0]` to `pads[k - 1]`; the others are free.
pub open spec fn filled(pads: Seq<u8>, k: int) -> Seq<Option<u8>> {
    Seq::new(16, |c: int| if 1 <= c <= k { Some(pads[c - 1]) } else { None::<u8> })
}

proof fn lemma_first_free_skip(s: Seq<Option<u8>>, c: int, k: int)
    requires
        1 <= c <= k <= 16,
        s.len() == 16,
        forall|j: int| c <= j < k ==> #[trigger] s[j] is Some,
    ensures
        first_free_from(s, c) == first_free_from(s, k),
    decreases k - c,
{
    if c < k {
        lemma_first_free_skip(s, c + 1, k);
    }
}

proof fn lemma_first_free_none(s: Seq<Option<u8>>, c: int)
    requires
        1 <= c <= 16,
        s.len() == 16,
        first_free_from(s, c) is None,
    ensures
        forall|j: int| c <= j < 16 ==> #[trigger] s[j] is Some,
    decreases 16 - c,
{
    if c < 16 {
        lemma_first_free_none(s, c + 1);
    }
}

/// The slot that `first_holding_from` finds holds the pad.
pub proof fn lemma_first_holding_some(s: Seq<Option<u8>>, pad: u8, c: int)
    requires
        0 <= c,
        first_holding_from(s, pad, c) is Some,
    ensures
        c <= first_holding_from(s, pad, c)->0 < 16,
        first_holding_from(s, pad, c)->0 < s.len(),
        s[first_holding_from(s, pad, c)->0] == Some(pad),
    decreases 16 - c,
{
    if c < 16 && c < s.len() && s[c] != Some(pad) {
        lemma_first_holding_some(s, pad, c + 1);
    }
}

proof fn lemma_first_holding_none(s: Seq<Option<u8>>, pad: u8, c: int)
    requires
        0 <= c,
        forall|j: int| c <= j < 16 && j < s.len() ==> #[trigger] s[j] != Some(pad),
    ensures
        first_holding_from(s, pad, c) is None,
    decreases 16 - c,
{
    if c < 16 && c < s.len() {
        lemma_first_holding_none(s, pad, c + 1);
    }
}

proof fn lemma_fill_prefix(pads: Seq<u8>, k: int)
    requires
        pads.len() == 15,
        0 <= k <= 15,
    ensures
        allocated_all(no_voices(), pads.take(k)) == filled(pads, k),
    decreases k,
{
    if k == 0 {
        assert(filled(pads, 0) =~= no_voices());
    } else {
        lemma_fill_prefix(pads, k - 1);
        assert(pads.take(k).drop_last() =~= pads.take(k - 1));
        let f = filled(pads, k - 1);
        lemma_first_free_skip(f, 1, k);
        assert(first_free(f) == Some(k));
        assert(f.update(k, Some(pads[k - 1])) =~= filled(pads, k));
    }
}

/// Fifteen allocations into empty slots give the pads member channels 1 to
/// 15 in order and leave no member channel free, so that a sixteenth
/// allocation, of any pad, gets no channel and changes nothing.
pub proof fn lemma_fill_member_channels(pads: Seq<u8>, extra: u8)
    requires
        pads.len() == 15,
    ensures
        allocated_all(no_voices(), pads) == filled(pads, 15),
        forall|c: int| 1 <= c < 16 ==> #[trigger] allocated_all(no_voices(), pads)[c] == Some(pads[c - 1]),
        first_free(allocated_all(no_voices(), pads)) is None,
        allocated(allocated_all(no_voices(), pads), extra) == (allocated_all(no_voices(), pads), None::<int>),
{
    lemma_fill_prefix(pads, 15);
    assert(pads.take(15) =~= pads);
    lemma_first_free_skip(filled(pads, 15), 1, 16);
}

/// With every member channel taken, releasing a held pad frees exactly its
/// slot, and the next allocation, of any pad, takes that slot again.
pub proof fn lemma_release_then_allocate(s: Seq<Option<u8>>, pad: u8, next: u8)
    requires
        slots_wf(s),
        first_free(s) is None,
        released(s, pad).1 is Some,
    ensures
        ({
            let c = released(s, pad).1->0;
            &&& 1 <= c < 16
            &&& s[c] == Some(pad)
            &&& released(s, pad).0 == s.update(c, None)
            &&& forall|j: int| 1 <= j < 16 && j != c ==> #[trigger] released(s, pad).0[j] is Some
            &&& allocated(released(s, pad).0, next) == (s.update(c, Some(next)), Some(c))
        }),
{
    lemma_first_holding_some(s, pad, 0);
    lemma_first_free_none(s, 1);
    let c = released(s, pad).1->0;
    let t = s.update(c, None);
    lemma_first_free_skip(t, 1, c);
    assert(t.update(c, Some(next)) =~= s.update(c, Some(next)));
}

/// Releasing a pad a second time changes nothing, for a pad held in at most
/// one slot.
pub proof fn lemma_release_twice(s: Seq<Option<u8>>, pad: u8)
    requires
        slots_wf(s),
        forall|i: int, j: int| 0 <= i < 16 && 0 <= j < 16 && #[trigger] s[i] == Some(pad) && #[trigger] s[j] == Some(pad) ==> i == j,
    ensures
        released(released(s, pad).0, pad) == (released(s, pad).0, None::<int>),
{
    let t = released(s, pad).0;
    match first_holding(s, pad) {
        Some(c) => {
            lemma_first_holding_some(s, pad, 0);
            assert forall|j: int| 0 <= j < 16 && j < t.len() implies #[trigger] t[j] != Some(pad) by {
                if j != c {
                    assert(s[j] == t[j]);
                }
            }
        },
        None => {
            assert forall|j: int| 0 <= j < 16 && j < t.len() implies #[trigger] t[j] != Some(pad) by {
                if s[j] == Some(pad) {
                    lemma_first_holding_none_contra(s, pad, 0, j);
                }
            }
        },
    }
    lemma_first_holding_none(t, pad, 0);
}

proof fn lemma_first_holding_none_contra(s: Seq<Option<u8>>, pad: u8, c: int, j: int)
    requires
        0 <= c <= j < 16,
        j < s.len(),
        s[j] == Some(pad),
    ensures
        first_holding_from(s, pad, c) is Some,
    decreases j - c,
{
    if s[c] != Some(pad) {
        lemma_first_holding_none_contra(s, pad, c + 1, j);
    }
}

} // verus!
