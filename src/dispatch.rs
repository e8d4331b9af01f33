//! The bounded queue of outgoing events, filled while MIDI is handled and
//! drained once per processing cycle.
use ringbuf::Rb;
use vstd::prelude::*;

use crate::modifiers::Ratio;

verus! {

/// Number of events the queue holds at most.
pub const QUEUE_CAPACITY: usize = 32;

/// An event for the host's MIDI output.
///
/// Notes and bends are given by harmonic index and multiplier; the host side
/// turns them into a note number and a bend value for the base frequency of
/// the cycle.
#[derive(Clone, Copy, Debug, PartialEq, Eq, Structural)]
pub enum OutEvent {
    /// A ready three-byte control message.
    Control { status: u8, data1: u8, data2: u8 },
    /// Start the note of `harmonic` on `channel`.
    NoteOn { channel: u8, harmonic: u8, velocity: u8 },
    /// Stop the note of `harmonic` on `channel`.
    NoteOff { channel: u8, harmonic: u8, velocity: u8 },
    /// Bend `channel` to `multiplier` times the frequency of `harmonic`.
    PitchBend { channel: u8, harmonic: u8, multiplier: Ratio },
}

/// An event was dropped because the queue was full.
#[derive(Clone, Copy, Debug, PartialEq, Eq, Structural)]
pub struct QueueFull;

/// A fixed-capacity ring buffer of events.
#[verifier::external_body]
pub struct EventQueue {
    rb: ringbuf::StaticRb<OutEvent, 32>,
}

/// The events in the queue, oldest first.
pub uninterp spec fn queued(q: EventQueue) -> Seq<OutEvent>;

/// Relies on ringbuf's `Default` for `StaticRb`: a new buffer is empty.
#[verifier::external_body]
fn queue_new() -> (r: EventQueue)
    ensures
        queued(r) == Seq::<OutEvent>::empty(),
{
    EventQueue { rb: ringbuf::StaticRb::default() }
}

/// Relies on ringbuf's `Rb::push`: the item goes to the back unless the
/// buffer is full (it holds its capacity, 32), and then it is handed back.
#[verifier::external_body]
fn queue_push(q: &mut EventQueue, e: OutEvent) -> (r: bool)
    ensures
        queued(*old(q)).len() < QUEUE_CAPACITY ==> r && queued(*final(q)) == queued(*old(q)).push(e),
        queued(*old(q)).len() >= QUEUE_CAPACITY ==> !r && queued(*final(q)) == queued(*old(q)),
        queued(*final(q)).len() <= QUEUE_CAPACITY,
{
    q.rb.push(e).is_ok()
}

/// Relies on ringbuf's `Rb::pop`: the oldest item leaves, or `None` when
/// the buffer is empty.
#[verifier::external_body]
fn queue_pop(q: &mut EventQueue) -> (r: Option<OutEvent>)
    ensures
        queued(*old(q)).len() == 0 ==> r is None && queued(*final(q)) == queued(*old(q)),
        queued(*old(q)).len() > 0 ==> r == Some(queued(*old(q))[0]) && queued(*final(q)) == queued(*old(q)).drop_first(),
{
    q.rb.pop()
}

/// The MPE set-up sent once at start: reset all controllers, select the MPE
/// configuration parameter, and give the zone fifteen member channels.
pub open spec fn mpe_init() -> Seq<OutEvent> {
    seq![
        OutEvent::Control { status: 0xB0, data1: 0x79, data2: 0x00 },
        OutEvent::Control { status: 0xB0, data1: 0x64, data2: 0x06 },
        OutEvent::Control { status: 0xB0, data1: 0x65, data2: 0x00 },
        OutEvent::Control { status: 0xB0, data1: 0x06, data2: 0x0F },
    ]
}

/// The queue after offering it each of `evs` in turn: each goes to the back
/// while there is room, and is dropped when there is none.
pub open spec fn offered(q: Seq<OutEvent>, evs: Seq<OutEvent>) -> Seq<OutEvent>
    decreases evs.len(),
{
    if evs.len() == 0 {
        q
    } else {
        let before = offered(q, evs.drop_last());
        if before.len() < QUEUE_CAPACITY {
            before.push(evs.last())
        } else {
            before
        }
    }
}

/// How many of `evs` were dropped when offered to `q`.
pub open spec fn dropped_count(q: Seq<OutEvent>, evs: Seq<OutEvent>) -> int
    decreases evs.len(),
{
    if evs.len() == 0 {
        0
    } else {
        let before = offered(q, evs.drop_last());
        dropped_count(q, evs.drop_last()) + if before.len() < QUEUE_CAPACITY { 0int } else { 1int }
    }
}

/// `a + b`, at most `u64::MAX`.
pub open spec fn saturating_sum(a: int, b: int) -> int {
    if a + b > u64::MAX {
        u64::MAX as int
    } else {
        a + b
    }
}

/// The outgoing queue and a count of the events it had to drop.
pub struct Dispatcher {
    pub queue: EventQueue,
    pub dropped: u64,
}

impl Dispatcher {
    /// The events waiting, oldest first.
    pub open spec fn pending(&self) -> Seq<OutEvent> {
        queued(self.queue)
    }

    pub open spec fn wf(&self) -> bool {
        self.pending().len() <= QUEUE_CAPACITY
    }

    /// A queue that holds the MPE set-up.
    pub fn new() -> (r: Dispatcher)
        ensures
            r.wf(),
            r.pending() == mpe_init(),
            r.dropped == 0,
    {
        let mut d = Dispatcher { queue: queue_new(), dropped: 0 };
        let _ = d.enqueue(OutEvent::Control { status: 0xB0, data1: 0x79, data2: 0x00 });
        let _ = d.enqueue(OutEvent::Control { status: 0xB0, data1: 0x64, data2: 0x06 });
        let _ = d.enqueue(OutEvent::Control { status: 0xB0, data1: 0x65, data2: 0x00 });
        let _ = d.enqueue(OutEvent::Control { status: 0xB0, data1: 0x06, data2: 0x0F });
        assert(d.pending() =~= mpe_init());
        d
    }

    /// Puts `e` at the back of the queue; when the queue is full, drops it,
    /// counts it, and says so.
    pub fn enqueue(&mut self, e: OutEvent) -> (r: Result<(), QueueFull>)
        requires
            old(self).wf(),
        ensures
            final(self).wf(),
            old(self).pending().len() < QUEUE_CAPACITY ==> {
                &&& r is Ok
                &&& final(self).pending() == old(self).pending().push(e)
                &&& final(self).dropped == old(self).dropped
            },
            old(self).pending().len() >= QUEUE_CAPACITY ==> {
                &&& r is Err
                &&& final(self).pending() == old(self).pending()
                &&& final(self).dropped == saturating_sum(old(self).dropped as int, 1)
            },
    {
        if queue_push(&mut self.queue, e) {
            Ok(())
        } else {
            if self.dropped < u64::MAX {
                self.dropped = self.dropped + 1;
            }
            Err(QueueFull)
        }
    }

    /// Offers each of `evs` in turn to the queue.
    pub fn enqueue_all(&mut self, evs: &Vec<OutEvent>)
        requires
            old(self).wf(),
        ensures
            final(self).wf(),
            final(self).pending() == offered(old(self).pending(), evs@),
            final(self).dropped == saturating_sum(
                old(self).dropped as int,
                dropped_count(old(self).pending(), evs@),
            ),
    {
        let ghost q0 = self.pending();
        let ghost d0 = self.dropped as int;
        let mut i: usize = 0;
        while i < evs.len()
            invariant
                i <= evs.len(),
                self.wf(),
                q0 == old(self).pending(),
                d0 == old(self).dropped as int,
                self.pending() == offered(q0, evs@.take(i as int)),
                self.dropped == saturating_sum(d0, dropped_count(q0, evs@.take(i as int))),
                dropped_count(q0, evs@.take(i as int)) >= 0,
            decreases evs.len() - i,
        {
            proof {
                assert(evs@.take(i as int + 1).drop_last() =~= evs@.take(i as int));
            }
            let _ = self.enqueue(evs[i]);
            i = i + 1;
        }
        assert(evs@.take(evs.len() as int) =~= evs@);
    }

    /// Takes every waiting event out of the queue, oldest first.
    pub fn drain(&mut self) -> (r: Vec<OutEvent>)
        requires
            old(self).wf(),
        ensures
            final(self).wf(),
            r@ == old(self).pending(),
            final(self).pending() == Seq::<OutEvent>::empty(),
            final(self).dropped == old(self).dropped,
    {
        let mut out: Vec<OutEvent> = Vec::new();
        loop
            invariant
                self.wf(),
                out@ + self.pending() == old(self).pending(),
                self.dropped == old(self).dropped,
            ensures
                self.wf(),
                out@ == old(self).pending(),
                self.pending() == Seq::<OutEvent>::empty(),
                self.dropped == old(self).dropped,
            decreases self.pending().len(),
        {
            match queue_pop(&mut self.queue) {
                Some(e) => {
                    proof {
                        assert(out@.push(e) + self.pending() =~= old(self).pending());
                    }
                    out.push(e);
                },
                None => {
                    assert(self.pending() =~= Seq::<OutEvent>::empty());
                    assert(out@ =~= old(self).pending());
                    break;
                },
            }
        }
        out
    }
}

} // verus!
