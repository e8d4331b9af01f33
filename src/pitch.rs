//! Frequencies of the harmonic series and the MIDI bytes that carry them.
//!
//! A base frequency is held in millihertz. What needs a logarithm (the
//! nearest equal-tempered note, the fractional deviation from it) is left to
//! the host side; this module fixes what is done with the rounded results.
use vstd::prelude::*;

verus! {

/// Pitch-bend range of every member channel, in semitones.
pub const PITCH_BEND_RANGE: u32 = 48;

/// The pitch-bend value of an unbent note.
pub const BEND_CENTER: u16 = 8192;

/// The largest 14-bit pitch-bend value.
pub const BEND_MAX: u16 = 16383;

/// The largest MIDI note number.
pub const NOTE_MAX: u8 = 127;

/// Frequency of harmonic `h` over base `base`: their product.
pub open spec fn harmonic_frequency(base: int, h: int) -> int {
    base * h
}

/// Frequency, in millihertz, of harmonic `harmonic` over base `base`.
pub fn frequency(base: u32, harmonic: u8) -> (r: u64)
    ensures
        r == harmonic_frequency(base as int, harmonic as int),
{
    let b = base as u64;
    let h = harmonic as u64;
    assert(b * h <= 0xFFFF_FFFFu64 * 0xFFu64) by (nonlinear_arith)
        requires b <= 0xFFFF_FFFFu64, h <= 0xFFu64;
    b * h
}

/// Over a positive base, a higher harmonic index gives a higher frequency.
pub proof fn lemma_frequency_increasing(base: u32, h1: u8, h2: u8)
    requires
        base > 0,
        h1 < h2,
    ensures
        harmonic_frequency(base as int, h1 as int) < harmonic_frequency(base as int, h2 as int),
{
    let b = base as int;
    let x = h1 as int;
    let y = h2 as int;
    assert(b * x < b * y) by (nonlinear_arith)
        requires b > 0, x < y;
}

/// `v` limited to `lo..=hi`.
pub open spec fn clamp(v: int, lo: int, hi: int) -> int {
    if v < lo {
        lo
    } else if v > hi {
        hi
    } else {
        v
    }
}

/// A rounded note number limited to the MIDI range 0 to 127.
pub fn clamp_note(n: i32) -> (r: u8)
    ensures
        r as int == clamp(n as int, 0, NOTE_MAX as int),
{
    if n < 0 {
        0
    } else if n > NOTE_MAX as i32 {
        NOTE_MAX
    } else {
        n as u8
    }
}

/// The 14-bit pitch-bend value for a bend of `offset` steps from the centre,
/// where a step is `PITCH_BEND_RANGE / 8192` semitones. A bend beyond the
/// range saturates at 0 or 16383.
pub fn pitch_bend_value(offset: i32) -> (r: u16)
    ensures
        r as int == clamp(BEND_CENTER as int + offset as int, 0, BEND_MAX as int),
{
    if offset < -(BEND_CENTER as i32) {
        0
    } else if offset > (BEND_MAX - BEND_CENTER) as i32 {
        BEND_MAX
    } else {
        (BEND_CENTER as i32 + offset) as u16
    }
}

/// The low and high seven bits of a pitch-bend value.
pub fn encode_pitch_bend(value: u16) -> (r: (u8, u8))
    ensures
        r.0 as int == value as int % 128,
        r.1 as int == (value as int / 128) % 128,
        value <= BEND_MAX ==> r.0 as int + 128 * r.1 as int == value as int,
{
    ((value % 128) as u8, ((value / 128) % 128) as u8)
}

/// Status byte of a channel message of kind `kind` (the upper nibble) on `channel`.
pub open spec fn status(kind: int, channel: int) -> int {
    kind + channel
}

/// Note-on of `note` at `velocity` on `channel`.
pub fn note_on_message(channel: u8, note: u8, velocity: u8) -> (r: [u8; 3])
    requires
        channel < 16,
    ensures
        r@ == seq![status(0x90, channel as int) as u8, note, velocity],
{
    let r = [0x90 + channel, note, velocity];
    assert(r@ =~= seq![status(0x90, channel as int) as u8, note, velocity]);
    r
}

/// Note-off of `note` at `velocity` on `channel`.
pub fn note_off_message(channel: u8, note: u8, velocity: u8) -> (r: [u8; 3])
    requires
        channel < 16,
    ensures
        r@ == seq![status(0x80, channel as int) as u8, note, velocity],
{
    let r = [0x80 + channel, note, velocity];
    assert(r@ =~= seq![status(0x80, channel as int) as u8, note, velocity]);
    r
}

/// Pitch bend to `value` on `channel`, low seven bits first.
pub fn pitch_bend_message(channel: u8, value: u16) -> (r: [u8; 3])
    requires
        channel < 16,
    ensures
        r@ == seq![
            status(0xE0, channel as int) as u8,
            (value as int % 128) as u8,
            ((value as int / 128) % 128) as u8,
        ],
{
    let (lsb, msb) = encode_pitch_bend(value);
    let r = [0xE0 + channel, lsb, msb];
    assert(r@ =~= seq![
        status(0xE0, channel as int) as u8,
        (value as int % 128) as u8,
        ((value as int / 128) % 128) as u8,
    ]);
    r
}

} // verus!
