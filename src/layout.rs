//! Where each physical control of the pad controller sits.
//!
//! The grid pads are numbered in rows of sixteen notes, of which the first
//! eight are pads and the ninth is the right-edge button of that row:
//!
//! ```text
//! 104 105 106 107 108 109 110 111   (top edge, control changes)
//!   0   1   2   3   4   5   6   7     8
//!  16  17  18  19  20  21  22  23    24
//!  32  33  34  35  36  37  38  39    40
//!  48  49  50  51  52  53  54  55    56
//!  64  65  66  67  68  69  70  71    72
//!  80  81  82  83  84  85  86  87    88
//!  96  97  98  99 100 101 102 103   104
//! 112 113 114 115 116 117 118 119   120
//! ```
//!
//! Harmonic index 1 is note 112 (bottom left), and indices grow to the right
//! and then upwards, so index 64 is note 7.
use vstd::prelude::*;

verus! {

/// Number of grid pads, which is also the largest harmonic index.
pub const GRID_PADS: u8 = 64;

/// Number of buttons on each edge.
pub const EDGE_BUTTONS: u8 = 8;

/// First control-change number of the top edge.
pub const TOP_EDGE_FIRST_CC: u8 = 104;

/// A note number that belongs to one of the 64 grid pads.
pub open spec fn is_grid_pad(p: int) -> bool {
    0 <= p < 128 && p % 16 < 8
}

/// A harmonic index, 1 to 64.
pub open spec fn is_harmonic(h: int) -> bool {
    1 <= h <= GRID_PADS
}

/// The pad that plays harmonic `h`: the table entry at position `h - 1`.
pub open spec fn pad_of(h: int) -> int {
    16 * (7 - (h - 1) / 8) + (h - 1) % 8
}

/// The harmonic index of grid pad `p`: its row counted from the bottom,
/// times eight, plus its column, plus one.
pub open spec fn harmonic_of(p: int) -> int {
    (7 - p / 16) * 8 + p % 16 + 1
}

/// A note number of one of the right-edge buttons.
pub open spec fn is_right_edge(n: int) -> bool {
    0 <= n < 128 && n % 16 == 8
}

/// The note number of right-edge button `i` (0 is the top one).
pub open spec fn right_edge_note(i: int) -> int {
    16 * i + 8
}

/// A control-change number of one of the top-edge buttons.
pub open spec fn is_top_edge(cc: int) -> bool {
    TOP_EDGE_FIRST_CC <= cc < TOP_EDGE_FIRST_CC + EDGE_BUTTONS
}

/// The control-change number of top-edge button `i` (0 is the leftmost one).
pub open spec fn top_edge_cc(i: int) -> int {
    TOP_EDGE_FIRST_CC + i
}

/// The pad that plays harmonic index `h`.
pub fn pad_of_harmonic(h: u8) -> (r: u8)
    requires
        is_harmonic(h as int),
    ensures
        r as int == pad_of(h as int),
        is_grid_pad(r as int),
        harmonic_of(r as int) == h as int,
{
    let k: u8 = h - 1;
    16 * (7 - k / 8) + k % 8
}

/// The harmonic index of a note, or `None` when the note is not a grid pad.
pub fn harmonic_index_of(pad: u8) -> (r: Option<u8>)
    ensures
        r is Some <==> is_grid_pad(pad as int),
        r matches Some(h) ==> {
            &&& h as int == harmonic_of(pad as int)
            &&& is_harmonic(h as int)
            &&& pad_of(h as int) == pad as int
        },
{
    if pad < 128 && pad % 16 < 8 {
        Some((7 - pad / 16) * 8 + pad % 16 + 1)
    } else {
        None
    }
}

/// The position of a right-edge button among the eight, or `None` when the
/// note is not one of them.
pub fn right_edge_index_of(note: u8) -> (r: Option<u8>)
    ensures
        r is Some <==> is_right_edge(note as int),
        r matches Some(i) ==> i < EDGE_BUTTONS && right_edge_note(i as int) == note as int,
{
    if note < 128 && note % 16 == 8 {
        Some(note / 16)
    } else {
        None
    }
}

/// The position of a top-edge button among the eight, or `None` when the
/// control-change number is not one of them.
pub fn top_edge_index_of(cc: u8) -> (r: Option<u8>)
    ensures
        r is Some <==> is_top_edge(cc as int),
        r matches Some(i) ==> i < EDGE_BUTTONS && top_edge_cc(i as int) == cc as int,
{
    if TOP_EDGE_FIRST_CC <= cc && cc < TOP_EDGE_FIRST_CC + EDGE_BUTTONS {
        Some(cc - TOP_EDGE_FIRST_CC)
    } else {
        None
    }
}

/// The grid table is a bijection between harmonic indices 1 to 64 and the
/// grid pads: every index names a grid pad whose index is that index again,
/// every grid pad has an index that names it, and no two indices share a pad.
pub proof fn lemma_grid_bijection()
    ensures
        forall|h: int| #[trigger] is_harmonic(h) ==> is_grid_pad(pad_of(h)) && harmonic_of(pad_of(h)) == h,
        forall|p: int| #[trigger] is_grid_pad(p) ==> is_harmonic(harmonic_of(p)) && pad_of(harmonic_of(p)) == p,
        forall|h1: int, h2: int| is_harmonic(h1) && is_harmonic(h2) && #[trigger] pad_of(h1) == #[trigger] pad_of(h2) ==> h1 == h2,
{
    assert forall|h: int| #[trigger] is_harmonic(h) implies is_grid_pad(pad_of(h)) && harmonic_of(pad_of(h)) == h by {
        lemma_pad_of_harmonic(h);
    }
    assert forall|p: int| #[trigger] is_grid_pad(p) implies is_harmonic(harmonic_of(p)) && pad_of(harmonic_of(p)) == p by {
        lemma_harmonic_of_pad(p);
    }
    assert forall|h1: int, h2: int| is_harmonic(h1) && is_harmonic(h2) && #[trigger] pad_of(h1) == #[trigger] pad_of(h2) implies h1 == h2 by {
        lemma_pad_of_harmonic(h1);
        lemma_pad_of_harmonic(h2);
    }
}

proof fn lemma_pad_of_harmonic(h: int)
    requires
        is_harmonic(h),
    ensures
        is_grid_pad(pad_of(h)),
        harmonic_of(pad_of(h)) == h,
{
    let k = h - 1;
    let row = k / 8;
    let col = k % 8;
    assert(k == 8 * row + col && 0 <= row < 8 && 0 <= col < 8);
    let p = 16 * (7 - row) + col;
    assert(p / 16 == 7 - row && p % 16 == col);
}

proof fn lemma_harmonic_of_pad(p: int)
    requires
        is_grid_pad(p),
    ensures
        is_harmonic(harmonic_of(p)),
        pad_of(harmonic_of(p)) == p,
{
    let row = p / 16;
    let col = p % 16;
    assert(p == 16 * row + col && 0 <= row < 8 && 0 <= col < 8);
    let k = (7 - row) * 8 + col;
    assert(k / 8 == 7 - row && k % 8 == col);
}

} // verus!
