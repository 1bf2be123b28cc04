//! The scroll controller's clamp rules.
//!
//! Each axis keeps the first visible row or column of the viewport.
//! Recomputation is lazy and edge-driven: an offset is pulled along
//! only when the cursor would otherwise sit outside the viewport, and
//! is never re-centred. Offsets are recomputed once per frame, and
//! only for an axis whose dirty flag a motion or edit has set.

use vstd::prelude::*;

verus! {

/// The vertical offset after one recomputation, for a viewport
/// `height` rows tall, given `n`, the one-based row of the active line
/// (its index plus one), and the current offset `v`. If the active
/// line has passed the bottom edge, scroll down just enough to show
/// it; if it has passed the top edge, scroll up so it is the first
/// visible row; otherwise leave the offset alone.
pub open spec fn clamp_vscroll(n: int, v: int, height: int) -> int {
    if n - v > height {
        n - height
    } else if n - v <= 0 {
        n - 1
    } else {
        v
    }
}

/// The horizontal offset after one recomputation, for a viewport
/// `width` columns wide, given the cursor column `c` and the current
/// offset `h`: the same edge-driven clamp, keeping the cursor within
/// the `width` visible columns.
pub open spec fn clamp_hscroll(c: int, h: int, width: int) -> int {
    if c - h > width - 1 {
        c - width + 1
    } else if c - h <= 0 {
        c
    } else {
        h
    }
}

} // verus!
