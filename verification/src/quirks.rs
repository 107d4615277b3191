//! Selectable behaviour for the instructions on which hardware lineages differ.

use vstd::prelude::*;

verus! {

/// One flag per instruction whose behaviour differs between historical
/// interpreters. With every flag off the machine shifts `Vx` in place, jumps
/// relative to `V0`, keeps the index register within 12 bits, leaves it
/// untouched by block transfers, tests keys by level and clips sprites at
/// the edges of the display.
#[derive(Clone, Copy, Debug, PartialEq, Eq, Structural)]
pub struct Quirks {
    /// Shifts copy `Vy` into `Vx` before shifting.
    pub shift_uses_vy: bool,
    /// Jump-with-offset adds `Vx`, where `x` is the high nibble of the
    /// address, instead of `V0`.
    pub jump_offset_uses_vx_high_nibble: bool,
    /// Adding to the index register may carry past `0xFFF` into `0x1000` and
    /// beyond instead of being masked to 12 bits.
    pub index_overflow_wraps_to_4096: bool,
    /// Storing or loading `V0..=Vx` leaves the index register advanced by
    /// `x + 1`.
    pub store_load_advances_index: bool,
    /// Key skips test whether the key went down at the latest keypad update
    /// rather than whether it is held.
    pub key_skip_is_edge_triggered: bool,
    /// Sprite bits that fall beyond the right or bottom edge come back in at
    /// the opposite edge instead of being dropped.
    pub sprites_wrap_at_edges: bool,
}

impl Quirks {
    /// Every flag off.
    pub open spec fn baseline() -> Quirks {
        Quirks {
            shift_uses_vy: false,
            jump_offset_uses_vx_high_nibble: false,
            index_overflow_wraps_to_4096: false,
            store_load_advances_index: false,
            key_skip_is_edge_triggered: false,
            sprites_wrap_at_edges: false,
        }
    }
}

impl Default for Quirks {
    fn default() -> (quirks: Quirks)
        ensures
            quirks == Quirks::baseline(),
    {
        Quirks {
            shift_uses_vy: false,
            jump_offset_uses_vx_high_nibble: false,
            index_overflow_wraps_to_4096: false,
            store_load_advances_index: false,
            key_skip_is_edge_triggered: false,
            sprites_wrap_at_edges: false,
        }
    }
}

} // verus!
