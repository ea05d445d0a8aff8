//! What the player pressed this tick, and what it means for movement and
//! attacks.
use vstd::prelude::*;

use crate::grid::{Cell, GridSize};
use crate::pattern::AttackPattern;

verus! {

/// The keys that went down during this tick.
#[derive(Clone, Copy, Debug, PartialEq, Eq, Structural)]
pub struct KeyInput {
    pub arrow_up: bool,
    pub arrow_down: bool,
    pub arrow_left: bool,
    pub arrow_right: bool,
    /// Diagonal attack.
    pub key_q: bool,
    /// Sides attack.
    pub key_w: bool,
    /// Around attack.
    pub key_e: bool,
    /// Ultimate attack.
    pub key_r: bool,
}

/// Whether any arrow key went down.
pub open spec fn arrow_pressed(keys: KeyInput) -> bool {
    keys.arrow_up || keys.arrow_down || keys.arrow_left || keys.arrow_right
}

/// One coordinate after its increasing and decreasing keys: up one, then
/// down one without going below 0.
pub open spec fn shifted(v: int, inc: bool, dec: bool) -> int {
    let raised = if inc { v + 1 } else { v };
    if dec && raised > 0 { raised - 1 } else { raised }
}

/// The greater of 0 and the smaller of `v` and `hi`.
pub open spec fn clamped(v: int, hi: int) -> int {
    if v < 0 { 0 } else if v > hi { hi } else { v }
}

/// Where the arrows take a cell: each pressed arrow moves it one tile, and
/// the result is clamped onto the grid.
pub open spec fn moved_cell(c: Cell, keys: KeyInput, size: GridSize) -> Cell {
    Cell {
        x: clamped(shifted(c.x as int, keys.arrow_right, keys.arrow_left), size.x - 1) as u32,
        y: clamped(shifted(c.y as int, keys.arrow_up, keys.arrow_down), size.y - 1) as u32,
    }
}

/// The attack the keys select: Q, W, E, R in that order of priority.
pub open spec fn chosen_pattern(keys: KeyInput) -> Option<AttackPattern> {
    if keys.key_q {
        Some(AttackPattern::Diagonal)
    } else if keys.key_w {
        Some(AttackPattern::Sides)
    } else if keys.key_e {
        Some(AttackPattern::Around)
    } else if keys.key_r {
        Some(AttackPattern::Ultimate)
    } else {
        None
    }
}

impl KeyInput {
    /// No key pressed.
    pub fn none() -> (k: KeyInput)
        ensures
            !arrow_pressed(k),
            chosen_pattern(k).is_none(),
    {
        KeyInput {
            arrow_up: false,
            arrow_down: false,
            arrow_left: false,
            arrow_right: false,
            key_q: false,
            key_w: false,
            key_e: false,
            key_r: false,
        }
    }

    /// Whether any arrow key went down.
    pub fn any_arrow(&self) -> (r: bool)
        ensures
            r == arrow_pressed(*self),
    {
        self.arrow_up || self.arrow_down || self.arrow_left || self.arrow_right
    }
}

fn shift(v: u32, inc: bool, dec: bool) -> (r: u64)
    ensures
        r == shifted(v as int, inc, dec),
{
    let raised: u64 = if inc { v as u64 + 1 } else { v as u64 };
    if dec && raised > 0 { raised - 1 } else { raised }
}

fn clamp_to(v: u64, hi: u32) -> (r: u32)
    ensures
        r == clamped(v as int, hi as int),
{
    if v > hi as u64 { hi } else { v as u32 }
}

/// The cell the arrows take `pos` to on a grid of `map_size`, clamped onto
/// the grid.
pub fn next_tile_pos(pos: Cell, keys: &KeyInput, map_size: GridSize) -> (r: Cell)
    requires
        map_size.x > 0,
        map_size.y > 0,
    ensures
        r == moved_cell(pos, *keys, map_size),
        r.x < map_size.x && r.y < map_size.y,
{
    let x = clamp_to(shift(pos.x, keys.arrow_right, keys.arrow_left), map_size.x - 1);
    let y = clamp_to(shift(pos.y, keys.arrow_up, keys.arrow_down), map_size.y - 1);
    Cell { x, y }
}

/// The attack the keys select, Q first and R last; `None` without one.
pub fn attack_for_keys(keys: &KeyInput) -> (r: Option<AttackPattern>)
    ensures
        r == chosen_pattern(*keys),
{
    if keys.key_q {
        Some(AttackPattern::Diagonal)
    } else if keys.key_w {
        Some(AttackPattern::Sides)
    } else if keys.key_e {
        Some(AttackPattern::Around)
    } else if keys.key_r {
        Some(AttackPattern::Ultimate)
    } else {
        None
    }
}

} // verus!
