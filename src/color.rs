//! Colours and the round's colour mask.
//!
//! Each round one of the three primaries is "masked". The masked primary is
//! the colour of the player's attacks and of the enemies; its complement is
//! the colour of the enemies' attacks and of the player.
use vstd::prelude::*;

verus! {

/// The colours a tile or a unit can show.
#[derive(Clone, Copy, Debug, PartialEq, Eq, Structural)]
pub enum Color {
    Red,
    Green,
    Blue,
    Cyan,
    Magenta,
    Yellow,
    /// The neutral colour: a tile's colour before anything paints it, and the
    /// fallback of the lookups for an index outside `0..3`.
    White,
}

/// The primary masked for mask index `i`.
pub open spec fn masked_color(i: int) -> Color {
    if i == 0 {
        Color::Red
    } else if i == 1 {
        Color::Green
    } else if i == 2 {
        Color::Blue
    } else {
        Color::White
    }
}

/// The complement of the primary masked for mask index `i`.
pub open spec fn player_color(i: int) -> Color {
    if i == 0 {
        Color::Cyan
    } else if i == 1 {
        Color::Magenta
    } else if i == 2 {
        Color::Yellow
    } else {
        Color::White
    }
}

/// Red, green or blue for mask index 0, 1 or 2; white for any other index.
pub fn masked_color_from_index(index: i32) -> (c: Color)
    ensures
        c == masked_color(index as int),
{
    match index {
        0 => Color::Red,
        1 => Color::Green,
        2 => Color::Blue,
        _ => Color::White,
    }
}

/// Cyan, magenta or yellow for mask index 0, 1 or 2; white for any other index.
pub fn player_color_from_index(index: i32) -> (c: Color)
    ensures
        c == player_color(index as int),
{
    match index {
        0 => Color::Cyan,
        1 => Color::Magenta,
        2 => Color::Yellow,
        _ => Color::White,
    }
}

/// For every valid mask index, the masked colours and the player colours are
/// two disjoint sets: no masked primary equals any complement, each table is
/// one-to-one on `0..3`, and neither table gives the neutral colour there.
pub proof fn lemma_mask_tables_disjoint(i: int, j: int)
    requires
        0 <= i < 3,
        0 <= j < 3,
    ensures
        masked_color(i) != player_color(j),
        masked_color(i) != Color::White,
        player_color(i) != Color::White,
        masked_color(i) == masked_color(j) <==> i == j,
        player_color(i) == player_color(j) <==> i == j,
{
}

/// Number of primaries a mask index can select.
pub const MASK_CHOICES: u32 = 3;

/// Relies on `rand::random_range` (thread-local generator): for a non-empty
/// half-open range `lo..hi` it returns a value inside it; it panics on an empty
/// range, which `requires` leaves out.
#[verifier::external_body]
pub(crate) fn random_in_range(lo: u32, hi: u32) -> (r: u32)
    requires
        lo < hi,
    ensures
        lo <= r < hi,
{
    rand::random_range(lo..hi)
}

/// The round's colour mask: which primary is masked.
#[derive(Clone, Copy, Debug, PartialEq, Eq, Structural)]
pub struct RoundColorState {
    /// 0: red is masked, 1: green, 2: blue.
    pub index: i32,
}

impl RoundColorState {
    /// Draws a new mask index uniformly from `0..3` and stores it.
    pub fn asign_random_color(&mut self)
        ensures
            0 <= final(self).index < 3,
    {
        let drawn = random_in_range(0, MASK_CHOICES);
        self.index = drawn as i32;
    }

    /// The colour of the player's attacks and of the enemies this round.
    pub fn masked_color(&self) -> (c: Color)
        ensures
            c == masked_color(self.index as int),
    {
        masked_color_from_index(self.index)
    }

    /// The colour of the enemies' attacks and of the player this round.
    pub fn player_color(&self) -> (c: Color)
        ensures
            c == player_color(self.index as int),
    {
        player_color_from_index(self.index)
    }
}

impl Default for RoundColorState {
    /// A session starts with red masked.
    fn default() -> (r: Self)
        ensures
            r.index == 0,
    {
        RoundColorState { index: 0 }
    }
}

} // verus!
