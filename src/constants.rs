//! Fixed numbers of the game.
use vstd::prelude::*;

verus! {

/// Side of the square play grid, in tiles.
pub const TILEMAP_SIDE_LENGHT: u32 = 16;

/// Drawing layers, back to front.
pub const LAYER_TILEMAP: u8 = 1;
pub const LAYER_PLAYER: u8 = 2;
pub const LAYER_UI: u8 = 3;

/// Pause after entering a movement phase before it accepts a move.
pub const MOVE_DELAY_MS: u64 = 400;
/// Pause before the enemies strike.
pub const ENEMY_ATTACK_WINDUP_MS: u64 = 1300;
/// Pause after the enemies strike, before the next round.
pub const ENEMY_ATTACK_COOLDOWN_MS: u64 = 1300;

/// How far the player's attacks reach.
pub const PLAYER_ATTACK_REACH: i32 = 5;
/// How far the enemies' attacks reach.
pub const ENEMY_ATTACK_REACH: i32 = 2;

/// How many random cells an enemy spawn tries before giving up for the round.
pub const SPAWN_ATTEMPTS: usize = 8;
/// Enemies appear in columns `0..SPAWN_X_END` ...
pub const SPAWN_X_END: u32 = 15;
/// ... and rows `SPAWN_Y_START..SPAWN_Y_END`.
pub const SPAWN_Y_START: u32 = 13;
pub const SPAWN_Y_END: u32 = 15;

/// Where the player starts.
pub const PLAYER_START_X: u32 = 10;
pub const PLAYER_START_Y: u32 = 10;

} // verus!
