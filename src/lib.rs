//! Turn-based tile tactics: a colour-masking round structure, attack patterns
//! over a bounded tile grid, a unit registry and the turn state machine that
//! drives them. Rendering, input polling and windowing live outside the
//! library; they feed it key snapshots and elapsed time and read its state.
pub mod animation;
pub mod color;
pub mod combat;
pub mod constants;
pub mod delay;
pub mod game;
pub mod grid;
pub mod input;
pub mod pattern;
pub mod registry;
pub mod status;
pub mod turn;
