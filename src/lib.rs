//! Simulation core of a block-raiding arcade game: two brick grids that
//! arbitrate claims, a bounded pool of falling bombs, and a roster of flying
//! spiders whose per-tick state machine raids one grid to fill the other.
pub mod common;
pub mod random;
pub mod grid;
pub mod base_bricks;
pub mod letter_bricks;
pub mod bombs;
pub mod bonus_bomb;
pub mod mother;
pub mod spiders;
pub mod missile;
pub mod ship;
pub mod animation;
pub mod game_input;
pub mod soundfx;
pub mod background;
pub mod game;
