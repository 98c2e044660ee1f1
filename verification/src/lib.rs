//! A small side-scrolling arcade game: a flyer ("bird") must pass through a
//! procession of gapped obstacles ("pipes") without touching them or the
//! screen bounds.
//!
//! The simulation is exact integer arithmetic: every coordinate is kept in
//! sub-pixels (`config::SUBPIXELS` per screen pixel) and the game advances in
//! fixed ticks (`config::TICKS_PER_SECOND` per second), so a whole run is a
//! deterministic function of the seed and the input sequence.

pub mod bird;
pub mod collision_box;
pub mod config;
pub mod draw_utils;
pub mod game;
pub mod laws;
pub mod pipe;
pub mod rng;
pub mod score;
pub mod vector2;
