//! Configuration constants.
//!
//! Geometry is measured in two related units:
//! - screen pixels (`u32`), used by the rasterizer;
//! - sub-pixels (`i64`), used by the simulation. One pixel is `SUBPIXELS`
//!   sub-pixels, chosen as a common multiple of the tick rate and of 100 so
//!   that both one tick of motion at an integer speed and a hundredth of a
//!   pixel are exact.
//!
//! Speeds are in pixels per second. One tick is `1 / TICKS_PER_SECOND`
//! seconds, so a body with speed `v` moves `v * VEL_STEP` sub-pixels per
//! tick.

use vstd::prelude::*;

verus! {

// Clock
pub const TICKS_PER_SECOND: i64 = 120;

// Units
pub const SUBPIXELS: i64 = 600;
/// `SUBPIXELS / TICKS_PER_SECOND`: sub-pixels of motion per tick for one
/// pixel per second of speed.
pub const VEL_STEP: i64 = 5;

// Window size
pub const WIDTH: u32 = 900;
pub const HEIGHT: u32 = 600;
pub const WIDTH_SUB: i64 = 900 * 600;
pub const HEIGHT_SUB: i64 = 600 * 600;

// Game constants
pub const SEED: u64 = 2;

// Pipe constants
pub const PIPE_SPEED: i64 = 80;
pub const PIPE_WIDTH: u32 = 30;
pub const PIPE_WIDTH_SUB: i64 = 30 * 600;
pub const PIPE_SPACING: u32 = 200;
pub const PIPE_SPACING_SUB: i64 = 200 * 600;
pub const PIPE_GAP_BOUND: u32 = 30;
pub const PIPE_GAP_SIZE: u32 = 125;

/// A new pipe is spawned as soon as the newest pipe's left edge has scrolled
/// past `WIDTH - PIPE_WIDTH - PIPE_SPACING` pixels.
pub const PIPE_SPAWN_LINE_SUB: i64 = (900 - 30 - 200) * 600;
/// How far a pipe scrolls in one tick, in sub-pixels.
pub const PIPE_STEP_SUB: i64 = 80 * 5;
/// The least horizontal distance between the left edges of two consecutive
/// pipes: `PIPE_WIDTH + PIPE_SPACING` pixels, less up to one tick of scroll.
pub const PIPE_MIN_DISTANCE_SUB: i64 = (30 + 200) * 600 - 80 * 5;

pub const PIPE_R_COLOR: u8 = 0xFF;
pub const PIPE_G_COLOR: u8 = 0xFF;
pub const PIPE_B_COLOR: u8 = 0xFF;
pub const PIPE_A_COLOR: u8 = 0xFF;

// Bird constants
pub const BIRD_START_POSITION_X: u32 = 400;
pub const BIRD_START_POSITION_Y: u32 = 200;
pub const BIRD_START_X_SUB: i64 = 400 * 600;
pub const BIRD_START_Y_SUB: i64 = 200 * 600;
pub const BIRD_FLY_SPEED: i64 = 200;
pub const BIRD_GRAVITY_ACCELERATION_SCALE: i64 = 2;

pub const BIRD_HEIGHT: u32 = 30;
pub const BIRD_WIDTH: u32 = 30;
pub const BIRD_HEIGHT_SUB: i64 = 30 * 600;
pub const BIRD_WIDTH_SUB: i64 = 30 * 600;

pub const BIRD_R_COLOR: u8 = 0xF0;
pub const BIRD_G_COLOR: u8 = 0xDC;
pub const BIRD_B_COLOR: u8 = 0x78;
pub const BIRD_A_COLOR: u8 = 0xFF;

// Bounds under which a playing bird is known to stay, with a margin of one
// pixel around the screen so that states just past the bounds (which the
// death check turns into `Dead` on the next tick) are still well formed.
pub const BIRD_MIN_Y_SUB: i64 = -600;
pub const BIRD_MAX_Y_SUB: i64 = 600 * 600 + 600;
/// Largest vertical speed a playing bird can reach before the death check
/// removes it: `(BIRD_MAX_Y_SUB - BIRD_MIN_Y_SUB) / VEL_STEP`.
pub const BIRD_MAX_VEL_Y: i64 = 72240;

// UI constants
pub const FONT_PIXEL_SIZE_SCREEN_PIXELS: u32 = 6;
pub const FONT_WIDTH_SIZE_PIXEL_MAP_PIXELS: u32 = 7;
pub const FONT_HEIGHT_PIXEL_MAP_PIXELS: u32 = 9;
pub const FONT_START_OFFSET: u32 = 50;
/// Horizontal advance from one glyph to the next, in pixels.
pub const FONT_ADVANCE: u32 = 6 * 7;
/// Where the score's digits start on the death screen: right after the
/// nineteen characters of its text.
pub const DEAD_SCORE_X: u32 = 50 + 19 * (6 * 7);
/// The row of the death screen's second line: one glyph height down.
pub const DEAD_REPLAY_Y: u32 = 50 + 9 * 6;

pub const UI_R_COLOR: u8 = 0x78;
pub const UI_G_COLOR: u8 = 0xB4;
pub const UI_B_COLOR: u8 = 0xFF;
pub const UI_A_COLOR: u8 = 0xFF;

// Frame buffer layout: RGBA, row-major.
pub const FRAME_STRIDE: usize = 900 * 4;
pub const FRAME_LEN: usize = 900 * 600 * 4;

} // verus!
