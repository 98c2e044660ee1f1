//! Tests for the rasterizer: glyphs, numbers, strings, and the screens.

use flappy::config::{BIRD_START_X_SUB, FRAME_LEN, HEIGHT_SUB, SUBPIXELS};
use flappy::draw_utils::{
    count_digits, draw_char, draw_number, draw_string,
};
use flappy::game::{Game, GameState};
use flappy::vector2::Vector2;

fn frame() -> Vec<u8> {
    vec![0u8; FRAME_LEN]
}

/// The byte offset of the screen pixel (sx, sy).
fn at(sx: usize, sy: usize) -> usize {
    sy * 900 * 4 + sx * 4
}

fn is_ui(frame: &[u8], sx: usize, sy: usize) -> bool {
    let i = at(sx, sy);
    frame[i] == 0x78 && frame[i + 1] == 0xB4 && frame[i + 2] == 0xFF && frame[i + 3] == 0xFF
}

#[test]
fn count_digits_values() {
    assert_eq!(count_digits(0), 1);
    assert_eq!(count_digits(9), 1);
    assert_eq!(count_digits(10), 2);
    assert_eq!(count_digits(207), 3);
    assert_eq!(count_digits(u32::MAX), 10);
}

#[test]
fn draw_number_zero() {
    let mut f = frame();
    draw_number(&mut f, 0);
    // The zero glyph has its top bar at glyph row 1, columns 2..5; each
    // glyph cell is a 6-pixel square drawn at the score position (50, 50).
    assert!(is_ui(&f, 50 + 2 * 6, 50 + 6));
    assert!(is_ui(&f, 50 + 4 * 6 + 5, 50 + 6 + 5));
    // Glyph row 0 is blank, and the glyph's own hollow centre stays empty.
    assert!(!is_ui(&f, 50 + 2 * 6, 50));
    assert!(!is_ui(&f, 50 + 3 * 6, 50 + 4 * 6));
    // Far away nothing is touched.
    assert_eq!(f[at(400, 300)], 0);
}

#[test]
fn draw_number_two_digits() {
    let mut f = frame();
    draw_number(&mut f, 17);
    // The one: its stem sits in glyph column 3, row 3, of the first glyph.
    assert!(is_ui(&f, 50 + 3 * 6, 50 + 3 * 6));
    // The seven: its top bar spans columns 1..6 of the second glyph,
    // 42 pixels to the right.
    assert!(is_ui(&f, 50 + 42 + 1 * 6, 50 + 1 * 6));
    assert!(is_ui(&f, 50 + 42 + 5 * 6, 50 + 1 * 6));
}

#[test]
fn draw_char_bang() {
    let mut f = frame();
    draw_char(&mut f, '!', 100, 100);
    // The exclamation mark: a stem at glyph column 3, rows 1..6, and a dot
    // at row 7 with a blank row 6 between them.
    assert!(is_ui(&f, 100 + 3 * 6, 100 + 1 * 6));
    assert!(is_ui(&f, 100 + 3 * 6, 100 + 7 * 6));
    assert!(!is_ui(&f, 100 + 3 * 6, 100 + 6 * 6));
}

#[test]
fn draw_string_spacing() {
    let mut f = frame();
    draw_string(&mut f, "il", 200, 200);
    // The i: top bar of its serif row at glyph row 1, column 2..5? The i
    // glyph has a bar at row 1 columns 2..5 and a stem at column 3.
    assert!(is_ui(&f, 200 + 3 * 6, 200 + 3 * 6));
    // The l: stem in column 1, 42 pixels to the right of the i.
    assert!(is_ui(&f, 200 + 42 + 1 * 6, 200 + 3 * 6));
    // A blank keeps its pixels.
    let mut f2 = frame();
    draw_string(&mut f2, " ", 200, 200);
    assert_eq!(f2, frame());
}

#[test]
fn bird_draw_square() {
    let b = flappy::bird::Bird::new();
    let mut f = frame();
    b.draw(&mut f);
    // The bird is a 30-pixel square at (400, 200) in the bird colour.
    let i = at(400, 200);
    assert_eq!(&f[i..i + 4], &[0xF0, 0xDC, 0x78, 0xFF]);
    let i = at(429, 229);
    assert_eq!(&f[i..i + 4], &[0xF0, 0xDC, 0x78, 0xFF]);
    assert_eq!(f[at(399, 200)], 0);
    assert_eq!(f[at(430, 200)], 0);
    assert_eq!(f[at(400, 230)], 0);
}

#[test]
fn pipe_draw_skips_gap_and_offscreen_columns() {
    let mut rng = <rand_pcg::Pcg32 as rand::SeedableRng>::seed_from_u64(8);
    let mut p = flappy::pipe::Pipe::new(&mut rng);
    // Move the pipe so that its left third hangs off the screen.
    let x = -10 * SUBPIXELS;
    p.position = Vector2 { x, y: 0 };
    p.upper_collision_box.min = Vector2 { x, y: 0 };
    p.upper_collision_box.max = Vector2 {
        x: x + 30 * SUBPIXELS,
        y: (p.y_gap_location as i64) * SUBPIXELS,
    };
    p.lower_collision_box.min = Vector2 {
        x,
        y: ((p.y_gap_location + 125) as i64) * SUBPIXELS,
    };
    p.lower_collision_box.max = Vector2 { x: x + 30 * SUBPIXELS, y: HEIGHT_SUB };
    let mut f = frame();
    p.draw(&mut f);
    let gap = p.y_gap_location as usize;
    // On-screen columns 0..20 are filled white outside the gap.
    assert_eq!(&f[at(0, 0)..at(0, 0) + 4], &[0xFF, 0xFF, 0xFF, 0xFF]);
    assert_eq!(&f[at(19, 599)..at(19, 599) + 4], &[0xFF, 0xFF, 0xFF, 0xFF]);
    // The gap's boundary rows are drawn, the open rows between them not.
    assert_eq!(f[at(5, gap)], 0xFF);
    assert_eq!(f[at(5, gap + 1)], 0);
    assert_eq!(f[at(5, gap + 124)], 0);
    assert_eq!(f[at(5, gap + 125)], 0xFF);
    // Columns right of the pipe stay empty.
    assert_eq!(f[at(20, 0)], 0);
}

#[test]
fn menu_screen_draws_prompt() {
    let g = Game::with_seed(2);
    let mut f = frame();
    g.draw(&mut f);
    // The prompt begins with a w at (50, 50): its outer stems sit in glyph
    // columns 1 and 5 from row 1.
    assert!(is_ui(&f, 50 + 1 * 6, 50 + 1 * 6));
    assert!(is_ui(&f, 50 + 5 * 6, 50 + 1 * 6));
    // No score is drawn in the menu: the bird's start cell stays empty.
    assert_eq!(f[at(420, 210)], 0);
}

#[test]
fn playing_screen_layers() {
    let mut g = Game::with_seed(2);
    g.y_key_hit();
    let mut f = frame();
    g.draw(&mut f);
    // The bird square.
    let i = at(410, 210);
    assert_eq!(&f[i..i + 4], &[0xF0, 0xDC, 0x78, 0xFF]);
    // The score (a zero) draws over the play field.
    assert!(is_ui(&f, 50 + 3 * 6, 50 + 6));
    // The pipe spawned at the right edge is fully off screen, so the last
    // column stays whatever lay underneath.
    assert_eq!(f[at(899, 0)], 0);
}

#[test]
fn dead_screen_shows_score() {
    let mut g = Game::with_seed(2);
    g.y_key_hit();
    for _ in 0..1000 {
        g.update();
    }
    assert_eq!(g.game_state, GameState::Dead);
    let mut f = frame();
    g.draw(&mut f);
    // First line: a y at (50, 50) — its two arms meet from row 1.
    assert!(is_ui(&f, 50 + 1 * 6, 50 + 1 * 6));
    // The final score 0 right after the nineteen prefix characters.
    let sx = 50 + 19 * 42;
    assert!(is_ui(&f, sx + 2 * 6, 50 + 6));
    // The exclamation mark one advance later: stem column 3.
    assert!(is_ui(&f, sx + 42 + 3 * 6, 50 + 1 * 6));
    // Second line: a p at (50, 104).
    assert!(is_ui(&f, 50 + 1 * 6, 104 + 1 * 6));
    // The bird is not drawn on the death screen.
    assert_eq!(f[at((BIRD_START_X_SUB / SUBPIXELS) as usize, 210)], 0);
}
