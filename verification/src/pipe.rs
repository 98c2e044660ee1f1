//! Scrolling obstacles with a vertical passable gap.

use vstd::prelude::*;
use crate::config::{
    HEIGHT, HEIGHT_SUB, PIPE_A_COLOR, PIPE_B_COLOR, PIPE_G_COLOR, PIPE_GAP_BOUND, PIPE_GAP_SIZE,
    PIPE_R_COLOR, PIPE_SPEED, PIPE_WIDTH, PIPE_WIDTH_SUB, SUBPIXELS, VEL_STEP, WIDTH, WIDTH_SUB,
};
use crate::vector2::{Vector2, Vec2V};
use crate::collision_box::{CollisionBox, BoxV};

verus! {

/// Mathematical value of a `Pipe`. `gap` is the vertical offset of the
/// passable gap's top edge, in pixels.
pub ghost struct PipeV {
    pub position: Vec2V,
    pub velocity: Vec2V,
    pub gap: int,
    pub passed: bool,
    pub upper: BoxV,
    pub lower: BoxV,
}

impl PipeV {
    /// The range the gap offset is drawn from: the gap never comes within
    /// `PIPE_GAP_BOUND` pixels of the top or the bottom of the screen.
    pub open spec fn gap_in_range(gap: int) -> bool {
        PIPE_GAP_BOUND as int <= gap < HEIGHT as int - PIPE_GAP_BOUND as int - PIPE_GAP_SIZE as int
    }

    /// Structure every pipe keeps: it sits at the top of the screen, drifts
    /// left at the fixed speed, its gap is in range, and its two boxes span
    /// the barrier's horizontal extent above and below the gap.
    pub open spec fn wf(self) -> bool {
        &&& Self::gap_in_range(self.gap)
        &&& self.position.y == 0
        &&& self.velocity == (Vec2V { x: -(PIPE_SPEED as int), y: 0 })
        &&& self.upper == (BoxV {
                min: self.position,
                max: Vec2V {
                    x: self.position.x + PIPE_WIDTH_SUB as int,
                    y: self.gap * SUBPIXELS as int,
                },
            })
        &&& self.lower == (BoxV {
                min: Vec2V {
                    x: self.position.x,
                    y: (self.gap + PIPE_GAP_SIZE as int) * SUBPIXELS as int,
                },
                max: Vec2V {
                    x: self.position.x + PIPE_WIDTH_SUB as int,
                    y: HEIGHT_SUB as int,
                },
            })
    }

    /// One tick: the position and both boxes move by `velocity * VEL_STEP`.
    pub open spec fn stepped(self) -> PipeV {
        let d = self.velocity.scaled(VEL_STEP as int);
        PipeV {
            position: self.position.plus(d),
            upper: self.upper.translated(d),
            lower: self.lower.translated(d),
            ..self
        }
    }

    /// A pipe as spawned: at the right edge of the play field, not yet
    /// passed, with the given gap offset.
    pub open spec fn spawned(gap: int) -> PipeV {
        PipeV {
            position: Vec2V { x: WIDTH_SUB as int, y: 0 },
            velocity: Vec2V { x: -(PIPE_SPEED as int), y: 0 },
            gap,
            passed: false,
            upper: BoxV {
                min: Vec2V { x: WIDTH_SUB as int, y: 0 },
                max: Vec2V {
                    x: WIDTH_SUB as int + PIPE_WIDTH_SUB as int,
                    y: gap * SUBPIXELS as int,
                },
            },
            lower: BoxV {
                min: Vec2V {
                    x: WIDTH_SUB as int,
                    y: (gap + PIPE_GAP_SIZE as int) * SUBPIXELS as int,
                },
                max: Vec2V {
                    x: WIDTH_SUB as int + PIPE_WIDTH_SUB as int,
                    y: HEIGHT_SUB as int,
                },
            },
        }
    }
}

/// A scrolling obstacle. `position` is its top-left corner; the gap spans
/// the pixel rows `y_gap_location ..= y_gap_location + PIPE_GAP_SIZE`.
#[derive(Clone, Copy, Debug)]
pub struct Pipe {
    pub position: Vector2,
    pub velocity: Vector2,
    pub y_gap_location: u32,
    pub passed: bool,
    pub upper_collision_box: CollisionBox,
    pub lower_collision_box: CollisionBox,
}

impl View for Pipe {
    type V = PipeV;

    open spec fn view(&self) -> PipeV {
        PipeV {
            position: self.position@,
            velocity: self.velocity@,
            gap: self.y_gap_location as int,
            passed: self.passed,
            upper: self.upper_collision_box@,
            lower: self.lower_collision_box@,
        }
    }
}

impl Pipe {
    /// Spawns a pipe just past the right side of the screen, its gap offset
    /// drawn from the generator within the configured bounds.
    pub fn new(rng: &mut rand_pcg::Pcg32) -> (p: Pipe)
        ensures
            p@ == PipeV::spawned(p@.gap),
            PipeV::gap_in_range(p@.gap),
            p@.wf(),
    {
        let y_gap_location =
            crate::rng::sample_range(rng, PIPE_GAP_BOUND, HEIGHT - PIPE_GAP_BOUND - PIPE_GAP_SIZE);
        let gap_sub: i64 = (y_gap_location as i64) * SUBPIXELS;
        let gap_bottom_sub: i64 = ((y_gap_location + PIPE_GAP_SIZE) as i64) * SUBPIXELS;

        let min_upper = Vector2::new(WIDTH_SUB, 0);
        let max_upper = Vector2::new(WIDTH_SUB + PIPE_WIDTH_SUB, gap_sub);
        let min_lower = Vector2::new(WIDTH_SUB, gap_bottom_sub);
        let max_lower = Vector2::new(WIDTH_SUB + PIPE_WIDTH_SUB, HEIGHT_SUB);

        Pipe {
            position: min_upper,
            velocity: Vector2::left().scaled(PIPE_SPEED),
            y_gap_location,
            passed: false,
            upper_collision_box: CollisionBox::new(min_upper, max_upper),
            lower_collision_box: CollisionBox::new(min_lower, max_lower),
        }
    }

    /// One tick of leftward drift; position and both boxes move together.
    pub fn update(&mut self)
        requires
            old(self)@.wf(),
            -PIPE_WIDTH_SUB <= old(self).position.x <= WIDTH_SUB,
        ensures
            final(self)@ == old(self)@.stepped(),
    {
        let d = self.velocity.scaled(VEL_STEP);
        self.position = self.position.plus(d);
        self.upper_collision_box.min = self.upper_collision_box.min.plus(d);
        self.upper_collision_box.max = self.upper_collision_box.max.plus(d);
        self.lower_collision_box.min = self.lower_collision_box.min.plus(d);
        self.lower_collision_box.max = self.lower_collision_box.max.plus(d);
    }
}

} // verus!

verus! {

/// The byte the pipe colour writes at offset `j`.
pub open spec fn pipe_byte(j: int) -> u8 {
    crate::draw_utils::rgba_byte(
        crate::config::PIPE_R_COLOR,
        crate::config::PIPE_G_COLOR,
        crate::config::PIPE_B_COLOR,
        crate::config::PIPE_A_COLOR,
        j,
    )
}

/// The screen column of the pipe's left edge, rounded toward zero: a pipe
/// reaching off the left of the screen keeps its fractional column.
pub open spec fn pipe_px(p: PipeV) -> int {
    if p.position.x >= 0 {
        p.position.x / (SUBPIXELS as int)
    } else {
        -((-p.position.x) / (SUBPIXELS as int))
    }
}

/// Whether pixel `t` (column-major, `HEIGHT` tall) of the pipe whose left
/// edge is at screen column `px` covers byte `j`. Columns off the screen
/// and the rows of the gap are not drawn.
pub open spec fn pipe_cell_covers(len: int, px: int, gap: int, t: int, j: int) -> bool {
    let sx = px + t / (HEIGHT as int);
    let sy = t % (HEIGHT as int);
    &&& 0 <= sx < WIDTH as int
    &&& !(gap < sy && sy < gap + PIPE_GAP_SIZE as int)
    &&& crate::draw_utils::pixel_covers(len, sx, sy, j)
}

/// Whether one of the first `m` pixels of the pipe covers byte `j`.
pub open spec fn pipe_covers_upto(len: int, px: int, gap: int, m: int, j: int) -> bool {
    exists|t: int| 0 <= t < m && #[trigger] pipe_cell_covers(len, px, gap, t, j)
}

/// Whether the pipe whose left edge is at screen column `px`, with gap
/// offset `gap`, covers byte `j`.
pub open spec fn pipe_covers(len: int, px: int, gap: int, j: int) -> bool {
    pipe_covers_upto(len, px, gap, (PIPE_WIDTH * HEIGHT) as int, j)
}

impl Pipe {
    /// Draws the pipe's two segments, skipping the gap rows and any columns
    /// off the screen.
    pub fn draw(&self, frame: &mut Vec<u8>)
        requires
            self@.wf(),
            -WIDTH_SUB <= self.position.x <= WIDTH_SUB,
        ensures
            final(frame)@.len() == old(frame)@.len(),
            forall|j: int|
                0 <= j < final(frame)@.len() ==> final(frame)@[j] == (if pipe_covers(
                    old(frame)@.len() as int,
                    pipe_px(self@),
                    self@.gap,
                    j,
                ) {
                    pipe_byte(j)
                } else {
                    old(frame)@[j]
                }),
    {
        let ghost len = frame@.len() as int;
        let px: i64 = if self.position.x >= 0 {
            self.position.x / SUBPIXELS
        } else {
            -((-self.position.x) / SUBPIXELS)
        };
        let gap = self.y_gap_location;
        let total: u32 = PIPE_WIDTH * HEIGHT;
        let mut t: u32 = 0;
        while t < total
            invariant
                t <= total,
                total == (PIPE_WIDTH * HEIGHT) as u32,
                px == pipe_px(self@),
                -(WIDTH as i64) <= px <= WIDTH as i64,
                gap == self.y_gap_location,
                gap <= 600,
                frame@.len() == len,
                forall|j: int|
                    0 <= j < len ==> frame@[j] == (if pipe_covers_upto(
                        len,
                        px as int,
                        gap as int,
                        t as int,
                        j,
                    ) {
                        pipe_byte(j)
                    } else {
                        old(frame)@[j]
                    }),
            decreases total - t,
        {
            let dx = t / HEIGHT;
            let sy = t % HEIGHT;
            let sx: i64 = px + dx as i64;
            if 0 <= sx && sx < WIDTH as i64 && !(sy > gap && sy < gap + PIPE_GAP_SIZE) {
                crate::draw_utils::put_pixel(
                    frame,
                    sx as usize,
                    sy as usize,
                    PIPE_R_COLOR,
                    PIPE_G_COLOR,
                    PIPE_B_COLOR,
                    PIPE_A_COLOR,
                );
                proof {
                    assert forall|j: int| 0 <= j < len implies frame@[j] == (if pipe_covers_upto(
                        len,
                        px as int,
                        gap as int,
                        t as int + 1,
                        j,
                    ) {
                        pipe_byte(j)
                    } else {
                        old(frame)@[j]
                    }) by {
                        if crate::draw_utils::pixel_covers(len, sx as int, sy as int, j) {
                            assert(pipe_cell_covers(len, px as int, gap as int, t as int, j));
                        } else {
                            assert(!pipe_cell_covers(len, px as int, gap as int, t as int, j));
                            assert(forall|u: int|
                                0 <= u < t as int + 1 && #[trigger] pipe_cell_covers(
                                    len,
                                    px as int,
                                    gap as int,
                                    u,
                                    j,
                                ) ==> u < t as int);
                        }
                    }
                }
            } else {
                proof {
                    assert forall|j: int| 0 <= j < len implies (pipe_covers_upto(
                        len,
                        px as int,
                        gap as int,
                        t as int + 1,
                        j,
                    ) == pipe_covers_upto(len, px as int, gap as int, t as int, j)) by {
                        assert(!pipe_cell_covers(len, px as int, gap as int, t as int, j));
                        assert(forall|u: int|
                            0 <= u < t as int + 1 && #[trigger] pipe_cell_covers(
                                len,
                                px as int,
                                gap as int,
                                u,
                                j,
                            ) ==> u < t as int);
                    }
                }
            }
            t = t + 1;
        }
    }
}

} // verus!
