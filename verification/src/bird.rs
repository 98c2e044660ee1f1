//! The player entity: gravity, upward impulses, pass and collision tests.

use vstd::prelude::*;
use crate::config::{
    BIRD_FLY_SPEED, BIRD_GRAVITY_ACCELERATION_SCALE, BIRD_HEIGHT_SUB, BIRD_MAX_VEL_Y,
    BIRD_MAX_Y_SUB, BIRD_MIN_Y_SUB, BIRD_START_X_SUB, BIRD_START_Y_SUB, BIRD_WIDTH_SUB,
    PIPE_WIDTH_SUB, VEL_STEP, WIDTH_SUB,
};
use crate::vector2::{Vector2, Vec2V};
use crate::collision_box::{CollisionBox, BoxV};
use crate::pipe::{Pipe, PipeV};

verus! {

/// Mathematical value of a `Bird`.
pub ghost struct BirdV {
    pub position: Vec2V,
    pub velocity: Vec2V,
    pub collision_box: BoxV,
}

impl BirdV {
    /// Structure the bird keeps through every operation: its box is its
    /// position translated by the fixed bird dimensions, and it never moves
    /// sideways.
    pub open spec fn wf(self) -> bool {
        &&& self.collision_box.min == self.position
        &&& self.collision_box.max == (Vec2V {
                x: self.position.x + BIRD_WIDTH_SUB as int,
                y: self.position.y + BIRD_HEIGHT_SUB as int,
            })
        &&& self.velocity.x == 0
        &&& self.position.x == BIRD_START_X_SUB as int
    }

    /// One tick: gravity bumps the fall speed by a fixed per-tick amount
    /// (not scaled by the timestep), then the position and the box move by
    /// `velocity * VEL_STEP`.
    pub open spec fn stepped(self) -> BirdV {
        let vel = Vec2V {
            x: self.velocity.x,
            y: self.velocity.y + BIRD_GRAVITY_ACCELERATION_SCALE as int,
        };
        let d = vel.scaled(VEL_STEP as int);
        BirdV {
            position: self.position.plus(d),
            velocity: vel,
            collision_box: self.collision_box.translated(d),
        }
    }

    /// A flap: the vertical velocity is set to the fixed upward speed,
    /// discarding prior momentum.
    pub open spec fn flown(self) -> BirdV {
        BirdV { velocity: Vec2V { x: 0, y: -(BIRD_FLY_SPEED as int) }, ..self }
    }

    /// Whether the bird's leading edge has cleared the pipe's trailing edge.
    pub open spec fn past_pipe(self, p: PipeV) -> bool {
        self.position.x > p.position.x + PIPE_WIDTH_SUB as int
    }

    /// Whether the bird's box overlaps either of the pipe's boxes.
    pub open spec fn hits_pipe(self, p: PipeV) -> bool {
        self.collision_box.overlaps(p.upper) || self.collision_box.overlaps(p.lower)
    }
}

/// The bird at the start of a session: at the fixed start position, at rest.
pub open spec fn bird_start() -> BirdV {
    BirdV {
        position: Vec2V { x: BIRD_START_X_SUB as int, y: BIRD_START_Y_SUB as int },
        velocity: Vec2V { x: 0, y: 0 },
        collision_box: BoxV {
            min: Vec2V { x: BIRD_START_X_SUB as int, y: BIRD_START_Y_SUB as int },
            max: Vec2V {
                x: BIRD_START_X_SUB as int + BIRD_WIDTH_SUB as int,
                y: BIRD_START_Y_SUB as int + BIRD_HEIGHT_SUB as int,
            },
        },
    }
}

/// The player entity. `position` is the top-left corner of a fixed-size
/// square; `collision_box` is kept in sync with it on every update.
#[derive(Clone, Copy, Debug)]
pub struct Bird {
    pub position: Vector2,
    pub velocity: Vector2,
    pub collision_box: CollisionBox,
}

impl View for Bird {
    type V = BirdV;

    open spec fn view(&self) -> BirdV {
        BirdV { position: self.position@, velocity: self.velocity@, collision_box: self.collision_box@ }
    }
}

impl Bird {
    pub fn new() -> (b: Bird)
        ensures
            b@ == bird_start(),
            b@.wf(),
    {
        let min = Vector2::new(BIRD_START_X_SUB, BIRD_START_Y_SUB);
        let max = Vector2::new(BIRD_START_X_SUB + BIRD_WIDTH_SUB, BIRD_START_Y_SUB + BIRD_HEIGHT_SUB);
        Bird {
            position: min,
            velocity: Vector2::new(0, 0),
            collision_box: CollisionBox::new(min, max),
        }
    }

    /// A flap: overrides the vertical momentum with the fixed upward speed.
    pub fn fly(&mut self)
        ensures
            final(self)@ == old(self)@.flown(),
    {
        self.velocity = Vector2::up().scaled(BIRD_FLY_SPEED);
    }

    /// One tick of physics.
    pub fn update(&mut self)
        requires
            old(self)@.wf(),
            BIRD_MIN_Y_SUB <= old(self).position.y <= BIRD_MAX_Y_SUB,
            -BIRD_FLY_SPEED <= old(self).velocity.y <= BIRD_MAX_VEL_Y,
        ensures
            final(self)@ == old(self)@.stepped(),
            final(self)@.wf(),
    {
        self.velocity = self.velocity.plus(Vector2::down().scaled(BIRD_GRAVITY_ACCELERATION_SCALE));
        let d = self.velocity.scaled(VEL_STEP);
        self.position = self.position.plus(d);
        self.collision_box.min = self.collision_box.min.plus(d);
        self.collision_box.max = self.collision_box.max.plus(d);
    }

    /// Whether this bird is past the given pipe.
    pub fn is_passed_pipe(&self, pipe: &Pipe) -> (r: bool)
        requires
            pipe.position.x <= WIDTH_SUB,
        ensures
            r == self@.past_pipe(pipe@),
    {
        self.position.x > pipe.position.x + PIPE_WIDTH_SUB
    }

    /// Whether this bird collides with the given pipe.
    pub fn collides_with_pipe(&self, pipe: &Pipe) -> (r: bool)
        ensures
            r == self@.hits_pipe(pipe@),
    {
        self.collision_box.collides_with(&pipe.upper_collision_box)
            || self.collision_box.collides_with(&pipe.lower_collision_box)
    }
}

} // verus!

verus! {

/// The byte the bird colour writes at offset `j`.
pub open spec fn bird_byte(j: int) -> u8 {
    crate::draw_utils::rgba_byte(
        crate::config::BIRD_R_COLOR,
        crate::config::BIRD_G_COLOR,
        crate::config::BIRD_B_COLOR,
        crate::config::BIRD_A_COLOR,
        j,
    )
}

/// The screen column of the bird's left edge.
pub open spec fn bird_px(b: BirdV) -> int {
    b.position.x / (crate::config::SUBPIXELS as int)
}

/// The screen row of the bird's top edge; a bird above the screen draws
/// from row zero, as a saturating cast would place it.
pub open spec fn bird_py(b: BirdV) -> int {
    if b.position.y < 0 {
        0
    } else {
        b.position.y / (crate::config::SUBPIXELS as int)
    }
}

impl Bird {
    /// Draws the bird's square, skipping rows that fall outside the frame.
    pub fn draw(&self, frame: &mut Vec<u8>)
        requires
            0 <= self.position.x <= WIDTH_SUB - BIRD_WIDTH_SUB,
            BIRD_MIN_Y_SUB <= self.position.y <= BIRD_MAX_Y_SUB,
        ensures
            final(frame)@.len() == old(frame)@.len(),
            forall|j: int|
                0 <= j < final(frame)@.len() ==> final(frame)@[j] == (
                if crate::draw_utils::rect_covers(
                    old(frame)@.len() as int,
                    bird_px(self@),
                    bird_py(self@),
                    crate::config::BIRD_WIDTH as int,
                    crate::config::BIRD_HEIGHT as int,
                    j,
                ) {
                    bird_byte(j)
                } else {
                    old(frame)@[j]
                }),
    {
        let px = (self.position.x / crate::config::SUBPIXELS) as u32;
        let py = if self.position.y < 0 {
            0u32
        } else {
            (self.position.y / crate::config::SUBPIXELS) as u32
        };
        crate::draw_utils::fill_rect(
            frame,
            px,
            py,
            crate::config::BIRD_WIDTH,
            crate::config::BIRD_HEIGHT,
            crate::config::BIRD_R_COLOR,
            crate::config::BIRD_G_COLOR,
            crate::config::BIRD_B_COLOR,
            crate::config::BIRD_A_COLOR,
        );
    }
}

} // verus!
