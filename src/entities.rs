//! The paddle, the ball and the blocks, with their per-frame update rules.
use vstd::prelude::*;
use crate::geometry::Rect;

verus! {

/// Width of the play area.
pub const SCREEN_WIDTH: i64 = 800000;
/// Height of the play area; a ball below it is lost.
pub const SCREEN_HEIGHT: i64 = 600000;

pub const PADDLE_X: i64 = 340000;
pub const PADDLE_Y: i64 = 500000;
pub const PADDLE_W: i64 = 120000;
pub const PADDLE_H: i64 = 30000;
/// Paddle speed in thousandths of a unit per millisecond (400 units a second).
pub const PADDLE_SPEED: i64 = 400;
pub const PADDLE_LIVES: u32 = 3;

pub const BALL_SIZE: i64 = 30000;
/// Ball speed along each axis in thousandths of a unit per millisecond
/// (200 units a second).
pub const BALL_SPEED: i64 = 200;

pub const BLOCK_W: i64 = 100000;
pub const BLOCK_H: i64 = 40000;
pub const BLOCK_LIVES: u32 = 2;

/// Bound on the coordinates of everything on the board, far beyond the screen.
pub const FIELD_LIMIT: i64 = 1125899906842624;
/// Bound on the sizes of everything on the board.
pub const SIZE_LIMIT: i64 = 1099511627776;
/// How far past [`FIELD_LIMIT`] a ball can get within one frame.
pub const REACH_LIMIT: i64 = 1143492092887040;

/// Colours the pieces are drawn in.
#[derive(Clone, Copy, Debug, PartialEq, Eq, Structural)]
pub enum Color {
    White,
    Yellow,
    Red,
    Orange,
}

/// A rectangle lies on the board: bounded corner, bounded non-negative size.
pub open spec fn on_board(r: Rect, lim: int) -> bool {
    &&& -lim <= r.x <= lim
    &&& -lim <= r.y <= lim
    &&& 0 <= r.w <= SIZE_LIMIT
    &&& 0 <= r.h <= SIZE_LIMIT
}

#[derive(Clone, Copy, Debug)]
pub struct Player {
    pub rect: Rect,
    pub c: Color,
    pub lives: u32,
}

/// Horizontal direction chosen by the two steering inputs.
pub open spec fn steer(left: bool, right: bool) -> int {
    if left && !right {
        -1
    } else if right && !left {
        1
    } else {
        0
    }
}

/// A displacement of length `step` in the direction given by the sign of `dir`.
pub open spec fn shift(dir: int, step: int) -> int {
    if dir < 0 {
        -step
    } else if dir > 0 {
        step
    } else {
        0
    }
}

pub open spec fn clamp(v: int, lo: int, hi: int) -> int {
    if v < lo {
        lo
    } else if v > hi {
        hi
    } else {
        v
    }
}

impl Player {
    pub open spec fn wf(self) -> bool {
        on_board(self.rect, FIELD_LIMIT as int) && self.rect.w <= SCREEN_WIDTH
    }

    /// The paddle after `update`.
    pub open spec fn steered(self, left: bool, right: bool, dt_ms: u32) -> Player {
        Player {
            rect: Rect {
                x: clamp(
                    self.rect.x + shift(steer(left, right), PADDLE_SPEED * dt_ms),
                    0,
                    SCREEN_WIDTH - self.rect.w,
                ) as i64,
                y: self.rect.y,
                w: self.rect.w,
                h: self.rect.h,
            },
            c: self.c,
            lives: self.lives,
        }
    }

    pub fn new() -> (r: Player)
        ensures
            r.rect == (Rect { x: PADDLE_X, y: PADDLE_Y, w: PADDLE_W, h: PADDLE_H }),
            r.c == Color::Yellow,
            r.lives == PADDLE_LIVES,
            r.wf(),
    {
        Player { rect: Rect::new(PADDLE_X, PADDLE_Y, PADDLE_W, PADDLE_H), c: Color::Yellow, lives: PADDLE_LIVES }
    }

    /// Moves the paddle for `dt_ms` milliseconds as the steering inputs say,
    /// then clamps it inside the screen.
    pub fn update(&mut self, left: bool, right: bool, dt_ms: u32)
        requires
            old(self).wf(),
        ensures
            0 <= final(self).rect.x <= SCREEN_WIDTH - final(self).rect.w,
            *final(self) == old(self).steered(left, right, dt_ms),
            final(self).wf(),
    {
        let step: i64 = PADDLE_SPEED * dt_ms as i64;
        let x_move: i64 = if left && !right {
            -step
        } else if right && !left {
            step
        } else {
            0
        };
        self.rect.x = self.rect.x + x_move;
        if self.rect.x < 0 {
            self.rect.x = 0;
        }
        if self.rect.x > SCREEN_WIDTH - self.rect.w {
            self.rect.x = SCREEN_WIDTH - self.rect.w;
        }
    }

    /// Takes one life for a lost ball; says whether none is left afterwards.
    pub fn lose_life(&mut self) -> (out: bool)
        ensures
            out == (old(self).lives <= 1),
            final(self).lives == (if old(self).lives == 0 { 0 } else { old(self).lives - 1 }),
            final(self).rect == old(self).rect,
            final(self).c == old(self).c,
    {
        if self.lives > 0 {
            self.lives = self.lives - 1;
        }
        self.lives == 0
    }
}

#[derive(Clone, Copy, Debug)]
pub struct Ball {
    pub rect: Rect,
    pub c: Color,
    /// Direction of travel; each component is -1 or 1.
    pub vec: (i64, i64),
}

pub open spec fn unit(v: i64) -> bool {
    v == 1 || v == -1
}

impl Ball {
    /// The ball lies within `lim` of the origin and travels diagonally.
    pub open spec fn within(self, lim: int) -> bool {
        on_board(self.rect, lim) && unit(self.vec.0) && unit(self.vec.1)
    }

    pub open spec fn moved(self, dt_ms: u32) -> Ball {
        Ball {
            rect: Rect {
                x: (self.rect.x + shift(self.vec.0 as int, BALL_SPEED * dt_ms)) as i64,
                y: (self.rect.y + shift(self.vec.1 as int, BALL_SPEED * dt_ms)) as i64,
                w: self.rect.w,
                h: self.rect.h,
            },
            c: self.c,
            vec: self.vec,
        }
    }

    pub fn new(ballposx: i64, ballposy: i64) -> (r: Ball)
        ensures
            r.rect == (Rect { x: ballposx, y: ballposy, w: BALL_SIZE, h: BALL_SIZE }),
            r.c == Color::White,
            r.vec == (-1i64, 1i64),
    {
        Ball { rect: Rect::new(ballposx, ballposy, BALL_SIZE, BALL_SIZE), c: Color::White, vec: (-1, 1) }
    }

    /// Advances the ball along its direction for `dt_ms` milliseconds.
    pub fn update(&mut self, dt_ms: u32)
        requires
            old(self).within(REACH_LIMIT as int),
        ensures
            *final(self) == old(self).moved(dt_ms),
    {
        let step: i64 = BALL_SPEED * dt_ms as i64;
        let dx: i64 = if self.vec.0 < 0 { -step } else { step };
        let dy: i64 = if self.vec.1 < 0 { -step } else { step };
        self.rect.x = self.rect.x + dx;
        self.rect.y = self.rect.y + dy;
    }
}

#[derive(Clone, Copy, Debug, PartialEq, Eq, Structural)]
pub struct Block {
    pub rect: Rect,
    pub lives: u32,
}

impl Block {
    pub open spec fn after_hit(self) -> Block {
        Block { rect: self.rect, lives: if self.lives == 0 { 0 } else { (self.lives - 1) as u32 } }
    }

    /// The block after `k` hits.
    pub open spec fn after_hits(self, k: nat) -> Block
        decreases k,
    {
        if k == 0 {
            self
        } else {
            self.after_hits((k - 1) as nat).after_hit()
        }
    }

    pub fn new(pos_x: i64, pos_y: i64) -> (r: Block)
        ensures
            r == (Block { rect: Rect { x: pos_x, y: pos_y, w: BLOCK_W, h: BLOCK_H }, lives: BLOCK_LIVES }),
    {
        Block { rect: Rect::new(pos_x, pos_y, BLOCK_W, BLOCK_H), lives: BLOCK_LIVES }
    }

    /// Takes one life from the block, never going below zero.
    pub fn hit(&mut self)
        ensures
            *final(self) == old(self).after_hit(),
    {
        if self.lives > 0 {
            self.lives = self.lives - 1;
        }
    }

    /// Colour of the block: red while untouched, orange once hit.
    pub fn color(&self) -> (r: Color)
        ensures
            r == (if self.lives == 2 { Color::Red } else { Color::Orange }),
    {
        if self.lives == 2 {
            Color::Red
        } else {
            Color::Orange
        }
    }
}

/// A block's lives run down by one a hit and stop at zero: after `k` hits a
/// block that had `l` lives has `max(l - k, 0)`, in the same place.
pub proof fn lemma_lives_run_down(b: Block, k: nat)
    ensures
        b.after_hits(k).lives == (if b.lives >= k { b.lives - k } else { 0 }),
        b.after_hits(k).rect == b.rect,
    decreases k,
{
    if k > 0 {
        lemma_lives_run_down(b, (k - 1) as nat);
    }
}

} // verus!
