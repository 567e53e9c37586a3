//! The block grid and the walls around the play area.
use vstd::prelude::*;
use crate::geometry::{Rect, intersects, resolved, resolve_collision};
use crate::entities::{Ball, Block, on_board, BLOCK_W, BLOCK_H, BLOCK_LIVES, SCREEN_WIDTH, SCREEN_HEIGHT, FIELD_LIMIT, SIZE_LIMIT, REACH_LIMIT};

verus! {

pub const BLOCK_COLS: u32 = 6;
pub const BLOCK_ROWS: u32 = 5;
/// Distance between the corners of neighbouring grid cells.
pub const CELL_W: i64 = 110000;
pub const CELL_H: i64 = 50000;
/// Corner of the grid: the grid is centred horizontally.
pub const GRID_X: i64 = 70000;
pub const GRID_Y: i64 = 60000;
pub const WALL_THICKNESS: i64 = 5000;

/// The `i`-th block laid out by [`init_blocks`]: column `i % 6`, row `i % 5`
/// (as 6 and 5 are coprime, the 30 blocks fill every cell once).
pub open spec fn grid_block(i: int) -> Block {
    Block {
        rect: Rect {
            x: (GRID_X + (i % BLOCK_COLS as int) * CELL_W) as i64,
            y: (GRID_Y + (i % BLOCK_ROWS as int) * CELL_H) as i64,
            w: BLOCK_W,
            h: BLOCK_H,
        },
        lives: BLOCK_LIVES,
    }
}

/// The rectangle lies within the screen.
pub open spec fn on_screen(r: Rect) -> bool {
    &&& 0 <= r.x && r.x + r.w <= SCREEN_WIDTH
    &&& 0 <= r.y && r.y + r.h <= SCREEN_HEIGHT
    &&& 0 <= r.w && 0 <= r.h
}

/// Lays out the full grid of fresh blocks.
pub fn init_blocks() -> (r: Vec<Block>)
    ensures
        r@.len() == BLOCK_COLS * BLOCK_ROWS,
        forall|i: int| 0 <= i < r@.len() ==> r@[i] == grid_block(i),
        forall|i: int| 0 <= i < r@.len() ==> on_screen(r@[i].rect),
{
    let mut blocks: Vec<Block> = Vec::new();
    let n: u32 = BLOCK_COLS * BLOCK_ROWS;
    let mut i: u32 = 0;
    while i < n
        invariant
            n == BLOCK_COLS * BLOCK_ROWS,
            i <= n,
            blocks@.len() == i,
            forall|j: int| 0 <= j < i ==> blocks@[j] == grid_block(j),
            forall|j: int| 0 <= j < i ==> on_screen(blocks@[j].rect),
        decreases n - i,
    {
        let col: i64 = (i % BLOCK_COLS) as i64;
        let row: i64 = (i % BLOCK_ROWS) as i64;
        let posx: i64 = GRID_X + col * CELL_W;
        let posy: i64 = GRID_Y + row * CELL_H;
        let obstacle = Block::new(posx, posy);
        blocks.push(obstacle);
        i = i + 1;
    }
    blocks
}

pub open spec fn left_wall_rect() -> Rect {
    Rect { x: (0 - WALL_THICKNESS) as i64, y: 0, w: WALL_THICKNESS, h: SCREEN_HEIGHT }
}

pub open spec fn top_wall_rect() -> Rect {
    Rect { x: 0, y: (0 - WALL_THICKNESS) as i64, w: SCREEN_WIDTH, h: WALL_THICKNESS }
}

pub open spec fn right_wall_rect() -> Rect {
    Rect { x: SCREEN_WIDTH, y: 0, w: WALL_THICKNESS, h: SCREEN_HEIGHT }
}

pub fn left_wall() -> (r: Rect)
    ensures
        r == left_wall_rect(),
{
    Rect::new(-WALL_THICKNESS, 0, WALL_THICKNESS, SCREEN_HEIGHT)
}

pub fn top_wall() -> (r: Rect)
    ensures
        r == top_wall_rect(),
{
    Rect::new(0, -WALL_THICKNESS, SCREEN_WIDTH, WALL_THICKNESS)
}

pub fn right_wall() -> (r: Rect)
    ensures
        r == right_wall_rect(),
{
    Rect::new(SCREEN_WIDTH, 0, WALL_THICKNESS, SCREEN_HEIGHT)
}

/// The ball after being resolved against the obstacle `r`.
pub open spec fn bounced(b: Ball, r: Rect) -> Ball {
    Ball { rect: resolved(b.rect, b.vec, r).0, c: b.c, vec: resolved(b.rect, b.vec, r).1 }
}

/// The ball after being resolved against the left, top and right walls in turn.
pub open spec fn off_walls(b: Ball) -> Ball {
    bounced(
        bounced(
            bounced(b, left_wall_rect()),
            top_wall_rect(),
        ),
        right_wall_rect(),
    )
}

/// Resolves the ball against an obstacle on the board; says whether they met.
/// A ball within `lim` stays within it.
pub(crate) fn bounce(bl: &mut Ball, r: &Rect, Ghost(lim): Ghost<int>) -> (hit: bool)
    requires
        FIELD_LIMIT + SIZE_LIMIT <= lim <= REACH_LIMIT,
        old(bl).within(lim),
        on_board(*r, FIELD_LIMIT as int),
    ensures
        hit == intersects(old(bl).rect, *r),
        *final(bl) == bounced(*old(bl), *r),
        final(bl).within(lim),
{
    resolve_collision(&mut bl.rect, &mut bl.vec, r)
}

/// Resolves the ball against the left, top and right walls; there is no
/// bottom wall, as a ball leaving at the bottom is lost.
pub fn walls(bl: &mut Ball)
    requires
        old(bl).within(FIELD_LIMIT + SIZE_LIMIT),
    ensures
        *final(bl) == off_walls(*old(bl)),
        final(bl).within(FIELD_LIMIT + SIZE_LIMIT),
{
    let lim = Ghost((FIELD_LIMIT + SIZE_LIMIT) as int);
    let l = left_wall();
    bounce(bl, &l, lim);
    let t = top_wall();
    bounce(bl, &t, lim);
    let r = right_wall();
    bounce(bl, &r, lim);
}

} // verus!
