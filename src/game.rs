//! The game's state machine and the frame of play that drives it.
use vstd::prelude::*;
use crate::geometry::{Rect, intersects};
use crate::entities::{
    Ball, Block, Color, Player, on_board, unit, PADDLE_LIVES, PADDLE_X, PADDLE_Y, PADDLE_W, PADDLE_H, SCREEN_HEIGHT, FIELD_LIMIT, SIZE_LIMIT,
    REACH_LIMIT,
};
use crate::board::{bounced, off_walls, init_blocks, bounce, walls, on_screen, BLOCK_COLS, BLOCK_ROWS};

verus! {

/// Points earned for each block destroyed.
pub const POINTS_PER_BLOCK: u32 = 10;
/// Where a lost ball comes back.
pub const SPAWN_X: i64 = 400000;
pub const SPAWN_Y: i64 = 400000;

#[derive(Clone, Copy, Debug, PartialEq, Eq, Structural)]
pub enum GameState {
    Menu,
    Playing,
    Dead,
    Won,
}

/// What the player holds down during a frame.
#[derive(Clone, Copy, Debug, PartialEq, Eq, Structural)]
pub struct Input {
    pub left: bool,
    pub right: bool,
    /// The start / confirm key.
    pub confirm: bool,
}

/// What the host should do after a frame.
#[derive(Clone, Copy, Debug, PartialEq, Eq, Structural)]
pub enum Action {
    Continue,
    /// Leave the game, reporting an abnormal end.
    Exit,
}

/// Everything a session of play holds.
pub struct Game {
    pub state: GameState,
    pub player: Player,
    pub ball: Ball,
    pub blocks: Vec<Block>,
    pub score: u32,
}

/// A session of play as a mathematical value.
pub struct GameView {
    pub state: GameState,
    pub player: Player,
    pub ball: Ball,
    pub blocks: Seq<Block>,
    pub score: int,
}

impl View for Game {
    type V = GameView;

    open spec fn view(&self) -> GameView {
        GameView {
            state: self.state,
            player: self.player,
            ball: self.ball,
            blocks: self.blocks@,
            score: self.score as int,
        }
    }
}

/// The blocks that still have lives, in order.
pub open spec fn live_blocks(s: Seq<Block>) -> Seq<Block>
    decreases s.len(),
{
    if s.len() == 0 {
        s
    } else if s.last().lives != 0 {
        live_blocks(s.drop_last()).push(s.last())
    } else {
        live_blocks(s.drop_last())
    }
}

/// How many blocks have no lives left.
pub open spec fn zeros(s: Seq<Block>) -> nat
    decreases s.len(),
{
    if s.len() == 0 {
        0
    } else {
        zeros(s.drop_last()) + if s.last().lives == 0 { 1nat } else { 0nat }
    }
}

/// The ball resolved against each block in turn, and each block it met hit
/// once: the ball and the blocks afterwards.
pub open spec fn block_pass(b: Ball, s: Seq<Block>) -> (Ball, Seq<Block>)
    decreases s.len(),
{
    if s.len() == 0 {
        (b, s)
    } else {
        let before = block_pass(b, s.drop_last());
        let blk = s.last();
        let struck = if intersects(before.0.rect, blk.rect) { blk.after_hit() } else { blk };
        (bounced(before.0, blk.rect), before.1.push(struck))
    }
}

/// The ball after the walls and the paddle, moved for the frame.
pub open spec fn ball_in_flight(g: GameView, dt_ms: u32) -> Ball {
    bounced(off_walls(g.ball), g.player.rect).moved(dt_ms)
}

/// The ball and blocks after the blocks' pass of a frame of play.
pub open spec fn after_blocks(g: GameView, dt_ms: u32) -> (Ball, Seq<Block>) {
    block_pass(ball_in_flight(g, dt_ms), live_blocks(g.blocks))
}

/// The ball has fallen out at the bottom.
pub open spec fn dropped(b: Ball) -> bool {
    b.rect.y > SCREEN_HEIGHT
}

/// One frame of play: walls, paddle, ball motion, cleared blocks removed,
/// blocks hit and scored, an empty board won, a lost ball taken from
/// the lives (the one that takes the last life ends the game), then the
/// paddle steered.
pub open spec fn playing_frame(g: GameView, input: Input, dt_ms: u32) -> GameView {
    let pass = after_blocks(g, dt_ms);
    let b = pass.0;
    let blocks = pass.1;
    let lost = dropped(b);
    let state = if lost && g.player.lives <= 1 {
        GameState::Dead
    } else if blocks.len() == 0 {
        GameState::Won
    } else {
        GameState::Playing
    };
    let lives: u32 = if lost && g.player.lives > 0 { (g.player.lives - 1) as u32 } else { g.player.lives };
    let ball = if lost {
        Ball { rect: Rect { x: SPAWN_X, y: SPAWN_Y, w: b.rect.w, h: b.rect.h }, c: b.c, vec: b.vec }
    } else {
        b
    };
    let player = Player { rect: g.player.rect, c: g.player.c, lives };
    GameView {
        state,
        player: player.steered(input.left, input.right, dt_ms),
        ball,
        blocks,
        score: g.score + POINTS_PER_BLOCK * zeros(blocks),
    }
}

/// The session after one frame, and what the host should do.
pub open spec fn frame(g: GameView, input: Input, dt_ms: u32) -> (GameView, Action) {
    match g.state {
        GameState::Menu => {
            if input.confirm {
                (GameView { state: GameState::Playing, ..g }, Action::Continue)
            } else {
                (g, Action::Continue)
            }
        },
        GameState::Playing => (playing_frame(g, input, dt_ms), Action::Continue),
        _ => (g, if input.confirm { Action::Exit } else { Action::Continue }),
    }
}

/// A board on which every block has lives keeps all of them.
pub proof fn lemma_all_live(s: Seq<Block>)
    requires
        forall|i: int| 0 <= i < s.len() ==> s[i].lives > 0,
    ensures
        live_blocks(s) == s,
    decreases s.len(),
{
    if s.len() > 0 {
        lemma_all_live(s.drop_last());
        assert(s.drop_last().push(s.last()) =~= s);
    }
}

/// Every block is either standing or cleared.
pub proof fn lemma_live_split(s: Seq<Block>)
    ensures
        live_blocks(s).len() + zeros(s) == s.len(),
    decreases s.len(),
{
    if s.len() > 0 {
        lemma_live_split(s.drop_last());
    }
}

/// The standing blocks all have lives, and share whatever all the blocks share.
pub proof fn lemma_live_keeps(s: Seq<Block>, p: spec_fn(Block) -> bool)
    requires
        forall|i: int| 0 <= i < s.len() ==> p(s[i]),
    ensures
        forall|i: int| 0 <= i < live_blocks(s).len() ==> p(#[trigger] live_blocks(s)[i]) && live_blocks(s)[i].lives > 0,
    decreases s.len(),
{
    if s.len() > 0 {
        let rest = s.drop_last();
        assert forall|i: int| 0 <= i < rest.len() implies p(rest[i]) by {
            assert(rest[i] == s[i]);
        }
        lemma_live_keeps(rest, p);
        assert(p(s[s.len() - 1]));
        let prev = live_blocks(rest);
        let live = live_blocks(s);
        assert forall|i: int| 0 <= i < live.len() implies p(live[i]) && live[i].lives > 0 by {
            if s.last().lives != 0 {
                assert(live == prev.push(s.last()));
                if i < prev.len() {
                    assert(live[i] == prev[i]);
                }
            } else {
                assert(live == prev);
            }
        }
    }
}

/// The blocks' pass keeps every block in place and hits each at most once.
pub proof fn lemma_pass_hits_once(b: Ball, s: Seq<Block>)
    ensures
        block_pass(b, s).1.len() == s.len(),
        forall|i: int| 0 <= i < s.len() ==>
            (#[trigger] block_pass(b, s).1[i] == s[i] || block_pass(b, s).1[i] == s[i].after_hit()),
    decreases s.len(),
{
    if s.len() > 0 {
        lemma_pass_hits_once(b, s.drop_last());
        let out = block_pass(b, s).1;
        let prev = block_pass(b, s.drop_last()).1;
        assert forall|i: int| 0 <= i < s.len() implies
            (#[trigger] out[i] == s[i] || out[i] == s[i].after_hit()) by {
            if i < s.len() - 1 {
                assert(out[i] == prev[i]);
                assert(s.drop_last()[i] == s[i]);
            }
        }
    }
}

/// A block is scored once: a frame of play adds the points of exactly the
/// blocks it leaves without lives, each of which entered the frame with its
/// last life and lost it to a hit, and none of them is still standing when
/// the next frame starts scoring.
pub proof fn lemma_scored_once(g: GameView, input: Input, dt_ms: u32)
    requires
        g.state == GameState::Playing,
    ensures
        ({
            let live = live_blocks(g.blocks);
            let out = after_blocks(g, dt_ms).1;
            &&& frame(g, input, dt_ms).0.score == g.score + POINTS_PER_BLOCK * zeros(out)
            &&& frame(g, input, dt_ms).0.blocks == out
            &&& out.len() == live.len()
            &&& forall|i: int| 0 <= i < out.len() && (#[trigger] out[i]).lives == 0 ==>
                live[i].lives == 1 && out[i] == live[i].after_hit()
            &&& forall|j: int| 0 <= j < live_blocks(out).len() ==> (#[trigger] live_blocks(out)[j]).lives > 0
        }),
{
    let live = live_blocks(g.blocks);
    let out = after_blocks(g, dt_ms).1;
    lemma_live_keeps(g.blocks, |b: Block| true);
    lemma_pass_hits_once(ball_in_flight(g, dt_ms), live);
    lemma_live_keeps(out, |b: Block| true);
    assert forall|i: int| 0 <= i < out.len() && (#[trigger] out[i]).lives == 0 implies
        live[i].lives == 1 && out[i] == live[i].after_hit() by {
        assert(live[i].lives > 0);
    }
}

/// The game is won only once the board is empty, and in play an empty board
/// wins unless the same frame's lost ball ends the game. A frame of play keeps
/// the count of standing blocks less those it clears, so a board of N standing
/// blocks is won only in the frame after the N-th block is cleared.
pub proof fn lemma_won_only_when_cleared(g: GameView, input: Input, dt_ms: u32)
    ensures
        g.state != GameState::Won && frame(g, input, dt_ms).0.state == GameState::Won ==> {
            &&& g.state == GameState::Playing
            &&& frame(g, input, dt_ms).0.blocks.len() == 0
            &&& live_blocks(g.blocks).len() == 0
        },
        g.state == GameState::Playing && frame(g, input, dt_ms).0.blocks.len() == 0
            && !(dropped(after_blocks(g, dt_ms).0) && g.player.lives <= 1)
            ==> frame(g, input, dt_ms).0.state == GameState::Won,
        g.state == GameState::Playing ==> live_blocks(frame(g, input, dt_ms).0.blocks).len()
            + zeros(frame(g, input, dt_ms).0.blocks) == live_blocks(g.blocks).len(),
        g.state == GameState::Playing ==> frame(g, input, dt_ms).0.blocks.len() == live_blocks(g.blocks).len(),
{
    lemma_pass_hits_once(ball_in_flight(g, dt_ms), live_blocks(g.blocks));
    lemma_live_split(after_blocks(g, dt_ms).1);
}

/// A lost ball comes back at the spawn point with its size and heading kept;
/// it takes a life when one is left, and ends the game when it takes the last
/// one (or when none was left).
pub proof fn lemma_ball_drop(g: GameView, input: Input, dt_ms: u32)
    requires
        g.state == GameState::Playing,
        dropped(after_blocks(g, dt_ms).0),
    ensures
        frame(g, input, dt_ms).0.ball.rect.x == SPAWN_X,
        frame(g, input, dt_ms).0.ball.rect.y == SPAWN_Y,
        frame(g, input, dt_ms).0.ball.vec == after_blocks(g, dt_ms).0.vec,
        frame(g, input, dt_ms).0.player.lives == (if g.player.lives == 0 { 0 } else { g.player.lives - 1 }),
        frame(g, input, dt_ms).0.ball.rect.w == after_blocks(g, dt_ms).0.rect.w,
        frame(g, input, dt_ms).0.ball.rect.h == after_blocks(g, dt_ms).0.rect.h,
        (frame(g, input, dt_ms).0.state == GameState::Dead) == (g.player.lives <= 1),
{
}

/// The blocks that still have lives, in order.
pub fn remove_cleared(blocks: &Vec<Block>) -> (r: Vec<Block>)
    ensures
        r@ == live_blocks(blocks@),
{
    let mut out: Vec<Block> = Vec::new();
    let mut i: usize = 0;
    while i < blocks.len()
        invariant
            i <= blocks@.len(),
            out@ == live_blocks(blocks@.subrange(0, i as int)),
        decreases blocks@.len() - i,
    {
        let blk = blocks[i];
        proof {
            assert(blocks@.subrange(0, i + 1).drop_last() =~= blocks@.subrange(0, i as int));
        }
        if blk.lives != 0 {
            out.push(blk);
        }
        i = i + 1;
    }
    assert(blocks@.subrange(0, blocks@.len() as int) =~= blocks@);
    out
}

/// Resolves the ball against each block in turn, hitting each block it meets;
/// returns the blocks and the score with the points of each block cleared.
pub fn strike_blocks(bl: &mut Ball, blocks: &Vec<Block>, score: u32) -> (r: (Vec<Block>, u32))
    requires
        old(bl).within(REACH_LIMIT as int),
        forall|i: int| 0 <= i < blocks@.len() ==> on_board(#[trigger] blocks@[i].rect, FIELD_LIMIT as int),
        score + POINTS_PER_BLOCK * blocks@.len() <= u32::MAX,
    ensures
        (*final(bl), r.0@) == block_pass(*old(bl), blocks@),
        r.1 == score + POINTS_PER_BLOCK * zeros(r.0@),
        final(bl).within(REACH_LIMIT as int),
        r.0@.len() == blocks@.len(),
        forall|i: int| 0 <= i < blocks@.len() ==> (#[trigger] r.0@[i]).rect == blocks@[i].rect,
{
    let ghost b0 = *bl;
    let mut out: Vec<Block> = Vec::new();
    let mut total: u32 = score;
    let mut i: usize = 0;
    while i < blocks.len()
        invariant
            i <= blocks@.len(),
            forall|j: int| 0 <= j < blocks@.len() ==> on_board(#[trigger] blocks@[j].rect, FIELD_LIMIT as int),
            score + POINTS_PER_BLOCK * blocks@.len() <= u32::MAX,
            (*bl, out@) == block_pass(b0, blocks@.subrange(0, i as int)),
            total == score + POINTS_PER_BLOCK * zeros(out@),
            zeros(out@) <= i,
            bl.within(REACH_LIMIT as int),
            out@.len() == i,
            forall|j: int| 0 <= j < i ==> (#[trigger] out@[j]).rect == blocks@[j].rect,
        decreases blocks@.len() - i,
    {
        let mut blk = blocks[i];
        proof {
            assert(blocks@.subrange(0, i + 1).drop_last() =~= blocks@.subrange(0, i as int));
            assert(on_board(blocks@[i as int].rect, FIELD_LIMIT as int));
        }
        let met = bounce(bl, &blk.rect, Ghost(REACH_LIMIT as int));
        if met {
            blk.hit();
        }
        if blk.lives == 0 {
            total = total + POINTS_PER_BLOCK;
        }
        proof {
            assert(out@.push(blk).drop_last() =~= out@);
        }
        out.push(blk);
        i = i + 1;
    }
    assert(blocks@.subrange(0, blocks@.len() as int) =~= blocks@);
    (out, total)
}

impl Game {
    /// What every frame keeps: the paddle, the ball's shape and heading and
    /// the blocks lie on the board, and the score has room for every block
    /// still standing.
    pub open spec fn settled(self) -> bool {
        &&& self.player.wf()
        &&& unit(self.ball.vec.0) && unit(self.ball.vec.1)
        &&& 0 <= self.ball.rect.w <= SIZE_LIMIT && 0 <= self.ball.rect.h <= SIZE_LIMIT
        &&& forall|i: int| 0 <= i < self.blocks@.len() ==> on_board(#[trigger] self.blocks@[i].rect, FIELD_LIMIT as int)
        &&& self.score + POINTS_PER_BLOCK * live_blocks(self.blocks@).len() <= u32::MAX
    }

    /// A session that can be stepped: settled, with the ball on the board.
    pub open spec fn wf(self) -> bool {
        self.settled() && self.ball.within(FIELD_LIMIT as int)
    }

    /// A fresh session at the menu: three lives, no score, the full grid.
    pub fn new() -> (r: Game)
        ensures
            r.state == GameState::Menu,
            r.player.rect == (Rect { x: PADDLE_X, y: PADDLE_Y, w: PADDLE_W, h: PADDLE_H }),
            r.ball.rect == (Rect { x: SPAWN_X, y: SPAWN_Y, w: crate::entities::BALL_SIZE, h: crate::entities::BALL_SIZE }),
            r.ball.vec == (-1i64, 1i64),
            r.player.lives == PADDLE_LIVES,
            r.player.c == Color::Yellow,
            r.ball.c == Color::White,
            r.score == 0,
            r.blocks@.len() == BLOCK_COLS * BLOCK_ROWS,
            forall|i: int| 0 <= i < r.blocks@.len() ==> r.blocks@[i] == crate::board::grid_block(i),
            r.wf(),
    {
        let blocks = init_blocks();
        proof {
            assert forall|i: int| 0 <= i < blocks@.len() implies blocks@[i].lives > 0 by {
                assert(blocks@[i] == crate::board::grid_block(i));
            }
            lemma_all_live(blocks@);
        }
        Game {
            state: GameState::Menu,
            player: Player::new(),
            ball: Ball::new(SPAWN_X, SPAWN_Y),
            blocks,
            score: 0,
        }
    }

    /// Runs one frame of `dt_ms` milliseconds with the given input.
    pub fn step(&mut self, input: Input, dt_ms: u32) -> (r: Action)
        requires
            old(self).wf(),
        ensures
            (final(self)@, r) == frame(old(self)@, input, dt_ms),
            final(self).settled(),
    {
        match self.state {
            GameState::Menu => {
                if input.confirm {
                    self.state = GameState::Playing;
                }
                Action::Continue
            },
            GameState::Playing => {
                self.play_frame(input, dt_ms);
                Action::Continue
            },
            _ => {
                if input.confirm {
                    Action::Exit
                } else {
                    Action::Continue
                }
            },
        }
    }

    /// One frame of play.
    fn play_frame(&mut self, input: Input, dt_ms: u32)
        requires
            old(self).wf(),
            old(self).state == GameState::Playing,
        ensures
            final(self)@ == playing_frame(old(self)@, input, dt_ms),
            final(self).settled(),
    {
        let ghost g = self@;
        walls(&mut self.ball);
        bounce(&mut self.ball, &self.player.rect, Ghost((FIELD_LIMIT + SIZE_LIMIT) as int));
        self.ball.update(dt_ms);
        assert(self.ball == ball_in_flight(g, dt_ms));
        let live = remove_cleared(&self.blocks);
        proof {
            lemma_live_keeps(self.blocks@, |b: Block| on_board(b.rect, FIELD_LIMIT as int));
        }
        let (out, score) = strike_blocks(&mut self.ball, &live, self.score);
        proof {
            lemma_live_split(out@);
        }
        self.blocks = out;
        self.score = score;
        if self.blocks.len() == 0 {
            self.state = GameState::Won;
        }
        if self.ball.rect.y > SCREEN_HEIGHT {
            let none_left = self.player.lose_life();
            if none_left {
                self.state = GameState::Dead;
            }
            self.ball.rect.x = SPAWN_X;
            self.ball.rect.y = SPAWN_Y;
        }
        self.player.update(input.left, input.right, dt_ms);
    }

    /// Whether the ball is still on the board, so that the session can be
    /// stepped.
    pub fn ball_on_board(&self) -> (r: bool)
        ensures
            r == on_board(self.ball.rect, FIELD_LIMIT as int),
    {
        let b = self.ball.rect;
        -FIELD_LIMIT <= b.x && b.x <= FIELD_LIMIT && -FIELD_LIMIT <= b.y && b.y <= FIELD_LIMIT
            && 0 <= b.w && b.w <= SIZE_LIMIT && 0 <= b.h && b.h <= SIZE_LIMIT
    }
}

} // verus!
