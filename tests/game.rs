use breakout::board::{init_blocks, left_wall, right_wall, top_wall, walls};
use breakout::entities::{Ball, Block};
use breakout::game::{remove_cleared, strike_blocks, Action, Game, GameState, Input};
use breakout::geometry::Rect;

fn idle() -> Input {
    Input { left: false, right: false, confirm: false }
}

fn confirm() -> Input {
    Input { left: false, right: false, confirm: true }
}

fn playing() -> Game {
    let mut g = Game::new();
    assert_eq!(g.step(confirm(), 0), Action::Continue);
    g
}

#[test]
fn grid_has_thirty_distinct_blocks() {
    let blocks = init_blocks();
    assert_eq!(blocks.len(), 30);
    assert_eq!(blocks[0].rect, Rect::new(70000, 60000, 100000, 40000));
    assert_eq!(blocks[7].rect, Rect::new(180000, 160000, 100000, 40000));
    assert_eq!(blocks[29].rect, Rect::new(620000, 260000, 100000, 40000));
    for i in 0..30 {
        assert_eq!(blocks[i].lives, 2);
        for j in 0..i {
            assert_ne!(blocks[i].rect, blocks[j].rect);
        }
    }
}

#[test]
fn walls_surround_the_screen_but_the_bottom() {
    assert_eq!(left_wall(), Rect::new(-5000, 0, 5000, 600000));
    assert_eq!(top_wall(), Rect::new(0, -5000, 800000, 5000));
    assert_eq!(right_wall(), Rect::new(800000, 0, 5000, 600000));
}

#[test]
fn ball_bounces_off_the_left_wall() {
    let mut b = Ball::new(-3000, 300000);
    walls(&mut b);
    assert_eq!(b.rect.x, 0);
    assert_eq!(b.vec, (1, 1));
}

#[test]
fn ball_bounces_off_the_top_wall() {
    let mut b = Ball::new(300000, -3000);
    b.vec = (1, -1);
    walls(&mut b);
    assert_eq!(b.rect.y, 0);
    assert_eq!(b.vec, (1, 1));
}

#[test]
fn start_from_menu_enters_play() {
    let mut g = Game::new();
    assert_eq!(g.state, GameState::Menu);
    assert_eq!(g.step(idle(), 16), Action::Continue);
    assert_eq!(g.state, GameState::Menu);
    assert_eq!(g.step(confirm(), 16), Action::Continue);
    assert_eq!(g.state, GameState::Playing);
    assert_eq!(g.player.lives, 3);
    assert_eq!(g.score, 0);
    assert_eq!(g.blocks.len(), 30);
    assert_eq!(g.ball.rect, Rect::new(400000, 400000, 30000, 30000));
}

#[test]
fn a_frame_moves_ball_and_paddle() {
    let mut g = playing();
    let input = Input { left: true, right: false, confirm: false };
    assert_eq!(g.step(input, 100), Action::Continue);
    assert_eq!((g.ball.rect.x, g.ball.rect.y), (380000, 420000));
    assert_eq!(g.player.rect.x, 300000);
    assert_eq!(g.state, GameState::Playing);
}

#[test]
fn destroying_every_block_wins() {
    let mut g = playing();
    g.blocks = vec![
        Block { rect: Rect::new(100000, 100000, 100000, 40000), lives: 1 },
        Block { rect: Rect::new(300000, 100000, 100000, 40000), lives: 1 },
        Block { rect: Rect::new(500000, 100000, 100000, 40000), lives: 1 },
    ];
    let n = g.blocks.len();
    for k in 0..n {
        let x = 100000 + 200000 * k as i64 + 30000;
        g.ball.rect.x = x;
        g.ball.rect.y = 130000;
        g.step(idle(), 0);
        assert_eq!(g.score, 10 * (k as u32 + 1));
        assert_eq!(g.state, GameState::Playing);
    }
    assert_eq!(g.blocks.len(), 1);
    g.ball.rect.x = 700000;
    g.ball.rect.y = 400000;
    g.step(idle(), 0);
    assert_eq!(g.blocks.len(), 0);
    assert_eq!(g.state, GameState::Won);
    assert_eq!(g.score, 30);
}

#[test]
fn a_block_scores_once() {
    let mut g = playing();
    g.blocks = vec![
        Block { rect: Rect::new(100000, 100000, 100000, 40000), lives: 2 },
        Block { rect: Rect::new(500000, 100000, 100000, 40000), lives: 2 },
    ];
    g.ball.rect.x = 130000;
    g.ball.rect.y = 130000;
    g.step(idle(), 0);
    assert_eq!(g.blocks[0].lives, 1);
    assert_eq!(g.score, 0);
    g.ball.rect.x = 130000;
    g.ball.rect.y = 130000;
    g.step(idle(), 0);
    assert_eq!(g.blocks[0].lives, 0);
    assert_eq!(g.score, 10);
    g.ball.rect.x = 130000;
    g.ball.rect.y = 130000;
    g.step(idle(), 0);
    assert_eq!(g.blocks.len(), 1);
    assert_eq!(g.score, 10);
    assert_eq!(g.state, GameState::Playing);
}

#[test]
fn lost_ball_takes_a_life_then_ends_the_game() {
    let mut g = playing();
    g.player.lives = 1;
    g.ball.rect.x = 100000;
    g.ball.rect.y = 610000;
    g.step(idle(), 0);
    assert_eq!(g.player.lives, 0);
    assert_eq!(g.state, GameState::Dead);
    assert_eq!((g.ball.rect.x, g.ball.rect.y), (400000, 400000));
}

#[test]
fn third_lost_ball_ends_a_fresh_game() {
    let mut g = playing();
    for k in 0..3u32 {
        assert_eq!(g.state, GameState::Playing);
        g.ball.rect.x = 100000;
        g.ball.rect.y = 610000;
        g.step(idle(), 0);
        assert_eq!(g.player.lives, 2 - k);
        assert_eq!((g.ball.rect.x, g.ball.rect.y), (400000, 400000));
        assert_eq!(g.ball.rect.w, 30000);
    }
    assert_eq!(g.state, GameState::Dead);
}

#[test]
fn lost_ball_keeps_its_heading() {
    let mut g = playing();
    g.ball.vec = (1, 1);
    g.ball.rect.x = 100000;
    g.ball.rect.y = 610000;
    g.step(idle(), 0);
    assert_eq!(g.player.lives, 2);
    assert_eq!(g.ball.vec, (1, 1));
}

#[test]
fn end_screens_wait_for_confirm_then_exit() {
    let mut g = Game::new();
    g.state = GameState::Dead;
    assert_eq!(g.step(idle(), 16), Action::Continue);
    assert_eq!(g.state, GameState::Dead);
    assert_eq!(g.step(confirm(), 16), Action::Exit);
    g.state = GameState::Won;
    assert_eq!(g.step(idle(), 16), Action::Continue);
    assert_eq!(g.step(confirm(), 16), Action::Exit);
    assert_eq!(g.state, GameState::Won);
}

#[test]
fn cleared_blocks_are_removed_in_order() {
    let a = Block { rect: Rect::new(0, 0, 10, 10), lives: 0 };
    let b = Block { rect: Rect::new(20, 0, 10, 10), lives: 2 };
    let c = Block { rect: Rect::new(40, 0, 10, 10), lives: 1 };
    let d = Block { rect: Rect::new(60, 0, 10, 10), lives: 0 };
    assert_eq!(remove_cleared(&vec![a, b, c, d]), vec![b, c]);
    assert_eq!(remove_cleared(&vec![]), vec![]);
}

#[test]
fn striking_hits_only_blocks_met() {
    let mut ball = Ball::new(20000, 20000);
    let blocks = vec![
        Block { rect: Rect::new(0, 0, 100000, 40000), lives: 1 },
        Block { rect: Rect::new(300000, 0, 100000, 40000), lives: 1 },
    ];
    let (out, score) = strike_blocks(&mut ball, &blocks, 5);
    assert_eq!(out[0].lives, 0);
    assert_eq!(out[1].lives, 1);
    assert_eq!(score, 15);
    assert_eq!(ball.rect.y, 40000);
    assert_eq!(ball.vec, (-1, 1));
}

#[test]
fn ball_far_off_the_board_is_noticed() {
    let mut g = Game::new();
    assert!(g.ball_on_board());
    g.ball.rect.x = i64::MAX;
    assert!(!g.ball_on_board());
}
