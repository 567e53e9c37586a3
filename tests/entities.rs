use breakout::entities::{Ball, Block, Color, Player};
use breakout::geometry::{resolve_collision, Rect};

#[test]
fn test1() {
    let t = Ball::new(400000, 400000);

    assert_eq!(t.c, Color::White);
    assert_eq!(t.vec, (-1, 1));
}

#[test]
fn test2() {
    let q = Player::new();

    assert_eq!(q.lives, 3);
    assert_eq!(q.c, Color::Yellow);
}

#[test]
fn ball_moves_twenty_units_in_a_tenth_of_a_second() {
    let mut b = Ball::new(400000, 400000);
    b.update(100);
    assert_eq!(b.rect, Rect::new(380000, 420000, 30000, 30000));
    assert_eq!(b.vec, (-1, 1));
}

#[test]
fn ball_follows_its_heading() {
    let mut b = Ball::new(100000, 100000);
    b.vec = (1, -1);
    b.update(16);
    assert_eq!((b.rect.x, b.rect.y), (103200, 96800));
}

#[test]
fn paddle_moves_left_and_right() {
    let mut p = Player::new();
    p.update(true, false, 100);
    assert_eq!(p.rect.x, 300000);
    p.update(false, true, 50);
    assert_eq!(p.rect.x, 320000);
}

#[test]
fn paddle_ignores_both_or_neither_key() {
    let mut p = Player::new();
    p.update(true, true, 100);
    assert_eq!(p.rect.x, 340000);
    p.update(false, false, 100);
    assert_eq!(p.rect.x, 340000);
}

#[test]
fn paddle_is_clamped_to_the_screen() {
    let mut p = Player::new();
    p.update(true, false, 10000);
    assert_eq!(p.rect.x, 0);
    p.update(false, true, 4000000000);
    assert_eq!(p.rect.x, 800000 - 120000);
    assert_eq!(p.rect.y, 500000);
    assert_eq!(p.lives, 3);
}

#[test]
fn paddle_loses_lives_down_to_zero() {
    let mut p = Player::new();
    assert!(!p.lose_life());
    assert_eq!(p.lives, 2);
    assert!(!p.lose_life());
    assert_eq!(p.lives, 1);
    assert!(p.lose_life());
    assert_eq!(p.lives, 0);
    assert!(p.lose_life());
    assert_eq!(p.lives, 0);
}

#[test]
fn block_lives_run_down_and_stop_at_zero() {
    let mut b = Block::new(70000, 60000);
    assert_eq!(b.lives, 2);
    assert_eq!(b.color(), Color::Red);
    b.hit();
    assert_eq!(b.lives, 1);
    assert_eq!(b.color(), Color::Orange);
    b.hit();
    assert_eq!(b.lives, 0);
    b.hit();
    assert_eq!(b.lives, 0);
    assert_eq!(b.rect, Rect::new(70000, 60000, 100000, 40000));
}

#[test]
fn resolver_pushes_out_along_the_shallow_axis() {
    // The ball overlaps the bottom edge of the block: the common part is
    // wider than tall, so it is pushed down and sent downwards.
    let block = Rect::new(100000, 100000, 100000, 40000);
    let mut a = Rect::new(120000, 130000, 30000, 30000);
    let mut v = (1, -1);
    assert!(resolve_collision(&mut a, &mut v, &block));
    assert_eq!(a, Rect::new(120000, 140000, 30000, 30000));
    assert_eq!(v, (1, 1));
}

#[test]
fn resolver_pushes_out_sideways_when_deeper_than_wide() {
    let block = Rect::new(100000, 100000, 100000, 40000);
    let mut a = Rect::new(90000, 105000, 30000, 30000);
    let mut v = (1, 1);
    assert!(resolve_collision(&mut a, &mut v, &block));
    assert_eq!(a, Rect::new(70000, 105000, 30000, 30000));
    assert_eq!(v, (-1, 1));
}

#[test]
fn resolver_counts_touching_as_a_collision() {
    let wall = Rect::new(-5000, 0, 5000, 600000);
    let mut a = Rect::new(0, 100000, 30000, 30000);
    let mut v = (-1, 1);
    assert!(resolve_collision(&mut a, &mut v, &wall));
    assert_eq!(a, Rect::new(0, 100000, 30000, 30000));
    assert_eq!(v, (1, 1));
}

#[test]
fn resolver_treats_aligned_centres_as_positive() {
    let b = Rect::new(0, 0, 100, 100);
    let mut a = Rect::new(0, 0, 100, 100);
    let mut v = (3, 5);
    assert!(resolve_collision(&mut a, &mut v, &b));
    assert_eq!(a, Rect::new(-100, 0, 100, 100));
    assert_eq!(v, (-3, 5));
}

#[test]
fn resolver_leaves_apart_rects_alone() {
    let b = Rect::new(0, 0, 100, 100);
    let mut a = Rect::new(101, 50, 10, 10);
    let mut v = (-1, 1);
    assert!(!resolve_collision(&mut a, &mut v, &b));
    assert_eq!(a, Rect::new(101, 50, 10, 10));
    assert_eq!(v, (-1, 1));
}

#[test]
fn intersection_of_rects() {
    let a = Rect::new(0, 0, 100, 50);
    let b = Rect::new(60, 20, 100, 100);
    assert_eq!(a.intersect(&b), Some(Rect::new(60, 20, 40, 30)));
    assert_eq!(a.intersect(&Rect::new(100, 50, 5, 5)), Some(Rect::new(100, 50, 0, 0)));
    assert_eq!(a.intersect(&Rect::new(0, 51, 5, 5)), None);
}
