use invaders::player::{Player, MAX_SHOTS};
use invaders::{NUM_COLS, NUM_ROWS};
use std::time::Duration;

fn ms(n: u64) -> Duration {
    Duration::from_millis(n)
}

#[test]
fn new_player_stands_in_the_middle_of_the_bottom_row() {
    let player = Player::new();
    assert_eq!(player.x, 20);
    assert_eq!(player.y, 19);
    assert_eq!(player.x, NUM_COLS / 2);
    assert_eq!(player.y, NUM_ROWS - 1);
    assert!(player.shots.is_empty());
}

#[test]
fn player_stops_at_the_left_wall() {
    let mut player = Player::new();
    for step in 0..20 {
        assert!(player.go_to_left());
        assert_eq!(player.x, 19 - step);
    }
    assert_eq!(player.x, 0);
    assert!(!player.go_to_left());
    assert_eq!(player.x, 0);
}

#[test]
fn player_stops_at_the_right_wall() {
    let mut player = Player::new();
    for step in 0..19 {
        assert!(player.go_to_right());
        assert_eq!(player.x, 21 + step);
    }
    assert_eq!(player.x, NUM_COLS - 1);
    assert!(!player.go_to_right());
    assert_eq!(player.x, 39);
}

#[test]
fn player_stays_on_the_board_whatever_the_moves() {
    let mut player = Player::new();
    let mut seed: u32 = 12345;
    for _ in 0..2000 {
        seed = seed.wrapping_mul(1103515245).wrapping_add(12345);
        let before = player.x;
        let moved = if (seed >> 16) & 1 == 0 { player.go_to_left() } else { player.go_to_right() };
        assert!(player.x < NUM_COLS);
        assert_eq!(moved, player.x != before);
        assert_eq!(player.y, NUM_ROWS - 1);
    }
}

#[test]
fn shot_cap() {
    let mut player = Player::new();
    assert!(player.shoot());
    assert!(player.shoot());
    assert!(!player.shoot());
    assert_eq!(player.shots.len(), 2);
    assert_eq!(player.shots.len(), MAX_SHOTS);
}

#[test]
fn shot_starts_in_the_cell_above_the_ship() {
    let mut player = Player::new();
    player.go_to_left();
    assert!(player.shoot());
    assert_eq!(player.shots.len(), 1);
    assert_eq!((player.shots[0].x, player.shots[0].y), (19, 18));
    assert!(!player.shots[0].exploded);
}

#[test]
fn update_moves_every_shot() {
    let mut player = Player::new();
    player.shoot();
    player.update(ms(60));
    player.go_to_right();
    player.shoot();
    player.update(ms(60));
    assert_eq!(player.shots.len(), 2);
    assert_eq!((player.shots[0].x, player.shots[0].y), (20, 16));
    assert_eq!((player.shots[1].x, player.shots[1].y), (21, 17));
}

#[test]
fn update_drops_a_shot_that_reaches_the_top() {
    let mut player = Player::new();
    player.shoot();
    for _ in 0..17 {
        player.update(ms(60));
    }
    assert_eq!(player.shots.len(), 1);
    assert_eq!(player.shots[0].y, 1);
    player.update(ms(60));
    assert!(player.shots.is_empty());
    assert!(player.shoot());
}

#[test]
fn update_drops_an_explosion_that_is_over_and_keeps_the_order() {
    let mut player = Player::new();
    player.shoot();
    player.update(ms(60));
    player.go_to_left();
    player.shoot();
    player.shots[0].explode();
    player.update(ms(60));
    assert_eq!(player.shots.len(), 2);
    assert!(player.shots[0].exploded);
    assert_eq!((player.shots[0].x, player.shots[0].y), (20, 17));
    assert_eq!((player.shots[1].x, player.shots[1].y), (19, 17));
    player.update(ms(240));
    assert_eq!(player.shots.len(), 1);
    assert!(!player.shots[0].exploded);
    assert_eq!((player.shots[0].x, player.shots[0].y), (19, 16));
}

#[test]
fn shot_cap_holds_through_play() {
    let mut player = Player::new();
    let mut fired = 0;
    for round in 0..400 {
        if round % 3 == 0 && player.shoot() {
            fired += 1;
        }
        player.update(ms(16));
        assert!(player.shots.len() <= MAX_SHOTS);
    }
    assert!(fired > 2);
}
