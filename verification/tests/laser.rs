use invaders::laser::Laser;
use std::time::Duration;

fn ms(n: u64) -> Duration {
    Duration::from_millis(n)
}

#[test]
fn new_laser_travels_from_its_cell() {
    let laser = Laser::new(7, 12);
    assert_eq!(laser.x, 7);
    assert_eq!(laser.y, 12);
    assert!(!laser.exploded);
    assert!(!laser.destroyed());
}

#[test]
fn laser_climbs_one_row_per_travel_period() {
    let mut laser = Laser::new(5, 18);
    laser.update(ms(60));
    assert_eq!((laser.x, laser.y), (5, 17));
    laser.update(ms(60));
    assert_eq!((laser.x, laser.y), (5, 16));
    for _ in 0..10 {
        laser.update(ms(60));
    }
    assert_eq!((laser.x, laser.y), (5, 6));
}

#[test]
fn laser_waits_until_the_period_is_complete() {
    let mut laser = Laser::new(5, 18);
    laser.update(ms(59));
    assert_eq!(laser.y, 18);
    laser.update(ms(1));
    assert_eq!(laser.y, 17);
}

#[test]
fn laser_adds_up_short_updates() {
    let mut laser = Laser::new(5, 18);
    for _ in 0..3 {
        laser.update(ms(16));
        assert_eq!(laser.y, 18);
    }
    laser.update(ms(16));
    assert_eq!(laser.y, 17);
    // the four milliseconds beyond the period are not carried over
    for _ in 0..3 {
        laser.update(ms(16));
        assert_eq!(laser.y, 17);
    }
    laser.update(ms(16));
    assert_eq!(laser.y, 16);
}

#[test]
fn laser_moves_one_row_however_long_the_update() {
    let mut laser = Laser::new(5, 18);
    laser.update(Duration::from_secs(10));
    assert_eq!(laser.y, 17);
}

#[test]
fn laser_does_not_move_without_time() {
    let mut laser = Laser::new(5, 18);
    laser.update(Duration::ZERO);
    assert_eq!(laser.y, 18);
    assert!(!laser.destroyed());
}

#[test]
fn laser_on_the_top_row_is_destroyed_without_exploding() {
    let mut laser = Laser::new(3, 1);
    assert!(!laser.destroyed());
    laser.update(ms(60));
    assert_eq!(laser.y, 0);
    assert!(!laser.exploded);
    assert!(laser.destroyed());
    laser.update(ms(60));
    assert_eq!(laser.y, 0);
    assert!(Laser::new(3, 0).destroyed());
}

#[test]
fn explosion_lasts_one_explosion_period() {
    let mut laser = Laser::new(9, 4);
    laser.update(ms(30));
    laser.explode();
    assert!(laser.exploded);
    assert!(!laser.destroyed());
    laser.update(ms(299));
    assert!(!laser.destroyed());
    laser.update(ms(1));
    assert!(laser.destroyed());
    assert_eq!((laser.x, laser.y), (9, 4));
}

#[test]
fn explosion_adds_up_short_updates() {
    let mut laser = Laser::new(9, 4);
    laser.explode();
    for _ in 0..18 {
        laser.update(ms(16));
        assert!(!laser.destroyed());
    }
    laser.update(ms(16));
    assert!(laser.destroyed());
}

#[test]
fn exploded_laser_never_moves() {
    let mut laser = Laser::new(9, 4);
    laser.explode();
    for _ in 0..20 {
        laser.update(ms(60));
        assert_eq!((laser.x, laser.y), (9, 4));
    }
    assert!(laser.destroyed());
}

#[test]
fn exploding_again_starts_the_explosion_again() {
    let mut laser = Laser::new(9, 4);
    laser.explode();
    laser.update(ms(200));
    laser.explode();
    laser.update(ms(200));
    assert!(!laser.destroyed());
    laser.update(ms(100));
    assert!(laser.destroyed());
}
