use invaders::clock::{advance, restart, start};
use std::time::Duration;

fn ms(n: u64) -> Duration {
    Duration::from_millis(n)
}

#[test]
fn started_timer_has_its_whole_period_left() {
    let timer = start(60);
    assert_eq!(timer.duration(), ms(60));
    assert_eq!(timer.remaining(), ms(60));
    assert!(!timer.finished());
}

#[test]
fn timer_counts_down_and_stops_at_zero() {
    let mut timer = start(500);
    assert!(!advance(&mut timer, ms(300)));
    assert_eq!(timer.remaining(), ms(200));
    assert!(!advance(&mut timer, Duration::from_nanos(199_999_999)));
    assert_eq!(timer.remaining(), Duration::from_nanos(1));
    assert!(advance(&mut timer, ms(300)));
    assert_eq!(timer.remaining(), Duration::ZERO);
    assert!(timer.finished());
    assert_eq!(timer.duration(), ms(500));
}

#[test]
fn timer_runs_out_when_exactly_nothing_is_left() {
    let mut timer = start(500);
    assert!(advance(&mut timer, ms(500)));
    assert!(timer.finished());
}

#[test]
fn timer_that_has_run_out_stays_as_it_is() {
    let mut timer = start(10);
    assert!(advance(&mut timer, ms(10)));
    assert!(advance(&mut timer, ms(10)));
    assert!(advance(&mut timer, Duration::ZERO));
    assert_eq!(timer.remaining(), Duration::ZERO);
    assert_eq!(timer.duration(), ms(10));
}

#[test]
fn restarted_timer_runs_its_period_again() {
    let mut timer = start(300);
    advance(&mut timer, ms(120));
    restart(&mut timer);
    assert_eq!(timer.remaining(), ms(300));
    assert!(!timer.finished());
    assert!(advance(&mut timer, ms(400)));
    restart(&mut timer);
    assert_eq!(timer.remaining(), ms(300));
    assert_eq!(timer.duration(), ms(300));
    assert!(!timer.finished());
    assert!(!advance(&mut timer, ms(299)));
    assert!(advance(&mut timer, ms(1)));
}

#[test]
fn timer_without_a_period() {
    let mut timer = start(0);
    assert!(!timer.finished());
    assert!(advance(&mut timer, Duration::ZERO));
    restart(&mut timer);
    assert!(!timer.finished());
    assert_eq!(timer.remaining(), Duration::ZERO);
    // a period cut to nothing while time was left: the restart ends the timer at once
    let mut cut = start(5);
    cut.set_duration(Duration::ZERO);
    restart(&mut cut);
    assert!(cut.finished());
    assert_eq!(cut.remaining(), Duration::ZERO);
}
