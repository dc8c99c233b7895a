//! A single shot fired by the player.

use crate::clock::{
    advance, countdown, duration_nanos, millis_to_nanos, restart, start, total, Countdown,
};
use rusty_time::Timer;
use std::time::Duration;
use vstd::prelude::*;

verus! {

/// Milliseconds a travelling laser takes to climb one row.
pub const TRAVEL_MILLIS: u64 = 60;

/// Milliseconds an explosion stays on the board.
pub const EXPLOSION_MILLIS: u64 = 300;

/// A laser: a board cell, whether it has exploded, and a countdown to its
/// next step (while travelling) or to its removal (once exploded).
pub struct Laser {
    pub x: usize,
    pub y: usize,
    pub exploded: bool,
    pub timer: Timer,
}

/// The mathematical content of a [`Laser`].
pub struct LaserView {
    pub x: int,
    pub y: int,
    pub exploded: bool,
    pub clock: Countdown,
}

impl LaserView {
    /// A laser that has just been fired from cell `(x, y)`.
    pub open spec fn fresh(x: int, y: int) -> LaserView {
        LaserView {
            x,
            y,
            exploded: false,
            clock: Countdown::armed(millis_to_nanos(TRAVEL_MILLIS)),
        }
    }

    /// The laser after `delta` nanoseconds: when the countdown runs out on a
    /// travelling laser it climbs one row, unless it is on the top row, and
    /// the countdown starts again. An exploded laser only counts down.
    pub open spec fn update(self, delta: nat) -> LaserView {
        let clock = self.clock.tick(delta);
        if clock.done && !self.exploded {
            LaserView {
                y: if self.y > 0 {
                    self.y - 1
                } else {
                    self.y
                },
                clock: clock.rearm(),
                ..self
            }
        } else {
            LaserView { clock, ..self }
        }
    }

    /// The laser after it has hit something.
    pub open spec fn explode(self) -> LaserView {
        LaserView {
            exploded: true,
            clock: Countdown::armed(millis_to_nanos(EXPLOSION_MILLIS)),
            ..self
        }
    }

    /// Whether the laser is to be taken off the board: its explosion is
    /// over, or it stands on the top row.
    pub open spec fn destroyed(self) -> bool {
        (self.exploded && self.clock.done) || self.y == 0
    }

    /// The countdown fits the laser's phase: a travelling laser counts rows
    /// and is never left run out, an exploded one counts its explosion.
    pub open spec fn wf(self) -> bool {
        &&& self.clock.wf()
        &&& self.clock.period == if self.exploded {
            millis_to_nanos(EXPLOSION_MILLIS)
        } else {
            millis_to_nanos(TRAVEL_MILLIS)
        }
        &&& !self.exploded ==> !self.clock.done
    }

    /// Whether the laser's cell lies on the board.
    pub open spec fn on_board(self) -> bool {
        0 <= self.x < crate::NUM_COLS && 0 <= self.y < crate::NUM_ROWS
    }
}

impl View for Laser {
    type V = LaserView;

    open spec fn view(&self) -> LaserView {
        LaserView {
            x: self.x as int,
            y: self.y as int,
            exploded: self.exploded,
            clock: countdown(self.timer),
        }
    }
}

/// The views of a sequence of lasers.
pub open spec fn shots_view(shots: Seq<Laser>) -> Seq<LaserView> {
    shots.map_values(|l: Laser| l@)
}

impl Laser {
    /// A travelling laser at cell `(x, y)`.
    pub fn new(x: usize, y: usize) -> (laser: Self)
        ensures
            laser@ == LaserView::fresh(x as int, y as int),
            laser@.wf(),
    {
        Self { x, y, exploded: false, timer: start(TRAVEL_MILLIS) }
    }

    /// Lets `d` pass. The laser moves at most one row, however long `d` is.
    pub fn update(&mut self, d: Duration)
        ensures
            final(self)@ == old(self)@.update(duration_nanos(d)),
            old(self)@.wf() ==> final(self)@.wf(),
    {
        let rang = advance(&mut self.timer, d);
        if rang && !self.exploded {
            if self.y > 0 {
                self.y -= 1;
            }
            restart(&mut self.timer);
        }
    }

    /// Turns the laser into an explosion where it stands.
    pub fn explode(&mut self)
        ensures
            final(self)@ == old(self)@.explode(),
            final(self)@.wf(),
    {
        self.exploded = true;
        self.timer = start(EXPLOSION_MILLIS);
    }

    /// Whether the laser is to be removed from the board.
    pub fn destroyed(&self) -> (gone: bool)
        ensures
            gone == self@.destroyed(),
    {
        (self.exploded && self.timer.finished()) || self.y == 0
    }
}

impl LaserView {
    /// The laser after one update for each entry of `deltas`, in order.
    pub open spec fn after(self, deltas: Seq<nat>) -> LaserView
        decreases deltas.len(),
    {
        if deltas.len() == 0 {
            self
        } else {
            self.after(deltas.drop_last()).update(deltas.last())
        }
    }
}

/// An update keeps a laser's countdown fitting its phase, and neither an
/// update nor an explosion takes a laser off the board.
pub proof fn lemma_laser_stays_valid(l: LaserView, delta: nat)
    requires
        l.wf(),
    ensures
        l.update(delta).wf(),
        l.on_board() ==> l.update(delta).on_board() && l.explode().on_board(),
{
}

/// However it is updated, a laser keeps its column and its phase and never
/// moves down; once exploded it does not move at all.
pub proof fn lemma_laser_never_descends(l: LaserView, deltas: Seq<nat>)
    ensures
        l.after(deltas).x == l.x,
        l.after(deltas).exploded == l.exploded,
        l.after(deltas).y <= l.y,
        l.y >= 0 ==> l.after(deltas).y >= 0,
        l.exploded ==> l.after(deltas).y == l.y,
    decreases deltas.len(),
{
    if deltas.len() > 0 {
        lemma_laser_never_descends(l, deltas.drop_last());
    }
}

/// A travelling laser stays where it is while the updates add up to less
/// than the time left on its countdown; the update that completes that time
/// moves it up by exactly one row (unless it is on the top row already) and
/// starts a new travel period.
pub proof fn lemma_laser_waits_then_climbs(l: LaserView, deltas: Seq<nat>, last: nat)
    requires
        l.wf(),
        !l.exploded,
        total(deltas) < l.clock.left,
    ensures
        l.after(deltas) == (LaserView {
            clock: Countdown { left: (l.clock.left - total(deltas)) as nat, ..l.clock },
            ..l
        }),
        total(deltas) + last < l.clock.left ==> l.after(deltas.push(last)).y == l.y,
        total(deltas) + last >= l.clock.left ==> l.after(deltas.push(last)) == (LaserView {
            y: if l.y > 0 {
                l.y - 1
            } else {
                l.y
            },
            clock: Countdown::armed(millis_to_nanos(TRAVEL_MILLIS)),
            ..l
        }),
    decreases deltas.len(),
{
    if deltas.len() > 0 {
        lemma_laser_waits_then_climbs(l, deltas.drop_last(), deltas.last());
    }
    assert(deltas.push(last).drop_last() == deltas);
    assert(l.after(deltas.push(last)) == l.after(deltas).update(last));
}

/// Updated once every travel period, a newly started travelling laser has
/// climbed one row per update until it reaches the top row.
pub proof fn lemma_laser_climbs_one_row_per_period(l: LaserView, n: nat)
    requires
        l.wf(),
        !l.exploded,
        l.clock.left == l.clock.period,
        l.y >= 0,
    ensures
        l.after(Seq::new(n, |i: int| millis_to_nanos(TRAVEL_MILLIS))) == (LaserView {
            y: if l.y >= n {
                l.y - n
            } else {
                0
            },
            ..l
        }),
    decreases n,
{
    let period = millis_to_nanos(TRAVEL_MILLIS);
    let deltas = Seq::new(n, |i: int| period);
    if n > 0 {
        lemma_laser_climbs_one_row_per_period(l, (n - 1) as nat);
        assert(deltas.drop_last() == Seq::new((n - 1) as nat, |i: int| period));
    }
}

/// After it explodes a laser stays in its cell, and its explosion is over
/// exactly when the updates since then add up to the explosion time.
pub proof fn lemma_explosion_lifetime(l: LaserView, deltas: Seq<nat>)
    ensures
        l.explode().after(deltas).x == l.x,
        l.explode().after(deltas).y == l.y,
        l.explode().after(deltas).exploded,
        l.explode().after(deltas).clock.done == (total(deltas) >= millis_to_nanos(
            EXPLOSION_MILLIS,
        )),
        l.explode().after(deltas).destroyed() == (total(deltas) >= millis_to_nanos(EXPLOSION_MILLIS)
            || l.y == 0),
{
    lemma_explosion_countdown(l.explode(), deltas);
}

/// The countdown of an explosion that has just begun, after some updates.
proof fn lemma_explosion_countdown(e: LaserView, deltas: Seq<nat>)
    requires
        e.exploded,
        e.clock == Countdown::armed(millis_to_nanos(EXPLOSION_MILLIS)),
    ensures
        e.after(deltas).x == e.x,
        e.after(deltas).y == e.y,
        e.after(deltas).exploded,
        e.after(deltas).clock.period == millis_to_nanos(EXPLOSION_MILLIS),
        e.after(deltas).clock.done == (total(deltas) >= millis_to_nanos(EXPLOSION_MILLIS)),
        e.after(deltas).clock.left == if total(deltas) >= millis_to_nanos(EXPLOSION_MILLIS) {
            0
        } else {
            millis_to_nanos(EXPLOSION_MILLIS) - total(deltas)
        },
    decreases deltas.len(),
{
    if deltas.len() > 0 {
        lemma_explosion_countdown(e, deltas.drop_last());
    }
}

} // verus!
