//! The enemy fleet: a grid of invaders that sweeps across the board and
//! comes down one row whenever it meets a wall.

use crate::clock::{
    advance, countdown, duration_nanos, millis_to_nanos, restart, start, total, Countdown,
};
use crate::laser::{shots_view, Laser, LaserView};
use crate::{NUM_COLS, NUM_ROWS};
use rusty_time::Timer;
use std::time::Duration;
use vstd::prelude::*;

verus! {

/// Milliseconds between two moves of the fleet.
pub const STEP_MILLIS: u64 = 500;

/// Leftmost column of a new fleet.
pub const FLEET_LEFT: usize = 5;

/// Number of columns of a new fleet.
pub const FLEET_COLS: usize = 30;

/// Number of rows of a new fleet.
pub const FLEET_ROWS: usize = 3;

/// One invader.
pub struct Enemy {
    pub x: usize,
    pub y: usize,
    pub alive: bool,
}

/// The mathematical content of an [`Enemy`].
pub struct EnemyView {
    pub x: int,
    pub y: int,
    pub alive: bool,
}

impl View for Enemy {
    type V = EnemyView;

    open spec fn view(&self) -> EnemyView {
        EnemyView { x: self.x as int, y: self.y as int, alive: self.alive }
    }
}

/// The way the fleet is sweeping.
#[derive(Clone, Copy, Debug, PartialEq, Eq)]
pub enum Direction {
    Right,
    Left,
}

impl Direction {
    /// The change of column that one move in this direction makes.
    pub open spec fn dx(self) -> int {
        match self {
            Direction::Right => 1,
            Direction::Left => -1,
        }
    }

    /// The opposite direction, as a specification.
    pub open spec fn flip(self) -> Direction {
        match self {
            Direction::Right => Direction::Left,
            Direction::Left => Direction::Right,
        }
    }

    /// The opposite direction.
    pub fn flipped(self) -> (other: Direction)
        ensures
            other == self.flip(),
            other.dx() == -self.dx(),
    {
        match self {
            Direction::Right => Direction::Left,
            Direction::Left => Direction::Right,
        }
    }
}

impl EnemyView {
    /// Whether the wall stops this invader from moving in direction `d`:
    /// it is alive and its next column would lie off the board.
    pub open spec fn stopped(self, d: Direction) -> bool {
        self.alive && !(0 <= self.x + d.dx() < NUM_COLS)
    }

    /// The invader after the fleet has moved sideways: the living move, the
    /// dead stay where they fell.
    pub open spec fn slide(self, d: Direction) -> EnemyView {
        if self.alive {
            EnemyView { x: self.x + d.dx(), ..self }
        } else {
            self
        }
    }

    /// The invader after the fleet has come down a row.
    pub open spec fn descend(self) -> EnemyView {
        if self.alive {
            EnemyView { y: self.y + 1, ..self }
        } else {
            self
        }
    }

    /// Whether the invader stands in cell `(x, y)`.
    pub open spec fn at(self, x: int, y: int) -> bool {
        self.x == x && self.y == y
    }
}

/// The whole fleet with its step timer and its direction.
pub struct Enemies {
    pub army: Vec<Enemy>,
    pub move_timer: Timer,
    pub direction: Direction,
}

/// The mathematical content of [`Enemies`].
pub struct FleetView {
    pub army: Seq<EnemyView>,
    pub clock: Countdown,
    pub direction: Direction,
}

/// The views of a sequence of invaders.
pub open spec fn army_view(army: Seq<Enemy>) -> Seq<EnemyView> {
    army.map_values(|e: Enemy| e@)
}

impl View for Enemies {
    type V = FleetView;

    open spec fn view(&self) -> FleetView {
        FleetView {
            army: army_view(self.army@),
            clock: countdown(self.move_timer),
            direction: self.direction,
        }
    }
}

impl FleetView {
    /// A new fleet: thirty columns of three invaders, listed column by
    /// column from the left and from the top row down, all alive, about to
    /// sweep right.
    pub open spec fn fresh() -> FleetView {
        FleetView {
            army: Seq::new(
                (FLEET_COLS * FLEET_ROWS) as nat,
                |i: int|
                    EnemyView {
                        x: FLEET_LEFT + i / (FLEET_ROWS as int),
                        y: i % (FLEET_ROWS as int),
                        alive: true,
                    },
            ),
            clock: Countdown::armed(millis_to_nanos(STEP_MILLIS)),
            direction: Direction::Right,
        }
    }

    /// Whether a wall stops the fleet: some living invader cannot take the
    /// next sideways step.
    pub open spec fn blocked(self) -> bool {
        exists|i: int| 0 <= i < self.army.len() && (#[trigger] self.army[i]).stopped(self.direction)
    }

    /// The fleet after `delta` nanoseconds. When the step countdown runs
    /// out, a blocked fleet turns round and comes down one row without
    /// moving sideways, any other fleet moves one column in its direction;
    /// either way the countdown starts again.
    pub open spec fn update(self, delta: nat) -> FleetView {
        let clock = self.clock.tick(delta);
        if !clock.done {
            FleetView { clock, ..self }
        } else if self.blocked() {
            FleetView {
                army: self.army.map_values(|e: EnemyView| e.descend()),
                clock: clock.rearm(),
                direction: self.direction.flip(),
            }
        } else {
            FleetView {
                army: self.army.map_values(|e: EnemyView| e.slide(self.direction)),
                clock: clock.rearm(),
                direction: self.direction,
            }
        }
    }

    /// Whether no invader is alive.
    pub open spec fn all_dead(self) -> bool {
        forall|i: int| 0 <= i < self.army.len() ==> !(#[trigger] self.army[i]).alive
    }

    /// Whether some living invader has come down to the bottom row.
    pub open spec fn reached_bottom(self) -> bool {
        exists|i: int|
            0 <= i < self.army.len() && (#[trigger] self.army[i]).alive && self.army[i].y
                >= NUM_ROWS - 1
    }

    /// Whether every living invader can still come down a row without its
    /// row number leaving the machine's range.
    pub open spec fn can_descend(self) -> bool {
        forall|i: int|
            0 <= i < self.army.len() && (#[trigger] self.army[i]).alive ==> self.army[i].y
                < usize::MAX
    }

    /// Whether every living invader stands on the board.
    pub open spec fn on_board(self) -> bool {
        forall|i: int|
            0 <= i < self.army.len() && (#[trigger] self.army[i]).alive ==> 0 <= self.army[i].x
                < NUM_COLS && 0 <= self.army[i].y < NUM_ROWS
    }
}

/// Whether one of the first `n` invaders of `army` is alive and stands in
/// cell `(x, y)`.
pub open spec fn guarded(army: Seq<EnemyView>, n: int, x: int, y: int) -> bool {
    exists|j: int| 0 <= j < n && j < army.len() && (#[trigger] army[j]).alive && army[j].at(x, y)
}

/// Whether invader `n` of `army` is alive and no living invader listed
/// before it stands in its cell.
pub open spec fn first_in_cell(army: Seq<EnemyView>, n: int) -> bool {
    army[n].alive && !guarded(army, n, army[n].x, army[n].y)
}

/// Whether a shot that has not exploded stands in cell `(x, y)`.
pub open spec fn targeted(shots: Seq<LaserView>, x: int, y: int) -> bool {
    exists|k: int|
        0 <= k < shots.len() && !(#[trigger] shots[k]).exploded && shots[k].x == x && shots[k].y
            == y
}

/// Whether `shot` strikes one of the first `n` invaders of `army`: it has
/// not exploded and shares its cell with a living one of them.
pub open spec fn struck(army: Seq<EnemyView>, n: int, shot: LaserView) -> bool {
    !shot.exploded && guarded(army, n, shot.x, shot.y)
}

/// The shot after its collisions with the first `n` invaders of `army` are
/// resolved: exploded where it stands if it strikes one of them.
pub open spec fn shot_after(army: Seq<EnemyView>, n: int, shot: LaserView) -> LaserView {
    if struck(army, n, shot) {
        shot.explode()
    } else {
        shot
    }
}

/// How many of the first `m` shots strike one of the first `n` invaders.
pub open spec fn count_struck(army: Seq<EnemyView>, n: int, shots: Seq<LaserView>, m: int) -> nat
    decreases m,
{
    if m <= 0 {
        0
    } else {
        count_struck(army, n, shots, m - 1) + if struck(army, n, shots[m - 1]) {
            1nat
        } else {
            0nat
        }
    }
}

impl FleetView {
    /// Whether invader `i` falls to `shots`: it is alive, a shot that has
    /// not exploded stands in its cell, and no living invader listed before
    /// it stands there too (that one takes the shots instead).
    pub open spec fn falls(self, shots: Seq<LaserView>, i: int) -> bool {
        first_in_cell(self.army, i) && targeted(shots, self.army[i].x, self.army[i].y)
    }

    /// The fleet after its collisions with `shots` are resolved: the
    /// invaders that fall are dead, nothing else changes.
    pub open spec fn hit_by(self, shots: Seq<LaserView>) -> FleetView {
        FleetView {
            army: Seq::new(
                self.army.len(),
                |i: int|
                    if self.falls(shots, i) {
                        EnemyView { alive: false, ..self.army[i] }
                    } else {
                        self.army[i]
                    },
            ),
            ..self
        }
    }

    /// The shots after their collisions with the fleet are resolved: each
    /// shot that strikes an invader has exploded, the others are untouched.
    pub open spec fn shots_after(self, shots: Seq<LaserView>) -> Seq<LaserView> {
        Seq::new(shots.len(), |k: int| shot_after(self.army, self.army.len() as int, shots[k]))
    }

    /// The number of invaders that fall to `shots`, each counted once
    /// however many shots stand in its cell.
    pub open spec fn kills(self, shots: Seq<LaserView>) -> nat {
        count_fallen(self, shots, self.army.len() as int)
    }

    /// The number of shots that strike an invader.
    pub open spec fn hits(self, shots: Seq<LaserView>) -> nat {
        count_struck(self.army, self.army.len() as int, shots, shots.len() as int)
    }
}

/// How many of the first `n` invaders fall to `shots`.
pub open spec fn count_fallen(f: FleetView, shots: Seq<LaserView>, n: int) -> nat
    decreases n,
{
    if n <= 0 {
        0
    } else {
        count_fallen(f, shots, n - 1) + if f.falls(shots, n - 1) {
            1nat
        } else {
            0nat
        }
    }
}

/// Whether one of the first `m` shots has not exploded and stands in `(x, y)`.
pub open spec fn targeted_among(shots: Seq<LaserView>, m: int, x: int, y: int) -> bool {
    exists|k: int|
        0 <= k < m && k < shots.len() && !(#[trigger] shots[k]).exploded && shots[k].x == x
            && shots[k].y == y
}

/// The invaders that can guard a cell grow by one with each invader counted.
proof fn lemma_guarded_step(army: Seq<EnemyView>, n: int, x: int, y: int)
    requires
        0 <= n < army.len(),
    ensures
        guarded(army, n + 1, x, y) == (guarded(army, n, x, y) || (army[n].alive && army[n].at(
            x,
            y,
        ))),
{
    if guarded(army, n + 1, x, y) && !(army[n].alive && army[n].at(x, y)) {
        let j = choose|j: int|
            0 <= j < n + 1 && j < army.len() && (#[trigger] army[j]).alive && army[j].at(x, y);
        assert(j < n);
    }
    if guarded(army, n, x, y) {
        let j = choose|j: int|
            0 <= j < n && j < army.len() && (#[trigger] army[j]).alive && army[j].at(x, y);
        assert(0 <= j < n + 1);
    }
}

/// Between two prefixes of the fleet the number of the fallen grows by at
/// most one per invader.
proof fn lemma_count_fallen_bounds(f: FleetView, shots: Seq<LaserView>, lo: int, hi: int)
    requires
        0 <= lo <= hi,
    ensures
        count_fallen(f, shots, lo) <= count_fallen(f, shots, hi),
        count_fallen(f, shots, hi) - count_fallen(f, shots, lo) <= hi - lo,
    decreases hi,
{
    if lo < hi {
        lemma_count_fallen_bounds(f, shots, lo, hi - 1);
    }
}

/// There are no more strikes among the first `m` shots than shots.
proof fn lemma_count_struck_at_most(
    army: Seq<EnemyView>,
    n: int,
    shots: Seq<LaserView>,
    m: int,
)
    requires
        0 <= m,
    ensures
        count_struck(army, n, shots, m) <= m,
    decreases m,
{
    if m > 0 {
        lemma_count_struck_at_most(army, n, shots, m - 1);
    }
}

/// Counting one more invader takes no strike away, and adds at least one
/// if that invader is the first living one in its cell and one of the first
/// `m` shots targets the cell.
proof fn lemma_count_struck_step(f: FleetView, shots: Seq<LaserView>, n: int, m: int)
    requires
        0 <= n < f.army.len(),
        0 <= m <= shots.len(),
    ensures
        count_struck(f.army, n + 1, shots, m) >= count_struck(f.army, n, shots, m)
            + if first_in_cell(f.army, n) && targeted_among(shots, m, f.army[n].x, f.army[n].y) {
            1nat
        } else {
            0nat
        },
    decreases m,
{
    let e = f.army[n];
    if m > 0 {
        lemma_count_struck_step(f, shots, n, m - 1);
        let s = shots[m - 1];
        lemma_guarded_step(f.army, n, s.x, s.y);
        if first_in_cell(f.army, n) && targeted_among(shots, m, e.x, e.y) && !targeted_among(
            shots,
            m - 1,
            e.x,
            e.y,
        ) {
            let k = choose|k: int|
                0 <= k < m && k < shots.len() && !(#[trigger] shots[k]).exploded && shots[k].x
                    == e.x && shots[k].y == e.y;
            assert(k == m - 1);
            assert(struck(f.army, n + 1, s) && !struck(f.army, n, s));
        }
    }
}

/// Every invader that falls takes at least one strike of its own, so no
/// more invaders fall than shots strike, and no more than there are shots.
proof fn lemma_kills_at_most_hits(f: FleetView, shots: Seq<LaserView>, n: int)
    requires
        0 <= n <= f.army.len(),
    ensures
        count_fallen(f, shots, n) <= count_struck(f.army, n, shots, shots.len() as int),
        count_struck(f.army, n, shots, shots.len() as int) <= shots.len(),
    decreases n,
{
    let m = shots.len() as int;
    lemma_count_struck_at_most(f.army, n, shots, m);
    if n > 0 {
        lemma_kills_at_most_hits(f, shots, n - 1);
        lemma_count_struck_step(f, shots, n - 1, m);
        let e = f.army[n - 1];
        assert(targeted_among(shots, m, e.x, e.y) == targeted(shots, e.x, e.y));
    }
}

impl Enemies {
    /// A new fleet at the top of the board.
    pub fn new() -> (fleet: Self)
        ensures
            fleet@ == FleetView::fresh(),
            fleet@.wf(),
            fleet@.on_board(),
    {
        let mut army: Vec<Enemy> = Vec::new();
        let mut x: usize = FLEET_LEFT;
        while x < FLEET_LEFT + FLEET_COLS
            invariant
                FLEET_LEFT <= x <= FLEET_LEFT + FLEET_COLS,
                army@.len() == (x - FLEET_LEFT) * FLEET_ROWS,
                forall|i: int|
                    0 <= i < army@.len() ==> (#[trigger] army@[i])@ == FleetView::fresh().army[i],
            decreases FLEET_LEFT + FLEET_COLS - x,
        {
            let mut y: usize = 0;
            while y < FLEET_ROWS
                invariant
                    FLEET_LEFT <= x < FLEET_LEFT + FLEET_COLS,
                    y <= FLEET_ROWS,
                    army@.len() == (x - FLEET_LEFT) * FLEET_ROWS + y,
                    forall|i: int|
                        0 <= i < army@.len() ==> (#[trigger] army@[i])@
                            == FleetView::fresh().army[i],
                decreases FLEET_ROWS - y,
            {
                army.push(Enemy { x, y, alive: true });
                y += 1;
            }
            x += 1;
        }
        let fleet = Self { army, move_timer: start(STEP_MILLIS), direction: Direction::Right };
        assert(fleet@.army =~= FleetView::fresh().army);
        proof {
            lemma_new_fleet_is_valid();
        }
        fleet
    }

    /// Lets `d` pass: when the step timer runs out the fleet takes one step,
    /// sideways or, at a wall, down.
    pub fn update(&mut self, d: Duration)
        requires
            old(self)@.can_descend(),
        ensures
            final(self).army@.len() == old(self).army@.len(),
            final(self)@ == old(self)@.update(duration_nanos(d)),
            old(self)@.wf() ==> final(self)@.wf(),
            old(self)@.on_board() && !old(self)@.reached_bottom() ==> final(self)@.on_board(),
    {
        proof {
            if self@.wf() {
                lemma_fleet_stays_valid(self@, duration_nanos(d), Seq::empty());
            }
            if self@.on_board() {
                lemma_fleet_stays_on_board(self@, duration_nanos(d), Seq::empty());
            }
        }
        if advance(&mut self.move_timer, d) {
            let ghost before = self@.army;
            let ghost ticked = self@;
            if self.blocked() {
                self.direction = self.direction.flipped();
                let mut i: usize = 0;
                while i < self.army.len()
                    invariant
                        i <= self.army@.len(),
                        self.army@.len() == before.len(),
                        self@.clock == ticked.clock,
                        self.direction == ticked.direction.flip(),
                        forall|j: int|
                            0 <= j < i ==> (#[trigger] self.army@[j])@ == before[j].descend(),
                        forall|j: int|
                            i <= j < before.len() ==> (#[trigger] self.army@[j])@ == before[j],
                        forall|j: int|
                            0 <= j < before.len() && (#[trigger] before[j]).alive ==> before[j].y
                                < usize::MAX,
                    decreases self.army@.len() - i,
                {
                    if self.army[i].alive {
                        self.army[i].y += 1;
                    }
                    i += 1;
                }
                assert(self@.army =~= before.map_values(|e: EnemyView| e.descend()));
            } else {
                let ghost heading = self.direction;
                let mut i: usize = 0;
                while i < self.army.len()
                    invariant
                        i <= self.army@.len(),
                        self.army@.len() == before.len(),
                        self@.clock == ticked.clock,
                        self.direction == heading,
                        forall|j: int|
                            0 <= j < i ==> (#[trigger] self.army@[j])@ == before[j].slide(heading),
                        forall|j: int|
                            i <= j < before.len() ==> (#[trigger] self.army@[j])@ == before[j],
                        forall|j: int|
                            0 <= j < before.len() ==> !(#[trigger] before[j]).stopped(heading),
                    decreases self.army@.len() - i,
                {
                    if self.army[i].alive {
                        match self.direction {
                            Direction::Right => {
                                self.army[i].x += 1;
                            },
                            Direction::Left => {
                                self.army[i].x -= 1;
                            },
                        }
                    }
                    i += 1;
                }
                assert(self@.army =~= before.map_values(|e: EnemyView| e.slide(heading)));
            }
            restart(&mut self.move_timer);
        }
    }

    /// Whether every living invader can come down a row without its row
    /// number leaving the machine's range.
    pub fn can_descend(&self) -> (ok: bool)
        ensures
            ok == self@.can_descend(),
    {
        let mut i: usize = 0;
        while i < self.army.len()
            invariant
                i <= self.army@.len(),
                forall|j: int|
                    0 <= j < i && (#[trigger] self@.army[j]).alive ==> self@.army[j].y < usize::MAX,
            decreases self.army@.len() - i,
        {
            if self.army[i].alive && self.army[i].y == usize::MAX {
                assert(self@.army[i as int].alive);
                return false;
            }
            i += 1;
        }
        true
    }

    /// Whether a wall stops the fleet from taking its next sideways step.
    pub fn blocked(&self) -> (stopped: bool)
        ensures
            stopped == self@.blocked(),
    {
        let mut i: usize = 0;
        while i < self.army.len()
            invariant
                i <= self.army@.len(),
                forall|j: int| 0 <= j < i ==> !(#[trigger] self@.army[j]).stopped(self.direction),
            decreases self.army@.len() - i,
        {
            let enemy = &self.army[i];
            if enemy.alive {
                let stopped = match self.direction {
                    Direction::Right => enemy.x >= NUM_COLS - 1,
                    Direction::Left => enemy.x == 0 || enemy.x > NUM_COLS,
                };
                if stopped {
                    assert(self@.army[i as int].stopped(self.direction));
                    return true;
                }
            }
            i += 1;
        }
        false
    }

    /// Whether every invader is dead.
    pub fn all_dead(&self) -> (dead: bool)
        ensures
            dead == self@.all_dead(),
    {
        let mut i: usize = 0;
        while i < self.army.len()
            invariant
                i <= self.army@.len(),
                forall|j: int| 0 <= j < i ==> !(#[trigger] self@.army[j]).alive,
            decreases self.army@.len() - i,
        {
            if self.army[i].alive {
                assert(self@.army[i as int].alive);
                return false;
            }
            i += 1;
        }
        true
    }

    /// Whether a living invader stands on the bottom row or below it.
    pub fn reached_bottom(&self) -> (landed: bool)
        ensures
            landed == self@.reached_bottom(),
    {
        let mut i: usize = 0;
        while i < self.army.len()
            invariant
                i <= self.army@.len(),
                forall|j: int|
                    0 <= j < i ==> !((#[trigger] self@.army[j]).alive && self@.army[j].y >= NUM_ROWS
                        - 1),
            decreases self.army@.len() - i,
        {
            if self.army[i].alive && self.army[i].y >= NUM_ROWS - 1 {
                assert(self@.army[i as int].alive && self@.army[i as int].y >= NUM_ROWS - 1);
                return true;
            }
            i += 1;
        }
        false
    }

    /// Resolves the collisions between the fleet and the player's shots.
    /// The invaders are taken in order, and for each living one the shots in
    /// order: every shot that has not exploded and stands in the invader's
    /// cell explodes, and the invader dies. Returns the number of invaders
    /// that died; one that several shots struck counts once.
    pub fn hit_by(&mut self, player_shots: &mut Vec<Laser>) -> (destroyed: usize)
        ensures
            final(self).army@.len() == old(self).army@.len(),
            final(player_shots)@.len() == old(player_shots)@.len(),
            final(self)@ == old(self)@.hit_by(shots_view(old(player_shots)@)),
            shots_view(final(player_shots)@) == old(self)@.shots_after(
                shots_view(old(player_shots)@),
            ),
            destroyed == old(self)@.kills(shots_view(old(player_shots)@)),
            destroyed == count_killed(
                old(self)@.army,
                final(self)@.army,
                old(self)@.army.len() as int,
            ),
            destroyed <= old(self)@.hits(shots_view(old(player_shots)@)),
            destroyed <= old(player_shots)@.len(),
            destroyed <= old(self).army@.len(),
            old(self)@.wf() ==> final(self)@.wf(),
            old(self)@.on_board() ==> final(self)@.on_board(),
    {
        let ghost fleet = self@;
        let ghost shots = shots_view(player_shots@);
        let ghost army = fleet.army;
        proof {
            lemma_collision_count(fleet, shots);
            if fleet.wf() {
                lemma_fleet_stays_valid(fleet, 0, shots);
            }
            if fleet.on_board() {
                lemma_fleet_stays_on_board(fleet, 0, shots);
            }
        }
        let mut destroyed: usize = 0;
        let mut i: usize = 0;
        while i < self.army.len()
            invariant
                i <= army.len(),
                self.army@.len() == army.len(),
                player_shots@.len() == shots.len(),
                self@.clock == fleet.clock,
                self.direction == fleet.direction,
                army == fleet.army,
                fleet.kills(shots) <= shots.len(),
                forall|j: int|
                    0 <= j < i ==> (#[trigger] self.army@[j])@ == fleet.hit_by(shots).army[j],
                forall|j: int| i <= j < army.len() ==> (#[trigger] self.army@[j])@ == army[j],
                forall|k: int|
                    0 <= k < shots.len() ==> (#[trigger] player_shots@[k])@ == shot_after(
                        army,
                        i as int,
                        shots[k],
                    ),
                destroyed == count_fallen(fleet, shots, i as int),
            decreases army.len() - i,
        {
            if self.army[i].alive {
                let ghost e = army[i as int];
                let mut k: usize = 0;
                while k < player_shots.len()
                    invariant
                        i < army.len(),
                        k <= shots.len(),
                        self.army@.len() == army.len(),
                        player_shots@.len() == shots.len(),
                        self@.clock == fleet.clock,
                        self.direction == fleet.direction,
                        army == fleet.army,
                        fleet.kills(shots) <= shots.len(),
                        e == army[i as int],
                        e.alive,
                        forall|j: int|
                            0 <= j < i ==> (#[trigger] self.army@[j])@ == fleet.hit_by(
                                shots,
                            ).army[j],
                        forall|j: int|
                            i < j < army.len() ==> (#[trigger] self.army@[j])@ == army[j],
                        self.army@[i as int]@.x == e.x,
                        self.army@[i as int]@.y == e.y,
                        !self.army@[i as int].alive <==> exists|h: int|
                            0 <= h < k && !(#[trigger] shots[h]).exploded && shots[h].x == e.x
                                && shots[h].y == e.y && !guarded(army, i as int, e.x, e.y),
                        forall|h: int|
                            0 <= h < k ==> (#[trigger] player_shots@[h])@ == shot_after(
                                army,
                                i + 1,
                                shots[h],
                            ),
                        forall|h: int|
                            k <= h < shots.len() ==> (#[trigger] player_shots@[h])@ == shot_after(
                                army,
                                i as int,
                                shots[h],
                            ),
                        destroyed == count_fallen(fleet, shots, i as int)
                            + if self.army@[i as int].alive {
                            0nat
                        } else {
                            1nat
                        },
                    decreases shots.len() - k,
                {
                    proof {
                        lemma_guarded_step(army, i as int, shots[k as int].x, shots[k as int].y);
                    }
                    if !player_shots[k].exploded && player_shots[k].x == self.army[i].x
                        && player_shots[k].y == self.army[i].y {
                        if self.army[i].alive {
                            proof {
                                assert(fleet.falls(shots, i as int));
                                lemma_count_fallen_bounds(fleet, shots, i + 1, army.len() as int);
                            }
                            destroyed += 1;
                        }
                        self.army[i].alive = false;
                        player_shots[k].explode();
                    }
                    k += 1;
                }
            } else {
                proof {
                    assert forall|k: int| 0 <= k < shots.len() implies struck(
                        army,
                        i + 1,
                        #[trigger] shots[k],
                    ) == struck(army, i as int, shots[k]) by {
                        lemma_guarded_step(army, i as int, shots[k].x, shots[k].y);
                    }
                }
            }
            i += 1;
        }
        assert(self@.army =~= fleet.hit_by(shots).army);
        destroyed
    }
}

/// What one update does to the fleet. While the step countdown has not run
/// out nothing moves. When it runs out a fleet that no wall stops moves its
/// living invaders one column in its direction, on their rows; a stopped
/// fleet turns round and moves them one row down, in their columns. The dead
/// never move, nobody ever moves up, and the countdown starts again.
pub proof fn lemma_fleet_sweep(f: FleetView, delta: nat)
    requires
        f.clock.wf(),
    ensures
        f.update(delta).army.len() == f.army.len(),
        !f.clock.rings(delta) ==> f.update(delta).army == f.army && f.update(delta).direction
            == f.direction,
        f.clock.rings(delta) ==> f.update(delta).clock == Countdown::armed(f.clock.period),
        f.clock.rings(delta) && !f.blocked() ==> f.update(delta).direction == f.direction
            && forall|i: int|
            0 <= i < f.army.len() && f.army[i].alive ==> (#[trigger] f.update(delta).army[i])
                == (EnemyView { x: f.army[i].x + f.direction.dx(), ..f.army[i] }),
        f.clock.rings(delta) && f.blocked() ==> f.update(delta).direction.dx() == -f.direction.dx()
            && forall|i: int|
            0 <= i < f.army.len() && f.army[i].alive ==> (#[trigger] f.update(delta).army[i])
                == (EnemyView { y: f.army[i].y + 1, ..f.army[i] }),
        forall|i: int|
            0 <= i < f.army.len() && !f.army[i].alive ==> (#[trigger] f.update(delta).army[i])
                == f.army[i],
        forall|i: int|
            0 <= i < f.army.len() ==> (#[trigger] f.update(delta).army[i]).y >= f.army[i].y,
{
}

impl FleetView {
    /// The fleet after one update for each entry of `deltas`, in order.
    pub open spec fn after(self, deltas: Seq<nat>) -> FleetView
        decreases deltas.len(),
    {
        if deltas.len() == 0 {
            self
        } else {
            self.after(deltas.drop_last()).update(deltas.last())
        }
    }
}

/// A fleet stays where it is while the updates add up to less than the time
/// left on its step countdown; the update that completes that time makes it
/// take exactly one step, and a new step period begins.
pub proof fn lemma_fleet_waits_then_steps(f: FleetView, deltas: Seq<nat>, last: nat)
    requires
        f.wf(),
        total(deltas) < f.clock.left,
    ensures
        f.after(deltas) == (FleetView {
            clock: Countdown { left: (f.clock.left - total(deltas)) as nat, ..f.clock },
            ..f
        }),
        total(deltas) + last < f.clock.left ==> f.after(deltas.push(last)).army == f.army
            && f.after(deltas.push(last)).direction == f.direction,
        total(deltas) + last >= f.clock.left ==> f.after(deltas.push(last)) == f.update(
            f.clock.left,
        ),
    decreases deltas.len(),
{
    if deltas.len() > 0 {
        lemma_fleet_waits_then_steps(f, deltas.drop_last(), deltas.last());
    }
    assert(deltas.push(last).drop_last() == deltas);
}

/// However often a fleet is updated, it keeps its size, its dead stay dead
/// and where they fell, and no invader is ever on a higher row than before.
pub proof fn lemma_fleet_never_climbs(f: FleetView, deltas: Seq<nat>)
    ensures
        f.after(deltas).army.len() == f.army.len(),
        forall|i: int|
            0 <= i < f.army.len() ==> (#[trigger] f.after(deltas).army[i]).y >= f.army[i].y
                && f.after(deltas).army[i].alive == f.army[i].alive,
        forall|i: int|
            0 <= i < f.army.len() && !f.army[i].alive ==> (#[trigger] f.after(deltas).army[i])
                == f.army[i],
    decreases deltas.len(),
{
    if deltas.len() > 0 {
        lemma_fleet_never_climbs(f, deltas.drop_last());
    }
}

/// A fleet on the board that has not reached the bottom row is still on the
/// board after an update; resolving collisions never takes a fleet off the
/// board; and a fleet on the board can come down a row.
pub proof fn lemma_fleet_stays_on_board(f: FleetView, delta: nat, shots: Seq<LaserView>)
    requires
        f.on_board(),
    ensures
        !f.reached_bottom() ==> f.update(delta).on_board(),
        f.hit_by(shots).on_board(),
        f.can_descend(),
{
    let g = f.update(delta);
    if !f.reached_bottom() {
        assert forall|i: int| 0 <= i < g.army.len() && (#[trigger] g.army[i]).alive implies 0
            <= g.army[i].x < NUM_COLS && 0 <= g.army[i].y < NUM_ROWS by {
            assert(f.army[i].alive);
            assert(!f.blocked() ==> !f.army[i].stopped(f.direction));
        }
    }
    let h = f.hit_by(shots);
    assert forall|i: int| 0 <= i < h.army.len() && (#[trigger] h.army[i]).alive implies 0
        <= h.army[i].x < NUM_COLS && 0 <= h.army[i].y < NUM_ROWS by {
        assert(f.army[i].alive);
    }
}

/// No two living invaders share a cell in which a shot that has not exploded
/// stands.
pub open spec fn one_invader_per_target(f: FleetView, shots: Seq<LaserView>) -> bool {
    forall|i: int, j: int|
        0 <= i < j < f.army.len() && (#[trigger] f.army[i]).alive && (#[trigger] f.army[j]).alive
            && f.army[j].at(f.army[i].x, f.army[i].y) ==> !targeted(
            shots,
            f.army[i].x,
            f.army[i].y,
        )
}

/// How many of the first `n` invaders are alive in `before` and dead in
/// `after`.
pub open spec fn count_killed(before: Seq<EnemyView>, after: Seq<EnemyView>, n: int) -> nat
    decreases n,
{
    if n <= 0 {
        0
    } else {
        count_killed(before, after, n - 1) + if before[n - 1].alive && !after[n - 1].alive {
            1nat
        } else {
            0nat
        }
    }
}

/// How many of the first `m` shots have not exploded.
pub open spec fn count_live(shots: Seq<LaserView>, m: int) -> nat
    decreases m,
{
    if m <= 0 {
        0
    } else {
        count_live(shots, m - 1) + if shots[m - 1].exploded {
            0nat
        } else {
            1nat
        }
    }
}

/// The shots that strike: a shot explodes exactly if it had not exploded and
/// shares its cell with a living invader, and then it stays in its cell.
/// Invaders only die: the dead stay dead, and nobody moves.
pub proof fn lemma_collision_marks(f: FleetView, shots: Seq<LaserView>)
    ensures
        f.shots_after(shots).len() == shots.len(),
        f.hit_by(shots).army.len() == f.army.len(),
        forall|k: int|
            0 <= k < shots.len() ==> (#[trigger] f.shots_after(shots)[k]).exploded == (
            shots[k].exploded || guarded(f.army, f.army.len() as int, shots[k].x, shots[k].y)),
        forall|k: int|
            0 <= k < shots.len() ==> (#[trigger] f.shots_after(shots)[k]).x == shots[k].x
                && f.shots_after(shots)[k].y == shots[k].y,
        forall|i: int|
            0 <= i < f.army.len() ==> (#[trigger] f.hit_by(shots).army[i]).x == f.army[i].x
                && f.hit_by(shots).army[i].y == f.army[i].y && (f.hit_by(shots).army[i].alive
                ==> f.army[i].alive),
{
}

/// Where no two living invaders stand in one targeted cell, the invaders
/// that die are exactly the living ones that share their cell with a shot
/// that has not exploded.
pub proof fn lemma_collision_kills(f: FleetView, shots: Seq<LaserView>)
    requires
        one_invader_per_target(f, shots),
    ensures
        forall|i: int|
            0 <= i < f.army.len() ==> (#[trigger] f.hit_by(shots).army[i]).alive == (
            f.army[i].alive && !targeted(shots, f.army[i].x, f.army[i].y)),
{
    assert forall|i: int| 0 <= i < f.army.len() implies (#[trigger] f.hit_by(shots).army[i]).alive
        == (f.army[i].alive && !targeted(shots, f.army[i].x, f.army[i].y)) by {
        let e = f.army[i];
        if e.alive && targeted(shots, e.x, e.y) && guarded(f.army, i, e.x, e.y) {
            let j = choose|j: int|
                0 <= j < i && j < f.army.len() && (#[trigger] f.army[j]).alive && f.army[j].at(
                    e.x,
                    e.y,
                );
            assert(f.army[i].at(f.army[j].x, f.army[j].y));
            assert(false);
        }
    }
}

/// What the result of resolving collisions counts, for any fleet and any
/// shots. It is the number of invaders that were alive before and are dead
/// after, each counted once. It is no more than the number of shots that
/// strike, which is no more than the number of shots that had not exploded.
/// And it is zero exactly if the fleet is left as it was, which is exactly
/// if the shots are left as they were.
pub proof fn lemma_collision_count(f: FleetView, shots: Seq<LaserView>)
    ensures
        f.kills(shots) == count_killed(f.army, f.hit_by(shots).army, f.army.len() as int),
        f.kills(shots) <= f.army.len(),
        f.kills(shots) <= f.hits(shots),
        f.hits(shots) <= count_live(shots, shots.len() as int),
        count_live(shots, shots.len() as int) <= shots.len(),
        f.kills(shots) == 0 <==> f.hit_by(shots) == f,
        f.kills(shots) == 0 <==> f.shots_after(shots) == shots,
{
    let n = f.army.len() as int;
    let m = shots.len() as int;
    lemma_count_killed_matches(f, shots, n);
    lemma_count_fallen_bounds(f, shots, 0, n);
    lemma_kills_at_most_hits(f, shots, n);
    lemma_hits_at_most_live(f.army, n, shots, m);
    lemma_none_fallen(f, shots, n);
    if f.kills(shots) == 0 {
        assert(f.hit_by(shots).army =~= f.army);
        assert forall|k: int| 0 <= k < m implies !struck(f.army, n, #[trigger] shots[k]) by {
            if struck(f.army, n, shots[k]) {
                let i = lemma_first_guard(f.army, n, shots[k].x, shots[k].y);
                assert(targeted(shots, f.army[i].x, f.army[i].y));
                assert(f.falls(shots, i));
            }
        }
        assert(f.shots_after(shots) =~= shots);
    } else {
        let i = choose|i: int| 0 <= i < n && f.falls(shots, i);
        let e = f.army[i];
        assert(!f.hit_by(shots).army[i].alive);
        let k = choose|k: int|
            0 <= k < shots.len() && !(#[trigger] shots[k]).exploded && shots[k].x == e.x
                && shots[k].y == e.y;
        assert(e.at(shots[k].x, shots[k].y));
        assert(struck(f.army, n, shots[k]));
        assert(f.shots_after(shots)[k].exploded);
    }
}

/// The invaders that fall are those that are alive before and dead after.
proof fn lemma_count_killed_matches(f: FleetView, shots: Seq<LaserView>, n: int)
    requires
        0 <= n <= f.army.len(),
    ensures
        count_fallen(f, shots, n) == count_killed(f.army, f.hit_by(shots).army, n),
    decreases n,
{
    if n > 0 {
        lemma_count_killed_matches(f, shots, n - 1);
    }
}

/// No more shots strike than have not exploded, and no more than there are.
proof fn lemma_hits_at_most_live(army: Seq<EnemyView>, n: int, shots: Seq<LaserView>, m: int)
    requires
        0 <= m,
    ensures
        count_struck(army, n, shots, m) <= count_live(shots, m),
        count_live(shots, m) <= m,
    decreases m,
{
    if m > 0 {
        lemma_hits_at_most_live(army, n, shots, m - 1);
    }
}

/// None of the first `n` invaders is counted exactly if none of them falls.
proof fn lemma_none_fallen(f: FleetView, shots: Seq<LaserView>, n: int)
    requires
        0 <= n,
    ensures
        count_fallen(f, shots, n) == 0 <==> forall|i: int| 0 <= i < n ==> !f.falls(shots, i),
    decreases n,
{
    if n > 0 {
        lemma_none_fallen(f, shots, n - 1);
    }
}

/// A guarded cell has a first living invader in it.
proof fn lemma_first_guard(army: Seq<EnemyView>, n: int, x: int, y: int) -> (i: int)
    requires
        guarded(army, n, x, y),
    ensures
        0 <= i < n,
        i < army.len(),
        army[i].alive,
        army[i].at(x, y),
        !guarded(army, i, x, y),
    decreases n,
{
    let j = choose|j: int| 0 <= j < n && j < army.len() && (#[trigger] army[j]).alive && army[j].at(
        x,
        y,
    );
    if guarded(army, j, x, y) {
        lemma_first_guard(army, j, x, y)
    } else {
        j
    }
}

/// How many of the first `n` invaders of `army` are dead.
pub open spec fn count_dead(army: Seq<EnemyView>, n: int) -> nat
    decreases n,
{
    if n <= 0 {
        0
    } else {
        count_dead(army, n - 1) + if army[n - 1].alive {
            0nat
        } else {
            1nat
        }
    }
}

impl FleetView {
    /// Every living invader stands `dx` columns and `dy` rows away from its
    /// place in a new fleet.
    pub open spec fn in_formation(self, dx: int, dy: int) -> bool {
        &&& self.army.len() == FleetView::fresh().army.len()
        &&& forall|i: int|
            0 <= i < self.army.len() && (#[trigger] self.army[i]).alive ==> self.army[i].x
                == FleetView::fresh().army[i].x + dx && self.army[i].y
                == FleetView::fresh().army[i].y + dy
    }

    /// The living invaders stand in formation, and the step countdown is a
    /// running countdown of the step period.
    pub open spec fn wf(self) -> bool {
        &&& exists|dx: int, dy: int| self.in_formation(dx, dy)
        &&& self.clock.wf()
        &&& self.clock.period == millis_to_nanos(STEP_MILLIS)
        &&& !self.clock.done
    }
}

/// A new fleet is valid, stands on the board and is far from the bottom row.
pub proof fn lemma_new_fleet_is_valid()
    ensures
        FleetView::fresh().wf(),
        FleetView::fresh().on_board(),
        !FleetView::fresh().reached_bottom(),
{
    assert(FleetView::fresh().in_formation(0, 0));
}

/// Updates and collisions keep a fleet valid, and an update leaves as many
/// of its invaders dead as before. In a valid fleet no two living invaders
/// share a cell, so that none can take a shot aimed at another.
pub proof fn lemma_fleet_stays_valid(f: FleetView, delta: nat, shots: Seq<LaserView>)
    requires
        f.wf(),
    ensures
        f.update(delta).wf(),
        f.hit_by(shots).wf(),
        one_invader_per_target(f, shots),
        count_dead(f.update(delta).army, f.army.len() as int) == count_dead(
            f.army,
            f.army.len() as int,
        ),
{
    lemma_update_keeps_dead(f, delta, f.army.len() as int);
    let (dx, dy) = choose|dx: int, dy: int| f.in_formation(dx, dy);
    lemma_formation_kept(f, dx, dy, delta, shots);
    lemma_formation_distinct(f, dx, dy, shots);
    assert(f.hit_by(shots).in_formation(dx, dy));
    if !f.clock.rings(delta) {
        assert(f.update(delta).in_formation(dx, dy));
    } else if f.blocked() {
        assert(f.update(delta).in_formation(dx, dy + 1));
    } else {
        assert(f.update(delta).in_formation(dx + f.direction.dx(), dy));
    }
}

/// An update leaves the dead among the first `n` invaders as many as before.
proof fn lemma_update_keeps_dead(f: FleetView, delta: nat, n: int)
    requires
        0 <= n <= f.army.len(),
    ensures
        count_dead(f.update(delta).army, n) == count_dead(f.army, n),
    decreases n,
{
    if n > 0 {
        lemma_update_keeps_dead(f, delta, n - 1);
    }
}

/// The living invaders of a fleet move as one: a new fleet stands in
/// formation, collisions leave the formation where it is, and an update
/// moves it by the fleet's step.
pub proof fn lemma_formation_kept(f: FleetView, dx: int, dy: int, delta: nat, shots: Seq<LaserView>)
    requires
        f.in_formation(dx, dy),
    ensures
        FleetView::fresh().in_formation(0, 0),
        f.hit_by(shots).in_formation(dx, dy),
        !f.clock.rings(delta) ==> f.update(delta).in_formation(dx, dy),
        f.clock.rings(delta) && !f.blocked() ==> f.update(delta).in_formation(
            dx + f.direction.dx(),
            dy,
        ),
        f.clock.rings(delta) && f.blocked() ==> f.update(delta).in_formation(dx, dy + 1),
{
    let h = f.hit_by(shots);
    let g = f.update(delta);
    assert forall|i: int| 0 <= i < f.army.len() implies ((#[trigger] h.army[i]).alive
        ==> f.army[i].alive) && ((#[trigger] g.army[i]).alive ==> f.army[i].alive) by {}
}

/// In a fleet in formation no two living invaders share a cell.
pub proof fn lemma_formation_distinct(f: FleetView, dx: int, dy: int, shots: Seq<LaserView>)
    requires
        f.in_formation(dx, dy),
    ensures
        forall|i: int, j: int|
            0 <= i < j < f.army.len() && (#[trigger] f.army[i]).alive && (
            #[trigger] f.army[j]).alive ==> !f.army[j].at(f.army[i].x, f.army[i].y),
        one_invader_per_target(f, shots),
{
    assert forall|i: int, j: int|
        0 <= i < j < f.army.len() && (#[trigger] f.army[i]).alive && (
        #[trigger] f.army[j]).alive implies !f.army[j].at(f.army[i].x, f.army[i].y) by {
        let a = FleetView::fresh().army[i];
        let b = FleetView::fresh().army[j];
        assert(a.x != b.x || a.y != b.y);
    }
}

/// Every invader that falls is one more dead invader: after the collisions
/// are resolved the dead are as many as before and as were killed.
pub proof fn lemma_kills_are_deaths(f: FleetView, shots: Seq<LaserView>, n: int)
    requires
        0 <= n <= f.army.len(),
    ensures
        count_dead(f.hit_by(shots).army, n) == count_dead(f.army, n) + count_fallen(f, shots, n),
    decreases n,
{
    if n > 0 {
        lemma_kills_are_deaths(f, shots, n - 1);
    }
}

} // verus!
