//! The player's ship and the shots it has in flight.

use crate::clock::duration_nanos;
use crate::laser::{shots_view, Laser, LaserView};
use crate::{NUM_COLS, NUM_ROWS};
use std::time::Duration;
use vstd::prelude::*;

verus! {

/// The most shots the player can have on the board at once.
pub const MAX_SHOTS: usize = 2;

/// The player's ship: its cell and its shots, oldest first.
pub struct Player {
    pub x: usize,
    pub y: usize,
    pub shots: Vec<Laser>,
}

/// The mathematical content of a [`Player`].
pub struct PlayerView {
    pub x: int,
    pub y: int,
    pub shots: Seq<LaserView>,
}

impl View for Player {
    type V = PlayerView;

    open spec fn view(&self) -> PlayerView {
        PlayerView { x: self.x as int, y: self.y as int, shots: shots_view(self.shots@) }
    }
}

impl PlayerView {
    /// The player at the start of a game: in the middle of the bottom row,
    /// with no shot fired.
    pub open spec fn fresh() -> PlayerView {
        PlayerView { x: NUM_COLS as int / 2, y: NUM_ROWS - 1, shots: Seq::empty() }
    }

    /// Whether the ship has room to move left.
    pub open spec fn can_go_left(self) -> bool {
        self.x > 0
    }

    /// Whether the ship has room to move right.
    pub open spec fn can_go_right(self) -> bool {
        self.x < NUM_COLS - 1
    }

    /// Whether the ship may fire.
    pub open spec fn can_shoot(self) -> bool {
        self.shots.len() < MAX_SHOTS
    }

    /// The player after a move to the left, which the left wall may refuse.
    pub open spec fn go_to_left(self) -> PlayerView {
        if self.can_go_left() {
            PlayerView { x: self.x - 1, ..self }
        } else {
            self
        }
    }

    /// The player after a move to the right, which the right wall may
    /// refuse.
    pub open spec fn go_to_right(self) -> PlayerView {
        if self.can_go_right() {
            PlayerView { x: self.x + 1, ..self }
        } else {
            self
        }
    }

    /// The player after pulling the trigger: a new laser starts in the cell
    /// above the ship, unless the ship has all its shots in flight.
    pub open spec fn shoot(self) -> PlayerView {
        if self.can_shoot() {
            PlayerView { shots: self.shots.push(LaserView::fresh(self.x, self.y - 1)), ..self }
        } else {
            self
        }
    }

    /// The player after `delta` nanoseconds: every shot is updated, then the
    /// destroyed ones are dropped; the others keep their order.
    pub open spec fn update(self, delta: nat) -> PlayerView {
        PlayerView {
            shots: self.shots.map_values(|l: LaserView| l.update(delta)).filter(
                |l: LaserView| !l.destroyed(),
            ),
            ..self
        }
    }

    /// The ship stands on the bottom row of the board and has no more
    /// shots than allowed, each of them a valid laser on the board.
    pub open spec fn wf(self) -> bool {
        &&& 0 <= self.x < NUM_COLS
        &&& self.y == NUM_ROWS - 1
        &&& self.shots.len() <= MAX_SHOTS
        &&& forall|k: int|
            0 <= k < self.shots.len() ==> (#[trigger] self.shots[k]).wf()
                && self.shots[k].on_board()
    }
}

impl Player {
    /// The player at the start of a game.
    pub fn new() -> (player: Self)
        ensures
            player@ == PlayerView::fresh(),
            player@.wf(),
    {
        let player = Self { x: NUM_COLS / 2, y: NUM_ROWS - 1, shots: Vec::new() };
        assert(player@.shots =~= Seq::empty());
        player
    }

    /// Moves one column to the left if the wall allows it; says whether the
    /// ship moved.
    pub fn go_to_left(&mut self) -> (moved: bool)
        ensures
            moved == old(self)@.can_go_left(),
            final(self)@ == old(self)@.go_to_left(),
            old(self)@.wf() ==> final(self)@.wf(),
    {
        if self.x > 0 {
            self.x -= 1;
            true
        } else {
            false
        }
    }

    /// Moves one column to the right if the wall allows it; says whether
    /// the ship moved.
    pub fn go_to_right(&mut self) -> (moved: bool)
        ensures
            moved == old(self)@.can_go_right(),
            final(self)@ == old(self)@.go_to_right(),
            old(self)@.wf() ==> final(self)@.wf(),
    {
        if self.x < NUM_COLS - 1 {
            self.x += 1;
            true
        } else {
            false
        }
    }

    /// Fires a laser from the cell above the ship unless the ship has all
    /// its shots in flight; says whether it fired.
    pub fn shoot(&mut self) -> (fired: bool)
        requires
            old(self)@.can_shoot() ==> old(self).y > 0,
        ensures
            fired == old(self)@.can_shoot(),
            final(self)@ == old(self)@.shoot(),
            old(self)@.wf() ==> final(self)@.wf(),
    {
        proof {
            if self@.wf() {
                lemma_player_stays_valid(self@, 0);
            }
        }
        if self.shots.len() < MAX_SHOTS {
            self.shots.push(Laser::new(self.x, self.y - 1));
            assert(self@.shots =~= old(self)@.shots.push(
                LaserView::fresh(self.x as int, self.y - 1),
            ));
            true
        } else {
            false
        }
    }

    /// Lets `d` pass on every shot, then drops the shots that are destroyed.
    pub fn update(&mut self, d: Duration)
        ensures
            final(self)@ == old(self)@.update(duration_nanos(d)),
            old(self)@.wf() ==> final(self)@.wf(),
    {
        proof {
            if self@.wf() {
                lemma_player_stays_valid(self@, duration_nanos(d));
            }
        }
        let ghost delta = duration_nanos(d);
        let ghost before = self@.shots;
        let mut i: usize = 0;
        while i < self.shots.len()
            invariant
                i <= self.shots@.len(),
                self.shots@.len() == before.len(),
                self.x == old(self).x,
                self.y == old(self).y,
                delta == duration_nanos(d),
                forall|k: int|
                    0 <= k < i ==> (#[trigger] self.shots@[k])@ == before[k].update(delta),
                forall|k: int| i <= k < before.len() ==> (#[trigger] self.shots@[k])@ == before[k],
            decreases self.shots@.len() - i,
        {
            self.shots[i].update(d);
            i += 1;
        }
        let ghost moved = before.map_values(|l: LaserView| l.update(delta));
        let ghost keep = |l: LaserView| !l.destroyed();
        // `seen` shots have been looked at, and `i` of them stay
        let mut i: usize = 0;
        let ghost mut seen: int = 0;
        while i < self.shots.len()
            invariant
                self.x == old(self).x,
                self.y == old(self).y,
                keep == |l: LaserView| !l.destroyed(),
                0 <= seen <= moved.len(),
                i == moved.subrange(0, seen).filter(keep).len(),
                self@.shots == moved.subrange(0, seen).filter(keep) + moved.subrange(
                    seen,
                    moved.len() as int,
                ),
            decreases moved.len() - seen,
        {
            proof {
                assert(self@.shots[i as int] == moved[seen]);
                assert(moved.subrange(0, seen + 1).drop_last() =~= moved.subrange(0, seen));
                reveal(Seq::filter);
            }
            let ghost held = self@.shots;
            if self.shots[i].destroyed() {
                self.shots.remove(i);
                assert(self@.shots =~= held.remove(i as int));
            } else {
                i += 1;
            }
            proof {
                seen = seen + 1;
            }
        }
        assert(moved.subrange(0, seen) =~= moved);
    }
}

/// Whatever the player does, the ship stays on the bottom row inside the
/// board and never has more shots in flight than allowed, and every shot
/// stays a valid laser on the board.
pub proof fn lemma_player_stays_valid(p: PlayerView, delta: nat)
    requires
        p.wf(),
    ensures
        p.go_to_left().wf(),
        p.go_to_right().wf(),
        p.shoot().wf(),
        p.update(delta).wf(),
        PlayerView::fresh().wf(),
{
    let moved = p.shots.map_values(|l: LaserView| l.update(delta));
    let keep = |l: LaserView| !l.destroyed();
    let kept = moved.filter(keep);
    moved.lemma_filter_len(keep);
    assert forall|k: int| 0 <= k < kept.len() implies (#[trigger] kept[k]).wf()
        && kept[k].on_board() by {
        moved.lemma_filter_contains_rev(keep, kept[k]);
        let j = choose|j: int| 0 <= j < moved.len() && moved[j] == kept[k];
        crate::laser::lemma_laser_stays_valid(p.shots[j], delta);
    }
}

/// A cell the ship is asked to move to: one column to the left or to the
/// right.
pub enum Move {
    Left,
    Right,
}

impl PlayerView {
    /// The player after a run of moves, in order.
    pub open spec fn after_moves(self, moves: Seq<Move>) -> PlayerView
        decreases moves.len(),
    {
        if moves.len() == 0 {
            self
        } else {
            let before = self.after_moves(moves.drop_last());
            match moves.last() {
                Move::Left => before.go_to_left(),
                Move::Right => before.go_to_right(),
            }
        }
    }
}

/// No run of moves takes a ship that is on the board off it.
pub proof fn lemma_moves_stay_on_board(p: PlayerView, moves: Seq<Move>)
    requires
        0 <= p.x < NUM_COLS,
    ensures
        0 <= p.after_moves(moves).x <= NUM_COLS - 1,
        p.after_moves(moves).y == p.y,
        p.after_moves(moves).shots == p.shots,
    decreases moves.len(),
{
    if moves.len() > 0 {
        lemma_moves_stay_on_board(p, moves.drop_last());
    }
}

} // verus!
