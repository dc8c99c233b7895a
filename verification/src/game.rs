//! The game itself: the player and the fleet, the score, and the state
//! machine that ties input and time to both.

use crate::clock::{duration_nanos, millis_to_nanos, NANOS_PER_MILLI};
use crate::enemies::{count_dead, Enemies, FleetView};
use crate::laser::LaserView;
use crate::player::{Player, PlayerView};
use crate::sound::Sound;
use std::time::Duration;
use vstd::prelude::*;

verus! {

/// Whether a game is running or how it ended.
#[derive(Clone, Copy, Debug, PartialEq, Eq)]
pub enum GameState {
    Playing,
    GameOver,
    Win,
}

/// A key press, as far as the game tells keys apart.
#[derive(Clone, Copy, Debug, PartialEq, Eq)]
pub enum Key {
    Left,
    Right,
    Space,
    Enter,
    Char(char),
    Esc,
}

impl Key {
    /// Whether the key fires a shot.
    pub open spec fn fires(self) -> bool {
        self is Space || self is Enter || self == Key::Char(' ')
    }

    /// Whether the key asks to quit.
    pub open spec fn quits(self) -> bool {
        self is Esc || self == Key::Char('q') || self == Key::Char('Q')
    }

    /// Whether the key restarts a game that has ended.
    pub open spec fn restarts(self) -> bool {
        self == Key::Char('r') || self == Key::Char('R')
    }
}

/// A whole game.
pub struct App {
    pub player: Player,
    pub enemies: Enemies,
    /// Invaders killed in the game that is running or has just ended.
    pub destroyed_count: usize,
    /// The best score of the games that have ended so far.
    pub high_score: usize,
    pub state: GameState,
    /// Set once the player has asked to leave.
    pub should_quit: bool,
}

/// The mathematical content of an [`App`].
pub struct GameView {
    pub player: PlayerView,
    pub fleet: FleetView,
    pub destroyed_count: nat,
    pub high_score: nat,
    pub state: GameState,
    pub should_quit: bool,
}

impl View for App {
    type V = GameView;

    open spec fn view(&self) -> GameView {
        GameView {
            player: self.player@,
            fleet: self.enemies@,
            destroyed_count: self.destroyed_count as nat,
            high_score: self.high_score as nat,
            state: self.state,
            should_quit: self.should_quit,
        }
    }
}

impl GameView {
    /// A game that has just been started for the first time.
    pub open spec fn fresh() -> GameView {
        GameView {
            player: PlayerView::fresh(),
            fleet: FleetView::fresh(),
            destroyed_count: 0,
            high_score: 0,
            state: GameState::Playing,
            should_quit: false,
        }
    }

    /// The game after a restart: a new player and a new fleet, no kills,
    /// playing again. The high score and the wish to quit are kept.
    pub open spec fn restart(self) -> GameView {
        GameView {
            player: PlayerView::fresh(),
            fleet: FleetView::fresh(),
            destroyed_count: 0,
            state: GameState::Playing,
            ..self
        }
    }

    /// The number of invaders that a tick of `delta` nanoseconds kills in a
    /// running game.
    pub open spec fn kills(self, delta: nat) -> nat {
        self.fleet.update(delta).kills(self.player.update(delta).shots)
    }

    /// The game after a tick of `delta` nanoseconds. A game that has ended
    /// stays as it is. In a running game the player's shots move, then the
    /// fleet, then their collisions are resolved and scored; after that the
    /// game is won if the whole fleet is dead, and lost if not and an
    /// invader has reached the bottom row. When the game ends the high
    /// score rises to the score if that is higher.
    pub open spec fn tick(self, delta: nat) -> GameView {
        if self.state is Playing {
            let player = self.player.update(delta);
            let fleet = self.fleet.update(delta);
            let after = fleet.hit_by(player.shots);
            let score = self.destroyed_count + fleet.kills(player.shots);
            let state = if after.all_dead() {
                GameState::Win
            } else if after.reached_bottom() {
                GameState::GameOver
            } else {
                GameState::Playing
            };
            GameView {
                player: PlayerView { shots: fleet.shots_after(player.shots), ..player },
                fleet: after,
                destroyed_count: score,
                high_score: if !(state is Playing) && score > self.high_score {
                    score
                } else {
                    self.high_score
                },
                state,
                should_quit: self.should_quit,
            }
        } else {
            self
        }
    }

    /// Whether a tick keeps every number within the machine's range: the
    /// fleet can come down a row, and the score can take a kill for
    /// every shot.
    pub open spec fn can_tick(self) -> bool {
        self.state is Playing ==> self.fleet.can_descend() && self.destroyed_count
            + self.player.shots.len() <= usize::MAX
    }

    /// Whether a key press can be handled: a ship that is about to fire has
    /// a row above it.
    pub open spec fn can_handle(self, key: Key) -> bool {
        self.state is Playing && key.fires() && self.player.can_shoot() ==> self.player.y > 0
    }

    /// The game after a key press. While playing, the arrows move the ship,
    /// space and enter fire, `q` and escape ask to quit. After the end, `r`
    /// restarts, `q` and escape ask to quit. Any other key does nothing.
    pub open spec fn handle_key(self, key: Key) -> GameView {
        if self.state is Playing {
            if key is Left {
                GameView { player: self.player.go_to_left(), ..self }
            } else if key is Right {
                GameView { player: self.player.go_to_right(), ..self }
            } else if key.fires() {
                GameView { player: self.player.shoot(), ..self }
            } else if key.quits() {
                GameView { should_quit: true, ..self }
            } else {
                self
            }
        } else if key.restarts() {
            self.restart()
        } else if key.quits() {
            GameView { should_quit: true, ..self }
        } else {
            self
        }
    }

    /// The clips to play after a tick that killed `kills` invaders: the
    /// jingle of the ending if the game has ended, then the explosion if
    /// any invader was killed.
    pub open spec fn tick_sounds(self, kills: nat) -> Seq<Sound> {
        (match self.state {
            GameState::Playing => Seq::<Sound>::empty(),
            GameState::GameOver => seq![Sound::Lose],
            GameState::Win => seq![Sound::Win],
        }) + if kills > 0 {
            seq![Sound::Explode]
        } else {
            Seq::<Sound>::empty()
        }
    }

    /// The clip to play for a key press, if any: a move or a shot that took
    /// place, the farewell when a running game is quit, the startup jingle
    /// on a restart.
    pub open spec fn key_sound(self, key: Key) -> Option<Sound> {
        if self.state is Playing {
            if key is Left {
                if self.player.can_go_left() {
                    Some(Sound::Move)
                } else {
                    None
                }
            } else if key is Right {
                if self.player.can_go_right() {
                    Some(Sound::Move)
                } else {
                    None
                }
            } else if key.fires() {
                if self.player.can_shoot() {
                    Some(Sound::Pew)
                } else {
                    None
                }
            } else if key.quits() {
                Some(Sound::Lose)
            } else {
                None
            }
        } else if key.restarts() {
            Some(Sound::Startup)
        } else {
            None
        }
    }
}

/// Milliseconds between two ticks of the game.
pub const TICK_MILLIS: u64 = 16;

/// Whether a tick is due when `since_tick` has passed since the last one.
pub fn tick_due(since_tick: Duration) -> (due: bool)
    ensures
        due == (duration_nanos(since_tick) >= millis_to_nanos(TICK_MILLIS)),
{
    since_tick.as_nanos() >= (TICK_MILLIS * NANOS_PER_MILLI) as u128
}

/// How long to wait for a key when `since_tick` has passed since the last
/// tick: the time until the next tick is due, and no time at all once it is.
pub fn poll_timeout(since_tick: Duration) -> (wait: Duration)
    ensures
        duration_nanos(wait) == if duration_nanos(since_tick) >= millis_to_nanos(TICK_MILLIS) {
            0
        } else {
            millis_to_nanos(TICK_MILLIS) - duration_nanos(since_tick)
        },
{
    Duration::from_millis(TICK_MILLIS).saturating_sub(since_tick)
}

impl App {
    /// A game ready to be played.
    pub fn new() -> (app: Self)
        ensures
            app@ == GameView::fresh(),
            app@.wf(),
    {
        proof {
            lemma_fresh_is_valid();
        }
        Self {
            player: Player::new(),
            enemies: Enemies::new(),
            destroyed_count: 0,
            high_score: 0,
            state: GameState::Playing,
            should_quit: false,
        }
    }

    /// Starts a new game, keeping the high score.
    pub fn restart(&mut self)
        ensures
            final(self)@ == old(self)@.restart(),
            final(self)@.wf(),
    {
        proof {
            lemma_fresh_is_valid();
        }
        self.player = Player::new();
        self.enemies = Enemies::new();
        self.destroyed_count = 0;
        self.state = GameState::Playing;
    }

    /// Whether [`App::tick`] may be called.
    pub fn can_tick(&self) -> (ok: bool)
        ensures
            ok == self@.can_tick(),
    {
        match self.state {
            GameState::Playing => self.enemies.can_descend() && self.destroyed_count
                <= usize::MAX - self.player.shots.len(),
            _ => true,
        }
    }

    /// Advances the game by `delta` and returns the number of invaders that
    /// this killed.
    pub fn tick(&mut self, delta: Duration) -> (kills: usize)
        requires
            old(self)@.can_tick(),
        ensures
            final(self)@ == old(self)@.tick(duration_nanos(delta)),
            kills == if old(self).state is Playing {
                old(self)@.kills(duration_nanos(delta))
            } else {
                0
            },
            final(self)@.high_score >= old(self)@.high_score,
            old(self)@.wf() ==> final(self)@.wf(),
    {
        proof {
            if self@.wf() {
                lemma_step_keeps_valid(self@, Step::Tick(duration_nanos(delta)));
            }
        }
        match self.state {
            GameState::Playing => {
                let ghost nanos = duration_nanos(delta);
                let ghost moved = self@.player.shots.map_values(|l: LaserView| l.update(nanos));
                self.player.update(delta);
                self.enemies.update(delta);
                proof {
                    moved.lemma_filter_len(|l: LaserView| !l.destroyed());
                }
                let destroyed = self.enemies.hit_by(&mut self.player.shots);
                if destroyed > 0 {
                    self.destroyed_count += destroyed;
                }
                if self.enemies.all_dead() {
                    self.state = GameState::Win;
                    if self.destroyed_count > self.high_score {
                        self.high_score = self.destroyed_count;
                    }
                } else if self.enemies.reached_bottom() {
                    self.state = GameState::GameOver;
                    if self.destroyed_count > self.high_score {
                        self.high_score = self.destroyed_count;
                    }
                }
                destroyed
            },
            _ => 0,
        }
    }

    /// The clips to play after a tick that returned `kills`.
    pub fn tick_sounds(&self, kills: usize) -> (cues: Vec<Sound>)
        ensures
            cues@ == self@.tick_sounds(kills as nat),
    {
        let mut cues: Vec<Sound> = Vec::new();
        match self.state {
            GameState::Playing => {},
            GameState::GameOver => {
                cues.push(Sound::Lose);
            },
            GameState::Win => {
                cues.push(Sound::Win);
            },
        }
        if kills > 0 {
            cues.push(Sound::Explode);
        }
        cues
    }

    /// Whether [`App::handle_key`] may be called with `key`.
    pub fn can_handle(&self, key: Key) -> (ok: bool)
        ensures
            ok == self@.can_handle(key),
    {
        let fires = match key {
            Key::Space | Key::Enter | Key::Char(' ') => true,
            _ => false,
        };
        match self.state {
            GameState::Playing => !(fires && self.player.shots.len() < crate::player::MAX_SHOTS)
                || self.player.y > 0,
            _ => true,
        }
    }

    /// Handles a key press and returns the clip to play for it, if any.
    pub fn handle_key(&mut self, key: Key) -> (cue: Option<Sound>)
        requires
            old(self)@.can_handle(key),
        ensures
            final(self)@ == old(self)@.handle_key(key),
            cue == old(self)@.key_sound(key),
            old(self)@.wf() ==> final(self)@.wf(),
    {
        proof {
            if self@.wf() {
                lemma_step_keeps_valid(self@, Step::Press(key));
            }
        }
        match self.state {
            GameState::Playing => match key {
                Key::Left => {
                    if self.player.go_to_left() {
                        Some(Sound::Move)
                    } else {
                        None
                    }
                },
                Key::Right => {
                    if self.player.go_to_right() {
                        Some(Sound::Move)
                    } else {
                        None
                    }
                },
                Key::Space | Key::Enter | Key::Char(' ') => {
                    if self.player.shoot() {
                        Some(Sound::Pew)
                    } else {
                        None
                    }
                },
                Key::Esc | Key::Char('q') | Key::Char('Q') => {
                    self.should_quit = true;
                    Some(Sound::Lose)
                },
                _ => None,
            },
            _ => match key {
                Key::Char('r') | Key::Char('R') => {
                    self.restart();
                    Some(Sound::Startup)
                },
                Key::Esc | Key::Char('q') | Key::Char('Q') => {
                    self.should_quit = true;
                    None
                },
                _ => None,
            },
        }
    }
}

/// One thing that happens to a game: time passes, a key is pressed, or the
/// game is restarted.
pub enum Step {
    Tick(nat),
    Press(Key),
    Restart,
}

impl GameView {
    /// A state that play can reach. The player and the fleet are valid and
    /// on the board, a running game has no invader on the bottom row, and
    /// no more kills are scored than invaders are dead.
    pub open spec fn wf(self) -> bool {
        &&& self.player.wf()
        &&& self.fleet.wf()
        &&& self.fleet.on_board()
        &&& self.state is Playing ==> !self.fleet.reached_bottom()
        &&& self.destroyed_count <= count_dead(self.fleet.army, self.fleet.army.len() as int)
    }

    /// The game after one step.
    pub open spec fn step(self, step: Step) -> GameView {
        match step {
            Step::Tick(delta) => self.tick(delta),
            Step::Press(key) => self.handle_key(key),
            Step::Restart => self.restart(),
        }
    }

    /// Whether `step` ends a running game.
    pub open spec fn ends_with(self, step: Step) -> bool {
        self.state is Playing && !(self.step(step).state is Playing)
    }

    /// The game after a run of steps, in order.
    pub open spec fn run(self, steps: Seq<Step>) -> GameView
        decreases steps.len(),
    {
        if steps.len() == 0 {
            self
        } else {
            self.run(steps.drop_last()).step(steps.last())
        }
    }

    /// The best of the high score at the start and the scores with which
    /// games ended during a run of steps.
    pub open spec fn best(self, steps: Seq<Step>) -> nat
        decreases steps.len(),
    {
        if steps.len() == 0 {
            self.high_score
        } else {
            let before = self.run(steps.drop_last());
            let after = before.step(steps.last());
            let so_far = self.best(steps.drop_last());
            if before.ends_with(steps.last()) && after.destroyed_count > so_far {
                after.destroyed_count
            } else {
                so_far
            }
        }
    }
}

/// A tick of a running game ends it in a win if the whole fleet is dead
/// afterwards, whether or not an invader has reached the bottom row; it
/// ends it in a loss if an invader is alive on the bottom row; and else the
/// game goes on. A game that has ended is not changed by a tick.
pub proof fn lemma_win_before_loss(g: GameView, delta: nat)
    ensures
        !(g.state is Playing) ==> g.tick(delta) == g,
        g.state is Playing && g.tick(delta).fleet.all_dead() ==> g.tick(delta).state is Win,
        g.state is Playing && !g.tick(delta).fleet.all_dead() && g.tick(
            delta,
        ).fleet.reached_bottom() ==> g.tick(delta).state is GameOver,
        g.state is Playing && !g.tick(delta).fleet.all_dead() && !g.tick(
            delta,
        ).fleet.reached_bottom() ==> g.tick(delta).state is Playing,
{
}

/// No step lowers the high score, and a step that ends a game leaves the
/// high score at the higher of itself and the final score.
pub proof fn lemma_high_score_step(g: GameView, step: Step)
    ensures
        g.step(step).high_score >= g.high_score,
        g.ends_with(step) ==> g.step(step).high_score == if g.step(step).destroyed_count
            > g.high_score {
            g.step(step).destroyed_count
        } else {
            g.high_score
        },
        !g.ends_with(step) ==> g.step(step).high_score == g.high_score,
{
}

/// Over any run of steps, restarts included, the high score never falls,
/// and it is the best of its value at the start and the scores with which
/// games ended on the way.
pub proof fn lemma_high_score_is_best(g: GameView, steps: Seq<Step>)
    ensures
        g.run(steps).high_score >= g.high_score,
        g.run(steps).high_score == g.best(steps),
    decreases steps.len(),
{
    if steps.len() > 0 {
        lemma_high_score_is_best(g, steps.drop_last());
        lemma_high_score_step(g.run(steps.drop_last()), steps.last());
    }
}

/// A restart gives a new player and a new fleet, no kills, and a running
/// game, and keeps the high score.
pub proof fn lemma_restart_resets(g: GameView)
    ensures
        g.restart().player == PlayerView::fresh(),
        g.restart().fleet == FleetView::fresh(),
        g.restart().destroyed_count == 0,
        g.restart().state is Playing,
        g.restart().high_score == g.high_score,
        g.restart() == (GameView {
            high_score: g.high_score,
            should_quit: g.should_quit,
            ..GameView::fresh()
        }),
{
}

/// A reachable state allows every call: a tick keeps all numbers in range
/// and every key can be handled.
pub proof fn lemma_valid_game_can_go_on(g: GameView, key: Key)
    requires
        g.wf(),
    ensures
        g.can_tick(),
        g.can_handle(key),
{
    crate::enemies::lemma_fleet_stays_on_board(g.fleet, 0, g.player.shots);
    lemma_dead_at_most(g.fleet.army, g.fleet.army.len() as int);
}

/// No more invaders are dead among the first `n` than there are.
proof fn lemma_dead_at_most(army: Seq<crate::enemies::EnemyView>, n: int)
    requires
        0 <= n,
    ensures
        count_dead(army, n) <= n,
    decreases n,
{
    if n > 0 {
        lemma_dead_at_most(army, n - 1);
    }
}

/// Every step takes a reachable state to a reachable state, and a new game
/// is one.
pub proof fn lemma_step_keeps_valid(g: GameView, step: Step)
    requires
        g.wf(),
    ensures
        g.step(step).wf(),
        GameView::fresh().wf(),
{
    lemma_fresh_is_valid();
    match step {
        Step::Tick(delta) => {
            lemma_tick_keeps_valid(g, delta);
        },
        Step::Press(key) => {
            crate::player::lemma_player_stays_valid(g.player, 0);
        },
        Step::Restart => {},
    }
}

/// A new game is a reachable state, and so is every restarted game.
proof fn lemma_fresh_is_valid()
    ensures
        GameView::fresh().wf(),
        forall|g: GameView| (#[trigger] g.restart()).wf(),
{
    crate::enemies::lemma_new_fleet_is_valid();
    assert(PlayerView::fresh().wf());
    assert forall|g: GameView| (#[trigger] g.restart()).wf() by {
        assert(g.restart().fleet == FleetView::fresh());
    }
}

/// A tick takes a reachable state to a reachable state.
proof fn lemma_tick_keeps_valid(g: GameView, delta: nat)
    requires
        g.wf(),
    ensures
        g.tick(delta).wf(),
{
    if g.state is Playing {
        let player = g.player.update(delta);
        let fleet = g.fleet.update(delta);
        let after = fleet.hit_by(player.shots);
        let shots = fleet.shots_after(player.shots);
        crate::player::lemma_player_stays_valid(g.player, delta);
        crate::enemies::lemma_fleet_stays_valid(g.fleet, delta, player.shots);
        crate::enemies::lemma_fleet_stays_valid(fleet, delta, player.shots);
        crate::enemies::lemma_fleet_stays_on_board(g.fleet, delta, player.shots);
        crate::enemies::lemma_fleet_stays_on_board(fleet, delta, player.shots);
        crate::enemies::lemma_kills_are_deaths(fleet, player.shots, fleet.army.len() as int);
        assert forall|k: int| 0 <= k < shots.len() implies (#[trigger] shots[k]).wf()
            && shots[k].on_board() by {
            crate::laser::lemma_laser_stays_valid(player.shots[k], delta);
        }
    }
}

/// Every state that play reaches from a reachable state is reachable. So at
/// all times the ship is on the board, at most two shots are in flight,
/// and the next call is allowed.
pub proof fn lemma_run_keeps_valid(g: GameView, steps: Seq<Step>)
    requires
        g.wf(),
    ensures
        g.run(steps).wf(),
        0 <= g.run(steps).player.x <= crate::NUM_COLS - 1,
        g.run(steps).player.shots.len() <= crate::player::MAX_SHOTS,
    decreases steps.len(),
{
    if steps.len() > 0 {
        lemma_run_keeps_valid(g, steps.drop_last());
        lemma_step_keeps_valid(g.run(steps.drop_last()), steps.last());
    }
}

} // verus!
