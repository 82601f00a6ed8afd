//! The rules of the arcade run: modes, shields, score, waves and the
//! controls that steer them.
//!
//! The continuous part of a run (positions, speed, distance travelled) is
//! measured by the caller; this module keeps the discrete state and decides
//! what each frame, key and pointer press does to it.

use vstd::prelude::*;
use crate::text::str_eq;

verus! {

/// Shields a run starts with, and the most it can hold.
pub const MAX_SHIELDS: u32 = 5;

/// Points per wave: the wave is one more than the score divided by this.
pub const POINTS_PER_WAVE: u32 = 1600;

/// Points a collected pickup is worth.
pub const PICKUP_POINTS: u32 = 500;

/// The random seed of a game that has never been started.
pub const GAME_SEED: u32 = 0x2084_1986;

/// What each start adds (wrapping) to the seed.
pub const SEED_STEP: u32 = 0x9e37_79b9;

#[derive(Clone, Copy, Debug, PartialEq, Eq, Structural)]
pub enum GameMode {
    Attract,
    Playing,
    GameOver,
}

/// Which controls are held.
#[derive(Clone, Copy, Debug, PartialEq, Eq, Structural)]
pub struct InputState {
    pub left: bool,
    pub right: bool,
    pub boost: bool,
}

impl Default for InputState {
    fn default() -> (input: Self)
        ensures
            input == (InputState { left: false, right: false, boost: false }),
    {
        InputState { left: false, right: false, boost: false }
    }
}

impl InputState {
    /// The steering direction the held keys give: -1 for left, 1 for right,
    /// 0 for both or neither.
    pub fn steering(&self) -> (dx: i32)
        ensures
            dx == (if self.right { 1int } else { 0 }) - (if self.left { 1int } else { 0 }),
    {
        let mut dx: i32 = 0;
        if self.left {
            dx = dx - 1;
        }
        if self.right {
            dx = dx + 1;
        }
        dx
    }
}

/// The discrete state of a game, as plain values.
pub struct GameView {
    pub mode: GameMode,
    pub paused: bool,
    pub input: InputState,
    pub score: u32,
    pub shields: u32,
    pub wave: u32,
    pub rng: u32,
}

/// The wave that a score belongs to.
pub open spec fn wave_for(score: u32) -> int {
    1 + score / POINTS_PER_WAVE
}

/// What holds of every game state: at most [`MAX_SHIELDS`] shields, the wave
/// matches the score, and a game in play has a shield left.
pub open spec fn consistent(v: GameView) -> bool {
    &&& v.shields <= MAX_SHIELDS
    &&& v.wave == wave_for(v.score)
    &&& v.mode == GameMode::Playing ==> v.shields >= 1
}

/// A game that has just been created with the given seed.
pub open spec fn fresh_game(rng: u32) -> GameView {
    GameView {
        mode: GameMode::Attract,
        paused: false,
        input: InputState { left: false, right: false, boost: false },
        score: 0,
        shields: MAX_SHIELDS,
        wave: 1,
        rng,
    }
}

/// The seed a start derives from the previous one.
pub open spec fn next_seed(rng: u32) -> u32 {
    ((rng as nat + SEED_STEP as nat) % 0x1_0000_0000) as u32
}

/// The game that a start produces from `v`: everything fresh, in play,
/// with the next seed.
pub open spec fn started(v: GameView) -> GameView {
    GameView { mode: GameMode::Playing, ..fresh_game(next_seed(v.rng)) }
}

/// Frame updates and controls act only while a game is in play and not paused.
pub open spec fn running(v: GameView) -> bool {
    v.mode == GameMode::Playing && !v.paused
}

/// Hitting an obstacle costs a shield and ends the run when none is left;
/// collecting a pickup then scores and restores a shield up to the maximum.
pub open spec fn after_hits(v: GameView, hit: bool, collected: bool) -> GameView {
    let shields1 = if hit { if v.shields == 0 { 0 } else { (v.shields - 1) as u32 } } else { v.shields };
    let mode1 = if hit && shields1 == 0 { GameMode::GameOver } else { v.mode };
    let score2 = if collected { sat_add(v.score, PICKUP_POINTS) } else { v.score };
    let shields2 = if collected { if shields1 + 1 > MAX_SHIELDS { MAX_SHIELDS } else { (shields1 + 1) as u32 } } else { shields1 };
    GameView { mode: mode1, shields: shields2, score: score2, ..v }
}

/// `a + b`, or `u32::MAX` when that does not fit.
pub open spec fn sat_add(a: u32, b: u32) -> u32 {
    if a + b > u32::MAX { u32::MAX } else { (a + b) as u32 }
}

/// The state after one frame: nothing changes unless the game is running;
/// otherwise hits and pickups are resolved, the distance points are added
/// and the wave follows the score.
pub open spec fn after_frame(v: GameView, hit: bool, collected: bool, distance_points: u32) -> GameView {
    if !running(v) {
        v
    } else {
        let h = after_hits(v, hit, collected);
        let score = sat_add(h.score, distance_points);
        GameView { score, wave: wave_for(score) as u32, ..h }
    }
}

/// What a key is bound to.
pub enum KeyCommand {
    SteerLeft,
    SteerRight,
    Boost,
    Brake,
    Action,
    Confirm,
    Pause,
    Unbound,
}

/// The binding of each key name.
pub open spec fn key_command(key: Seq<char>) -> KeyCommand {
    if key == "ArrowLeft"@ || key == "a"@ || key == "A"@ {
        KeyCommand::SteerLeft
    } else if key == "ArrowRight"@ || key == "d"@ || key == "D"@ {
        KeyCommand::SteerRight
    } else if key == "ArrowUp"@ || key == "w"@ || key == "W"@ {
        KeyCommand::Boost
    } else if key == "ArrowDown"@ || key == "s"@ || key == "S"@ {
        KeyCommand::Brake
    } else if key == " "@ || key == "Spacebar"@ {
        KeyCommand::Action
    } else if key == "Enter"@ {
        KeyCommand::Confirm
    } else if key == "p"@ || key == "P"@ {
        KeyCommand::Pause
    } else {
        KeyCommand::Unbound
    }
}

/// What a key event did: nothing (the key is not bound, and the event is
/// left to the page), something, or a new start of the game.
#[derive(Clone, Copy, Debug, PartialEq, Eq, Structural)]
pub enum KeyOutcome {
    Unbound,
    Handled,
    Started,
}

/// The state and outcome of a press (`pressed`) or release of a key bound to `cmd`.
pub open spec fn after_key(v: GameView, cmd: KeyCommand, pressed: bool) -> (GameView, KeyOutcome) {
    match cmd {
        KeyCommand::SteerLeft => (GameView { input: InputState { left: pressed, ..v.input }, ..v }, KeyOutcome::Handled),
        KeyCommand::SteerRight => (GameView { input: InputState { right: pressed, ..v.input }, ..v }, KeyOutcome::Handled),
        KeyCommand::Boost => (GameView { input: InputState { boost: pressed, ..v.input }, ..v }, KeyOutcome::Handled),
        KeyCommand::Brake => (GameView { input: InputState { boost: false, ..v.input }, ..v }, KeyOutcome::Handled),
        KeyCommand::Action => if pressed {
            if v.mode != GameMode::Playing {
                (started(v), KeyOutcome::Started)
            } else {
                (GameView { input: InputState { boost: true, ..v.input }, ..v }, KeyOutcome::Handled)
            }
        } else {
            (GameView { input: InputState { boost: false, ..v.input }, ..v }, KeyOutcome::Handled)
        },
        KeyCommand::Confirm => if pressed && v.mode != GameMode::Playing {
            (started(v), KeyOutcome::Started)
        } else {
            (v, KeyOutcome::Handled)
        },
        KeyCommand::Pause => if pressed && v.mode == GameMode::Playing {
            (GameView { paused: !v.paused, ..v }, KeyOutcome::Handled)
        } else {
            (v, KeyOutcome::Handled)
        },
        KeyCommand::Unbound => (v, KeyOutcome::Unbound),
    }
}

/// The state after a pointer press: a game not in play starts, and the
/// pointer boosts.
pub open spec fn after_pointer_down(v: GameView) -> GameView {
    let s = if v.mode != GameMode::Playing { started(v) } else { v };
    GameView { input: InputState { boost: true, ..s.input }, ..s }
}

/// The banner the display shows over the track, if any.
pub open spec fn marquee_of(v: GameView) -> Option<Seq<char>> {
    if v.mode == GameMode::Attract {
        Some("NEON GRID 2084  START"@)
    } else if v.mode == GameMode::GameOver {
        Some("GAME OVER  START"@)
    } else if v.paused {
        Some("PAUSED"@)
    } else {
        None
    }
}

/// Frames keep every state consistent and never lower the score.
pub proof fn lemma_frame_keeps_consistency(v: GameView, hit: bool, collected: bool, distance_points: u32)
    requires
        consistent(v),
    ensures
        consistent(after_frame(v, hit, collected, distance_points)),
        after_frame(v, hit, collected, distance_points).score >= v.score,
{
}

/// While the game is not running (attract, game over or paused), frames
/// change nothing.
pub proof fn lemma_idle_frame(v: GameView, hit: bool, collected: bool, distance_points: u32)
    requires
        !running(v),
    ensures
        after_frame(v, hit, collected, distance_points) == v,
{
}

/// A frame without a hit keeps a running game in play and loses no shield.
pub proof fn lemma_frame_without_hit(v: GameView, collected: bool, distance_points: u32)
    requires
        consistent(v),
        running(v),
    ensures
        after_frame(v, false, collected, distance_points).mode == GameMode::Playing,
        after_frame(v, false, collected, distance_points).shields >= v.shields,
{
}

/// A hit on the last shield ends the run, whatever else happens in that frame.
pub proof fn lemma_last_shield(v: GameView, collected: bool, distance_points: u32)
    requires
        running(v),
        v.shields == 1,
    ensures
        after_frame(v, true, collected, distance_points).mode == GameMode::GameOver,
{
}

/// Pressing pause twice during play gives back the same state.
pub proof fn lemma_pause_twice(v: GameView)
    requires
        v.mode == GameMode::Playing,
    ensures
        after_key(after_key(v, KeyCommand::Pause, true).0, KeyCommand::Pause, true).0 == v,
{
}

/// Holding a steering or boost key and letting it go leaves it released, and
/// touches nothing else.
pub proof fn lemma_press_release(v: GameView, cmd: KeyCommand)
    requires
        cmd is SteerLeft || cmd is SteerRight || cmd is Boost,
    ensures
        ({
            let after = after_key(after_key(v, cmd, true).0, cmd, false).0;
            &&& after.input == (match cmd {
                KeyCommand::SteerLeft => InputState { left: false, ..v.input },
                KeyCommand::SteerRight => InputState { right: false, ..v.input },
                _ => InputState { boost: false, ..v.input },
            })
            &&& after == GameView { input: after.input, ..v }
        }),
{
}

/// A start forgets everything about the previous game but its seed, and
/// always moves the seed on.
pub proof fn lemma_start_forgets(v1: GameView, v2: GameView)
    requires
        v1.rng == v2.rng,
    ensures
        started(v1) == started(v2),
        started(v1).rng != v1.rng,
        consistent(started(v1)),
{
}

/// What one frame of a running game does, in numbers: the score gains 500
/// for a pickup plus the frame's distance points (stopping at `u32::MAX`),
/// the wave follows the score, a hit costs one shield and a pickup restores
/// one up to five, and the run ends exactly when a hit takes the last
/// shield. Pause, controls and seed are untouched.
pub proof fn lemma_frame_outcome(v: GameView, hit: bool, collected: bool, distance_points: u32)
    requires
        consistent(v),
        running(v),
    ensures
        ({
            let r = after_frame(v, hit, collected, distance_points);
            let gained = v.score as int + (if collected { 500int } else { 0 }) + distance_points as int;
            let kept = v.shields as int - (if hit { 1int } else { 0 }) + (if collected { 1int } else { 0 });
            &&& r.score as int == if gained > 0xffff_ffff { 0xffff_ffffint } else { gained }
            &&& r.wave as int == 1 + r.score as int / 1600
            &&& r.shields as int == if kept > 5 { 5 } else { kept }
            &&& r.mode == if hit && v.shields == 1 { GameMode::GameOver } else { GameMode::Playing }
            &&& r.paused == v.paused
            &&& r.input == v.input
            &&& r.rng == v.rng
        }),
{
}

/// A start gives a run in play with no score, five shields, the first wave,
/// no pause and no control held, and a seed that has moved on by
/// `0x9e3779b9` (mod 2^32).
pub proof fn lemma_started_fields(v: GameView)
    ensures
        started(v).mode == GameMode::Playing,
        started(v).score == 0,
        started(v).shields == 5,
        started(v).wave == 1,
        !started(v).paused,
        !started(v).input.left && !started(v).input.right && !started(v).input.boost,
        started(v).rng as int == (v.rng as int + 0x9e37_79b9) % 0x1_0000_0000,
{
}

/// The key bindings, one by one: arrows and WASD steer, boost and brake;
/// Space and Spacebar act; Enter confirms; P pauses (either case for letters).
pub proof fn lemma_key_bindings()
    ensures
        key_command("ArrowLeft"@) is SteerLeft,
        key_command("a"@) is SteerLeft,
        key_command("A"@) is SteerLeft,
        key_command("ArrowRight"@) is SteerRight,
        key_command("d"@) is SteerRight,
        key_command("D"@) is SteerRight,
        key_command("ArrowUp"@) is Boost,
        key_command("w"@) is Boost,
        key_command("W"@) is Boost,
        key_command("ArrowDown"@) is Brake,
        key_command("s"@) is Brake,
        key_command("S"@) is Brake,
        key_command(" "@) is Action,
        key_command("Spacebar"@) is Action,
        key_command("Enter"@) is Confirm,
        key_command("p"@) is Pause,
        key_command("P"@) is Pause,
{
    reveal_strlit("ArrowLeft");
    reveal_strlit("a");
    reveal_strlit("A");
    reveal_strlit("ArrowRight");
    reveal_strlit("d");
    reveal_strlit("D");
    reveal_strlit("ArrowUp");
    reveal_strlit("w");
    reveal_strlit("W");
    reveal_strlit("ArrowDown");
    reveal_strlit("s");
    reveal_strlit("S");
    reveal_strlit(" ");
    reveal_strlit("Spacebar");
    reveal_strlit("Enter");
    reveal_strlit("p");
    reveal_strlit("P");
    assert("ArrowLeft"@.len() == 9 && "ArrowLeft"@[0] == 'A');
    assert("ArrowLeft"@[5] == 'L');
    assert("a"@.len() == 1 && "a"@[0] == 'a');
    assert("A"@.len() == 1 && "A"@[0] == 'A');
    assert("ArrowRight"@.len() == 10 && "ArrowRight"@[0] == 'A');
    assert("ArrowRight"@[5] == 'R');
    assert("d"@.len() == 1 && "d"@[0] == 'd');
    assert("D"@.len() == 1 && "D"@[0] == 'D');
    assert("ArrowUp"@.len() == 7 && "ArrowUp"@[0] == 'A');
    assert("ArrowUp"@[5] == 'U');
    assert("w"@.len() == 1 && "w"@[0] == 'w');
    assert("W"@.len() == 1 && "W"@[0] == 'W');
    assert("ArrowDown"@.len() == 9 && "ArrowDown"@[0] == 'A');
    assert("ArrowDown"@[5] == 'D');
    assert("s"@.len() == 1 && "s"@[0] == 's');
    assert("S"@.len() == 1 && "S"@[0] == 'S');
    assert(" "@.len() == 1 && " "@[0] == ' ');
    assert("Spacebar"@.len() == 8 && "Spacebar"@[0] == 'S');
    assert("Enter"@.len() == 5 && "Enter"@[0] == 'E');
    assert("p"@.len() == 1 && "p"@[0] == 'p');
    assert("P"@.len() == 1 && "P"@[0] == 'P');
}

/// Pressing Space, Spacebar or Enter outside play (attract or game over)
/// starts a fresh run; pressing Space or Spacebar during play boosts and
/// changes nothing else.
pub proof fn lemma_action_keys(v: GameView)
    ensures
        v.mode != GameMode::Playing ==> {
            &&& after_key(v, key_command(" "@), true) == (started(v), KeyOutcome::Started)
            &&& after_key(v, key_command("Spacebar"@), true) == (started(v), KeyOutcome::Started)
            &&& after_key(v, key_command("Enter"@), true) == (started(v), KeyOutcome::Started)
            &&& started(v).mode == GameMode::Playing
            &&& started(v).score == 0
            &&& started(v).shields == 5
        },
        v.mode == GameMode::Playing ==> {
            &&& after_key(v, key_command(" "@), true)
                == (GameView { input: InputState { boost: true, ..v.input }, ..v }, KeyOutcome::Handled)
            &&& after_key(v, key_command("Spacebar"@), true)
                == (GameView { input: InputState { boost: true, ..v.input }, ..v }, KeyOutcome::Handled)
        },
{
    lemma_key_bindings();
}

/// After a pointer press the game is in play with the boost on; when it was
/// not in play before, the press started a fresh run (no score, five
/// shields, first wave, no pause, no steering, the next seed); otherwise
/// only the boost changed.
pub proof fn lemma_pointer_press(v: GameView)
    ensures
        after_pointer_down(v).mode == GameMode::Playing,
        after_pointer_down(v).input.boost,
        v.mode != GameMode::Playing ==> {
            let r = after_pointer_down(v);
            &&& r.score == 0
            &&& r.shields == 5
            &&& r.wave == 1
            &&& !r.paused
            &&& !r.input.left && !r.input.right
            &&& r.rng as int == (v.rng as int + 0x9e37_79b9) % 0x1_0000_0000
        },
        v.mode == GameMode::Playing ==> after_pointer_down(v)
            == (GameView { input: InputState { boost: true, ..v.input }, ..v }),
{
}

/// The discrete state of a game.
pub struct GameState {
    mode: GameMode,
    paused: bool,
    input: InputState,
    score: u32,
    shields: u32,
    wave: u32,
    rng: u32,
}

impl View for GameState {
    type V = GameView;

    closed spec fn view(&self) -> GameView {
        GameView {
            mode: self.mode,
            paused: self.paused,
            input: self.input,
            score: self.score,
            shields: self.shields,
            wave: self.wave,
            rng: self.rng,
        }
    }
}

impl GameState {
    #[verifier::type_invariant]
    closed spec fn inv(self) -> bool {
        consistent(self@)
    }

    fn from_view(mode: GameMode, paused: bool, input: InputState, score: u32, shields: u32, wave: u32, rng: u32) -> (g: Self)
        requires
            consistent(GameView { mode, paused, input, score, shields, wave, rng }),
        ensures
            g@ == (GameView { mode, paused, input, score, shields, wave, rng }),
    {
        GameState { mode, paused, input, score, shields, wave, rng }
    }

    /// A game in attract mode with full shields, no score and the first wave.
    pub fn new() -> (g: Self)
        ensures
            g@ == fresh_game(GAME_SEED),
            consistent(g@),
    {
        Self::from_view(GameMode::Attract, false, InputState::default(), 0, MAX_SHIELDS, 1, GAME_SEED)
    }

    /// Starts a new run: everything is reset as in [`GameState::new`], the
    /// game is in play, and the seed moves on by [`SEED_STEP`].
    pub fn start(&mut self)
        ensures
            final(self)@ == started(old(self)@),
            consistent(final(self)@),
    {
        let rng = self.rng.wrapping_add(SEED_STEP);
        *self = Self::from_view(GameMode::Playing, false, InputState::default(), 0, MAX_SHIELDS, 1, rng);
    }

    /// Whether frames currently advance the game.
    pub fn is_running(&self) -> (r: bool)
        ensures
            r == running(self@),
    {
        self.mode == GameMode::Playing && !self.paused
    }

    /// Ends a frame in which the caller moved the world: `hit` tells whether
    /// an obstacle was hit, `collected` whether a pickup was collected, and
    /// `distance_points` what the distance travelled scored. Nothing changes
    /// unless the game is running.
    pub fn update(&mut self, hit: bool, collected: bool, distance_points: u32)
        ensures
            final(self)@ == after_frame(old(self)@, hit, collected, distance_points),
            consistent(final(self)@),
    {
        proof {
            use_type_invariant(&*self);
        }
        if !self.is_running() {
            return;
        }
        let mut shields = self.shields;
        let mut mode = self.mode;
        let mut score = self.score;
        if hit {
            shields = shields.saturating_sub(1);
            if shields == 0 {
                mode = GameMode::GameOver;
            }
        }
        if collected {
            score = score.saturating_add(PICKUP_POINTS);
            shields = if shields + 1 > MAX_SHIELDS { MAX_SHIELDS } else { shields + 1 };
        }
        score = score.saturating_add(distance_points);
        let wave = 1 + score / POINTS_PER_WAVE;
        *self = Self::from_view(mode, self.paused, self.input, score, shields, wave, self.rng);
    }

    /// Applies a key press (`pressed`) or release, by key name.
    pub fn handle_key(&mut self, key: &str, pressed: bool) -> (outcome: KeyOutcome)
        ensures
            (final(self)@, outcome) == after_key(old(self)@, key_command(key@), pressed),
            consistent(final(self)@),
    {
        proof {
            use_type_invariant(&*self);
        }
        let cmd = command_for_key(key);
        match cmd {
            KeyCommand::SteerLeft => {
                self.set_input(InputState { left: pressed, ..self.input });
                KeyOutcome::Handled
            },
            KeyCommand::SteerRight => {
                self.set_input(InputState { right: pressed, ..self.input });
                KeyOutcome::Handled
            },
            KeyCommand::Boost => {
                self.set_input(InputState { boost: pressed, ..self.input });
                KeyOutcome::Handled
            },
            KeyCommand::Brake => {
                self.set_input(InputState { boost: false, ..self.input });
                KeyOutcome::Handled
            },
            KeyCommand::Action => {
                if pressed {
                    if self.mode != GameMode::Playing {
                        self.start();
                        KeyOutcome::Started
                    } else {
                        self.set_input(InputState { boost: true, ..self.input });
                        KeyOutcome::Handled
                    }
                } else {
                    self.set_input(InputState { boost: false, ..self.input });
                    KeyOutcome::Handled
                }
            },
            KeyCommand::Confirm => {
                if pressed && self.mode != GameMode::Playing {
                    self.start();
                    KeyOutcome::Started
                } else {
                    KeyOutcome::Handled
                }
            },
            KeyCommand::Pause => {
                if pressed && self.mode == GameMode::Playing {
                    let paused = !self.paused;
                    *self = Self::from_view(self.mode, paused, self.input, self.score, self.shields, self.wave, self.rng);
                }
                KeyOutcome::Handled
            },
            KeyCommand::Unbound => KeyOutcome::Unbound,
        }
    }

    /// A pointer press: a game not in play starts, and the pointer boosts.
    /// Returns whether the game started.
    pub fn press_pointer(&mut self) -> (started: bool)
        ensures
            final(self)@ == after_pointer_down(old(self)@),
            started == (old(self)@.mode != GameMode::Playing),
            consistent(final(self)@),
    {
        let started = self.mode != GameMode::Playing;
        if started {
            self.start();
        }
        self.set_input(InputState { boost: true, ..self.input });
        started
    }

    /// A release of the primary pointer ends the boost.
    pub fn release_pointer(&mut self)
        ensures
            final(self)@ == (GameView { input: InputState { boost: false, ..old(self)@.input }, ..old(self)@ }),
            consistent(final(self)@),
    {
        self.set_input(InputState { boost: false, ..self.input });
    }

    fn set_input(&mut self, input: InputState)
        ensures
            final(self)@ == (GameView { input, ..old(self)@ }),
            consistent(final(self)@),
    {
        proof {
            use_type_invariant(&*self);
        }
        *self = Self::from_view(self.mode, self.paused, input, self.score, self.shields, self.wave, self.rng);
    }

    /// The banner text for the current state, if one is shown.
    pub fn marquee(&self) -> (text: Option<&'static str>)
        ensures
            match marquee_of(self@) {
                Some(t) => text matches Some(s) && s@ == t,
                None => text is None,
            },
    {
        if self.mode == GameMode::Attract {
            Some("NEON GRID 2084  START")
        } else if self.mode == GameMode::GameOver {
            Some("GAME OVER  START")
        } else if self.paused {
            Some("PAUSED")
        } else {
            None
        }
    }

    pub fn mode(&self) -> (m: GameMode)
        ensures
            m == self@.mode,
    {
        self.mode
    }

    pub fn paused(&self) -> (p: bool)
        ensures
            p == self@.paused,
    {
        self.paused
    }

    pub fn input(&self) -> (i: InputState)
        ensures
            i == self@.input,
    {
        self.input
    }

    pub fn score(&self) -> (s: u32)
        ensures
            s == self@.score,
    {
        self.score
    }

    pub fn shields(&self) -> (s: u32)
        ensures
            s == self@.shields,
    {
        self.shields
    }

    pub fn wave(&self) -> (w: u32)
        ensures
            w == self@.wave,
    {
        self.wave
    }

    /// The seed of the current run, which the spawner is reset with.
    pub fn rng(&self) -> (r: u32)
        ensures
            r == self@.rng,
    {
        self.rng
    }
}

/// The binding of a key name.
pub fn command_for_key(key: &str) -> (cmd: KeyCommand)
    ensures
        cmd == key_command(key@),
{
    if str_eq(key, "ArrowLeft") || str_eq(key, "a") || str_eq(key, "A") {
        KeyCommand::SteerLeft
    } else if str_eq(key, "ArrowRight") || str_eq(key, "d") || str_eq(key, "D") {
        KeyCommand::SteerRight
    } else if str_eq(key, "ArrowUp") || str_eq(key, "w") || str_eq(key, "W") {
        KeyCommand::Boost
    } else if str_eq(key, "ArrowDown") || str_eq(key, "s") || str_eq(key, "S") {
        KeyCommand::Brake
    } else if str_eq(key, " ") || str_eq(key, "Spacebar") {
        KeyCommand::Action
    } else if str_eq(key, "Enter") {
        KeyCommand::Confirm
    } else if str_eq(key, "p") || str_eq(key, "P") {
        KeyCommand::Pause
    } else {
        KeyCommand::Unbound
    }
}

} // verus!
