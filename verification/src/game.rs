use vstd::prelude::*;

use crate::frame::{Drawable, Frame, BLANK};
use crate::invaders::{
    descended, grid_invader, has_invader_at, shifted, surviving_invaders, Invader, Invaders,
    INVADER_GLYPH,
};
use crate::player::{
    advance_shots, has_shot_at, some_shot_hits, surviving_shots, Player, Shot, PLAYER_GLYPH,
    SHOT_GLYPH,
};

verus! {

/// A key press, as the simulation core understands it.
#[derive(Clone, Copy, PartialEq, Eq, Debug)]
pub enum Key {
    Esc,
    Enter,
    Left,
    Right,
    Char(char),
    Other,
}

/// What a key press asks the game to do.
#[derive(Clone, Copy, PartialEq, Eq, Debug)]
pub enum Action {
    Quit,
    Shoot,
    MoveLeft,
    MoveRight,
    Ignore,
}

/// A named, fire-and-forget audio trigger.
#[derive(Clone, Copy, PartialEq, Eq, Debug)]
pub enum Cue {
    Startup,
    Pew,
    Explode,
    Move,
    Win,
    Lose,
}

/// How a tick left the session.
#[derive(Clone, Copy, PartialEq, Eq, Debug)]
pub enum Outcome {
    Continue,
    Quit,
    Win,
    Lose,
}

/// The action each recognised key maps to; every other key is ignored.
pub open spec fn action_of(key: Key) -> Action {
    match key {
        Key::Esc => Action::Quit,
        Key::Enter => Action::Shoot,
        Key::Left => Action::MoveLeft,
        Key::Right => Action::MoveRight,
        Key::Char(c) => if c == 'q' {
            Action::Quit
        } else if c == ' ' {
            Action::Shoot
        } else {
            Action::Ignore
        },
        Key::Other => Action::Ignore,
    }
}

/// Translate one key press to an action.
pub fn action_for_key(key: Key) -> (r: Action)
    ensures
        r == action_of(key),
{
    match key {
        Key::Esc => Action::Quit,
        Key::Enter => Action::Shoot,
        Key::Left => Action::MoveLeft,
        Key::Right => Action::MoveRight,
        Key::Char(c) => if c == 'q' {
            Action::Quit
        } else if c == ' ' {
            Action::Shoot
        } else {
            Action::Ignore
        },
        Key::Other => Action::Ignore,
    }
}

/// The cue's registered sound name.
pub open spec fn cue_name_spec(cue: Cue) -> Seq<char> {
    match cue {
        Cue::Startup => "startup"@,
        Cue::Pew => "pew"@,
        Cue::Explode => "explode"@,
        Cue::Move => "move"@,
        Cue::Win => "win"@,
        Cue::Lose => "lose"@,
    }
}

/// The name a cue's sound was registered under.
pub fn cue_name(cue: Cue) -> (r: String)
    ensures
        r@ == cue_name_spec(cue),
{
    match cue {
        Cue::Startup => "startup".to_owned(),
        Cue::Pew => "pew".to_owned(),
        Cue::Explode => "explode".to_owned(),
        Cue::Move => "move".to_owned(),
        Cue::Win => "win".to_owned(),
        Cue::Lose => "lose".to_owned(),
    }
}

/// What one handled key press asks the caller to do.
pub struct KeyEffect {
    /// The audio cue to play, if any.
    pub cue: Option<Cue>,
    /// Whether the session ends now on the player's request.
    pub quit: bool,
}

/// What one simulation tick hands back to the driving loop.
pub struct TickReport {
    /// The fully populated frame to ship to the renderer.
    pub frame: Frame,
    /// The swarm took a movement step: play its movement cue.
    pub moved: bool,
    /// At least one invader was destroyed: play the explosion cue.
    pub hit: bool,
    /// Whether and how the session ends after this tick.
    pub outcome: Outcome,
}

/// The projectiles after the player's time step.
pub open spec fn shots_after_update(p: Player, elapsed_ms: u64) -> Seq<Shot> {
    if p.shot_timer_fires(elapsed_ms) {
        advance_shots(p.shots@)
    } else {
        p.shots@
    }
}

/// The swarm positions after its time step.
pub open spec fn army_after_update(inv: Invaders, elapsed_ms: u64) -> Seq<Invader> {
    if !inv.timer_fires(elapsed_ms) {
        inv.army@
    } else if inv.at_edge() {
        descended(inv.army@)
    } else {
        shifted(inv.army@, inv.direction as int)
    }
}

/// The swarm direction after its time step.
pub open spec fn direction_after_update(inv: Invaders, elapsed_ms: u64) -> int {
    if inv.timer_fires(elapsed_ms) && inv.at_edge() {
        -inv.direction
    } else {
        inv.direction as int
    }
}

/// The whole game state the simulation thread owns: one player, one swarm.
pub struct Game {
    pub player: Player,
    pub invaders: Invaders,
}

impl Game {
    /// Player and swarm agree on the playfield dimensions.
    pub open spec fn wf(self) -> bool {
        &&& self.player.wf()
        &&& self.invaders.wf()
        &&& self.player.width == self.invaders.width
        &&& self.player.height == self.invaders.height
    }

    /// No invader has reached the bottom threshold: the session may go on.
    pub open spec fn live(self) -> bool {
        forall|i: int|
            0 <= i < self.invaders.army@.len() ==> (#[trigger] self.invaders.army@[i]).y + 1
                < self.invaders.height
    }

    /// A fresh session: the player centred on the bottom row, the starting
    /// swarm grid above it.
    pub fn new(width: usize, height: usize) -> (r: Game)
        requires
            width >= 1,
            height >= 2,
        ensures
            r.wf(),
            r.live(),
            r.player.width == width,
            r.player.height == height,
            r.invaders.width == width,
            r.invaders.height == height,
            r.player.x == width / 2,
            r.player.y == height - 1,
            r.player.shots@.len() == 0,
            r.player.shot_timer == 0,
            r.invaders.direction == 1i32,
            forall|x: usize, y: usize|
                #[trigger] r.invaders.army@.contains(Invader { x, y }) == grid_invader(
                    width as int,
                    height as int,
                    x as int,
                    y as int,
                ),
    {
        let player = Player::new(width, height);
        let invaders = Invaders::new(width, height);
        let r = Game { player, invaders };
        proof {
            assert forall|i: int|
                0 <= i < r.invaders.army@.len() implies (#[trigger] r.invaders.army@[i]).y + 1
                < r.invaders.height by {
                let iv = r.invaders.army@[i];
                assert(r.invaders.army@.contains(iv));
                assert(iv == (Invader { x: iv.x, y: iv.y }));
                assert(grid_invader(width as int, height as int, iv.x as int, iv.y as int));
            }
        }
        r
    }

    /// Apply one key press: quit ends the session with the losing cue and
    /// touches nothing; shoot spawns a projectile when the cap allows and
    /// asks for the shot cue; the move keys step the player, clamped to the
    /// playfield; everything else is ignored.
    pub fn handle_key(&mut self, key: Key) -> (r: KeyEffect)
        requires
            old(self).wf(),
        ensures
            final(self).wf(),
            final(self).invaders == old(self).invaders,
            final(self).live() == old(self).live(),
            final(self).player.width == old(self).player.width,
            final(self).player.height == old(self).player.height,
            final(self).player.y == old(self).player.y,
            final(self).player.shot_timer == old(self).player.shot_timer,
            r.quit == (action_of(key) == Action::Quit),
            action_of(key) == Action::Quit ==> final(self).player == old(self).player && r.cue
                == Some(Cue::Lose),
            action_of(key) == Action::Shoot ==> {
                &&& final(self).player.x == old(self).player.x
                &&& old(self).player.can_shoot() ==> {
                    &&& final(self).player.shots@ == old(self).player.shots@.push(
                        Shot { x: old(self).player.x, y: (old(self).player.y - 1) as usize },
                    )
                    &&& r.cue == Some(Cue::Pew)
                }
                &&& !old(self).player.can_shoot() ==> {
                    &&& final(self).player.shots@ == old(self).player.shots@
                    &&& r.cue is None
                }
            },
            action_of(key) == Action::MoveLeft ==> {
                &&& final(self).player.x == (if old(self).player.x > 0 {
                    old(self).player.x - 1
                } else {
                    0
                })
                &&& final(self).player.shots@ == old(self).player.shots@
                &&& r.cue is None
            },
            action_of(key) == Action::MoveRight ==> {
                &&& final(self).player.x == (if old(self).player.x + 1 < old(self).player.width {
                    old(self).player.x + 1
                } else {
                    old(self).player.width - 1
                })
                &&& final(self).player.shots@ == old(self).player.shots@
                &&& r.cue is None
            },
            action_of(key) == Action::Ignore ==> final(self).player == old(self).player && r.cue
                is None,
    {
        match action_for_key(key) {
            Action::Quit => KeyEffect { cue: Some(Cue::Lose), quit: true },
            Action::Shoot => {
                if self.player.shoot() {
                    KeyEffect { cue: Some(Cue::Pew), quit: false }
                } else {
                    KeyEffect { cue: None, quit: false }
                }
            },
            Action::MoveLeft => {
                self.player.move_left();
                KeyEffect { cue: None, quit: false }
            },
            Action::MoveRight => {
                self.player.move_right();
                KeyEffect { cue: None, quit: false }
            },
            Action::Ignore => KeyEffect { cue: None, quit: false },
        }
    }

    /// One simulation tick after the input phase: step the player's
    /// projectiles and the swarm, resolve collisions, draw both entities
    /// into a fresh frame, and report how the session stands.  The driving
    /// loop calls this only while the session is live — it stops on the
    /// first tick whose outcome is not `Continue`.
    pub fn advance(&mut self, elapsed_ms: u64) -> (r: TickReport)
        requires
            old(self).wf(),
            old(self).live(),
        ensures
            final(self).wf(),
            final(self).player.width == old(self).player.width,
            final(self).player.height == old(self).player.height,
            final(self).invaders.width == old(self).invaders.width,
            final(self).invaders.height == old(self).invaders.height,
            final(self).player.x == old(self).player.x,
            final(self).player.y == old(self).player.y,
            final(self).player.shots@ == surviving_shots(
                shots_after_update(old(self).player, elapsed_ms),
                army_after_update(old(self).invaders, elapsed_ms),
            ),
            final(self).invaders.army@ == surviving_invaders(
                army_after_update(old(self).invaders, elapsed_ms),
                shots_after_update(old(self).player, elapsed_ms),
            ),
            final(self).invaders.direction == direction_after_update(old(self).invaders, elapsed_ms),
            final(self).player.shot_timer == (if old(self).player.shot_timer_fires(elapsed_ms) {
                0
            } else {
                old(self).player.shot_timer + elapsed_ms
            }),
            r.moved == old(self).invaders.timer_fires(elapsed_ms),
            r.hit == some_shot_hits(
                shots_after_update(old(self).player, elapsed_ms),
                army_after_update(old(self).invaders, elapsed_ms),
            ),
            r.outcome == (if final(self).invaders.army@.len() == 0 {
                Outcome::Win
            } else if final(self).invaders.reached_bottom_spec() {
                Outcome::Lose
            } else {
                Outcome::Continue
            }),
            r.outcome == Outcome::Continue ==> final(self).live(),
            r.frame.wf(),
            r.frame.width == old(self).player.width,
            r.frame.height == old(self).player.height,
            forall|x: int, y: int|
                r.frame.in_bounds(x, y) ==> r.frame.cell(x, y) == (if has_invader_at(
                    final(self).invaders.army@,
                    x,
                    y,
                ) {
                    INVADER_GLYPH
                } else if has_shot_at(final(self).player.shots@, x, y) {
                    SHOT_GLYPH
                } else if x == final(self).player.x && y == final(self).player.y {
                    PLAYER_GLYPH
                } else {
                    BLANK
                }),
    {
        self.player.update(elapsed_ms);
        let moved = self.invaders.update(elapsed_ms);
        let hit = self.player.detect_hit(&mut self.invaders);
        let mut frame = Frame::new(self.player.width, self.player.height);
        self.player.draw(&mut frame);
        self.invaders.draw(&mut frame);
        let outcome = if self.invaders.all_killed() {
            Outcome::Win
        } else if self.invaders.reached_bottom() {
            Outcome::Lose
        } else {
            Outcome::Continue
        };
        TickReport { frame, moved, hit, outcome }
    }
}

} // verus!
