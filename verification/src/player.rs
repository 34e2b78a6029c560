use vstd::prelude::*;

use crate::frame::{Drawable, Frame};
use crate::invaders::{has_invader_at, surviving_invaders, Invader, Invaders};

verus! {

/// How many projectiles may be live at once.
pub const MAX_SHOTS: usize = 2;

/// Milliseconds between two upward steps of the projectiles.
pub const SHOT_STEP_MS: u64 = 50;

/// The glyph the player is drawn with.
pub const PLAYER_GLYPH: char = 'A';

/// The glyph a projectile is drawn with.
pub const SHOT_GLYPH: char = '|';

/// A player projectile: a position that travels up one row per step.
#[derive(Clone, Copy, PartialEq, Eq, Structural, Debug)]
pub struct Shot {
    pub x: usize,
    pub y: usize,
}

impl Shot {
    /// The shot lies on a playfield of the given dimensions.
    pub open spec fn in_field(self, width: int, height: int) -> bool {
        self.x < width && self.y < height
    }
}

/// Some shot in `shots` sits exactly at `(x, y)`.
pub open spec fn has_shot_at(shots: Seq<Shot>, x: int, y: int) -> bool {
    exists|i: int| 0 <= i < shots.len() && shots[i].x == x && shots[i].y == y
}

/// One upward step of the projectiles: shots already on the top row leave
/// the playfield, every other shot moves up one row.
pub open spec fn advance_shots(shots: Seq<Shot>) -> Seq<Shot>
    decreases shots.len(),
{
    if shots.len() == 0 {
        Seq::empty()
    } else {
        let rest = advance_shots(shots.drop_last());
        let last = shots.last();
        if last.y > 0 {
            rest.push(Shot { x: last.x, y: (last.y - 1) as usize })
        } else {
            rest
        }
    }
}

/// The shot sits exactly on some live invader.
pub open spec fn shot_hits(shot: Shot, army: Seq<Invader>) -> bool {
    has_invader_at(army, shot.x as int, shot.y as int)
}

/// One clamped horizontal step of the player: left when `left` holds, right
/// otherwise; a no-op at the respective bound.
pub open spec fn moved_once(p: Player, left: bool) -> Player {
    if left {
        Player { x: if p.x > 0 { (p.x - 1) as usize } else { 0 }, ..p }
    } else {
        Player {
            x: if p.x + 1 < p.width {
                (p.x + 1) as usize
            } else {
                (p.width - 1) as usize
            },
            ..p
        }
    }
}

/// The player after a whole sequence of move keys, oldest first.
pub open spec fn after_moves(p: Player, moves: Seq<bool>) -> Player
    decreases moves.len(),
{
    if moves.len() == 0 {
        p
    } else {
        moved_once(after_moves(p, moves.drop_last()), moves.last())
    }
}

/// For every playfield and every sequence of left/right move keys, the
/// player's column stays within `[0, width - 1]`.
pub proof fn lemma_column_stays_in_bounds(p: Player, moves: Seq<bool>)
    requires
        p.wf(),
    ensures
        after_moves(p, moves).wf(),
        after_moves(p, moves).width == p.width,
        after_moves(p, moves).x < p.width,
    decreases moves.len(),
{
    if moves.len() > 0 {
        lemma_column_stays_in_bounds(p, moves.drop_last());
    }
}

/// Some projectile sits exactly on some invader.
pub open spec fn some_shot_hits(shots: Seq<Shot>, army: Seq<Invader>) -> bool {
    exists|i: int| 0 <= i < shots.len() && shot_hits(#[trigger] shots[i], army)
}

/// The shots that survive collision resolution: exactly those whose position
/// equals no invader's position, in their original order.
pub open spec fn surviving_shots(shots: Seq<Shot>, army: Seq<Invader>) -> Seq<Shot>
    decreases shots.len(),
{
    if shots.len() == 0 {
        Seq::empty()
    } else {
        let rest = surviving_shots(shots.drop_last(), army);
        if shot_hits(shots.last(), army) {
            rest
        } else {
            rest.push(shots.last())
        }
    }
}

/// Collision resolution keeps exactly the projectiles that sit on no
/// invader; every other projectile is removed and none is touched otherwise.
pub proof fn lemma_surviving_shots_exact(shots: Seq<Shot>, army: Seq<Invader>)
    ensures
        forall|s: Shot| #[trigger]
            surviving_shots(shots, army).contains(s) <==> (shots.contains(s) && !shot_hits(
                s,
                army,
            )),
    decreases shots.len(),
{
    if shots.len() > 0 {
        lemma_surviving_shots_exact(shots.drop_last(), army);
        let survivors = surviving_shots(shots, army);
        let rest = surviving_shots(shots.drop_last(), army);
        let last = shots.last();
        assert forall|s: Shot| #[trigger]
            survivors.contains(s) <==> (shots.contains(s) && !shot_hits(s, army)) by {
            if survivors.contains(s) {
                let k = choose|k: int| 0 <= k < survivors.len() && survivors[k] == s;
                if k < rest.len() {
                    assert(rest[k] == s);
                    assert(rest.contains(s));
                } else {
                    assert(s == last);
                }
                if rest.contains(s) {
                    let j = choose|j: int|
                        0 <= j < shots.drop_last().len() && shots.drop_last()[j] == s;
                    assert(shots[j] == s);
                    assert(shots.contains(s));
                } else {
                    assert(s == last && !shot_hits(last, army));
                    assert(shots[shots.len() - 1] == s);
                    assert(shots.contains(s));
                }
            }
            if shots.contains(s) && !shot_hits(s, army) {
                let j = choose|j: int| 0 <= j < shots.len() && shots[j] == s;
                if j < shots.len() - 1 {
                    assert(shots.drop_last()[j] == s);
                    assert(shots.drop_last().contains(s));
                    assert(rest.contains(s));
                    let k = choose|k: int| 0 <= k < rest.len() && rest[k] == s;
                    assert(survivors[k] == s);
                } else {
                    assert(s == last);
                    assert(survivors[survivors.len() - 1] == s);
                }
                assert(survivors.contains(s));
            }
        }
    }
}

/// The player: a clamped column on the bottom row, plus its live projectiles
/// and the timer that paces their upward steps.
pub struct Player {
    pub width: usize,
    pub height: usize,
    pub x: usize,
    pub y: usize,
    pub shots: Vec<Shot>,
    pub shot_timer: u64,
}

impl Player {
    /// Position clamped to the playfield, bottom row, and at most
    /// `MAX_SHOTS` projectiles, all on the playfield.
    pub open spec fn wf(self) -> bool {
        &&& self.width >= 1
        &&& self.height >= 2
        &&& self.x < self.width
        &&& self.y == self.height - 1
        &&& self.shots@.len() <= MAX_SHOTS
        &&& forall|i: int|
                0 <= i < self.shots@.len()
                    ==> #[trigger] self.shots@[i].in_field(self.width as int, self.height as int)
    }

    /// A projectile may be spawned: the cap is not yet reached.
    pub open spec fn can_shoot(self) -> bool {
        self.shots@.len() < MAX_SHOTS
    }

    /// The accumulated time reaches a projectile step.
    pub open spec fn shot_timer_fires(self, elapsed_ms: u64) -> bool {
        self.shot_timer + elapsed_ms >= SHOT_STEP_MS
    }

    /// A new player centred on the bottom row, with no live projectile.
    pub fn new(width: usize, height: usize) -> (r: Player)
        requires
            width >= 1,
            height >= 2,
        ensures
            r.wf(),
            r.width == width,
            r.height == height,
            r.x == width / 2,
            r.y == height - 1,
            r.shots@.len() == 0,
            r.shot_timer == 0,
    {
        Player {
            width,
            height,
            x: width / 2,
            y: height - 1,
            shots: Vec::new(),
            shot_timer: 0,
        }
    }

    /// Step one column left; a no-op at the left bound.
    pub fn move_left(&mut self)
        requires
            old(self).wf(),
        ensures
            final(self).wf(),
            *final(self) == moved_once(*old(self), true),
            final(self).x == (if old(self).x > 0 { old(self).x - 1 } else { 0 }),
            0 <= final(self).x < final(self).width,
            final(self).width == old(self).width,
            final(self).height == old(self).height,
            final(self).y == old(self).y,
            final(self).shots@ == old(self).shots@,
            final(self).shot_timer == old(self).shot_timer,
    {
        if self.x > 0 {
            self.x = self.x - 1;
        }
    }

    /// Step one column right; a no-op at the right bound.
    pub fn move_right(&mut self)
        requires
            old(self).wf(),
        ensures
            final(self).wf(),
            *final(self) == moved_once(*old(self), false),
            final(self).x == (if old(self).x + 1 < old(self).width {
                old(self).x + 1
            } else {
                old(self).width - 1
            }),
            0 <= final(self).x < final(self).width,
            final(self).width == old(self).width,
            final(self).height == old(self).height,
            final(self).y == old(self).y,
            final(self).shots@ == old(self).shots@,
            final(self).shot_timer == old(self).shot_timer,
    {
        if self.x + 1 < self.width {
            self.x = self.x + 1;
        }
    }

    /// Spawn a projectile one row above the player, unless the cap is
    /// reached.  Returns whether a projectile was spawned.
    pub fn shoot(&mut self) -> (r: bool)
        requires
            old(self).wf(),
        ensures
            final(self).wf(),
            r == old(self).can_shoot(),
            r ==> final(self).shots@ == old(self).shots@.push(
                Shot { x: old(self).x, y: (old(self).y - 1) as usize },
            ),
            r ==> final(self).shots@.len() == old(self).shots@.len() + 1,
            !r ==> final(self).shots@ == old(self).shots@,
            final(self).x == old(self).x,
            final(self).y == old(self).y,
            final(self).width == old(self).width,
            final(self).height == old(self).height,
            final(self).shot_timer == old(self).shot_timer,
    {
        if self.shots.len() < MAX_SHOTS {
            let shot = Shot { x: self.x, y: self.y - 1 };
            self.shots.push(shot);
            true
        } else {
            false
        }
    }

    /// Advance time: when the accumulated time reaches a step, every
    /// projectile moves up one row and those leaving the top are removed.
    pub fn update(&mut self, elapsed_ms: u64)
        requires
            old(self).wf(),
        ensures
            final(self).wf(),
            final(self).x == old(self).x,
            final(self).y == old(self).y,
            final(self).width == old(self).width,
            final(self).height == old(self).height,
            old(self).shot_timer_fires(elapsed_ms) ==> {
                &&& final(self).shots@ == advance_shots(old(self).shots@)
                &&& final(self).shot_timer == 0
            },
            !old(self).shot_timer_fires(elapsed_ms) ==> {
                &&& final(self).shots@ == old(self).shots@
                &&& final(self).shot_timer == old(self).shot_timer + elapsed_ms
            },
    {
        let total = self.shot_timer.saturating_add(elapsed_ms);
        if total >= SHOT_STEP_MS {
            self.shot_timer = 0;
            let ghost orig = self.shots@;
            let mut kept: Vec<Shot> = Vec::new();
            let mut i: usize = 0;
            while i < self.shots.len()
                invariant
                    i <= self.shots@.len(),
                    self.shots@ == orig,
                    kept@ == advance_shots(orig.take(i as int)),
                decreases self.shots@.len() - i,
            {
                let shot = self.shots[i];
                proof {
                    assert(orig.take(i + 1).drop_last() =~= orig.take(i as int));
                    assert(orig.take(i + 1).last() == orig[i as int]);
                }
                if shot.y > 0 {
                    kept.push(Shot { x: shot.x, y: shot.y - 1 });
                }
                i = i + 1;
            }
            proof {
                assert(orig.take(orig.len() as int) =~= orig);
                assert(forall|j: int|
                    0 <= j < advance_shots(orig).len()
                        ==> #[trigger] advance_shots(orig)[j].in_field(
                            old(self).width as int,
                            old(self).height as int,
                        )) by {
                    lemma_advance_shots_in_field(
                        orig,
                        old(self).width as int,
                        old(self).height as int,
                    );
                }
                lemma_advance_shots_len(orig);
            }
            self.shots = kept;
        } else {
            self.shot_timer = total;
        }
    }

    /// True iff some live projectile sits exactly at `(x, y)`.
    pub fn has_shot(&self, x: usize, y: usize) -> (r: bool)
        ensures
            r == has_shot_at(self.shots@, x as int, y as int),
    {
        let mut i: usize = 0;
        while i < self.shots.len()
            invariant
                i <= self.shots@.len(),
                forall|j: int|
                    0 <= j < i ==> !((#[trigger] self.shots@[j]).x == x && self.shots@[j].y == y),
            decreases self.shots@.len() - i,
        {
            if self.shots[i].x == x && self.shots[i].y == y {
                return true;
            }
            i = i + 1;
        }
        false
    }

    /// Resolve collisions by exact position equality: remove every projectile
    /// that sits on an invader and every invader that sits on a projectile;
    /// everything with no matching position is untouched.  Returns whether at
    /// least one hit occurred.
    pub fn detect_hit(&mut self, invaders: &mut Invaders) -> (r: bool)
        requires
            old(self).wf(),
            old(invaders).wf(),
        ensures
            final(self).wf(),
            final(invaders).wf(),
            final(self).shots@ == surviving_shots(old(self).shots@, old(invaders).army@),
            final(invaders).army@ == surviving_invaders(old(invaders).army@, old(self).shots@),
            r == some_shot_hits(old(self).shots@, old(invaders).army@),
            final(self).x == old(self).x,
            final(self).y == old(self).y,
            final(self).width == old(self).width,
            final(self).height == old(self).height,
            final(self).shot_timer == old(self).shot_timer,
            final(invaders).width == old(invaders).width,
            final(invaders).height == old(invaders).height,
            final(invaders).direction == old(invaders).direction,
            final(invaders).move_timer == old(invaders).move_timer,
    {
        let ghost orig_shots = self.shots@;
        let ghost orig_army = invaders.army@;
        let mut hit = false;
        let mut kept_shots: Vec<Shot> = Vec::new();
        let mut i: usize = 0;
        while i < self.shots.len()
            invariant
                self.wf(),
                orig_shots == self.shots@,
                orig_army == invaders.army@,
                i <= self.shots@.len(),
                kept_shots@ == surviving_shots(orig_shots.take(i as int), orig_army),
                hit == some_shot_hits(orig_shots.take(i as int), orig_army),
                kept_shots@.len() <= i,
                forall|j: int|
                    0 <= j < kept_shots@.len() ==> (#[trigger] kept_shots@[j]).in_field(
                        self.width as int,
                        self.height as int,
                    ),
            decreases self.shots@.len() - i,
        {
            let shot = self.shots[i];
            proof {
                assert(orig_shots.take(i + 1).drop_last() =~= orig_shots.take(i as int));
                assert(orig_shots.take(i + 1).last() == orig_shots[i as int]);
                assert(self.shots@[i as int].in_field(self.width as int, self.height as int));
            }
            if invaders.has_invader(shot.x, shot.y) {
                hit = true;
                proof {
                    let t = orig_shots.take(i + 1);
                    assert(shot_hits(t[i as int], orig_army));
                }
            } else {
                kept_shots.push(shot);
                proof {
                    let t = orig_shots.take(i + 1);
                    assert(some_shot_hits(t, orig_army) == some_shot_hits(
                        orig_shots.take(i as int),
                        orig_army,
                    )) by {
                        if some_shot_hits(t, orig_army) {
                            let j = choose|j: int|
                                0 <= j < t.len() && shot_hits(#[trigger] t[j], orig_army);
                            if j < i {
                                assert(shot_hits(orig_shots.take(i as int)[j], orig_army));
                            } else {
                                assert(t[j] == shot);
                            }
                        }
                        if some_shot_hits(orig_shots.take(i as int), orig_army) {
                            let j = choose|j: int|
                                0 <= j < i && shot_hits(
                                    #[trigger] orig_shots.take(i as int)[j],
                                    orig_army,
                                );
                            assert(shot_hits(t[j], orig_army));
                        }
                    }
                }
            }
            i = i + 1;
        }
        proof {
            assert(orig_shots.take(orig_shots.len() as int) =~= orig_shots);
        }
        let mut kept_army: Vec<Invader> = Vec::new();
        let mut k: usize = 0;
        while k < invaders.army.len()
            invariant
                invaders.wf(),
                orig_shots == self.shots@,
                orig_army == invaders.army@,
                k <= invaders.army@.len(),
                kept_army@ == surviving_invaders(orig_army.take(k as int), orig_shots),
                forall|j: int|
                    0 <= j < kept_army@.len() ==> (#[trigger] kept_army@[j]).in_field(
                        invaders.width as int,
                        invaders.height as int,
                    ),
            decreases invaders.army@.len() - k,
        {
            let iv = invaders.army[k];
            proof {
                assert(orig_army.take(k + 1).drop_last() =~= orig_army.take(k as int));
                assert(orig_army.take(k + 1).last() == orig_army[k as int]);
                assert(invaders.army@[k as int].in_field(
                    invaders.width as int,
                    invaders.height as int,
                ));
            }
            if !self.has_shot(iv.x, iv.y) {
                kept_army.push(iv);
            }
            k = k + 1;
        }
        proof {
            assert(orig_army.take(orig_army.len() as int) =~= orig_army);
        }
        self.shots = kept_shots;
        invaders.army = kept_army;
        hit
    }
}

/// Advancing the projectiles keeps every surviving one on the playfield.
proof fn lemma_advance_shots_in_field(shots: Seq<Shot>, width: int, height: int)
    requires
        forall|i: int| 0 <= i < shots.len() ==> #[trigger] shots[i].in_field(width, height),
    ensures
        forall|j: int|
            0 <= j < advance_shots(shots).len()
                ==> #[trigger] advance_shots(shots)[j].in_field(width, height),
    decreases shots.len(),
{
    if shots.len() > 0 {
        assert(forall|i: int|
            0 <= i < shots.drop_last().len() ==> #[trigger] shots.drop_last()[i].in_field(
                width,
                height,
            ));
        lemma_advance_shots_in_field(shots.drop_last(), width, height);
        let rest = advance_shots(shots.drop_last());
        let last = shots.last();
        assert(last.in_field(width, height));
        assert forall|j: int|
            0 <= j < advance_shots(shots).len() implies #[trigger] advance_shots(shots)[j].in_field(
            width,
            height,
        ) by {
            if last.y > 0 {
                let moved = Shot { x: last.x, y: (last.y - 1) as usize };
                assert(advance_shots(shots) == rest.push(moved));
                if j < rest.len() {
                    assert(advance_shots(shots)[j] == rest[j]);
                    assert(rest[j].in_field(width, height));
                } else {
                    assert(advance_shots(shots)[j] == moved);
                }
            } else {
                assert(advance_shots(shots) == rest);
                assert(rest[j].in_field(width, height));
            }
        }
    }
}

/// Advancing the projectiles never increases their number.
proof fn lemma_advance_shots_len(shots: Seq<Shot>)
    ensures
        advance_shots(shots).len() <= shots.len(),
    decreases shots.len(),
{
    if shots.len() > 0 {
        lemma_advance_shots_len(shots.drop_last());
    }
}

impl Drawable for Player {
    open spec fn fits(&self, width: int, height: int) -> bool {
        self.wf() && self.width == width && self.height == height
    }

    open spec fn covers(&self, x: int, y: int) -> bool {
        (x == self.x && y == self.y) || has_shot_at(self.shots@, x, y)
    }

    open spec fn glyph(&self, x: int, y: int) -> char {
        if has_shot_at(self.shots@, x, y) {
            SHOT_GLYPH
        } else {
            PLAYER_GLYPH
        }
    }

    /// Write the player glyph at the player's cell and the projectile glyph
    /// at every live projectile's cell.
    fn draw(&self, frame: &mut Frame) {
        frame.set(self.x, self.y, PLAYER_GLYPH);
        let ghost after_player = *frame;
        let mut i: usize = 0;
        while i < self.shots.len()
            invariant
                i <= self.shots@.len(),
                self.wf(),
                self.width == frame.width,
                self.height == frame.height,
                frame.wf(),
                forall|x: int, y: int|
                    frame.in_bounds(x, y) ==> frame.cell(x, y) == (if has_shot_at(
                        self.shots@.take(i as int),
                        x,
                        y,
                    ) {
                        SHOT_GLYPH
                    } else {
                        after_player.cell(x, y)
                    }),
                after_player.wf(),
                after_player.width == frame.width,
                after_player.height == frame.height,
            decreases self.shots@.len() - i,
        {
            let shot = self.shots[i];
            proof {
                assert(self.shots@[i as int].in_field(self.width as int, self.height as int));
            }
            frame.set(shot.x, shot.y, SHOT_GLYPH);
            proof {
                assert forall|x: int, y: int|
                    #[trigger] has_shot_at(self.shots@.take(i + 1), x, y)
                        == (has_shot_at(self.shots@.take(i as int), x, y) || (x == shot.x && y
                        == shot.y)) by {
                    let taken = self.shots@.take(i + 1);
                    if has_shot_at(taken, x, y) {
                        let k = choose|k: int|
                            0 <= k < taken.len() && taken[k].x == x && taken[k].y == y;
                        if k < i {
                            assert(self.shots@.take(i as int)[k] == taken[k]);
                        }
                    }
                    if has_shot_at(self.shots@.take(i as int), x, y) {
                        let k = choose|k: int|
                            0 <= k < i && self.shots@.take(i as int)[k].x == x
                                && self.shots@.take(i as int)[k].y == y;
                        assert(taken[k].x == x && taken[k].y == y);
                    }
                    if x == shot.x && y == shot.y {
                        assert(taken[i as int].x == x && taken[i as int].y == y);
                    }
                }
            }
            i = i + 1;
        }
        proof {
            assert(self.shots@.take(self.shots@.len() as int) =~= self.shots@);
        }
    }
}

} // verus!
