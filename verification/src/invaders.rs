use vstd::prelude::*;

use crate::frame::{Drawable, Frame};
use crate::player::Shot;

verus! {

/// The glyph an invader is drawn with.
pub const INVADER_GLYPH: char = '+';

/// The shortest interval between two swarm movement steps.
pub const MIN_MOVE_INTERVAL_MS: u64 = 250;

/// How much each live invader adds to the movement interval: the smaller the
/// swarm, the faster its tempo.
pub const MOVE_INTERVAL_PER_INVADER_MS: u64 = 25;

/// Swarm size beyond which the tempo no longer slows down further.
pub const MOVE_SCALE_CAP: usize = 10000;

/// One swarm member: identity is purely positional.
#[derive(Clone, Copy, PartialEq, Eq, Structural, Debug)]
pub struct Invader {
    pub x: usize,
    pub y: usize,
}

impl Invader {
    /// The invader lies on a playfield of the given dimensions.
    pub open spec fn in_field(self, width: int, height: int) -> bool {
        self.x < width && self.y < height
    }
}

/// Some invader in `army` sits exactly at `(x, y)`.
pub open spec fn has_invader_at(army: Seq<Invader>, x: int, y: int) -> bool {
    exists|i: int| 0 <= i < army.len() && army[i].x == x && army[i].y == y
}

/// The invader sits exactly on some live projectile.
pub open spec fn invader_hit(invader: Invader, shots: Seq<Shot>) -> bool {
    crate::player::has_shot_at(shots, invader.x as int, invader.y as int)
}

/// The invaders that survive collision resolution: exactly those whose
/// position equals no projectile's position, in their original order.
pub open spec fn surviving_invaders(army: Seq<Invader>, shots: Seq<Shot>) -> Seq<Invader>
    decreases army.len(),
{
    if army.len() == 0 {
        Seq::empty()
    } else {
        let rest = surviving_invaders(army.drop_last(), shots);
        if invader_hit(army.last(), shots) {
            rest
        } else {
            rest.push(army.last())
        }
    }
}

/// Collision resolution keeps exactly the invaders no projectile sits on;
/// every other invader is removed and none is touched otherwise.
pub proof fn lemma_surviving_invaders_exact(army: Seq<Invader>, shots: Seq<Shot>)
    ensures
        forall|iv: Invader| #[trigger]
            surviving_invaders(army, shots).contains(iv) <==> (army.contains(iv) && !invader_hit(
                iv,
                shots,
            )),
    decreases army.len(),
{
    if army.len() > 0 {
        lemma_surviving_invaders_exact(army.drop_last(), shots);
        let survivors = surviving_invaders(army, shots);
        let rest = surviving_invaders(army.drop_last(), shots);
        let last = army.last();
        assert forall|iv: Invader| #[trigger]
            survivors.contains(iv) <==> (army.contains(iv) && !invader_hit(iv, shots)) by {
            if survivors.contains(iv) {
                let k = choose|k: int| 0 <= k < survivors.len() && survivors[k] == iv;
                if k < rest.len() {
                    assert(rest[k] == iv);
                    assert(rest.contains(iv));
                } else {
                    assert(iv == last);
                }
                if rest.contains(iv) {
                    let j = choose|j: int|
                        0 <= j < army.drop_last().len() && army.drop_last()[j] == iv;
                    assert(army[j] == iv);
                    assert(army.contains(iv));
                } else {
                    assert(iv == last && !invader_hit(last, shots));
                    assert(army[army.len() - 1] == iv);
                    assert(army.contains(iv));
                }
            }
            if army.contains(iv) && !invader_hit(iv, shots) {
                let j = choose|j: int| 0 <= j < army.len() && army[j] == iv;
                if j < army.len() - 1 {
                    assert(army.drop_last()[j] == iv);
                    assert(army.drop_last().contains(iv));
                    assert(rest.contains(iv));
                    let k = choose|k: int| 0 <= k < rest.len() && rest[k] == iv;
                    assert(survivors[k] == iv);
                } else {
                    assert(iv == last);
                    assert(survivors[survivors.len() - 1] == iv);
                }
                assert(survivors.contains(iv));
            }
        }
    }
}

/// Every invader shifted one column in `direction` (+1 or -1), rows kept.
pub open spec fn shifted(army: Seq<Invader>, direction: int) -> Seq<Invader> {
    army.map_values(|iv: Invader| Invader { x: (iv.x + direction) as usize, y: iv.y })
}

/// Every invader moved down one row, columns kept.
pub open spec fn descended(army: Seq<Invader>) -> Seq<Invader> {
    army.map_values(|iv: Invader| Invader { x: iv.x, y: (iv.y + 1) as usize })
}

/// The movement interval for a swarm of `count` live invaders.
pub open spec fn move_interval(count: int) -> u64 {
    if count > MOVE_SCALE_CAP {
        (MIN_MOVE_INTERVAL_MS + MOVE_INTERVAL_PER_INVADER_MS * MOVE_SCALE_CAP) as u64
    } else {
        (MIN_MOVE_INTERVAL_MS + MOVE_INTERVAL_PER_INVADER_MS * count) as u64
    }
}

/// Whether the starting grid holds an invader at `(x, y)`: every second cell
/// of a band centred in the upper playfield.
pub open spec fn grid_invader(width: int, height: int, x: int, y: int) -> bool {
    &&& 1 < x
    &&& x + 2 < width
    &&& 0 < y
    &&& 2 * y < height
    &&& x % 2 == 0
    &&& y % 2 == 0
}

/// The swarm: the live invaders, the shared movement direction, and the
/// count-down timer that paces movement steps.
pub struct Invaders {
    pub width: usize,
    pub height: usize,
    pub army: Vec<Invader>,
    /// +1 while advancing right, -1 while advancing left.
    pub direction: i32,
    /// Milliseconds left until the next movement step.
    pub move_timer: u64,
}

impl Invaders {
    /// Direction is one of +1/-1 and every invader lies on the playfield.
    pub open spec fn wf(self) -> bool {
        &&& self.width >= 1
        &&& self.height >= 1
        &&& (self.direction == 1i32 || self.direction == -1i32)
        &&& forall|i: int|
                0 <= i < self.army@.len()
                    ==> #[trigger] self.army@[i].in_field(self.width as int, self.height as int)
    }

    /// The accumulated elapsed time uses the timer up: a movement step is due.
    pub open spec fn timer_fires(self, elapsed_ms: u64) -> bool {
        self.move_timer <= elapsed_ms
    }

    /// The next shift would push some invader past a horizontal bound.
    pub open spec fn at_edge(self) -> bool {
        if self.direction == 1i32 {
            exists|i: int| 0 <= i < self.army@.len() && #[trigger] self.army@[i].x == self.width - 1
        } else {
            exists|i: int| 0 <= i < self.army@.len() && #[trigger] self.army@[i].x == 0
        }
    }

    /// Some live invader has reached or passed the bottom threshold, one row
    /// above the lower bound.
    pub open spec fn reached_bottom_spec(self) -> bool {
        exists|i: int| 0 <= i < self.army@.len() && (#[trigger] self.army@[i]).y + 1 >= self.height
    }

    /// A fresh swarm: the starting grid, advancing right, timer full.
    pub fn new(width: usize, height: usize) -> (r: Invaders)
        requires
            width >= 1,
            height >= 1,
        ensures
            r.wf(),
            r.width == width,
            r.height == height,
            r.direction == 1i32,
            r.move_timer == move_interval(r.army@.len() as int),
            forall|x: usize, y: usize|
                #[trigger] r.army@.contains(Invader { x, y }) == grid_invader(
                    width as int,
                    height as int,
                    x as int,
                    y as int,
                ),
            forall|i: int, j: int|
                0 <= i < j < r.army@.len() ==> r.army@[i] != r.army@[j],
    {
        let mut army: Vec<Invader> = Vec::new();
        let mut x: usize = 0;
        while x < width
            invariant
                x <= width,
                forall|a: usize, b: usize|
                    #[trigger] army@.contains(Invader { x: a, y: b }) == (grid_invader(
                        width as int,
                        height as int,
                        a as int,
                        b as int,
                    ) && a < x),
                forall|i: int| 0 <= i < army@.len() ==> #[trigger] army@[i].x < x,
                forall|i: int|
                    0 <= i < army@.len() ==> #[trigger] army@[i].in_field(
                        width as int,
                        height as int,
                    ),
                forall|i: int, j: int| 0 <= i < j < army@.len() ==> army@[i] != army@[j],
            decreases width - x,
        {
            let mut y: usize = 0;
            while y < height
                invariant
                    x < width,
                    y <= height,
                    forall|a: usize, b: usize|
                        #[trigger] army@.contains(Invader { x: a, y: b }) == (grid_invader(
                            width as int,
                            height as int,
                            a as int,
                            b as int,
                        ) && (a < x || (a == x && b < y))),
                    forall|i: int|
                        0 <= i < army@.len() ==> #[trigger] army@[i].x < x || (army@[i].x == x
                            && army@[i].y < y),
                    forall|i: int|
                        0 <= i < army@.len() ==> #[trigger] army@[i].in_field(
                            width as int,
                            height as int,
                        ),
                    forall|i: int, j: int| 0 <= i < j < army@.len() ==> army@[i] != army@[j],
                decreases height - y,
            {
                if x > 1 && width > 2 && x < width - 2 && y > 0 && y < height / 2 + height % 2
                    && x % 2 == 0 && y % 2 == 0 {
                    let ghost before = army@;
                    army.push(Invader { x, y });
                    proof {
                        assert forall|a: usize, b: usize|
                            #[trigger] army@.contains(Invader { x: a, y: b }) == (before.contains(
                                Invader { x: a, y: b },
                            ) || (a == x && b == y)) by {
                            if army@.contains(Invader { x: a, y: b }) {
                                let k = choose|k: int|
                                    0 <= k < army@.len() && army@[k] == Invader { x: a, y: b };
                                if k < before.len() {
                                    assert(before[k] == Invader { x: a, y: b });
                                } else {
                                    assert(army@[k] == Invader { x, y });
                                }
                            }
                            if before.contains(Invader { x: a, y: b }) {
                                let k = choose|k: int|
                                    0 <= k < before.len() && before[k] == Invader { x: a, y: b };
                                assert(army@[k] == Invader { x: a, y: b });
                            }
                            if a == x && b == y {
                                assert(army@[army@.len() - 1] == Invader { x: a, y: b });
                            }
                        }
                        assert forall|i: int, j: int| 0 <= i < j < army@.len() implies army@[i]
                            != army@[j] by {
                            if j < army@.len() - 1 {
                                assert(army@[i] == before[i] && army@[j] == before[j]);
                            } else {
                                assert(army@[i] == before[i]);
                                assert(before[i].x < x || (before[i].x == x && before[i].y < y));
                                assert(army@[j] == Invader { x, y });
                            }
                        }
                    }
                }
                y = y + 1;
            }
            x = x + 1;
        }
        let count = army.len();
        Invaders {
            width,
            height,
            army,
            direction: 1,
            move_timer: interval_for(count),
        }
    }

    /// True iff the whole swarm has been destroyed.
    pub fn all_killed(&self) -> (r: bool)
        ensures
            r == (self.army@.len() == 0),
    {
        self.army.len() == 0
    }

    /// True iff some live invader has reached the bottom threshold.
    pub fn reached_bottom(&self) -> (r: bool)
        requires
            self.wf(),
        ensures
            r == self.reached_bottom_spec(),
    {
        let mut i: usize = 0;
        while i < self.army.len()
            invariant
                self.wf(),
                i <= self.army@.len(),
                forall|j: int| 0 <= j < i ==> (#[trigger] self.army@[j]).y + 1 < self.height,
            decreases self.army@.len() - i,
        {
            proof {
                assert(self.army@[i as int].in_field(self.width as int, self.height as int));
            }
            if self.army[i].y + 1 >= self.height {
                return true;
            }
            i = i + 1;
        }
        false
    }

    /// True iff some live invader sits exactly at `(x, y)`.
    pub fn has_invader(&self, x: usize, y: usize) -> (r: bool)
        ensures
            r == has_invader_at(self.army@, x as int, y as int),
    {
        let mut i: usize = 0;
        while i < self.army.len()
            invariant
                i <= self.army@.len(),
                forall|j: int|
                    0 <= j < i ==> !(#[trigger] self.army@[j].x == x && self.army@[j].y == y),
            decreases self.army@.len() - i,
        {
            if self.army[i].x == x && self.army[i].y == y {
                return true;
            }
            i = i + 1;
        }
        false
    }

    /// Advance time.  When the timer runs out, take exactly one movement
    /// step — a shift in the current direction, or, when that would push an
    /// invader past a horizontal bound, a direction flip with a one-row
    /// descent — and rewind the timer to an interval scaled by the number of
    /// live invaders.  Returns whether a movement step was taken.
    ///
    /// The caller ends the session once an invader reaches the bottom
    /// threshold, so a due descent never starts from the lowest row; the
    /// second precondition states just that.
    pub fn update(&mut self, elapsed_ms: u64) -> (moved: bool)
        requires
            old(self).wf(),
            old(self).timer_fires(elapsed_ms) && old(self).at_edge() ==> forall|i: int|
                0 <= i < old(self).army@.len() ==> (#[trigger] old(self).army@[i]).y + 1
                    < old(self).height,
        ensures
            final(self).wf(),
            final(self).width == old(self).width,
            final(self).height == old(self).height,
            final(self).army@.len() == old(self).army@.len(),
            moved == old(self).timer_fires(elapsed_ms),
            !moved ==> {
                &&& final(self).army@ == old(self).army@
                &&& final(self).direction == old(self).direction
                &&& final(self).move_timer == old(self).move_timer - elapsed_ms
            },
            moved ==> final(self).move_timer == move_interval(old(self).army@.len() as int),
            moved && !old(self).at_edge() ==> {
                &&& final(self).direction == old(self).direction
                &&& final(self).army@ == shifted(old(self).army@, old(self).direction as int)
            },
            moved && old(self).at_edge() ==> {
                &&& final(self).direction == -old(self).direction
                &&& final(self).army@ == descended(old(self).army@)
            },
            // The swarm invariant: either the direction is unchanged and no
            // column left [0, width-1], or the direction flipped and every
            // row grew by exactly one.
            (final(self).direction == old(self).direction && forall|i: int|
                0 <= i < final(self).army@.len() ==> (#[trigger] final(self).army@[i]).x
                    < final(self).width) || (final(self).direction == -old(self).direction
                && forall|i: int|
                0 <= i < final(self).army@.len() ==> (#[trigger] final(self).army@[i]).y
                    == old(self).army@[i].y + 1),
    {
        let remaining = self.move_timer.saturating_sub(elapsed_ms);
        if remaining > 0 {
            self.move_timer = remaining;
            proof {
                assert forall|i: int| 0 <= i < self.army@.len() implies (
                #[trigger] self.army@[i]).x < self.width by {
                    assert(self.army@[i].in_field(self.width as int, self.height as int));
                }
            }
            return false;
        }
        let blocked = if self.direction == 1 {
            self.any_at_column(self.width - 1)
        } else {
            self.any_at_column(0)
        };
        let ghost orig = self.army@;
        let count = self.army.len();
        if blocked {
            self.direction = -self.direction;
            let mut moved_army: Vec<Invader> = Vec::new();
            let mut i: usize = 0;
            while i < self.army.len()
                invariant
                    i <= self.army@.len(),
                    orig == old(self).army@,
                    self.army@ == orig,
                    self.width == old(self).width,
                    self.height == old(self).height,
                    old(self).wf(),
                    moved_army@.len() == i,
                    forall|j: int|
                        0 <= j < i ==> #[trigger] moved_army@[j] == (Invader {
                            x: orig[j].x,
                            y: (orig[j].y + 1) as usize,
                        }),
                    forall|j: int|
                        0 <= j < orig.len() ==> (#[trigger] orig[j]).y + 1 < old(self).height,
                decreases self.army@.len() - i,
            {
                let iv = self.army[i];
                proof {
                    assert(orig[i as int].in_field(
                        old(self).width as int,
                        old(self).height as int,
                    ));
                }
                moved_army.push(Invader { x: iv.x, y: iv.y + 1 });
                i = i + 1;
            }
            proof {
                assert(moved_army@ =~= descended(orig));
                assert forall|j: int| 0 <= j < moved_army@.len() implies (
                #[trigger] moved_army@[j]).in_field(
                    old(self).width as int,
                    old(self).height as int,
                ) by {
                    assert(orig[j].in_field(old(self).width as int, old(self).height as int));
                    assert(moved_army@[j] == (Invader { x: orig[j].x, y: (orig[j].y + 1) as usize }));
                }
            }
            self.army = moved_army;
        } else {
            let dir = self.direction;
            let mut moved_army: Vec<Invader> = Vec::new();
            let mut i: usize = 0;
            while i < self.army.len()
                invariant
                    i <= self.army@.len(),
                    orig == old(self).army@,
                    self.army@ == orig,
                    self.direction == dir,
                    dir == old(self).direction,
                    self.width == old(self).width,
                    self.height == old(self).height,
                    old(self).wf(),
                    !old(self).at_edge(),
                    moved_army@.len() == i,
                    forall|j: int|
                        0 <= j < i ==> #[trigger] moved_army@[j] == (Invader {
                            x: (orig[j].x + dir) as usize,
                            y: orig[j].y,
                        }),
                    forall|j: int|
                        0 <= j < i ==> #[trigger] moved_army@[j].x < old(self).width,
                decreases self.army@.len() - i,
            {
                let iv = self.army[i];
                proof {
                    assert(orig[i as int].in_field(
                        old(self).width as int,
                        old(self).height as int,
                    ));
                    if dir == 1 {
                        assert(!(orig[i as int].x == old(self).width - 1));
                    } else {
                        assert(!(orig[i as int].x == 0));
                    }
                }
                let nx = if dir == 1 {
                    iv.x + 1
                } else {
                    iv.x - 1
                };
                moved_army.push(Invader { x: nx, y: iv.y });
                i = i + 1;
            }
            proof {
                assert(moved_army@ =~= shifted(orig, dir as int));
                assert forall|j: int| 0 <= j < moved_army@.len() implies (
                #[trigger] moved_army@[j]).in_field(
                    old(self).width as int,
                    old(self).height as int,
                ) by {
                    assert(orig[j].in_field(old(self).width as int, old(self).height as int));
                }
            }
            self.army = moved_army;
        }
        self.move_timer = interval_for(count);
        true
    }

    /// True iff some live invader stands in column `col`.
    fn any_at_column(&self, col: usize) -> (r: bool)
        ensures
            r == exists|i: int|
                0 <= i < self.army@.len() && #[trigger] self.army@[i].x == col,
    {
        let mut i: usize = 0;
        while i < self.army.len()
            invariant
                i <= self.army@.len(),
                forall|j: int| 0 <= j < i ==> !(#[trigger] self.army@[j].x == col),
            decreases self.army@.len() - i,
        {
            if self.army[i].x == col {
                return true;
            }
            i = i + 1;
        }
        false
    }
}

/// The movement interval for `count` live invaders, as executable code.
fn interval_for(count: usize) -> (r: u64)
    ensures
        r == move_interval(count as int),
{
    let capped: u64 = if count > MOVE_SCALE_CAP {
        MOVE_SCALE_CAP as u64
    } else {
        count as u64
    };
    MIN_MOVE_INTERVAL_MS + MOVE_INTERVAL_PER_INVADER_MS * capped
}

impl Drawable for Invaders {
    open spec fn fits(&self, width: int, height: int) -> bool {
        self.wf() && self.width == width && self.height == height
    }

    open spec fn covers(&self, x: int, y: int) -> bool {
        has_invader_at(self.army@, x, y)
    }

    open spec fn glyph(&self, x: int, y: int) -> char {
        INVADER_GLYPH
    }

    /// Write the invader glyph at every live invader's cell.
    fn draw(&self, frame: &mut Frame) {
        let ghost start = *frame;
        let mut i: usize = 0;
        while i < self.army.len()
            invariant
                i <= self.army@.len(),
                self.wf(),
                self.width == frame.width,
                self.height == frame.height,
                frame.wf(),
                forall|x: int, y: int|
                    frame.in_bounds(x, y) ==> frame.cell(x, y) == (if has_invader_at(
                        self.army@.take(i as int),
                        x,
                        y,
                    ) {
                        INVADER_GLYPH
                    } else {
                        start.cell(x, y)
                    }),
                start.wf(),
                start.width == frame.width,
                start.height == frame.height,
            decreases self.army@.len() - i,
        {
            let iv = self.army[i];
            proof {
                assert(self.army@[i as int].in_field(self.width as int, self.height as int));
            }
            frame.set(iv.x, iv.y, INVADER_GLYPH);
            proof {
                assert forall|x: int, y: int|
                    #[trigger] has_invader_at(self.army@.take(i + 1), x, y) == (has_invader_at(
                        self.army@.take(i as int),
                        x,
                        y,
                    ) || (x == iv.x && y == iv.y)) by {
                    let taken = self.army@.take(i + 1);
                    if has_invader_at(taken, x, y) {
                        let k = choose|k: int|
                            0 <= k < taken.len() && taken[k].x == x && taken[k].y == y;
                        if k < i {
                            assert(self.army@.take(i as int)[k] == taken[k]);
                        }
                    }
                    if has_invader_at(self.army@.take(i as int), x, y) {
                        let k = choose|k: int|
                            0 <= k < i && self.army@.take(i as int)[k].x == x && self.army@.take(
                                i as int,
                            )[k].y == y;
                        assert(taken[k].x == x && taken[k].y == y);
                    }
                    if x == iv.x && y == iv.y {
                        assert(taken[i as int].x == x && taken[i as int].y == y);
                    }
                }
            }
            i = i + 1;
        }
        proof {
            assert(self.army@.take(self.army@.len() as int) =~= self.army@);
        }
    }
}

} // verus!
