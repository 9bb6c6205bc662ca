//! Information molecules: the agents that walk towards the receiver, bind to
//! a receptor and are released again.

use vstd::prelude::*;
use crate::geometry::{fits_i32, outside_arena, Heading, Rect, ARENA_HALF_WIDTH};

verus! {

/// Runs a molecule spends bound to a receptor before it is released.
pub const RESIDENCE_TIME: u32 = 60;

/// Value the tumble timer is set to when the stimulus rises.
pub const RUN_TICKS: i32 = 15;

/// An information molecule.
///
/// It is *moving* while neither flag is set, *bound* once `stopped` is set,
/// and *terminated* once `released` is set; `released` is never cleared.
#[derive(Clone, Copy, Debug, PartialEq, Eq, Structural)]
pub struct InformationMolecule {
    pub rect: Rect,
    pub heading: Heading,
    pub residence_time: u32,
    pub stopped: bool,
    pub released: bool,
    pub stimulus: u32,
    pub tumble_timer: i32,
}

impl InformationMolecule {
    /// The molecule `new` builds.
    pub open spec fn fresh(x: int, y: int, w: int, h: int, heading: Heading) -> Self {
        InformationMolecule {
            rect: Rect::placed(x, y, w, h),
            heading,
            residence_time: RESIDENCE_TIME,
            stopped: false,
            released: false,
            stimulus: 0,
            tumble_timer: 0,
        }
    }

    /// Whether a tumble on `current_stimulus` keeps the timer within `i32`.
    pub open spec fn tumble_fits(self, current_stimulus: u32) -> bool {
        current_stimulus > self.stimulus || self.tumble_timer > i32::MIN
    }

    /// Whether a tumble on `current_stimulus` changes the heading: the
    /// stimulus has not risen and the timer has lapsed.
    pub open spec fn turns_on(self, current_stimulus: u32) -> bool {
        current_stimulus <= self.stimulus && self.tumble_timer <= 0
    }

    /// The molecule after a tumble on `current_stimulus`, with `turn` as the
    /// heading it takes should it turn.
    pub open spec fn tumbled(self, current_stimulus: u32, turn: Heading) -> Self {
        InformationMolecule {
            heading: if self.turns_on(current_stimulus) { turn } else { self.heading },
            tumble_timer: if current_stimulus > self.stimulus {
                (RUN_TICKS - 1) as i32
            } else {
                (self.tumble_timer - 1) as i32
            },
            stimulus: current_stimulus,
            ..self
        }
    }

    /// Whether a run stays within the machine's integers: a bound molecule
    /// has residence time left, a free one lands on `i32` coordinates.
    pub open spec fn run_fits(self) -> bool {
        if self.stopped {
            self.residence_time > 0
        } else {
            fits_i32(self.rect.x + self.heading.dx) && fits_i32(self.rect.y + self.heading.dy)
        }
    }

    /// The molecule after one run.
    ///
    /// A free molecule is displaced by its heading and is released if that
    /// takes it out of the arena. A bound molecule stays where it is, loses
    /// one unit of residence time and is released when none is left.
    pub open spec fn ran(self) -> Self {
        if self.stopped {
            InformationMolecule {
                residence_time: (self.residence_time - 1) as u32,
                released: self.released || self.residence_time == 1,
                ..self
            }
        } else {
            let x = self.rect.x + self.heading.dx;
            let y = self.rect.y + self.heading.dy;
            InformationMolecule {
                rect: Rect { x: x as i32, y: y as i32, ..self.rect },
                released: self.released || outside_arena(x, y),
                ..self
            }
        }
    }

    /// The molecule once a receptor has taken it.
    pub open spec fn bound(self) -> Self {
        InformationMolecule { stopped: true, ..self }
    }

    /// Places a free molecule at `(x, y)` with the given footprint and
    /// initial heading.
    pub fn new(x: i32, y: i32, w: u32, h: u32, heading: Heading) -> (m: Self)
        ensures
            m == Self::fresh(x as int, y as int, w as int, h as int, heading),
    {
        InformationMolecule {
            rect: Rect::new(x, y, w, h),
            heading,
            residence_time: RESIDENCE_TIME,
            stopped: false,
            released: false,
            stimulus: 0,
            tumble_timer: 0,
        }
    }

    /// Tells whether `tumble` may be called with `current_stimulus`.
    pub fn can_tumble(&self, current_stimulus: u32) -> (r: bool)
        ensures
            r == self.tumble_fits(current_stimulus),
    {
        current_stimulus > self.stimulus || self.tumble_timer > i32::MIN
    }

    /// Decides this tick's heading from the stimulus sensed now.
    ///
    /// A stimulus above the remembered one sets the timer to `RUN_TICKS`,
    /// which keeps the heading for that many ticks. Otherwise, once the timer
    /// has lapsed, the molecule turns onto `turn`, which the caller has drawn
    /// afresh. The timer then counts down by one in either case, and the
    /// stimulus is remembered.
    pub fn tumble(&mut self, current_stimulus: u32, turn: Heading)
        requires
            old(self).tumble_fits(current_stimulus),
        ensures
            *final(self) == old(self).tumbled(current_stimulus, turn),
    {
        if current_stimulus > self.stimulus {
            self.tumble_timer = RUN_TICKS;
        }
        if self.tumble_timer <= 0 {
            self.heading = turn;
        }
        self.tumble_timer = self.tumble_timer - 1;
        self.stimulus = current_stimulus;
    }

    /// Tells whether `run` may be called.
    pub fn can_run(&self) -> (r: bool)
        ensures
            r == self.run_fits(),
    {
        if self.stopped {
            self.residence_time > 0
        } else {
            let x: i64 = self.rect.x as i64 + self.heading.dx as i64;
            let y: i64 = self.rect.y as i64 + self.heading.dy as i64;
            -2_147_483_648 <= x && x <= 2_147_483_647 && -2_147_483_648 <= y && y <= 2_147_483_647
        }
    }

    /// Advances the molecule by one tick of motion or of residence.
    pub fn run(&mut self)
        requires
            old(self).run_fits(),
        ensures
            *final(self) == old(self).ran(),
    {
        if !self.stopped {
            self.rect.x = self.rect.x + self.heading.dx;
            self.rect.y = self.rect.y + self.heading.dy;
            if self.rect.x > ARENA_HALF_WIDTH || self.rect.y > ARENA_HALF_WIDTH
                || self.rect.x < -ARENA_HALF_WIDTH || self.rect.y < -ARENA_HALF_WIDTH {
                self.released = true;
            }
        } else {
            self.residence_time = self.residence_time - 1;
            if self.residence_time == 0 {
                self.released = true;
            }
        }
    }

    /// Marks the molecule as bound to a receptor.
    pub fn stop(&mut self)
        ensures
            *final(self) == old(self).bound(),
    {
        self.stopped = true;
    }
}

} // verus!
