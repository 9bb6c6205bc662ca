//! Chemotactic molecules: the freely diffusing field that stands for the
//! ligand a receiver gives off.

use vstd::prelude::*;
use crate::geometry::{fits_i32, Heading, Rect};

verus! {

/// A point of the ligand field. It turns on every tick and is never removed.
#[derive(Clone, Copy, Debug, PartialEq, Eq, Structural)]
pub struct ChemotacticMolecule {
    pub rect: Rect,
    pub heading: Heading,
}

impl ChemotacticMolecule {
    /// The molecule `new` builds.
    pub open spec fn fresh(x: int, y: int, w: int, h: int, heading: Heading) -> Self {
        ChemotacticMolecule { rect: Rect::placed(x, y, w, h), heading }
    }

    /// The molecule after a tumble onto `turn`.
    pub open spec fn tumbled(self, turn: Heading) -> Self {
        ChemotacticMolecule { heading: turn, ..self }
    }

    /// Whether a run keeps both coordinates within `i32`.
    pub open spec fn run_fits(self) -> bool {
        fits_i32(self.rect.x + self.heading.dx) && fits_i32(self.rect.y + self.heading.dy)
    }

    /// The molecule after one run: displaced by its heading, whatever its
    /// position.
    pub open spec fn ran(self) -> Self {
        ChemotacticMolecule {
            rect: Rect {
                x: (self.rect.x + self.heading.dx) as i32,
                y: (self.rect.y + self.heading.dy) as i32,
                ..self.rect
            },
            ..self
        }
    }

    /// Places a molecule at `(x, y)` with the given footprint and heading.
    pub fn new(x: i32, y: i32, w: u32, h: u32, heading: Heading) -> (m: Self)
        ensures
            m == Self::fresh(x as int, y as int, w as int, h as int, heading),
    {
        ChemotacticMolecule { rect: Rect::new(x, y, w, h), heading }
    }

    /// Turns the molecule onto `turn`, which the caller has drawn afresh.
    /// There is no bias and no memory: every call turns.
    pub fn tumble(&mut self, turn: Heading)
        ensures
            *final(self) == old(self).tumbled(turn),
    {
        self.heading = turn;
    }

    /// Tells whether `run` may be called.
    pub fn can_run(&self) -> (r: bool)
        ensures
            r == self.run_fits(),
    {
        let x: i64 = self.rect.x as i64 + self.heading.dx as i64;
        let y: i64 = self.rect.y as i64 + self.heading.dy as i64;
        -2_147_483_648 <= x && x <= 2_147_483_647 && -2_147_483_648 <= y && y <= 2_147_483_647
    }

    /// Moves the molecule by its heading.
    pub fn run(&mut self)
        requires
            old(self).run_fits(),
        ensures
            *final(self) == old(self).ran(),
    {
        self.rect.x = self.rect.x + self.heading.dx;
        self.rect.y = self.rect.y + self.heading.dy;
    }
}

} // verus!
