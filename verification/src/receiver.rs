//! The receiver: an anchor area with a bounded pool of receptors, and the
//! source of the chemotactic field.

use vstd::prelude::*;
use crate::chemotactic::ChemotacticMolecule;
use crate::geometry::{Heading, Rect};
use crate::information::InformationMolecule;

verus! {

/// Receptors a receiver is built with.
pub const RECEPTORS: usize = 20;

/// Chemotactic molecules a receiver emits to seed its field.
pub const FIELD_SIZE: usize = 1000;

/// Width and height of every emitted molecule.
pub const FOOTPRINT: u32 = 5;

/// A receiver. Its anchor and capacity are fixed at construction; only the
/// number of free receptors and the stored timer change.
#[derive(Clone, Copy, Debug, PartialEq, Eq, Structural)]
pub struct Receiver {
    chemotactic_molecules_count: usize,
    max_receptors: usize,
    free_receptors: usize,
    rect: Rect,
    timer: u128,
}

/// What a receiver holds, as mathematical values.
pub struct ReceiverView {
    pub rect: Rect,
    pub max_receptors: nat,
    pub free_receptors: nat,
    pub chemotactic_molecules_count: nat,
    pub timer: nat,
}

impl ReceiverView {
    /// The pool never holds more free receptors than it has receptors.
    pub open spec fn wf(self) -> bool {
        self.free_receptors <= self.max_receptors
    }

    /// Receptors currently taken.
    pub open spec fn taken(self) -> int {
        self.max_receptors - self.free_receptors
    }

    /// Whether the receiver would bind `molecule` now: their areas overlap,
    /// the molecule is not bound yet, and a receptor is free.
    pub open spec fn takes(self, molecule: InformationMolecule) -> bool {
        self.rect.intersects(molecule.rect) && !molecule.stopped && self.free_receptors > 0
    }

    /// The receiver with one receptor fewer free.
    pub open spec fn received(self) -> ReceiverView {
        ReceiverView { free_receptors: (self.free_receptors - 1) as nat, ..self }
    }

    /// The receiver with one receptor more free.
    pub open spec fn released(self) -> ReceiverView {
        ReceiverView { free_receptors: self.free_receptors + 1, ..self }
    }
}

/// The field a receiver anchored at `rect` emits for the given headings: one
/// molecule per heading, in order, each at the anchor's corner.
pub open spec fn emitted_field(rect: Rect, headings: Seq<Heading>) -> Seq<ChemotacticMolecule> {
    Seq::new(
        headings.len(),
        |i: int|
            ChemotacticMolecule::fresh(
                rect.x as int,
                rect.y as int,
                FOOTPRINT as int,
                FOOTPRINT as int,
                headings[i],
            ),
    )
}

/// Taking a receptor while one is free, or returning one while one is taken,
/// keeps the pool within its bounds.
pub proof fn lemma_pool_stays_bounded(r: ReceiverView)
    requires
        r.wf(),
    ensures
        0 <= r.free_receptors <= r.max_receptors,
        0 <= r.taken() <= r.max_receptors,
        r.free_receptors > 0 ==> r.received().wf() && r.received().taken() == r.taken() + 1,
        r.free_receptors < r.max_receptors ==> r.released().wf() && r.released().taken()
            == r.taken() - 1,
        r.free_receptors > 0 ==> r.received().released() == r,
{
}

impl View for Receiver {
    type V = ReceiverView;

    closed spec fn view(&self) -> ReceiverView {
        ReceiverView {
            rect: self.rect,
            max_receptors: self.max_receptors as nat,
            free_receptors: self.free_receptors as nat,
            chemotactic_molecules_count: self.chemotactic_molecules_count as nat,
            timer: self.timer as nat,
        }
    }
}

impl Receiver {
    /// Well-formedness: the view's.
    pub open spec fn wf(&self) -> bool {
        self@.wf()
    }

    /// Builds a receiver anchored at `(x, y)` with every receptor free.
    pub fn new(x: i32, y: i32, w: u32, h: u32) -> (r: Self)
        ensures
            r.wf(),
            r@ == (ReceiverView {
                rect: Rect::placed(x as int, y as int, w as int, h as int),
                max_receptors: RECEPTORS as nat,
                free_receptors: RECEPTORS as nat,
                chemotactic_molecules_count: FIELD_SIZE as nat,
                timer: 0,
            }),
    {
        Receiver {
            chemotactic_molecules_count: FIELD_SIZE,
            max_receptors: RECEPTORS,
            free_receptors: RECEPTORS,
            rect: Rect::new(x, y, w, h),
            timer: 0,
        }
    }

    /// The anchor area.
    pub fn rect(&self) -> (r: Rect)
        ensures
            r == self@.rect,
    {
        self.rect
    }

    /// The capacity of the pool.
    pub fn max_receptors(&self) -> (n: usize)
        ensures
            n == self@.max_receptors,
    {
        self.max_receptors
    }

    /// The number of receptors free now.
    pub fn free_receptors(&self) -> (n: usize)
        ensures
            n == self@.free_receptors,
    {
        self.free_receptors
    }

    /// The number of molecules `transmit` emits.
    pub fn chemotactic_molecules_count(&self) -> (n: usize)
        ensures
            n == self@.chemotactic_molecules_count,
    {
        self.chemotactic_molecules_count
    }

    /// The value last stored by `set_timer`.
    pub fn timer(&self) -> (t: u128)
        ensures
            t == self@.timer,
    {
        self.timer
    }

    /// Takes a receptor if one is free. Returns whether it did.
    pub fn receive(&mut self) -> (taken: bool)
        ensures
            taken == (old(self)@.free_receptors > 0),
            taken ==> final(self)@ == old(self)@.received(),
            !taken ==> final(self)@ == old(self)@,
            old(self).wf() ==> final(self).wf(),
    {
        if self.free_receptors > 0 {
            self.free_receptors = self.free_receptors - 1;
            return true;
        }
        false
    }

    /// Returns a receptor to the pool unless the pool is full. Returns whether
    /// it did.
    pub fn release(&mut self) -> (given: bool)
        ensures
            given == (old(self)@.free_receptors < old(self)@.max_receptors),
            given ==> final(self)@ == old(self)@.released(),
            !given ==> final(self)@ == old(self)@,
            old(self).wf() ==> final(self).wf(),
    {
        if self.free_receptors < self.max_receptors {
            self.free_receptors = self.free_receptors + 1;
            return true;
        }
        false
    }

    /// Stores a tick value. Nothing reads it back but `timer`.
    pub fn set_timer(&mut self, time: u128)
        ensures
            final(self)@ == (ReceiverView { timer: time as nat, ..old(self)@ }),
    {
        self.timer = time;
    }

    /// Emits the chemotactic field: one molecule per heading, at the anchor.
    ///
    /// The caller supplies one freshly drawn heading for each of the
    /// `chemotactic_molecules_count` molecules.
    pub fn transmit(&self, headings: &Vec<Heading>) -> (field: Vec<ChemotacticMolecule>)
        requires
            headings.len() == self@.chemotactic_molecules_count,
        ensures
            field@ == emitted_field(self@.rect, headings@),
            field.len() == self@.chemotactic_molecules_count,
    {
        let mut field: Vec<ChemotacticMolecule> = Vec::with_capacity(self.chemotactic_molecules_count);
        let mut i: usize = 0;
        while i < self.chemotactic_molecules_count
            invariant
                i <= self.chemotactic_molecules_count == headings.len(),
                field@ == emitted_field(self@.rect, headings@.take(i as int)),
            decreases self.chemotactic_molecules_count - i,
        {
            field.push(
                ChemotacticMolecule::new(self.rect.x, self.rect.y, FOOTPRINT, FOOTPRINT, headings[i]),
            );
            i = i + 1;
        }
        proof {
            assert(headings@.take(i as int) == headings@);
        }
        field
    }

    /// Binds `molecule` if its footprint overlaps the anchor area, it is not
    /// bound yet and a receptor is free. Returns whether it was bound.
    ///
    /// Binding takes one receptor and stops the molecule where it is; its
    /// residence time is left as it was.
    pub fn try_bind(&mut self, molecule: &mut InformationMolecule) -> (bound: bool)
        ensures
            bound == old(self)@.takes(*old(molecule)),
            bound ==> final(self)@ == old(self)@.received() && *final(molecule) == old(
                molecule,
            ).bound(),
            !bound ==> final(self)@ == old(self)@ && *final(molecule) == *old(molecule),
            old(self).wf() ==> final(self).wf(),
    {
        if self.rect.has_intersection(molecule.rect) && !molecule.stopped {
            if self.receive() {
                molecule.stop();
                return true;
            }
        }
        false
    }
}

} // verus!
