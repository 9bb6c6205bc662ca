//! The transmitter: a fixed anchor that emits batches of information
//! molecules.

use vstd::prelude::*;
use crate::geometry::{Heading, Rect};
use crate::information::InformationMolecule;
use crate::receiver::FOOTPRINT;

verus! {

/// Information molecules in one batch.
pub const TRANSMISSION_SIZE: usize = 800;

/// A transmitter. Nothing about it changes after construction.
#[derive(Clone, Copy, Debug, PartialEq, Eq, Structural)]
pub struct Transmitter {
    transmission_size: usize,
    rect: Rect,
}

/// What a transmitter holds, as mathematical values.
pub struct TransmitterView {
    pub rect: Rect,
    pub transmission_size: nat,
}

/// The batch a transmitter anchored at `rect` emits for the given headings:
/// one free molecule per heading, in order, each at the anchor's corner.
pub open spec fn emitted_batch(rect: Rect, headings: Seq<Heading>) -> Seq<InformationMolecule> {
    Seq::new(
        headings.len(),
        |i: int|
            InformationMolecule::fresh(
                rect.x as int,
                rect.y as int,
                FOOTPRINT as int,
                FOOTPRINT as int,
                headings[i],
            ),
    )
}

impl View for Transmitter {
    type V = TransmitterView;

    closed spec fn view(&self) -> TransmitterView {
        TransmitterView { rect: self.rect, transmission_size: self.transmission_size as nat }
    }
}

impl Transmitter {
    /// Builds a transmitter anchored at `(x, y)`.
    pub fn new(x: i32, y: i32, w: u32, h: u32) -> (t: Self)
        ensures
            t@ == (TransmitterView {
                rect: Rect::placed(x as int, y as int, w as int, h as int),
                transmission_size: TRANSMISSION_SIZE as nat,
            }),
    {
        Transmitter { transmission_size: TRANSMISSION_SIZE, rect: Rect::new(x, y, w, h) }
    }

    /// The anchor area.
    pub fn rect(&self) -> (r: Rect)
        ensures
            r == self@.rect,
    {
        self.rect
    }

    /// The number of molecules in a batch.
    pub fn transmission_size(&self) -> (n: usize)
        ensures
            n == self@.transmission_size,
    {
        self.transmission_size
    }

    /// Emits one batch: one free molecule per heading, at the anchor.
    ///
    /// The caller supplies one freshly drawn heading for each of the
    /// `transmission_size` molecules. The transmitter itself is unchanged.
    pub fn transmit(&self, headings: &Vec<Heading>) -> (batch: Vec<InformationMolecule>)
        requires
            headings.len() == self@.transmission_size,
        ensures
            batch@ == emitted_batch(self@.rect, headings@),
            batch.len() == self@.transmission_size,
    {
        let mut batch: Vec<InformationMolecule> = Vec::with_capacity(self.transmission_size);
        let mut i: usize = 0;
        while i < self.transmission_size
            invariant
                i <= self.transmission_size == headings.len(),
                batch@ == emitted_batch(self@.rect, headings@.take(i as int)),
            decreases self.transmission_size - i,
        {
            batch.push(
                InformationMolecule::new(self.rect.x, self.rect.y, FOOTPRINT, FOOTPRINT, headings[i]),
            );
            i = i + 1;
        }
        proof {
            assert(headings@.take(i as int) == headings@);
        }
        batch
    }
}

} // verus!
