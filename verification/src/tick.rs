//! The phases of one tick, each over a whole collection: the field diffuses,
//! every information molecule senses, tumbles and runs, the receiver binds
//! what reaches it, and released molecules are dropped.

use vstd::prelude::*;
use crate::chemotactic::ChemotacticMolecule;
use crate::geometry::{Heading, Rect};
use crate::information::InformationMolecule;
use crate::receiver::{Receiver, ReceiverView};
use crate::stimulus::{count_in_range, count_molecules_in_range, lemma_count_bounded, SENSING_RANGE};

verus! {

/// The field after every molecule has turned onto its heading in `turns` and
/// run once.
pub open spec fn moved_field(
    field: Seq<ChemotacticMolecule>,
    turns: Seq<Heading>,
) -> Seq<ChemotacticMolecule> {
    Seq::new(field.len(), |i: int| field[i].tumbled(turns[i]).ran())
}

/// Whether every molecule of the field can run after its turn.
pub open spec fn field_fits(field: Seq<ChemotacticMolecule>, turns: Seq<Heading>) -> bool {
    forall|i: int| 0 <= i < field.len() ==> (#[trigger] field[i]).tumbled(turns[i]).run_fits()
}

/// The stimulus a molecule acts on this tick: a fresh count once its timer
/// has lapsed, the remembered value while the timer is still running.
pub open spec fn sensed(m: InformationMolecule, field: Seq<ChemotacticMolecule>) -> u32 {
    if m.tumble_timer <= 0 {
        count_in_range(m.rect.x as int, m.rect.y as int, field, SENSING_RANGE as int) as u32
    } else {
        m.stimulus
    }
}

/// Whether a molecule can tumble on what it senses and then run.
pub open spec fn advance_fits(
    m: InformationMolecule,
    field: Seq<ChemotacticMolecule>,
    turn: Heading,
) -> bool {
    m.tumble_fits(sensed(m, field)) && m.tumbled(sensed(m, field), turn).run_fits()
}

/// A molecule after it has sensed, tumbled and run.
pub open spec fn advanced(
    m: InformationMolecule,
    field: Seq<ChemotacticMolecule>,
    turn: Heading,
) -> InformationMolecule {
    m.tumbled(sensed(m, field), turn).ran()
}

/// Whether every molecule can be advanced with its heading in `turns`.
pub open spec fn advance_all_fits(
    molecules: Seq<InformationMolecule>,
    field: Seq<ChemotacticMolecule>,
    turns: Seq<Heading>,
) -> bool {
    forall|i: int| 0 <= i < molecules.len() ==> advance_fits(#[trigger] molecules[i], field, turns[i])
}

/// The collection after every molecule has been advanced.
pub open spec fn advanced_all(
    molecules: Seq<InformationMolecule>,
    field: Seq<ChemotacticMolecule>,
    turns: Seq<Heading>,
) -> Seq<InformationMolecule> {
    Seq::new(molecules.len(), |i: int| advanced(molecules[i], field, turns[i]))
}

/// Molecules that are bound.
pub open spec fn is_stopped() -> spec_fn(InformationMolecule) -> bool {
    |m: InformationMolecule| m.stopped
}

/// Molecules that stay in the collection.
pub open spec fn is_live() -> spec_fn(InformationMolecule) -> bool {
    |m: InformationMolecule| !m.released
}

/// Molecules that hand a receptor back when they are dropped.
pub open spec fn returns_receptor() -> spec_fn(InformationMolecule) -> bool {
    |m: InformationMolecule| m.released && m.stopped
}

/// Molecules that ask the receiver anchored at `rect` for a receptor: they
/// overlap the anchor and are not bound yet.
pub open spec fn is_candidate(rect: Rect) -> spec_fn(InformationMolecule) -> bool {
    |m: InformationMolecule| rect.intersects(m.rect) && !m.stopped
}

/// The number of bound molecules in a collection.
pub open spec fn bound_count(molecules: Seq<InformationMolecule>) -> nat {
    molecules.filter(is_stopped()).len()
}

/// Whether the molecule at index `i` gets a receptor: it is a candidate, and
/// fewer than `free` candidates stand before it.
pub open spec fn binds_at(
    molecules: Seq<InformationMolecule>,
    rect: Rect,
    free: nat,
    i: int,
) -> bool {
    is_candidate(rect)(molecules[i]) && molecules.take(i).filter(is_candidate(rect)).len() < free
}

/// The collection after the receiver has served it in order: the first
/// `free` candidates are bound, everything else is as it was.
pub open spec fn bound_all(
    molecules: Seq<InformationMolecule>,
    rect: Rect,
    free: nat,
) -> Seq<InformationMolecule> {
    Seq::new(
        molecules.len(),
        |i: int|
            if binds_at(molecules, rect, free, i) {
                molecules[i].bound()
            } else {
                molecules[i]
            },
    )
}

/// Receptors left free after the collection has been served.
pub open spec fn free_after_binding(
    molecules: Seq<InformationMolecule>,
    rect: Rect,
    free: nat,
) -> nat {
    let candidates = molecules.filter(is_candidate(rect)).len();
    if candidates < free {
        (free - candidates) as nat
    } else {
        0
    }
}

/// The collection and the free receptors after the molecules have been
/// handled strictly one after the other: each senses, tumbles and runs, and
/// is then offered to the receiver before the next one moves.
pub open spec fn advanced_in_turn(
    molecules: Seq<InformationMolecule>,
    field: Seq<ChemotacticMolecule>,
    turns: Seq<Heading>,
    rect: Rect,
    free: nat,
) -> (Seq<InformationMolecule>, nat)
    decreases molecules.len(),
{
    if molecules.len() == 0 {
        (molecules, free)
    } else {
        let before = advanced_in_turn(molecules.drop_last(), field, turns, rect, free);
        let m = advanced(molecules.last(), field, turns[molecules.len() - 1]);
        if rect.intersects(m.rect) && !m.stopped && before.1 > 0 {
            (before.0.push(m.bound()), (before.1 - 1) as nat)
        } else {
            (before.0.push(m), before.1)
        }
    }
}

/// The molecules that compaction keeps, in their order.
pub open spec fn survivors(molecules: Seq<InformationMolecule>) -> Seq<InformationMolecule> {
    molecules.filter(is_live())
}

/// Receptors free after compaction: one more for every dropped molecule that
/// was bound, up to the pool's capacity.
pub open spec fn free_after_compaction(
    molecules: Seq<InformationMolecule>,
    free: nat,
    max: nat,
) -> nat {
    let returned = molecules.filter(returns_receptor()).len();
    if free + returned <= max {
        free + returned
    } else {
        max
    }
}

/// Moves the chemotactic field by one tick: every molecule turns onto its
/// heading in `turns`, then runs.
///
/// Returns `None`, and moves nothing, if some molecule would leave the
/// coordinates of `i32`.
pub fn diffuse(field: &Vec<ChemotacticMolecule>, turns: &Vec<Heading>) -> (r: Option<
    Vec<ChemotacticMolecule>,
>)
    requires
        field.len() == turns.len(),
    ensures
        r is Some <==> field_fits(field@, turns@),
        r matches Some(moved) ==> moved@ == moved_field(field@, turns@),
{
    let mut moved: Vec<ChemotacticMolecule> = Vec::with_capacity(field.len());
    let mut i: usize = 0;
    while i < field.len()
        invariant
            i <= field.len() == turns.len(),
            moved@ == moved_field(field@.take(i as int), turns@.take(i as int)),
            field_fits(field@.take(i as int), turns@.take(i as int)),
        decreases field.len() - i,
    {
        let mut m = field[i];
        m.tumble(turns[i]);
        if !m.can_run() {
            proof {
                assert(!field@[i as int].tumbled(turns@[i as int]).run_fits());
            }
            return None;
        }
        m.run();
        moved.push(m);
        i = i + 1;
    }
    proof {
        assert(field@.take(i as int) == field@);
        assert(turns@.take(i as int) == turns@);
    }
    Some(moved)
}

/// Advances every information molecule by one tick against the given field:
/// it senses (only if its timer has lapsed), tumbles with its heading in
/// `turns` as the turn, and runs.
///
/// Returns `None` if some molecule's timer or position would leave `i32`, or
/// a bound molecule has no residence time left.
pub fn advance(
    molecules: &Vec<InformationMolecule>,
    field: &Vec<ChemotacticMolecule>,
    turns: &Vec<Heading>,
) -> (r: Option<Vec<InformationMolecule>>)
    requires
        molecules.len() == turns.len(),
        field.len() <= u32::MAX,
    ensures
        r is Some <==> advance_all_fits(molecules@, field@, turns@),
        r matches Some(out) ==> out@ == advanced_all(molecules@, field@, turns@),
{
    let mut out: Vec<InformationMolecule> = Vec::with_capacity(molecules.len());
    let mut i: usize = 0;
    while i < molecules.len()
        invariant
            i <= molecules.len() == turns.len(),
            field.len() <= u32::MAX,
            out@ == advanced_all(molecules@.take(i as int), field@, turns@.take(i as int)),
            advance_all_fits(molecules@.take(i as int), field@, turns@.take(i as int)),
        decreases molecules.len() - i,
    {
        let mut m = molecules[i];
        let mut in_range: u32 = m.stimulus;
        if m.tumble_timer <= 0 {
            in_range = count_molecules_in_range(&m, field, SENSING_RANGE);
        }
        proof {
            lemma_count_bounded(m.rect.x as int, m.rect.y as int, field@, SENSING_RANGE as int);
            assert(in_range == sensed(molecules@[i as int], field@));
        }
        if !m.can_tumble(in_range) {
            proof {
                assert(!advance_fits(molecules@[i as int], field@, turns@[i as int]));
            }
            return None;
        }
        m.tumble(in_range, turns[i]);
        if !m.can_run() {
            proof {
                assert(!advance_fits(molecules@[i as int], field@, turns@[i as int]));
            }
            return None;
        }
        m.run();
        out.push(m);
        i = i + 1;
    }
    proof {
        assert(molecules@.take(i as int) == molecules@);
        assert(turns@.take(i as int) == turns@);
    }
    Some(out)
}

/// Lets the receiver serve the collection in order: each molecule that
/// overlaps the anchor and is not bound yet takes a receptor while one is
/// free, and is stopped.
pub fn bind(molecules: &Vec<InformationMolecule>, receiver: &mut Receiver) -> (out: Vec<
    InformationMolecule,
>)
    ensures
        out@ == bound_all(molecules@, old(receiver)@.rect, old(receiver)@.free_receptors),
        final(receiver)@ == (ReceiverView {
            free_receptors: free_after_binding(
                molecules@,
                old(receiver)@.rect,
                old(receiver)@.free_receptors,
            ),
            ..old(receiver)@
        }),
        old(receiver).wf() ==> final(receiver).wf(),
{
    let ghost rect = receiver@.rect;
    let ghost free = receiver@.free_receptors;
    let ghost asks = is_candidate(rect);
    let mut out: Vec<InformationMolecule> = Vec::with_capacity(molecules.len());
    let mut i: usize = 0;
    proof {
        reveal(Seq::filter);
        assert(molecules@.take(0).len() == 0);
    }
    while i < molecules.len()
        invariant
            i <= molecules.len(),
            rect == old(receiver)@.rect,
            free == old(receiver)@.free_receptors,
            asks == is_candidate(rect),
            out@.len() == i,
            forall|j: int|
                0 <= j < i ==> out@[j] == if binds_at(molecules@, rect, free, j) {
                    molecules@[j].bound()
                } else {
                    molecules@[j]
                },
            receiver@ == (ReceiverView {
                free_receptors: free_after_binding(molecules@.take(i as int), rect, free),
                ..old(receiver)@
            }),
            old(receiver).wf() ==> receiver.wf(),
        decreases molecules.len() - i,
    {
        let mut m = molecules[i];
        proof {
            let seen = molecules@.take(i as int);
            assert(molecules@.take(i + 1) == seen.push(m));
            seen.lemma_filter_push(m, asks);
            assert(asks(m) == (rect.intersects(m.rect) && !m.stopped));
        }
        receiver.try_bind(&mut m);
        out.push(m);
        i = i + 1;
    }
    proof {
        assert(molecules@.take(i as int) == molecules@);
    }
    out
}

/// Drops every released molecule from the collection. A dropped molecule
/// that was bound first hands its receptor back; one that was never bound
/// leaves the pool alone.
pub fn compact(molecules: Vec<InformationMolecule>, receiver: &mut Receiver) -> (kept: Vec<
    InformationMolecule,
>)
    requires
        old(receiver).wf(),
    ensures
        kept@ == survivors(molecules@),
        final(receiver)@ == (ReceiverView {
            free_receptors: free_after_compaction(
                molecules@,
                old(receiver)@.free_receptors,
                old(receiver)@.max_receptors,
            ),
            ..old(receiver)@
        }),
        final(receiver).wf(),
{
    let ghost free = receiver@.free_receptors;
    let ghost max = receiver@.max_receptors;
    let mut kept: Vec<InformationMolecule> = Vec::new();
    let mut i: usize = 0;
    proof {
        reveal(Seq::filter);
        assert(molecules@.take(0).len() == 0);
    }
    while i < molecules.len()
        invariant
            i <= molecules.len(),
            free == old(receiver)@.free_receptors,
            max == old(receiver)@.max_receptors,
            free <= max,
            kept@ == survivors(molecules@.take(i as int)),
            receiver@ == (ReceiverView {
                free_receptors: free_after_compaction(molecules@.take(i as int), free, max),
                ..old(receiver)@
            }),
        decreases molecules.len() - i,
    {
        let m = molecules[i];
        proof {
            let seen = molecules@.take(i as int);
            assert(molecules@.take(i + 1) == seen.push(m));
            seen.lemma_filter_push(m, is_live());
            seen.lemma_filter_push(m, returns_receptor());
            assert(is_live()(m) == !m.released);
            assert(returns_receptor()(m) == (m.released && m.stopped));
        }
        if m.released {
            if m.stopped {
                receiver.release();
            }
        } else {
            kept.push(m);
        }
        i = i + 1;
    }
    proof {
        assert(molecules@.take(i as int) == molecules@);
    }
    kept
}

/// Counts the bound molecules of a collection.
pub fn count_bound(molecules: &Vec<InformationMolecule>) -> (n: usize)
    ensures
        n == bound_count(molecules@),
{
    let mut n: usize = 0;
    let mut i: usize = 0;
    proof {
        reveal(Seq::filter);
        assert(molecules@.take(0).len() == 0);
    }
    while i < molecules.len()
        invariant
            i <= molecules.len(),
            n <= i,
            n == bound_count(molecules@.take(i as int)),
        decreases molecules.len() - i,
    {
        proof {
            let seen = molecules@.take(i as int);
            let m = molecules@[i as int];
            assert(molecules@.take(i + 1) == seen.push(m));
            seen.lemma_filter_push(m, is_stopped());
            assert(is_stopped()(m) == m.stopped);
        }
        if molecules[i].stopped {
            n = n + 1;
        }
        i = i + 1;
    }
    proof {
        assert(molecules@.take(i as int) == molecules@);
    }
    n
}

} // verus!
