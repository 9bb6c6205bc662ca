//! Why the receptor pool always accounts for the bound molecules: each phase
//! of a tick keeps the sum of bound molecules and free receptors.

use vstd::prelude::*;
use crate::chemotactic::ChemotacticMolecule;
use crate::geometry::{Heading, Rect};
use crate::information::InformationMolecule;
use crate::tick::{
    advanced, advanced_all, advanced_in_turn, binds_at, bound_all, bound_count,
    free_after_binding, free_after_compaction, is_candidate, is_live, is_stopped,
    returns_receptor, survivors,
};
use crate::transmitter::emitted_batch;

verus! {

/// Two collections whose molecules agree, index by index, on being bound
/// hold the same number of bound molecules.
pub proof fn lemma_bound_count_by_flags(a: Seq<InformationMolecule>, b: Seq<InformationMolecule>)
    requires
        a.len() == b.len(),
        forall|i: int| 0 <= i < a.len() ==> a[i].stopped == b[i].stopped,
    ensures
        bound_count(a) == bound_count(b),
    decreases a.len(),
{
    reveal(Seq::filter);
    if a.len() > 0 {
        lemma_bound_count_by_flags(a.drop_last(), b.drop_last());
    }
}

/// A collection without bound molecules counts none.
pub proof fn lemma_bound_count_of_free(a: Seq<InformationMolecule>)
    requires
        forall|i: int| 0 <= i < a.len() ==> !a[i].stopped,
    ensures
        bound_count(a) == 0,
    decreases a.len(),
{
    reveal(Seq::filter);
    if a.len() > 0 {
        lemma_bound_count_of_free(a.drop_last());
    }
}

/// Appending a freshly emitted batch adds no bound molecule.
pub proof fn lemma_supply_keeps_bound(
    molecules: Seq<InformationMolecule>,
    rect: Rect,
    headings: Seq<Heading>,
)
    ensures
        bound_count(molecules + emitted_batch(rect, headings)) == bound_count(molecules),
{
    let batch = emitted_batch(rect, headings);
    lemma_bound_count_of_free(batch);
    Seq::filter_distributes_over_add(molecules, batch, is_stopped());
}

/// Sensing, tumbling and running neither bind nor unbind a molecule.
pub proof fn lemma_advance_keeps_bound(
    molecules: Seq<InformationMolecule>,
    field: Seq<ChemotacticMolecule>,
    turns: Seq<Heading>,
)
    ensures
        bound_count(advanced_all(molecules, field, turns)) == bound_count(molecules),
{
    lemma_bound_count_by_flags(advanced_all(molecules, field, turns), molecules);
}

/// Binding moves receptors from the pool to molecules one for one: the sum
/// of bound molecules and free receptors is unchanged.
pub proof fn lemma_binding_conserves(molecules: Seq<InformationMolecule>, rect: Rect, free: nat)
    ensures
        bound_count(bound_all(molecules, rect, free)) + free_after_binding(molecules, rect, free)
            == bound_count(molecules) + free,
    decreases molecules.len(),
{
    reveal(Seq::filter);
    let out = bound_all(molecules, rect, free);
    if molecules.len() > 0 {
        let head = molecules.drop_last();
        lemma_binding_conserves(head, rect, free);
        assert forall|i: int| 0 <= i < head.len() implies #[trigger] molecules.take(i)
            == head.take(i) by {
            assert(molecules.take(i) =~= head.take(i));
        }
        assert(out.drop_last() =~= bound_all(head, rect, free));
        assert(molecules.take(molecules.len() - 1) =~= head);
        let m = molecules.last();
        assert(is_candidate(rect)(m) == (rect.intersects(m.rect) && !m.stopped));
    }
}

/// Advancing the whole collection and then letting the receiver serve it in
/// order gives what handling the molecules one after the other gives: what a
/// molecule senses and where it runs does not depend on who was bound before
/// it.
pub proof fn lemma_service_in_turn(
    molecules: Seq<InformationMolecule>,
    field: Seq<ChemotacticMolecule>,
    turns: Seq<Heading>,
    rect: Rect,
    free: nat,
)
    ensures
        advanced_in_turn(molecules, field, turns, rect, free) == (
            bound_all(advanced_all(molecules, field, turns), rect, free),
            free_after_binding(advanced_all(molecules, field, turns), rect, free),
        ),
    decreases molecules.len(),
{
    reveal(Seq::filter);
    let ran = advanced_all(molecules, field, turns);
    let out = bound_all(ran, rect, free);
    if molecules.len() == 0 {
        assert(out =~= molecules);
    } else {
        let head = molecules.drop_last();
        let ran_head = advanced_all(head, field, turns);
        lemma_service_in_turn(head, field, turns, rect, free);
        assert(ran.drop_last() =~= ran_head);
        assert forall|i: int| 0 <= i < ran_head.len() implies #[trigger] ran.take(i)
            == ran_head.take(i) by {
            assert(ran.take(i) =~= ran_head.take(i));
        }
        assert(ran.take(ran.len() - 1) =~= ran_head);
        let m = advanced(molecules.last(), field, turns[molecules.len() - 1]);
        assert(ran.last() == m);
        assert(is_candidate(rect)(m) == (rect.intersects(m.rect) && !m.stopped));
        let served_head = bound_all(ran_head, rect, free);
        let last = if binds_at(ran, rect, free, ran.len() - 1) {
            m.bound()
        } else {
            m
        };
        assert(out =~= served_head.push(last));
    }
}

/// Compaction hands back exactly the receptors of the bound molecules it
/// drops: where the pool accounted for every bound molecule before, it does
/// so after.
pub proof fn lemma_compaction_conserves(molecules: Seq<InformationMolecule>, free: nat, max: nat)
    requires
        bound_count(molecules) + free <= max,
    ensures
        bound_count(survivors(molecules)) + free_after_compaction(molecules, free, max)
            == bound_count(molecules) + free,
    decreases molecules.len(),
{
    reveal(Seq::filter);
    if molecules.len() > 0 {
        let head = molecules.drop_last();
        let m = molecules.last();
        lemma_compaction_conserves(head, free, max);
        head.filter(is_live()).lemma_filter_push(m, is_stopped());
        assert(is_live()(m) == !m.released);
        assert(returns_receptor()(m) == (m.released && m.stopped));
        assert(is_stopped()(m) == m.stopped);
    }
}

} // verus!
