//! The simulation driver: it owns the tick counter and the two collections,
//! and advances everything by whole ticks.

use vstd::prelude::*;
use crate::chemotactic::ChemotacticMolecule;
use crate::conservation::{
    lemma_advance_keeps_bound, lemma_binding_conserves, lemma_compaction_conserves,
    lemma_supply_keeps_bound,
};
use crate::geometry::Heading;
use crate::information::InformationMolecule;
use crate::receiver::{Receiver, ReceiverView};
use crate::tick::{
    advance, advance_all_fits, advanced_all, bind, bound_all, bound_count, compact, count_bound,
    diffuse, field_fits, free_after_binding, free_after_compaction, is_live, moved_field,
    survivors,
};
use crate::transmitter::{emitted_batch, Transmitter, TransmitterView};

verus! {

/// Ticks between two transmissions. A batch is due whenever the tick counter
/// is a multiple of it, the very first tick included.
pub const RETRANSMISSION_PERIOD: u128 = 3000;

/// Why a tick was not carried out.
#[derive(Clone, Copy, Debug, PartialEq, Eq, Structural)]
pub enum Fault {
    /// The caller did not supply one heading for each draw the tick makes.
    RandomSource,
    /// A position, a timer or the tick counter would leave its integer type.
    Overflow,
}

/// The state of the simulation after a tick, in three numbers.
#[derive(Clone, Copy, Debug, PartialEq, Eq, Structural)]
pub struct TickReport {
    /// Information molecules bound to a receptor.
    pub bound: usize,
    /// Information molecules in the collection.
    pub live: usize,
    /// The tick counter.
    pub timer: u128,
}

/// A running simulation.
pub struct Simulation {
    transmitter: Transmitter,
    receiver: Receiver,
    information_molecules: Vec<InformationMolecule>,
    chemotactic_molecules: Vec<ChemotacticMolecule>,
    timer: u128,
}

/// What a simulation holds, as mathematical values.
pub struct SimulationView {
    pub transmitter: TransmitterView,
    pub receiver: ReceiverView,
    pub information: Seq<InformationMolecule>,
    pub chemotactic: Seq<ChemotacticMolecule>,
    pub timer: nat,
}

impl SimulationView {
    /// The invariant of every simulation: the receptors taken from the pool
    /// are exactly those of the bound molecules in the collection, and the
    /// field is small enough to be counted in a `u32`.
    pub open spec fn wf(self) -> bool {
        &&& self.receiver.wf()
        &&& bound_count(self.information) == self.receiver.taken()
        &&& self.chemotactic.len() <= u32::MAX
    }

    /// Whether the next tick starts with a transmission.
    pub open spec fn due(self) -> bool {
        self.timer % (RETRANSMISSION_PERIOD as nat) == 0
    }

    /// The information molecules that take part in the next tick: those in
    /// the collection, followed by a fresh batch if one is due.
    pub open spec fn supplied(self, batch: Seq<Heading>) -> Seq<InformationMolecule> {
        if self.due() {
            self.information + emitted_batch(self.transmitter.rect, batch)
        } else {
            self.information
        }
    }

    /// Whether the caller has supplied one heading per draw: a batch of
    /// initial headings if a transmission is due (`batch` is not looked at
    /// otherwise), one turn per chemotactic molecule, and one turn per
    /// information molecule that takes part.
    pub open spec fn headings_match(
        self,
        batch: Seq<Heading>,
        field_turns: Seq<Heading>,
        turns: Seq<Heading>,
    ) -> bool {
        &&& self.due() ==> batch.len() == self.transmitter.transmission_size
        &&& field_turns.len() == self.chemotactic.len()
        &&& turns.len() == self.supplied(batch).len()
    }

    /// Whether the next tick stays within the machine's integers.
    pub open spec fn fits(
        self,
        batch: Seq<Heading>,
        field_turns: Seq<Heading>,
        turns: Seq<Heading>,
    ) -> bool {
        &&& self.timer < u128::MAX
        &&& field_fits(self.chemotactic, field_turns)
        &&& advance_all_fits(
            self.supplied(batch),
            moved_field(self.chemotactic, field_turns),
            turns,
        )
    }

    /// The state after one tick.
    ///
    /// In order: a batch is appended if one is due; the field diffuses; every
    /// information molecule senses the moved field, tumbles and runs; the
    /// receiver binds the first candidates while receptors are free; released
    /// molecules are dropped, the bound ones among them handing their
    /// receptor back; the tick counter goes up by one.
    pub open spec fn stepped(
        self,
        batch: Seq<Heading>,
        field_turns: Seq<Heading>,
        turns: Seq<Heading>,
    ) -> SimulationView {
        let field = moved_field(self.chemotactic, field_turns);
        let ran = advanced_all(self.supplied(batch), field, turns);
        let served = bound_all(ran, self.receiver.rect, self.receiver.free_receptors);
        let free = free_after_binding(ran, self.receiver.rect, self.receiver.free_receptors);
        SimulationView {
            transmitter: self.transmitter,
            receiver: ReceiverView {
                free_receptors: free_after_compaction(served, free, self.receiver.max_receptors),
                ..self.receiver
            },
            information: survivors(served),
            chemotactic: field,
            timer: self.timer + 1,
        }
    }

    /// The three numbers that describe the state.
    pub open spec fn report(self) -> TickReport {
        TickReport {
            bound: bound_count(self.information) as usize,
            live: self.information.len() as usize,
            timer: self.timer as u128,
        }
    }
}

/// In a well-formed state the bound molecules are as many as the receptors
/// taken, and so never more than the receiver has.
pub proof fn lemma_bound_is_taken(s: SimulationView)
    requires
        s.wf(),
    ensures
        bound_count(s.information) == s.receiver.max_receptors - s.receiver.free_receptors,
        bound_count(s.information) <= s.receiver.max_receptors,
        s.receiver.free_receptors <= s.receiver.max_receptors,
{
}

/// A tick takes a well-formed state to a well-formed state, whatever the
/// headings.
pub proof fn lemma_step_preserves_wf(
    s: SimulationView,
    batch: Seq<Heading>,
    field_turns: Seq<Heading>,
    turns: Seq<Heading>,
)
    requires
        s.wf(),
    ensures
        s.stepped(batch, field_turns, turns).wf(),
{
    let rect = s.receiver.rect;
    let free = s.receiver.free_receptors;
    let max = s.receiver.max_receptors;
    let pool = s.supplied(batch);
    let field = moved_field(s.chemotactic, field_turns);
    let ran = advanced_all(pool, field, turns);
    let served = bound_all(ran, rect, free);
    if s.due() {
        lemma_supply_keeps_bound(s.information, s.transmitter.rect, batch);
    }
    lemma_advance_keeps_bound(pool, field, turns);
    lemma_binding_conserves(ran, rect, free);
    lemma_compaction_conserves(served, free_after_binding(ran, rect, free), max);
}

/// The headings a caller supplies for one tick.
pub struct TickHeadings {
    pub batch: Seq<Heading>,
    pub field_turns: Seq<Heading>,
    pub turns: Seq<Heading>,
}

/// The state after one tick for each entry of `ticks`, in order.
pub open spec fn after_steps(s: SimulationView, ticks: Seq<TickHeadings>) -> SimulationView
    decreases ticks.len(),
{
    if ticks.len() == 0 {
        s
    } else {
        after_steps(s, ticks.drop_last()).stepped(
            ticks.last().batch,
            ticks.last().field_turns,
            ticks.last().turns,
        )
    }
}

/// After any number of ticks from a well-formed state, the anchors and the
/// capacity are as they were, the tick counter has gone up by one per tick,
/// and the bound molecules are exactly as many as the receptors taken: never
/// more than the receiver has.
pub proof fn lemma_every_tick_is_accounted(s: SimulationView, ticks: Seq<TickHeadings>)
    requires
        s.wf(),
    ensures
        after_steps(s, ticks).wf(),
        after_steps(s, ticks).transmitter == s.transmitter,
        after_steps(s, ticks).receiver.rect == s.receiver.rect,
        after_steps(s, ticks).receiver.max_receptors == s.receiver.max_receptors,
        after_steps(s, ticks).timer == s.timer + ticks.len(),
        bound_count(after_steps(s, ticks).information) == after_steps(s, ticks).receiver.taken(),
        bound_count(after_steps(s, ticks).information) <= s.receiver.max_receptors,
    decreases ticks.len(),
{
    if ticks.len() > 0 {
        lemma_every_tick_is_accounted(s, ticks.drop_last());
        lemma_step_preserves_wf(
            after_steps(s, ticks.drop_last()),
            ticks.last().batch,
            ticks.last().field_turns,
            ticks.last().turns,
        );
    }
}

/// No released molecule is left in the collection after a tick.
pub proof fn lemma_step_drops_released(
    s: SimulationView,
    batch: Seq<Heading>,
    field_turns: Seq<Heading>,
    turns: Seq<Heading>,
)
    ensures
        forall|i: int|
            0 <= i < s.stepped(batch, field_turns, turns).information.len() ==> !(
            #[trigger] s.stepped(batch, field_turns, turns).information[i]).released,
{
    let field = moved_field(s.chemotactic, field_turns);
    let ran = advanced_all(s.supplied(batch), field, turns);
    let served = bound_all(ran, s.receiver.rect, s.receiver.free_receptors);
    let kept = survivors(served);
    assert forall|i: int| 0 <= i < kept.len() implies !(#[trigger] kept[i]).released by {
        served.lemma_filter_pred(is_live(), i);
    }
}

impl View for Simulation {
    type V = SimulationView;

    closed spec fn view(&self) -> SimulationView {
        SimulationView {
            transmitter: self.transmitter@,
            receiver: self.receiver@,
            information: self.information_molecules@,
            chemotactic: self.chemotactic_molecules@,
            timer: self.timer as nat,
        }
    }
}

fn duplicate(molecules: &Vec<InformationMolecule>) -> (copy: Vec<InformationMolecule>)
    ensures
        copy@ == molecules@,
{
    let mut copy: Vec<InformationMolecule> = Vec::with_capacity(molecules.len());
    let mut i: usize = 0;
    while i < molecules.len()
        invariant
            i <= molecules.len(),
            copy@ == molecules@.take(i as int),
        decreases molecules.len() - i,
    {
        copy.push(molecules[i]);
        i = i + 1;
    }
    proof {
        assert(molecules@.take(i as int) == molecules@);
    }
    copy
}

impl Simulation {
    /// Well-formedness: the view's.
    pub open spec fn wf(&self) -> bool {
        self@.wf()
    }

    /// Starts a simulation at tick zero from the given parts.
    ///
    /// Returns `None` unless the receiver's pool accounts for exactly the
    /// bound molecules handed in and the field can be counted in a `u32`.
    pub fn new(
        transmitter: Transmitter,
        receiver: Receiver,
        information_molecules: Vec<InformationMolecule>,
        chemotactic_molecules: Vec<ChemotacticMolecule>,
    ) -> (r: Option<Simulation>)
        requires
            receiver.wf(),
        ensures
            r is Some <==> bound_count(information_molecules@) == receiver@.taken()
                && chemotactic_molecules.len() <= u32::MAX,
            r matches Some(s) ==> s.wf() && s@ == (SimulationView {
                transmitter: transmitter@,
                receiver: receiver@,
                information: information_molecules@,
                chemotactic: chemotactic_molecules@,
                timer: 0,
            }),
    {
        let taken: usize = receiver.max_receptors() - receiver.free_receptors();
        if count_bound(&information_molecules) != taken {
            return None;
        }
        if chemotactic_molecules.len() as u64 > 4_294_967_295u64 {
            return None;
        }
        Some(
            Simulation {
                transmitter,
                receiver,
                information_molecules,
                chemotactic_molecules,
                timer: 0,
            },
        )
    }

    /// The transmitter.
    pub fn transmitter(&self) -> (t: &Transmitter)
        ensures
            t@ == self@.transmitter,
    {
        &self.transmitter
    }

    /// The receiver.
    pub fn receiver(&self) -> (r: &Receiver)
        ensures
            r@ == self@.receiver,
    {
        &self.receiver
    }

    /// The information molecules in the collection, in order.
    pub fn information_molecules(&self) -> (molecules: &Vec<InformationMolecule>)
        ensures
            molecules@ == self@.information,
    {
        &self.information_molecules
    }

    /// The chemotactic field, in order.
    pub fn chemotactic_molecules(&self) -> (molecules: &Vec<ChemotacticMolecule>)
        ensures
            molecules@ == self@.chemotactic,
    {
        &self.chemotactic_molecules
    }

    /// The tick counter: the number of ticks carried out.
    pub fn timer(&self) -> (t: u128)
        ensures
            t == self@.timer,
    {
        self.timer
    }

    /// Tells whether the next tick starts with a transmission.
    pub fn transmission_due(&self) -> (due: bool)
        ensures
            due == self@.due(),
    {
        self.timer % RETRANSMISSION_PERIOD == 0
    }

    /// Describes the present state in three numbers.
    pub fn snapshot(&self) -> (report: TickReport)
        requires
            self.wf(),
        ensures
            report == self@.report(),
    {
        TickReport {
            bound: self.receiver.max_receptors() - self.receiver.free_receptors(),
            live: self.information_molecules.len(),
            timer: self.timer,
        }
    }

    /// Carries out one tick.
    ///
    /// The caller supplies every heading the tick may draw: `batch` holds the
    /// initial headings of the molecules transmitted if a transmission is
    /// due, `field_turns` the heading each chemotactic molecule turns onto,
    /// and `turns` the heading each information molecule turns onto should
    /// it tumble, the molecules of a fresh batch included.
    ///
    /// A tick is all or nothing. It fails with `Fault::RandomSource` if the
    /// headings do not match the draws, and with `Fault::Overflow` if some
    /// position, timer or the tick counter would leave its integer type; the
    /// simulation is then as it was.
    pub fn step(&mut self, batch: &Vec<Heading>, field_turns: &Vec<Heading>, turns: &Vec<Heading>) -> (r:
        Result<TickReport, Fault>)
        requires
            old(self).wf(),
        ensures
            final(self).wf(),
            r is Ok <==> old(self)@.headings_match(batch@, field_turns@, turns@) && old(self)@.fits(
                batch@,
                field_turns@,
                turns@,
            ),
            r == Err::<TickReport, Fault>(Fault::RandomSource) <==> !old(self)@.headings_match(
                batch@,
                field_turns@,
                turns@,
            ),
            r is Ok ==> final(self)@ == old(self)@.stepped(batch@, field_turns@, turns@),
            r is Err ==> final(self)@ == old(self)@,
            r matches Ok(report) ==> report == final(self)@.report(),
    {
        let due = self.transmission_due();
        let live: usize = self.information_molecules.len();
        if due && batch.len() != self.transmitter.transmission_size() {
            return Err(Fault::RandomSource);
        }
        if field_turns.len() != self.chemotactic_molecules.len() || turns.len() < live {
            return Err(Fault::RandomSource);
        }
        let fresh: usize = if due { self.transmitter.transmission_size() } else { 0 };
        if turns.len() - live != fresh {
            return Err(Fault::RandomSource);
        }
        if self.timer == u128::MAX {
            return Err(Fault::Overflow);
        }
        let field = match diffuse(&self.chemotactic_molecules, field_turns) {
            Some(field) => field,
            None => {
                return Err(Fault::Overflow);
            },
        };
        let mut pool = duplicate(&self.information_molecules);
        if due {
            let mut emitted = self.transmitter.transmit(batch);
            pool.append(&mut emitted);
        }
        let ran = match advance(&pool, &field, turns) {
            Some(ran) => ran,
            None => {
                return Err(Fault::Overflow);
            },
        };
        let mut receiver = self.receiver;
        let served = bind(&ran, &mut receiver);
        let kept = compact(served, &mut receiver);
        proof {
            lemma_step_preserves_wf(old(self)@, batch@, field_turns@, turns@);
        }
        let report = TickReport {
            bound: receiver.max_receptors() - receiver.free_receptors(),
            live: kept.len(),
            timer: self.timer + 1,
        };
        self.chemotactic_molecules = field;
        self.information_molecules = kept;
        self.receiver = receiver;
        self.timer = self.timer + 1;
        Ok(report)
    }
}

} // verus!
