//! What holds of an information molecule over any number of ticks.

use vstd::prelude::*;
use crate::chemotactic::ChemotacticMolecule;
use crate::geometry::Heading;
use crate::information::{InformationMolecule, RESIDENCE_TIME, RUN_TICKS};
use crate::stimulus::{count_in_range, in_range_of, within_range};

verus! {

/// The molecule after one tick for each entry of `stimuli`: it tumbles on the
/// stimulus, with the entry of `turns` at the same index as its turn, and
/// then runs.
pub open spec fn after_ticks(
    m: InformationMolecule,
    stimuli: Seq<u32>,
    turns: Seq<Heading>,
) -> InformationMolecule
    decreases stimuli.len(),
{
    if stimuli.len() == 0 {
        m
    } else {
        after_ticks(m, stimuli.drop_last(), turns.drop_last()).tumbled(
            stimuli.last(),
            turns.last(),
        ).ran()
    }
}

/// The molecule after one tumble for each entry of `stimuli`, without runs
/// in between.
pub open spec fn after_tumbles(
    m: InformationMolecule,
    stimuli: Seq<u32>,
    turns: Seq<Heading>,
) -> InformationMolecule
    decreases stimuli.len(),
{
    if stimuli.len() == 0 {
        m
    } else {
        after_tumbles(m, stimuli.drop_last(), turns.drop_last()).tumbled(
            stimuli.last(),
            turns.last(),
        )
    }
}

/// Whether no entry of `stimuli` is above the one before it, the first being
/// held against `start`.
pub open spec fn never_rises(start: u32, stimuli: Seq<u32>) -> bool {
    forall|i: int|
        0 <= i < stimuli.len() ==> #[trigger] stimuli[i] <= (if i == 0 {
            start
        } else {
            stimuli[i - 1]
        })
}

/// A tumble moves nothing and leaves the life cycle alone: it only touches
/// the heading, the timer and the remembered stimulus.
pub proof fn lemma_tumble_keeps_place(m: InformationMolecule, current_stimulus: u32, turn: Heading)
    ensures
        m.tumbled(current_stimulus, turn).rect == m.rect,
        m.tumbled(current_stimulus, turn).residence_time == m.residence_time,
        m.tumbled(current_stimulus, turn).stopped == m.stopped,
        m.tumbled(current_stimulus, turn).released == m.released,
        m.tumbled(current_stimulus, turn).stimulus == current_stimulus,
{
}

/// A stimulus above the remembered one sets the timer to `RUN_TICKS`; the
/// countdown of the same tumble leaves it one below. The heading is kept.
pub proof fn lemma_rising_stimulus_arms_timer(
    m: InformationMolecule,
    current_stimulus: u32,
    turn: Heading,
)
    requires
        current_stimulus > m.stimulus,
    ensures
        m.tumbled(current_stimulus, turn).tumble_timer == RUN_TICKS - 1,
        m.tumbled(current_stimulus, turn).tumble_timer == 14,
        m.tumbled(current_stimulus, turn).heading == m.heading,
{
}

/// Without a rise in stimulus the timer counts down by one, and the molecule
/// turns exactly when the timer had lapsed.
pub proof fn lemma_flat_stimulus_counts_down(
    m: InformationMolecule,
    current_stimulus: u32,
    turn: Heading,
)
    requires
        current_stimulus <= m.stimulus,
        m.tumble_fits(current_stimulus),
    ensures
        m.tumbled(current_stimulus, turn).tumble_timer == m.tumble_timer - 1,
        m.tumbled(current_stimulus, turn).heading == (if m.tumble_timer <= 0 {
            turn
        } else {
            m.heading
        }),
{
}

/// After a rise in stimulus the molecule keeps its heading for the next
/// `RUN_TICKS` tumbles, the rising one included, as long as the stimulus
/// does not rise again; after `n` further tumbles the timer reads
/// `RUN_TICKS - 1 - n`.
pub proof fn lemma_run_phase(
    m: InformationMolecule,
    rise: u32,
    turn: Heading,
    stimuli: Seq<u32>,
    turns: Seq<Heading>,
)
    requires
        rise > m.stimulus,
        stimuli.len() == turns.len(),
        stimuli.len() < RUN_TICKS,
        never_rises(rise, stimuli),
    ensures
        after_tumbles(m.tumbled(rise, turn), stimuli, turns).tumble_timer == RUN_TICKS - 1
            - stimuli.len(),
        after_tumbles(m.tumbled(rise, turn), stimuli, turns).heading == m.heading,
        after_tumbles(m.tumbled(rise, turn), stimuli, turns).stimulus == (if stimuli.len() == 0 {
            rise
        } else {
            stimuli.last()
        }),
    decreases stimuli.len(),
{
    if stimuli.len() > 0 {
        let head = stimuli.drop_last();
        assert forall|i: int| 0 <= i < head.len() implies #[trigger] head[i] <= (if i == 0 {
            rise
        } else {
            head[i - 1]
        }) by {
            assert(head[i] == stimuli[i]);
        }
        lemma_run_phase(m, rise, turn, head, turns.drop_last());
        let last = stimuli.len() - 1;
        assert(stimuli[last] <= (if last == 0 {
            rise
        } else {
            stimuli[last - 1]
        }));
    }
}

/// While the stimulus never rises, every tumble counts the timer down by
/// one, so a timer that has lapsed stays lapsed.
pub proof fn lemma_flat_stimulus_only_counts_down(
    m: InformationMolecule,
    stimuli: Seq<u32>,
    turns: Seq<Heading>,
)
    requires
        stimuli.len() == turns.len(),
        never_rises(m.stimulus, stimuli),
        m.tumble_timer - stimuli.len() >= i32::MIN,
    ensures
        after_tumbles(m, stimuli, turns).tumble_timer == m.tumble_timer - stimuli.len(),
        after_tumbles(m, stimuli, turns).stimulus == (if stimuli.len() == 0 {
            m.stimulus
        } else {
            stimuli.last()
        }),
    decreases stimuli.len(),
{
    if stimuli.len() > 0 {
        let head = stimuli.drop_last();
        assert forall|i: int| 0 <= i < head.len() implies #[trigger] head[i] <= (if i == 0 {
            m.stimulus
        } else {
            head[i - 1]
        }) by {
            assert(head[i] == stimuli[i]);
        }
        lemma_flat_stimulus_only_counts_down(m, head, turns.drop_last());
        let last = stimuli.len() - 1;
        assert(stimuli[last] <= (if last == 0 {
            m.stimulus
        } else {
            stimuli[last - 1]
        }));
    }
}

/// A field with no molecule within range gives a stimulus of zero.
pub proof fn lemma_count_none_in_range(
    x: int,
    y: int,
    field: Seq<ChemotacticMolecule>,
    range: int,
)
    requires
        forall|i: int| 0 <= i < field.len() ==> !within_range(x, y, #[trigger] field[i], range),
    ensures
        count_in_range(x, y, field, range) == 0,
    decreases field.len(),
{
    reveal(Seq::filter);
    if field.len() > 0 {
        let rest = field.drop_last();
        assert forall|i: int| 0 <= i < rest.len() implies !within_range(
            x,
            y,
            #[trigger] rest[i],
            range,
        ) by {
            assert(rest[i] == field[i]);
        }
        lemma_count_none_in_range(x, y, rest, range);
        assert(!in_range_of(x, y, range)(field.last()));
    }
}

/// A run never revives a molecule, never unbinds it, and never moves a bound
/// one.
pub proof fn lemma_run_is_monotonic(m: InformationMolecule)
    ensures
        m.released ==> m.ran().released,
        m.ran().stopped == m.stopped,
        m.stopped ==> m.ran().rect == m.rect,
        m.ran().heading == m.heading,
        m.ran().stimulus == m.stimulus,
        m.ran().tumble_timer == m.tumble_timer,
        !m.stopped ==> m.ran().residence_time == m.residence_time,
{
}

/// A bound molecule with residence time `k > 0` stays where it is and stays
/// live for the next `k - 1` ticks, and is released by the `k`-th, whatever
/// it senses in between.
pub proof fn lemma_residence(m: InformationMolecule, stimuli: Seq<u32>, turns: Seq<Heading>)
    requires
        m.stopped,
        !m.released,
        m.residence_time > 0,
        stimuli.len() == turns.len(),
        stimuli.len() <= m.residence_time,
    ensures
        after_ticks(m, stimuli, turns).rect == m.rect,
        after_ticks(m, stimuli, turns).stopped,
        after_ticks(m, stimuli, turns).residence_time == m.residence_time - stimuli.len(),
        after_ticks(m, stimuli, turns).released <==> stimuli.len() == m.residence_time,
    decreases stimuli.len(),
{
    if stimuli.len() > 0 {
        lemma_residence(m, stimuli.drop_last(), turns.drop_last());
    }
}

/// A molecule bound with the full residence time is still held after 59
/// ticks and released by the 60th, at the place where it was bound.
pub proof fn lemma_full_residence(m: InformationMolecule, stimuli: Seq<u32>, turns: Seq<Heading>)
    requires
        m.stopped,
        !m.released,
        m.residence_time == RESIDENCE_TIME,
        stimuli.len() == turns.len(),
        stimuli.len() <= 60,
    ensures
        after_ticks(m, stimuli, turns).rect == m.rect,
        after_ticks(m, stimuli, turns).released <==> stimuli.len() == 60,
{
    lemma_residence(m, stimuli, turns);
}

} // verus!
