//! The stimulus an information molecule senses: the number of chemotactic
//! molecules in a square neighbourhood around it.

use vstd::prelude::*;
use crate::chemotactic::ChemotacticMolecule;
use crate::geometry::{outside_arena, ARENA_HALF_WIDTH};
use crate::information::InformationMolecule;

verus! {

/// Half-width of the neighbourhood the simulation senses in.
pub const SENSING_RANGE: i32 = 20;

/// Whether `c` lies in the closed square of half-width `range` centred on
/// `(x, y)`.
pub open spec fn within_range(x: int, y: int, c: ChemotacticMolecule, range: int) -> bool {
    x - range <= c.rect.x <= x + range && y - range <= c.rect.y <= y + range
}

/// `within_range` around a fixed centre, as a predicate on molecules.
pub open spec fn in_range_of(x: int, y: int, range: int) -> spec_fn(ChemotacticMolecule) -> bool {
    |c: ChemotacticMolecule| within_range(x, y, c, range)
}

/// How many molecules of `field` lie within `range` of `(x, y)`.
pub open spec fn count_in_range(
    x: int,
    y: int,
    field: Seq<ChemotacticMolecule>,
    range: int,
) -> nat {
    field.filter(in_range_of(x, y, range)).len()
}

/// Counts the chemotactic molecules within `range` of `molecule`.
///
/// Every molecule of the field is looked at, so callers sample only when
/// they need a new value.
pub fn count_molecules_in_range(
    molecule: &InformationMolecule,
    chemotactic_molecules: &Vec<ChemotacticMolecule>,
    range: i32,
) -> (count: u32)
    requires
        chemotactic_molecules.len() <= u32::MAX,
    ensures
        count == count_in_range(
            molecule.rect.x as int,
            molecule.rect.y as int,
            chemotactic_molecules@,
            range as int,
        ),
{
    let mut count: u32 = 0;
    let x1: i64 = molecule.rect.x as i64;
    let y1: i64 = molecule.rect.y as i64;
    let max_x: i64 = x1 + range as i64;
    let min_x: i64 = x1 - range as i64;
    let max_y: i64 = y1 + range as i64;
    let min_y: i64 = y1 - range as i64;
    let ghost inside = in_range_of(x1 as int, y1 as int, range as int);
    let mut i: usize = 0;
    proof {
        reveal(Seq::filter);
        assert(chemotactic_molecules@.take(0).len() == 0);
    }
    while i < chemotactic_molecules.len()
        invariant
            i <= chemotactic_molecules.len() <= u32::MAX,
            count <= i,
            count == chemotactic_molecules@.take(i as int).filter(inside).len(),
            inside == in_range_of(x1 as int, y1 as int, range as int),
            max_x == x1 + range,
            min_x == x1 - range,
            max_y == y1 + range,
            min_y == y1 - range,
        decreases chemotactic_molecules.len() - i,
    {
        let x2: i64 = chemotactic_molecules[i].rect.x as i64;
        let y2: i64 = chemotactic_molecules[i].rect.y as i64;
        proof {
            let seen = chemotactic_molecules@.take(i as int);
            let c = chemotactic_molecules@[i as int];
            assert(chemotactic_molecules@.take(i + 1) == seen.push(c));
            seen.lemma_filter_push(c, inside);
            assert(inside(c) == within_range(x1 as int, y1 as int, c, range as int));
        }
        if x2 >= min_x && x2 <= max_x && y2 >= min_y && y2 <= max_y {
            count = count + 1;
        }
        i = i + 1;
    }
    proof {
        assert(chemotactic_molecules@.take(i as int) == chemotactic_molecules@);
    }
    count
}

/// A count never exceeds the size of the field.
pub proof fn lemma_count_bounded(x: int, y: int, field: Seq<ChemotacticMolecule>, range: int)
    ensures
        count_in_range(x, y, field, range) <= field.len(),
{
    field.lemma_filter_len(in_range_of(x, y, range));
}

/// Around a fixed centre and over a fixed field, a wider range never counts
/// fewer molecules.
pub proof fn lemma_count_monotonic(
    x: int,
    y: int,
    field: Seq<ChemotacticMolecule>,
    narrow: int,
    wide: int,
)
    requires
        narrow <= wide,
    ensures
        count_in_range(x, y, field, narrow) <= count_in_range(x, y, field, wide),
    decreases field.len(),
{
    reveal(Seq::filter);
    if field.len() > 0 {
        lemma_count_monotonic(x, y, field.drop_last(), narrow, wide);
        let c = field.last();
        assert(in_range_of(x, y, narrow)(c) ==> in_range_of(x, y, wide)(c));
    }
}

/// A range that reaches every molecule of the field counts all of them.
pub proof fn lemma_count_reaches_all(x: int, y: int, field: Seq<ChemotacticMolecule>, range: int)
    requires
        forall|i: int| 0 <= i < field.len() ==> within_range(x, y, #[trigger] field[i], range),
    ensures
        count_in_range(x, y, field, range) == field.len(),
    decreases field.len(),
{
    reveal(Seq::filter);
    if field.len() > 0 {
        let rest = field.drop_last();
        assert forall|i: int| 0 <= i < rest.len() implies within_range(
            x,
            y,
            #[trigger] rest[i],
            range,
        ) by {
            assert(rest[i] == field[i]);
        }
        lemma_count_reaches_all(x, y, rest, range);
        assert(in_range_of(x, y, range)(field.last()));
    }
}

/// With the centre and the whole field inside the arena, a range of the
/// arena's full width counts the whole field.
pub proof fn lemma_count_covers_arena(
    x: int,
    y: int,
    field: Seq<ChemotacticMolecule>,
    range: int,
)
    requires
        !outside_arena(x, y),
        forall|i: int|
            0 <= i < field.len() ==> !outside_arena(
                (#[trigger] field[i]).rect.x as int,
                field[i].rect.y as int,
            ),
        range >= 2 * ARENA_HALF_WIDTH,
    ensures
        count_in_range(x, y, field, range) == field.len(),
{
    lemma_count_reaches_all(x, y, field, range);
}

/// A negative range counts nothing.
pub proof fn lemma_count_negative_range(
    x: int,
    y: int,
    field: Seq<ChemotacticMolecule>,
    range: int,
)
    requires
        range < 0,
    ensures
        count_in_range(x, y, field, range) == 0,
    decreases field.len(),
{
    reveal(Seq::filter);
    if field.len() > 0 {
        lemma_count_negative_range(x, y, field.drop_last(), range);
        assert(!in_range_of(x, y, range)(field.last()));
    }
}

} // verus!
