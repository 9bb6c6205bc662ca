use chemotaxis::chemotactic::ChemotacticMolecule;
use chemotaxis::geometry::Heading;
use chemotaxis::information::InformationMolecule;
use chemotaxis::stimulus::{count_molecules_in_range, SENSING_RANGE};

fn still() -> Heading {
    Heading { dx: 0, dy: 0, bearing: 0 }
}

fn at(x: i32, y: i32) -> ChemotacticMolecule {
    let mut c = ChemotacticMolecule::new(0, 0, 5, 5, still());
    c.rect.x = x;
    c.rect.y = y;
    c
}

fn probe(x: i32, y: i32) -> InformationMolecule {
    let mut m = InformationMolecule::new(0, 0, 5, 5, still());
    m.rect.x = x;
    m.rect.y = y;
    m
}

fn scattered(n: u32) -> Vec<ChemotacticMolecule> {
    let mut state: u32 = 2024;
    let mut field = Vec::new();
    for _ in 0..n {
        state = state.wrapping_mul(1_664_525).wrapping_add(1_013_904_223);
        let x = ((state >> 8) % 4001) as i32 - 2000;
        state = state.wrapping_mul(1_664_525).wrapping_add(1_013_904_223);
        let y = ((state >> 8) % 4001) as i32 - 2000;
        field.push(at(x, y));
    }
    field
}

#[test]
fn count_of_an_empty_field_is_zero() {
    assert_eq!(count_molecules_in_range(&probe(0, 0), &Vec::new(), 20), 0);
}

#[test]
fn count_takes_the_closed_square() {
    let field = vec![
        at(120, 80),
        at(100, 100),
        at(80, 120),
        at(121, 100),
        at(100, 79),
        at(79, 79),
        at(120, 120),
    ];
    assert_eq!(count_molecules_in_range(&probe(100, 100), &field, 20), 4);
    assert_eq!(SENSING_RANGE, 20);
}

#[test]
fn count_needs_both_axes_in_range() {
    let field = vec![at(0, 21), at(21, 0), at(-21, 0), at(0, -21), at(20, -20)];
    assert_eq!(count_molecules_in_range(&probe(0, 0), &field, 20), 1);
}

#[test]
fn count_with_range_zero_takes_the_same_cell_only() {
    let field = vec![at(5, 5), at(5, 5), at(5, 6), at(4, 5)];
    assert_eq!(count_molecules_in_range(&probe(5, 5), &field, 0), 2);
}

#[test]
fn count_with_negative_range_is_zero() {
    let field = vec![at(5, 5), at(6, 6)];
    assert_eq!(count_molecules_in_range(&probe(5, 5), &field, -1), 0);
    assert_eq!(count_molecules_in_range(&probe(5, 5), &field, i32::MIN), 0);
}

#[test]
fn count_counts_equal_molecules_each() {
    let field = vec![at(1, 1); 37];
    assert_eq!(count_molecules_in_range(&probe(0, 0), &field, 1), 37);
}

#[test]
fn count_never_falls_as_the_range_grows() {
    let field = scattered(500);
    let m = probe(137, -420);
    let mut last = 0;
    for range in 0..=4200 {
        let count = count_molecules_in_range(&m, &field, range);
        assert!(count >= last);
        assert!(count <= 500);
        last = count;
    }
    assert_eq!(last, 500);
}

#[test]
fn count_covers_the_arena_from_any_corner() {
    let field = scattered(300);
    for (x, y) in [(2000, 2000), (-2000, 2000), (2000, -2000), (-2000, -2000), (0, 0)] {
        assert_eq!(count_molecules_in_range(&probe(x, y), &field, 4000), 300);
    }
    let corners = vec![at(2000, 2000), at(-2000, -2000)];
    assert_eq!(count_molecules_in_range(&probe(-2000, -2000), &corners, 4000), 2);
    assert_eq!(count_molecules_in_range(&probe(-2000, -2000), &corners, 3999), 1);
}

#[test]
fn count_does_not_overflow_at_the_ends_of_the_integers() {
    let field = vec![at(i32::MAX, i32::MAX), at(i32::MIN, i32::MIN), at(0, 0)];
    assert_eq!(count_molecules_in_range(&probe(i32::MAX, i32::MAX), &field, i32::MAX), 2);
    assert_eq!(count_molecules_in_range(&probe(i32::MIN, i32::MIN), &field, i32::MAX), 1);
    assert_eq!(count_molecules_in_range(&probe(0, 0), &field, i32::MAX), 2);
}

#[test]
fn count_reads_only_the_position_of_the_molecule() {
    let field = vec![at(3, 3), at(30, 30)];
    let mut m = probe(0, 0);
    m.stop();
    m.stimulus = 99;
    m.tumble_timer = 7;
    assert_eq!(count_molecules_in_range(&m, &field, 20), 1);
}
