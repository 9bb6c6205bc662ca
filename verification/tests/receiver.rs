use chemotaxis::chemotactic::ChemotacticMolecule;
use chemotaxis::geometry::{Heading, Rect};
use chemotaxis::information::InformationMolecule;
use chemotaxis::receiver::{Receiver, FIELD_SIZE, FOOTPRINT, RECEPTORS};
use chemotaxis::transmitter::{Transmitter, TRANSMISSION_SIZE};

fn still() -> Heading {
    Heading { dx: 0, dy: 0, bearing: 0 }
}

#[test]
fn receiver_starts_with_every_receptor_free() {
    let r = Receiver::new(650, 500, 40, 40);
    assert_eq!(r.max_receptors(), 20);
    assert_eq!(r.free_receptors(), 20);
    assert_eq!(r.chemotactic_molecules_count(), 1000);
    assert_eq!(r.timer(), 0);
    assert_eq!(r.rect(), Rect { x: 650, y: 500, w: 40, h: 40 });
    assert_eq!(RECEPTORS, 20);
    assert_eq!(FIELD_SIZE, 1000);
}

#[test]
fn receive_takes_one_receptor_while_one_is_free() {
    let mut r = Receiver::new(0, 0, 40, 40);
    for taken in 1..=20usize {
        assert!(r.receive());
        assert_eq!(r.free_receptors(), 20 - taken);
        assert_eq!(r.max_receptors(), 20);
    }
    assert!(!r.receive());
    assert_eq!(r.free_receptors(), 0);
    assert!(!r.receive());
    assert_eq!(r.free_receptors(), 0);
}

#[test]
fn release_returns_one_receptor_unless_the_pool_is_full() {
    let mut r = Receiver::new(0, 0, 40, 40);
    assert!(!r.release());
    assert_eq!(r.free_receptors(), 20);
    assert!(r.receive());
    assert!(r.receive());
    assert_eq!(r.free_receptors(), 18);
    assert!(r.release());
    assert_eq!(r.free_receptors(), 19);
    assert!(r.release());
    assert_eq!(r.free_receptors(), 20);
    assert!(!r.release());
    assert_eq!(r.free_receptors(), 20);
}

#[test]
fn free_receptors_stay_within_the_pool() {
    let mut r = Receiver::new(0, 0, 40, 40);
    let mut state: u32 = 12345;
    for _ in 0..2000 {
        state = state.wrapping_mul(1_664_525).wrapping_add(1_013_904_223);
        let before = r.free_receptors();
        if (state >> 16) % 3 == 0 {
            let given = r.release();
            assert_eq!(given, before < 20);
            assert_eq!(r.free_receptors(), if given { before + 1 } else { before });
        } else {
            let taken = r.receive();
            assert_eq!(taken, before > 0);
            assert_eq!(r.free_receptors(), if taken { before - 1 } else { before });
        }
        assert!(r.free_receptors() <= r.max_receptors());
    }
}

#[test]
fn set_timer_stores_the_value_and_nothing_else() {
    let mut r = Receiver::new(1, 2, 3, 4);
    assert!(r.receive());
    r.set_timer(u128::MAX);
    assert_eq!(r.timer(), u128::MAX);
    assert_eq!(r.free_receptors(), 19);
    assert_eq!(r.max_receptors(), 20);
    assert_eq!(r.rect(), Rect { x: 1, y: 2, w: 3, h: 4 });
    r.set_timer(7);
    assert_eq!(r.timer(), 7);
}

#[test]
fn receiver_transmit_emits_the_field_at_the_anchor() {
    let r = Receiver::new(650, 500, 40, 40);
    let headings: Vec<Heading> =
        (0..1000).map(|i| Heading { dx: i, dy: -i, bearing: i as u32 }).collect();
    let field = r.transmit(&headings);
    assert_eq!(field.len(), 1000);
    for (i, m) in field.iter().enumerate() {
        assert_eq!(
            *m,
            ChemotacticMolecule {
                rect: Rect { x: 650, y: 500, w: 5, h: 5 },
                heading: headings[i],
            }
        );
    }
    assert_eq!(FOOTPRINT, 5);
    assert_eq!(r.free_receptors(), 20);
}

#[test]
fn transmitter_emits_a_batch_of_free_molecules() {
    let t = Transmitter::new(200, 200, 40, 40);
    assert_eq!(t.transmission_size(), 800);
    assert_eq!(TRANSMISSION_SIZE, 800);
    assert_eq!(t.rect(), Rect { x: 200, y: 200, w: 40, h: 40 });
    let headings: Vec<Heading> =
        (0..800).map(|i| Heading { dx: 12, dy: i, bearing: 9 }).collect();
    let batch = t.transmit(&headings);
    assert_eq!(batch.len(), 800);
    for (i, m) in batch.iter().enumerate() {
        assert_eq!(
            *m,
            InformationMolecule {
                rect: Rect { x: 200, y: 200, w: 5, h: 5 },
                heading: headings[i],
                residence_time: 60,
                stopped: false,
                released: false,
                stimulus: 0,
                tumble_timer: 0,
            }
        );
    }
    let again = t.transmit(&headings);
    assert_eq!(again, batch);
}

#[test]
fn try_bind_takes_an_overlapping_free_molecule() {
    let mut r = Receiver::new(650, 500, 40, 40);
    let mut m = InformationMolecule::new(689, 539, 5, 5, still());
    assert!(r.try_bind(&mut m));
    assert!(m.stopped);
    assert!(!m.released);
    assert_eq!(m.residence_time, 60);
    assert_eq!(m.rect, Rect { x: 689, y: 539, w: 5, h: 5 });
    assert_eq!(r.free_receptors(), 19);
}

#[test]
fn try_bind_leaves_a_bound_molecule_alone() {
    let mut r = Receiver::new(650, 500, 40, 40);
    let mut m = InformationMolecule::new(660, 510, 5, 5, still());
    assert!(r.try_bind(&mut m));
    let before = m;
    assert!(!r.try_bind(&mut m));
    assert_eq!(m, before);
    assert_eq!(r.free_receptors(), 19);
}

#[test]
fn try_bind_needs_overlap() {
    let mut r = Receiver::new(650, 500, 40, 40);
    let mut m = InformationMolecule::new(690, 500, 5, 5, still());
    let before = m;
    assert!(!r.try_bind(&mut m));
    assert_eq!(m, before);
    assert_eq!(r.free_receptors(), 20);
}

#[test]
fn try_bind_needs_a_free_receptor() {
    let mut r = Receiver::new(650, 500, 40, 40);
    for _ in 0..20 {
        assert!(r.receive());
    }
    let mut m = InformationMolecule::new(660, 510, 5, 5, still());
    assert!(!r.try_bind(&mut m));
    assert!(!m.stopped);
    assert_eq!(r.free_receptors(), 0);
}
