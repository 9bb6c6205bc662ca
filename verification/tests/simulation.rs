use chemotaxis::chemotactic::ChemotacticMolecule;
use chemotaxis::geometry::{Heading, Rect};
use chemotaxis::information::InformationMolecule;
use chemotaxis::receiver::Receiver;
use chemotaxis::simulation::{Fault, Simulation, TickReport, RETRANSMISSION_PERIOD};
use chemotaxis::tick::count_bound;
use chemotaxis::transmitter::Transmitter;

fn heading(dx: i32, dy: i32) -> Heading {
    Heading { dx, dy, bearing: 0 }
}

fn toward(from: Rect, x: i32, y: i32, speed: i32) -> Heading {
    heading((x - from.x).clamp(-speed, speed), (y - from.y).clamp(-speed, speed))
}

fn away() -> Heading {
    heading(5000, 0)
}

struct Draws {
    state: u32,
}

impl Draws {
    fn next(&mut self, speed: i32) -> Heading {
        self.state = self.state.wrapping_mul(1_664_525).wrapping_add(1_013_904_223);
        let dx = ((self.state >> 8) % (2 * speed as u32 + 1)) as i32 - speed;
        self.state = self.state.wrapping_mul(1_664_525).wrapping_add(1_013_904_223);
        let dy = ((self.state >> 8) % (2 * speed as u32 + 1)) as i32 - speed;
        Heading { dx, dy, bearing: self.state }
    }
}

fn check_pool(sim: &Simulation, report: TickReport) {
    let receiver = sim.receiver();
    assert!(report.bound <= 20);
    assert_eq!(report.bound, receiver.max_receptors() - receiver.free_receptors());
    assert_eq!(report.bound, count_bound(sim.information_molecules()));
    assert_eq!(report.live, sim.information_molecules().len());
    assert_eq!(report.timer, sim.timer());
    assert_eq!(report, sim.snapshot());
    assert!(sim.information_molecules().iter().all(|m| !m.released));
}

#[test]
fn new_simulation_starts_at_tick_zero() {
    let sim = Simulation::new(
        Transmitter::new(200, 200, 40, 40),
        Receiver::new(650, 500, 40, 40),
        Vec::new(),
        Vec::new(),
    )
    .unwrap();
    assert_eq!(sim.timer(), 0);
    assert!(sim.transmission_due());
    assert_eq!(sim.snapshot(), TickReport { bound: 0, live: 0, timer: 0 });
    assert_eq!(sim.transmitter().rect(), Rect { x: 200, y: 200, w: 40, h: 40 });
    assert_eq!(sim.receiver().free_receptors(), 20);
    assert_eq!(RETRANSMISSION_PERIOD, 3000);
}

#[test]
fn new_simulation_needs_the_pool_to_account_for_bound_molecules() {
    let transmitter = Transmitter::new(200, 200, 40, 40);
    let mut held = InformationMolecule::new(660, 510, 5, 5, heading(0, 0));
    held.stop();
    assert!(Simulation::new(transmitter, Receiver::new(650, 500, 40, 40), vec![held], Vec::new())
        .is_none());
    let mut receiver = Receiver::new(650, 500, 40, 40);
    assert!(receiver.receive());
    assert!(Simulation::new(transmitter, receiver, Vec::new(), Vec::new()).is_none());
    let sim = Simulation::new(transmitter, receiver, vec![held], Vec::new()).unwrap();
    assert_eq!(sim.snapshot(), TickReport { bound: 1, live: 1, timer: 0 });
}

#[test]
fn first_tick_transmits_a_batch() {
    let mut sim = Simulation::new(
        Transmitter::new(200, 200, 40, 40),
        Receiver::new(650, 500, 40, 40),
        Vec::new(),
        Vec::new(),
    )
    .unwrap();
    let batch: Vec<Heading> = (0..800).map(|i| heading(i % 13, 1)).collect();
    let turns: Vec<Heading> = (0..800).map(|i| heading(-1, i % 7)).collect();
    let report = sim.step(&batch, &Vec::new(), &turns).unwrap();
    assert_eq!(report, TickReport { bound: 0, live: 800, timer: 1 });
    assert!(!sim.transmission_due());
    for (i, m) in sim.information_molecules().iter().enumerate() {
        let i = i as i32;
        assert_eq!(
            *m,
            InformationMolecule {
                rect: Rect { x: 199, y: 200 + i % 7, w: 5, h: 5 },
                heading: heading(-1, i % 7),
                residence_time: 60,
                stopped: false,
                released: false,
                stimulus: 0,
                tumble_timer: -1,
            }
        );
    }
}

#[test]
fn step_without_matching_headings_reports_the_random_source() {
    let field = vec![ChemotacticMolecule::new(0, 0, 5, 5, heading(0, 0)); 3];
    let mut sim = Simulation::new(
        Transmitter::new(200, 200, 40, 40),
        Receiver::new(650, 500, 40, 40),
        vec![InformationMolecule::new(0, 0, 5, 5, heading(1, 0)); 2],
        field.clone(),
    )
    .unwrap();
    let batch = vec![heading(1, 1); 800];
    let field_turns = vec![heading(1, 0); 3];
    let turns = vec![heading(0, 1); 802];
    let cases: Vec<(Vec<Heading>, Vec<Heading>, Vec<Heading>)> = vec![
        (vec![heading(1, 1); 799], field_turns.clone(), turns.clone()),
        (vec![heading(1, 1); 801], field_turns.clone(), turns.clone()),
        (batch.clone(), vec![heading(1, 0); 2], turns.clone()),
        (batch.clone(), vec![heading(1, 0); 4], turns.clone()),
        (batch.clone(), field_turns.clone(), vec![heading(0, 1); 801]),
        (batch.clone(), field_turns.clone(), vec![heading(0, 1); 803]),
        (batch.clone(), field_turns.clone(), vec![heading(0, 1); 2]),
        (batch.clone(), field_turns.clone(), Vec::new()),
    ];
    for (b, f, t) in cases {
        assert_eq!(sim.step(&b, &f, &t), Err(Fault::RandomSource));
        assert_eq!(sim.timer(), 0);
        assert_eq!(sim.information_molecules().len(), 2);
        assert_eq!(*sim.chemotactic_molecules(), field);
    }
    assert_eq!(
        sim.step(&batch, &field_turns, &turns),
        Ok(TickReport { bound: 0, live: 802, timer: 1 })
    );
    assert_eq!(
        sim.step(&batch, &field_turns, &vec![heading(0, 1); 1602]),
        Err(Fault::RandomSource)
    );
    assert_eq!(sim.timer(), 1);
    assert_eq!(
        sim.step(&Vec::new(), &field_turns, &turns),
        Ok(TickReport { bound: 0, live: 802, timer: 2 })
    );
    assert_eq!(
        sim.step(&batch, &field_turns, &turns),
        Ok(TickReport { bound: 0, live: 802, timer: 3 })
    );
}

#[test]
fn step_that_would_overflow_changes_nothing() {
    let mut far = ChemotacticMolecule::new(0, 0, 5, 5, heading(0, 0));
    far.rect.x = i32::MAX;
    let mut sim = Simulation::new(
        Transmitter::new(200, 200, 40, 40),
        Receiver::new(650, 500, 40, 40),
        Vec::new(),
        vec![far],
    )
    .unwrap();
    let batch = vec![away(); 800];
    let turns = vec![away(); 800];
    assert_eq!(sim.step(&batch, &vec![heading(1, 0)], &turns), Err(Fault::Overflow));
    assert_eq!(sim.timer(), 0);
    assert!(sim.information_molecules().is_empty());
    assert_eq!(*sim.chemotactic_molecules(), vec![far]);
    assert_eq!(
        sim.step(&batch, &vec![heading(-1, 0)], &turns),
        Ok(TickReport { bound: 0, live: 0, timer: 1 })
    );
    assert_eq!(sim.chemotactic_molecules()[0].rect.x, i32::MAX - 1);

    let mut stuck = InformationMolecule::new(0, 0, 5, 5, heading(0, 0));
    stuck.tumble_timer = i32::MIN;
    let mut sim = Simulation::new(
        Transmitter::new(200, 200, 40, 40),
        Receiver::new(650, 500, 40, 40),
        vec![stuck],
        Vec::new(),
    )
    .unwrap();
    let turns = vec![away(); 801];
    assert_eq!(sim.step(&batch, &Vec::new(), &turns), Err(Fault::Overflow));
    assert_eq!(*sim.information_molecules(), vec![stuck]);
    assert_eq!(sim.step(&batch, &Vec::new(), &vec![away(); 800]), Err(Fault::RandomSource));
}

#[test]
fn molecule_on_the_anchor_binds_on_its_first_tick_and_is_held_for_sixty() {
    let on_anchor = InformationMolecule::new(650, 500, 5, 5, heading(0, 0));
    let mut sim = Simulation::new(
        Transmitter::new(200, 200, 40, 40),
        Receiver::new(650, 500, 40, 40),
        vec![on_anchor],
        Vec::new(),
    )
    .unwrap();
    let batch = vec![away(); 800];
    let mut turns = vec![heading(0, 0)];
    turns.extend(vec![away(); 800]);
    let report = sim.step(&batch, &Vec::new(), &turns).unwrap();
    assert_eq!(report, TickReport { bound: 1, live: 1, timer: 1 });
    let m = sim.information_molecules()[0];
    assert!(m.stopped);
    assert!(!m.released);
    assert_eq!(m.residence_time, 60);
    assert_eq!(m.rect, Rect { x: 650, y: 500, w: 5, h: 5 });
    assert_eq!(sim.receiver().free_receptors(), 19);

    for tick in 2..=60u128 {
        let report = sim.step(&Vec::new(), &Vec::new(), &vec![heading(7, 7)]).unwrap();
        assert_eq!(report, TickReport { bound: 1, live: 1, timer: tick });
        let m = sim.information_molecules()[0];
        assert_eq!(m.rect, Rect { x: 650, y: 500, w: 5, h: 5 });
        assert_eq!(m.residence_time as u128, 61 - tick);
        assert!(m.stopped && !m.released);
    }
    let report = sim.step(&Vec::new(), &Vec::new(), &vec![heading(7, 7)]).unwrap();
    assert_eq!(report, TickReport { bound: 0, live: 0, timer: 61 });
    assert_eq!(sim.receiver().free_receptors(), 20);
    assert!(sim.information_molecules().is_empty());
}

#[test]
fn molecule_that_leaves_the_arena_is_dropped_without_touching_the_pool() {
    let leaving = InformationMolecule::new(1995, 0, 5, 5, heading(10, 0));
    let staying = InformationMolecule::new(0, 0, 5, 5, heading(1, 0));
    let mut receiver = Receiver::new(650, 500, 40, 40);
    let mut held = InformationMolecule::new(650, 500, 5, 5, heading(0, 0));
    assert!(receiver.try_bind(&mut held));
    let mut sim = Simulation::new(
        Transmitter::new(200, 200, 40, 40),
        receiver,
        vec![leaving, held, staying],
        Vec::new(),
    )
    .unwrap();
    let batch = vec![away(); 800];
    let mut turns = vec![heading(10, 0), heading(0, 0), heading(1, 0)];
    turns.extend(vec![away(); 800]);
    let report = sim.step(&batch, &Vec::new(), &turns).unwrap();
    assert_eq!(report, TickReport { bound: 1, live: 2, timer: 1 });
    assert_eq!(sim.receiver().free_receptors(), 19);
    assert_eq!(sim.information_molecules()[0].rect.x, 650);
    assert_eq!(sim.information_molecules()[1].rect.x, 1);
}

#[test]
fn batch_is_due_again_after_three_thousand_ticks() {
    let mut sim = Simulation::new(
        Transmitter::new(200, 200, 40, 40),
        Receiver::new(650, 500, 40, 40),
        Vec::new(),
        Vec::new(),
    )
    .unwrap();
    let batch = vec![away(); 800];
    let turns = vec![away(); 800];
    assert_eq!(sim.step(&batch, &Vec::new(), &turns), Ok(TickReport { bound: 0, live: 0, timer: 1 }));
    for tick in 2..=3000u128 {
        assert!(!sim.transmission_due());
        assert_eq!(
            sim.step(&batch, &Vec::new(), &Vec::new()),
            Ok(TickReport { bound: 0, live: 0, timer: tick })
        );
    }
    assert!(sim.transmission_due());
    assert_eq!(sim.step(&batch, &Vec::new(), &Vec::new()), Err(Fault::RandomSource));
    let calm = vec![heading(1, 1); 800];
    assert_eq!(sim.step(&calm, &Vec::new(), &calm), Ok(TickReport { bound: 0, live: 800, timer: 3001 }));
    assert!(!sim.transmission_due());
}

#[test]
fn population_driven_to_the_receiver_never_exceeds_the_pool() {
    let mut sim = Simulation::new(
        Transmitter::new(200, 200, 40, 40),
        Receiver::new(650, 500, 40, 40),
        Vec::new(),
        Vec::new(),
    )
    .unwrap();
    let start = Rect { x: 200, y: 200, w: 5, h: 5 };
    let batch = vec![toward(start, 660, 510, 12); 800];
    let turns = vec![toward(start, 660, 510, 12); 800];
    let mut report = sim.step(&batch, &Vec::new(), &turns).unwrap();
    check_pool(&sim, report);
    assert_eq!(report.live, 800);
    let mut most_bound = 0;
    let mut ticks_at_capacity = 0;
    while report.live > 0 {
        assert!(sim.timer() < 3000);
        let turns: Vec<Heading> =
            sim.information_molecules().iter().map(|m| toward(m.rect, 660, 510, 12)).collect();
        report = sim.step(&Vec::new(), &Vec::new(), &turns).unwrap();
        check_pool(&sim, report);
        most_bound = most_bound.max(report.bound);
        if report.bound == 20 {
            ticks_at_capacity += 1;
        }
    }
    assert_eq!(most_bound, 20);
    assert!(ticks_at_capacity >= 40 * 59);
    assert_eq!(sim.receiver().free_receptors(), 20);
    assert_eq!(report.bound, 0);
}

#[test]
fn pool_accounts_for_bound_molecules_on_a_random_walk() {
    let receiver = Receiver::new(0, 0, 40, 40);
    let mut draws = Draws { state: 99 };
    let field_headings: Vec<Heading> = (0..1000).map(|_| draws.next(10)).collect();
    let field = receiver.transmit(&field_headings);
    let mut sim =
        Simulation::new(Transmitter::new(60, 60, 40, 40), receiver, Vec::new(), field).unwrap();
    let mut seen_bound = false;
    for _ in 0..400 {
        let batch: Vec<Heading> = if sim.transmission_due() {
            (0..800).map(|_| draws.next(12)).collect()
        } else {
            Vec::new()
        };
        let field_turns: Vec<Heading> = (0..1000).map(|_| draws.next(10)).collect();
        let count = sim.information_molecules().len() + batch.len();
        let turns: Vec<Heading> = (0..count).map(|_| draws.next(12)).collect();
        let before_live = count;
        let report = sim.step(&batch, &field_turns, &turns).unwrap();
        check_pool(&sim, report);
        assert!(report.live <= before_live);
        assert_eq!(sim.chemotactic_molecules().len(), 1000);
        seen_bound = seen_bound || report.bound > 0;
    }
    assert!(seen_bound);
    assert_eq!(sim.timer(), 400);
}

#[test]
fn with_no_ligand_in_range_the_timer_only_counts_down() {
    let far_field = vec![ChemotacticMolecule::new(-1900, -1900, 5, 5, heading(0, 0)); 5];
    let walker = InformationMolecule::new(0, 0, 5, 5, Heading { dx: 1, dy: 0, bearing: 0 });
    let mut sim = Simulation::new(
        Transmitter::new(200, 200, 40, 40),
        Receiver::new(1500, 1500, 40, 40),
        vec![walker],
        far_field,
    )
    .unwrap();
    let batch = vec![away(); 800];
    let still = vec![heading(0, 0); 5];
    for tick in 1..=100u32 {
        let mut turns = vec![Heading { dx: 1, dy: 0, bearing: tick }];
        if tick == 1 {
            turns.extend(vec![away(); 800]);
        }
        let report = sim.step(&batch, &still, &turns).unwrap();
        assert_eq!(report.live, 1);
        let m = sim.information_molecules()[0];
        assert_eq!(m.stimulus, 0);
        assert_eq!(m.tumble_timer, -(tick as i32));
        assert_eq!(m.heading.bearing, tick);
        assert_eq!(m.rect.x, tick as i32);
    }
}

#[test]
fn with_ligand_in_range_the_heading_is_kept_for_a_run_phase() {
    let field = vec![ChemotacticMolecule::new(0, 0, 5, 5, heading(0, 0)); 4];
    let walker = InformationMolecule::new(0, 0, 5, 5, Heading { dx: 1, dy: 0, bearing: 0 });
    let mut sim = Simulation::new(
        Transmitter::new(200, 200, 40, 40),
        Receiver::new(1500, 1500, 40, 40),
        vec![walker],
        field,
    )
    .unwrap();
    let batch = vec![away(); 800];
    let still = vec![heading(0, 0); 4];
    let mut changes = Vec::new();
    let mut last = 0;
    for tick in 1..=45u32 {
        let mut turns = vec![Heading { dx: 1, dy: 0, bearing: tick }];
        if tick == 1 {
            turns.extend(vec![away(); 800]);
        }
        sim.step(&batch, &still, &turns).unwrap();
        let m = sim.information_molecules()[0];
        if m.heading.bearing != last {
            changes.push(tick);
            last = m.heading.bearing;
        }
    }
    let m = sim.information_molecules()[0];
    assert_eq!(m.rect.x, 45);
    assert_eq!(changes, (16..=45).collect::<Vec<u32>>());
}
