use kinetics::domain::Domain;
use kinetics::domain::Shape;
use kinetics::health::State;
use kinetics::particle::Dot;
use kinetics::relax::accepts;
use kinetics::relax::pair_terms;
use kinetics::relax::potential_between;
use kinetics::relax::Delta;
use kinetics::relax::PairTerm;
use kinetics::relax::Potential;
use kinetics::relax::Relaxer;
use kinetics::relax::Reply;
use kinetics::relax::Request;
use kinetics::relax::MOVE_TIME;
use kinetics::store::ParticleStore;
use kinetics::vec2::V;

fn disk(size: i64) -> Domain {
    Domain { shape: Shape::Disk, size }
}

fn store_of(places: &[(V, State)]) -> ParticleStore {
    let mut store = ParticleStore::new();
    for (place, state) in places {
        let mut dot = Dot::new(*place, 0, 20_000);
        dot.state = *state;
        store.push(dot);
    }
    store
}

#[test]
fn a_disk_has_no_border() {
    let d = disk(5);
    assert!(d.contains(V(0, 0)));
    assert!(d.contains(V(3, 3)));
    assert!(d.contains(V(4, 2)));
    assert!(d.contains(V(-4, 2)));
    assert!(!d.contains(V(3, 4)));
    assert!(!d.contains(V(5, 0)));
    assert!(!d.contains(V(0, -5)));
    assert!(!d.contains(V(i64::MAX, i64::MIN)));
}

#[test]
fn a_square_has_no_border() {
    let d = Domain { shape: Shape::Square, size: 5 };
    assert!(d.contains(V(0, 0)));
    assert!(d.contains(V(4, -4)));
    assert!(d.contains(V(-4, 4)));
    assert!(!d.contains(V(5, 0)));
    assert!(!d.contains(V(0, -5)));
    assert!(!d.contains(V(-5, 5)));
    assert!(!d.contains(V(i64::MIN, 0)));
}

#[test]
fn a_step_is_admitted_if_it_ends_inside() {
    let d = disk(5);
    assert_eq!(d.admits(V(1, 1), V(2, 2)), Some(V(3, 3)));
    assert_eq!(d.admits(V(-4, 0), V(8, 0)), Some(V(4, 0)));
    assert_eq!(d.admits(V(1, 1), V(2, 3)), None);
    assert_eq!(d.admits(V(4, 4), V(-4, -4)), Some(V(0, 0)));
    assert_eq!(d.admits(V(0, 0), V(i64::MAX, i64::MAX)), None);
    assert_eq!(d.admits(V(-1, -1), V(i64::MIN, i64::MIN)), None);
    assert_eq!(d.admits(V(1, 1), V(i64::MAX, 0)), None);
}

#[test]
fn the_potential_repels_where_one_of_two_is_infected() {
    let infected = State::Infected(5);
    let others = [State::Susceptible, State::Asymptomatic(5), State::Recovered, State::Dead];
    assert_eq!(potential_between(infected, State::Infected(9)), Potential::Attractive);
    for other in others {
        assert_eq!(potential_between(infected, other), Potential::Repulsive);
        assert_eq!(potential_between(other, infected), Potential::Repulsive);
        for third in others {
            assert_eq!(potential_between(other, third), Potential::Attractive);
        }
    }
}

#[test]
fn a_move_that_keeps_the_energy_is_accepted() {
    assert!(accepts(Delta::Zero, false));
    assert!(accepts(Delta::Zero, true));
}

#[test]
fn a_move_that_lowers_the_energy_is_accepted() {
    assert!(accepts(Delta::Positive, false));
    assert!(accepts(Delta::Positive, true));
}

#[test]
fn a_move_that_raises_the_energy_goes_by_the_lot() {
    assert!(accepts(Delta::Negative, true));
    assert!(!accepts(Delta::Negative, false));
}

#[test]
fn pair_terms_list_the_others_in_order() {
    let store = store_of(&[
        (V(0, 0), State::Susceptible),
        (V(3, 4), State::Infected(9)),
        (V(0, 0), State::Susceptible),
        (V(10, 0), State::Dead),
        (V(6, 8), State::Recovered),
    ]);
    let terms = pair_terms(&store, 0, V(6, 8));
    assert_eq!(
        terms,
        vec![
            PairTerm { kind: Potential::Repulsive, before: 25, after: 25 },
            PairTerm { kind: Potential::Attractive, before: 100, after: 80 },
        ]
    );
    let terms = pair_terms(&store, 1, V(3, 5));
    assert_eq!(
        terms,
        vec![
            PairTerm { kind: Potential::Repulsive, before: 25, after: 34 },
            PairTerm { kind: Potential::Repulsive, before: 25, after: 34 },
            PairTerm { kind: Potential::Repulsive, before: 65, after: 74 },
            PairTerm { kind: Potential::Repulsive, before: 25, after: 18 },
        ]
    );
}

#[test]
fn a_single_particle_in_no_potential_accepts_every_step_inside() {
    let mut store = store_of(&[(V(0, 0), State::Susceptible)]);
    let domain = disk(5_000_000);
    let steps = [V(100, -200), V(-4_000_000, 0), V(3_999_900, 200), V(1, 1), V(0, 0)];
    let mut now: u64 = 1_000;
    let mut at = V(0, 0);
    for step in steps {
        let mut relaxer = Relaxer::begin(&store);
        assert_eq!(relaxer, Relaxer { cursor: 0, pending: None });
        match relaxer.request(&store) {
            Request::Propose { index, from } => {
                assert_eq!(index, 0);
                assert_eq!(from, at);
            }
            _ => panic!("a proposal is asked for"),
        }
        let drawn = store.get(0).pos(now);
        let request = relaxer.step(&mut store, Reply::Proposal(step), &domain, 0, now);
        assert!(matches!(request, Request::Finished));
        at = at + step;
        let dot = store.get(0);
        assert_eq!(dot.new_pos, at);
        assert_eq!(dot.new_t, now + MOVE_TIME);
        assert_eq!(dot.last_pos, drawn);
        assert_eq!(dot.last_t, now);
        assert_eq!(relaxer, Relaxer { cursor: 1, pending: None });
        now += 50_000_000;
    }
    assert_eq!(MOVE_TIME, 200_000_000);
}

#[test]
fn a_step_that_leaves_the_domain_is_asked_for_again() {
    let mut store = store_of(&[(V(0, 0), State::Susceptible)]);
    let domain = disk(100);
    let mut relaxer = Relaxer::begin(&store);
    for step in [V(100, 0), V(0, -100), V(80, 80), V(i64::MAX, 5)] {
        let request = relaxer.step(&mut store, Reply::Proposal(step), &domain, 0, 10);
        match request {
            Request::Propose { index, from } => {
                assert_eq!(index, 0);
                assert_eq!(from, V(0, 0));
            }
            _ => panic!("the proposal is asked for again"),
        }
        assert_eq!(relaxer, Relaxer { cursor: 0, pending: None });
        assert_eq!(store.get(0), Dot::new(V(0, 0), 0, 20_000));
    }
    let request = relaxer.step(&mut store, Reply::Proposal(V(60, 79)), &domain, 0, 10);
    assert!(matches!(request, Request::Finished));
    assert_eq!(store.get(0).new_pos, V(60, 79));
}

#[test]
fn a_global_potential_calls_for_a_verdict() {
    let mut store = store_of(&[(V(0, 0), State::Susceptible)]);
    let domain = disk(100);
    let mut relaxer = Relaxer::begin(&store);
    let request = relaxer.step(&mut store, Reply::Proposal(V(3, 4)), &domain, 3, 10);
    match request {
        Request::Weigh { index, from, to, terms } => {
            assert_eq!(index, 0);
            assert_eq!(from, V(0, 0));
            assert_eq!(to, V(3, 4));
            assert_eq!(terms, Vec::<PairTerm>::new());
        }
        _ => panic!("the move is to be weighed"),
    }
    assert_eq!(relaxer, Relaxer { cursor: 0, pending: Some(V(3, 4)) });
    assert_eq!(store.get(0).new_pos, V(0, 0));
    let request = relaxer.step(
        &mut store,
        Reply::Verdict { delta: Delta::Negative, draw: false },
        &domain,
        3,
        10,
    );
    assert!(matches!(request, Request::Finished));
    assert_eq!(store.get(0), Dot::new(V(0, 0), 0, 20_000));
}

#[test]
fn a_pass_visits_the_living_in_order() {
    let mut store = store_of(&[
        (V(-50, 0), State::Dead),
        (V(0, 0), State::Susceptible),
        (V(10, 0), State::Dead),
        (V(20, 0), State::Infected(9)),
        (V(30, 0), State::Dead),
    ]);
    let domain = disk(100);
    let mut relaxer = Relaxer::begin(&store);
    assert_eq!(relaxer, Relaxer { cursor: 1, pending: None });

    let request = relaxer.step(&mut store, Reply::Proposal(V(0, 5)), &domain, 0, 10);
    match request {
        Request::Weigh { index, from, to, terms } => {
            assert_eq!((index, from, to), (1, V(0, 0), V(0, 5)));
            assert_eq!(
                terms,
                vec![
                    PairTerm { kind: Potential::Attractive, before: 2500, after: 2525 },
                    PairTerm { kind: Potential::Attractive, before: 100, after: 125 },
                    PairTerm { kind: Potential::Repulsive, before: 400, after: 425 },
                    PairTerm { kind: Potential::Attractive, before: 900, after: 925 },
                ]
            );
        }
        _ => panic!("the move is to be weighed"),
    }

    let ignored = relaxer.step(&mut store, Reply::Proposal(V(1, 1)), &domain, 0, 10);
    assert!(matches!(ignored, Request::Weigh { index: 1, .. }));
    assert_eq!(relaxer, Relaxer { cursor: 1, pending: Some(V(0, 5)) });

    let request = relaxer.step(
        &mut store,
        Reply::Verdict { delta: Delta::Zero, draw: false },
        &domain,
        0,
        10,
    );
    match request {
        Request::Propose { index, from } => assert_eq!((index, from), (3, V(20, 0))),
        _ => panic!("the next living particle has its turn"),
    }
    assert_eq!(store.get(1).new_pos, V(0, 5));
    assert_eq!(store.get(1).last_t, 10);

    let ignored = relaxer.step(
        &mut store,
        Reply::Verdict { delta: Delta::Positive, draw: true },
        &domain,
        0,
        10,
    );
    assert!(matches!(ignored, Request::Propose { index: 3, .. }));

    let request = relaxer.step(&mut store, Reply::Proposal(V(0, -5)), &domain, 0, 20);
    match request {
        Request::Weigh { index, from, to, terms } => {
            assert_eq!((index, from, to), (3, V(20, 0), V(20, -5)));
            assert_eq!(terms[1], PairTerm { kind: Potential::Repulsive, before: 425, after: 500 });
            assert_eq!(terms.len(), 4);
        }
        _ => panic!("the move is to be weighed"),
    }
    let request = relaxer.step(
        &mut store,
        Reply::Verdict { delta: Delta::Negative, draw: false },
        &domain,
        0,
        20,
    );
    assert!(matches!(request, Request::Finished));
    assert_eq!(store.get(3).new_pos, V(20, 0));
    assert_eq!(relaxer, Relaxer { cursor: 5, pending: None });

    let request = relaxer.step(&mut store, Reply::Proposal(V(1, 1)), &domain, 0, 30);
    assert!(matches!(request, Request::Finished));
    assert_eq!(relaxer, Relaxer { cursor: 5, pending: None });
}

#[test]
fn a_pass_over_the_dead_is_over_at_once() {
    let store = store_of(&[(V(0, 0), State::Dead), (V(1, 0), State::Dead)]);
    let relaxer = Relaxer::begin(&store);
    assert_eq!(relaxer, Relaxer { cursor: 2, pending: None });
    assert!(matches!(relaxer.request(&store), Request::Finished));
    let empty = ParticleStore::new();
    assert!(matches!(Relaxer::begin(&empty).request(&empty), Request::Finished));
}

#[test]
fn a_pair_at_distance_zero_adds_no_term() {
    let mut store = store_of(&[(V(0, 0), State::Susceptible), (V(300, 400), State::Infected(9))]);
    assert_eq!(pair_terms(&store, 1, V(0, 0)), Vec::<PairTerm>::new());
    assert_eq!(
        pair_terms(&store, 1, V(0, 1)),
        vec![PairTerm { kind: Potential::Repulsive, before: 250_000, after: 1 }]
    );
    let domain = disk(1_000);
    let mut relaxer = Relaxer { cursor: 1, pending: None };
    let request = relaxer.step(&mut store, Reply::Proposal(V(-300, -400)), &domain, 0, 10);
    assert!(matches!(request, Request::Finished));
    assert_eq!(store.get(1).new_pos, V(0, 0));
    assert_eq!(store.get(0).new_pos, V(0, 0));
    let mut relaxer = Relaxer::begin(&store);
    let request = relaxer.step(&mut store, Reply::Proposal(V(5, 5)), &domain, 0, 20);
    assert!(matches!(request, Request::Propose { index: 1, .. }));
    assert_eq!(store.get(0).new_pos, V(5, 5));
}
