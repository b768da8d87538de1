use kinetics::config::Config;
use kinetics::domain::Shape;
use kinetics::epidemic::epidemic_epoch;
use kinetics::epidemic::exposures;
use kinetics::health::State;
use kinetics::particle::Dot;
use kinetics::store::ParticleStore;
use kinetics::vec2::V;
use rand::rngs::StdRng;
use rand::SeedableRng;

const SECOND: u64 = 1_000_000_000;

fn config(numerator: u32, denominator: u32) -> Config {
    Config {
        particle_count: 1,
        interaction_radius: 20_000,
        domain_shape: Shape::Disk,
        domain_size: 5_000_000,
        step_cadence: 300_000_000,
        incubation_duration: 5 * SECOND,
        infectious_duration: 10 * SECOND,
        fatality_numerator: numerator,
        fatality_denominator: denominator,
        monte_carlo_step_scale: 100_000,
        global_potential_strength: 3,
    }
}

fn store_of(places: &[(V, State)]) -> ParticleStore {
    let mut store = ParticleStore::new();
    for (place, state) in places {
        let mut dot = Dot::new(*place, 0, 20_000);
        dot.state = *state;
        store.push(dot);
    }
    store
}

fn states(store: &ParticleStore) -> Vec<State> {
    (0..store.len()).map(|i| store.get(i).state).collect()
}

#[test]
fn the_susceptible_near_the_contagious_are_exposed() {
    let store = store_of(&[
        (V(0, 0), State::Susceptible),
        (V(59_999, 0), State::Infected(9)),
        (V(119_999, 0), State::Susceptible),
        (V(119_999, 60_000), State::Susceptible),
        (V(0, -59_999), State::Recovered),
        (V(-36_000, -47_000), State::Susceptible),
        (V(-36_000, -107_000), State::Asymptomatic(9)),
        (V(1, 1), State::Dead),
    ]);
    assert_eq!(
        exposures(&store, 0, 60_000),
        vec![true, false, false, false, false, false, false, false]
    );
    assert_eq!(
        exposures(&store, 0, 60_001),
        vec![true, false, true, false, false, true, false, false]
    );
    assert_eq!(exposures(&store, 0, 59_999), vec![false; 8]);
}

#[test]
fn exposure_goes_by_the_drawn_positions() {
    let mut store = store_of(&[(V(0, 0), State::Susceptible), (V(50_000, 0), State::Infected(9))]);
    store.commit_move(1, V(1_050_000, 0), 1_000, 0);
    assert_eq!(exposures(&store, 0, 60_000), vec![true, false]);
    assert_eq!(exposures(&store, 10, 60_000), vec![false, false]);
    assert_eq!(exposures(&store, 9, 60_000), vec![true, false]);
}

#[test]
fn an_epoch_infects_by_the_health_at_its_start() {
    let mut store = store_of(&[
        (V(0, 0), State::Infected(100 * SECOND)),
        (V(50_000, 0), State::Susceptible),
        (V(100_000, 0), State::Susceptible),
        (V(150_000, 0), State::Susceptible),
    ]);
    let mut rng = StdRng::seed_from_u64(1);
    epidemic_epoch(&mut store, &config(1, 2), 7 * SECOND, &mut rng);
    assert_eq!(
        states(&store),
        vec![
            State::Infected(100 * SECOND),
            State::Asymptomatic(12 * SECOND),
            State::Susceptible,
            State::Susceptible,
        ]
    );
    epidemic_epoch(&mut store, &config(1, 2), 8 * SECOND, &mut rng);
    assert_eq!(
        states(&store),
        vec![
            State::Infected(100 * SECOND),
            State::Asymptomatic(12 * SECOND),
            State::Asymptomatic(13 * SECOND),
            State::Susceptible,
        ]
    );
}

#[test]
fn an_epoch_changes_nothing_but_the_health() {
    let mut store = store_of(&[(V(0, 0), State::Infected(3)), (V(50_000, 0), State::Susceptible)]);
    let mut expected = [store.get(0), store.get(1)];
    let mut rng = StdRng::seed_from_u64(1);
    epidemic_epoch(&mut store, &config(0, 1), 2, &mut rng);
    expected[1].state = State::Asymptomatic(2 + 5 * SECOND);
    assert_eq!(store.get(0), expected[0]);
    assert_eq!(store.get(1), expected[1]);
    assert_eq!(store.len(), 2);
}

#[test]
fn incubation_ends_in_illness_at_its_deadline() {
    let now = 50 * SECOND;
    let mut store = store_of(&[(V(0, 0), State::Asymptomatic(now + 5 * SECOND))]);
    let mut rng = StdRng::seed_from_u64(1);
    epidemic_epoch(&mut store, &config(1, 2), now, &mut rng);
    assert_eq!(states(&store), vec![State::Asymptomatic(now + 5 * SECOND)]);
    epidemic_epoch(&mut store, &config(1, 2), now + 5 * SECOND, &mut rng);
    assert_eq!(states(&store), vec![State::Infected(now + 15 * SECOND)]);
}

#[test]
fn a_certain_death_is_certain() {
    let mut rng = StdRng::seed_from_u64(99);
    for round in 0..50 {
        let mut store = store_of(&[
            (V(0, 0), State::Infected(10)),
            (V(500_000, 0), State::Infected(11)),
            (V(900_000, 0), State::Infected(10 + round)),
        ]);
        epidemic_epoch(&mut store, &config(7, 7), 10, &mut rng);
        let last = if round == 0 { State::Dead } else { State::Infected(10 + round) };
        assert_eq!(states(&store), vec![State::Dead, State::Infected(11), last]);
    }
}

#[test]
fn a_certain_recovery_is_certain() {
    let mut rng = StdRng::seed_from_u64(99);
    for _ in 0..50 {
        let mut store = store_of(&[
            (V(0, 0), State::Infected(10)),
            (V(500_000, 0), State::Infected(11)),
        ]);
        epidemic_epoch(&mut store, &config(0, 7), 10, &mut rng);
        assert_eq!(states(&store), vec![State::Recovered, State::Infected(11)]);
    }
}

#[test]
fn an_open_outcome_is_death_or_recovery() {
    let mut rng = StdRng::seed_from_u64(5);
    let mut dead = 0;
    let mut recovered = 0;
    for _ in 0..200 {
        let mut store = store_of(&[(V(0, 0), State::Infected(10))]);
        epidemic_epoch(&mut store, &config(1, 2), 10, &mut rng);
        match store.get(0).state {
            State::Dead => dead += 1,
            State::Recovered => recovered += 1,
            other => panic!("the illness has not ended: {:?}", other),
        }
    }
    assert_eq!(dead + recovered, 200);
    assert!(dead > 0);
    assert!(recovered > 0);
}

#[test]
fn the_same_seed_gives_the_same_outcomes() {
    let mut first = Vec::new();
    let mut second = Vec::new();
    for outcomes in [&mut first, &mut second] {
        let mut rng = StdRng::seed_from_u64(31);
        for _ in 0..64 {
            let mut store = store_of(&[(V(0, 0), State::Infected(10))]);
            epidemic_epoch(&mut store, &config(1, 2), 10, &mut rng);
            outcomes.push(store.get(0).state);
        }
    }
    assert_eq!(first, second);
}

#[test]
fn the_dead_and_the_recovered_stay_as_they_are() {
    let mut store = store_of(&[
        (V(0, 0), State::Dead),
        (V(10, 0), State::Recovered),
        (V(20, 0), State::Infected(1_000)),
        (V(30, 0), State::Asymptomatic(1_000)),
    ]);
    let mut rng = StdRng::seed_from_u64(5);
    epidemic_epoch(&mut store, &config(1, 2), 999, &mut rng);
    assert_eq!(
        states(&store),
        vec![State::Dead, State::Recovered, State::Infected(1_000), State::Asymptomatic(1_000)]
    );
}

#[test]
fn an_illness_without_duration_ends_in_the_epoch_it_starts() {
    let mut short = config(1, 1);
    short.infectious_duration = 0;
    let mut store = store_of(&[(V(0, 0), State::Asymptomatic(10))]);
    let mut rng = StdRng::seed_from_u64(5);
    epidemic_epoch(&mut store, &short, 10, &mut rng);
    assert_eq!(states(&store), vec![State::Dead]);
}
