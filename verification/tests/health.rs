use kinetics::health::State;

const SECOND: u64 = 1_000_000_000;

#[test]
fn colours_of_the_five_states() {
    assert_eq!(State::Susceptible.color(), [255, 255, 255]);
    assert_eq!(State::Asymptomatic(3).color(), [255, 255, 255]);
    assert_eq!(State::Infected(3).color(), [255, 0, 0]);
    assert_eq!(State::Recovered.color(), [0, 255, 0]);
    assert_eq!(State::Dead.color(), [255, 0, 255]);
}

#[test]
fn only_the_ill_are_contagious() {
    assert!(!State::Susceptible.is_contagious());
    assert!(State::Asymptomatic(0).is_contagious());
    assert!(State::Infected(0).is_contagious());
    assert!(!State::Recovered.is_contagious());
    assert!(!State::Dead.is_contagious());
}

#[test]
fn contact_infects_the_susceptible_only() {
    let now = 7 * SECOND;
    let inc = 5 * SECOND;
    assert_eq!(
        State::Susceptible.contact(State::Infected(1), now, inc),
        State::Asymptomatic(12 * SECOND)
    );
    assert_eq!(
        State::Susceptible.contact(State::Asymptomatic(99 * SECOND), now, inc),
        State::Asymptomatic(12 * SECOND)
    );
    assert_eq!(State::Susceptible.contact(State::Susceptible, now, inc), State::Susceptible);
    assert_eq!(State::Susceptible.contact(State::Recovered, now, inc), State::Susceptible);
    assert_eq!(State::Susceptible.contact(State::Dead, now, inc), State::Susceptible);
    assert_eq!(
        State::Asymptomatic(8 * SECOND).contact(State::Infected(1), now, inc),
        State::Asymptomatic(8 * SECOND)
    );
    assert_eq!(State::Infected(9).contact(State::Infected(1), now, inc), State::Infected(9));
    assert_eq!(State::Recovered.contact(State::Infected(1), now, inc), State::Recovered);
    assert_eq!(State::Dead.contact(State::Infected(1), now, inc), State::Dead);
}

#[test]
fn contact_is_idempotent() {
    let once = State::Susceptible.contact(State::Infected(1), 10, 5);
    let twice = once.contact(State::Infected(1), 10, 5);
    assert_eq!(once, twice);
}

#[test]
fn timer_turns_incubation_into_illness() {
    let now = 100 * SECOND;
    let state = State::Asymptomatic(now + 5 * SECOND);
    assert_eq!(state.tick(now, 10 * SECOND), state);
    assert_eq!(state.tick(now + 5 * SECOND - 1, 10 * SECOND), state);
    assert_eq!(state.tick(now + 5 * SECOND, 10 * SECOND), State::Infected(now + 15 * SECOND));
    assert_eq!(state.tick(now + 6 * SECOND, 10 * SECOND), State::Infected(now + 16 * SECOND));
}

#[test]
fn timer_leaves_the_other_states() {
    assert_eq!(State::Susceptible.tick(50, 10), State::Susceptible);
    assert_eq!(State::Infected(3).tick(50, 10), State::Infected(3));
    assert_eq!(State::Recovered.tick(50, 10), State::Recovered);
    assert_eq!(State::Dead.tick(50, 10), State::Dead);
}

#[test]
fn outcome_is_due_from_the_deadline_on() {
    assert!(!State::Infected(10).is_outcome_due(9));
    assert!(State::Infected(10).is_outcome_due(10));
    assert!(State::Infected(10).is_outcome_due(11));
    assert!(!State::Asymptomatic(10).is_outcome_due(11));
    assert!(!State::Susceptible.is_outcome_due(11));
    assert!(!State::Recovered.is_outcome_due(11));
    assert!(!State::Dead.is_outcome_due(11));
}

#[test]
fn outcome_follows_the_lot() {
    assert_eq!(State::Infected(10).resolve(10, true), State::Dead);
    assert_eq!(State::Infected(10).resolve(10, false), State::Recovered);
    assert_eq!(State::Infected(10).resolve(9, true), State::Infected(10));
    assert_eq!(State::Infected(10).resolve(9, false), State::Infected(10));
    assert_eq!(State::Susceptible.resolve(10, true), State::Susceptible);
    assert_eq!(State::Asymptomatic(1).resolve(10, true), State::Asymptomatic(1));
    assert_eq!(State::Recovered.resolve(10, true), State::Recovered);
    assert_eq!(State::Dead.resolve(10, false), State::Dead);
}

fn rank(state: State) -> u8 {
    match state {
        State::Susceptible => 0,
        State::Asymptomatic(_) => 1,
        State::Infected(_) => 2,
        State::Recovered => 3,
        State::Dead => 3,
    }
}

#[test]
fn no_history_goes_backward() {
    let starts = [
        State::Susceptible,
        State::Asymptomatic(20),
        State::Infected(30),
        State::Recovered,
        State::Dead,
    ];
    let others = [State::Susceptible, State::Asymptomatic(5), State::Infected(5), State::Dead];
    for start in starts {
        let mut state = start;
        let mut now: u64 = 0;
        let mut step: usize = 0;
        while now < 80 {
            let before = state;
            state = match step % 3 {
                0 => state.contact(others[step % 4], now, 5),
                1 => state.tick(now, 10),
                _ => state.resolve(now, step % 2 == 0),
            };
            assert!(state == before || rank(state) > rank(before));
            now += 3;
            step += 1;
        }
        assert!(state == start || rank(state) > rank(start));
        if start == State::Recovered || start == State::Dead {
            assert_eq!(state, start);
        }
    }
}
