use timing_diagram::diagram::{Signal, SignalBuilder, State, TimingDiagram, Value};

fn signal_of(states: Vec<State>) -> Signal {
    SignalBuilder::new("x").with_states(states).build()
}

fn times(signal: &Signal) -> Vec<u64> {
    signal.states().iter().map(|state| state.timestamp).collect()
}

#[test]
fn state_new_keeps_value_and_timestamp() {
    let state = State::new(Value::VZ, 42);
    assert_eq!(state.value, Value::VZ);
    assert_eq!(state.timestamp, 42);
    assert_eq!(state, State { value: Value::VZ, timestamp: 42 });
}

#[test]
fn value_names() {
    assert_eq!(Value::V0.name(), "V0");
    assert_eq!(Value::V1.name(), "V1");
    assert_eq!(Value::VX.name(), "VX");
    assert_eq!(Value::VZ.name(), "VZ");
}

#[test]
fn builder_keeps_the_name() {
    let signal = SignalBuilder::new("clock").build();
    assert_eq!(signal.name(), "clock");
}

#[test]
fn build_of_no_states_is_an_empty_signal() {
    let signal = SignalBuilder::new("x").build();
    assert!(signal.states().is_empty());
}

#[test]
fn build_sorts_states_by_timestamp() {
    let signal = signal_of(vec![
        State::new(Value::V1, 50),
        State::new(Value::V0, 0),
        State::new(Value::V0, 15),
        State::new(Value::V1, 3),
    ]);
    assert_eq!(times(&signal), vec![0, 3, 15, 50]);
    assert_eq!(
        signal.states().to_vec(),
        vec![
            State::new(Value::V0, 0),
            State::new(Value::V1, 3),
            State::new(Value::V0, 15),
            State::new(Value::V1, 50),
        ]
    );
}

#[test]
fn build_sorts_states_given_in_descending_order() {
    let signal = signal_of(vec![
        State::new(Value::V0, 9),
        State::new(Value::V1, 7),
        State::new(Value::V0, 5),
        State::new(Value::V1, 3),
        State::new(Value::V0, 1),
    ]);
    assert_eq!(times(&signal), vec![1, 3, 5, 7, 9]);
}

#[test]
fn build_keeps_states_of_one_timestamp_in_the_order_added() {
    let signal = signal_of(vec![
        State::new(Value::V1, 5),
        State::new(Value::VX, 2),
        State::new(Value::V0, 5),
        State::new(Value::VZ, 5),
        State::new(Value::V1, 2),
    ]);
    assert_eq!(
        signal.states().to_vec(),
        vec![
            State::new(Value::VX, 2),
            State::new(Value::V1, 2),
            State::new(Value::V1, 5),
            State::new(Value::V0, 5),
            State::new(Value::VZ, 5),
        ]
    );
}

#[test]
fn build_keeps_every_state() {
    let given = vec![
        State::new(Value::V1, 8),
        State::new(Value::V1, 8),
        State::new(Value::V0, 1),
        State::new(Value::V1, 8),
        State::new(Value::V0, u64::MAX),
    ];
    let signal = signal_of(given.clone());
    assert_eq!(signal.states().len(), given.len());
    for state in &given {
        let before = given.iter().filter(|other| *other == state).count();
        let after = signal.states().iter().filter(|other| *other == state).count();
        assert_eq!(before, after);
    }
    assert_eq!(times(&signal), vec![1, 8, 8, 8, u64::MAX]);
}

#[test]
fn add_state_and_with_states_add_behind_each_other() {
    let mut builder = SignalBuilder::new("x");
    builder.add_state(State::new(Value::V0, 4));
    builder.add_state(State::new(Value::V1, 4));
    let signal = builder
        .with_states(vec![State::new(Value::VX, 4), State::new(Value::V0, 0)])
        .build();
    assert_eq!(
        signal.states().to_vec(),
        vec![
            State::new(Value::V0, 0),
            State::new(Value::V0, 4),
            State::new(Value::V1, 4),
            State::new(Value::VX, 4),
        ]
    );
}

#[test]
fn sample_before_the_first_state_gives_the_first_value() {
    let signal = signal_of(vec![State::new(Value::V1, 10), State::new(Value::V0, 20)]);
    assert_eq!(*signal.sample(0), Value::V1);
    assert_eq!(*signal.sample(9), Value::V1);
}

#[test]
fn sample_from_the_last_state_on_gives_the_last_value() {
    let signal = signal_of(vec![State::new(Value::V1, 10), State::new(Value::V0, 20)]);
    assert_eq!(*signal.sample(20), Value::V0);
    assert_eq!(*signal.sample(21), Value::V0);
    assert_eq!(*signal.sample(u64::MAX), Value::V0);
}

#[test]
fn sample_at_a_recorded_timestamp_gives_that_value() {
    let signal = signal_of(vec![
        State::new(Value::V0, 0),
        State::new(Value::V1, 3),
        State::new(Value::VX, 15),
        State::new(Value::VZ, 50),
    ]);
    assert_eq!(*signal.sample(0), Value::V0);
    assert_eq!(*signal.sample(3), Value::V1);
    assert_eq!(*signal.sample(15), Value::VX);
    assert_eq!(*signal.sample(50), Value::VZ);
}

#[test]
fn sample_between_states_gives_the_value_in_force() {
    let signal = signal_of(vec![
        State::new(Value::V0, 0),
        State::new(Value::V1, 3),
        State::new(Value::V0, 15),
    ]);
    assert_eq!(*signal.sample(1), Value::V0);
    assert_eq!(*signal.sample(2), Value::V0);
    assert_eq!(*signal.sample(4), Value::V1);
    assert_eq!(*signal.sample(14), Value::V1);
}

#[test]
fn sample_takes_the_last_of_the_states_of_one_timestamp() {
    let signal = signal_of(vec![
        State::new(Value::V0, 5),
        State::new(Value::V1, 5),
        State::new(Value::VZ, 9),
    ]);
    assert_eq!(*signal.sample(5), Value::V1);
    assert_eq!(*signal.sample(6), Value::V1);
    assert_eq!(*signal.sample(4), Value::V0);
}

#[test]
fn sample_of_a_single_state() {
    let signal = signal_of(vec![State::new(Value::V1, 7)]);
    assert_eq!(*signal.sample(0), Value::V1);
    assert_eq!(*signal.sample(7), Value::V1);
    assert_eq!(*signal.sample(8), Value::V1);
}

#[test]
fn a_new_diagram_has_no_signals() {
    assert!(TimingDiagram::new().signals().is_empty());
}

#[test]
fn diagram_keeps_signals_in_the_order_added() {
    let mut diagram = TimingDiagram::new();
    diagram.add_signal(SignalBuilder::new("b").build());
    diagram.add_signal(SignalBuilder::new("a").build());
    diagram.add_signal(SignalBuilder::new("c").build());
    let names: Vec<&str> = diagram.signals().iter().map(|signal| signal.name()).collect();
    assert_eq!(names, vec!["b", "a", "c"]);
}

#[test]
fn diagram_does_not_merge_signals_of_one_name() {
    let mut diagram = TimingDiagram::new();
    diagram.add_signal(signal_of(vec![State::new(Value::V0, 0)]));
    diagram.add_signal(signal_of(vec![State::new(Value::V1, 1)]));
    assert_eq!(diagram.signals().len(), 2);
    assert_eq!(diagram.signals()[0].name(), "x");
    assert_eq!(diagram.signals()[1].name(), "x");
    assert_eq!(diagram.signals()[0].states().to_vec(), vec![State::new(Value::V0, 0)]);
    assert_eq!(diagram.signals()[1].states().to_vec(), vec![State::new(Value::V1, 1)]);
}
