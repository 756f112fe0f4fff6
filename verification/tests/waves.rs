use timing_diagram::diagram::{State, Value};
use timing_diagram::render::planner::WavePlanner;
use timing_diagram::render::wave::ValueError;

fn data_of(planner: WavePlanner) -> String {
    let path = planner.render();
    path.get_attributes()["d"].to_string()
}

fn drawn(transition_time: i32, states: &[(Value, u64)]) -> String {
    let mut planner = WavePlanner::new(transition_time);
    for (value, timestamp) in states {
        planner.add_state(&State::new(*value, *timestamp)).unwrap();
    }
    data_of(planner)
}

#[test]
fn an_empty_signal_renders_no_commands() {
    assert_eq!(data_of(WavePlanner::default()), "");
    assert_eq!(data_of(WavePlanner::new(5)), "");
}

#[test]
fn the_path_of_a_wave_holds_its_data_alone() {
    let path = WavePlanner::default().render();
    assert_eq!(path.get_name(), "path");
    assert_eq!(path.get_attributes().len(), 1);
    assert!(path.get_children().is_empty());
}

#[test]
fn a_single_low_state_renders_as_a_move_to_the_origin() {
    assert_eq!(drawn(1, &[(Value::V0, 0)]), "M0,0");
}

#[test]
fn a_single_high_state_renders_as_a_move_to_the_high_level() {
    assert_eq!(drawn(1, &[(Value::V1, 0)]), "M0,2");
}

#[test]
fn four_states_render_as_the_golden_trace() {
    let mut planner = WavePlanner::default();
    for state in [
        State::new(Value::V0, 0),
        State::new(Value::V1, 3),
        State::new(Value::V0, 15),
        State::new(Value::V1, 50),
    ] {
        assert_eq!(planner.add_state(&state), Ok(()));
    }
    assert_eq!(data_of(planner), "M0,0 l3,0 l1,2 l11,0 l1,-2 l34,0 l1,2");
}

#[test]
fn the_first_state_is_drawn_at_the_origin_whatever_its_timestamp() {
    assert_eq!(drawn(1, &[(Value::V1, 7)]), "M0,2");
    assert_eq!(drawn(1, &[(Value::V1, 7), (Value::V0, 9)]), "M0,2 l9,0 l1,-2");
}

#[test]
fn a_state_of_the_same_level_draws_a_flat_ramp() {
    assert_eq!(drawn(1, &[(Value::V1, 0), (Value::V1, 4)]), "M0,2 l4,0 l1,0");
}

#[test]
fn the_transition_time_is_the_width_of_each_ramp() {
    assert_eq!(
        drawn(3, &[(Value::V0, 0), (Value::V1, 10), (Value::V0, 20)]),
        "M0,0 l10,0 l3,2 l7,0 l3,-2"
    );
    assert_eq!(drawn(0, &[(Value::V0, 0), (Value::V1, 10), (Value::V0, 20)]), "M0,0 l10,0 l0,2 l10,0 l0,-2");
}

#[test]
fn a_state_that_begins_within_the_last_ramp_draws_a_run_backwards() {
    assert_eq!(
        drawn(1, &[(Value::V0, 0), (Value::V1, 0), (Value::V0, 0)]),
        "M0,0 l0,0 l1,2 l-1,0 l1,-2"
    );
}

#[test]
fn a_level_without_a_height_is_reported_and_draws_nothing() {
    let mut planner = WavePlanner::default();
    assert_eq!(planner.add_state(&State::new(Value::V0, 0)), Ok(()));
    assert_eq!(
        planner.add_state(&State::new(Value::VX, 3)),
        Err(ValueError::Unsupported(Value::VX))
    );
    assert_eq!(
        planner.add_state(&State::new(Value::VZ, 4)),
        Err(ValueError::Unsupported(Value::VZ))
    );
    assert_eq!(planner.add_state(&State::new(Value::V1, 5)), Ok(()));
    assert_eq!(data_of(planner), "M0,0 l5,0 l1,2");
}

#[test]
fn a_first_state_without_a_height_leaves_the_planner_fresh() {
    let mut planner = WavePlanner::default();
    assert_eq!(
        planner.add_state(&State::new(Value::VZ, 0)),
        Err(ValueError::Unsupported(Value::VZ))
    );
    assert_eq!(planner.add_state(&State::new(Value::V1, 9)), Ok(()));
    assert_eq!(data_of(planner), "M0,2");
}

#[test]
fn a_state_far_in_time_is_drawn() {
    assert_eq!(
        drawn(1, &[(Value::V0, 0), (Value::V1, 16_777_215)]),
        "M0,0 l16777215,0 l1,2"
    );
    assert_eq!(
        drawn(1, &[(Value::V0, 0), (Value::V1, 100_000_000)]),
        "M0,0 l100000000,0 l1,2"
    );
}

#[test]
fn the_run_behind_a_far_state_starts_where_its_ramp_ended() {
    assert_eq!(
        drawn(1, &[(Value::V0, 0), (Value::V1, 100_000_000), (Value::V0, 100_000_010)]),
        "M0,0 l100000000,0 l1,2 l9,0 l1,-2"
    );
}

#[test]
fn the_last_timestamp_that_a_wave_reaches() {
    let mut planner = WavePlanner::default();
    assert_eq!(planner.add_state(&State::new(Value::V0, 0)), Ok(()));
    assert_eq!(planner.add_state(&State::new(Value::V1, 2_147_483_646)), Ok(()));
    assert_eq!(planner.add_state(&State::new(Value::V0, 2_147_483_646)), Ok(()));
    let data = data_of(planner);
    assert!(data.starts_with("M0,0 l"));
    assert!(data.ends_with(" l1,2 l-1,0 l1,-2"));
}

#[test]
fn a_timestamp_beyond_reach_is_reported_and_draws_nothing() {
    let mut planner = WavePlanner::default();
    assert_eq!(planner.add_state(&State::new(Value::V0, 0)), Ok(()));
    assert_eq!(
        planner.add_state(&State::new(Value::V1, 2_147_483_647)),
        Err(ValueError::OutOfRange(2_147_483_647))
    );
    assert_eq!(
        planner.add_state(&State::new(Value::V1, u64::MAX)),
        Err(ValueError::OutOfRange(u64::MAX))
    );
    assert_eq!(planner.add_state(&State::new(Value::V1, 2)), Ok(()));
    assert_eq!(data_of(planner), "M0,0 l2,0 l1,2");
}

#[test]
fn the_first_state_is_within_reach_whatever_its_timestamp() {
    let mut planner = WavePlanner::default();
    assert_eq!(planner.add_state(&State::new(Value::V1, u64::MAX)), Ok(()));
    assert_eq!(data_of(planner), "M0,2");
}

#[test]
fn a_ramp_backwards_reaches_later_timestamps() {
    let mut planner = WavePlanner::new(-5);
    assert_eq!(planner.add_state(&State::new(Value::V0, 0)), Ok(()));
    assert_eq!(planner.add_state(&State::new(Value::V1, 0)), Ok(()));
    assert_eq!(planner.add_state(&State::new(Value::V0, 2_147_483_652)), Ok(()));
    assert_eq!(
        planner.add_state(&State::new(Value::V1, 2_147_483_653)),
        Err(ValueError::OutOfRange(2_147_483_653))
    );
    assert_eq!(planner.add_state(&State::new(Value::V1, 2_147_483_652)), Ok(()));
    let data = data_of(planner);
    assert!(data.starts_with("M0,0 l0,0 l-5,2 l"));
    assert!(data.ends_with(" l-5,-2 l5,0 l-5,2"));
}

#[test]
fn the_widest_ramp_reaches_the_origin_alone() {
    let mut planner = WavePlanner::new(i32::MAX);
    assert_eq!(planner.add_state(&State::new(Value::V0, 7)), Ok(()));
    assert_eq!(planner.add_state(&State::new(Value::V1, 0)), Ok(()));
    assert_eq!(
        planner.add_state(&State::new(Value::V0, 1)),
        Err(ValueError::OutOfRange(1))
    );
}

#[test]
fn heights_of_the_levels() {
    let planner = WavePlanner::default();
    assert_eq!(planner.height(&Value::V0), Ok(0));
    assert_eq!(planner.height(&Value::V1), Ok(2));
    assert_eq!(planner.height(&Value::VX), Err(ValueError::Unsupported(Value::VX)));
    assert_eq!(planner.height(&Value::VZ), Err(ValueError::Unsupported(Value::VZ)));
}

#[test]
fn value_error_messages() {
    assert_eq!(ValueError::Unsupported(Value::VX).message(), "value VX not supported");
    assert_eq!(ValueError::Unsupported(Value::VZ).message(), "value VZ not supported");
    assert_eq!(ValueError::OutOfRange(0).message(), "timestamp 0 out of range");
    assert_eq!(ValueError::OutOfRange(9).message(), "timestamp 9 out of range");
    assert_eq!(ValueError::OutOfRange(10).message(), "timestamp 10 out of range");
    assert_eq!(
        ValueError::OutOfRange(2_147_483_647).message(),
        "timestamp 2147483647 out of range"
    );
    assert_eq!(
        ValueError::OutOfRange(u64::MAX).message(),
        "timestamp 18446744073709551615 out of range"
    );
}
