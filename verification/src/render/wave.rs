//! The wave of a signal: the path that its states are drawn as.
//!
//! Time runs along the x axis and the level along the y axis, low at `0` and
//! high at [`WAVE_HEIGHT`]. The first state puts the pen down at the origin of
//! time, at its level. Each later state draws a flat run up to its timestamp,
//! then a ramp of the transition's width to its level.

use crate::diagram::{State, Timestamp, Value};
use crate::render::sink::{
    all_exact, commands_text, data_text, exact, held_commands, PathCommand, EXACT_LIMIT,
};
use crate::text::{decimal, decimal_text};
use vstd::prelude::*;

verus! {

/// A position or a length in a wave.
pub type Coordinate = i32;

/// The height of the high level over the low one.
pub const WAVE_HEIGHT: Coordinate = 2;

/// The width of a ramp where none is chosen.
pub const TRANSITION_TIME: Coordinate = 1;

/// Whether `v` is a coordinate.
pub open spec fn fits(v: int) -> bool {
    i32::MIN <= v <= i32::MAX
}

/// A state that cannot be drawn.
#[derive(Debug, Clone, Copy, PartialEq, Eq, Structural)]
pub enum ValueError {
    /// The state holds a level that has no height.
    Unsupported(Value),
    /// The state begins so late that the pen's position behind its ramp is no
    /// coordinate.
    OutOfRange(Timestamp),
}

impl ValueError {
    /// What the failure says of itself.
    pub open spec fn message_text(self) -> Seq<char> {
        match self {
            ValueError::Unsupported(value) => "value "@ + value.name_text() + " not supported"@,
            ValueError::OutOfRange(timestamp) => "timestamp "@ + decimal_text(timestamp as nat)
                + " out of range"@,
        }
    }

    /// A description of the failure, for the one who reads the report.
    pub fn message(&self) -> (message: String)
        ensures
            message@ == self.message_text(),
    {
        match self {
            ValueError::Unsupported(value) => {
                String::from_str("value ").concat(value.name()).concat(" not supported")
            },
            ValueError::OutOfRange(timestamp) => {
                let digits = decimal(*timestamp);
                String::from_str("timestamp ").concat(digits.as_str()).concat(" out of range")
            },
        }
    }
}

/// The height at which a level is drawn, for the levels that can be drawn.
pub open spec fn height_of(value: Value) -> Option<int> {
    match value {
        Value::V0 => Some(0),
        Value::V1 => Some(WAVE_HEIGHT as int),
        Value::VX => None,
        Value::VZ => None,
    }
}

/// The height at which a level is drawn, and `0` for a level that cannot be.
pub open spec fn level(value: Value) -> int {
    match height_of(value) {
        Some(height) => height,
        None => 0,
    }
}

/// What a wave planner holds: the commands drawn so far, where the pen is,
/// the width of a ramp, and whether the first state is still to come.
pub struct PlannerView {
    pub commands: Seq<PathCommand>,
    pub x: int,
    pub y: int,
    pub transition_time: int,
    pub first: bool,
}

impl PlannerView {
    /// A planner that has drawn nothing.
    pub open spec fn fresh(transition_time: int) -> PlannerView {
        PlannerView { commands: Seq::empty(), x: 0, y: 0, transition_time, first: true }
    }

    /// Whether a run to `timestamp` and the ramp behind it leave the pen at a
    /// position that is a coordinate.
    pub open spec fn reaches(self, timestamp: int) -> bool {
        fits(timestamp + self.transition_time)
    }

    /// The planner after one more state, or why the state cannot be drawn.
    pub open spec fn drawn(self, state: State) -> Result<PlannerView, ValueError> {
        match height_of(state.value) {
            None => Err(ValueError::Unsupported(state.value)),
            Some(height) => if self.first {
                Ok(
                    PlannerView {
                        commands: self.commands.push(PathCommand::MoveTo { x: 0, y: height }),
                        x: 0,
                        y: height,
                        transition_time: self.transition_time,
                        first: false,
                    },
                )
            } else if self.reaches(state.timestamp as int) {
                Ok(
                    PlannerView {
                        commands: self.commands.push(
                            PathCommand::LineBy { dx: state.timestamp - self.x, dy: 0 },
                        ).push(
                            PathCommand::LineBy { dx: self.transition_time, dy: height - self.y },
                        ),
                        x: state.timestamp + self.transition_time,
                        y: height,
                        transition_time: self.transition_time,
                        first: false,
                    },
                )
            } else {
                Err(ValueError::OutOfRange(state.timestamp))
            },
        }
    }
}

/// Where the pen is in time once the first `count` states are drawn: at the
/// origin up to the first state, and behind the ramp of the last state drawn
/// after that.
pub open spec fn pen_x(states: Seq<State>, transition_time: int, count: int) -> int {
    if count <= 1 {
        0
    } else {
        states[count - 1].timestamp + transition_time
    }
}

/// The height of the pen once the first `count` states are drawn.
pub open spec fn pen_y(states: Seq<State>, count: int) -> int {
    if count <= 0 {
        0
    } else {
        level(states[count - 1].value)
    }
}

/// The length of the flat run that leads to state `k`, for `k` after the
/// first state.
pub open spec fn run_before(states: Seq<State>, transition_time: int, k: int) -> int {
    states[k].timestamp - pen_x(states, transition_time, k)
}

/// The rise of the ramp at state `k`, negative for a fall, for `k` after the
/// first state.
pub open spec fn ramp_at(states: Seq<State>, k: int) -> int {
    level(states[k].value) - pen_y(states, k)
}

/// Command `i` of the wave of `states`: the move to the first state's level,
/// then for each later state its run and its ramp.
pub open spec fn wave_command(states: Seq<State>, transition_time: int, i: int) -> PathCommand {
    if i == 0 {
        PathCommand::MoveTo { x: 0, y: level(states[0].value) }
    } else if i % 2 == 1 {
        PathCommand::LineBy { dx: run_before(states, transition_time, (i + 1) / 2), dy: 0 }
    } else {
        PathCommand::LineBy { dx: transition_time, dy: ramp_at(states, i / 2) }
    }
}

/// The wave of `states`, where each of them can be drawn: nothing for no
/// state, and else one move and two lines for each state after the first.
pub open spec fn wave_commands(states: Seq<State>, transition_time: int) -> Seq<PathCommand> {
    if states.len() == 0 {
        Seq::empty()
    } else {
        Seq::new(
            (2 * states.len() - 1) as nat,
            |i: int| wave_command(states, transition_time, i),
        )
    }
}

/// Whether the run to state `k` and the ramp at it leave the pen at a position
/// that is a coordinate.
pub open spec fn state_in_reach(states: Seq<State>, transition_time: int, k: int) -> bool {
    fits(states[k].timestamp + transition_time)
}

/// Why state `k` cannot be drawn behind the states before it, if it cannot:
/// its level has no height, or it is not the first state and out of reach.
pub open spec fn state_failure(states: Seq<State>, transition_time: int, k: int) -> Option<
    ValueError,
> {
    if height_of(states[k].value) is None {
        Some(ValueError::Unsupported(states[k].value))
    } else if k > 0 && !state_in_reach(states, transition_time, k) {
        Some(ValueError::OutOfRange(states[k].timestamp))
    } else {
        None
    }
}

/// Why the wave of `states` cannot be drawn, if it cannot: the failure of the
/// first state that has one.
pub open spec fn wave_failure(states: Seq<State>, transition_time: int) -> Option<ValueError>
    decreases states.len(),
{
    if states.len() == 0 {
        None
    } else {
        match wave_failure(states.drop_last(), transition_time) {
            Some(failure) => Some(failure),
            None => state_failure(states, transition_time, states.len() - 1),
        }
    }
}

/// The planner that has drawn all of `states`.
pub open spec fn planned(states: Seq<State>, transition_time: int) -> PlannerView {
    PlannerView {
        commands: wave_commands(states, transition_time),
        x: pen_x(states, transition_time, states.len() as int),
        y: pen_y(states, states.len() as int),
        transition_time,
        first: states.len() == 0,
    }
}

/// A planner that has drawn nothing has drawn the wave of no states.
pub proof fn lemma_planned_nothing(transition_time: int)
    ensures
        planned(Seq::empty(), transition_time) == PlannerView::fresh(transition_time),
        wave_failure(Seq::empty(), transition_time) is None,
{
}

/// A state's failure depends on the states up to it alone.
pub proof fn lemma_state_failure_of_prefix(
    states: Seq<State>,
    transition_time: int,
    count: int,
    k: int,
)
    requires
        0 <= k < count <= states.len(),
    ensures
        state_failure(states.take(count), transition_time, k) == state_failure(
            states,
            transition_time,
            k,
        ),
{
}

/// Drawing the states one by one gives the wave: where `states` are drawn, one
/// more state either fails as the longer wave does, or leaves the planner
/// with the longer wave.
pub proof fn lemma_planned_step(states: Seq<State>, transition_time: int, state: State)
    requires
        wave_failure(states, transition_time) is None,
    ensures
        match planned(states, transition_time).drawn(state) {
            Ok(view) => wave_failure(states.push(state), transition_time) is None && view
                == planned(states.push(state), transition_time),
            Err(failure) => wave_failure(states.push(state), transition_time) == Some(failure),
        },
{
    let longer = states.push(state);
    let count = states.len() as int;
    assert(longer.drop_last() == states);
    if count > 0 {
        assert(longer[count - 1] == states[count - 1]);
    }
    if height_of(state.value) is Some {
        let before = wave_commands(states, transition_time);
        let after = wave_commands(longer, transition_time);
        if count == 0 {
            assert(after == before.push(PathCommand::MoveTo { x: 0, y: level(state.value) }));
        } else if planned(states, transition_time).reaches(state.timestamp as int) {
            assert forall|i: int| 0 <= i < before.len() implies after[i] == before[i] by {
                if i % 2 == 1 {
                    assert(longer[(i + 1) / 2] == states[(i + 1) / 2]);
                    assert(longer[(i + 1) / 2 - 1] == states[(i + 1) / 2 - 1]);
                } else if i > 0 {
                    assert(longer[i / 2] == states[i / 2]);
                    assert(longer[i / 2 - 1] == states[i / 2 - 1]);
                }
            }
            assert(longer[count - 1] == states[count - 1]);
            assert(after == before.push(
                PathCommand::LineBy { dx: run_before(longer, transition_time, count), dy: 0 },
            ).push(PathCommand::LineBy { dx: transition_time, dy: ramp_at(longer, count) }));
        }
    }
}

/// A wave can be drawn just when each of its states can, and fails as the
/// first state that cannot.
pub proof fn lemma_wave_failure(states: Seq<State>, transition_time: int)
    ensures
        wave_failure(states, transition_time) is None <==> forall|k: int|
            0 <= k < states.len() ==> state_failure(states, transition_time, k) is None,
        wave_failure(states, transition_time) matches Some(failure) ==> exists|k: int|
            0 <= k < states.len() && state_failure(states, transition_time, k) == Some(failure)
                && forall|j: int|
                0 <= j < k ==> state_failure(states, transition_time, j) is None,
    decreases states.len(),
{
    if states.len() > 0 {
        let front = states.drop_last();
        let last = states.len() - 1;
        lemma_wave_failure(front, transition_time);
        assert(front == states.take(last));
        assert forall|k: int| 0 <= k < last implies state_failure(front, transition_time, k)
            == state_failure(states, transition_time, k) by {
            lemma_state_failure_of_prefix(states, transition_time, last, k);
        }
        match wave_failure(front, transition_time) {
            Some(failure) => {
                let k = choose|k: int|
                    0 <= k < front.len() && state_failure(front, transition_time, k) == Some(
                        failure,
                    ) && forall|j: int|
                        0 <= j < k ==> state_failure(front, transition_time, j) is None;
                assert(state_failure(states, transition_time, k) == Some(failure));
                assert forall|j: int| 0 <= j < k implies state_failure(
                    states,
                    transition_time,
                    j,
                ) is None by {
                    assert(state_failure(front, transition_time, j) is None);
                }
            },
            None => {
                assert forall|j: int| 0 <= j < last implies state_failure(
                    states,
                    transition_time,
                    j,
                ) is None by {
                    assert(state_failure(front, transition_time, j) is None);
                }
                if state_failure(states, transition_time, last) is Some {
                    assert(0 <= last < states.len());
                }
            },
        }
    }
}

/// Where the pen is after the first `count` of `commands`, from the origin: a
/// move puts it at a position, a line takes it along.
pub open spec fn pen_after(commands: Seq<PathCommand>, count: int) -> (int, int)
    decreases count,
{
    if count <= 0 {
        (0, 0)
    } else {
        let from = pen_after(commands, count - 1);
        match commands[count - 1] {
            PathCommand::MoveTo { x, y } => (x, y),
            PathCommand::LineBy { dx, dy } => (from.0 + dx, from.1 + dy),
        }
    }
}

/// A wave begins at the origin of time, at the level of its first state.
pub proof fn lemma_wave_begins_at_first_level(states: Seq<State>, transition_time: int)
    requires
        states.len() > 0,
    ensures
        pen_after(wave_commands(states, transition_time), 1) == (0int, level(states[0].value)),
{
    reveal_with_fuel(pen_after, 2);
}

/// A wave meets each state after the first: the run to the state ends at the
/// state's timestamp, still at the level before, and the ramp ends the
/// transition's width later, at the state's level.
pub proof fn lemma_wave_meets_state(states: Seq<State>, transition_time: int, k: int)
    requires
        1 <= k < states.len(),
    ensures
        pen_after(wave_commands(states, transition_time), 2 * k) == (
            states[k].timestamp as int,
            level(states[k - 1].value),
        ),
        pen_after(wave_commands(states, transition_time), 2 * k + 1) == (
            states[k].timestamp + transition_time,
            level(states[k].value),
        ),
    decreases k,
{
    let commands = wave_commands(states, transition_time);
    if k == 1 {
        lemma_wave_begins_at_first_level(states, transition_time);
    } else {
        lemma_wave_meets_state(states, transition_time, k - 1);
    }
    assert(commands[2 * k - 1] == wave_command(states, transition_time, 2 * k - 1));
    assert(commands[2 * k] == wave_command(states, transition_time, 2 * k));
    assert(pen_after(commands, 2 * k) == (
        states[k].timestamp as int,
        level(states[k - 1].value),
    ));
}

/// Commands whose numbers the sink holds exactly are held as they are.
pub proof fn lemma_exact_commands_are_held(commands: Seq<PathCommand>)
    requires
        all_exact(commands),
    ensures
        held_commands(commands) == commands,
{
    assert forall|i: int| 0 <= i < commands.len() implies held_commands(commands)[i]
        == commands[i] by {
        let command = commands[i];
        match command {
            PathCommand::MoveTo { x, y } => {
                assert(exact(x) && exact(y));
            },
            PathCommand::LineBy { dx, dy } => {
                assert(exact(dx) && exact(dy));
            },
        }
    }
}

/// A wave whose ramps go forward and end within what the sink holds exactly
/// has no number beyond that: the sink holds the wave as it is, and writes it
/// as the texts of its commands with a space between each two.
pub proof fn lemma_near_wave_is_exact(states: Seq<State>, transition_time: int)
    requires
        0 <= transition_time,
        forall|k: int|
            0 <= k < states.len() ==> (#[trigger] states[k]).timestamp + transition_time
                <= EXACT_LIMIT,
    ensures
        all_exact(wave_commands(states, transition_time)),
        held_commands(wave_commands(states, transition_time)) == wave_commands(
            states,
            transition_time,
        ),
        data_text(held_commands(wave_commands(states, transition_time))) == commands_text(
            wave_commands(states, transition_time),
        ),
{
    let commands = wave_commands(states, transition_time);
    assert forall|i: int| 0 <= i < commands.len() implies match #[trigger] commands[i] {
        PathCommand::MoveTo { x, y } => exact(x) && exact(y),
        PathCommand::LineBy { dx, dy } => exact(dx) && exact(dy),
    } by {
        assert(commands[i] == wave_command(states, transition_time, i));
        if i > 0 {
            let k = if i % 2 == 1 {
                (i + 1) / 2
            } else {
                i / 2
            };
            assert(states[k].timestamp + transition_time <= EXACT_LIMIT);
            assert(states[k - 1].timestamp + transition_time <= EXACT_LIMIT);
        }
    }
    lemma_exact_commands_are_held(commands);
}

/// A wave fails as its first states do, where those fail.
pub proof fn lemma_wave_failure_of_prefix(states: Seq<State>, transition_time: int, count: int)
    requires
        0 <= count <= states.len(),
        wave_failure(states.take(count), transition_time) is Some,
    ensures
        wave_failure(states, transition_time) == wave_failure(
            states.take(count),
            transition_time,
        ),
    decreases states.len(),
{
    if count == states.len() {
        assert(states.take(count) == states);
    } else {
        assert(states.drop_last().take(count) == states.take(count));
        lemma_wave_failure_of_prefix(states.drop_last(), transition_time, count);
    }
}

/// A wave that holds a level without a height cannot be drawn.
pub proof fn lemma_unsupported_value_fails(states: Seq<State>, transition_time: int, k: int)
    requires
        0 <= k < states.len(),
        height_of(states[k].value) is None,
    ensures
        wave_failure(states, transition_time) is Some,
{
    lemma_wave_failure(states, transition_time);
    assert(state_failure(states, transition_time, k) is Some);
}

} // verus!
