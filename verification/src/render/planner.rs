//! The planner that draws the wave of one signal, stroke by stroke, and hands
//! the strokes to the sink when the wave is rendered.

use crate::diagram::{State, Value};
use crate::render::sink::{
    data_line_by, data_move_to, data_new, data_text, held_command, held_commands, path_commands,
    path_markup, path_new, path_set_data, Markup, PathCommand,
};
use crate::render::wave::{
    height_of, Coordinate, PlannerView, ValueError, TRANSITION_TIME, WAVE_HEIGHT,
};
use svg::node::element::Path;
use vstd::prelude::*;

verus! {

/// One stroke of a wave, as the planner keeps it. A run can be longer than
/// any coordinate, so the numbers of a stroke are wider than coordinates.
#[derive(Debug, Clone, Copy, PartialEq, Eq, Structural)]
pub enum Stroke {
    /// Lift the pen and put it down at the absolute position `(x, y)`.
    MoveTo { x: i64, y: i64 },
    /// Draw a straight line from the pen's position to the point `(dx, dy)`
    /// away from it.
    LineBy { dx: i64, dy: i64 },
}

impl View for Stroke {
    type V = PathCommand;

    open spec fn view(&self) -> PathCommand {
        match *self {
            Stroke::MoveTo { x, y } => PathCommand::MoveTo { x: x as int, y: y as int },
            Stroke::LineBy { dx, dy } => PathCommand::LineBy { dx: dx as int, dy: dy as int },
        }
    }
}

/// The commands that strokes stand for.
pub open spec fn commands_of(strokes: Seq<Stroke>) -> Seq<PathCommand> {
    Seq::new(strokes.len(), |i: int| strokes[i]@)
}

/// Plans the wave of one signal, state by state.
pub struct WavePlanner {
    strokes: Vec<Stroke>,
    x: Coordinate,
    y: Coordinate,
    transition_time: Coordinate,
    first: bool,
}

impl View for WavePlanner {
    type V = PlannerView;

    closed spec fn view(&self) -> PlannerView {
        PlannerView {
            commands: commands_of(self.strokes@),
            x: self.x as int,
            y: self.y as int,
            transition_time: self.transition_time as int,
            first: self.first,
        }
    }
}

impl WavePlanner {
    /// A planner that has drawn nothing, with ramps of width
    /// `transition_time`.
    pub fn new(transition_time: Coordinate) -> (planner: Self)
        ensures
            planner@ == PlannerView::fresh(transition_time as int),
    {
        let planner = Self { strokes: Vec::new(), x: 0, y: 0, transition_time, first: true };
        assert(planner@.commands == Seq::<PathCommand>::empty());
        planner
    }

    /// Draws one more state: the first state as a move to its level at the
    /// origin of time, each later one as a flat run up to its timestamp and a
    /// ramp to its level.
    ///
    /// A state that cannot be drawn is reported and leaves the planner as it
    /// was: one whose level has no height, and one after the first that
    /// begins so late that the pen's position behind its ramp is no
    /// coordinate.
    pub fn add_state(&mut self, state: &State) -> (outcome: Result<(), ValueError>)
        ensures
            match old(self)@.drawn(*state) {
                Ok(view) => outcome is Ok && final(self)@ == view,
                Err(failure) => outcome == Err::<(), ValueError>(failure) && final(self)@ == old(
                    self,
                )@,
            },
    {
        let y: Coordinate = match self.height(&state.value) {
            Ok(y) => y,
            Err(failure) => {
                return Err(failure);
            },
        };
        if self.first {
            self.first = false;
            self.move_to(0, y as i64);
            self.update_pos(0, y);
            return Ok(());
        }
        let width: i64 = self.transition_time as i64;
        let latest: i64 = i32::MAX as i64 - width;
        if state.timestamp > latest as u64 {
            return Err(ValueError::OutOfRange(state.timestamp));
        }
        let t: i64 = state.timestamp as i64;
        let dx: i64 = t - self.x as i64;
        let dy: i64 = y as i64 - self.y as i64;
        self.line_by(dx, 0);
        self.line_by(width, dy);
        self.update_pos((t + width) as Coordinate, y);
        Ok(())
    }

    /// The `path` element whose data is the wave drawn so far, as the sink
    /// holds it.
    pub fn render(self) -> (path: Path)
        ensures
            path_markup(path) == Markup::element("path"@).with_attribute(
                "d"@,
                data_text(held_commands(self@.commands)),
            ),
    {
        let mut data = data_new();
        let mut i: usize = 0;
        assert(held_commands(self@.commands.take(0)) == Seq::<PathCommand>::empty());
        while i < self.strokes.len()
            invariant
                i <= self.strokes.len(),
                path_commands(data) == held_commands(self@.commands.take(i as int)),
            decreases self.strokes.len() - i,
        {
            data = match self.strokes[i] {
                Stroke::MoveTo { x, y } => data_move_to(data, x, y),
                Stroke::LineBy { dx, dy } => data_line_by(data, dx, dy),
            };
            assert(held_commands(self@.commands.take(i + 1)) == held_commands(
                self@.commands.take(i as int),
            ).push(held_command(self.strokes[i as int]@)));
            i += 1;
        }
        assert(self@.commands.take(self.strokes.len() as int) == self@.commands);
        path_set_data(path_new(), "d", data)
    }

    /// The height at which `value` is drawn, if it can be drawn. No level is
    /// given a height that is not its own.
    pub fn height(&self, value: &Value) -> (height: Result<Coordinate, ValueError>)
        ensures
            match height_of(*value) {
                Some(h) => height == Ok::<Coordinate, ValueError>(h as Coordinate),
                None => height == Err::<Coordinate, ValueError>(ValueError::Unsupported(*value)),
            },
    {
        match value {
            Value::V0 => Ok(0),
            Value::V1 => Ok(WAVE_HEIGHT),
            unsupported => Err(ValueError::Unsupported(*unsupported)),
        }
    }

    /// Puts the pen at `(x, y)`.
    fn update_pos(&mut self, x: Coordinate, y: Coordinate)
        ensures
            final(self)@ == (PlannerView { x: x as int, y: y as int, ..old(self)@ }),
    {
        self.x = x;
        self.y = y;
    }

    /// Draws a move to `(x, y)`.
    fn move_to(&mut self, x: i64, y: i64)
        ensures
            final(self)@ == (PlannerView {
                commands: old(self)@.commands.push(
                    PathCommand::MoveTo { x: x as int, y: y as int },
                ),
                ..old(self)@
            }),
    {
        self.strokes.push(Stroke::MoveTo { x, y });
        assert(self@.commands == old(self)@.commands.push(
            PathCommand::MoveTo { x: x as int, y: y as int },
        ));
    }

    /// Draws a line by `(dx, dy)`.
    fn line_by(&mut self, dx: i64, dy: i64)
        ensures
            final(self)@ == (PlannerView {
                commands: old(self)@.commands.push(
                    PathCommand::LineBy { dx: dx as int, dy: dy as int },
                ),
                ..old(self)@
            }),
    {
        self.strokes.push(Stroke::LineBy { dx, dy });
        assert(self@.commands == old(self)@.commands.push(
            PathCommand::LineBy { dx: dx as int, dy: dy as int },
        ));
    }
}

impl Default for WavePlanner {
    /// A planner with ramps of the usual width.
    fn default() -> (planner: Self)
        ensures
            planner@ == PlannerView::fresh(TRANSITION_TIME as int),
    {
        Self::new(TRANSITION_TIME)
    }
}

} // verus!
