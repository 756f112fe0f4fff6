//! Signals, the states they are made of, and the diagram that holds them.

use crate::render::{rendered_for, RenderError};
use crate::timeline::{
    lemma_insert_keeps_order, lemma_slot_after, lemma_slot_after_is, lemma_sorted_is_ordered,
    lemma_sorted_is_stable, lemma_sorted_keeps_states, slot_after, states_at, time_ordered,
    time_sorted, value_at,
};
use svg::node::element::SVG;
use vstd::prelude::*;

verus! {

/// A point on the time axis of a signal.
pub type Timestamp = u64;

/// A logical level that a signal can hold.
///
/// Only `V0` and `V1` can be drawn; `VX` (unknown) and `VZ` (high impedance)
/// can be recorded but have no place in a wave.
#[derive(Debug, Clone, Copy, PartialEq, Eq, Structural)]
pub enum Value {
    V0,
    V1,
    VX,
    VZ,
}

impl Value {
    /// The name that the level goes by.
    pub open spec fn name_text(self) -> Seq<char> {
        match self {
            Value::V0 => "V0"@,
            Value::V1 => "V1"@,
            Value::VX => "VX"@,
            Value::VZ => "VZ"@,
        }
    }

    /// The name that the level goes by.
    pub fn name(&self) -> (name: &'static str)
        ensures
            name@ == self.name_text(),
    {
        match self {
            Value::V0 => "V0",
            Value::V1 => "V1",
            Value::VX => "VX",
            Value::VZ => "VZ",
        }
    }
}

/// The level that a signal takes at a point in time and keeps until its next
/// state.
#[derive(Debug, Clone, Copy, PartialEq, Eq, Structural)]
pub struct State {
    pub value: Value,
    pub timestamp: Timestamp,
}

impl State {
    /// The state of level `value` from `timestamp` on. Any level is accepted
    /// here, also one that cannot be drawn.
    pub fn new(value: Value, timestamp: Timestamp) -> (state: Self)
        ensures
            state == (State { value, timestamp }),
    {
        Self { value, timestamp }
    }
}

/// What a signal, or a builder of one, holds: a name and states.
pub struct SignalView {
    pub name: Seq<char>,
    pub states: Seq<State>,
}

/// A named signal: its states in ascending order of time, fixed once built.
///
/// States of one timestamp stand in the order in which they were added, and
/// the last of them is the one in force from that timestamp on.
#[derive(Debug)]
pub struct Signal {
    name: String,
    states: Vec<State>,
}

impl View for Signal {
    type V = SignalView;

    closed spec fn view(&self) -> SignalView {
        SignalView { name: self.name@, states: self.states@ }
    }
}

impl Signal {
    #[verifier::type_invariant]
    spec fn ordered(self) -> bool {
        time_ordered(self.states@)
    }

    /// The signal's name.
    pub fn name(&self) -> (name: &str)
        ensures
            name@ == self@.name,
    {
        self.name.as_str()
    }

    /// The signal's states, in ascending order of time.
    pub fn states(&self) -> (states: &[State])
        ensures
            states@ == self@.states,
            time_ordered(states@),
    {
        proof {
            use_type_invariant(self);
        }
        self.states.as_slice()
    }

    /// The level in force at `t`: that of the last state at or before `t`, and
    /// that of the first state where `t` is earlier than all of them.
    ///
    /// A signal without states has no level to give.
    pub fn sample(&self, t: Timestamp) -> (value: &Value)
        requires
            self@.states.len() > 0,
        ensures
            *value == value_at(self@.states, t),
    {
        proof {
            use_type_invariant(self);
        }
        let slot: usize = find_slot(&self.states, t);
        if slot == 0 {
            &self.states[0].value
        } else {
            &self.states[slot - 1].value
        }
    }
}

/// The index in ordered `states` just behind the last state at or before `t`,
/// found by halving the range that can hold it.
fn find_slot(states: &Vec<State>, t: Timestamp) -> (slot: usize)
    requires
        time_ordered(states@),
    ensures
        slot == slot_after(states@, t),
        slot <= states.len(),
{
    let mut low: usize = 0;
    let mut high: usize = states.len();
    while low < high
        invariant
            low <= high <= states.len(),
            time_ordered(states@),
            forall|i: int| 0 <= i < low ==> states[i].timestamp <= t,
            forall|i: int| high <= i < states.len() ==> states[i].timestamp > t,
        decreases high - low,
    {
        let middle: usize = low + (high - low) / 2;
        if states[middle].timestamp <= t {
            low = middle + 1;
        } else {
            high = middle;
        }
    }
    proof {
        lemma_slot_after_is(states@, t, low as int);
    }
    low
}

/// Collects the states of one signal, in any order, until the signal is built.
pub struct SignalBuilder {
    name: String,
    states: Vec<State>,
}

impl View for SignalBuilder {
    type V = SignalView;

    /// The name, and the states in the order in which they were added.
    closed spec fn view(&self) -> SignalView {
        SignalView { name: self.name@, states: self.states@ }
    }
}

impl SignalBuilder {
    /// A builder for the signal `name`, without states.
    pub fn new(name: &str) -> (builder: Self)
        ensures
            builder@ == (SignalView { name: name@, states: Seq::empty() }),
    {
        Self { name: name.to_owned(), states: Vec::new() }
    }

    /// The builder with `states` added, first to last.
    pub fn with_states(self, states: Vec<State>) -> (builder: Self)
        ensures
            builder@ == (SignalView { name: self@.name, states: self@.states + states@ }),
    {
        let mut builder = self;
        let mut i: usize = 0;
        while i < states.len()
            invariant
                i <= states.len(),
                builder@ == (SignalView {
                    name: self@.name,
                    states: self@.states + states@.take(i as int),
                }),
            decreases states.len() - i,
        {
            builder.add_state(states[i]);
            assert(states@.take(i as int).push(states[i as int]) == states@.take(i + 1));
            i += 1;
        }
        assert(states@.take(states.len() as int) == states@);
        builder
    }

    /// Adds one state. States may come in any order, and more than one may
    /// share a timestamp.
    pub fn add_state(&mut self, state: State)
        ensures
            final(self)@ == (SignalView {
                name: old(self)@.name,
                states: old(self)@.states.push(state),
            }),
    {
        self.states.push(state)
    }

    /// The signal of the states added so far, sorted by time. Every state
    /// added is in it, as often as it was added, and states of one timestamp
    /// keep the order in which they were added. The builder is used up.
    pub fn build(self) -> (signal: Signal)
        ensures
            signal@ == (SignalView { name: self@.name, states: time_sorted(self@.states) }),
            time_ordered(signal@.states),
            signal@.states.to_multiset() == self@.states.to_multiset(),
            forall|t: Timestamp| states_at(signal@.states, t) == states_at(self@.states, t),
    {
        proof {
            lemma_sorted_is_ordered(self@.states);
            lemma_sorted_keeps_states(self@.states);
            assert forall|t: Timestamp|
                states_at(time_sorted(self@.states), t) == states_at(self@.states, t) by {
                lemma_sorted_is_stable(self@.states, t);
            }
        }
        let mut sorted: Vec<State> = Vec::with_capacity(self.states.len());
        let mut i: usize = 0;
        while i < self.states.len()
            invariant
                i <= self.states.len(),
                time_ordered(sorted@),
                sorted@ == time_sorted(self.states@.take(i as int)),
            decreases self.states.len() - i,
        {
            let state: State = self.states[i];
            let slot: usize = find_slot(&sorted, state.timestamp);
            proof {
                lemma_insert_keeps_order(sorted@, state);
                lemma_slot_after(sorted@, state.timestamp);
                assert(self.states@.take(i + 1).drop_last() == self.states@.take(i as int));
            }
            sorted.insert(slot, state);
            i += 1;
        }
        assert(self.states@.take(self.states.len() as int) == self.states@);
        Signal { name: self.name, states: sorted }
    }
}

/// The signals of a diagram, in the order in which they are drawn.
pub struct TimingDiagram {
    signals: Vec<Signal>,
}

impl View for TimingDiagram {
    type V = Seq<Signal>;

    closed spec fn view(&self) -> Seq<Signal> {
        self.signals@
    }
}

impl TimingDiagram {
    /// A diagram without signals.
    pub fn new() -> (diagram: Self)
        ensures
            diagram@ == Seq::<Signal>::empty(),
    {
        Self { signals: Vec::new() }
    }

    /// The signals, in the order in which they were added.
    pub fn signals(&self) -> (signals: &[Signal])
        ensures
            signals@ == self@,
    {
        self.signals.as_slice()
    }

    /// Adds a signal behind those that the diagram holds. Signals are neither
    /// merged nor told apart by name.
    pub fn add_signal(&mut self, signal: Signal)
        ensures
            final(self)@ == old(self)@.push(signal),
    {
        self.signals.push(signal)
    }

    /// Renders the diagram for the output path `path`, in the format that the
    /// path's extension names, and gives the document to write there. The
    /// diagram stays as it is.
    pub fn render(&self, path: &str) -> (outcome: Result<SVG, RenderError>)
        ensures
            rendered_for(outcome, self@, path@),
    {
        crate::render::render(self, path)
    }
}

} // verus!
