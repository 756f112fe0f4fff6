//! States in time: the order that a signal keeps its states in, and where a
//! point in time falls among them.

use crate::diagram::{State, Timestamp, Value};
use vstd::prelude::*;

verus! {

/// The timestamps never decrease from one state to the next.
pub open spec fn time_ordered(states: Seq<State>) -> bool {
    forall|i: int, j: int|
        0 <= i <= j < states.len() ==> states[i].timestamp <= states[j].timestamp
}

/// The index just behind the last state at or before `t`, and `0` where no
/// state is that early.
pub open spec fn slot_after(states: Seq<State>, t: Timestamp) -> int
    decreases states.len(),
{
    if states.len() == 0 {
        0
    } else if states.last().timestamp <= t {
        states.len() as int
    } else {
        slot_after(states.drop_last(), t)
    }
}

/// The states in ascending order of time, those of one timestamp in the order
/// in which `states` has them.
pub open spec fn time_sorted(states: Seq<State>) -> Seq<State>
    decreases states.len(),
{
    if states.len() == 0 {
        states
    } else {
        let earlier = time_sorted(states.drop_last());
        earlier.insert(slot_after(earlier, states.last().timestamp), states.last())
    }
}

/// Whether a state begins at `t`, as a predicate on states.
pub open spec fn begins_at(t: Timestamp) -> spec_fn(State) -> bool {
    |state: State| state.timestamp == t
}

/// The states that begin at `t`, in the order in which `states` has them.
pub open spec fn states_at(states: Seq<State>, t: Timestamp) -> Seq<State> {
    states.filter(begins_at(t))
}

/// The index of the state that is in force at `t`: the last one at or before
/// `t`, and the first one where `t` is earlier than all of them.
pub open spec fn active_index(states: Seq<State>, t: Timestamp) -> int {
    if slot_after(states, t) == 0 {
        0
    } else {
        slot_after(states, t) - 1
    }
}

/// The level in force at `t`.
pub open spec fn value_at(states: Seq<State>, t: Timestamp) -> Value {
    states[active_index(states, t)].value
}

/// `slot_after` splits the states: from the slot on every state is later than
/// `t`, the state before the slot is not, and in ordered states none before
/// the slot is.
pub proof fn lemma_slot_after(states: Seq<State>, t: Timestamp)
    ensures
        0 <= slot_after(states, t) <= states.len(),
        forall|i: int| slot_after(states, t) <= i < states.len() ==> states[i].timestamp > t,
        slot_after(states, t) > 0 ==> states[slot_after(states, t) - 1].timestamp <= t,
        time_ordered(states) ==> forall|i: int|
            0 <= i < slot_after(states, t) ==> states[i].timestamp <= t,
    decreases states.len(),
{
    if states.len() > 0 && states.last().timestamp > t {
        let front = states.drop_last();
        lemma_slot_after(front, t);
        assert forall|i: int| slot_after(states, t) <= i < states.len() implies states[i].timestamp
            > t by {
            if i < front.len() {
                assert(front[i] == states[i]);
            }
        }
        if slot_after(states, t) > 0 {
            assert(front[slot_after(states, t) - 1] == states[slot_after(states, t) - 1]);
        }
    }
}

/// An index that splits the states as `slot_after` does is `slot_after`.
pub proof fn lemma_slot_after_is(states: Seq<State>, t: Timestamp, slot: int)
    requires
        0 <= slot <= states.len(),
        forall|i: int| 0 <= i < slot ==> states[i].timestamp <= t,
        forall|i: int| slot <= i < states.len() ==> states[i].timestamp > t,
    ensures
        slot_after(states, t) == slot,
    decreases states.len(),
{
    if states.len() > 0 {
        if states.last().timestamp <= t {
            assert(slot == states.len()) by {
                if slot < states.len() {
                    assert(states[states.len() - 1].timestamp > t);
                }
            }
        } else {
            assert(slot < states.len()) by {
                if slot == states.len() {
                    assert(states[states.len() - 1].timestamp <= t);
                }
            }
            let front = states.drop_last();
            assert forall|i: int| 0 <= i < slot implies front[i].timestamp <= t by {
                assert(front[i] == states[i]);
            }
            assert forall|i: int| slot <= i < front.len() implies front[i].timestamp > t by {
                assert(front[i] == states[i]);
            }
            lemma_slot_after_is(front, t, slot);
        }
    }
}

/// The state in force at `t` is the last one at or before `t`: it is a state
/// of the signal, every state behind it is later than `t`, and it is not
/// later than `t` itself unless every state is.
pub proof fn lemma_active_index(states: Seq<State>, t: Timestamp)
    requires
        time_ordered(states),
        states.len() > 0,
    ensures
        0 <= active_index(states, t) < states.len(),
        forall|i: int| active_index(states, t) < i < states.len() ==> states[i].timestamp > t,
        states[active_index(states, t)].timestamp <= t || forall|i: int|
            0 <= i < states.len() ==> states[i].timestamp > t,
{
    lemma_slot_after(states, t);
}

/// At any time before the first state, the first state's level is in force.
pub proof fn lemma_value_before_first(states: Seq<State>, t: Timestamp)
    requires
        time_ordered(states),
        states.len() > 0,
        t < states[0].timestamp,
    ensures
        value_at(states, t) == states[0].value,
{
    assert forall|i: int| 0 <= i < states.len() implies states[i].timestamp > t by {
        assert(states[0].timestamp <= states[i].timestamp);
    }
    lemma_slot_after_is(states, t, 0);
}

/// At the time of the last state and at any time after it, the last state's
/// level is in force.
pub proof fn lemma_value_from_last(states: Seq<State>, t: Timestamp)
    requires
        states.len() > 0,
        t >= states.last().timestamp,
    ensures
        value_at(states, t) == states.last().value,
{
}

/// At the time at which a state begins, that state's level is in force,
/// unless the last of the states that begin at that time has another level:
/// of the states of one timestamp, the last is the one in force.
pub proof fn lemma_value_at_state(states: Seq<State>, i: int)
    requires
        time_ordered(states),
        0 <= i < states.len(),
        forall|j: int|
            i <= j < states.len() && states[j].timestamp == states[i].timestamp && (j + 1
                == states.len() || states[j + 1].timestamp != states[i].timestamp)
                ==> states[j].value == states[i].value,
    ensures
        value_at(states, states[i].timestamp) == states[i].value,
{
    let t = states[i].timestamp;
    lemma_slot_after(states, t);
    let last = slot_after(states, t) - 1;
    assert(last >= i) by {
        if last < i {
            assert(states[i].timestamp > t);
        }
    }
    assert(states[last].timestamp == t) by {
        assert(states[i].timestamp <= states[last].timestamp);
    }
    if last + 1 < states.len() {
        assert(states[last + 1].timestamp > t);
    }
}

/// Where no two states share a timestamp, each state's level is in force at
/// the time at which the state begins.
pub proof fn lemma_value_at_single_state(states: Seq<State>, i: int)
    requires
        0 <= i < states.len(),
        forall|j: int, k: int|
            0 <= j < k < states.len() ==> states[j].timestamp < states[k].timestamp,
    ensures
        value_at(states, states[i].timestamp) == states[i].value,
{
    assert(time_ordered(states));
    assert forall|j: int|
        i <= j < states.len() && states[j].timestamp == states[i].timestamp implies states[j].value
        == states[i].value by {
        if i < j {
            assert(states[i].timestamp < states[j].timestamp);
        }
    }
    lemma_value_at_state(states, i);
}

/// Putting a state into ordered states at its slot keeps them ordered.
pub proof fn lemma_insert_keeps_order(states: Seq<State>, state: State)
    requires
        time_ordered(states),
    ensures
        time_ordered(states.insert(slot_after(states, state.timestamp), state)),
{
    let slot = slot_after(states, state.timestamp);
    lemma_slot_after(states, state.timestamp);
    states.insert_ensures(slot, state);
    let grown = states.insert(slot, state);
    assert forall|i: int, j: int| 0 <= i <= j < grown.len() implies grown[i].timestamp
        <= grown[j].timestamp by {
        let a = if i < slot { i } else { i - 1 };
        let b = if j < slot { j } else { j - 1 };
        if i != slot {
            assert(grown[i] == states[a]);
        }
        if j != slot {
            assert(grown[j] == states[b]);
        }
    }
}

/// Sorting by time gives ordered states: whatever states are put in, in
/// whatever order, the timestamps of the result never decrease.
pub proof fn lemma_sorted_is_ordered(states: Seq<State>)
    ensures
        time_ordered(time_sorted(states)),
        time_sorted(states).len() == states.len(),
    decreases states.len(),
{
    if states.len() > 0 {
        let earlier = time_sorted(states.drop_last());
        lemma_sorted_is_ordered(states.drop_last());
        lemma_insert_keeps_order(earlier, states.last());
        lemma_slot_after(earlier, states.last().timestamp);
        earlier.insert_ensures(slot_after(earlier, states.last().timestamp), states.last());
    }
}

/// Sorting by time neither loses nor invents a state: the result holds each
/// state as often as `states` does.
pub proof fn lemma_sorted_keeps_states(states: Seq<State>)
    ensures
        time_sorted(states).to_multiset() == states.to_multiset(),
    decreases states.len(),
{
    broadcast use vstd::seq_lib::group_to_multiset_ensures;

    if states.len() > 0 {
        let front = states.drop_last();
        let earlier = time_sorted(front);
        lemma_sorted_keeps_states(front);
        lemma_slot_after(earlier, states.last().timestamp);
        assert(states == front.push(states.last()));
    }
}

/// No state that a predicate rejects passes its filter.
proof fn lemma_filter_nothing(states: Seq<State>, pred: spec_fn(State) -> bool)
    requires
        forall|i: int| 0 <= i < states.len() ==> !pred(states[i]),
    ensures
        states.filter(pred) == Seq::<State>::empty(),
    decreases states.len(),
{
    reveal(Seq::filter);
    if states.len() > 0 {
        let front = states.drop_last();
        assert forall|i: int| 0 <= i < front.len() implies !pred(front[i]) by {
            assert(front[i] == states[i]);
        }
        lemma_filter_nothing(front, pred);
    }
}

/// Sorting by time is stable: the states that begin at one point in time
/// stay in the order in which they were given.
pub proof fn lemma_sorted_is_stable(states: Seq<State>, t: Timestamp)
    ensures
        states_at(time_sorted(states), t) == states_at(states, t),
    decreases states.len(),
{
    if states.len() > 0 {
        let pred = begins_at(t);
        let front = states.drop_last();
        let last = states.last();
        let earlier = time_sorted(front);
        let slot = slot_after(earlier, last.timestamp);
        lemma_sorted_is_stable(front, t);
        lemma_sorted_is_ordered(front);
        lemma_slot_after(earlier, last.timestamp);
        let head = earlier.subrange(0, slot);
        let tail = earlier.subrange(slot, earlier.len() as int);
        assert(earlier == head + tail);
        assert(head.push(last).drop_last() == head);
        Seq::filter_distributes_over_add(head, tail, pred);
        Seq::filter_distributes_over_add(head.push(last), tail, pred);
        assert(states.filter(pred) == if pred(last) {
            front.filter(pred).push(last)
        } else {
            front.filter(pred)
        }) by {
            reveal(Seq::filter);
        }
        assert(head.push(last).filter(pred) == if pred(last) {
            head.filter(pred).push(last)
        } else {
            head.filter(pred)
        }) by {
            reveal(Seq::filter);
        }
        if pred(last) {
            assert forall|i: int| 0 <= i < tail.len() implies !pred(tail[i]) by {
                assert(tail[i] == earlier[slot + i]);
            }
            lemma_filter_nothing(tail, pred);
            assert(head.filter(pred) + Seq::<State>::empty() == head.filter(pred));
            assert(head.filter(pred).push(last) + Seq::<State>::empty() == head.filter(pred).push(
                last,
            ));
        }
    }
}

/// What a filter makes of the last state: it comes last among those that
/// pass, or not at all.
proof fn lemma_filter_last(states: Seq<State>, pred: spec_fn(State) -> bool)
    requires
        states.len() > 0,
    ensures
        states.filter(pred) == if pred(states.last()) {
            states.drop_last().filter(pred).push(states.last())
        } else {
            states.drop_last().filter(pred)
        },
{
    reveal(Seq::filter);
}

/// Ordered states that agree, for each point in time, on the states that
/// begin there and on their order, are the same states.
proof fn lemma_same_order(a: Seq<State>, b: Seq<State>)
    requires
        time_ordered(a),
        time_ordered(b),
        forall|t: Timestamp| states_at(a, t) == states_at(b, t),
    ensures
        a == b,
    decreases a.len(),
{
    if a.len() == 0 {
        if b.len() > 0 {
            let t = b[0].timestamp;
            assert(begins_at(t)(b[0]));
            if states_at(b, t).len() == 0 {
                b.lemma_filter_contains(begins_at(t), 0);
            }
            lemma_filter_nothing(a, begins_at(t));
            assert(states_at(a, t) == states_at(b, t));
        }
    } else {
        let m = a.last().timestamp;
        let pred = begins_at(m);
        assert(pred(a.last()));
        lemma_filter_last(a, pred);
        assert(states_at(a, m) == states_at(b, m));
        assert(states_at(a, m).len() > 0);
        assert(states_at(a, m).last() == a.last());
        if b.len() == 0 {
            lemma_filter_nothing(b, pred);
        }
        let n = b.last().timestamp;
        if n > m {
            assert forall|i: int| 0 <= i < a.len() implies !begins_at(n)(a[i]) by {
                assert(a[i].timestamp <= a[a.len() - 1].timestamp);
            }
            lemma_filter_nothing(a, begins_at(n));
            assert(begins_at(n)(b.last()));
            lemma_filter_last(b, begins_at(n));
            assert(states_at(b, n).len() > 0);
            assert(states_at(a, n) == states_at(b, n));
        }
        if n < m {
            assert forall|i: int| 0 <= i < b.len() implies !pred(b[i]) by {
                assert(b[i].timestamp <= b[b.len() - 1].timestamp);
            }
            lemma_filter_nothing(b, pred);
        }
        assert(n == m);
        lemma_filter_last(b, pred);
        let a_front = a.drop_last();
        let b_front = b.drop_last();
        assert(a_front.filter(pred).push(a.last()) == b_front.filter(pred).push(b.last()));
        assert(a.last() == b.last()) by {
            assert(a_front.filter(pred).push(a.last()).last() == a.last());
            assert(b_front.filter(pred).push(b.last()).last() == b.last());
        }
        assert(a_front.filter(pred) == b_front.filter(pred)) by {
            assert(a_front.filter(pred).push(a.last()).drop_last() == a_front.filter(pred));
            assert(b_front.filter(pred).push(b.last()).drop_last() == b_front.filter(pred));
        }
        assert forall|t: Timestamp| states_at(a_front, t) == states_at(b_front, t) by {
            if t != m {
                lemma_filter_last(a, begins_at(t));
                lemma_filter_last(b, begins_at(t));
                assert(states_at(a, t) == states_at(b, t));
            }
        }
        assert(time_ordered(a_front)) by {
            assert forall|i: int, j: int| 0 <= i <= j < a_front.len() implies a_front[i].timestamp
                <= a_front[j].timestamp by {
                assert(a[i].timestamp <= a[j].timestamp);
            }
        }
        assert(time_ordered(b_front)) by {
            assert forall|i: int, j: int| 0 <= i <= j < b_front.len() implies b_front[i].timestamp
                <= b_front[j].timestamp by {
                assert(b[i].timestamp <= b[j].timestamp);
            }
        }
        lemma_same_order(a_front, b_front);
        assert(a == a_front.push(a.last()));
        assert(b == b_front.push(b.last()));
    }
}

/// There is one way to order states by time that keeps, for each point in
/// time, the states that begin there in the order given, and sorting by time
/// is it.
pub proof fn lemma_sorted_is_the_stable_order(states: Seq<State>, ordered: Seq<State>)
    requires
        time_ordered(ordered),
        forall|t: Timestamp| states_at(ordered, t) == states_at(states, t),
    ensures
        ordered == time_sorted(states),
{
    lemma_sorted_is_ordered(states);
    assert forall|t: Timestamp| states_at(ordered, t) == states_at(time_sorted(states), t) by {
        lemma_sorted_is_stable(states, t);
        assert(states_at(ordered, t) == states_at(states, t));
    }
    lemma_same_order(ordered, time_sorted(states));
}

} // verus!
