//! Rendering as a vector drawing: the renderer that composes the waves of a
//! diagram into a document, and the document that it is to make.

use crate::diagram::{Signal, State, TimingDiagram};
use crate::render::planner::WavePlanner;
use crate::render::sink::{
    data_text, document_append_group, document_assign, document_markup, document_new,
    group_append_path, group_append_style, group_assign, group_markup, group_new, group_set,
    held_commands, path_markup, path_set, style_new, Markup,
};
use crate::render::wave::{
    height_of, lemma_planned_nothing, lemma_planned_step, lemma_unsupported_value_fails,
    lemma_wave_failure_of_prefix, planned, wave_commands, wave_failure, ValueError,
    TRANSITION_TIME,
};
use svg::node::element::{Group, Path, SVG};
use vstd::prelude::*;

verus! {

/// A failure of the vector renderer.
#[derive(Debug)]
pub enum SvgError {
    /// A state of the diagram cannot be drawn.
    ValueError(ValueError),
    /// The document could not be written; the text says why.
    IoError(String),
}

impl SvgError {
    /// What the failure says of itself.
    pub open spec fn message_text(self) -> Seq<char> {
        match self {
            SvgError::ValueError(failure) => failure.message_text(),
            SvgError::IoError(reason) => "IO error: "@ + reason@,
        }
    }

    /// A description of the failure, for the one who reads the report.
    pub fn message(&self) -> (message: String)
        ensures
            message@ == self.message_text(),
    {
        match self {
            SvgError::ValueError(failure) => failure.message(),
            SvgError::IoError(reason) => String::from_str("IO error: ").concat(reason.as_str()),
        }
    }
}

/// The style that every wave is drawn in.
pub const WAVE_STYLE: &'static str =
    ".wave {fill: none; stroke: black; stroke-width: 0.5;}.wave:hover{stroke: black;}";

/// A document as the sink makes it, before anything is drawn in it.
pub open spec fn blank_document() -> Markup {
    Markup::element("svg"@).with_attribute("xmlns"@, "http://www.w3.org/2000/svg"@)
}

/// The `path` element of one wave: its data as the sink holds it, its style
/// class, and the flip that puts the high level above the low one on a canvas
/// whose y axis points down.
pub open spec fn wave_markup(states: Seq<State>) -> Markup {
    Markup::element("path"@).with_attribute(
        "d"@,
        data_text(held_commands(wave_commands(states, TRANSITION_TIME as int))),
    ).with_attribute("class"@, "wave"@).with_attribute("transform"@, "scale(1, -1)"@)
}

/// The group of the waves of `signals`: the style first, then one wave for
/// each signal, in their order.
pub open spec fn waves_markup(signals: Seq<Signal>) -> Markup {
    Markup::Element {
        tag: "g"@,
        attributes: Map::empty().insert("id"@, "waves"@),
        children: seq![
            Markup::element("style"@).with_child(Markup::Text { content: WAVE_STYLE@ }),
        ] + Seq::new(signals.len(), |i: int| wave_markup(signals[i]@.states)),
    }
}

/// The document `document` with the waves of `signals` drawn in it: the
/// frame of the canvas, and the group of the waves moved into it.
pub open spec fn drawn_document(document: Markup, signals: Seq<Signal>) -> Markup {
    document.with_attribute("viewBox"@, "0 0 100 100"@).with_child(
        waves_markup(signals).with_attribute("transform"@, "translate(10, 20)"@),
    )
}

/// Why the waves of `signals` cannot be drawn, if they cannot: the failure of
/// the first signal whose wave has one. One such signal fails the whole
/// drawing.
pub open spec fn waves_failure(signals: Seq<Signal>) -> Option<ValueError>
    decreases signals.len(),
{
    if signals.len() == 0 {
        None
    } else {
        match waves_failure(signals.drop_last()) {
            Some(failure) => Some(failure),
            None => wave_failure(signals.last()@.states, TRANSITION_TIME as int),
        }
    }
}

/// The waves of a diagram fail as those of its first signals do, where those
/// fail.
pub proof fn lemma_waves_failure_of_prefix(signals: Seq<Signal>, count: int)
    requires
        0 <= count <= signals.len(),
        waves_failure(signals.take(count)) is Some,
    ensures
        waves_failure(signals) == waves_failure(signals.take(count)),
    decreases signals.len(),
{
    if count == signals.len() {
        assert(signals.take(count) == signals);
    } else {
        assert(signals.drop_last().take(count) == signals.take(count));
        lemma_waves_failure_of_prefix(signals.drop_last(), count);
    }
}

/// A diagram with a state whose level has no height cannot be drawn.
pub proof fn lemma_unsupported_value_fails_waves(signals: Seq<Signal>, i: int, k: int)
    requires
        0 <= i < signals.len(),
        0 <= k < signals[i]@.states.len(),
        height_of(signals[i]@.states[k].value) is None,
    ensures
        waves_failure(signals) is Some,
{
    let upto = signals.take(i + 1);
    assert(upto.last() == signals[i]);
    lemma_unsupported_value_fails(
        signals[i]@.states,
        TRANSITION_TIME as int,
        k,
    );
    lemma_waves_failure_of_prefix(signals, i + 1);
}

/// What a renderer holds: the signals to draw, and the document to draw them
/// in.
pub struct RendererView {
    pub signals: Seq<Signal>,
    pub document: Markup,
}

/// Renders a diagram as a vector drawing.
pub struct RendererSvg<'d> {
    diagram: &'d TimingDiagram,
    svg: SVG,
}

impl<'d> View for RendererSvg<'d> {
    type V = RendererView;

    closed spec fn view(&self) -> RendererView {
        RendererView { signals: self.diagram@, document: document_markup(self.svg) }
    }
}

impl<'d> RendererSvg<'d> {
    /// A renderer for `diagram`, with a blank document.
    pub fn new(diagram: &'d TimingDiagram) -> (renderer: Self)
        ensures
            renderer@ == (RendererView { signals: diagram@, document: blank_document() }),
    {
        Self { diagram, svg: document_new() }
    }

    /// The group of the waves of `signals`, each planned by a planner of its
    /// own. The first state that cannot be drawn fails the whole group.
    fn render_waves(&self, signals: &[Signal]) -> (outcome: Result<Group, ValueError>)
        ensures
            match waves_failure(signals@) {
                None => outcome matches Ok(waves) && group_markup(waves) == waves_markup(
                    signals@,
                ),
                Some(failure) => outcome matches Err(reported) && reported == failure,
            },
    {
        let mut waves = group_new();
        group_assign(&mut waves, "id", "waves");
        group_append_style(&mut waves, style_new(WAVE_STYLE));
        let mut i: usize = 0;
        assert(group_markup(waves) == waves_markup(signals@.take(0)));
        while i < signals.len()
            invariant
                i <= signals.len(),
                waves_failure(signals@.take(i as int)) is None,
                group_markup(waves) == waves_markup(signals@.take(i as int)),
            decreases signals.len() - i,
        {
            let ghost upto = signals@.take(i + 1);
            assert(upto.drop_last() == signals@.take(i as int));
            assert(upto.last() == signals[i as int]);
            let wave = match plan_wave(&signals[i]) {
                Ok(wave) => wave,
                Err(failure) => {
                    proof {
                        lemma_waves_failure_of_prefix(signals@, i + 1);
                    }
                    return Err(failure);
                },
            };
            let wave = path_set(path_set(wave, "class", "wave"), "transform", "scale(1, -1)");
            group_append_path(&mut waves, wave);
            assert(group_markup(waves) == waves_markup(upto)) by {
                let before = waves_markup(signals@.take(i as int))->children;
                let after = waves_markup(upto)->children;
                assert(after == before.push(wave_markup(signals[i as int]@.states)));
            }
            i += 1;
        }
        assert(signals@.take(signals.len() as int) == signals@);
        Ok(waves)
    }

    /// The document with the diagram drawn in it: the frame of the canvas, and
    /// the group of the waves. A state that cannot be drawn fails the whole
    /// diagram, with the failure of the first such state.
    pub fn render(self) -> (outcome: Result<SVG, SvgError>)
        ensures
            match waves_failure(self@.signals) {
                None => outcome matches Ok(document) && document_markup(document)
                    == drawn_document(self@.document, self@.signals),
                Some(failure) => outcome matches Err(SvgError::ValueError(reported))
                    && reported == failure,
            },
    {
        let mut renderer = self;
        document_assign(&mut renderer.svg, "viewBox", "0 0 100 100");
        let signals = renderer.diagram.signals();
        let waves = match renderer.render_waves(signals) {
            Ok(waves) => waves,
            Err(failure) => {
                return Err(SvgError::ValueError(failure));
            },
        };
        let waves = group_set(waves, "transform", "translate(10, 20)");
        document_append_group(&mut renderer.svg, waves);
        Ok(renderer.svg)
    }
}

/// The `path` element of the wave of one signal, planned by a fresh planner.
fn plan_wave(signal: &Signal) -> (outcome: Result<Path, ValueError>)
    ensures
        match wave_failure(signal@.states, TRANSITION_TIME as int) {
            None => outcome matches Ok(wave) && path_markup(wave) == Markup::element(
                "path"@,
            ).with_attribute(
                "d"@,
                data_text(held_commands(wave_commands(signal@.states, TRANSITION_TIME as int))),
            ),
            Some(failure) => outcome matches Err(reported) && reported == failure,
        },
{
    let states = signal.states();
    let mut planner = WavePlanner::default();
    let mut i: usize = 0;
    proof {
        lemma_planned_nothing(TRANSITION_TIME as int);
        assert(states@.take(0) == Seq::<State>::empty());
    }
    while i < states.len()
        invariant
            i <= states.len(),
            states@ == signal@.states,
            wave_failure(states@.take(i as int), TRANSITION_TIME as int) is None,
            planner@ == planned(states@.take(i as int), TRANSITION_TIME as int),
        decreases states.len() - i,
    {
        proof {
            lemma_planned_step(states@.take(i as int), TRANSITION_TIME as int, states[i as int]);
            assert(states@.take(i as int).push(states[i as int]) == states@.take(i + 1));
        }
        match planner.add_state(&states[i]) {
            Ok(()) => {},
            Err(failure) => {
                proof {
                    lemma_wave_failure_of_prefix(states@, TRANSITION_TIME as int, i + 1);
                }
                return Err(failure);
            },
        }
        i += 1;
    }
    assert(states@.take(states.len() as int) == states@);
    Ok(planner.render())
}

} // verus!
