//! Rendering of a timing diagram: the choice of the output format by the
//! extension of the output path, and the document that the format's renderer
//! makes. Writing the document is left to the caller.

pub mod planner;
pub mod render_svg;
pub mod sink;
pub mod wave;

use crate::diagram::{Signal, TimingDiagram};
use crate::render::render_svg::{
    blank_document, drawn_document, lemma_unsupported_value_fails_waves, waves_failure,
    RendererSvg, SvgError,
};
use crate::render::sink::document_markup;
use crate::render::wave::height_of;
use svg::node::element::SVG;
use vstd::prelude::*;

verus! {

/// A format that a diagram can be rendered in.
#[derive(Debug, Clone, Copy, PartialEq, Eq, Structural)]
pub enum OutputFormat {
    /// A vector drawing.
    Svg,
}

/// An output path that names no format to render in.
#[derive(Debug)]
pub enum ConfigurationError {
    /// The path has no extension.
    NoExtension,
    /// The path has this extension, which no format goes by.
    InvalidExtension(String),
}

/// A failed rendering.
#[derive(Debug)]
pub enum RenderError {
    /// The output path names no format.
    Configuration(ConfigurationError),
    /// The renderer of the vector format failed.
    Svg(SvgError),
}

impl ConfigurationError {
    /// What the failure says of itself.
    pub open spec fn message_text(self) -> Seq<char> {
        match self {
            ConfigurationError::NoExtension => "no output extension provided"@,
            ConfigurationError::InvalidExtension(extension) => "invalid output extension '"@
                + extension@ + "'"@,
        }
    }

    /// A description of the failure, for the one who reads the report.
    pub fn message(&self) -> (message: String)
        ensures
            message@ == self.message_text(),
    {
        match self {
            ConfigurationError::NoExtension => String::from_str("no output extension provided"),
            ConfigurationError::InvalidExtension(extension) => String::from_str(
                "invalid output extension '",
            ).concat(extension.as_str()).concat("'"),
        }
    }
}

impl RenderError {
    /// What the failure says of itself.
    pub open spec fn message_text(self) -> Seq<char> {
        match self {
            RenderError::Configuration(failure) => failure.message_text(),
            RenderError::Svg(failure) => failure.message_text(),
        }
    }

    /// A description of the failure, for the one who reads the report.
    pub fn message(&self) -> (message: String)
        ensures
            message@ == self.message_text(),
    {
        match self {
            RenderError::Configuration(failure) => failure.message(),
            RenderError::Svg(failure) => failure.message(),
        }
    }
}

/// Whether `extension` can be the extension of `path` on some platform: it
/// has no dot, stands in the path right behind a dot, and ends where the path
/// ends or a separator follows.
pub open spec fn extension_in(path: Seq<char>, extension: Seq<char>) -> bool {
    &&& !extension.contains('.')
    &&& exists|at: int|
        {
            &&& 0 < at
            &&& at + extension.len() <= path.len()
            &&& path[at - 1] == '.'
            &&& #[trigger] path.subrange(at, at + extension.len()) == extension
            &&& at + extension.len() < path.len() ==> path[at + extension.len()] == '/' || path[at
                + extension.len()] == '\\'
        }
}

/// Whether `path` is a plain file name: no separator of any platform is in it,
/// nor the colon that ends a drive.
pub open spec fn plain_name(path: Seq<char>) -> bool {
    !path.contains('/') && !path.contains('\\') && !path.contains(':')
}

/// The index of the last dot in `name`, and `-1` where it has none.
pub open spec fn last_dot(name: Seq<char>) -> int
    decreases name.len(),
{
    if name.len() == 0 {
        -1
    } else if name.last() == '.' {
        name.len() - 1
    } else {
        last_dot(name.drop_last())
    }
}

/// The extension of a plain file name: what follows its last dot, unless the
/// name has no dot, has its only dot in front, or is the name `..` of the
/// directory above.
pub open spec fn plain_extension(name: Seq<char>) -> Option<Seq<char>> {
    if name == seq!['.', '.'] || last_dot(name) <= 0 {
        None
    } else {
        Some(name.subrange(last_dot(name) + 1, name.len() as int))
    }
}

/// What an extension is in contracts: its characters, if there is one.
pub open spec fn extension_view(extension: Option<&str>) -> Option<Seq<char>> {
    match extension {
        Some(extension) => Some(extension@),
        None => None,
    }
}

/// Whether `outcome` is what rendering `signals` gives for an output path
/// with `extension`.
///
/// Without an extension, or with one other than `svg`, the rendering fails
/// before anything is drawn. With `svg` it fails as the first state that
/// cannot be drawn, and else gives the document with all the waves.
pub open spec fn rendered(
    outcome: Result<SVG, RenderError>,
    signals: Seq<Signal>,
    extension: Option<Seq<char>>,
) -> bool {
    match extension {
        None => outcome matches Err(RenderError::Configuration(ConfigurationError::NoExtension)),
        Some(extension) => if extension != "svg"@ {
            outcome matches Err(
                RenderError::Configuration(ConfigurationError::InvalidExtension(invalid)),
            ) && invalid@ == extension
        } else {
            match waves_failure(signals) {
                Some(failure) => outcome matches Err(
                    RenderError::Svg(SvgError::ValueError(reported)),
                ) && reported == failure,
                None => outcome matches Ok(document) && document_markup(document)
                    == drawn_document(blank_document(), signals),
            }
        },
    }
}

/// Whether `outcome` is what rendering `signals` for the output path `path`
/// gives.
///
/// For a plain file name it is what rendering gives for the name's extension.
/// For a path with directories or a drive in it, which part is the extension
/// is the platform's call: the outcome is what rendering gives for some
/// extension that the path can have, or for none.
pub open spec fn rendered_for(
    outcome: Result<SVG, RenderError>,
    signals: Seq<Signal>,
    path: Seq<char>,
) -> bool {
    &&& plain_name(path) ==> rendered(outcome, signals, plain_extension(path))
    &&& exists|extension: Option<Seq<char>>|
        {
            &&& extension matches Some(found) ==> extension_in(path, found)
            &&& #[trigger] rendered(outcome, signals, extension)
        }
}

/// No path renders in a format that its extension does not name: with an
/// extension other than `svg`, or with none, rendering fails with a
/// configuration error, whatever the signals hold.
pub proof fn lemma_other_extension_is_refused(
    outcome: Result<SVG, RenderError>,
    signals: Seq<Signal>,
    extension: Option<Seq<char>>,
)
    requires
        rendered(outcome, signals, extension),
        extension != Some("svg"@),
    ensures
        outcome matches Err(RenderError::Configuration(_)),
{
}

/// A state whose level has no height fails the rendering of the diagram that
/// holds it, with a value error.
pub proof fn lemma_unsupported_value_is_reported(
    outcome: Result<SVG, RenderError>,
    signals: Seq<Signal>,
    i: int,
    k: int,
)
    requires
        rendered(outcome, signals, Some("svg"@)),
        0 <= i < signals.len(),
        0 <= k < signals[i]@.states.len(),
        height_of(signals[i]@.states[k].value) is None,
    ensures
        outcome matches Err(RenderError::Svg(SvgError::ValueError(_))),
{
    lemma_unsupported_value_fails_waves(signals, i, k);
}

/// `std::path::Path::extension`, for a path given as text: the extension of
/// the path's file name, without its dot, if it has one. The file name is the
/// last part of the path, and the extension is what follows the last dot of
/// the file name, unless the only dot stands in front.
///
/// A plain file name is its own file name on every platform, but for `..`,
/// which names the directory above and is no file name. What counts as the
/// file name of another path depends on the platform; on each, the file name
/// ends where the path or a part of it ends, so that the extension is a part
/// of the path without a dot in it, behind a dot and before a separator or
/// the end.
#[verifier::external_body]
fn path_extension(path: &str) -> (extension: Option<String>)
    ensures
        extension matches Some(found) ==> extension_in(path@, found@),
        plain_name(path@) ==> match extension {
            Some(found) => plain_extension(path@) == Some(found@),
            None => plain_extension(path@) is None,
        },
{
    match std::path::Path::new(path).extension() {
        Some(extension) => match extension.to_str() {
            Some(text) => Some(text.to_owned()),
            None => None,
        },
        None => None,
    }
}

/// The format that goes by `extension`: the vector format for `svg`, and none
/// for any other extension or for a missing one.
pub fn output_format(extension: Option<&str>) -> (format: Result<OutputFormat, ConfigurationError>)
    ensures
        match extension {
            None => format matches Err(ConfigurationError::NoExtension),
            Some(extension) => if extension@ == "svg"@ {
                format matches Ok(OutputFormat::Svg)
            } else {
                format matches Err(ConfigurationError::InvalidExtension(invalid)) && invalid@
                    == extension@
            },
        },
{
    match extension {
        Some(extension) => {
            let extension = extension.to_owned();
            if extension == "svg".to_owned() {
                Ok(OutputFormat::Svg)
            } else {
                Err(ConfigurationError::InvalidExtension(extension))
            }
        },
        None => Err(ConfigurationError::NoExtension),
    }
}

/// Renders `diagram` in the format that goes by `extension`.
///
/// The extension is looked at first: where it names no format, nothing is
/// drawn. One state that cannot be drawn fails the whole diagram.
pub fn render_with_extension(diagram: &TimingDiagram, extension: Option<&str>) -> (outcome: Result<
    SVG,
    RenderError,
>)
    ensures
        rendered(outcome, diagram@, extension_view(extension)),
{
    match output_format(extension) {
        Ok(OutputFormat::Svg) => match RendererSvg::new(diagram).render() {
            Ok(document) => Ok(document),
            Err(failure) => Err(RenderError::Svg(failure)),
        },
        Err(failure) => Err(RenderError::Configuration(failure)),
    }
}

/// Renders `diagram` for the output path `path`, in the format that the
/// path's extension names, and gives the document to write there.
///
/// Which part of the path is its extension is the platform's call, so the
/// outcome is stated for whatever extension was found.
pub fn render(diagram: &TimingDiagram, path: &str) -> (outcome: Result<SVG, RenderError>)
    ensures
        rendered_for(outcome, diagram@, path@),
{
    let extension = path_extension(path);
    let outcome = match &extension {
        Some(found) => render_with_extension(diagram, Some(found.as_str())),
        None => render_with_extension(diagram, None),
    };
    proof {
        let found = match extension {
            Some(found) => Some(found@),
            None => None,
        };
        assert(rendered(outcome, diagram@, found));
    }
    outcome
}

} // verus!
