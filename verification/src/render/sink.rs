//! The drawing sink: the parts of the `svg` crate that a rendering is made
//! with, and all that this library takes for granted about them.
//!
//! No contract in this file is proved. Each function below makes one call
//! into `svg`, and its contract says what that call does to the element or
//! path data it works on, in terms of [`Markup`] and [`PathCommand`].
//!
//! The sink keeps the numbers of a path data in single precision. An integer
//! of at most [`EXACT_LIMIT`] in magnitude is held as it is, and written in
//! decimal digits. A larger one is held as the nearest number of single
//! precision, which has a name here and no more, as has the text that the
//! sink makes of it.

use crate::text::decimal_text;
use svg::node::element::path::Data;
use svg::node::element::{Group, Path, Style, SVG};
use svg::Node;
use vstd::prelude::*;

verus! {

/// The largest magnitude up to which the sink holds every integer exactly:
/// it keeps the numbers of a path data in single precision.
pub const EXACT_LIMIT: i64 = 16_777_216;

/// Whether the sink holds the integer `v` exactly.
pub open spec fn exact(v: int) -> bool {
    -EXACT_LIMIT <= v <= EXACT_LIMIT
}

/// The integer that the sink keeps in place of an integer `v` beyond what it
/// holds exactly: the number of single precision next to `v`.
pub uninterp spec fn kept(v: int) -> int;

/// The integer that the sink holds when it is handed `v`: `v` itself where
/// that is exact.
pub open spec fn held(v: int) -> int {
    if exact(v) {
        v
    } else {
        kept(v)
    }
}

/// One command of a path data.
pub enum PathCommand {
    /// Lift the pen and put it down at the absolute position `(x, y)`.
    MoveTo { x: int, y: int },
    /// Draw a straight line from the pen's position to the point `(dx, dy)`
    /// away from it.
    LineBy { dx: int, dy: int },
}

/// The command as the sink holds it.
pub open spec fn held_command(command: PathCommand) -> PathCommand {
    match command {
        PathCommand::MoveTo { x, y } => PathCommand::MoveTo { x: held(x), y: held(y) },
        PathCommand::LineBy { dx, dy } => PathCommand::LineBy { dx: held(dx), dy: held(dy) },
    }
}

/// The commands as the sink holds them.
pub open spec fn held_commands(commands: Seq<PathCommand>) -> Seq<PathCommand> {
    Seq::new(commands.len(), |i: int| held_command(commands[i]))
}

/// Whether the sink holds each number of `commands` exactly.
pub open spec fn all_exact(commands: Seq<PathCommand>) -> bool {
    forall|i: int|
        0 <= i < commands.len() ==> match #[trigger] commands[i] {
            PathCommand::MoveTo { x, y } => exact(x) && exact(y),
            PathCommand::LineBy { dx, dy } => exact(dx) && exact(dy),
        }
}

/// The text of an integer: decimal digits, behind a minus sign where the
/// number is negative.
pub open spec fn number_text(n: int) -> Seq<char> {
    if n < 0 {
        "-"@ + decimal_text((-n) as nat)
    } else {
        decimal_text(n as nat)
    }
}

/// The text of a command: a letter for its kind, then its two numbers with a
/// comma between them.
pub open spec fn command_text(command: PathCommand) -> Seq<char> {
    match command {
        PathCommand::MoveTo { x, y } => "M"@ + number_text(x) + ","@ + number_text(y),
        PathCommand::LineBy { dx, dy } => "l"@ + number_text(dx) + ","@ + number_text(dy),
    }
}

/// The texts of `commands` with a space between each two.
pub open spec fn commands_text(commands: Seq<PathCommand>) -> Seq<char>
    decreases commands.len(),
{
    if commands.len() == 0 {
        Seq::empty()
    } else if commands.len() == 1 {
        command_text(commands[0])
    } else {
        commands_text(commands.drop_last()) + " "@ + command_text(commands.last())
    }
}

/// The text that the sink makes of a path data holding `commands` of which
/// some number is beyond what it holds exactly.
pub uninterp spec fn wide_data_text(commands: Seq<PathCommand>) -> Seq<char>;

/// The text that the sink makes of a path data holding `commands`, when the
/// data becomes the value of an attribute: where every number is one that
/// the sink holds exactly, the texts of the commands with a space between each
/// two.
pub open spec fn data_text(commands: Seq<PathCommand>) -> Seq<char> {
    if all_exact(commands) {
        commands_text(commands)
    } else {
        wide_data_text(commands)
    }
}

/// What the sink holds of a node: an element with its attributes and
/// children, or a run of text.
pub enum Markup {
    Element { tag: Seq<char>, attributes: Map<Seq<char>, Seq<char>>, children: Seq<Markup> },
    Text { content: Seq<char> },
}

impl Markup {
    /// The element `tag` without attributes or children.
    pub open spec fn element(tag: Seq<char>) -> Markup {
        Markup::Element { tag, attributes: Map::empty(), children: Seq::empty() }
    }

    /// This element with the attribute `name` set to `value`, in place of any
    /// value that it had.
    pub open spec fn with_attribute(self, name: Seq<char>, value: Seq<char>) -> Markup {
        match self {
            Markup::Element { tag, attributes, children } => Markup::Element {
                tag,
                attributes: attributes.insert(name, value),
                children,
            },
            Markup::Text { content } => self,
        }
    }

    /// This element with `child` behind its other children.
    pub open spec fn with_child(self, child: Markup) -> Markup {
        match self {
            Markup::Element { tag, attributes, children } => Markup::Element {
                tag,
                attributes,
                children: children.push(child),
            },
            Markup::Text { content } => self,
        }
    }
}

/// `svg::node::element::path::Data`, the data of a path: a list of commands.
#[verifier::external_type_specification]
#[verifier::external_body]
pub struct ExData(Data);

/// `svg::node::element::path::Command`, which a path data derefs to a slice
/// of. No function here takes or gives one.
#[verifier::external_type_specification]
#[verifier::external_body]
pub struct ExCommand(svg::node::element::path::Command);

/// `svg::node::element::Element`, which each kind of element derefs to. No
/// function here takes or gives one.
#[verifier::external_type_specification]
#[verifier::external_body]
pub struct ExElement(svg::node::element::Element);

/// `svg::node::element::Path`, a `path` element.
#[verifier::external_type_specification]
#[verifier::external_body]
pub struct ExPath(Path);

/// `svg::node::element::Group`, a `g` element.
#[verifier::external_type_specification]
#[verifier::external_body]
pub struct ExGroup(Group);

/// `svg::node::element::Style`, a `style` element.
#[verifier::external_type_specification]
#[verifier::external_body]
pub struct ExStyle(Style);

/// `svg::node::element::SVG`, an `svg` element: a whole document.
#[verifier::external_type_specification]
#[verifier::external_body]
pub struct ExDocument(SVG);

/// The commands that a path data holds, first to last: an absolute move to,
/// or a relative line by, two whole numbers as the command that it is. This
/// library puts no other command into a data; one would stand here as a
/// command with a number beyond what the sink holds exactly.
pub uninterp spec fn path_commands(data: Data) -> Seq<PathCommand>;

/// What a `path` element holds.
pub uninterp spec fn path_markup(path: Path) -> Markup;

/// What a `g` element holds.
pub uninterp spec fn group_markup(group: Group) -> Markup;

/// What a `style` element holds.
pub uninterp spec fn style_markup(style: Style) -> Markup;

/// What an `svg` element, a whole document, holds.
pub uninterp spec fn document_markup(document: SVG) -> Markup;

/// `Data::new`: a path data without commands.
#[verifier::external_body]
pub(crate) fn data_new() -> (data: Data)
    ensures
        path_commands(data) == Seq::<PathCommand>::empty(),
{
    Data::new()
}

/// `Data::move_to`: the data with an absolute move to `(x, y)` behind its
/// other commands. The sink keeps `x` and `y` in single precision: the command
/// holds them as they are where that is exact, and the nearest such number
/// beyond.
#[verifier::external_body]
pub(crate) fn data_move_to(data: Data, x: i64, y: i64) -> (moved: Data)
    ensures
        path_commands(moved) == path_commands(data).push(
            PathCommand::MoveTo {
                x: if exact(x as int) {
                    x as int
                } else {
                    kept(x as int)
                },
                y: if exact(y as int) {
                    y as int
                } else {
                    kept(y as int)
                },
            },
        ),
{
    data.move_to((x, y))
}

/// `Data::line_by`: the data with a relative line by `(dx, dy)` behind its
/// other commands. The sink keeps `dx` and `dy` in single precision: the
/// command holds them as they are where that is exact, and the nearest such
/// number beyond.
#[verifier::external_body]
pub(crate) fn data_line_by(data: Data, dx: i64, dy: i64) -> (drawn: Data)
    ensures
        path_commands(drawn) == path_commands(data).push(
            PathCommand::LineBy {
                dx: if exact(dx as int) {
                    dx as int
                } else {
                    kept(dx as int)
                },
                dy: if exact(dy as int) {
                    dy as int
                } else {
                    kept(dy as int)
                },
            },
        ),
{
    data.line_by((dx, dy))
}

/// `Path::new`: a `path` element without attributes or children.
#[verifier::external_body]
pub(crate) fn path_new() -> (path: Path)
    ensures
        path_markup(path) == Markup::element("path"@),
{
    Path::new()
}

/// `Path::set` with a text for the value: the element with the attribute
/// `name` set to `value`.
#[verifier::external_body]
pub(crate) fn path_set(path: Path, name: &str, value: &str) -> (set: Path)
    ensures
        path_markup(set) == path_markup(path).with_attribute(name@, value@),
{
    path.set(name, value)
}

/// `Path::set` with a path data for the value: the element with the attribute
/// `name` set to the text that the sink makes of the data. Where the data
/// holds no number but such as the sink holds exactly, that is the texts of
/// its commands with a space between each two.
#[verifier::external_body]
pub(crate) fn path_set_data(path: Path, name: &str, data: Data) -> (set: Path)
    ensures
        path_markup(set) == path_markup(path).with_attribute(
            name@,
            if all_exact(path_commands(data)) {
                commands_text(path_commands(data))
            } else {
                wide_data_text(path_commands(data))
            },
        ),
{
    path.set(name, data)
}

/// `Style::new`: a `style` element without attributes, whose one child is the
/// text `content`.
#[verifier::external_body]
pub(crate) fn style_new(content: &str) -> (style: Style)
    ensures
        style_markup(style) == Markup::element("style"@).with_child(
            Markup::Text { content: content@ },
        ),
{
    Style::new(content)
}

/// `Group::new`: a `g` element without attributes or children.
#[verifier::external_body]
pub(crate) fn group_new() -> (group: Group)
    ensures
        group_markup(group) == Markup::element("g"@),
{
    Group::new()
}

/// `Node::assign` on a `g` element: sets the attribute `name` to `value`.
#[verifier::external_body]
pub(crate) fn group_assign(group: &mut Group, name: &str, value: &str)
    ensures
        group_markup(*final(group)) == group_markup(*old(group)).with_attribute(name@, value@),
{
    group.assign(name, value)
}

/// `Group::set`: the element with the attribute `name` set to `value`.
#[verifier::external_body]
pub(crate) fn group_set(group: Group, name: &str, value: &str) -> (set: Group)
    ensures
        group_markup(set) == group_markup(group).with_attribute(name@, value@),
{
    group.set(name, value)
}

/// `Node::append` on a `g` element, with a `style` element: the style comes
/// behind the group's other children.
#[verifier::external_body]
pub(crate) fn group_append_style(group: &mut Group, style: Style)
    ensures
        group_markup(*final(group)) == group_markup(*old(group)).with_child(style_markup(style)),
{
    group.append(style)
}

/// `Node::append` on a `g` element, with a `path` element: the path comes
/// behind the group's other children.
#[verifier::external_body]
pub(crate) fn group_append_path(group: &mut Group, path: Path)
    ensures
        group_markup(*final(group)) == group_markup(*old(group)).with_child(path_markup(path)),
{
    group.append(path)
}

/// `SVG::new`: an `svg` element without children, whose one attribute names
/// the namespace of the vector format.
#[verifier::external_body]
pub(crate) fn document_new() -> (document: SVG)
    ensures
        document_markup(document) == Markup::element("svg"@).with_attribute(
            "xmlns"@,
            "http://www.w3.org/2000/svg"@,
        ),
{
    SVG::new()
}

/// `Node::assign` on an `svg` element: sets the attribute `name` to `value`.
#[verifier::external_body]
pub(crate) fn document_assign(document: &mut SVG, name: &str, value: &str)
    ensures
        document_markup(*final(document)) == document_markup(*old(document)).with_attribute(
            name@,
            value@,
        ),
{
    document.assign(name, value)
}

/// `Node::append` on an `svg` element, with a `g` element: the group comes
/// behind the document's other children.
#[verifier::external_body]
pub(crate) fn document_append_group(document: &mut SVG, group: Group)
    ensures
        document_markup(*final(document)) == document_markup(*old(document)).with_child(
            group_markup(group),
        ),
{
    document.append(group)
}

} // verus!
