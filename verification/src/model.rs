//! The data a template is made of, as plain values.

use vstd::prelude::*;

verus! {

/// Pixel size of the canvas.
#[derive(Clone, Copy, Debug, PartialEq, Eq)]
pub struct Size {
    pub width: u32,
    pub height: u32,
}

/// What a position's coordinates refer to.
///
/// `Layer(name)` is a request: the layer wants to sit where the layer called
/// `name` sits.
#[derive(Clone, Debug, PartialEq, Eq)]
pub enum RelativeTo {
    Canvas,
    Layer(String),
}

/// Mathematical value of a [`RelativeTo`]: the name as a sequence of characters.
pub enum Anchor {
    Canvas,
    Layer(Seq<char>),
}

impl View for RelativeTo {
    type V = Anchor;

    open spec fn view(&self) -> Anchor {
        match *self {
            RelativeTo::Canvas => Anchor::Canvas,
            RelativeTo::Layer(name) => Anchor::Layer(name@),
        }
    }
}

impl RelativeTo {
    /// An independent copy with the same view.
    pub fn duplicate(&self) -> (copy: RelativeTo)
        ensures
            copy@ == self@,
    {
        match self {
            RelativeTo::Canvas => RelativeTo::Canvas,
            RelativeTo::Layer(name) => RelativeTo::Layer(name.clone()),
        }
    }
}

/// Where a layer is drawn.
#[derive(Clone, Debug, PartialEq, Eq)]
pub struct Position {
    pub x: u32,
    pub y: u32,
    pub relative_to: RelativeTo,
}

/// Mathematical value of a [`Position`].
pub struct Placement {
    pub x: int,
    pub y: int,
    pub anchor: Anchor,
}

impl View for Position {
    type V = Placement;

    open spec fn view(&self) -> Placement {
        Placement { x: self.x as int, y: self.y as int, anchor: self.relative_to@ }
    }
}

impl Position {
    /// An independent copy with the same view.
    pub fn duplicate(&self) -> (copy: Position)
        ensures
            copy@ == self@,
    {
        Position { x: self.x, y: self.y, relative_to: self.relative_to.duplicate() }
    }
}

/// The views of a sequence of positions, index by index.
pub open spec fn placements(positions: Seq<Position>) -> Seq<Placement> {
    Seq::new(positions.len(), |i: int| positions[i]@)
}

/// Where a position is anchored unless it says otherwise: on the canvas.
pub fn default_relative_to() -> (anchor: RelativeTo)
    ensures
        anchor == RelativeTo::Canvas,
{
    RelativeTo::Canvas
}

/// Horizontal placement of a layer.
#[derive(Clone, Copy, Debug, PartialEq, Eq)]
pub enum HorizontalAlign {
    Left,
    Center,
    Right,
}

/// Vertical placement of a layer.
#[derive(Clone, Copy, Debug, PartialEq, Eq)]
pub enum VerticalAlign {
    Top,
    Middle,
    Bottom,
    Below,
    Above,
}

/// How heavy a font is.
#[derive(Clone, Copy, Debug, PartialEq, Eq)]
pub enum FontWeight {
    Normal,
    Bold,
    Weight100,
    Weight200,
    Weight300,
    Weight400,
    Weight500,
    Weight600,
    Weight700,
    Weight800,
    Weight900,
}

impl FontWeight {
    /// The weight on the usual scale from 100 (thin) to 900 (black).
    pub open spec fn scale_value(self) -> int {
        match self {
            FontWeight::Normal => 400,
            FontWeight::Bold => 700,
            FontWeight::Weight100 => 100,
            FontWeight::Weight200 => 200,
            FontWeight::Weight300 => 300,
            FontWeight::Weight400 => 400,
            FontWeight::Weight500 => 500,
            FontWeight::Weight600 => 600,
            FontWeight::Weight700 => 700,
            FontWeight::Weight800 => 800,
            FontWeight::Weight900 => 900,
        }
    }

    /// The numeric weight a font lookup is made with.
    pub fn to_weight_value(&self) -> (value: u16)
        ensures
            value == self.scale_value(),
            100 <= value <= 900,
            value % 100 == 0,
    {
        match self {
            FontWeight::Normal => 400,
            FontWeight::Bold => 700,
            FontWeight::Weight100 => 100,
            FontWeight::Weight200 => 200,
            FontWeight::Weight300 => 300,
            FontWeight::Weight400 => 400,
            FontWeight::Weight500 => 500,
            FontWeight::Weight600 => 600,
            FontWeight::Weight700 => 700,
            FontWeight::Weight800 => 800,
            FontWeight::Weight900 => 900,
        }
    }
}

/// The slant of a font.
#[derive(Clone, Copy, Debug, PartialEq, Eq)]
pub enum FontStyle {
    Normal,
    Italic,
    Oblique,
}

/// A line drawn with a piece of text. Plain text has none.
#[derive(Clone, Copy, Debug, PartialEq, Eq)]
pub enum FontDecoration {
    Plain,
    Underline,
    LineThrough,
    Overline,
}

/// On which side of its position a piece of text lies.
#[derive(Clone, Copy, Debug, PartialEq, Eq)]
pub enum TextAlignment {
    Left,
    Center,
    Right,
}

/// How the words of a text layer are spread.
#[derive(Clone, Copy, Debug, PartialEq, Eq)]
pub enum TextJustification {
    Left,
    Center,
    Right,
    Justify,
}

/// The weight of a font that names none.
pub fn default_font_weight() -> (weight: FontWeight)
    ensures
        weight == FontWeight::Normal,
{
    FontWeight::Normal
}

/// The style of a font that names none.
pub fn default_font_style() -> (style: FontStyle)
    ensures
        style == FontStyle::Normal,
{
    FontStyle::Normal
}

/// The decoration of a font that names none.
pub fn default_font_decoration() -> (decoration: FontDecoration)
    ensures
        decoration == FontDecoration::Plain,
{
    FontDecoration::Plain
}

/// The justification of a text layer that names none.
pub fn default_text_justification() -> (justification: TextJustification)
    ensures
        justification == TextJustification::Left,
{
    TextJustification::Left
}

/// How the members of a group are arranged.
#[derive(Clone, Copy, Debug, PartialEq, Eq)]
pub enum LayoutType {
    Vertical,
    Horizontal,
    Grid,
}

/// The point a group is laid out from.
#[derive(Clone, Copy, Debug, PartialEq, Eq)]
pub struct GroupPosition {
    pub x: u32,
    pub y: u32,
}

/// A per-axis way of sharing out free space. Where one is set for an axis it
/// takes the place of the group's justification on that axis.
#[derive(Clone, Copy, Debug, PartialEq, Eq)]
pub enum DistributionMode {
    SpaceBetween,
    SpaceAround,
    SpaceEvenly,
}

/// The frame a group is laid out in.
#[derive(Clone, Copy, Debug, PartialEq, Eq)]
pub struct DistributionBounds {
    pub width: u32,
    pub height: u32,
}

/// How a group shares out free space: a mode for either axis and the
/// bounds of the container, each of which may be left out.
#[derive(Clone, Copy, Debug, PartialEq, Eq)]
pub struct DistributionConfig {
    pub horizontal: Option<DistributionMode>,
    pub vertical: Option<DistributionMode>,
    pub bounds: Option<DistributionBounds>,
}

/// How a group and its items are aligned in the container.
#[derive(Clone, Copy, Debug, PartialEq, Eq)]
pub enum GroupAlignment {
    Left,
    Center,
    Right,
    Top,
    Bottom,
}

/// How the free space along a line of items is shared out.
#[derive(Clone, Copy, Debug, PartialEq, Eq)]
pub enum GroupJustification {
    Start,
    Center,
    End,
    SpaceBetween,
    SpaceAround,
    SpaceEvenly,
}

/// The alignment of a group that names none.
pub fn default_group_alignment() -> (alignment: GroupAlignment)
    ensures
        alignment == GroupAlignment::Left,
{
    GroupAlignment::Left
}

/// The justification of a group that names none.
pub fn default_group_justification() -> (justification: GroupJustification)
    ensures
        justification == GroupJustification::Start,
{
    GroupJustification::Start
}

/// The spacing of a group that names none.
pub fn default_spacing() -> (spacing: u32)
    ensures
        spacing == 0,
{
    0
}

/// The number of columns of a group that names none.
pub fn default_columns() -> (columns: u32)
    ensures
        columns == 1,
{
    1
}

/// The layout policy of one group.
#[derive(Clone, Copy, Debug, PartialEq, Eq)]
pub struct GroupLayout {
    pub layout_type: LayoutType,
    pub position: GroupPosition,
    pub spacing: u32,
    pub columns: u32,
    pub distribution: Option<DistributionConfig>,
    pub alignment: GroupAlignment,
    pub justification: GroupJustification,
}

impl GroupLayout {
    /// A policy of the given kind at the given point with every other setting
    /// at its default: no spacing, one column, no distribution, aligned left,
    /// justified at the start.
    pub fn new(layout_type: LayoutType, position: GroupPosition) -> (layout: GroupLayout)
        ensures
            layout == (GroupLayout {
                layout_type,
                position,
                spacing: 0,
                columns: 1,
                distribution: None,
                alignment: GroupAlignment::Left,
                justification: GroupJustification::Start,
            }),
    {
        GroupLayout {
            layout_type,
            position,
            spacing: default_spacing(),
            columns: default_columns(),
            distribution: None,
            alignment: default_group_alignment(),
            justification: default_group_justification(),
        }
    }
}

/// Name of a layer and the position it declares for itself, if any.
#[derive(Clone, Debug, PartialEq, Eq)]
pub struct LayerInfo {
    pub name: String,
    pub position: Option<Position>,
}

/// One of the two directions of the canvas.
#[derive(Clone, Copy, Debug, PartialEq, Eq, Structural)]
pub enum Axis {
    Horizontal,
    Vertical,
}

impl Axis {
    /// The other direction.
    pub open spec fn cross(self) -> Axis {
        match self {
            Axis::Horizontal => Axis::Vertical,
            Axis::Vertical => Axis::Horizontal,
        }
    }

    /// See [`Axis::cross`].
    pub fn other(&self) -> (axis: Axis)
        ensures
            axis == self.cross(),
    {
        match self {
            Axis::Horizontal => Axis::Vertical,
            Axis::Vertical => Axis::Horizontal,
        }
    }
}

/// Rendered size of a layer in pixels.
#[derive(Clone, Copy, Debug, PartialEq, Eq)]
pub struct LayerDimensions {
    pub width: u32,
    pub height: u32,
}

impl LayerDimensions {
    /// The size along `axis`: the width along the horizontal one, the height
    /// along the vertical one.
    pub open spec fn along(self, axis: Axis) -> int {
        match axis {
            Axis::Horizontal => self.width as int,
            Axis::Vertical => self.height as int,
        }
    }

    /// See [`LayerDimensions::along`].
    pub fn length(&self, axis: Axis) -> (length: u32)
        ensures
            length == self.along(axis),
    {
        match axis {
            Axis::Horizontal => self.width,
            Axis::Vertical => self.height,
        }
    }
}

/// A layer as the layout sees it: who it is and how large it is.
#[derive(Clone, Debug, PartialEq, Eq)]
pub struct MeasuredLayer {
    pub info: LayerInfo,
    pub dimensions: LayerDimensions,
}

/// The sizes of the items along `axis`, in order.
pub open spec fn lengths(items: Seq<MeasuredLayer>, axis: Axis) -> Seq<int> {
    Seq::new(items.len(), |i: int| items[i].dimensions.along(axis))
}

/// The names of the items, in order.
pub open spec fn names(items: Seq<MeasuredLayer>) -> Seq<Seq<char>> {
    Seq::new(items.len(), |i: int| items[i].info.name@)
}

} // verus!
