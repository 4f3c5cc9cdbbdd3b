//! Colors, text styles and layout styles.

use vstd::prelude::*;

verus! {

/// A terminal color.
#[derive(Clone, Copy, Debug, PartialEq, Eq, Structural)]
pub enum Color {
    Reset,
    Black,
    DarkGrey,
    Red,
    DarkRed,
    Green,
    DarkGreen,
    Yellow,
    DarkYellow,
    Blue,
    DarkBlue,
    Magenta,
    DarkMagenta,
    Cyan,
    DarkCyan,
    White,
    Grey,
    Rgb { r: u8, g: u8, b: u8 },
    AnsiValue(u8),
}

/// The weight of text.
#[derive(Clone, Copy, Debug, PartialEq, Eq, Structural)]
pub enum Weight {
    Normal,
    Bold,
    Light,
}

/// The shape of an underline.
#[derive(Clone, Copy, Debug, PartialEq, Eq, Structural)]
pub enum UnderlineStyle {
    Single,
    Double,
    Curly,
    Dotted,
    Dashed,
}

/// The style of a text cell.
#[derive(Clone, Copy, Debug, PartialEq, Eq, Structural)]
pub struct CanvasTextStyle {
    pub color: Option<Color>,
    pub weight: Weight,
    pub underline: bool,
    pub underline_style: UnderlineStyle,
    pub underline_color: Option<Color>,
    pub italic: bool,
    pub blink: bool,
    pub hidden: bool,
    pub strikethrough: bool,
    pub overline: bool,
    pub invert: bool,
}

/// The style of text that nothing was asked of.
pub open spec fn plain_style() -> CanvasTextStyle {
    CanvasTextStyle {
        color: None,
        weight: Weight::Normal,
        underline: false,
        underline_style: UnderlineStyle::Single,
        underline_color: None,
        italic: false,
        blink: false,
        hidden: false,
        strikethrough: false,
        overline: false,
        invert: false,
    }
}

impl Default for CanvasTextStyle {
    fn default() -> (r: Self)
        ensures
            r == plain_style(),
    {
        CanvasTextStyle {
            color: None,
            weight: Weight::Normal,
            underline: false,
            underline_style: UnderlineStyle::Single,
            underline_color: None,
            italic: false,
            blink: false,
            hidden: false,
            strikethrough: false,
            overline: false,
            invert: false,
        }
    }
}

/// A set of the four edges of a box.
#[derive(Clone, Copy, Debug, PartialEq, Eq, Structural)]
pub struct Edges {
    pub top: bool,
    pub right: bool,
    pub bottom: bool,
    pub left: bool,
}

impl Edges {
    /// All four edges.
    pub fn all() -> (r: Self)
        ensures
            r == (Edges { top: true, right: true, bottom: true, left: true }),
    {
        Edges { top: true, right: true, bottom: true, left: true }
    }
}

/// A width or a height.
#[derive(Clone, Copy, Debug, PartialEq, Eq, Structural)]
pub enum Dimension {
    /// As large as the content asks for.
    Auto,
    /// A number of cells.
    Length(usize),
    /// A percentage of the parent.
    Percent(u8),
}

/// The direction in which children are laid out.
#[derive(Clone, Copy, Debug, PartialEq, Eq, Structural)]
pub enum FlexDirection {
    Row,
    Column,
}

/// Where children stand along the layout direction.
#[derive(Clone, Copy, Debug, PartialEq, Eq, Structural)]
pub enum JustifyContent {
    FlexStart,
    FlexEnd,
}

/// What happens to content that does not fit.
#[derive(Clone, Copy, Debug, PartialEq, Eq, Structural)]
pub enum Overflow {
    Visible,
    Hidden,
}

/// How a box is placed.
#[derive(Clone, Copy, Debug, PartialEq, Eq, Structural)]
pub enum Position {
    Relative,
    Absolute,
}

/// How a box is laid out.
#[derive(Clone, Copy, Debug, PartialEq, Eq, Structural)]
pub struct LayoutStyle {
    pub width: Dimension,
    pub height: Dimension,
    pub min_height: Dimension,
    pub flex_direction: FlexDirection,
    pub flex_grow: u32,
    pub flex_shrink: u32,
    pub justify_content: JustifyContent,
    pub overflow: Overflow,
    pub position: Position,
    /// Distance from the top of the parent, for a positioned box.
    pub top: Option<i32>,
    pub padding_left: u32,
    pub padding_right: u32,
    pub padding_top: u32,
    pub padding_bottom: u32,
    pub margin_top: u32,
}

/// The layout of a box that nothing was asked of.
pub open spec fn plain_layout() -> LayoutStyle {
    LayoutStyle {
        width: Dimension::Auto,
        height: Dimension::Auto,
        min_height: Dimension::Auto,
        flex_direction: FlexDirection::Row,
        flex_grow: 0,
        flex_shrink: 1,
        justify_content: JustifyContent::FlexStart,
        overflow: Overflow::Visible,
        position: Position::Relative,
        top: None,
        padding_left: 0,
        padding_right: 0,
        padding_top: 0,
        padding_bottom: 0,
        margin_top: 0,
    }
}

impl Default for LayoutStyle {
    fn default() -> (r: Self)
        ensures
            r == plain_layout(),
    {
        LayoutStyle {
            width: Dimension::Auto,
            height: Dimension::Auto,
            min_height: Dimension::Auto,
            flex_direction: FlexDirection::Row,
            flex_grow: 0,
            flex_shrink: 1,
            justify_content: JustifyContent::FlexStart,
            overflow: Overflow::Visible,
            position: Position::Relative,
            top: None,
            padding_left: 0,
            padding_right: 0,
            padding_top: 0,
            padding_bottom: 0,
            margin_top: 0,
        }
    }
}

/// A box that nothing was asked of is as large as its content, lays it out in a row from the start
/// on, shrinks and does not grow, shows what overflows, stands where its parent puts it, and has
/// neither padding nor margin.
pub proof fn lemma_plain_box()
    ensures
        ({
            let layout = plain_layout();
            &&& layout.width == Dimension::Auto && layout.height == Dimension::Auto
            &&& layout.min_height == Dimension::Auto
            &&& layout.flex_direction == FlexDirection::Row
            &&& layout.flex_grow == 0 && layout.flex_shrink == 1
            &&& layout.justify_content == JustifyContent::FlexStart
            &&& layout.overflow == Overflow::Visible
            &&& layout.position == Position::Relative && layout.top is None
            &&& layout.padding_left == 0 && layout.padding_right == 0
            &&& layout.padding_top == 0 && layout.padding_bottom == 0
            &&& layout.margin_top == 0
        }),
{
}

/// Text that nothing was asked of has no color, the normal weight and no attribute.
pub proof fn lemma_plain_text()
    ensures
        ({
            let style = plain_style();
            &&& style.color is None && style.underline_color is None
            &&& style.weight == Weight::Normal
            &&& !style.underline && style.underline_style == UnderlineStyle::Single
            &&& !style.italic && !style.blink && !style.hidden
            &&& !style.strikethrough && !style.overline && !style.invert
        }),
{
}

} // verus!
