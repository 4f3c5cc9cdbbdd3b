//! How a view looks, and how it is drawn.

use crate::border::{
    border_edge_style, border_text_fits, edge_visibility, write_border_line, BorderCharacters,
    BorderStyle, BorderText, BorderTextPosition,
};
use crate::canvas::DrawOp;
use crate::strings::repeat_char;
use crate::style::{CanvasTextStyle, Color, Edges};
use crate::view_props::ViewProps;
use vstd::prelude::*;

verus! {

use crate::border::BorderTextModel;
use crate::canvas::DrawModel;

/// How a view looks.
#[derive(Debug)]
pub struct ViewStyle {
    /// The style of the border.
    pub border_style: BorderStyle,
    /// The style of the top edge.
    pub border_top_style: CanvasTextStyle,
    /// The style of the bottom edge.
    pub border_bottom_style: CanvasTextStyle,
    /// The style of the left edge.
    pub border_left_style: CanvasTextStyle,
    /// The style of the right edge.
    pub border_right_style: CanvasTextStyle,
    /// A text in the border.
    pub border_text: Option<BorderText>,
    /// The edges that are shown.
    pub border_edges: Edges,
    /// The color of the background.
    pub background_color: Option<Color>,
    /// Whether blank cells of the view hide what is behind it.
    pub opaque: bool,
    /// Whether the cells of the view are kept from text selection.
    pub no_select: bool,
    /// Whether the cells to the left of the view are kept from text selection too.
    pub no_select_from_left_edge: bool,
}

/// What a [`ViewStyle`] holds.
pub struct StyleModel {
    pub border_style: BorderStyle,
    pub border_top_style: CanvasTextStyle,
    pub border_bottom_style: CanvasTextStyle,
    pub border_left_style: CanvasTextStyle,
    pub border_right_style: CanvasTextStyle,
    pub border_text: Option<BorderTextModel>,
    pub border_edges: Edges,
    pub background_color: Option<Color>,
    pub opaque: bool,
    pub no_select: bool,
    pub no_select_from_left_edge: bool,
}

impl View for ViewStyle {
    type V = StyleModel;

    open spec fn view(&self) -> StyleModel {
        StyleModel {
            border_style: self.border_style,
            border_top_style: self.border_top_style,
            border_bottom_style: self.border_bottom_style,
            border_left_style: self.border_left_style,
            border_right_style: self.border_right_style,
            border_text: crate::border::opt_border_text(self.border_text),
            border_edges: self.border_edges,
            background_color: self.background_color,
            opaque: self.opaque,
            no_select: self.no_select,
            no_select_from_left_edge: self.no_select_from_left_edge,
        }
    }
}

/// The color of an edge: its own, or that of the border.
pub open spec fn first_color(own: Option<Color>, border: Option<Color>) -> Option<Color> {
    if own is Some {
        own
    } else {
        border
    }
}

/// Whether an edge is dim: its own switch, or that of the border.
pub open spec fn first_switch(own: Option<bool>, border: bool) -> bool {
    match own {
        Some(dim) => dim,
        None => border,
    }
}

/// How a view with the given props looks.
pub open spec fn style_of(props: ViewProps) -> StyleModel {
    let border = props.border;
    let edges: Edges = match border.edges {
        Some(edges) => edges,
        None => Edges { top: true, right: true, bottom: true, left: true },
    };
    StyleModel {
        border_style: border.style,
        border_top_style: crate::border::edge_style(
            first_color(border.top_color, border.color),
            first_switch(border.top_dim_color, border.dim_color),
        ),
        border_bottom_style: crate::border::edge_style(
            first_color(border.bottom_color, border.color),
            first_switch(border.bottom_dim_color, border.dim_color),
        ),
        border_left_style: crate::border::edge_style(
            first_color(border.left_color, border.color),
            first_switch(border.left_dim_color, border.dim_color),
        ),
        border_right_style: crate::border::edge_style(
            first_color(border.right_color, border.color),
            first_switch(border.right_dim_color, border.dim_color),
        ),
        border_text: crate::border::opt_border_text(props.border_text),
        border_edges: Edges {
            top: crate::border::shows_edge(edges.top, border.top),
            right: crate::border::shows_edge(edges.right, border.right),
            bottom: crate::border::shows_edge(edges.bottom, border.bottom),
            left: crate::border::shows_edge(edges.left, border.left),
        },
        background_color: props.background_color,
        opaque: props.opaque,
        no_select: props.no_select || props.no_select_from_left_edge,
        no_select_from_left_edge: props.no_select_from_left_edge,
    }
}

/// One where an edge takes a cell, zero where it does not.
pub open spec fn cells(shown: bool) -> int {
    if shown {
        1
    } else {
        0
    }
}

/// A horizontal edge: its corners, where the edges next to it are shown, and the line
/// between them.
pub open spec fn edge_line(
    first: char,
    line: char,
    last: char,
    edges: Edges,
    width: int,
) -> Seq<char> {
    (if edges.left {
        seq![first]
    } else {
        Seq::empty()
    }) + crate::strings::repeated(
        line,
        crate::math::max_int(width - cells(edges.left) - cells(edges.right), 0),
    ) + (if edges.right {
        seq![last]
    } else {
        Seq::empty()
    })
}

/// How a view without props looks: it has no border, which it would show on all edges, and
/// no background.
pub open spec fn plain_style() -> StyleModel {
    let edge: CanvasTextStyle = crate::border::edge_style(None, false);
    StyleModel {
        border_style: BorderStyle::NoBorder,
        border_top_style: edge,
        border_bottom_style: edge,
        border_left_style: edge,
        border_right_style: edge,
        border_text: None,
        border_edges: Edges { top: true, right: true, bottom: true, left: true },
        background_color: None,
        opaque: false,
        no_select: false,
        no_select_from_left_edge: false,
    }
}

impl StyleModel {
    /// Where the border of the view takes cells.
    pub open spec fn bordered(self) -> Edges {
        let drawn: bool = self.border_style.characters() is Some;
        Edges {
            top: drawn && self.border_edges.top,
            right: drawn && self.border_edges.right,
            bottom: drawn && self.border_edges.bottom,
            left: drawn && self.border_edges.left,
        }
    }

    /// The width inside of the border.
    pub open spec fn inner_width(self, width: int) -> int {
        let edges: Edges = self.bordered();
        crate::math::max_int(width - cells(edges.left) - cells(edges.right), 0)
    }

    /// The height inside of the border.
    pub open spec fn inner_height(self, height: int) -> int {
        let edges: Edges = self.bordered();
        crate::math::max_int(height - cells(edges.top) - cells(edges.bottom), 0)
    }

    /// What keeps cells from text selection.
    pub open spec fn selection_drawing(self, width: int, height: int, x: int) -> Seq<DrawModel> {
        if !self.no_select {
            Seq::empty()
        } else if self.no_select_from_left_edge {
            if x + width > 0 && height > 0 {
                seq![DrawModel::MarkNoSelect { x: -x, y: 0, width: x + width, height }]
            } else {
                Seq::empty()
            }
        } else {
            seq![DrawModel::MarkNoSelect { x: 0, y: 0, width, height }]
        }
    }

    /// What fills the inside of the border.
    pub open spec fn background_drawing(self, width: int, height: int) -> Seq<DrawModel> {
        let edges: Edges = self.bordered();
        let x: int = cells(edges.left);
        let y: int = cells(edges.top);
        let width: int = self.inner_width(width);
        let height: int = self.inner_height(height);
        if (self.background_color is None && !self.opaque) || width == 0 || height == 0 {
            Seq::empty()
        } else {
            let cleared: DrawModel = DrawModel::ClearText { x, y, width, height };
            match self.background_color {
                Some(color) => seq![
                    cleared,
                    DrawModel::SetBackground { x, y, width, height, color },
                ],
                None => seq![cleared],
            }
        }
    }

    /// The top edge.
    pub open spec fn top_line(self, characters: BorderCharacters, width: int) -> Seq<char> {
        edge_line(
            characters.top_left,
            characters.top,
            characters.top_right,
            self.border_edges,
            width,
        )
    }

    /// The bottom edge.
    pub open spec fn bottom_line(self, characters: BorderCharacters, width: int) -> Seq<char> {
        edge_line(
            characters.bottom_left,
            characters.bottom,
            characters.bottom_right,
            self.border_edges,
            width,
        )
    }

    /// What draws the left and right edges of the rows from `from` up to `to`.
    pub open spec fn sides_drawing(
        self,
        characters: BorderCharacters,
        width: int,
        from: int,
        to: int,
    ) -> Seq<DrawModel>
        decreases to - from,
    {
        if to <= from {
            Seq::empty()
        } else {
            self.sides_drawing(characters, width, from, to - 1) + (if self.border_edges.left {
                seq![
                    DrawModel::SetText {
                        x: 0,
                        y: to - 1,
                        text: seq![characters.left],
                        style: self.border_left_style,
                        link: None,
                    },
                ]
            } else {
                Seq::empty()
            }) + (if self.border_edges.right {
                seq![
                    DrawModel::SetText {
                        x: width - 1,
                        y: to - 1,
                        text: seq![characters.right],
                        style: self.border_right_style,
                        link: None,
                    },
                ]
            } else {
                Seq::empty()
            })
        }
    }

    /// What draws the border.
    pub open spec fn border_drawing(self, width: int, height: int) -> Seq<DrawModel> {
        match self.border_style.characters() {
            Some(characters) => {
                let edges: Edges = self.border_edges;
                (if edges.top {
                    crate::border::line_drawing(
                        self.top_line(characters, width),
                        characters.top,
                        crate::border::text_at(self.border_text, BorderTextPosition::Top),
                        self.border_top_style,
                        0,
                    )
                } else {
                    Seq::empty()
                }) + self.sides_drawing(
                    characters,
                    width,
                    cells(edges.top),
                    height - cells(edges.bottom),
                ) + (if edges.bottom {
                    crate::border::line_drawing(
                        self.bottom_line(characters, width),
                        characters.bottom,
                        crate::border::text_at(self.border_text, BorderTextPosition::Bottom),
                        self.border_bottom_style,
                        height - 1,
                    )
                } else {
                    Seq::empty()
                })
            },
            None => Seq::empty(),
        }
    }

    /// What draws a view of the given size, at the given column of the canvas.
    pub open spec fn drawing(self, width: int, height: int, x: int) -> Seq<DrawModel> {
        self.selection_drawing(width, height, x) + self.background_drawing(width, height)
            + self.border_drawing(width, height)
    }

    /// The cells of a view of this size can be counted.
    pub open spec fn countable(self, width: int, height: int, x: int) -> bool {
        let text_length: int = match self.border_text {
            Some(text) => text.content.len() as int,
            None => 0,
        };
        &&& crate::border::embeddable(width + 2, text_length)
        &&& height <= isize::MAX
        &&& -isize::MAX <= x <= isize::MAX
        &&& x + width <= isize::MAX
    }

    /// The text in the border fits in the edge that holds it.
    pub open spec fn text_fits(self, width: int) -> bool {
        self.border_style.characters() matches Some(characters) ==> {
            &&& self.border_edges.top ==> crate::border::line_writable(
                self.top_line(characters, width),
                crate::border::text_at(self.border_text, BorderTextPosition::Top),
            )
            &&& self.border_edges.bottom ==> crate::border::line_writable(
                self.bottom_line(characters, width),
                crate::border::text_at(self.border_text, BorderTextPosition::Bottom),
            )
        }
    }
}

/// The first of two colors.
fn color_or(own: Option<Color>, border: Option<Color>) -> (r: Option<Color>)
    ensures
        r == first_color(own, border),
{
    if own.is_some() {
        own
    } else {
        border
    }
}

/// The first of two switches.
fn switch_or(own: Option<bool>, border: bool) -> (r: bool)
    ensures
        r == first_switch(own, border),
{
    match own {
        Some(dim) => dim,
        None => border,
    }
}

/// A horizontal edge.
fn make_edge_line(first: char, line: char, last: char, edges: Edges, width: usize) -> (r: String)
    ensures
        r@ == edge_line(first, line, last, edges, width as int),
        r@.len() <= width + 2,
{
    let mut inner: usize = width;
    if edges.left && inner > 0 {
        inner = inner - 1;
    }
    if edges.right && inner > 0 {
        inner = inner - 1;
    }
    let mut r = String::new();
    if edges.left {
        r.push(first);
    }
    r.append(repeat_char(line, inner).as_str());
    if edges.right {
        r.push(last);
    }
    assert(r@ =~= edge_line(first, line, last, edges, width as int));
    r
}

impl ViewStyle {
    /// How a view with the given props looks.
    pub fn new(props: &ViewProps) -> (r: Self)
        ensures
            r@ == style_of(*props),
    {
        let border = props.border;
        let edges: Edges = match border.edges {
            Some(edges) => edges,
            None => Edges::all(),
        };
        let border_text: Option<BorderText> = match &props.border_text {
            Some(text) => Some(text.clone()),
            None => None,
        };
        ViewStyle {
            border_style: border.style,
            border_top_style: border_edge_style(
                color_or(border.top_color, border.color),
                switch_or(border.top_dim_color, border.dim_color),
            ),
            border_bottom_style: border_edge_style(
                color_or(border.bottom_color, border.color),
                switch_or(border.bottom_dim_color, border.dim_color),
            ),
            border_left_style: border_edge_style(
                color_or(border.left_color, border.color),
                switch_or(border.left_dim_color, border.dim_color),
            ),
            border_right_style: border_edge_style(
                color_or(border.right_color, border.color),
                switch_or(border.right_dim_color, border.dim_color),
            ),
            border_text,
            border_edges: edge_visibility(
                edges,
                border.top,
                border.bottom,
                border.left,
                border.right,
            ),
            background_color: props.background_color,
            opaque: props.opaque,
            no_select: props.no_select || props.no_select_from_left_edge,
            no_select_from_left_edge: props.no_select_from_left_edge,
        }
    }

    /// The edges at which the border takes a cell.
    pub fn layout_border(&self) -> (r: Edges)
        ensures
            r == self@.bordered(),
    {
        let drawn = !self.border_style.is_none();
        Edges {
            top: drawn && self.border_edges.top,
            right: drawn && self.border_edges.right,
            bottom: drawn && self.border_edges.bottom,
            left: drawn && self.border_edges.left,
        }
    }

    /// Marks the cells that are kept from text selection.
    fn draw_selection(&self, width: usize, height: usize, x: isize, ops: &mut Vec<DrawOp>)
        requires
            -isize::MAX <= x,
            x + width <= isize::MAX,
        ensures
            crate::canvas::drawing(final(ops)@) == crate::canvas::drawing(old(ops)@)
                + self@.selection_drawing(width as int, height as int, x as int),
    {
        let ghost before = crate::canvas::drawing(ops@);
        if self.no_select {
            if self.no_select_from_left_edge {
                if width <= isize::MAX as usize {
                    let right: isize = x + width as isize;
                    if right > 0 && height > 0 {
                        ops.push(
                            DrawOp::MarkNoSelect { x: -x, y: 0, width: right as usize, height },
                        );
                    }
                } else {
                    let right: usize = width - (-x) as usize;
                    if height > 0 {
                        ops.push(DrawOp::MarkNoSelect { x: -x, y: 0, width: right, height });
                    }
                }
            } else {
                ops.push(DrawOp::MarkNoSelect { x: 0, y: 0, width, height });
            }
        }
        assert(crate::canvas::drawing(ops@) =~= before + self@.selection_drawing(
            width as int,
            height as int,
            x as int,
        ));
    }

    /// Fills the inside of the border.
    fn draw_background(&self, width: usize, height: usize, ops: &mut Vec<DrawOp>)
        ensures
            crate::canvas::drawing(final(ops)@) == crate::canvas::drawing(old(ops)@)
                + self@.background_drawing(width as int, height as int),
    {
        let ghost before = crate::canvas::drawing(ops@);
        let edges = self.layout_border();
        let mut inner_width: usize = width;
        let mut inner_height: usize = height;
        let mut x: isize = 0;
        let mut y: isize = 0;
        if edges.left {
            x = 1;
            if inner_width > 0 {
                inner_width = inner_width - 1;
            }
        }
        if edges.right && inner_width > 0 {
            inner_width = inner_width - 1;
        }
        if edges.top {
            y = 1;
            if inner_height > 0 {
                inner_height = inner_height - 1;
            }
        }
        if edges.bottom && inner_height > 0 {
            inner_height = inner_height - 1;
        }
        assert(inner_width == self@.inner_width(width as int));
        assert(inner_height == self@.inner_height(height as int));
        if (self.background_color.is_some() || self.opaque) && inner_width > 0 && inner_height
            > 0 {
            ops.push(DrawOp::ClearText { x, y, width: inner_width, height: inner_height });
            if let Some(color) = self.background_color {
                ops.push(
                    DrawOp::SetBackground { x, y, width: inner_width, height: inner_height, color },
                );
            }
        }
        assert(crate::canvas::drawing(ops@) =~= before + self@.background_drawing(
            width as int,
            height as int,
        ));
    }

    /// Draws the left and right edges.
    fn draw_sides(
        &self,
        characters: BorderCharacters,
        width: usize,
        from: isize,
        to: isize,
        ops: &mut Vec<DrawOp>,
    )
        requires
            width <= isize::MAX,
        ensures
            crate::canvas::drawing(final(ops)@) == crate::canvas::drawing(old(ops)@)
                + self@.sides_drawing(characters, width as int, from as int, to as int),
    {
        let ghost before = crate::canvas::drawing(ops@);
        let mut y: isize = from;
        assert(before + self@.sides_drawing(characters, width as int, from as int, from as int)
            =~= before);
        while y < to
            invariant
                from <= y,
                from < to ==> y <= to,
                from >= to ==> y == from,
                width <= isize::MAX,
                crate::canvas::drawing(ops@) == before + self@.sides_drawing(
                    characters,
                    width as int,
                    from as int,
                    y as int,
                ),
            decreases to - y,
        {
            let ghost done = crate::canvas::drawing(ops@);
            if self.border_edges.left {
                let text = repeat_char(characters.left, 1);
                let op = DrawOp::SetText {
                    x: 0,
                    y,
                    text,
                    style: self.border_left_style,
                    link: None,
                };
                ops.push(op);
                assert(text@ =~= seq![characters.left]);
                assert(crate::canvas::drawing(ops@) =~= done.push(op@));
            }
            let ghost half = crate::canvas::drawing(ops@);
            if self.border_edges.right {
                let text = repeat_char(characters.right, 1);
                let op = DrawOp::SetText {
                    x: width as isize - 1,
                    y,
                    text,
                    style: self.border_right_style,
                    link: None,
                };
                ops.push(op);
                assert(text@ =~= seq![characters.right]);
                assert(crate::canvas::drawing(ops@) =~= half.push(op@));
            }
            y = y + 1;
            assert(crate::canvas::drawing(ops@) =~= before + self@.sides_drawing(
                characters,
                width as int,
                from as int,
                y as int,
            ));
        }
        assert(self@.sides_drawing(characters, width as int, from as int, to as int)
            =~= self@.sides_drawing(characters, width as int, from as int, y as int));
    }

    /// Draws the border.
    #[verifier::rlimit(60)]
    #[verifier::spinoff_prover]
    fn draw_border(&self, width: usize, height: usize, ops: &mut Vec<DrawOp>)
        requires
            self@.countable(width as int, height as int, 0),
            self@.text_fits(width as int),
        ensures
            crate::canvas::drawing(final(ops)@) == crate::canvas::drawing(old(ops)@)
                + self@.border_drawing(width as int, height as int),
    {
        let ghost before = crate::canvas::drawing(ops@);
        if let Some(characters) = self.border_style.border_characters() {
            let edges = self.border_edges;
            if edges.top {
                let line = make_edge_line(
                    characters.top_left,
                    characters.top,
                    characters.top_right,
                    edges,
                    width,
                );
                write_border_line(
                    line,
                    characters.top,
                    &self.border_text,
                    BorderTextPosition::Top,
                    self.border_top_style,
                    0,
                    ops,
                );
            }
            let from: isize = if edges.top {
                1
            } else {
                0
            };
            let to: isize = if edges.bottom {
                height as isize - 1
            } else {
                height as isize
            };
            self.draw_sides(characters, width, from, to, ops);
            if edges.bottom {
                let line = make_edge_line(
                    characters.bottom_left,
                    characters.bottom,
                    characters.bottom_right,
                    edges,
                    width,
                );
                write_border_line(
                    line,
                    characters.bottom,
                    &self.border_text,
                    BorderTextPosition::Bottom,
                    self.border_bottom_style,
                    height as isize - 1,
                    ops,
                );
            }
        }
        assert(crate::canvas::drawing(ops@) =~= before + self@.border_drawing(
            width as int,
            height as int,
        ));
    }

    /// Draws a view of the given size, at the given column of the canvas.
    pub fn draw(&self, width: usize, height: usize, x: isize) -> (ops: Vec<DrawOp>)
        requires
            self@.countable(width as int, height as int, x as int),
            self@.text_fits(width as int),
        ensures
            crate::canvas::drawing(ops@) == self@.drawing(width as int, height as int, x as int),
    {
        let mut ops: Vec<DrawOp> = Vec::new();
        self.draw_selection(width, height, x, &mut ops);
        self.draw_background(width, height, &mut ops);
        self.draw_border(width, height, &mut ops);
        assert(crate::canvas::drawing(ops@) =~= self@.drawing(
            width as int,
            height as int,
            x as int,
        ));
        ops
    }

    /// Whether the text in the border fits in the given edge.
    fn text_fits_line(&self, line: String, position: BorderTextPosition) -> (fits: bool)
        requires
            self.border_text matches Some(text) ==> crate::border::embeddable(
                line@.len() as int,
                text.content@.len() as int,
            ),
        ensures
            fits == crate::border::line_writable(
                line@,
                crate::border::text_at(self@.border_text, position),
            ),
    {
        match &self.border_text {
            Some(text) => if text.position == position {
                border_text_fits(line.as_str(), text.content.as_str(), text.align, text.offset)
            } else {
                true
            },
            None => true,
        }
    }

    /// Draws a view of the given size, at the given column of the canvas; nothing, where
    /// the text in the border does not fit in the edge that holds it.
    pub fn try_draw(&self, width: usize, height: usize, x: isize) -> (ops: Option<Vec<DrawOp>>)
        requires
            self@.countable(width as int, height as int, x as int),
        ensures
            ops is Some == self@.text_fits(width as int),
            ops matches Some(ops) ==> crate::canvas::drawing(ops@) == self@.drawing(
                width as int,
                height as int,
                x as int,
            ),
    {
        if let Some(characters) = self.border_style.border_characters() {
            let edges = self.border_edges;
            if edges.top {
                let line = make_edge_line(
                    characters.top_left,
                    characters.top,
                    characters.top_right,
                    edges,
                    width,
                );
                if !self.text_fits_line(line, BorderTextPosition::Top) {
                    return None;
                }
            }
            if edges.bottom {
                let line = make_edge_line(
                    characters.bottom_left,
                    characters.bottom,
                    characters.bottom_right,
                    edges,
                    width,
                );
                if !self.text_fits_line(line, BorderTextPosition::Bottom) {
                    return None;
                }
            }
        }
        Some(self.draw(width, height, x))
    }
}

/// The background of a view fills the inside of its border, and covers no cell of it.
pub proof fn lemma_background_stays_inside_border(style: StyleModel, width: int, height: int)
    ensures
        ({
            let edges = style.bordered();
            let ops = style.background_drawing(width, height);
            forall|i: int|
                0 <= i < ops.len() ==> match #[trigger] ops[i] {
                    DrawModel::ClearText { x, y, width: columns, height: rows } => {
                        &&& x == cells(edges.left) && x + columns + cells(edges.right) == width
                        &&& y == cells(edges.top) && y + rows + cells(edges.bottom) == height
                    },
                    DrawModel::SetBackground { x, y, width: columns, height: rows, color } => {
                        &&& x == cells(edges.left) && x + columns + cells(edges.right) == width
                        &&& y == cells(edges.top) && y + rows + cells(edges.bottom) == height
                        &&& style.background_color == Some(color)
                    },
                    _ => false,
                }
        }),
{
}

/// Each edge has its own color, or that of the border where it has none, and is dim where its
/// own switch says so, or the border where it has none. Each is shown as its own switch says, or
/// as the set of edges says, of which all are shown by default.
pub proof fn lemma_edges_of_props(props: ViewProps)
    ensures
        ({
            let style = style_of(props);
            let border = props.border;
            &&& border.top_color is Some ==> style.border_top_style.color == border.top_color
            &&& border.top_color is None ==> style.border_top_style.color == border.color
            &&& border.bottom_color is Some ==> style.border_bottom_style.color
                == border.bottom_color
            &&& border.bottom_color is None ==> style.border_bottom_style.color == border.color
            &&& border.left_color is Some ==> style.border_left_style.color == border.left_color
            &&& border.left_color is None ==> style.border_left_style.color == border.color
            &&& border.right_color is Some ==> style.border_right_style.color
                == border.right_color
            &&& border.right_color is None ==> style.border_right_style.color == border.color
            &&& (style.border_top_style.weight == crate::style::Weight::Light) == if border.top_dim_color
                is Some {
                border.top_dim_color->0
            } else {
                border.dim_color
            }
            &&& (style.border_bottom_style.weight == crate::style::Weight::Light) == if border.bottom_dim_color
                is Some {
                border.bottom_dim_color->0
            } else {
                border.dim_color
            }
            &&& (style.border_left_style.weight == crate::style::Weight::Light) == if border.left_dim_color
                is Some {
                border.left_dim_color->0
            } else {
                border.dim_color
            }
            &&& (style.border_right_style.weight == crate::style::Weight::Light) == if border.right_dim_color
                is Some {
                border.right_dim_color->0
            } else {
                border.dim_color
            }
            &&& border.top is Some ==> style.border_edges.top == border.top->0
            &&& border.bottom is Some ==> style.border_edges.bottom == border.bottom->0
            &&& border.left is Some ==> style.border_edges.left == border.left->0
            &&& border.right is Some ==> style.border_edges.right == border.right->0
            &&& border.top is None ==> style.border_edges.top == (border.edges is None
                || border.edges->0.top)
            &&& border.bottom is None ==> style.border_edges.bottom == (border.edges is None
                || border.edges->0.bottom)
            &&& border.left is None ==> style.border_edges.left == (border.edges is None
                || border.edges->0.left)
            &&& border.right is None ==> style.border_edges.right == (border.edges is None
                || border.edges->0.right)
            &&& style.border_style == border.style
            &&& style.background_color == props.background_color
            &&& style.opaque == props.opaque
            &&& style.no_select == (props.no_select || props.no_select_from_left_edge)
            &&& style.no_select_from_left_edge == props.no_select_from_left_edge
        }),
{
}

/// A border takes a cell on each edge that it shows, and none where there is no border.
pub proof fn lemma_border_takes_cells(style: StyleModel)
    ensures
        ({
            let edges = style.bordered();
            let none = style.border_style == BorderStyle::NoBorder;
            &&& edges.top == (!none && style.border_edges.top)
            &&& edges.right == (!none && style.border_edges.right)
            &&& edges.bottom == (!none && style.border_edges.bottom)
            &&& edges.left == (!none && style.border_edges.left)
        }),
{
}

/// A horizontal edge is as wide as the view: the corners where the edges next to it are shown,
/// and its character everywhere else.
pub proof fn lemma_edge_lines(style: StyleModel, chosen: BorderCharacters, width: int, k: int)
    requires
        2 <= width,
        0 <= k < width,
    ensures
        ({
            let top = style.top_line(chosen, width);
            let bottom = style.bottom_line(chosen, width);
            let left = k == 0 && style.border_edges.left;
            let right = k == width - 1 && style.border_edges.right;
            &&& top.len() == width && bottom.len() == width
            &&& left ==> top[k] == chosen.top_left && bottom[k] == chosen.bottom_left
            &&& right ==> top[k] == chosen.top_right && bottom[k] == chosen.bottom_right
            &&& !left && !right ==> top[k] == chosen.top && bottom[k] == chosen.bottom
        }),
{
}

/// The sides of a border are drawn on every row between the horizontal edges: on the left in the
/// first column, on the right in the last one. Nothing else is drawn with them.
pub proof fn lemma_sides_are_drawn(
    style: StyleModel,
    chosen: BorderCharacters,
    width: int,
    from: int,
    to: int,
)
    ensures
        ({
            let drawn = style.sides_drawing(chosen, width, from, to);
            &&& forall|y: int|
                from <= y < to && style.border_edges.left ==> drawn.contains(
                    #[trigger] side_cell(0, y, chosen.left, style.border_left_style),
                )
            &&& forall|y: int|
                from <= y < to && style.border_edges.right ==> drawn.contains(
                    #[trigger] side_cell(width - 1, y, chosen.right, style.border_right_style),
                )
            &&& forall|i: int|
                0 <= i < drawn.len() ==> exists|y: int|
                    from <= y < to && ((style.border_edges.left && #[trigger] drawn[i]
                        == #[trigger] side_cell(0, y, chosen.left, style.border_left_style)) || (
                    style.border_edges.right && drawn[i] == side_cell(
                        width - 1,
                        y,
                        chosen.right,
                        style.border_right_style,
                    )))
        }),
    decreases to - from,
{
    let drawn = style.sides_drawing(chosen, width, from, to);
    if from < to {
        lemma_sides_are_drawn(style, chosen, width, from, to - 1);
        let before = style.sides_drawing(chosen, width, from, to - 1);
        let left = side_cell(0, to - 1, chosen.left, style.border_left_style);
        let right = side_cell(width - 1, to - 1, chosen.right, style.border_right_style);
        let added = (if style.border_edges.left {
            seq![left]
        } else {
            Seq::empty()
        }) + (if style.border_edges.right {
            seq![right]
        } else {
            Seq::empty()
        });
        assert(drawn =~= before + added);
        if style.border_edges.left {
            assert(drawn[before.len() as int] == left);
        }
        if style.border_edges.right {
            assert(drawn[drawn.len() - 1] == right);
        }
        assert forall|y: int| from <= y < to && style.border_edges.left implies drawn.contains(
            #[trigger] side_cell(0, y, chosen.left, style.border_left_style),
        ) by {
            let cell = side_cell(0, y, chosen.left, style.border_left_style);
            if y < to - 1 {
                assert(before.contains(cell));
                let k = choose|k: int| 0 <= k < before.len() && before[k] == cell;
                assert(drawn[k] == cell);
            }
        }
        assert forall|y: int| from <= y < to && style.border_edges.right implies drawn.contains(
            #[trigger] side_cell(width - 1, y, chosen.right, style.border_right_style),
        ) by {
            let cell = side_cell(width - 1, y, chosen.right, style.border_right_style);
            if y < to - 1 {
                assert(before.contains(cell));
                let k = choose|k: int| 0 <= k < before.len() && before[k] == cell;
                assert(drawn[k] == cell);
            }
        }
        assert forall|i: int| 0 <= i < drawn.len() implies exists|y: int|
            from <= y < to && ((style.border_edges.left && #[trigger] drawn[i]
                == #[trigger] side_cell(0, y, chosen.left, style.border_left_style)) || (
            style.border_edges.right && drawn[i] == side_cell(
                width - 1,
                y,
                chosen.right,
                style.border_right_style,
            ))) by {
            if i < before.len() {
                assert(drawn[i] == before[i]);
                let y = choose|y: int|
                    from <= y < to - 1 && ((style.border_edges.left && before[i]
                        == #[trigger] side_cell(0, y, chosen.left, style.border_left_style)) || (
                    style.border_edges.right && before[i] == side_cell(
                        width - 1,
                        y,
                        chosen.right,
                        style.border_right_style,
                    )));
                assert(side_cell(0, y, chosen.left, style.border_left_style) == side_cell(
                    0,
                    y,
                    chosen.left,
                    style.border_left_style,
                ));
            } else {
                assert(side_cell(0, to - 1, chosen.left, style.border_left_style) == left);
            }
        }
    }
}

/// A character of a side at a cell.
pub open spec fn side_cell(x: int, y: int, side: char, style: CanvasTextStyle) -> DrawModel {
    DrawModel::SetText { x, y, text: seq![side], style, link: None }
}

/// A border is drawn from the top to the bottom: the top edge on the first row, the sides
/// between the two, and the bottom edge on the last row, each in its own style. The edges that
/// are not shown are left out, and their rows belong to the sides.
pub proof fn lemma_border_is_drawn(
    style: StyleModel,
    chosen: BorderCharacters,
    width: int,
    height: int,
)
    requires
        style.border_style.characters() == Some(chosen),
        style.border_text is None,
    ensures
        ({
            let drawn = style.border_drawing(width, height);
            let top = side_line(0, style.top_line(chosen, width), style.border_top_style);
            let bottom = side_line(
                height - 1,
                style.bottom_line(chosen, width),
                style.border_bottom_style,
            );
            let edges = style.border_edges;
            let sides = style.sides_drawing(
                chosen,
                width,
                if edges.top {
                    1
                } else {
                    0
                },
                if edges.bottom {
                    height - 1
                } else {
                    height
                },
            );
            &&& edges.top && edges.bottom ==> drawn == seq![top] + sides + seq![bottom]
            &&& edges.top && !edges.bottom ==> drawn == seq![top] + sides
            &&& !edges.top && edges.bottom ==> drawn == sides + seq![bottom]
            &&& !edges.top && !edges.bottom ==> drawn == sides
        }),
{
    let drawn = style.border_drawing(width, height);
    let edges = style.border_edges;
    let sides = style.sides_drawing(
        chosen,
        width,
        cells(edges.top),
        height - cells(edges.bottom),
    );
    let top = side_line(0, style.top_line(chosen, width), style.border_top_style);
    let bottom = side_line(
        height - 1,
        style.bottom_line(chosen, width),
        style.border_bottom_style,
    );
    if edges.top && edges.bottom {
        assert(drawn =~= seq![top] + sides + seq![bottom]);
    } else if edges.top {
        assert(drawn =~= seq![top] + sides);
    } else if edges.bottom {
        assert(drawn =~= sides + seq![bottom]);
    } else {
        assert(drawn =~= sides);
    }
}

/// A line of a border on a row, from the first column on.
pub open spec fn side_line(y: int, line: Seq<char>, style: CanvasTextStyle) -> DrawModel {
    DrawModel::SetText { x: 0, y, text: line, style, link: None }
}

/// A view with a background is cleared inside of its border and filled with it, one that is
/// only opaque is cleared, and any other is left as it is.
pub proof fn lemma_background_is_filled(style: StyleModel, width: int, height: int)
    requires
        2 < width,
        2 < height,
    ensures
        ({
            let drawn = style.background_drawing(width, height);
            let filled = style.background_color is Some;
            &&& drawn.len() == if filled {
                2int
            } else if style.opaque {
                1
            } else {
                0
            }
            &&& drawn.len() > 0 ==> drawn[0] is ClearText
            &&& filled ==> drawn[1] is SetBackground && Some(drawn[1]->color)
                == style.background_color
        }),
{
}

/// What keeps the cells of a view from text selection: those of the view, or all of its rows
/// from the left edge of the screen to the right edge of the view.
pub proof fn lemma_selection_is_kept_off(style: StyleModel, width: int, height: int, x: int)
    requires
        0 < width,
        0 < height,
        0 <= x,
    ensures
        ({
            let drawn = style.selection_drawing(width, height, x);
            &&& !style.no_select ==> drawn.len() == 0
            &&& style.no_select ==> drawn.len() == 1 && drawn[0] is MarkNoSelect
            &&& style.no_select ==> drawn[0]->MarkNoSelect_y == 0
                && drawn[0]->MarkNoSelect_height == height
            &&& style.no_select && !style.no_select_from_left_edge ==> drawn[0]->MarkNoSelect_x
                == 0 && drawn[0]->MarkNoSelect_width == width
            &&& style.no_select && style.no_select_from_left_edge ==> x
                + drawn[0]->MarkNoSelect_x == 0 && drawn[0]->MarkNoSelect_x
                + drawn[0]->MarkNoSelect_width == width
        }),
{
}

} // verus!
