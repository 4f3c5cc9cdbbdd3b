//! The scroll view: the tree that it renders, and its scrollbar.

use crate::canvas::DrawOp;
use crate::element::{AnyElement, ElementNode};
use crate::scroll_drain::ScrollDrainMode;
use crate::scroll_handle::ScrollViewState;
use crate::strings::repeat_char;
use crate::style::{
    CanvasTextStyle, Color, Dimension, FlexDirection, JustifyContent, LayoutStyle, Overflow,
    Position,
};
use crate::view_props::ViewProps;
use vstd::prelude::*;

verus! {

use crate::canvas::DrawModel;

/// The props of [`ScrollView`].
#[derive(Debug)]
pub struct ScrollViewProps {
    /// The elements inside of the scroll view.
    pub children: Vec<AnyElement>,
    /// Whether the view follows the bottom as the content grows. Scrolling up disengages
    /// it; reaching the bottom engages it again.
    pub auto_scroll: bool,
    /// The rows that the wheel scrolls.
    pub scroll_step: Option<u16>,
    /// Whether quick turns of the wheel scroll faster.
    pub wheel_acceleration: Option<bool>,
    /// A handle for imperative control, named by a number.
    pub handle: Option<u64>,
    /// Whether a scrollbar is shown; it is by default.
    pub scrollbar: Option<bool>,
    /// The color of the thumb of the scrollbar.
    pub scrollbar_thumb_color: Option<Color>,
    /// The color of the track of the scrollbar.
    pub scrollbar_track_color: Option<Color>,
    /// Whether keys scroll; they do by default.
    pub keyboard_scroll: Option<bool>,
    /// Whether the keys of a pager scroll too.
    pub modal_pager_keys: Option<bool>,
    /// The text selection that scrolls with the content, named by a number.
    pub selection: Option<u64>,
    /// Whether, and how, the wheel is drained over frames.
    pub scroll_drain_mode: Option<ScrollDrainMode>,
}

impl ScrollViewProps {
    /// Props of a scroll view of which nothing was asked.
    pub open spec fn is_plain(self) -> bool {
        &&& !self.auto_scroll
        &&& self.scroll_step is None
        &&& self.wheel_acceleration is None
        &&& self.handle is None
        &&& self.scrollbar is None
        &&& self.scrollbar_thumb_color is None
        &&& self.scrollbar_track_color is None
        &&& self.keyboard_scroll is None
        &&& self.modal_pager_keys is None
        &&& self.selection is None
        &&& self.scroll_drain_mode is None
    }
}

impl Default for ScrollViewProps {
    fn default() -> (r: Self)
        ensures
            r.children@.len() == 0,
            r.is_plain(),
    {
        ScrollViewProps {
            children: Vec::new(),
            auto_scroll: false,
            scroll_step: None,
            wheel_acceleration: None,
            handle: None,
            scrollbar: None,
            scrollbar_thumb_color: None,
            scrollbar_track_color: None,
            keyboard_scroll: None,
            modal_pager_keys: None,
            selection: None,
            scroll_drain_mode: None,
        }
    }
}

/// The props of [`ScrollViewContentMeasurer`].
#[derive(Debug)]
pub struct ScrollViewContentMeasurerProps {
    /// The elements inside of the scroll view.
    pub children: Vec<AnyElement>,
    /// The text selection that scrolls with the content.
    pub selection: Option<u64>,
    /// The screen row of the viewport.
    pub viewport_top: u16,
    /// The height of the viewport.
    pub viewport_height: u16,
    /// Whether the view follows the bottom at the moment.
    pub pinned_to_bottom: bool,
}

/// The props of [`ScrollViewScrollbar`].
#[derive(Clone, Copy, Debug, PartialEq, Eq, Structural)]
pub struct ScrollViewScrollbarProps {
    /// The height of the viewport.
    pub viewport_height: u16,
    /// The height of the content.
    pub content_height: u16,
    /// The rendered offset.
    pub scroll_offset: i32,
    /// The color of the thumb.
    pub thumb_color: Option<Color>,
    /// The color of the track.
    pub track_color: Option<Color>,
}

/// A box that fills its parent.
pub open spec fn full_layout() -> LayoutStyle {
    LayoutStyle {
        width: Dimension::Percent(100),
        height: Dimension::Percent(100),
        ..crate::style::plain_layout()
    }
}

/// The box of a view that follows the bottom: its content stands at its end.
pub open spec fn end_layout(layout: LayoutStyle) -> LayoutStyle {
    LayoutStyle {
        flex_direction: FlexDirection::Column,
        justify_content: JustifyContent::FlexEnd,
        ..layout
    }
}

/// The box next to a scrollbar.
pub open spec fn pane_layout() -> LayoutStyle {
    LayoutStyle {
        height: Dimension::Percent(100),
        flex_grow: 1,
        overflow: Overflow::Hidden,
        ..crate::style::plain_layout()
    }
}

/// The box that moves the content up by the rendered offset.
pub open spec fn moved_layout(offset: int) -> LayoutStyle {
    LayoutStyle {
        width: Dimension::Percent(100),
        position: Position::Absolute,
        top: Some((-offset) as i32),
        ..crate::style::plain_layout()
    }
}

/// The element that measures the content.
pub open spec fn is_measurer(
    element: AnyElement,
    state: ScrollViewState,
    props: ScrollViewProps,
) -> bool {
    &&& element.key.value == 0
    &&& element.node is ContentMeasurer
    &&& element.node->ContentMeasurer_0.children == props.children
    &&& element.node->ContentMeasurer_0.selection == props.selection
    &&& element.node->ContentMeasurer_0.viewport_top == state.viewport_top
    &&& element.node->ContentMeasurer_0.viewport_height == state.viewport_height
    &&& element.node->ContentMeasurer_0.pinned_to_bottom == state.pinned()
}

/// The scrollbar of a scroll view.
pub open spec fn scrollbar_of(
    state: ScrollViewState,
    props: ScrollViewProps,
) -> ScrollViewScrollbarProps {
    ScrollViewScrollbarProps {
        viewport_height: state.viewport_height,
        content_height: state.content_height,
        scroll_offset: state.visual() as i32,
        thumb_color: props.scrollbar_thumb_color,
        track_color: props.scrollbar_track_color,
    }
}

/// Whether a scrollbar is shown: not where all of the content is seen.
pub open spec fn shows_scrollbar(state: ScrollViewState, props: ScrollViewProps) -> bool {
    props.scrollbar != Some(false) && state.content_height > state.viewport_height
}

/// The content of a scroll view, with the boxes that hold it: the content stands at the end
/// of a view that follows the bottom, and is moved up in another one.
pub open spec fn is_pane(
    element: AnyElement,
    layout: LayoutStyle,
    state: ScrollViewState,
    props: ScrollViewProps,
) -> bool {
    let children = element.node->View_0.children@;
    if state.pinned() {
        element.is_view_at(0, end_layout(layout), children) && children.len() == 1 && is_measurer(
            children[0],
            state,
            props,
        )
    } else {
        let inner = children[0].node->View_0.children@;
        &&& element.is_view_at(0, layout, children)
        &&& children.len() == 1
        &&& children[0].is_view_at(0, moved_layout(state.visual()), inner)
        &&& inner.len() == 1
        &&& is_measurer(inner[0], state, props)
    }
}

/// The tree of a scroll view.
pub open spec fn is_scroll_view(
    element: AnyElement,
    state: ScrollViewState,
    props: ScrollViewProps,
) -> bool {
    if shows_scrollbar(state, props) {
        let children = element.node->View_0.children@;
        &&& element.is_view_at(0, full_layout(), children)
        &&& children.len() == 2
        &&& is_pane(children[0], pane_layout(), state, props)
        &&& children[1].key.value == 1
        &&& children[1].node == ElementNode::Scrollbar(scrollbar_of(state, props))
    } else {
        is_pane(
            element,
            (LayoutStyle { overflow: Overflow::Hidden, ..full_layout() }),
            state,
            props,
        )
    }
}

/// The only child of an element.
fn only(element: AnyElement) -> (children: Vec<AnyElement>)
    ensures
        children@ == seq![element],
{
    let mut children: Vec<AnyElement> = Vec::new();
    children.push(element);
    assert(children@ =~= seq![element]);
    children
}

/// The content of a scroll view, with the boxes that hold it.
fn make_pane(layout: LayoutStyle, state: &ScrollViewState, props: ScrollViewProps) -> (element:
    AnyElement)
    ensures
        is_pane(element, layout, *state, props),
{
    let pinned = state.auto_scroll_enabled && !state.user_scrolled_up;
    let measurer = AnyElement::at(
        0,
        ElementNode::ContentMeasurer(
            ScrollViewContentMeasurerProps {
                children: props.children,
                selection: props.selection,
                viewport_top: state.viewport_top,
                viewport_height: state.viewport_height,
                pinned_to_bottom: pinned,
            },
        ),
    );
    if pinned {
        let mut layout = layout;
        layout.flex_direction = FlexDirection::Column;
        layout.justify_content = JustifyContent::FlexEnd;
        return AnyElement::at(0, ElementNode::View(ViewProps::bare(layout, only(measurer))));
    }
    let offset: i32 = state.visual_scroll_offset();
    let mut moved = LayoutStyle::default();
    moved.width = Dimension::Percent(100);
    moved.position = Position::Absolute;
    moved.top = Some(-offset);
    let inner = AnyElement::at(0, ElementNode::View(ViewProps::bare(moved, only(measurer))));
    AnyElement::at(0, ElementNode::View(ViewProps::bare(layout, only(inner))))
}

/// Renders a scroll view at its scroll position.
#[allow(non_snake_case)]
pub fn ScrollView(state: &ScrollViewState, props: ScrollViewProps) -> (element: AnyElement)
    ensures
        is_scroll_view(element, *state, props),
{
    let wanted: bool = match props.scrollbar {
        Some(scrollbar) => scrollbar,
        None => true,
    };
    let mut full = LayoutStyle::default();
    full.width = Dimension::Percent(100);
    full.height = Dimension::Percent(100);
    if wanted && state.content_height > state.viewport_height {
        let scrollbar = ScrollViewScrollbarProps {
            viewport_height: state.viewport_height,
            content_height: state.content_height,
            scroll_offset: state.visual_scroll_offset(),
            thumb_color: props.scrollbar_thumb_color,
            track_color: props.scrollbar_track_color,
        };
        let mut pane = LayoutStyle::default();
        pane.height = Dimension::Percent(100);
        pane.flex_grow = 1;
        pane.overflow = Overflow::Hidden;
        let mut children = only(make_pane(pane, state, props));
        children.push(AnyElement::at(1, ElementNode::Scrollbar(scrollbar)));
        return AnyElement::at(0, ElementNode::View(ViewProps::bare(full, children)));
    }
    full.overflow = Overflow::Hidden;
    make_pane(full, state, props)
}

/// Renders the content of a scroll view as wide as the pane.
#[allow(non_snake_case)]
pub fn ScrollViewContentMeasurer(props: ScrollViewContentMeasurerProps) -> (element: AnyElement)
    ensures
        element.is_view_at(
            0,
            (LayoutStyle { width: Dimension::Percent(100), ..crate::style::plain_layout() }),
            props.children@,
        ),
{
    let mut layout = LayoutStyle::default();
    layout.width = Dimension::Percent(100);
    AnyElement::at(0, ElementNode::View(ViewProps::bare(layout, props.children)))
}

/// The size of the thumb of a scrollbar.
pub open spec fn thumb_size(viewport_height: int, content_height: int) -> int {
    crate::math::max_int(viewport_height * viewport_height / content_height, 1)
}

/// The row at which the thumb starts.
pub open spec fn thumb_position(viewport_height: int, content_height: int, offset: int) -> int {
    offset * (viewport_height - thumb_size(viewport_height, content_height)) / (content_height
        - viewport_height)
}

/// What draws a scrollbar: the track, with the thumb on the rows that it covers. Nothing,
/// where all of the content is seen.
pub open spec fn scrollbar_drawing(props: ScrollViewScrollbarProps) -> Seq<DrawModel> {
    let viewport: int = props.viewport_height as int;
    let content: int = props.content_height as int;
    if viewport == 0 || content <= viewport {
        Seq::empty()
    } else {
        let size: int = thumb_size(viewport, content);
        let start: int = thumb_position(viewport, content, props.scroll_offset as int);
        Seq::new(
            viewport as nat,
            |y: int|
                {
                    let on_thumb: bool = start <= y < start + size;
                    DrawModel::SetText {
                        x: 0,
                        y,
                        text: seq![
                            if on_thumb {
                                '┃'
                            } else {
                                '│'
                            },
                        ],
                        style: CanvasTextStyle {
                            color: Some(
                                if on_thumb {
                                    match props.thumb_color {
                                        Some(color) => color,
                                        None => Color::White,
                                    }
                                } else {
                                    match props.track_color {
                                        Some(color) => color,
                                        None => Color::DarkGrey,
                                    }
                                },
                            ),
                            ..crate::style::plain_style()
                        },
                        link: None,
                    }
                },
        )
    }
}

/// The thumb stays on the track; it is at the top of the track at the top of the content,
/// and at the bottom of the track at the bottom of the content.
pub proof fn lemma_thumb_stays_on_track(viewport: int, content: int, offset: int)
    requires
        0 < viewport < content,
        0 <= offset <= content - viewport,
    ensures
        1 <= thumb_size(viewport, content) <= viewport,
        0 <= thumb_position(viewport, content, offset),
        thumb_position(viewport, content, offset) + thumb_size(viewport, content) <= viewport,
        offset == 0 ==> thumb_position(viewport, content, offset) == 0,
        offset == content - viewport ==> thumb_position(viewport, content, offset) + thumb_size(
            viewport,
            content,
        ) == viewport,
{
    let size = thumb_size(viewport, content);
    let room = viewport - size;
    let max = content - viewport;
    assert(viewport * viewport / content <= viewport) by (nonlinear_arith)
        requires
            0 < viewport < content,
    ;
    assert(0 <= offset * room / max <= room) by (nonlinear_arith)
        requires
            0 <= offset <= max,
            0 < max,
            0 <= room,
    ;
    assert(max * room / max == room) by (nonlinear_arith)
        requires
            0 < max,
    ;
    assert(0 * room / max == 0) by (nonlinear_arith)
        requires
            0 < max,
    ;
}

/// The scrollbar of a scroll view.
#[derive(Clone, Copy, Debug, PartialEq, Eq, Structural)]
pub struct ScrollViewScrollbar {
    props: ScrollViewScrollbarProps,
}

impl ScrollViewScrollbar {
    /// The props of the scrollbar.
    pub closed spec fn asked(self) -> ScrollViewScrollbarProps {
        self.props
    }

    /// The scrollbar with the given props.
    pub fn new(props: ScrollViewScrollbarProps) -> (r: Self)
        ensures
            r.asked() == props,
    {
        ScrollViewScrollbar { props }
    }

    /// How the scrollbar is laid out: one column, as high as its parent.
    pub fn layout(&self) -> (layout: LayoutStyle)
        ensures
            layout == (LayoutStyle {
                width: Dimension::Length(1),
                height: Dimension::Percent(100),
                ..crate::style::plain_layout()
            }),
    {
        let mut layout = LayoutStyle::default();
        layout.width = Dimension::Length(1);
        layout.height = Dimension::Percent(100);
        layout
    }

    /// Draws the scrollbar.
    pub fn draw(&self, shares_row: bool) -> (ops: Vec<DrawOp>)
        requires
            0 <= self.asked().scroll_offset,
        ensures
            crate::canvas::drawing(ops@) == if shares_row {
                Seq::empty()
            } else {
                scrollbar_drawing(self.asked())
            },
    {
        let mut ops: Vec<DrawOp> = Vec::new();
        assert(crate::canvas::drawing(ops@) =~= Seq::empty());
        let viewport: u64 = self.props.viewport_height as u64;
        let content: u64 = self.props.content_height as u64;
        if shares_row || viewport == 0 || content <= viewport {
            return ops;
        }
        let offset: u64 = self.props.scroll_offset as u64;
        assert(0 <= viewport * viewport <= 0xffff * 0xffff) by (nonlinear_arith)
            requires
                0 <= viewport <= 0xffff,
        ;
        let square: u64 = viewport * viewport;
        let mut size: u64 = square / content;
        if size < 1 {
            size = 1;
        }
        proof {
            lemma_thumb_stays_on_track(viewport as int, content as int, 0);
        }
        let room: u64 = viewport - size;
        assert(0 <= offset * room <= 0x7fff_ffff * 0xffff) by (nonlinear_arith)
            requires
                0 <= offset <= 0x7fff_ffff,
                0 <= room <= 0xffff,
        ;
        let start: u64 = (offset * room) / (content - viewport);
        assert(start <= 0x7fff_ffff * 0xffff) by (nonlinear_arith)
            requires
                start == (offset * room) / (content - viewport),
                0 <= offset * room <= 0x7fff_ffff * 0xffff,
                content > viewport,
        ;
        let ghost goal = scrollbar_drawing(self.props);
        let plain = CanvasTextStyle::default();
        let mut thumb_style = plain;
        thumb_style.color = Some(
            match self.props.thumb_color {
                Some(color) => color,
                None => Color::White,
            },
        );
        let mut track_style = plain;
        track_style.color = Some(
            match self.props.track_color {
                Some(color) => color,
                None => Color::DarkGrey,
            },
        );
        let mut y: u64 = 0;
        assert(crate::canvas::drawing(ops@) =~= goal.take(0));
        while y < viewport
            invariant
                y <= viewport <= 0xffff,
                viewport == self.props.viewport_height,
                content == self.props.content_height,
                0 < viewport < content,
                size == thumb_size(viewport as int, content as int),
                1 <= size <= viewport,
                start == thumb_position(
                    viewport as int,
                    content as int,
                    self.props.scroll_offset as int,
                ),
                start <= 0x7fff_ffff * 0xffff,
                thumb_style == (CanvasTextStyle {
                    color: Some(
                        match self.props.thumb_color {
                            Some(color) => color,
                            None => Color::White,
                        },
                    ),
                    ..crate::style::plain_style()
                }),
                track_style == (CanvasTextStyle {
                    color: Some(
                        match self.props.track_color {
                            Some(color) => color,
                            None => Color::DarkGrey,
                        },
                    ),
                    ..crate::style::plain_style()
                }),
                goal == scrollbar_drawing(self.props),
                goal.len() == viewport,
                crate::canvas::drawing(ops@) == goal.take(y as int),
            decreases viewport - y,
        {
            let on_thumb = start <= y && y < start + size;
            let text = if on_thumb {
                repeat_char('┃', 1)
            } else {
                repeat_char('│', 1)
            };
            let op = DrawOp::SetText {
                x: 0,
                y: y as isize,
                text,
                style: if on_thumb {
                    thumb_style
                } else {
                    track_style
                },
                link: None,
            };
            let ghost before = crate::canvas::drawing(ops@);
            ops.push(op);
            y = y + 1;
            proof {
                assert(text@ =~= seq![
                    if on_thumb {
                        '┃'
                    } else {
                        '│'
                    },
                ]);
                assert(op@ == goal[y - 1]);
                assert(crate::canvas::drawing(ops@) =~= before.push(op@));
                assert(goal.take(y as int) =~= goal.take(y - 1).push(goal[y - 1]));
            }
        }
        assert(goal.take(y as int) =~= goal);
        ops
    }
}

/// The thumb is to the track as the viewport is to the content, rounded down, and at least one
/// row; and what is above it is to the room for it as the offset is to the largest one.
pub proof fn lemma_thumb_is_proportional(viewport: int, content: int, offset: int)
    requires
        0 < viewport < content,
        0 <= offset <= content - viewport,
    ensures
        ({
            let size = thumb_size(viewport, content);
            let start = thumb_position(viewport, content, offset);
            &&& size == 1 || size * content <= viewport * viewport
            &&& viewport * viewport < (size + 1) * content
            &&& start * (content - viewport) <= offset * (viewport - size)
            &&& offset * (viewport - size) < (start + 1) * (content - viewport)
        }),
{
    let size = thumb_size(viewport, content);
    let whole = viewport * viewport / content;
    assert(whole * content <= viewport * viewport < (whole + 1) * content) by (nonlinear_arith)
        requires
            whole == viewport * viewport / content,
            content > 0,
    ;
    if whole < 1 {
        assert(viewport * viewport < (size + 1) * content) by (nonlinear_arith)
            requires
                viewport * viewport < (whole + 1) * content,
                whole < 1,
                size == 1,
                content > 0,
        ;
    }
    let max = content - viewport;
    let product = offset * (viewport - size);
    let start = thumb_position(viewport, content, offset);
    assert(start * max <= product < (start + 1) * max) by (nonlinear_arith)
        requires
            start == product / max,
            max > 0,
    ;
}

/// A scrollbar is drawn as one character for each row of the viewport, in the first column:
/// the thumb in its color, which is white by default, and the track in its color, which is
/// dark grey by default.
pub proof fn lemma_scrollbar_rows(props: ScrollViewScrollbarProps, y: int)
    requires
        0 <= y < props.viewport_height < props.content_height,
    ensures
        ({
            let drawing = scrollbar_drawing(props);
            let start = thumb_position(
                props.viewport_height as int,
                props.content_height as int,
                props.scroll_offset as int,
            );
            let size = thumb_size(props.viewport_height as int, props.content_height as int);
            let thumb = props.thumb_color is Some;
            let track = props.track_color is Some;
            &&& drawing.len() == props.viewport_height
            &&& drawing[y] is SetText
            &&& drawing[y]->SetText_x == 0 && drawing[y]->SetText_y == y
            &&& drawing[y]->text.len() == 1 && drawing[y]->link is None
            &&& start <= y < start + size ==> {
                &&& drawing[y]->text[0] == '┃'
                &&& thumb ==> drawing[y]->style.color == props.thumb_color
                &&& !thumb ==> drawing[y]->style.color == Some(Color::White)
            }
            &&& !(start <= y < start + size) ==> {
                &&& drawing[y]->text[0] == '│'
                &&& track ==> drawing[y]->style.color == props.track_color
                &&& !track ==> drawing[y]->style.color == Some(Color::DarkGrey)
            }
        }),
{
}

/// A scrollbar is shown where it was not declined and the content is higher than the viewport.
/// The content of a view that follows the bottom stands at its end; any other is moved up by
/// the rendered offset.
pub proof fn lemma_content_is_moved_up(
    element: AnyElement,
    state: ScrollViewState,
    props: ScrollViewProps,
)
    requires
        is_scroll_view(element, state, props),
    ensures
        ({
            let bar = (props.scrollbar is None || props.scrollbar->0) && state.content_height
                > state.viewport_height;
            let pane = if bar {
                element.node->View_0.children@[0]
            } else {
                element
            };
            let inner = pane.node->View_0.children@[0];
            let follows = state.auto_scroll_enabled && !state.user_scrolled_up;
            &&& bar ==> {
                let scrollbar = element.node->View_0.children@[1].node->Scrollbar_0;
                &&& element.node->View_0.children@.len() == 2
                &&& element.node->View_0.children@[1].node is Scrollbar
                &&& scrollbar.viewport_height == state.viewport_height
                &&& scrollbar.content_height == state.content_height
                &&& scrollbar.scroll_offset == state.visual()
                &&& scrollbar.thumb_color == props.scrollbar_thumb_color
                &&& scrollbar.track_color == props.scrollbar_track_color
            }
            &&& pane.node->View_0.layout.overflow == Overflow::Hidden
            &&& follows ==> {
                &&& pane.node->View_0.layout.justify_content == JustifyContent::FlexEnd
                &&& pane.node->View_0.layout.flex_direction == FlexDirection::Column
                &&& inner.node->ContentMeasurer_0.children == props.children
                &&& inner.node->ContentMeasurer_0.pinned_to_bottom
            }
            &&& !follows ==> {
                let content = inner.node->View_0.children@[0];
                &&& inner.node->View_0.layout.position == Position::Absolute
                &&& inner.node->View_0.layout.top is Some
                &&& inner.node->View_0.layout.top->0 + state.visual() == 0
                &&& content.node->ContentMeasurer_0.children == props.children
                &&& !content.node->ContentMeasurer_0.pinned_to_bottom
            }
        }),
{
}

} // verus!
