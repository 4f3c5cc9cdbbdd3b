//! The text component and the drawer that it shares with mixed text.

use crate::bidi::reorder_bidi_text;
use crate::canvas::{string_display_width, string_display_width_from_col, DrawOp};
use crate::strings::{chars_of, clone_text, repeat_char, string_of};
use crate::style::{CanvasTextStyle, Color, UnderlineStyle, Weight};
use crate::text_wrap::{measure_for_layout, strip_ansi, wrap_lines, AvailableSpace, TextWrap};
use crate::whitespace::count_passed_over;
use vstd::prelude::*;

verus! {

use crate::canvas::DrawModel;
use crate::text_wrap::WrappedModel;

/// The alignment of text.
#[derive(Copy, Clone, Debug, Eq, PartialEq, Structural)]
pub enum TextAlign {
    /// Text is aligned to the left.
    Left,
    /// Text is aligned to the right.
    Right,
    /// Text is aligned to the center.
    Center,
}

impl Default for TextAlign {
    fn default() -> (r: Self)
        ensures
            r == TextAlign::Left,
    {
        TextAlign::Left
    }
}

/// The decoration of text.
#[derive(Copy, Clone, Debug, Eq, PartialEq, Structural)]
pub enum TextDecoration {
    /// No decoration.
    Plain,
    /// The text is underlined.
    Underline,
}

impl Default for TextDecoration {
    fn default() -> (r: Self)
        ensures
            r == TextDecoration::Plain,
    {
        TextDecoration::Plain
    }
}

/// Where a line starts in a component of the given width; negative where it is
/// wider than that.
pub open spec fn padding_of(line_width: int, align: TextAlign, width: int) -> int {
    match align {
        TextAlign::Left => 0,
        TextAlign::Right => width - line_width,
        TextAlign::Center => width / 2 - line_width / 2,
    }
}

/// Where a line starts in a component of the given width.
pub fn alignment_padding(line_width: usize, align: TextAlign, width: usize) -> (padding: isize)
    requires
        line_width <= isize::MAX,
        width <= isize::MAX,
    ensures
        padding == padding_of(line_width as int, align, width as int),
{
    match align {
        TextAlign::Left => 0,
        TextAlign::Right => width as isize - line_width as isize,
        TextAlign::Center => width as isize / 2 - line_width as isize / 2,
    }
}

/// What a [`TextDrawer`] holds.
pub struct DrawerModel {
    /// The column at which lines start.
    pub x_offset: int,
    /// The column that the next text starts at.
    pub x: int,
    /// The row that is drawn.
    pub y: int,
    /// Whether the row has text that is not white space.
    pub seen_text: bool,
    /// Whether white space at the start of a row is passed over.
    pub skips_leading: bool,
    /// Where the content of the last row ends.
    pub content_end: int,
    /// Whether text is put into visual order.
    pub software_bidi: bool,
    /// What was drawn.
    pub ops: Seq<DrawModel>,
}

impl DrawerModel {
    /// Nothing drawn yet.
    pub open spec fn initial(
        x_offset: int,
        skips_leading: bool,
        software_bidi: bool,
    ) -> DrawerModel {
        DrawerModel {
            x_offset,
            x: x_offset,
            y: 0,
            seen_text: false,
            skips_leading,
            content_end: 0,
            software_bidi,
            ops: Seq::empty(),
        }
    }

    /// The row marked as the continuation of the one above it.
    pub open spec fn marked(self) -> DrawerModel {
        DrawerModel {
            ops: self.ops.push(
                DrawModel::MarkSoftWrap { y: self.y, content_end: self.content_end },
            ),
            ..self
        }
    }

    /// At the start of the next row.
    pub open spec fn next_row(self) -> DrawerModel {
        DrawerModel { x: self.x_offset, y: self.y + 1, seen_text: false, ..self }
    }

    /// How much of a text is passed over.
    pub open spec fn skipped(self, text: Seq<char>) -> int {
        if self.skips_leading && !self.seen_text {
            crate::whitespace::passed_over(text)
        } else {
            0
        }
    }

    /// Whether a text can be split behind what is passed over of it.
    pub open spec fn splits(self, text: Seq<char>) -> bool {
        self.skips_leading && !self.seen_text ==> crate::whitespace::start_splits(text)
    }

    /// Whether lines can be split, of which the first is drawn on this row.
    pub open spec fn splits_lines(self, lines: Seq<Seq<char>>) -> bool {
        forall|i: int|
            0 <= i < lines.len() ==> (DrawerModel {
                seen_text: i == 0 && self.seen_text,
                ..self
            }).splits(#[trigger] lines[i])
    }

    /// One text more drawn on the row: white space at its start is passed over
    /// where it should be, its background is drawn before it.
    pub open spec fn with_text(
        self,
        text: Seq<char>,
        style: CanvasTextStyle,
        background: Option<Color>,
        link: Option<Seq<char>>,
    ) -> DrawerModel {
        let skip: int = self.skipped(text);
        let x: int = self.x + crate::canvas::display_width_from(
            text.take(skip),
            crate::math::max_int(self.x, 0),
        );
        let rest: Seq<char> = text.skip(skip);
        let visual: Seq<char> = crate::bidi::visual_text(rest, self.software_bidi);
        let width: int = crate::canvas::display_width_from(visual, crate::math::max_int(x, 0));
        let filled: Seq<DrawModel> = match background {
            Some(color) => self.ops.push(
                DrawModel::SetBackground { x, y: self.y, width, height: 1, color },
            ),
            None => self.ops,
        };
        DrawerModel {
            x: x + width,
            seen_text: self.seen_text || (self.skips_leading && rest.len() > 0),
            content_end: crate::math::max_int(x + width, 0),
            ops: filled.push(DrawModel::SetText { x, y: self.y, text: visual, style, link }),
            ..self
        }
    }

    /// Several lines drawn, each on a row of its own; the last one stays open.
    pub open spec fn with_lines(
        self,
        lines: Seq<Seq<char>>,
        style: CanvasTextStyle,
        background: Option<Color>,
        link: Option<Seq<char>>,
    ) -> DrawerModel
        decreases lines.len(),
    {
        if lines.len() == 0 {
            self
        } else if lines.len() == 1 {
            self.with_text(lines[0], style, background, link)
        } else {
            self.with_lines(lines.drop_last(), style, background, link).next_row().with_text(
                lines.last(),
                style,
                background,
                link,
            )
        }
    }
}

/// Draws text row by row.
#[derive(Debug)]
pub struct TextDrawer {
    x_offset: isize,
    x: isize,
    y: isize,
    line_encountered_non_whitespace: bool,
    skip_leading_whitespace: bool,
    prev_line_content_end: usize,
    software_bidi: bool,
    ops: Vec<DrawOp>,
}

impl View for TextDrawer {
    type V = DrawerModel;

    closed spec fn view(&self) -> DrawerModel {
        DrawerModel {
            x_offset: self.x_offset as int,
            x: self.x as int,
            y: self.y as int,
            seen_text: self.line_encountered_non_whitespace,
            skips_leading: self.skip_leading_whitespace,
            content_end: self.prev_line_content_end as int,
            software_bidi: self.software_bidi,
            ops: crate::canvas::drawing(self.ops@),
        }
    }
}

impl TextDrawer {
    /// A drawer with nothing drawn yet.
    pub fn new(x_offset: isize, skip_leading_whitespace: bool, software_bidi: bool) -> (r: Self)
        ensures
            r@ == DrawerModel::initial(x_offset as int, skip_leading_whitespace, software_bidi),
    {
        let r = TextDrawer {
            x_offset,
            x: x_offset,
            y: 0,
            line_encountered_non_whitespace: false,
            skip_leading_whitespace,
            prev_line_content_end: 0,
            software_bidi,
            ops: Vec::new(),
        };
        assert(r@.ops =~= Seq::empty());
        r
    }

    /// Draws lines of plain text without a link.
    pub fn append_lines(&mut self, lines: &Vec<String>, style: CanvasTextStyle)
        requires
            old(self)@.y + lines@.len() <= isize::MAX,
            old(self)@.splits_lines(crate::strings::texts(lines@)),
            forall|i: int|
                0 <= i < lines@.len() ==> crate::canvas::countable(
                    (#[trigger] lines@[i])@.len() as int,
                    crate::math::max_int(
                        crate::math::max_int(old(self)@.x, old(self)@.x_offset),
                        0,
                    ),
                ),
        ensures
            final(self)@ == old(self)@.with_lines(
                crate::strings::texts(lines@),
                style,
                None,
                None,
            ),
    {
        self.append_lines_with_link(lines, style, &None);
    }

    /// Draws lines of text with an optional link.
    pub fn append_lines_with_link(
        &mut self,
        lines: &Vec<String>,
        style: CanvasTextStyle,
        hyperlink: &Option<String>,
    )
        requires
            old(self)@.y + lines@.len() <= isize::MAX,
            old(self)@.splits_lines(crate::strings::texts(lines@)),
            forall|i: int|
                0 <= i < lines@.len() ==> crate::canvas::countable(
                    (#[trigger] lines@[i])@.len() as int,
                    crate::math::max_int(
                        crate::math::max_int(old(self)@.x, old(self)@.x_offset),
                        0,
                    ),
                ),
        ensures
            final(self)@ == old(self)@.with_lines(
                crate::strings::texts(lines@),
                style,
                None,
                crate::strings::opt_text(*hyperlink),
            ),
    {
        self.append_lines_with_background_and_link(lines, style, None, hyperlink);
    }

    /// Draws lines of text with an optional background and link.
    pub fn append_lines_with_background_and_link(
        &mut self,
        lines: &Vec<String>,
        style: CanvasTextStyle,
        background_color: Option<Color>,
        hyperlink: &Option<String>,
    )
        requires
            old(self)@.y + lines@.len() <= isize::MAX,
            old(self)@.splits_lines(crate::strings::texts(lines@)),
            forall|i: int|
                0 <= i < lines@.len() ==> crate::canvas::countable(
                    (#[trigger] lines@[i])@.len() as int,
                    crate::math::max_int(
                        crate::math::max_int(old(self)@.x, old(self)@.x_offset),
                        0,
                    ),
                ),
        ensures
            final(self)@ == old(self)@.with_lines(
                crate::strings::texts(lines@),
                style,
                background_color,
                crate::strings::opt_text(*hyperlink),
            ),
    {
        let ghost all = crate::strings::texts(lines@);
        let ghost link = crate::strings::opt_text(*hyperlink);
        let mut i: usize = 0;
        while i < lines.len()
            invariant
                i <= lines@.len(),
                all == crate::strings::texts(lines@),
                link == crate::strings::opt_text(*hyperlink),
                old(self)@.y + lines@.len() <= isize::MAX,
                old(self)@.splits_lines(all),
                self@.skips_leading == old(self)@.skips_leading,
                forall|k: int|
                    0 <= k < lines@.len() ==> crate::canvas::countable(
                        (#[trigger] lines@[k])@.len() as int,
                        crate::math::max_int(
                            crate::math::max_int(old(self)@.x, old(self)@.x_offset),
                            0,
                        ),
                    ),
                self@ == old(self)@.with_lines(
                    all.take(i as int),
                    style,
                    background_color,
                    link,
                ),
                self@.x_offset == old(self)@.x_offset,
                i == 0 ==> self@ == old(self)@,
                self@.y == old(self)@.y + if i > 0 {
                    i - 1
                } else {
                    0
                },
            decreases lines@.len() - i,
        {
            proof {
                assert(all.take(i + 1).drop_last() =~= all.take(i as int));
                assert(all.take(i + 1).last() == lines@[i as int]@);
                assert(lines@[i as int]@.len() >= 0);
                assert((DrawerModel {
                    seen_text: i == 0 && old(self)@.seen_text,
                    ..old(self)@
                }).splits(all[i as int]));
            }
            if i > 0 {
                self.finish_line();
            }
            self.append_text(lines[i].as_str(), style, background_color, hyperlink);
            i = i + 1;
        }
        assert(all.take(i as int) =~= all);
    }

    /// Marks the row as the continuation of the one above it.
    pub fn mark_current_line_soft_wrap(&mut self)
        ensures
            final(self)@ == old(self)@.marked(),
    {
        let op = DrawOp::MarkSoftWrap { y: self.y, content_end: self.prev_line_content_end };
        self.ops.push(op);
        assert(self@.ops =~= old(self)@.ops.push(op@));
    }

    /// Goes on to the next row.
    pub fn finish_line(&mut self)
        requires
            old(self)@.y < isize::MAX,
        ensures
            final(self)@ == old(self)@.next_row(),
    {
        self.y = self.y + 1;
        self.x = self.x_offset;
        self.line_encountered_non_whitespace = false;
    }

    /// Sets where the content of the row ends.
    pub fn set_prev_line_content_end(&mut self, content_end: usize)
        ensures
            final(self)@ == (DrawerModel { content_end: content_end as int, ..old(self)@ }),
    {
        self.prev_line_content_end = content_end;
    }

    /// Draws one text on the row.
    pub fn append_text(
        &mut self,
        text: &str,
        style: CanvasTextStyle,
        background_color: Option<Color>,
        hyperlink: &Option<String>,
    )
        requires
            crate::canvas::countable(
                text@.len() as int,
                crate::math::max_int(old(self)@.x, 0),
            ),
            old(self)@.splits(text@),
        ensures
            final(self)@ == old(self)@.with_text(
                text@,
                style,
                background_color,
                crate::strings::opt_text(*hyperlink),
            ),
            final(self)@.x <= crate::math::max_int(old(self)@.x, 0) + 8 * text@.len(),
    {
        let chars = chars_of(text);
        let mut skip: usize = 0;
        if self.skip_leading_whitespace && !self.line_encountered_non_whitespace {
            if let Some(count) = count_passed_over(&chars) {
                skip = count;
            }
        }
        let whitespace = string_of(&chars, 0, skip);
        let rest = string_of(&chars, skip, chars.len());
        assert(whitespace@ =~= text@.take(skip as int));
        assert(rest@ =~= text@.skip(skip as int));
        if self.x < 0 {
            self.x = self.x + string_display_width_from_col(whitespace.as_str(), 0) as isize;
        } else {
            self.x = self.x + string_display_width_from_col(
                whitespace.as_str(),
                self.x as usize,
            ) as isize;
        }
        if self.skip_leading_whitespace && !rest.as_str().is_empty() {
            self.line_encountered_non_whitespace = true;
        }
        let visual = reorder_bidi_text(rest.as_str(), self.software_bidi);
        let column: usize = if self.x < 0 {
            0
        } else {
            self.x as usize
        };
        let width: usize = string_display_width_from_col(visual.as_str(), column);
        let ghost before = crate::canvas::drawing(self.ops@);
        if let Some(color) = background_color {
            let op = DrawOp::SetBackground { x: self.x, y: self.y, width, height: 1, color };
            self.ops.push(op);
            assert(crate::canvas::drawing(self.ops@) =~= before.push(op@));
        }
        let ghost filled = crate::canvas::drawing(self.ops@);
        let op = DrawOp::SetText {
            x: self.x,
            y: self.y,
            text: visual,
            style,
            link: clone_text(hyperlink),
        };
        self.ops.push(op);
        assert(crate::canvas::drawing(self.ops@) =~= filled.push(op@));
        self.x = self.x + width as isize;
        self.prev_line_content_end = if self.x < 0 {
            0
        } else {
            self.x as usize
        };
    }

    /// Hands out what was drawn.
    pub fn into_ops(self) -> (ops: Vec<DrawOp>)
        ensures
            crate::canvas::drawing(ops@) == self@.ops,
    {
        self.ops
    }
}

/// The props of [`Text`].
#[derive(Debug)]
pub struct TextProps {
    /// The color of the text.
    pub color: Option<Color>,
    /// The color behind the text.
    pub background_color: Option<Color>,
    /// The content of the text.
    pub content: String,
    /// The weight of the text.
    pub weight: Weight,
    /// Bold weight; wins over `weight`.
    pub bold: bool,
    /// Light weight; wins over `bold` and `weight`.
    pub dim: bool,
    /// The wrapping behavior.
    pub wrap: TextWrap,
    /// The alignment.
    pub align: TextAlign,
    /// The decoration.
    pub decoration: TextDecoration,
    /// An underline, whatever the decoration is.
    pub underline: bool,
    /// Whether the text is italic.
    pub italic: bool,
    /// Whether the text is struck through.
    pub strikethrough: bool,
    /// Whether the text has a line above it.
    pub overline: bool,
    /// Whether foreground and background are swapped.
    pub invert: bool,
    /// The same as `invert`.
    pub inverse: bool,
    /// The hyperlink of the text.
    pub href: Option<String>,
}

/// Props of a text that nothing was asked of.
pub open spec fn is_plain_text(props: TextProps) -> bool {
    &&& props.color is None
    &&& props.background_color is None
    &&& props.weight == Weight::Normal
    &&& !props.bold
    &&& !props.dim
    &&& props.wrap == TextWrap::Wrap
    &&& props.align == TextAlign::Left
    &&& props.decoration == TextDecoration::Plain
    &&& !props.underline
    &&& !props.italic
    &&& !props.strikethrough
    &&& !props.overline
    &&& !props.invert
    &&& !props.inverse
    &&& props.href is None
}

impl Default for TextProps {
    fn default() -> (r: Self)
        ensures
            is_plain_text(r),
            r.content@.len() == 0,
    {
        TextProps {
            color: None,
            background_color: None,
            content: String::new(),
            weight: Weight::Normal,
            bold: false,
            dim: false,
            wrap: TextWrap::Wrap,
            align: TextAlign::Left,
            decoration: TextDecoration::Plain,
            underline: false,
            italic: false,
            strikethrough: false,
            overline: false,
            invert: false,
            inverse: false,
            href: None,
        }
    }
}

/// Props of a text with nothing but a content, colors and a weight.
pub open spec fn is_colored_text(
    props: TextProps,
    content: Seq<char>,
    color: Option<Color>,
    background: Option<Color>,
    weight: Weight,
) -> bool {
    &&& props.content@ == content
    &&& props.color == color
    &&& props.background_color == background
    &&& props.weight == weight
    &&& is_plain_text(
        TextProps { color: None, background_color: None, weight: Weight::Normal, ..props },
    )
}

/// The props of a text with nothing but a content, colors and a weight.
pub fn colored_text(
    content: String,
    color: Option<Color>,
    background: Option<Color>,
    weight: Weight,
) -> (props: TextProps)
    ensures
        is_colored_text(props, content@, color, background, weight),
{
    let plain = TextProps::default();
    TextProps { content, color, background_color: background, weight, ..plain }
}

/// The style that the props ask for.
pub open spec fn text_style(props: TextProps) -> CanvasTextStyle {
    CanvasTextStyle {
        color: props.color,
        weight: if props.dim {
            Weight::Light
        } else if props.bold {
            Weight::Bold
        } else {
            props.weight
        },
        underline: props.underline || props.decoration == TextDecoration::Underline,
        italic: props.italic,
        strikethrough: props.strikethrough,
        overline: props.overline,
        invert: props.invert || props.inverse,
        ..crate::style::plain_style()
    }
}

/// How a text is drawn.
pub struct TextModel {
    pub style: CanvasTextStyle,
    pub background_color: Option<Color>,
    pub content: Seq<char>,
    pub wrap: TextWrap,
    pub align: TextAlign,
    pub hyperlink: Option<Seq<char>>,
}

/// The smallest of the paddings; zero where there is none.
pub open spec fn least_padding(lines: Seq<WrappedModel>, align: TextAlign, width: int) -> int
    decreases lines.len(),
{
    if lines.len() == 0 {
        0
    } else {
        let last: int = padding_of(
            crate::canvas::display_width(lines.last().text),
            align,
            width,
        );
        if lines.len() == 1 {
            last
        } else {
            crate::math::min_int(least_padding(lines.drop_last(), align, width), last)
        }
    }
}

/// Spaces drawn up to the padding of a line, where it is larger than the least
/// one.
pub open spec fn padded(drawer: DrawerModel, padding: int) -> DrawerModel {
    if padding > drawer.x_offset {
        drawer.with_text(
            crate::strings::repeated(' ', padding - drawer.x_offset),
            crate::style::plain_style(),
            None,
            None,
        )
    } else {
        drawer
    }
}

/// A row before its text is drawn: marked where it continues the one above it, and
/// padded.
pub open spec fn row_opened(drawer: DrawerModel, soft: bool, padding: int) -> DrawerModel {
    padded(
        if soft {
            drawer.marked()
        } else {
            drawer
        },
        padding,
    )
}

/// A row after its text was drawn; the next one begun, where there is one.
pub open spec fn row_closed(
    drawer: DrawerModel,
    padding: int,
    content_end: int,
    is_last: bool,
) -> DrawerModel {
    let ended = DrawerModel {
        content_end: crate::math::max_int(padding + content_end, 0),
        ..drawer
    };
    if is_last {
        ended
    } else {
        ended.next_row()
    }
}

impl TextModel {
    /// The drawer after the first `count` lines.
    pub open spec fn drawn(
        self,
        lines: Seq<WrappedModel>,
        width: int,
        software_bidi: bool,
        count: int,
    ) -> DrawerModel
        decreases count,
    {
        if count <= 0 {
            DrawerModel::initial(
                least_padding(lines, self.align, width),
                self.align != TextAlign::Left,
                software_bidi,
            )
        } else {
            let line: WrappedModel = lines[count - 1];
            let padding: int = padding_of(
                crate::canvas::display_width(line.text),
                self.align,
                width,
            );
            row_closed(
                row_opened(
                    self.drawn(lines, width, software_bidi, count - 1),
                    line.soft_continuation,
                    padding,
                ).with_text(line.text, self.style, self.background_color, self.hyperlink),
                padding,
                line.content_end,
                count == lines.len(),
            )
        }
    }

    /// Whether every row can be split behind what is passed over of it, where it is aligned.
    pub open spec fn splits(self, width: int) -> bool {
        let lines: Seq<WrappedModel> = crate::text_wrap::shown_lines(
            self.content,
            self.wrap,
            width,
        );
        self.align != TextAlign::Left ==> forall|i: int|
            0 <= i < lines.len() ==> crate::whitespace::start_splits((#[trigger] lines[i]).text)
    }

    /// What draws the text in a component of the given width.
    pub open spec fn drawing(self, width: int, software_bidi: bool) -> Seq<DrawModel> {
        let lines: Seq<WrappedModel> = crate::text_wrap::shown_lines(
            self.content,
            self.wrap,
            width,
        );
        self.drawn(lines, width, software_bidi, lines.len() as int).ops
    }
}

/// The width that text is drawn in: where it wraps, no more than what is left of
/// the canvas.
pub open spec fn drawing_width(wrap: TextWrap, layout_width: int, remaining_width: int) -> int {
    if crate::text_wrap::keeps_lines(wrap) {
        layout_width
    } else {
        crate::math::min_int(layout_width, remaining_width)
    }
}

/// A text of this length can be drawn in this width: its columns can be counted.
pub open spec fn drawable(length: int, width: int) -> bool {
    32 * width + 512 * (length + 1) <= isize::MAX
}

/// Opens a row: marks it where it continues the one above it, and pads it.
pub fn open_row(drawer: &mut TextDrawer, soft: bool, padding: isize)
    requires
        padding - old(drawer)@.x_offset <= isize::MAX,
        padding > old(drawer)@.x_offset ==> crate::canvas::countable(
            padding - old(drawer)@.x_offset,
            crate::math::max_int(old(drawer)@.x, 0),
        ),
    ensures
        final(drawer)@ == row_opened(old(drawer)@, soft, padding as int),
        padding > old(drawer)@.x_offset ==> final(drawer)@.x <= crate::math::max_int(
            old(drawer)@.x,
            0,
        ) + 8 * (padding - old(drawer)@.x_offset),
        padding <= old(drawer)@.x_offset ==> final(drawer)@.x == old(drawer)@.x,
{
    if soft {
        drawer.mark_current_line_soft_wrap();
    }
    let x_offset: isize = drawer.x_offset;
    if padding > x_offset {
        let spaces = repeat_char(' ', (padding - x_offset) as usize);
        proof {
            crate::whitespace::lemma_blank_text(spaces@);
        }
        drawer.append_text(spaces.as_str(), CanvasTextStyle::default(), None, &None);
    }
}

/// Closes a row, and begins the next one where there is one.
pub fn close_row(drawer: &mut TextDrawer, padding: isize, content_end: usize, is_last: bool)
    requires
        content_end <= isize::MAX,
        padding + content_end <= isize::MAX,
        !is_last ==> old(drawer)@.y < isize::MAX,
    ensures
        final(drawer)@ == row_closed(
            old(drawer)@,
            padding as int,
            content_end as int,
            is_last,
        ),
{
    let end: isize = padding + content_end as isize;
    drawer.set_prev_line_content_end(
        if end < 0 {
            0
        } else {
            end as usize
        },
    );
    if !is_last {
        drawer.finish_line();
    }
}

/// A component that renders a text.
#[derive(Debug)]
pub struct Text {
    style: CanvasTextStyle,
    background_color: Option<Color>,
    content: String,
    wrap: TextWrap,
    align: TextAlign,
    hyperlink: Option<String>,
}

impl View for Text {
    type V = TextModel;

    closed spec fn view(&self) -> TextModel {
        TextModel {
            style: self.style,
            background_color: self.background_color,
            content: self.content@,
            wrap: self.wrap,
            align: self.align,
            hyperlink: crate::strings::opt_text(self.hyperlink),
        }
    }
}

impl Text {
    /// The component for the given props. Escape sequences in the content are
    /// dropped.
    pub fn new(props: &TextProps) -> (r: Self)
        ensures
            r@ == (TextModel {
                style: text_style(*props),
                background_color: props.background_color,
                content: crate::raw_ansi::visible_text(
                    crate::raw_ansi::ansi_runs(props.content@, false),
                ),
                wrap: props.wrap,
                align: props.align,
                hyperlink: crate::strings::opt_text(props.href),
            }),
            r@.content.len() <= props.content@.len(),
    {
        Text {
            style: CanvasTextStyle {
                color: props.color,
                weight: if props.dim {
                    Weight::Light
                } else if props.bold {
                    Weight::Bold
                } else {
                    props.weight
                },
                underline: props.underline || props.decoration == TextDecoration::Underline,
                underline_style: UnderlineStyle::Single,
                underline_color: None,
                italic: props.italic,
                blink: false,
                hidden: false,
                strikethrough: props.strikethrough,
                overline: props.overline,
                invert: props.invert || props.inverse,
            },
            background_color: props.background_color,
            content: strip_ansi(props.content.as_str()),
            wrap: props.wrap,
            align: props.align,
            hyperlink: clone_text(&props.href),
        }
    }

    /// The size that the text asks of a layout.
    pub fn measure(&self, known_width: Option<usize>, available_width: AvailableSpace) -> (size: (
        usize,
        usize,
    ))
        requires
            crate::text_wrap::wrappable(self@.content.len() as int),
        ensures
            ({
                let shown = crate::text_wrap::laid_out(
                    self@.content,
                    self@.wrap,
                    known_width,
                    available_width,
                );
                &&& size.0 == crate::canvas::widest(crate::strings::split(shown, '\n'))
                &&& size.1 == if shown.len() == 0 {
                    0
                } else {
                    crate::strings::split(shown, '\n').len() as int
                }
            }),
    {
        measure_for_layout(self.content.as_str(), self.wrap, known_width, available_width)
    }

    /// Draws the text in a layout of the given width, with so much left of the
    /// canvas; nothing, where a sibling shares the row of a component without
    /// height.
    pub fn draw(
        &self,
        layout_width: usize,
        remaining_width: usize,
        shares_row: bool,
        software_bidi: bool,
    ) -> (ops: Vec<DrawOp>)
        requires
            drawable(
                self@.content.len() as int,
                drawing_width(self@.wrap, layout_width as int, remaining_width as int),
            ),
            shares_row || self@.splits(
                drawing_width(self@.wrap, layout_width as int, remaining_width as int),
            ),
        ensures
            crate::canvas::drawing(ops@) == if shares_row {
                Seq::empty()
            } else {
                self@.drawing(
                    drawing_width(self@.wrap, layout_width as int, remaining_width as int),
                    software_bidi,
                )
            },
    {
        if shares_row {
            let ops: Vec<DrawOp> = Vec::new();
            assert(crate::canvas::drawing(ops@) =~= Seq::empty());
            return ops;
        }
        let width: usize = match self.wrap {
            TextWrap::NoWrap | TextWrap::End | TextWrap::Middle => layout_width,
            _ => if layout_width < remaining_width {
                layout_width
            } else {
                remaining_width
            },
        };
        let lines = wrap_lines(self.content.as_str(), self.wrap, width);
        let ghost models = crate::text_wrap::wrapped_models(lines@);
        let ghost length = self@.content.len() as int;
        let ghost most = 8 * (2 * length + 1);
        let mut paddings: Vec<isize> = Vec::new();
        let mut x_offset: isize = 0;
        let mut i: usize = 0;
        while i < lines.len()
            invariant
                i <= lines@.len(),
                models == crate::text_wrap::wrapped_models(lines@),
                length == self@.content.len(),
                most == 8 * (2 * length + 1),
                drawable(length, width as int),
                forall|k: int|
                    0 <= k < lines@.len() ==> crate::text_wrap::line_is_short(
                        #[trigger] lines@[k],
                        length,
                    ),
                paddings@.len() == i,
                forall|k: int|
                    0 <= k < i ==> {
                        &&& #[trigger] paddings@[k] == padding_of(
                            crate::canvas::display_width(models[k].text),
                            self@.align,
                            width as int,
                        )
                        &&& -most <= paddings@[k] <= width
                    },
                x_offset == least_padding(models.take(i as int), self@.align, width as int),
                -most <= x_offset <= width,
            decreases lines@.len() - i,
        {
            assert(models[i as int] == lines@[i as int]@);
            assert(models.take(i + 1).drop_last() =~= models.take(i as int));
            let line_width: usize = string_display_width(lines[i].text.as_str());
            let padding: isize = alignment_padding(line_width, self.align, width);
            paddings.push(padding);
            if i == 0 || padding < x_offset {
                x_offset = padding;
            }
            i = i + 1;
        }
        assert(models.take(i as int) =~= models);
        let mut drawer = TextDrawer::new(x_offset, self.align != TextAlign::Left, software_bidi);
        let mut row: usize = 0;
        while row < lines.len()
            invariant
                row <= lines@.len(),
                lines@.len() <= length + 1,
                models == crate::text_wrap::wrapped_models(lines@),
                length == self@.content.len(),
                most == 8 * (2 * length + 1),
                drawable(length, width as int),
                forall|k: int|
                    0 <= k < lines@.len() ==> crate::text_wrap::line_is_short(
                        #[trigger] lines@[k],
                        length,
                    ),
                paddings@.len() == lines@.len(),
                forall|k: int|
                    0 <= k < lines@.len() ==> {
                        &&& #[trigger] paddings@[k] == padding_of(
                            crate::canvas::display_width(models[k].text),
                            self@.align,
                            width as int,
                        )
                        &&& -most <= paddings@[k] <= width
                    },
                x_offset == least_padding(models, self@.align, width as int),
                -most <= x_offset <= width,
                drawer@ == self@.drawn(models, width as int, software_bidi, row as int),
                drawer@.x_offset == x_offset,
                drawer@.skips_leading == (self@.align != TextAlign::Left),
                models == crate::text_wrap::shown_lines(
                    self@.content,
                    self@.wrap,
                    width as int,
                ),
                self@.splits(width as int),
                row < lines@.len() ==> drawer@.x == x_offset && drawer@.y == row,
            decreases lines@.len() - row,
        {
            let line = &lines[row];
            assert(models[row as int] == line@);
            assert(-most <= paddings@[row as int] <= width);
            let padding: isize = paddings[row];
            open_row(&mut drawer, line.soft_continuation, padding);
            drawer.append_text(
                line.text.as_str(),
                self.style,
                self.background_color,
                &self.hyperlink,
            );
            close_row(&mut drawer, padding, line.content_end, row + 1 == lines.len());
            row = row + 1;
        }
        drawer.into_ops()
    }

    /// Draws the text as [`Text::draw`] does, where every row can be split behind the white
    /// space that is passed over.
    pub fn try_draw(
        &self,
        layout_width: usize,
        remaining_width: usize,
        shares_row: bool,
        software_bidi: bool,
    ) -> (ops: Option<Vec<DrawOp>>)
        requires
            drawable(
                self@.content.len() as int,
                drawing_width(self@.wrap, layout_width as int, remaining_width as int),
            ),
        ensures
            ops is Some == (shares_row || self@.splits(
                drawing_width(self@.wrap, layout_width as int, remaining_width as int),
            )),
            ops matches Some(ops) ==> crate::canvas::drawing(ops@) == if shares_row {
                Seq::empty()
            } else {
                self@.drawing(
                    drawing_width(self@.wrap, layout_width as int, remaining_width as int),
                    software_bidi,
                )
            },
    {
        if !shares_row && self.align != TextAlign::Left {
            let width: usize = match self.wrap {
                TextWrap::NoWrap | TextWrap::End | TextWrap::Middle => layout_width,
                _ => if layout_width < remaining_width {
                    layout_width
                } else {
                    remaining_width
                },
            };
            let lines = wrap_lines(self.content.as_str(), self.wrap, width);
            let ghost models = crate::text_wrap::wrapped_models(lines@);
            let mut i: usize = 0;
            while i < lines.len()
                invariant
                    i <= lines@.len(),
                    models == crate::text_wrap::wrapped_models(lines@),
                    models == crate::text_wrap::shown_lines(
                        self@.content,
                        self@.wrap,
                        width as int,
                    ),
                    self@.align != TextAlign::Left,
                    width == drawing_width(
                        self@.wrap,
                        layout_width as int,
                        remaining_width as int,
                    ),
                    !shares_row,
                    forall|k: int|
                        0 <= k < i ==> crate::whitespace::start_splits(
                            (#[trigger] models[k]).text,
                        ),
                decreases lines@.len() - i,
            {
                assert(models[i as int] == lines@[i as int]@);
                let chars = chars_of(lines[i].text.as_str());
                if count_passed_over(&chars).is_none() {
                    assert(!crate::whitespace::start_splits(models[i as int].text));
                    return None;
                }
                i = i + 1;
            }
        }
        Some(self.draw(layout_width, remaining_width, shares_row, software_bidi))
    }
}

/// A line on the left starts at the left edge, one on the right ends at the right edge, and one
/// in the center has as much room on both sides, but for one column.
pub proof fn lemma_alignment(line_width: int, width: int)
    requires
        0 <= line_width,
        0 <= width,
    ensures
        padding_of(line_width, TextAlign::Left, width) == 0,
        padding_of(line_width, TextAlign::Right, width) + line_width == width,
        ({
            let before = padding_of(line_width, TextAlign::Center, width);
            let after = width - line_width - before;
            &&& -1 <= before - after <= 1
            &&& width % 2 == line_width % 2 ==> before == after
            &&& width % 2 == 1 && line_width % 2 == 0 ==> before + 1 == after
            &&& width % 2 == 0 && line_width % 2 == 1 ==> before == after + 1
        }),
{
}

/// A text looks as its props ask: dim text is light, also where it is bold, bold text is bold,
/// any other has its weight; it is underlined for the decoration or the switch, and inverted for
/// either of its switches.
pub proof fn lemma_text_looks(props: TextProps)
    ensures
        ({
            let style = text_style(props);
            &&& style.color == props.color
            &&& props.dim ==> style.weight == Weight::Light
            &&& !props.dim && props.bold ==> style.weight == Weight::Bold
            &&& !props.dim && !props.bold ==> style.weight == props.weight
            &&& style.underline == (props.underline || props.decoration
                == TextDecoration::Underline)
            &&& style.italic == props.italic
            &&& style.strikethrough == props.strikethrough
            &&& style.overline == props.overline
            &&& style.invert == (props.invert || props.inverse)
            &&& !style.blink && !style.hidden && style.underline_color is None
        }),
{
}

/// A text that is wrapped or truncated is drawn in no more columns than are left of the canvas;
/// one that keeps its lines is drawn in its layout.
pub proof fn lemma_drawing_width(wrap: TextWrap, layout_width: int, remaining_width: int)
    ensures
        ({
            let width = drawing_width(wrap, layout_width, remaining_width);
            let kept = wrap == TextWrap::NoWrap || wrap == TextWrap::End || wrap
                == TextWrap::Middle;
            &&& kept ==> width == layout_width
            &&& !kept && layout_width <= remaining_width ==> width == layout_width
            &&& !kept && layout_width > remaining_width ==> width == remaining_width
        }),
{
}

proof fn lemma_least_padding_on_the_left(lines: Seq<WrappedModel>, width: int)
    ensures
        least_padding(lines, TextAlign::Left, width) == 0,
    decreases lines.len(),
{
    if lines.len() > 1 {
        lemma_least_padding_on_the_left(lines.drop_last(), width);
    }
}

/// What writes a line of a text on its row.
pub open spec fn line_cell(text: TextModel, line: Seq<char>, y: int, software_bidi: bool) -> DrawModel {
    DrawModel::SetText {
        x: 0,
        y,
        text: crate::bidi::visual_text(line, software_bidi),
        style: text.style,
        link: text.hyperlink,
    }
}

/// What marks a row as the continuation of the one above it.
pub open spec fn continuation_mark(lines: Seq<WrappedModel>, y: int) -> DrawModel {
    DrawModel::MarkSoftWrap { y, content_end: if y == 0 {
        0
    } else {
        crate::math::max_int(lines[y - 1].content_end, 0)
    } }
}

/// What fills the background of a line of a text.
pub open spec fn line_background(
    line: Seq<char>,
    y: int,
    color: Color,
    software_bidi: bool,
) -> DrawModel {
    DrawModel::SetBackground {
        x: 0,
        y,
        width: crate::canvas::display_width(crate::bidi::visual_text(line, software_bidi)),
        height: 1,
        color,
    }
}

/// A list holds what it held before, and what is added to it.
proof fn lemma_added(ops: Seq<DrawModel>, op: DrawModel, other: DrawModel)
    ensures
        ops.push(op).contains(op),
        ops.contains(other) ==> ops.push(op).contains(other),
{
    assert(ops.push(op)[ops.len() as int] == op);
    if ops.contains(other) {
        let k = choose|k: int| 0 <= k < ops.len() && ops[k] == other;
        assert(ops.push(op)[k] == other);
    }
}

/// A text on the left is drawn line by line, each on its own row from the first column on, with
/// its background under it, and with a mark where it continues the line above it.
pub proof fn lemma_lines_are_drawn(
    text: TextModel,
    lines: Seq<WrappedModel>,
    width: int,
    software_bidi: bool,
    count: int,
)
    requires
        text.align == TextAlign::Left,
        0 <= count <= lines.len(),
    ensures
        crate::canvas::graphemes(Seq::empty()).len() == 0 ==> {
            let drawn = text.drawn(lines, width, software_bidi, count);
            &&& drawn.x_offset == 0 && !drawn.skips_leading && drawn.software_bidi
                == software_bidi
            &&& count < lines.len() ==> drawn.x == 0 && drawn.y == count
            &&& count > 0 ==> drawn.content_end == crate::math::max_int(
                lines[count - 1].content_end,
                0,
            )
            &&& count == 0 ==> drawn.content_end == 0
            &&& forall|y: int|
                0 <= y < count ==> drawn.ops.contains(
                    #[trigger] line_cell(text, lines[y].text, y, software_bidi),
                )
            &&& forall|y: int|
                0 <= y < count && lines[y].soft_continuation ==> drawn.ops.contains(
                    #[trigger] continuation_mark(lines, y),
                )
            &&& text.background_color matches Some(color) ==> forall|y: int|
                0 <= y < count ==> drawn.ops.contains(
                    #[trigger] line_background(lines[y].text, y, color, software_bidi),
                )
            &&& forall|k: int|
                0 <= k < drawn.ops.len() ==> match #[trigger] drawn.ops[k] {
                    DrawModel::SetText { x, y, text: shown, style, link } => 0 <= y < count
                        && drawn.ops[k] == line_cell(text, lines[y].text, y, software_bidi),
                    DrawModel::MarkSoftWrap { y, content_end } => 0 <= y < count
                        && lines[y].soft_continuation,
                    DrawModel::SetBackground { x, y, width: columns, height, color } => 0 <= y
                        < count && text.background_color == Some(color),
                    _ => false,
                }
        },
    decreases count,
{
    lemma_least_padding_on_the_left(lines, width);
    if count > 0 && crate::canvas::graphemes(Seq::empty()).len() == 0 {
        lemma_lines_are_drawn(text, lines, width, software_bidi, count - 1);
        let before = text.drawn(lines, width, software_bidi, count - 1);
        let after = text.drawn(lines, width, software_bidi, count);
        let line = lines[count - 1];
        let row: int = count - 1;
        let opened = row_opened(before, line.soft_continuation, 0);
        let written = opened.with_text(
            line.text,
            text.style,
            text.background_color,
            text.hyperlink,
        );
        assert(line.text.take(0) =~= Seq::empty());
        assert(line.text.skip(0) =~= line.text);
        assert(crate::canvas::display_width_from(line.text.take(0), 0) == 0);
        let mark = continuation_mark(lines, row);
        let cell = line_cell(text, line.text, row, software_bidi);
        let opened_ops = if line.soft_continuation {
            before.ops.push(mark)
        } else {
            before.ops
        };
        assert(opened.ops == opened_ops);
        let filled_ops = match text.background_color {
            Some(color) => opened_ops.push(line_background(line.text, row, color, software_bidi)),
            None => opened_ops,
        };
        assert(after.ops == filled_ops.push(cell));
        assert forall|op: DrawModel| #[trigger] before.ops.contains(op) implies after.ops.contains(
            op,
        ) by {
            lemma_added(before.ops, mark, op);
            if let Some(color) = text.background_color {
                lemma_added(opened_ops, line_background(line.text, row, color, software_bidi), op);
            }
            lemma_added(filled_ops, cell, op);
        }
        lemma_added(filled_ops, cell, cell);
        if line.soft_continuation {
            lemma_added(before.ops, mark, mark);
            if let Some(color) = text.background_color {
                lemma_added(
                    opened_ops,
                    line_background(line.text, row, color, software_bidi),
                    mark,
                );
            }
            lemma_added(filled_ops, cell, mark);
        }
        if let Some(color) = text.background_color {
            let ground = line_background(line.text, row, color, software_bidi);
            lemma_added(opened_ops, ground, ground);
            lemma_added(filled_ops, cell, ground);
        }
        assert forall|y: int| 0 <= y < count implies after.ops.contains(
            #[trigger] line_cell(text, lines[y].text, y, software_bidi),
        ) by {
            if y < row {
                assert(before.ops.contains(line_cell(text, lines[y].text, y, software_bidi)));
            }
        }
        assert forall|y: int| 0 <= y < count && lines[y].soft_continuation implies after.ops.contains(
            #[trigger] continuation_mark(lines, y),
        ) by {
            if y < row {
                assert(before.ops.contains(continuation_mark(lines, y)));
            }
        }
        if let Some(color) = text.background_color {
            assert forall|y: int| 0 <= y < count implies after.ops.contains(
                #[trigger] line_background(lines[y].text, y, color, software_bidi),
            ) by {
                if y < row {
                    assert(before.ops.contains(
                        line_background(lines[y].text, y, color, software_bidi),
                    ));
                }
            }
        }
        assert forall|k: int| 0 <= k < after.ops.len() implies match #[trigger] after.ops[k] {
            DrawModel::SetText { x, y, text: shown, style, link } => 0 <= y < count
                && after.ops[k] == line_cell(text, lines[y].text, y, software_bidi),
            DrawModel::MarkSoftWrap { y, content_end } => 0 <= y < count
                && lines[y].soft_continuation,
            DrawModel::SetBackground { x, y, width: columns, height, color } => 0 <= y < count
                && text.background_color == Some(color),
            _ => false,
        } by {
            if k < before.ops.len() {
                assert(after.ops[k] == before.ops[k]);
            }
        }
    }
}

/// A text is written on the row of the drawer in its style and with its link, over its background.
/// Where white space at the start of a row is passed over and nothing else was written on the row,
/// the text is written without it; otherwise it is written as a whole. The next text starts behind
/// it.
pub proof fn lemma_text_is_written(
    drawer: DrawerModel,
    text: Seq<char>,
    style: CanvasTextStyle,
    background: Option<Color>,
    link: Option<Seq<char>>,
)
    ensures
        ({
            let after = drawer.with_text(text, style, background, link);
            let op = after.ops.last();
            let passes = drawer.skips_leading && !drawer.seen_text;
            let left = if passes {
                text.skip(crate::whitespace::passed_over(text))
            } else {
                text
            };
            let shown = crate::bidi::visual_text(left, drawer.software_bidi);
            &&& after.ops.len() == drawer.ops.len() + if background is Some {
                2int
            } else {
                1
            }
            &&& op is SetText && op->SetText_y == drawer.y && op->text == shown
            &&& op->style == style && op->link == link
            &&& after.x == op->SetText_x + crate::canvas::display_width_from(
                shown,
                crate::math::max_int(op->SetText_x, 0),
            )
            &&& background matches Some(color) ==> after.ops[drawer.ops.len() as int] == (
            DrawModel::SetBackground {
                x: op->SetText_x,
                y: drawer.y,
                width: after.x - op->SetText_x,
                height: 1,
                color,
            })
            &&& forall|k: int|
                0 <= k < drawer.ops.len() ==> #[trigger] after.ops[k] == drawer.ops[k]
            &&& after.seen_text == (drawer.seen_text || (drawer.skips_leading && left.len() > 0))
            &&& after.y == drawer.y && after.x_offset == drawer.x_offset
        }),
        ({
            let next = drawer.next_row();
            next.x == drawer.x_offset && next.y == drawer.y + 1 && !next.seen_text && next.ops
                == drawer.ops
        }),
{
    assert(text.skip(0) =~= text);
}

/// Lines are drawn from the least of their paddings on: none has less, and one has no more.
pub proof fn lemma_least_padding(lines: Seq<WrappedModel>, align: TextAlign, width: int)
    ensures
        forall|i: int|
            0 <= i < lines.len() ==> least_padding(lines, align, width) <= padding_of(
                crate::canvas::display_width((#[trigger] lines[i]).text),
                align,
                width,
            ),
        lines.len() > 0 ==> exists|i: int|
            0 <= i < lines.len() && least_padding(lines, align, width) == padding_of(
                crate::canvas::display_width((#[trigger] lines[i]).text),
                align,
                width,
            ),
    decreases lines.len(),
{
    if lines.len() > 0 {
        let before = lines.drop_last();
        lemma_least_padding(before, align, width);
        assert(lines[lines.len() - 1] == lines.last());
        assert forall|i: int| 0 <= i < lines.len() implies least_padding(lines, align, width)
            <= padding_of(
            crate::canvas::display_width((#[trigger] lines[i]).text),
            align,
            width,
        ) by {
            if i < before.len() {
                assert(before[i] == lines[i]);
            }
        }
        if before.len() > 0 {
            let i = choose|i: int|
                0 <= i < before.len() && least_padding(before, align, width) == padding_of(
                    crate::canvas::display_width((#[trigger] before[i]).text),
                    align,
                    width,
                );
            assert(lines[i] == before[i]);
        }
    }
}

proof fn lemma_rows_follow_each_other(
    text: TextModel,
    lines: Seq<WrappedModel>,
    width: int,
    software_bidi: bool,
    count: int,
)
    requires
        0 <= count <= lines.len(),
    ensures
        ({
            let drawn = text.drawn(lines, width, software_bidi, count);
            &&& drawn.x_offset == least_padding(lines, text.align, width)
            &&& drawn.skips_leading == (text.align != TextAlign::Left)
            &&& drawn.software_bidi == software_bidi
            &&& count < lines.len() ==> drawn.y == count && drawn.x == drawn.x_offset
                && !drawn.seen_text
        }),
    decreases count,
{
    if count > 0 {
        lemma_rows_follow_each_other(text, lines, width, software_bidi, count - 1);
    }
}

/// Every line of a text is the last thing that is written on its row, however the text is aligned:
/// in the style of the text and with its link, without what is passed over of it in an aligned
/// text. A line that has the least padding starts there, behind what is passed over; before any
/// other as many blanks are written as it is further in.
pub proof fn lemma_aligned_line_is_drawn(
    text: TextModel,
    lines: Seq<WrappedModel>,
    width: int,
    software_bidi: bool,
    count: int,
)
    requires
        0 < count <= lines.len(),
    ensures
        ({
            let line = lines[count - 1];
            let least = least_padding(lines, text.align, width);
            let padding = padding_of(
                crate::canvas::display_width(line.text),
                text.align,
                width,
            );
            let before = text.drawn(lines, width, software_bidi, count - 1);
            let drawn = text.drawn(lines, width, software_bidi, count);
            let op = drawn.ops.last();
            let aligned = text.align != TextAlign::Left;
            let marked = if line.soft_continuation {
                before.marked()
            } else {
                before
            };
            let blanks = marked.with_text(
                Seq::new((padding - least) as nat, |i: int| ' '),
                crate::style::plain_style(),
                None,
                None,
            );
            let seen = padding > least && blanks.seen_text;
            let left = if aligned && !seen {
                line.text.skip(crate::whitespace::passed_over(line.text))
            } else {
                line.text
            };
            &&& drawn.ops.len() > before.ops.len()
            &&& op is SetText && op->SetText_y == count - 1
            &&& op->text == crate::bidi::visual_text(left, software_bidi)
            &&& op->style == text.style && op->link == text.hyperlink
            &&& padding <= least && aligned ==> op->SetText_x == least
                + crate::canvas::display_width_from(
                line.text.take(crate::whitespace::passed_over(line.text)),
                crate::math::max_int(least, 0),
            )
            &&& padding > least ==> forall|k: int|
                0 <= k < blanks.ops.len() ==> #[trigger] drawn.ops[k] == blanks.ops[k]
        }),
{
    lemma_rows_follow_each_other(text, lines, width, software_bidi, count - 1);
    let line = lines[count - 1];
    let least = least_padding(lines, text.align, width);
    let padding = padding_of(crate::canvas::display_width(line.text), text.align, width);
    assert(line.text.skip(0) =~= line.text);
    assert(crate::strings::repeated(' ', padding - least) =~= Seq::new(
        (padding - least) as nat,
        |i: int| ' ',
    ));
}

} // verus!
