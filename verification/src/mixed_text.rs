//! A text that holds a mix of styles.

use crate::canvas::DrawOp;
use crate::mixed_segments::{
    rendered_width, reorder_bidi_segments_for_terminal, trim_end_segments, trim_start_segments,
    truncate_segments, RenderedMixedTextSegment,
};
use crate::segmented_string::{wrap_segments, SegmentedStringLine, StringPiece};
use crate::strings::{chars_of, clone_text};
use crate::style::{CanvasTextStyle, Color, UnderlineStyle, Weight};
use crate::text::{alignment_padding, close_row, open_row, TextAlign, TextDecoration, TextDrawer};
use crate::text_wrap::{
    measure_for_layout, strip_ansi, truncate_position, AvailableSpace, TextWrap,
};
use crate::whitespace::count_passed_over;
use vstd::prelude::*;

verus! {

use crate::canvas::DrawModel;
use crate::mixed_segments::SegmentModel;
use crate::segmented_string::LineModel;
use crate::text::DrawerModel;

/// A section of a mixed text.
#[derive(Debug)]
pub struct MixedTextContent {
    /// The text to show.
    pub text: String,
    /// The color of the text.
    pub color: Option<Color>,
    /// The color behind the cells of the text.
    pub background_color: Option<Color>,
    /// The weight of the text.
    pub weight: Weight,
    /// The decoration of the text.
    pub decoration: TextDecoration,
    /// Whether the text is italic.
    pub italic: bool,
    /// Whether the text is struck through.
    pub strikethrough: bool,
    /// Whether the text has a line above it.
    pub overline: bool,
    /// Whether foreground and background are swapped.
    pub invert: bool,
    /// The hyperlink of the text.
    pub href: Option<String>,
}

impl MixedTextContent {
    /// A section that nothing but its text is known of.
    pub open spec fn is_plain(self) -> bool {
        &&& self.color is None
        &&& self.background_color is None
        &&& self.weight == Weight::Normal
        &&& self.decoration == TextDecoration::Plain
        &&& !self.italic
        &&& !self.strikethrough
        &&& !self.overline
        &&& !self.invert
        &&& self.href is None
    }

    /// Creates a section of plain text.
    pub fn new(text: &str) -> (r: Self)
        ensures
            r.text@ == text@,
            r.is_plain(),
    {
        MixedTextContent {
            text: text.to_owned(),
            color: None,
            background_color: None,
            weight: Weight::Normal,
            decoration: TextDecoration::Plain,
            italic: false,
            strikethrough: false,
            overline: false,
            invert: false,
            href: None,
        }
    }

    /// The section in the given color.
    pub fn color(self, color: Color) -> (r: Self)
        ensures
            r == (MixedTextContent { color: Some(color), ..self }),
    {
        MixedTextContent { color: Some(color), ..self }
    }

    /// The section on the given background.
    pub fn background_color(self, color: Color) -> (r: Self)
        ensures
            r == (MixedTextContent { background_color: Some(color), ..self }),
    {
        MixedTextContent { background_color: Some(color), ..self }
    }

    /// The section with the given weight.
    pub fn weight(self, weight: Weight) -> (r: Self)
        ensures
            r == (MixedTextContent { weight, ..self }),
    {
        MixedTextContent { weight, ..self }
    }

    /// The section with the given decoration.
    pub fn decoration(self, decoration: TextDecoration) -> (r: Self)
        ensures
            r == (MixedTextContent { decoration, ..self }),
    {
        MixedTextContent { decoration, ..self }
    }

    /// The section in italics.
    pub fn italic(self) -> (r: Self)
        ensures
            r == (MixedTextContent { italic: true, ..self }),
    {
        MixedTextContent { italic: true, ..self }
    }

    /// The section struck through.
    pub fn strikethrough(self) -> (r: Self)
        ensures
            r == (MixedTextContent { strikethrough: true, ..self }),
    {
        MixedTextContent { strikethrough: true, ..self }
    }

    /// The section with a line above it.
    pub fn overline(self) -> (r: Self)
        ensures
            r == (MixedTextContent { overline: true, ..self }),
    {
        MixedTextContent { overline: true, ..self }
    }

    /// The section with foreground and background swapped.
    pub fn invert(self) -> (r: Self)
        ensures
            r == (MixedTextContent { invert: true, ..self }),
    {
        MixedTextContent { invert: true, ..self }
    }

    /// The section as a link.
    pub fn href(self, href: &str) -> (r: Self)
        ensures
            r == (MixedTextContent { href: r.href, ..self }),
            crate::strings::opt_text(r.href) == Some(href@),
    {
        MixedTextContent { href: Some(href.to_owned()), ..self }
    }
}

/// What is drawn of a [`MixedTextContent`].
pub struct ContentModel {
    pub text: Seq<char>,
    pub style: CanvasTextStyle,
    pub background_color: Option<Color>,
    pub href: Option<Seq<char>>,
}

impl View for MixedTextContent {
    type V = ContentModel;

    open spec fn view(&self) -> ContentModel {
        ContentModel {
            text: self.text@,
            style: CanvasTextStyle {
                color: self.color,
                weight: self.weight,
                underline: self.decoration == TextDecoration::Underline,
                italic: self.italic,
                strikethrough: self.strikethrough,
                overline: self.overline,
                invert: self.invert,
                ..crate::style::plain_style()
            },
            background_color: self.background_color,
            href: crate::strings::opt_text(self.href),
        }
    }
}

/// What a list of sections holds.
pub open spec fn content_models(contents: Seq<MixedTextContent>) -> Seq<ContentModel> {
    contents.map_values(|content: MixedTextContent| content@)
}

/// The texts of the sections.
pub open spec fn content_texts(contents: Seq<ContentModel>) -> Seq<Seq<char>> {
    contents.map_values(|content: ContentModel| content.text)
}

/// The total length of the sections.
pub open spec fn contents_len(contents: Seq<ContentModel>) -> int {
    crate::canvas::total_len(content_texts(contents))
}

/// A section without the escape sequences in its text.
pub open spec fn stripped(content: ContentModel) -> ContentModel {
    ContentModel {
        text: crate::raw_ansi::visible_text(crate::raw_ansi::ansi_runs(content.text, false)),
        ..content
    }
}

/// The style of a section.
pub fn style_for_content(content: &MixedTextContent) -> (style: CanvasTextStyle)
    ensures
        style == content@.style,
{
    CanvasTextStyle {
        color: content.color,
        weight: content.weight,
        underline: content.decoration == TextDecoration::Underline,
        underline_style: UnderlineStyle::Single,
        underline_color: None,
        italic: content.italic,
        blink: false,
        hidden: false,
        strikethrough: content.strikethrough,
        overline: content.overline,
        invert: content.invert,
    }
}

/// Whether a line continues the one before it: the text before it is not empty and
/// does not end with a line end.
pub open spec fn continues(texts: Seq<Seq<char>>, line: LineModel) -> bool {
    if line.segments.len() == 0 {
        false
    } else {
        let index: int = line.segments[0].index;
        let before: Seq<char> = crate::strings::concat(texts.take(index)) + texts[index].take(
            line.segments[0].offset,
        );
        before.len() > 0 && before.last() != '\n'
    }
}

/// The last character of the texts is that of the last text that is not empty.
fn last_char_before(texts: &Vec<String>, count: usize) -> (last: Option<char>)
    requires
        count <= texts@.len(),
    ensures
        ({
            let before = crate::strings::concat(crate::strings::texts(texts@).take(count as int));
            last == if before.len() > 0 {
                Some(before.last())
            } else {
                None
            }
        }),
{
    let ghost all = crate::strings::texts(texts@);
    let mut i: usize = count;
    while i > 0
        invariant
            i <= count <= texts@.len(),
            all == crate::strings::texts(texts@),
            crate::strings::concat(all.take(i as int)) == crate::strings::concat(
                all.take(count as int),
            ),
        decreases i,
    {
        let chars = chars_of(texts[i - 1].as_str());
        proof {
            assert(all.take(i as int).drop_last() =~= all.take(i - 1));
            assert(all.take(i as int).last() == chars@);
        }
        if chars.len() > 0 {
            return Some(chars[chars.len() - 1]);
        }
        assert(crate::strings::concat(all.take(i - 1)) + chars@ =~= crate::strings::concat(
            all.take(i - 1),
        ));
        i = i - 1;
    }
    None
}

/// Whether a line continues the one before it.
fn line_is_soft_continuation(texts: &Vec<String>, line: &SegmentedStringLine) -> (r: bool)
    requires
        line.segments@.len() > 0 ==> crate::segmented_string::is_part(line.segments@[0], texts@),
    ensures
        r == continues(crate::strings::texts(texts@), line@),
{
    if line.segments.len() == 0 {
        return false;
    }
    let first = &line.segments[0];
    let ghost all = crate::strings::texts(texts@);
    assert(line@.segments[0] == first@);
    assert(all[first.index as int] == texts@[first.index as int]@);
    let ghost start = all[first.index as int].take(first.offset as int);
    if first.offset > 0 {
        let chars = chars_of(texts[first.index].as_str());
        proof {
            let before = crate::strings::concat(all.take(first.index as int)) + start;
            assert(before.last() == chars@[first.offset - 1]);
        }
        return chars[first.offset - 1] != '\n';
    }
    assert(crate::strings::concat(all.take(first.index as int)) + start =~= crate::strings::concat(
        all.take(first.index as int),
    ));
    match last_char_before(texts, first.index) {
        Some(last) => last != '\n',
        None => false,
    }
}

/// One line of a rendered mixed text.
#[derive(Debug, PartialEq, Eq)]
pub struct RenderedMixedTextLine {
    /// The segments of the line.
    pub segments: Vec<RenderedMixedTextSegment>,
    /// The columns that the segments take.
    pub width: usize,
    /// Whether the line continues the one before it.
    pub soft_continuation: bool,
    /// The column at which the content of the line ends.
    pub content_end: usize,
}

/// What a [`RenderedMixedTextLine`] holds.
pub struct RenderedModel {
    pub segments: Seq<SegmentModel>,
    pub width: int,
    pub soft_continuation: bool,
    pub content_end: int,
}

impl View for RenderedMixedTextLine {
    type V = RenderedModel;

    open spec fn view(&self) -> RenderedModel {
        RenderedModel {
            segments: crate::mixed_segments::segment_models(self.segments@),
            width: self.width as int,
            soft_continuation: self.soft_continuation,
            content_end: self.content_end as int,
        }
    }
}

/// What a list of lines holds.
pub open spec fn rendered_models(lines: Seq<RenderedMixedTextLine>) -> Seq<RenderedModel> {
    lines.map_values(|line: RenderedMixedTextLine| line@)
}

/// A piece of a line as a segment.
pub open spec fn as_segments(line: LineModel) -> Seq<SegmentModel> {
    line.segments.map_values(
        |piece: crate::segmented_string::PieceModel|
            SegmentModel { text: piece.text, index: piece.index },
    )
}

/// The segments trimmed or truncated, as the mode asks.
pub open spec fn fitted(
    segments: Seq<SegmentModel>,
    wrap: TextWrap,
    width: int,
) -> Seq<SegmentModel> {
    if crate::text_wrap::truncation(wrap) is Some {
        crate::mixed_segments::truncated(segments, width, crate::text_wrap::truncation(wrap)->0)
    } else if wrap == TextWrap::Wrap {
        crate::mixed_segments::end_trimmed(segments)
    } else if wrap == TextWrap::WrapTrim {
        crate::mixed_segments::end_trimmed(crate::mixed_segments::start_trimmed(segments))
    } else {
        segments
    }
}

/// How the sections wrap: only two modes break lines that are too long.
pub open spec fn source_lines(
    texts: Seq<Seq<char>>,
    wrap: TextWrap,
    width: int,
) -> Seq<LineModel> {
    crate::segmented_string::wrapped(
        texts,
        if wrap == TextWrap::Wrap || wrap == TextWrap::WrapTrim {
            width
        } else {
            usize::MAX as int
        },
    )
}

/// A line as it is rendered. The content of a line that the next one continues
/// reaches to its full width where lines are not trimmed at their start.
pub open spec fn rendered_line(
    texts: Seq<Seq<char>>,
    lines: Seq<LineModel>,
    i: int,
    wrap: TextWrap,
    width: int,
    software_bidi: bool,
) -> RenderedModel {
    let logical: Seq<SegmentModel> = fitted(as_segments(lines[i]), wrap, width);
    let segments: Seq<SegmentModel> = if software_bidi {
        crate::mixed_segments::reordered(logical, true)
    } else {
        logical
    };
    let rendered_width: int = crate::mixed_segments::segments_width(segments);
    RenderedModel {
        segments,
        width: rendered_width,
        soft_continuation: continues(texts, lines[i]),
        content_end: if wrap == TextWrap::Wrap && i + 1 < lines.len() && continues(
            texts,
            lines[i + 1],
        ) {
            lines[i].width
        } else {
            rendered_width
        },
    }
}

/// The first `count` lines as they are rendered; trimmed lines without width are
/// dropped.
pub open spec fn rendered_lines(
    texts: Seq<Seq<char>>,
    lines: Seq<LineModel>,
    count: int,
    wrap: TextWrap,
    width: int,
    software_bidi: bool,
) -> Seq<RenderedModel>
    decreases count,
{
    if count <= 0 {
        Seq::empty()
    } else {
        let before: Seq<RenderedModel> = rendered_lines(
            texts,
            lines,
            count - 1,
            wrap,
            width,
            software_bidi,
        );
        let line: RenderedModel = rendered_line(
            texts,
            lines,
            count - 1,
            wrap,
            width,
            software_bidi,
        );
        if wrap == TextWrap::WrapTrim && line.width == 0 {
            before
        } else {
            before.push(line)
        }
    }
}

/// The segments drawn side by side, each as its section asks.
pub open spec fn with_segments(
    drawer: DrawerModel,
    segments: Seq<SegmentModel>,
    contents: Seq<ContentModel>,
) -> DrawerModel
    decreases segments.len(),
{
    if segments.len() == 0 {
        drawer
    } else {
        let content: ContentModel = contents[segments.last().index];
        with_segments(drawer, segments.drop_last(), contents).with_text(
            segments.last().text,
            content.style,
            content.background_color,
            content.href,
        )
    }
}

/// Whether something is left of the texts of a row behind what is passed over of it.
pub open spec fn row_is_seen(texts: Seq<Seq<char>>) -> bool
    decreases texts.len(),
{
    texts.len() > 0 && (row_is_seen(texts.drop_last()) || crate::whitespace::passed_over(
        texts.last(),
    ) < texts.last().len())
}

/// Whether the texts of a row can be split behind what is passed over of them: each of them
/// up to the first of which something is left.
pub open spec fn row_splits(texts: Seq<Seq<char>>) -> bool
    decreases texts.len(),
{
    texts.len() == 0 || (row_splits(texts.drop_last()) && (row_is_seen(texts.drop_last())
        || crate::whitespace::start_splits(texts.last())))
}

/// The texts of a prefix of a row can be split where those of the row can.
proof fn lemma_row_prefix_splits(texts: Seq<Seq<char>>, count: int)
    requires
        0 <= count <= texts.len(),
        row_splits(texts),
    ensures
        row_splits(texts.take(count)),
    decreases texts.len(),
{
    if count == texts.len() {
        assert(texts.take(count) =~= texts);
    } else {
        lemma_row_prefix_splits(texts.drop_last(), count);
        assert(texts.drop_last().take(count) =~= texts.take(count));
    }
}

/// The smallest of the paddings; zero where there is none.
pub open spec fn least_padding(lines: Seq<RenderedModel>, align: TextAlign, width: int) -> int
    decreases lines.len(),
{
    if lines.len() == 0 {
        0
    } else {
        let last: int = crate::text::padding_of(lines.last().width, align, width);
        if lines.len() == 1 {
            last
        } else {
            crate::math::min_int(least_padding(lines.drop_last(), align, width), last)
        }
    }
}

/// How a mixed text is drawn.
pub struct MixedTextModel {
    pub contents: Seq<ContentModel>,
    pub wrap: TextWrap,
    pub align: TextAlign,
}

impl MixedTextModel {
    /// The lines that the text is shown in.
    pub open spec fn lines(self, width: int, software_bidi: bool) -> Seq<RenderedModel> {
        let texts: Seq<Seq<char>> = content_texts(self.contents);
        let lines: Seq<LineModel> = source_lines(texts, self.wrap, width);
        rendered_lines(texts, lines, lines.len() as int, self.wrap, width, software_bidi)
    }

    /// The drawer after the first `count` lines.
    pub open spec fn drawn(
        self,
        lines: Seq<RenderedModel>,
        width: int,
        software_bidi: bool,
        count: int,
    ) -> DrawerModel
        decreases count,
    {
        if count <= 0 {
            DrawerModel::initial(
                least_padding(lines, self.align, width),
                self.align != TextAlign::Left,
                software_bidi,
            )
        } else {
            let line: RenderedModel = lines[count - 1];
            let padding: int = crate::text::padding_of(line.width, self.align, width);
            crate::text::row_closed(
                with_segments(
                    crate::text::row_opened(
                        self.drawn(lines, width, software_bidi, count - 1),
                        line.soft_continuation,
                        padding,
                    ),
                    line.segments,
                    self.contents,
                ),
                padding,
                line.content_end,
                count == lines.len(),
            )
        }
    }

    /// Whether every row can be split behind what is passed over of it, where it is aligned.
    pub open spec fn splits(self, width: int, software_bidi: bool) -> bool {
        let lines: Seq<RenderedModel> = self.lines(width, software_bidi);
        self.align != TextAlign::Left ==> forall|i: int|
            0 <= i < lines.len() ==> row_splits(
                crate::mixed_segments::segment_texts((#[trigger] lines[i]).segments),
            )
    }

    /// What draws the text in a component of the given width.
    pub open spec fn drawing(self, width: int, software_bidi: bool) -> Seq<DrawModel> {
        let lines: Seq<RenderedModel> = self.lines(width, software_bidi);
        self.drawn(lines, width, software_bidi, lines.len() as int).ops
    }
}

/// A line is not much longer than the sections, and its segments are parts of them.
pub open spec fn line_fits(line: RenderedMixedTextLine, length: int, count: int) -> bool {
    let segments = crate::mixed_segments::segment_models(line.segments@);
    &&& crate::mixed_segments::segments_len(segments) <= 2 * length + 1
    &&& crate::mixed_segments::within(segments, count)
    &&& line.width <= 8 * (2 * length + 1)
    &&& line.content_end <= 8 * (2 * length + 1)
}

/// The pieces of a line as segments.
fn pieces_to_segments(line: &SegmentedStringLine) -> (segments: Vec<RenderedMixedTextSegment>)
    ensures
        crate::mixed_segments::segment_models(segments@) == as_segments(line@),
{
    let ghost goal = as_segments(line@);
    let mut segments: Vec<RenderedMixedTextSegment> = Vec::new();
    let mut i: usize = 0;
    assert(crate::mixed_segments::segment_models(segments@) =~= goal.take(0));
    while i < line.segments.len()
        invariant
            i <= line.segments@.len(),
            goal == as_segments(line@),
            crate::mixed_segments::segment_models(segments@) == goal.take(i as int),
        decreases line.segments@.len() - i,
    {
        let piece: &StringPiece = &line.segments[i];
        let segment = RenderedMixedTextSegment { text: piece.text.clone(), index: piece.index };
        let ghost before = crate::mixed_segments::segment_models(segments@);
        segments.push(segment);
        i = i + 1;
        proof {
            assert(line@.segments[i - 1] == piece@);
            assert(goal[i - 1] == segment@);
            assert(crate::mixed_segments::segment_models(segments@) =~= before.push(segment@));
            assert(goal.take(i as int) =~= goal.take(i - 1).push(goal[i - 1]));
        }
    }
    assert(goal.take(i as int) =~= goal);
    segments
}

/// Trims or truncates the segments of a line, as the mode asks.
fn fit_segments(segments: Vec<RenderedMixedTextSegment>, wrap: TextWrap, width: usize) -> (result:
    Vec<RenderedMixedTextSegment>)
    requires
        crate::canvas::countable(
            crate::mixed_segments::segments_len(
                crate::mixed_segments::segment_models(segments@),
            ),
            0,
        ),
    ensures
        crate::mixed_segments::segment_models(result@) == fitted(
            crate::mixed_segments::segment_models(segments@),
            wrap,
            width as int,
        ),
        crate::mixed_segments::segments_len(crate::mixed_segments::segment_models(result@)) <= 2
            * crate::mixed_segments::segments_len(
            crate::mixed_segments::segment_models(segments@),
        ) + 1,
        forall|limit: int|
            #[trigger] crate::mixed_segments::within(
                crate::mixed_segments::segment_models(segments@),
                limit,
            ) ==> crate::mixed_segments::within(
                crate::mixed_segments::segment_models(result@),
                limit,
            ),
{
    proof {
        crate::canvas::lemma_total_len(
            crate::mixed_segments::segment_texts(
                crate::mixed_segments::segment_models(segments@),
            ),
        );
    }
    match truncate_position(wrap) {
        Some(position) => truncate_segments(&segments, width, position),
        None => {
            let mut result = segments;
            if wrap == TextWrap::WrapTrim {
                result = trim_start_segments(result);
            }
            if wrap == TextWrap::Wrap || wrap == TextWrap::WrapTrim {
                trim_end_segments(&mut result);
            }
            result
        },
    }
}

/// The props of [`MixedText`].
#[derive(Debug)]
pub struct MixedTextProps {
    /// The sections of the text.
    pub contents: Vec<MixedTextContent>,
    /// The wrapping behavior.
    pub wrap: TextWrap,
    /// The alignment.
    pub align: TextAlign,
}

impl Default for MixedTextProps {
    fn default() -> (r: Self)
        ensures
            r.contents@.len() == 0,
            r.wrap == TextWrap::Wrap,
            r.align == TextAlign::Left,
    {
        MixedTextProps { contents: Vec::new(), wrap: TextWrap::Wrap, align: TextAlign::Left }
    }
}

/// A component that renders a text with a mix of styles.
#[derive(Debug)]
pub struct MixedText {
    contents: Vec<MixedTextContent>,
    wrap: TextWrap,
    align: TextAlign,
}

impl View for MixedText {
    type V = MixedTextModel;

    closed spec fn view(&self) -> MixedTextModel {
        MixedTextModel {
            contents: content_models(self.contents@),
            wrap: self.wrap,
            align: self.align,
        }
    }
}

impl MixedText {
    /// The component for the given props. Escape sequences in the sections are
    /// dropped.
    pub fn new(props: &MixedTextProps) -> (r: Self)
        ensures
            r@ == (MixedTextModel {
                contents: content_models(props.contents@).map_values(
                    |content: ContentModel| stripped(content),
                ),
                wrap: props.wrap,
                align: props.align,
            }),
            contents_len(r@.contents) <= contents_len(content_models(props.contents@)),
    {
        let ghost all = content_models(props.contents@);
        let ghost goal = all.map_values(|content: ContentModel| stripped(content));
        let mut contents: Vec<MixedTextContent> = Vec::new();
        let mut i: usize = 0;
        assert(content_models(contents@) =~= goal.take(0));
        assert(content_texts(goal.take(0)) =~= Seq::empty());
        while i < props.contents.len()
            invariant
                i <= props.contents@.len(),
                all == content_models(props.contents@),
                goal == all.map_values(|content: ContentModel| stripped(content)),
                content_models(contents@) == goal.take(i as int),
                contents_len(goal.take(i as int)) <= contents_len(all.take(i as int)),
            decreases props.contents@.len() - i,
        {
            let content = &props.contents[i];
            let copy = MixedTextContent {
                text: strip_ansi(content.text.as_str()),
                color: content.color,
                background_color: content.background_color,
                weight: content.weight,
                decoration: content.decoration,
                italic: content.italic,
                strikethrough: content.strikethrough,
                overline: content.overline,
                invert: content.invert,
                href: clone_text(&content.href),
            };
            let ghost before = content_models(contents@);
            contents.push(copy);
            i = i + 1;
            proof {
                assert(all[i - 1] == content@);
                assert(copy@ == goal[i - 1]);
                assert(content_models(contents@) =~= before.push(copy@));
                assert(goal.take(i as int) =~= goal.take(i - 1).push(goal[i - 1]));
                assert(content_texts(goal.take(i as int)).drop_last() =~= content_texts(
                    goal.take(i - 1),
                ));
                assert(content_texts(all.take(i as int)).drop_last() =~= content_texts(
                    all.take(i - 1),
                ));
            }
        }
        assert(goal.take(i as int) =~= goal);
        assert(all.take(i as int) =~= all);
        MixedText { contents, wrap: props.wrap, align: props.align }
    }

    /// The texts of the sections.
    fn texts(&self) -> (texts: Vec<String>)
        ensures
            crate::strings::texts(texts@) == content_texts(self@.contents),
            texts@.len() == self@.contents.len(),
    {
        let mut texts: Vec<String> = Vec::new();
        let mut i: usize = 0;
        while i < self.contents.len()
            invariant
                i <= self.contents@.len(),
                texts@.len() == i,
                forall|k: int| 0 <= k < i ==> (#[trigger] texts@[k])@ == self.contents@[k].text@,
            decreases self.contents@.len() - i,
        {
            texts.push(self.contents[i].text.clone());
            i = i + 1;
        }
        assert(crate::strings::texts(texts@) =~= content_texts(self@.contents));
        texts
    }

    /// The size that the text asks of a layout: that of its sections side by side.
    pub fn measure(&self, known_width: Option<usize>, available_width: AvailableSpace) -> (size: (
        usize,
        usize,
    ))
        requires
            crate::text_wrap::wrappable(contents_len(self@.contents)),
        ensures
            ({
                let shown = crate::text_wrap::laid_out(
                    crate::strings::concat(content_texts(self@.contents)),
                    self@.wrap,
                    known_width,
                    available_width,
                );
                &&& size.0 == crate::canvas::widest(crate::strings::split(shown, '\n'))
                &&& size.1 == if shown.len() == 0 {
                    0
                } else {
                    crate::strings::split(shown, '\n').len() as int
                }
            }),
    {
        let texts = self.texts();
        let ghost all = crate::strings::texts(texts@);
        let mut plain = String::new();
        let mut i: usize = 0;
        assert(plain@ =~= crate::strings::concat(all.take(0)));
        while i < texts.len()
            invariant
                i <= texts@.len(),
                all == crate::strings::texts(texts@),
                plain@ == crate::strings::concat(all.take(i as int)),
            decreases texts@.len() - i,
        {
            plain.append(texts[i].as_str());
            i = i + 1;
            proof {
                assert(all.take(i as int).drop_last() =~= all.take(i - 1));
                assert(all.take(i as int).last() == texts@[i - 1]@);
            }
        }
        proof {
            assert(all.take(i as int) =~= all);
            crate::canvas::lemma_total_len(all);
        }
        measure_for_layout(plain.as_str(), self.wrap, known_width, available_width)
    }

    /// The lines that the text is shown in.
    fn render_lines(&self, width: usize, software_bidi: bool) -> (result: Vec<
        RenderedMixedTextLine,
    >)
        requires
            crate::text_wrap::wrappable(contents_len(self@.contents)),
        ensures
            rendered_models(result@) == self@.lines(width as int, software_bidi),
            result@.len() <= contents_len(self@.contents) + 1,
            forall|i: int|
                0 <= i < result@.len() ==> line_fits(
                    #[trigger] result@[i],
                    contents_len(self@.contents),
                    self@.contents.len() as int,
                ),
    {
        let texts = self.texts();
        let ghost all = crate::strings::texts(texts@);
        let ghost length = contents_len(self@.contents);
        proof {
            crate::canvas::lemma_total_len(all);
        }
        let wrap_width: usize = if self.wrap == TextWrap::Wrap || self.wrap == TextWrap::WrapTrim {
            width
        } else {
            usize::MAX
        };
        let lines = wrap_segments(&texts, wrap_width);
        let ghost models = crate::segmented_string::line_models(lines@);
        let mut result: Vec<RenderedMixedTextLine> = Vec::new();
        let mut i: usize = 0;
        assert(rendered_models(result@) =~= Seq::empty());
        while i < lines.len()
            invariant
                i <= lines@.len(),
                lines@.len() <= length + 1,
                all == crate::strings::texts(texts@),
                all == content_texts(self@.contents),
                texts@.len() == self@.contents.len(),
                length == crate::canvas::total_len(all),
                length >= 0,
                length == contents_len(self@.contents),
                crate::text_wrap::wrappable(length),
                models == crate::segmented_string::line_models(lines@),
                models.len() == lines@.len(),
                forall|k: int|
                    0 <= k < lines@.len() ==> crate::segmented_string::line_in_bounds(
                        #[trigger] lines@[k],
                        texts@,
                    ),
                result@.len() <= i,
                rendered_models(result@) == rendered_lines(
                    all,
                    models,
                    i as int,
                    self@.wrap,
                    width as int,
                    software_bidi,
                ),
                forall|k: int|
                    0 <= k < result@.len() ==> line_fits(
                        #[trigger] result@[k],
                        length,
                        self@.contents.len() as int,
                    ),
            decreases lines@.len() - i,
        {
            let line = &lines[i];
            assert(models[i as int] == line@);
            let pieces = pieces_to_segments(line);
            let ghost parts = crate::mixed_segments::segment_models(pieces@);
            proof {
                assert(crate::mixed_segments::segment_texts(parts)
                    =~= crate::segmented_string::piece_texts(line@.segments));
                crate::canvas::lemma_total_len(crate::mixed_segments::segment_texts(parts));
                assert(crate::mixed_segments::within(parts, self@.contents.len() as int)) by {
                    assert forall|k: int| 0 <= k < parts.len() implies 0 <= (
                    #[trigger] parts[k]).index < self@.contents.len() by {
                        assert(crate::segmented_string::is_part(line.segments@[k], texts@));
                        assert(line@.segments[k] == line.segments@[k]@);
                    }
                }
                if line.segments@.len() > 0 {
                    assert(crate::segmented_string::is_part(line.segments@[0], texts@));
                }
            }
            let fitted_segments = fit_segments(pieces, self.wrap, width);
            let segments = reorder_bidi_segments_for_terminal(fitted_segments, software_bidi);
            let shown_width: usize = rendered_width(&segments);
            let mut content_end: usize = shown_width;
            if self.wrap == TextWrap::Wrap && i + 1 < lines.len() {
                proof {
                    assert(models[i + 1] == lines@[i + 1]@);
                    assert(crate::segmented_string::line_in_bounds(lines@[i + 1], texts@));
                    if lines@[i + 1].segments@.len() > 0 {
                        assert(crate::segmented_string::is_part(
                            lines@[i + 1].segments@[0],
                            texts@,
                        ));
                    }
                }
                if line_is_soft_continuation(&texts, &lines[i + 1]) {
                    content_end = line.width;
                }
            }
            let soft_continuation = line_is_soft_continuation(&texts, line);
            let rendered = RenderedMixedTextLine {
                segments,
                width: shown_width,
                soft_continuation,
                content_end,
            };
            assert(rendered@ == rendered_line(
                all,
                models,
                i as int,
                self@.wrap,
                width as int,
                software_bidi,
            ));
            assert(line_fits(rendered, length, self@.contents.len() as int));
            if self.wrap != TextWrap::WrapTrim || shown_width > 0 {
                let ghost before = rendered_models(result@);
                result.push(rendered);
                assert(rendered_models(result@) =~= before.push(rendered@));
            }
            i = i + 1;
        }
        result
    }

    /// Draws the segments of one line side by side.
    fn draw_segments(&self, drawer: &mut TextDrawer, segments: &Vec<RenderedMixedTextSegment>)
        requires
            crate::mixed_segments::within(
                crate::mixed_segments::segment_models(segments@),
                self@.contents.len() as int,
            ),
            crate::canvas::countable(
                crate::mixed_segments::segments_len(
                    crate::mixed_segments::segment_models(segments@),
                ),
                crate::math::max_int(old(drawer)@.x, 0),
            ),
            old(drawer)@.skips_leading ==> row_splits(
                crate::mixed_segments::segment_texts(
                    crate::mixed_segments::segment_models(segments@),
                ),
            ),
        ensures
            final(drawer)@ == with_segments(
                old(drawer)@,
                crate::mixed_segments::segment_models(segments@),
                self@.contents,
            ),
            final(drawer)@.y == old(drawer)@.y,
            final(drawer)@.x_offset == old(drawer)@.x_offset,
            final(drawer)@.skips_leading == old(drawer)@.skips_leading,
    {
        let ghost all = crate::mixed_segments::segment_models(segments@);
        let ghost texts = crate::mixed_segments::segment_texts(all);
        let mut i: usize = 0;
        assert(all.take(0) =~= Seq::empty());
        while i < segments.len()
            invariant
                i <= segments@.len(),
                all == crate::mixed_segments::segment_models(segments@),
                texts == crate::mixed_segments::segment_texts(all),
                crate::mixed_segments::within(all, self@.contents.len() as int),
                crate::canvas::countable(
                    crate::canvas::total_len(texts),
                    crate::math::max_int(old(drawer)@.x, 0),
                ),
                drawer@ == with_segments(old(drawer)@, all.take(i as int), self@.contents),
                drawer@.y == old(drawer)@.y,
                drawer@.x_offset == old(drawer)@.x_offset,
                drawer@.skips_leading == old(drawer)@.skips_leading,
                drawer@.skips_leading ==> row_splits(texts),
                drawer@.skips_leading && row_is_seen(texts.take(i as int)) ==> drawer@.seen_text,
                drawer@.x <= crate::math::max_int(old(drawer)@.x, 0) + 8
                    * crate::canvas::total_len(texts.take(i as int)),
                0 <= crate::canvas::total_len(texts.take(i as int)),
            decreases segments@.len() - i,
        {
            let segment = &segments[i];
            proof {
                assert(all[i as int] == segment@);
                assert(all.take(i + 1).drop_last() =~= all.take(i as int));
                assert(all.take(i + 1).last() == segment@);
                assert(texts.take(i + 1).drop_last() =~= texts.take(i as int));
                assert(texts.take(i + 1).last() == segment.text@);
                crate::canvas::lemma_total_len_prefix(texts, i + 1);
                if drawer@.skips_leading {
                    lemma_row_prefix_splits(texts, i + 1);
                }
            }
            let content = &self.contents[segment.index];
            assert(self@.contents[segment.index as int] == content@);
            drawer.append_text(
                segment.text.as_str(),
                style_for_content(content),
                content.background_color,
                &content.href,
            );
            i = i + 1;
        }
        assert(all.take(i as int) =~= all);
    }

    /// Draws the text in a layout of the given width, with so much left of the
    /// canvas; nothing, where a sibling shares the row of a component without
    /// height.
    pub fn draw(
        &self,
        layout_width: usize,
        remaining_width: usize,
        shares_row: bool,
        software_bidi: bool,
    ) -> (ops: Vec<DrawOp>)
        requires
            crate::text::drawable(
                contents_len(self@.contents),
                crate::text::drawing_width(
                    self@.wrap,
                    layout_width as int,
                    remaining_width as int,
                ),
            ),
            shares_row || self@.splits(
                crate::text::drawing_width(
                    self@.wrap,
                    layout_width as int,
                    remaining_width as int,
                ),
                software_bidi,
            ),
        ensures
            crate::canvas::drawing(ops@) == if shares_row {
                Seq::empty()
            } else {
                self@.drawing(
                    crate::text::drawing_width(
                        self@.wrap,
                        layout_width as int,
                        remaining_width as int,
                    ),
                    software_bidi,
                )
            },
    {
        if shares_row {
            let ops: Vec<DrawOp> = Vec::new();
            assert(crate::canvas::drawing(ops@) =~= Seq::empty());
            return ops;
        }
        let width: usize = match self.wrap {
            TextWrap::NoWrap | TextWrap::End | TextWrap::Middle => layout_width,
            _ => if layout_width < remaining_width {
                layout_width
            } else {
                remaining_width
            },
        };
        let ghost length = contents_len(self@.contents);
        proof {
            crate::canvas::lemma_total_len(content_texts(self@.contents));
        }
        let lines = self.render_lines(width, software_bidi);
        let ghost models = rendered_models(lines@);
        let ghost most = 8 * (2 * length + 1);
        let mut paddings: Vec<isize> = Vec::new();
        let mut x_offset: isize = 0;
        let mut i: usize = 0;
        while i < lines.len()
            invariant
                i <= lines@.len(),
                models == rendered_models(lines@),
                length >= 0,
                most == 8 * (2 * length + 1),
                crate::text::drawable(length, width as int),
                forall|k: int|
                    0 <= k < lines@.len() ==> line_fits(
                        #[trigger] lines@[k],
                        length,
                        self@.contents.len() as int,
                    ),
                paddings@.len() == i,
                forall|k: int|
                    0 <= k < i ==> {
                        &&& #[trigger] paddings@[k] == crate::text::padding_of(
                            models[k].width,
                            self@.align,
                            width as int,
                        )
                        &&& -most <= paddings@[k] <= width
                    },
                x_offset == least_padding(models.take(i as int), self@.align, width as int),
                -most <= x_offset <= width,
            decreases lines@.len() - i,
        {
            assert(models[i as int] == lines@[i as int]@);
            assert(models.take(i + 1).drop_last() =~= models.take(i as int));
            let padding: isize = alignment_padding(lines[i].width, self.align, width);
            paddings.push(padding);
            if i == 0 || padding < x_offset {
                x_offset = padding;
            }
            i = i + 1;
        }
        assert(models.take(i as int) =~= models);
        let mut drawer = TextDrawer::new(x_offset, self.align != TextAlign::Left, software_bidi);
        let mut row: usize = 0;
        while row < lines.len()
            invariant
                row <= lines@.len(),
                lines@.len() <= length + 1,
                length >= 0,
                models == rendered_models(lines@),
                most == 8 * (2 * length + 1),
                crate::text::drawable(length, width as int),
                forall|k: int|
                    0 <= k < lines@.len() ==> line_fits(
                        #[trigger] lines@[k],
                        length,
                        self@.contents.len() as int,
                    ),
                paddings@.len() == lines@.len(),
                forall|k: int|
                    0 <= k < lines@.len() ==> {
                        &&& #[trigger] paddings@[k] == crate::text::padding_of(
                            models[k].width,
                            self@.align,
                            width as int,
                        )
                        &&& -most <= paddings@[k] <= width
                    },
                x_offset == least_padding(models, self@.align, width as int),
                -most <= x_offset <= width,
                drawer@ == self@.drawn(models, width as int, software_bidi, row as int),
                drawer@.x_offset == x_offset,
                drawer@.skips_leading == (self@.align != TextAlign::Left),
                models == self@.lines(width as int, software_bidi),
                self@.splits(width as int, software_bidi),
                row < lines@.len() ==> drawer@.x == x_offset && drawer@.y == row,
            decreases lines@.len() - row,
        {
            let line = &lines[row];
            assert(models[row as int] == line@);
            assert(-most <= paddings@[row as int] <= width);
            let padding: isize = paddings[row];
            open_row(&mut drawer, line.soft_continuation, padding);
            self.draw_segments(&mut drawer, &line.segments);
            close_row(&mut drawer, padding, line.content_end, row + 1 == lines.len());
            row = row + 1;
        }
        drawer.into_ops()
    }

    /// Whether the segments of a row can be split behind what is passed over of them.
    fn segments_split(segments: &Vec<RenderedMixedTextSegment>) -> (r: bool)
        ensures
            r == row_splits(
                crate::mixed_segments::segment_texts(
                    crate::mixed_segments::segment_models(segments@),
                ),
            ),
    {
        let ghost texts = crate::mixed_segments::segment_texts(
            crate::mixed_segments::segment_models(segments@),
        );
        let mut seen = false;
        let mut i: usize = 0;
        assert(texts.take(0) =~= Seq::empty());
        while i < segments.len()
            invariant
                i <= segments@.len(),
                texts == crate::mixed_segments::segment_texts(
                    crate::mixed_segments::segment_models(segments@),
                ),
                texts.len() == segments@.len(),
                row_splits(texts.take(i as int)),
                !seen,
                seen == row_is_seen(texts.take(i as int)),
            decreases segments@.len() - i,
        {
            proof {
                assert(texts[i as int] == segments@[i as int].text@);
                assert(texts.take(i + 1).drop_last() =~= texts.take(i as int));
                assert(texts.take(i + 1).last() == segments@[i as int].text@);
            }
            let chars = chars_of(segments[i].text.as_str());
            match count_passed_over(&chars) {
                Some(count) => {
                    if count < chars.len() {
                        proof {
                            lemma_seen_row_splits(texts, i + 1);
                        }
                        return true;
                    }
                },
                None => {
                    proof {
                        if row_splits(texts) {
                            lemma_row_prefix_splits(texts, i + 1);
                        }
                    }
                    return false;
                },
            }
            i = i + 1;
        }
        assert(texts.take(i as int) =~= texts);
        true
    }

    /// Draws the text as [`MixedText::draw`] does, where every row can be split behind the
    /// white space that is passed over.
    pub fn try_draw(
        &self,
        layout_width: usize,
        remaining_width: usize,
        shares_row: bool,
        software_bidi: bool,
    ) -> (ops: Option<Vec<DrawOp>>)
        requires
            crate::text::drawable(
                contents_len(self@.contents),
                crate::text::drawing_width(
                    self@.wrap,
                    layout_width as int,
                    remaining_width as int,
                ),
            ),
        ensures
            ops is Some == (shares_row || self@.splits(
                crate::text::drawing_width(
                    self@.wrap,
                    layout_width as int,
                    remaining_width as int,
                ),
                software_bidi,
            )),
            ops matches Some(ops) ==> crate::canvas::drawing(ops@) == if shares_row {
                Seq::empty()
            } else {
                self@.drawing(
                    crate::text::drawing_width(
                        self@.wrap,
                        layout_width as int,
                        remaining_width as int,
                    ),
                    software_bidi,
                )
            },
    {
        if !shares_row && self.align != TextAlign::Left {
            let width: usize = match self.wrap {
                TextWrap::NoWrap | TextWrap::End | TextWrap::Middle => layout_width,
                _ => if layout_width < remaining_width {
                    layout_width
                } else {
                    remaining_width
                },
            };
            proof {
                crate::canvas::lemma_total_len(content_texts(self@.contents));
            }
            let lines = self.render_lines(width, software_bidi);
            let ghost models = rendered_models(lines@);
            let mut i: usize = 0;
            while i < lines.len()
                invariant
                    i <= lines@.len(),
                    models == rendered_models(lines@),
                    models == self@.lines(width as int, software_bidi),
                    self@.align != TextAlign::Left,
                    width == crate::text::drawing_width(
                        self@.wrap,
                        layout_width as int,
                        remaining_width as int,
                    ),
                    !shares_row,
                    forall|k: int|
                        0 <= k < i ==> row_splits(
                            crate::mixed_segments::segment_texts((#[trigger] models[k]).segments),
                        ),
                decreases lines@.len() - i,
            {
                assert(models[i as int] == lines@[i as int]@);
                if !MixedText::segments_split(&lines[i].segments) {
                    assert(!row_splits(
                        crate::mixed_segments::segment_texts(models[i as int].segments),
                    ));
                    return None;
                }
                i = i + 1;
            }
        }
        Some(self.draw(layout_width, remaining_width, shares_row, software_bidi))
    }
}

/// A row of which something is left behind its first texts can be split where those can.
proof fn lemma_seen_row_splits(texts: Seq<Seq<char>>, count: int)
    requires
        0 <= count <= texts.len(),
        row_splits(texts.take(count)),
        row_is_seen(texts.take(count)),
    ensures
        row_splits(texts),
        row_is_seen(texts),
    decreases texts.len(),
{
    if count == texts.len() {
        assert(texts.take(count) =~= texts);
    } else {
        assert(texts.drop_last().take(count) =~= texts.take(count));
        lemma_seen_row_splits(texts.drop_last(), count);
    }
}

proof fn lemma_pieces_as_segments(line: LineModel)
    ensures
        crate::mixed_segments::marks(as_segments(line)) == crate::segmented_string::piece_marks(
            line.segments,
        ),
    decreases line.segments.len(),
{
    if line.segments.len() > 0 {
        let fewer = LineModel { segments: line.segments.drop_last(), ..line };
        lemma_pieces_as_segments(fewer);
        assert(as_segments(line).drop_last() =~= as_segments(fewer));
        assert(crate::mixed_segments::marks(as_segments(line))
            =~= crate::segmented_string::piece_marks(line.segments));
    } else {
        assert(crate::mixed_segments::marks(as_segments(line))
            =~= crate::segmented_string::piece_marks(line.segments));
    }
}

proof fn lemma_every_line_is_rendered(
    texts: Seq<Seq<char>>,
    lines: Seq<LineModel>,
    count: int,
    wrap: TextWrap,
    width: int,
    software_bidi: bool,
)
    requires
        wrap != TextWrap::WrapTrim,
        0 <= count <= lines.len(),
    ensures
        rendered_lines(texts, lines, count, wrap, width, software_bidi) == Seq::new(
            count as nat,
            |i: int| rendered_line(texts, lines, i, wrap, width, software_bidi),
        ),
    decreases count,
{
    if count > 0 {
        lemma_every_line_is_rendered(texts, lines, count - 1, wrap, width, software_bidi);
    }
    assert(rendered_lines(texts, lines, count, wrap, width, software_bidi) =~= Seq::new(
        count as nat,
        |i: int| rendered_line(texts, lines, i, wrap, width, software_bidi),
    ));
}

/// Whether marked characters are others without the white space at their end.
pub open spec fn is_marked_start_of(left: Seq<(char, int)>, whole: Seq<(char, int)>) -> bool {
    &&& left.len() <= whole.len()
    &&& left == whole.take(left.len() as int)
    &&& left.len() > 0 ==> !crate::whitespace::is_space(left[left.len() - 1].0)
    &&& forall|i: int|
        left.len() <= i < whole.len() ==> crate::whitespace::is_space((#[trigger] whole[i]).0)
}

/// The sections are wrapped as one text, in lines that break well: each is shown without the
/// white space at its end, and every character of it is a part of the section that it was
/// written in.
pub proof fn lemma_sections_are_wrapped(text: MixedTextModel, width: int) -> (cuts: Seq<(int, int)>)
    requires
        text.wrap == TextWrap::Wrap,
        0 <= width,
    ensures
        ({
            let texts = content_texts(text.contents);
            let clusters = crate::segmented_string::all_clusters(texts);
            let shown = text.lines(width, false);
            &&& crate::segmented_string::is_wrapping(
                clusters,
                width,
                crate::segmented_string::wrapped(texts, width),
                0,
                cuts,
            )
            &&& shown.len() == cuts.len() && shown.len() > 0
            &&& forall|i: int|
                0 <= i < shown.len() ==> is_marked_start_of(
                    crate::mixed_segments::marks((#[trigger] shown[i]).segments),
                    crate::segmented_string::piece_marks(
                        clusters.subrange(cuts[i].0, cuts[i].1),
                    ),
                )
            &&& forall|i: int|
                0 <= i < shown.len() ==> (#[trigger] shown[i]).width
                    == crate::mixed_segments::segments_width(shown[i].segments)
            &&& forall|i: int|
                0 <= i < shown.len() ==> (#[trigger] shown[i]).content_end == if i + 1
                    < shown.len() && shown[i + 1].soft_continuation {
                    crate::segmented_string::columns_of(clusters, cuts[i].0, cuts[i].1)
                } else {
                    shown[i].width
                }
        }),
{
    let texts = content_texts(text.contents);
    let clusters = crate::segmented_string::all_clusters(texts);
    let lines = crate::segmented_string::wrapped(texts, width);
    let cuts = crate::segmented_string::lemma_lines_wrap(clusters, width, 0, true);
    lemma_every_line_is_rendered(texts, lines, lines.len() as int, text.wrap, width, false);
    let shown = text.lines(width, false);
    assert forall|i: int| 0 <= i < shown.len() implies is_marked_start_of(
        crate::mixed_segments::marks((#[trigger] shown[i]).segments),
        crate::segmented_string::piece_marks(clusters.subrange(cuts[i].0, cuts[i].1)),
    ) by {
        lemma_pieces_as_segments(lines[i]);
        crate::mixed_segments::lemma_end_is_trimmed(as_segments(lines[i]));
        let cut = cuts[i];
    }
    assert forall|i: int| 0 <= i < shown.len() implies (#[trigger] shown[i]).content_end == if i + 1
        < shown.len() && shown[i + 1].soft_continuation {
        crate::segmented_string::columns_of(clusters, cuts[i].0, cuts[i].1)
    } else {
        shown[i].width
    } by {
        let cut = cuts[i];
    }
    cuts
}

/// Each segment of a row is written as its section asks: in its style, with its background and
/// its link. What was drawn before stays.
pub proof fn lemma_segments_are_drawn(
    drawer: DrawerModel,
    segments: Seq<SegmentModel>,
    contents: Seq<ContentModel>,
)
    requires
        !drawer.skips_leading,
    ensures
        ({
            let after = with_segments(drawer, segments, contents);
            &&& after.y == drawer.y && !after.skips_leading && after.software_bidi
                == drawer.software_bidi && after.x_offset == drawer.x_offset
            &&& drawer.ops.len() <= after.ops.len()
            &&& drawer.ops == after.ops.take(drawer.ops.len() as int)
            &&& forall|k: int|
                0 <= k < segments.len() ==> exists|j: int|
                    drawer.ops.len() <= j < after.ops.len() && shows_segment(
                        #[trigger] after.ops[j],
                        #[trigger] segments[k],
                        contents[segments[k].index],
                        drawer,
                    )
        }),
    decreases segments.len(),
{
    let after = with_segments(drawer, segments, contents);
    if segments.len() > 0 {
        let fewer = segments.drop_last();
        lemma_segments_are_drawn(drawer, fewer, contents);
        let before = with_segments(drawer, fewer, contents);
        let last = segments.last();
        assert(last.text.skip(0) =~= last.text);
        assert(drawer.ops =~= after.ops.take(drawer.ops.len() as int)) by {
            assert(drawer.ops == before.ops.take(drawer.ops.len() as int));
            assert forall|j: int| 0 <= j < before.ops.len() implies after.ops[j]
                == before.ops[j] by {}
            assert forall|j: int| 0 <= j < drawer.ops.len() implies drawer.ops[j]
                == before.ops[j] by {
                assert(before.ops.take(drawer.ops.len() as int)[j] == drawer.ops[j]);
            }
        }
        assert forall|k: int| 0 <= k < segments.len() implies exists|j: int|
            drawer.ops.len() <= j < after.ops.len() && shows_segment(
                #[trigger] after.ops[j],
                #[trigger] segments[k],
                contents[segments[k].index],
                drawer,
            ) by {
            if k < fewer.len() {
                assert(fewer[k] == segments[k]);
                let j = choose|j: int|
                    drawer.ops.len() <= j < before.ops.len() && shows_segment(
                        #[trigger] before.ops[j],
                        fewer[k],
                        contents[fewer[k].index],
                        drawer,
                    );
                assert(after.ops[j] == before.ops[j]);
            } else {
                let j: int = after.ops.len() - 1;
                assert(shows_segment(after.ops[j], last, contents[last.index], drawer));
            }
        }
    } else {
        assert(drawer.ops.take(drawer.ops.len() as int) =~= drawer.ops);
    }
}

/// Whether a segment is written as its section asks, on the row of a drawer.
pub open spec fn shows_segment(
    op: DrawModel,
    segment: SegmentModel,
    content: ContentModel,
    drawer: DrawerModel,
) -> bool {
    &&& op is SetText
    &&& op->SetText_y == drawer.y
    &&& op->text == crate::bidi::visual_text(segment.text, drawer.software_bidi)
    &&& op->style == content.style
    &&& op->link == content.href
}

/// A section looks as it asks.
pub proof fn lemma_section_looks(content: MixedTextContent)
    ensures
        content@.text == content.text@,
        content@.style.color == content.color,
        content@.style.weight == content.weight,
        content@.style.underline == (content.decoration == TextDecoration::Underline),
        content@.style.italic == content.italic,
        content@.style.strikethrough == content.strikethrough,
        content@.style.overline == content.overline,
        content@.style.invert == content.invert,
        content@.background_color == content.background_color,
        content@.href == crate::strings::opt_text(content.href),
{
}

proof fn lemma_least_padding_on_the_left(lines: Seq<RenderedModel>, width: int)
    ensures
        least_padding(lines, TextAlign::Left, width) == 0,
    decreases lines.len(),
{
    if lines.len() > 1 {
        lemma_least_padding_on_the_left(lines.drop_last(), width);
    }
}

/// Whether a segment of a line is shown on its row, as its section asks.
pub open spec fn shows_on_row(
    ops: Seq<DrawModel>,
    segment: SegmentModel,
    content: ContentModel,
    y: int,
    software_bidi: bool,
) -> bool {
    exists|j: int|
        {
            let op = #[trigger] ops[j];
            &&& 0 <= j < ops.len()
            &&& op is SetText
            &&& op->SetText_y == y
            &&& op->text == crate::bidi::visual_text(segment.text, software_bidi)
            &&& op->style == content.style
            &&& op->link == content.href
        }
}

/// The drawer after some lines of a text on the left is at the start of the next row, and has
/// what it had drawn before.
proof fn lemma_rows_follow_each_other(
    text: MixedTextModel,
    lines: Seq<RenderedModel>,
    width: int,
    software_bidi: bool,
    count: int,
)
    requires
        text.align == TextAlign::Left,
        0 <= count <= lines.len(),
    ensures
        ({
            let drawn = text.drawn(lines, width, software_bidi, count);
            let before = text.drawn(lines, width, software_bidi, count - 1);
            let opened = crate::text::row_opened(
                before,
                lines[count - 1].soft_continuation,
                0,
            );
            &&& drawn.x_offset == 0 && !drawn.skips_leading && drawn.software_bidi
                == software_bidi
            &&& count < lines.len() ==> drawn.y == count && drawn.x == 0
            &&& drawn.content_end == if count == 0 {
                0
            } else {
                crate::math::max_int(lines[count - 1].content_end, 0)
            }
            &&& count > 0 ==> {
                &&& drawn.ops == with_segments(
                    opened,
                    lines[count - 1].segments,
                    text.contents,
                ).ops
                &&& opened.y == count - 1 && !opened.skips_leading && opened.software_bidi
                    == software_bidi
                &&& before.ops.len() <= opened.ops.len() <= drawn.ops.len()
                &&& forall|j: int|
                    0 <= j < opened.ops.len() ==> #[trigger] drawn.ops[j] == opened.ops[j]
                &&& forall|j: int|
                    0 <= j < before.ops.len() ==> #[trigger] opened.ops[j] == before.ops[j]
            }
        }),
    decreases count,
{
    lemma_least_padding_on_the_left(lines, width);
    if count > 0 {
        lemma_rows_follow_each_other(text, lines, width, software_bidi, count - 1);
        let before = text.drawn(lines, width, software_bidi, count - 1);
        let line = lines[count - 1];
        let opened = crate::text::row_opened(before, line.soft_continuation, 0);
        lemma_segments_are_drawn(opened, line.segments, text.contents);
        let written = with_segments(opened, line.segments, text.contents);
        assert forall|j: int| 0 <= j < opened.ops.len() implies #[trigger] written.ops[j]
            == opened.ops[j] by {
            assert(written.ops.take(opened.ops.len() as int)[j] == opened.ops[j]);
        }
    }
}

/// A mixed text on the left is drawn line by line, each on its own row: every segment of a line is
/// shown as its section asks.
pub proof fn lemma_mixed_lines_are_drawn(
    text: MixedTextModel,
    lines: Seq<RenderedModel>,
    width: int,
    software_bidi: bool,
    count: int,
    y: int,
    k: int,
)
    requires
        text.align == TextAlign::Left,
        0 <= y < count <= lines.len(),
        0 <= k < lines[y].segments.len(),
    ensures
        shows_on_row(
            text.drawn(lines, width, software_bidi, count).ops,
            lines[y].segments[k],
            text.contents[lines[y].segments[k].index],
            y,
            software_bidi,
        ),
    decreases count,
{
    lemma_rows_follow_each_other(text, lines, width, software_bidi, count);
    let drawn = text.drawn(lines, width, software_bidi, count);
    let before = text.drawn(lines, width, software_bidi, count - 1);
    let segment = lines[y].segments[k];
    let content = text.contents[segment.index];
    if y < count - 1 {
        lemma_mixed_lines_are_drawn(text, lines, width, software_bidi, count - 1, y, k);
        let j = choose|j: int|
            {
                let op = #[trigger] before.ops[j];
                &&& 0 <= j < before.ops.len()
                &&& op is SetText
                &&& op->SetText_y == y
                &&& op->text == crate::bidi::visual_text(segment.text, software_bidi)
                &&& op->style == content.style
                &&& op->link == content.href
            };
        let opened = crate::text::row_opened(before, lines[count - 1].soft_continuation, 0);
        assert(opened.ops[j] == before.ops[j]);
        assert(drawn.ops[j] == opened.ops[j]);
    } else {
        let opened = crate::text::row_opened(before, lines[y].soft_continuation, 0);
        lemma_segments_are_drawn(opened, lines[y].segments, text.contents);
        let j = choose|j: int|
            opened.ops.len() <= j < drawn.ops.len() && shows_segment(
                #[trigger] drawn.ops[j],
                lines[y].segments[k],
                text.contents[lines[y].segments[k].index],
                opened,
            );
        assert(shows_segment(drawn.ops[j], segment, content, opened));
    }
}

/// A line of a mixed text on the left that continues the one above it is marked, with the column
/// at which the content of that one ends.
pub proof fn lemma_mixed_continuations_are_marked(
    text: MixedTextModel,
    lines: Seq<RenderedModel>,
    width: int,
    software_bidi: bool,
    count: int,
    y: int,
)
    requires
        text.align == TextAlign::Left,
        0 <= y < count <= lines.len(),
        lines[y].soft_continuation,
    ensures
        text.drawn(lines, width, software_bidi, count).ops.contains(
            DrawModel::MarkSoftWrap {
                y,
                content_end: if y == 0 {
                    0
                } else {
                    crate::math::max_int(lines[y - 1].content_end, 0)
                },
            },
        ),
    decreases count,
{
    lemma_rows_follow_each_other(text, lines, width, software_bidi, count);
    lemma_rows_follow_each_other(text, lines, width, software_bidi, count - 1);
    let drawn = text.drawn(lines, width, software_bidi, count);
    let before = text.drawn(lines, width, software_bidi, count - 1);
    let opened = crate::text::row_opened(before, lines[count - 1].soft_continuation, 0);
    let mark = DrawModel::MarkSoftWrap {
        y,
        content_end: if y == 0 {
            0
        } else {
            crate::math::max_int(lines[y - 1].content_end, 0)
        },
    };
    if y < count - 1 {
        lemma_mixed_continuations_are_marked(text, lines, width, software_bidi, count - 1, y);
        let j = choose|j: int| 0 <= j < before.ops.len() && before.ops[j] == mark;
        assert(opened.ops[j] == before.ops[j]);
        assert(drawn.ops[j] == mark);
    } else {
        let j: int = before.ops.len() as int;
        assert(opened.ops[j] == mark);
        assert(drawn.ops[j] == mark);
    }
}

proof fn lemma_trimmed_lines_have_width(
    texts: Seq<Seq<char>>,
    lines: Seq<LineModel>,
    count: int,
    width: int,
    i: int,
)
    requires
        0 <= count <= lines.len(),
        0 <= i < rendered_lines(texts, lines, count, TextWrap::WrapTrim, width, false).len(),
    ensures
        ({
            let line = rendered_lines(texts, lines, count, TextWrap::WrapTrim, width, false)[i];
            let marks = crate::mixed_segments::marks(line.segments);
            &&& line.width != 0
            &&& marks.len() > 0 ==> !crate::whitespace::is_space(marks[0].0)
                && !crate::whitespace::is_space(marks[marks.len() - 1].0)
        }),
    decreases count,
{
    let all = rendered_lines(texts, lines, count, TextWrap::WrapTrim, width, false);
    let before = rendered_lines(texts, lines, count - 1, TextWrap::WrapTrim, width, false);
    if i < before.len() {
        lemma_trimmed_lines_have_width(texts, lines, count - 1, width, i);
    } else {
        let segments = as_segments(lines[count - 1]);
        let started = crate::mixed_segments::start_trimmed(segments);
        let from = crate::mixed_segments::lemma_start_is_trimmed(segments);
        crate::mixed_segments::lemma_end_is_trimmed(started);
        let marks = crate::mixed_segments::marks(all[i].segments);
        if marks.len() > 0 {
            assert(marks[0] == crate::mixed_segments::marks(started)[0]);
        }
    }
}

/// The lines of a mixed text that is wrapped and trimmed have no white space around them, and none
/// of them is without width.
pub proof fn lemma_trimmed_sections(text: MixedTextModel, width: int, i: int)
    requires
        text.wrap == TextWrap::WrapTrim,
        0 <= i < text.lines(width, false).len(),
    ensures
        ({
            let line = text.lines(width, false)[i];
            let marks = crate::mixed_segments::marks(line.segments);
            &&& line.width != 0
            &&& marks.len() > 0 ==> !crate::whitespace::is_space(marks[0].0)
                && !crate::whitespace::is_space(marks[marks.len() - 1].0)
        }),
{
    let texts = content_texts(text.contents);
    let lines = source_lines(texts, text.wrap, width);
    lemma_trimmed_lines_have_width(texts, lines, lines.len() as int, width, i);
}

/// A line continues the one before it where a character stands before it in the sections, and that
/// is no line end; a line without text continues none.
pub proof fn lemma_mixed_line_continues(texts: Seq<Seq<char>>, line: LineModel)
    ensures
        line.segments.len() == 0 ==> !continues(texts, line),
        line.segments.len() > 0 ==> {
            let first = line.segments[0];
            let written = crate::strings::concat(texts.take(first.index)) + texts[first.index].take(
                first.offset,
            );
            &&& written.len() == 0 ==> !continues(texts, line)
            &&& written.len() > 0 ==> continues(texts, line) == (written[written.len() - 1]
                != '\n')
        },
{
}

} // verus!
