//! The border of a view and the text that is embedded in it.

use crate::canvas::{cluster_display_width, grapheme_clusters, string_display_width, DrawOp};
use crate::raw_ansi::parse_ansi_line;
use crate::strings::{chars_of, clone_text, repeat_char};
use crate::style::{CanvasTextStyle, Color, Edges, UnderlineStyle, Weight};
use vstd::prelude::*;

verus! {

use crate::canvas::DrawModel;
use crate::raw_ansi::RunModel;

/// The characters of a border.
#[derive(Clone, Copy, Debug, PartialEq, Eq, Structural)]
pub struct BorderCharacters {
    /// The top-left corner.
    pub top_left: char,
    /// The top-right corner.
    pub top_right: char,
    /// The bottom-left corner.
    pub bottom_left: char,
    /// The bottom-right corner.
    pub bottom_right: char,
    /// The left edge.
    pub left: char,
    /// The right edge.
    pub right: char,
    /// The top edge.
    pub top: char,
    /// The bottom edge.
    pub bottom: char,
}

impl Default for BorderCharacters {
    /// Null characters.
    fn default() -> (r: Self)
        ensures
            r == (BorderCharacters {
                top_left: '\0',
                top_right: '\0',
                bottom_left: '\0',
                bottom_right: '\0',
                left: '\0',
                right: '\0',
                top: '\0',
                bottom: '\0',
            }),
    {
        BorderCharacters {
            top_left: '\0',
            top_right: '\0',
            bottom_left: '\0',
            bottom_right: '\0',
            left: '\0',
            right: '\0',
            top: '\0',
            bottom: '\0',
        }
    }
}

/// The style of a border.
#[derive(Clone, Copy, Debug, PartialEq, Eq, Structural)]
pub enum BorderStyle {
    /// No border.
    NoBorder,
    /// Single lines with 90-degree corners.
    Single,
    /// Double lines with 90-degree corners.
    Double,
    /// Single lines with rounded corners.
    Round,
    /// Bold lines with 90-degree corners.
    Bold,
    /// Double lines on the left and right, single lines on the top and bottom.
    DoubleLeftRight,
    /// Double lines on the top and bottom, single lines on the left and right.
    DoubleTopBottom,
    /// Dashed lines with blank corners.
    Dashed,
    /// Basic ASCII characters.
    Classic,
    /// Characters of the caller's choice.
    Custom(BorderCharacters),
}

impl Default for BorderStyle {
    fn default() -> (r: Self)
        ensures
            r == BorderStyle::NoBorder,
    {
        BorderStyle::NoBorder
    }
}

/// The four corners, then the left and right, top and bottom edges.
pub open spec fn characters(
    corners: (char, char, char, char),
    vertical: char,
    horizontal: char,
) -> BorderCharacters {
    BorderCharacters {
        top_left: corners.0,
        top_right: corners.1,
        bottom_left: corners.2,
        bottom_right: corners.3,
        left: vertical,
        right: vertical,
        top: horizontal,
        bottom: horizontal,
    }
}

impl BorderStyle {
    /// The characters of the style, if it draws a border.
    pub open spec fn characters(self) -> Option<BorderCharacters> {
        match self {
            BorderStyle::NoBorder => None,
            BorderStyle::Single => Some(characters(('┌', '┐', '└', '┘'), '│', '─')),
            BorderStyle::Double => Some(characters(('╔', '╗', '╚', '╝'), '║', '═')),
            BorderStyle::Round => Some(characters(('╭', '╮', '╰', '╯'), '│', '─')),
            BorderStyle::Bold => Some(characters(('┏', '┓', '┗', '┛'), '┃', '━')),
            BorderStyle::DoubleLeftRight => Some(
                characters(('╓', '╖', '╙', '╜'), '║', '─'),
            ),
            BorderStyle::DoubleTopBottom => Some(
                characters(('╒', '╕', '╘', '╛'), '│', '═'),
            ),
            BorderStyle::Dashed => Some(characters((' ', ' ', ' ', ' '), '╎', '╌')),
            BorderStyle::Classic => Some(characters(('+', '+', '+', '+'), '|', '-')),
            BorderStyle::Custom(chosen) => Some(chosen),
        }
    }

    /// Whether the style draws no border.
    pub fn is_none(&self) -> (r: bool)
        ensures
            r == (*self == BorderStyle::NoBorder),
            r == (self.characters() is None),
    {
        match *self {
            BorderStyle::NoBorder => true,
            _ => false,
        }
    }

    /// The characters that the border is drawn with.
    pub fn border_characters(&self) -> (r: Option<BorderCharacters>)
        ensures
            r == self.characters(),
    {
        match *self {
            BorderStyle::NoBorder => None,
            BorderStyle::Single => Some(
                BorderCharacters {
                    top_left: '┌',
                    top_right: '┐',
                    bottom_left: '└',
                    bottom_right: '┘',
                    left: '│',
                    right: '│',
                    top: '─',
                    bottom: '─',
                },
            ),
            BorderStyle::Double => Some(
                BorderCharacters {
                    top_left: '╔',
                    top_right: '╗',
                    bottom_left: '╚',
                    bottom_right: '╝',
                    left: '║',
                    right: '║',
                    top: '═',
                    bottom: '═',
                },
            ),
            BorderStyle::Round => Some(
                BorderCharacters {
                    top_left: '╭',
                    top_right: '╮',
                    bottom_left: '╰',
                    bottom_right: '╯',
                    left: '│',
                    right: '│',
                    top: '─',
                    bottom: '─',
                },
            ),
            BorderStyle::Bold => Some(
                BorderCharacters {
                    top_left: '┏',
                    top_right: '┓',
                    bottom_left: '┗',
                    bottom_right: '┛',
                    left: '┃',
                    right: '┃',
                    top: '━',
                    bottom: '━',
                },
            ),
            BorderStyle::DoubleLeftRight => Some(
                BorderCharacters {
                    top_left: '╓',
                    top_right: '╖',
                    bottom_left: '╙',
                    bottom_right: '╜',
                    left: '║',
                    right: '║',
                    top: '─',
                    bottom: '─',
                },
            ),
            BorderStyle::DoubleTopBottom => Some(
                BorderCharacters {
                    top_left: '╒',
                    top_right: '╕',
                    bottom_left: '╘',
                    bottom_right: '╛',
                    left: '│',
                    right: '│',
                    top: '═',
                    bottom: '═',
                },
            ),
            BorderStyle::Dashed => Some(
                BorderCharacters {
                    top_left: ' ',
                    top_right: ' ',
                    bottom_left: ' ',
                    bottom_right: ' ',
                    left: '╎',
                    right: '╎',
                    top: '╌',
                    bottom: '╌',
                },
            ),
            BorderStyle::Classic => Some(
                BorderCharacters {
                    top_left: '+',
                    top_right: '+',
                    bottom_left: '+',
                    bottom_right: '+',
                    left: '|',
                    right: '|',
                    top: '-',
                    bottom: '-',
                },
            ),
            BorderStyle::Custom(chosen) => Some(chosen),
        }
    }
}

/// The border that holds a text.
#[derive(Clone, Copy, Debug, PartialEq, Eq, Structural)]
pub enum BorderTextPosition {
    /// The top border.
    Top,
    /// The bottom border.
    Bottom,
}

impl Default for BorderTextPosition {
    fn default() -> (r: Self)
        ensures
            r == BorderTextPosition::Top,
    {
        BorderTextPosition::Top
    }
}

/// Where a text stands in a border.
#[derive(Clone, Copy, Debug, PartialEq, Eq, Structural)]
pub enum BorderTextAlign {
    /// After the first corner, plus the offset.
    Start,
    /// In the center.
    Center,
    /// Before the last corner, minus the offset.
    End,
}

impl Default for BorderTextAlign {
    fn default() -> (r: Self)
        ensures
            r == BorderTextAlign::Start,
    {
        BorderTextAlign::Start
    }
}

/// A text that is embedded in the top or bottom border.
///
/// The border before and after it keeps the color of the border; the text itself
/// has the plain style, or that of its escape sequences.
#[derive(Debug, PartialEq, Eq)]
pub struct BorderText {
    /// The text.
    pub content: String,
    /// The border that holds it.
    pub position: BorderTextPosition,
    /// Where it stands.
    pub align: BorderTextAlign,
    /// Cells between it and the corner.
    pub offset: usize,
}

/// What a [`BorderText`] holds.
pub struct BorderTextModel {
    pub content: Seq<char>,
    pub position: BorderTextPosition,
    pub align: BorderTextAlign,
    pub offset: int,
}

impl View for BorderText {
    type V = BorderTextModel;

    open spec fn view(&self) -> BorderTextModel {
        BorderTextModel {
            content: self.content@,
            position: self.position,
            align: self.align,
            offset: self.offset as int,
        }
    }
}

impl Default for BorderText {
    fn default() -> (r: Self)
        ensures
            r.content@.len() == 0,
            r.position == BorderTextPosition::Top,
            r.align == BorderTextAlign::Start,
            r.offset == 0,
    {
        BorderText {
            content: String::new(),
            position: BorderTextPosition::Top,
            align: BorderTextAlign::Start,
            offset: 0,
        }
    }
}

impl Clone for BorderText {
    fn clone(&self) -> (r: Self)
        ensures
            r@ == self@,
    {
        BorderText {
            content: self.content.clone(),
            position: self.position,
            align: self.align,
            offset: self.offset,
        }
    }
}

/// What an optional text holds.
pub open spec fn opt_border_text(text: Option<BorderText>) -> Option<BorderTextModel> {
    match text {
        Some(text) => Some(text@),
        None => None,
    }
}

/// The style of an edge.
pub open spec fn edge_style(color: Option<Color>, dim: bool) -> CanvasTextStyle {
    CanvasTextStyle {
        color,
        weight: if dim {
            Weight::Light
        } else {
            Weight::Normal
        },
        ..crate::style::plain_style()
    }
}

/// The style of an edge.
pub fn border_edge_style(color: Option<Color>, dim: bool) -> (style: CanvasTextStyle)
    ensures
        style == edge_style(color, dim),
{
    CanvasTextStyle {
        color,
        weight: if dim {
            Weight::Light
        } else {
            Weight::Normal
        },
        underline: false,
        underline_style: UnderlineStyle::Single,
        underline_color: None,
        italic: false,
        blink: false,
        hidden: false,
        strikethrough: false,
        overline: false,
        invert: false,
    }
}

/// Whether an edge is shown, where its own switch wins over the set of edges.
pub open spec fn shows_edge(in_set: bool, visibility: Option<bool>) -> bool {
    match visibility {
        Some(visible) => visible,
        None => in_set,
    }
}

/// The edges after the switches of the single edges were applied.
pub fn edge_visibility(
    edges: Edges,
    top: Option<bool>,
    bottom: Option<bool>,
    left: Option<bool>,
    right: Option<bool>,
) -> (r: Edges)
    ensures
        r == (Edges {
            top: shows_edge(edges.top, top),
            right: shows_edge(edges.right, right),
            bottom: shows_edge(edges.bottom, bottom),
            left: shows_edge(edges.left, left),
        }),
{
    Edges {
        top: match top {
            Some(visible) => visible,
            None => edges.top,
        },
        right: match right {
            Some(visible) => visible,
            None => edges.right,
        },
        bottom: match bottom {
            Some(visible) => visible,
            None => edges.bottom,
        },
        left: match left {
            Some(visible) => visible,
            None => edges.left,
        },
    }
}

/// The columns of the clusters, each counted on its own.
pub open spec fn summed_width(clusters: Seq<Seq<char>>) -> int
    decreases clusters.len(),
{
    if clusters.len() == 0 {
        0
    } else {
        summed_width(clusters.drop_last()) + crate::canvas::cluster_width(clusters.last(), 0)
    }
}

/// How many of the clusters fit, from the left, until the first that does not.
pub open spec fn fitting(clusters: Seq<Seq<char>>, max_width: int) -> int
    decreases clusters.len(),
{
    if clusters.len() == 0 {
        0
    } else {
        let before: int = fitting(clusters.drop_last(), max_width);
        if before == clusters.len() - 1 && summed_width(clusters) <= max_width {
            before + 1
        } else {
            before
        }
    }
}

/// A text cut off where it is wider than `max_width`.
pub open spec fn cut(text: Seq<char>, max_width: int) -> Seq<char> {
    let clusters: Seq<Seq<char>> = crate::canvas::graphemes(text);
    if max_width <= 0 {
        Seq::empty()
    } else {
        crate::strings::concat(clusters.take(fitting(clusters, max_width)))
    }
}

proof fn lemma_fitting_stops(clusters: Seq<Seq<char>>, max_width: int, count: int)
    requires
        0 <= count < clusters.len(),
        fitting(clusters.take(count), max_width) == count,
        summed_width(clusters.take(count + 1)) > max_width,
    ensures
        fitting(clusters, max_width) == count,
    decreases clusters.len(),
{
    if count == clusters.len() - 1 {
        assert(clusters.drop_last() =~= clusters.take(count));
        assert(clusters.take(count + 1) =~= clusters);
    } else {
        let before = clusters.drop_last();
        assert(before.take(count) =~= clusters.take(count));
        assert(before.take(count + 1) =~= clusters.take(count + 1));
        lemma_fitting_stops(before, max_width, count);
    }
}

/// Cuts a text off where it is wider than `max_width`.
pub fn truncate_to_width(text: &str, max_width: usize) -> (r: String)
    requires
        crate::canvas::countable(text@.len() as int, 0),
    ensures
        r@ == cut(text@, max_width as int),
        r@.len() <= text@.len(),
{
    let mut r = String::new();
    if max_width == 0 {
        assert(r@ =~= Seq::empty());
        return r;
    }
    let clusters = grapheme_clusters(text);
    let ghost all = crate::strings::texts(clusters@);
    proof {
        crate::canvas::lemma_total_len(all);
    }
    let mut width: usize = 0;
    let mut i: usize = 0;
    assert(all.take(0) =~= Seq::empty());
    assert(r@ =~= crate::strings::concat(all.take(0)));
    while i < clusters.len()
        invariant
            i <= clusters@.len(),
            max_width > 0,
            all == crate::strings::texts(clusters@),
            all == crate::canvas::graphemes(text@),
            crate::canvas::total_len(all) == text@.len(),
            crate::canvas::countable(text@.len() as int, 0),
            width == summed_width(all.take(i as int)),
            width <= 8 * crate::canvas::total_len(all.take(i as int)),
            fitting(all.take(i as int), max_width as int) == i,
            r@ == crate::strings::concat(all.take(i as int)),
            r@.len() == crate::canvas::total_len(all.take(i as int)),
        decreases clusters@.len() - i,
    {
        proof {
            assert(all.take(i + 1).drop_last() =~= all.take(i as int));
            assert(all.take(i + 1).last() == clusters@[i as int]@);
            crate::canvas::lemma_total_len_prefix(all, i + 1);
        }
        let next: usize = width + cluster_display_width(clusters[i].as_str(), 0);
        if next > max_width {
            proof {
                lemma_fitting_stops(all, max_width as int, i as int);
                crate::canvas::lemma_total_len_prefix(all, i as int);
            }
            return r;
        }
        r.append(clusters[i].as_str());
        width = next;
        i = i + 1;
    }
    assert(all.take(i as int) =~= all);
    r
}

/// The columns of the runs, each counted on its own.
pub open spec fn summed_runs(runs: Seq<RunModel>) -> int
    decreases runs.len(),
{
    if runs.len() == 0 {
        0
    } else {
        summed_runs(runs.drop_last()) + crate::canvas::display_width(runs.last().text)
    }
}

/// Runs take no negative number of columns.
proof fn lemma_runs_are_positive(runs: Seq<RunModel>)
    ensures
        summed_runs(runs) >= 0,
    decreases runs.len(),
{
    if runs.len() > 0 {
        lemma_runs_are_positive(runs.drop_last());
        crate::canvas::lemma_width_is_positive(
            crate::canvas::graphemes(runs.last().text),
            0,
        );
    }
}

/// The runs of a text with escape sequences.
pub open spec fn border_runs(text: Seq<char>) -> Seq<RunModel> {
    crate::raw_ansi::ansi_runs(text, true)
}

/// The text without its escape sequences.
pub fn ansi_visible_text(text: &str) -> (r: String)
    ensures
        r@ == crate::raw_ansi::visible_text(border_runs(text@)),
        r@.len() <= text@.len(),
{
    let runs = parse_ansi_line(text);
    let ghost models = crate::raw_ansi::run_models(runs@);
    let ghost texts = crate::raw_ansi_line::run_texts(models);
    let mut r = String::new();
    let mut i: usize = 0;
    assert(r@ =~= crate::strings::concat(texts.take(0)));
    while i < runs.len()
        invariant
            i <= runs@.len(),
            models == crate::raw_ansi::run_models(runs@),
            texts == crate::raw_ansi_line::run_texts(models),
            r@ == crate::strings::concat(texts.take(i as int)),
        decreases runs@.len() - i,
    {
        r.append(runs[i].text.as_str());
        i = i + 1;
        proof {
            assert(texts.take(i as int).drop_last() =~= texts.take(i - 1));
            assert(texts.take(i as int).last() == runs@[i - 1].text@);
        }
    }
    proof {
        assert(texts.take(i as int) =~= texts);
        crate::raw_ansi::lemma_visible_text_is_shorter(text@, true);
    }
    r
}

/// The columns of the text without its escape sequences.
pub fn ansi_visible_width(text: &str) -> (width: usize)
    requires
        crate::canvas::countable(text@.len() as int, 0),
    ensures
        width == summed_runs(border_runs(text@)),
        width <= 8 * text@.len(),
{
    let runs = parse_ansi_line(text);
    let ghost models = crate::raw_ansi::run_models(runs@);
    let ghost texts = crate::raw_ansi_line::run_texts(models);
    proof {
        crate::raw_ansi::lemma_visible_text_is_shorter(text@, true);
        crate::canvas::lemma_total_len(texts);
    }
    let mut width: usize = 0;
    let mut i: usize = 0;
    assert(models.take(0) =~= Seq::empty());
    while i < runs.len()
        invariant
            i <= runs@.len(),
            models == crate::raw_ansi::run_models(runs@),
            texts == crate::raw_ansi_line::run_texts(models),
            crate::canvas::total_len(texts) <= text@.len(),
            crate::canvas::countable(text@.len() as int, 0),
            width == summed_runs(models.take(i as int)),
            width <= 8 * crate::canvas::total_len(texts.take(i as int)),
        decreases runs@.len() - i,
    {
        proof {
            assert(models.take(i + 1).drop_last() =~= models.take(i as int));
            assert(models.take(i + 1).last() == runs@[i as int]@);
            assert(texts.take(i + 1).drop_last() =~= texts.take(i as int));
            assert(texts.take(i + 1).last() == runs@[i as int].text@);
            crate::canvas::lemma_total_len_prefix(texts, i + 1);
        }
        width = width + string_display_width(runs[i].text.as_str());
        i = i + 1;
    }
    assert(models.take(i as int) =~= models);
    assert(texts.take(i as int) =~= texts);
    width
}

/// The parts of a border line with an embedded text.
pub struct EmbeddedModel {
    pub before: Seq<char>,
    pub content: Seq<char>,
    pub after: Seq<char>,
}

/// Whether a text leaves room for the border on both of its sides.
pub open spec fn leaves_border(line: Seq<char>, text: Seq<char>) -> bool {
    summed_runs(border_runs(text)) < crate::math::max_int(
        crate::canvas::display_width(line) - 2,
        0,
    )
}

/// The offset does not reach past the first corner of a line.
pub open spec fn offset_fits(
    line: Seq<char>,
    text: Seq<char>,
    align: BorderTextAlign,
    offset: int,
) -> bool {
    leaves_border(line, text) ==> match align {
        BorderTextAlign::Start => offset < usize::MAX,
        BorderTextAlign::Center => true,
        BorderTextAlign::End => summed_runs(border_runs(text)) + offset + 1
            <= crate::canvas::display_width(line),
    }
}

/// The column at which a text stands in a line: at least one cell of border stays on
/// both of its sides.
pub open spec fn text_column(
    line_width: int,
    text_width: int,
    align: BorderTextAlign,
    offset: int,
) -> int {
    crate::math::clamp_int(
        match align {
            BorderTextAlign::Start => offset + 1,
            BorderTextAlign::Center => (line_width - text_width) / 2,
            BorderTextAlign::End => line_width - text_width - offset - 1,
        },
        1,
        line_width - text_width - 1,
    )
}

/// A border line with an embedded text. A text without room for the border is cut
/// off and stands alone.
pub open spec fn embedded(
    line: Seq<char>,
    text: Seq<char>,
    align: BorderTextAlign,
    offset: int,
    border_char: char,
) -> EmbeddedModel {
    let line_width: int = crate::canvas::display_width(line);
    let text_width: int = summed_runs(border_runs(text));
    if line_width == 0 {
        EmbeddedModel { before: Seq::empty(), content: Seq::empty(), after: Seq::empty() }
    } else if !leaves_border(line, text) {
        EmbeddedModel {
            before: Seq::empty(),
            content: cut(crate::raw_ansi::visible_text(border_runs(text)), line_width),
            after: Seq::empty(),
        }
    } else {
        let column: int = text_column(line_width, text_width, align, offset);
        let first: char = if line.len() > 0 {
            line[0]
        } else {
            border_char
        };
        let last: char = if line.len() > 0 {
            line.last()
        } else {
            border_char
        };
        EmbeddedModel {
            before: seq![first] + crate::strings::repeated(border_char, column - 1),
            content: text,
            after: crate::strings::repeated(
                border_char,
                line_width - column - text_width - 1,
            ).push(last),
        }
    }
}

/// The parts of a border line with an embedded text.
#[derive(Debug, PartialEq, Eq)]
pub struct EmbeddedLine {
    /// The border before the text.
    pub before: String,
    /// The text.
    pub content: String,
    /// The border after the text.
    pub after: String,
}

impl View for EmbeddedLine {
    type V = EmbeddedModel;

    open spec fn view(&self) -> EmbeddedModel {
        EmbeddedModel { before: self.before@, content: self.content@, after: self.after@ }
    }
}

/// The columns of a border line of this length, with a text of this length in it,
/// can be counted.
pub open spec fn embeddable(line_length: int, text_length: int) -> bool {
    128 * (line_length + text_length + 2) <= isize::MAX
}

/// Whether the offset does not reach past the first corner of a line.
pub fn border_text_fits(
    border_line: &str,
    text: &str,
    align: BorderTextAlign,
    offset: usize,
) -> (fits: bool)
    requires
        embeddable(border_line@.len() as int, text@.len() as int),
    ensures
        fits == offset_fits(border_line@, text@, align, offset as int),
{
    let border_width: usize = string_display_width(border_line);
    let text_width: usize = ansi_visible_width(text);
    if border_width < 2 || text_width >= border_width - 2 {
        return true;
    }
    match align {
        BorderTextAlign::Start => offset < usize::MAX,
        BorderTextAlign::Center => true,
        BorderTextAlign::End => offset <= border_width - text_width - 1,
    }
}

/// Embeds a text in a border line.
pub fn embedded_border_line_segments(
    border_line: &str,
    text: &str,
    align: BorderTextAlign,
    offset: usize,
    border_char: char,
) -> (line: EmbeddedLine)
    requires
        embeddable(border_line@.len() as int, text@.len() as int),
        offset_fits(border_line@, text@, align, offset as int),
    ensures
        line@ == embedded(border_line@, text@, align, offset as int, border_char),
        line.before@.len() <= 8 * border_line@.len(),
        line.content@.len() <= text@.len(),
        line.after@.len() <= 8 * border_line@.len(),
{
    let border_width: usize = string_display_width(border_line);
    if border_width == 0 {
        let line = EmbeddedLine {
            before: String::new(),
            content: String::new(),
            after: String::new(),
        };
        assert(line.before@ =~= Seq::empty());
        assert(line.content@ =~= Seq::empty());
        assert(line.after@ =~= Seq::empty());
        return line;
    }
    let text_width: usize = ansi_visible_width(text);
    if border_width < 2 || text_width >= border_width - 2 {
        let visible = ansi_visible_text(text);
        let line = EmbeddedLine {
            before: String::new(),
            content: truncate_to_width(visible.as_str(), border_width),
            after: String::new(),
        };
        assert(line.before@ =~= Seq::empty());
        assert(line.after@ =~= Seq::empty());
        return line;
    }
    let wanted: usize = match align {
        BorderTextAlign::Start => offset + 1,
        BorderTextAlign::Center => (border_width - text_width) / 2,
        BorderTextAlign::End => border_width - text_width - offset - 1,
    };
    let most: usize = border_width - text_width - 1;
    let column: usize = if wanted < 1 {
        1
    } else if wanted > most {
        most
    } else {
        wanted
    };
    let chars = chars_of(border_line);
    let mut first: char = border_char;
    let mut last: char = border_char;
    if chars.len() > 0 {
        first = chars[0];
        last = chars[chars.len() - 1];
    }
    let mut before = String::new();
    before.push(first);
    before.append(repeat_char(border_char, column - 1).as_str());
    let mut after = repeat_char(border_char, border_width - column - text_width - 1);
    after.push(last);
    let line = EmbeddedLine { before, content: text.to_owned(), after };
    assert(line.before@ =~= embedded(
        border_line@,
        text@,
        align,
        offset as int,
        border_char,
    ).before);
    line
}

/// A text that leaves room for the border keeps its corners and its width: the line takes as
/// many columns as it does without the text.
pub proof fn lemma_embedded_text_keeps_border(
    line: Seq<char>,
    text: Seq<char>,
    align: BorderTextAlign,
    offset: int,
    border_char: char,
)
    requires
        line.len() > 0,
        leaves_border(line, text),
    ensures
        ({
            let parts = embedded(line, text, align, offset, border_char);
            &&& parts.content == text
            &&& parts.before.len() > 0 && parts.before.first() == line.first()
            &&& parts.after.len() > 0 && parts.after.last() == line.last()
            &&& parts.before.len() + summed_runs(border_runs(text)) + parts.after.len()
                == crate::canvas::display_width(line)
        }),
{
    lemma_runs_are_positive(border_runs(text));
}

/// What draws the runs of an embedded text from column `x` on; runs without width
/// draw nothing.
pub open spec fn content_drawing(runs: Seq<RunModel>, x: int, y: int) -> Seq<DrawModel>
    decreases runs.len(),
{
    if runs.len() == 0 {
        Seq::empty()
    } else {
        let before: Seq<DrawModel> = content_drawing(runs.drop_last(), x, y);
        let width: int = crate::canvas::display_width(runs.last().text);
        if width == 0 {
            before
        } else {
            before + crate::raw_ansi_line::run_drawing(
                runs.last(),
                x + summed_runs(runs.drop_last()),
                y,
                width,
            )
        }
    }
}

/// What draws a piece of the border; nothing where it is empty.
pub open spec fn piece_drawing(
    piece: Seq<char>,
    x: int,
    y: int,
    style: CanvasTextStyle,
) -> Seq<DrawModel> {
    if piece.len() == 0 {
        Seq::empty()
    } else {
        seq![DrawModel::SetText { x, y, text: piece, style, link: None }]
    }
}

/// The text that a border holds, if it holds one.
pub open spec fn text_at(
    text: Option<BorderTextModel>,
    position: BorderTextPosition,
) -> Option<BorderTextModel> {
    if text is Some && text->0.position == position {
        text
    } else {
        None
    }
}

/// What draws a border line, with the text that it holds.
pub open spec fn line_drawing(
    line: Seq<char>,
    border_char: char,
    text: Option<BorderTextModel>,
    style: CanvasTextStyle,
    y: int,
) -> Seq<DrawModel> {
    match text {
        Some(text) => {
            let parts: EmbeddedModel = embedded(
                line,
                text.content,
                text.align,
                text.offset,
                border_char,
            );
            let start: int = if parts.before.len() == 0 {
                0
            } else {
                crate::canvas::display_width(parts.before)
            };
            let runs: Seq<RunModel> = if parts.content.len() == 0 {
                Seq::empty()
            } else {
                border_runs(parts.content)
            };
            piece_drawing(parts.before, 0, y, style) + content_drawing(runs, start, y)
                + piece_drawing(parts.after, start + summed_runs(runs), y, style)
        },
        None => seq![DrawModel::SetText { x: 0, y, text: line, style, link: None }],
    }
}

/// Writes a piece of the border, if it is not empty.
fn write_piece(piece: String, x: isize, y: isize, style: CanvasTextStyle, ops: &mut Vec<DrawOp>)
    ensures
        crate::canvas::drawing(final(ops)@) == crate::canvas::drawing(old(ops)@) + piece_drawing(
            piece@,
            x as int,
            y as int,
            style,
        ),
{
    let ghost before = crate::canvas::drawing(ops@);
    if piece.as_str().is_empty() {
        assert(before + piece_drawing(piece@, x as int, y as int, style) =~= before);
        return;
    }
    let op = DrawOp::SetText { x, y, text: piece, style, link: None };
    ops.push(op);
    assert(crate::canvas::drawing(ops@) =~= before + piece_drawing(
        piece@,
        x as int,
        y as int,
        style,
    ));
}

/// Writes the runs of an embedded text from column `x` on, and returns the column
/// after them.
fn write_content(content: &str, x: usize, y: isize, ops: &mut Vec<DrawOp>) -> (end: usize)
    requires
        crate::canvas::countable(content@.len() as int, x as int),
    ensures
        ({
            let runs = if content@.len() == 0 {
                Seq::empty()
            } else {
                border_runs(content@)
            };
            &&& crate::canvas::drawing(final(ops)@) == crate::canvas::drawing(old(ops)@)
                + content_drawing(runs, x as int, y as int)
            &&& end == x + summed_runs(runs)
        }),
        end <= x + 8 * content@.len(),
{
    let ghost before = crate::canvas::drawing(ops@);
    if content.is_empty() {
        assert(before + content_drawing(Seq::empty(), x as int, y as int) =~= before);
        return x;
    }
    let runs = parse_ansi_line(content);
    let ghost models = crate::raw_ansi::run_models(runs@);
    let ghost texts = crate::raw_ansi_line::run_texts(models);
    proof {
        crate::raw_ansi::lemma_visible_text_is_shorter(content@, true);
        crate::canvas::lemma_total_len(texts);
        assert(models.take(0) =~= Seq::empty());
        assert(before + content_drawing(models.take(0), x as int, y as int) =~= before);
    }
    let mut end: usize = x;
    let mut i: usize = 0;
    while i < runs.len()
        invariant
            i <= runs@.len(),
            models == crate::raw_ansi::run_models(runs@),
            texts == crate::raw_ansi_line::run_texts(models),
            crate::canvas::total_len(texts) <= content@.len(),
            crate::canvas::countable(content@.len() as int, x as int),
            end == x + summed_runs(models.take(i as int)),
            end <= x + 8 * crate::canvas::total_len(texts.take(i as int)),
            crate::canvas::drawing(ops@) == before + content_drawing(
                models.take(i as int),
                x as int,
                y as int,
            ),
        decreases runs@.len() - i,
    {
        let run = &runs[i];
        let ghost done = crate::canvas::drawing(ops@);
        proof {
            assert(models.take(i + 1).drop_last() =~= models.take(i as int));
            assert(models.take(i + 1).last() == run@);
            assert(texts.take(i + 1).drop_last() =~= texts.take(i as int));
            assert(texts.take(i + 1).last() == run.text@);
            crate::canvas::lemma_total_len_prefix(texts, i + 1);
        }
        let width: usize = string_display_width(run.text.as_str());
        if width > 0 {
            if let Some(color) = run.background_color {
                let op = DrawOp::SetBackground { x: end as isize, y, width, height: 1, color };
                ops.push(op);
                assert(crate::canvas::drawing(ops@) =~= done.push(op@));
            }
            let ghost filled = crate::canvas::drawing(ops@);
            let op = DrawOp::SetText {
                x: end as isize,
                y,
                text: run.text.clone(),
                style: run.style,
                link: clone_text(&run.hyperlink),
            };
            ops.push(op);
            proof {
                assert(crate::canvas::drawing(ops@) =~= filled.push(op@));
                assert(crate::canvas::drawing(ops@) =~= done + crate::raw_ansi_line::run_drawing(
                    run@,
                    end as int,
                    y as int,
                    width as int,
                ));
                assert(crate::canvas::drawing(ops@) =~= before + content_drawing(
                    models.take(i + 1),
                    x as int,
                    y as int,
                ));
            }
            end = end + width;
        }
        i = i + 1;
    }
    assert(models.take(i as int) =~= models);
    assert(texts.take(i as int) =~= texts);
    end
}

/// A border line can be written: the text that it holds fits in it.
pub open spec fn line_writable(line: Seq<char>, text: Option<BorderTextModel>) -> bool {
    text matches Some(text) ==> {
        &&& embeddable(line.len() as int, text.content.len() as int)
        &&& offset_fits(line, text.content, text.align, text.offset)
    }
}

/// Writes a border line, with the text that it holds.
pub fn write_border_line(
    border_line: String,
    border_char: char,
    text: &Option<BorderText>,
    position: BorderTextPosition,
    style: CanvasTextStyle,
    y: isize,
    ops: &mut Vec<DrawOp>,
)
    requires
        line_writable(border_line@, text_at(opt_border_text(*text), position)),
    ensures
        crate::canvas::drawing(final(ops)@) == crate::canvas::drawing(old(ops)@) + line_drawing(
            border_line@,
            border_char,
            text_at(opt_border_text(*text), position),
            style,
            y as int,
        ),
{
    let ghost before = crate::canvas::drawing(ops@);
    if let Some(text) = text {
        if text.position == position {
            let parts = embedded_border_line_segments(
                border_line.as_str(),
                text.content.as_str(),
                text.align,
                text.offset,
                border_char,
            );
            let mut x: usize = 0;
            if !parts.before.as_str().is_empty() {
                x = string_display_width(parts.before.as_str());
            }
            write_piece(parts.before, 0, y, style, ops);
            let end: usize = write_content(parts.content.as_str(), x, y, ops);
            write_piece(parts.after, end as isize, y, style, ops);
            assert(crate::canvas::drawing(ops@) =~= before + line_drawing(
                border_line@,
                border_char,
                text_at(Some(text@), position),
                style,
                y as int,
            ));
            return;
        }
    }
    let op = DrawOp::SetText { x: 0, y, text: border_line, style, link: None };
    ops.push(op);
    assert(crate::canvas::drawing(ops@) =~= before + line_drawing(
        border_line@,
        border_char,
        None,
        style,
        y as int,
    ));
}

/// The corners and the edges of each border style.
pub proof fn lemma_border_styles(chosen: BorderCharacters)
    ensures
        BorderStyle::NoBorder.characters() is None,
        BorderStyle::Single.characters() == Some(
            BorderCharacters {
                top_left: '┌',
                top_right: '┐',
                bottom_left: '└',
                bottom_right: '┘',
                left: '│',
                right: '│',
                top: '─',
                bottom: '─',
            },
        ),
        BorderStyle::Double.characters() == Some(
            BorderCharacters {
                top_left: '╔',
                top_right: '╗',
                bottom_left: '╚',
                bottom_right: '╝',
                left: '║',
                right: '║',
                top: '═',
                bottom: '═',
            },
        ),
        BorderStyle::Round.characters() == Some(
            BorderCharacters {
                top_left: '╭',
                top_right: '╮',
                bottom_left: '╰',
                bottom_right: '╯',
                left: '│',
                right: '│',
                top: '─',
                bottom: '─',
            },
        ),
        BorderStyle::Bold.characters() == Some(
            BorderCharacters {
                top_left: '┏',
                top_right: '┓',
                bottom_left: '┗',
                bottom_right: '┛',
                left: '┃',
                right: '┃',
                top: '━',
                bottom: '━',
            },
        ),
        BorderStyle::DoubleLeftRight.characters() == Some(
            BorderCharacters {
                top_left: '╓',
                top_right: '╖',
                bottom_left: '╙',
                bottom_right: '╜',
                left: '║',
                right: '║',
                top: '─',
                bottom: '─',
            },
        ),
        BorderStyle::DoubleTopBottom.characters() == Some(
            BorderCharacters {
                top_left: '╒',
                top_right: '╕',
                bottom_left: '╘',
                bottom_right: '╛',
                left: '│',
                right: '│',
                top: '═',
                bottom: '═',
            },
        ),
        BorderStyle::Dashed.characters() == Some(
            BorderCharacters {
                top_left: ' ',
                top_right: ' ',
                bottom_left: ' ',
                bottom_right: ' ',
                left: '╎',
                right: '╎',
                top: '╌',
                bottom: '╌',
            },
        ),
        BorderStyle::Classic.characters() == Some(
            BorderCharacters {
                top_left: '+',
                top_right: '+',
                bottom_left: '+',
                bottom_right: '+',
                left: '|',
                right: '|',
                top: '-',
                bottom: '-',
            },
        ),
        BorderStyle::Custom(chosen).characters() == Some(chosen),
{
}

/// An edge has its color, and is light where it is dim; nothing else is asked of it. Its own
/// switch decides whether it is shown, and without one the set of edges does.
pub proof fn lemma_edges(color: Option<Color>, dim: bool, in_set: bool, visible: bool)
    ensures
        edge_style(color, dim).color == color,
        edge_style(color, dim).weight == if dim {
            Weight::Light
        } else {
            Weight::Normal
        },
        !edge_style(color, dim).underline && !edge_style(color, dim).italic && !edge_style(
            color,
            dim,
        ).invert,
        shows_edge(in_set, Some(visible)) == visible,
        shows_edge(in_set, None) == in_set,
{
}

proof fn lemma_fitting(clusters: Seq<Seq<char>>, max_width: int)
    requires
        max_width >= 0,
    ensures
        0 <= fitting(clusters, max_width) <= clusters.len(),
        summed_width(clusters.take(fitting(clusters, max_width))) <= max_width,
        fitting(clusters, max_width) < clusters.len() ==> summed_width(
            clusters.take(fitting(clusters, max_width) + 1),
        ) > max_width,
    decreases clusters.len(),
{
    if clusters.len() > 0 {
        let before = clusters.drop_last();
        lemma_fitting(before, max_width);
        let count = fitting(before, max_width);
        assert(before.take(count) =~= clusters.take(count));
        assert(clusters.take(clusters.len() as int) =~= clusters);
        if count < before.len() {
            assert(before.take(count + 1) =~= clusters.take(count + 1));
        }
    } else {
        assert(clusters.take(0) =~= Seq::empty());
    }
}

/// A text that is cut off keeps its first clusters, as many as fit.
pub proof fn lemma_cut_keeps_what_fits(text: Seq<char>, max_width: int) -> (count: int)
    requires
        max_width >= 0,
    ensures
        ({
            let clusters = crate::canvas::graphemes(text);
            &&& 0 <= count <= clusters.len()
            &&& cut(text, max_width) == crate::strings::concat(clusters.take(count))
            &&& summed_width(clusters.take(count)) <= max_width
            &&& max_width > 0 && count < clusters.len() ==> summed_width(clusters.take(count + 1))
                > max_width
            &&& max_width == 0 ==> count == 0
        }),
{
    let clusters = crate::canvas::graphemes(text);
    lemma_fitting(clusters, max_width);
    if max_width == 0 {
        assert(clusters.take(0) =~= Seq::empty());
        0
    } else {
        fitting(clusters, max_width)
    }
}

/// A text at the start of a border has as many cells of it before it as the offset asks for
/// behind the corner, one at the end as many behind it before the corner, and one in the center
/// as many on both sides, or one more behind it; as long as a cell of border stays on either
/// side. These cells are the character of the edge, up to the corners.
pub proof fn lemma_embedded_text_is_aligned(
    line: Seq<char>,
    text: Seq<char>,
    offset: int,
    border_char: char,
)
    requires
        line.len() > 0,
        leaves_border(line, text),
        0 <= offset,
    ensures
        ({
            let start = embedded(line, text, BorderTextAlign::Start, offset, border_char);
            let center = embedded(line, text, BorderTextAlign::Center, offset, border_char);
            let end = embedded(line, text, BorderTextAlign::End, offset, border_char);
            let room: int = crate::canvas::display_width(line) - summed_runs(border_runs(text));
            &&& start.before.len() + start.after.len() == room
            &&& center.before.len() + center.after.len() == room
            &&& end.before.len() + end.after.len() == room
            &&& offset + 2 <= room ==> start.before.len() == offset + 1
            &&& offset + 2 <= room ==> end.after.len() == offset + 1
            &&& 0 <= center.after.len() - center.before.len() <= 1
            &&& forall|k: int|
                1 <= k < start.before.len() ==> #[trigger] start.before[k] == border_char
            &&& forall|k: int|
                0 <= k < start.after.len() - 1 ==> #[trigger] start.after[k] == border_char
            &&& forall|k: int|
                1 <= k < center.before.len() ==> #[trigger] center.before[k] == border_char
            &&& forall|k: int|
                0 <= k < center.after.len() - 1 ==> #[trigger] center.after[k] == border_char
            &&& forall|k: int|
                1 <= k < end.before.len() ==> #[trigger] end.before[k] == border_char
            &&& forall|k: int|
                0 <= k < end.after.len() - 1 ==> #[trigger] end.after[k] == border_char
            &&& center.before[0] == line[0] && center.after[center.after.len() - 1]
                == line[line.len() - 1]
            &&& end.before[0] == line[0] && end.after[end.after.len() - 1] == line[line.len() - 1]
            &&& start.before[0] == line[0] && start.after[start.after.len() - 1]
                == line[line.len() - 1]
            &&& start.content == text && center.content == text && end.content == text
        }),
{
    lemma_runs_are_positive(border_runs(text));
}

/// A border line without a text is written as it is, from the first column on; one with a text
/// is written with its first part there, in the style of the border, the text behind it and its
/// other part behind the text.
pub proof fn lemma_border_line_is_written(
    line: Seq<char>,
    border_char: char,
    text: BorderTextModel,
    style: CanvasTextStyle,
    y: int,
)
    requires
        line.len() > 0,
        leaves_border(line, text.content),
        text.content.len() > 0,
    ensures
        line_drawing(line, border_char, None, style, y) == seq![
            DrawModel::SetText { x: 0, y, text: line, style, link: None },
        ],
        ({
            let parts = embedded(line, text.content, text.align, text.offset, border_char);
            let drawn = line_drawing(line, border_char, Some(text), style, y);
            let column = crate::canvas::display_width(parts.before);
            &&& drawn.len() >= 2
            &&& drawn[0] == (DrawModel::SetText { x: 0, y, text: parts.before, style, link: None })
            &&& drawn.last() == (DrawModel::SetText {
                x: column + summed_runs(border_runs(text.content)),
                y,
                text: parts.after,
                style,
                link: None,
            })
            &&& drawn.subrange(1, drawn.len() - 1) == content_drawing(
                border_runs(text.content),
                column,
                y,
            )
        }),
        text_at(Some(text), text.position) == Some(text),
        text.position == BorderTextPosition::Top ==> text_at(
            Some(text),
            BorderTextPosition::Bottom,
        ) is None,
        text.position == BorderTextPosition::Bottom ==> text_at(
            Some(text),
            BorderTextPosition::Top,
        ) is None,
{
    lemma_runs_are_positive(border_runs(text.content));
    let parts = embedded(line, text.content, text.align, text.offset, border_char);
    let drawn = line_drawing(line, border_char, Some(text), style, y);
    let column = crate::canvas::display_width(parts.before);
    assert(drawn.subrange(1, drawn.len() - 1) =~= content_drawing(
        border_runs(text.content),
        column,
        y,
    ));
}

/// Each run of an embedded text that takes up columns is written behind those before it, in its
/// own look.
pub proof fn lemma_embedded_runs_are_drawn(runs: Seq<RunModel>, x: int, y: int, i: int)
    requires
        0 <= i < runs.len(),
        crate::canvas::display_width(runs[i].text) > 0,
    ensures
        content_drawing(runs, x, y).contains(
            DrawModel::SetText {
                x: x + summed_runs(runs.take(i)),
                y,
                text: runs[i].text,
                style: runs[i].style,
                link: runs[i].hyperlink,
            },
        ),
    decreases runs.len(),
{
    let before = runs.drop_last();
    let last: int = runs.len() - 1;
    let earlier = content_drawing(before, x, y);
    let all = content_drawing(runs, x, y);
    let op = DrawModel::SetText {
        x: x + summed_runs(runs.take(i)),
        y,
        text: runs[i].text,
        style: runs[i].style,
        link: runs[i].hyperlink,
    };
    if i < last {
        lemma_embedded_runs_are_drawn(before, x, y, i);
        assert(before.take(i) =~= runs.take(i));
        let k = choose|k: int| 0 <= k < earlier.len() && earlier[k] == op;
        assert(all[k] == op);
    } else {
        assert(runs.take(last) =~= before);
        assert(all[all.len() - 1] == op);
    }
}

/// A text that leaves no room for the border stands alone, without its escape sequences, and cut
/// off where the line ends.
pub proof fn lemma_long_text_stands_alone(
    line: Seq<char>,
    text: Seq<char>,
    align: BorderTextAlign,
    offset: int,
    border_char: char,
)
    requires
        crate::canvas::display_width(line) > 0,
        summed_runs(border_runs(text)) + 2 >= crate::canvas::display_width(line),
    ensures
        ({
            let parts = embedded(line, text, align, offset, border_char);
            &&& parts.before.len() == 0 && parts.after.len() == 0
            &&& parts.content == cut(
                crate::raw_ansi::visible_text(border_runs(text)),
                crate::canvas::display_width(line),
            )
        }),
{
    lemma_runs_are_positive(border_runs(text));
}

} // verus!
