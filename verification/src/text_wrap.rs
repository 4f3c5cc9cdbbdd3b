//! Wrapping and truncation of text.

use crate::canvas::{
    cluster_display_width, grapheme_clusters, measure_text, string_display_width,
};
use crate::raw_ansi::parse_ansi;
use crate::segmented_string::{wrap_segments, SegmentedStringLine};
use crate::strings::{chars_of, join_with, split_on};
use crate::whitespace::{trim, trim_end};
use vstd::prelude::*;

verus! {

use crate::segmented_string::LineModel;

/// How text behaves that is wider than its component.
#[derive(Copy, Clone, Debug, Eq, PartialEq, Structural)]
pub enum TextWrap {
    /// Text is wrapped to minimize overflow.
    Wrap,
    /// Text is wrapped, and each line is trimmed.
    WrapTrim,
    /// Text is not wrapped, and may overflow the component.
    NoWrap,
    /// Behaves like [`TextWrap::NoWrap`].
    End,
    /// Behaves like [`TextWrap::NoWrap`].
    Middle,
    /// Text is truncated at the end with an ellipsis.
    Truncate,
    /// Text is truncated at the end with an ellipsis.
    TruncateEnd,
    /// Text is truncated in the middle with an ellipsis.
    TruncateMiddle,
    /// Text is truncated at the start with an ellipsis.
    TruncateStart,
}

impl Default for TextWrap {
    fn default() -> (r: Self)
        ensures
            r == TextWrap::Wrap,
    {
        TextWrap::Wrap
    }
}

/// Where a truncated text loses its characters.
#[derive(Clone, Copy, Debug, Eq, PartialEq, Structural)]
pub enum TruncatePosition {
    Start,
    Middle,
    End,
}

/// The character that stands for what was cut off.
pub const ELLIPSIS: char = '\u{2026}';

/// Whether a mode leaves lines as they are.
pub open spec fn keeps_lines(wrap: TextWrap) -> bool {
    wrap == TextWrap::NoWrap || wrap == TextWrap::End || wrap == TextWrap::Middle
}

/// Where a mode truncates, if it does.
pub open spec fn truncation(wrap: TextWrap) -> Option<TruncatePosition> {
    match wrap {
        TextWrap::Truncate => Some(TruncatePosition::End),
        TextWrap::TruncateEnd => Some(TruncatePosition::End),
        TextWrap::TruncateMiddle => Some(TruncatePosition::Middle),
        TextWrap::TruncateStart => Some(TruncatePosition::Start),
        _ => None,
    }
}

/// Whether a cluster between two columns belongs to a range of columns: it lies
/// in it entirely, and is not just at one of its ends.
pub open spec fn in_columns(column: int, next: int, start: int, end: int) -> bool {
    start <= column && next <= end && start < next && column < end
}

/// The clusters that lie between two columns; one that straddles an end is left
/// out.
pub open spec fn sliced(clusters: Seq<Seq<char>>, start: int, end: int) -> Seq<char>
    decreases clusters.len(),
{
    if clusters.len() == 0 {
        Seq::empty()
    } else {
        let column: int = crate::canvas::column_after(clusters.drop_last(), 0);
        let next: int = crate::canvas::column_after(clusters, 0);
        let before: Seq<char> = sliced(clusters.drop_last(), start, end);
        if in_columns(column, next, start, end) {
            before + clusters.last()
        } else {
            before
        }
    }
}

/// A line truncated to a number of columns, of which the ellipsis takes one.
pub open spec fn truncated(text: Seq<char>, columns: int, position: TruncatePosition) -> Seq<char> {
    let clusters: Seq<Seq<char>> = crate::canvas::graphemes(text);
    let width: int = crate::canvas::display_width(text);
    let ellipsis: Seq<char> = seq![ELLIPSIS];
    if columns < 1 {
        Seq::empty()
    } else if columns == 1 {
        ellipsis
    } else if width <= columns {
        text
    } else {
        match position {
            TruncatePosition::Start => ellipsis + sliced(clusters, width - columns + 1, width),
            TruncatePosition::Middle => sliced(clusters, 0, columns / 2) + ellipsis + sliced(
                clusters,
                width - (columns - columns / 2 - 1),
                width,
            ),
            TruncatePosition::End => sliced(clusters, 0, columns - 1) + ellipsis,
        }
    }
}

/// The columns of the clusters that lie between two columns.
pub open spec fn sliced_columns(clusters: Seq<Seq<char>>, start: int, end: int) -> int
    decreases clusters.len(),
{
    if clusters.len() == 0 {
        0
    } else {
        let column: int = crate::canvas::column_after(clusters.drop_last(), 0);
        let next: int = crate::canvas::column_after(clusters, 0);
        let before: int = sliced_columns(clusters.drop_last(), start, end);
        if in_columns(column, next, start, end) {
            before + (next - column)
        } else {
            before
        }
    }
}

/// The columns that a truncated line takes, each cluster counted where it stands in the line,
/// and the ellipsis as one column.
pub open spec fn truncated_columns(text: Seq<char>, columns: int, position: TruncatePosition) -> int {
    let clusters: Seq<Seq<char>> = crate::canvas::graphemes(text);
    let width: int = crate::canvas::display_width(text);
    if columns < 1 {
        0
    } else if columns == 1 {
        1
    } else if width <= columns {
        width
    } else {
        match position {
            TruncatePosition::Start => 1 + sliced_columns(clusters, width - columns + 1, width),
            TruncatePosition::Middle => sliced_columns(clusters, 0, columns / 2) + 1
                + sliced_columns(clusters, width - (columns - columns / 2 - 1), width),
            TruncatePosition::End => sliced_columns(clusters, 0, columns - 1) + 1,
        }
    }
}

/// The clusters between two columns take no more columns than there are between them.
proof fn lemma_slice_fits(clusters: Seq<Seq<char>>, start: int, end: int)
    requires
        0 <= start <= end,
    ensures
        0 <= sliced_columns(clusters, start, end) <= crate::math::clamp_int(
            crate::canvas::column_after(clusters, 0),
            start,
            end,
        ) - start,
    decreases clusters.len(),
{
    if clusters.len() > 0 {
        lemma_slice_fits(clusters.drop_last(), start, end);
    }
}

/// A truncated line fits the columns that it is truncated to, wide clusters at the cut
/// included. A line that fits as it is stays as it is; one that does not shows an ellipsis.
pub proof fn lemma_truncated_line_fits(text: Seq<char>, columns: int, position: TruncatePosition)
    requires
        columns >= 0,
    ensures
        truncated_columns(text, columns, position) <= columns,
        columns > 1 && crate::canvas::display_width(text) <= columns ==> truncated(
            text,
            columns,
            position,
        ) == text,
        columns > 0 && crate::canvas::display_width(text) > columns ==> truncated(
            text,
            columns,
            position,
        ).contains(ELLIPSIS),
{
    let clusters: Seq<Seq<char>> = crate::canvas::graphemes(text);
    let width: int = crate::canvas::display_width(text);
    let shown = truncated(text, columns, position);
    if columns > 1 && width > columns {
        match position {
            TruncatePosition::Start => {
                lemma_slice_fits(clusters, width - columns + 1, width);
                assert(shown[0] == ELLIPSIS);
            },
            TruncatePosition::Middle => {
                lemma_slice_fits(clusters, 0, columns / 2);
                lemma_slice_fits(clusters, width - (columns - columns / 2 - 1), width);
                assert(shown[sliced(clusters, 0, columns / 2).len() as int] == ELLIPSIS);
            },
            TruncatePosition::End => {
                lemma_slice_fits(clusters, 0, columns - 1);
                assert(shown[shown.len() - 1] == ELLIPSIS);
            },
        }
    } else if columns == 1 {
        assert(shown[0] == ELLIPSIS);
    }
}

/// Truncation shows one line for each line of the text, and no line continues another.
pub proof fn lemma_truncation_keeps_line_count(content: Seq<char>, wrap: TextWrap, width: int)
    requires
        truncation(wrap) is Some,
    ensures
        shown_lines(content, wrap, width).len() == crate::strings::split(content, '\n').len(),
        forall|i: int|
            0 <= i < shown_lines(content, wrap, width).len() ==> !(#[trigger] shown_lines(
                content,
                wrap,
                width,
            )[i]).soft_continuation,
{
}

/// A line of narrow characters cut to a number of columns, of which the ellipsis takes one.
pub open spec fn cut_line(line: Seq<char>, columns: int, position: TruncatePosition) -> Seq<char> {
    let ellipsis: Seq<char> = seq![ELLIPSIS];
    if line.len() <= columns {
        line
    } else {
        match position {
            TruncatePosition::Start => ellipsis + line.skip(line.len() - (columns - 1)),
            TruncatePosition::Middle => line.take(columns / 2) + ellipsis + line.skip(
                line.len() - (columns - columns / 2 - 1),
            ),
            TruncatePosition::End => line.take(columns - 1) + ellipsis,
        }
    }
}

/// Whether a text is made of lines of narrow characters.
pub open spec fn has_narrow_lines(text: Seq<char>) -> bool {
    forall|i: int|
        0 <= i < text.len() ==> crate::canvas::is_narrow(#[trigger] text[i]) || text[i] == '\n'
}

/// The lines of a text of narrow characters, each cut to a number of columns.
pub open spec fn cut_lines(text: Seq<char>, columns: int, position: TruncatePosition) -> Seq<
    Seq<char>,
> {
    crate::strings::split(text, '\n').map_values(
        |line: Seq<char>| cut_line(line, columns, position),
    )
}

/// A text of narrow characters of which each line is cut to a number of columns.
pub open spec fn cut_text(text: Seq<char>, columns: int, position: TruncatePosition) -> Seq<char> {
    crate::strings::join(cut_lines(text, columns, position), '\n')
}

/// The lines of a text of narrow characters are narrow.
proof fn lemma_lines_are_narrow(text: Seq<char>)
    requires
        has_narrow_lines(text),
    ensures
        forall|i: int|
            0 <= i < crate::strings::split(text, '\n').len() ==> crate::canvas::is_narrow_text(
                #[trigger] crate::strings::split(text, '\n')[i],
            ),
{
    let lines = crate::strings::split(text, '\n');
    crate::strings::lemma_split_pieces(text, '\n');
    assert forall|i: int| 0 <= i < lines.len() implies crate::canvas::is_narrow_text(
        #[trigger] lines[i],
    ) by {
        assert forall|k: int| 0 <= k < lines[i].len() implies crate::canvas::is_narrow(
            #[trigger] lines[i][k],
        ) by {
            let place = choose|place: int| 0 <= place < text.len() && text[place] == lines[i][k];
            assert(text.contains(lines[i][k]));
            assert(crate::canvas::is_narrow(text[place]) || text[place] == '\n');
        }
    }
}

/// How often the ellipsis occurs in a line.
pub open spec fn ellipses(line: Seq<char>) -> nat {
    line.to_multiset().count(ELLIPSIS)
}

/// A cut line is as it was where it fits. Where it does not, it is exactly as wide as it may
/// be: one ellipsis, with a prefix of the line before it and a suffix behind it. Cutting it
/// again changes nothing.
pub proof fn lemma_cut_line(line: Seq<char>, columns: int, position: TruncatePosition)
    requires
        columns >= 2,
    ensures
        line.len() <= columns ==> cut_line(line, columns, position) == line,
        line.len() > columns ==> {
            let shown = cut_line(line, columns, position);
            &&& shown.len() == columns
            &&& exists|kept: int|
                0 <= kept < columns && shown == #[trigger] line.take(kept).push(ELLIPSIS)
                    + line.skip(line.len() - (columns - 1 - kept))
            &&& !line.contains(ELLIPSIS) ==> ellipses(shown) == 1
        },
        cut_line(cut_line(line, columns, position), columns, position) == cut_line(
            line,
            columns,
            position,
        ),
{
    if line.len() > columns {
        let shown = cut_line(line, columns, position);
        let kept: int = match position {
            TruncatePosition::Start => 0,
            TruncatePosition::Middle => columns / 2,
            TruncatePosition::End => columns - 1,
        };
        let before = line.take(kept);
        let after = line.skip(line.len() - (columns - 1 - kept));
        assert(shown =~= before.push(ELLIPSIS) + after);
        if !line.contains(ELLIPSIS) {
            broadcast use vstd::seq_lib::group_to_multiset_ensures;

            assert(!before.contains(ELLIPSIS)) by {
                if before.contains(ELLIPSIS) {
                    let k = choose|k: int| 0 <= k < before.len() && before[k] == ELLIPSIS;
                    assert(line[k] == ELLIPSIS);
                }
            }
            assert(!after.contains(ELLIPSIS)) by {
                if after.contains(ELLIPSIS) {
                    let k = choose|k: int| 0 <= k < after.len() && after[k] == ELLIPSIS;
                    assert(line[line.len() - (columns - 1 - kept) + k] == ELLIPSIS);
                }
            }
            vstd::seq_lib::lemma_multiset_commutative(before.push(ELLIPSIS), after);
            assert(before.push(ELLIPSIS).to_multiset() =~= before.to_multiset().insert(ELLIPSIS));
        }
    }
}

/// A text of narrow characters that is truncated keeps the number of its lines, each of them
/// cut on its own, and truncating it again changes nothing.
pub proof fn lemma_cut_text(text: Seq<char>, columns: int, position: TruncatePosition)
    requires
        columns >= 2,
        has_narrow_lines(text),
    ensures
        ({
            let shown = cut_text(text, columns, position);
            &&& crate::strings::split(shown, '\n') == cut_lines(text, columns, position)
            &&& crate::strings::split(shown, '\n').len() == crate::strings::split(
                text,
                '\n',
            ).len()
            &&& has_narrow_lines(shown)
            &&& cut_text(shown, columns, position) == shown
        }),
{
    let lines = crate::strings::split(text, '\n');
    let cut = cut_lines(text, columns, position);
    let shown = cut_text(text, columns, position);
    crate::strings::lemma_split_nonempty(text, '\n');
    lemma_lines_are_narrow(text);
    crate::strings::lemma_split_pieces(text, '\n');
    assert forall|i: int, k: int| 0 <= i < cut.len() && 0 <= k < cut[i].len() implies #[trigger]
        cut[i][k] != '\n' && crate::canvas::is_narrow(cut[i][k]) by {
        assert(cut[i] == cut_line(lines[i], columns, position));
        assert(crate::canvas::is_narrow_text(lines[i]));
        lemma_cut_line_is_narrow(lines[i], columns, position);
        assert(crate::canvas::is_narrow(cut[i][k]));
    }
    crate::strings::lemma_split_undoes_join(cut, '\n');
    assert forall|i: int| 0 <= i < cut.len() implies cut_line(#[trigger] cut[i], columns, position)
        == cut[i] by {
        lemma_cut_line(lines[i], columns, position);
    }
    assert(cut_lines(shown, columns, position) =~= cut);
    lemma_joined_is_narrow(cut);
}

/// A cut line of narrow characters is narrow.
proof fn lemma_cut_line_is_narrow(line: Seq<char>, columns: int, position: TruncatePosition)
    requires
        columns >= 2,
        crate::canvas::is_narrow_text(line),
    ensures
        crate::canvas::is_narrow_text(cut_line(line, columns, position)),
{
}

/// Joined lines of narrow characters are lines of narrow characters.
proof fn lemma_joined_is_narrow(lines: Seq<Seq<char>>)
    requires
        forall|i: int, k: int|
            0 <= i < lines.len() && 0 <= k < lines[i].len() ==> #[trigger] lines[i][k] != '\n'
                && crate::canvas::is_narrow(lines[i][k]),
    ensures
        has_narrow_lines(crate::strings::join(lines, '\n')),
    decreases lines.len(),
{
    if lines.len() == 1 {
        let whole = crate::strings::join(lines, '\n');
        assert forall|k: int| 0 <= k < whole.len() implies crate::canvas::is_narrow(
            #[trigger] whole[k],
        ) by {
            assert(whole[k] == lines[0][k]);
        }
    } else if lines.len() > 1 {
        let before = lines.drop_last();
        assert forall|i: int, k: int|
            0 <= i < before.len() && 0 <= k < before[i].len() implies #[trigger] before[i][k]
            != '\n' && crate::canvas::is_narrow(before[i][k]) by {
            assert(before[i][k] == lines[i][k]);
        }
        lemma_joined_is_narrow(before);
        let last: int = lines.len() - 1;
        let start = crate::strings::join(before, '\n').push('\n');
        let whole = crate::strings::join(lines, '\n');
        assert forall|k: int| 0 <= k < whole.len() implies crate::canvas::is_narrow(
            #[trigger] whole[k],
        ) || whole[k] == '\n' by {
            if k >= start.len() {
                assert(whole[k] == lines[last][k - start.len()]);
            } else if k < start.len() - 1 {
                assert(whole[k] == crate::strings::join(before, '\n')[k]);
            }
        }
    }
}

/// One line of wrapped text.
#[derive(Debug, PartialEq, Eq)]
pub struct WrappedTextLine {
    /// The text of the line.
    pub text: String,
    /// Whether the line continues the one before it.
    pub soft_continuation: bool,
    /// The column at which the content of the line ends.
    pub content_end: usize,
}

/// What a [`WrappedTextLine`] holds.
pub struct WrappedModel {
    pub text: Seq<char>,
    pub soft_continuation: bool,
    pub content_end: int,
}

impl View for WrappedTextLine {
    type V = WrappedModel;

    open spec fn view(&self) -> WrappedModel {
        WrappedModel {
            text: self.text@,
            soft_continuation: self.soft_continuation,
            content_end: self.content_end as int,
        }
    }
}

/// What a list of lines holds.
pub open spec fn wrapped_models(lines: Seq<WrappedTextLine>) -> Seq<WrappedModel> {
    lines.map_values(|line: WrappedTextLine| line@)
}

/// A line that stands for itself.
pub open spec fn whole_line(text: Seq<char>) -> WrappedModel {
    WrappedModel {
        text,
        soft_continuation: false,
        content_end: crate::canvas::display_width(text),
    }
}

/// A text of which every line is trimmed.
pub open spec fn trimmed_lines(content: Seq<char>) -> Seq<char> {
    crate::strings::join(
        crate::strings::split(content, '\n').map_values(
            |line: Seq<char>| crate::whitespace::trimmed(line),
        ),
        '\n',
    )
}

/// The text of a line.
pub open spec fn line_text(line: LineModel) -> Seq<char> {
    crate::strings::concat(crate::segmented_string::piece_texts(line.segments))
}

/// Whether a line continues the one before it: it does not start at the start of
/// the text, nor after a line end.
pub open spec fn continues(source: Seq<char>, line: LineModel) -> bool {
    &&& line.segments.len() > 0
    &&& line.segments[0].index == 0
    &&& 0 < line.segments[0].offset <= source.len()
    &&& source[line.segments[0].offset - 1] != '\n'
}

/// A line that wrapping made, without the white space at its end (and at its
/// start, where `trims`). The content of a line that the next one continues
/// reaches to its full width.
pub open spec fn soft_line(
    source: Seq<char>,
    lines: Seq<LineModel>,
    i: int,
    trims: bool,
) -> WrappedModel {
    let text: Seq<char> = if trims {
        crate::whitespace::trimmed(line_text(lines[i]))
    } else {
        crate::whitespace::trimmed_end(line_text(lines[i]))
    };
    WrappedModel {
        text,
        soft_continuation: continues(source, lines[i]),
        content_end: if i + 1 < lines.len() && continues(source, lines[i + 1]) {
            lines[i].width
        } else {
            crate::canvas::display_width(text)
        },
    }
}

/// The lines that a text is shown in.
pub open spec fn shown_lines(content: Seq<char>, wrap: TextWrap, width: int) -> Seq<WrappedModel> {
    if truncation(wrap) is Some {
        crate::strings::split(content, '\n').map_values(
            |line: Seq<char>| whole_line(truncated(line, width, truncation(wrap)->0)),
        )
    } else if keeps_lines(wrap) {
        crate::strings::split(content, '\n').map_values(|line: Seq<char>| whole_line(line))
    } else {
        let source: Seq<char> = if wrap == TextWrap::WrapTrim {
            trimmed_lines(content)
        } else {
            content
        };
        let lines: Seq<LineModel> = crate::segmented_string::wrapped(seq![source], width);
        Seq::new(lines.len(), |i: int| soft_line(source, lines, i, wrap == TextWrap::WrapTrim))
    }
}

/// The texts of the lines.
pub open spec fn wrapped_texts(lines: Seq<WrappedModel>) -> Seq<Seq<char>> {
    lines.map_values(|line: WrappedModel| line.text)
}

/// A text of this length can be wrapped: its columns can be counted.
pub open spec fn wrappable(length: int) -> bool {
    crate::canvas::countable(8 * length + 8, 0)
}

/// Where a mode truncates, if it does.
pub fn truncate_position(text_wrap: TextWrap) -> (position: Option<TruncatePosition>)
    ensures
        position == truncation(text_wrap),
{
    match text_wrap {
        TextWrap::Truncate | TextWrap::TruncateEnd => Some(TruncatePosition::End),
        TextWrap::TruncateMiddle => Some(TruncatePosition::Middle),
        TextWrap::TruncateStart => Some(TruncatePosition::Start),
        _ => None,
    }
}

/// The part of a text that lies between two columns. A wide cluster that straddles
/// an end is left out.
pub fn slice_display_columns(text: &str, start: usize, end: usize) -> (slice: String)
    requires
        crate::canvas::countable(text@.len() as int, 0),
    ensures
        slice@ == sliced(crate::canvas::graphemes(text@), start as int, end as int),
        slice@.len() <= text@.len(),
        crate::canvas::is_narrow_text(text@) && start <= end <= text@.len() ==> slice@
            == text@.subrange(start as int, end as int),
{
    let clusters = grapheme_clusters(text);
    let ghost all = crate::strings::texts(clusters@);
    proof {
        crate::canvas::lemma_total_len(all);
    }
    let mut slice = String::new();
    let mut column: usize = 0;
    let mut i: usize = 0;
    assert(slice@ =~= sliced(all.take(0), start as int, end as int));
    while i < clusters.len()
        invariant
            i <= clusters@.len(),
            all == crate::strings::texts(clusters@),
            crate::canvas::total_len(all) == text@.len(),
            crate::canvas::countable(text@.len() as int, 0),
            column == crate::canvas::column_after(all.take(i as int), 0),
            column <= 8 * crate::canvas::total_len(all.take(i as int)),
            slice@ == sliced(all.take(i as int), start as int, end as int),
            slice@.len() <= crate::canvas::total_len(all.take(i as int)),
            crate::canvas::is_narrow_text(text@) ==> {
                &&& all == crate::canvas::single_characters(text@)
                &&& column == i
            },
            crate::canvas::is_narrow_text(text@) && start <= end <= text@.len() ==> slice@
                == text@.subrange(
                start as int,
                crate::math::clamp_int(i as int, start as int, end as int),
            ),
        decreases clusters@.len() - i,
    {
        proof {
            assert(all.take(i + 1).drop_last() =~= all.take(i as int));
            assert(all.take(i + 1).last() == clusters@[i as int]@);
            crate::canvas::lemma_total_len_prefix(all, i + 1);
        }
        let next: usize = column + cluster_display_width(clusters[i].as_str(), column);
        if start <= column && next <= end && start < next && column < end {
            slice.append(clusters[i].as_str());
        }
        column = next;
        i = i + 1;
    }
    assert(all.take(i as int) =~= all);
    slice
}

/// Truncates a line to a number of columns.
pub fn truncate_line(text: &str, columns: usize, position: TruncatePosition) -> (line: String)
    requires
        crate::canvas::countable(text@.len() as int, 0),
    ensures
        line@ == truncated(text@, columns as int, position),
        line@.len() <= 2 * text@.len() + 1,
        crate::canvas::is_narrow_text(text@) && columns >= 2 ==> line@ == cut_line(
            text@,
            columns as int,
            position,
        ),
{
    let mut line = String::new();
    if columns < 1 {
        assert(line@ =~= Seq::empty());
        return line;
    }
    if columns == 1 {
        line.push(ELLIPSIS);
        assert(line@ =~= seq![ELLIPSIS]);
        return line;
    }
    let width: usize = string_display_width(text);
    if width <= columns {
        return text.to_owned();
    }
    match position {
        TruncatePosition::Start => {
            line.push(ELLIPSIS);
            line.append(slice_display_columns(text, width - columns + 1, width).as_str());
        },
        TruncatePosition::Middle => {
            let prefix_columns: usize = columns / 2;
            let suffix_columns: usize = columns - prefix_columns - 1;
            line.append(slice_display_columns(text, 0, prefix_columns).as_str());
            line.push(ELLIPSIS);
            line.append(slice_display_columns(text, width - suffix_columns, width).as_str());
        },
        TruncatePosition::End => {
            line.append(slice_display_columns(text, 0, columns - 1).as_str());
            line.push(ELLIPSIS);
        },
    }
    assert(line@ =~= truncated(text@, columns as int, position));
    assert(crate::canvas::is_narrow_text(text@) ==> line@ =~= cut_line(
        text@,
        columns as int,
        position,
    ));
    line
}

/// Trims every line of a text.
fn trim_lines(content: &str) -> (r: String)
    ensures
        r@ == trimmed_lines(content@),
        r@.len() <= content@.len(),
{
    let lines = split_on(content, '\n');
    let ghost all = crate::strings::texts(lines@);
    let ghost goal = all.map_values(|line: Seq<char>| crate::whitespace::trimmed(line));
    let mut trimmed: Vec<String> = Vec::new();
    let mut i: usize = 0;
    while i < lines.len()
        invariant
            i <= lines@.len(),
            all == crate::strings::texts(lines@),
            goal == all.map_values(|line: Seq<char>| crate::whitespace::trimmed(line)),
            crate::strings::texts(trimmed@) == goal.take(i as int),
        decreases lines@.len() - i,
    {
        let line = trim(lines[i].as_str());
        let ghost before = crate::strings::texts(trimmed@);
        trimmed.push(line);
        i = i + 1;
        proof {
            assert(crate::strings::texts(trimmed@) =~= before.push(line@));
            assert(goal[i - 1] == line@);
            assert(goal.take(i as int) =~= goal.take(i - 1).push(line@));
        }
    }
    proof {
        assert(goal.take(i as int) =~= goal);
        lemma_trimmed_join_len(all);
        crate::strings::lemma_split_len(content@, '\n');
    }
    join_with(&trimmed, '\n')
}

proof fn lemma_trimmed_join_len(lines: Seq<Seq<char>>)
    ensures
        crate::strings::join(
            lines.map_values(|line: Seq<char>| crate::whitespace::trimmed(line)),
            '\n',
        ).len() <= crate::strings::join(lines, '\n').len(),
    decreases lines.len(),
{
    let trimmed = lines.map_values(|line: Seq<char>| crate::whitespace::trimmed(line));
    if lines.len() == 1 {
        crate::whitespace::lemma_trimmed_len(lines[0]);
    } else if lines.len() > 1 {
        lemma_trimmed_join_len(lines.drop_last());
        crate::whitespace::lemma_trimmed_len(lines.last());
        assert(trimmed.drop_last() =~= lines.drop_last().map_values(
            |line: Seq<char>| crate::whitespace::trimmed(line),
        ));
    }
}

/// The text of a line.
fn text_of_line(line: &SegmentedStringLine) -> (text: String)
    ensures
        text@ == line_text(line@),
        text@.len() == crate::canvas::total_len(
            crate::segmented_string::piece_texts(line@.segments),
        ),
{
    let ghost all = crate::segmented_string::piece_texts(line@.segments);
    let mut text = String::new();
    let mut i: usize = 0;
    assert(text@ =~= crate::strings::concat(all.take(0)));
    while i < line.segments.len()
        invariant
            i <= line.segments@.len(),
            all == crate::segmented_string::piece_texts(line@.segments),
            text@ == crate::strings::concat(all.take(i as int)),
        decreases line.segments@.len() - i,
    {
        proof {
            assert(all.take(i + 1).drop_last() =~= all.take(i as int));
            assert(all[i as int] == line.segments@[i as int].text@);
        }
        text.append(line.segments[i].text.as_str());
        i = i + 1;
    }
    proof {
        assert(all.take(i as int) =~= all);
        crate::canvas::lemma_total_len(all);
    }
    text
}

/// Whether a line continues the one before it.
fn line_is_soft_continuation(source: &Vec<char>, line: &SegmentedStringLine) -> (r: bool)
    ensures
        r == continues(source@, line@),
{
    if line.segments.len() == 0 {
        return false;
    }
    let first = &line.segments[0];
    assert(line@.segments[0] == first@);
    first.index == 0 && first.offset > 0 && first.offset <= source.len() && source[first.offset - 1]
        != '\n'
}

/// The lines that wrapping makes of a text.
fn soft_lines(source: &str, width: usize, trims: bool) -> (result: Vec<WrappedTextLine>)
    requires
        wrappable(source@.len() as int),
    ensures
        ({
            let lines = crate::segmented_string::wrapped(seq![source@], width as int);
            wrapped_models(result@) == Seq::new(
                lines.len(),
                |i: int| soft_line(source@, lines, i, trims),
            )
        }),
        result@.len() <= source@.len() + 1,
        crate::canvas::total_len(wrapped_texts(wrapped_models(result@))) <= source@.len(),
        forall|i: int| 0 <= i < result@.len() ==> line_is_short(#[trigger] result@[i], source@.len() as int),
{
    let mut segments: Vec<String> = Vec::new();
    segments.push(source.to_owned());
    proof {
        let texts = crate::strings::texts(segments@);
        assert(texts =~= seq![source@]);
        assert(texts.drop_last() =~= Seq::empty());
        assert(crate::canvas::total_len(texts.drop_last()) == 0);
    }
    let lines = wrap_segments(&segments, width);
    let chars = chars_of(source);
    let ghost models = crate::segmented_string::line_models(lines@);
    let ghost goal = Seq::new(models.len(), |i: int| soft_line(source@, models, i, trims));
    let mut result: Vec<WrappedTextLine> = Vec::new();
    let mut i: usize = 0;
    assert(wrapped_texts(wrapped_models(result@)) =~= Seq::empty());
    while i < lines.len()
        invariant
            i <= lines@.len(),
            chars@ == source@,
            wrappable(source@.len() as int),
            crate::canvas::total_len(crate::strings::texts(segments@)) == source@.len(),
            models == crate::segmented_string::line_models(lines@),
            models.len() == lines@.len(),
            goal == Seq::new(models.len(), |i: int| soft_line(source@, models, i, trims)),
            forall|k: int|
                0 <= k < lines@.len() ==> crate::segmented_string::line_in_bounds(
                    #[trigger] lines@[k],
                    segments@,
                ),
            wrapped_models(result@) == goal.take(i as int),
            crate::canvas::total_len(wrapped_texts(wrapped_models(result@)))
                <= crate::segmented_string::lines_len(models.take(i as int)),
            forall|k: int|
                0 <= k < result@.len() ==> line_is_short(
                    #[trigger] result@[k],
                    source@.len() as int,
                ),
        decreases lines@.len() - i,
    {
        let line = &lines[i];
        assert(models[i as int] == line@);
        let whole = text_of_line(line);
        let text = if trims {
            trim(whole.as_str())
        } else {
            trim_end(whole.as_str())
        };
        proof {
            crate::whitespace::lemma_trimmed_len(whole@);
            crate::whitespace::lemma_trimmed_end_len(whole@);
        }
        let rendered_width: usize = string_display_width(text.as_str());
        let mut content_end: usize = rendered_width;
        if i + 1 < lines.len() {
            assert(models[i + 1] == lines@[i + 1]@);
            if line_is_soft_continuation(&chars, &lines[i + 1]) {
                content_end = line.width;
            }
        }
        let soft_continuation = line_is_soft_continuation(&chars, line);
        let shown = WrappedTextLine { text, soft_continuation, content_end };
        let ghost before = wrapped_models(result@);
        result.push(shown);
        i = i + 1;
        proof {
            assert(shown@ == goal[i - 1]);
            assert(wrapped_models(result@) =~= before.push(shown@));
            assert(goal.take(i as int) =~= goal.take(i - 1).push(goal[i - 1]));
            assert(wrapped_texts(wrapped_models(result@)).drop_last() =~= wrapped_texts(before));
            assert(models.take(i as int).drop_last() =~= models.take(i - 1));
        }
    }
    assert(goal.take(i as int) =~= goal);
    assert(models.take(i as int) =~= models);
    result
}

/// A line is not much longer than the text that it comes from.
pub open spec fn line_is_short(line: WrappedTextLine, length: int) -> bool {
    line.text@.len() <= 2 * length + 1 && line.content_end <= 8 * (2 * length + 1)
}

/// Wraps or truncates a text into the lines that it is shown in.
pub fn wrap_lines(content: &str, text_wrap: TextWrap, width: usize) -> (result: Vec<WrappedTextLine>)
    requires
        wrappable(content@.len() as int),
    ensures
        wrapped_models(result@) == shown_lines(content@, text_wrap, width as int),
        result@.len() <= content@.len() + 1,
        crate::canvas::total_len(wrapped_texts(wrapped_models(result@))) <= 3 * content@.len() + 1,
        forall|i: int|
            0 <= i < result@.len() ==> line_is_short(#[trigger] result@[i], content@.len() as int),
        truncation(text_wrap) is Some && width >= 2 && has_narrow_lines(content@)
            ==> wrapped_texts(wrapped_models(result@)) == cut_lines(
            content@,
            width as int,
            truncation(text_wrap)->0,
        ),
{
    let position = truncate_position(text_wrap);
    if position.is_none() && (text_wrap == TextWrap::Wrap || text_wrap == TextWrap::WrapTrim) {
        if text_wrap == TextWrap::WrapTrim {
            let source = trim_lines(content);
            return soft_lines(source.as_str(), width, true);
        }
        return soft_lines(content, width, false);
    }
    let lines = split_on(content, '\n');
    let ghost all = crate::strings::texts(lines@);
    let ghost goal = shown_lines(content@, text_wrap, width as int);
    proof {
        crate::strings::lemma_split_len(content@, '\n');
        assert(all.len() == lines@.len());
        crate::canvas::lemma_total_len_prefix(all, all.len() as int);
        if has_narrow_lines(content@) {
            lemma_lines_are_narrow(content@);
        }
    }
    let ghost narrow = position is Some && width >= 2 && has_narrow_lines(content@);
    let ghost cut = cut_lines(content@, width as int, position->0);
    let mut result: Vec<WrappedTextLine> = Vec::new();
    let mut i: usize = 0;
    assert(wrapped_texts(wrapped_models(result@)) =~= Seq::empty());
    while i < lines.len()
        invariant
            i <= lines@.len(),
            wrappable(content@.len() as int),
            all == crate::strings::texts(lines@),
            all == crate::strings::split(content@, '\n'),
            forall|k: int| 0 <= k < all.len() ==> (#[trigger] all[k]).len() <= content@.len(),
            position == truncation(text_wrap),
            position is Some || keeps_lines(text_wrap),
            goal == shown_lines(content@, text_wrap, width as int),
            goal.len() == all.len(),
            all.len() == lines@.len(),
            wrapped_models(result@) == goal.take(i as int),
            crate::canvas::total_len(wrapped_texts(wrapped_models(result@))) <= 2
                * crate::canvas::total_len(all.take(i as int)) + i,
            narrow == (position is Some && width >= 2 && has_narrow_lines(content@)),
            cut == cut_lines(content@, width as int, position->0),
            narrow ==> forall|k: int|
                0 <= k < all.len() ==> crate::canvas::is_narrow_text(#[trigger] all[k]),
            narrow ==> wrapped_texts(wrapped_models(result@)) == cut.take(i as int),
            forall|k: int|
                0 <= k < result@.len() ==> line_is_short(
                    #[trigger] result@[k],
                    content@.len() as int,
                ),
        decreases lines@.len() - i,
    {
        assert(all[i as int] == lines@[i as int]@);
        let text = match position {
            Some(position) => truncate_line(lines[i].as_str(), width, position),
            None => lines[i].clone(),
        };
        let content_end: usize = string_display_width(text.as_str());
        let line = WrappedTextLine { text, soft_continuation: false, content_end };
        let ghost before = wrapped_models(result@);
        result.push(line);
        i = i + 1;
        proof {
            assert(line@ == goal[i - 1]);
            assert(wrapped_models(result@) =~= before.push(line@));
            assert(goal.take(i as int) =~= goal.take(i - 1).push(goal[i - 1]));
            assert(wrapped_texts(wrapped_models(result@)).drop_last() =~= wrapped_texts(before));
            if narrow {
                assert(crate::canvas::is_narrow_text(all[i - 1]));
                assert(cut[i - 1] == cut_line(all[i - 1], width as int, position->0));
                assert(line@.text == cut[i - 1]);
                assert(wrapped_texts(wrapped_models(result@)) =~= wrapped_texts(before).push(
                    line@.text,
                ));
                assert(cut.take(i as int) =~= cut.take(i - 1).push(cut[i - 1]));
            }
            assert(all.take(i as int).drop_last() =~= all.take(i - 1));
        }
    }
    assert(goal.take(i as int) =~= goal);
    assert(all.take(i as int) =~= all);
    assert(cut.take(i as int) =~= cut);
    result
}

/// Wraps or truncates a text, with line ends between the lines.
pub fn wrap_to_string(text: &str, text_wrap: TextWrap, width: usize) -> (result: String)
    requires
        wrappable(text@.len() as int),
    ensures
        result@ == crate::strings::join(
            wrapped_texts(shown_lines(text@, text_wrap, width as int)),
            '\n',
        ),
        result@.len() <= 4 * text@.len() + 2,
        truncation(text_wrap) is Some && width >= 2 && has_narrow_lines(text@) ==> result@
            == cut_text(text@, width as int, truncation(text_wrap)->0),
{
    let lines = wrap_lines(text, text_wrap, width);
    let ghost goal = wrapped_texts(wrapped_models(lines@));
    let mut texts: Vec<String> = Vec::new();
    let mut i: usize = 0;
    while i < lines.len()
        invariant
            i <= lines@.len(),
            goal == wrapped_texts(wrapped_models(lines@)),
            crate::strings::texts(texts@) == goal.take(i as int),
        decreases lines@.len() - i,
    {
        let line = lines[i].text.clone();
        let ghost before = crate::strings::texts(texts@);
        texts.push(line);
        i = i + 1;
        proof {
            assert(goal[i - 1] == line@);
            assert(crate::strings::texts(texts@) =~= before.push(line@));
            assert(goal.take(i as int) =~= goal.take(i - 1).push(goal[i - 1]));
        }
    }
    proof {
        assert(goal.take(i as int) =~= goal);
        crate::strings::lemma_join_len(goal, '\n');
    }
    join_with(&texts, '\n')
}

/// Wraps or truncates a text, in the same modes as a text component.
///
/// The modes that do not wrap return the text unchanged. Truncation leaves a line of
/// printable ASCII that fits as it is, and cuts a longer one to exactly `max_width` columns.
pub fn wrap_text(text: &str, max_width: usize, wrap: TextWrap) -> (result: String)
    requires
        keeps_lines(wrap) || wrappable(text@.len() as int),
    ensures
        result@ == if keeps_lines(wrap) {
            text@
        } else {
            crate::strings::join(
                wrapped_texts(shown_lines(text@, wrap, max_width as int)),
                '\n',
            )
        },
        truncation(wrap) is Some && max_width >= 2 && has_narrow_lines(text@) ==> result@
            == cut_text(text@, max_width as int, truncation(wrap)->0),
{
    match wrap {
        TextWrap::NoWrap | TextWrap::End | TextWrap::Middle => text.to_owned(),
        _ => wrap_to_string(text, wrap, max_width),
    }
}

/// The width that a layout offers to a text.
#[derive(Clone, Copy, Debug, PartialEq, Eq, Structural)]
pub enum AvailableSpace {
    /// This many columns.
    Definite(usize),
    /// As few columns as the text can do with.
    MinContent,
    /// As many columns as the text asks for.
    MaxContent,
}

/// The width that a text is wrapped to for a layout; none where it is not wrapped.
pub open spec fn wrapping_width(
    wrap: TextWrap,
    known_width: Option<usize>,
    available: AvailableSpace,
) -> Option<int> {
    if keeps_lines(wrap) {
        None
    } else {
        match known_width {
            Some(width) => Some(width as int),
            None => match available {
                AvailableSpace::Definite(width) => Some(width as int),
                AvailableSpace::MinContent => Some(1int),
                AvailableSpace::MaxContent => None,
            },
        }
    }
}

/// A text as a layout of the given width shows it.
pub open spec fn laid_out(
    content: Seq<char>,
    wrap: TextWrap,
    known_width: Option<usize>,
    available: AvailableSpace,
) -> Seq<char> {
    match wrapping_width(wrap, known_width, available) {
        Some(width) => crate::strings::join(
            wrapped_texts(shown_lines(content, wrap, width)),
            '\n',
        ),
        None => content,
    }
}

/// Wraps a text for a layout: to the known width, or to the available one.
pub fn wrap_for_layout(
    content: &str,
    text_wrap: TextWrap,
    known_width: Option<usize>,
    available_width: AvailableSpace,
) -> (result: String)
    requires
        wrappable(content@.len() as int),
    ensures
        result@ == laid_out(content@, text_wrap, known_width, available_width),
        result@.len() <= 4 * content@.len() + 2,
{
    match text_wrap {
        TextWrap::NoWrap | TextWrap::End | TextWrap::Middle => content.to_owned(),
        _ => match known_width {
            Some(width) => wrap_to_string(content, text_wrap, width),
            None => match available_width {
                AvailableSpace::Definite(width) => wrap_to_string(content, text_wrap, width),
                AvailableSpace::MaxContent => content.to_owned(),
                AvailableSpace::MinContent => wrap_to_string(content, text_wrap, 1),
            },
        },
    }
}

/// The size that a text asks of a layout.
pub fn measure_for_layout(
    content: &str,
    text_wrap: TextWrap,
    known_width: Option<usize>,
    available_width: AvailableSpace,
) -> (size: (usize, usize))
    requires
        wrappable(content@.len() as int),
    ensures
        ({
            let shown = laid_out(content@, text_wrap, known_width, available_width);
            &&& size.0 == crate::canvas::widest(crate::strings::split(shown, '\n'))
            &&& size.1 == if shown.len() == 0 {
                0
            } else {
                crate::strings::split(shown, '\n').len() as int
            }
        }),
{
    let shown = wrap_for_layout(content, text_wrap, known_width, available_width);
    measure_text(shown.as_str())
}

/// The visible text of an ANSI text.
pub fn strip_ansi(text: &str) -> (plain: String)
    ensures
        plain@ == crate::raw_ansi::visible_text(crate::raw_ansi::ansi_runs(text@, false)),
        plain@.len() <= text@.len(),
{
    let runs = parse_ansi(text);
    let ghost all = crate::raw_ansi::run_models(runs@).map_values(
        |run: crate::raw_ansi::RunModel| run.text,
    );
    let mut plain = String::new();
    let mut i: usize = 0;
    assert(plain@ =~= crate::strings::concat(all.take(0)));
    while i < runs.len()
        invariant
            i <= runs@.len(),
            all == crate::raw_ansi::run_models(runs@).map_values(
                |run: crate::raw_ansi::RunModel| run.text,
            ),
            plain@ == crate::strings::concat(all.take(i as int)),
        decreases runs@.len() - i,
    {
        proof {
            assert(all.take(i + 1).drop_last() =~= all.take(i as int));
            assert(all[i as int] == runs@[i as int].text@);
        }
        plain.append(runs[i].text.as_str());
        i = i + 1;
    }
    proof {
        assert(all.take(i as int) =~= all);
        crate::raw_ansi::lemma_visible_text_is_shorter(text@, false);
    }
    plain
}

/// Whether a text is another one without the white space at its end.
pub open spec fn is_trimmed_end_of(text: Seq<char>, whole: Seq<char>) -> bool {
    &&& text.len() <= whole.len()
    &&& text == whole.take(text.len() as int)
    &&& text.len() > 0 ==> !crate::whitespace::is_space(text[text.len() - 1])
    &&& forall|i: int|
        text.len() <= i < whole.len() ==> crate::whitespace::is_space(#[trigger] whole[i])
}

proof fn lemma_grouped_start(clusters: Seq<crate::segmented_string::PieceModel>)
    ensures
        clusters.len() > 0 ==> crate::segmented_string::grouped(clusters).len() > 0
            && crate::segmented_string::grouped(clusters)[0].offset == clusters[0].offset
            && crate::segmented_string::grouped(clusters)[0].index == clusters[0].index,
        clusters.len() == 0 ==> crate::segmented_string::grouped(clusters).len() == 0,
    decreases clusters.len(),
{
    if clusters.len() > 0 {
        lemma_grouped_start(clusters.drop_last());
        if clusters.len() > 1 {
            assert(clusters.drop_last()[0] == clusters[0]);
        }
    }
}

/// The lines that a text is wrapped into break well, and each is shown without the white space
/// at its end. A line continues the one before it where no line end stands before its first
/// character; the first line continues none. The content of a line reaches to its full width
/// where the next one continues it, and to the end of what is shown otherwise.
pub proof fn lemma_text_is_wrapped(content: Seq<char>, width: int) -> (cuts: Seq<(int, int)>)
    requires
        0 <= width,
    ensures
        ({
            let clusters = crate::segmented_string::all_clusters(seq![content]);
            let lines = crate::segmented_string::wrapped(seq![content], width);
            let shown = shown_lines(content, TextWrap::Wrap, width);
            &&& crate::segmented_string::is_wrapping(clusters, width, lines, 0, cuts)
            &&& shown.len() == cuts.len() && shown.len() > 0
            &&& forall|i: int|
                0 <= i < shown.len() ==> is_trimmed_end_of(
                    (#[trigger] shown[i]).text,
                    crate::strings::concat(
                        crate::segmented_string::piece_texts(
                            clusters.subrange(cuts[i].0, cuts[i].1),
                        ),
                    ),
                )
            &&& forall|i: int|
                0 <= i < shown.len() ==> {
                    let before = crate::canvas::total_len(
                        crate::canvas::graphemes(content).take(cuts[i].0),
                    );
                    (#[trigger] shown[i]).soft_continuation == (cuts[i].0 < cuts[i].1 && 0
                        < before <= content.len() && content[before - 1] != '\n')
                }
            &&& !shown[0].soft_continuation
            &&& forall|i: int|
                0 <= i < shown.len() ==> (#[trigger] shown[i]).content_end == if i + 1
                    < shown.len() && shown[i + 1].soft_continuation {
                    crate::segmented_string::columns_of(clusters, cuts[i].0, cuts[i].1)
                } else {
                    crate::canvas::display_width(shown[i].text)
                }
        }),
{
    let segments = seq![content];
    let clusters = crate::segmented_string::all_clusters(segments);
    let lines = crate::segmented_string::wrapped(segments, width);
    let shown = shown_lines(content, TextWrap::Wrap, width);
    let texts = crate::canvas::graphemes(content);
    assert(segments.drop_last() =~= Seq::empty());
    assert(crate::segmented_string::all_clusters(segments.drop_last()).len() == 0);
    assert(segments.last() == content);
    assert(clusters =~= crate::segmented_string::segment_clusters(content, 0));
    let cuts = crate::segmented_string::lemma_lines_wrap(clusters, width, 0, true);
    assert forall|i: int| 0 <= i < shown.len() implies ({
        let before = crate::canvas::total_len(texts.take(cuts[i].0));
        &&& is_trimmed_end_of(
            (#[trigger] shown[i]).text,
            crate::strings::concat(
                crate::segmented_string::piece_texts(clusters.subrange(cuts[i].0, cuts[i].1)),
            ),
        )
        &&& shown[i].soft_continuation == (cuts[i].0 < cuts[i].1 && 0 < before <= content.len()
            && content[before - 1] != '\n')
    }) by {
        let whole = clusters.subrange(cuts[i].0, cuts[i].1);
        crate::whitespace::lemma_trimmed_end_is_prefix(line_text(lines[i]));
        assert(lines[i] == crate::segmented_string::line_of(whole));
        lemma_grouped_start(whole);
        if cuts[i].0 < cuts[i].1 {
            assert(whole[0] == clusters[cuts[i].0]);
        }
    }
    assert(texts.take(0) =~= Seq::empty());
    assert(shown[0].soft_continuation == (cuts[0].0 < cuts[0].1 && 0 < crate::canvas::total_len(
        texts.take(cuts[0].0),
    ) <= content.len() && content[crate::canvas::total_len(texts.take(cuts[0].0)) - 1] != '\n'));
    cuts
}

/// A text that keeps its lines is shown line by line, each as it is. A layout leaves it as it
/// is too.
pub proof fn lemma_kept_lines(content: Seq<char>, wrap: TextWrap, width: int, i: int)
    requires
        wrap == TextWrap::NoWrap || wrap == TextWrap::End || wrap == TextWrap::Middle,
        0 <= i < crate::strings::split(content, '\n').len(),
    ensures
        ({
            let shown = shown_lines(content, wrap, width);
            let lines = crate::strings::split(content, '\n');
            &&& shown.len() == lines.len()
            &&& shown[i].text == lines[i]
            &&& !shown[i].soft_continuation
            &&& shown[i].content_end == crate::canvas::display_width(lines[i])
        }),
        forall|known: Option<usize>, available: AvailableSpace|
            laid_out(content, wrap, known, available) == content,
{
}

/// Which end a mode truncates, and that every truncated line is shown as the truncation of the
/// line of the text.
pub proof fn lemma_truncating_modes(content: Seq<char>, wrap: TextWrap, width: int, i: int)
    requires
        0 <= i < crate::strings::split(content, '\n').len(),
    ensures
        ({
            let shown = shown_lines(content, wrap, width);
            let line = crate::strings::split(content, '\n')[i];
            &&& wrap == TextWrap::Truncate || wrap == TextWrap::TruncateEnd ==> shown[i].text
                == truncated(line, width, TruncatePosition::End)
            &&& wrap == TextWrap::TruncateMiddle ==> shown[i].text == truncated(
                line,
                width,
                TruncatePosition::Middle,
            )
            &&& wrap == TextWrap::TruncateStart ==> shown[i].text == truncated(
                line,
                width,
                TruncatePosition::Start,
            )
        }),
{
}

/// A text is wrapped for a layout to the width that is known, or else to the one that is
/// available; to one column where as few as possible are wanted, and not at all where as many
/// as possible are.
pub proof fn lemma_layout_width(
    content: Seq<char>,
    wrap: TextWrap,
    known: Option<usize>,
    available: AvailableSpace,
)
    requires
        wrap != TextWrap::NoWrap && wrap != TextWrap::End && wrap != TextWrap::Middle,
    ensures
        ({
            let shown = laid_out(content, wrap, known, available);
            let at = |width: int|
                crate::strings::join(wrapped_texts(shown_lines(content, wrap, width)), '\n');
            &&& known matches Some(width) ==> shown == at(width as int)
            &&& known is None ==> (available matches AvailableSpace::Definite(width) ==> shown
                == at(width as int))
            &&& known is None && available == AvailableSpace::MinContent ==> shown == at(1)
            &&& known is None && available == AvailableSpace::MaxContent ==> shown == content
        }),
{
}

/// Clusters take no negative number of columns.
proof fn lemma_columns_ordered(clusters: Seq<Seq<char>>, i: int, j: int)
    requires
        0 <= i <= j <= clusters.len(),
    ensures
        crate::canvas::column_after(clusters.take(i), 0) <= crate::canvas::column_after(
            clusters.take(j),
            0,
        ),
    decreases j - i,
{
    if i < j {
        lemma_columns_ordered(clusters, i, j - 1);
        let all = clusters.take(j);
        assert(all.drop_last() =~= clusters.take(j - 1));
        crate::canvas::lemma_width_is_positive(all.drop_last(), 0);
        assert(crate::canvas::cluster_width(
            all.last(),
            crate::canvas::column_after(all.drop_last(), 0),
        ) >= 0);
    }
}

/// Whether the cluster with number `i` lies between two columns.
spec fn lies_between(clusters: Seq<Seq<char>>, i: int, start: int, end: int) -> bool {
    in_columns(
        crate::canvas::column_after(clusters.take(i), 0),
        crate::canvas::column_after(clusters.take(i + 1), 0),
        start,
        end,
    )
}

proof fn lemma_slice_part(clusters: Seq<Seq<char>>, start: int, end: int) -> (part: (int, int))
    ensures
        0 <= part.0 <= part.1 <= clusters.len(),
        sliced(clusters, start, end) == crate::strings::concat(
            clusters.subrange(part.0, part.1),
        ),
        forall|i: int|
            0 <= i < clusters.len() ==> (part.0 <= i < part.1) == #[trigger] lies_between(
                clusters,
                i,
                start,
                end,
            ),
    decreases clusters.len(),
{
    if clusters.len() == 0 {
        assert(clusters.subrange(0, 0) =~= Seq::empty());
        (0, 0)
    } else {
        let before = clusters.drop_last();
        let last: int = clusters.len() - 1;
        let (a, b) = lemma_slice_part(before, start, end);
        assert(clusters.take(last) =~= before);
        assert(clusters.take(last + 1) =~= clusters);
        assert forall|i: int| 0 <= i < last implies #[trigger] lies_between(
            clusters,
            i,
            start,
            end,
        ) == (a <= i < b) by {
            assert(before.take(i) =~= clusters.take(i));
            assert(before.take(i + 1) =~= clusters.take(i + 1));
            assert(lies_between(before, i, start, end) == (a <= i < b));
        }
        let part = if !lies_between(clusters, last, start, end) {
            (a, b)
        } else if a < b {
            (a, last + 1)
        } else {
            (last, last + 1)
        };
        if lies_between(clusters, last, start, end) {
            if a < b && b < last {
                assert(lies_between(clusters, a, start, end));
                lemma_columns_ordered(clusters, a + 1, b);
                lemma_columns_ordered(clusters, b, b + 1);
                lemma_columns_ordered(clusters, b + 1, last);
                assert(lies_between(clusters, b, start, end));
            }
            let taken = clusters.subrange(part.0, part.1);
            assert(taken.drop_last() =~= before.subrange(a, b));
            assert(taken.last() == clusters.last());
        } else {
            assert(before.subrange(a, b) =~= clusters.subrange(a, b));
        }
        part
    }
}

/// The clusters between two columns are a part of the clusters: all that take up columns and lie
/// between the two, and none that does not lie between them.
pub proof fn lemma_slice_is_part(clusters: Seq<Seq<char>>, start: int, end: int) -> (part: (
    int,
    int,
))
    ensures
        0 <= part.0 <= part.1 <= clusters.len(),
        sliced(clusters, start, end) == crate::strings::concat(
            clusters.subrange(part.0, part.1),
        ),
        forall|i: int|
            #![trigger clusters[i]]
            0 <= i < clusters.len() ==> {
                let from = crate::canvas::column_after(clusters.take(i), 0);
                let to = crate::canvas::column_after(clusters.take(i + 1), 0);
                &&& start <= from < to <= end ==> part.0 <= i < part.1
                &&& part.0 <= i < part.1 ==> start <= from <= to <= end
            },
{
    let part = lemma_slice_part(clusters, start, end);
    assert forall|i: int| #![trigger clusters[i]] 0 <= i < clusters.len() implies {
        let from = crate::canvas::column_after(clusters.take(i), 0);
        let to = crate::canvas::column_after(clusters.take(i + 1), 0);
        &&& start <= from < to <= end ==> part.0 <= i < part.1
        &&& part.0 <= i < part.1 ==> start <= from <= to <= end
    } by {
        lemma_columns_ordered(clusters, i, i + 1);
        assert(lies_between(clusters, i, start, end) == (part.0 <= i < part.1));
    }
    part
}

/// A line that is too wide is truncated to the ellipsis and what is left of it: at its end to
/// the clusters before the last column, at its start to those behind the first one, and in the
/// middle to those of the first half of the columns and those of the columns that the other
/// half has left.
pub proof fn lemma_truncated_line(text: Seq<char>, columns: int)
    requires
        columns >= 2,
        crate::canvas::display_width(text) > columns,
    ensures
        ({
            let clusters = crate::canvas::graphemes(text);
            let width = crate::canvas::display_width(text);
            let dots = seq!['\u{2026}'];
            let half = columns / 2;
            &&& truncated(text, columns, TruncatePosition::End) == sliced(
                clusters,
                0,
                columns - 1,
            ) + dots
            &&& truncated(text, columns, TruncatePosition::Start) == dots + sliced(
                clusters,
                width - (columns - 1),
                width,
            )
            &&& exists|first: int, second: int|
                first + 1 + second == columns && first == half && truncated(
                    text,
                    columns,
                    TruncatePosition::Middle,
                ) == #[trigger] sliced(clusters, 0, first) + dots + #[trigger] sliced(
                    clusters,
                    width - second,
                    width,
                )
        }),
{
    let clusters = crate::canvas::graphemes(text);
    let width = crate::canvas::display_width(text);
    let half = columns / 2;
    let rest = columns - half - 1;
    assert(truncated(text, columns, TruncatePosition::Middle) == sliced(clusters, 0, half)
        + seq!['\u{2026}'] + sliced(clusters, width - rest, width));
    assert(half + 1 + rest == columns);
}

/// Whether a text neither starts nor ends with white space.
pub open spec fn has_no_space_around(text: Seq<char>) -> bool {
    text.len() > 0 ==> !crate::whitespace::is_space(text[0]) && !crate::whitespace::is_space(
        text[text.len() - 1],
    )
}

/// A text that is wrapped and trimmed is one of which every line is trimmed, wrapped into lines
/// that break well, each of which is shown without the white space around it.
pub proof fn lemma_text_is_wrapped_and_trimmed(content: Seq<char>, width: int) -> (cuts: Seq<
    (int, int),
>)
    requires
        0 <= width,
    ensures
        ({
            let source = trimmed_lines(content);
            let clusters = crate::segmented_string::all_clusters(seq![source]);
            let lines = crate::segmented_string::wrapped(seq![source], width);
            let shown = shown_lines(content, TextWrap::WrapTrim, width);
            let before = crate::strings::split(content, '\n');
            let after = crate::strings::split(source, '\n');
            &&& after.len() == before.len()
            &&& forall|i: int|
                0 <= i < before.len() ==> #[trigger] after[i] == crate::whitespace::trimmed(
                    before[i],
                )
            &&& forall|i: int| 0 <= i < after.len() ==> has_no_space_around(#[trigger] after[i])
            &&& crate::segmented_string::is_wrapping(clusters, width, lines, 0, cuts)
            &&& shown.len() == cuts.len() && shown.len() > 0
            &&& forall|i: int|
                0 <= i < shown.len() ==> has_no_space_around((#[trigger] shown[i]).text)
            &&& forall|i: int|
                0 <= i < shown.len() ==> (#[trigger] shown[i]).text == crate::whitespace::trimmed(
                    crate::strings::concat(
                        crate::segmented_string::piece_texts(
                            clusters.subrange(cuts[i].0, cuts[i].1),
                        ),
                    ),
                )
        }),
{
    let source = trimmed_lines(content);
    let clusters = crate::segmented_string::all_clusters(seq![source]);
    let lines = crate::segmented_string::wrapped(seq![source], width);
    let cuts = crate::segmented_string::lemma_lines_wrap(clusters, width, 0, true);
    let shown = shown_lines(content, TextWrap::WrapTrim, width);
    let before = crate::strings::split(content, '\n');
    let pieces = before.map_values(|line: Seq<char>| crate::whitespace::trimmed(line));
    crate::strings::lemma_split_nonempty(content, '\n');
    crate::strings::lemma_split_pieces(content, '\n');
    assert forall|i: int, k: int| 0 <= i < pieces.len() && 0 <= k < pieces[i].len() implies
        #[trigger] pieces[i][k] != '\n' by {
        let start = crate::whitespace::lemma_trimmed_is_part(before[i]);
        assert(pieces[i][k] == before[i][start + k]);
    }
    crate::strings::lemma_split_undoes_join(pieces, '\n');
    assert forall|i: int| 0 <= i < pieces.len() implies has_no_space_around(
        #[trigger] pieces[i],
    ) by {
        let start = crate::whitespace::lemma_trimmed_is_part(before[i]);
    }
    assert forall|i: int| 0 <= i < shown.len() implies has_no_space_around(
        (#[trigger] shown[i]).text,
    ) && shown[i].text == crate::whitespace::trimmed(
        crate::strings::concat(
            crate::segmented_string::piece_texts(clusters.subrange(cuts[i].0, cuts[i].1)),
        ),
    ) by {
        let start = crate::whitespace::lemma_trimmed_is_part(line_text(lines[i]));
        let cut = cuts[i];
    }
    cuts
}

/// A single column shows the ellipsis alone, and no column shows nothing.
pub proof fn lemma_truncated_to_next_to_nothing(text: Seq<char>, position: TruncatePosition)
    ensures
        truncated(text, 0, position).len() == 0,
        truncated(text, 1, position) == seq!['\u{2026}'],
{
}

} // verus!
