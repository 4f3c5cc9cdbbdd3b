//! Display widths of text and the operations that draw it.

use crate::strings::chars_of;
use crate::style::{CanvasTextStyle, Color};
use unicode_segmentation::UnicodeSegmentation;
use unicode_width::UnicodeWidthStr;
use vstd::prelude::*;

verus! {

/// The extended grapheme clusters of a text, in order.
pub uninterp spec fn graphemes(text: Seq<char>) -> Seq<Seq<char>>;

/// The columns that a text without tabs takes up.
pub uninterp spec fn text_columns(text: Seq<char>) -> nat;

/// Whether a character is printable ASCII or the ellipsis. Such a character is a grapheme
/// cluster of its own among others like it, and takes one column.
pub open spec fn is_narrow(c: char) -> bool {
    0x20 <= (c as u32) <= 0x7e || c == '\u{2026}'
}

/// Whether a text is made of narrow characters.
pub open spec fn is_narrow_text(text: Seq<char>) -> bool {
    forall|i: int| 0 <= i < text.len() ==> is_narrow(#[trigger] text[i])
}

/// The characters of a text, each a piece of its own.
pub open spec fn single_characters(text: Seq<char>) -> Seq<Seq<char>> {
    Seq::new(text.len(), |i: int| seq![text[i]])
}

/// `UnicodeSegmentation::graphemes` with extended clusters: cuts a text into its
/// grapheme clusters. The clusters are pieces of the text: none is empty, and
/// together they are the text. Printable ASCII characters and the ellipsis are of the
/// category of characters that have a boundary on both sides among one another.
#[verifier::external_body]
pub(crate) fn grapheme_clusters(text: &str) -> (clusters: Vec<String>)
    ensures
        crate::strings::texts(clusters@) == graphemes(text@),
        crate::strings::concat(crate::strings::texts(clusters@)) == text@,
        forall|i: int| 0 <= i < clusters@.len() ==> (#[trigger] clusters@[i])@.len() > 0,
        is_narrow_text(text@) ==> crate::strings::texts(clusters@) == single_characters(text@),
{
    UnicodeSegmentation::graphemes(text, true).map(|cluster| cluster.to_string()).collect()
}

/// `UnicodeWidthStr::width`: the columns of a text. It adds up what each character
/// adds, which is never more than three columns. A printable ASCII character takes one, and
/// so does the ellipsis: characters of ambiguous width are counted as narrow.
#[verifier::external_body]
pub(crate) fn unicode_columns(text: &str) -> (columns: usize)
    ensures
        columns == text_columns(text@),
        columns <= 3 * text@.len(),
        text@.len() == 1 && is_narrow(text@[0]) ==> columns == 1,
{
    UnicodeWidthStr::width(text)
}

/// The distance between tab stops.
pub const TAB_WIDTH: usize = 8;

/// Whether a character is a control character.
pub open spec fn is_control(c: char) -> bool {
    (c as u32) < 0x20 || 0x7f <= (c as u32) <= 0x9f
}

/// The columns of one grapheme cluster that starts at column `column`: a tab
/// reaches to the next tab stop, another control character takes no column.
pub open spec fn cluster_width(cluster: Seq<char>, column: int) -> int {
    if cluster.len() > 0 && cluster[0] == '\t' {
        TAB_WIDTH - column % (TAB_WIDTH as int)
    } else if cluster.len() > 0 && is_control(cluster[0]) {
        0
    } else {
        text_columns(cluster) as int
    }
}

/// The column after the clusters, of which the first starts at column `column`.
pub open spec fn column_after(clusters: Seq<Seq<char>>, column: int) -> int
    decreases clusters.len(),
{
    if clusters.len() == 0 {
        column
    } else {
        let before: int = column_after(clusters.drop_last(), column);
        before + cluster_width(clusters.last(), before)
    }
}

/// The columns of a text that starts at column `column`.
pub open spec fn display_width_from(text: Seq<char>, column: int) -> int {
    column_after(graphemes(text), column) - column
}

/// The columns of a text that starts at the left edge.
pub open spec fn display_width(text: Seq<char>) -> int {
    display_width_from(text, 0)
}

/// Clusters take no negative number of columns.
pub proof fn lemma_width_is_positive(clusters: Seq<Seq<char>>, column: int)
    ensures
        column_after(clusters, column) >= column,
    decreases clusters.len(),
{
    if clusters.len() > 0 {
        lemma_width_is_positive(clusters.drop_last(), column);
    }
}

/// Whether the columns of a text of this length, from this column on, can be
/// counted.
pub open spec fn countable(length: int, column: int) -> bool {
    0 <= column && column + 8 * length <= isize::MAX
}

/// The total length of the clusters.
pub open spec fn total_len(clusters: Seq<Seq<char>>) -> int
    decreases clusters.len(),
{
    if clusters.len() == 0 {
        0
    } else {
        total_len(clusters.drop_last()) + clusters.last().len()
    }
}

/// The clusters are as long as the text that they make up.
pub proof fn lemma_total_len(clusters: Seq<Seq<char>>)
    ensures
        total_len(clusters) == crate::strings::concat(clusters).len(),
    decreases clusters.len(),
{
    if clusters.len() > 0 {
        lemma_total_len(clusters.drop_last());
    }
}

/// A prefix of the clusters is at most as long as all of them.
pub proof fn lemma_total_len_prefix(clusters: Seq<Seq<char>>, count: int)
    requires
        0 <= count <= clusters.len(),
    ensures
        0 <= total_len(clusters.take(count)) <= total_len(clusters),
    decreases clusters.len(),
{
    if count == clusters.len() {
        assert(clusters.take(count) =~= clusters);
        if count > 0 {
            lemma_total_len_prefix(clusters.drop_last(), count - 1);
            assert(clusters.drop_last().take(count - 1) =~= clusters.drop_last());
        }
    } else {
        lemma_total_len_prefix(clusters.drop_last(), count);
        assert(clusters.drop_last().take(count) =~= clusters.take(count));
    }
}

/// There are at most as many clusters that are not empty as they have characters.
pub proof fn lemma_total_len_count(clusters: Seq<Seq<char>>)
    requires
        forall|i: int| 0 <= i < clusters.len() ==> (#[trigger] clusters[i]).len() > 0,
    ensures
        clusters.len() <= total_len(clusters),
    decreases clusters.len(),
{
    if clusters.len() > 0 {
        lemma_total_len_count(clusters.drop_last());
    }
}

/// Clusters without one of them lack its characters.
proof fn lemma_total_len_remove(clusters: Seq<Seq<char>>, k: int)
    requires
        0 <= k < clusters.len(),
    ensures
        total_len(clusters) == total_len(clusters.remove(k)) + clusters[k].len(),
        crate::strings::concat(clusters).to_multiset() == crate::strings::concat(
            clusters.remove(k),
        ).to_multiset().add(clusters[k].to_multiset()),
    decreases clusters.len(),
{
    broadcast use vstd::seq_lib::lemma_multiset_commutative;

    if k == clusters.len() - 1 {
        assert(clusters.remove(k) =~= clusters.drop_last());
    } else {
        lemma_total_len_remove(clusters.drop_last(), k);
        assert(clusters.remove(k).drop_last() =~= clusters.drop_last().remove(k));
        assert(clusters.remove(k).last() == clusters.last());
        assert(crate::strings::concat(clusters).to_multiset() =~= crate::strings::concat(
            clusters.remove(k),
        ).to_multiset().add(clusters[k].to_multiset()));
    }
}

/// Another order of the clusters has the same characters, and the same total length.
pub proof fn lemma_total_len_permuted(clusters: Seq<Seq<char>>, order: Seq<int>)
    requires
        order.len() == clusters.len(),
        order.no_duplicates(),
        forall|i: int| 0 <= i < order.len() ==> 0 <= #[trigger] order[i] < clusters.len(),
    ensures
        total_len(Seq::new(clusters.len(), |i: int| clusters[order[i]])) == total_len(clusters),
        crate::strings::concat(
            Seq::new(clusters.len(), |i: int| clusters[order[i]]),
        ).to_multiset() == crate::strings::concat(clusters).to_multiset(),
    decreases clusters.len(),
{
    broadcast use vstd::seq_lib::lemma_multiset_commutative;

    let n: int = clusters.len() as int;
    let permuted = Seq::new(clusters.len(), |i: int| clusters[order[i]]);
    if n > 0 {
        let all = vstd::set_lib::set_int_range(0, n);
        vstd::set_lib::lemma_int_range(0, n);
        order.unique_seq_to_set();
        assert forall|v: int| order.to_set().contains(v) implies all.contains(v) by {
            let j: int = choose|j: int| 0 <= j < order.len() && order[j] == v;
            assert(0 <= order[j] < n);
        }
        vstd::set_lib::lemma_subset_equality(order.to_set(), all);
        assert(order.to_set().contains(n - 1));
        let k: int = choose|k: int| 0 <= k < order.len() && order[k] == n - 1;
        let rest = order.remove(k);
        let fewer = clusters.drop_last();
        assert forall|i: int| 0 <= i < rest.len() implies 0 <= #[trigger] rest[i] < fewer.len() by {
            let j: int = if i < k {
                i
            } else {
                i + 1
            };
            assert(rest[i] == order[j]);
            assert(order[j] != order[k]);
        }
        assert(rest.no_duplicates()) by {
            assert forall|i: int, j: int|
                0 <= i < rest.len() && 0 <= j < rest.len() && i != j implies rest[i] != rest[j] by {
                let a: int = if i < k {
                    i
                } else {
                    i + 1
                };
                let b: int = if j < k {
                    j
                } else {
                    j + 1
                };
                assert(rest[i] == order[a] && rest[j] == order[b]);
            }
        }
        lemma_total_len_permuted(fewer, rest);
        assert(permuted.remove(k) =~= Seq::new(fewer.len(), |i: int| fewer[rest[i]]));
        lemma_total_len_remove(permuted, k);
    } else {
        assert(permuted =~= clusters);
    }
}

/// The columns of one grapheme cluster that starts at column `column`.
pub fn cluster_display_width(cluster: &str, column: usize) -> (width: usize)
    ensures
        width == cluster_width(cluster@, column as int),
        width <= 8 * cluster@.len(),
        cluster@.len() == 1 && is_narrow(cluster@[0]) ==> width == 1,
{
    let chars = chars_of(cluster);
    if chars.len() > 0 {
        let first = chars[0];
        if first == '\t' {
            return TAB_WIDTH - column % TAB_WIDTH;
        }
        let code: u32 = first as u32;
        if code < 0x20 || (code >= 0x7f && code <= 0x9f) {
            return 0;
        }
    }
    unicode_columns(cluster)
}

/// The columns of a text that starts at column `column`.
pub fn string_display_width_from_col(text: &str, column: usize) -> (width: usize)
    requires
        countable(text@.len() as int, column as int),
    ensures
        width == display_width_from(text@, column as int),
        0 <= width <= 8 * text@.len(),
        is_narrow_text(text@) ==> width == text@.len(),
{
    let clusters = grapheme_clusters(text);
    let ghost all = crate::strings::texts(clusters@);
    proof {
        lemma_total_len(all);
    }
    let mut end: usize = column;
    let mut i: usize = 0;
    while i < clusters.len()
        invariant
            i <= clusters@.len(),
            all == crate::strings::texts(clusters@),
            total_len(all) == text@.len(),
            countable(text@.len() as int, column as int),
            end == column_after(all.take(i as int), column as int),
            column <= end <= column + 8 * total_len(all.take(i as int)),
            is_narrow_text(text@) ==> all == single_characters(text@) && end == column + i,
        decreases clusters@.len() - i,
    {
        proof {
            assert(all.take(i + 1).drop_last() =~= all.take(i as int));
            lemma_total_len_prefix(all, i + 1);
            assert(all.take(i + 1).last() == clusters@[i as int]@);
        }
        end = end + cluster_display_width(clusters[i].as_str(), end);
        i = i + 1;
    }
    assert(all.take(i as int) =~= all);
    end - column
}

/// The columns of a text that starts at the left edge.
pub fn string_display_width(text: &str) -> (width: usize)
    requires
        countable(text@.len() as int, 0),
    ensures
        width == display_width(text@),
        0 <= width <= 8 * text@.len(),
        is_narrow_text(text@) ==> width == text@.len(),
{
    string_display_width_from_col(text, 0)
}

/// The largest display width of the lines.
pub open spec fn widest(lines: Seq<Seq<char>>) -> int
    decreases lines.len(),
{
    if lines.len() == 0 {
        0
    } else {
        crate::math::max_int(widest(lines.drop_last()), display_width(lines.last()))
    }
}

/// The width and the height of a text: its widest line, and a row for each line
/// (none for an empty text).
pub fn measure_text(text: &str) -> (size: (usize, usize))
    requires
        countable(text@.len() as int, 0),
    ensures
        size.0 == widest(crate::strings::split(text@, '\n')),
        size.1 == if text@.len() == 0 {
            0
        } else {
            crate::strings::split(text@, '\n').len() as int
        },
{
    let lines = crate::strings::split_on(text, '\n');
    let ghost all = crate::strings::texts(lines@);
    proof {
        crate::strings::lemma_split_len(text@, '\n');
        assert(all.len() == lines@.len());
    }
    let mut width: usize = 0;
    let mut i: usize = 0;
    while i < lines.len()
        invariant
            i <= lines@.len(),
            all == crate::strings::texts(lines@),
            all == crate::strings::split(text@, '\n'),
            countable(text@.len() as int, 0),
            forall|k: int| 0 <= k < all.len() ==> (#[trigger] all[k]).len() <= text@.len(),
            width == widest(all.take(i as int)),
        decreases lines@.len() - i,
    {
        proof {
            assert(all[i as int] == lines@[i as int]@);
            assert(all.take(i + 1).drop_last() =~= all.take(i as int));
            assert(all.take(i + 1).last() == lines@[i as int]@);
        }
        let line_width: usize = string_display_width(lines[i].as_str());
        if line_width > width {
            width = line_width;
        }
        i = i + 1;
    }
    assert(all.take(i as int) =~= all);
    let height: usize = if text.is_empty() {
        0
    } else {
        lines.len()
    };
    (width, height)
}

/// One operation that draws on the canvas of a component.
#[derive(Debug, PartialEq, Eq)]
pub enum DrawOp {
    /// Writes text from a cell to the right, with an optional hyperlink.
    SetText {
        x: isize,
        y: isize,
        text: String,
        style: CanvasTextStyle,
        link: Option<String>,
    },
    /// Fills cells with a background color.
    SetBackground { x: isize, y: isize, width: usize, height: usize, color: Color },
    /// Blanks cells.
    ClearText { x: isize, y: isize, width: usize, height: usize },
    /// Excludes cells from text selection; relative to the component.
    MarkNoSelect { x: isize, y: isize, width: usize, height: usize },
    /// Marks a row as the continuation of the row above it, of which the content
    /// ends at column `content_end`.
    MarkSoftWrap { y: isize, content_end: usize },
}

/// What a [`DrawOp`] does, over plain sequences of characters.
pub enum DrawModel {
    SetText {
        x: int,
        y: int,
        text: Seq<char>,
        style: CanvasTextStyle,
        link: Option<Seq<char>>,
    },
    SetBackground { x: int, y: int, width: int, height: int, color: Color },
    ClearText { x: int, y: int, width: int, height: int },
    MarkNoSelect { x: int, y: int, width: int, height: int },
    MarkSoftWrap { y: int, content_end: int },
}

impl View for DrawOp {
    type V = DrawModel;

    open spec fn view(&self) -> DrawModel {
        match *self {
            DrawOp::SetText { x, y, text, style, link } => DrawModel::SetText {
                x: x as int,
                y: y as int,
                text: text@,
                style,
                link: crate::strings::opt_text(link),
            },
            DrawOp::SetBackground { x, y, width, height, color } => DrawModel::SetBackground {
                x: x as int,
                y: y as int,
                width: width as int,
                height: height as int,
                color,
            },
            DrawOp::ClearText { x, y, width, height } => DrawModel::ClearText {
                x: x as int,
                y: y as int,
                width: width as int,
                height: height as int,
            },
            DrawOp::MarkNoSelect { x, y, width, height } => DrawModel::MarkNoSelect {
                x: x as int,
                y: y as int,
                width: width as int,
                height: height as int,
            },
            DrawOp::MarkSoftWrap { y, content_end } => DrawModel::MarkSoftWrap {
                y: y as int,
                content_end: content_end as int,
            },
        }
    }
}

/// What a list of operations does.
pub open spec fn drawing(ops: Seq<DrawOp>) -> Seq<DrawModel> {
    ops.map_values(|op: DrawOp| op@)
}

/// A tab reaches to the next column that is a multiple of eight, and takes at least one column.
/// Any other control character takes none, and any other cluster as many as its text has.
pub proof fn lemma_cluster_columns(cluster: Seq<char>, column: int)
    requires
        cluster.len() > 0,
        0 <= column,
    ensures
        cluster[0] == '\t' ==> {
            let next = column + cluster_width(cluster, column);
            next % 8 == 0 && column < next <= column + 8
        },
        cluster[0] != '\t' && ((cluster[0] as u32) < 32 || 127 <= (cluster[0] as u32) < 160)
            ==> cluster_width(cluster, column) == 0,
        (cluster[0] as u32) >= 160 || 32 <= (cluster[0] as u32) < 127 ==> cluster_width(
            cluster,
            column,
        ) == text_columns(cluster),
{
}

/// Clusters stand side by side: the column behind one more is the column behind the others and
/// its own width there.
pub proof fn lemma_clusters_stand_side_by_side(clusters: Seq<Seq<char>>, cluster: Seq<char>, column: int)
    ensures
        column_after(Seq::empty(), column) == column,
        column_after(clusters.push(cluster), column) == column_after(clusters, column)
            + cluster_width(cluster, column_after(clusters, column)),
{
    assert(clusters.push(cluster).drop_last() =~= clusters);
}

/// A text is as wide as its widest line: no line is wider, and one is as wide.
pub proof fn lemma_widest_line(lines: Seq<Seq<char>>)
    ensures
        forall|i: int| 0 <= i < lines.len() ==> display_width(#[trigger] lines[i]) <= widest(lines),
        lines.len() == 0 ==> widest(lines) == 0,
        widest(lines) > 0 ==> exists|i: int|
            0 <= i < lines.len() && display_width(#[trigger] lines[i]) == widest(lines),
        widest(lines) >= 0,
    decreases lines.len(),
{
    if lines.len() > 0 {
        let before = lines.drop_last();
        lemma_widest_line(before);
        assert forall|i: int| 0 <= i < lines.len() implies display_width(#[trigger] lines[i])
            <= widest(lines) by {
            if i < before.len() {
                assert(before[i] == lines[i]);
            }
        }
        if widest(before) > 0 && widest(lines) == widest(before) {
            let i = choose|i: int|
                0 <= i < before.len() && display_width(#[trigger] before[i]) == widest(before);
            assert(lines[i] == before[i]);
        } else if widest(lines) > 0 {
            assert(lines[lines.len() - 1] == lines.last());
        }
    }
}

} // verus!
