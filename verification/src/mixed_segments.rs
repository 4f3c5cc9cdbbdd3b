//! The styled segments of a line of mixed text: how a line of them is trimmed,
//! truncated and put into visual order.

use crate::bidi::bidi_order;
use crate::canvas::{cluster_display_width, grapheme_clusters, string_display_width_from_col};
use crate::text_wrap::{TruncatePosition, ELLIPSIS};
use crate::whitespace::{trim_end, trim_start};
use vstd::prelude::*;

verus! {

/// A part of a rendered line, with the content that it is a part of.
#[derive(Debug, PartialEq, Eq)]
pub struct RenderedMixedTextSegment {
    /// The text of the part.
    pub text: String,
    /// The content that it is a part of.
    pub index: usize,
}

/// What a [`RenderedMixedTextSegment`] holds.
pub struct SegmentModel {
    pub text: Seq<char>,
    pub index: int,
}

impl View for RenderedMixedTextSegment {
    type V = SegmentModel;

    open spec fn view(&self) -> SegmentModel {
        SegmentModel { text: self.text@, index: self.index as int }
    }
}

/// What a list of segments holds.
pub open spec fn segment_models(segments: Seq<RenderedMixedTextSegment>) -> Seq<SegmentModel> {
    segments.map_values(|segment: RenderedMixedTextSegment| segment@)
}

/// The texts of the segments.
pub open spec fn segment_texts(segments: Seq<SegmentModel>) -> Seq<Seq<char>> {
    segments.map_values(|segment: SegmentModel| segment.text)
}

/// The text of the segments.
pub open spec fn segments_text(segments: Seq<SegmentModel>) -> Seq<char> {
    crate::strings::concat(segment_texts(segments))
}

/// The total length of the texts of the segments.
pub open spec fn segments_len(segments: Seq<SegmentModel>) -> int {
    crate::canvas::total_len(segment_texts(segments))
}

/// Every segment is a part of one of the contents.
pub open spec fn within(segments: Seq<SegmentModel>, limit: int) -> bool {
    forall|i: int| 0 <= i < segments.len() ==> 0 <= (#[trigger] segments[i]).index < limit
}

/// The segments with one text more, joined to the last segment where both are parts
/// of the same content. An empty text adds nothing.
pub open spec fn pushed(
    segments: Seq<SegmentModel>,
    index: int,
    text: Seq<char>,
) -> Seq<SegmentModel> {
    if text.len() == 0 {
        segments
    } else if segments.len() > 0 && segments.last().index == index {
        segments.update(
            segments.len() - 1,
            SegmentModel { text: segments.last().text + text, index },
        )
    } else {
        segments.push(SegmentModel { text, index })
    }
}

/// The columns that the segments take side by side.
pub open spec fn segments_width(segments: Seq<SegmentModel>) -> int
    decreases segments.len(),
{
    if segments.len() == 0 {
        0
    } else {
        let before: int = segments_width(segments.drop_last());
        before + crate::canvas::display_width_from(segments.last().text, before)
    }
}

/// The segments without the white space at their start; one that holds nothing
/// else is dropped.
pub open spec fn start_trimmed(segments: Seq<SegmentModel>) -> Seq<SegmentModel>
    decreases segments.len(),
{
    if segments.len() == 0 {
        segments
    } else {
        let text: Seq<char> = crate::whitespace::trimmed_start(segments[0].text);
        if text.len() == 0 {
            start_trimmed(segments.skip(1))
        } else {
            segments.update(0, SegmentModel { text, ..segments[0] })
        }
    }
}

/// The segments without the white space at their end; one that holds nothing else
/// is dropped.
pub open spec fn end_trimmed(segments: Seq<SegmentModel>) -> Seq<SegmentModel>
    decreases segments.len(),
{
    if segments.len() == 0 {
        segments
    } else {
        let text: Seq<char> = crate::whitespace::trimmed_end(segments.last().text);
        if text.len() == 0 {
            end_trimmed(segments.drop_last())
        } else {
            segments.update(segments.len() - 1, SegmentModel { text, ..segments.last() })
        }
    }
}

/// The content at a column: that of the segment that covers it, the last one to the
/// right of all of them.
pub open spec fn index_at(segments: Seq<SegmentModel>, column: int) -> int
    decreases segments.len(),
{
    if segments.len() == 0 {
        0
    } else if segments.len() > 1 && column < segments_width(segments.drop_last()) {
        index_at(segments.drop_last(), column)
    } else {
        segments.last().index
    }
}

/// The segments cut into grapheme clusters.
pub open spec fn segment_clusters(segments: Seq<SegmentModel>) -> Seq<SegmentModel>
    decreases segments.len(),
{
    if segments.len() == 0 {
        Seq::empty()
    } else {
        segment_clusters(segments.drop_last()) + crate::canvas::graphemes(
            segments.last().text,
        ).map_values(|cluster: Seq<char>| SegmentModel { text: cluster, ..segments.last() })
    }
}

/// The clusters that lie between two columns; one that straddles an end is left
/// out.
pub open spec fn sliced(clusters: Seq<SegmentModel>, start: int, end: int) -> Seq<SegmentModel>
    decreases clusters.len(),
{
    if clusters.len() == 0 {
        Seq::empty()
    } else {
        let column: int = crate::canvas::column_after(segment_texts(clusters.drop_last()), 0);
        let next: int = crate::canvas::column_after(segment_texts(clusters), 0);
        let before: Seq<SegmentModel> = sliced(clusters.drop_last(), start, end);
        if crate::text_wrap::in_columns(column, next, start, end) {
            pushed(before, clusters.last().index, clusters.last().text)
        } else {
            before
        }
    }
}

/// The segments truncated to a number of columns, of which the ellipsis takes one.
/// The ellipsis looks like the text that it stands for.
pub open spec fn truncated(
    segments: Seq<SegmentModel>,
    columns: int,
    position: TruncatePosition,
) -> Seq<SegmentModel> {
    let clusters: Seq<SegmentModel> = segment_clusters(segments);
    let width: int = segments_width(segments);
    let ellipsis: Seq<char> = seq![ELLIPSIS];
    if width <= columns {
        segments
    } else if columns < 1 {
        Seq::empty()
    } else if columns == 1 {
        seq![SegmentModel { text: ellipsis, index: index_at(segments, 0) }]
    } else {
        match position {
            TruncatePosition::Start => {
                let start: int = width - (columns - 1);
                seq![SegmentModel { text: ellipsis, index: index_at(segments, start) }] + sliced(
                    clusters,
                    start,
                    width,
                )
            },
            TruncatePosition::Middle => {
                let prefix: int = columns / 2;
                pushed(
                    sliced(clusters, 0, prefix),
                    index_at(segments, prefix),
                    ellipsis,
                ) + sliced(clusters, width - (columns - prefix - 1), width)
            },
            TruncatePosition::End => pushed(
                sliced(clusters, 0, columns - 1),
                index_at(segments, columns - 1),
                ellipsis,
            ),
        }
    }
}

/// The segments made of the given clusters.
pub open spec fn regrouped(clusters: Seq<SegmentModel>) -> Seq<SegmentModel>
    decreases clusters.len(),
{
    if clusters.len() == 0 {
        Seq::empty()
    } else {
        pushed(
            regrouped(clusters.drop_last()),
            clusters.last().index,
            clusters.last().text,
        )
    }
}

/// The segments in visual order. Every cluster keeps the content that it is a part
/// of.
pub open spec fn reordered(segments: Seq<SegmentModel>, enabled: bool) -> Seq<SegmentModel> {
    let clusters: Seq<SegmentModel> = segment_clusters(segments);
    let order: Seq<int> = crate::bidi::piece_order(segment_texts(clusters), enabled);
    regrouped(Seq::new(clusters.len(), |i: int| clusters[order[i]]))
}

/// A text that is appended stands behind the text of the segments.
proof fn lemma_pushed_text(segments: Seq<SegmentModel>, index: int, text: Seq<char>)
    ensures
        segments_text(pushed(segments, index, text)) == segments_text(segments) + text,
{
    let result = pushed(segments, index, text);
    if text.len() == 0 {
        assert(segments_text(segments) + text =~= segments_text(segments));
    } else if segments.len() > 0 && segments.last().index == index {
        assert(segment_texts(result).drop_last() =~= segment_texts(segments).drop_last());
        assert(segments_text(result) =~= segments_text(segments) + text);
    } else {
        assert(segment_texts(result).drop_last() =~= segment_texts(segments));
    }
}

/// Appends a text to the segments.
pub fn push_rendered_segment(
    segments: &mut Vec<RenderedMixedTextSegment>,
    index: usize,
    text: &str,
)
    ensures
        segment_models(final(segments)@) == pushed(
            segment_models(old(segments)@),
            index as int,
            text@,
        ),
        segments_len(segment_models(final(segments)@)) == segments_len(
            segment_models(old(segments)@),
        ) + text@.len(),
        segments_text(segment_models(final(segments)@)) == segments_text(
            segment_models(old(segments)@),
        ) + text@,
        forall|limit: int|
            index < limit && #[trigger] within(segment_models(old(segments)@), limit) ==> within(
                segment_models(final(segments)@),
                limit,
            ),
{
    let ghost before = segment_models(segments@);
    if text.is_empty() {
        return;
    }
    let count: usize = segments.len();
    if count > 0 {
        assert(before.last() == segments@[count - 1]@);
        if segments[count - 1].index == index {
            let mut last = segments.pop().unwrap();
            let ghost earlier = segment_models(segments@);
            last.text.append(text);
            segments.push(last);
            proof {
                assert(earlier =~= before.drop_last());
                assert(segment_models(segments@) =~= earlier.push(last@));
                assert(segment_models(segments@) =~= pushed(before, index as int, text@));
                assert(segment_texts(segment_models(segments@)).drop_last() =~= segment_texts(
                    before,
                ).drop_last());
            }
            return;
        }
    }
    let segment = RenderedMixedTextSegment { text: text.to_owned(), index };
    segments.push(segment);
    proof {
        assert(segment_models(segments@) =~= before.push(segment@));
        assert(segment_texts(segment_models(segments@)).drop_last() =~= segment_texts(before));
    }
}

/// The columns that the segments take side by side.
pub fn rendered_width(segments: &Vec<RenderedMixedTextSegment>) -> (width: usize)
    requires
        crate::canvas::countable(segments_len(segment_models(segments@)), 0),
    ensures
        width == segments_width(segment_models(segments@)),
        width <= 8 * segments_len(segment_models(segments@)),
{
    let ghost all = segment_models(segments@);
    let ghost texts = segment_texts(all);
    let mut column: usize = 0;
    let mut i: usize = 0;
    while i < segments.len()
        invariant
            i <= segments@.len(),
            all == segment_models(segments@),
            texts == segment_texts(all),
            crate::canvas::countable(crate::canvas::total_len(texts), 0),
            column == segments_width(all.take(i as int)),
            column <= 8 * crate::canvas::total_len(texts.take(i as int)),
        decreases segments@.len() - i,
    {
        proof {
            assert(all.take(i + 1).drop_last() =~= all.take(i as int));
            assert(all.take(i + 1).last() == segments@[i as int]@);
            assert(texts.take(i + 1).drop_last() =~= texts.take(i as int));
            assert(texts.take(i + 1).last() == segments@[i as int].text@);
            crate::canvas::lemma_total_len_prefix(texts, i + 1);
        }
        column = column + string_display_width_from_col(segments[i].text.as_str(), column);
        i = i + 1;
    }
    assert(all.take(i as int) =~= all);
    assert(texts.take(i as int) =~= texts);
    column
}

proof fn lemma_start_trimmed_skip(segments: Seq<SegmentModel>, count: int)
    requires
        0 <= count <= segments.len(),
        forall|i: int|
            0 <= i < count ==> crate::whitespace::trimmed_start(
                (#[trigger] segments[i]).text,
            ).len() == 0,
    ensures
        start_trimmed(segments) == start_trimmed(segments.skip(count)),
    decreases count,
{
    if count > 0 {
        let rest = segments.skip(1);
        assert(rest.skip(count - 1) =~= segments.skip(count));
        assert forall|i: int| 0 <= i < count - 1 implies crate::whitespace::trimmed_start(
            (#[trigger] rest[i]).text,
        ).len() == 0 by {
            assert(rest[i] == segments[i + 1]);
        }
        assert(segments[0] == segments[0]);
        lemma_start_trimmed_skip(rest, count - 1);
    } else {
        assert(segments.skip(0) =~= segments);
    }
}

/// The texts after a place are no longer than all of them.
proof fn lemma_suffix_len(texts: Seq<Seq<char>>, count: int)
    requires
        0 <= count <= texts.len(),
    ensures
        crate::canvas::total_len(texts.skip(count)) <= crate::canvas::total_len(texts),
{
    crate::strings::lemma_concat_add(texts.take(count), texts.skip(count));
    assert(texts.take(count) + texts.skip(count) =~= texts);
    crate::canvas::lemma_total_len(texts);
    crate::canvas::lemma_total_len(texts.skip(count));
}

/// One shorter text makes all of them shorter.
proof fn lemma_shorter(texts: Seq<Seq<char>>, k: int, text: Seq<char>)
    requires
        0 <= k < texts.len(),
        text.len() <= texts[k].len(),
    ensures
        crate::canvas::total_len(texts.update(k, text)) <= crate::canvas::total_len(texts),
    decreases texts.len(),
{
    let changed = texts.update(k, text);
    if k == texts.len() - 1 {
        assert(changed.drop_last() =~= texts.drop_last());
    } else {
        lemma_shorter(texts.drop_last(), k, text);
        assert(changed.drop_last() =~= texts.drop_last().update(k, text));
    }
}

/// Drops the white space at the start of the segments.
pub fn trim_start_segments(segments: Vec<RenderedMixedTextSegment>) -> (result: Vec<
    RenderedMixedTextSegment,
>)
    ensures
        segment_models(result@) == start_trimmed(segment_models(segments@)),
        segments_len(segment_models(result@)) <= segments_len(segment_models(segments@)),
        forall|limit: int|
            #[trigger] within(segment_models(segments@), limit) ==> within(
                segment_models(result@),
                limit,
            ),
{
    let ghost all = segment_models(segments@);
    let mut result: Vec<RenderedMixedTextSegment> = Vec::new();
    let mut i: usize = 0;
    while i < segments.len()
        invariant
            i <= segments@.len(),
            result@.len() == 0,
            all == segment_models(segments@),
            forall|k: int|
                0 <= k < i ==> crate::whitespace::trimmed_start((#[trigger] all[k]).text).len()
                    == 0,
        decreases segments@.len() - i,
    {
        assert(all[i as int] == segments@[i as int]@);
        let trimmed = trim_start(segments[i].text.as_str());
        if !trimmed.as_str().is_empty() {
            let ghost rest = all.skip(i as int);
            proof {
                lemma_start_trimmed_skip(all, i as int);
                crate::whitespace::lemma_leading_spaces(all[i as int].text);
            }
            let ghost goal = rest.update(
                0,
                SegmentModel { text: trimmed@, ..all[i as int] },
            );
            result.push(
                RenderedMixedTextSegment { text: trimmed, index: segments[i].index },
            );
            let mut k: usize = i + 1;
            assert(segment_models(result@) =~= goal.take(1));
            while k < segments.len()
                invariant
                    i < k <= segments@.len(),
                    all == segment_models(segments@),
                    rest == all.skip(i as int),
                    goal == rest.update(0, SegmentModel { text: trimmed@, ..all[i as int] }),
                    segment_models(result@) == goal.take(k - i),
                decreases segments@.len() - k,
            {
                let segment = RenderedMixedTextSegment {
                    text: segments[k].text.clone(),
                    index: segments[k].index,
                };
                let ghost before = segment_models(result@);
                result.push(segment);
                k = k + 1;
                proof {
                    assert(goal[k - 1 - i] == all[k - 1]);
                    assert(all[k - 1] == segments@[k - 1]@);
                    assert(segment_models(result@) =~= before.push(segment@));
                    assert(goal.take(k - i) =~= goal.take(k - 1 - i).push(goal[k - 1 - i]));
                }
            }
            proof {
                assert(goal.take(k - i) =~= goal);
                let texts = segment_texts(all);
                lemma_suffix_len(texts, i as int);
                lemma_shorter(texts.skip(i as int), 0, trimmed@);
                assert(segment_texts(goal) =~= texts.skip(i as int).update(0, trimmed@));
                assert forall|limit: int| #[trigger] within(all, limit) implies within(
                    goal,
                    limit,
                ) by {
                    assert forall|j: int| 0 <= j < goal.len() implies 0 <= (
                    #[trigger] goal[j]).index < limit by {
                        assert(goal[j].index == all[i + j].index);
                    }
                }
            }
            return result;
        }
        i = i + 1;
    }
    proof {
        assert(segment_models(result@) =~= Seq::empty());
        assert(segment_texts(segment_models(result@)) =~= Seq::empty());
        crate::canvas::lemma_total_len(segment_texts(all));
        lemma_start_trimmed_skip(all, all.len() as int);
        assert(all.skip(all.len() as int) =~= Seq::empty());
    }
    result
}

/// Drops the white space at the end of the segments.
pub fn trim_end_segments(segments: &mut Vec<RenderedMixedTextSegment>)
    ensures
        segment_models(final(segments)@) == end_trimmed(segment_models(old(segments)@)),
        segments_len(segment_models(final(segments)@)) <= segments_len(
            segment_models(old(segments)@),
        ),
        forall|limit: int|
            #[trigger] within(segment_models(old(segments)@), limit) ==> within(
                segment_models(final(segments)@),
                limit,
            ),
{
    let ghost all = segment_models(segments@);
    while segments.len() > 0
        invariant
            all == segment_models(old(segments)@),
            end_trimmed(segment_models(segments@)) == end_trimmed(all),
            segments_len(segment_models(segments@)) <= segments_len(all),
            forall|limit: int|
                #[trigger] within(all, limit) ==> within(segment_models(segments@), limit),
        decreases segments@.len(),
    {
        let ghost before = segment_models(segments@);
        let mut last = segments.pop().unwrap();
        let trimmed = trim_end(last.text.as_str());
        proof {
            assert(before.last() == last@);
            assert(segment_models(segments@) =~= before.drop_last());
            assert(segment_texts(before).drop_last() =~= segment_texts(before.drop_last()));
            crate::whitespace::lemma_trimmed_end_len(last.text@);
            assert forall|limit: int| #[trigger] within(all, limit) implies within(
                before.drop_last(),
                limit,
            ) by {
                assert forall|j: int| 0 <= j < before.drop_last().len() implies 0 <= (
                #[trigger] before.drop_last()[j]).index < limit by {
                    assert(before.drop_last()[j] == before[j]);
                }
            }
        }
        if !trimmed.as_str().is_empty() {
            let ghost earlier = segment_models(segments@);
            last.text = trimmed;
            segments.push(last);
            proof {
                assert(segment_models(segments@) =~= earlier.push(last@));
                assert(segment_models(segments@) =~= end_trimmed(before));
                assert(segment_texts(segment_models(segments@)).drop_last() =~= segment_texts(
                    before,
                ).drop_last());
                assert forall|limit: int| #[trigger] within(all, limit) implies within(
                    segment_models(segments@),
                    limit,
                ) by {
                    assert(within(before, limit));
                    assert(before[before.len() - 1].index == last.index);
                }
            }
            return;
        }
    }
}

/// The content at a column.
pub fn segment_index_at_column(
    segments: &Vec<RenderedMixedTextSegment>,
    column: usize,
) -> (index: usize)
    requires
        crate::canvas::countable(segments_len(segment_models(segments@)), 0),
    ensures
        index == index_at(segment_models(segments@), column as int),
        segments@.len() > 0 ==> forall|limit: int|
            #[trigger] within(segment_models(segments@), limit) ==> index < limit,
{
    let ghost all = segment_models(segments@);
    let ghost texts = segment_texts(all);
    let mut current: usize = 0;
    let mut found: usize = 0;
    let mut i: usize = 0;
    while i < segments.len() && (i == 0 || current <= column)
        invariant
            i <= segments@.len(),
            all == segment_models(segments@),
            texts == segment_texts(all),
            crate::canvas::countable(crate::canvas::total_len(texts), 0),
            current == segments_width(all.take(i as int)),
            current <= 8 * crate::canvas::total_len(texts.take(i as int)),
            found == index_at(all.take(i as int), column as int),
            i > 0 ==> exists|k: int| 0 <= k < i && found == (#[trigger] all[k]).index,
        decreases segments@.len() - i,
    {
        proof {
            assert(all.take(i + 1).drop_last() =~= all.take(i as int));
            assert(all.take(i + 1).last() == segments@[i as int]@);
            assert(all[i as int] == segments@[i as int]@);
            assert(texts.take(i + 1).drop_last() =~= texts.take(i as int));
            assert(texts.take(i + 1).last() == segments@[i as int].text@);
            crate::canvas::lemma_total_len_prefix(texts, i + 1);
        }
        found = segments[i].index;
        current = current + string_display_width_from_col(segments[i].text.as_str(), current);
        i = i + 1;
    }
    proof {
        if i < all.len() {
            lemma_index_at_prefix(all, i as int, column as int);
        } else {
            assert(all.take(i as int) =~= all);
        }
    }
    found
}

/// A width does not shrink with more segments.
proof fn lemma_width_grows(segments: Seq<SegmentModel>)
    requires
        segments.len() > 0,
    ensures
        segments_width(segments.drop_last()) <= segments_width(segments),
{
    crate::canvas::lemma_width_is_positive(
        crate::canvas::graphemes(segments.last().text),
        segments_width(segments.drop_last()),
    );
}

/// A column that a prefix covers belongs to it.
proof fn lemma_index_at_prefix(segments: Seq<SegmentModel>, count: int, column: int)
    requires
        0 < count <= segments.len(),
        column < segments_width(segments.take(count)),
    ensures
        index_at(segments, column) == index_at(segments.take(count), column),
        column < segments_width(segments),
    decreases segments.len(),
{
    if count < segments.len() {
        let before = segments.drop_last();
        assert(before.take(count) =~= segments.take(count));
        lemma_index_at_prefix(before, count, column);
        lemma_width_grows(segments);
    } else {
        assert(segments.take(count) =~= segments);
    }
}

/// The clusters of the segments.
fn collect_clusters(segments: &Vec<RenderedMixedTextSegment>) -> (clusters: Vec<
    RenderedMixedTextSegment,
>)
    ensures
        segment_models(clusters@) == segment_clusters(segment_models(segments@)),
        segments_len(segment_models(clusters@)) == segments_len(segment_models(segments@)),
        segments_text(segment_models(clusters@)) == segments_text(segment_models(segments@)),
        forall|i: int| 0 <= i < clusters@.len() ==> (#[trigger] clusters@[i]).text@.len() > 0,
        forall|limit: int|
            #[trigger] within(segment_models(segments@), limit) ==> within(
                segment_models(clusters@),
                limit,
            ),
{
    let ghost all = segment_models(segments@);
    let ghost texts = segment_texts(all);
    let mut clusters: Vec<RenderedMixedTextSegment> = Vec::new();
    let mut i: usize = 0;
    assert(segment_models(clusters@) =~= segment_clusters(all.take(0)));
    assert(segment_texts(segment_models(clusters@)) =~= Seq::empty());
    while i < segments.len()
        invariant
            i <= segments@.len(),
            all == segment_models(segments@),
            texts == segment_texts(all),
            segment_models(clusters@) == segment_clusters(all.take(i as int)),
            segments_len(segment_models(clusters@)) == crate::canvas::total_len(
                texts.take(i as int),
            ),
            segments_text(segment_models(clusters@)) == crate::strings::concat(
                texts.take(i as int),
            ),
            forall|k: int| 0 <= k < clusters@.len() ==> (#[trigger] clusters@[k]).text@.len() > 0,
            forall|limit: int|
                #[trigger] within(all, limit) ==> within(segment_models(clusters@), limit),
        decreases segments@.len() - i,
    {
        let pieces = grapheme_clusters(segments[i].text.as_str());
        let ghost done = segment_models(clusters@);
        let ghost cut = crate::strings::texts(pieces@);
        let ghost added = cut.map_values(
            |cluster: Seq<char>| SegmentModel { text: cluster, ..all[i as int] },
        );
        let mut k: usize = 0;
        while k < pieces.len()
            invariant
                i < segments@.len(),
                k <= pieces@.len(),
                all == segment_models(segments@),
                cut == crate::strings::texts(pieces@),
                cut.len() == pieces@.len(),
                added == cut.map_values(
                    |cluster: Seq<char>| SegmentModel { text: cluster, ..all[i as int] },
                ),
                segment_models(clusters@) == done + added.take(k as int),
                forall|j: int| 0 <= j < pieces@.len() ==> (#[trigger] pieces@[j])@.len() > 0,
                forall|j: int|
                    0 <= j < clusters@.len() ==> (#[trigger] clusters@[j]).text@.len() > 0,
            decreases pieces@.len() - k,
        {
            let cluster = RenderedMixedTextSegment {
                text: pieces[k].clone(),
                index: segments[i].index,
            };
            let ghost before = segment_models(clusters@);
            clusters.push(cluster);
            k = k + 1;
            proof {
                assert(added[k - 1].text == pieces@[k - 1]@);
                assert(all[i as int] == segments@[i as int]@);
                assert(cluster@ == added[k - 1]);
                assert(segment_models(clusters@) =~= before.push(cluster@));
                assert(added.take(k as int) =~= added.take(k - 1).push(added[k - 1]));
                assert(segment_models(clusters@) =~= done + added.take(k as int));
            }
        }
        proof {
            assert(added.take(k as int) =~= added);
            assert(all.take(i + 1).drop_last() =~= all.take(i as int));
            assert(all.take(i + 1).last() == all[i as int]);
            assert(cut == crate::canvas::graphemes(all[i as int].text));
            assert(segment_models(clusters@) =~= segment_clusters(all.take(i + 1)));
            assert(segment_texts(added) =~= cut);
            assert(segment_texts(done + added) =~= segment_texts(done) + cut);
            crate::strings::lemma_concat_add(segment_texts(done), cut);
            crate::canvas::lemma_total_len(segment_texts(done));
            crate::canvas::lemma_total_len(segment_texts(done) + cut);
            crate::canvas::lemma_total_len(cut);
            assert(texts.take(i + 1).drop_last() =~= texts.take(i as int));
            assert(texts.take(i + 1).last() == all[i as int].text);
            assert forall|limit: int| #[trigger] within(all, limit) implies within(
                done + added,
                limit,
            ) by {
                assert(within(done, limit));
                assert(0 <= all[i as int].index < limit);
            }
        }
        i = i + 1;
    }
    assert(all.take(i as int) =~= all);
    assert(texts.take(i as int) =~= texts);
    clusters
}

/// The segments that lie between two columns. A wide cluster that straddles an end
/// is left out.
pub fn slice_segments_by_columns(
    segments: &Vec<RenderedMixedTextSegment>,
    start: usize,
    end: usize,
) -> (result: Vec<RenderedMixedTextSegment>)
    requires
        crate::canvas::countable(segments_len(segment_models(segments@)), 0),
    ensures
        segment_models(result@) == sliced(
            segment_clusters(segment_models(segments@)),
            start as int,
            end as int,
        ),
        segments_len(segment_models(result@)) <= segments_len(segment_models(segments@)),
        forall|limit: int|
            #[trigger] within(segment_models(segments@), limit) ==> within(
                segment_models(result@),
                limit,
            ),
{
    let clusters = collect_clusters(segments);
    let ghost all = segment_models(clusters@);
    let ghost texts = segment_texts(all);
    let mut result: Vec<RenderedMixedTextSegment> = Vec::new();
    let mut column: usize = 0;
    let mut i: usize = 0;
    assert(segment_models(result@) =~= sliced(all.take(0), start as int, end as int));
    assert(segment_texts(segment_models(result@)) =~= Seq::empty());
    assert(segment_texts(all.take(0)) =~= Seq::empty());
    while i < clusters.len()
        invariant
            i <= clusters@.len(),
            all == segment_models(clusters@),
            texts == segment_texts(all),
            crate::canvas::countable(crate::canvas::total_len(texts), 0),
            column == crate::canvas::column_after(segment_texts(all.take(i as int)), 0),
            column <= 8 * crate::canvas::total_len(texts.take(i as int)),
            segment_models(result@) == sliced(all.take(i as int), start as int, end as int),
            segments_len(segment_models(result@)) <= crate::canvas::total_len(
                texts.take(i as int),
            ),
            forall|limit: int|
                #[trigger] within(all, limit) ==> within(segment_models(result@), limit),
        decreases clusters@.len() - i,
    {
        let cluster = &clusters[i];
        proof {
            let taken = all.take(i + 1);
            assert(taken.drop_last() =~= all.take(i as int));
            assert(taken.last() == cluster@);
            assert(all[i as int] == cluster@);
            assert(segment_texts(taken).drop_last() =~= segment_texts(all.take(i as int)));
            assert(segment_texts(taken).last() == cluster@.text);
            assert(texts.take(i + 1).drop_last() =~= texts.take(i as int));
            assert(texts.take(i + 1).last() == cluster@.text);
            crate::canvas::lemma_total_len_prefix(texts, i + 1);
        }
        let next: usize = column + cluster_display_width(cluster.text.as_str(), column);
        if start <= column && next <= end && start < next && column < end {
            let ghost before = segment_models(result@);
            push_rendered_segment(&mut result, cluster.index, cluster.text.as_str());
            proof {
                assert forall|limit: int| #[trigger] within(all, limit) implies within(
                    segment_models(result@),
                    limit,
                ) by {
                    assert(within(before, limit));
                    assert(0 <= all[i as int].index < limit);
                }
            }
        }
        column = next;
        i = i + 1;
    }
    proof {
        assert(all.take(i as int) =~= all);
        assert(texts.take(i as int) =~= texts);
    }
    result
}

/// Appends all segments of `more`, none of them joined.
fn extend_segments(
    segments: &mut Vec<RenderedMixedTextSegment>,
    more: Vec<RenderedMixedTextSegment>,
)
    ensures
        segment_models(final(segments)@) == segment_models(old(segments)@) + segment_models(more@),
        segments_len(segment_models(final(segments)@)) == segments_len(
            segment_models(old(segments)@),
        ) + segments_len(segment_models(more@)),
        forall|limit: int|
            within(segment_models(more@), limit) && #[trigger] within(
                segment_models(old(segments)@),
                limit,
            ) ==> within(segment_models(final(segments)@), limit),
{
    let ghost before = segment_models(segments@);
    let ghost added = segment_models(more@);
    let mut more = more;
    segments.append(&mut more);
    proof {
        assert(segment_models(segments@) =~= before + added);
        let a = segment_texts(before);
        let b = segment_texts(added);
        assert(segment_texts(before + added) =~= a + b);
        crate::strings::lemma_concat_add(a, b);
        crate::canvas::lemma_total_len(a);
        crate::canvas::lemma_total_len(b);
        crate::canvas::lemma_total_len(a + b);
    }
}

/// A copy of the segments.
pub fn clone_segments(segments: &Vec<RenderedMixedTextSegment>) -> (copies: Vec<
    RenderedMixedTextSegment,
>)
    ensures
        segment_models(copies@) == segment_models(segments@),
{
    let ghost all = segment_models(segments@);
    let mut copies: Vec<RenderedMixedTextSegment> = Vec::new();
    let mut i: usize = 0;
    assert(segment_models(copies@) =~= all.take(0));
    while i < segments.len()
        invariant
            i <= segments@.len(),
            all == segment_models(segments@),
            segment_models(copies@) == all.take(i as int),
        decreases segments@.len() - i,
    {
        let copy = RenderedMixedTextSegment {
            text: segments[i].text.clone(),
            index: segments[i].index,
        };
        let ghost before = segment_models(copies@);
        copies.push(copy);
        i = i + 1;
        proof {
            assert(all[i - 1] == segments@[i - 1]@);
            assert(segment_models(copies@) =~= before.push(copy@));
            assert(all.take(i as int) =~= all.take(i - 1).push(all[i - 1]));
        }
    }
    assert(all.take(i as int) =~= all);
    copies
}

/// A list that holds only the ellipsis.
fn ellipsis_segment(index: usize) -> (segments: Vec<RenderedMixedTextSegment>)
    ensures
        segment_models(segments@) == seq![
            SegmentModel { text: seq![ELLIPSIS], index: index as int },
        ],
        segments_len(segment_models(segments@)) == 1,
{
    let mut text = String::new();
    text.push(ELLIPSIS);
    let mut segments: Vec<RenderedMixedTextSegment> = Vec::new();
    segments.push(RenderedMixedTextSegment { text, index });
    proof {
        assert(text@ =~= seq![ELLIPSIS]);
        let models = segment_models(segments@);
        assert(models =~= seq![SegmentModel { text: seq![ELLIPSIS], index: index as int }]);
        assert(segment_texts(models).drop_last() =~= Seq::empty());
        assert(crate::canvas::total_len(segment_texts(models).drop_last()) == 0);
    }
    segments
}

/// Truncates the segments to a number of columns.
pub fn truncate_segments(
    segments: &Vec<RenderedMixedTextSegment>,
    columns: usize,
    position: TruncatePosition,
) -> (result: Vec<RenderedMixedTextSegment>)
    requires
        crate::canvas::countable(segments_len(segment_models(segments@)), 0),
    ensures
        segment_models(result@) == truncated(
            segment_models(segments@),
            columns as int,
            position,
        ),
        segments_len(segment_models(result@)) <= 2 * segments_len(segment_models(segments@)) + 1,
        forall|limit: int|
            #[trigger] within(segment_models(segments@), limit) ==> within(
                segment_models(result@),
                limit,
            ),
{
    let ghost all = segment_models(segments@);
    let width: usize = rendered_width(segments);
    proof {
        crate::canvas::lemma_total_len(segment_texts(all));
    }
    if width <= columns {
        return clone_segments(segments);
    }
    if columns < 1 {
        let result: Vec<RenderedMixedTextSegment> = Vec::new();
        assert(segment_models(result@) =~= Seq::empty());
        assert(segment_texts(segment_models(result@)) =~= Seq::empty());
        return result;
    }
    assert(all.len() > 0);
    if columns == 1 {
        return ellipsis_segment(segment_index_at_column(segments, 0));
    }
    let mut ellipsis = String::new();
    ellipsis.push(ELLIPSIS);
    assert(ellipsis@ =~= seq![ELLIPSIS]);
    match position {
        TruncatePosition::Start => {
            let start: usize = width - (columns - 1);
            let mut result = ellipsis_segment(segment_index_at_column(segments, start));
            extend_segments(&mut result, slice_segments_by_columns(segments, start, width));
            result
        },
        TruncatePosition::Middle => {
            let prefix_columns: usize = columns / 2;
            let suffix_columns: usize = columns - prefix_columns - 1;
            let mut result = slice_segments_by_columns(segments, 0, prefix_columns);
            let index: usize = segment_index_at_column(segments, prefix_columns);
            push_rendered_segment(&mut result, index, ellipsis.as_str());
            extend_segments(
                &mut result,
                slice_segments_by_columns(segments, width - suffix_columns, width),
            );
            result
        },
        TruncatePosition::End => {
            let prefix_columns: usize = columns - 1;
            let mut result = slice_segments_by_columns(segments, 0, prefix_columns);
            let index: usize = segment_index_at_column(segments, prefix_columns);
            push_rendered_segment(&mut result, index, ellipsis.as_str());
            result
        },
    }
}

/// Puts the segments into visual order, cluster by cluster. Without reordering the
/// clusters stay in place. No character is lost or added.
pub fn reorder_bidi_segments(
    segments: Vec<RenderedMixedTextSegment>,
    enabled: bool,
) -> (result: Vec<RenderedMixedTextSegment>)
    ensures
        segment_models(result@) == reordered(segment_models(segments@), enabled),
        segments_len(segment_models(result@)) == segments_len(segment_models(segments@)),
        segments_text(segment_models(result@)).to_multiset() == segments_text(
            segment_models(segments@),
        ).to_multiset(),
        forall|limit: int|
            #[trigger] within(segment_models(segments@), limit) ==> within(
                segment_models(result@),
                limit,
            ),
{
    let clusters = collect_clusters(&segments);
    let ghost logical = segment_models(clusters@);
    let mut texts: Vec<String> = Vec::new();
    let mut i: usize = 0;
    while i < clusters.len()
        invariant
            i <= clusters@.len(),
            texts@.len() == i,
            logical == segment_models(clusters@),
            forall|k: int| 0 <= k < i ==> (#[trigger] texts@[k])@ == clusters@[k].text@,
        decreases clusters@.len() - i,
    {
        texts.push(clusters[i].text.clone());
        i = i + 1;
    }
    proof {
        assert(crate::strings::texts(texts@) =~= segment_texts(logical));
        crate::canvas::lemma_total_len(segment_texts(logical));
    }
    let order = bidi_order(&texts, enabled);
    let ghost places = order@.map_values(|index: usize| index as int);
    let ghost visual = Seq::new(logical.len(), |i: int| logical[places[i]]);
    let mut result: Vec<RenderedMixedTextSegment> = Vec::new();
    let mut v: usize = 0;
    assert(segment_models(result@) =~= regrouped(visual.take(0)));
    assert(segment_texts(segment_models(result@)) =~= Seq::empty());
    assert(segment_texts(visual.take(0)) =~= Seq::empty());
    while v < order.len()
        invariant
            v <= order@.len(),
            order@.len() == clusters@.len(),
            logical == segment_models(clusters@),
            places == order@.map_values(|index: usize| index as int),
            visual == Seq::new(logical.len(), |i: int| logical[places[i]]),
            forall|k: int| 0 <= k < order@.len() ==> #[trigger] order@[k] < clusters@.len(),
            segment_models(result@) == regrouped(visual.take(v as int)),
            segments_len(segment_models(result@)) == segments_len(visual.take(v as int)),
            segments_text(segment_models(result@)) == segments_text(visual.take(v as int)),
            forall|limit: int|
                #[trigger] within(logical, limit) ==> within(segment_models(result@), limit),
        decreases order@.len() - v,
    {
        let cluster = &clusters[order[v]];
        proof {
            assert(places[v as int] == order@[v as int]);
            assert(logical[order@[v as int] as int] == cluster@);
            assert(visual[v as int] == cluster@);
            let taken = visual.take(v + 1);
            assert(taken.drop_last() =~= visual.take(v as int));
            assert(taken.last() == cluster@);
            assert(segment_texts(taken).drop_last() =~= segment_texts(visual.take(v as int)));
        }
        let ghost before = segment_models(result@);
        push_rendered_segment(&mut result, cluster.index, cluster.text.as_str());
        proof {
            assert forall|limit: int| #[trigger] within(logical, limit) implies within(
                segment_models(result@),
                limit,
            ) by {
                assert(within(before, limit));
                assert(0 <= logical[order@[v as int] as int].index < limit);
            }
        }
        v = v + 1;
    }
    proof {
        assert(visual.take(v as int) =~= visual);
        let all = segment_texts(logical);
        assert(segment_texts(visual) =~= Seq::new(all.len(), |i: int| all[places[i]]));
        assert(places.no_duplicates());
        crate::canvas::lemma_total_len_permuted(all, places);
        assert(all == crate::strings::texts(texts@));
    }
    result
}

/// Puts the segments into visual order where the terminal does not.
pub fn reorder_bidi_segments_for_terminal(
    segments: Vec<RenderedMixedTextSegment>,
    software_bidi: bool,
) -> (result: Vec<RenderedMixedTextSegment>)
    ensures
        segment_models(result@) == if software_bidi {
            reordered(segment_models(segments@), true)
        } else {
            segment_models(segments@)
        },
        segments_len(segment_models(result@)) == segments_len(segment_models(segments@)),
        forall|limit: int|
            #[trigger] within(segment_models(segments@), limit) ==> within(
                segment_models(result@),
                limit,
            ),
{
    if software_bidi {
        reorder_bidi_segments(segments, true)
    } else {
        segments
    }
}

/// A slice of the segments holds the text that a slice of their text holds.
proof fn lemma_sliced_text(clusters: Seq<SegmentModel>, start: int, end: int)
    ensures
        segments_text(sliced(clusters, start, end)) == crate::text_wrap::sliced(
            segment_texts(clusters),
            start,
            end,
        ),
    decreases clusters.len(),
{
    if clusters.len() > 0 {
        lemma_sliced_text(clusters.drop_last(), start, end);
        assert(segment_texts(clusters).drop_last() =~= segment_texts(clusters.drop_last()));
        lemma_pushed_text(
            sliced(clusters.drop_last(), start, end),
            clusters.last().index,
            clusters.last().text,
        );
    }
}

/// A line with a single content is truncated to the text that a plain line is truncated to.
/// Of two columns or more: in a single column a plain line is always an ellipsis, while a
/// content that fits stays.
pub proof fn lemma_one_content_is_truncated_like_text(
    text: Seq<char>,
    index: int,
    columns: int,
    position: TruncatePosition,
)
    requires
        columns >= 2,
    ensures
        segments_text(truncated(seq![SegmentModel { text, index }], columns, position))
            == crate::text_wrap::truncated(text, columns, position),
{
    let segments = seq![SegmentModel { text, index }];
    let clusters = segment_clusters(segments);
    let width: int = segments_width(segments);
    let ellipsis: Seq<char> = seq![ELLIPSIS];
    let result = truncated(segments, columns, position);
    assert(segments.drop_last() =~= Seq::<SegmentModel>::empty());
    assert(segments_width(segments.drop_last()) == 0);
    assert(width == crate::canvas::display_width(text));
    assert(segment_clusters(segments.drop_last()) =~= Seq::<SegmentModel>::empty());
    assert(segment_texts(clusters) =~= crate::canvas::graphemes(text));
    assert(crate::strings::concat(Seq::<Seq<char>>::empty()) =~= Seq::<char>::empty());
    if width <= columns {
        assert(segment_texts(segments).drop_last() =~= Seq::<Seq<char>>::empty());
        assert(segments_text(segments) =~= text);
    } else {
        match position {
            TruncatePosition::Start => {
                let start: int = width - (columns - 1);
                let first = seq![SegmentModel { text: ellipsis, index: index_at(segments, start) }];
                let rest = sliced(clusters, start, width);
                lemma_sliced_text(clusters, start, width);
                crate::strings::lemma_concat_add(segment_texts(first), segment_texts(rest));
                assert(segment_texts(first).drop_last() =~= Seq::<Seq<char>>::empty());
                assert(segments_text(first) =~= ellipsis);
                assert(segment_texts(result) =~= segment_texts(first) + segment_texts(rest));
            },
            TruncatePosition::Middle => {
                let prefix: int = columns / 2;
                let kept = sliced(clusters, 0, prefix);
                let first = pushed(kept, index_at(segments, prefix), ellipsis);
                let rest = sliced(clusters, width - (columns - prefix - 1), width);
                lemma_sliced_text(clusters, 0, prefix);
                lemma_sliced_text(clusters, width - (columns - prefix - 1), width);
                lemma_pushed_text(kept, index_at(segments, prefix), ellipsis);
                crate::strings::lemma_concat_add(segment_texts(first), segment_texts(rest));
                assert(segment_texts(result) =~= segment_texts(first) + segment_texts(rest));
            },
            TruncatePosition::End => {
                let kept = sliced(clusters, 0, columns - 1);
                lemma_sliced_text(clusters, 0, columns - 1);
                lemma_pushed_text(kept, index_at(segments, columns - 1), ellipsis);
            },
        }
    }
}

/// The characters of the segments, each with the content that it is a part of.
pub open spec fn marks(segments: Seq<SegmentModel>) -> Seq<(char, int)>
    decreases segments.len(),
{
    if segments.len() == 0 {
        Seq::empty()
    } else {
        marks(segments.drop_last()) + marked(segments.last().text, segments.last().index)
    }
}

/// The characters of a text that is a part of one content.
pub open spec fn marked(text: Seq<char>, index: int) -> Seq<(char, int)> {
    Seq::new(text.len(), |i: int| (text[i], index))
}

/// A text that is appended stands behind the segments, as a part of its content.
pub proof fn lemma_pushed_marks(segments: Seq<SegmentModel>, index: int, text: Seq<char>)
    ensures
        marks(pushed(segments, index, text)) == marks(segments) + marked(text, index),
{
    let result = pushed(segments, index, text);
    if text.len() == 0 {
        assert(marks(segments) + marked(text, index) =~= marks(segments));
    } else if segments.len() > 0 && segments.last().index == index {
        assert(result.drop_last() =~= segments.drop_last());
        assert(marks(result) =~= marks(segments) + marked(text, index));
    } else {
        assert(result.drop_last() =~= segments);
    }
}

/// Joining the clusters of one content leaves every character a part of its content.
pub proof fn lemma_regrouped_marks(clusters: Seq<SegmentModel>)
    ensures
        marks(regrouped(clusters)) == marks(clusters),
    decreases clusters.len(),
{
    if clusters.len() > 0 {
        lemma_regrouped_marks(clusters.drop_last());
        lemma_pushed_marks(
            regrouped(clusters.drop_last()),
            clusters.last().index,
            clusters.last().text,
        );
    }
}

proof fn lemma_marks_split(segments: Seq<SegmentModel>)
    requires
        segments.len() > 0,
    ensures
        marks(segments) == marked(segments[0].text, segments[0].index) + marks(segments.skip(1)),
    decreases segments.len(),
{
    if segments.len() == 1 {
        assert(segments.skip(1) =~= Seq::empty());
        assert(segments.drop_last() =~= Seq::empty());
        assert(marks(segments) =~= marked(segments[0].text, segments[0].index) + marks(
            segments.skip(1),
        ));
    } else {
        lemma_marks_split(segments.drop_last());
        assert(segments.drop_last().skip(1) =~= segments.skip(1).drop_last());
        assert(marks(segments) =~= marked(segments[0].text, segments[0].index) + marks(
            segments.skip(1),
        ));
    }
}

/// Trimming the start of segments takes away white space at their start and nothing else; every
/// other character stays a part of its content.
pub proof fn lemma_start_is_trimmed(segments: Seq<SegmentModel>) -> (count: int)
    ensures
        ({
            let all = marks(segments);
            let left = marks(start_trimmed(segments));
            &&& 0 <= count <= all.len()
            &&& left == all.skip(count)
            &&& forall|i: int|
                0 <= i < count ==> crate::whitespace::is_space((#[trigger] all[i]).0)
            &&& left.len() > 0 ==> !crate::whitespace::is_space(left[0].0)
        }),
    decreases segments.len(),
{
    if segments.len() == 0 {
        assert(marks(segments).skip(0) =~= marks(segments));
        0
    } else {
        let first = segments[0];
        let rest = segments.skip(1);
        let all = marks(segments);
        let text = crate::whitespace::trimmed_start(first.text);
        let spaces = crate::whitespace::leading_spaces(first.text);
        crate::whitespace::lemma_leading_spaces(first.text);
        lemma_marks_split(segments);
        if text.len() == 0 {
            let more = lemma_start_is_trimmed(rest);
            let count: int = first.text.len() + more;
            assert(marks(rest).skip(more) =~= all.skip(count));
            assert forall|i: int| 0 <= i < count implies crate::whitespace::is_space(
                (#[trigger] all[i]).0,
            ) by {
                if i < first.text.len() {
                    assert(all[i].0 == first.text[i]);
                } else {
                    assert(all[i] == marks(rest)[i - first.text.len()]);
                }
            }
            count
        } else {
            let left = start_trimmed(segments);
            lemma_marks_split(left);
            assert(left.skip(1) =~= rest);
            assert(marks(left) =~= all.skip(spaces));
            assert forall|i: int| 0 <= i < spaces implies crate::whitespace::is_space(
                (#[trigger] all[i]).0,
            ) by {
                assert(all[i].0 == first.text[i]);
            }
            assert(marks(left)[0].0 == text[0]);
            assert(text[0] == first.text[spaces]);
            spaces
        }
    }
}

/// Trimming the end of segments takes away white space at their end and nothing else; every
/// other character stays a part of its content.
pub proof fn lemma_end_is_trimmed(segments: Seq<SegmentModel>)
    ensures
        ({
            let all = marks(segments);
            let left = marks(end_trimmed(segments));
            &&& left.len() <= all.len()
            &&& left == all.take(left.len() as int)
            &&& forall|i: int|
                left.len() <= i < all.len() ==> crate::whitespace::is_space((#[trigger] all[i]).0)
            &&& left.len() > 0 ==> !crate::whitespace::is_space(left[left.len() - 1].0)
        }),
    decreases segments.len(),
{
    let all = marks(segments);
    if segments.len() == 0 {
        assert(all.take(0) =~= all);
    } else {
        let last = segments.last();
        let before = segments.drop_last();
        let text = crate::whitespace::trimmed_end(last.text);
        crate::whitespace::lemma_trimmed_end_is_prefix(last.text);
        if text.len() == 0 {
            lemma_end_is_trimmed(before);
            let left = marks(end_trimmed(before));
            assert(marks(before).take(left.len() as int) =~= all.take(left.len() as int));
            assert forall|i: int| left.len() <= i < all.len() implies crate::whitespace::is_space(
                (#[trigger] all[i]).0,
            ) by {
                if i < marks(before).len() {
                    assert(all[i] == marks(before)[i]);
                } else {
                    assert(all[i].0 == last.text[i - marks(before).len()]);
                }
            }
        } else {
            let trimmed = end_trimmed(segments);
            assert(trimmed.drop_last() =~= before);
            let left = marks(trimmed);
            assert(left =~= all.take(left.len() as int));
            assert forall|i: int| left.len() <= i < all.len() implies crate::whitespace::is_space(
                (#[trigger] all[i]).0,
            ) by {
                assert(all[i].0 == last.text[i - marks(before).len()]);
            }
            assert(left[left.len() - 1].0 == text[text.len() - 1]);
        }
    }
}

/// The content at a column is that of the segment that covers the column; to the right of all
/// segments it is that of the last one.
pub proof fn lemma_content_at_column(segments: Seq<SegmentModel>, column: int) -> (k: int)
    requires
        segments.len() > 0,
        0 <= column,
    ensures
        0 <= k < segments.len(),
        index_at(segments, column) == segments[k].index,
        segments_width(segments.take(k)) <= column,
        k < segments.len() - 1 ==> column < segments_width(segments.take(k + 1)),
    decreases segments.len(),
{
    let before = segments.drop_last();
    if segments.len() > 1 && column < segments_width(before) {
        let k = lemma_content_at_column(before, column);
        assert(before.take(k) =~= segments.take(k));
        assert(before.take(k + 1) =~= segments.take(k + 1));
        if k == before.len() - 1 {
            assert(segments.take(k + 1) =~= before);
        }
        k
    } else {
        let k: int = segments.len() - 1;
        assert(segments.take(k) =~= before);
        assert(k == 0 ==> segments_width(before) == 0);
        k
    }
}

proof fn lemma_sliced_marks(clusters: Seq<SegmentModel>, start: int, end: int)
    ensures
        ({
            let kept = marks(sliced(clusters, start, end));
            clusters.len() > 0 ==> {
                let column = crate::canvas::column_after(segment_texts(clusters.drop_last()), 0);
                let next = crate::canvas::column_after(segment_texts(clusters), 0);
                let before = marks(sliced(clusters.drop_last(), start, end));
                kept == if start <= column && next <= end && start < next && column < end {
                    before + marked(clusters.last().text, clusters.last().index)
                } else {
                    before
                }
            }
        }),
{
    if clusters.len() > 0 {
        lemma_pushed_marks(
            sliced(clusters.drop_last(), start, end),
            clusters.last().index,
            clusters.last().text,
        );
    }
}

/// The text between two columns of segments is the text between the two columns of their
/// clusters, and every character of it stays a part of its content.
pub proof fn lemma_slice_keeps_contents(clusters: Seq<SegmentModel>, start: int, end: int)
    ensures
        ({
            let kept = marks(sliced(clusters, start, end));
            &&& forall|i: int| 0 <= i < kept.len() ==> marks(clusters).contains(#[trigger] kept[i])
            &&& Seq::new(kept.len(), |i: int| kept[i].0) == crate::text_wrap::sliced(
                segment_texts(clusters),
                start,
                end,
            )
        }),
    decreases clusters.len(),
{
    let kept = marks(sliced(clusters, start, end));
    let shown = crate::text_wrap::sliced(segment_texts(clusters), start, end);
    if clusters.len() > 0 {
        let fewer = clusters.drop_last();
        let before = marks(sliced(fewer, start, end));
        let last = marked(clusters.last().text, clusters.last().index);
        lemma_slice_keeps_contents(fewer, start, end);
        lemma_sliced_marks(clusters, start, end);
        assert(segment_texts(clusters).drop_last() =~= segment_texts(fewer));
        assert(Seq::new(kept.len(), |i: int| kept[i].0) =~= shown) by {
            assert(Seq::new(before.len(), |i: int| before[i].0) == crate::text_wrap::sliced(
                segment_texts(fewer),
                start,
                end,
            ));
            let earlier = crate::text_wrap::sliced(segment_texts(fewer), start, end);
            assert forall|i: int| 0 <= i < before.len() implies before[i].0 == earlier[i] by {
                assert(Seq::new(before.len(), |i: int| before[i].0)[i] == earlier[i]);
            }
        }
        assert forall|i: int| 0 <= i < kept.len() implies marks(clusters).contains(
            #[trigger] kept[i],
        ) by {
            if i < before.len() {
                assert(kept[i] == before[i]);
                let k = choose|k: int|
                    0 <= k < marks(fewer).len() && marks(fewer)[k] == before[i];
                assert(marks(clusters)[k] == kept[i]);
            } else {
                let k: int = marks(fewer).len() + (i - before.len());
                assert(marks(clusters)[k] == kept[i]);
            }
        }
    } else {
        assert(Seq::new(kept.len(), |i: int| kept[i].0) =~= shown);
    }
}

proof fn lemma_marks_add(a: Seq<SegmentModel>, b: Seq<SegmentModel>)
    ensures
        marks(a + b) == marks(a) + marks(b),
    decreases b.len(),
{
    if b.len() == 0 {
        assert(a + b =~= a);
        assert(marks(a) + marks(b) =~= marks(a));
    } else {
        lemma_marks_add(a, b.drop_last());
        assert((a + b).drop_last() =~= a + b.drop_last());
        assert(marks(a + b) =~= marks(a) + marks(b));
    }
}

/// Segments that fit are left as they are. Others are truncated to an ellipsis and what is left
/// of them on one or both of its sides; it is a part of the content at the first column that is
/// cut off at the end or in the middle, and at the first that is kept at the start.
pub proof fn lemma_truncated_segments(segments: Seq<SegmentModel>, columns: int)
    requires
        columns >= 2,
    ensures
        ({
            let clusters = segment_clusters(segments);
            let width = segments_width(segments);
            let half = columns / 2;
            let dots = |column: int| seq![('\u{2026}', index_at(segments, column))];
            let end = truncated(segments, columns, TruncatePosition::End);
            let start = truncated(segments, columns, TruncatePosition::Start);
            let middle = truncated(segments, columns, TruncatePosition::Middle);
            &&& width <= columns ==> end == segments && start == segments && middle == segments
            &&& width > columns ==> {
                &&& marks(end) == marks(sliced(clusters, 0, columns - 1)) + dots(columns - 1)
                &&& marks(start) == dots(width - columns + 1) + marks(
                    sliced(clusters, width - columns + 1, width),
                )
                &&& marks(middle) == marks(sliced(clusters, 0, half)) + dots(half) + marks(
                    sliced(clusters, width - (columns - 1 - half), width),
                )
            }
        }),
{
    let clusters = segment_clusters(segments);
    let width = segments_width(segments);
    let half = columns / 2;
    let ellipsis: Seq<char> = seq![ELLIPSIS];
    if width > columns {
        lemma_pushed_marks(
            sliced(clusters, 0, columns - 1),
            index_at(segments, columns - 1),
            ellipsis,
        );
        let at_end = index_at(segments, columns - 1);
        assert(marked(ellipsis, at_end) =~= seq![('\u{2026}', at_end)]);
        let from = width - columns + 1;
        let at_start = index_at(segments, from);
        let first = seq![SegmentModel { text: ellipsis, index: at_start }];
        lemma_marks_add(first, sliced(clusters, from, width));
        assert(first.drop_last() =~= Seq::empty());
        assert(marked(ellipsis, at_start) =~= seq![('\u{2026}', at_start)]);
        assert(marks(first.drop_last()) =~= Seq::empty());
        assert(first.last().text == ellipsis && first.last().index == at_start);
        assert(marks(first) =~= seq![('\u{2026}', at_start)]);
        let at_half = index_at(segments, half);
        lemma_pushed_marks(sliced(clusters, 0, half), at_half, ellipsis);
        assert(marked(ellipsis, at_half) =~= seq![('\u{2026}', at_half)]);
        lemma_marks_add(
            pushed(sliced(clusters, 0, half), at_half, ellipsis),
            sliced(clusters, width - (columns - half - 1), width),
        );
    }
}

/// Segments that do not fit show nothing in no column, and the ellipsis alone in a single one, as a
/// part of the first content.
pub proof fn lemma_segments_truncated_to_next_to_nothing(
    segments: Seq<SegmentModel>,
    position: TruncatePosition,
)
    ensures
        segments_width(segments) > 0 ==> truncated(segments, 0, position).len() == 0,
        segments_width(segments) > 1 ==> {
            let shown = truncated(segments, 1, position);
            &&& shown.len() == 1
            &&& shown[0].text == seq!['\u{2026}']
            &&& shown[0].index == index_at(segments, 0)
        },
        segments_width(segments) <= 1 ==> truncated(segments, 1, position) == segments,
{
}

/// Segments that are not reordered show every character in its place, as a part of its content.
pub proof fn lemma_logical_order_is_kept(segments: Seq<SegmentModel>)
    ensures
        marks(reordered(segments, false)) == marks(segment_clusters(segments)),
{
    let clusters = segment_clusters(segments);
    let order = crate::bidi::piece_order(segment_texts(clusters), false);
    assert(Seq::new(clusters.len(), |i: int| clusters[order[i]]) =~= clusters);
    lemma_regrouped_marks(clusters);
}

/// Segments that are reordered show the clusters in the order that they are put in, each as a part
/// of its content.
pub proof fn lemma_visual_order_keeps_contents(segments: Seq<SegmentModel>)
    ensures
        ({
            let clusters = segment_clusters(segments);
            let order = crate::bidi::visual_order(
                crate::bidi::piece_levels(segment_texts(clusters)),
            );
            marks(reordered(segments, true)) == marks(
                Seq::new(clusters.len(), |i: int| clusters[order[i]]),
            )
        }),
{
    let clusters = segment_clusters(segments);
    let order = crate::bidi::visual_order(crate::bidi::piece_levels(segment_texts(clusters)));
    let visual = Seq::new(clusters.len(), |i: int| clusters[order[i]]);
    lemma_regrouped_marks(visual);
    assert(visual =~= Seq::new(
        clusters.len(),
        |i: int| clusters[crate::bidi::piece_order(segment_texts(clusters), true)[i]],
    ));
}

} // verus!
