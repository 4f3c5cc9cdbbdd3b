//! Wrapping of text that is made of several segments.
//!
//! Lines break at white space where they can, inside a word where it is longer
//! than a line, and always at a line end. White space that does not fit at the
//! end of a line is dropped.

use crate::canvas::{cluster_display_width, grapheme_clusters};
use crate::strings::chars_of;
use crate::whitespace::is_whitespace;
use vstd::prelude::*;

verus! {

/// A part of a segment.
#[derive(Debug, PartialEq, Eq)]
pub struct StringPiece {
    /// The text of the part.
    pub text: String,
    /// The segment that it is a part of.
    pub index: usize,
    /// The characters of the segment that stand before it.
    pub offset: usize,
}

/// What a [`StringPiece`] holds.
pub struct PieceModel {
    pub text: Seq<char>,
    pub index: int,
    pub offset: int,
}

impl View for StringPiece {
    type V = PieceModel;

    open spec fn view(&self) -> PieceModel {
        PieceModel { text: self.text@, index: self.index as int, offset: self.offset as int }
    }
}

/// What a list of pieces holds.
pub open spec fn piece_models(pieces: Seq<StringPiece>) -> Seq<PieceModel> {
    pieces.map_values(|piece: StringPiece| piece@)
}

/// The texts of the pieces.
pub open spec fn piece_texts(pieces: Seq<PieceModel>) -> Seq<Seq<char>> {
    pieces.map_values(|piece: PieceModel| piece.text)
}

/// The clusters of one segment, as pieces of it.
pub open spec fn segment_clusters(text: Seq<char>, index: int) -> Seq<PieceModel> {
    let clusters: Seq<Seq<char>> = crate::canvas::graphemes(text);
    Seq::new(
        clusters.len(),
        |i: int|
            PieceModel {
                text: clusters[i],
                index,
                offset: crate::canvas::total_len(clusters.take(i)),
            },
    )
}

/// The clusters of all segments.
pub open spec fn all_clusters(segments: Seq<Seq<char>>) -> Seq<PieceModel>
    decreases segments.len(),
{
    if segments.len() == 0 {
        Seq::empty()
    } else {
        all_clusters(segments.drop_last()) + segment_clusters(
            segments.last(),
            segments.len() - 1,
        )
    }
}

/// Whether a cluster ends a line.
pub open spec fn ends_line(cluster: PieceModel) -> bool {
    cluster.text.len() > 0 && cluster.text.last() == '\n'
}

/// Whether a cluster is white space at which a line can break.
pub open spec fn breaks_after(cluster: PieceModel) -> bool {
    cluster.text.len() == 1 && crate::whitespace::is_space(cluster.text[0]) && !ends_line(cluster)
}

/// Where a line ends and where the next one starts.
pub struct LineSpan {
    /// One past the last cluster of the line.
    pub end: int,
    /// The first cluster of the next line.
    pub next: int,
    /// Whether a line end stands between the two.
    pub newline: bool,
}

/// The first cluster from `k` on that is no white space to break at.
pub open spec fn after_spaces(clusters: Seq<PieceModel>, k: int) -> int
    decreases clusters.len() - k,
{
    if 0 <= k < clusters.len() && breaks_after(clusters[k]) {
        after_spaces(clusters, k + 1)
    } else {
        k
    }
}

/// The span of the line that starts at cluster `start`, given that the clusters
/// before `k` fit and reach column `column`, and that the last place to break the
/// line is `place` (the start, if there is none).
pub open spec fn span_from(
    clusters: Seq<PieceModel>,
    width: int,
    start: int,
    k: int,
    column: int,
    place: int,
) -> LineSpan
    decreases clusters.len() - k,
{
    if k < 0 || k >= clusters.len() {
        LineSpan { end: k, next: k, newline: false }
    } else if ends_line(clusters[k]) {
        LineSpan { end: k, next: k + 1, newline: true }
    } else {
        let end: int = column + crate::canvas::cluster_width(clusters[k].text, column);
        if end <= width {
            span_from(
                clusters,
                width,
                start,
                k + 1,
                end,
                if breaks_after(clusters[k]) {
                    k + 1
                } else {
                    place
                },
            )
        } else if breaks_after(clusters[k]) {
            let next: int = after_spaces(clusters, k);
            let newline: bool = next < clusters.len() && ends_line(clusters[next]);
            LineSpan {
                end: k,
                next: if newline {
                    next + 1
                } else {
                    next
                },
                newline,
            }
        } else if place > start {
            LineSpan { end: place, next: place, newline: false }
        } else {
            let end: int = crate::math::max_int(k, start + 1);
            LineSpan { end, next: end, newline: false }
        }
    }
}

/// The span of the line that starts at cluster `start`.
pub open spec fn line_span(clusters: Seq<PieceModel>, width: int, start: int) -> LineSpan {
    span_from(clusters, width, start, start, 0, start)
}

/// Pieces that are next to each other in one segment, joined.
pub open spec fn grouped(clusters: Seq<PieceModel>) -> Seq<PieceModel>
    decreases clusters.len(),
{
    if clusters.len() == 0 {
        Seq::empty()
    } else {
        let before: Seq<PieceModel> = grouped(clusters.drop_last());
        if before.len() > 0 && before.last().index == clusters.last().index {
            before.update(
                before.len() - 1,
                PieceModel { text: before.last().text + clusters.last().text, ..before.last() },
            )
        } else {
            before.push(clusters.last())
        }
    }
}

/// A line: its pieces and its width, white space at its end included.
pub struct LineModel {
    pub segments: Seq<PieceModel>,
    pub width: int,
}

/// The line of the given clusters.
pub open spec fn line_of(clusters: Seq<PieceModel>) -> LineModel {
    LineModel {
        segments: grouped(clusters),
        width: crate::canvas::column_after(piece_texts(clusters), 0),
    }
}

/// Every line ends after it starts, and the next one starts no earlier.
pub proof fn lemma_span_bounds(
    clusters: Seq<PieceModel>,
    width: int,
    start: int,
    k: int,
    column: int,
    place: int,
)
    requires
        0 <= start <= place <= k <= clusters.len(),
        start < clusters.len(),
    ensures
        ({
            let span = span_from(clusters, width, start, k, column, place);
            &&& start <= span.end <= span.next <= clusters.len()
            &&& start < span.next
            &&& forall|i: int|
                span.end <= i < span.next ==> breaks_after(#[trigger] clusters[i]) || ends_line(
                    clusters[i],
                )
        }),
    decreases clusters.len() - k,
{
    if k < clusters.len() && !ends_line(clusters[k]) {
        let end: int = column + crate::canvas::cluster_width(clusters[k].text, column);
        if end <= width {
            lemma_span_bounds(
                clusters,
                width,
                start,
                k + 1,
                end,
                if breaks_after(clusters[k]) {
                    k + 1
                } else {
                    place
                },
            );
        } else if breaks_after(clusters[k]) {
            lemma_after_spaces(clusters, k);
        }
    }
}

proof fn lemma_after_spaces(clusters: Seq<PieceModel>, k: int)
    requires
        0 <= k <= clusters.len(),
    ensures
        k <= after_spaces(clusters, k) <= clusters.len(),
        forall|i: int| k <= i < after_spaces(clusters, k) ==> breaks_after(#[trigger] clusters[i]),
        k < clusters.len() && breaks_after(clusters[k]) ==> k < after_spaces(clusters, k),
    decreases clusters.len() - k,
{
    if k < clusters.len() && breaks_after(clusters[k]) {
        lemma_after_spaces(clusters, k + 1);
    }
}

/// The lines from cluster `start` on. There is always one after a line end, and
/// one where there is no cluster at all.
pub open spec fn lines_from(
    clusters: Seq<PieceModel>,
    width: int,
    start: int,
    after_newline: bool,
) -> Seq<LineModel>
    decreases clusters.len() - start,
{
    if start < 0 || start >= clusters.len() {
        if after_newline {
            seq![line_of(Seq::empty())]
        } else {
            Seq::empty()
        }
    } else {
        proof {
            lemma_span_bounds(clusters, width, start, start, 0, start);
        }
        let span: LineSpan = line_span(clusters, width, start);
        seq![line_of(clusters.subrange(start, span.end))] + lines_from(
            clusters,
            width,
            span.next,
            span.newline,
        )
    }
}

/// The lines that the segments wrap into.
pub open spec fn wrapped(segments: Seq<Seq<char>>, width: int) -> Seq<LineModel> {
    lines_from(all_clusters(segments), width, 0, true)
}

/// Lines start with an empty list where nothing was read: one line for no text.
pub proof fn lemma_no_text_is_one_line(width: int)
    ensures
        wrapped(Seq::empty(), width) == seq![line_of(Seq::empty())],
{
}

/// A line of a wrapped text.
#[derive(Debug, PartialEq, Eq)]
pub struct SegmentedStringLine {
    /// The pieces of the line.
    pub segments: Vec<StringPiece>,
    /// The width of the line, white space at its end included.
    pub width: usize,
}

impl View for SegmentedStringLine {
    type V = LineModel;

    open spec fn view(&self) -> LineModel {
        LineModel { segments: piece_models(self.segments@), width: self.width as int }
    }
}

/// What a list of lines holds.
pub open spec fn line_models(lines: Seq<SegmentedStringLine>) -> Seq<LineModel> {
    lines.map_values(|line: SegmentedStringLine| line@)
}

/// A piece starts inside the segment that it is a part of.
pub open spec fn is_part(piece: StringPiece, segments: Seq<String>) -> bool {
    piece.index < segments.len() && piece.offset <= segments[piece.index as int]@.len()
}

/// The clusters of all segments.
fn collect_clusters(segments: &Vec<String>) -> (clusters: Vec<StringPiece>)
    requires
        crate::canvas::total_len(crate::strings::texts(segments@)) <= usize::MAX,
    ensures
        piece_models(clusters@) == all_clusters(crate::strings::texts(segments@)),
        crate::canvas::total_len(piece_texts(piece_models(clusters@))) == crate::canvas::total_len(
            crate::strings::texts(segments@),
        ),
        clusters@.len() <= crate::canvas::total_len(crate::strings::texts(segments@)),
        forall|i: int|
            0 <= i < clusters@.len() ==> is_part(#[trigger] clusters@[i], segments@),
{
    let ghost all = crate::strings::texts(segments@);
    let mut clusters: Vec<StringPiece> = Vec::new();
    let mut index: usize = 0;
    assert(piece_models(clusters@) =~= all_clusters(all.take(0)));
    assert(piece_texts(piece_models(clusters@)) =~= Seq::empty());
    while index < segments.len()
        invariant
            index <= segments@.len(),
            all == crate::strings::texts(segments@),
            crate::canvas::total_len(all) <= usize::MAX,
            piece_models(clusters@) == all_clusters(all.take(index as int)),
            clusters@.len() <= crate::canvas::total_len(all.take(index as int)),
            forall|i: int|
                0 <= i < clusters@.len() ==> is_part(#[trigger] clusters@[i], segments@),
            crate::canvas::total_len(piece_texts(piece_models(clusters@)))
                == crate::canvas::total_len(all.take(index as int)),
        decreases segments@.len() - index,
    {
        let ghost done = piece_models(clusters@);
        proof {
            assert(all.take(index + 1).drop_last() =~= all.take(index as int));
            assert(all.take(index + 1).last() == segments@[index as int]@);
            crate::canvas::lemma_total_len_prefix(all, index + 1);
            crate::canvas::lemma_total_len_prefix(all, index as int);
        }
        let pieces = grapheme_clusters(segments[index].as_str());
        let ghost texts = crate::strings::texts(pieces@);
        let ghost added = segment_clusters(segments@[index as int]@, index as int);
        proof {
            crate::canvas::lemma_total_len(texts);
            crate::canvas::lemma_total_len_count(texts);
            assert(piece_texts(added) =~= texts);
        }
        let mut offset: usize = 0;
        let mut k: usize = 0;
        while k < pieces.len()
            invariant
                index < segments@.len(),
                k <= pieces@.len(),
                texts == crate::strings::texts(pieces@),
                texts.len() == pieces@.len(),
                texts == crate::canvas::graphemes(segments@[index as int]@),
                added == segment_clusters(segments@[index as int]@, index as int),
                crate::canvas::total_len(texts) <= usize::MAX,
                crate::canvas::total_len(texts) == segments@[index as int]@.len(),
                offset == crate::canvas::total_len(texts.take(k as int)),
                piece_models(clusters@) == done + added.take(k as int),
                forall|i: int|
                    0 <= i < clusters@.len() ==> is_part(#[trigger] clusters@[i], segments@),
            decreases pieces@.len() - k,
        {
            let piece = StringPiece { text: pieces[k].clone(), index, offset };
            proof {
                assert(texts.take(k + 1).drop_last() =~= texts.take(k as int));
                assert(texts.take(k + 1).last() == pieces@[k as int]@);
                crate::canvas::lemma_total_len_prefix(texts, k as int);
                crate::canvas::lemma_total_len_prefix(texts, k + 1);
                assert(texts[k as int] == pieces@[k as int]@);
                assert(piece@ == added[k as int]);
            }
            offset = offset + pieces[k].as_str().unicode_len();
            let ghost before = piece_models(clusters@);
            clusters.push(piece);
            k = k + 1;
            proof {
                assert(piece_models(clusters@) =~= before.push(piece@));
                assert(added.take(k as int) =~= added.take(k - 1).push(added[k - 1]));
                assert(piece_models(clusters@) =~= done + added.take(k as int));
            }
        }
        proof {
            assert(added.take(k as int) =~= added);
            assert(piece_texts(done + added) =~= piece_texts(done) + piece_texts(added));
            crate::canvas::lemma_total_len(piece_texts(done) + piece_texts(added));
            crate::strings::lemma_concat_add(piece_texts(done), piece_texts(added));
            crate::canvas::lemma_total_len(piece_texts(done));
        }
        index = index + 1;
    }
    assert(all.take(index as int) =~= all);
    clusters
}

/// Whether a cluster ends a line.
fn is_line_end(cluster: &StringPiece) -> (r: bool)
    ensures
        r == ends_line(cluster@),
{
    let chars = chars_of(cluster.text.as_str());
    chars.len() > 0 && chars[chars.len() - 1] == '\n'
}

/// Whether a cluster is white space at which a line can break.
fn is_break(cluster: &StringPiece) -> (r: bool)
    ensures
        r == breaks_after(cluster@),
{
    let chars = chars_of(cluster.text.as_str());
    chars.len() == 1 && is_whitespace(chars[0]) && chars[0] != '\n'
}

/// Finds where the line that starts at a cluster ends, where the next one starts,
/// and whether a line end stands between the two.
fn find_line_span(clusters: &Vec<StringPiece>, width: usize, start: usize) -> (span: (
    usize,
    usize,
    bool,
))
    requires
        start < clusters@.len(),
        crate::canvas::countable(
            crate::canvas::total_len(piece_texts(piece_models(clusters@))),
            0,
        ),
    ensures
        ({
            let model = line_span(piece_models(clusters@), width as int, start as int);
            &&& span.0 == model.end
            &&& span.1 == model.next
            &&& span.2 == model.newline
        }),
        start <= span.0 <= span.1 <= clusters@.len(),
        start < span.1,
{
    let ghost models = piece_models(clusters@);
    let ghost texts = piece_texts(models);
    proof {
        lemma_span_bounds(models, width as int, start as int, start as int, 0, start as int);
        crate::canvas::lemma_total_len_prefix(texts, start as int);
    }
    let mut k: usize = start;
    let mut column: usize = 0;
    let mut place: usize = start;
    while k < clusters.len()
        invariant
            start <= place <= k <= clusters@.len(),
            start < clusters@.len(),
            models == piece_models(clusters@),
            texts == piece_texts(models),
            crate::canvas::countable(crate::canvas::total_len(texts), 0),
            0 <= column <= 8 * crate::canvas::total_len(texts.take(k as int)),
            line_span(models, width as int, start as int) == span_from(
                models,
                width as int,
                start as int,
                k as int,
                column as int,
                place as int,
            ),
            ({
                let model = line_span(models, width as int, start as int);
                start <= model.end <= model.next <= clusters@.len() && start < model.next
            }),
        decreases clusters@.len() - k,
    {
        let cluster = &clusters[k];
        proof {
            assert(models[k as int] == cluster@);
            assert(texts.take(k + 1).drop_last() =~= texts.take(k as int));
            assert(texts.take(k + 1).last() == cluster@.text);
            crate::canvas::lemma_total_len_prefix(texts, k + 1);
            crate::canvas::lemma_total_len_prefix(texts, k as int);
        }
        if is_line_end(cluster) {
            return (k, k + 1, true);
        }
        let end: usize = column + cluster_display_width(cluster.text.as_str(), column);
        if end <= width {
            column = end;
            if is_break(cluster) {
                place = k + 1;
            }
            k = k + 1;
        } else if is_break(cluster) {
            let mut next: usize = k;
            while next < clusters.len() && is_break(&clusters[next])
                invariant
                    k <= next <= clusters@.len(),
                    models == piece_models(clusters@),
                    after_spaces(models, k as int) == after_spaces(models, next as int),
                decreases clusters@.len() - next,
            {
                assert(models[next as int] == clusters@[next as int]@);
                next = next + 1;
            }
            if next < clusters.len() {
                assert(models[next as int] == clusters@[next as int]@);
                if is_line_end(&clusters[next]) {
                    return (k, next + 1, true);
                }
            }
            return (k, next, false);
        } else if place > start {
            return (place, place, false);
        } else {
            let end: usize = if k > start {
                k
            } else {
                start + 1
            };
            return (end, end, false);
        }
    }
    (k, k, false)
}

/// Appends a part of a segment, joined to the last one where both belong to the
/// same segment.
pub fn push_piece(pieces: &mut Vec<StringPiece>, text: &str, index: usize, offset: usize)
    ensures
        ({
            let before = piece_models(old(pieces)@);
            let added = PieceModel { text: text@, index: index as int, offset: offset as int };
            piece_models(final(pieces)@) == if before.len() > 0 && before.last().index == index {
                before.update(
                    before.len() - 1,
                    PieceModel { text: before.last().text + text@, ..before.last() },
                )
            } else {
                before.push(added)
            }
        }),
        crate::canvas::total_len(piece_texts(piece_models(final(pieces)@)))
            == crate::canvas::total_len(piece_texts(piece_models(old(pieces)@))) + text@.len(),
        final(pieces)@.len() >= 1,
        forall|i: int|
            0 <= i < final(pieces)@.len() ==> {
                ||| (#[trigger] final(pieces)@[i]).index == index && final(pieces)@[i].offset
                    == offset
                ||| i < old(pieces)@.len() && final(pieces)@[i].index == old(pieces)@[i].index
                    && final(pieces)@[i].offset == old(pieces)@[i].offset
            },
{
    let ghost before = piece_models(pieces@);
    let count: usize = pieces.len();
    if count > 0 && pieces[count - 1].index == index {
        let mut last = pieces.pop().unwrap();
        assert(before.last() == last@);
        last.text.append(text);
        pieces.push(last);
        assert(piece_models(pieces@) =~= before.update(
            before.len() - 1,
            PieceModel { text: before.last().text + text@, ..before.last() },
        ));
        proof {
            let after = piece_texts(piece_models(pieces@));
            assert(after.drop_last() =~= piece_texts(before).drop_last());
        }
    } else {
        assert(count > 0 ==> before.last() == pieces@.last()@);
        let piece = StringPiece { text: text.to_owned(), index, offset };
        pieces.push(piece);
        assert(piece_models(pieces@) =~= before.push(piece@));
        proof {
            let after = piece_texts(piece_models(pieces@));
            assert(after.drop_last() =~= piece_texts(before));
        }
    }
}

/// A piece starts where one of the clusters does.
pub open spec fn starts_at_one(piece: StringPiece, clusters: Seq<StringPiece>) -> bool {
    exists|j: int|
        0 <= j < clusters.len() && (#[trigger] clusters[j]).index == piece.index
            && clusters[j].offset == piece.offset
}

/// Makes a line of the clusters `start..end`.
fn make_line(clusters: &Vec<StringPiece>, start: usize, end: usize) -> (line: SegmentedStringLine)
    requires
        start <= end <= clusters@.len(),
        crate::canvas::countable(
            crate::canvas::total_len(piece_texts(piece_models(clusters@))),
            0,
        ),
    ensures
        line@ == line_of(piece_models(clusters@).subrange(start as int, end as int)),
        line.width <= 8 * crate::canvas::total_len(piece_texts(piece_models(clusters@))),
        crate::canvas::total_len(piece_texts(line@.segments)) == crate::canvas::total_len(
            piece_texts(piece_models(clusters@)).take(end as int),
        ) - crate::canvas::total_len(piece_texts(piece_models(clusters@)).take(start as int)),
        forall|i: int|
            0 <= i < line.segments@.len() ==> starts_at_one(
                #[trigger] line.segments@[i],
                clusters@,
            ),
{
    let ghost models = piece_models(clusters@);
    let ghost texts = piece_texts(models);
    let mut segments: Vec<StringPiece> = Vec::new();
    let mut width: usize = 0;
    let mut k: usize = start;
    assert(piece_models(segments@) =~= grouped(models.subrange(start as int, start as int)));
    assert(piece_texts(piece_models(segments@)) =~= Seq::empty());
    assert(piece_texts(models.subrange(start as int, start as int)) =~= Seq::empty());
    proof {
        crate::canvas::lemma_total_len_prefix(texts, start as int);
    }
    while k < end
        invariant
            start <= k <= end <= clusters@.len(),
            models == piece_models(clusters@),
            texts == piece_texts(models),
            crate::canvas::countable(crate::canvas::total_len(texts), 0),
            piece_models(segments@) == grouped(models.subrange(start as int, k as int)),
            width == crate::canvas::column_after(
                piece_texts(models.subrange(start as int, k as int)),
                0,
            ),
            0 <= width <= 8 * crate::canvas::total_len(texts.take(k as int)),
            crate::canvas::total_len(piece_texts(piece_models(segments@)))
                == crate::canvas::total_len(texts.take(k as int)) - crate::canvas::total_len(
                texts.take(start as int),
            ),
            forall|i: int|
                0 <= i < segments@.len() ==> starts_at_one(#[trigger] segments@[i], clusters@),
        decreases end - k,
    {
        let cluster = &clusters[k];
        proof {
            let taken = models.subrange(start as int, k + 1);
            assert(models[k as int] == cluster@);
            assert(taken.drop_last() =~= models.subrange(start as int, k as int));
            assert(taken.last() == cluster@);
            assert(piece_texts(taken).drop_last() =~= piece_texts(
                models.subrange(start as int, k as int),
            ));
            assert(texts.take(k + 1).drop_last() =~= texts.take(k as int));
            assert(texts.take(k + 1).last() == cluster@.text);
            crate::canvas::lemma_total_len_prefix(texts, k + 1);
        }
        width = width + cluster_display_width(cluster.text.as_str(), width);
        let ghost before = segments@;
        push_piece(&mut segments, cluster.text.as_str(), cluster.index, cluster.offset);
        proof {
            assert forall|i: int| 0 <= i < segments@.len() implies starts_at_one(
                #[trigger] segments@[i],
                clusters@,
            ) by {
                if segments@[i].index == cluster.index && segments@[i].offset == cluster.offset {
                    assert(clusters@[k as int] == *cluster);
                } else {
                    assert(starts_at_one(before[i], clusters@));
                }
            }
        }
        k = k + 1;
    }
    proof {
        crate::canvas::lemma_total_len_prefix(texts, k as int);
        crate::canvas::lemma_total_len_prefix(texts, start as int);
    }
    SegmentedStringLine { segments, width }
}

/// The total length of the texts of the lines.
pub open spec fn lines_len(lines: Seq<LineModel>) -> int
    decreases lines.len(),
{
    if lines.len() == 0 {
        0
    } else {
        lines_len(lines.drop_last()) + crate::canvas::total_len(
            piece_texts(lines.last().segments),
        )
    }
}

/// A line is no longer than the text, and its pieces are parts of the segments.
pub open spec fn line_in_bounds(line: SegmentedStringLine, segments: Seq<String>) -> bool {
    let length: int = crate::canvas::total_len(crate::strings::texts(segments));
    &&& line.width <= 8 * length
    &&& crate::canvas::total_len(piece_texts(line@.segments)) <= length
    &&& forall|i: int|
        0 <= i < line.segments@.len() ==> is_part(#[trigger] line.segments@[i], segments)
}

/// Wraps the segments into lines of at most `width` columns.
pub fn wrap_segments(segments: &Vec<String>, width: usize) -> (lines: Vec<SegmentedStringLine>)
    requires
        crate::canvas::countable(
            crate::canvas::total_len(crate::strings::texts(segments@)),
            0,
        ),
    ensures
        line_models(lines@) == wrapped(crate::strings::texts(segments@), width as int),
        1 <= lines@.len() <= crate::canvas::total_len(crate::strings::texts(segments@)) + 1,
        lines_len(line_models(lines@)) <= crate::canvas::total_len(
            crate::strings::texts(segments@),
        ),
        forall|i: int| 0 <= i < lines@.len() ==> line_in_bounds(#[trigger] lines@[i], segments@),
{
    let clusters = collect_clusters(segments);
    let ghost models = piece_models(clusters@);
    let ghost all = wrapped(crate::strings::texts(segments@), width as int);
    let mut lines: Vec<SegmentedStringLine> = Vec::new();
    let mut start: usize = 0;
    let mut after_newline = true;
    assert(line_models(lines@) + all =~= all);
    while start < clusters.len()
        invariant
            start <= clusters@.len(),
            models == piece_models(clusters@),
            crate::canvas::countable(crate::canvas::total_len(piece_texts(models)), 0),
            line_models(lines@) + lines_from(models, width as int, start as int, after_newline)
                == all,
            lines@.len() <= start,
            after_newline || lines@.len() >= 1,
            lines_len(line_models(lines@)) <= crate::canvas::total_len(
                piece_texts(models).take(start as int),
            ),
            crate::canvas::total_len(piece_texts(models)) == crate::canvas::total_len(
                crate::strings::texts(segments@),
            ),
            forall|i: int|
                0 <= i < clusters@.len() ==> is_part(#[trigger] clusters@[i], segments@),
            forall|i: int| 0 <= i < lines@.len() ==> line_in_bounds(#[trigger] lines@[i], segments@),
        decreases clusters@.len() - start,
    {
        let span = find_line_span(&clusters, width, start);
        let line = make_line(&clusters, start, span.0);
        let ghost before = line_models(lines@);
        lines.push(line);
        proof {
            let texts = piece_texts(models);
            assert(line_models(lines@) =~= before.push(line@));
            assert(before.push(line@).drop_last() =~= before);
            crate::canvas::lemma_total_len_prefix(texts, start as int);
            crate::canvas::lemma_total_len_prefix(texts, span.0 as int);
            crate::canvas::lemma_total_len_prefix(texts.take(span.1 as int), span.0 as int);
            assert(texts.take(span.1 as int).take(span.0 as int) =~= texts.take(span.0 as int));
            let rest = lines_from(models, width as int, span.1 as int, span.2);
            assert(before + (seq![line@] + rest) =~= before.push(line@) + rest);
        }
        start = span.1;
        after_newline = span.2;
    }
    if after_newline {
        let line = make_line(&clusters, start, start);
        let ghost before = line_models(lines@);
        lines.push(line);
        proof {
            assert(line_models(lines@) =~= before.push(line@));
            assert(before.push(line@).drop_last() =~= before);
            assert(models.subrange(start as int, start as int) =~= Seq::empty());
            assert(before + seq![line@] =~= before.push(line@));
        }
    } else {
        assert(line_models(lines@) + Seq::empty() =~= line_models(lines@));
    }
    proof {
        assert(piece_texts(models).take(start as int) =~= piece_texts(models));
    }
    lines
}

/// Wrapping drops nothing but white space and line ends: what stands between the
/// end of a line and the start of the next is nothing else.
pub proof fn lemma_wrapping_drops_only_space(clusters: Seq<PieceModel>, width: int, start: int)
    requires
        0 <= start < clusters.len(),
    ensures
        ({
            let span = line_span(clusters, width, start);
            &&& start <= span.end <= span.next <= clusters.len()
            &&& start < span.next
            &&& forall|i: int|
                span.end <= i < span.next ==> breaks_after(#[trigger] clusters[i]) || ends_line(
                    clusters[i],
                )
        }),
{
    lemma_span_bounds(clusters, width, start, start, 0, start);
}

proof fn lemma_span_fits(
    clusters: Seq<PieceModel>,
    width: int,
    start: int,
    k: int,
    column: int,
    place: int,
)
    requires
        0 <= start <= place <= k <= clusters.len(),
        start < clusters.len(),
        0 <= width,
        column == crate::canvas::column_after(piece_texts(clusters.subrange(start, k)), 0),
        column <= width,
        crate::canvas::column_after(piece_texts(clusters.subrange(start, place)), 0) <= width,
    ensures
        ({
            let span = span_from(clusters, width, start, k, column, place);
            span.end == start + 1 || crate::canvas::column_after(
                piece_texts(clusters.subrange(start, span.end)),
                0,
            ) <= width
        }),
    decreases clusters.len() - k,
{
    if k < clusters.len() && !ends_line(clusters[k]) {
        let end: int = column + crate::canvas::cluster_width(clusters[k].text, column);
        let taken = clusters.subrange(start, k + 1);
        assert(taken.drop_last() =~= clusters.subrange(start, k));
        assert(piece_texts(taken).drop_last() =~= piece_texts(clusters.subrange(start, k)));
        if end <= width {
            lemma_span_fits(
                clusters,
                width,
                start,
                k + 1,
                end,
                if breaks_after(clusters[k]) {
                    k + 1
                } else {
                    place
                },
            );
        }
    }
}

/// Every line fits into the width, unless it is a single cluster that is wider.
pub proof fn lemma_lines_fit(clusters: Seq<PieceModel>, width: int, start: int)
    requires
        0 <= start < clusters.len(),
        0 <= width,
    ensures
        ({
            let span = line_span(clusters, width, start);
            span.end == start + 1 || line_of(clusters.subrange(start, span.end)).width <= width
        }),
{
    assert(piece_texts(clusters.subrange(start, start)) =~= Seq::empty());
    lemma_span_fits(clusters, width, start, start, 0, start);
}

/// Whether a cluster is a line end.
pub open spec fn is_end_text(cluster: Seq<char>) -> bool {
    cluster.len() > 0 && cluster[cluster.len() - 1] == '\n'
}

/// Whether a cluster is one character of white space, and no line end.
pub open spec fn is_blank_text(cluster: Seq<char>) -> bool {
    cluster.len() == 1 && cluster[0] != '\n' && crate::whitespace::is_space(cluster[0])
}

/// The columns that the clusters from one to another take up on a line of their own.
pub open spec fn columns_of(clusters: Seq<PieceModel>, start: int, end: int) -> int {
    crate::canvas::column_after(piece_texts(clusters.subrange(start, end)), 0)
}

/// Whether no cluster from one to another is a line end.
pub open spec fn is_one_line(clusters: Seq<PieceModel>, start: int, end: int) -> bool {
    forall|k: int| start <= k < end ==> !is_end_text((#[trigger] clusters[k]).text)
}

/// Whether a word ends before a cluster: there white space, a line end or nothing follows.
pub open spec fn word_ends(clusters: Seq<PieceModel>, k: int) -> bool {
    k == clusters.len() || is_blank_text(clusters[k].text) || is_end_text(clusters[k].text)
}

/// Whether a line may reach from `start` to `end` and the next one start at `next`, with a
/// line end between the two or without one.
///
/// The line fits into the width, unless it is a single cluster. It ends at each line end.
/// White space is dropped where it does not fit, and then all of it, with the line end behind it
/// if there is one. No longer line with
/// whole words fits. A word is broken only where there is no white space on the line to break
/// it at, and only where not one cluster more would fit.
pub open spec fn breaks_well(
    clusters: Seq<PieceModel>,
    width: int,
    start: int,
    end: int,
    next: int,
    newline: bool,
) -> bool {
    &&& start <= end <= next <= clusters.len()
    &&& start < next
    &&& end == start + 1 || columns_of(clusters, start, end) <= width
    &&& is_one_line(clusters, start, end)
    &&& newline == (end < next && is_end_text(clusters[next - 1].text))
    &&& forall|k: int|
        end <= k < next && !(newline && k == next - 1) ==> is_blank_text(
            (#[trigger] clusters[k]).text,
        )
    &&& end < next && is_blank_text(clusters[end].text) ==> {
        &&& columns_of(clusters, start, end + 1) > width
        &&& newline || next == clusters.len() || !word_ends(clusters, next)
    }
    &&& forall|longer: int|
        #![trigger columns_of(clusters, start, longer)]
        end < longer <= clusters.len() && is_one_line(clusters, start, longer) && word_ends(
            clusters,
            longer,
        ) ==> columns_of(clusters, start, longer) > width
    &&& end == next && end < clusters.len() && !is_blank_text(clusters[end - 1].text) ==> {
        &&& forall|k: int| start <= k < end ==> !is_blank_text((#[trigger] clusters[k]).text)
        &&& columns_of(clusters, start, end + 1) > width || (end == start + 1 && columns_of(
            clusters,
            start,
            end,
        ) > width)
    }
}

proof fn lemma_columns_grow(clusters: Seq<PieceModel>, start: int, end: int, longer: int)
    requires
        0 <= start <= end <= longer <= clusters.len(),
    ensures
        0 <= columns_of(clusters, start, end) <= columns_of(clusters, start, longer),
    decreases longer - end,
{
    crate::canvas::lemma_width_is_positive(piece_texts(clusters.subrange(start, end)), 0);
    if end < longer {
        lemma_columns_grow(clusters, start, end, longer - 1);
        let all = clusters.subrange(start, longer);
        assert(piece_texts(all).drop_last() =~= piece_texts(clusters.subrange(start, longer - 1)));
        crate::canvas::lemma_width_is_positive(piece_texts(all), 0);
        let before = crate::canvas::column_after(piece_texts(all).drop_last(), 0);
        assert(crate::canvas::cluster_width(piece_texts(all).last(), before) >= 0);
    }
}

proof fn lemma_span_breaks_well(
    clusters: Seq<PieceModel>,
    width: int,
    start: int,
    k: int,
    column: int,
    place: int,
)
    requires
        0 <= start <= place <= k <= clusters.len(),
        start < clusters.len(),
        0 <= width,
        column == columns_of(clusters, start, k),
        column <= width,
        is_one_line(clusters, start, k),
        place > start ==> is_blank_text(clusters[place - 1].text),
        forall|j: int| place <= j < k ==> !is_blank_text((#[trigger] clusters[j]).text),
    ensures
        ({
            let span = span_from(clusters, width, start, k, column, place);
            breaks_well(clusters, width, start, span.end, span.next, span.newline)
        }),
    decreases clusters.len() - k,
{
    let span = span_from(clusters, width, start, k, column, place);
    if k < clusters.len() && !ends_line(clusters[k]) {
        let end: int = column + crate::canvas::cluster_width(clusters[k].text, column);
        let taken = clusters.subrange(start, k + 1);
        assert(piece_texts(taken).drop_last() =~= piece_texts(clusters.subrange(start, k)));
        assert(columns_of(clusters, start, k + 1) == end);
        if end <= width {
            lemma_span_breaks_well(
                clusters,
                width,
                start,
                k + 1,
                end,
                if breaks_after(clusters[k]) {
                    k + 1
                } else {
                    place
                },
            );
        } else {
            assert forall|longer: int| k < longer <= clusters.len() implies #[trigger] columns_of(
                clusters,
                start,
                longer,
            ) > width by {
                lemma_columns_grow(clusters, start, k + 1, longer);
            }
            if breaks_after(clusters[k]) {
                lemma_after_spaces(clusters, k);
                lemma_spaces_end(clusters, k);
            } else if place > start {
                lemma_columns_grow(clusters, start, place, k);
                assert forall|longer: int|
                    #![trigger columns_of(clusters, start, longer)]
                    place < longer <= clusters.len() && is_one_line(clusters, start, longer)
                        && word_ends(clusters, longer) implies columns_of(clusters, start, longer)
                    > width by {
                    if longer <= k {
                        assert(!is_blank_text(clusters[longer].text));
                        assert(is_end_text(clusters[longer].text));
                    }
                }
            }
        }
    }
}

proof fn lemma_spaces_end(clusters: Seq<PieceModel>, k: int)
    requires
        0 <= k <= clusters.len(),
    ensures
        after_spaces(clusters, k) < clusters.len() ==> !breaks_after(
            clusters[after_spaces(clusters, k)],
        ),
    decreases clusters.len() - k,
{
    if k < clusters.len() && breaks_after(clusters[k]) {
        lemma_spaces_end(clusters, k + 1);
    }
}

/// Every line of a wrapped text breaks well, wherever it starts.
pub proof fn lemma_lines_break_well(clusters: Seq<PieceModel>, width: int, start: int)
    requires
        0 <= start < clusters.len(),
        0 <= width,
    ensures
        ({
            let span = line_span(clusters, width, start);
            breaks_well(clusters, width, start, span.end, span.next, span.newline)
        }),
{
    assert(piece_texts(clusters.subrange(start, start)) =~= Seq::empty());
    lemma_span_breaks_well(clusters, width, start, start, 0, start);
}

/// A word is broken only where it does not fit on a line of its own: where neither the last
/// cluster of a line nor the first of the next is white space or a line end, there is no white
/// space on the line.
pub proof fn lemma_words_are_broken_only_where_they_must(
    clusters: Seq<PieceModel>,
    width: int,
    start: int,
)
    requires
        0 <= start < clusters.len(),
        0 <= width,
    ensures
        ({
            let span = line_span(clusters, width, start);
            span.next == span.end && span.end < clusters.len() && !is_blank_text(
                clusters[span.end - 1].text,
            ) && !word_ends(clusters, span.end) ==> forall|k: int|
                start <= k < span.end ==> !is_blank_text((#[trigger] clusters[k]).text)
        }),
{
    lemma_lines_break_well(clusters, width, start);
}

/// The characters of the pieces, each with the segment that it is a part of.
pub open spec fn piece_marks(pieces: Seq<PieceModel>) -> Seq<(char, int)>
    decreases pieces.len(),
{
    if pieces.len() == 0 {
        Seq::empty()
    } else {
        piece_marks(pieces.drop_last()) + pieces.last().text.map_values(
            |c: char| (c, pieces.last().index),
        )
    }
}

/// Joining pieces of one segment leaves every character a part of its segment.
pub proof fn lemma_grouped_keeps_marks(clusters: Seq<PieceModel>)
    ensures
        piece_marks(grouped(clusters)) == piece_marks(clusters),
    decreases clusters.len(),
{
    if clusters.len() > 0 {
        let before = grouped(clusters.drop_last());
        let after = grouped(clusters);
        let last = clusters.last();
        lemma_grouped_keeps_marks(clusters.drop_last());
        if before.len() > 0 && before.last().index == last.index {
            assert(after.drop_last() =~= before.drop_last());
            assert(piece_marks(after) =~= piece_marks(before) + last.text.map_values(
                |c: char| (c, last.index),
            ));
        } else {
            assert(after.drop_last() =~= before);
        }
        assert(piece_marks(after) =~= piece_marks(clusters));
    }
}

/// Whether the clusters are shown in the lines, of which the one with number `i` shows the
/// clusters from `cuts[i].0` to `cuts[i].1`: the first starts with the first cluster, each
/// breaks well, and a line end at the end of the text has an empty line behind it.
pub open spec fn is_wrapping(
    clusters: Seq<PieceModel>,
    width: int,
    lines: Seq<LineModel>,
    start: int,
    cuts: Seq<(int, int)>,
) -> bool {
    &&& cuts.len() == lines.len()
    &&& cuts.len() > 0 ==> cuts[0].0 == start
    &&& forall|i: int|
        0 <= i < cuts.len() ==> {
            let (from, to): (int, int) = #[trigger] cuts[i];
            let next: int = if i + 1 < cuts.len() {
                cuts[i + 1].0
            } else {
                clusters.len() as int
            };
            let newline = from < next && is_end_text(clusters[next - 1].text);
            &&& 0 <= from <= to <= clusters.len()
            &&& crate::strings::concat(piece_texts(lines[i].segments)) == crate::strings::concat(
                piece_texts(clusters.subrange(from, to)),
            )
            &&& piece_marks(lines[i].segments) == piece_marks(clusters.subrange(from, to))
            &&& lines[i].width == columns_of(clusters, from, to)
            &&& from < clusters.len() ==> breaks_well(clusters, width, from, to, next, newline)
            &&& from == clusters.len() ==> i + 1 == cuts.len()
            &&& newline ==> i + 1 < cuts.len()
        }
}

proof fn lemma_grouped_keeps_text(clusters: Seq<PieceModel>)
    ensures
        crate::strings::concat(piece_texts(grouped(clusters))) == crate::strings::concat(
            piece_texts(clusters),
        ),
    decreases clusters.len(),
{
    if clusters.len() > 0 {
        let before = grouped(clusters.drop_last());
        let after = grouped(clusters);
        lemma_grouped_keeps_text(clusters.drop_last());
        assert(piece_texts(clusters).drop_last() =~= piece_texts(clusters.drop_last()));
        if before.len() > 0 && before.last().index == clusters.last().index {
            assert(piece_texts(after).drop_last() =~= piece_texts(before).drop_last());
            assert(crate::strings::concat(piece_texts(after)) =~= crate::strings::concat(
                piece_texts(before),
            ) + clusters.last().text);
        } else {
            assert(piece_texts(after).drop_last() =~= piece_texts(before));
        }
    } else {
        assert(piece_texts(grouped(clusters)) =~= piece_texts(clusters));
    }
}

/// The lines from a cluster on are those of the clusters between the cuts that are found, and
/// every one of them breaks well.
pub proof fn lemma_lines_wrap(
    clusters: Seq<PieceModel>,
    width: int,
    start: int,
    after_newline: bool,
) -> (cuts: Seq<(int, int)>)
    requires
        0 <= width,
        0 <= start <= clusters.len(),
    ensures
        is_wrapping(clusters, width, lines_from(clusters, width, start, after_newline), start, cuts),
        start < clusters.len() || after_newline ==> cuts.len() > 0,
        start == clusters.len() && !after_newline ==> cuts.len() == 0,
        forall|i: int|
            0 <= i < cuts.len() ==> lines_from(clusters, width, start, after_newline)[i]
                == line_of(clusters.subrange((#[trigger] cuts[i]).0, cuts[i].1)),
    decreases clusters.len() - start,
{
    let lines = lines_from(clusters, width, start, after_newline);
    if start == clusters.len() {
        if after_newline {
            assert(clusters.subrange(start, start) =~= Seq::empty());
            assert(piece_texts(lines[0].segments) =~= piece_texts(Seq::empty()));
            assert(lines[0].segments =~= Seq::empty());
            seq![(start, start)]
        } else {
            Seq::empty()
        }
    } else {
        let span = line_span(clusters, width, start);
        lemma_lines_break_well(clusters, width, start);
        let rest = lemma_lines_wrap(clusters, width, span.next, span.newline);
        let cuts = seq![(start, span.end)] + rest;
        let others = lines_from(clusters, width, span.next, span.newline);
        lemma_grouped_keeps_text(clusters.subrange(start, span.end));
        lemma_grouped_keeps_marks(clusters.subrange(start, span.end));
        assert(lines[0] == line_of(clusters.subrange(start, span.end)));
        assert forall|i: int| 0 <= i < cuts.len() implies {
            let (from, to): (int, int) = #[trigger] cuts[i];
            let next: int = if i + 1 < cuts.len() {
                cuts[i + 1].0
            } else {
                clusters.len() as int
            };
            let newline = from < next && is_end_text(clusters[next - 1].text);
            &&& 0 <= from <= to <= clusters.len()
            &&& crate::strings::concat(piece_texts(lines[i].segments)) == crate::strings::concat(
                piece_texts(clusters.subrange(from, to)),
            )
            &&& piece_marks(lines[i].segments) == piece_marks(clusters.subrange(from, to))
            &&& lines[i].width == columns_of(clusters, from, to)
            &&& from < clusters.len() ==> breaks_well(clusters, width, from, to, next, newline)
            &&& from == clusters.len() ==> i + 1 == cuts.len()
            &&& newline ==> i + 1 < cuts.len()
            &&& lines[i] == line_of(clusters.subrange(from, to))
        } by {
            if i > 0 {
                assert(cuts[i] == rest[i - 1]);
                assert(lines[i] == others[i - 1]);
                if i + 1 < cuts.len() {
                    assert(cuts[i + 1] == rest[i]);
                }
            } else {
                if rest.len() > 0 {
                    assert(cuts[1] == rest[0]);
                }
                if span.end == span.next && !span.newline {
                    assert(!is_end_text(clusters[span.next - 1].text));
                } else {
                    assert(span.newline == is_end_text(clusters[span.next - 1].text));
                }
            }
        }
        cuts
    }
}

/// Segments are wrapped from their first cluster on, line by line, and every line breaks well.
pub proof fn lemma_segments_wrap_well(segments: Seq<Seq<char>>, width: int)
    requires
        0 <= width,
    ensures
        wrapped(segments, width).len() > 0,
        exists|cuts: Seq<(int, int)>|
            is_wrapping(all_clusters(segments), width, wrapped(segments, width), 0, cuts),
{
    let cuts = lemma_lines_wrap(all_clusters(segments), width, 0, true);
    assert(is_wrapping(all_clusters(segments), width, wrapped(segments, width), 0, cuts));
}

/// The clusters of the segments are those of each segment, in order: each is marked with the
/// segment that it is a part of, and with the characters of that segment that stand before it.
pub proof fn lemma_clusters_of_segments(segments: Seq<Seq<char>>, index: int, i: int) -> (at: int)
    requires
        0 <= index < segments.len(),
        0 <= i < crate::canvas::graphemes(segments[index]).len(),
    ensures
        ({
            let clusters = all_clusters(segments);
            let own = crate::canvas::graphemes(segments[index]);
            &&& i <= at < clusters.len()
            &&& index == 0 ==> at == i
            &&& clusters[at].text == own[i]
            &&& clusters[at].index == index
            &&& clusters[at].offset == crate::canvas::total_len(own.take(i))
        }),
    decreases segments.len(),
{
    let before = segments.drop_last();
    let earlier = all_clusters(before);
    if index == segments.len() - 1 {
        if index == 0 {
            assert(earlier.len() == 0);
        }
        let at: int = earlier.len() + i;
        assert(all_clusters(segments)[at] == segment_clusters(segments.last(), index)[i]);
        at
    } else {
        assert(before[index] == segments[index]);
        let at = lemma_clusters_of_segments(before, index, i);
        assert(all_clusters(segments)[at] == earlier[at]);
        at
    }
}

} // verus!
