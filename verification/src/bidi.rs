//! Visual order of right-to-left text, for terminals that do not reorder it.

use crate::canvas::grapheme_clusters;
use vstd::prelude::*;

verus! {

/// The embedding level of each byte of a text.
pub uninterp spec fn embedding_levels(text: Seq<char>) -> Seq<u8>;

/// The logical index that stands at each visual place, for items with the given
/// embedding levels.
pub uninterp spec fn visual_order(levels: Seq<u8>) -> Seq<int>;

/// The largest embedding level.
pub const MAX_LEVEL: u8 = 126;

/// `unicode_bidi::BidiInfo::new` without a default paragraph level: the embedding
/// levels that it resolves, one for each byte of the text. A level is never above
/// [`MAX_LEVEL`].
#[verifier::external_body]
pub(crate) fn resolve_levels(text: &str) -> (levels: Vec<u8>)
    ensures
        levels@ == embedding_levels(text@),
        levels@.len() == crate::strings::byte_len(text@),
        forall|i: int| 0 <= i < levels@.len() ==> #[trigger] levels@[i] <= MAX_LEVEL,
{
    unicode_bidi::BidiInfo::new(text, None).levels.iter().map(|level| level.number()).collect()
}

/// `unicode_bidi::BidiInfo::reorder_visual`: the visual order of items with the
/// given levels. It reverses parts of the logical order, so that every item has
/// exactly one visual place.
#[verifier::external_body]
pub(crate) fn reorder_levels(levels: &Vec<u8>) -> (order: Vec<usize>)
    requires
        forall|i: int| 0 <= i < levels@.len() ==> #[trigger] levels@[i] <= MAX_LEVEL,
    ensures
        order@.map_values(|index: usize| index as int) == visual_order(levels@),
        order@.len() == levels@.len(),
        order@.no_duplicates(),
        forall|i: int| 0 <= i < order@.len() ==> #[trigger] order@[i] < levels@.len(),
{
    unicode_bidi::BidiInfo::reorder_visual(&unicode_bidi::Level::vec(levels))
}

/// The embedding level of each piece of a text: that of its first byte.
pub open spec fn piece_levels(pieces: Seq<Seq<char>>) -> Seq<u8> {
    let levels: Seq<u8> = embedding_levels(crate::strings::concat(pieces));
    Seq::new(pieces.len(), |i: int| levels[crate::strings::byte_len(crate::strings::concat(pieces.take(i)))])
}

/// The logical index of the piece at each visual place.
pub open spec fn piece_order(pieces: Seq<Seq<char>>, enabled: bool) -> Seq<int> {
    if enabled {
        visual_order(piece_levels(pieces))
    } else {
        Seq::new(pieces.len(), |i: int| i)
    }
}

/// The logical index of the piece at each visual place. Without reordering the
/// order is the logical one.
pub fn bidi_order(pieces: &Vec<String>, enabled: bool) -> (order: Vec<usize>)
    requires
        forall|i: int| 0 <= i < pieces@.len() ==> (#[trigger] pieces@[i])@.len() > 0,
    ensures
        order@.map_values(|index: usize| index as int) == piece_order(
            crate::strings::texts(pieces@),
            enabled,
        ),
        order@.len() == pieces@.len(),
        order@.no_duplicates(),
        forall|i: int| 0 <= i < order@.len() ==> #[trigger] order@[i] < pieces@.len(),
{
    let ghost all = crate::strings::texts(pieces@);
    if !enabled {
        let mut order: Vec<usize> = Vec::new();
        let mut i: usize = 0;
        while i < pieces.len()
            invariant
                i <= pieces@.len(),
                order@.len() == i,
                forall|k: int| 0 <= k < i ==> #[trigger] order@[k] == k,
            decreases pieces@.len() - i,
        {
            order.push(i);
            i = i + 1;
        }
        assert(order@.map_values(|index: usize| index as int) =~= piece_order(all, enabled));
        return order;
    }
    let mut text = String::new();
    let mut i: usize = 0;
    assert(text@ =~= crate::strings::concat(all.take(0)));
    while i < pieces.len()
        invariant
            i <= pieces@.len(),
            all == crate::strings::texts(pieces@),
            text@ == crate::strings::concat(all.take(i as int)),
        decreases pieces@.len() - i,
    {
        text.append(pieces[i].as_str());
        i = i + 1;
        proof {
            assert(all.take(i as int).drop_last() =~= all.take(i - 1));
            assert(all.take(i as int).last() == pieces@[i - 1]@);
        }
    }
    assert(all.take(i as int) =~= all);
    let levels = resolve_levels(text.as_str());
    assert(crate::strings::concat(all.take(0)) =~= Seq::empty());
    let count: usize = levels.len();
    let mut per_piece: Vec<u8> = Vec::new();
    let mut start: usize = 0;
    let mut k: usize = 0;
    while k < pieces.len()
        invariant
            k <= pieces@.len(),
            all == crate::strings::texts(pieces@),
            all.len() == pieces@.len(),
            levels@ == embedding_levels(crate::strings::concat(all)),
            levels@.len() == count,
            count == crate::strings::byte_len(crate::strings::concat(all)),
            forall|i: int| 0 <= i < pieces@.len() ==> (#[trigger] pieces@[i])@.len() > 0,
            forall|i: int| 0 <= i < levels@.len() ==> #[trigger] levels@[i] <= MAX_LEVEL,
            forall|i: int| 0 <= i < per_piece@.len() ==> #[trigger] per_piece@[i] <= MAX_LEVEL,
            start == crate::strings::byte_len(crate::strings::concat(all.take(k as int))),
            per_piece@ == piece_levels(all).take(k as int),
        decreases pieces@.len() - k,
    {
        proof {
            assert(all.take(k + 1).drop_last() =~= all.take(k as int));
            assert(all.take(k + 1).last() == pieces@[k as int]@);
            assert(all =~= all.take(k + 1) + all.skip(k + 1));
            crate::strings::lemma_concat_add(all.take(k + 1), all.skip(k + 1));
            crate::strings::lemma_byte_len(
                crate::strings::concat(all.take(k + 1)),
                crate::strings::concat(all.skip(k + 1)),
            );
            crate::strings::lemma_byte_len(crate::strings::concat(all.take(k as int)), pieces@[k as int]@);
            crate::strings::lemma_byte_len(pieces@[k as int]@, Seq::empty());
        }
        per_piece.push(levels[start]);
        start = start + pieces[k].as_str().as_bytes().len();
        k = k + 1;
        assert(per_piece@ =~= piece_levels(all).take(k as int));
    }
    assert(piece_levels(all).take(k as int) =~= piece_levels(all));
    reorder_levels(&per_piece)
}

/// The text as a terminal shows it that draws from left to right only.
pub open spec fn visual_text(text: Seq<char>, enabled: bool) -> Seq<char> {
    if enabled {
        let clusters: Seq<Seq<char>> = crate::canvas::graphemes(text);
        let order: Seq<int> = piece_order(clusters, true);
        crate::strings::concat(Seq::new(clusters.len(), |i: int| clusters[order[i]]))
    } else {
        text
    }
}

/// Puts a text into visual order, cluster by cluster. No character is lost or added.
pub fn reorder_bidi_text(text: &str, enabled: bool) -> (visual: String)
    ensures
        visual@ == visual_text(text@, enabled),
        visual@.len() == text@.len(),
        visual@.to_multiset() == text@.to_multiset(),
{
    if !enabled {
        return text.to_owned();
    }
    let clusters = grapheme_clusters(text);
    let ghost all = crate::strings::texts(clusters@);
    let order = bidi_order(&clusters, true);
    let ghost places = order@.map_values(|index: usize| index as int);
    let ghost moved = Seq::new(all.len(), |i: int| all[places[i]]);
    let mut visual = String::new();
    let mut i: usize = 0;
    assert(visual@ =~= crate::strings::concat(moved.take(0)));
    while i < order.len()
        invariant
            i <= order@.len(),
            all == crate::strings::texts(clusters@),
            order@.len() == all.len(),
            places == order@.map_values(|index: usize| index as int),
            moved == Seq::new(all.len(), |i: int| all[places[i]]),
            forall|k: int| 0 <= k < order@.len() ==> #[trigger] order@[k] < clusters@.len(),
            visual@ == crate::strings::concat(moved.take(i as int)),
        decreases order@.len() - i,
    {
        proof {
            assert(moved.take(i + 1).drop_last() =~= moved.take(i as int));
            assert(places[i as int] == order@[i as int]);
            assert(moved.take(i + 1).last() == clusters@[order@[i as int] as int]@);
        }
        visual.append(clusters[order[i]].as_str());
        i = i + 1;
    }
    proof {
        assert(moved.take(i as int) =~= moved);
        assert(places.no_duplicates());
        crate::canvas::lemma_total_len_permuted(all, places);
        crate::canvas::lemma_total_len(moved);
        crate::canvas::lemma_total_len(all);
    }
    visual
}

/// A piece has the level of its first byte. Without reordering the pieces stay in their order, and
/// a text stays as it is; with it, the cluster that stands at a place is the one that the order of
/// the levels puts there.
pub proof fn lemma_pieces_in_order(pieces: Seq<Seq<char>>, text: Seq<char>, i: int)
    requires
        0 <= i < pieces.len(),
    ensures
        piece_order(pieces, false)[i] == i && piece_order(pieces, false).len() == pieces.len(),
        piece_levels(pieces).len() == pieces.len(),
        piece_levels(pieces)[i] == embedding_levels(
            crate::strings::concat(pieces),
        )[crate::strings::byte_len(crate::strings::concat(pieces.take(i)))],
        piece_order(pieces, true) == visual_order(piece_levels(pieces)),
        visual_text(text, false) == text,
        ({
            let clusters = crate::canvas::graphemes(text);
            let order = visual_order(piece_levels(clusters));
            visual_text(text, true) == crate::strings::concat(
                Seq::new(clusters.len(), |k: int| clusters[order[k]]),
            )
        }),
{
    let clusters = crate::canvas::graphemes(text);
    let order = visual_order(piece_levels(clusters));
    assert(Seq::new(clusters.len(), |k: int| clusters[order[k]]) =~= Seq::new(
        clusters.len(),
        |k: int| clusters[piece_order(clusters, true)[k]],
    ));
}

} // verus!
