//! Lines of ANSI text, drawn without rebuilding a tree of styled text.

use crate::bidi::bidi_order;
use crate::canvas::{grapheme_clusters, string_display_width_from_col, DrawOp};
use crate::raw_ansi::{parse_ansi_line, AnsiRun};
use crate::strings::{clone_strings, clone_text, same_text};
use crate::style::{Dimension, LayoutStyle};
use vstd::hash_map::StringHashMap;
use vstd::prelude::*;

verus! {

use crate::canvas::DrawModel;
use crate::raw_ansi::RunModel;

/// The runs cut into grapheme clusters, each with the style of its run.
pub open spec fn run_clusters(runs: Seq<RunModel>) -> Seq<RunModel>
    decreases runs.len(),
{
    if runs.len() == 0 {
        Seq::empty()
    } else {
        run_clusters(runs.drop_last()) + crate::canvas::graphemes(runs.last().text).map_values(
            |cluster: Seq<char>| RunModel { text: cluster, ..runs.last() },
        )
    }
}

/// Whether two runs look the same but for their text.
pub open spec fn same_look(a: RunModel, b: RunModel) -> bool {
    a.style == b.style && a.background_color == b.background_color && a.hyperlink == b.hyperlink
}

/// Adjacent runs of the same look joined.
pub open spec fn joined(runs: Seq<RunModel>) -> Seq<RunModel>
    decreases runs.len(),
{
    if runs.len() == 0 {
        Seq::empty()
    } else {
        let before: Seq<RunModel> = joined(runs.drop_last());
        if before.len() > 0 && same_look(before.last(), runs.last()) {
            before.update(
                before.len() - 1,
                RunModel { text: before.last().text + runs.last().text, ..before.last() },
            )
        } else {
            before.push(runs.last())
        }
    }
}

/// The texts of the runs.
pub open spec fn run_texts(runs: Seq<RunModel>) -> Seq<Seq<char>> {
    runs.map_values(|run: RunModel| run.text)
}

/// The total length of the texts of the runs.
pub open spec fn runs_len(runs: Seq<RunModel>) -> int {
    crate::canvas::total_len(run_texts(runs))
}

/// The clusters in visual order.
pub open spec fn in_visual_order(clusters: Seq<RunModel>, enabled: bool) -> Seq<RunModel> {
    let order: Seq<int> = crate::bidi::piece_order(run_texts(clusters), enabled);
    Seq::new(clusters.len(), |i: int| clusters[order[i]])
}

/// The runs reordered for a terminal that shows text from left to right only.
pub open spec fn reordered(runs: Seq<RunModel>, enabled: bool) -> Seq<RunModel> {
    joined(in_visual_order(run_clusters(runs), enabled))
}

/// The runs that a line is drawn with.
pub open spec fn line_runs(line: Seq<char>, software_bidi: bool) -> Seq<RunModel> {
    let runs: Seq<RunModel> = crate::raw_ansi::ansi_runs(line, true);
    if software_bidi {
        reordered(runs, true)
    } else {
        runs
    }
}

proof fn lemma_run_clusters_text(runs: Seq<RunModel>)
    requires
        forall|i: int|
            0 <= i < runs.len() ==> crate::strings::concat(
                crate::canvas::graphemes((#[trigger] runs[i]).text),
            ) == runs[i].text,
    ensures
        crate::strings::concat(run_texts(run_clusters(runs))) == crate::strings::concat(
            run_texts(runs),
        ),
    decreases runs.len(),
{
    if runs.len() > 0 {
        lemma_run_clusters_text(runs.drop_last());
        let last = crate::canvas::graphemes(runs.last().text);
        let tail = last.map_values(|cluster: Seq<char>| RunModel { text: cluster, ..runs.last() });
        assert(run_texts(tail) =~= last);
        assert(run_texts(run_clusters(runs)) =~= run_texts(run_clusters(runs.drop_last())) + last);
        crate::strings::lemma_concat_add(run_texts(run_clusters(runs.drop_last())), last);
        assert(run_texts(runs).drop_last() =~= run_texts(runs.drop_last()));
    } else {
        assert(run_texts(run_clusters(runs)) =~= run_texts(runs));
    }
}

/// Joining runs shows the same text.
pub proof fn lemma_joined_keeps_text(runs: Seq<RunModel>)
    ensures
        crate::raw_ansi::visible_text(joined(runs)) == crate::raw_ansi::visible_text(runs),
    decreases runs.len(),
{
    if runs.len() > 0 {
        lemma_joined_keeps_text(runs.drop_last());
        let before = joined(runs.drop_last());
        let texts = run_texts(before);
        assert(run_texts(runs).drop_last() =~= run_texts(runs.drop_last()));
        if before.len() > 0 && same_look(before.last(), runs.last()) {
            let after = run_texts(joined(runs));
            assert(after.drop_last() =~= texts.drop_last());
            assert(after.last() == texts.last() + runs.last().text);
            assert(crate::strings::concat(after) =~= crate::strings::concat(texts)
                + runs.last().text);
        } else {
            assert(run_texts(joined(runs)) =~= texts.push(runs.last().text));
            crate::strings::lemma_concat_push(texts, runs.last().text);
        }
    } else {
        assert(run_texts(joined(runs)) =~= run_texts(runs));
    }
}

/// Reorders the runs of a line into visual order, cluster by cluster, and joins
/// neighbours of the same look. Without reordering the clusters stay in place. No character
/// is lost or added.
pub fn reorder_bidi_ansi_runs(runs: Vec<AnsiRun>, enabled: bool) -> (result: Vec<AnsiRun>)
    ensures
        crate::raw_ansi::run_models(result@) == reordered(
            crate::raw_ansi::run_models(runs@),
            enabled,
        ),
        runs_len(crate::raw_ansi::run_models(result@)) == runs_len(
            crate::raw_ansi::run_models(runs@),
        ),
        crate::raw_ansi::visible_text(crate::raw_ansi::run_models(result@)).to_multiset()
            == crate::raw_ansi::visible_text(crate::raw_ansi::run_models(runs@)).to_multiset(),
{
    let ghost models = crate::raw_ansi::run_models(runs@);
    let mut clusters: Vec<AnsiRun> = Vec::new();
    let mut texts: Vec<String> = Vec::new();
    let mut i: usize = 0;
    assert(crate::raw_ansi::run_models(clusters@) =~= run_clusters(models.take(0)));
    assert(crate::strings::texts(texts@) =~= run_texts(crate::raw_ansi::run_models(clusters@)));
    while i < runs.len()
        invariant
            i <= runs@.len(),
            models == crate::raw_ansi::run_models(runs@),
            crate::raw_ansi::run_models(clusters@) == run_clusters(models.take(i as int)),
            crate::strings::texts(texts@) == run_texts(crate::raw_ansi::run_models(clusters@)),
            forall|k: int| 0 <= k < texts@.len() ==> (#[trigger] texts@[k])@.len() > 0,
            forall|k: int|
                0 <= k < i ==> crate::strings::concat(
                    crate::canvas::graphemes((#[trigger] models[k]).text),
                ) == models[k].text,
        decreases runs@.len() - i,
    {
        let pieces = grapheme_clusters(runs[i].text.as_str());
        let ghost done = crate::raw_ansi::run_models(clusters@);
        let ghost all = crate::strings::texts(pieces@);
        let ghost styled = all.map_values(
            |cluster: Seq<char>| RunModel { text: cluster, ..models[i as int] },
        );
        let mut k: usize = 0;
        while k < pieces.len()
            invariant
                i < runs@.len(),
                k <= pieces@.len(),
                models == crate::raw_ansi::run_models(runs@),
                all == crate::strings::texts(pieces@),
                all.len() == pieces@.len(),
                styled == all.map_values(
                    |cluster: Seq<char>| RunModel { text: cluster, ..models[i as int] },
                ),
                crate::raw_ansi::run_models(clusters@) == done + styled.take(k as int),
                crate::strings::texts(texts@) == run_texts(
                    crate::raw_ansi::run_models(clusters@),
                ),
                forall|j: int| 0 <= j < pieces@.len() ==> (#[trigger] pieces@[j])@.len() > 0,
                forall|j: int| 0 <= j < texts@.len() ==> (#[trigger] texts@[j])@.len() > 0,
            decreases pieces@.len() - k,
        {
            let run = AnsiRun {
                text: pieces[k].clone(),
                style: runs[i].style,
                background_color: runs[i].background_color,
                hyperlink: clone_text(&runs[i].hyperlink),
            };
            let copy = pieces[k].clone();
            let ghost before = crate::raw_ansi::run_models(clusters@);
            let ghost texts_before = crate::strings::texts(texts@);
            texts.push(copy);
            clusters.push(run);
            k = k + 1;
            proof {
                assert(styled[k - 1].text == pieces@[k - 1]@);
                assert(models[i as int] == runs@[i as int]@);
                assert(run@ == styled[k - 1]);
                assert(crate::raw_ansi::run_models(clusters@) =~= before.push(run@));
                assert(crate::strings::texts(texts@) =~= texts_before.push(copy@));
                assert(run_texts(before.push(run@)) =~= run_texts(before).push(run@.text));
                assert(styled.take(k as int) =~= styled.take(k - 1).push(styled[k - 1]));
                assert(crate::raw_ansi::run_models(clusters@) =~= done + styled.take(k as int));
            }
        }
        proof {
            assert(styled.take(k as int) =~= styled);
            assert(models.take(i + 1).drop_last() =~= models.take(i as int));
            assert(models.take(i + 1).last() == models[i as int]);
            assert(all == crate::canvas::graphemes(models[i as int].text));
            assert(crate::raw_ansi::run_models(clusters@) =~= run_clusters(models.take(i + 1)));
        }
        i = i + 1;
    }
    proof {
        assert(models.take(i as int) =~= models);
        lemma_run_clusters_text(models);
    }
    let order = bidi_order(&texts, enabled);
    let ghost logical = crate::raw_ansi::run_models(clusters@);
    let ghost visual = in_visual_order(logical, enabled);
    let mut result: Vec<AnsiRun> = Vec::new();
    let mut v: usize = 0;
    assert(crate::raw_ansi::run_models(result@) =~= joined(visual.take(0)));
    while v < order.len()
        invariant
            v <= order@.len(),
            order@.len() == clusters@.len(),
            logical == crate::raw_ansi::run_models(clusters@),
            crate::strings::texts(texts@) == run_texts(logical),
            visual == in_visual_order(logical, enabled),
            order@.map_values(|index: usize| index as int) == crate::bidi::piece_order(
                crate::strings::texts(texts@),
                enabled,
            ),
            forall|k: int| 0 <= k < order@.len() ==> #[trigger] order@[k] < clusters@.len(),
            crate::raw_ansi::run_models(result@) == joined(visual.take(v as int)),
        decreases order@.len() - v,
    {
        let run = &clusters[order[v]];
        proof {
            assert(order@.map_values(|index: usize| index as int)[v as int] == order@[v as int]);
            assert(visual[v as int] == run@);
            assert(visual.take(v + 1).drop_last() =~= visual.take(v as int));
            assert(visual.take(v + 1).last() == run@);
        }
        let ghost before = crate::raw_ansi::run_models(result@);
        let count: usize = result.len();
        let mut extends = false;
        if count > 0 {
            let last = &result[count - 1];
            assert(before.last() == last@);
            extends = last.style == run.style && last.background_color == run.background_color
                && same_text(&last.hyperlink, &run.hyperlink);
        }
        if extends {
            let mut last = result.pop().unwrap();
            assert(before.last() == last@);
            last.text.append(run.text.as_str());
            result.push(last);
            assert(crate::raw_ansi::run_models(result@) =~= before.update(
                before.len() - 1,
                RunModel { text: before.last().text + run@.text, ..before.last() },
            ));
        } else {
            let copy = run.clone();
            result.push(copy);
            assert(crate::raw_ansi::run_models(result@) =~= before.push(run@));
        }
        v = v + 1;
    }
    proof {
        assert(visual.take(v as int) =~= visual);
        let places = order@.map_values(|index: usize| index as int);
        let pieces = run_texts(logical);
        assert(places.no_duplicates());
        crate::canvas::lemma_total_len_permuted(pieces, places);
        assert(run_texts(visual) =~= Seq::new(pieces.len(), |i: int| pieces[places[i]]));
        lemma_joined_keeps_text(visual);
        crate::canvas::lemma_total_len(run_texts(joined(visual)));
        crate::canvas::lemma_total_len(run_texts(visual));
        crate::canvas::lemma_total_len(pieces);
        crate::canvas::lemma_total_len(run_texts(models));
    }
    result
}

/// Reorders the runs of a line where the terminal needs it.
pub fn reorder_bidi_ansi_runs_for_terminal(runs: Vec<AnsiRun>, software_bidi: bool) -> (result: Vec<
    AnsiRun,
>)
    ensures
        crate::raw_ansi::run_models(result@) == if software_bidi {
            reordered(crate::raw_ansi::run_models(runs@), true)
        } else {
            crate::raw_ansi::run_models(runs@)
        },
        runs_len(crate::raw_ansi::run_models(result@)) == runs_len(
            crate::raw_ansi::run_models(runs@),
        ),
{
    if software_bidi {
        reorder_bidi_ansi_runs(runs, true)
    } else {
        runs
    }
}

/// Parses one line into the runs that it is drawn with.
pub fn parse_drawn_line(line: &str, software_bidi: bool) -> (runs: Vec<AnsiRun>)
    ensures
        crate::raw_ansi::run_models(runs@) == line_runs(line@, software_bidi),
        runs_len(crate::raw_ansi::run_models(runs@)) <= line@.len(),
{
    proof {
        crate::raw_ansi::lemma_visible_text_is_shorter(line@, true);
        crate::canvas::lemma_total_len(run_texts(crate::raw_ansi::ansi_runs(line@, true)));
    }
    reorder_bidi_ansi_runs_for_terminal(parse_ansi_line(line), software_bidi)
}

/// Default maximum number of lines retained by a [`RawAnsiLineCache`].
pub const RAW_ANSI_LINE_CACHE_MAX_ENTRIES: usize = 16_384;

/// Cache of parsed lines.
///
/// Unchanged lines avoid repeated parsing and reordering. Once the cache is full it
/// is cleared, so that long transcripts do not retain unbounded state.
pub struct RawAnsiLineCache {
    lines: StringHashMap<Vec<AnsiRun>>,
    scratch: Vec<AnsiRun>,
    max_entries: usize,
    software_bidi: bool,
}

impl RawAnsiLineCache {
    /// The lines that are cached.
    pub closed spec fn cached(&self) -> Set<Seq<char>> {
        self.lines@.dom()
    }

    /// The number of lines that the cache may hold.
    pub closed spec fn limit(&self) -> int {
        self.max_entries as int
    }

    /// Whether lines are put into visual order.
    pub closed spec fn reorders(&self) -> bool {
        self.software_bidi
    }

    /// The cache holds no more lines than it may, each with the runs that it is
    /// drawn with.
    pub closed spec fn wf(&self) -> bool {
        &&& self.lines@.dom().finite()
        &&& self.lines@.len() <= self.max_entries
        &&& forall|line: Seq<char>| #[trigger]
            self.lines@.contains_key(line) ==> crate::raw_ansi::run_models(self.lines@[line]@)
                == line_runs(line, self.software_bidi) && runs_len(
                line_runs(line, self.software_bidi),
            ) <= line.len()
    }

    /// Creates an empty cache of the default size.
    pub fn new() -> (r: Self)
        ensures
            r.wf(),
            r.cached() == Set::<Seq<char>>::empty(),
            r.limit() == RAW_ANSI_LINE_CACHE_MAX_ENTRIES,
            !r.reorders(),
    {
        Self::with_max_entries(RAW_ANSI_LINE_CACHE_MAX_ENTRIES)
    }

    /// Creates an empty cache with a custom maximum entry count. With none, lines
    /// are parsed but not retained.
    pub fn with_max_entries(max_entries: usize) -> (r: Self)
        ensures
            r.wf(),
            r.cached() == Set::<Seq<char>>::empty(),
            r.limit() == max_entries,
            !r.reorders(),
    {
        let r = RawAnsiLineCache {
            lines: StringHashMap::new(),
            scratch: Vec::new(),
            max_entries,
            software_bidi: false,
        };
        assert(r.lines@.dom() =~= Set::<Seq<char>>::empty());
        r
    }

    /// Sets whether lines are put into visual order; a change clears the cache.
    pub fn set_software_bidi(&mut self, software_bidi: bool)
        requires
            old(self).wf(),
        ensures
            final(self).wf(),
            final(self).reorders() == software_bidi,
            final(self).limit() == old(self).limit(),
            final(self).cached() == if software_bidi == old(self).reorders() {
                old(self).cached()
            } else {
                Set::empty()
            },
    {
        if self.software_bidi != software_bidi {
            self.lines.clear();
            self.software_bidi = software_bidi;
            assert(self.lines@.dom() =~= Set::<Seq<char>>::empty());
        }
    }

    /// Parses `line` and returns its runs, from the cache where they are known.
    ///
    /// The line is one terminal row; parsing stops at a line end.
    pub fn parse_line(&mut self, line: &str) -> (runs: &[AnsiRun])
        requires
            old(self).wf(),
        ensures
            crate::raw_ansi::run_models(runs@) == line_runs(line@, old(self).reorders()),
            runs_len(crate::raw_ansi::run_models(runs@)) <= line@.len(),
            final(self).wf(),
            final(self).limit() == old(self).limit(),
            final(self).reorders() == old(self).reorders(),
            final(self).cached() == if old(self).limit() == 0 {
                Set::empty()
            } else if old(self).cached().contains(line@) {
                old(self).cached()
            } else if old(self).cached().len() >= old(self).limit() {
                Set::empty().insert(line@)
            } else {
                old(self).cached().insert(line@)
            },
    {
        if self.max_entries == 0 {
            self.lines.clear();
            assert(self.lines@.dom() =~= Set::<Seq<char>>::empty());
            self.scratch = parse_drawn_line(line, self.software_bidi);
            return self.scratch.as_slice();
        }
        if !self.lines.contains_key(line) {
            if self.lines.len() >= self.max_entries {
                self.lines.clear();
                assert(self.lines@.dom() =~= Set::<Seq<char>>::empty());
            }
            let runs = parse_drawn_line(line, self.software_bidi);
            let ghost before = self.lines@;
            self.lines.insert(line.to_owned(), runs);
            assert(self.lines@.dom() =~= before.dom().insert(line@));
        }
        match self.lines.get(line) {
            Some(runs) => runs.as_slice(),
            None => self.scratch.as_slice(),
        }
    }

    /// Number of cached lines.
    pub fn len(&self) -> (r: usize)
        ensures
            r == self.cached().len(),
    {
        self.lines.len()
    }

    /// Whether the cache is empty.
    pub fn is_empty(&self) -> (r: bool)
        ensures
            r == self.cached().is_empty(),
    {
        self.lines.is_empty()
    }

    /// Clears all cached lines.
    pub fn clear(&mut self)
        ensures
            final(self).wf(),
            final(self).cached() == Set::<Seq<char>>::empty(),
            final(self).limit() == old(self).limit(),
            final(self).reorders() == old(self).reorders(),
    {
        self.lines.clear();
        self.scratch.clear();
        assert(self.lines@.dom() =~= Set::<Seq<char>>::empty());
    }

    /// Maximum number of lines retained before the cache is cleared.
    pub fn max_entries(&self) -> (r: usize)
        ensures
            r == self.limit(),
    {
        self.max_entries
    }
}

impl Default for RawAnsiLineCache {
    fn default() -> (r: Self)
        ensures
            r.wf(),
            r.cached() == Set::<Seq<char>>::empty(),
            r.limit() == RAW_ANSI_LINE_CACHE_MAX_ENTRIES,
            !r.reorders(),
    {
        Self::new()
    }
}

/// The cache never holds more lines than it may.
pub proof fn lemma_cache_is_bounded(cache: RawAnsiLineCache)
    requires
        cache.wf(),
    ensures
        cache.cached().finite(),
        cache.cached().len() <= cache.limit(),
{
}

/// The column after the runs, of which the first starts at the left edge.
pub open spec fn runs_end(runs: Seq<RunModel>) -> int
    decreases runs.len(),
{
    if runs.len() == 0 {
        0
    } else {
        let column: int = runs_end(runs.drop_last());
        column + crate::canvas::display_width_from(runs.last().text, column)
    }
}

/// What draws one run from a cell on: its background, then its text.
pub open spec fn run_drawing(run: RunModel, x: int, y: int, width: int) -> Seq<DrawModel> {
    let text: DrawModel = DrawModel::SetText {
        x,
        y,
        text: run.text,
        style: run.style,
        link: run.hyperlink,
    };
    match run.background_color {
        Some(color) => seq![DrawModel::SetBackground { x, y, width, height: 1, color }, text],
        None => seq![text],
    }
}

/// What draws the runs of one row, one after the other; empty runs draw nothing.
pub open spec fn row_drawing(runs: Seq<RunModel>, row: int) -> Seq<DrawModel>
    decreases runs.len(),
{
    if runs.len() == 0 {
        Seq::empty()
    } else {
        let before: Seq<RunModel> = runs.drop_last();
        let column: int = runs_end(before);
        if runs.last().text.len() == 0 {
            row_drawing(before, row)
        } else {
            row_drawing(before, row) + run_drawing(
                runs.last(),
                column,
                row,
                crate::canvas::display_width_from(runs.last().text, column),
            )
        }
    }
}

/// What draws the first `count` lines, each on its own row.
pub open spec fn lines_drawing(
    lines: Seq<Seq<char>>,
    software_bidi: bool,
    count: int,
) -> Seq<DrawModel>
    decreases count,
{
    if count <= 0 {
        Seq::empty()
    } else {
        lines_drawing(lines, software_bidi, count - 1) + row_drawing(
            line_runs(lines[count - 1], software_bidi),
            count - 1,
        )
    }
}

proof fn lemma_runs_len_prefix(runs: Seq<RunModel>, count: int)
    requires
        0 <= count < runs.len(),
    ensures
        0 <= runs_len(runs.take(count)),
        runs_len(runs.take(count)) + runs[count].text.len() == runs_len(runs.take(count + 1)),
        runs_len(runs.take(count + 1)) <= runs_len(runs),
{
    let texts = run_texts(runs);
    assert(run_texts(runs.take(count)) =~= texts.take(count));
    assert(run_texts(runs.take(count + 1)) =~= texts.take(count + 1));
    assert(texts.take(count + 1).drop_last() =~= texts.take(count));
    crate::canvas::lemma_total_len_prefix(texts, count + 1);
    crate::canvas::lemma_total_len_prefix(texts, count);
}

/// Draws the runs of one row.
pub fn draw_runs(runs: &[AnsiRun], row: usize, ops: &mut Vec<DrawOp>)
    requires
        row <= isize::MAX,
        crate::canvas::countable(runs_len(crate::raw_ansi::run_models(runs@)), 0),
    ensures
        crate::canvas::drawing(final(ops)@) == crate::canvas::drawing(old(ops)@) + row_drawing(
            crate::raw_ansi::run_models(runs@),
            row as int,
        ),
{
    let ghost models = crate::raw_ansi::run_models(runs@);
    let ghost before = crate::canvas::drawing(ops@);
    let mut column: usize = 0;
    let mut i: usize = 0;
    assert(run_texts(models.take(0)) =~= Seq::empty());
    assert(before + row_drawing(models.take(0), row as int) =~= before);
    while i < runs.len()
        invariant
            i <= runs@.len(),
            row <= isize::MAX,
            models == crate::raw_ansi::run_models(runs@),
            crate::canvas::countable(runs_len(models), 0),
            column == runs_end(models.take(i as int)),
            0 <= column <= 8 * runs_len(models.take(i as int)),
            crate::canvas::drawing(ops@) == before + row_drawing(models.take(i as int), row as int),
        decreases runs@.len() - i,
    {
        let run = &runs[i];
        let ghost done = crate::canvas::drawing(ops@);
        proof {
            lemma_runs_len_prefix(models, i as int);
            assert(models.take(i + 1).drop_last() =~= models.take(i as int));
            assert(models.take(i + 1).last() == run@);
        }
        let width: usize = string_display_width_from_col(run.text.as_str(), column);
        if !run.text.as_str().is_empty() {
            if let Some(color) = run.background_color {
                let op = DrawOp::SetBackground {
                    x: column as isize,
                    y: row as isize,
                    width,
                    height: 1,
                    color,
                };
                ops.push(op);
                assert(crate::canvas::drawing(ops@) =~= done.push(op@));
            }
            let ghost halfway = crate::canvas::drawing(ops@);
            let op = DrawOp::SetText {
                x: column as isize,
                y: row as isize,
                text: run.text.clone(),
                style: run.style,
                link: clone_text(&run.hyperlink),
            };
            ops.push(op);
            proof {
                assert(crate::canvas::drawing(ops@) =~= halfway.push(op@));
                let drawn = run_drawing(run@, column as int, row as int, width as int);
                assert(crate::canvas::drawing(ops@) =~= done + drawn);
                assert(done + drawn =~= before + (row_drawing(models.take(i as int), row as int)
                    + drawn));
            }
        }
        column = column + width;
        i = i + 1;
    }
    assert(models.take(i as int) =~= models);
}

/// Props of [`RawAnsi`].
#[derive(Debug)]
pub struct RawAnsiProps {
    /// Lines of ANSI text, each of which is one terminal row.
    pub lines: Vec<String>,
    /// The width, in columns, that the producer wrapped the lines to.
    pub width: usize,
}

impl Default for RawAnsiProps {
    fn default() -> (r: Self)
        ensures
            r.lines@.len() == 0,
            r.width == 0,
    {
        RawAnsiProps { lines: Vec::new(), width: 0 }
    }
}

/// Draws wrapped ANSI text without rebuilding a tree of styled text.
pub struct RawAnsi {
    lines: Vec<String>,
    width: usize,
    line_cache: RawAnsiLineCache,
}

impl RawAnsi {
    /// The lines that are drawn.
    pub closed spec fn shown(&self) -> Seq<Seq<char>> {
        crate::strings::texts(self.lines@)
    }

    /// Whether lines are put into visual order.
    pub closed spec fn reorders(&self) -> bool {
        self.line_cache.reorders()
    }

    /// The cache of the component satisfies its invariant.
    pub closed spec fn wf(&self) -> bool {
        self.line_cache.wf()
    }

    /// A component without lines.
    pub fn new(software_bidi: bool) -> (r: Self)
        ensures
            r.wf(),
            r.shown() == Seq::<Seq<char>>::empty(),
            r.reorders() == software_bidi,
    {
        let mut line_cache = RawAnsiLineCache::new();
        line_cache.set_software_bidi(software_bidi);
        let r = RawAnsi { lines: Vec::new(), width: 0, line_cache };
        assert(r.shown() =~= Seq::<Seq<char>>::empty());
        r
    }

    /// Takes over the props and returns the fixed size that they ask for: the given
    /// width, and one row for each line.
    pub fn update(&mut self, props: &RawAnsiProps) -> (layout: LayoutStyle)
        requires
            old(self).wf(),
        ensures
            final(self).wf(),
            final(self).shown() == crate::strings::texts(props.lines@),
            final(self).reorders() == old(self).reorders(),
            layout == (LayoutStyle {
                width: Dimension::Length(props.width),
                height: Dimension::Length(props.lines@.len() as usize),
                ..crate::style::plain_layout()
            }),
    {
        self.lines = clone_strings(&props.lines);
        self.width = props.width;
        LayoutStyle {
            width: Dimension::Length(self.width),
            height: Dimension::Length(self.lines.len()),
            ..LayoutStyle::default()
        }
    }

    /// Draws the lines; nothing, where a sibling shares the row of a component
    /// without height.
    pub fn draw(&mut self, shares_row: bool) -> (ops: Vec<DrawOp>)
        requires
            old(self).wf(),
            old(self).shown().len() <= isize::MAX,
            forall|i: int|
                0 <= i < old(self).shown().len() ==> crate::canvas::countable(
                    (#[trigger] old(self).shown()[i]).len() as int,
                    0,
                ),
        ensures
            final(self).wf(),
            final(self).shown() == old(self).shown(),
            final(self).reorders() == old(self).reorders(),
            crate::canvas::drawing(ops@) == if shares_row {
                Seq::empty()
            } else {
                lines_drawing(
                    old(self).shown(),
                    old(self).reorders(),
                    old(self).shown().len() as int,
                )
            },
    {
        let mut ops: Vec<DrawOp> = Vec::new();
        assert(crate::canvas::drawing(ops@) =~= Seq::empty());
        if shares_row {
            return ops;
        }
        let ghost shown = self.shown();
        let mut row: usize = 0;
        while row < self.lines.len()
            invariant
                row <= self.lines@.len(),
                self.wf(),
                self.shown() == shown,
                shown == old(self).shown(),
                self.reorders() == old(self).reorders(),
                shown.len() <= isize::MAX,
                forall|i: int|
                    0 <= i < shown.len() ==> crate::canvas::countable(
                        (#[trigger] shown[i]).len() as int,
                        0,
                    ),
                crate::canvas::drawing(ops@) == lines_drawing(
                    shown,
                    old(self).reorders(),
                    row as int,
                ),
            decreases self.lines@.len() - row,
        {
            let line = self.lines[row].clone();
            assert(line@ == shown[row as int]);
            let runs = self.line_cache.parse_line(line.as_str());
            draw_runs(runs, row, &mut ops);
            row = row + 1;
        }
        ops
    }
}

/// The characters of the runs, each with its look.
pub open spec fn run_marks(runs: Seq<RunModel>) -> Seq<(char, RunModel)>
    decreases runs.len(),
{
    if runs.len() == 0 {
        Seq::empty()
    } else {
        let last = runs.last();
        run_marks(runs.drop_last()) + Seq::new(
            last.text.len(),
            |i: int| (last.text[i], RunModel { text: Seq::empty(), ..last }),
        )
    }
}

/// Joining runs leaves the look of every character as it was.
pub proof fn lemma_joined_keeps_looks(runs: Seq<RunModel>)
    ensures
        run_marks(joined(runs)) == run_marks(runs),
    decreases runs.len(),
{
    if runs.len() > 0 {
        lemma_joined_keeps_looks(runs.drop_last());
        let before = joined(runs.drop_last());
        let after = joined(runs);
        if before.len() > 0 && same_look(before.last(), runs.last()) {
            assert(after.drop_last() =~= before.drop_last());
        } else {
            assert(after.drop_last() =~= before);
        }
        assert(run_marks(after) =~= run_marks(runs));
    }
}

/// What writes a run from a column of a row on.
pub open spec fn run_cell(run: RunModel, x: int, y: int) -> DrawModel {
    DrawModel::SetText { x, y, text: run.text, style: run.style, link: run.hyperlink }
}

/// Whether a run of a row is drawn: behind those before it, in its own look, and over its
/// background, which is as wide as it is. An empty one is not.
pub open spec fn draws_run(
    drawn: Seq<DrawModel>,
    run: RunModel,
    from: int,
    to: int,
    row: int,
) -> bool {
    run.text.len() > 0 ==> {
        &&& drawn.contains(run_cell(run, from, row))
        &&& run.background_color matches Some(color) ==> drawn.contains(
            DrawModel::SetBackground { x: from, y: row, width: to - from, height: 1, color },
        )
    }
}

proof fn lemma_drawn_with_more(
    drawn: Seq<DrawModel>,
    more: Seq<DrawModel>,
    run: RunModel,
    from: int,
    to: int,
    row: int,
)
    requires
        draws_run(drawn, run, from, to, row) || draws_run(more, run, from, to, row),
    ensures
        draws_run(drawn + more, run, from, to, row),
{
    let all = drawn + more;
    assert forall|op: DrawModel| #[trigger] drawn.contains(op) implies all.contains(op) by {
        let k = choose|k: int| 0 <= k < drawn.len() && drawn[k] == op;
        assert(all[k] == op);
    }
    assert forall|op: DrawModel| #[trigger] more.contains(op) implies all.contains(op) by {
        let k = choose|k: int| 0 <= k < more.len() && more[k] == op;
        assert(all[drawn.len() + k] == op);
    }
}

/// Each run of a row that is not empty is written behind those before it, in its own look, and
/// over its background, which is as wide as it is.
pub proof fn lemma_runs_are_drawn(runs: Seq<RunModel>, row: int, i: int)
    requires
        0 <= i < runs.len(),
    ensures
        draws_run(
            row_drawing(runs, row),
            runs[i],
            runs_end(runs.take(i)),
            runs_end(runs.take(i + 1)),
            row,
        ),
    decreases runs.len(),
{
    let before = runs.drop_last();
    let last: int = runs.len() - 1;
    let earlier = row_drawing(before, row);
    let column = runs_end(before);
    let width = crate::canvas::display_width_from(runs.last().text, column);
    let added = if runs.last().text.len() == 0 {
        Seq::empty()
    } else {
        run_drawing(runs.last(), column, row, width)
    };
    assert(row_drawing(runs, row) =~= earlier + added);
    if i < last {
        lemma_runs_are_drawn(before, row, i);
        assert(before.take(i) =~= runs.take(i));
        assert(before.take(i + 1) =~= runs.take(i + 1));
    } else {
        assert(runs.take(last) =~= before);
        assert(runs.take(last + 1) =~= runs);
        if runs.last().text.len() > 0 {
            assert(added[added.len() - 1] == run_cell(runs.last(), column, row));
            if let Some(color) = runs.last().background_color {
                assert(added[0] == (DrawModel::SetBackground {
                    x: column,
                    y: row,
                    width,
                    height: 1,
                    color,
                }));
            }
        }
        assert(draws_run(added, runs[i], column, runs_end(runs), row));
    }
    lemma_drawn_with_more(
        earlier,
        added,
        runs[i],
        runs_end(runs.take(i)),
        runs_end(runs.take(i + 1)),
        row,
    );
}

/// Nothing is drawn on a row but its runs and their backgrounds: as much as they ask for.
pub proof fn lemma_only_runs_are_drawn(runs: Seq<RunModel>, row: int)
    requires
        forall|i: int| 0 <= i < runs.len() ==> (#[trigger] runs[i]).text.len() > 0,
        forall|i: int| 0 <= i < runs.len() ==> (#[trigger] runs[i]).background_color is None,
    ensures
        row_drawing(runs, row).len() == runs.len(),
    decreases runs.len(),
{
    if runs.len() > 0 {
        let before = runs.drop_last();
        assert forall|i: int| 0 <= i < before.len() implies (#[trigger] before[i]).text.len() > 0
            && before[i].background_color is None by {
            assert(before[i] == runs[i]);
        }
        lemma_only_runs_are_drawn(before, row);
        assert(runs[runs.len() - 1] == runs.last());
    }
}

/// Each line is drawn on its own row, with the runs that it is made of.
pub proof fn lemma_lines_are_drawn_on_rows(
    lines: Seq<Seq<char>>,
    software_bidi: bool,
    count: int,
    row: int,
    op: DrawModel,
)
    requires
        0 <= row < count <= lines.len(),
        row_drawing(line_runs(lines[row], software_bidi), row).contains(op),
    ensures
        lines_drawing(lines, software_bidi, count).contains(op),
        line_runs(lines[row], false) == crate::raw_ansi::ansi_runs(lines[row], true),
    decreases count,
{
    let before = lines_drawing(lines, software_bidi, count - 1);
    let last = row_drawing(line_runs(lines[count - 1], software_bidi), count - 1);
    let all = lines_drawing(lines, software_bidi, count);
    assert(all == before + last);
    if row < count - 1 {
        lemma_lines_are_drawn_on_rows(lines, software_bidi, count - 1, row, op);
        let k = choose|k: int| 0 <= k < before.len() && before[k] == op;
        assert(all[k] == op);
    } else {
        let k = choose|k: int| 0 <= k < last.len() && last[k] == op;
        assert(all[before.len() + k] == op);
    }
}

} // verus!
