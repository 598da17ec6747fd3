//! What the candidate bar shows and where: the rows built from the panel
//! state, the candidate hit under a click, the highlight span, the bar's
//! size and placement near the caret, and the per-pixel alpha blend.

use crate::model::{CandidateLayout, CandidateView, PanelState, PanelView, Rect};
use vstd::prelude::*;

verus! {

/// Height in pixels of one row slot.
pub const LINE_HEIGHT: u32 = 22;

/// Horizontal inset of the text.
pub const PADDING: u32 = 0;

/// How far below the top margin the compositor places a top-left anchored
/// layer surface.
pub const FOLLOW_Y_OFFSET: i32 = -2;

/// Vertical gap between the caret and a bar placed below it.
pub const SPOT_GAP: i32 = 4;

/// Output height assumed when the output's geometry is unknown.
pub const FALLBACK_OUTPUT_HEIGHT: i32 = 1440;

/// One text line of the bar.
pub struct Row {
    pub text: String,
    pub selected: bool,
    /// Row index to report to Fcitx on click (counting the aux-down row),
    /// set only for the rows of a vertical candidate list.
    pub candidate: Option<usize>,
    /// True for the single joined row of a horizontal candidate list; a click
    /// on it is resolved by x position.
    pub horizontal: bool,
}

/// Abstract value of a [`Row`].
pub struct RowView {
    pub text: Seq<char>,
    pub selected: bool,
    pub candidate: Option<usize>,
    pub horizontal: bool,
}

impl View for Row {
    type V = RowView;

    open spec fn view(&self) -> RowView {
        RowView {
            text: self.text@,
            selected: self.selected,
            candidate: self.candidate,
            horizontal: self.horizontal,
        }
    }
}

/// Label followed by text, as a candidate is painted.
pub open spec fn label_text(c: CandidateView) -> Seq<char> {
    c.label + c.text
}

/// The separator between candidates of a horizontal row.
pub open spec fn separator() -> Seq<char> {
    seq![' ', ' ', ' ']
}

/// All candidates on one line, separated by three spaces.
pub open spec fn joined(cs: Seq<CandidateView>) -> Seq<char>
    decreases cs.len(),
{
    if cs.len() == 0 {
        Seq::empty()
    } else if cs.len() == 1 {
        label_text(cs[0])
    } else {
        joined(cs.drop_last()) + separator() + label_text(cs.last())
    }
}

/// A row of plain text.
pub open spec fn text_row(t: Seq<char>) -> RowView {
    RowView { text: t, selected: false, candidate: None, horizontal: false }
}

/// Whether the candidates are joined into one horizontal row.
pub open spec fn is_horizontal(l: CandidateLayout) -> bool {
    l == CandidateLayout::Horizontal || l == CandidateLayout::NotSet
}

/// The rows above the candidates: the preedit line (or, when no preedit is
/// shown, the aux line), then the aux-down line.
pub open spec fn header_rows(v: PanelView) -> Seq<RowView> {
    let first: Seq<RowView> = if v.preedit_visible && v.preedit.len() > 0 {
        seq![text_row(v.preedit)]
    } else if v.aux_visible && v.aux.len() > 0 {
        seq![text_row(v.aux)]
    } else {
        Seq::empty()
    };
    let down: Seq<RowView> = if v.aux_down.len() > 0 {
        seq![text_row(v.aux_down)]
    } else {
        Seq::empty()
    };
    first + down
}

/// The candidate rows: one joined row for a horizontal layout, one row per
/// candidate otherwise.
pub open spec fn candidate_rows(v: PanelView) -> Seq<RowView> {
    let off: int = if v.aux_down.len() > 0 {
        1
    } else {
        0
    };
    if v.candidates.len() == 0 {
        Seq::empty()
    } else if is_horizontal(v.layout) {
        seq![
            RowView {
                text: joined(v.candidates),
                selected: v.selected >= 0,
                candidate: None,
                horizontal: true,
            },
        ]
    } else {
        Seq::new(
            v.candidates.len(),
            |i: int|
                RowView {
                    text: label_text(v.candidates[i]),
                    selected: i == v.selected,
                    candidate: Some((i + off) as usize),
                    horizontal: false,
                },
        )
    }
}

/// Every row of the bar, top to bottom.
pub open spec fn rows_of(v: PanelView) -> Seq<RowView> {
    header_rows(v) + candidate_rows(v)
}

/// The views of a row vector.
pub open spec fn row_views(rows: Seq<Row>) -> Seq<RowView> {
    rows.map_values(|r: Row| r@)
}

fn plain_row(text: &String) -> (r: Row)
    ensures
        r@ == text_row(text@),
{
    Row { text: text.clone(), selected: false, candidate: None, horizontal: false }
}

/// Label followed by text.
fn candidate_line(label: &String, text: &String) -> (r: String)
    ensures
        r@ == label@ + text@,
{
    let mut s = label.clone();
    s.append(text.as_str());
    s
}

/// All candidates joined on one line.
fn join_candidates(state: &PanelState) -> (r: String)
    ensures
        r@ == joined(state@.candidates),
{
    let ghost cs = state@.candidates;
    let mut text = String::new();
    let mut i: usize = 0;
    let sep = "   ";
    proof {
        reveal_strlit("   ");
        assert(cs.take(0) =~= Seq::<CandidateView>::empty());
    }
    while i < state.candidates.len()
        invariant
            i <= state.candidates@.len(),
            cs == state@.candidates,
            sep@ == separator(),
            text@ == joined(cs.take(i as int)),
        decreases state.candidates@.len() - i,
    {
        let c = &state.candidates[i];
        assert(cs[i as int] == c@);
        if i > 0 {
            text.append(sep);
        }
        text.append(c.label.as_str());
        text.append(c.text.as_str());
        assert(cs.take(i + 1).drop_last() =~= cs.take(i as int));
        assert(cs.take(i + 1).last() == cs[i as int]);
        if i == 0 {
            assert(text@ =~= label_text(cs[0]));
        } else {
            assert(text@ =~= joined(cs.take(i as int)) + separator() + label_text(cs[i as int]));
        }
        i = i + 1;
    }
    assert(cs.take(i as int) =~= cs);
    text
}

/// The rows the bar shows for a state.
pub fn build_rows(state: &PanelState) -> (rows: Vec<Row>)
    ensures
        row_views(rows@) == rows_of(state@),
{
    let ghost v = state@;
    let mut rows: Vec<Row> = Vec::new();
    if state.preedit_visible && !state.preedit.as_str().is_empty() {
        rows.push(plain_row(&state.preedit));
    } else if state.aux_visible && !state.aux.as_str().is_empty() {
        rows.push(plain_row(&state.aux));
    }
    let aux_row = !state.aux_down.as_str().is_empty();
    if aux_row {
        rows.push(plain_row(&state.aux_down));
    }
    assert(row_views(rows@) =~= header_rows(v));
    let ghost head = row_views(rows@);
    let off: usize = if aux_row {
        1
    } else {
        0
    };
    if !state.candidates.is_empty() {
        match state.layout {
            CandidateLayout::Horizontal | CandidateLayout::NotSet => {
                let text = join_candidates(state);
                rows.push(
                    Row { text, selected: state.selected >= 0, candidate: None, horizontal: true },
                );
            },
            _ => {
                let n = state.candidates.len();
                let mut i: usize = 0;
                while i < n
                    invariant
                        i <= n,
                        n == state.candidates@.len(),
                        v == state@,
                        off == (if v.aux_down.len() > 0 {
                            1usize
                        } else {
                            0usize
                        }),
                        !is_horizontal(v.layout),
                        row_views(rows@) =~= head + candidate_rows(v).take(i as int),
                        head == header_rows(v),
                    decreases n - i,
                {
                    let c = &state.candidates[i];
                    assert(v.candidates[i as int] == c@);
                    let sel = state.selected >= 0 && i == state.selected as usize;
                    assert(sel == (i as int == v.selected));
                    let row = Row {
                        text: candidate_line(&c.label, &c.text),
                        selected: sel,
                        candidate: Some(i + off),
                        horizontal: false,
                    };
                    assert(row@ == candidate_rows(v)[i as int]);
                    let ghost before = rows@;
                    rows.push(row);
                    assert(row_views(rows@) =~= row_views(before).push(row@));
                    assert(candidate_rows(v).take(i + 1) =~= candidate_rows(v).take(i as int).push(
                        candidate_rows(v)[i as int],
                    ));
                    i = i + 1;
                }
                assert(candidate_rows(v).take(n as int) =~= candidate_rows(v));
            },
        }
    }
    assert(row_views(rows@) =~= rows_of(v));
    rows
}

/// The bar has rows exactly when the state has content, and the visibility
/// flag does not change the rows: after any update that recomputes
/// visibility, the bar is visible exactly when there is something to draw.
pub proof fn lemma_visible_iff_rows(v: PanelView)
    ensures
        rows_of(v).len() > 0 <==> v.has_content(),
        rows_of(v.recomputed()) == rows_of(v),
        v.recomputed().visible <==> rows_of(v).len() > 0,
{
    assert(rows_of(v.recomputed()) =~= rows_of(v));
}

/// Under the layout Fcitx sends by default (no hint) and under an explicit
/// horizontal hint, the candidates follow the header rows as one joined
/// horizontal row, highlighted when a candidate is selected; under a
/// vertical or table hint they follow as one row per candidate, each
/// reporting its own table row on click (counting the aux-down row) and
/// highlighted when it is the selected one.
pub proof fn lemma_candidate_rows_by_layout(v: PanelView)
    requires
        v.candidates.len() > 0,
    ensures
        v.layout == CandidateLayout::NotSet || v.layout == CandidateLayout::Horizontal ==> {
            &&& rows_of(v).len() == header_rows(v).len() + 1
            &&& rows_of(v).last() == (RowView {
                text: joined(v.candidates),
                selected: v.selected >= 0,
                candidate: None,
                horizontal: true,
            })
        },
        v.layout == CandidateLayout::Vertical || v.layout == CandidateLayout::Table ==> {
            &&& rows_of(v).len() == header_rows(v).len() + v.candidates.len()
            &&& forall|i: int|
                0 <= i < v.candidates.len() ==> #[trigger] rows_of(v)[header_rows(v).len() + i] == (
                RowView {
                    text: v.candidates[i].label + v.candidates[i].text,
                    selected: i == v.selected,
                    candidate: Some(
                        (i + if v.aux_down.len() > 0 {
                            1int
                        } else {
                            0int
                        }) as usize,
                    ),
                    horizontal: false,
                })
        },
        forall|i: int|
            0 <= i < header_rows(v).len() ==> !(#[trigger] rows_of(v)[i]).horizontal
                && rows_of(v)[i].candidate is None && !rows_of(v)[i].selected,
{
    let h = header_rows(v);
    let c = candidate_rows(v);
    assert(rows_of(v) =~= h + c);
    assert forall|i: int| 0 <= i < h.len() implies !(#[trigger] rows_of(v)[i]).horizontal
        && rows_of(v)[i].candidate is None && !rows_of(v)[i].selected by {
        assert(rows_of(v)[i] == h[i]);
    }
    if v.layout == CandidateLayout::Vertical || v.layout == CandidateLayout::Table {
        assert forall|i: int| 0 <= i < v.candidates.len() implies #[trigger] rows_of(v)[h.len() + i]
            == c[i] by {}
    }
}

// ---------------------------------------------------------------------------
// Horizontal candidate segments and clicks.

/// Left edge of segment `i`: the widths and separators before it.
pub open spec fn segment_start(widths: Seq<i32>, sep: i32, i: int) -> int
    decreases i,
{
    if i <= 0 {
        0
    } else {
        segment_start(widths, sep, i - 1) + widths[i - 1] + sep
    }
}

proof fn lemma_segment_start_monotonic(widths: Seq<i32>, sep: i32, i: int, j: int)
    requires
        0 <= i <= j <= widths.len(),
        sep >= 0,
        forall|k: int| 0 <= k < widths.len() ==> widths[k] >= 0,
    ensures
        segment_start(widths, sep, i) <= segment_start(widths, sep, j),
        i < j ==> segment_start(widths, sep, i) + widths[i] <= segment_start(widths, sep, j),
    decreases j - i,
{
    if i < j {
        lemma_segment_start_monotonic(widths, sep, i, j - 1);
    }
}

/// Segments that start at or after 0, are non-empty or empty but never
/// reversed, and follow each other without overlapping.
pub open spec fn ordered_segments(segs: Seq<(i32, i32)>) -> bool {
    &&& forall|a: int| 0 <= a < segs.len() ==> 0 <= #[trigger] segs[a].0 <= segs[a].1
    &&& forall|a: int, b: int|
        (0 <= a && a < b && b < segs.len()) ==> #[trigger] segs[a].1 <= #[trigger] segs[b].0
}

proof fn lemma_segments_ordered(ws: Seq<i32>, sep: i32, ss: Seq<(i32, i32)>)
    requires
        sep >= 0,
        forall|k: int| 0 <= k < ws.len() ==> ws[k] >= 0,
        ss.len() == ws.len(),
        forall|k: int|
            0 <= k < ss.len() ==> #[trigger] ss[k].0 == segment_start(ws, sep, k) && ss[k].1
                == segment_start(ws, sep, k) + ws[k],
    ensures
        ordered_segments(ss),
{
    assert forall|a: int| 0 <= a < ss.len() implies 0 <= #[trigger] ss[a].0 <= ss[a].1 by {
        lemma_segment_start_monotonic(ws, sep, 0, a);
        assert(ws[a] >= 0);
    }
    assert forall|a: int, b: int|
        (0 <= a && a < b && b < ss.len()) implies #[trigger] ss[a].1 <= #[trigger] ss[b].0 by {
        lemma_segment_start_monotonic(ws, sep, a, b);
        assert(ss[a].0 == segment_start(ws, sep, a));
        assert(ss[a].1 == segment_start(ws, sep, a) + ws[a]);
        assert(ss[b].0 == segment_start(ws, sep, b));
    }
}

/// The x range of each candidate in the horizontal row, given the painted
/// width of each candidate's label and text and the width of the separator.
pub fn segments_from_widths(widths: &Vec<i32>, sep: i32) -> (segs: Vec<(i32, i32)>)
    requires
        sep >= 0,
        forall|k: int| 0 <= k < widths@.len() ==> widths@[k] >= 0,
        segment_start(widths@, sep, widths@.len() as int) <= i32::MAX,
    ensures
        segs@.len() == widths@.len(),
        forall|i: int|
            0 <= i < segs@.len() ==> #[trigger] segs@[i].0 == segment_start(widths@, sep, i)
                && segs@[i].1 == segment_start(widths@, sep, i) + widths@[i],
        ordered_segments(segs@),
{
    let ghost ws = widths@;
    let n = widths.len();
    let mut segs: Vec<(i32, i32)> = Vec::new();
    let mut x: i32 = 0;
    let mut i: usize = 0;
    while i < n
        invariant
            i <= n,
            n == ws.len(),
            ws == widths@,
            sep >= 0,
            forall|k: int| 0 <= k < ws.len() ==> ws[k] >= 0,
            segment_start(ws, sep, n as int) <= i32::MAX,
            x == segment_start(ws, sep, i as int),
            segs@.len() == i,
            forall|k: int|
                0 <= k < i ==> #[trigger] segs@[k].0 == segment_start(ws, sep, k) && segs@[k].1
                    == segment_start(ws, sep, k) + ws[k],
        decreases n - i,
    {
        proof {
            lemma_segment_start_monotonic(ws, sep, i as int, n as int);
            lemma_segment_start_monotonic(ws, sep, (i + 1) as int, n as int);
        }
        let w = widths[i];
        segs.push((x, x + w));
        x = x + w + sep;
        i = i + 1;
    }
    proof {
        lemma_segments_ordered(ws, sep, segs@);
    }
    segs
}

/// Whether a click at `x` falls in a segment (its bounds read as unsigned
/// pixel columns).
pub open spec fn segment_hit(seg: (i32, i32), x: u32) -> bool {
    x >= seg.0 as u32 && x < seg.1 as u32
}

/// In a row of ordered segments a click falls in at most one of them.
pub proof fn lemma_click_hits_one_segment(segs: Seq<(i32, i32)>, x: u32, i: int, j: int)
    requires
        ordered_segments(segs),
        0 <= i < segs.len(),
        0 <= j < segs.len(),
        segment_hit(segs[i], x),
        segment_hit(segs[j], x),
    ensures
        i == j,
{
    if i < j {
        assert(segs[i].1 <= segs[j].0);
        assert(0 <= segs[i].0 <= segs[i].1);
        assert(0 <= segs[j].0 <= segs[j].1);
    } else if j < i {
        assert(segs[j].1 <= segs[i].0);
        assert(0 <= segs[i].0 <= segs[i].1);
        assert(0 <= segs[j].0 <= segs[j].1);
    }
}

/// Index of the first segment that contains `x`.
pub open spec fn first_hit(segs: Seq<(i32, i32)>, x: u32) -> Option<int>
    decreases segs.len(),
{
    if segs.len() == 0 {
        None
    } else {
        match first_hit(segs.drop_last(), x) {
            Some(i) => Some(i),
            None => if segment_hit(segs.last(), x) {
                Some(segs.len() - 1)
            } else {
                None
            },
        }
    }
}

proof fn lemma_first_hit_bounds(segs: Seq<(i32, i32)>, x: u32)
    ensures
        first_hit(segs, x) matches Some(i) ==> 0 <= i < segs.len() && segment_hit(segs[i], x),
    decreases segs.len(),
{
    if segs.len() > 0 {
        lemma_first_hit_bounds(segs.drop_last(), x);
    }
}

/// The row index reported to Fcitx for a click at (`x`, `y`) on the bar:
/// the clicked row's candidate for a vertical list, or the candidate whose
/// segment holds `x` (counting the aux-down row) for a horizontal one.
pub open spec fn click_target(v: PanelView, segs: Seq<(i32, i32)>, x: u32, y: u32) -> Option<usize> {
    let rows = rows_of(v);
    let r = (y / LINE_HEIGHT) as int;
    let off: int = if v.aux_down.len() > 0 {
        1
    } else {
        0
    };
    if r >= rows.len() {
        None
    } else if rows[r].horizontal {
        match first_hit(segs, x) {
            Some(i) => Some((i + off) as usize),
            None => None,
        }
    } else {
        rows[r].candidate
    }
}

fn find_segment(segs: &Vec<(i32, i32)>, x: u32) -> (r: Option<usize>)
    ensures
        r matches Some(i) ==> first_hit(segs@, x) == Some(i as int),
        r is None ==> first_hit(segs@, x) is None,
{
    let mut i: usize = 0;
    while i < segs.len()
        invariant
            i <= segs@.len(),
            first_hit(segs@.take(i as int), x) is None,
        decreases segs@.len() - i,
    {
        let (s, e) = segs[i];
        assert(segs@.take(i + 1).drop_last() =~= segs@.take(i as int));
        if x >= s as u32 && x < e as u32 {
            proof {
                lemma_first_hit_prefix(segs@, x, i + 1);
            }
            return Some(i);
        }
        i = i + 1;
    }
    assert(segs@.take(i as int) =~= segs@);
    None
}

proof fn lemma_first_hit_prefix(segs: Seq<(i32, i32)>, x: u32, k: int)
    requires
        0 <= k <= segs.len(),
        first_hit(segs.take(k), x) is Some,
    ensures
        first_hit(segs, x) == first_hit(segs.take(k), x),
    decreases segs.len() - k,
{
    if k < segs.len() {
        assert(segs.take(k + 1).drop_last() =~= segs.take(k));
        lemma_first_hit_prefix(segs, x, k + 1);
    } else {
        assert(segs.take(k) =~= segs);
    }
}

/// The Fcitx row index selected by a primary-button click at (`x`, `y`),
/// given the x ranges of the horizontal row's candidates.
pub fn clicked_candidate(state: &PanelState, segments: &Vec<(i32, i32)>, x: u32, y: u32) -> (r:
    Option<usize>)
    ensures
        r == click_target(state@, segments@, x, y),
{
    let rows = build_rows(state);
    let row = y.saturating_sub(PADDING) / LINE_HEIGHT;
    if row as usize >= rows.len() {
        return None;
    }
    let r = &rows[row as usize];
    assert(r@ == rows_of(state@)[row as int]);
    if r.horizontal {
        let aux: usize = if state.aux_down.as_str().is_empty() {
            0
        } else {
            1
        };
        match find_segment(segments, x) {
            Some(i) => {
                proof {
                    lemma_first_hit_bounds(segments@, x);
                }
                assert(i < segments.len());
                Some(i + aux)
            },
            None => None,
        }
    } else {
        r.candidate
    }
}

/// A click selects only through the row it lands on: a click on a header
/// row (preedit or aux line, aux-down line) or below the last row selects
/// nothing; a click on a row of a vertical list selects that row's
/// candidate; only a click on the joined horizontal row is resolved by its
/// x position, to the candidate whose segment holds it.
pub proof fn lemma_click_follows_clicked_row(v: PanelView, segs: Seq<(i32, i32)>, x: u32, y: u32)
    ensures
        ({
            let r = (y / LINE_HEIGHT) as int;
            let rows = rows_of(v);
            &&& r < header_rows(v).len() ==> click_target(v, segs, x, y) is None
            &&& r >= rows.len() ==> click_target(v, segs, x, y) is None
            &&& r < rows.len() && !rows[r].horizontal ==> click_target(v, segs, x, y)
                == rows[r].candidate
            &&& click_target(v, segs, x, y) is Some && r < rows.len() && rows[r].horizontal ==> {
                &&& v.layout == CandidateLayout::NotSet || v.layout == CandidateLayout::Horizontal
                &&& r == rows.len() - 1
                &&& exists|i: int|
                    0 <= i < segs.len() && segment_hit(segs[i], x) && click_target(v, segs, x, y)
                        == Some(
                        (i + if v.aux_down.len() > 0 {
                            1int
                        } else {
                            0int
                        }) as usize,
                    )
            }
        }),
{
    let r = (y / LINE_HEIGHT) as int;
    let h = header_rows(v);
    let c = candidate_rows(v);
    assert(rows_of(v) =~= h + c);
    lemma_first_hit_bounds(segs, x);
    if r < h.len() {
        assert(rows_of(v)[r] == h[r]);
    }
    if r < rows_of(v).len() && r >= h.len() {
        assert(rows_of(v)[r] == c[r - h.len()]);
    }
    if click_target(v, segs, x, y) is Some && r < rows_of(v).len() && rows_of(v)[r].horizontal {
        let i = first_hit(segs, x)->0;
        assert(0 <= i < segs.len() && segment_hit(segs[i], x));
    }
}

/// A click on a candidate reports the index, in the last `SetLookupTable`
/// Fcitx sent, of the row that holds that candidate (as long as there is no
/// more than one segment per candidate).
#[verifier::rlimit(30)]
pub proof fn lemma_click_reports_table_row(
    v: PanelView,
    labels: Seq<Seq<char>>,
    texts: Seq<Seq<char>>,
    hints: Seq<Seq<char>>,
    has_previous: bool,
    has_next: bool,
    selected: i32,
    layout: i32,
    segs: Seq<(i32, i32)>,
    x: u32,
    y: u32,
)
    requires
        labels.len() == texts.len(),
        texts.len() == hints.len(),
        labels.len() <= usize::MAX,
        segs.len() <= v.with_lookup_table(
            labels,
            texts,
            hints,
            has_previous,
            has_next,
            selected,
            layout,
        ).candidates.len(),
    ensures
        ({
            let s = v.with_lookup_table(labels, texts, hints, has_previous, has_next, selected, layout);
            let off = crate::model::aux_offset(labels, texts);
            click_target(s, segs, x, y) matches Some(k) ==> off <= k < labels.len() && s.candidates[k
                - off] == (CandidateView { label: labels[k as int], text: texts[k as int], hint: hints[k as int] })
        }),
{
    let s = v.with_lookup_table(labels, texts, hints, has_previous, has_next, selected, layout);
    let off = crate::model::aux_offset(labels, texts);
    let cands = crate::model::table_candidates(labels, texts, hints, off);
    assert(s.candidates == cands);
    assert(s.aux_down.len() > 0 <==> off == 1);
    assert(cands.len() == labels.len() - off);
    lemma_first_hit_bounds(segs, x);
    let rows = rows_of(s);
    let r = (y / LINE_HEIGHT) as int;
    if r < rows.len() {
        let h = header_rows(s);
        let c = candidate_rows(s);
        assert(rows =~= h + c);
        if !rows[r].horizontal {
            if r >= h.len() {
                assert(rows[r] == c[r - h.len()]);
                if !is_horizontal(s.layout) && cands.len() > 0 {
                    let i = r - h.len();
                    assert(c[i].candidate == Some((i + off) as usize));
                    assert(cands[i] == (CandidateView {
                        label: labels[i + off],
                        text: texts[i + off],
                        hint: hints[i + off],
                    }));
                }
            } else {
                assert(rows[r] == h[r]);
            }
        }
    }
}

/// The x range highlighted for the selected row: the selected candidate's
/// segment in a horizontal row (the whole width when there is no such
/// segment), the full row otherwise.
pub open spec fn highlight_range(horizontal: bool, segs: Seq<(i32, i32)>, selected: i32, w: u32) -> (
    int,
    int,
) {
    let text_x = PADDING as int;
    if horizontal {
        let idx: int = if selected >= 0 {
            selected as int
        } else {
            0
        };
        if idx < segs.len() {
            (segs[idx].0 + text_x, segs[idx].1 + text_x)
        } else {
            (text_x, w - text_x)
        }
    } else {
        (text_x - 2, w - text_x + 2)
    }
}

/// The x range to fill behind the selected row.
pub fn highlight_span(horizontal: bool, segments: &Vec<(i32, i32)>, selected: i32, w: u32) -> (r: (
    i32,
    i32,
))
    requires
        w <= i32::MAX - 2,
        forall|i: int| 0 <= i < segments@.len() ==> #[trigger] segments@[i].1 <= i32::MAX - PADDING,
        forall|i: int| 0 <= i < segments@.len() ==> #[trigger] segments@[i].0 <= i32::MAX - PADDING,
    ensures
        r.0 as int == highlight_range(horizontal, segments@, selected, w).0,
        r.1 as int == highlight_range(horizontal, segments@, selected, w).1,
{
    let text_x: i32 = PADDING as i32;
    if horizontal {
        let idx: usize = if selected >= 0 {
            selected as usize
        } else {
            0
        };
        if idx < segments.len() {
            let (a, b) = segments[idx];
            (a + text_x, b + text_x)
        } else {
            (text_x, w as i32 - text_x)
        }
    } else {
        (text_x - 2, w as i32 - text_x + 2)
    }
}

// ---------------------------------------------------------------------------
// Size and placement.

/// Where a horizontal row highlights the selected candidate, a click
/// selects that same candidate: every column of the highlighted span lies
/// in the selected candidate's segment and in no other.
pub proof fn lemma_highlight_is_click_target(segs: Seq<(i32, i32)>, selected: i32, w: u32, x: u32)
    requires
        ordered_segments(segs),
        0 <= selected < segs.len(),
        highlight_range(true, segs, selected, w).0 <= x < highlight_range(true, segs, selected, w).1,
    ensures
        first_hit(segs, x) == Some(selected as int),
{
    let i = selected as int;
    assert(0 <= segs[i].0 <= segs[i].1);
    assert(segment_hit(segs[i], x));
    lemma_first_hit_finds(segs, x, i);
    lemma_first_hit_bounds(segs, x);
    lemma_click_hits_one_segment(segs, x, first_hit(segs, x)->0, i);
}

proof fn lemma_first_hit_finds(segs: Seq<(i32, i32)>, x: u32, i: int)
    requires
        0 <= i < segs.len(),
        segment_hit(segs[i], x),
    ensures
        first_hit(segs, x) is Some,
    decreases segs.len(),
{
    if i < segs.len() - 1 {
        assert(segs.drop_last()[i] == segs[i]);
        lemma_first_hit_finds(segs.drop_last(), x, i);
    }
}

/// Height of the bar: one slot per row while visible, 0 when hidden.
pub open spec fn bar_height_of(visible: bool, row_count: int) -> int {
    if visible && row_count > 0 {
        row_count * LINE_HEIGHT
    } else {
        0
    }
}

/// The height to request for the bar.
pub fn bar_height(visible: bool, row_count: usize) -> (h: u32)
    requires
        row_count * LINE_HEIGHT <= u32::MAX,
    ensures
        h == bar_height_of(visible, row_count as int),
{
    if visible && row_count > 0 {
        row_count as u32 * LINE_HEIGHT
    } else {
        0
    }
}

/// A visible bar with rows is exactly as tall as its row slots, every
/// slot lies inside it, and a hidden or empty bar has no height.
pub proof fn lemma_bar_holds_every_slot(visible: bool, row_count: int, row: int)
    requires
        row_count >= 0,
    ensures
        visible && row_count > 0 ==> bar_height_of(visible, row_count) == slot_top(row_count),
        visible && 0 <= row < row_count ==> 0 <= slot_top(row) && slot_top(row) + LINE_HEIGHT
            <= bar_height_of(visible, row_count),
        !visible || row_count == 0 ==> bar_height_of(visible, row_count) == 0,
{
    if visible && 0 <= row < row_count {
        assert(row * 22 + 22 <= row_count * 22) by (nonlinear_arith)
            requires
                0 <= row < row_count,
        ;
        assert(0 <= row * 22) by (nonlinear_arith)
            requires
                0 <= row,
        ;
    }
}

/// Widest bar the panel asks for, in pixels.
pub const MAX_BAR_WIDTH: u32 = 2000;

/// Width of the bar for text `content` pixels wide: the content plus the
/// insets, at least 1 and at most [`MAX_BAR_WIDTH`].
pub fn bar_width_for(content: u32) -> (w: u32)
    ensures
        w == if content + 2 * PADDING < 1 {
            1
        } else if content + 2 * PADDING > MAX_BAR_WIDTH {
            MAX_BAR_WIDTH as int
        } else {
            content + 2 * PADDING
        },
{
    let total = content + 2 * PADDING;
    if total < 1 {
        1
    } else if total > MAX_BAR_WIDTH {
        MAX_BAR_WIDTH
    } else {
        total
    }
}

/// Top edge of row slot `row`: every row owns one [`LINE_HEIGHT`] slot.
pub open spec fn slot_top(row: int) -> int {
    row * LINE_HEIGHT
}

/// Baseline offset of text within its slot.
pub const SLOT_BASELINE: i32 = 16;

/// Top edge and text baseline of row slot `row`.
pub fn row_slot(row: usize) -> (r: (i32, i32))
    requires
        row * LINE_HEIGHT + SLOT_BASELINE <= i32::MAX,
    ensures
        r.0 == slot_top(row as int),
        r.1 == slot_top(row as int) + SLOT_BASELINE,
{
    let top = row as i32 * LINE_HEIGHT as i32;
    (top, top + SLOT_BASELINE)
}

/// A click anywhere in the slot where a row is painted resolves to that
/// row.
pub proof fn lemma_click_row_is_painted_row(row: int, y: u32)
    requires
        0 <= row,
        slot_top(row) <= y < slot_top(row) + LINE_HEIGHT,
    ensures
        (y / LINE_HEIGHT) as int == row,
{
    assert(y as int / 22 == row) by (nonlinear_arith)
        requires
            row * 22 <= y < row * 22 + 22,
            0 <= row,
    ;
}

/// The caret rectangle the bar follows: only an absolute, non-empty spot of
/// a visible bar with rows.
pub open spec fn followed_spot(v: PanelView, row_count: int) -> Option<Rect> {
    if v.visible && row_count > 0 && v.spot_absolute && v.spot is Some && (v.spot->0.width > 0
        || v.spot->0.height > 0) {
        v.spot
    } else {
        None
    }
}

/// The caret rectangle to follow, if any.
pub fn follow_spot(state: &PanelState, row_count: usize) -> (r: Option<Rect>)
    ensures
        r == followed_spot(state@, row_count as int),
{
    if state.visible && row_count > 0 && state.spot_absolute {
        match state.spot {
            Some(s) => if s.width > 0 || s.height > 0 {
                Some(s)
            } else {
                None
            },
            None => None,
        }
    } else {
        None
    }
}

/// Which output the bar's layer surface is bound to (outputs named by their
/// index), and whether it must be recreated: a followed caret binds it to
/// the caret's output; becoming visible with no caret to follow recreates
/// it with no binding, so the compositor maps it on its active output;
/// otherwise the binding is kept.
pub open spec fn binding_for(spot_output: Option<usize>, current: Option<usize>, was_visible: bool, visible: bool) -> (
    bool,
    Option<usize>,
) {
    match spot_output {
        Some(o) => (current != Some(o), Some(o)),
        None => if visible && !was_visible {
            (true, None)
        } else {
            (false, current)
        },
    }
}

/// Whether to recreate the bar's layer surface, and the output to bind it
/// to: see [`binding_for`].
pub fn layer_binding(spot_output: Option<usize>, current: Option<usize>, was_visible: bool, visible: bool) -> (r: (
    bool,
    Option<usize>,
))
    ensures
        r == binding_for(spot_output, current, was_visible, visible),
        visible && !was_visible && spot_output is None ==> r == (true, None::<usize>),
        spot_output is Some ==> r.1 == spot_output,
{
    match spot_output {
        Some(o) => {
            let same = match current {
                Some(c) => c == o,
                None => false,
            };
            (!same, Some(o))
        },
        None => if visible && !was_visible {
            (true, None)
        } else {
            (false, current)
        },
    }
}

/// Shortest time between two paints, in milliseconds: bursts of updates
/// (Fcitx sends preedit and lookup table separately) are coalesced.
pub const REPAINT_INTERVAL_MS: u64 = 16;

/// Whether a pending change is held back: the last paint was less than
/// [`REPAINT_INTERVAL_MS`] ago.
pub open spec fn throttled(dirty: bool, since_last_paint_ms: Option<u64>) -> bool {
    dirty && since_last_paint_ms is Some && since_last_paint_ms->0 < REPAINT_INTERVAL_MS
}

/// Whether to repaint now, and whether this paint restarts the interval
/// (a pending change that is not held back).
pub fn repaint_decision(dirty: bool, since_last_paint_ms: Option<u64>) -> (r: (bool, bool))
    ensures
        r.0 == !throttled(dirty, since_last_paint_ms),
        r.1 == (dirty && !throttled(dirty, since_last_paint_ms)),
{
    let throttle = dirty && match since_last_paint_ms {
        Some(ms) => ms < REPAINT_INTERVAL_MS,
        None => false,
    };
    (!throttle, dirty && !throttle)
}

/// Which screen edge or corner the bar is anchored to.
#[derive(Debug, Clone, Copy, PartialEq, Eq, Structural)]
pub enum BarAnchor {
    TopLeft,
    Bottom,
}

/// Anchor and (left, top) margins of the bar's layer surface.
#[derive(Debug, Clone, Copy, PartialEq, Eq, Structural)]
pub struct BarLayout {
    pub anchor: BarAnchor,
    pub margin_left: i32,
    pub margin_top: i32,
}

/// The size a bottom-anchored layer surface is asked for: a hidden bar
/// (height 0) asks for height 1 and attaches no buffer, since such a
/// surface may not request height 0.
pub open spec fn requested_height(height: u32) -> u32 {
    if height == 0 {
        1
    } else {
        height
    }
}

/// The size part of a repaint, from the bar's previous and new
/// (width, height): whether the surface is resized (and so must be
/// redrawn), the height it asks for, and whether the repaint stops there
/// because the bar is now hidden.
pub fn size_step(previous: (u32, u32), desired: (u32, u32)) -> (r: (bool, u32, bool))
    ensures
        r.0 == (previous != desired),
        r.1 == requested_height(desired.1),
        r.2 == (previous != desired && desired.1 == 0),
{
    let resize = previous.0 != desired.0 || previous.1 != desired.1;
    let requested = if desired.1 == 0 {
        1
    } else {
        desired.1
    };
    (resize, requested, resize && desired.1 == 0)
}

/// The anchoring part of a repaint: the surface is re-anchored when the
/// bar's placement changed or the surface was recreated, and drawn when a
/// change is pending or it was re-anchored.
pub fn anchor_step(previous: BarLayout, layout: BarLayout, recreated: bool, dirty: bool) -> (r: (
    bool,
    bool,
))
    ensures
        r.0 == (previous != layout || recreated),
        r.1 == (dirty || r.0),
{
    let same_anchor = match (previous.anchor, layout.anchor) {
        (BarAnchor::TopLeft, BarAnchor::TopLeft) => true,
        (BarAnchor::Bottom, BarAnchor::Bottom) => true,
        _ => false,
    };
    let changed = !same_anchor || previous.margin_left != layout.margin_left
        || previous.margin_top != layout.margin_top;
    let reanchor = changed || recreated;
    (reanchor, dirty || reanchor)
}

/// Logical position and size of an output: ((x, y), (width, height)).
pub type OutputGeometry = ((i32, i32), (i32, i32));

/// Whether the logical rectangle of an output holds the point (`x`, `y`).
pub open spec fn output_holds(geometry: OutputGeometry, x: i32, y: i32) -> bool {
    let ((px, py), (pw, ph)) = geometry;
    px <= x < px + pw && py <= y < py + ph
}

/// Whether an output's logical rectangle contains a point.
pub fn output_contains(geometry: OutputGeometry, x: i32, y: i32) -> (r: bool)
    requires
        i32::MIN <= geometry.0.0 + geometry.1.0 <= i32::MAX,
        i32::MIN <= geometry.0.1 + geometry.1.1 <= i32::MAX,
    ensures
        r == output_holds(geometry, x, y),
{
    let ((px, py), (pw, ph)) = geometry;
    x >= px && x < px + pw && y >= py && y < py + ph
}

/// A rectangle given relative to an output, moved to global coordinates by
/// the output's `origin`; `None` when a coordinate would leave 32 bits.
pub fn translate_to_global(local: Rect, origin: (i32, i32)) -> (r: Option<Rect>)
    ensures
        r is Some <==> (i32::MIN <= local.x + origin.0 <= i32::MAX && i32::MIN <= local.y + origin.1
            <= i32::MAX),
        r matches Some(g) ==> g == (Rect {
            x: (local.x + origin.0) as i32,
            y: (local.y + origin.1) as i32,
            width: local.width,
            height: local.height,
        }),
{
    let x = local.x.checked_add(origin.0);
    let y = local.y.checked_add(origin.1);
    match (x, y) {
        (Some(x), Some(y)) => Some(Rect { x, y, width: local.width, height: local.height }),
        _ => None,
    }
}

/// Top edge of the bar in global coordinates: just below the caret when it
/// ends above the output's bottom edge `out_bottom`, otherwise ending at the
/// caret's top (not above 0).
pub open spec fn bar_top(spot: Rect, height: int, out_bottom: int) -> int {
    let below = spot.y + spot.height + SPOT_GAP;
    if below + height <= out_bottom {
        below
    } else if spot.y - height >= 0 {
        spot.y - height
    } else {
        0
    }
}

pub open spec fn output_origin(output: Option<OutputGeometry>) -> (int, int) {
    match output {
        Some(g) => (g.0.0 as int, g.0.1 as int),
        None => (0, 0),
    }
}

/// Global y of an output's bottom edge (the fallback output sits at 0).
pub open spec fn output_bottom(output: Option<OutputGeometry>) -> int {
    match output {
        Some(g) => g.0.1 + g.1.1,
        None => FALLBACK_OUTPUT_HEIGHT as int,
    }
}

/// Where the bar goes: pinned top-left near a followed caret on that
/// caret's output, otherwise at the bottom edge with no margins.
pub open spec fn layout_for(spot: Option<Rect>, height: int, output: Option<OutputGeometry>) -> (
    BarAnchor,
    int,
    int,
) {
    match spot {
        Some(s) => {
            let (px, py) = output_origin(output);
            let top = bar_top(s, height, output_bottom(output));
            let left = s.x - px;
            let mtop = top - py - FOLLOW_Y_OFFSET;
            (BarAnchor::TopLeft, if left > 0 {
                left
            } else {
                0
            }, if mtop > 0 {
                mtop
            } else {
                0
            })
        },
        None => (BarAnchor::Bottom, 0, 0),
    }
}

/// Whether every intermediate of the placement fits in 32 bits.
pub open spec fn placement_in_range(spot: Option<Rect>, height: u32, output: Option<OutputGeometry>) -> bool {
    match spot {
        Some(s) => {
            let (px, py) = output_origin(output);
            let h = height as int;
            let below = s.y + s.height + SPOT_GAP;
            let top = bar_top(s, h, output_bottom(output));
            &&& h <= i32::MAX
            &&& i32::MIN <= s.y + s.height && below + h <= i32::MAX
            &&& i32::MIN <= s.y - h
            &&& i32::MIN <= s.x - px <= i32::MAX
            &&& i32::MIN <= top - py - FOLLOW_Y_OFFSET <= i32::MAX
            &&& i32::MIN <= top - py
        },
        None => true,
    }
}

/// Whether the bar can be placed near the caret `spot` without any
/// coordinate leaving 32 bits: see [`placement_in_range`].
pub fn placement_fits(spot: Rect, height: u32, output: Option<OutputGeometry>) -> (r: bool)
    ensures
        r == placement_in_range(Some(spot), height, output),
{
    let (px, py): (i64, i64) = match output {
        Some(g) => (g.0.0 as i64, g.0.1 as i64),
        None => (0, 0),
    };
    let out_bottom: i64 = match output {
        Some(g) => g.0.1 as i64 + g.1.1 as i64,
        None => FALLBACK_OUTPUT_HEIGHT as i64,
    };
    let h = height as i64;
    let min = i32::MIN as i64;
    let max = i32::MAX as i64;
    let below = spot.y as i64 + spot.height as i64 + SPOT_GAP as i64;
    let top = if below + h <= out_bottom {
        below
    } else if spot.y as i64 - h >= 0 {
        spot.y as i64 - h
    } else {
        0
    };
    let left = spot.x as i64 - px;
    let mtop = top - py - FOLLOW_Y_OFFSET as i64;
    h <= max && min <= spot.y as i64 + spot.height as i64 && below + h <= max && min <= spot.y as i64
        - h && min <= left && left <= max && min <= mtop && mtop <= max && min <= top - py
}

/// Anchor and margins of the bar for a followed caret `spot` (or none), a
/// bar `height` pixels tall, and the geometry of the caret's output.
pub fn bar_placement(spot: Option<Rect>, height: u32, output: Option<OutputGeometry>) -> (r:
    BarLayout)
    requires
        placement_in_range(spot, height, output),
    ensures
        (r.anchor, r.margin_left as int, r.margin_top as int) == layout_for(spot, height as int, output),
{
    match spot {
        Some(s) => {
            let (px, py) = match output {
                Some(g) => g.0,
                None => (0, 0),
            };
            let out_bottom: i64 = match output {
                Some(g) => g.0.1 as i64 + g.1.1 as i64,
                None => FALLBACK_OUTPUT_HEIGHT as i64,
            };
            let h = height as i32;
            let below = s.y + s.height + SPOT_GAP;
            let top = if below as i64 + h as i64 <= out_bottom {
                below
            } else {
                let above = s.y - h;
                if above >= 0 {
                    above
                } else {
                    0
                }
            };
            let left = s.x - px;
            let mtop = top - py - FOLLOW_Y_OFFSET;
            BarLayout {
                anchor: BarAnchor::TopLeft,
                margin_left: if left > 0 {
                    left
                } else {
                    0
                },
                margin_top: if mtop > 0 {
                    mtop
                } else {
                    0
                },
            }
        },
        None => BarLayout { anchor: BarAnchor::Bottom, margin_left: 0, margin_top: 0 },
    }
}

/// A bar placed near the caret never covers the caret's rows: it starts at
/// least the gap below the caret's bottom edge, or ends at the caret's top
/// edge, unless the caret is too close to the top of the screen for either;
/// and it starts below the caret whenever it fits there above the output's
/// bottom edge.
pub proof fn lemma_bar_clears_caret(spot: Rect, height: int, out_bottom: int)
    requires
        height >= 0,
        spot.height >= 0,
    ensures
        bar_top(spot, height, out_bottom) >= spot.y + spot.height + SPOT_GAP || bar_top(
            spot,
            height,
            out_bottom,
        ) + height <= spot.y || spot.y < height,
        bar_top(spot, height, out_bottom) >= 0 || spot.y + spot.height + SPOT_GAP < 0,
        spot.y + spot.height + SPOT_GAP + height <= out_bottom ==> bar_top(spot, height, out_bottom)
            == spot.y + spot.height + SPOT_GAP,
{
}

// ---------------------------------------------------------------------------
// Pixels.

/// One color channel of a straight-alpha source blended over a pixel.
pub open spec fn blend_channel(src: u8, alpha: u8, dst: u8) -> int {
    (src * alpha + dst * (255 - alpha)) / 255
}

/// The alpha of a straight-alpha source blended over a pixel.
pub open spec fn blend_alpha(alpha: u8, dst: u8) -> int {
    alpha + dst * (255 - alpha) / 255
}

proof fn lemma_blend_bounds(src: u8, alpha: u8, dst: u8)
    ensures
        0 <= src * alpha + dst * (255 - alpha) <= 65025,
        0 <= blend_channel(src, alpha, dst) <= 255,
        0 <= dst * (255 - alpha) <= 65025,
        0 <= blend_alpha(alpha, dst) <= 255,
{
    assert(0 <= src * alpha <= 255 * alpha) by (nonlinear_arith)
        requires
            src <= 255,
            alpha <= 255,
    ;
    assert(0 <= dst * (255 - alpha) <= 255 * (255 - alpha)) by (nonlinear_arith)
        requires
            dst <= 255,
            alpha <= 255,
    ;
    assert(dst * (255 - alpha) / 255 <= 255 - alpha) by (nonlinear_arith)
        requires
            0 <= dst * (255 - alpha) <= 255 * (255 - alpha),
            alpha <= 255,
    ;
}

/// Blend one straight-alpha RGBA color over the BGRA pixel at `idx`.
pub fn blend_px(px: &mut [u8], idx: usize, color: [u8; 4])
    requires
        idx + 3 < old(px)@.len(),
    ensures
        final(px)@.len() == old(px)@.len(),
        final(px)@[idx as int + 2] == blend_channel(color[0], color[3], old(px)@[idx as int + 2]),
        final(px)@[idx as int + 1] == blend_channel(color[1], color[3], old(px)@[idx as int + 1]),
        final(px)@[idx as int + 0] == blend_channel(color[2], color[3], old(px)@[idx as int + 0]),
        final(px)@[idx as int + 3] == blend_alpha(color[3], old(px)@[idx as int + 3]),
        forall|k: int|
            0 <= k < old(px)@.len() && (k < idx || k > idx + 3) ==> final(px)@[k] == old(px)@[k],
{
    let r = color[0];
    let g = color[1];
    let b = color[2];
    let a = color[3];
    assert(idx + 3 < px.len());
    let src_a = a as u16;
    let dst_a = px[idx + 3] as u16;
    proof {
        lemma_blend_bounds(r, a, px@[idx as int + 2]);
        lemma_blend_bounds(g, a, px@[idx as int + 1]);
        lemma_blend_bounds(b, a, px@[idx as int + 0]);
        lemma_blend_bounds(0, a, px@[idx as int + 3]);
    }
    let out_a = src_a + dst_a * (255 - src_a) / 255;
    let nr = (r as u16 * src_a + px[idx + 2] as u16 * (255 - src_a)) / 255;
    let ng = (g as u16 * src_a + px[idx + 1] as u16 * (255 - src_a)) / 255;
    let nb = (b as u16 * src_a + px[idx] as u16 * (255 - src_a)) / 255;
    px[idx + 2] = if nr < 255 { nr as u8 } else { 255 };
    px[idx + 1] = if ng < 255 { ng as u8 } else { 255 };
    px[idx] = if nb < 255 { nb as u8 } else { 255 };
    px[idx + 3] = if out_a < 255 { out_a as u8 } else { 255 };
}

/// An opaque color replaces the pixel; a fully transparent one leaves it
/// as it was.
pub proof fn lemma_blend_extremes(src: u8, dst: u8, dst_alpha: u8)
    ensures
        blend_channel(src, 255, dst) == src,
        blend_alpha(255, dst_alpha) == 255,
        blend_channel(src, 0, dst) == dst,
        blend_alpha(0, dst_alpha) == dst_alpha,
{
    assert((src * 255 + dst * 0) / 255 == src) by (nonlinear_arith);
    assert((src * 0 + dst * 255) / 255 == dst) by (nonlinear_arith);
    assert(dst_alpha * 0 / 255 == 0) by (nonlinear_arith);
    assert(dst_alpha * 255 / 255 == dst_alpha) by (nonlinear_arith);
}

/// Blending never makes a pixel more transparent.
pub proof fn lemma_blend_alpha_grows(alpha: u8, dst: u8)
    ensures
        blend_alpha(alpha, dst) >= alpha,
        blend_alpha(alpha, dst) >= dst,
{
    assert(dst * (255 - alpha) / 255 >= dst - alpha) by (nonlinear_arith)
        requires
            dst <= 255,
            alpha <= 255,
    ;
}

/// Alpha blending composes coverage "over": the transparency left after
/// the blend, 255 minus the resulting alpha, is the product of the
/// source's and the pixel's transparencies scaled back to 0..=255 (rounded
/// up), so two half-covering layers give about three-quarter coverage. The
/// result does not depend on which of the two layers is on top.
pub proof fn lemma_blend_alpha_over(alpha: u8, dst: u8)
    ensures
        (255 - blend_alpha(alpha, dst)) * 255 >= (255 - alpha) * (255 - dst),
        (255 - blend_alpha(alpha, dst)) * 255 < (255 - alpha) * (255 - dst) + 255,
        blend_alpha(alpha, dst) == blend_alpha(dst, alpha),
{
    let t = dst * (255 - alpha);
    let q = t / 255;
    assert(t == 255 * q + t % 255 && 0 <= t % 255 < 255) by (nonlinear_arith)
        requires
            t == dst * (255 - alpha),
            q == t / 255,
    ;
    assert((255 - (alpha + q)) * 255 == (255 - alpha) * (255 - dst) + t % 255) by (nonlinear_arith)
        requires
            t == dst * (255 - alpha),
            t == 255 * q + t % 255,
    ;
    let t2 = alpha * (255 - dst);
    let q2 = t2 / 255;
    assert(t2 == 255 * q2 + t2 % 255 && 0 <= t2 % 255 < 255) by (nonlinear_arith)
        requires
            t2 == alpha * (255 - dst),
            q2 == t2 / 255,
    ;
    assert((255 - (dst + q2)) * 255 == (255 - alpha) * (255 - dst) + t2 % 255) by (nonlinear_arith)
        requires
            t2 == alpha * (255 - dst),
            t2 == 255 * q2 + t2 % 255,
    ;
}

/// A blended color channel lies between the source's and the pixel's, and
/// blending a color over itself leaves it unchanged.
pub proof fn lemma_blend_channel_between(src: u8, alpha: u8, dst: u8)
    ensures
        src <= dst ==> src <= blend_channel(src, alpha, dst) <= dst,
        dst <= src ==> dst <= blend_channel(src, alpha, dst) <= src,
        blend_channel(src, alpha, src) == src,
{
    let n = src * alpha + dst * (255 - alpha);
    assert(src <= dst ==> 255 * src <= n <= 255 * dst) by (nonlinear_arith)
        requires
            n == src * alpha + dst * (255 - alpha),
            0 <= alpha <= 255,
    ;
    assert(dst <= src ==> 255 * dst <= n <= 255 * src) by (nonlinear_arith)
        requires
            n == src * alpha + dst * (255 - alpha),
            0 <= alpha <= 255,
    ;
    assert(src <= dst ==> src <= n / 255 <= dst) by (nonlinear_arith)
        requires
            src <= dst ==> 255 * src <= n <= 255 * dst,
    ;
    assert(dst <= src ==> dst <= n / 255 <= src) by (nonlinear_arith)
        requires
            dst <= src ==> 255 * dst <= n <= 255 * src,
    ;
    assert((src * alpha + src * (255 - alpha)) / 255 == src) by (nonlinear_arith);
}

/// Byte offset of channel `c` of pixel (`xx`, `yy`) in a BGRA buffer `w`
/// pixels wide.
pub open spec fn pixel_index(w: int, xx: int, yy: int, c: int) -> int {
    (yy * w + xx) * 4 + c
}

/// Whether (`xx`, `yy`) lies in the box `[x0, x0 + bw) x [y0, y0 + bh)`.
pub open spec fn in_box(xx: int, yy: int, x0: int, y0: int, bw: int, bh: int) -> bool {
    x0 <= xx < x0 + bw && y0 <= yy < y0 + bh
}

/// Channel `c` (B, G, R, A) of a BGRA pixel after [`blend_px`] with `color`.
pub open spec fn blended_byte(color: [u8; 4], c: int, old: u8) -> int {
    if c == 0 {
        blend_channel(color[2], color[3], old)
    } else if c == 1 {
        blend_channel(color[1], color[3], old)
    } else if c == 2 {
        blend_channel(color[0], color[3], old)
    } else {
        blend_alpha(color[3], old)
    }
}

proof fn lemma_pixel_index_bounds(w: int, h: int, xx: int, yy: int, c: int)
    requires
        0 <= xx < w,
        0 <= yy < h,
        0 <= c < 4,
    ensures
        0 <= pixel_index(w, xx, yy, c) < w * h * 4,
        pixel_index(w, xx, yy, c) == pixel_index(w, xx, yy, 0) + c,
{
    assert(0 <= yy * w + xx < w * h) by (nonlinear_arith)
        requires
            0 <= xx < w,
            0 <= yy < h,
    ;
    assert((yy * w + xx) * 4 + c < w * h * 4) by (nonlinear_arith)
        requires
            yy * w + xx < w * h,
            0 <= c < 4,
    ;
}

proof fn lemma_pixel_index_distinct(w: int, xx: int, yy: int, c: int, xx2: int, yy2: int, c2: int)
    requires
        0 <= xx < w,
        0 <= xx2 < w,
        0 <= yy,
        0 <= yy2,
        0 <= c < 4,
        0 <= c2 < 4,
        xx != xx2 || yy != yy2,
    ensures
        pixel_index(w, xx, yy, c) != pixel_index(w, xx2, yy2, c2),
{
    let p1 = yy * w + xx;
    let p2 = yy2 * w + xx2;
    assert(p1 != p2) by (nonlinear_arith)
        requires
            0 <= xx < w,
            0 <= xx2 < w,
            0 <= yy,
            0 <= yy2,
            xx != xx2 || yy != yy2,
            p1 == yy * w + xx,
            p2 == yy2 * w + xx2,
    {
        if yy < yy2 {
            assert(yy * w + w <= yy2 * w) by (nonlinear_arith)
                requires
                    yy < yy2,
                    0 <= w,
            ;
        } else if yy2 < yy {
            assert(yy2 * w + w <= yy * w) by (nonlinear_arith)
                requires
                    yy2 < yy,
                    0 <= w,
            ;
        }
    }
}

/// Blend `color` over every pixel of the box at (`x0`, `y0`) of size
/// `bw` x `bh` that lies inside a `w` x `h` BGRA buffer; pixels outside the
/// buffer are skipped.
pub fn blend_box(px: &mut [u8], w: u32, h: u32, x0: i32, y0: i32, bw: u32, bh: u32, color: [u8; 4])
    requires
        old(px)@.len() >= w as int * h as int * 4,
        bw <= i32::MAX,
        bh <= i32::MAX,
        x0 + bw <= i32::MAX,
        y0 + bh <= i32::MAX,
    ensures
        final(px)@.len() == old(px)@.len(),
        forall|k: int|
            w as int * h as int * 4 <= k < old(px)@.len() ==> #[trigger] final(px)@[k] == old(px)@[k],
        forall|xx: int, yy: int, c: int|
            0 <= xx < w && 0 <= yy < h && 0 <= c < 4 ==> #[trigger] final(px)@[pixel_index(
                w as int,
                xx,
                yy,
                c,
            )] == if in_box(xx, yy, x0 as int, y0 as int, bw as int, bh as int) {
                blended_byte(color, c, old(px)@[pixel_index(w as int, xx, yy, c)])
            } else {
                old(px)@[pixel_index(w as int, xx, yy, c)] as int
            },
{
    let ghost o = px@;
    let ghost wi = w as int;
    let ghost hi = h as int;
    let ys: i64 = if y0 > 0 {
        y0 as i64
    } else {
        0
    };
    let ye: i64 = if (y0 as i64) + (bh as i64) < (h as i64) {
        (y0 as i64) + (bh as i64)
    } else {
        h as i64
    };
    let xs: i64 = if x0 > 0 {
        x0 as i64
    } else {
        0
    };
    let xe: i64 = if (x0 as i64) + (bw as i64) < (w as i64) {
        (x0 as i64) + (bw as i64)
    } else {
        w as i64
    };
    let mut yy: i64 = ys;
    while yy < ye
        invariant
            0 <= ys <= yy,
            ys == if y0 > 0 { y0 as int } else { 0 },
            ye <= h,
            ye == if y0 + bh < h { y0 + bh } else { h as int },
            xs == if x0 > 0 { x0 as int } else { 0 },
            xe == if x0 + bw < w { x0 + bw } else { w as int },
            yy <= ye || ys >= ye,
            px@.len() == o.len(),
            o.len() >= wi * hi * 4,
            wi == w,
            hi == h,
            forall|k: int| wi * hi * 4 <= k < o.len() ==> #[trigger] px@[k] == o[k],
            forall|xx: int, y: int, c: int|
                0 <= xx < w && 0 <= y < h && 0 <= c < 4 ==> #[trigger] px@[pixel_index(
                    wi,
                    xx,
                    y,
                    c,
                )] == if in_box(xx, y, x0 as int, y0 as int, bw as int, bh as int) && y < yy {
                    blended_byte(color, c, o[pixel_index(wi, xx, y, c)])
                } else {
                    o[pixel_index(wi, xx, y, c)] as int
                },
        decreases ye - yy,
    {
        let mut xx: i64 = xs;
        while xx < xe
            invariant
                0 <= ys <= yy < ye,
                ye <= h,
                ye == if y0 + bh < h { y0 + bh } else { h as int },
                ys == if y0 > 0 { y0 as int } else { 0 },
                0 <= xs <= xx,
                xs == if x0 > 0 { x0 as int } else { 0 },
                xe == if x0 + bw < w { x0 + bw } else { w as int },
                xx <= xe || xs >= xe,
                xe <= w,
                px@.len() == o.len(),
                o.len() >= wi * hi * 4,
                wi == w,
                hi == h,
                forall|k: int| wi * hi * 4 <= k < o.len() ==> #[trigger] px@[k] == o[k],
                forall|x: int, y: int, c: int|
                    0 <= x < w && 0 <= y < h && 0 <= c < 4 ==> #[trigger] px@[pixel_index(
                        wi,
                        x,
                        y,
                        c,
                    )] == if in_box(x, y, x0 as int, y0 as int, bw as int, bh as int) && (y < yy
                        || (y == yy && x < xx)) {
                        blended_byte(color, c, o[pixel_index(wi, x, y, c)])
                    } else {
                        o[pixel_index(wi, x, y, c)] as int
                    },
            decreases xe - xx,
        {
            proof {
                lemma_pixel_index_bounds(wi, hi, xx as int, yy as int, 3);
                lemma_pixel_index_bounds(wi, hi, xx as int, yy as int, 0);
            }
            let len = px.len();
            assert(pixel_index(wi, xx as int, yy as int, 3) < len);
            let yu = yy as usize;
            let xu = xx as usize;
            let wu = w as usize;
            assert(yu as int * wu as int == yy as int * wi);
            assert(yu * wu + xu <= (yu * wu + xu) * 4 + 3);
            let base: usize = (yu * wu + xu) * 4;
            assert(base == pixel_index(wi, xx as int, yy as int, 0));
            let ghost before = px@;
            blend_px(px, base, color);
            proof {
                assert forall|k: int| wi * hi * 4 <= k < o.len() implies #[trigger] px@[k] == o[k] by {
                    assert(px@[k] == before[k]);
                }
                assert forall|x: int, y: int, c: int|
                    0 <= x < w && 0 <= y < h && 0 <= c < 4 implies #[trigger] px@[pixel_index(
                        wi,
                        x,
                        y,
                        c,
                    )] == if in_box(x, y, x0 as int, y0 as int, bw as int, bh as int) && (y < yy
                        || (y == yy && x < xx + 1)) {
                        blended_byte(color, c, o[pixel_index(wi, x, y, c)])
                    } else {
                        o[pixel_index(wi, x, y, c)] as int
                    } by {
                    lemma_pixel_index_bounds(wi, hi, x, y, c);
                    if x == xx && y == yy {
                        assert(in_box(x, y, x0 as int, y0 as int, bw as int, bh as int));
                        assert(before[pixel_index(wi, x, y, c)] == o[pixel_index(wi, x, y, c)]);
                    } else {
                        lemma_pixel_index_distinct(wi, x, y, c, xx as int, yy as int, 0);
                        lemma_pixel_index_distinct(wi, x, y, c, xx as int, yy as int, 1);
                        lemma_pixel_index_distinct(wi, x, y, c, xx as int, yy as int, 2);
                        lemma_pixel_index_distinct(wi, x, y, c, xx as int, yy as int, 3);
                        lemma_pixel_index_bounds(wi, hi, xx as int, yy as int, 1);
                        lemma_pixel_index_bounds(wi, hi, xx as int, yy as int, 2);
                        assert(px@[pixel_index(wi, x, y, c)] == before[pixel_index(wi, x, y, c)]);
                    }
                }
            }
            xx = xx + 1;
        }
        yy = yy + 1;
    }
}

} // verus!
