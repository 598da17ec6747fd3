//! The panel's input state: what Fcitx last told the panel about preedit,
//! auxiliary text, the candidate table and the caret rectangle.

use vstd::prelude::*;

verus! {

/// A rectangle in integer pixel coordinates.
#[derive(Debug, Clone, Copy, PartialEq, Eq, Structural)]
pub struct Rect {
    pub x: i32,
    pub y: i32,
    pub width: i32,
    pub height: i32,
}

impl Default for Rect {
    fn default() -> (r: Self)
        ensures
            r == (Rect { x: 0, y: 0, width: 0, height: 0 }),
    {
        Rect { x: 0, y: 0, width: 0, height: 0 }
    }
}

/// One entry of the candidate list.
#[derive(Debug, Clone, PartialEq, Eq)]
pub struct Candidate {
    pub label: String,
    pub text: String,
    pub hint: String,
}

/// Abstract value of a [`Candidate`].
#[verifier::ext_equal]
pub struct CandidateView {
    pub label: Seq<char>,
    pub text: Seq<char>,
    pub hint: Seq<char>,
}

impl View for Candidate {
    type V = CandidateView;

    open spec fn view(&self) -> CandidateView {
        CandidateView { label: self.label@, text: self.text@, hint: self.hint@ }
    }
}

/// Fcitx's CandidateLayoutHint.
#[derive(Debug, Clone, Copy, PartialEq, Eq, Structural)]
pub enum CandidateLayout {
    NotSet,
    Vertical,
    Horizontal,
    Table,
}

/// The layout named by the integer hint of `SetLookupTable`
/// (0 NotSet, 1 Vertical, 2 Horizontal, 3 Table; anything else NotSet).
pub open spec fn layout_of_hint(hint: i32) -> CandidateLayout {
    if hint == 1 {
        CandidateLayout::Vertical
    } else if hint == 2 {
        CandidateLayout::Horizontal
    } else if hint == 3 {
        CandidateLayout::Table
    } else {
        CandidateLayout::NotSet
    }
}

impl CandidateLayout {
    /// Decode the integer layout hint sent with a lookup table.
    pub fn from_hint(hint: i32) -> (r: CandidateLayout)
        ensures
            r == layout_of_hint(hint),
    {
        if hint == 1 {
            CandidateLayout::Vertical
        } else if hint == 2 {
            CandidateLayout::Horizontal
        } else if hint == 3 {
            CandidateLayout::Table
        } else {
            CandidateLayout::NotSet
        }
    }
}

/// Why a lookup table update was refused.
#[derive(Debug, Clone, Copy, PartialEq, Eq, Structural)]
pub enum LookupTableError {
    /// The three parallel arrays do not have the same length.
    LengthMismatch { labels: usize, texts: usize, attrs: usize },
}

/// Everything the panel knows about the current input.
#[derive(Debug, Clone, PartialEq, Eq)]
pub struct PanelState {
    /// Whether the bar has anything to show (kept equal to
    /// [`PanelView::has_content`] by every text or table update).
    pub visible: bool,
    pub preedit: String,
    pub preedit_visible: bool,
    pub preedit_cursor: i32,
    pub aux: String,
    pub aux_visible: bool,
    /// The auxiliary-down line, split off row 0 of the lookup table.
    pub aux_down: String,
    pub candidates: Vec<Candidate>,
    /// Index of the highlighted candidate, -1 when none is.
    pub selected: i32,
    pub has_previous: bool,
    pub has_next: bool,
    pub layout: CandidateLayout,
    /// Caret rectangle last reported by Fcitx.
    pub spot: Option<Rect>,
    /// True when `spot` is in global coordinates (SetSpotRect); false when it
    /// is relative to the client's toplevel surface.
    pub spot_absolute: bool,
    /// Bit pattern (`f64::to_bits`) of the client's scale factor sent with a
    /// relative spot rectangle.
    pub scale_bits: Option<u64>,
}

/// Abstract value of a [`PanelState`].
#[verifier::ext_equal]
pub struct PanelView {
    pub visible: bool,
    pub preedit: Seq<char>,
    pub preedit_visible: bool,
    pub preedit_cursor: i32,
    pub aux: Seq<char>,
    pub aux_visible: bool,
    pub aux_down: Seq<char>,
    pub candidates: Seq<CandidateView>,
    pub selected: i32,
    pub has_previous: bool,
    pub has_next: bool,
    pub layout: CandidateLayout,
    pub spot: Option<Rect>,
    pub spot_absolute: bool,
    pub scale_bits: Option<u64>,
}

impl View for PanelState {
    type V = PanelView;

    open spec fn view(&self) -> PanelView {
        PanelView {
            visible: self.visible,
            preedit: self.preedit@,
            preedit_visible: self.preedit_visible,
            preedit_cursor: self.preedit_cursor,
            aux: self.aux@,
            aux_visible: self.aux_visible,
            aux_down: self.aux_down@,
            candidates: self.candidates@.map_values(|c: Candidate| c@),
            selected: self.selected,
            has_previous: self.has_previous,
            has_next: self.has_next,
            layout: self.layout,
            spot: self.spot,
            spot_absolute: self.spot_absolute,
            scale_bits: self.scale_bits,
        }
    }
}

/// The character sequences held by a vector of strings.
pub open spec fn string_views(v: Seq<String>) -> Seq<Seq<char>> {
    v.map_values(|s: String| s@)
}

/// Whether row 0 of a lookup table is the auxiliary-down line: Fcitx sends
/// that line first, with an empty label and non-empty text.
pub open spec fn has_aux_row(labels: Seq<Seq<char>>, texts: Seq<Seq<char>>) -> bool {
    labels.len() > 0 && texts.len() > 0 && labels[0].len() == 0 && texts[0].len() > 0
}

/// Number of leading non-candidate rows in a lookup table (0 or 1).
pub open spec fn aux_offset(labels: Seq<Seq<char>>, texts: Seq<Seq<char>>) -> int {
    if has_aux_row(labels, texts) {
        1
    } else {
        0
    }
}

/// The candidate index for a table cursor `selected` over the transmitted
/// rows, of which the first `offset` are not candidates and `count` are: -1
/// when it points at no candidate, the last candidate when it points past
/// the end.
pub open spec fn normalized_selected(selected: i32, offset: int, count: int) -> i32 {
    let s = selected - offset;
    if s < 0 || count <= 0 {
        -1i32
    } else if s >= count {
        (count - 1) as i32
    } else {
        s as i32
    }
}

/// The candidates held by rows `offset..` of a lookup table.
pub open spec fn table_candidates(
    labels: Seq<Seq<char>>,
    texts: Seq<Seq<char>>,
    hints: Seq<Seq<char>>,
    offset: int,
) -> Seq<CandidateView> {
    Seq::new(
        (labels.len() - offset) as nat,
        |i: int|
            CandidateView {
                label: labels[i + offset],
                text: texts[i + offset],
                hint: hints[i + offset],
            },
    )
}

impl PanelView {
    /// The state of a freshly started panel.
    pub open spec fn initial() -> PanelView {
        PanelView {
            visible: false,
            preedit: Seq::empty(),
            preedit_visible: false,
            preedit_cursor: 0,
            aux: Seq::empty(),
            aux_visible: false,
            aux_down: Seq::empty(),
            candidates: Seq::empty(),
            selected: 0,
            has_previous: false,
            has_next: false,
            layout: CandidateLayout::NotSet,
            spot: None,
            spot_absolute: false,
            scale_bits: None,
        }
    }

    /// Whether there is any text for the bar to show.
    pub open spec fn has_content(self) -> bool {
        ||| self.preedit_visible && self.preedit.len() > 0
        ||| self.aux_visible && self.aux.len() > 0
        ||| self.aux_down.len() > 0
        ||| self.candidates.len() > 0
    }

    /// This state with `visible` brought in line with its content.
    pub open spec fn recomputed(self) -> PanelView {
        PanelView { visible: self.has_content(), ..self }
    }

    /// This state with the candidate list emptied and the cursor reset.
    pub open spec fn lookup_cleared(self) -> PanelView {
        PanelView { candidates: Seq::empty(), selected: 0, ..self }
    }

    /// The state after a `SetLookupTable` whose three arrays have equal
    /// lengths: row 0 moves to `aux_down` when it is the auxiliary line, the
    /// remaining rows become the candidates, and the cursor is normalized
    /// to a candidate index.
    pub open spec fn with_lookup_table(
        self,
        labels: Seq<Seq<char>>,
        texts: Seq<Seq<char>>,
        hints: Seq<Seq<char>>,
        has_previous: bool,
        has_next: bool,
        selected: i32,
        layout: i32,
    ) -> PanelView {
        let off = aux_offset(labels, texts);
        PanelView {
            aux_down: if off == 1 {
                texts[0]
            } else {
                Seq::empty()
            },
            candidates: table_candidates(labels, texts, hints, off),
            selected: normalized_selected(selected, off, labels.len() - off),
            has_previous,
            has_next,
            layout: layout_of_hint(layout),
            ..self
        }.recomputed()
    }
}

/// A copy of a candidate list.
pub fn copy_candidates(v: &Vec<Candidate>) -> (r: Vec<Candidate>)
    ensures
        r@.map_values(|c: Candidate| c@) == v@.map_values(|c: Candidate| c@),
{
    let mut r: Vec<Candidate> = Vec::new();
    let mut i: usize = 0;
    while i < v.len()
        invariant
            i <= v.len(),
            r@.len() == i,
            forall|j: int| 0 <= j < i ==> #[trigger] r@[j]@ == v@[j]@,
        decreases v.len() - i,
    {
        let c = &v[i];
        r.push(Candidate { label: c.label.clone(), text: c.text.clone(), hint: c.hint.clone() });
        i = i + 1;
    }
    assert(r@.map_values(|c: Candidate| c@) =~= v@.map_values(|c: Candidate| c@));
    r
}

/// Normalize a table cursor: see [`normalized_selected`].
fn normalize_selected(selected: i32, shift: bool, count: usize) -> (r: i32)
    ensures
        r == normalized_selected(selected, if shift { 1 } else { 0 }, count as int),
{
    let s: i64 = if shift {
        selected as i64 - 1
    } else {
        selected as i64
    };
    if s < 0 || count == 0 {
        -1
    } else if s as u64 >= count as u64 {
        (count - 1) as i32
    } else {
        s as i32
    }
}

impl PanelState {
    /// A panel with nothing to show.
    pub fn new() -> (s: PanelState)
        ensures
            s@ == PanelView::initial(),
    {
        let s = PanelState {
            visible: false,
            preedit: String::new(),
            preedit_visible: false,
            preedit_cursor: 0,
            aux: String::new(),
            aux_visible: false,
            aux_down: String::new(),
            candidates: Vec::new(),
            selected: 0,
            has_previous: false,
            has_next: false,
            layout: CandidateLayout::NotSet,
            spot: None,
            spot_absolute: false,
            scale_bits: None,
        };
        assert(s@.candidates =~= Seq::<CandidateView>::empty());
        s
    }

    /// An exact copy of this state.
    pub fn copy(&self) -> (r: PanelState)
        ensures
            r@ == self@,
    {
        PanelState {
            visible: self.visible,
            preedit: self.preedit.clone(),
            preedit_visible: self.preedit_visible,
            preedit_cursor: self.preedit_cursor,
            aux: self.aux.clone(),
            aux_visible: self.aux_visible,
            aux_down: self.aux_down.clone(),
            candidates: copy_candidates(&self.candidates),
            selected: self.selected,
            has_previous: self.has_previous,
            has_next: self.has_next,
            layout: self.layout,
            spot: self.spot,
            spot_absolute: self.spot_absolute,
            scale_bits: self.scale_bits,
        }
    }

    /// Whether there is any text for the bar to show.
    pub fn has_content(&self) -> (r: bool)
        ensures
            r == self@.has_content(),
    {
        (self.preedit_visible && !self.preedit.as_str().is_empty()) || (self.aux_visible
            && !self.aux.as_str().is_empty()) || !self.aux_down.as_str().is_empty()
            || !self.candidates.is_empty()
    }

    /// Bring `visible` in line with the content.
    pub fn recompute_visible(&mut self)
        ensures
            final(self)@ == old(self)@.recomputed(),
    {
        self.visible = self.has_content();
    }

    /// Drop the candidate list and reset the cursor.
    pub fn clear_lookup(&mut self)
        ensures
            final(self)@ == old(self)@.lookup_cleared(),
    {
        self.candidates.clear();
        self.selected = 0;
        assert(self@.candidates =~= Seq::<CandidateView>::empty());
    }

    /// Apply a `SetLookupTable(labels, texts, attrs, has_previous, has_next,
    /// cursor, layout)`. The three arrays must have the same length; when
    /// they do not, nothing changes and the lengths are reported.
    pub fn set_lookup_table(
        &mut self,
        labels: Vec<String>,
        texts: Vec<String>,
        attrs: Vec<String>,
        has_previous: bool,
        has_next: bool,
        selected: i32,
        layout: i32,
    ) -> (r: Result<(), LookupTableError>)
        ensures
            r is Err <==> !(labels.len() == texts.len() && texts.len() == attrs.len()),
            r is Err ==> r == Err::<(), LookupTableError>(
                LookupTableError::LengthMismatch {
                    labels: labels.len(),
                    texts: texts.len(),
                    attrs: attrs.len(),
                },
            ) && final(self)@ == old(self)@,
            r is Ok ==> final(self)@ == old(self)@.with_lookup_table(
                string_views(labels@),
                string_views(texts@),
                string_views(attrs@),
                has_previous,
                has_next,
                selected,
                layout,
            ),
    {
        let n = labels.len();
        if n != texts.len() || texts.len() != attrs.len() {
            return Err(
                LookupTableError::LengthMismatch {
                    labels: labels.len(),
                    texts: texts.len(),
                    attrs: attrs.len(),
                },
            );
        }
        let ghost lv = string_views(labels@);
        let ghost tv = string_views(texts@);
        let ghost hv = string_views(attrs@);
        let aux = n > 0 && labels[0].as_str().is_empty() && !texts[0].as_str().is_empty();
        let off: usize = if aux {
            1
        } else {
            0
        };
        assert(aux == has_aux_row(lv, tv));
        let mut cands: Vec<Candidate> = Vec::new();
        let mut i: usize = off;
        while i < n
            invariant
                off <= i <= n,
                n == labels.len(),
                n == texts.len(),
                n == attrs.len(),
                cands@.len() == i - off,
                lv == string_views(labels@),
                tv == string_views(texts@),
                hv == string_views(attrs@),
                forall|j: int|
                    0 <= j < i - off ==> #[trigger] cands@[j]@ == (CandidateView {
                        label: lv[j + off],
                        text: tv[j + off],
                        hint: hv[j + off],
                    }),
            decreases n - i,
        {
            cands.push(
                Candidate {
                    label: labels[i].clone(),
                    text: texts[i].clone(),
                    hint: attrs[i].clone(),
                },
            );
            i = i + 1;
        }
        self.aux_down = if aux {
            texts[0].clone()
        } else {
            String::new()
        };
        self.candidates = cands;
        self.selected = normalize_selected(selected, aux, n - off);
        self.has_previous = has_previous;
        self.has_next = has_next;
        self.layout = CandidateLayout::from_hint(layout);
        assert(self@.candidates =~= table_candidates(lv, tv, hv, off as int));
        self.recompute_visible();
        assert(self@ == old(self)@.with_lookup_table(
            lv,
            tv,
            hv,
            has_previous,
            has_next,
            selected,
            layout,
        ));
        Ok(())
    }
}

impl Default for PanelState {
    fn default() -> (s: Self)
        ensures
            s@ == PanelView::initial(),
    {
        PanelState::new()
    }
}

/// After a lookup table is loaded, the cursor is -1 (no candidate) or the
/// index of a candidate, and it is -1 only when the table has no candidates
/// or Fcitx's cursor pointed before the first candidate.
pub proof fn lemma_table_cursor_in_range(
    v: PanelView,
    labels: Seq<Seq<char>>,
    texts: Seq<Seq<char>>,
    hints: Seq<Seq<char>>,
    has_previous: bool,
    has_next: bool,
    selected: i32,
    layout: i32,
)
    requires
        labels.len() == texts.len(),
        texts.len() == hints.len(),
        labels.len() <= i32::MAX,
    ensures
        ({
            let s = v.with_lookup_table(labels, texts, hints, has_previous, has_next, selected, layout);
            &&& -1 <= s.selected < s.candidates.len()
            &&& s.selected == -1 <==> (s.candidates.len() == 0 || selected < aux_offset(labels, texts))
            &&& s.candidates.len() == labels.len() - aux_offset(labels, texts)
            &&& s.visible == s.has_content()
        }),
{
}

} // verus!
