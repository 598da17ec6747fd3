//! Sample panel states for the offline bar preview, and the conversion of a
//! painted BGRA bar to the RGB bytes of a PPM image.

use crate::model::{Candidate, CandidateLayout, CandidateView, PanelState, PanelView};
use crate::render::rows_of;
use vstd::prelude::*;

verus! {

/// A sample candidate with no hint.
pub open spec fn sample(label: &str, text: &str) -> CandidateView {
    CandidateView { label: label@, text: text@, hint: Seq::empty() }
}

fn candidate(label: &str, text: &str) -> (c: Candidate)
    ensures
        c@.label == label@,
        c@.text == text@,
        c@.hint == Seq::<char>::empty(),
{
    Candidate { label: label.to_owned(), text: text.to_owned(), hint: String::new() }
}

/// Composing "zhong guo" with six candidates in a vertical list: the
/// preedit row and six candidate rows.
pub fn state_vertical() -> (s: PanelState)
    ensures
        s@ == (PanelView {
            visible: true,
            preedit: "zhong guo"@,
            preedit_visible: true,
            preedit_cursor: 9,
            aux: Seq::empty(),
            aux_visible: false,
            aux_down: Seq::empty(),
            selected: 0,
            has_previous: false,
            has_next: true,
            layout: CandidateLayout::Vertical,
            spot: None,
            spot_absolute: false,
            scale_bits: None,
            candidates: seq![
                sample("1 ", "中古"),
                sample("2 ", "钟鼓"),
                sample("3 ", "中谷"),
                sample("4 ", "忠骨"),
                sample("5 ", "终古"),
                sample("6 ", "中"),
            ],
        }),
        rows_of(s@).len() == 7,
        rows_of(s@)[0].text == "zhong guo"@,
{
    let mut s = PanelState::new();
    s.preedit = "zhong guo".to_owned();
    s.preedit_visible = true;
    s.preedit_cursor = 9;
    s.candidates = vec![
        candidate("1 ", "中古"),
        candidate("2 ", "钟鼓"),
        candidate("3 ", "中谷"),
        candidate("4 ", "忠骨"),
        candidate("5 ", "终古"),
        candidate("6 ", "中"),
    ];
    s.selected = 0;
    s.has_next = true;
    s.layout = CandidateLayout::Vertical;
    proof {
        reveal_strlit("zhong guo");
    }
    s.recompute_visible();
    assert(rows_of(s@) =~= crate::render::header_rows(s@) + crate::render::candidate_rows(s@));
    s
}

/// An aux-down line over six candidates, third selected, paging both ways:
/// the aux-down row and six candidate rows.
pub fn state_aux_down() -> (s: PanelState)
    ensures
        s@ == (PanelView {
            visible: true,
            preedit: Seq::empty(),
            preedit_visible: false,
            preedit_cursor: 0,
            aux: Seq::empty(),
            aux_visible: false,
            aux_down: "拼音: ni hao"@,
            selected: 2,
            has_previous: true,
            has_next: true,
            layout: CandidateLayout::Vertical,
            spot: None,
            spot_absolute: false,
            scale_bits: None,
            candidates: seq![
                sample("1 ", "你好"),
                sample("2 ", "你会"),
                sample("3 ", "你还"),
                sample("4 ", "腻害"),
                sample("5 ", "你和"),
                sample("6 ", "你花"),
            ],
        }),
        rows_of(s@).len() == 7,
        rows_of(s@)[0].text == "拼音: ni hao"@,
{
    let mut s = PanelState::new();
    s.aux_down = "拼音: ni hao".to_owned();
    s.candidates = vec![
        candidate("1 ", "你好"),
        candidate("2 ", "你会"),
        candidate("3 ", "你还"),
        candidate("4 ", "腻害"),
        candidate("5 ", "你和"),
        candidate("6 ", "你花"),
    ];
    s.selected = 2;
    s.has_next = true;
    s.has_previous = true;
    s.layout = CandidateLayout::Vertical;
    proof {
        reveal_strlit("拼音: ni hao");
    }
    s.recompute_visible();
    assert(rows_of(s@) =~= crate::render::header_rows(s@) + crate::render::candidate_rows(s@));
    s
}

/// An aux line over five candidates in one horizontal row: the aux row and
/// the joined candidate row.
pub fn state_horizontal() -> (s: PanelState)
    ensures
        s@ == (PanelView {
            visible: true,
            preedit: Seq::empty(),
            preedit_visible: false,
            preedit_cursor: 0,
            aux: "辅助: 拼音"@,
            aux_visible: true,
            aux_down: Seq::empty(),
            selected: 1,
            has_previous: false,
            has_next: true,
            layout: CandidateLayout::Horizontal,
            spot: None,
            spot_absolute: false,
            scale_bits: None,
            candidates: seq![
                sample("1 ", "中国"),
                sample("2 ", "种过"),
                sample("3 ", "重过"),
                sample("4 ", "种果"),
                sample("5 ", "中古"),
            ],
        }),
        rows_of(s@).len() == 2,
        rows_of(s@)[0].text == "辅助: 拼音"@,
{
    let mut s = PanelState::new();
    s.aux = "辅助: 拼音".to_owned();
    s.aux_visible = true;
    s.candidates = vec![
        candidate("1 ", "中国"),
        candidate("2 ", "种过"),
        candidate("3 ", "重过"),
        candidate("4 ", "种果"),
        candidate("5 ", "中古"),
    ];
    s.selected = 1;
    s.has_next = true;
    s.layout = CandidateLayout::Horizontal;
    proof {
        reveal_strlit("辅助: 拼音");
    }
    s.recompute_visible();
    assert(rows_of(s@) =~= crate::render::header_rows(s@) + crate::render::candidate_rows(s@));
    s
}

/// One color channel of a straight-alpha pixel composited over black.
pub open spec fn over_black(c: u8, a: u8) -> int {
    (c * a / 255) as int
}

proof fn lemma_over_black_bounds(c: u8, a: u8)
    ensures
        0 <= c * a <= 255 * 255,
        0 <= over_black(c, a) <= 255,
{
    assert(0 <= c * a <= 255 * 255) by (nonlinear_arith)
        requires
            c <= 255,
            a <= 255,
    ;
}

/// The RGB bytes of a BGRA image composited over black, one triple per
/// complete four-byte pixel (a trailing partial pixel is ignored).
pub fn rgb_over_black(bgra: &[u8]) -> (rgb: Vec<u8>)
    ensures
        rgb@.len() == (bgra@.len() / 4) * 3,
        forall|i: int|
            0 <= i < bgra@.len() / 4 ==> {
                &&& #[trigger] rgb@[3 * i] == over_black(bgra@[4 * i + 2], bgra@[4 * i + 3])
                &&& rgb@[3 * i + 1] == over_black(bgra@[4 * i + 1], bgra@[4 * i + 3])
                &&& rgb@[3 * i + 2] == over_black(bgra@[4 * i], bgra@[4 * i + 3])
            },
{
    let n = bgra.len() / 4;
    let mut rgb: Vec<u8> = Vec::new();
    let mut i: usize = 0;
    while i < n
        invariant
            i <= n,
            n == bgra@.len() / 4,
            rgb@.len() == 3 * i,
            forall|j: int|
                0 <= j < i ==> {
                    &&& #[trigger] rgb@[3 * j] == over_black(bgra@[4 * j + 2], bgra@[4 * j + 3])
                    &&& rgb@[3 * j + 1] == over_black(bgra@[4 * j + 1], bgra@[4 * j + 3])
                    &&& rgb@[3 * j + 2] == over_black(bgra@[4 * j], bgra@[4 * j + 3])
                },
        decreases n - i,
    {
        assert(4 * i + 3 < bgra.len());
        let base = 4 * i;
        let b = bgra[base];
        let g = bgra[base + 1];
        let r = bgra[base + 2];
        let a = bgra[base + 3];
        proof {
            lemma_over_black_bounds(r, a);
            lemma_over_black_bounds(g, a);
            lemma_over_black_bounds(b, a);
        }
        let a16 = a as u16;
        let ghost before = rgb@;
        rgb.push((r as u16 * a16 / 255) as u8);
        rgb.push((g as u16 * a16 / 255) as u8);
        rgb.push((b as u16 * a16 / 255) as u8);
        proof {
            assert(rgb@ =~= before + seq![
                over_black(r, a) as u8,
                over_black(g, a) as u8,
                over_black(b, a) as u8,
            ]);
            assert forall|j: int| 0 <= j < i + 1 implies {
                &&& #[trigger] rgb@[3 * j] == over_black(bgra@[4 * j + 2], bgra@[4 * j + 3])
                &&& rgb@[3 * j + 1] == over_black(bgra@[4 * j + 1], bgra@[4 * j + 3])
                &&& rgb@[3 * j + 2] == over_black(bgra@[4 * j], bgra@[4 * j + 3])
            } by {
                if j < i {
                    assert(rgb@[3 * j] == before[3 * j]);
                    assert(rgb@[3 * j + 1] == before[3 * j + 1]);
                    assert(rgb@[3 * j + 2] == before[3 * j + 2]);
                }
            }
        }
        i = i + 1;
    }
    rgb
}

} // verus!
