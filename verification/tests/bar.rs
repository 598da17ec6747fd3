use fcitx5_niri_panel::kimpanel::StateStore;
use fcitx5_niri_panel::model::{Candidate, CandidateLayout, PanelState, Rect};
use fcitx5_niri_panel::niri::{workspace_output, WorkspaceEntry};
use fcitx5_niri_panel::pager::pager_hit;
use fcitx5_niri_panel::render::{
    bar_height, bar_placement, blend_box, blend_px, build_rows, output_contains,
    translate_to_global, clicked_candidate, layer_binding, placement_fits, repaint_decision, follow_spot,
    highlight_span, segments_from_widths, BarAnchor, BarLayout, anchor_step, size_step,
};

fn cand(label: &str, text: &str) -> Candidate {
    Candidate { label: label.into(), text: text.into(), hint: String::new() }
}

fn state_vertical() -> PanelState {
    let mut s = PanelState::default();
    s.preedit = "zhong guo".into();
    s.preedit_visible = true;
    s.candidates = vec![cand("1 ", "中古"), cand("2 ", "钟鼓"), cand("3 ", "中谷")];
    s.selected = 1;
    s.layout = CandidateLayout::Vertical;
    s.recompute_visible();
    s
}

#[test]
fn pager_zones() {
    assert_eq!(pager_hit(false, false, 400, 390), None);
    assert_eq!(pager_hit(true, true, 400, 303), None);
    assert_eq!(pager_hit(true, true, 400, 304), Some("LookupTablePageUp"));
    assert_eq!(pager_hit(true, true, 400, 352), Some("LookupTablePageDown"));
    assert_eq!(pager_hit(false, true, 400, 304), None);
    assert_eq!(pager_hit(true, false, 400, 352), None);
    // A bar narrower than the buttons starts them at 0.
    assert_eq!(pager_hit(true, true, 50, 0), Some("LookupTablePageUp"));
    assert_eq!(pager_hit(true, true, 50, 144), None);
}

#[test]
fn vertical_rows() {
    let rows = build_rows(&state_vertical());
    assert_eq!(rows.len(), 4);
    assert_eq!(rows[0].text, "zhong guo");
    assert_eq!(rows[0].candidate, None);
    assert_eq!(rows[2].text, "2 钟鼓");
    assert!(rows[2].selected && !rows[1].selected && !rows[3].selected);
    assert_eq!(rows[3].candidate, Some(2));
    assert!(!rows[3].horizontal);
}

#[test]
fn aux_down_offsets_candidate_indices() {
    let mut s = state_vertical();
    s.preedit_visible = false;
    s.aux_down = "拼音".into();
    let rows = build_rows(&s);
    assert_eq!(rows.len(), 4);
    assert_eq!(rows[0].text, "拼音");
    assert_eq!(rows[1].candidate, Some(1));
    assert_eq!(rows[3].candidate, Some(3));
}

#[test]
fn horizontal_row_joins_candidates() {
    let mut s = state_vertical();
    s.layout = CandidateLayout::Horizontal;
    s.preedit_visible = false;
    s.aux = "辅助".into();
    s.aux_visible = true;
    let rows = build_rows(&s);
    assert_eq!(rows.len(), 2);
    assert_eq!(rows[0].text, "辅助");
    assert_eq!(rows[1].text, "1 中古   2 钟鼓   3 中谷");
    assert!(rows[1].horizontal && rows[1].selected);
    s.selected = -1;
    assert!(!build_rows(&s)[1].selected);
}

#[test]
fn empty_state_has_no_rows() {
    assert!(build_rows(&PanelState::default()).is_empty());
}

#[test]
fn segments_follow_widths() {
    let segs = segments_from_widths(&vec![30, 40, 20], 12);
    assert_eq!(segs, vec![(0, 30), (42, 82), (94, 114)]);
    assert!(segments_from_widths(&Vec::new(), 12).is_empty());
}

#[test]
fn clicks_resolve_candidates() {
    let s = state_vertical();
    // Row 0 is the preedit line, rows 1.. the candidates.
    assert_eq!(clicked_candidate(&s, &Vec::new(), 5, 10), None);
    assert_eq!(clicked_candidate(&s, &Vec::new(), 5, 22), Some(0));
    assert_eq!(clicked_candidate(&s, &Vec::new(), 5, 70), Some(2));
    assert_eq!(clicked_candidate(&s, &Vec::new(), 5, 88), None);

    let mut h = state_vertical();
    h.layout = CandidateLayout::Horizontal;
    h.aux_down = "aux".into();
    let segs = segments_from_widths(&vec![30, 40, 20], 12);
    // Rows: preedit, aux-down, joined candidates.
    assert_eq!(clicked_candidate(&h, &segs, 50, 50), Some(2));
    assert_eq!(clicked_candidate(&h, &segs, 35, 50), None);
    assert_eq!(clicked_candidate(&h, &segs, 0, 50), Some(1));
}

#[test]
fn highlight_spans() {
    let segs = vec![(0, 30), (42, 82)];
    assert_eq!(highlight_span(true, &segs, 1, 200), (42, 82));
    assert_eq!(highlight_span(true, &segs, -1, 200), (0, 30));
    assert_eq!(highlight_span(true, &segs, 5, 200), (0, 200));
    assert_eq!(highlight_span(false, &segs, 1, 200), (-2, 202));
}

#[test]
fn heights_and_follow() {
    assert_eq!(bar_height(true, 3), 66);
    assert_eq!(bar_height(false, 3), 0);
    assert_eq!(bar_height(true, 0), 0);
    let mut s = state_vertical();
    assert_eq!(follow_spot(&s, 4), None);
    s.spot = Some(Rect { x: 100, y: 200, width: 0, height: 20 });
    s.spot_absolute = true;
    assert_eq!(follow_spot(&s, 4), Some(Rect { x: 100, y: 200, width: 0, height: 20 }));
    assert_eq!(follow_spot(&s, 0), None);
    s.spot = Some(Rect { x: 0, y: 0, width: 0, height: 0 });
    assert_eq!(follow_spot(&s, 4), None);
    s.spot = Some(Rect { x: 100, y: 200, width: 0, height: 20 });
    s.spot_absolute = false;
    assert_eq!(follow_spot(&s, 4), None);
}

#[test]
fn placement_below_above_and_bottom() {
    let spot = Rect { x: 1700, y: 100, width: 0, height: 20 };
    let out = Some(((1600, 0), (1920, 1080)));
    assert_eq!(
        bar_placement(Some(spot), 66, out),
        BarLayout { anchor: BarAnchor::TopLeft, margin_left: 100, margin_top: 126 }
    );
    let low = Rect { x: 1700, y: 1050, width: 0, height: 20 };
    assert_eq!(
        bar_placement(Some(low), 66, out),
        BarLayout { anchor: BarAnchor::TopLeft, margin_left: 100, margin_top: 986 }
    );
    // Unknown output: origin 0, height 1440.
    assert_eq!(
        bar_placement(Some(Rect { x: -5, y: 1400, width: 0, height: 20 }), 66, None),
        BarLayout { anchor: BarAnchor::TopLeft, margin_left: 0, margin_top: 1336 }
    );
    // An output below another one: the caret's y is global.
    let lower = Some(((0, 1080), (1920, 1080)));
    assert_eq!(
        bar_placement(Some(Rect { x: 100, y: 1200, width: 0, height: 20 }), 66, lower),
        BarLayout { anchor: BarAnchor::TopLeft, margin_left: 100, margin_top: 146 }
    );
    assert_eq!(
        bar_placement(Some(Rect { x: 100, y: 2140, width: 0, height: 20 }), 66, lower),
        BarLayout { anchor: BarAnchor::TopLeft, margin_left: 100, margin_top: 996 }
    );
    assert_eq!(
        bar_placement(None, 66, out),
        BarLayout { anchor: BarAnchor::Bottom, margin_left: 0, margin_top: 0 }
    );
}

#[test]
fn blending() {
    let mut px = vec![10u8, 20, 30, 40, 1, 2, 3, 4];
    blend_px(&mut px, 0, [200, 100, 50, 255]);
    assert_eq!(&px[..4], &[50, 100, 200, 255]);
    assert_eq!(&px[4..], &[1, 2, 3, 4]);
    blend_px(&mut px, 4, [200, 100, 50, 0]);
    assert_eq!(&px[4..], &[1, 2, 3, 4]);
    let mut half = vec![0u8, 0, 0, 0];
    blend_px(&mut half, 0, [255, 255, 255, 128]);
    assert_eq!(half, vec![128, 128, 128, 128]);
}

fn ws(id: Option<u64>, output: Option<&str>) -> WorkspaceEntry {
    WorkspaceEntry { id, output: output.map(|s| s.to_string()) }
}

#[test]
fn workspace_lookup() {
    let entries = vec![ws(Some(1), Some("DP-1")), ws(Some(2), Some("HDMI-A-2")), ws(Some(2), Some("X"))];
    assert_eq!(workspace_output(&entries, 1), Some("DP-1".into()));
    assert_eq!(workspace_output(&entries, 2), Some("HDMI-A-2".into()));
    assert_eq!(workspace_output(&entries, 9), None);
    let odd = vec![ws(None, Some("A")), ws(Some(3), None), ws(Some(3), Some("B"))];
    assert_eq!(workspace_output(&odd, 3), None);
}

#[test]
fn click_reports_row_of_last_table() {
    let mut store = StateStore::default();
    store
        .set_lookup_table(
            vec!["".into(), "1 ".into(), "2 ".into()],
            vec!["ni hao".into(), "你好".into(), "你会".into()],
            vec![String::new(), String::new(), String::new()],
            false,
            false,
            1,
            1,
        )
        .unwrap();
    let s = store.snapshot();
    // Rows: aux-down line, then the two candidates.
    assert_eq!(clicked_candidate(&s, &Vec::new(), 3, 30), Some(1));
    assert_eq!(clicked_candidate(&s, &Vec::new(), 3, 50), Some(2));
    assert_eq!(clicked_candidate(&s, &Vec::new(), 3, 5), None);
}

#[test]
fn box_blend_clips_to_buffer() {
    // 3x2 buffer; a 2x2 opaque box at (2, -1) covers only pixel (2, 0).
    let mut px = vec![0u8; 3 * 2 * 4];
    blend_box(&mut px, 3, 2, 2, -1, 2, 2, [10, 20, 30, 255]);
    for (i, chunk) in px.chunks(4).enumerate() {
        if i == 2 {
            assert_eq!(chunk, &[30, 20, 10, 255]);
        } else {
            assert_eq!(chunk, &[0, 0, 0, 0]);
        }
    }
    let mut full = vec![0u8; 2 * 2 * 4];
    blend_box(&mut full, 2, 2, -5, -5, 20, 20, [1, 2, 3, 255]);
    assert!(full.chunks(4).all(|c| c == [3, 2, 1, 255]));
}

#[test]
fn translation_to_global() {
    let r = Rect { x: 10, y: 20, width: 0, height: 34 };
    assert_eq!(translate_to_global(r, (1920, 0)), Some(Rect { x: 1930, y: 20, width: 0, height: 34 }));
    assert_eq!(translate_to_global(Rect { x: i32::MAX, ..r }, (1, 0)), None);
}

#[test]
fn output_containment() {
    let g = ((1920, 0), (2560, 1440));
    assert!(output_contains(g, 1920, 0));
    assert!(!output_contains(g, 1919, 10));
    assert!(!output_contains(g, 4480, 10));
    assert!(output_contains(g, 4479, 1439));
}

#[test]
fn bar_width_and_slots() {
    assert_eq!(fcitx5_niri_panel::render::bar_width_for(0), 1);
    assert_eq!(fcitx5_niri_panel::render::bar_width_for(640), 640);
    assert_eq!(fcitx5_niri_panel::render::bar_width_for(5000), 2000);
    assert_eq!(fcitx5_niri_panel::render::row_slot(0), (0, 16));
    assert_eq!(fcitx5_niri_panel::render::row_slot(3), (66, 82));
}

#[test]
fn box_blend_leaves_tail_of_longer_buffer() {
    let mut px = vec![9u8; 2 * 1 * 4 + 3];
    blend_box(&mut px, 2, 1, 0, 0, 5, 5, [1, 2, 3, 255]);
    assert_eq!(&px[..8], &[3, 2, 1, 255, 3, 2, 1, 255]);
    assert_eq!(&px[8..], &[9, 9, 9]);
}

#[test]
fn layer_binding_decisions() {
    // Following a caret binds to its output, recreating only on a change.
    assert_eq!(layer_binding(Some(1), Some(0), true, true), (true, Some(1)));
    assert_eq!(layer_binding(Some(1), Some(1), true, true), (false, Some(1)));
    assert_eq!(layer_binding(Some(0), None, false, true), (true, Some(0)));
    // Hidden -> visible with no caret: recreate unbound.
    assert_eq!(layer_binding(None, Some(1), false, true), (true, None));
    assert_eq!(layer_binding(None, None, false, true), (true, None));
    // Otherwise keep the binding.
    assert_eq!(layer_binding(None, Some(1), true, true), (false, Some(1)));
    assert_eq!(layer_binding(None, Some(1), true, false), (false, Some(1)));
}

#[test]
fn repaint_throttle() {
    assert_eq!(repaint_decision(true, None), (true, true));
    assert_eq!(repaint_decision(true, Some(5)), (false, false));
    assert_eq!(repaint_decision(true, Some(15)), (false, false));
    assert_eq!(repaint_decision(true, Some(16)), (true, true));
    assert_eq!(repaint_decision(false, Some(5)), (true, false));
    assert_eq!(repaint_decision(false, None), (true, false));
}

#[test]
fn placement_range_check() {
    let out = Some(((0, 1080), (1920, 1080)));
    assert!(placement_fits(Rect { x: 100, y: 1200, width: 0, height: 20 }, 66, out));
    assert!(placement_fits(Rect { x: 100, y: 1200, width: 0, height: 20 }, 66, None));
    // Below the caret would pass i32::MAX.
    assert!(!placement_fits(Rect { x: 0, y: i32::MAX - 10, width: 0, height: 5 }, 66, None));
    // The left margin would pass i32::MAX.
    assert!(!placement_fits(Rect { x: i32::MAX, y: 0, width: 0, height: 5 }, 66, Some(((-10, 0), (10, 100)))));
    // A bar taller than i32::MAX.
    assert!(!placement_fits(Rect { x: 0, y: 0, width: 0, height: 5 }, u32::MAX, None));
}

#[test]
fn resize_and_hide_steps() {
    // Unchanged size: nothing to do.
    assert_eq!(size_step((300, 28), (300, 28)), (false, 28, false));
    // Grown: resize and go on.
    assert_eq!(size_step((300, 28), (420, 56)), (true, 56, false));
    // Hidden: ask for height 1 and stop.
    assert_eq!(size_step((300, 28), (300, 0)), (true, 1, true));
    // Already hidden at that width: no new request.
    assert_eq!(size_step((300, 0), (300, 0)), (false, 1, false));
}

#[test]
fn reanchor_and_draw_steps() {
    let bottom = BarLayout { anchor: BarAnchor::Bottom, margin_left: 0, margin_top: 0 };
    let caret = BarLayout { anchor: BarAnchor::TopLeft, margin_left: 100, margin_top: 220 };
    let moved = BarLayout { anchor: BarAnchor::TopLeft, margin_left: 110, margin_top: 220 };
    assert_eq!(anchor_step(bottom, bottom, false, false), (false, false));
    assert_eq!(anchor_step(bottom, bottom, false, true), (false, true));
    assert_eq!(anchor_step(bottom, bottom, true, false), (true, true));
    assert_eq!(anchor_step(bottom, caret, false, false), (true, true));
    assert_eq!(anchor_step(caret, moved, false, false), (true, true));
    assert_eq!(anchor_step(caret, caret, false, false), (false, false));
}
