use fcitx5_niri_panel::preview::{rgb_over_black, state_aux_down, state_horizontal, state_vertical};
use fcitx5_niri_panel::render::build_rows;

#[test]
fn sample_states_row_counts() {
    assert_eq!(build_rows(&state_vertical()).len(), 7);
    assert_eq!(build_rows(&state_aux_down()).len(), 7);
    assert_eq!(build_rows(&state_horizontal()).len(), 2);
    let v = state_vertical();
    assert_eq!(v.preedit, "zhong guo");
    assert_eq!(v.candidates[5].text, "中");
    assert!(v.visible);
    let a = state_aux_down();
    assert_eq!(a.aux_down, "拼音: ni hao");
    assert_eq!(a.selected, 2);
    assert!(!a.preedit_visible && a.aux.is_empty() && a.spot.is_none());
    let h = state_horizontal();
    assert!(!h.preedit_visible && h.preedit.is_empty() && h.aux_down.is_empty());
    assert_eq!(build_rows(&h)[0].text, "辅助: 拼音");
    assert_eq!(build_rows(&h)[1].text, "1 中国   2 种过   3 重过   4 种果   5 中古");
}

#[test]
fn ppm_bytes_over_black() {
    // Opaque blue-ish pixel, half-transparent white, and a trailing partial pixel.
    let bgra = [10u8, 20, 30, 255, 255, 255, 255, 128, 7, 7];
    assert_eq!(rgb_over_black(&bgra), vec![30, 20, 10, 128, 128, 128]);
    assert!(rgb_over_black(&[]).is_empty());
}
