use fcitx5_niri_panel::kimpanel::{signal_kind, InputMethodSignal, PanelCommand, SignalKind, StateStore};
use fcitx5_niri_panel::model::{CandidateLayout, LookupTableError, PanelState, Rect};

fn strings(items: &[&str]) -> Vec<String> {
    items.iter().map(|s| s.to_string()).collect()
}

#[test]
fn aux_down_row_is_split_off() {
    let mut store = StateStore::default();
    store
        .set_lookup_table(
            strings(&["", "1 ", "2 "]),
            strings(&["拼音: ni hao", "你好", "你会"]),
            strings(&["", "", ""]),
            true,
            false,
            2,
            1,
        )
        .unwrap();
    let s = store.snapshot();
    assert_eq!(s.aux_down, "拼音: ni hao");
    assert_eq!(s.candidates.len(), 2);
    assert_eq!(s.candidates[0].text, "你好");
    assert_eq!(s.candidates[1].label, "2 ");
    // Cursor 2 over the transmitted rows is candidate 1.
    assert_eq!(s.selected, 1);
    assert!(s.has_previous);
    assert!(!s.has_next);
    assert_eq!(s.layout, CandidateLayout::Vertical);
    assert!(s.visible);
}

#[test]
fn empty_table_clears_and_hides() {
    let mut store = StateStore::default();
    store
        .set_lookup_table(strings(&["1"]), strings(&["你"]), strings(&[""]), false, true, 0, 2)
        .unwrap();
    assert!(store.snapshot().visible);
    store
        .set_lookup_table(Vec::new(), Vec::new(), Vec::new(), false, false, -1, 0)
        .unwrap();
    let s = store.snapshot();
    assert!(s.candidates.is_empty());
    assert!(s.aux_down.is_empty());
    assert_eq!(s.selected, -1);
    assert_eq!(s.layout, CandidateLayout::NotSet);
    assert!(!s.visible);
}

#[test]
fn aux_row_cursor_maps_to_no_candidate() {
    let mut store = StateStore::default();
    store
        .set_lookup_table(
            strings(&["", "1"]),
            strings(&["aux", "你"]),
            strings(&["", ""]),
            false,
            false,
            0,
            0,
        )
        .unwrap();
    assert_eq!(store.snapshot().selected, -1);
}

#[test]
fn empty_label_with_empty_text_stays_a_candidate() {
    let mut store = StateStore::default();
    store
        .set_lookup_table(strings(&[""]), strings(&[""]), strings(&[""]), false, false, 0, 0)
        .unwrap();
    let s = store.snapshot();
    assert_eq!(s.candidates.len(), 1);
    assert!(s.aux_down.is_empty());
    assert_eq!(s.selected, 0);
}

#[test]
fn refused_table_reports_lengths_and_keeps_state() {
    let mut store = StateStore::default();
    store.set_preedit("ni");
    store.set_preedit_visible(true);
    let err = store
        .set_lookup_table(strings(&["1", "2"]), strings(&["a"]), strings(&[]), false, false, 0, 0)
        .unwrap_err();
    assert_eq!(err, LookupTableError::LengthMismatch { labels: 2, texts: 1, attrs: 0 });
    let s = store.snapshot();
    assert!(s.candidates.is_empty());
    assert_eq!(s.preedit, "ni");
    assert!(s.visible);
}

#[test]
fn layout_hints_decode() {
    assert_eq!(CandidateLayout::from_hint(0), CandidateLayout::NotSet);
    assert_eq!(CandidateLayout::from_hint(1), CandidateLayout::Vertical);
    assert_eq!(CandidateLayout::from_hint(2), CandidateLayout::Horizontal);
    assert_eq!(CandidateLayout::from_hint(3), CandidateLayout::Table);
    assert_eq!(CandidateLayout::from_hint(7), CandidateLayout::NotSet);
}

#[test]
fn preedit_and_aux_drive_visibility() {
    let mut store = StateStore::default();
    assert!(!store.snapshot().visible);
    store.set_preedit("zhong");
    assert!(!store.snapshot().visible, "hidden preedit shows nothing");
    store.set_preedit_visible(true);
    assert!(store.snapshot().visible);
    store.set_preedit("");
    assert!(!store.snapshot().visible);
    store.set_aux("aux");
    store.set_aux_visible(true);
    assert!(store.snapshot().visible);
    store.set_aux_visible(false);
    assert!(!store.snapshot().visible);
}

#[test]
fn hiding_lookup_table_drops_candidates() {
    let mut store = StateStore::default();
    store
        .set_lookup_table(strings(&["1", "2"]), strings(&["a", "b"]), strings(&["", ""]), false, false, 1, 1)
        .unwrap();
    store.set_lookup_visible(true);
    assert_eq!(store.snapshot().candidates.len(), 2);
    store.set_lookup_visible(false);
    let s = store.snapshot();
    assert!(s.candidates.is_empty());
    assert!(!s.visible);
}

#[test]
fn cursor_and_caret_updates_are_stored() {
    let mut store = StateStore::default();
    store.set_preedit_cursor(4);
    store.set_lookup_cursor(3);
    let s = store.snapshot();
    assert_eq!(s.preedit_cursor, 4);
    assert_eq!(s.selected, 3);
}

#[test]
fn absolute_and_relative_spots() {
    let mut store = StateStore::default();
    store.set_relative_spot(Rect { x: 720, y: 62, width: 0, height: 68 }, Some(2.0f64.to_bits()));
    let s = store.snapshot();
    assert!(!s.spot_absolute);
    assert_eq!(s.scale_bits.map(f64::from_bits), Some(2.0));
    store.set_spot(Rect { x: 5, y: 6, width: 0, height: 20 });
    let s = store.snapshot();
    assert!(s.spot_absolute);
    assert_eq!(s.scale_bits, None);
    assert_eq!(s.spot, Some(Rect { x: 5, y: 6, width: 0, height: 20 }));
}

#[test]
fn input_method_signals_apply() {
    let mut store = StateStore::default();
    store.apply_signal(InputMethodSignal::UpdatePreeditText("nihao".into()));
    store.apply_signal(InputMethodSignal::ShowPreedit(true));
    store.apply_signal(InputMethodSignal::UpdatePreeditCaret(5));
    store.apply_signal(InputMethodSignal::UpdateAux("aux".into()));
    store.apply_signal(InputMethodSignal::ShowAux(true));
    store.apply_signal(InputMethodSignal::UpdateLookupTableCursor(2));
    let s = store.snapshot();
    assert_eq!(s.preedit, "nihao");
    assert!(s.preedit_visible);
    assert_eq!(s.preedit_cursor, 5);
    assert_eq!(s.aux, "aux");
    assert!(s.aux_visible);
    assert_eq!(s.selected, 2);
    assert!(s.visible);
    store.apply_signal(InputMethodSignal::ShowLookupTable(false));
    store.apply_signal(InputMethodSignal::ShowPreedit(false));
    store.apply_signal(InputMethodSignal::ShowAux(false));
    assert!(!store.snapshot().visible);
}

#[test]
fn store_wakes_its_channel() {
    let (tx, rx) = std::sync::mpsc::channel();
    let mut store = StateStore::new(Some(tx));
    assert_eq!(rx.try_iter().count(), 0, "construction sends nothing");
    store.set_preedit("a");
    assert_eq!(rx.try_iter().count(), 1);
    store.set_preedit_visible(true);
    store.set_preedit_cursor(1);
    store.set_aux("b");
    store.set_aux_visible(true);
    store.set_lookup_visible(false);
    store.set_lookup_cursor(0);
    store.set_visible(true);
    store.set_spot(Rect { x: 1, y: 2, width: 3, height: 4 });
    store.set_relative_spot(Rect { x: 1, y: 2, width: 3, height: 4 }, None);
    store.apply_signal(InputMethodSignal::ShowAux(false));
    assert_eq!(rx.try_iter().count(), 10, "one wake per update");
    let _ = store.snapshot();
    assert!(store
        .set_lookup_table(strings(&["1"]), strings(&["a", "b"]), strings(&[""]), false, false, 0, 0)
        .is_err());
    assert_eq!(rx.try_iter().count(), 0, "a refused table and a snapshot send nothing");
    store
        .set_lookup_table(strings(&["1"]), strings(&["a"]), strings(&[""]), false, false, 0, 0)
        .unwrap();
    assert_eq!(rx.try_iter().count(), 1);
    drop(rx);
    // A closed channel is ignored.
    store.set_preedit("c");
}

#[test]
fn fresh_state_is_empty() {
    let s = PanelState::default();
    assert!(!s.visible);
    assert!(s.candidates.is_empty());
    assert_eq!(s.spot, None);
    assert_eq!(Rect::default(), Rect { x: 0, y: 0, width: 0, height: 0 });
}

#[test]
fn clear_lookup_resets_cursor() {
    let mut s = PanelState::default();
    s.set_lookup_table(strings(&["1", "2"]), strings(&["a", "b"]), strings(&["", ""]), false, false, 1, 1)
        .unwrap();
    s.clear_lookup();
    assert!(s.candidates.is_empty());
    assert_eq!(s.selected, 0);
}

#[test]
fn commands_map_to_signal_members() {
    assert_eq!(PanelCommand::SelectCandidate(3).signal_member(), "SelectCandidate");
    assert_eq!(PanelCommand::PageUp.signal_member(), "LookupTablePageUp");
    assert_eq!(PanelCommand::PageDown.signal_member(), "LookupTablePageDown");
    assert_eq!(PanelCommand::TriggerProperty("x".into()).signal_member(), "TriggerProperty");
    assert_eq!(PanelCommand::Exit.signal_member(), "Exit");
    assert_eq!(PanelCommand::Restart.signal_member(), "Restart");
    assert_eq!(PanelCommand::ReloadConfig.signal_member(), "ReloadConfig");
    assert_eq!(PanelCommand::Configure.signal_member(), "Configure");
}

#[test]
fn member_names_decode() {
    assert_eq!(signal_kind("UpdatePreeditText"), Some(SignalKind::UpdatePreeditText));
    assert_eq!(signal_kind("ShowPreedit"), Some(SignalKind::ShowPreedit));
    assert_eq!(signal_kind("UpdatePreeditCaret"), Some(SignalKind::UpdatePreeditCaret));
    assert_eq!(signal_kind("UpdateAux"), Some(SignalKind::UpdateAux));
    assert_eq!(signal_kind("ShowAux"), Some(SignalKind::ShowAux));
    assert_eq!(signal_kind("ShowLookupTable"), Some(SignalKind::ShowLookupTable));
    assert_eq!(signal_kind("UpdateLookupTableCursor"), Some(SignalKind::UpdateLookupTableCursor));
    assert_eq!(signal_kind("Enable"), None);
    assert_eq!(signal_kind("showaux"), None);
    assert_eq!(signal_kind(""), None);
}
