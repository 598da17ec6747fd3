use fcitx5_niri_panel::niri::{
    focused_window_from_fields, parse_focused_window, parse_workspace_output, FocusedWindow,
    FocusedWindowFields,
};

// Fixture: output of niri 26.04 `niri msg -j focused-window`, plus the tile
// position the patched layout fills in.
const PATCHED: &str = r#"{"id":5,"title":"term","app_id":"com.mitchellh.ghostty","pid":1,
    "workspace_id":1,"is_focused":true,"is_floating":false,"is_urgent":false,
    "layout":{"pos_in_scrolling_layout":[2,1],"tile_size":[1072.0,1878.0],
    "window_size":[1072,1878],"tile_pos_in_workspace_view":[1258.0,42.0],
    "window_offset_in_tile":[0.0,0.0]},
    "focus_timestamp":{"secs":1,"nanos":0}}"#;

// Fixture: shape of `niri msg -j workspaces`.
const WORKSPACES: &str = r#"[{"id":1,"idx":1,"output":"DP-1","is_activated":true,
    "is_focused":false,"active_window_id":5},{"id":2,"idx":1,"output":"HDMI-A-2",
    "is_activated":true,"is_focused":true,"active_window_id":7}]"#;

fn pair(bits: (u64, u64)) -> (f64, f64) {
    (f64::from_bits(bits.0), f64::from_bits(bits.1))
}

#[test]
fn parses_patched_focused_window() {
    let win = parse_focused_window(PATCHED).expect("parses");
    assert_eq!(pair(win.tile_pos_bits), (1258.0, 42.0));
    assert_eq!(pair(win.offset_bits), (0.0, 0.0));
    assert_eq!(win.workspace_id, 1);
}

#[test]
fn maps_workspace_to_output() {
    assert_eq!(parse_workspace_output(WORKSPACES, 1), Some("DP-1".into()));
    assert_eq!(parse_workspace_output(WORKSPACES, 2), Some("HDMI-A-2".into()));
    assert_eq!(parse_workspace_output(WORKSPACES, 9), None);
}

#[test]
fn rejects_unpatched_tiled_window() {
    // Stock niri 26.04 reports null for tiled windows.
    let json = r#"{"id":5,"layout":{"pos_in_scrolling_layout":[2,1],
        "tile_size":[1072.0,1878.0],"window_size":[1072,1878],
        "tile_pos_in_workspace_view":null,"window_offset_in_tile":[0.0,0.0]}}"#;
    assert_eq!(parse_focused_window(json), None);
}

#[test]
fn rejects_garbage() {
    assert_eq!(parse_focused_window("Error: no focused window"), None);
    assert_eq!(parse_focused_window(""), None);
    assert_eq!(parse_focused_window(r#"{"layout":{}}"#), None);
    assert_eq!(parse_workspace_output("nope", 1), None);
}

#[test]
fn focused_window_needs_number_pairs_and_workspace() {
    let three = r#"{"workspace_id":3,"layout":{"tile_pos_in_workspace_view":[1,2,3],
        "window_offset_in_tile":[0,0]}}"#;
    assert_eq!(parse_focused_window(three), None);
    let text = r#"{"workspace_id":3,"layout":{"tile_pos_in_workspace_view":[1,"x"],
        "window_offset_in_tile":[0,0]}}"#;
    assert_eq!(parse_focused_window(text), None);
    let no_ws = r#"{"layout":{"tile_pos_in_workspace_view":[1,2],"window_offset_in_tile":[3,4]}}"#;
    assert_eq!(parse_focused_window(no_ws), None);
    let ints = r#"{"workspace_id":3,"layout":{"tile_pos_in_workspace_view":[10,20],
        "window_offset_in_tile":[2,2]}}"#;
    let win = parse_focused_window(ints).expect("integer positions read as numbers");
    assert_eq!(pair(win.tile_pos_bits), (10.0, 20.0));
    assert_eq!(pair(win.offset_bits), (2.0, 2.0));
    assert_eq!(win.workspace_id, 3);
}

#[test]
fn workspace_entries_without_ids_or_outputs() {
    let json = r#"[{"id":"1","output":"A"},{"id":3},{"id":3,"output":"B"},{"id":4,"output":7}]"#;
    assert_eq!(parse_workspace_output(json, 1), None);
    // The first entry for workspace 3 names no output.
    assert_eq!(parse_workspace_output(json, 3), None);
    assert_eq!(parse_workspace_output(json, 4), None);
    assert_eq!(parse_workspace_output(r#"{"id":1}"#, 1), None);
}

#[test]
fn focused_window_from_read_fields() {
    let full = FocusedWindowFields {
        tile_pos: Some(vec![Some(7), Some(9)]),
        offset_in_tile: Some(vec![Some(1), Some(2)]),
        workspace_id: Some(4),
    };
    assert_eq!(
        focused_window_from_fields(&full),
        Some(FocusedWindow { tile_pos_bits: (7, 9), offset_bits: (1, 2), workspace_id: 4 })
    );
    let short = FocusedWindowFields {
        tile_pos: Some(vec![Some(7)]),
        offset_in_tile: Some(vec![Some(1), Some(2)]),
        workspace_id: Some(4),
    };
    assert_eq!(focused_window_from_fields(&short), None);
    let not_number = FocusedWindowFields {
        tile_pos: Some(vec![Some(7), Some(9)]),
        offset_in_tile: Some(vec![None, Some(2)]),
        workspace_id: Some(4),
    };
    assert_eq!(focused_window_from_fields(&not_number), None);
    let missing = FocusedWindowFields { tile_pos: None, offset_in_tile: None, workspace_id: Some(4) };
    assert_eq!(focused_window_from_fields(&missing), None);
    let no_ws = FocusedWindowFields {
        tile_pos: Some(vec![Some(7), Some(9)]),
        offset_in_tile: Some(vec![Some(1), Some(2)]),
        workspace_id: None,
    };
    assert_eq!(focused_window_from_fields(&no_ws), None);
}
