# fcitx5-niri-panel

A Kimpanel-compatible candidate/preedit panel for Fcitx 5 on Niri. Fcitx's
Kimpanel addon sends the panel its input state (preedit, aux text, the
candidate table, the caret rectangle) over D-Bus; the panel paints it as a
content-sized wlr-layer-shell bar next to the caret and turns clicks into
`SelectCandidate` signals.

## Layout

- `src/` — the verified library (Verus):
  - `model.rs`: the panel state, its abstract view, and the normalization of
    a `SetLookupTable` message (aux-down row split, cursor normalization,
    length checks).
  - `kimpanel.rs`: the state store updated by the `org.kde.impanel2`
    methods and the `org.kde.kimpanel.inputmethod` signals, and the commands
    sent back to Fcitx.
  - `render.rs`: the bar's rows, click resolution, highlight span, size and
    placement near the caret, which output the layer surface is bound to,
    the repaint throttle, and alpha blending of pixels and glyph boxes.
  - `pager.rs`: paging-button hit testing.
  - `niri.rs`: the focused window and the output showing its workspace,
    read from niri's IPC output (JSON parsed by serde_json).
  - `preview.rs`: sample states for the offline preview and the PPM pixel
    conversion.
- `app/` — the program around it: D-Bus endpoints (zbus), the Wayland
  renderer (smithay-client-toolkit, cosmic-text), the niri IPC queries, an
  offline PPM preview (`bar-preview`) and a synthetic input-context driver
  (`icdriver`).
- `tests/` — tests of the library on concrete values.
