# sharew

The core of a screenshot annotator for Wayland, written in Verus: executable Rust whose behaviour
is stated in `requires` / `ensures` contracts and proved.

- `src/render/`: geometry, layout, colors, thicknesses, the blur, and the drawing steps of the
  canvas and the chrome.
- `src/editor/`: the annotation editor, its model (`state.rs`) and what holds of it (`laws.rs`).
- `src/session/`: the program around the editor: overlays, pointer and key events, redraws.
- `src/canvas.rs`, `src/capture.rs`: outputs put together on one canvas, and how their pixels get
  there.
- `src/keys.rs`, `src/save.rs`, `src/text.rs`: key symbols, file names, numbers written out.
- `app/`: the Wayland client, which captures, paints the drawing steps with cairo, and saves.

What the library draws is a list of drawing steps with exact coordinates; angles, and colors that
depend on angles, are evaluated in floating point where the steps are painted.
