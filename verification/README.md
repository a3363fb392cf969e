# kouik

A small note-taking window: a mascot greets you, and the first key press
replaces it with the note, which you type, edit and move through with the
arrow keys.

- `src/` is the verified library: the note and its caret over UTF-8
  (`editor`, `utf8_text`), the decisions taken on each window event
  (`session`), the cutting of the note into lines and the placing of the
  caret (`layout`), the packing of the glyph atlas (`atlas`), and the
  mascot's sprite and blinking (`mascot`). `std_text` holds the few std
  calls whose contracts are taken from std's documentation.
- `app/` is the window itself: winit events are turned into session events,
  and the reactions are carried out with wgpu; the float geometry of the
  quads, the blink timing and the font rasterization live there.
- `tests/` runs the library on concrete inputs.
