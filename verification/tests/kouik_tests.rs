use kouik::atlas::{atlas_fits, blit_glyph, pack_atlas, GlyphMetrics, DEFAULT_CELL_WIDTH, GLYPH_COUNT};
use kouik::editor::{Editor, KeyInput, MAX_CHARS};
use kouik::layout::layout_text;
use kouik::mascot::{cell_paint, is_eye, mascot_cell, sprite_cells, EyeState, Paint, SpriteCell};
use kouik::session::{initial_surface_size, Event, Frame, Session, Size};
use kouik::utf8_text::{next_char_boundary, prev_char_boundary};

// "a" is 1 byte, "é" 2, "€" 3, "😀" 4: boundaries at 0, 1, 3, 6, 10.
const MIXED: &str = "aé€😀";

fn typed(text: &str) -> KeyInput {
    KeyInput::Other(Some(text.to_string()))
}

fn editor_with(text: &str) -> Editor {
    let mut e = Editor::new();
    e.press(&typed(text));
    e
}

#[test]
fn prev_boundary_steps_back_one_character() {
    assert_eq!(prev_char_boundary(MIXED, 10), 6);
    assert_eq!(prev_char_boundary(MIXED, 6), 3);
    assert_eq!(prev_char_boundary(MIXED, 3), 1);
    assert_eq!(prev_char_boundary(MIXED, 1), 0);
}

#[test]
fn prev_boundary_from_inside_or_past_the_end() {
    assert_eq!(prev_char_boundary(MIXED, 5), 3);
    assert_eq!(prev_char_boundary(MIXED, 9), 6);
    assert_eq!(prev_char_boundary(MIXED, 15), 10);
    assert_eq!(prev_char_boundary("", 1), 0);
}

#[test]
fn next_boundary_steps_forward_one_character() {
    assert_eq!(next_char_boundary(MIXED, 0), 1);
    assert_eq!(next_char_boundary(MIXED, 1), 3);
    assert_eq!(next_char_boundary(MIXED, 3), 6);
    assert_eq!(next_char_boundary(MIXED, 6), 10);
}

#[test]
fn next_boundary_from_inside_or_past_the_end() {
    assert_eq!(next_char_boundary(MIXED, 4), 6);
    assert_eq!(next_char_boundary(MIXED, 10), 11);
    assert_eq!(next_char_boundary(MIXED, 20), 21);
}

#[test]
fn boundary_steps_undo_each_other() {
    for b in [0usize, 1, 3, 6] {
        let n = next_char_boundary(MIXED, b);
        assert_eq!(prev_char_boundary(MIXED, n), b);
    }
}

#[test]
fn new_editor_is_empty() {
    let e = Editor::new();
    assert_eq!(e.text(), "");
    assert_eq!(e.cursor(), 0);
}

#[test]
fn typing_inserts_at_the_caret_and_moves_it_by_bytes() {
    let mut e = Editor::new();
    assert!(e.press(&typed("hé")));
    assert_eq!(e.text(), "hé");
    assert_eq!(e.cursor(), 3);
    assert!(e.press(&KeyInput::ArrowLeft));
    assert_eq!(e.cursor(), 1);
    assert!(e.press(&typed("€")));
    assert_eq!(e.text(), "h€é");
    assert_eq!(e.cursor(), 4);
}

#[test]
fn backspace_removes_the_character_before_the_caret() {
    let mut e = editor_with("a😀b");
    assert!(e.press(&KeyInput::ArrowLeft));
    assert!(e.press(&KeyInput::Backspace));
    assert_eq!(e.text(), "ab");
    assert_eq!(e.cursor(), 1);
}

#[test]
fn backspace_at_the_start_does_nothing() {
    let mut e = editor_with("xy");
    assert!(e.press(&KeyInput::ArrowLeft));
    assert!(e.press(&KeyInput::ArrowLeft));
    assert!(!e.press(&KeyInput::ArrowLeft));
    assert!(!e.press(&KeyInput::Backspace));
    assert_eq!(e.text(), "xy");
    assert_eq!(e.cursor(), 0);
}

#[test]
fn arrow_right_stops_at_the_end() {
    let mut e = editor_with("é");
    assert!(!e.press(&KeyInput::ArrowRight));
    assert!(e.press(&KeyInput::ArrowLeft));
    assert!(e.press(&KeyInput::ArrowRight));
    assert_eq!(e.cursor(), 2);
}

#[test]
fn arrows_undo_each_other() {
    let mut e = editor_with("a€c");
    e.press(&KeyInput::ArrowLeft);
    e.press(&KeyInput::ArrowLeft);
    let at = e.cursor();
    e.press(&KeyInput::ArrowLeft);
    e.press(&KeyInput::ArrowRight);
    assert_eq!(e.cursor(), at);
    e.press(&KeyInput::ArrowRight);
    e.press(&KeyInput::ArrowLeft);
    assert_eq!(e.cursor(), at);
    assert_eq!(e.text(), "a€c");
}

#[test]
fn backspace_undoes_typing() {
    let mut e = editor_with("ab");
    e.press(&KeyInput::ArrowLeft);
    e.press(&typed("ü"));
    assert_eq!(e.text(), "aüb");
    e.press(&KeyInput::Backspace);
    assert_eq!(e.text(), "ab");
    assert_eq!(e.cursor(), 1);
}

#[test]
fn enter_inserts_a_newline_and_backspace_removes_it() {
    let mut e = editor_with("ab");
    e.press(&KeyInput::ArrowLeft);
    assert!(e.press(&KeyInput::Enter));
    assert_eq!(e.text(), "a\nb");
    assert_eq!(e.cursor(), 2);
    assert!(e.press(&KeyInput::Backspace));
    assert_eq!(e.text(), "ab");
    assert_eq!(e.cursor(), 1);
}

#[test]
fn control_characters_are_not_typed() {
    let mut e = Editor::new();
    assert!(!e.press(&typed("\t\u{7f}\u{9f}")));
    assert_eq!(e.text(), "");
    assert!(e.press(&typed("a\tb")));
    assert_eq!(e.text(), "ab");
    assert!(e.press(&typed("\u{a0}")));
    assert_eq!(e.text(), "ab\u{a0}");
}

#[test]
fn keys_without_text_and_escape_change_nothing() {
    let mut e = editor_with("q");
    assert!(!e.press(&KeyInput::Other(None)));
    assert!(!e.press(&KeyInput::Escape));
    assert!(!e.press(&typed("")));
    assert_eq!(e.text(), "q");
    assert_eq!(e.cursor(), 1);
}

#[test]
fn full_note_takes_no_more_characters() {
    let mut e = Editor::new();
    let fill: String = "é".repeat(MAX_CHARS - 1);
    assert!(e.press(&typed(&fill)));
    assert!(e.press(&typed("xyz")));
    assert_eq!(e.text().chars().count(), MAX_CHARS);
    assert!(e.text().ends_with("éx"));
    assert!(!e.press(&KeyInput::Enter));
    assert!(!e.press(&typed("w")));
    assert_eq!(e.text().chars().count(), MAX_CHARS);
    assert!(e.press(&KeyInput::Backspace));
    assert!(e.press(&KeyInput::Enter));
    assert!(e.text().ends_with("é\n"));
}

#[test]
fn layout_splits_at_newlines() {
    let l = layout_text("ab\ncd\n", 4);
    assert_eq!(l.lines, vec![vec!['a', 'b'], vec!['c', 'd'], vec![]]);
    assert_eq!((l.caret_line, l.caret_column), (1, 1));
}

#[test]
fn layout_of_empty_text_is_one_empty_line() {
    let l = layout_text("", 0);
    assert_eq!(l.lines, vec![Vec::<char>::new()]);
    assert_eq!((l.caret_line, l.caret_column), (0, 0));
}

#[test]
fn layout_caret_counts_characters_not_bytes() {
    let l = layout_text("x\né€z", 7);
    assert_eq!(l.lines, vec![vec!['x'], vec!['é', '€', 'z']]);
    assert_eq!((l.caret_line, l.caret_column), (1, 2));
    let end = layout_text("x\né€z", 8);
    assert_eq!((end.caret_line, end.caret_column), (1, 3));
}

#[test]
fn layout_caret_off_a_boundary_goes_to_the_start() {
    let inside = layout_text("x\né", 3);
    assert_eq!((inside.caret_line, inside.caret_column), (0, 0));
    let past = layout_text("x\né", 9);
    assert_eq!((past.caret_line, past.caret_column), (0, 0));
}

#[test]
fn layout_caret_after_a_newline_starts_the_next_line() {
    let l = layout_text("ab\n", 3);
    assert_eq!(l.lines, vec![vec!['a', 'b'], vec![]]);
    assert_eq!((l.caret_line, l.caret_column), (1, 0));
}

#[test]
fn mascot_cells_match_the_sprite() {
    assert_eq!(mascot_cell(0, 0), None);
    assert_eq!(mascot_cell(0, 2), Some(Paint::Body));
    assert_eq!(mascot_cell(3, 2), Some(Paint::Pink));
    assert_eq!(mascot_cell(7, 2), Some(Paint::Eye));
    assert_eq!(mascot_cell(7, 3), Some(Paint::Highlight));
    assert_eq!(mascot_cell(9, 5), Some(Paint::Nose));
    assert_eq!(mascot_cell(10, 4), Some(Paint::Mouth));
    assert_eq!(mascot_cell(19, 11), Some(Paint::Body));
    assert_eq!(mascot_cell(19, 5), None);
}

#[test]
fn eyes_are_rows_seven_and_eight() {
    assert!(is_eye(7, 2) && is_eye(7, 9) && is_eye(8, 3) && is_eye(8, 8));
    assert!(!is_eye(7, 4) && !is_eye(6, 2) && !is_eye(9, 2));
}

#[test]
fn blinking_covers_the_eyes() {
    assert_eq!(cell_paint(7, 2, EyeState::Open), Some(Paint::Eye));
    assert_eq!(cell_paint(7, 2, EyeState::Closed), Some(Paint::Lid));
    assert_eq!(cell_paint(8, 9, EyeState::Closed), Some(Paint::Lid));
    assert_eq!(cell_paint(7, 3, EyeState::Squint), Some(Paint::Lid));
    assert_eq!(cell_paint(8, 3, EyeState::Squint), Some(Paint::Eye));
    assert_eq!(cell_paint(7, 4, EyeState::Closed), Some(Paint::Body));
    assert_eq!(cell_paint(0, 0, EyeState::Closed), None);
}

#[test]
fn sprite_cells_in_reading_order() {
    let open = sprite_cells(EyeState::Open);
    assert_eq!(open.len(), 176);
    assert_eq!(open[0], SpriteCell { row: 0, col: 2, paint: Paint::Body });
    assert_eq!(open[175], SpriteCell { row: 19, col: 11, paint: Paint::Body });
    let closed = sprite_cells(EyeState::Closed);
    assert_eq!(closed.len(), 176);
    let lids = closed.iter().filter(|c| c.paint == Paint::Lid).count();
    assert_eq!(lids, 8);
    let squint = sprite_cells(EyeState::Squint);
    assert_eq!(squint.iter().filter(|c| c.paint == Paint::Lid).count(), 4);
}

fn glyph(xmin: i32, ymin: i32, width: usize, height: usize, cell_advance: u32) -> GlyphMetrics {
    GlyphMetrics { xmin, ymin, width, height, cell_advance }
}

#[test]
fn atlas_of_no_glyphs() {
    let a = pack_atlas(&vec![], &vec![]);
    assert_eq!(a.max_above, 1);
    assert_eq!(a.max_below, 0);
    assert_eq!(a.cell_w, DEFAULT_CELL_WIDTH);
    assert_eq!(a.width, DEFAULT_CELL_WIDTH * GLYPH_COUNT as u32);
    assert_eq!(a.height, 1);
    assert_eq!(a.pixels, vec![0u8; (a.width * a.height) as usize]);
    assert!(a.slots.is_empty());
}

#[test]
fn atlas_places_glyphs_on_a_common_baseline() {
    // one glyph 2x3 resting on the baseline, one 1x2 dropping one row below it
    let metrics = vec![glyph(1, 0, 2, 3, 4), glyph(-1, -1, 1, 2, 3)];
    let bitmaps = vec![vec![1, 2, 3, 4, 5, 6], vec![7, 8]];
    let a = pack_atlas(&metrics, &bitmaps);
    assert_eq!(a.max_above, 3);
    assert_eq!(a.max_below, 1);
    assert_eq!(a.cell_w, 4);
    assert_eq!(a.width, 4 * 95);
    assert_eq!(a.height, 4);
    let w = a.width as usize;
    let px = |x: usize, y: usize| a.pixels[y * w + x];
    // first glyph: cell 0, bearing 1, top row 0
    assert_eq!((px(1, 0), px(2, 0)), (1, 2));
    assert_eq!((px(1, 1), px(2, 1)), (3, 4));
    assert_eq!((px(1, 2), px(2, 2)), (5, 6));
    assert_eq!(px(0, 0), 0);
    assert_eq!(px(3, 0), 0);
    // second glyph: cell 1 (x 4), bearing 0, rises 1 so its top is row 2
    assert_eq!(px(4, 2), 7);
    assert_eq!(px(4, 3), 8);
    assert_eq!(px(4, 1), 0);
    let nonzero = a.pixels.iter().filter(|&&p| p != 0).count();
    assert_eq!(nonzero, 8);
    assert_eq!(a.slots[0].x_off, 0);
    assert_eq!(a.slots[0].bearing_x, 1);
    assert_eq!(a.slots[0].above_baseline, 3);
    assert_eq!(a.slots[1].x_off, 4);
    assert_eq!(a.slots[1].bearing_x, 0);
    assert_eq!(a.slots[1].above_baseline, 1);
}

#[test]
fn blit_drops_what_falls_outside() {
    let mut pixels = vec![9u8; 3 * 2];
    blit_glyph(&mut pixels, 3, 2, 1, 1, 1, &[1, 2, 3, 4], 2, 2);
    // the glyph starts at column 2, row 1: only its top left pixel fits
    assert_eq!(pixels, vec![9, 9, 9, 9, 9, 1]);
}

#[test]
fn initial_surface_is_at_least_one_pixel() {
    assert_eq!(initial_surface_size(0, 5), Size { width: 1, height: 5 });
    assert_eq!(initial_surface_size(640, 0), Size { width: 640, height: 1 });
    assert_eq!(initial_surface_size(640, 480), Size { width: 640, height: 480 });
}

#[test]
fn session_starts_on_the_mascot() {
    let mut s = Session::new();
    assert!(s.show_mascot());
    assert!(!s.hopping());
    let r = s.handle(Event::Resumed);
    assert_eq!(r.frame, Frame::Mascot { hop: false });
    assert!(!r.exit && !r.draw && !r.request_redraw);
}

#[test]
fn click_makes_the_mascot_hop_until_done() {
    let mut s = Session::new();
    let r = s.handle(Event::Mouse { pressed: true, left: false });
    assert!(!r.start_hop);
    let r = s.handle(Event::Mouse { pressed: false, left: true });
    assert!(!r.start_hop);
    let r = s.handle(Event::Mouse { pressed: true, left: true });
    assert!(r.start_hop);
    assert!(s.hopping());
    let r = s.handle(Event::Idle { hop_done: false });
    assert_eq!(r.frame, Frame::Mascot { hop: true });
    assert!(r.request_redraw);
    let r = s.handle(Event::Resized { width: 800, height: 600, hop_done: true });
    assert_eq!(r.frame, Frame::Mascot { hop: false });
    assert_eq!(r.configure, Some(Size { width: 800, height: 600 }));
    assert!(s.hopping());
    let r = s.handle(Event::Idle { hop_done: true });
    assert_eq!(r.frame, Frame::Mascot { hop: false });
    assert!(!s.hopping());
}

#[test]
fn first_key_press_brings_the_note_for_good() {
    let mut s = Session::new();
    let r = s.handle(Event::Key { pressed: false, key: KeyInput::Enter });
    assert_eq!(r.frame, Frame::Unchanged);
    assert!(s.show_mascot());
    let r = s.handle(Event::Key { pressed: true, key: KeyInput::ArrowLeft });
    assert_eq!(r.frame, Frame::Text);
    assert!(r.request_redraw);
    assert!(!s.show_mascot());
    let r = s.handle(Event::Key { pressed: true, key: KeyInput::ArrowLeft });
    assert_eq!(r.frame, Frame::Unchanged);
    assert!(!r.request_redraw);
    let r = s.handle(Event::Mouse { pressed: true, left: true });
    assert!(!r.start_hop);
    let r = s.handle(Event::Idle { hop_done: false });
    assert_eq!(r.frame, Frame::Unchanged);
    assert!(r.request_redraw);
    let r = s.handle(Event::Resized { width: 0, height: 600, hop_done: false });
    assert_eq!(r.configure, None);
    assert_eq!(r.frame, Frame::Text);
}

#[test]
fn typing_in_a_session_edits_the_note() {
    let mut s = Session::new();
    s.handle(Event::Key { pressed: true, key: typed("hi") });
    s.handle(Event::Key { pressed: true, key: KeyInput::Enter });
    let r = s.handle(Event::Key { pressed: true, key: typed("ö") });
    assert_eq!(r.frame, Frame::Text);
    assert_eq!(s.editor().text(), "hi\nö");
    assert_eq!(s.editor().cursor(), 5);
}

#[test]
fn escape_exits_and_close_exits() {
    let mut s = Session::new();
    let r = s.handle(Event::Key { pressed: true, key: KeyInput::Escape });
    assert!(r.exit);
    assert_eq!(r.frame, Frame::Text);
    assert!(!s.show_mascot());
    let r = s.handle(Event::Key { pressed: true, key: KeyInput::Escape });
    assert!(r.exit);
    assert_eq!(r.frame, Frame::Unchanged);
    let r = s.handle(Event::CloseRequested);
    assert!(r.exit);
    let r = s.handle(Event::RedrawRequested);
    assert!(r.draw && !r.exit);
}

#[test]
fn atlas_fits_accepts_ordinary_glyphs() {
    let metrics = vec![glyph(1, 0, 2, 3, 4), glyph(-1, -1, 1, 2, 3)];
    assert!(atlas_fits(&metrics, &vec![vec![0; 6], vec![0; 2]]));
    assert!(atlas_fits(&vec![], &vec![]));
}

#[test]
fn atlas_fits_refuses_what_would_overflow() {
    let metrics = vec![glyph(0, 0, 2, 2, 4)];
    assert!(!atlas_fits(&metrics, &vec![]));
    assert!(!atlas_fits(&metrics, &vec![vec![0; 3]]));
    assert!(!atlas_fits(&vec![glyph(0, i32::MIN, 0, 0, 4)], &vec![vec![]]));
    assert!(!atlas_fits(&vec![glyph(0, 0, 0, 0, u32::MAX / 10)], &vec![vec![]]));
    assert!(!atlas_fits(&vec![glyph(0, i32::MAX, 0, 1, 4)], &vec![vec![]]));
    assert!(!atlas_fits(&vec![glyph(0, 0, usize::MAX, 2, 4)], &vec![vec![]]));
}
