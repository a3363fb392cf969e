//! The logic of a small note-taking window: the note and its caret, how keys
//! and window events change them, how the note is laid out in lines, how the
//! glyph atlas is packed, and how the mascot is painted.
pub mod atlas;
pub mod editor;
pub mod layout;
pub mod mascot;
pub mod session;
pub mod std_text;
pub mod utf8_text;
