//! The window's life, as decisions: from the session's state and a window
//! event to the next state and what the window has to do.
use vstd::prelude::*;
use crate::editor::{Editor, KeyInput, key_changes, key_effect};

verus! {

/// A window event, with what the window knows of the mascot's hop clock.
pub enum Event {
    /// The window exists and can be drawn into.
    Resumed,
    CloseRequested,
    /// The window's inner size changed; `hop_done` tells whether a running
    /// hop has lasted its full length.
    Resized { width: u32, height: u32, hop_done: bool },
    /// A mouse button went down (`pressed`) or up; `left` for the left one.
    Mouse { pressed: bool, left: bool },
    /// A key went down (`pressed`) or up.
    Key { pressed: bool, key: KeyInput },
    RedrawRequested,
    /// The event queue is empty; `hop_done` as for `Resized`.
    Idle { hop_done: bool },
}

/// What to put in the vertex buffer.
#[derive(Clone, Copy, PartialEq, Eq, Structural, Debug)]
pub enum Frame {
    /// Leave it as it is.
    Unchanged,
    /// The note and its caret.
    Text,
    /// The mascot, hopping or standing.
    Mascot { hop: bool },
}

/// A surface size, in physical pixels.
#[derive(Clone, Copy, PartialEq, Eq, Structural, Debug)]
pub struct Size {
    pub width: u32,
    pub height: u32,
}

/// What the window has to do after an event.
#[derive(Clone, Copy, PartialEq, Eq, Structural, Debug)]
pub struct Reaction {
    /// Leave the event loop.
    pub exit: bool,
    /// Reconfigure the surface to this size.
    pub configure: Option<Size>,
    /// Start the hop clock now.
    pub start_hop: bool,
    pub frame: Frame,
    /// Ask the window for a redraw.
    pub request_redraw: bool,
    /// Draw the current vertex buffer and present it.
    pub draw: bool,
}

/// The session as the contracts see it.
pub struct SessionView {
    pub chars: Seq<char>,
    pub caret: int,
    pub show_mascot: bool,
    pub hopping: bool,
}

/// The reaction that does nothing.
pub open spec fn quiet() -> Reaction {
    Reaction {
        exit: false,
        configure: None,
        start_hop: false,
        frame: Frame::Unchanged,
        request_redraw: false,
        draw: false,
    }
}

/// The size to give the surface after a resize: none while either side is
/// zero.
pub open spec fn resize_target(width: u32, height: u32) -> Option<Size> {
    if width == 0 || height == 0 {
        None
    } else {
        Some(Size { width, height })
    }
}

/// The mascot frame, or the note once the mascot is gone.
pub open spec fn scene(show_mascot: bool, hop: bool) -> Frame {
    if show_mascot {
        Frame::Mascot { hop }
    } else {
        Frame::Text
    }
}

/// The next session state and the reaction to `e`.
pub open spec fn step(s: SessionView, e: Event) -> (SessionView, Reaction) {
    match e {
        Event::Resumed => (s, Reaction { frame: scene(s.show_mascot, false), ..quiet() }),
        Event::CloseRequested => (s, Reaction { exit: true, ..quiet() }),
        Event::Resized { width, height, hop_done } => (
            s,
            Reaction {
                configure: resize_target(width, height),
                frame: scene(s.show_mascot, s.hopping && !hop_done),
                ..quiet()
            },
        ),
        Event::Mouse { pressed, left } => if pressed && left && s.show_mascot {
            (SessionView { hopping: true, ..s }, Reaction { start_hop: true, ..quiet() })
        } else {
            (s, quiet())
        },
        Event::Key { pressed, key } => if !pressed {
            (s, quiet())
        } else {
            let (chars, caret) = key_effect(s.chars, s.caret, key);
            let refresh = key_changes(s.chars, s.caret, key) || s.show_mascot;
            (
                SessionView { chars, caret, show_mascot: false, hopping: s.hopping },
                Reaction {
                    exit: key is Escape,
                    frame: if refresh {
                        Frame::Text
                    } else {
                        Frame::Unchanged
                    },
                    request_redraw: refresh,
                    ..quiet()
                },
            )
        },
        Event::RedrawRequested => (s, Reaction { draw: true, ..quiet() }),
        Event::Idle { hop_done } => if s.show_mascot {
            let hop = s.hopping && !hop_done;
            (
                SessionView { hopping: hop, ..s },
                Reaction { frame: Frame::Mascot { hop }, request_redraw: true, ..quiet() },
            )
        } else {
            (s, Reaction { request_redraw: true, ..quiet() })
        },
    }
}

/// Once the note has replaced the mascot, the mascot never comes back.
pub proof fn law_mascot_never_returns(s: SessionView, e: Event)
    requires
        !s.show_mascot,
    ensures
        !step(s, e).0.show_mascot,
{
}

/// Any key press puts the note in place of the mascot, and the note is
/// redrawn when the mascot was showing.
pub proof fn law_key_press_shows_note(s: SessionView, key: KeyInput)
    ensures
        !step(s, Event::Key { pressed: true, key }).0.show_mascot,
        s.show_mascot ==> step(s, Event::Key { pressed: true, key }).1.frame == Frame::Text
            && step(s, Event::Key { pressed: true, key }).1.request_redraw,
{
}

/// Releasing a key changes nothing and asks for nothing.
pub proof fn law_key_release_is_ignored(s: SessionView, key: KeyInput)
    ensures
        step(s, Event::Key { pressed: false, key }) == (s, quiet()),
{
}

/// Escape leaves the event loop and leaves the note as it was.
pub proof fn law_escape_exits(s: SessionView)
    ensures
        step(s, Event::Key { pressed: true, key: KeyInput::Escape }).1.exit,
        step(s, Event::Key { pressed: true, key: KeyInput::Escape }).0.chars == s.chars,
        step(s, Event::Key { pressed: true, key: KeyInput::Escape }).0.caret == s.caret,
{
}

/// A key press asks to leave the event loop exactly when the key is
/// Escape; no other event but a close request asks for it.
pub proof fn law_only_escape_and_close_exit(s: SessionView, e: Event)
    ensures
        step(s, e).1.exit <==> (e matches Event::Key { pressed: true, key: KeyInput::Escape }
            || e is CloseRequested),
{
}

/// Only key presses edit the note or move the caret.
pub proof fn law_only_keys_edit(s: SessionView, e: Event)
    requires
        !(e is Key),
    ensures
        step(s, e).0.chars == s.chars,
        step(s, e).0.caret == s.caret,
{
}

/// A hop starts only while the mascot is shown, and only on a left click.
pub proof fn law_hop_needs_mascot(s: SessionView, e: Event)
    ensures
        step(s, e).1.start_hop ==> s.show_mascot && e matches Event::Mouse { pressed: true, left: true },
        step(s, e).0.hopping ==> s.hopping || step(s, e).1.start_hop,
{
}

/// The mascot is drawn hopping only while its hop is under way.
pub proof fn law_hop_frame(s: SessionView, e: Event)
    ensures
        step(s, e).1.frame matches Frame::Mascot { hop: true } ==> s.hopping && s.show_mascot,
{
}

/// A key press that changes the note or moves the caret has the note
/// redrawn.
pub proof fn law_edit_is_redrawn(s: SessionView, key: KeyInput)
    requires
        key_changes(s.chars, s.caret, key),
    ensures
        step(s, Event::Key { pressed: true, key }).1.frame == Frame::Text,
        step(s, Event::Key { pressed: true, key }).1.request_redraw,
{
}

/// The window's own events: closing exits, a redraw request draws, and a
/// resize reconfigures the surface unless a side is zero and always renders
/// the current scene again; none of them touches the session.
pub proof fn law_window_events(s: SessionView, width: u32, height: u32, hop_done: bool)
    ensures
        step(s, Event::CloseRequested) == (s, Reaction { exit: true, ..quiet() }),
        step(s, Event::RedrawRequested) == (s, Reaction { draw: true, ..quiet() }),
        step(s, Event::Resized { width, height, hop_done }).0 == s,
        (step(s, Event::Resized { width, height, hop_done }).1.configure is Some) == (width > 0
            && height > 0),
        step(s, Event::Resized { width, height, hop_done }).1.frame != Frame::Unchanged,
{
}

/// The surface size to start with: the window's inner size, each side at
/// least 1.
pub fn initial_surface_size(width: u32, height: u32) -> (r: Size)
    ensures
        r.width == if width >= 1 { width } else { 1 },
        r.height == if height >= 1 { height } else { 1 },
{
    let w = if width >= 1 {
        width
    } else {
        1
    };
    let h = if height >= 1 {
        height
    } else {
        1
    };
    Size { width: w, height: h }
}

fn quiet_reaction() -> (r: Reaction)
    ensures
        r == quiet(),
{
    Reaction {
        exit: false,
        configure: None,
        start_hop: false,
        frame: Frame::Unchanged,
        request_redraw: false,
        draw: false,
    }
}

/// The note, whether the mascot is still shown, and whether it is hopping.
pub struct Session {
    editor: Editor,
    show_mascot: bool,
    hopping: bool,
}

impl Session {
    pub closed spec fn view(&self) -> SessionView {
        SessionView {
            chars: self.editor.chars(),
            caret: self.editor.caret(),
            show_mascot: self.show_mascot,
            hopping: self.hopping,
        }
    }

    pub closed spec fn wf(&self) -> bool {
        self.editor.wf()
    }

    /// A fresh session: empty note, mascot shown, not hopping.
    pub fn new() -> (s: Session)
        ensures
            s.wf(),
            s.view().chars == Seq::<char>::empty(),
            s.view().caret == 0,
            s.view().show_mascot,
            !s.view().hopping,
    {
        Session { editor: Editor::new(), show_mascot: true, hopping: false }
    }

    /// The note.
    pub fn editor(&self) -> (e: &Editor)
        requires
            self.wf(),
        ensures
            e.wf(),
            e.chars() == self.view().chars,
            e.caret() == self.view().caret,
    {
        &self.editor
    }

    /// Whether the mascot is shown in place of the note.
    pub fn show_mascot(&self) -> (b: bool)
        ensures
            b == self.view().show_mascot,
    {
        self.show_mascot
    }

    /// Whether the mascot is hopping.
    pub fn hopping(&self) -> (b: bool)
        ensures
            b == self.view().hopping,
    {
        self.hopping
    }

    /// Takes in one window event and says what to do about it.
    pub fn handle(&mut self, event: Event) -> (r: Reaction)
        requires
            old(self).wf(),
        ensures
            final(self).wf(),
            (final(self).view(), r) == step(old(self).view(), event),
    {
        match event {
            Event::Resumed => {
                let frame = if self.show_mascot {
                    Frame::Mascot { hop: false }
                } else {
                    Frame::Text
                };
                Reaction { frame, ..quiet_reaction() }
            },
            Event::CloseRequested => Reaction { exit: true, ..quiet_reaction() },
            Event::Resized { width, height, hop_done } => {
                let configure = if width == 0 || height == 0 {
                    None
                } else {
                    Some(Size { width, height })
                };
                let frame = if self.show_mascot {
                    Frame::Mascot { hop: self.hopping && !hop_done }
                } else {
                    Frame::Text
                };
                Reaction { configure, frame, ..quiet_reaction() }
            },
            Event::Mouse { pressed, left } => {
                if pressed && left && self.show_mascot {
                    self.hopping = true;
                    Reaction { start_hop: true, ..quiet_reaction() }
                } else {
                    quiet_reaction()
                }
            },
            Event::Key { pressed, key } => {
                if !pressed {
                    return quiet_reaction();
                }
                let was_mascot = self.show_mascot;
                self.show_mascot = false;
                let exit = match key {
                    KeyInput::Escape => true,
                    _ => false,
                };
                let changed = self.editor.press(&key);
                let refresh = changed || was_mascot;
                let frame = if refresh {
                    Frame::Text
                } else {
                    Frame::Unchanged
                };
                Reaction { exit, frame, request_redraw: refresh, ..quiet_reaction() }
            },
            Event::RedrawRequested => Reaction { draw: true, ..quiet_reaction() },
            Event::Idle { hop_done } => {
                if self.show_mascot {
                    if self.hopping && hop_done {
                        self.hopping = false;
                    }
                    Reaction {
                        frame: Frame::Mascot { hop: self.hopping },
                        request_redraw: true,
                        ..quiet_reaction()
                    }
                } else {
                    Reaction { request_redraw: true, ..quiet_reaction() }
                }
            },
        }
    }
}

} // verus!
