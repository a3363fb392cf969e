//! The note being typed: its text, the caret, and what each key does to them.
use vstd::prelude::*;
use vstd::utf8::{encode_utf8, is_char_boundary};
use vstd::string::StrSliceExecFns;
use crate::utf8_text::{
    byte_offset, char_width, lemma_boundary_iff_offset, lemma_char_width_bounds,
    lemma_encode_concat, lemma_encode_len_bound, lemma_next_is_next_offset, lemma_offset_ends,
    lemma_offset_monotone, lemma_offset_step, lemma_prev_is_previous_offset, next_char_boundary,
    prev_char_boundary,
};
use crate::std_text::{
    char_is_control, char_len_utf8, is_control_code, string_insert, string_remove,
};

verus! {

/// Largest number of characters the note may hold.
pub const MAX_CHARS: usize = 4096;

/// A key press, as far as the note cares.
pub enum KeyInput {
    Backspace,
    ArrowLeft,
    ArrowRight,
    Enter,
    Escape,
    /// Any other key, with the text it produces, if any.
    Other(Option<String>),
}

/// Typing one character: it goes in at the caret unless it is a control
/// character or the note is full.
pub open spec fn type_one(chars: Seq<char>, caret: int, c: char) -> (Seq<char>, int) {
    if !is_control_code(c) && chars.len() < MAX_CHARS {
        (chars.insert(caret, c), caret + 1)
    } else {
        (chars, caret)
    }
}

/// Typing the characters of `input`, in order.
pub open spec fn type_chars(chars: Seq<char>, caret: int, input: Seq<char>) -> (Seq<char>, int)
    decreases input.len(),
{
    if input.len() == 0 {
        (chars, caret)
    } else {
        let (c, k) = type_chars(chars, caret, input.drop_last());
        type_one(c, k, input.last())
    }
}

/// The note and caret after `key` is pressed.
pub open spec fn key_effect(chars: Seq<char>, caret: int, key: KeyInput) -> (Seq<char>, int) {
    match key {
        KeyInput::Backspace => if caret > 0 {
            (chars.remove(caret - 1), caret - 1)
        } else {
            (chars, caret)
        },
        KeyInput::ArrowLeft => if caret > 0 {
            (chars, caret - 1)
        } else {
            (chars, caret)
        },
        KeyInput::ArrowRight => if caret < chars.len() {
            (chars, caret + 1)
        } else {
            (chars, caret)
        },
        KeyInput::Enter => if chars.len() < MAX_CHARS {
            (chars.insert(caret, '\n'), caret + 1)
        } else {
            (chars, caret)
        },
        KeyInput::Escape => (chars, caret),
        KeyInput::Other(None) => (chars, caret),
        KeyInput::Other(Some(t)) => type_chars(chars, caret, t@),
    }
}

/// Whether pressing `key` counts as a change of the note or of the caret.
pub open spec fn key_changes(chars: Seq<char>, caret: int, key: KeyInput) -> bool {
    match key {
        KeyInput::Backspace => caret > 0,
        KeyInput::ArrowLeft => caret > 0,
        KeyInput::ArrowRight => caret < chars.len(),
        KeyInput::Enter => chars.len() < MAX_CHARS,
        KeyInput::Escape => false,
        KeyInput::Other(None) => false,
        KeyInput::Other(Some(t)) => type_chars(chars, caret, t@).0.len() != chars.len(),
    }
}

/// The note's text with a caret that sits on a character boundary, held as
/// a byte position as `String` wants it.
pub struct Editor {
    text: String,
    cursor: usize,
    caret: Ghost<int>,
}

/// Inserting a character adds its width to the encoding.
proof fn lemma_insert_offsets(s: Seq<char>, k: int, c: char)
    requires
        0 <= k <= s.len(),
    ensures
        byte_offset(s.insert(k, c), k) == byte_offset(s, k),
        byte_offset(s.insert(k, c), k + 1) == byte_offset(s, k) + char_width(c),
        encode_utf8(s.insert(k, c)).len() == encode_utf8(s).len() + char_width(c),
        1 <= char_width(c) <= 4,
{
    let t = s.insert(k, c);
    assert(t.take(k) =~= s.take(k));
    assert(t[k] == c);
    lemma_offset_step(t, k);
    assert(t =~= s.take(k) + (seq![c] + s.skip(k)));
    assert(s =~= s.take(k) + s.skip(k));
    lemma_encode_concat(s.take(k), seq![c] + s.skip(k));
    lemma_encode_concat(seq![c], s.skip(k));
    lemma_encode_concat(s.take(k), s.skip(k));
    lemma_char_width_bounds(c);
}

/// Typing never shortens the note, and lengthens it exactly when some
/// character went in.
proof fn lemma_type_chars_grows(chars: Seq<char>, caret: int, input: Seq<char>)
    requires
        0 <= caret <= chars.len(),
    ensures
        0 <= type_chars(chars, caret, input).1 <= type_chars(chars, caret, input).0.len(),
        type_chars(chars, caret, input).0.len() >= chars.len(),
        type_chars(chars, caret, input).0.len() == chars.len() ==> type_chars(
            chars,
            caret,
            input,
        ).0 == chars,
    decreases input.len(),
{
    if input.len() > 0 {
        lemma_type_chars_grows(chars, caret, input.drop_last());
    }
}

/// What a well-formed editor promises: the caret lies within the note, on
/// a character boundary, and the note holds at most `MAX_CHARS` characters.
pub proof fn law_editor_invariant(e: &Editor)
    requires
        e.wf(),
    ensures
        0 <= e.caret() <= e.chars().len(),
        e.chars().len() <= MAX_CHARS,
        is_char_boundary(encode_utf8(e.chars()), byte_offset(e.chars(), e.caret())),
{
    lemma_boundary_iff_offset(e.chars(), byte_offset(e.chars(), e.caret()));
}

/// Typing text without control characters into a note with room for all of
/// it puts exactly that text in at the caret, in order, and leaves the caret
/// just after it.
pub proof fn law_typing_inserts_the_text(chars: Seq<char>, caret: int, input: Seq<char>)
    requires
        0 <= caret <= chars.len(),
        chars.len() + input.len() <= MAX_CHARS,
        forall|i: int| 0 <= i < input.len() ==> !is_control_code(#[trigger] input[i]),
    ensures
        type_chars(chars, caret, input) == (
            chars.take(caret) + input + chars.skip(caret),
            caret + input.len(),
        ),
    decreases input.len(),
{
    if input.len() == 0 {
        assert(chars.take(caret) + input + chars.skip(caret) =~= chars);
    } else {
        let p = input.drop_last();
        assert forall|i: int| 0 <= i < p.len() implies !is_control_code(#[trigger] p[i]) by {
            assert(p[i] == input[i]);
        }
        law_typing_inserts_the_text(chars, caret, p);
        let mid = chars.take(caret) + p + chars.skip(caret);
        assert(!is_control_code(input[input.len() - 1]));
        assert(mid.insert(caret + p.len(), input.last()) =~= chars.take(caret) + input
            + chars.skip(caret));
    }
}

/// Typing one character that is not a control character into a note with
/// room puts that very character in at the caret and moves the caret past
/// it.
pub proof fn law_typing_inserts_the_char(chars: Seq<char>, caret: int, c: char)
    requires
        0 <= caret <= chars.len(),
        chars.len() < MAX_CHARS,
        !is_control_code(c),
    ensures
        type_chars(chars, caret, seq![c]) == (chars.insert(caret, c), caret + 1),
        type_chars(chars, caret, seq![c]).0[caret] == c,
{
    law_typing_inserts_the_text(chars, caret, seq![c]);
    assert(chars.take(caret) + seq![c] + chars.skip(caret) =~= chars.insert(caret, c));
}

/// Backspace right after typing a character takes it out again and puts the
/// caret back.
pub proof fn law_backspace_undoes_typing(chars: Seq<char>, caret: int, c: char)
    requires
        0 <= caret <= chars.len(),
        chars.len() < MAX_CHARS,
        !is_control_code(c),
    ensures
        ({
            let (typed, k) = type_chars(chars, caret, seq![c]);
            key_effect(typed, k, KeyInput::Backspace) == (chars, caret)
        }),
{
    assert(seq![c].drop_last() =~= Seq::<char>::empty());
    assert(type_chars(chars, caret, seq![c].drop_last()) == (chars, caret));
    assert(seq![c].last() == c);
    let (typed, k) = type_chars(chars, caret, seq![c]);
    assert(typed == chars.insert(caret, c));
    assert(typed.remove(caret) =~= chars);
}

/// Backspace right after Enter takes the new line out again.
pub proof fn law_backspace_undoes_enter(chars: Seq<char>, caret: int)
    requires
        0 <= caret <= chars.len(),
        chars.len() < MAX_CHARS,
    ensures
        ({
            let (c, k) = key_effect(chars, caret, KeyInput::Enter);
            key_effect(c, k, KeyInput::Backspace) == (chars, caret)
        }),
{
    assert(chars.insert(caret, '\n').remove(caret) =~= chars);
}

/// Left then right, or right then left, puts the caret back where it was;
/// neither arrow touches the text.
pub proof fn law_arrows_undo_each_other(chars: Seq<char>, caret: int)
    requires
        0 <= caret <= chars.len(),
    ensures
        key_effect(chars, caret, KeyInput::ArrowLeft).0 == chars,
        key_effect(chars, caret, KeyInput::ArrowRight).0 == chars,
        caret > 0 ==> ({
            let (c, k) = key_effect(chars, caret, KeyInput::ArrowLeft);
            key_effect(c, k, KeyInput::ArrowRight) == (chars, caret)
        }),
        caret < chars.len() ==> ({
            let (c, k) = key_effect(chars, caret, KeyInput::ArrowRight);
            key_effect(c, k, KeyInput::ArrowLeft) == (chars, caret)
        }),
{
}

/// A full note takes no more characters, typed or from Enter.
pub proof fn law_full_note_takes_nothing(chars: Seq<char>, caret: int, input: Seq<char>)
    requires
        chars.len() >= MAX_CHARS,
    ensures
        type_chars(chars, caret, input) == (chars, caret),
        key_effect(chars, caret, KeyInput::Enter) == (chars, caret),
    decreases input.len(),
{
    if input.len() > 0 {
        law_full_note_takes_nothing(chars, caret, input.drop_last());
    }
}

/// Control characters in typed text are dropped: typing them changes
/// nothing.
pub proof fn law_control_chars_are_dropped(chars: Seq<char>, caret: int, c: char)
    requires
        is_control_code(c),
    ensures
        type_chars(chars, caret, seq![c]) == (chars, caret),
{
    assert(seq![c].drop_last() =~= Seq::<char>::empty());
    assert(type_chars(chars, caret, seq![c].drop_last()) == (chars, caret));
    assert(seq![c].last() == c);
}

impl Editor {
    /// The characters of the note.
    pub closed spec fn chars(&self) -> Seq<char> {
        self.text@
    }

    /// The caret, as the number of characters before it.
    pub closed spec fn caret(&self) -> int {
        self.caret@
    }

    /// The caret is a character position of the note, the byte cursor is its
    /// offset, and the note holds at most `MAX_CHARS` characters.
    pub closed spec fn wf(&self) -> bool {
        &&& 0 <= self.caret@ <= self.text@.len()
        &&& byte_offset(self.text@, self.caret@) == self.cursor
        &&& self.text@.len() <= MAX_CHARS
    }

    /// An empty note with the caret at its start.
    pub fn new() -> (e: Editor)
        ensures
            e.wf(),
            e.chars() == Seq::<char>::empty(),
            e.caret() == 0,
    {
        let e = Editor { text: String::new(), cursor: 0, caret: Ghost(0) };
        proof {
            lemma_offset_ends(e.text@);
        }
        e
    }

    /// The note's text.
    pub fn text(&self) -> (s: &str)
        ensures
            s@ == self.chars(),
    {
        self.text.as_str()
    }

    /// The caret as a byte position in the text.
    pub fn cursor(&self) -> (c: usize)
        requires
            self.wf(),
        ensures
            c == byte_offset(self.chars(), self.caret()),
            is_char_boundary(encode_utf8(self.chars()), c as int),
    {
        proof {
            lemma_boundary_iff_offset(self.text@, self.cursor as int);
        }
        self.cursor
    }

    proof fn lemma_wf_bounds(&self)
        requires
            self.wf(),
        ensures
            encode_utf8(self.text@).len() <= 4 * MAX_CHARS,
            self.cursor <= encode_utf8(self.text@).len(),
            self.cursor > 0 <==> self.caret@ > 0,
            self.cursor < encode_utf8(self.text@).len() <==> self.caret@ < self.text@.len(),
    {
        let s = self.text@;
        lemma_offset_ends(s);
        lemma_encode_len_bound(s, s.len() as int);
        lemma_offset_monotone(s, 0, self.caret@);
        lemma_offset_monotone(s, self.caret@, s.len() as int);
    }

    /// Moves the caret one character back.
    fn step_back(&mut self)
        requires
            old(self).wf(),
            old(self).caret() > 0,
        ensures
            final(self).wf(),
            final(self).chars() == old(self).chars(),
            final(self).caret() == old(self).caret() - 1,
    {
        proof {
            self.lemma_wf_bounds();
        }
        let prev = prev_char_boundary(self.text.as_str(), self.cursor);
        proof {
            lemma_prev_is_previous_offset(self.text@, self.caret@, prev as int);
        }
        self.cursor = prev;
        self.caret = Ghost(self.caret@ - 1);
    }

    /// Moves the caret one character forward.
    fn step_forward(&mut self)
        requires
            old(self).wf(),
            old(self).caret() < old(self).chars().len(),
        ensures
            final(self).wf(),
            final(self).chars() == old(self).chars(),
            final(self).caret() == old(self).caret() + 1,
    {
        proof {
            self.lemma_wf_bounds();
        }
        let next = next_char_boundary(self.text.as_str(), self.cursor);
        proof {
            lemma_next_is_next_offset(self.text@, self.caret@, next as int);
        }
        self.cursor = next;
        self.caret = Ghost(self.caret@ + 1);
    }

    /// Deletes the character before the caret.
    fn delete_back(&mut self)
        requires
            old(self).wf(),
            old(self).caret() > 0,
        ensures
            final(self).wf(),
            final(self).chars() == old(self).chars().remove(old(self).caret() - 1),
            final(self).caret() == old(self).caret() - 1,
    {
        proof {
            self.lemma_wf_bounds();
        }
        let ghost s = self.text@;
        let ghost k = self.caret@ - 1;
        let prev = prev_char_boundary(self.text.as_str(), self.cursor);
        proof {
            lemma_prev_is_previous_offset(s, k + 1, prev as int);
            lemma_offset_monotone(s, k + 1, s.len() as int);
            lemma_offset_ends(s);
            assert(byte_offset(s, k) == prev);
        }
        string_remove(&mut self.text, prev);
        proof {
            assert(self.text@ == s.remove(k));
            assert(self.text@.take(k) =~= s.take(k));
        }
        self.cursor = prev;
        self.caret = Ghost(k);
    }

    /// Puts `c` in at the caret and moves the caret past it.
    fn put(&mut self, c: char)
        requires
            old(self).wf(),
            old(self).chars().len() < MAX_CHARS,
        ensures
            final(self).wf(),
            final(self).chars() == old(self).chars().insert(old(self).caret(), c),
            final(self).caret() == old(self).caret() + 1,
    {
        proof {
            self.lemma_wf_bounds();
        }
        let ghost s = self.text@;
        let ghost k = self.caret@;
        let w = char_len_utf8(c);
        string_insert(&mut self.text, self.cursor, c);
        proof {
            assert(byte_offset(s, k) == self.cursor);
            assert(self.text@ == s.insert(k, c));
            lemma_insert_offsets(s, k, c);
        }
        self.cursor = self.cursor + w;
        self.caret = Ghost(k + 1);
    }

    /// Types the characters of `t`, in order.
    fn type_text(&mut self, t: &str) -> (changed: bool)
        requires
            old(self).wf(),
        ensures
            final(self).wf(),
            (final(self).chars(), final(self).caret()) == type_chars(
                old(self).chars(),
                old(self).caret(),
                t@,
            ),
            changed == (final(self).chars().len() != old(self).chars().len()),
    {
        proof {
            self.lemma_wf_bounds();
        }
        let ghost s0 = self.text@;
        let ghost k0 = self.caret@;
        let ghost input = t@;
        let before = self.text.as_str().len();
        for c in it: t.chars()
            invariant
                self.wf(),
                input == t@,
                it.seq() == input,
                before == encode_utf8(s0).len(),
                (self.text@, self.caret@) == type_chars(s0, k0, input.take(it.index() as int)),
                self.text@.len() >= s0.len(),
                (self.text@.len() == s0.len()) == (encode_utf8(self.text@).len() == before),
                encode_utf8(self.text@).len() >= before,
        {
            proof {
                let i = it.index() as int;
                assert(input.take(i + 1).drop_last() =~= input.take(i));
                assert(input.take(i + 1).last() == c);
            }
            if !char_is_control(c) && self.text.as_str().unicode_len() < MAX_CHARS {
                proof {
                    lemma_insert_offsets(self.text@, self.caret@, c);
                }
                self.put(c);
            }
        }
        proof {
            assert(input.take(input.len() as int) =~= input);
            self.lemma_wf_bounds();
        }
        self.text.as_str().len() != before
    }

    /// Applies a key press to the note; returns whether anything changed.
    /// Escape changes nothing here: leaving is the session's business.
    pub fn press(&mut self, key: &KeyInput) -> (changed: bool)
        requires
            old(self).wf(),
        ensures
            final(self).wf(),
            (final(self).chars(), final(self).caret()) == key_effect(
                old(self).chars(),
                old(self).caret(),
                *key,
            ),
            changed == key_changes(old(self).chars(), old(self).caret(), *key),
    {
        proof {
            self.lemma_wf_bounds();
        }
        match key {
            KeyInput::Backspace => {
                if self.cursor > 0 {
                    self.delete_back();
                    true
                } else {
                    false
                }
            },
            KeyInput::ArrowLeft => {
                if self.cursor > 0 {
                    self.step_back();
                    true
                } else {
                    false
                }
            },
            KeyInput::ArrowRight => {
                if self.cursor < self.text.as_str().len() {
                    self.step_forward();
                    true
                } else {
                    false
                }
            },
            KeyInput::Enter => {
                if self.text.as_str().unicode_len() < MAX_CHARS {
                    self.put('\n');
                    true
                } else {
                    false
                }
            },
            KeyInput::Escape => false,
            KeyInput::Other(text) => {
                match text {
                    Some(t) => {
                        let changed = self.type_text(t.as_str());
                        proof {
                            lemma_type_chars_grows(old(self).text@, old(self).caret@, t@);
                        }
                        changed
                    },
                    None => false,
                }
            },
        }
    }
}

} // verus!
