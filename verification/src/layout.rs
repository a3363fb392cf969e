//! How the note is cut into lines for drawing, and where the caret stands.
use vstd::prelude::*;
use vstd::string::StringSliceAdditionalSpecFns;
use vstd::utf8::encode_utf8;
use crate::utf8_text::{
    byte_offset, is_offset_of, lemma_offset_at_least, lemma_offset_ends, lemma_offset_monotone,
    lemma_offset_step,
};
use crate::std_text::char_len_utf8;

verus! {

/// The lines of `s`: the pieces between its newlines, in order. A text
/// without newlines is one line; an empty text is one empty line.
pub open spec fn split_lines(s: Seq<char>) -> Seq<Seq<char>>
    decreases s.len(),
{
    if s.len() == 0 {
        seq![Seq::<char>::empty()]
    } else {
        let ls = split_lines(s.drop_last());
        if s.last() == '\n' {
            ls.push(Seq::<char>::empty())
        } else {
            ls.update(ls.len() - 1, ls.last().push(s.last()))
        }
    }
}

/// Lines put back together with a newline between each two.
pub open spec fn join_lines(ls: Seq<Seq<char>>) -> Seq<char>
    decreases ls.len(),
{
    if ls.len() == 0 {
        Seq::<char>::empty()
    } else if ls.len() == 1 {
        ls[0]
    } else {
        join_lines(ls.drop_last()) + seq!['\n'] + ls.last()
    }
}

/// Number of newlines in `s`.
pub open spec fn count_newlines(s: Seq<char>) -> int
    decreases s.len(),
{
    if s.len() == 0 {
        0
    } else {
        count_newlines(s.drop_last()) + if s.last() == '\n' {
            1int
        } else {
            0int
        }
    }
}

/// Number of characters of `s` after its last newline (all of them if it
/// has none).
pub open spec fn chars_since_newline(s: Seq<char>) -> int
    decreases s.len(),
{
    if s.len() == 0 {
        0
    } else if s.last() == '\n' {
        0
    } else {
        chars_since_newline(s.drop_last()) + 1
    }
}

/// Line and column of the end of `prefix`: the caret placed after the text
/// `prefix` stands on its last line, after all of that line's characters.
pub open spec fn caret_after(prefix: Seq<char>) -> (int, int) {
    (split_lines(prefix).len() - 1, split_lines(prefix).last().len() as int)
}

/// Where a caret at byte position `cursor` is drawn: after the characters
/// before it when it sits on a character boundary, and at the very start
/// otherwise.
pub open spec fn caret_place(s: Seq<char>, cursor: int) -> (int, int) {
    if is_offset_of(s, cursor) {
        let k = choose|k: int| 0 <= k <= s.len() && #[trigger] byte_offset(s, k) == cursor;
        caret_after(s.take(k))
    } else {
        (0, 0)
    }
}

/// The note cut into lines, with the caret's line and the number of
/// characters before it on that line.
pub struct TextLayout {
    pub lines: Vec<Vec<char>>,
    pub caret_line: usize,
    pub caret_column: usize,
}

/// Splitting then joining gives the text back; no line holds a newline; there
/// is one line more than there are newlines.
pub proof fn law_lines_rejoin(s: Seq<char>)
    ensures
        join_lines(split_lines(s)) == s,
        split_lines(s).len() == count_newlines(s) + 1,
        forall|i: int, j: int|
            0 <= i < split_lines(s).len() && 0 <= j < split_lines(s)[i].len() ==> #[trigger] split_lines(s)[i][j] != '\n',
    decreases s.len(),
{
    if s.len() > 0 {
        let p = s.drop_last();
        law_lines_rejoin(p);
        let ls = split_lines(p);
        assert(s =~= p.push(s.last()));
        if s.last() == '\n' {
            let ls2 = ls.push(Seq::<char>::empty());
            assert(ls2.drop_last() =~= ls);
            assert(join_lines(ls2) =~= join_lines(ls) + seq!['\n']);
        } else {
            let ls2 = ls.update(ls.len() - 1, ls.last().push(s.last()));
            if ls.len() == 1 {
                assert(join_lines(ls2) =~= ls2[0]);
                assert(ls2[0] =~= ls[0].push(s.last()));
            } else {
                assert(ls2.drop_last() =~= ls.drop_last());
                assert(join_lines(ls) =~= join_lines(ls.drop_last()) + seq!['\n'] + ls.last());
                assert(join_lines(ls2) =~= join_lines(ls) + seq![s.last()]);
            }
            assert forall|i: int, j: int|
                0 <= i < ls2.len() && 0 <= j < ls2[i].len() implies #[trigger] ls2[i][j] != '\n' by {
                if i == ls.len() - 1 && j == ls.last().len() {
                } else {
                    assert(ls2[i][j] == ls[i][j]);
                }
            }
        }
    }
}

/// Every line of a text has at least one line, so `caret_after` is a real
/// position.
proof fn lemma_split_nonempty(s: Seq<char>)
    ensures
        split_lines(s).len() >= 1,
        split_lines(s).len() <= s.len() + 1,
        split_lines(s).last().len() <= s.len(),
    decreases s.len(),
{
    if s.len() > 0 {
        lemma_split_nonempty(s.drop_last());
    }
}

/// The lines of a prefix of `s` agree with the lines of `s`: all but the last
/// are lines of `s`, and the last starts the line of `s` at its position.
proof fn lemma_split_prefix(s: Seq<char>, k: int)
    requires
        0 <= k <= s.len(),
    ensures
        ({
            let p = split_lines(s.take(k));
            let f = split_lines(s);
            &&& 1 <= p.len() <= f.len()
            &&& forall|i: int| 0 <= i < p.len() - 1 ==> #[trigger] p[i] == f[i]
            &&& p.last().len() <= f[p.len() - 1].len()
            &&& f[p.len() - 1].take(p.last().len() as int) == p.last()
        }),
    decreases s.len(),
{
    lemma_split_nonempty(s.take(k));
    lemma_split_nonempty(s);
    if k == s.len() {
        assert(s.take(k) =~= s);
        let f = split_lines(s);
        assert(f.last().take(f.last().len() as int) =~= f.last());
    } else {
        let t = s.drop_last();
        assert(s.take(k) =~= t.take(k));
        lemma_split_prefix(t, k);
        lemma_split_nonempty(t);
        let p = split_lines(t.take(k));
        let ft = split_lines(t);
        let f = split_lines(s);
        if s.last() == '\n' {
            assert(f == ft.push(Seq::<char>::empty()));
        } else {
            assert(f == ft.update(ft.len() - 1, ft.last().push(s.last())));
            if p.len() - 1 == ft.len() - 1 {
                assert(f[p.len() - 1].take(p.last().len() as int) =~= ft[p.len() - 1].take(
                    p.last().len() as int,
                ));
            }
        }
    }
}

/// The caret after the first `k` characters lies inside the layout of the
/// whole text: on one of its lines, after exactly the characters of that
/// line that come before it.
pub proof fn law_caret_inside_layout(s: Seq<char>, k: int)
    requires
        0 <= k <= s.len(),
    ensures
        ({
            let (line, col) = caret_after(s.take(k));
            let f = split_lines(s);
            &&& 0 <= line < f.len()
            &&& 0 <= col <= f[line].len()
            &&& f[line].take(col) == split_lines(s.take(k)).last()
        }),
{
    lemma_split_prefix(s, k);
}

/// The last line of a text holds the characters after its last newline.
proof fn lemma_last_line_len(s: Seq<char>)
    ensures
        split_lines(s).last().len() == chars_since_newline(s),
    decreases s.len(),
{
    if s.len() > 0 {
        lemma_last_line_len(s.drop_last());
        lemma_split_nonempty(s.drop_last());
    }
}

/// A caret on the boundary before character `k` is drawn on the line
/// numbered by the newlines among the first `k` characters, after the
/// characters that follow the last of those newlines: a caret just before a
/// newline stays at the end of its line.
pub proof fn law_caret_on_boundary(s: Seq<char>, k: int)
    requires
        0 <= k <= s.len(),
    ensures
        caret_place(s, byte_offset(s, k)) == (
            count_newlines(s.take(k)),
            chars_since_newline(s.take(k)),
        ),
{
    let cursor = byte_offset(s, k);
    assert(is_offset_of(s, cursor));
    let j = choose|j: int| 0 <= j <= s.len() && #[trigger] byte_offset(s, j) == cursor;
    lemma_offset_monotone(s, j, k);
    law_lines_rejoin(s.take(k));
    lemma_last_line_len(s.take(k));
}

/// Cuts `text` into lines and places a caret given as a byte position.
pub fn layout_text(text: &str, cursor: usize) -> (l: TextLayout)
    ensures
        l.lines@.map_values(|v: Vec<char>| v@) == split_lines(text@),
        (l.caret_line as int, l.caret_column as int) == caret_place(text@, cursor as int),
{
    let ghost s = text@;
    let mut lines: Vec<Vec<char>> = Vec::new();
    let mut current: Vec<char> = Vec::new();
    let mut line: usize = 0;
    let mut caret_line: usize = 0;
    let mut caret_column: usize = 0;
    let mut byte_idx: usize = 0;
    let total = text.as_bytes().len();
    proof {
        lemma_offset_ends(s);
        assert(s.take(0) =~= Seq::<char>::empty());
        assert(lines@.map_values(|v: Vec<char>| v@).push(current@) =~= split_lines(s.take(0)));
    }
    for ch in it: text.chars()
        invariant
            it.seq() == s,
            s == text@,
            total == text.spec_bytes().len(),
            text.spec_bytes() == encode_utf8(s),
            line <= it.index(),
            0 <= it.index() <= s.len(),
            byte_idx == byte_offset(s, it.index() as int),
            lines@.map_values(|v: Vec<char>| v@).push(current@) == split_lines(s.take(it.index() as int)),
            line == lines.len(),
            forall|k: int|
                0 <= k < it.index() && #[trigger] byte_offset(s, k) == cursor ==> (
                caret_line as int,
                caret_column as int,
            ) == caret_after(s.take(k)),
            (forall|k: int| 0 <= k < it.index() ==> #[trigger] byte_offset(s, k) != cursor) ==> (
            caret_line == 0 && caret_column == 0),
    {
        let ghost i = it.index() as int;
        proof {
            lemma_offset_step(s, i);
            lemma_offset_monotone(s, i + 1, s.len() as int);
            lemma_offset_ends(s);
            lemma_offset_at_least(s, s.len() as int);
            lemma_split_nonempty(s.take(i));
            assert(s.take(i + 1).drop_last() =~= s.take(i));
            assert(s.take(i + 1).last() == ch);
            assert(split_lines(s.take(i)).len() == lines.len() + 1);
            assert(split_lines(s.take(i)).last() == current@);
        }
        if byte_idx == cursor {
            caret_line = line;
            caret_column = current.len();
            proof {
                assert forall|k: int| 0 <= k < i && #[trigger] byte_offset(s, k) == cursor implies false by {
                    lemma_offset_monotone(s, k, i);
                }
            }
        }
        if ch == '\n' {
            lines.push(current);
            current = Vec::new();
            line = line + 1;
            proof {
                assert(lines@.map_values(|v: Vec<char>| v@).push(current@) =~= split_lines(s.take(i + 1)));
            }
        } else {
            current.push(ch);
            proof {
                assert(lines@.map_values(|v: Vec<char>| v@).push(current@) =~= split_lines(s.take(i + 1)));
            }
        }
        byte_idx = byte_idx + char_len_utf8(ch);
    }
    proof {
        assert(s.take(s.len() as int) =~= s);
        lemma_split_nonempty(s);
    }
    if byte_idx == cursor {
        caret_line = line;
        caret_column = current.len();
    }
    lines.push(current);
    proof {
        assert(lines@.map_values(|v: Vec<char>| v@) =~= split_lines(s));
        if is_offset_of(s, cursor as int) {
            let k = choose|k: int| 0 <= k <= s.len() && #[trigger] byte_offset(s, k) == cursor;
            lemma_offset_monotone(s, k, s.len() as int);
        } else {
            assert forall|k: int| 0 <= k < s.len() implies #[trigger] byte_offset(s, k) != cursor by {
            }
            assert(byte_offset(s, s.len() as int) != cursor);
        }
    }
    TextLayout { lines, caret_line, caret_column }
}

} // verus!
