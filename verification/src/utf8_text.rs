//! Byte positions inside UTF-8 text, and the scans that step a cursor from
//! one character boundary to the next.
use vstd::prelude::*;
use vstd::utf8::*;
use vstd::string::*;

verus! {

broadcast use vstd::utf8::encode_utf8_valid_utf8;

/// Number of UTF-8 bytes taken by the first `k` characters of `s`.
pub open spec fn byte_offset(s: Seq<char>, k: int) -> int {
    encode_utf8(s.take(k)).len() as int
}

/// Number of UTF-8 bytes that encode `c` (between one and four).
pub open spec fn char_width(c: char) -> int {
    encode_scalar(c as u32).len() as int
}

/// `i` is the byte offset of some character position of `s` (start, end, or
/// the first byte of a character).
pub open spec fn is_offset_of(s: Seq<char>, i: int) -> bool {
    exists|k: int| 0 <= k <= s.len() && #[trigger] byte_offset(s, k) == i
}

/// A character takes between one and four bytes.
pub proof fn lemma_char_width_bounds(c: char)
    ensures
        1 <= char_width(c) <= 4,
        encode_utf8(seq![c]) == encode_scalar(c as u32),
{
    let s = seq![c];
    assert(s.drop_first() =~= Seq::<char>::empty());
    assert(encode_utf8(s.drop_first()) =~= Seq::<u8>::empty());
    assert(encode_utf8(s) =~= encode_scalar(c as u32));
}

/// Encoding distributes over concatenation.
pub proof fn lemma_encode_concat(a: Seq<char>, b: Seq<char>)
    ensures
        encode_utf8(a + b) == encode_utf8(a) + encode_utf8(b),
    decreases a.len(),
{
    if a.len() == 0 {
        assert(a + b =~= b);
        assert(encode_utf8(a) =~= Seq::<u8>::empty());
        assert(encode_utf8(a) + encode_utf8(b) =~= encode_utf8(b));
    } else {
        assert((a + b).drop_first() =~= a.drop_first() + b);
        assert((a + b)[0] == a[0]);
        lemma_encode_concat(a.drop_first(), b);
        assert(encode_utf8(a + b) =~= encode_utf8(a) + encode_utf8(b));
    }
}

/// Stepping one character forward adds that character's width.
pub proof fn lemma_offset_step(s: Seq<char>, k: int)
    requires
        0 <= k < s.len(),
    ensures
        byte_offset(s, k + 1) == byte_offset(s, k) + char_width(s[k]),
        1 <= char_width(s[k]) <= 4,
{
    assert(s.take(k + 1) =~= s.take(k) + seq![s[k]]);
    lemma_encode_concat(s.take(k), seq![s[k]]);
    lemma_char_width_bounds(s[k]);
}

/// Offsets start at zero, end at the encoded length, and grow strictly.
pub proof fn lemma_offset_strict(s: Seq<char>, j: int, k: int)
    requires
        0 <= j < k <= s.len(),
    ensures
        byte_offset(s, j) < byte_offset(s, k),
    decreases k - j,
{
    lemma_offset_step(s, k - 1);
    if j < k - 1 {
        lemma_offset_strict(s, j, k - 1);
    }
}

/// The offsets of the start and end of `s`.
pub proof fn lemma_offset_ends(s: Seq<char>)
    ensures
        byte_offset(s, 0) == 0,
        byte_offset(s, s.len() as int) == encode_utf8(s).len(),
{
    assert(s.take(0) =~= Seq::<char>::empty());
    assert(encode_utf8(s.take(0)) =~= Seq::<u8>::empty());
    assert(s.take(s.len() as int) =~= s);
}

/// Offsets are ordered exactly as character positions are.
pub proof fn lemma_offset_monotone(s: Seq<char>, j: int, k: int)
    requires
        0 <= j <= s.len(),
        0 <= k <= s.len(),
    ensures
        j < k <==> byte_offset(s, j) < byte_offset(s, k),
        j == k <==> byte_offset(s, j) == byte_offset(s, k),
{
    if j < k {
        lemma_offset_strict(s, j, k);
    } else if k < j {
        lemma_offset_strict(s, k, j);
    }
}

/// Every offset lies within the encoding.
pub proof fn lemma_offset_range(s: Seq<char>, k: int)
    requires
        0 <= k <= s.len(),
    ensures
        0 <= byte_offset(s, k) <= encode_utf8(s).len(),
{
    lemma_offset_ends(s);
    lemma_offset_monotone(s, 0, k);
    lemma_offset_monotone(s, k, s.len() as int);
}

/// vstd's notion of a character boundary in an encoding is exactly that of
/// a character offset.
pub proof fn lemma_boundary_iff_offset(s: Seq<char>, i: int)
    ensures
        is_char_boundary(encode_utf8(s), i) <==> is_offset_of(s, i),
    decreases s.len(),
{
    let bytes = encode_utf8(s);
    assert(valid_utf8(bytes));
    lemma_offset_ends(s);
    if i == 0 {
        assert(byte_offset(s, 0) == 0);
    } else if i < 0 || bytes.len() < i {
        if is_offset_of(s, i) {
            let k = choose|k: int| 0 <= k <= s.len() && #[trigger] byte_offset(s, k) == i;
            lemma_offset_range(s, k);
        }
    } else {
        assert(s.len() > 0);
        let rest = s.drop_first();
        encode_utf8_first_scalar(s);
        let w = length_of_first_scalar(bytes);
        assert(w == char_width(s[0]));
        assert(pop_first_scalar(bytes) =~= encode_utf8(rest));
        lemma_boundary_iff_offset(rest, i - w);
        // offsets of `s` past zero are offsets of `rest` shifted by `w`
        assert forall|k: int| 0 <= k < s.len() implies #[trigger] byte_offset(s, k + 1) == w
            + byte_offset(rest, k) by {
            assert(s.take(k + 1) =~= seq![s[0]] + rest.take(k));
            lemma_encode_concat(seq![s[0]], rest.take(k));
            lemma_char_width_bounds(s[0]);
        }
        if is_offset_of(rest, i - w) {
            let k = choose|k: int| 0 <= k <= rest.len() && #[trigger] byte_offset(rest, k) == i - w;
            assert(byte_offset(s, k + 1) == i);
        }
        if is_offset_of(s, i) {
            let k = choose|k: int| 0 <= k <= s.len() && #[trigger] byte_offset(s, k) == i;
            assert(k > 0);
            assert(byte_offset(s, (k - 1) + 1) == w + byte_offset(rest, k - 1));
            assert(byte_offset(rest, k - 1) == i - w);
        }
    }
}

/// Each character takes at least one byte.
pub proof fn lemma_offset_at_least(s: Seq<char>, k: int)
    requires
        0 <= k <= s.len(),
    ensures
        byte_offset(s, k) >= k,
    decreases k,
{
    lemma_offset_ends(s);
    if k > 0 {
        lemma_offset_step(s, k - 1);
        lemma_offset_at_least(s, k - 1);
    }
}

/// The encoding takes at most four bytes per character.
pub proof fn lemma_encode_len_bound(s: Seq<char>, k: int)
    requires
        0 <= k <= s.len(),
    ensures
        byte_offset(s, k) <= 4 * k,
    decreases k,
{
    lemma_offset_ends(s);
    if k > 0 {
        lemma_offset_step(s, k - 1);
        lemma_encode_len_bound(s, k - 1);
    }
}

/// The boundary found by a backward scan from the offset of character `k`
/// is the offset of character `k - 1`.
pub proof fn lemma_prev_is_previous_offset(s: Seq<char>, k: int, r: int)
    requires
        0 < k <= s.len(),
        r < byte_offset(s, k),
        is_char_boundary(encode_utf8(s), r),
        forall|j: int| r < j < byte_offset(s, k) ==> !is_char_boundary(encode_utf8(s), j),
    ensures
        r == byte_offset(s, k - 1),
{
    lemma_boundary_iff_offset(s, r);
    lemma_boundary_iff_offset(s, byte_offset(s, k - 1));
    lemma_offset_monotone(s, k - 1, k);
    let m = choose|m: int| 0 <= m <= s.len() && #[trigger] byte_offset(s, m) == r;
    lemma_offset_monotone(s, m, k);
    lemma_offset_monotone(s, m, k - 1);
    if m != k - 1 {
        assert(r < byte_offset(s, k - 1));
        assert(is_char_boundary(encode_utf8(s), byte_offset(s, k - 1)));
    }
}

/// The boundary found by a forward scan from the offset of character `k`
/// is the offset of character `k + 1`.
pub proof fn lemma_next_is_next_offset(s: Seq<char>, k: int, r: int)
    requires
        0 <= k < s.len(),
        r > byte_offset(s, k),
        r >= encode_utf8(s).len() || is_char_boundary(encode_utf8(s), r),
        r == byte_offset(s, k) + 1 || r <= encode_utf8(s).len(),
        forall|j: int| byte_offset(s, k) < j < r ==> !is_char_boundary(encode_utf8(s), j),
    ensures
        r == byte_offset(s, k + 1),
{
    lemma_offset_ends(s);
    lemma_offset_step(s, k);
    lemma_offset_monotone(s, k + 1, s.len() as int);
    lemma_boundary_iff_offset(s, byte_offset(s, k + 1));
    lemma_boundary_iff_offset(s, r);
    if r < encode_utf8(s).len() {
        let m = choose|m: int| 0 <= m <= s.len() && #[trigger] byte_offset(s, m) == r;
        lemma_offset_monotone(s, m, k);
        lemma_offset_monotone(s, m, k + 1);
        if m != k + 1 {
            assert(byte_offset(s, k + 1) < r);
        }
    } else if r > byte_offset(s, k + 1) {
        assert(is_char_boundary(encode_utf8(s), byte_offset(s, k + 1)));
    }
}

/// Finds the character boundary of `s` just before byte position `from`.
pub fn prev_char_boundary(s: &str, from: usize) -> (r: usize)
    requires
        from > 0,
    ensures
        r < from,
        is_char_boundary(s.spec_bytes(), r as int),
        forall|j: int| r < j < from ==> !is_char_boundary(s.spec_bytes(), j),
{
    proof {
        lemma_boundary_iff_offset(s@, 0);
        lemma_offset_ends(s@);
    }
    let mut i = from - 1;
    while i > 0 && !s.is_char_boundary(i)
        invariant
            i < from,
            is_char_boundary(s.spec_bytes(), 0),
            forall|j: int| i < j < from ==> !is_char_boundary(s.spec_bytes(), j),
        decreases i,
    {
        i -= 1;
    }
    i
}

/// Finds the character boundary of `s` just after byte position `from`, or
/// the first position at or past the end.
pub fn next_char_boundary(s: &str, from: usize) -> (r: usize)
    requires
        from < usize::MAX,
    ensures
        r > from,
        r >= s.len() || is_char_boundary(s.spec_bytes(), r as int),
        r == from + 1 || r <= s.len(),
        forall|j: int| from < j < r ==> !is_char_boundary(s.spec_bytes(), j),
{
    let mut i = from + 1;
    let n = s.len();
    while i < n && !s.is_char_boundary(i)
        invariant
            i > from,
            n == s.len(),
            i == from + 1 || i <= s.len(),
            forall|j: int| from < j < i ==> !is_char_boundary(s.spec_bytes(), j),
        decreases n - i,
    {
        i += 1;
    }
    i
}

} // verus!
