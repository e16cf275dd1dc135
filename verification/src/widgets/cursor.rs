//! A cursor that moves through a text by grapheme clusters, the glyphs that a reader sees
//! as one. Positions are byte offsets into the text.
use vstd::prelude::*;
use unicode_segmentation::GraphemeCursor;
use crate::text::{
    lemma_ascii_offsets, lemma_utf8_len_ascii,
    byte_offset, char_index, char_width, chars_of, is_char_offset, lemma_byte_offset_increases,
    lemma_byte_offset_step, lemma_char_offset, plain_ascii, utf8_len,
};

verus! {

/// Whether byte offset `pos` of `text` is a boundary between extended grapheme clusters.
pub uninterp spec fn grapheme_boundary(text: Seq<char>, pos: usize) -> bool;

/// The first grapheme boundary of `text` after byte offset `pos`, if there is one.
pub uninterp spec fn next_grapheme(text: Seq<char>, pos: usize) -> Option<usize>;

/// The last grapheme boundary of `text` before byte offset `pos`, if there is one.
pub uninterp spec fn prev_grapheme(text: Seq<char>, pos: usize) -> Option<usize>;

/// Whether `c` is alphabetic or numeric.
pub uninterp spec fn alphanumeric(c: char) -> bool;

/// No character offset of `text` strictly between `a` and `b` is a grapheme boundary.
pub open spec fn no_boundary_between(text: Seq<char>, a: int, b: int) -> bool {
    forall|q: usize|
        a < q < b && is_char_offset(text, q as int) ==> !#[trigger] grapheme_boundary(text, q)
}

/// `GraphemeCursor::is_boundary` in extended mode, asked of a cursor at `pos` with the
/// whole of `text` as its chunk: with the whole text at hand it always decides. The start
/// and the end of a text are boundaries, and so is every offset of a text of ASCII
/// characters without a carriage return: the crate breaks between any two characters of
/// its category Any and on both sides of a control character, line feed included; only a
/// carriage return before a line feed stays joined. The crate panics at an offset that
/// splits a character.
#[verifier::external_body]
fn is_grapheme_boundary(text: &str, pos: usize) -> (b: bool)
    requires
        is_char_offset(text@, pos as int),
    ensures
        b == grapheme_boundary(text@, pos),
        pos == 0 || pos == utf8_len(text@) ==> b,
        plain_ascii(text@) ==> b,
{
    GraphemeCursor::new(pos, text.len(), true).is_boundary(text, 0).unwrap_or(false)
}

/// `GraphemeCursor::next_boundary` from a cursor at `pos`, with the whole of `text` as its
/// chunk: the first boundary after `pos`, or `None` at the end of the text. What it
/// returns starts a character and is a boundary, and no offset between is one; so from a
/// boundary, the boundary before the one returned is `pos` again. In a text of ASCII
/// characters without a carriage return the next boundary is the next byte.
#[verifier::external_body]
fn next_grapheme_boundary(text: &str, pos: usize) -> (r: Option<usize>)
    requires
        is_char_offset(text@, pos as int),
    ensures
        r == next_grapheme(text@, pos),
        r is None <==> pos == utf8_len(text@),
        r matches Some(b) ==> pos < b && is_char_offset(text@, b as int) && grapheme_boundary(
            text@,
            b,
        ) && no_boundary_between(text@, pos as int, b as int),
        r matches Some(b) ==> (grapheme_boundary(text@, pos) ==> prev_grapheme(text@, b)
            == Some(pos)),
        plain_ascii(text@) && pos < utf8_len(text@) ==> r is Some && r.unwrap() == pos + 1,
{
    GraphemeCursor::new(pos, text.len(), true).next_boundary(text, 0).unwrap_or(None)
}

/// `GraphemeCursor::prev_boundary` from a cursor at `pos`, with the whole of `text` as its
/// chunk: the last boundary before `pos`, or `None` at the start of the text. What it
/// returns starts a character and is a boundary, and no offset between is one; so from a
/// boundary, the boundary after the one returned is `pos` again. In a text of ASCII
/// characters without a carriage return the previous boundary is the previous byte.
#[verifier::external_body]
fn prev_grapheme_boundary(text: &str, pos: usize) -> (r: Option<usize>)
    requires
        is_char_offset(text@, pos as int),
    ensures
        r == prev_grapheme(text@, pos),
        r is None <==> pos == 0,
        r matches Some(a) ==> a < pos && is_char_offset(text@, a as int) && grapheme_boundary(
            text@,
            a,
        ) && no_boundary_between(text@, a as int, pos as int),
        r matches Some(a) ==> (grapheme_boundary(text@, pos) ==> next_grapheme(text@, a)
            == Some(pos)),
        plain_ascii(text@) && 0 < pos ==> r is Some && r.unwrap() == pos - 1,
{
    GraphemeCursor::new(pos, text.len(), true).prev_boundary(text, 0).unwrap_or(None)
}

/// `char::is_alphanumeric`: whether `c` is alphabetic or numeric by Unicode's properties
/// (Alphabetic, or a general category of number). Among ASCII characters these are the
/// letters and the digits; of other characters the contract only names the result.
#[verifier::external_body]
fn is_alphanumeric(c: char) -> (b: bool)
    ensures
        b == alphanumeric(c),
        (c as u32) < 0x80u32 ==> (b <==> ('a' <= c <= 'z' || 'A' <= c <= 'Z' || '0' <= c <= '9')),
{
    c.is_alphanumeric()
}

/// Where a cursor settles from `pos`: there when `pos` is a grapheme boundary (`boundary`),
/// else at `next`, the boundary after it, when there is one.
pub open spec fn settled_at(pos: usize, boundary: bool, next: Option<usize>) -> usize {
    if boundary {
        pos
    } else {
        match next {
            Some(b) => b,
            None => pos,
        }
    }
}

/// Where a cursor settles from `pos`, given whether `pos` is a grapheme boundary and the
/// boundary after it.
pub fn settle(pos: usize, boundary: bool, next: Option<usize>) -> (p: usize)
    ensures
        p == settled_at(pos, boundary, next),
{
    if boundary {
        pos
    } else {
        match next {
            Some(b) => b,
            None => pos,
        }
    }
}

/// Where a move from `pos` ends: at the boundary `found`, or, when there is none, at `pos`.
pub open spec fn moved_to(pos: usize, found: Option<usize>) -> usize {
    match found {
        Some(p) => p,
        None => pos,
    }
}

/// Where a move from `pos` ends, given the boundary found in its direction, if any.
pub fn move_to(pos: usize, found: Option<usize>) -> (p: usize)
    ensures
        p == moved_to(pos, found),
{
    match found {
        Some(p) => p,
        None => pos,
    }
}

/// Where a cursor made at `pos` stands: at `pos` when it is a grapheme boundary, else at
/// the next boundary.
pub open spec fn cursor_start(text: Seq<char>, pos: usize) -> usize {
    settled_at(pos, grapheme_boundary(text, pos), next_grapheme(text, pos))
}

/// Where one move by a glyph takes a cursor at `pos`: back when `dir` is negative, on when
/// it is positive; it stays at either end of the text and when `dir` is zero.
pub open spec fn glyph_step(text: Seq<char>, pos: usize, dir: i32) -> usize {
    moved_to(
        pos,
        if dir < 0 {
            prev_grapheme(text, pos)
        } else if dir > 0 {
            next_grapheme(text, pos)
        } else {
            None
        },
    )
}

/// Where one move by a glyph takes a cursor at `pos` in a text of plain ASCII
/// characters, `len` bytes long, where each character is a glyph.
pub open spec fn ascii_step(pos: int, dir: i32, len: int) -> int {
    if dir < 0 && 0 < pos {
        pos - 1
    } else if dir > 0 && pos < len {
        pos + 1
    } else {
        pos
    }
}

/// The character that starts at byte offset `pos` of `text`.
pub open spec fn char_at(text: Seq<char>, pos: int) -> char {
    text[char_index(text, pos)]
}

/// Where a cursor at `pos` stops when it moves on over every glyph whose first character is
/// alphanumeric (or, when `alnum` is false, is not): at the first glyph that is not of
/// that kind, or at the end of the text.
pub open spec fn skip_forward(text: Seq<char>, pos: usize, alnum: bool) -> usize
    decreases utf8_len(text) - pos,
{
    match next_grapheme(text, pos) {
        Some(b) => if pos < b <= utf8_len(text) && alphanumeric(char_at(text, pos as int))
            == alnum {
            skip_forward(text, b, alnum)
        } else {
            pos
        },
        None => pos,
    }
}

/// Where a cursor at `pos` stops when it moves back over every glyph whose first character
/// is alphanumeric (or, when `alnum` is false, is not): after the first glyph that is not
/// of that kind, or at the start of the text.
pub open spec fn skip_backward(text: Seq<char>, pos: usize, alnum: bool) -> usize
    decreases pos,
{
    match prev_grapheme(text, pos) {
        Some(a) => if a < pos && alphanumeric(char_at(text, a as int)) == alnum {
            skip_backward(text, a, alnum)
        } else {
            pos
        },
        None => pos,
    }
}

/// Where a cursor at `pos` stops when it moves over glyphs of one kind in direction `dir`.
pub open spec fn skip_glyphs(text: Seq<char>, pos: usize, dir: i32, alnum: bool) -> usize {
    if dir < 0 {
        skip_backward(text, pos, alnum)
    } else if dir > 0 {
        skip_forward(text, pos, alnum)
    } else {
        pos
    }
}

/// An ASCII letter or digit.
pub open spec fn ascii_alphanumeric(c: char) -> bool {
    'a' <= c <= 'z' || 'A' <= c <= 'Z' || '0' <= c <= '9'
}

/// In a text of ASCII characters without a carriage return, where each character is a
/// glyph: where a cursor at `pos` stops when it moves on over the characters that are
/// letters or digits (or, when `alnum` is false, are not).
pub open spec fn ascii_skip_forward(text: Seq<char>, pos: int, alnum: bool) -> int
    decreases text.len() - pos,
{
    if 0 <= pos < text.len() && ascii_alphanumeric(text[pos]) == alnum {
        ascii_skip_forward(text, pos + 1, alnum)
    } else {
        pos
    }
}

/// As `ascii_skip_forward`, moving back.
pub open spec fn ascii_skip_backward(text: Seq<char>, pos: int, alnum: bool) -> int
    decreases pos,
{
    if 0 < pos <= text.len() && ascii_alphanumeric(text[pos - 1]) == alnum {
        ascii_skip_backward(text, pos - 1, alnum)
    } else {
        pos
    }
}

/// As `skip_glyphs`, in a text of ASCII characters without a carriage return.
pub open spec fn ascii_skip(text: Seq<char>, pos: int, dir: i32, alnum: bool) -> int {
    if dir < 0 {
        ascii_skip_backward(text, pos, alnum)
    } else if dir > 0 {
        ascii_skip_forward(text, pos, alnum)
    } else {
        pos
    }
}

/// The text of the glyph of `text` from byte offset `a` to byte offset `b`.
pub open spec fn glyph_text(text: Seq<char>, a: int, b: int) -> Seq<char> {
    text.subrange(char_index(text, a), char_index(text, b))
}

/// Whether `test` answered `r` for the glyph of `text` from `a` to `b`.
pub open spec fn tested<F: Fn(&str) -> bool>(test: F, text: Seq<char>, a: int, b: int, r: bool) -> bool {
    exists|g: &str| g@ == glyph_text(text, a, b) && #[trigger] call_ensures(test, (g,), r)
}

/// A walk on from `a` to `b`, glyph by glyph, on which `test` answered true for every glyph.
pub open spec fn passed_forward<F: Fn(&str) -> bool>(test: F, text: Seq<char>, a: usize, b: usize) -> bool
    decreases b - a,
{
    if a == b {
        true
    } else {
        match next_grapheme(text, a) {
            Some(n) => a < n <= b && is_char_offset(text, n as int) && tested(test, text, a as int, n as int, true)
                && passed_forward(test, text, n, b),
            None => false,
        }
    }
}

/// A walk stops on at `b`: the end of the text, or a glyph for which `test` answered false.
pub open spec fn stops_forward<F: Fn(&str) -> bool>(test: F, text: Seq<char>, b: usize) -> bool {
    match next_grapheme(text, b) {
        Some(n) => b < n && is_char_offset(text, n as int) && tested(test, text, b as int, n as int, false),
        None => true,
    }
}

/// A walk back from `a` to `b`, glyph by glyph, on which `test` answered true for every
/// glyph.
pub open spec fn passed_backward<F: Fn(&str) -> bool>(test: F, text: Seq<char>, a: usize, b: usize) -> bool
    decreases a - b,
{
    if a == b {
        true
    } else {
        match prev_grapheme(text, a) {
            Some(p) => b <= p < a && is_char_offset(text, p as int) && tested(test, text, p as int, a as int, true)
                && passed_backward(test, text, p, b),
            None => false,
        }
    }
}

/// A walk stops back at `b`: the start of the text, or after a glyph for which `test`
/// answered false.
pub open spec fn stops_backward<F: Fn(&str) -> bool>(test: F, text: Seq<char>, b: usize) -> bool {
    match prev_grapheme(text, b) {
        Some(p) => p < b && is_char_offset(text, p as int) && tested(test, text, p as int, b as int, false),
        None => true,
    }
}

proof fn lemma_passed_forward_extend<F: Fn(&str) -> bool>(test: F, text: Seq<char>, a: usize, b: usize, n: usize)
    requires
        a <= b < n,
        passed_forward(test, text, a, b),
        next_grapheme(text, b) == Some(n),
        is_char_offset(text, n as int),
        tested(test, text, b as int, n as int, true),
    ensures
        passed_forward(test, text, a, n),
    decreases b - a,
{
    if a < b {
        let m = next_grapheme(text, a)->Some_0;
        lemma_passed_forward_extend(test, text, m, b, n);
    } else {
        assert(passed_forward(test, text, n, n));
    }
}

proof fn lemma_passed_backward_extend<F: Fn(&str) -> bool>(test: F, text: Seq<char>, a: usize, b: usize, p: usize)
    requires
        p < b <= a,
        passed_backward(test, text, a, b),
        prev_grapheme(text, b) == Some(p),
        is_char_offset(text, p as int),
        tested(test, text, p as int, b as int, true),
    ensures
        passed_backward(test, text, a, p),
    decreases a - b,
{
    if b < a {
        let m = prev_grapheme(text, a)->Some_0;
        lemma_passed_backward_extend(test, text, m, b, p);
    } else {
        assert(passed_backward(test, text, p, p));
    }
}

/// Below `b`, the character index of a smaller character offset is smaller.
proof fn lemma_char_index_below(text: Seq<char>, a: int, b: int)
    requires
        is_char_offset(text, a),
        is_char_offset(text, b),
        a < b,
    ensures
        char_index(text, a) < char_index(text, b) <= text.len(),
{
    lemma_char_offset(text, a);
    lemma_char_offset(text, b);
    if char_index(text, a) > char_index(text, b) {
        lemma_byte_offset_increases(text, char_index(text, b), char_index(text, a));
    }
}

/// Whether the glyph text `g` starts with an alphanumeric character (or, when `alnum` is
/// false, with one that is not).
pub open spec fn starts_with_kind(g: Seq<char>, alnum: bool) -> bool {
    g.len() > 0 && alphanumeric(g[0]) == alnum
}

/// A walk on with a test that answers whether a glyph starts with a character of one kind
/// ends where `skip_forward` says: the run of glyphs it passes is the longest.
pub proof fn law_walk_forward_is_skip<F: Fn(&str) -> bool>(test: F, text: Seq<char>, a: usize, p: usize, alnum: bool)
    requires
        forall|g: &str, r: bool| call_ensures(test, (g,), r) ==> r == starts_with_kind(g@, alnum),
        is_char_offset(text, a as int),
        passed_forward(test, text, a, p),
        stops_forward(test, text, p),
    ensures
        p == skip_forward(text, a, alnum),
    decreases p - a,
{
    if a == p {
        match next_grapheme(text, p) {
            Some(n) => {
                lemma_char_index_below(text, p as int, n as int);
                lemma_char_offset(text, n as int);
                let g = choose|g: &str| g@ == glyph_text(text, p as int, n as int) && #[trigger] call_ensures(test, (g,), false);
                assert(g@[0] == char_at(text, p as int));
            },
            None => {},
        }
    } else {
        let n = next_grapheme(text, a)->Some_0;
        lemma_char_index_below(text, a as int, n as int);
        lemma_char_offset(text, n as int);
        let g = choose|g: &str| g@ == glyph_text(text, a as int, n as int) && #[trigger] call_ensures(test, (g,), true);
        assert(g@[0] == char_at(text, a as int));
        law_walk_forward_is_skip(test, text, n, p, alnum);
    }
}

/// A walk back with a test that answers whether a glyph starts with a character of one
/// kind ends where `skip_backward` says: the run of glyphs it passes is the longest.
pub proof fn law_walk_backward_is_skip<F: Fn(&str) -> bool>(test: F, text: Seq<char>, a: usize, p: usize, alnum: bool)
    requires
        forall|g: &str, r: bool| call_ensures(test, (g,), r) ==> r == starts_with_kind(g@, alnum),
        is_char_offset(text, a as int),
        passed_backward(test, text, a, p),
        stops_backward(test, text, p),
    ensures
        p == skip_backward(text, a, alnum),
    decreases a - p,
{
    if a == p {
        match prev_grapheme(text, p) {
            Some(q) => {
                lemma_char_index_below(text, q as int, p as int);
                let g = choose|g: &str| g@ == glyph_text(text, q as int, p as int) && #[trigger] call_ensures(test, (g,), false);
                assert(g@[0] == char_at(text, q as int));
            },
            None => {},
        }
    } else {
        let q = prev_grapheme(text, a)->Some_0;
        lemma_char_index_below(text, q as int, a as int);
        let g = choose|g: &str| g@ == glyph_text(text, q as int, a as int) && #[trigger] call_ensures(test, (g,), true);
        assert(g@[0] == char_at(text, q as int));
        law_walk_backward_is_skip(test, text, q, p, alnum);
    }
}

/// The number of bytes that `c` takes in UTF-8.
pub fn char_len(c: char) -> (n: usize)
    ensures
        n == char_width(c),
{
    let v = c as u32;
    if v < 0x80 {
        1
    } else if v < 0x800 {
        2
    } else if v < 0x10000 {
        3
    } else {
        4
    }
}

/// The index of the character that starts at byte offset `pos` of `chars`.
fn index_at(chars: &Vec<char>, pos: usize) -> (k: usize)
    requires
        is_char_offset(chars@, pos as int),
    ensures
        k == char_index(chars@, pos as int),
{
    proof {
        lemma_char_offset(chars@, pos as int);
    }
    let ghost target = char_index(chars@, pos as int);
    let n = chars.len();
    let mut k: usize = 0;
    let mut off: usize = 0;
    assert(chars@.take(0) =~= Seq::<char>::empty());
    while off < pos
        invariant
            n == chars@.len(),
            0 <= k <= target <= chars@.len(),
            off == byte_offset(chars@, k as int),
            byte_offset(chars@, target) == pos,
            target == char_index(chars@, pos as int),
        decreases target - k,
    {
        proof {
            assert(k < target);
            lemma_byte_offset_step(chars@, k as int);
            if k + 1 < target {
                lemma_byte_offset_increases(chars@, k + 1, target);
            }
        }
        off = off + char_len(chars[k]);
        k = k + 1;
    }
    proof {
        if k < target {
            lemma_byte_offset_increases(chars@, k as int, target);
        }
    }
    k
}

/// A position in a text, between two grapheme clusters once a move has taken it there.
pub struct TextCursor {
    pos: usize,
}

impl View for TextCursor {
    type V = usize;

    closed spec fn view(&self) -> usize {
        self.pos
    }
}

impl TextCursor {
    /// A cursor at `pos` of `text`, moved on to the next grapheme boundary when `pos` is
    /// inside a cluster.
    pub fn new(text: &str, pos: usize) -> (c: Self)
        requires
            is_char_offset(text@, pos as int),
        ensures
            c@ == cursor_start(text@, pos),
            is_char_offset(text@, c@ as int),
            grapheme_boundary(text@, c@),
            pos <= c@,
            !grapheme_boundary(text@, pos) ==> pos < c@ && no_boundary_between(
                text@,
                pos as int,
                c@ as int,
            ),
            pos == 0 || pos == utf8_len(text@) ==> c@ == pos,
            plain_ascii(text@) ==> c@ == pos,
    {
        let boundary = is_grapheme_boundary(text, pos);
        let next = if boundary {
            None
        } else {
            next_grapheme_boundary(text, pos)
        };
        TextCursor { pos: settle(pos, boundary, next) }
    }

    /// The cursor's byte offset.
    pub fn pos(&self) -> (p: usize)
        ensures
            p == self@,
    {
        self.pos
    }

    /// Moves the cursor by one glyph: back when `dir` is negative, on when it is positive.
    /// Returns the new position.
    pub fn move_glyph(&mut self, text: &str, dir: i32) -> (p: usize)
        requires
            is_char_offset(text@, old(self)@ as int),
        ensures
            final(self)@ == glyph_step(text@, old(self)@, dir),
            p == final(self)@,
            is_char_offset(text@, p as int),
            dir < 0 ==> final(self)@ <= old(self)@,
            dir > 0 ==> old(self)@ <= final(self)@,
            dir < 0 && final(self)@ < old(self)@ ==> grapheme_boundary(text@, final(self)@)
                && no_boundary_between(text@, final(self)@ as int, old(self)@ as int),
            dir > 0 && old(self)@ < final(self)@ ==> grapheme_boundary(text@, final(self)@)
                && no_boundary_between(text@, old(self)@ as int, final(self)@ as int),
            dir < 0 && final(self)@ == old(self)@ ==> old(self)@ == 0,
            dir > 0 && final(self)@ == old(self)@ ==> old(self)@ == utf8_len(text@),
            plain_ascii(text@) ==> p == ascii_step(old(self)@ as int, dir, utf8_len(text@)),
            dir > 0 && grapheme_boundary(text@, old(self)@) && old(self)@ < utf8_len(text@)
                ==> grapheme_boundary(text@, p) && prev_grapheme(text@, p) == Some(old(self)@),
            dir < 0 && grapheme_boundary(text@, old(self)@) && 0 < old(self)@ ==> grapheme_boundary(
                text@,
                p,
            ) && next_grapheme(text@, p) == Some(old(self)@),
    {
        proof {
            lemma_char_offset(text@, self.pos as int);
        }
        let found = if dir < 0 {
            prev_grapheme_boundary(text, self.pos)
        } else if dir > 0 {
            next_grapheme_boundary(text, self.pos)
        } else {
            None
        };
        self.pos = move_to(self.pos, found);
        self.pos
    }

    /// Moves the cursor as `move_glyph` does, and gives the new position.
    pub fn try_move_glyph(&mut self, text: &str, dir: i32) -> (p: Option<usize>)
        requires
            is_char_offset(text@, old(self)@ as int),
        ensures
            final(self)@ == glyph_step(text@, old(self)@, dir),
            p == Some(final(self)@),
            is_char_offset(text@, final(self)@ as int),
            dir < 0 ==> final(self)@ <= old(self)@,
            dir > 0 ==> old(self)@ <= final(self)@,
            dir < 0 && final(self)@ < old(self)@ ==> grapheme_boundary(text@, final(self)@)
                && no_boundary_between(text@, final(self)@ as int, old(self)@ as int),
            dir > 0 && old(self)@ < final(self)@ ==> grapheme_boundary(text@, final(self)@)
                && no_boundary_between(text@, old(self)@ as int, final(self)@ as int),
            dir < 0 && final(self)@ == old(self)@ ==> old(self)@ == 0,
            dir > 0 && final(self)@ == old(self)@ ==> old(self)@ == utf8_len(text@),
            plain_ascii(text@) ==> final(self)@ == ascii_step(
                old(self)@ as int,
                dir,
                utf8_len(text@),
            ),
    {
        let q = self.move_glyph(text, dir);
        Some(q)
    }

    /// Moves the cursor in direction `dir` over glyphs, one at a time, while `test` holds of
    /// the glyph's text, and stops before the first glyph for which it does not, or at the
    /// end of the text. Returns the new position.
    pub fn move_glyph_while<F: Fn(&str) -> bool>(&mut self, text: &str, dir: i32, test: F) -> (p: usize)
        requires
            is_char_offset(text@, old(self)@ as int),
            forall|g: &str| call_requires(test, (g,)),
        ensures
            p == final(self)@,
            is_char_offset(text@, p as int),
            dir == 0 ==> p == old(self)@,
            dir > 0 ==> old(self)@ <= p && passed_forward(test, text@, old(self)@, p) && stops_forward(
                test,
                text@,
                p,
            ),
            dir < 0 ==> p <= old(self)@ && passed_backward(test, text@, old(self)@, p)
                && stops_backward(test, text@, p),
    {
        let chars = chars_of(text);
        let ghost start = self.pos;
        let mut prev_pos = self.pos;
        if dir < 0 {
            loop
                invariant
                    dir < 0,
                    start == old(self)@,
                    chars@ == text@,
                    forall|g: &str| call_requires(test, (g,)),
                    is_char_offset(text@, prev_pos as int),
                    prev_pos <= start,
                    passed_backward(test, text@, start, prev_pos),
                decreases prev_pos,
            {
                match prev_grapheme_boundary(text, prev_pos) {
                    Some(a) => {
                        proof {
                            lemma_char_index_below(text@, a as int, prev_pos as int);
                        }
                        let ka = index_at(&chars, a);
                        let kb = index_at(&chars, prev_pos);
                        let glyph = text.substring_char(ka, kb);
                        let passes = test(glyph);
                        if !passes {
                            self.pos = prev_pos;
                            return prev_pos;
                        }
                        proof {
                            lemma_passed_backward_extend(test, text@, start, prev_pos, a);
                        }
                        prev_pos = a;
                    },
                    None => {
                        self.pos = prev_pos;
                        return prev_pos;
                    },
                }
            }
        } else if dir > 0 {
            loop
                invariant
                    dir > 0,
                    start == old(self)@,
                    chars@ == text@,
                    forall|g: &str| call_requires(test, (g,)),
                    is_char_offset(text@, prev_pos as int),
                    start <= prev_pos,
                    passed_forward(test, text@, start, prev_pos),
                decreases utf8_len(text@) - prev_pos,
            {
                proof {
                    lemma_char_offset(text@, prev_pos as int);
                }
                match next_grapheme_boundary(text, prev_pos) {
                    Some(b) => {
                        proof {
                            lemma_char_index_below(text@, prev_pos as int, b as int);
                            lemma_char_offset(text@, b as int);
                        }
                        let ka = index_at(&chars, prev_pos);
                        let kb = index_at(&chars, b);
                        let glyph = text.substring_char(ka, kb);
                        let passes = test(glyph);
                        if !passes {
                            self.pos = prev_pos;
                            return prev_pos;
                        }
                        proof {
                            lemma_passed_forward_extend(test, text@, start, prev_pos, b);
                        }
                        prev_pos = b;
                    },
                    None => {
                        self.pos = prev_pos;
                        return prev_pos;
                    },
                }
            }
        }
        self.pos
    }

    /// Moves the cursor in direction `dir` over every glyph whose first character is
    /// alphanumeric (or, when `alnum` is false, is not), and stops at the first that is not
    /// of that kind or at the end of the text. Returns the new position.
    pub fn move_glyph_run(&mut self, text: &str, dir: i32, alnum: bool) -> (p: usize)
        requires
            is_char_offset(text@, old(self)@ as int),
        ensures
            final(self)@ == skip_glyphs(text@, old(self)@, dir, alnum),
            p == final(self)@,
            is_char_offset(text@, p as int),
            plain_ascii(text@) ==> p == ascii_skip(text@, old(self)@ as int, dir, alnum),
    {
        let chars = chars_of(text);
        let ghost start = self.pos;
        let mut prev_pos = self.pos;
        if dir < 0 {
            loop
                invariant
                    dir < 0,
                    start == old(self)@,
                    chars@ == text@,
                    is_char_offset(text@, prev_pos as int),
                    skip_backward(text@, prev_pos, alnum) == skip_backward(text@, start, alnum),
                    plain_ascii(text@) ==> ascii_skip_backward(text@, prev_pos as int, alnum)
                        == ascii_skip_backward(text@, start as int, alnum),
                decreases prev_pos,
            {
                match prev_grapheme_boundary(text, prev_pos) {
                    Some(a) => {
                        proof {
                            lemma_char_offset(text@, a as int);
                            lemma_char_offset(text@, prev_pos as int);
                            if char_index(text@, a as int) >= char_index(text@, prev_pos as int) {
                                if char_index(text@, a as int) > char_index(
                                    text@,
                                    prev_pos as int,
                                ) {
                                    lemma_byte_offset_increases(
                                        text@,
                                        char_index(text@, prev_pos as int),
                                        char_index(text@, a as int),
                                    );
                                }
                            }
                            if plain_ascii(text@) {
                                lemma_utf8_len_ascii(text@);
                                lemma_ascii_offsets(text@, a as int);
                            }
                        }
                        let k = index_at(&chars, a);
                        if is_alphanumeric(chars[k]) != alnum {
                            self.pos = prev_pos;
                            return prev_pos;
                        }
                        prev_pos = a;
                    },
                    None => {
                        self.pos = prev_pos;
                        return prev_pos;
                    },
                }
            }
        } else if dir > 0 {
            loop
                invariant
                    dir > 0,
                    start == old(self)@,
                    chars@ == text@,
                    is_char_offset(text@, prev_pos as int),
                    skip_forward(text@, prev_pos, alnum) == skip_forward(text@, start, alnum),
                    plain_ascii(text@) ==> ascii_skip_forward(text@, prev_pos as int, alnum)
                        == ascii_skip_forward(text@, start as int, alnum),
                decreases utf8_len(text@) - prev_pos,
            {
                proof {
                    lemma_char_offset(text@, prev_pos as int);
                }
                match next_grapheme_boundary(text, prev_pos) {
                    Some(b) => {
                        proof {
                            lemma_char_offset(text@, b as int);
                            if char_index(text@, prev_pos as int) == text@.len() {
                                assert(text@.take(text@.len() as int) =~= text@);
                            }
                            if plain_ascii(text@) {
                                lemma_utf8_len_ascii(text@);
                                lemma_ascii_offsets(text@, prev_pos as int);
                            }
                        }
                        let k = index_at(&chars, prev_pos);
                        if is_alphanumeric(chars[k]) != alnum {
                            self.pos = prev_pos;
                            return prev_pos;
                        }
                        prev_pos = b;
                    },
                    None => {
                        proof {
                            if plain_ascii(text@) {
                                lemma_utf8_len_ascii(text@);
                            }
                        }
                        self.pos = prev_pos;
                        return prev_pos;
                    },
                }
            }
        }
        self.pos
    }
}

} // verus!
