//! The editing state of a text box: its text, a cursor at a byte offset into it, and the
//! edits that keys make.
use vstd::prelude::*;
use crate::text::{
    byte_len, byte_offset, char_index, chars_of, insert_char_at, is_char_offset,
    lemma_ascii_offsets, lemma_byte_offset_increases, lemma_char_index, lemma_char_offset, lemma_same_prefix,
    lemma_utf8_len_ascii, lemma_utf8_len_concat, is_plain_ascii, plain_ascii, replace_span, utf8_len,
};
use crate::widgets::cursor::{
    ascii_skip, ascii_step, cursor_start, glyph_step, grapheme_boundary, next_grapheme, no_boundary_between,
    prev_grapheme, skip_glyphs, TextCursor,
};

verus! {

/// `text` with `ch` put in at byte offset `pos`.
pub open spec fn with_char(text: Seq<char>, pos: int, ch: char) -> Seq<char> {
    text.take(char_index(text, pos)).push(ch) + text.skip(char_index(text, pos))
}

/// `text` with `part` in place of its bytes from `start` to `end`.
pub open spec fn spliced(text: Seq<char>, start: int, end: int, part: Seq<char>) -> Seq<char> {
    text.take(char_index(text, start)) + part + text.skip(char_index(text, end))
}

/// The bytes between the cursor at `cursor` and the glyph boundary `moved` that a move in
/// direction `dir` reached: from `moved` to the cursor going back, from the cursor to
/// `moved` going on.
pub open spec fn span_between(dir: i32, cursor: usize, moved: usize) -> (usize, usize) {
    if dir < 0 {
        (moved, cursor)
    } else {
        (cursor, moved)
    }
}

/// The bytes between the cursor and the boundary that a move in direction `dir` reached.
pub fn deletion_bounds(dir: i32, cursor: usize, moved: usize) -> (span: (usize, usize))
    ensures
        span == span_between(dir, cursor, moved),
{
    if dir < 0 {
        (moved, cursor)
    } else {
        (cursor, moved)
    }
}

/// The bytes that a deletion in direction `dir` takes out of a box whose cursor is at
/// `pos`: back from the cursor to the start of the glyph before it, or on from the cursor
/// to the end of the glyph after it.
pub open spec fn deletion_span(text: Seq<char>, pos: usize, dir: i32) -> (usize, usize) {
    span_between(
        dir,
        pos,
        glyph_step(text, cursor_start(text, pos), if dir < 0 { -1i32 } else { 1i32 }),
    )
}

/// Where a move by a word in direction `dir` takes a cursor at `pos`: over the glyphs that
/// do not start with an alphanumeric character, then over those that do.
pub open spec fn word_step(text: Seq<char>, pos: usize, dir: i32) -> usize {
    let c = cursor_start(text, pos);
    skip_glyphs(text, skip_glyphs(text, c, dir, false), dir, true)
}

/// A carriage return or a line feed.
pub open spec fn is_line_break(c: char) -> bool {
    c == '\r' || c == '\n'
}

/// The index of the first line break of `s` at or after `from`, if there is one.
pub open spec fn first_line_break(s: Seq<char>, from: int) -> Option<int>
    decreases s.len() - from,
{
    if from < 0 || from >= s.len() {
        None
    } else if is_line_break(s[from]) {
        Some(from)
    } else {
        first_line_break(s, from + 1)
    }
}

/// What a paste of `clip` puts into the text: its first line, when that line is not empty.
pub open spec fn pasted_line(clip: Seq<char>) -> Option<Seq<char>> {
    if clip.len() == 0 {
        None
    } else {
        match first_line_break(clip, 0) {
            Some(j) => if j > 0 {
                Some(clip.take(j))
            } else {
                None
            },
            None => Some(clip),
        }
    }
}

/// The text, the cursor and whether anything was deleted, after a deletion in direction
/// `dir` from a box with text `c` and cursor `p`.
pub open spec fn after_delete(c: Seq<char>, p: usize, dir: i32) -> (Seq<char>, usize, bool) {
    let span = deletion_span(c, p, dir);
    let deleted = dir != 0 && span.0 != span.1;
    (
        if deleted {
            spliced(c, span.0 as int, span.1 as int, Seq::empty())
        } else {
            c
        },
        if dir < 0 {
            span.0
        } else {
            p
        },
        deleted,
    )
}

/// The text and the cursor after `ch` is put in at cursor `p` of text `c`.
pub open spec fn after_insert(c: Seq<char>, p: usize, ch: char) -> (Seq<char>, usize) {
    let c2 = with_char(c, p as int, ch);
    (c2, glyph_step(c2, cursor_start(c2, p), 1))
}

/// The text, the cursor and whether anything was pasted, after pasting `clip` at cursor
/// `p` of text `c`.
pub open spec fn after_paste(c: Seq<char>, p: usize, clip: Seq<char>) -> (Seq<char>, usize, bool) {
    match pasted_line(clip) {
        None => (c, p, false),
        Some(line) => {
            let c2 = spliced(c, p as int, p as int, line);
            (c2, cursor_start(c2, (p + utf8_len(line)) as usize), true)
        },
    }
}

/// The keys pressed in a frame, as a text box reads them: arrows and keys held with
/// control are told apart, as are the character typed and the clipboard's text.
#[derive(Clone, Copy, Debug)]
pub struct KeyInput {
    pub left: bool,
    pub right: bool,
    pub home: bool,
    pub end: bool,
    pub ctrl_left: bool,
    pub ctrl_right: bool,
    pub ctrl_a: bool,
    pub ctrl_e: bool,
    pub ctrl_d: bool,
    pub backspace: bool,
    pub delete: bool,
    pub ch: Option<char>,
    pub ctrl_c: bool,
    pub ctrl_v: bool,
}

/// What the keys of a frame did to a text box: whether its text changed, and the text to
/// copy to the clipboard, if any.
pub struct KeyOutcome {
    pub changed: bool,
    pub copied: Option<String>,
}

/// The cursor after the moves that the keys ask for, in order: left, right, home, end,
/// then word left, word right, start and end with control.
pub open spec fn moved_by_keys(c: Seq<char>, p: usize, k: KeyInput) -> usize {
    let end = utf8_len(c) as usize;
    let p1 = if k.left { glyph_step(c, cursor_start(c, p), -1i32) } else { p };
    let p2 = if k.right { glyph_step(c, cursor_start(c, p1), 1) } else { p1 };
    let p3 = if k.home { cursor_start(c, 0) } else { p2 };
    let p4 = if k.end { cursor_start(c, end) } else { p3 };
    let p5 = if k.ctrl_left { word_step(c, p4, -1i32) } else { p4 };
    let p6 = if k.ctrl_right { word_step(c, p5, 1) } else { p5 };
    let p7 = if k.ctrl_a { cursor_start(c, 0) } else { p6 };
    if k.ctrl_e { cursor_start(c, end) } else { p7 }
}

/// The text, the cursor, whether the text changed, and the text to copy, after the keys
/// `k` reach a box with text `c` and cursor `p`, with the clipboard's text `clip`. Nothing
/// happens unless the box is focused and editable. After the moves and a control-D
/// deletion on, the first of backspace, delete and a typed character is done and ends
/// the frame; otherwise control-C copies the text and control-V pastes the clipboard.
pub open spec fn key_effect(
    c: Seq<char>,
    p: usize,
    editable: bool,
    focused: bool,
    k: KeyInput,
    clip: Option<Seq<char>>,
) -> (Seq<char>, usize, bool, Option<Seq<char>>) {
    if !focused || !editable {
        (c, p, false, None)
    } else {
        let p8 = moved_by_keys(c, p, k);
        let d = after_delete(c, p8, 1);
        let c9 = if k.ctrl_d { d.0 } else { c };
        let p9 = if k.ctrl_d { d.1 } else { p8 };
        if k.backspace {
            let b = after_delete(c9, p9, -1i32);
            (b.0, b.1, b.2, None)
        } else if k.delete {
            let b = after_delete(c9, p9, 1);
            (b.0, b.1, b.2, None)
        } else if k.ch is Some {
            let i = after_insert(c9, p9, k.ch->Some_0);
            (i.0, i.1, true, None)
        } else {
            let copied = if k.ctrl_c { Some(c9) } else { None };
            if k.ctrl_v && clip is Some && after_paste(c9, p9, clip->Some_0).2 {
                let q = after_paste(c9, p9, clip->Some_0);
                (q.0, q.1, true, copied)
            } else {
                (c9, p9, false, copied)
            }
        }
    }
}

/// The text of a text box and its cursor, a byte offset that starts a character or is the
/// end of the text.
pub struct TextBoxWidget {
    pub editable: bool,
    text: String,
    cursor_pos: usize,
}

impl TextBoxWidget {
    /// The box's text.
    pub closed spec fn content(&self) -> Seq<char> {
        self.text@
    }

    /// The cursor's byte offset.
    pub closed spec fn position(&self) -> usize {
        self.cursor_pos
    }

    /// Whether the box can be edited.
    pub closed spec fn can_edit(&self) -> bool {
        self.editable
    }

    /// The cursor starts a character of the text or is its end.
    pub open spec fn wf(&self) -> bool {
        is_char_offset(self.content(), self.position() as int)
    }

    /// An editable box holding `text`, with the cursor at its end.
    pub fn new(text: &str) -> (b: Self)
        ensures
            b.wf(),
            b.content() == text@,
            b.position() == utf8_len(text@),
            b.can_edit(),
    {
        let text = text.to_owned();
        let cursor_pos = byte_len(text.as_str());
        proof {
            lemma_char_index(text@, text@.len() as int);
            assert(text@.take(text@.len() as int) =~= text@);
        }
        TextBoxWidget { editable: true, text, cursor_pos }
    }

    /// The same box, read-only.
    pub fn read_only(self) -> (b: Self)
        ensures
            b.content() == self.content(),
            b.position() == self.position(),
            !b.can_edit(),
    {
        TextBoxWidget { editable: false, text: self.text, cursor_pos: self.cursor_pos }
    }

    /// A text box takes the focus.
    pub fn want_focus(&self) -> (w: bool)
        ensures
            w,
    {
        true
    }

    /// The cursor's byte offset.
    pub fn cursor_pos(&self) -> (p: usize)
        ensures
            p == self.position(),
    {
        self.cursor_pos
    }

    /// The box's text.
    pub fn get_text(&self) -> (t: &str)
        ensures
            t@ == self.content(),
    {
        self.text.as_str()
    }

    /// A grapheme cursor at the box's cursor.
    fn cursor(&self) -> (c: TextCursor)
        requires
            self.wf(),
        ensures
            c@ == cursor_start(self.content(), self.position()),
            is_char_offset(self.content(), c@ as int),
            grapheme_boundary(self.content(), c@),
            self.position() <= c@,
            !grapheme_boundary(self.content(), self.position()) ==> self.position() < c@
                && no_boundary_between(
                self.content(),
                self.position() as int,
                c@ as int,
            ),
            plain_ascii(self.content()) ==> c@ == self.position(),
            self.position() == utf8_len(self.content()) ==> c@ == self.position(),
    {
        TextCursor::new(self.text.as_str(), self.cursor_pos)
    }

    /// Moves the cursor on to a grapheme boundary when it stands inside a cluster.
    fn fix_cursor_pos(&mut self)
        requires
            old(self).wf(),
        ensures
            final(self).content() == old(self).content(),
            final(self).can_edit() == old(self).can_edit(),
            final(self).position() == cursor_start(old(self).content(), old(self).position()),
            final(self).wf(),
            old(self).position() == utf8_len(old(self).content()) ==> final(self).position() == old(self).position(),
    {
        let c = self.cursor();
        self.cursor_pos = c.pos();
    }

    /// Puts the cursor at `cursor_pos`, or at the next grapheme boundary when that is
    /// inside a cluster.
    pub fn set_cursor_pos(&mut self, cursor_pos: usize)
        requires
            is_char_offset(old(self).content(), cursor_pos as int),
        ensures
            final(self).content() == old(self).content(),
            final(self).can_edit() == old(self).can_edit(),
            final(self).position() == cursor_start(old(self).content(), cursor_pos),
            final(self).wf(),
    {
        self.cursor_pos = cursor_pos;
        self.fix_cursor_pos();
    }

    /// Replaces the text with `text` and puts the cursor at its end.
    pub fn set_text(&mut self, text: &str)
        requires
            old(self).wf(),
        ensures
            final(self).content() == text@,
            final(self).position() == utf8_len(text@),
            final(self).can_edit() == old(self).can_edit(),
            final(self).wf(),
    {
        let n = byte_len(self.text.as_str());
        proof {
            lemma_char_index(self.text@, 0);
            lemma_char_index(self.text@, self.text@.len() as int);
            assert(self.text@.take(self.text@.len() as int) =~= self.text@);
            assert(self.text@.take(0) =~= Seq::<char>::empty());
        }
        replace_span(&mut self.text, 0, n, text);
        assert(self.text@ =~= text@);
        self.cursor_pos = byte_len(self.text.as_str());
        proof {
            lemma_char_index(self.text@, self.text@.len() as int);
            assert(self.text@.take(self.text@.len() as int) =~= self.text@);
        }
        self.fix_cursor_pos();
    }

    /// Moves the cursor by one glyph: back when `dir` is negative, on when it is positive.
    /// From a grapheme boundary, a move on followed by a move back returns to it, and so
    /// does a move back followed by a move on.
    pub fn move_cursor(&mut self, dir: i32)
        requires
            old(self).wf(),
        ensures
            final(self).content() == old(self).content(),
            final(self).can_edit() == old(self).can_edit(),
            final(self).position() == glyph_step(
                old(self).content(),
                cursor_start(old(self).content(), old(self).position()),
                dir,
            ),
            final(self).wf(),
            plain_ascii(old(self).content()) ==> final(self).position() == ascii_step(
                old(self).position() as int,
                dir,
                utf8_len(old(self).content()),
            ),
            dir > 0 && grapheme_boundary(old(self).content(), old(self).position()) && old(self).position() < utf8_len(old(self).content()) ==> grapheme_boundary(
                old(self).content(),
                final(self).position(),
            ) && prev_grapheme(old(self).content(), final(self).position()) == Some(
                old(self).position(),
            ),
            dir < 0 && grapheme_boundary(old(self).content(), old(self).position()) && 0 < old(self).position() ==> grapheme_boundary(old(self).content(), final(self).position())
                && next_grapheme(old(self).content(), final(self).position()) == Some(
                old(self).position(),
            ),
    {
        let mut c = self.cursor();
        self.cursor_pos = c.move_glyph(self.text.as_str(), dir);
    }

    /// Moves the cursor by one word: in direction `dir` over the glyphs that do not start
    /// with an alphanumeric character, then over those that do.
    pub fn move_cursor_word(&mut self, dir: i32)
        requires
            old(self).wf(),
        ensures
            final(self).content() == old(self).content(),
            final(self).can_edit() == old(self).can_edit(),
            final(self).position() == word_step(old(self).content(), old(self).position(), dir),
            final(self).wf(),
            plain_ascii(old(self).content()) ==> final(self).position() == ascii_skip(
                old(self).content(),
                ascii_skip(old(self).content(), old(self).position() as int, dir, false),
                dir,
                true,
            ),
    {
        let mut c = self.cursor();
        c.move_glyph_run(self.text.as_str(), dir, false);
        c.move_glyph_run(self.text.as_str(), dir, true);
        self.cursor_pos = c.pos();
    }

    /// Deletes the glyph before the cursor (`dir` negative) or after it (`dir` positive),
    /// and tells whether anything was deleted. A deletion back puts the cursor where the
    /// deleted bytes started.
    pub fn delete_char(&mut self, dir: i32) -> (deleted: bool)
        requires
            old(self).wf(),
        ensures
            deleted == (dir != 0 && deletion_span(old(self).content(), old(self).position(), dir).0
                != deletion_span(old(self).content(), old(self).position(), dir).1),
            final(self).content() == if deleted {
                spliced(
                    old(self).content(),
                    deletion_span(old(self).content(), old(self).position(), dir).0 as int,
                    deletion_span(old(self).content(), old(self).position(), dir).1 as int,
                    Seq::empty(),
                )
            } else {
                old(self).content()
            },
            final(self).position() == if dir < 0 {
                deletion_span(old(self).content(), old(self).position(), dir).0
            } else {
                old(self).position()
            },
            final(self).can_edit() == old(self).can_edit(),
            final(self).wf(),
            plain_ascii(old(self).content()) && dir < 0 && 0 < old(self).position() ==> deleted
                && final(self).content() == old(self).content().remove(old(self).position() - 1)
                && final(self).position() == old(self).position() - 1,
            plain_ascii(old(self).content()) && dir > 0 && old(self).position() < utf8_len(
                old(self).content(),
            ) ==> deleted && final(self).content() == old(self).content().remove(
                old(self).position() as int,
            ) && final(self).position() == old(self).position(),
    {
        let ghost t = self.text@;
        let ghost p = self.cursor_pos;
        let mut c = self.cursor();
        proof {
            lemma_char_offset(t, p as int);
            lemma_char_offset(t, c@ as int);
            if plain_ascii(t) {
                lemma_utf8_len_ascii(t);
            }
        }
        if dir == 0 {
            return false;
        }
        let step: i32 = if dir < 0 { -1 } else { 1 };
        let moved = match c.try_move_glyph(self.text.as_str(), step) {
            Some(p) => p,
            None => {
                return false;
            },
        };
        let (start, end) = deletion_bounds(dir, self.cursor_pos, moved);
        if dir < 0 {
            self.cursor_pos = start;
        }
        if start == end {
            return false;
        }
        proof {
            lemma_char_offset(t, start as int);
            lemma_char_offset(t, end as int);
            reveal_strlit("");
        }
        replace_span(&mut self.text, start, end, "");
        proof {
            let ks = char_index(t, start as int);
            assert(self.text@ == t.take(ks) + t.skip(char_index(t, end as int)));
            if ks > char_index(t, end as int) {
                lemma_byte_offset_increases(t, char_index(t, end as int), ks);
            }
            assert(self.text@.take(ks) =~= t.take(ks));
            lemma_same_prefix(t, self.text@, ks);
            if plain_ascii(t) {
                lemma_ascii_offsets(t, start as int);
                lemma_ascii_offsets(t, end as int);
                if dir < 0 {
                    assert(self.text@ =~= t.remove(p - 1));
                } else {
                    assert(self.text@ =~= t.remove(p as int));
                }
            }
        }
        true
    }

    /// Puts `ch` in at the cursor and moves the cursor on by a glyph.
    pub fn insert_char(&mut self, ch: char) -> (inserted: bool)
        requires
            old(self).wf(),
        ensures
            inserted,
            final(self).content() == with_char(old(self).content(), old(self).position() as int, ch),
            final(self).position() == glyph_step(
                final(self).content(),
                cursor_start(final(self).content(), old(self).position()),
                1,
            ),
            final(self).can_edit() == old(self).can_edit(),
            final(self).wf(),
            plain_ascii(old(self).content()) && is_plain_ascii(ch) ==> final(self).position()
                == old(self).position() + 1,
    {
        let ghost t = self.text@;
        let ghost p = self.cursor_pos;
        proof {
            lemma_char_offset(t, p as int);
        }
        insert_char_at(&mut self.text, self.cursor_pos, ch);
        proof {
            let k = char_index(t, p as int);
            assert(self.text@.take(k) =~= t.take(k));
            lemma_same_prefix(t, self.text@, k);
            if plain_ascii(t) && is_plain_ascii(ch) {
                assert(plain_ascii(self.text@)) by {
                    assert forall|i: int| 0 <= i < self.text@.len() implies #[trigger] is_plain_ascii(self.text@[i]) by {
                        if i < k {
                            assert(self.text@[i] == t[i]);
                        } else if i > k {
                            assert(self.text@[i] == t[i - 1]);
                        }
                    }
                }
                lemma_utf8_len_ascii(t);
                lemma_utf8_len_ascii(self.text@);
            }
        }
        self.move_cursor(1);
        true
    }

    /// Pastes the first line of `clip` in at the cursor and puts the cursor after it. Tells
    /// whether anything was pasted: nothing is when `clip` is empty or starts with a line
    /// break.
    pub fn paste(&mut self, clip: &str) -> (pasted: bool)
        requires
            old(self).wf(),
        ensures
            final(self).can_edit() == old(self).can_edit(),
            final(self).wf(),
            match pasted_line(clip@) {
                None => !pasted && final(self).content() == old(self).content() && final(self).position() == old(self).position(),
                Some(line) => pasted && final(self).content() == spliced(
                    old(self).content(),
                    old(self).position() as int,
                    old(self).position() as int,
                    line,
                ) && final(self).position() == cursor_start(
                    final(self).content(),
                    (old(self).position() + utf8_len(line)) as usize,
                ),
            },
    {
        let chars = chars_of(clip);
        let n = chars.len();
        if n == 0 {
            return false;
        }
        let mut j: usize = 0;
        while j < n && !(chars[j] == '\r' || chars[j] == '\n')
            invariant
                0 <= j <= n,
                n == chars@.len(),
                chars@ == clip@,
                first_line_break(clip@, 0) == first_line_break(clip@, j as int),
            decreases n - j,
        {
            j = j + 1;
        }
        let ghost t = self.text@;
        let line: &str = if j < n {
            if j == 0 {
                return false;
            }
            clip.substring_char(0, j)
        } else {
            assert(first_line_break(clip@, j as int) == None::<int>);
            clip
        };
        assert(pasted_line(clip@) == Some(line@)) by {
            if j < n {
                assert(clip@.take(j as int) =~= clip@.subrange(0, j as int));
            }
        }
        let line_len = byte_len(line);
        let p = self.cursor_pos;
        proof {
            lemma_char_offset(t, p as int);
        }
        replace_span(&mut self.text, p, p, line);
        let total = byte_len(self.text.as_str());
        proof {
            let k = char_index(t, p as int);
            let m = k + line@.len();
            assert(self.text@ == t.take(k) + line@ + t.skip(k));
            assert(self.text@.take(m) =~= t.take(k) + line@);
            lemma_utf8_len_concat(t.take(k), line@);
            lemma_char_index(self.text@, m);
            lemma_char_offset(self.text@, byte_offset(self.text@, m));
        }
        self.set_cursor_pos(p + line_len);
        true
    }

    /// Moves the cursor as the keys ask (see `moved_by_keys`).
    fn apply_moves(&mut self, keys: &KeyInput)
        requires
            old(self).wf(),
        ensures
            final(self).wf(),
            final(self).can_edit() == old(self).can_edit(),
            final(self).content() == old(self).content(),
            final(self).position() == moved_by_keys(old(self).content(), old(self).position(), *keys),
    {
        let end = byte_len(self.text.as_str());
        proof {
            lemma_char_index(self.text@, self.text@.len() as int);
            lemma_char_index(self.text@, 0);
            assert(self.text@.take(self.text@.len() as int) =~= self.text@);
            assert(self.text@.take(0) =~= Seq::<char>::empty());
        }
        if keys.left {
            self.move_cursor(-1);
        }
        if keys.right {
            self.move_cursor(1);
        }
        if keys.home {
            self.set_cursor_pos(0);
        }
        if keys.end {
            self.set_cursor_pos(end);
        }
        if keys.ctrl_left {
            self.move_cursor_word(-1);
        }
        if keys.ctrl_right {
            self.move_cursor_word(1);
        }
        if keys.ctrl_a {
            self.set_cursor_pos(0);
        }
        if keys.ctrl_e {
            self.set_cursor_pos(end);
        }
    }

    /// Takes the keys of a frame and edits the box as they ask (see `key_effect`).
    pub fn handle_keys(&mut self, focused: bool, keys: &KeyInput, clipboard: Option<&str>) -> (out: KeyOutcome)
        requires
            old(self).wf(),
        ensures
            final(self).wf(),
            final(self).can_edit() == old(self).can_edit(),
            ({
                let e = key_effect(
                    old(self).content(),
                    old(self).position(),
                    old(self).can_edit(),
                    focused,
                    *keys,
                    match clipboard {
                        Some(t) => Some(t@),
                        None => None,
                    },
                );
                &&& final(self).content() == e.0
                &&& final(self).position() == e.1
                &&& out.changed == e.2
                &&& match e.3 {
                    Some(t) => out.copied matches Some(s) && s@ == t,
                    None => out.copied is None,
                }
            }),
    {
        if !focused || !self.editable {
            return KeyOutcome { changed: false, copied: None };
        }
        self.apply_moves(keys);
        if keys.ctrl_d {
            self.delete_char(1);
        }
        if keys.backspace {
            let changed = self.delete_char(-1);
            return KeyOutcome { changed, copied: None };
        }
        if keys.delete {
            let changed = self.delete_char(1);
            return KeyOutcome { changed, copied: None };
        }
        match keys.ch {
            Some(ch) => {
                let changed = self.insert_char(ch);
                return KeyOutcome { changed, copied: None };
            },
            None => {},
        }
        let copied = if keys.ctrl_c {
            Some(self.text.clone())
        } else {
            None
        };
        if keys.ctrl_v {
            match clipboard {
                Some(text) => {
                    if self.paste(text) {
                        return KeyOutcome { changed: true, copied };
                    }
                },
                None => {},
            }
        }
        KeyOutcome { changed: false, copied }
    }
}

/// In a text of plain ASCII characters, a plain ASCII character put in at a
/// cursor and then deleted back leaves the text as it was, the cursor back where it
/// stood.
pub proof fn law_ascii_insert_then_backspace(text: Seq<char>, pos: int, ch: char)
    requires
        plain_ascii(text),
        is_plain_ascii(ch),
        0 <= pos <= text.len(),
    ensures
        with_char(text, pos, ch).remove(pos) == text,
{
    lemma_ascii_offsets(text, pos);
    assert(with_char(text, pos, ch).remove(pos) =~= text);
}

/// In a text of plain ASCII characters, deleting the character before a cursor and
/// putting it back in leaves the text as it was.
pub proof fn law_ascii_backspace_then_insert(text: Seq<char>, pos: int)
    requires
        plain_ascii(text),
        0 < pos <= text.len(),
    ensures
        with_char(text.remove(pos - 1), pos - 1, text[pos - 1]) == text,
{
    let t2 = text.remove(pos - 1);
    assert(plain_ascii(t2)) by {
        assert forall|i: int| 0 <= i < t2.len() implies #[trigger] is_plain_ascii(t2[i]) by {
            if i < pos - 1 {
                assert(t2[i] == text[i]);
            } else {
                assert(t2[i] == text[i + 1]);
            }
        }
    }
    lemma_ascii_offsets(t2, pos - 1);
    assert(with_char(t2, pos - 1, text[pos - 1]) =~= text);
}

/// Control-C, in a frame that deletes and types nothing, copies the whole text of a
/// focused, editable box, wherever the frame's moves leave the cursor, and leaves the
/// text as it was.
pub proof fn law_copy_takes_whole_text(c: Seq<char>, p: usize, k: KeyInput, clip: Option<Seq<char>>)
    requires
        k.ctrl_c,
        !k.ctrl_d,
        !k.backspace,
        !k.delete,
        k.ch is None,
        !k.ctrl_v,
    ensures
        key_effect(c, p, true, true, k, clip).3 == Some(c),
        key_effect(c, p, true, true, k, clip).0 == c,
        !key_effect(c, p, true, true, k, clip).2,
{
}

} // verus!
