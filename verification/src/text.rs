//! Conversions between texts and their characters, and where each character of a text
//! stands among its UTF-8 bytes.
use vstd::prelude::*;
use vstd::string::StringSliceAdditionalSpecFns;
use vstd::utf8::{encode_utf8, encode_scalar, char_is_scalar};

verus! {

/// The characters of `s`, in order.
pub fn chars_of(s: &str) -> (v: Vec<char>)
    ensures
        v@ == s@,
{
    broadcast use vstd::string::group_string_axioms;
    let mut v: Vec<char> = Vec::new();
    for c in it: s.chars()
        invariant
            it.seq() == s@,
            v@ == it.seq().take(it.index() as int),
    {
        v.push(c);
    }
    v
}

/// `String::push`: appends `c` at the end of `s`.
#[verifier::external_body]
pub(crate) fn push_char(s: &mut String, c: char)
    ensures
        final(s)@ == old(s)@.push(c),
{
    s.push(c);
}

/// The text made of `chars[start..end]`.
pub fn string_of(chars: &Vec<char>, start: usize, end: usize) -> (res: String)
    requires
        start <= end <= chars@.len(),
    ensures
        res@ == chars@.subrange(start as int, end as int),
{
    let mut res = String::new();
    let mut k = start;
    while k < end
        invariant
            start <= k <= end <= chars@.len(),
            res@ == chars@.subrange(start as int, k as int),
        decreases end - k,
    {
        push_char(&mut res, chars[k]);
        assert(chars@.subrange(start as int, k + 1) == chars@.subrange(start as int, k as int).push(chars@[k as int]));
        k = k + 1;
    }
    res
}

/// The number of bytes that `c` takes in UTF-8.
pub open spec fn char_width(c: char) -> int {
    if (c as u32) < 0x80u32 {
        1
    } else if (c as u32) < 0x800u32 {
        2
    } else if (c as u32) < 0x10000u32 {
        3
    } else {
        4
    }
}

/// The number of bytes that `s` takes in UTF-8.
pub open spec fn utf8_len(s: Seq<char>) -> int
    decreases s.len(),
{
    if s.len() == 0 {
        0
    } else {
        char_width(s[0]) + utf8_len(s.drop_first())
    }
}

/// The byte offset at which the character of index `k` of `s` starts (the byte length of
/// `s` when `k` is its length).
pub open spec fn byte_offset(s: Seq<char>, k: int) -> int {
    utf8_len(s.take(k))
}

/// Whether byte offset `pos` of `s` starts a character or is the end of `s`.
pub open spec fn is_char_offset(s: Seq<char>, pos: int) -> bool {
    exists|k: int| 0 <= k <= s.len() && #[trigger] byte_offset(s, k) == pos
}

/// The index of the character of `s` that starts at byte offset `pos`.
pub open spec fn char_index(s: Seq<char>, pos: int) -> int {
    choose|k: int| 0 <= k <= s.len() && #[trigger] byte_offset(s, k) == pos
}

/// An ASCII character other than the carriage return.
pub open spec fn is_plain_ascii(c: char) -> bool {
    (c as u32) < 0x80u32 && c != '\r'
}

/// Every character of `s` is an ASCII character other than the carriage return.
pub open spec fn plain_ascii(s: Seq<char>) -> bool {
    forall|i: int| 0 <= i < s.len() ==> is_plain_ascii(#[trigger] s[i])
}

/// The byte length of a concatenation is the sum of the byte lengths.
pub proof fn lemma_utf8_len_concat(a: Seq<char>, b: Seq<char>)
    ensures
        utf8_len(a + b) == utf8_len(a) + utf8_len(b),
    decreases a.len(),
{
    if a.len() == 0 {
        assert(a + b =~= b);
    } else {
        assert((a + b).drop_first() =~= a.drop_first() + b);
        lemma_utf8_len_concat(a.drop_first(), b);
    }
}

/// Every text takes at least as many bytes as it has characters.
pub proof fn lemma_utf8_len_bounds(s: Seq<char>)
    ensures
        s.len() <= utf8_len(s) <= 4 * s.len(),
    decreases s.len(),
{
    if s.len() > 0 {
        lemma_utf8_len_bounds(s.drop_first());
    }
}

/// A text of ASCII characters takes one byte per character.
pub proof fn lemma_utf8_len_ascii(s: Seq<char>)
    requires
        plain_ascii(s),
    ensures
        utf8_len(s) == s.len(),
    decreases s.len(),
{
    if s.len() > 0 {
        assert(is_plain_ascii(s[0]));
        assert(plain_ascii(s.drop_first())) by {
            assert forall|i: int| 0 <= i < s.drop_first().len() implies #[trigger] is_plain_ascii(s.drop_first()[i]) by {
                assert(s.drop_first()[i] == s[i + 1]);
            }
        }
        lemma_utf8_len_ascii(s.drop_first());
    }
}

/// The offset of the next character is that of this one plus its width.
pub proof fn lemma_byte_offset_step(s: Seq<char>, k: int)
    requires
        0 <= k < s.len(),
    ensures
        byte_offset(s, k + 1) == byte_offset(s, k) + char_width(s[k]),
{
    assert(s.take(k + 1) =~= s.take(k) + seq![s[k]]);
    lemma_utf8_len_concat(s.take(k), seq![s[k]]);
    assert(seq![s[k]].drop_first() =~= Seq::<char>::empty());
    assert(utf8_len(Seq::<char>::empty()) == 0);
    assert(utf8_len(seq![s[k]]) == char_width(s[k]));
}

/// Offsets grow strictly with the character index.
pub proof fn lemma_byte_offset_increases(s: Seq<char>, i: int, j: int)
    requires
        0 <= i < j <= s.len(),
    ensures
        byte_offset(s, i) < byte_offset(s, j),
    decreases j - i,
{
    lemma_byte_offset_step(s, j - 1);
    if i < j - 1 {
        lemma_byte_offset_increases(s, i, j - 1);
    }
}

/// The byte offset of character `k` starts a character, and that character is `k`.
pub proof fn lemma_char_index(s: Seq<char>, k: int)
    requires
        0 <= k <= s.len(),
    ensures
        is_char_offset(s, byte_offset(s, k)),
        char_index(s, byte_offset(s, k)) == k,
{
    let pos = byte_offset(s, k);
    assert(0 <= k <= s.len() && byte_offset(s, k) == pos);
    let j = char_index(s, pos);
    if j < k {
        lemma_byte_offset_increases(s, j, k);
    } else if k < j {
        lemma_byte_offset_increases(s, k, j);
    }
}

/// A byte offset that starts a character is the offset of its index.
pub proof fn lemma_char_offset(s: Seq<char>, pos: int)
    requires
        is_char_offset(s, pos),
    ensures
        0 <= char_index(s, pos) <= s.len(),
        byte_offset(s, char_index(s, pos)) == pos,
        0 <= pos <= utf8_len(s),
{
    let k = char_index(s, pos);
    assert(s.take(s.len() as int) =~= s);
    if k < s.len() {
        lemma_byte_offset_increases(s, k, s.len() as int);
    }
    lemma_utf8_len_bounds(s.take(k));
}

/// In an ASCII text, byte offsets and character indices coincide.
pub proof fn lemma_ascii_offsets(s: Seq<char>, k: int)
    requires
        plain_ascii(s),
        0 <= k <= s.len(),
    ensures
        byte_offset(s, k) == k,
        is_char_offset(s, k),
        char_index(s, k) == k,
{
    assert(plain_ascii(s.take(k))) by {
        assert forall|i: int| 0 <= i < s.take(k).len() implies #[trigger] is_plain_ascii(s.take(k)[i]) by {
            assert(s.take(k)[i] == s[i]);
        }
    }
    lemma_utf8_len_ascii(s.take(k));
    lemma_char_index(s, k);
}

/// The UTF-8 bytes of `s` number `utf8_len(s)`.
pub proof fn lemma_encoded_len(s: Seq<char>)
    ensures
        encode_utf8(s).len() == utf8_len(s),
    decreases s.len(),
{
    if s.len() > 0 {
        let c = s[0];
        let v = c as u32;
        char_is_scalar(c);
        assert(vstd::utf8::is_scalar(v));
        if v < 0x80u32 {
            assert(encode_scalar(v).len() == 1);
        } else if v < 0x800u32 {
            assert(encode_scalar(v).len() == 2);
        } else if v < 0x10000u32 {
            assert(encode_scalar(v).len() == 3);
        } else {
            assert(encode_scalar(v).len() == 4);
        }
        lemma_encoded_len(s.drop_first());
    }
}

/// The byte length of `s`.
pub fn byte_len(s: &str) -> (n: usize)
    ensures
        n == utf8_len(s@),
{
    proof {
        lemma_encoded_len(s@);
    }
    s.as_bytes().len()
}

/// `String::insert`: puts `ch` into `s` at byte offset `idx`, which must start a character
/// or be the end of `s` (the method panics elsewhere).
#[verifier::external_body]
pub(crate) fn insert_char_at(s: &mut String, idx: usize, ch: char)
    requires
        is_char_offset(old(s)@, idx as int),
    ensures
        final(s)@ == old(s)@.take(char_index(old(s)@, idx as int)).push(ch) + old(s)@.skip(
            char_index(old(s)@, idx as int),
        ),
{
    s.insert(idx, ch);
}

/// `String::replace_range`: puts `with` in place of the bytes of `s` from `start` to `end`,
/// each of which must start a character or be the end of `s` (the method panics
/// elsewhere).
#[verifier::external_body]
pub(crate) fn replace_span(s: &mut String, start: usize, end: usize, with: &str)
    requires
        start <= end,
        is_char_offset(old(s)@, start as int),
        is_char_offset(old(s)@, end as int),
    ensures
        final(s)@ == old(s)@.take(char_index(old(s)@, start as int)) + with@ + old(s)@.skip(
            char_index(old(s)@, end as int),
        ),
{
    s.replace_range(start..end, with);
}

/// When two texts agree on their first `k` characters, character `k` starts at the same
/// byte offset in both, and that offset starts character `k` of the second.
pub proof fn lemma_same_prefix(a: Seq<char>, b: Seq<char>, k: int)
    requires
        0 <= k <= a.len(),
        k <= b.len(),
        a.take(k) =~= b.take(k),
    ensures
        byte_offset(a, k) == byte_offset(b, k),
        is_char_offset(b, byte_offset(a, k)),
        char_index(b, byte_offset(a, k)) == k,
{
    lemma_char_index(b, k);
}

}
