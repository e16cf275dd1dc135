//! The layout of the lines of a text data file: one or two numbers per line, separated
//! by blanks, a comma or a semicolon. Positions are byte offsets into the line.
use vstd::prelude::*;
use vstd::string::StringSliceAdditionalSpecFns;

verus! {

/// A blank: a space or a tab.
pub open spec fn is_blank(c: u8) -> bool {
    c == 32u8 || c == 9u8
}

/// A byte that may stand in a number's text: a digit, `.`, `e` or `-`.
pub open spec fn is_number_byte(c: u8) -> bool {
    (48u8 <= c <= 57u8) || c == 46u8 || c == 101u8 || c == 45u8
}

/// The first index at or after `from` whose byte is not blank, if there is one.
pub open spec fn first_non_blank(b: Seq<u8>, from: int) -> Option<int>
    decreases b.len() - from,
{
    if from < 0 || from >= b.len() {
        None
    } else if !is_blank(b[from]) {
        Some(from)
    } else {
        first_non_blank(b, from + 1)
    }
}

/// The first index at or after `from` whose byte cannot stand in a number, if there is one.
pub open spec fn first_non_number(b: Seq<u8>, from: int) -> Option<int>
    decreases b.len() - from,
{
    if from < 0 || from >= b.len() {
        None
    } else if !is_number_byte(b[from]) {
        Some(from)
    } else {
        first_non_number(b, from + 1)
    }
}

/// Where the text from `from` on starts after its blanks: the first byte that is not
/// blank; when all of it is blank, `from` itself.
pub open spec fn skip_blanks(b: Seq<u8>, from: int) -> int {
    match first_non_blank(b, from) {
        Some(k) => k,
        None => from,
    }
}

/// The span of the number that the text from `from` on starts with, after blanks: from
/// its first byte to the first byte that cannot stand in a number. When every byte
/// after the start can, the span's end is the start plus the length of the text from
/// `from` on, which passes the end of the line unless the start is `from`.
pub open spec fn number_span(b: Seq<u8>, from: int) -> (int, int) {
    let s = skip_blanks(b, from);
    match first_non_number(b, s) {
        Some(k) => (s, k),
        None => (s, s + (b.len() - from)),
    }
}

/// Whether the line can be laid out: its first number's span stays inside it.
pub open spec fn line_defined(b: Seq<u8>) -> bool {
    number_span(b, 0).1 <= b.len()
}

/// Where the numbers of a line stand: the first number's span, and the second's when the
/// line has two columns.
pub struct LineLayout {
    pub first: (usize, usize),
    pub second: Option<(usize, usize)>,
}

/// The layout of line `b`. After the first number come blanks, then optionally a comma
/// or a semicolon and more blanks; the line has one column when that reaches its end or
/// a line break, and two columns otherwise, the second number starting there.
pub open spec fn line_layout(b: Seq<u8>) -> (Option<(int, int)>, (int, int)) {
    let first = number_span(b, 0);
    let e = skip_blanks(b, first.1);
    let e2 = if e < b.len() && (b[e] == 44u8 || b[e] == 59u8) {
        skip_blanks(b, e + 1)
    } else {
        e
    };
    if e2 >= b.len() || b[e2] == 10u8 || b[e2] == 13u8 {
        (None, first)
    } else {
        (Some(number_span(b, e2)), first)
    }
}

proof fn lemma_first_non_blank(b: Seq<u8>, from: int)
    requires
        0 <= from <= b.len(),
    ensures
        first_non_blank(b, from) matches Some(k) ==> from <= k < b.len() && !is_blank(b[k]),
    decreases b.len() - from,
{
    if from < b.len() && is_blank(b[from]) {
        lemma_first_non_blank(b, from + 1);
    }
}

proof fn lemma_first_non_number(b: Seq<u8>, from: int)
    requires
        0 <= from <= b.len(),
    ensures
        first_non_number(b, from) matches Some(k) ==> from <= k < b.len() && !is_number_byte(b[k]),
    decreases b.len() - from,
{
    if from < b.len() && is_number_byte(b[from]) {
        lemma_first_non_number(b, from + 1);
    }
}

/// `skip_blanks` from `from`, on bytes.
fn skip_blanks_from(b: &[u8], from: usize) -> (res: usize)
    requires
        from <= b@.len(),
    ensures
        res == skip_blanks(b@, from as int),
        from <= res <= b@.len(),
{
    proof { lemma_first_non_blank(b@, from as int); }
    let mut k = from;
    while k < b.len() && (b[k] == 32u8 || b[k] == 9u8)
        invariant
            from <= k <= b@.len(),
            first_non_blank(b@, k as int) == first_non_blank(b@, from as int),
        decreases b@.len() - k,
    {
        k = k + 1;
    }
    if k < b.len() {
        k
    } else {
        from
    }
}

/// The index of the first byte that is neither a space nor a tab; 0 when there is none.
pub fn skip_spaces(input: &str) -> (res: usize)
    ensures
        res == skip_blanks(input.spec_bytes(), 0),
{
    skip_blanks_from(input.as_bytes(), 0)
}

/// The span of the number that `b` starts with from `from` on (see `number_span`).
fn number_span_from(b: &[u8], from: usize) -> (res: (usize, usize))
    requires
        from <= b@.len(),
        number_span(b@, from as int).1 <= b@.len(),
    ensures
        res.0 as int == number_span(b@, from as int).0,
        res.1 as int == number_span(b@, from as int).1,
{
    let s = skip_blanks_from(b, from);
    proof { lemma_first_non_number(b@, s as int); }
    let mut k = s;
    while k < b.len() && ((48u8 <= b[k] && b[k] <= 57u8) || b[k] == 46u8 || b[k] == 101u8 || b[k] == 45u8)
        invariant
            s <= k <= b@.len(),
            first_non_number(b@, k as int) == first_non_number(b@, s as int),
        decreases b@.len() - k,
    {
        k = k + 1;
    }
    if k < b.len() {
        (s, k)
    } else {
        (s, s + (b.len() - from))
    }
}

/// Whether `line` can be laid out: its first number, after blanks, ends inside it.
pub fn line_is_defined(line: &str) -> (ok: bool)
    ensures
        ok == line_defined(line.spec_bytes()),
{
    let b = line.as_bytes();
    let s = skip_blanks_from(b, 0);
    proof { lemma_first_non_number(b@, s as int); }
    let mut k = s;
    while k < b.len() && ((48u8 <= b[k] && b[k] <= 57u8) || b[k] == 46u8 || b[k] == 101u8 || b[k] == 45u8)
        invariant
            s <= k <= b@.len(),
            first_non_number(b@, k as int) == first_non_number(b@, s as int),
        decreases b@.len() - k,
    {
        k = k + 1;
    }
    k < b.len() || s == 0
}

/// The span of the number that `input` starts with, after blanks (see `number_span`).
pub fn parse_float_span(input: &str) -> (res: (usize, usize))
    requires
        line_defined(input.spec_bytes()),
    ensures
        res.0 as int == number_span(input.spec_bytes(), 0).0,
        res.1 as int == number_span(input.spec_bytes(), 0).1,
{
    number_span_from(input.as_bytes(), 0)
}

/// Where the numbers of `line` stand.
pub fn parse_line(line: &str) -> (res: LineLayout)
    requires
        line_defined(line.spec_bytes()),
    ensures
        res.first.0 as int == line_layout(line.spec_bytes()).1.0,
        res.first.1 as int == line_layout(line.spec_bytes()).1.1,
        match line_layout(line.spec_bytes()).0 {
            None => res.second is None,
            Some(span) => res.second matches Some(s) && s.0 as int == span.0 && s.1 as int == span.1,
        },
{
    let b = line.as_bytes();
    let ghost bs = b@;
    let first = number_span_from(b, 0);
    let e = skip_blanks_from(b, first.1);
    let e2 = if e < b.len() && (b[e] == 44u8 || b[e] == 59u8) {
        skip_blanks_from(b, e + 1)
    } else {
        e
    };
    if e2 >= b.len() || b[e2] == 10u8 || b[e2] == 13u8 {
        LineLayout { first, second: None }
    } else {
        proof {
            if e < b.len() && (bs[e as int] == 44u8 || bs[e as int] == 59u8) {
                lemma_skip_idempotent(bs, e + 1);
            } else {
                lemma_skip_idempotent(bs, first.1 as int);
            }
            lemma_first_non_number(bs, e2 as int);
        }
        let second = number_span_from(b, e2);
        LineLayout { first, second: Some(second) }
    }
}

/// Skipping blanks twice skips no more than once.
proof fn lemma_skip_idempotent(b: Seq<u8>, x: int)
    requires
        0 <= x <= b.len(),
    ensures
        skip_blanks(b, skip_blanks(b, x)) == skip_blanks(b, x),
    decreases b.len() - x,
{
    lemma_first_non_blank(b, x);
    if x < b.len() && is_blank(b[x]) {
        lemma_skip_idempotent(b, x + 1);
        if first_non_blank(b, x + 1) is None {
            lemma_none_after(b, x + 1, x);
        }
    }
}

/// When no byte from `x` on is anything but blank, neither is any from an earlier blank.
proof fn lemma_none_after(b: Seq<u8>, x: int, y: int)
    requires
        0 <= y < x <= b.len(),
        first_non_blank(b, x) is None,
        forall|k: int| y <= k < x ==> is_blank(#[trigger] b[k]),
    ensures
        first_non_blank(b, y) is None,
    decreases x - y,
{
    if y + 1 < x {
        lemma_none_after(b, x, y + 1);
    }
}

/// The number of columns after a line of `columns` numbers, given the number the lines
/// before it had (`None` before the first line): that number, or `None` when the line's
/// number differs from it.
pub open spec fn next_columns(so_far: Option<u8>, columns: u8) -> Option<u8> {
    match so_far {
        None => Some(columns),
        Some(c) => if c == columns {
            Some(c)
        } else {
            None
        },
    }
}

/// The number of columns after a line of `columns` numbers, given the number the lines
/// before it had (`None` before the first line): that number, or `None` when the line's
/// number differs from it.
pub fn next_column_count(so_far: Option<u8>, columns: u8) -> (res: Option<u8>)
    ensures
        res == next_columns(so_far, columns),
{
    match so_far {
        None => Some(columns),
        Some(c) => if c == columns { Some(c) } else { None },
    }
}

/// The number of columns after reading lines whose numbers of columns are `counts`, in
/// order, from `so_far`: reading stops with `None` at the first line that differs.
pub open spec fn scan_columns(so_far: Option<u8>, counts: Seq<u8>) -> Option<u8>
    decreases counts.len(),
{
    if counts.len() == 0 {
        so_far
    } else {
        match next_columns(so_far, counts[0]) {
            None => None,
            Some(c) => scan_columns(Some(c), counts.drop_first()),
        }
    }
}

/// Reading a file's lines succeeds exactly when all of them have as many columns as the
/// first, and then that is the file's number of columns.
pub proof fn law_columns_agree(counts: Seq<u8>)
    requires
        counts.len() > 0,
    ensures
        scan_columns(None, counts) == Some(counts[0]) <==> (forall|i: int|
            0 <= i < counts.len() ==> #[trigger] counts[i] == counts[0]),
        scan_columns(None, counts) is None <==> (exists|i: int|
            0 <= i < counts.len() && #[trigger] counts[i] != counts[0]),
{
    lemma_scan_same(counts[0], counts.drop_first());
    assert forall|i: int| 0 <= i < counts.drop_first().len() implies #[trigger] counts.drop_first()[i]
        == counts[i + 1] by {}
    if exists|i: int| 0 <= i < counts.len() && #[trigger] counts[i] != counts[0] {
        let i = choose|i: int| 0 <= i < counts.len() && #[trigger] counts[i] != counts[0];
        assert(counts.drop_first()[i - 1] != counts[0]);
    }
}

/// From `Some(c)`, reading keeps `c` while every count is `c`, and stops with `None`
/// otherwise.
proof fn lemma_scan_same(c: u8, counts: Seq<u8>)
    ensures
        (forall|i: int| 0 <= i < counts.len() ==> #[trigger] counts[i] == c) ==> scan_columns(
            Some(c),
            counts,
        ) == Some(c),
        (exists|i: int| 0 <= i < counts.len() && #[trigger] counts[i] != c) ==> scan_columns(
            Some(c),
            counts,
        ) is None,
    decreases counts.len(),
{
    if counts.len() > 0 {
        lemma_scan_same(c, counts.drop_first());
        if forall|i: int| 0 <= i < counts.len() ==> #[trigger] counts[i] == c {
            assert forall|i: int| 0 <= i < counts.drop_first().len() implies #[trigger] counts.drop_first()[i] == c by {
                assert(counts.drop_first()[i] == counts[i + 1]);
            }
        }
        if exists|i: int| 0 <= i < counts.len() && #[trigger] counts[i] != c {
            let i = choose|i: int| 0 <= i < counts.len() && #[trigger] counts[i] != c;
            if i > 0 {
                assert(counts.drop_first()[i - 1] != c);
            }
        }
    }
}

} // verus!
