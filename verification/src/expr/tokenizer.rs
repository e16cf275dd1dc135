//! Splitting an expression's text into tokens.
use vstd::prelude::*;

use crate::text::chars_of;

verus! {

/// Where a token starts: its offset, in characters, from the start of the input.
#[derive(Clone, Copy, Debug, PartialEq, Eq)]
pub struct TokenPosition {
    pub offset: usize,
}

/// What a token is.
#[derive(Debug)]
pub enum TokenKind {
    /// A single punctuation character, such as `+` or `(`.
    Punct(char),
    /// A numeric literal, kept as the text that spells it.
    Number(String),
    /// An identifier (a variable or function name).
    Ident(String),
    /// The end of the input.
    Eof,
}

/// A token and where it starts.
#[derive(Debug)]
pub struct Token {
    pub kind: TokenKind,
    pub pos: TokenPosition,
}

/// The mathematical model of a token kind: texts become character sequences.
pub enum SpecTokenKind {
    Punct(char),
    Number(Seq<char>),
    Ident(Seq<char>),
    Eof,
}

/// The mathematical model of a token.
pub struct SpecToken {
    pub kind: SpecTokenKind,
    pub pos: TokenPosition,
}

impl View for TokenKind {
    type V = SpecTokenKind;

    open spec fn view(&self) -> SpecTokenKind {
        match self {
            TokenKind::Punct(c) => SpecTokenKind::Punct(*c),
            TokenKind::Number(s) => SpecTokenKind::Number(s@),
            TokenKind::Ident(s) => SpecTokenKind::Ident(s@),
            TokenKind::Eof => SpecTokenKind::Eof,
        }
    }
}

impl View for Token {
    type V = SpecToken;

    open spec fn view(&self) -> SpecToken {
        SpecToken { kind: self.kind@, pos: self.pos }
    }
}

impl SpecToken {
    /// The punctuation character of the token, if it is one.
    pub open spec fn punct(self) -> Option<char> {
        match self.kind {
            SpecTokenKind::Punct(c) => Some(c),
            _ => None,
        }
    }
}

impl Token {
    /// The punctuation character of the token, if it is one.
    pub fn get_punct(&self) -> (res: Option<char>)
        ensures
            res == self@.punct(),
    {
        match &self.kind {
            TokenKind::Punct(c) => Some(*c),
            _ => None,
        }
    }

    /// Whether the token is the punctuation character `ch`.
    pub fn is_punct(&self, ch: char) -> (res: bool)
        ensures
            res == (self@.punct() == Some(ch)),
    {
        match &self.kind {
            TokenKind::Punct(c) => *c == ch,
            _ => false,
        }
    }

    /// Whether the token marks the end of the input.
    pub fn is_eof(&self) -> (res: bool)
        ensures
            res == (self@.kind is Eof),
    {
        match &self.kind {
            TokenKind::Eof => true,
            _ => false,
        }
    }

    /// Whether the token is a numeric literal.
    pub fn is_number(&self) -> (res: bool)
        ensures
            res == (self@.kind is Number),
    {
        match &self.kind {
            TokenKind::Number(_) => true,
            _ => false,
        }
    }

    /// Whether the token is an identifier.
    pub fn is_ident(&self) -> (res: bool)
        ensures
            res == (self@.kind is Ident),
    {
        match &self.kind {
            TokenKind::Ident(_) => true,
            _ => false,
        }
    }

    /// The text of a number or identifier token (empty for other tokens).
    pub fn into_text(self) -> (res: String)
        ensures
            self@.kind matches SpecTokenKind::Number(n) ==> res@ == n,
            self@.kind matches SpecTokenKind::Ident(n) ==> res@ == n,
    {
        match self.kind {
            TokenKind::Number(s) => s,
            TokenKind::Ident(s) => s,
            _ => String::new(),
        }
    }

    /// A token equal to this one.
    pub fn duplicate(&self) -> (res: Token)
        ensures
            res@ == self@,
    {
        let kind = match &self.kind {
            TokenKind::Punct(c) => TokenKind::Punct(*c),
            TokenKind::Number(s) => TokenKind::Number(s.clone()),
            TokenKind::Ident(s) => TokenKind::Ident(s.clone()),
            TokenKind::Eof => TokenKind::Eof,
        };
        Token { kind, pos: self.pos }
    }
}

/// Characters skipped between tokens.
pub open spec fn is_space(c: char) -> bool {
    c == ' ' || c == '\t' || c == '\n' || c == '\r'
}

/// Decimal digits.
pub open spec fn is_digit(c: char) -> bool {
    '0' <= c <= '9'
}

/// Characters that can start an identifier.
pub open spec fn is_ident_start(c: char) -> bool {
    ('a' <= c <= 'z') || ('A' <= c <= 'Z') || c == '_'
}

/// Characters that can continue an identifier.
pub open spec fn is_ident_char(c: char) -> bool {
    is_ident_start(c) || is_digit(c)
}

/// Characters that make up a numeric literal.
pub open spec fn is_number_char(c: char) -> bool {
    is_digit(c) || c == '.'
}

/// A well-formed numeric literal: at least one digit and at most one decimal point.
pub open spec fn valid_number(lex: Seq<char>) -> bool {
    &&& exists|k: int| 0 <= k < lex.len() && is_digit(#[trigger] lex[k])
    &&& forall|a: int, b: int| 0 <= a < b < lex.len() && lex[a] == '.' ==> lex[b] != '.'
}

/// The first position at or after `i` that does not hold a space.
pub open spec fn skip_space(s: Seq<char>, i: int) -> int
    decreases s.len() - i,
{
    if 0 <= i < s.len() && is_space(s[i]) {
        skip_space(s, i + 1)
    } else {
        i
    }
}

/// The end of the run of identifier characters that starts at `i`.
pub open spec fn ident_end(s: Seq<char>, i: int) -> int
    decreases s.len() - i,
{
    if 0 <= i < s.len() && is_ident_char(s[i]) {
        ident_end(s, i + 1)
    } else {
        i
    }
}

/// The end of the run of number characters that starts at `i`.
pub open spec fn number_end(s: Seq<char>, i: int) -> int
    decreases s.len() - i,
{
    if 0 <= i < s.len() && is_number_char(s[i]) {
        number_end(s, i + 1)
    } else {
        i
    }
}

/// The errors of expression parsing, as mathematical values.
pub enum SpecParseError {
    InvalidNumber(TokenPosition),
    ExpectedCommaOrParen(SpecToken),
    SyntaxError,
    NoFunctionOnStack,
    FunctionNotIdentifier,
    TooManyArguments,
    ExpectedOperator(SpecToken),
    UnexpectedOperator(SpecToken),
    ExpectedBinaryOperator(SpecToken),
    StackNotEmpty,
    Unexpected(SpecToken),
    UnexpectedEnd,
    UnexpectedToken(SpecToken),
    UnknownVariable(Seq<char>),
    UnknownFunction(Seq<char>),
}

/// Why an expression could not be read.
#[derive(Debug)]
pub enum ParseError {
    /// A run of digits and points that is not a number (no digit, or two points).
    InvalidNumber(TokenPosition),
    /// A function argument is followed by something other than `,` or `)`.
    ExpectedCommaOrParen(Token),
    /// An operator lacks an operand.
    SyntaxError,
    /// An argument list follows nothing.
    NoFunctionOnStack,
    /// An argument list follows something other than a name.
    FunctionNotIdentifier,
    /// A function call has more than two arguments.
    TooManyArguments,
    /// An operand follows an operand.
    ExpectedOperator(Token),
    /// An operator that has no prefix form stands where an operand is expected.
    UnexpectedOperator(Token),
    /// An operator that has no infix form follows an operand.
    ExpectedBinaryOperator(Token),
    /// Operands are left over with no operator to join them.
    StackNotEmpty,
    /// The expression ends where an operand is expected.
    Unexpected(Token),
    /// The input ends inside parentheses or an argument list.
    UnexpectedEnd,
    /// A token that has no place in an expression.
    UnexpectedToken(Token),
    /// A variable that the environment does not define.
    UnknownVariable(String),
    /// A function that the environment does not define with that many arguments.
    UnknownFunction(String),
}

impl View for ParseError {
    type V = SpecParseError;

    open spec fn view(&self) -> SpecParseError {
        match self {
            ParseError::InvalidNumber(p) => SpecParseError::InvalidNumber(*p),
            ParseError::ExpectedCommaOrParen(t) => SpecParseError::ExpectedCommaOrParen(t@),
            ParseError::SyntaxError => SpecParseError::SyntaxError,
            ParseError::NoFunctionOnStack => SpecParseError::NoFunctionOnStack,
            ParseError::FunctionNotIdentifier => SpecParseError::FunctionNotIdentifier,
            ParseError::TooManyArguments => SpecParseError::TooManyArguments,
            ParseError::ExpectedOperator(t) => SpecParseError::ExpectedOperator(t@),
            ParseError::UnexpectedOperator(t) => SpecParseError::UnexpectedOperator(t@),
            ParseError::ExpectedBinaryOperator(t) => SpecParseError::ExpectedBinaryOperator(t@),
            ParseError::StackNotEmpty => SpecParseError::StackNotEmpty,
            ParseError::Unexpected(t) => SpecParseError::Unexpected(t@),
            ParseError::UnexpectedEnd => SpecParseError::UnexpectedEnd,
            ParseError::UnexpectedToken(t) => SpecParseError::UnexpectedToken(t@),
            ParseError::UnknownVariable(s) => SpecParseError::UnknownVariable(s@),
            ParseError::UnknownFunction(s) => SpecParseError::UnknownFunction(s@),
        }
    }
}

/// The token that starts at or after position `i` of `s` (after spaces), and where
/// the next search starts; or the error for a malformed number.
pub open spec fn next_token(s: Seq<char>, i: int) -> Result<(SpecToken, int), SpecParseError> {
    let j = skip_space(s, i);
    if j >= s.len() {
        Ok((SpecToken { kind: SpecTokenKind::Eof, pos: TokenPosition { offset: j as usize } }, j))
    } else if is_ident_start(s[j]) {
        let k = ident_end(s, j + 1);
        Ok((SpecToken { kind: SpecTokenKind::Ident(s.subrange(j, k)), pos: TokenPosition { offset: j as usize } }, k))
    } else if is_number_char(s[j]) {
        let k = number_end(s, j + 1);
        if valid_number(s.subrange(j, k)) {
            Ok((SpecToken { kind: SpecTokenKind::Number(s.subrange(j, k)), pos: TokenPosition { offset: j as usize } }, k))
        } else {
            Err(SpecParseError::InvalidNumber(TokenPosition { offset: j as usize }))
        }
    } else {
        Ok((SpecToken { kind: SpecTokenKind::Punct(s[j]), pos: TokenPosition { offset: j as usize } }, j + 1))
    }
}

/// All tokens of `s` from position `i` on, up to and including the end marker, or up to
/// the first malformed number, whose error comes second.
pub open spec fn lex_from(s: Seq<char>, i: int) -> (Seq<SpecToken>, Option<SpecParseError>)
    decreases s.len() + 1 - i,
{
    match next_token(s, i) {
        Err(e) => (Seq::empty(), Some(e)),
        Ok((t, k)) => {
            if t.kind is Eof {
                (seq![t], None)
            } else if i < k <= s.len() {
                let (rest, err) = lex_from(s, k);
                (seq![t] + rest, err)
            } else {
                // not reached: a token other than the end marker always advances
                (seq![t], None)
            }
        }
    }
}

/// The token stream of the whole text `s`.
pub open spec fn lex(s: Seq<char>) -> (Seq<SpecToken>, Option<SpecParseError>) {
    lex_from(s, 0)
}

proof fn lemma_skip_space(s: Seq<char>, i: int)
    requires
        0 <= i <= s.len(),
    ensures
        i <= skip_space(s, i) <= s.len(),
        forall|k: int| i <= k < skip_space(s, i) ==> is_space(#[trigger] s[k]),
        skip_space(s, i) < s.len() ==> !is_space(s[skip_space(s, i)]),
    decreases s.len() - i,
{
    if i < s.len() && is_space(s[i]) {
        lemma_skip_space(s, i + 1);
    }
}

proof fn lemma_ident_end(s: Seq<char>, i: int)
    requires
        0 <= i <= s.len(),
    ensures
        i <= ident_end(s, i) <= s.len(),
        forall|k: int| i <= k < ident_end(s, i) ==> is_ident_char(#[trigger] s[k]),
        ident_end(s, i) < s.len() ==> !is_ident_char(s[ident_end(s, i)]),
    decreases s.len() - i,
{
    if i < s.len() && is_ident_char(s[i]) {
        lemma_ident_end(s, i + 1);
    }
}

proof fn lemma_number_end(s: Seq<char>, i: int)
    requires
        0 <= i <= s.len(),
    ensures
        i <= number_end(s, i) <= s.len(),
        forall|k: int| i <= k < number_end(s, i) ==> is_number_char(#[trigger] s[k]),
        number_end(s, i) < s.len() ==> !is_number_char(s[number_end(s, i)]),
    decreases s.len() - i,
{
    if i < s.len() && is_number_char(s[i]) {
        lemma_number_end(s, i + 1);
    }
}

fn char_is_space(c: char) -> (res: bool)
    ensures
        res == is_space(c),
{
    c == ' ' || c == '\t' || c == '\n' || c == '\r'
}

fn char_is_ident(c: char) -> (res: bool)
    ensures
        res == is_ident_char(c),
{
    ('a' <= c && c <= 'z') || ('A' <= c && c <= 'Z') || c == '_' || ('0' <= c && c <= '9')
}

fn char_is_number(c: char) -> (res: bool)
    ensures
        res == is_number_char(c),
{
    ('0' <= c && c <= '9') || c == '.'
}

/// Facts about the token read at `i`: it advances, except the end marker, which stands
/// at the end of the text; and the only error is a malformed number.
pub proof fn lemma_next_token(s: Seq<char>, i: int)
    requires
        0 <= i <= s.len(),
    ensures
        match next_token(s, i) {
            Ok((t, k)) => {
                &&& t.kind is Eof ==> k == s.len()
                &&& !(t.kind is Eof) ==> i < k <= s.len()
            },
            Err(e) => e is InvalidNumber,
        },
{
    lemma_skip_space(s, i);
    let j = skip_space(s, i);
    if j < s.len() {
        lemma_ident_end(s, j + 1);
        lemma_number_end(s, j + 1);
    }
}

/// A reader of tokens from a text, one at a time.
pub struct Tokenizer {
    chars: Vec<char>,
    pos: usize,
}

impl Tokenizer {
    /// The characters being read.
    pub closed spec fn text(&self) -> Seq<char> {
        self.chars@
    }

    /// Where the next token is searched from.
    pub closed spec fn position(&self) -> int {
        self.pos as int
    }

    /// The position stays within the input.
    pub closed spec fn wf(&self) -> bool {
        self.pos <= self.chars@.len()
    }

    /// A reader at the start of `input`.
    pub fn new(input: &str) -> (res: Tokenizer)
        ensures
            res.wf(),
            res.text() == input@,
            res.position() == 0,
    {
        Tokenizer { chars: chars_of(input), pos: 0 }
    }

    fn scan_ident(&self, start: usize) -> (end: usize)
        requires
            start <= self.chars@.len(),
        ensures
            end == ident_end(self.chars@, start as int),
    {
        proof { lemma_ident_end(self.chars@, start as int); }
        let mut k = start;
        while k < self.chars.len() && char_is_ident(self.chars[k])
            invariant
                start <= k <= self.chars@.len(),
                ident_end(self.chars@, k as int) == ident_end(self.chars@, start as int),
            decreases self.chars@.len() - k,
        {
            k = k + 1;
        }
        k
    }

    fn scan_number(&self, start: usize) -> (end: usize)
        requires
            start <= self.chars@.len(),
        ensures
            end == number_end(self.chars@, start as int),
    {
        let mut k = start;
        while k < self.chars.len() && char_is_number(self.chars[k])
            invariant
                start <= k <= self.chars@.len(),
                number_end(self.chars@, k as int) == number_end(self.chars@, start as int),
            decreases self.chars@.len() - k,
        {
            k = k + 1;
        }
        k
    }

    fn check_number(&self, start: usize, end: usize) -> (ok: bool)
        requires
            start <= end <= self.chars@.len(),
        ensures
            ok == valid_number(self.chars@.subrange(start as int, end as int)),
    {
        let ghost lex = self.chars@.subrange(start as int, end as int);
        let mut digit = false;
        let mut dots: usize = 0;
        let mut k = start;
        while k < end
            invariant
                start <= k <= end <= self.chars@.len(),
                lex == self.chars@.subrange(start as int, end as int),
                digit == exists|m: int| 0 <= m < k - start && is_digit(#[trigger] lex[m]),
                dots <= 1,
                dots == 0 ==> forall|m: int| 0 <= m < k - start ==> lex[m] != '.',
                dots == 1 ==> exists|m: int| 0 <= m < k - start && lex[m] == '.',
                forall|a: int, b: int| 0 <= a < b < k - start && lex[a] == '.' ==> lex[b] != '.',
            decreases end - k,
        {
            let c = self.chars[k];
            assert(lex[k - start] == c);
            if '0' <= c && c <= '9' {
                digit = true;
            } else if c == '.' {
                if dots == 1 {
                    return false;
                }
                dots = 1;
            }
            k = k + 1;
        }
        digit && dots <= 1
    }

    /// Reads the next token.
    pub fn read(&mut self) -> (res: Result<Token, ParseError>)
        requires
            old(self).wf(),
        ensures
            final(self).wf(),
            final(self).text() == old(self).text(),
            match next_token(old(self).text(), old(self).position()) {
                Ok((t, k)) => res matches Ok(tok) && tok@ == t && final(self).position() == k,
                Err(e) => res matches Err(err) && err@ == e,
            },
    {
        let ghost s = self.chars@;
        proof { lemma_skip_space(s, self.pos as int); }
        let mut j = self.pos;
        while j < self.chars.len() && char_is_space(self.chars[j])
            invariant
                self.pos <= j <= s.len(),
                s == self.chars@,
                skip_space(s, j as int) == skip_space(s, self.pos as int),
            decreases s.len() - j,
        {
            j = j + 1;
        }
        let pos = TokenPosition { offset: j };
        if j >= self.chars.len() {
            self.pos = j;
            return Ok(Token { kind: TokenKind::Eof, pos });
        }
        let c = self.chars[j];
        if ('a' <= c && c <= 'z') || ('A' <= c && c <= 'Z') || c == '_' {
            let k = self.scan_ident(j + 1);
            proof { lemma_ident_end(s, j + 1); }
            let name = self.text_between(j, k);
            self.pos = k;
            Ok(Token { kind: TokenKind::Ident(name), pos })
        } else if ('0' <= c && c <= '9') || c == '.' {
            let k = self.scan_number(j + 1);
            proof { lemma_number_end(s, j + 1); }
            if self.check_number(j, k) {
                let lexeme = self.text_between(j, k);
                self.pos = k;
                Ok(Token { kind: TokenKind::Number(lexeme), pos })
            } else {
                Err(ParseError::InvalidNumber(pos))
            }
        } else {
            self.pos = j + 1;
            Ok(Token { kind: TokenKind::Punct(c), pos })
        }
    }

    fn text_between(&self, start: usize, end: usize) -> (res: String)
        requires
            start <= end <= self.chars@.len(),
        ensures
            res@ == self.chars@.subrange(start as int, end as int),
    {
        crate::text::string_of(&self.chars, start, end)
    }
}

} // verus!
