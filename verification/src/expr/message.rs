//! The texts that describe why an expression could not be read.
use vstd::prelude::*;

use super::tokenizer::{ParseError, SpecParseError, SpecToken, SpecTokenKind, Token, TokenKind};

verus! {

/// The decimal digit of `d`, for `d` below ten.
pub open spec fn digit_char(d: nat) -> char {
    if d == 0 {
        '0'
    } else if d == 1 {
        '1'
    } else if d == 2 {
        '2'
    } else if d == 3 {
        '3'
    } else if d == 4 {
        '4'
    } else if d == 5 {
        '5'
    } else if d == 6 {
        '6'
    } else if d == 7 {
        '7'
    } else if d == 8 {
        '8'
    } else {
        '9'
    }
}

/// The decimal digits of `n`.
pub open spec fn decimal(n: nat) -> Seq<char>
    decreases n,
{
    if n < 10 {
        seq![digit_char(n)]
    } else {
        decimal(n / 10).push(digit_char(n % 10))
    }
}

/// How a token is shown in a message: its character, its text, or the end of the input.
pub open spec fn token_text(t: SpecToken) -> Seq<char> {
    match t.kind {
        SpecTokenKind::Punct(c) => seq![c],
        SpecTokenKind::Number(s) => s,
        SpecTokenKind::Ident(s) => s,
        SpecTokenKind::Eof => "end of input"@,
    }
}

/// The message of an error.
pub open spec fn error_message(e: SpecParseError) -> Seq<char> {
    match e {
        SpecParseError::InvalidNumber(p) => "invalid number at position "@ + decimal(p.offset as nat),
        SpecParseError::ExpectedCommaOrParen(t) => "expected ',' or ')', found '"@ + token_text(t) + "'"@,
        SpecParseError::SyntaxError => "syntax error"@,
        SpecParseError::NoFunctionOnStack => "syntax error (no function on stack)"@,
        SpecParseError::FunctionNotIdentifier => "function must be an identifier"@,
        SpecParseError::TooManyArguments => "too many function arguments"@,
        SpecParseError::ExpectedOperator(t) => if t.kind is Number {
            "expected '(' or operator, got "@ + token_text(t) + "'"@
        } else {
            "expected '(' or operator, found '"@ + token_text(t) + "'"@
        },
        SpecParseError::UnexpectedOperator(t) => "unexpected '"@ + token_text(t) + "'"@,
        SpecParseError::ExpectedBinaryOperator(t) => "expected '(' or binary operator, got '"@ + token_text(t) + "'"@,
        SpecParseError::StackNotEmpty => "syntax error (stack not empty)"@,
        SpecParseError::Unexpected(t) => "unexpected '"@ + token_text(t) + "'"@,
        SpecParseError::UnexpectedEnd => "unexpected end of expression"@,
        SpecParseError::UnexpectedToken(t) => "unexpected: '"@ + token_text(t) + "'"@,
        SpecParseError::UnknownVariable(s) => "unknown variable: '"@ + s + "'"@,
        SpecParseError::UnknownFunction(s) => "unknown function: '"@ + s + "'"@,
    }
}

/// Appends the decimal digits of `n` to `m`.
fn push_decimal(m: &mut String, n: usize)
    ensures
        final(m)@ == old(m)@ + decimal(n as nat),
    decreases n,
{
    if n >= 10 {
        push_decimal(m, n / 10);
    }
    let d = n % 10;
    let c = if d == 0 {
        '0'
    } else if d == 1 {
        '1'
    } else if d == 2 {
        '2'
    } else if d == 3 {
        '3'
    } else if d == 4 {
        '4'
    } else if d == 5 {
        '5'
    } else if d == 6 {
        '6'
    } else if d == 7 {
        '7'
    } else if d == 8 {
        '8'
    } else {
        '9'
    };
    let ghost before = m@;
    crate::text::push_char(m, c);
    proof {
        if n < 10 {
            assert(old(m)@ + decimal(n as nat) =~= old(m)@.push(c));
        } else {
            assert(old(m)@ + decimal(n as nat) =~= (old(m)@ + decimal((n / 10) as nat)).push(c));
        }
    }
}

/// Appends how token `t` is shown to `m`.
fn push_token(m: &mut String, t: &Token)
    ensures
        final(m)@ == old(m)@ + token_text(t@),
{
    match &t.kind {
        TokenKind::Punct(c) => {
            crate::text::push_char(m, *c);
            assert(old(m)@.push(*c) =~= old(m)@ + seq![*c]);
        },
        TokenKind::Number(s) => m.append(s.as_str()),
        TokenKind::Ident(s) => m.append(s.as_str()),
        TokenKind::Eof => m.append("end of input"),
    }
}

/// `start`, then how `t` is shown, then `end`.
fn around_token(start: &str, t: &Token, end: &str) -> (m: String)
    ensures
        m@ == start@ + token_text(t@) + end@,
{
    let mut m = String::from_str(start);
    push_token(&mut m, t);
    m.append(end);
    m
}

/// `start`, then `s`, then `end`.
fn around_text(start: &str, s: &String, end: &str) -> (m: String)
    ensures
        m@ == start@ + s@ + end@,
{
    let mut m = String::from_str(start);
    m.append(s.as_str());
    m.append(end);
    m
}

impl ParseError {
    /// The message that tells why the expression could not be read.
    pub fn message(&self) -> (m: String)
        ensures
            m@ == error_message(self@),
    {
        match self {
            ParseError::InvalidNumber(p) => {
                let mut m = String::from_str("invalid number at position ");
                push_decimal(&mut m, p.offset);
                m
            },
            ParseError::ExpectedCommaOrParen(t) => around_token("expected ',' or ')', found '", t, "'"),
            ParseError::SyntaxError => String::from_str("syntax error"),
            ParseError::NoFunctionOnStack => String::from_str("syntax error (no function on stack)"),
            ParseError::FunctionNotIdentifier => String::from_str("function must be an identifier"),
            ParseError::TooManyArguments => String::from_str("too many function arguments"),
            ParseError::ExpectedOperator(t) => if t.is_number() {
                around_token("expected '(' or operator, got ", t, "'")
            } else {
                around_token("expected '(' or operator, found '", t, "'")
            },
            ParseError::UnexpectedOperator(t) => around_token("unexpected '", t, "'"),
            ParseError::ExpectedBinaryOperator(t) => around_token("expected '(' or binary operator, got '", t, "'"),
            ParseError::StackNotEmpty => String::from_str("syntax error (stack not empty)"),
            ParseError::Unexpected(t) => around_token("unexpected '", t, "'"),
            ParseError::UnexpectedEnd => String::from_str("unexpected end of expression"),
            ParseError::UnexpectedToken(t) => around_token("unexpected: '", t, "'"),
            ParseError::UnknownVariable(s) => around_text("unknown variable: '", s, "'"),
            ParseError::UnknownFunction(s) => around_text("unknown function: '", s, "'"),
        }
    }
}

} // verus!
