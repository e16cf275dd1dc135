//! Turning tokens into an expression tree, by operator precedence.
use vstd::prelude::*;

use super::tokenizer::{
    lemma_next_token, lex, lex_from, ParseError, SpecParseError, SpecToken, SpecTokenKind, Token,
    TokenKind, TokenPosition, Tokenizer,
};

verus! {

/// The operations that operators stand for.
#[derive(Clone, Copy, Debug)]
pub enum Operator {
    UnaryMinus,
    Add,
    Sub,
    Mul,
    Div,
    Pow,
}

/// How an operator groups with its neighbours.
#[derive(Clone, Copy, Debug)]
pub enum OperatorAssoc {
    Left,
    Right,
    Prefix,
}

/// An operator: its character, operation, grouping, number of operands and precedence.
#[derive(Clone, Copy, Debug)]
pub struct OperatorDef {
    pub ch: Option<char>,
    pub op: Operator,
    pub assoc: OperatorAssoc,
    pub arity: u8,
    pub prec: i8,
}

/// The precedence with which a pending function name is taken off the stack: no operator
/// is applied before it.
pub const PREC_FUNC_CALL: i8 = 127i8;

/// The lowest precedence: every pending operator is applied.
pub const PREC_ALL: i8 = -128i8;

/// The operator table: the operator written `ch` that takes `arity` operands.
pub open spec fn operator_table(arity: u8, ch: char) -> Option<OperatorDef> {
    if arity == 2 && ch == '+' {
        Some(OperatorDef { ch: Some('+'), op: Operator::Add, assoc: OperatorAssoc::Left, arity: 2, prec: 10 })
    } else if arity == 2 && ch == '-' {
        Some(OperatorDef { ch: Some('-'), op: Operator::Sub, assoc: OperatorAssoc::Left, arity: 2, prec: 10 })
    } else if arity == 2 && ch == '*' {
        Some(OperatorDef { ch: Some('*'), op: Operator::Mul, assoc: OperatorAssoc::Left, arity: 2, prec: 20 })
    } else if arity == 2 && ch == '/' {
        Some(OperatorDef { ch: Some('/'), op: Operator::Div, assoc: OperatorAssoc::Left, arity: 2, prec: 20 })
    } else if arity == 1 && ch == '-' {
        Some(OperatorDef { ch: Some('-'), op: Operator::UnaryMinus, assoc: OperatorAssoc::Prefix, arity: 1, prec: 30 })
    } else if arity == 2 && ch == '^' {
        Some(OperatorDef { ch: Some('^'), op: Operator::Pow, assoc: OperatorAssoc::Right, arity: 2, prec: 40 })
    } else {
        None
    }
}

/// Whether `op` is one of the entries of the operator table.
pub open spec fn in_table(op: OperatorDef) -> bool {
    exists|a: u8, c: char| operator_table(a, c) == Some(op)
}

/// Whether the token is written like an operator (of any arity).
pub open spec fn spec_is_operator(t: SpecToken) -> bool {
    match t.punct() {
        Some(c) => operator_table(1, c) is Some || operator_table(2, c) is Some,
        None => false,
    }
}

/// The operator of the given arity that the token is written as.
pub open spec fn spec_get_operator(arity: u8, t: SpecToken) -> Option<OperatorDef> {
    match t.punct() {
        Some(c) => operator_table(arity, c),
        None => None,
    }
}

/// Whether the token is written like an operator.
pub fn is_operator(t: &Token) -> (res: bool)
    ensures
        res == spec_is_operator(t@),
{
    match t.get_punct() {
        Some(c) => c == '+' || c == '-' || c == '*' || c == '/' || c == '^',
        None => false,
    }
}

/// The operator of the given arity that the token is written as.
pub fn get_operator(arity: u8, t: &Token) -> (res: Option<OperatorDef>)
    ensures
        res == spec_get_operator(arity, t@),
        res matches Some(op) ==> in_table(op),
{
    match t.get_punct() {
        Some(c) => {
            let res = if arity == 2 && c == '+' {
                Some(OperatorDef { ch: Some('+'), op: Operator::Add, assoc: OperatorAssoc::Left, arity: 2, prec: 10 })
            } else if arity == 2 && c == '-' {
                Some(OperatorDef { ch: Some('-'), op: Operator::Sub, assoc: OperatorAssoc::Left, arity: 2, prec: 10 })
            } else if arity == 2 && c == '*' {
                Some(OperatorDef { ch: Some('*'), op: Operator::Mul, assoc: OperatorAssoc::Left, arity: 2, prec: 20 })
            } else if arity == 2 && c == '/' {
                Some(OperatorDef { ch: Some('/'), op: Operator::Div, assoc: OperatorAssoc::Left, arity: 2, prec: 20 })
            } else if arity == 1 && c == '-' {
                Some(OperatorDef { ch: Some('-'), op: Operator::UnaryMinus, assoc: OperatorAssoc::Prefix, arity: 1, prec: 30 })
            } else if arity == 2 && c == '^' {
                Some(OperatorDef { ch: Some('^'), op: Operator::Pow, assoc: OperatorAssoc::Right, arity: 2, prec: 40 })
            } else {
                None
            };
            proof {
                if let Some(op) = res {
                    assert(operator_table(arity, c) == Some(op));
                }
            }
            res
        },
        None => None,
    }
}

/// An expression as it is written: names are kept as text.
#[derive(Debug)]
pub enum ExprAst {
    /// A numeric literal, as written.
    Number(String),
    Variable(String),
    Func0Call(String),
    Func1Call(String, Box<ExprAst>),
    Func2Call(String, Box<ExprAst>, Box<ExprAst>),
    Add(Box<ExprAst>, Box<ExprAst>),
    Sub(Box<ExprAst>, Box<ExprAst>),
    Mul(Box<ExprAst>, Box<ExprAst>),
    Div(Box<ExprAst>, Box<ExprAst>),
    Pow(Box<ExprAst>, Box<ExprAst>),
    Minus(Box<ExprAst>),
}

/// The mathematical model of an expression as written.
pub enum SpecAst {
    Number(Seq<char>),
    Variable(Seq<char>),
    Func0Call(Seq<char>),
    Func1Call(Seq<char>, Box<SpecAst>),
    Func2Call(Seq<char>, Box<SpecAst>, Box<SpecAst>),
    Add(Box<SpecAst>, Box<SpecAst>),
    Sub(Box<SpecAst>, Box<SpecAst>),
    Mul(Box<SpecAst>, Box<SpecAst>),
    Div(Box<SpecAst>, Box<SpecAst>),
    Pow(Box<SpecAst>, Box<SpecAst>),
    Minus(Box<SpecAst>),
}

impl ExprAst {
    /// The mathematical model of the tree.
    pub open spec fn model(&self) -> SpecAst
        decreases self,
    {
        match self {
            ExprAst::Number(s) => SpecAst::Number(s@),
            ExprAst::Variable(s) => SpecAst::Variable(s@),
            ExprAst::Func0Call(s) => SpecAst::Func0Call(s@),
            ExprAst::Func1Call(s, a) => SpecAst::Func1Call(s@, Box::new(a.model())),
            ExprAst::Func2Call(s, a, b) => SpecAst::Func2Call(s@, Box::new(a.model()), Box::new(b.model())),
            ExprAst::Add(a, b) => SpecAst::Add(Box::new(a.model()), Box::new(b.model())),
            ExprAst::Sub(a, b) => SpecAst::Sub(Box::new(a.model()), Box::new(b.model())),
            ExprAst::Mul(a, b) => SpecAst::Mul(Box::new(a.model()), Box::new(b.model())),
            ExprAst::Div(a, b) => SpecAst::Div(Box::new(a.model()), Box::new(b.model())),
            ExprAst::Pow(a, b) => SpecAst::Pow(Box::new(a.model()), Box::new(b.model())),
            ExprAst::Minus(a) => SpecAst::Minus(Box::new(a.model())),
        }
    }
}

impl View for ExprAst {
    type V = SpecAst;

    open spec fn view(&self) -> SpecAst {
        self.model()
    }
}

/// The models of a stack of expressions.
pub open spec fn models(v: Seq<ExprAst>) -> Seq<SpecAst> {
    v.map_values(|e: ExprAst| e@)
}

/// The node that a binary operation makes of its operands.
pub open spec fn binary_node(op: Operator, l: SpecAst, r: SpecAst) -> SpecAst {
    match op {
        Operator::Add => SpecAst::Add(Box::new(l), Box::new(r)),
        Operator::Sub => SpecAst::Sub(Box::new(l), Box::new(r)),
        Operator::Mul => SpecAst::Mul(Box::new(l), Box::new(r)),
        Operator::Div => SpecAst::Div(Box::new(l), Box::new(r)),
        Operator::Pow => SpecAst::Pow(Box::new(l), Box::new(r)),
        Operator::UnaryMinus => SpecAst::Minus(Box::new(r)),
    }
}

/// The operand stack after applying `op` to its topmost operands, or `None` when it
/// holds too few.
pub open spec fn apply_operator(op: OperatorDef, opns: Seq<SpecAst>) -> Option<Seq<SpecAst>> {
    match op.op {
        Operator::UnaryMinus => {
            if opns.len() >= 1 {
                Some(opns.drop_last().push(SpecAst::Minus(Box::new(opns.last()))))
            } else {
                None
            }
        },
        _ => {
            if opns.len() >= 2 {
                Some(
                    opns.subrange(0, opns.len() - 2).push(
                        binary_node(op.op, opns[opns.len() - 2], opns.last()),
                    ),
                )
            } else {
                None
            }
        },
    }
}

/// The precedence that decides whether a pending operator is applied: one less for a
/// right-associative operator, so that an equal operator does not apply it.
pub open spec fn binding_prec(op: OperatorDef) -> int {
    match op.assoc {
        OperatorAssoc::Right => op.prec - 1,
        _ => op.prec as int,
    }
}

/// Applies the pending operators, topmost first, while they bind at least as tightly as
/// `stop_prec`.
pub open spec fn resolve(opns: Seq<SpecAst>, oprs: Seq<OperatorDef>, stop_prec: int) -> Result<
    (Seq<SpecAst>, Seq<OperatorDef>),
    SpecParseError,
>
    decreases oprs.len(),
{
    if oprs.len() == 0 {
        Ok((opns, oprs))
    } else if binding_prec(oprs.last()) < stop_prec {
        Ok((opns, oprs))
    } else {
        match apply_operator(oprs.last(), opns) {
            None => Err(SpecParseError::SyntaxError),
            Some(opns2) => resolve(opns2, oprs.drop_last(), stop_prec),
        }
    }
}

/// Resolving the operator stack against precedence `p` applies, from the top, every
/// pending operator that binds at least as tightly as `p`: what stays is a bottom part of
/// the stack, and its top, if any, binds more loosely than `p`.
pub proof fn law_resolve_leaves_looser(opns: Seq<SpecAst>, oprs: Seq<OperatorDef>, p: int)
    ensures
        resolve(opns, oprs, p) matches Ok((o2, r2)) ==> {
            &&& r2.len() <= oprs.len()
            &&& r2 == oprs.take(r2.len() as int)
            &&& (r2.len() == 0 || binding_prec(r2.last()) < p)
        },
    decreases oprs.len(),
{
    if oprs.len() == 0 {
        assert(oprs.take(0) =~= oprs);
    } else if binding_prec(oprs.last()) < p {
        assert(oprs.take(oprs.len() as int) =~= oprs);
    } else {
        if let Some(opns2) = apply_operator(oprs.last(), opns) {
            law_resolve_leaves_looser(opns2, oprs.drop_last(), p);
            if let Ok((o2, r2)) = resolve(opns2, oprs.drop_last(), p) {
                assert(oprs.drop_last().take(r2.len() as int) =~= oprs.take(r2.len() as int));
            }
        }
    }
}

/// A token stream: the tokens, and the error that follows them if the text does not
/// end well.
pub struct TokenStream {
    pub tokens: Seq<SpecToken>,
    pub failure: Option<SpecParseError>,
}

impl TokenStream {
    /// The position of the end marker read past the last token.
    pub open spec fn end_pos(self) -> TokenPosition {
        if self.tokens.len() > 0 {
            self.tokens.last().pos
        } else {
            TokenPosition { offset: 0 }
        }
    }

    /// The token at index `i`; past the end, the failure or the end marker.
    pub open spec fn read(self, i: int) -> Result<SpecToken, SpecParseError> {
        if 0 <= i < self.tokens.len() {
            Ok(self.tokens[i])
        } else {
            match self.failure {
                Some(e) => Err(e),
                None => Ok(SpecToken { kind: SpecTokenKind::Eof, pos: self.end_pos() }),
            }
        }
    }

    /// A stream as the tokenizer makes it: without a failure it ends with the end marker,
    /// and the end marker occurs nowhere else.
    pub open spec fn well_formed(self) -> bool {
        &&& self.failure is None ==> self.tokens.len() > 0 && self.tokens.last().kind is Eof
        &&& forall|k: int| 0 <= k < self.tokens.len() - 1 ==> !(#[trigger] self.tokens[k].kind is Eof)
    }

    /// Whether reading at `i` is still inside the stream or reaches its failure.
    pub open spec fn ready_at(self, i: int) -> bool {
        0 <= i <= self.tokens.len() && (i < self.tokens.len() || self.failure is Some)
    }
}

/// The token stream of a text.
pub open spec fn stream_of(s: Seq<char>) -> TokenStream {
    TokenStream { tokens: lex(s).0, failure: lex(s).1 }
}

/// The call node for the function `name` and its argument list (at most two).
pub open spec fn call_node(name: Seq<char>, args: Seq<SpecAst>) -> SpecAst {
    if args.len() == 0 {
        SpecAst::Func0Call(name)
    } else if args.len() == 1 {
        SpecAst::Func1Call(name, Box::new(args[0]))
    } else {
        SpecAst::Func2Call(name, Box::new(args[0]), Box::new(args[1]))
    }
}

/// Reading an expression from index `i` of the stream, with operand stack `opns` and
/// pending operators `oprs`: the expression and the index after it, or the error. The
/// expression ends at a character of `stops` (read past it when `consume`) or, when
/// `stops` is empty, at the end of the input.
pub open spec fn parse_loop(
    ts: TokenStream,
    i: int,
    expect_opn: bool,
    opns: Seq<SpecAst>,
    oprs: Seq<OperatorDef>,
    consume: bool,
    stops: Seq<char>,
) -> Result<(SpecAst, int), SpecParseError>
    decreases ts.tokens.len() - i, 0int,
{
    match ts.read(i) {
        Err(e) => Err(e),
        Ok(t) => {
            if t.punct() == Some('(') {
                if expect_opn {
                    // a parenthesized operand
                    match parse_loop(ts, i + 1, true, seq![], seq![], true, seq![')']) {
                        Err(e) => Err(e),
                        Ok((e, j)) => {
                            if i < j <= ts.tokens.len() {
                                parse_loop(ts, j, false, opns.push(e), oprs, consume, stops)
                            } else {
                                Err(SpecParseError::SyntaxError)  // not reached
                            }
                        },
                    }
                } else {
                    // a function call: the operand before the parenthesis names the function
                    match resolve(opns, oprs, PREC_FUNC_CALL as int) {
                        Err(e) => Err(e),
                        Ok((opns2, oprs2)) => {
                            if opns2.len() == 0 {
                                Err(SpecParseError::NoFunctionOnStack)
                            } else {
                                match opns2.last() {
                                    SpecAst::Variable(name) => {
                                        match parse_list(ts, i + 1) {
                                            Err(e) => Err(e),
                                            Ok((args, j)) => {
                                                if args.len() > 2 {
                                                    Err(SpecParseError::TooManyArguments)
                                                } else if i < j <= ts.tokens.len() {
                                                    parse_loop(
                                                        ts,
                                                        j,
                                                        false,
                                                        opns2.drop_last().push(call_node(name, args)),
                                                        oprs2,
                                                        consume,
                                                        stops,
                                                    )
                                                } else {
                                                    Err(SpecParseError::SyntaxError)  // not reached
                                                }
                                            },
                                        }
                                    },
                                    _ => Err(SpecParseError::FunctionNotIdentifier),
                                }
                            }
                        },
                    }
                }
            } else if t.kind is Number {
                if !expect_opn {
                    Err(SpecParseError::ExpectedOperator(t))
                } else {
                    parse_loop(ts, i + 1, false, opns.push(SpecAst::Number(t.kind->Number_0)), oprs, consume, stops)
                }
            } else if spec_is_operator(t) {
                if expect_opn {
                    match spec_get_operator(1, t) {
                        None => Err(SpecParseError::UnexpectedOperator(t)),
                        Some(op) => parse_loop(ts, i + 1, true, opns, oprs.push(op), consume, stops),
                    }
                } else {
                    match spec_get_operator(2, t) {
                        None => Err(SpecParseError::ExpectedBinaryOperator(t)),
                        Some(op) => match resolve(opns, oprs, op.prec as int) {
                            Err(e) => Err(e),
                            Ok((opns2, oprs2)) => parse_loop(ts, i + 1, true, opns2, oprs2.push(op), consume, stops),
                        },
                    }
                }
            } else if t.kind is Ident {
                if !expect_opn {
                    Err(SpecParseError::ExpectedOperator(t))
                } else {
                    parse_loop(ts, i + 1, false, opns.push(SpecAst::Variable(t.kind->Ident_0)), oprs, consume, stops)
                }
            } else if t.punct() is Some && stops.contains(t.punct()->0) {
                match resolve(opns, oprs, PREC_ALL as int) {
                    Err(e) => Err(e),
                    Ok((opns2, _)) => {
                        if opns2.len() > 1 {
                            Err(SpecParseError::StackNotEmpty)
                        } else if opns2.len() == 0 {
                            Err(SpecParseError::Unexpected(t))
                        } else if consume {
                            Ok((opns2.last(), i + 1))
                        } else {
                            Ok((opns2.last(), i))
                        }
                    },
                }
            } else if t.kind is Eof {
                if stops.len() > 0 {
                    Err(SpecParseError::UnexpectedEnd)
                } else {
                    match resolve(opns, oprs, PREC_ALL as int) {
                        Err(e) => Err(e),
                        Ok((opns2, _)) => {
                            if opns2.len() > 1 {
                                Err(SpecParseError::StackNotEmpty)
                            } else if opns2.len() == 0 {
                                Err(SpecParseError::Unexpected(t))
                            } else {
                                Ok((opns2.last(), i + 1))
                            }
                        },
                    }
                }
            } else {
                Err(SpecParseError::UnexpectedToken(t))
            }
        },
    }
}

/// Reading a function's argument list from index `i` (just after the opening parenthesis):
/// the arguments and the index after the closing parenthesis, or the error.
pub open spec fn parse_list(ts: TokenStream, i: int) -> Result<(Seq<SpecAst>, int), SpecParseError>
    decreases ts.tokens.len() - i, 2int,
{
    match ts.read(i) {
        Err(e) => Err(e),
        Ok(t) => {
            if t.punct() == Some(')') {
                Ok((seq![], i + 1))
            } else {
                parse_list_items(ts, i, seq![])
            }
        },
    }
}

/// Reading the arguments from index `i`, after the arguments `acc` already read.
pub open spec fn parse_list_items(ts: TokenStream, i: int, acc: Seq<SpecAst>) -> Result<
    (Seq<SpecAst>, int),
    SpecParseError,
>
    decreases ts.tokens.len() - i, 1int,
{
    match parse_loop(ts, i, true, seq![], seq![], false, seq![',', ')']) {
        Err(e) => Err(e),
        Ok((e, k)) => {
            match ts.read(k) {
                Err(err) => Err(err),
                Ok(t) => {
                    if t.punct() == Some(')') {
                        Ok((acc.push(e), k + 1))
                    } else if t.punct() != Some(',') {
                        Err(SpecParseError::ExpectedCommaOrParen(t))
                    } else if i <= k < ts.tokens.len() {
                        parse_list_items(ts, k + 1, acc.push(e))
                    } else {
                        Err(SpecParseError::SyntaxError)  // not reached
                    }
                },
            }
        },
    }
}

/// The expression that a whole token stream spells, or why it spells none.
pub open spec fn parse_stream(ts: TokenStream) -> Result<SpecAst, SpecParseError> {
    match parse_loop(ts, 0, true, seq![], seq![], true, seq![]) {
        Ok((e, _)) => Ok(e),
        Err(e) => Err(e),
    }
}

/// The expression that the text `s` spells, or why it spells none.
pub open spec fn parse_text(s: Seq<char>) -> Result<SpecAst, SpecParseError> {
    parse_stream(stream_of(s))
}

/// Whether `c` is one of `chars`.
fn contains_char(chars: &[char], c: char) -> (res: bool)
    ensures
        res == chars@.contains(c),
{
    let mut k: usize = 0;
    while k < chars.len()
        invariant
            k <= chars@.len(),
            forall|m: int| 0 <= m < k ==> chars@[m] != c,
        decreases chars@.len() - k,
    {
        if chars[k] == c {
            return true;
        }
        k = k + 1;
    }
    false
}

impl OperatorDef {
    /// Takes the operands of this operator off the top of `opns` and returns the node
    /// made of them, or `None` when `opns` holds too few.
    fn new_expr(&self, opns: &mut Vec<ExprAst>) -> (res: Option<ExprAst>)
        ensures
            match apply_operator(*self, models(old(opns)@)) {
                Some(s) => res matches Some(e) && models(final(opns)@).push(e@) == s,
                None => res is None,
            },
    {
        let ghost old_opns = opns@;
        match self.op {
            Operator::UnaryMinus => {
                match opns.pop() {
                    Some(a) => {
                        assert(models(opns@) =~= models(old_opns).drop_last());
                        Some(ExprAst::Minus(Box::new(a)))
                    },
                    None => None,
                }
            },
            _ => {
                let r = match opns.pop() {
                    Some(r) => r,
                    None => return None,
                };
                let l = match opns.pop() {
                    Some(l) => l,
                    None => return None,
                };
                assert(models(opns@) =~= models(old_opns).subrange(0, old_opns.len() - 2));
                let e = match self.op {
                    Operator::Add => ExprAst::Add(Box::new(l), Box::new(r)),
                    Operator::Sub => ExprAst::Sub(Box::new(l), Box::new(r)),
                    Operator::Mul => ExprAst::Mul(Box::new(l), Box::new(r)),
                    Operator::Div => ExprAst::Div(Box::new(l), Box::new(r)),
                    Operator::Pow => ExprAst::Pow(Box::new(l), Box::new(r)),
                    Operator::UnaryMinus => ExprAst::Minus(Box::new(r)),
                };
                Some(e)
            },
        }
    }
}

/// Reads an expression from a text, by operator precedence.
pub struct Parser {
    tokens: Vec<Token>,
    failure: Option<TokenPosition>,
    next: usize,
    pending: Vec<Token>,
}

impl Parser {
    /// The token stream being read.
    pub closed spec fn stream(&self) -> TokenStream {
        TokenStream {
            tokens: self.tokens@.map_values(|t: Token| t@),
            failure: match self.failure {
                Some(p) => Some(SpecParseError::InvalidNumber(p)),
                None => None,
            },
        }
    }

    /// The tokens put back, the one to be read first last.
    pub closed spec fn pending(&self) -> Seq<SpecToken> {
        self.pending@.map_values(|t: Token| t@)
    }

    /// The index of the next token to read: the tokens put back come before the stream's
    /// next one.
    pub closed spec fn index(&self) -> int {
        self.next as int - self.pending@.len()
    }

    /// The stream is as the tokenizer makes it, and reading has not passed its end.
    pub closed spec fn stream_ok(&self) -> bool {
        &&& self.stream().well_formed()
        &&& self.next <= self.tokens@.len()
    }

    /// The stream is as the tokenizer makes it, and the tokens put back are those read
    /// last, in the order read.
    pub closed spec fn settled(&self) -> bool {
        &&& self.stream_ok()
        &&& self.pending@.len() <= self.next
        &&& forall|i: int| 0 <= i < self.pending@.len() ==> #[trigger] self.pending@[i]@ == self.stream().tokens[self.next - 1 - i]
    }

    /// The parser is settled, and reading can go on.
    pub closed spec fn wf(&self) -> bool {
        &&& self.settled()
        &&& self.stream().ready_at(self.index())
    }

    /// A parser at the start of the text `input`.
    pub fn new(input: &str) -> (res: Parser)
        ensures
            res.wf(),
            res.stream() == stream_of(input@),
            res.index() == 0,
            res.pending() == Seq::<SpecToken>::empty(),
    {
        let mut tok = Tokenizer::new(input);
        let ghost s = input@;
        let mut tokens: Vec<Token> = Vec::new();
        let mut failure: Option<TokenPosition> = None;
        loop
            invariant_except_break
                0 <= tok.position() <= s.len(),
                failure is None,
                tokens@.map_values(|t: Token| t@) + lex_from(s, tok.position()).0 == lex(s).0,
                lex_from(s, tok.position()).1 == lex(s).1,
                forall|k: int| 0 <= k < tokens@.len() ==> !(#[trigger] tokens@[k]@.kind is Eof),
            invariant
                tok.wf(),
                tok.text() == s,
            ensures
                tokens@.map_values(|t: Token| t@) == lex(s).0,
                failure matches Some(p) ==> lex(s).1 == Some(SpecParseError::InvalidNumber(p)),
                failure is None ==> lex(s).1 is None && tokens@.len() > 0 && tokens@.last()@.kind is Eof,
                forall|k: int| 0 <= k < tokens@.len() - 1 ==> !(#[trigger] tokens@[k]@.kind is Eof),
            decreases s.len() + 1 - tok.position(),
        {
            let ghost pos = tok.position();
            let ghost before = tokens@;
            proof {
                lemma_next_token(s, pos);
            }
            match tok.read() {
                Ok(t) => {
                    let eof = t.is_eof();
                    tokens.push(t);
                    assert(tokens@.map_values(|t: Token| t@) =~= before.map_values(|t: Token| t@).push(t@));
                    if eof {
                        assert(lex_from(s, pos).0 == seq![t@]);
                        break;
                    }
                    assert(lex_from(s, pos).0 == seq![t@] + lex_from(s, tok.position()).0);
                    assert(before.map_values(|t: Token| t@).push(t@) + lex_from(s, tok.position()).0
                        =~= before.map_values(|t: Token| t@) + (seq![t@] + lex_from(s, tok.position()).0));
                },
                Err(ParseError::InvalidNumber(p)) => {
                    assert(lex_from(s, pos).0 == Seq::<SpecToken>::empty());
                    assert(tokens@.map_values(|t: Token| t@) + Seq::<SpecToken>::empty() =~= tokens@.map_values(|t: Token| t@));
                    failure = Some(p);
                    break;
                },
                Err(_) => {
                    // not reached: the tokenizer reports nothing but malformed numbers
                    break;
                },
            }
        }
        let pending: Vec<Token> = Vec::new();
        let res = Parser { tokens, failure, next: 0, pending };
        assert(res.pending() =~= Seq::<SpecToken>::empty());
        res
    }

    /// Reads the next token: the last one put back, if any, else the stream's next one.
    /// Past the last token the position stays, so that later reads give the end marker,
    /// or the error, again.
    pub fn read(&mut self) -> (res: Result<Token, ParseError>)
        ensures
            final(self).stream() == old(self).stream(),
            old(self).pending().len() > 0 ==> (res matches Ok(r) && r@ == old(self).pending().last()
                && final(self).pending() == old(self).pending().drop_last()),
            old(self).pending().len() > 0 || old(self).wf() ==> (res is Ok ==> final(self).index()
                == old(self).index() + 1),
            old(self).settled() || (old(self).stream_ok() && old(self).pending().len() == 0)
                ==> match old(self).stream().read(old(self).index()) {
                Ok(t) => res matches Ok(r) && r@ == t,
                Err(e) => res matches Err(r) && r@ == e,
            },
            old(self).pending().len() == 0 ==> final(self).pending().len() == 0,
            old(self).settled() || (old(self).stream_ok() && old(self).pending().len() == 0)
                ==> final(self).index() == if old(self).index() < old(self).stream().tokens.len() {
                old(self).index() + 1
            } else {
                old(self).index()
            },
            old(self).stream_ok() ==> final(self).stream_ok(),
            old(self).settled() ==> final(self).settled(),
            old(self).wf() ==> (res matches Ok(t) && !(t@.kind is Eof) ==> final(self).wf()),
    {
        let ghost before = self.pending@;
        match self.pending.pop() {
            Some(t) => {
                proof {
                    assert(self.pending@ =~= before.drop_last());
                    assert(self.pending() =~= old(self).pending().drop_last());
                    if old(self).settled() {
                        assert(before[before.len() - 1]@ == self.stream().tokens[self.next - 1 - (before.len() - 1)]);
                    }
                }
                return Ok(t);
            },
            None => {},
        }
        assert(self.pending() =~= Seq::<SpecToken>::empty());
        if self.next < self.tokens.len() {
            let t = self.tokens[self.next].duplicate();
            self.next = self.next + 1;
            proof {
                let ts = self.stream();
                assert(ts.tokens[self.next - 1] == t@);
                if old(self).wf() && !(t@.kind is Eof) && ts.failure is None {
                    assert(self.next - 1 != ts.tokens.len() - 1);
                }
            }
            Ok(t)
        } else {
            match self.failure {
                Some(p) => Err(ParseError::InvalidNumber(p)),
                None => {
                    // not reached when the stream is ready
                    let pos = if self.tokens.len() > 0 {
                        self.tokens[self.tokens.len() - 1].pos
                    } else {
                        TokenPosition { offset: 0 }
                    };
                    Ok(Token { kind: TokenKind::Eof, pos })
                },
            }
        }
    }

    /// Puts `t` back, to be read next. Putting back the token just read returns to where
    /// it was read.
    pub fn unread(&mut self, t: Token)
        ensures
            final(self).stream() == old(self).stream(),
            final(self).pending() == old(self).pending().push(t@),
            final(self).index() == old(self).index() - 1,
            old(self).stream_ok() ==> final(self).stream_ok(),
            old(self).settled() && 0 < old(self).index() && t@ == old(self).stream().tokens[old(self).index() - 1] ==> final(self).wf(),
    {
        let ghost before = self.pending@;
        self.pending.push(t);
        proof {
            assert(self.pending() =~= old(self).pending().push(t@));
            if old(self).settled() && 0 < old(self).index() && t@ == old(self).stream().tokens[old(self).index() - 1] {
                assert forall|i: int| 0 <= i < self.pending@.len() implies #[trigger] self.pending@[i]@ == self.stream().tokens[self.next - 1 - i] by {
                    if i < before.len() {
                        assert(self.pending@[i] == before[i]);
                    }
                }
            }
        }
    }

    /// Applies the pending operators, topmost first, while they bind at least as tightly
    /// as `stop_prec`.
    fn resolve_expr_stack(opns: &mut Vec<ExprAst>, oprs: &mut Vec<OperatorDef>, stop_prec: i8) -> (res: Result<(), ParseError>)
        ensures
            match resolve(models(old(opns)@), old(oprs)@, stop_prec as int) {
                Ok((a, b)) => res is Ok && models(final(opns)@) == a && final(oprs)@ == b,
                Err(e) => res matches Err(r) && r@ == e,
            },
    {
        let ghost goal = resolve(models(opns@), oprs@, stop_prec as int);
        while !oprs.is_empty()
            invariant
                goal == resolve(models(old(opns)@), old(oprs)@, stop_prec as int),
                goal == resolve(models(opns@), oprs@, stop_prec as int),
            decreases oprs@.len(),
        {
            let ghost before_opns = models(opns@);
            let ghost before_oprs = oprs@;
            let op = match oprs.pop() {
                Some(op) => op,
                None => return Ok(()),
            };
            let op_prec: i16 = match op.assoc {
                OperatorAssoc::Right => op.prec as i16 - 1,
                _ => op.prec as i16,
            };
            if op_prec < stop_prec as i16 {
                oprs.push(op);
                assert(oprs@ =~= before_oprs);
                return Ok(());
            }
            assert(oprs@ == before_oprs.drop_last());
            match op.new_expr(&mut *opns) {
                Some(e) => {
                    let ghost mid = opns@;
                    opns.push(e);
                    assert(models(opns@) =~= models(mid).push(e@));
                },
                None => return Err(ParseError::SyntaxError),
            }
        }
        Ok(())
    }

    /// Reads a function's argument list, just after its opening parenthesis.
    fn parse_expr_list(&mut self) -> (res: Result<Vec<ExprAst>, ParseError>)
        requires
            old(self).wf(),
        ensures
            final(self).stream() == old(self).stream(),
            match parse_list(old(self).stream(), old(self).index()) {
                Ok((args, j)) => res matches Ok(v) && models(v@) == args && final(self).index() == j,
                Err(e) => res matches Err(r) && r@ == e,
            },
            res is Ok ==> final(self).wf() && old(self).index() < final(self).index(),
        decreases self.tokens@.len() - self.index(), 2int,
    {
        let ghost ts = self.stream();
        let ghost start = self.index();
        // check empty list
        let t = self.read()?;
        if t.is_punct(')') {
            let empty: Vec<ExprAst> = Vec::new();
            assert(models(empty@) =~= Seq::<SpecAst>::empty());
            return Ok(empty);
        }
        self.unread(t);

        // not empty; read expressions
        let mut list: Vec<ExprAst> = Vec::new();
        assert(models(list@) =~= Seq::<SpecAst>::empty());
        loop
            invariant
                self.wf(),
                self.stream() == ts,
                ts == old(self).stream(),
                start == old(self).index(),
                start <= self.index(),
                parse_list(ts, start) == parse_list_items(ts, self.index(), models(list@)),
            decreases self.tokens@.len() - self.index(),
        {
            let ghost i = self.index();
            let stops: [char; 2] = [',', ')'];
            assert(stops@ =~= seq![',', ')']);
            let e = self.parse_expr(false, &stops)?;
            let ghost k = self.index();
            let ghost acc = models(list@);
            list.push(e);
            assert(models(list@) =~= acc.push(e@));
            let t = self.read()?;
            if t.is_punct(')') {
                return Ok(list);
            }
            if !t.is_punct(',') {
                return Err(ParseError::ExpectedCommaOrParen(t));
            }
        }
    }

    /// Reads an expression up to one of `stop_chars` (read past it when `consume_stop`),
    /// or to the end of the input when `stop_chars` is empty.
    fn parse_expr(&mut self, consume_stop: bool, stop_chars: &[char]) -> (res: Result<ExprAst, ParseError>)
        requires
            old(self).wf(),
        ensures
            final(self).stream() == old(self).stream(),
            match parse_loop(old(self).stream(), old(self).index(), true, seq![], seq![], consume_stop, stop_chars@) {
                Ok((e, j)) => res matches Ok(r) && r@ == e && final(self).index() == j,
                Err(e) => res matches Err(r) && r@ == e,
            },
            res is Ok && stop_chars@.len() > 0 ==> final(self).wf() && old(self).index() < final(self).index(),
        decreases self.tokens@.len() - self.index(), 0int,
    {
        let ghost ts = self.stream();
        let ghost start = self.index();
        let mut expect_opn = true;
        let mut opns: Vec<ExprAst> = Vec::new();
        let mut oprs: Vec<OperatorDef> = Vec::new();
        assert(models(opns@) =~= Seq::<SpecAst>::empty());

        loop
            invariant
                self.wf(),
                self.stream() == ts,
                ts == old(self).stream(),
                start == old(self).index(),
                start <= self.index(),
                parse_loop(ts, start, true, seq![], seq![], consume_stop, stop_chars@)
                    == parse_loop(ts, self.index(), expect_opn, models(opns@), oprs@, consume_stop, stop_chars@),
            decreases self.tokens@.len() - self.index(),
        {
            let ghost i = self.index();
            let ghost stack = models(opns@);
            let t = self.read()?;

            // ( ... )
            if t.is_punct('(') {
                let expr = if expect_opn {
                    expect_opn = false;
                    let stops: [char; 1] = [')'];
                    assert(stops@ =~= seq![')']);
                    self.parse_expr(true, &stops)?
                } else {
                    Self::resolve_expr_stack(&mut opns, &mut oprs, PREC_FUNC_CALL)?;
                    let ghost stack2 = models(opns@);
                    let func = match opns.pop() {
                        Some(f) => f,
                        None => return Err(ParseError::NoFunctionOnStack),
                    };
                    assert(models(opns@) =~= stack2.drop_last());
                    let func_name = match func {
                        ExprAst::Variable(name) => name,
                        _ => return Err(ParseError::FunctionNotIdentifier),
                    };
                    let mut args = self.parse_expr_list()?;
                    let ghost arg_models = models(args@);
                    let arg0 = args.pop();
                    let arg1 = args.pop();
                    if !args.is_empty() {
                        return Err(ParseError::TooManyArguments);
                    }
                    match arg0 {
                        Some(a0) => match arg1 {
                            Some(a1) => {
                                assert(arg_models.len() == 2);
                                ExprAst::Func2Call(func_name, Box::new(a1), Box::new(a0))
                            },
                            None => {
                                assert(arg_models.len() == 1);
                                ExprAst::Func1Call(func_name, Box::new(a0))
                            },
                        },
                        None => {
                            assert(arg_models.len() == 0);
                            ExprAst::Func0Call(func_name)
                        },
                    }
                };
                let ghost before = models(opns@);
                opns.push(expr);
                assert(models(opns@) =~= before.push(expr@));
                continue;
            }

            // number
            if t.is_number() {
                if !expect_opn {
                    return Err(ParseError::ExpectedOperator(t));
                }
                let lexeme = t.into_text();
                opns.push(ExprAst::Number(lexeme));
                assert(models(opns@) =~= stack.push(SpecAst::Number(lexeme@)));
                expect_opn = false;
                continue;
            }

            // operator
            if is_operator(&t) {
                let op = if expect_opn {
                    match get_operator(1, &t) {
                        Some(op) => op,
                        None => return Err(ParseError::UnexpectedOperator(t)),
                    }
                } else {
                    let op = match get_operator(2, &t) {
                        Some(op) => op,
                        None => return Err(ParseError::ExpectedBinaryOperator(t)),
                    };
                    Self::resolve_expr_stack(&mut opns, &mut oprs, op.prec)?;
                    expect_opn = true;
                    op
                };
                oprs.push(op);
                continue;
            }

            // identifier
            if t.is_ident() {
                if !expect_opn {
                    return Err(ParseError::ExpectedOperator(t));
                }
                let name = t.into_text();
                opns.push(ExprAst::Variable(name));
                assert(models(opns@) =~= stack.push(SpecAst::Variable(name@)));
                expect_opn = false;
                continue;
            }

            // stop char
            let is_stop = match t.get_punct() {
                Some(ch) => contains_char(stop_chars, ch),
                None => false,
            };
            if is_stop {
                Self::resolve_expr_stack(&mut opns, &mut oprs, PREC_ALL)?;
                if opns.len() > 1 {
                    return Err(ParseError::StackNotEmpty);
                }
                if opns.is_empty() {
                    return Err(ParseError::Unexpected(t));
                }
                if !consume_stop {
                    self.unread(t);
                }
                return match opns.pop() {
                    Some(e) => Ok(e),
                    None => Err(ParseError::SyntaxError),
                };
            }

            // EOF
            if t.is_eof() {
                if stop_chars.len() > 0 {
                    return Err(ParseError::UnexpectedEnd);
                }
                Self::resolve_expr_stack(&mut opns, &mut oprs, PREC_ALL)?;
                if opns.len() > 1 {
                    return Err(ParseError::StackNotEmpty);
                }
                return match opns.pop() {
                    Some(e) => Ok(e),
                    None => Err(ParseError::Unexpected(t)),
                };
            }

            return Err(ParseError::UnexpectedToken(t));
        }
    }

    /// Reads the whole input as one expression.
    pub fn parse(&mut self) -> (res: Result<ExprAst, ParseError>)
        requires
            old(self).wf(),
        ensures
            match parse_loop(old(self).stream(), old(self).index(), true, seq![], seq![], true, seq![]) {
                Ok((e, _)) => res matches Ok(r) && r@ == e,
                Err(e) => res matches Err(r) && r@ == e,
            },
    {
        let stops: [char; 0] = [];
        assert(stops@ =~= Seq::<char>::empty());
        self.parse_expr(true, &stops)
    }
}

/// The binary operator written `c`.
pub open spec fn binary_op(c: char) -> OperatorDef {
    operator_table(2, c)->Some_0
}

/// Whether `c` writes a binary operator.
pub open spec fn is_binary_op(c: char) -> bool {
    operator_table(2, c) is Some
}

/// How `x c1 y c2 z` groups: to the left when the first operator binds at least as tightly
/// as the second (equal precedence groups left, but `^` groups right), else to the right.
pub open spec fn grouped(x: SpecAst, c1: char, y: SpecAst, c2: char, z: SpecAst) -> SpecAst {
    if binding_prec(binary_op(c1)) >= binary_op(c2).prec {
        binary_node(binary_op(c2).op, binary_node(binary_op(c1).op, x, y), z)
    } else {
        binary_node(binary_op(c1).op, x, binary_node(binary_op(c2).op, y, z))
    }
}

/// Whether `t` is a name or a number, and `a` is the operand it makes.
pub open spec fn atom(t: SpecToken, a: SpecAst) -> bool {
    ||| t.kind matches SpecTokenKind::Ident(n) && a == SpecAst::Variable(n)
    ||| t.kind matches SpecTokenKind::Number(n) && a == SpecAst::Number(n)
}

/// Two binary operators between three operands group by precedence: `*` and `/` bind
/// tighter than `+` and `-`, `^` tighter than both; operators of equal precedence group
/// to the left, except `^`, which groups to the right.
pub proof fn law_binary_precedence(
    ts: TokenStream,
    x: SpecAst,
    c1: char,
    y: SpecAst,
    c2: char,
    z: SpecAst,
)
    requires
        ts.failure is None,
        ts.tokens.len() == 6,
        atom(ts.tokens[0], x),
        ts.tokens[1].punct() == Some(c1),
        atom(ts.tokens[2], y),
        ts.tokens[3].punct() == Some(c2),
        atom(ts.tokens[4], z),
        ts.tokens[5].kind is Eof,
        is_binary_op(c1),
        is_binary_op(c2),
    ensures
        parse_loop(ts, 0, true, seq![], seq![], true, seq![]) == Ok::<(SpecAst, int), SpecParseError>((grouped(x, c1, y, c2, z), 6)),
        binary_op(c1).prec < binary_op(c2).prec ==> grouped(x, c1, y, c2, z) == binary_node(
            binary_op(c1).op,
            x,
            binary_node(binary_op(c2).op, y, z),
        ),
        binary_op(c1).prec > binary_op(c2).prec ==> grouped(x, c1, y, c2, z) == binary_node(
            binary_op(c2).op,
            binary_node(binary_op(c1).op, x, y),
            z,
        ),
        binary_op(c1).prec == binary_op(c2).prec && c1 != '^' ==> grouped(x, c1, y, c2, z)
            == binary_node(binary_op(c2).op, binary_node(binary_op(c1).op, x, y), z),
        c1 == '^' && c2 == '^' ==> grouped(x, c1, y, c2, z) == binary_node(
            Operator::Pow,
            x,
            binary_node(Operator::Pow, y, z),
        ),
{
    let e: Seq<SpecAst> = seq![];
    let o: Seq<OperatorDef> = seq![];
    let st: Seq<char> = seq![];
    let op1 = binary_op(c1);
    let op2 = binary_op(c2);
    assert(parse_loop(ts, 0, true, e, o, true, st) == parse_loop(ts, 1, false, e.push(x), o, true, st));
    assert(resolve(e.push(x), o, op1.prec as int) == Ok::<(Seq<SpecAst>, Seq<OperatorDef>), SpecParseError>((e.push(x), o)));
    assert(parse_loop(ts, 1, false, e.push(x), o, true, st) == parse_loop(ts, 2, true, e.push(x), o.push(op1), true, st));
    assert(parse_loop(ts, 2, true, e.push(x), o.push(op1), true, st) == parse_loop(ts, 3, false, e.push(x).push(y), o.push(op1), true, st));
    let xy = e.push(x).push(y);
    let l = e.push(binary_node(op1.op, x, y));
    if binding_prec(op1) >= op2.prec {
        assert(apply_operator(op1, xy) == Some(l)) by {
            assert(xy.subrange(0, 0) =~= e);
        }
        assert(o.push(op1).drop_last() =~= o);
        assert(resolve(l, o, op2.prec as int) == Ok::<(Seq<SpecAst>, Seq<OperatorDef>), SpecParseError>((l, o)));
        assert(resolve(xy, o.push(op1), op2.prec as int) == Ok::<(Seq<SpecAst>, Seq<OperatorDef>), SpecParseError>((l, o)));
        assert(parse_loop(ts, 3, false, xy, o.push(op1), true, st) == parse_loop(ts, 4, true, l, o.push(op2), true, st));
        let lz = l.push(z);
        assert(parse_loop(ts, 4, true, l, o.push(op2), true, st) == parse_loop(ts, 5, false, lz, o.push(op2), true, st));
        let r = e.push(binary_node(op2.op, binary_node(op1.op, x, y), z));
        assert(apply_operator(op2, lz) == Some(r)) by {
            assert(lz.subrange(0, 0) =~= e);
        }
        assert(o.push(op2).drop_last() =~= o);
        assert(resolve(r, o, PREC_ALL as int) == Ok::<(Seq<SpecAst>, Seq<OperatorDef>), SpecParseError>((r, o)));
        assert(resolve(lz, o.push(op2), PREC_ALL as int) == Ok::<(Seq<SpecAst>, Seq<OperatorDef>), SpecParseError>((r, o)));
        assert(parse_loop(ts, 5, false, lz, o.push(op2), true, st) == Ok::<(SpecAst, int), SpecParseError>((r.last(), 6)));
    } else {
        assert(resolve(xy, o.push(op1), op2.prec as int) == Ok::<(Seq<SpecAst>, Seq<OperatorDef>), SpecParseError>((xy, o.push(op1))));
        let ops = o.push(op1).push(op2);
        assert(parse_loop(ts, 3, false, xy, o.push(op1), true, st) == parse_loop(ts, 4, true, xy, ops, true, st));
        let xyz = xy.push(z);
        assert(parse_loop(ts, 4, true, xy, ops, true, st) == parse_loop(ts, 5, false, xyz, ops, true, st));
        let inner = e.push(x).push(binary_node(op2.op, y, z));
        assert(apply_operator(op2, xyz) == Some(inner)) by {
            assert(xyz.subrange(0, 1) =~= e.push(x));
        }
        assert(ops.drop_last() =~= o.push(op1));
        let outer = e.push(binary_node(op1.op, x, binary_node(op2.op, y, z)));
        assert(apply_operator(op1, inner) == Some(outer)) by {
            assert(inner.subrange(0, 0) =~= e);
        }
        assert(o.push(op1).drop_last() =~= o);
        assert(resolve(outer, o, PREC_ALL as int) == Ok::<(Seq<SpecAst>, Seq<OperatorDef>), SpecParseError>((outer, o)));
        assert(resolve(inner, o.push(op1), PREC_ALL as int) == Ok::<(Seq<SpecAst>, Seq<OperatorDef>), SpecParseError>((outer, o)));
        assert(resolve(xyz, ops, PREC_ALL as int) == Ok::<(Seq<SpecAst>, Seq<OperatorDef>), SpecParseError>((outer, o)));
        assert(parse_loop(ts, 5, false, xyz, ops, true, st) == Ok::<(SpecAst, int), SpecParseError>((outer.last(), 6)));
    }
}

/// A unary minus binds tighter than `+`, `-`, `*` and `/`, and looser than `^`:
/// `-x c y` reads as `(-x) c y`, except `-x ^ y`, which reads as `-(x ^ y)`.
pub proof fn law_unary_minus_precedence(ts: TokenStream, x: SpecAst, c: char, y: SpecAst)
    requires
        ts.failure is None,
        ts.tokens.len() == 5,
        ts.tokens[0].punct() == Some('-'),
        atom(ts.tokens[1], x),
        ts.tokens[2].punct() == Some(c),
        atom(ts.tokens[3], y),
        ts.tokens[4].kind is Eof,
        is_binary_op(c),
    ensures
        parse_loop(ts, 0, true, seq![], seq![], true, seq![]) == Ok::<(SpecAst, int), SpecParseError>((
            if c == '^' {
                SpecAst::Minus(Box::new(binary_node(Operator::Pow, x, y)))
            } else {
                binary_node(binary_op(c).op, SpecAst::Minus(Box::new(x)), y)
            },
            5,
        )),
{
    let e: Seq<SpecAst> = seq![];
    let o: Seq<OperatorDef> = seq![];
    let st: Seq<char> = seq![];
    let neg = operator_table(1, '-')->Some_0;
    let op = binary_op(c);
    assert(parse_loop(ts, 0, true, e, o, true, st) == parse_loop(ts, 1, true, e, o.push(neg), true, st));
    assert(parse_loop(ts, 1, true, e, o.push(neg), true, st) == parse_loop(ts, 2, false, e.push(x), o.push(neg), true, st));
    let ex = e.push(x);
    if c == '^' {
        assert(resolve(ex, o.push(neg), op.prec as int) == Ok::<(Seq<SpecAst>, Seq<OperatorDef>), SpecParseError>((ex, o.push(neg))));
        let ops = o.push(neg).push(op);
        assert(parse_loop(ts, 2, false, ex, o.push(neg), true, st) == parse_loop(ts, 3, true, ex, ops, true, st));
        let xy = ex.push(y);
        assert(parse_loop(ts, 3, true, ex, ops, true, st) == parse_loop(ts, 4, false, xy, ops, true, st));
        let p = e.push(binary_node(Operator::Pow, x, y));
        assert(apply_operator(op, xy) == Some(p)) by {
            assert(xy.subrange(0, 0) =~= e);
        }
        assert(ops.drop_last() =~= o.push(neg));
        let m = e.push(SpecAst::Minus(Box::new(binary_node(Operator::Pow, x, y))));
        assert(apply_operator(neg, p) == Some(m)) by {
            assert(p.drop_last() =~= e);
        }
        assert(o.push(neg).drop_last() =~= o);
        assert(resolve(m, o, PREC_ALL as int) == Ok::<(Seq<SpecAst>, Seq<OperatorDef>), SpecParseError>((m, o)));
        assert(resolve(p, o.push(neg), PREC_ALL as int) == Ok::<(Seq<SpecAst>, Seq<OperatorDef>), SpecParseError>((m, o)));
        assert(resolve(xy, ops, PREC_ALL as int) == Ok::<(Seq<SpecAst>, Seq<OperatorDef>), SpecParseError>((m, o)));
        assert(parse_loop(ts, 4, false, xy, ops, true, st) == Ok::<(SpecAst, int), SpecParseError>((m.last(), 5)));
    } else {
        let m = e.push(SpecAst::Minus(Box::new(x)));
        assert(apply_operator(neg, ex) == Some(m)) by {
            assert(ex.drop_last() =~= e);
        }
        assert(o.push(neg).drop_last() =~= o);
        assert(resolve(m, o, op.prec as int) == Ok::<(Seq<SpecAst>, Seq<OperatorDef>), SpecParseError>((m, o)));
        assert(resolve(ex, o.push(neg), op.prec as int) == Ok::<(Seq<SpecAst>, Seq<OperatorDef>), SpecParseError>((m, o)));
        assert(parse_loop(ts, 2, false, ex, o.push(neg), true, st) == parse_loop(ts, 3, true, m, o.push(op), true, st));
        let my = m.push(y);
        assert(parse_loop(ts, 3, true, m, o.push(op), true, st) == parse_loop(ts, 4, false, my, o.push(op), true, st));
        let r = e.push(binary_node(op.op, SpecAst::Minus(Box::new(x)), y));
        assert(apply_operator(op, my) == Some(r)) by {
            assert(my.subrange(0, 0) =~= e);
        }
        assert(o.push(op).drop_last() =~= o);
        assert(resolve(r, o, PREC_ALL as int) == Ok::<(Seq<SpecAst>, Seq<OperatorDef>), SpecParseError>((r, o)));
        assert(resolve(my, o.push(op), PREC_ALL as int) == Ok::<(Seq<SpecAst>, Seq<OperatorDef>), SpecParseError>((r, o)));
        assert(parse_loop(ts, 4, false, my, o.push(op), true, st) == Ok::<(SpecAst, int), SpecParseError>((r.last(), 5)));
    }
}

/// A call of a function of two arguments keeps its arguments in the order written:
/// `f(x, y)` reads as the call of `f` with `x` first and `y` second.
pub proof fn law_call_argument_order(ts: TokenStream, f: Seq<char>, x: SpecAst, y: SpecAst)
    requires
        ts.failure is None,
        ts.tokens.len() == 7,
        ts.tokens[0].kind == SpecTokenKind::Ident(f),
        ts.tokens[1].punct() == Some('('),
        atom(ts.tokens[2], x),
        ts.tokens[3].punct() == Some(','),
        atom(ts.tokens[4], y),
        ts.tokens[5].punct() == Some(')'),
        ts.tokens[6].kind is Eof,
    ensures
        parse_loop(ts, 0, true, seq![], seq![], true, seq![]) == Ok::<(SpecAst, int), SpecParseError>((
            SpecAst::Func2Call(f, Box::new(x), Box::new(y)),
            7,
        )),
{
    let e: Seq<SpecAst> = seq![];
    let o: Seq<OperatorDef> = seq![];
    let st: Seq<char> = seq![];
    let arg_stops: Seq<char> = seq![',', ')'];
    let vf = e.push(SpecAst::Variable(f));
    assert(parse_loop(ts, 0, true, e, o, true, st) == parse_loop(ts, 1, false, vf, o, true, st));
    assert(resolve(vf, o, PREC_FUNC_CALL as int) == Ok::<(Seq<SpecAst>, Seq<OperatorDef>), SpecParseError>((vf, o)));
    assert(arg_stops.contains(','));
    assert(arg_stops.contains(')'));
    assert(parse_loop(ts, 2, true, e, o, false, arg_stops) == parse_loop(ts, 3, false, e.push(x), o, false, arg_stops));
    assert(resolve(e.push(x), o, PREC_ALL as int) == Ok::<(Seq<SpecAst>, Seq<OperatorDef>), SpecParseError>((e.push(x), o)));
    assert(parse_loop(ts, 3, false, e.push(x), o, false, arg_stops) == Ok::<(SpecAst, int), SpecParseError>((x, 3)));
    assert(parse_loop(ts, 4, true, e, o, false, arg_stops) == parse_loop(ts, 5, false, e.push(y), o, false, arg_stops));
    assert(resolve(e.push(y), o, PREC_ALL as int) == Ok::<(Seq<SpecAst>, Seq<OperatorDef>), SpecParseError>((e.push(y), o)));
    assert(parse_loop(ts, 5, false, e.push(y), o, false, arg_stops) == Ok::<(SpecAst, int), SpecParseError>((y, 5)));
    let args = e.push(x).push(y);
    assert(parse_list_items(ts, 4, e.push(x)) == Ok::<(Seq<SpecAst>, int), SpecParseError>((args, 6)));
    assert(parse_list_items(ts, 2, e) == Ok::<(Seq<SpecAst>, int), SpecParseError>((args, 6)));
    assert(parse_list(ts, 2) == Ok::<(Seq<SpecAst>, int), SpecParseError>((args, 6)));
    let call = SpecAst::Func2Call(f, Box::new(x), Box::new(y));
    assert(call_node(f, args) == call);
    assert(vf.drop_last().push(call_node(f, args)) =~= e.push(call));
    assert(parse_loop(ts, 1, false, vf, o, true, st) == parse_loop(ts, 6, false, e.push(call), o, true, st));
    assert(resolve(e.push(call), o, PREC_ALL as int) == Ok::<(Seq<SpecAst>, Seq<OperatorDef>), SpecParseError>((e.push(call), o)));
    assert(parse_loop(ts, 6, false, e.push(call), o, true, st) == Ok::<(SpecAst, int), SpecParseError>((call, 7)));
}

/// A token put back is the next one read: `after` is `before` with `t` put back (as
/// `unread` leaves it), so the next `read` of `after` gives `t`, leaves the tokens put
/// back as they were in `before`, and returns to `before`'s position.
pub proof fn law_read_gives_back_unread(before: Parser, after: Parser, t: SpecToken)
    requires
        after.stream() == before.stream(),
        after.pending() == before.pending().push(t),
        after.index() == before.index() - 1,
    ensures
        after.pending().len() > 0,
        after.pending().last() == t,
        after.pending().drop_last() == before.pending(),
        after.index() + 1 == before.index(),
{
    assert(before.pending().push(t).drop_last() =~= before.pending());
}

/// Reads the expression that the text `input` spells.
pub fn parse_str(input: &str) -> (res: Result<ExprAst, ParseError>)
    ensures
        match parse_text(input@) {
            Ok(e) => res matches Ok(r) && r@ == e,
            Err(e) => res matches Err(r) && r@ == e,
        },
{
    let mut parser = Parser::new(input);
    parser.parse()
}

} // verus!
