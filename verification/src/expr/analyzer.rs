//! Resolving the names of an expression to indices in an environment.
use vstd::prelude::*;

use super::parser::{ExprAst, SpecAst};
use super::tokenizer::{ParseError, SpecParseError};
use super::{distinct, find_name, position_of, texts, EnvSymbols, Expr, SpecExpr, SpecSymbols};

verus! {

/// The expression `ast` with each name replaced by its index in `syms` (variables, and
/// functions by their number of arguments), or the first name, left to right, that
/// `syms` lacks.
pub open spec fn resolve_names(ast: SpecAst, syms: SpecSymbols) -> Result<SpecExpr, SpecParseError>
    decreases ast,
{
    match ast {
        SpecAst::Number(n) => Ok(SpecExpr::Number(n)),
        SpecAst::Variable(name) => match position_of(syms.vars, name) {
            Some(i) => Ok(SpecExpr::Variable(i as usize)),
            None => Err(SpecParseError::UnknownVariable(name)),
        },
        SpecAst::Func0Call(name) => match position_of(syms.funcs0, name) {
            Some(i) => Ok(SpecExpr::Func0Call(i as usize)),
            None => Err(SpecParseError::UnknownFunction(name)),
        },
        SpecAst::Func1Call(name, a) => match position_of(syms.funcs1, name) {
            None => Err(SpecParseError::UnknownFunction(name)),
            Some(i) => match resolve_names(*a, syms) {
                Err(e) => Err(e),
                Ok(ra) => Ok(SpecExpr::Func1Call(i as usize, Box::new(ra))),
            },
        },
        SpecAst::Func2Call(name, a, b) => match position_of(syms.funcs2, name) {
            None => Err(SpecParseError::UnknownFunction(name)),
            Some(i) => match resolve_names(*a, syms) {
                Err(e) => Err(e),
                Ok(ra) => match resolve_names(*b, syms) {
                    Err(e) => Err(e),
                    Ok(rb) => Ok(SpecExpr::Func2Call(i as usize, Box::new(ra), Box::new(rb))),
                },
            },
        },
        SpecAst::Add(a, b) => match resolve_names(*a, syms) {
            Err(e) => Err(e),
            Ok(ra) => match resolve_names(*b, syms) {
                Err(e) => Err(e),
                Ok(rb) => Ok(SpecExpr::Add(Box::new(ra), Box::new(rb))),
            },
        },
        SpecAst::Sub(a, b) => match resolve_names(*a, syms) {
            Err(e) => Err(e),
            Ok(ra) => match resolve_names(*b, syms) {
                Err(e) => Err(e),
                Ok(rb) => Ok(SpecExpr::Sub(Box::new(ra), Box::new(rb))),
            },
        },
        SpecAst::Mul(a, b) => match resolve_names(*a, syms) {
            Err(e) => Err(e),
            Ok(ra) => match resolve_names(*b, syms) {
                Err(e) => Err(e),
                Ok(rb) => Ok(SpecExpr::Mul(Box::new(ra), Box::new(rb))),
            },
        },
        SpecAst::Div(a, b) => match resolve_names(*a, syms) {
            Err(e) => Err(e),
            Ok(ra) => match resolve_names(*b, syms) {
                Err(e) => Err(e),
                Ok(rb) => Ok(SpecExpr::Div(Box::new(ra), Box::new(rb))),
            },
        },
        SpecAst::Pow(a, b) => match resolve_names(*a, syms) {
            Err(e) => Err(e),
            Ok(ra) => match resolve_names(*b, syms) {
                Err(e) => Err(e),
                Ok(rb) => Ok(SpecExpr::Pow(Box::new(ra), Box::new(rb))),
            },
        },
        SpecAst::Minus(a) => match resolve_names(*a, syms) {
            Err(e) => Err(e),
            Ok(ra) => Ok(SpecExpr::Minus(Box::new(ra))),
        },
    }
}



/// Whether every name in `ast` is defined in `syms`: variables as variables, and each
/// function among the functions of its number of arguments.
pub open spec fn all_defined(ast: SpecAst, syms: SpecSymbols) -> bool
    decreases ast,
{
    match ast {
        SpecAst::Number(_) => true,
        SpecAst::Variable(name) => syms.vars.contains(name),
        SpecAst::Func0Call(name) => syms.funcs0.contains(name),
        SpecAst::Func1Call(name, a) => syms.funcs1.contains(name) && all_defined(*a, syms),
        SpecAst::Func2Call(name, a, b) => syms.funcs2.contains(name) && all_defined(*a, syms) && all_defined(*b, syms),
        SpecAst::Add(a, b) => all_defined(*a, syms) && all_defined(*b, syms),
        SpecAst::Sub(a, b) => all_defined(*a, syms) && all_defined(*b, syms),
        SpecAst::Mul(a, b) => all_defined(*a, syms) && all_defined(*b, syms),
        SpecAst::Div(a, b) => all_defined(*a, syms) && all_defined(*b, syms),
        SpecAst::Pow(a, b) => all_defined(*a, syms) && all_defined(*b, syms),
        SpecAst::Minus(a) => all_defined(*a, syms),
    }
}

/// The expression `e` with each index replaced by the name it has in `syms`.
pub open spec fn names_of(e: SpecExpr, syms: SpecSymbols) -> SpecAst
    decreases e,
{
    match e {
        SpecExpr::Number(n) => SpecAst::Number(n),
        SpecExpr::Variable(i) => SpecAst::Variable(syms.vars[i as int]),
        SpecExpr::Func0Call(i) => SpecAst::Func0Call(syms.funcs0[i as int]),
        SpecExpr::Func1Call(i, a) => SpecAst::Func1Call(syms.funcs1[i as int], Box::new(names_of(*a, syms))),
        SpecExpr::Func2Call(i, a, b) => SpecAst::Func2Call(
            syms.funcs2[i as int],
            Box::new(names_of(*a, syms)),
            Box::new(names_of(*b, syms)),
        ),
        SpecExpr::Add(a, b) => SpecAst::Add(Box::new(names_of(*a, syms)), Box::new(names_of(*b, syms))),
        SpecExpr::Sub(a, b) => SpecAst::Sub(Box::new(names_of(*a, syms)), Box::new(names_of(*b, syms))),
        SpecExpr::Mul(a, b) => SpecAst::Mul(Box::new(names_of(*a, syms)), Box::new(names_of(*b, syms))),
        SpecExpr::Div(a, b) => SpecAst::Div(Box::new(names_of(*a, syms)), Box::new(names_of(*b, syms))),
        SpecExpr::Pow(a, b) => SpecAst::Pow(Box::new(names_of(*a, syms)), Box::new(names_of(*b, syms))),
        SpecExpr::Minus(a) => SpecAst::Minus(Box::new(names_of(*a, syms))),
    }
}

proof fn lemma_position_found(names: Seq<Seq<char>>, name: Seq<char>)
    ensures
        position_of(names, name) is Some <==> names.contains(name),
        position_of(names, name) matches Some(i) ==> i < names.len() && names[i as int] == name,
{
}

/// Resolving the names of an expression succeeds exactly when all of its names are
/// defined.
pub proof fn law_resolve_succeeds_iff_defined(ast: SpecAst, syms: SpecSymbols)
    ensures
        resolve_names(ast, syms) is Ok <==> all_defined(ast, syms),
    decreases ast,
{
    match ast {
        SpecAst::Number(_) => {},
        SpecAst::Variable(name) => lemma_position_found(syms.vars, name),
        SpecAst::Func0Call(name) => lemma_position_found(syms.funcs0, name),
        SpecAst::Func1Call(name, a) => {
            lemma_position_found(syms.funcs1, name);
            law_resolve_succeeds_iff_defined(*a, syms);
        },
        SpecAst::Func2Call(name, a, b) => {
            lemma_position_found(syms.funcs2, name);
            law_resolve_succeeds_iff_defined(*a, syms);
            law_resolve_succeeds_iff_defined(*b, syms);
        },
        SpecAst::Add(a, b) => {
            law_resolve_succeeds_iff_defined(*a, syms);
            law_resolve_succeeds_iff_defined(*b, syms);
        },
        SpecAst::Sub(a, b) => {
            law_resolve_succeeds_iff_defined(*a, syms);
            law_resolve_succeeds_iff_defined(*b, syms);
        },
        SpecAst::Mul(a, b) => {
            law_resolve_succeeds_iff_defined(*a, syms);
            law_resolve_succeeds_iff_defined(*b, syms);
        },
        SpecAst::Div(a, b) => {
            law_resolve_succeeds_iff_defined(*a, syms);
            law_resolve_succeeds_iff_defined(*b, syms);
        },
        SpecAst::Pow(a, b) => {
            law_resolve_succeeds_iff_defined(*a, syms);
            law_resolve_succeeds_iff_defined(*b, syms);
        },
        SpecAst::Minus(a) => law_resolve_succeeds_iff_defined(*a, syms),
    }
}

/// The name lists are short enough to be indexed by machine integers, as those of an
/// environment are.
pub open spec fn symbols_fit(syms: SpecSymbols) -> bool {
    &&& syms.vars.len() <= usize::MAX
    &&& syms.funcs0.len() <= usize::MAX
    &&& syms.funcs1.len() <= usize::MAX
    &&& syms.funcs2.len() <= usize::MAX
}

/// Resolving loses nothing: putting the names back in place of the indices gives
/// the expression as written.
pub proof fn law_resolve_keeps_names(ast: SpecAst, syms: SpecSymbols)
    requires
        symbols_fit(syms),
    ensures
        resolve_names(ast, syms) matches Ok(e) ==> names_of(e, syms) == ast,
    decreases ast,
{
    match ast {
        SpecAst::Number(_) => {},
        SpecAst::Variable(name) => lemma_position_found(syms.vars, name),
        SpecAst::Func0Call(name) => lemma_position_found(syms.funcs0, name),
        SpecAst::Func1Call(name, a) => {
            lemma_position_found(syms.funcs1, name);
            law_resolve_keeps_names(*a, syms);
        },
        SpecAst::Func2Call(name, a, b) => {
            lemma_position_found(syms.funcs2, name);
            law_resolve_keeps_names(*a, syms);
            law_resolve_keeps_names(*b, syms);
        },
        SpecAst::Add(a, b) => {
            law_resolve_keeps_names(*a, syms);
            law_resolve_keeps_names(*b, syms);
        },
        SpecAst::Sub(a, b) => {
            law_resolve_keeps_names(*a, syms);
            law_resolve_keeps_names(*b, syms);
        },
        SpecAst::Mul(a, b) => {
            law_resolve_keeps_names(*a, syms);
            law_resolve_keeps_names(*b, syms);
        },
        SpecAst::Div(a, b) => {
            law_resolve_keeps_names(*a, syms);
            law_resolve_keeps_names(*b, syms);
        },
        SpecAst::Pow(a, b) => {
            law_resolve_keeps_names(*a, syms);
            law_resolve_keeps_names(*b, syms);
        },
        SpecAst::Minus(a) => law_resolve_keeps_names(*a, syms),
    }
}

/// The index of variable `sym` in `names`, or the error for an unknown variable.
pub fn get_var(sym: &String, names: &Vec<String>) -> (res: Result<usize, ParseError>)
    requires
        distinct(texts(names@)),
    ensures
        match position_of(texts(names@), sym@) {
            Some(i) => res == Ok::<usize, ParseError>(i as usize),
            None => res matches Err(e) && e@ == SpecParseError::UnknownVariable(sym@),
        },
{
    match find_name(names, sym.as_str()) {
        Some(i) => Ok(i),
        None => Err(ParseError::UnknownVariable(sym.clone())),
    }
}

/// The index of function `sym` in `names`, or the error for an unknown function.
pub fn get_func(sym: &String, names: &Vec<String>) -> (res: Result<usize, ParseError>)
    requires
        distinct(texts(names@)),
    ensures
        match position_of(texts(names@), sym@) {
            Some(i) => res == Ok::<usize, ParseError>(i as usize),
            None => res matches Err(e) && e@ == SpecParseError::UnknownFunction(sym@),
        },
{
    match find_name(names, sym.as_str()) {
        Some(i) => Ok(i),
        None => Err(ParseError::UnknownFunction(sym.clone())),
    }
}

/// Resolves the names of `ast` to their indices in `symbols`.
pub fn analyze(ast: &ExprAst, symbols: &EnvSymbols) -> (res: Result<Expr, ParseError>)
    ensures
        match resolve_names(ast@, symbols@) {
            Ok(e) => res matches Ok(r) && r@ == e,
            Err(e) => res matches Err(r) && r@ == e,
        },
    decreases ast,
{
    proof { use_type_invariant(symbols); }
    match ast {
        ExprAst::Number(n) => Ok(Expr::Number(n.clone())),
        ExprAst::Variable(sym) => {
            let var = get_var(sym, &symbols.vars)?;
            Ok(Expr::Variable(var))
        },
        ExprAst::Func0Call(sym) => {
            let func = get_func(sym, &symbols.funcs0)?;
            Ok(Expr::Func0Call(func))
        },
        ExprAst::Func1Call(sym, arg) => {
            let func = get_func(sym, &symbols.funcs1)?;
            let arg = analyze(arg, symbols)?;
            Ok(Expr::Func1Call(func, Box::new(arg)))
        },
        ExprAst::Func2Call(sym, a0, a1) => {
            let func = get_func(sym, &symbols.funcs2)?;
            let arg0 = analyze(a0, symbols)?;
            let arg1 = analyze(a1, symbols)?;
            Ok(Expr::Func2Call(func, Box::new(arg0), Box::new(arg1)))
        },
        ExprAst::Add(a0, a1) => {
            let arg0 = analyze(a0, symbols)?;
            let arg1 = analyze(a1, symbols)?;
            Ok(Expr::Add(Box::new(arg0), Box::new(arg1)))
        },
        ExprAst::Sub(a0, a1) => {
            let arg0 = analyze(a0, symbols)?;
            let arg1 = analyze(a1, symbols)?;
            Ok(Expr::Sub(Box::new(arg0), Box::new(arg1)))
        },
        ExprAst::Mul(a0, a1) => {
            let arg0 = analyze(a0, symbols)?;
            let arg1 = analyze(a1, symbols)?;
            Ok(Expr::Mul(Box::new(arg0), Box::new(arg1)))
        },
        ExprAst::Div(a0, a1) => {
            let arg0 = analyze(a0, symbols)?;
            let arg1 = analyze(a1, symbols)?;
            Ok(Expr::Div(Box::new(arg0), Box::new(arg1)))
        },
        ExprAst::Pow(a0, a1) => {
            let arg0 = analyze(a0, symbols)?;
            let arg1 = analyze(a1, symbols)?;
            Ok(Expr::Pow(Box::new(arg0), Box::new(arg1)))
        },
        ExprAst::Minus(arg) => {
            let arg = analyze(arg, symbols)?;
            Ok(Expr::Minus(Box::new(arg)))
        },
    }
}

}
