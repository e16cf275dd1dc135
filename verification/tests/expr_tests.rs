use gruff_plot::expr::analyzer::{analyze, get_func, get_var};
use gruff_plot::expr::parser::{get_operator, is_operator, parse_str, ExprAst, Parser};
use gruff_plot::expr::tokenizer::{ParseError, Token, TokenKind, TokenPosition, Tokenizer};
use gruff_plot::expr::{EnvSymbols, Environment, Expr};

fn ast(input: &str) -> String {
    format!("{:?}", parse_str(input).unwrap())
}

fn punct(c: char) -> Token {
    Token { kind: TokenKind::Punct(c), pos: TokenPosition { offset: 0 } }
}

fn math_env() -> Environment<f64, u8, u8, u8> {
    let mut env: Environment<f64, u8, u8, u8> = Environment::new().with_var("x", 0.0);
    env.add_func1("sin", 1);
    env.add_func2("max", 2);
    env.add_func0("rand", 0);
    env
}

#[test]
fn product_binds_tighter_than_sum() {
    assert_eq!(ast("1+2*3"), r#"Add(Number("1"), Mul(Number("2"), Number("3")))"#);
}

#[test]
fn subtraction_associates_left() {
    assert_eq!(ast("1-2-3"), r#"Sub(Sub(Number("1"), Number("2")), Number("3"))"#);
}

#[test]
fn power_associates_right() {
    assert_eq!(ast("2^3^4"), r#"Pow(Number("2"), Pow(Number("3"), Number("4")))"#);
}

#[test]
fn unary_minus_binds_looser_than_power() {
    assert_eq!(ast("-a^b"), r#"Minus(Pow(Variable("a"), Variable("b")))"#);
}

#[test]
fn parentheses_group() {
    assert_eq!(ast("(1+2)*3"), r#"Mul(Add(Number("1"), Number("2")), Number("3"))"#);
}

#[test]
fn function_calls_by_arity() {
    assert_eq!(ast("rand()"), r#"Func0Call("rand")"#);
    assert_eq!(ast("sin(x)"), r#"Func1Call("sin", Variable("x"))"#);
    assert_eq!(ast("max(x, 2*x)"), r#"Func2Call("max", Variable("x"), Mul(Number("2"), Variable("x")))"#);
}

#[test]
fn numbers_keep_their_text() {
    assert_eq!(ast("3.25"), r#"Number("3.25")"#);
    assert_eq!(ast(" 0.5 * x "), r#"Mul(Number("0.5"), Variable("x"))"#);
}

#[test]
fn malformed_number_is_refused() {
    assert!(matches!(parse_str("1.2.3"), Err(ParseError::InvalidNumber(_))));
}

#[test]
fn missing_operand_is_refused() {
    assert!(parse_str("1+").is_err());
    assert!(parse_str("*2").is_err());
}

#[test]
fn two_operands_in_a_row_are_refused() {
    assert!(matches!(parse_str("1 2"), Err(ParseError::ExpectedOperator(_))));
}

#[test]
fn unclosed_parenthesis_is_refused() {
    assert!(parse_str("(1+2").is_err());
}

#[test]
fn too_many_arguments_are_refused() {
    assert!(matches!(parse_str("f(1,2,3)"), Err(ParseError::TooManyArguments)));
}

#[test]
fn empty_input_is_refused() {
    assert!(parse_str("").is_err());
}

#[test]
fn parser_reads_and_unreads_tokens() {
    let mut p = Parser::new("a+1");
    let t = p.read().unwrap();
    assert!(t.is_ident());
    p.unread(t);
    let again = p.read().unwrap();
    assert!(again.is_ident());
    assert_eq!(again.into_text(), "a");
    assert!(p.read().unwrap().is_punct('+'));
    assert!(p.read().unwrap().is_number());
    assert!(p.read().unwrap().is_eof());
}

#[test]
fn parser_parse_whole_input() {
    let mut p = Parser::new("x*x");
    let e = p.parse().unwrap();
    assert_eq!(format!("{:?}", e), r#"Mul(Variable("x"), Variable("x"))"#);
}

#[test]
fn tokenizer_gives_positions() {
    let mut t = Tokenizer::new("ab + 12");
    let a = t.read().unwrap();
    assert_eq!(a.pos.offset, 0);
    assert!(a.is_ident());
    let plus = t.read().unwrap();
    assert_eq!(plus.get_punct(), Some('+'));
    assert_eq!(plus.pos.offset, 3);
    let n = t.read().unwrap();
    assert_eq!(n.pos.offset, 5);
    assert_eq!(n.into_text(), "12");
    assert!(t.read().unwrap().is_eof());
}

#[test]
fn operator_lookup() {
    assert!(is_operator(&punct('+')));
    assert!(is_operator(&punct('^')));
    assert!(!is_operator(&punct('(')));
    assert!(get_operator(1, &punct('-')).is_some());
    assert!(get_operator(1, &punct('+')).is_none());
    assert!(get_operator(2, &punct('*')).is_some());
}

#[test]
fn symbol_lookup() {
    let names = vec![String::from("x"), String::from("y")];
    assert_eq!(get_var(&String::from("y"), &names).unwrap(), 1);
    assert!(matches!(get_var(&String::from("z"), &names), Err(ParseError::UnknownVariable(n)) if n == "z"));
    assert_eq!(get_func(&String::from("x"), &names).unwrap(), 0);
    assert!(matches!(get_func(&String::from("g"), &names), Err(ParseError::UnknownFunction(n)) if n == "g"));
}

#[test]
fn analyze_resolves_names() {
    let mut symbols = EnvSymbols::new();
    assert!(symbols.add_var("x"));
    assert!(symbols.add_func1("sin"));
    let tree = parse_str("sin(x)+1").unwrap();
    let e = analyze(&tree, &symbols).unwrap();
    assert_eq!(format!("{:?}", e), r#"Add(Func1Call(0, Variable(0)), Number("1"))"#);
}

#[test]
fn analyze_reports_unknown_names() {
    let symbols = EnvSymbols::new();
    let tree = parse_str("y").unwrap();
    assert!(matches!(analyze(&tree, &symbols), Err(ParseError::UnknownVariable(n)) if n == "y"));
    let tree = parse_str("f(1)").unwrap();
    assert!(matches!(analyze(&tree, &symbols), Err(ParseError::UnknownFunction(n)) if n == "f"));
}

#[test]
fn expression_parse_in_environment() {
    let env = math_env();
    let e = Expr::parse("max(sin(x), rand())", &env).unwrap();
    assert_eq!(format!("{:?}", e), "Func2Call(0, Func1Call(0, Variable(0)), Func0Call(0))");
    assert!(matches!(Expr::parse("cos(x)", &env), Err(ParseError::UnknownFunction(_))));
    assert!(matches!(Expr::parse("x+", &env), Err(_)));
}

#[test]
fn functions_are_looked_up_by_arity() {
    let env = math_env();
    assert!(matches!(Expr::parse("sin(1, 2)", &env), Err(ParseError::UnknownFunction(n)) if n == "sin"));
}

#[test]
fn environment_add_then_lookup() {
    let mut env: Environment<f64, u8, u8, u8> = Environment::new();
    assert!(env.add_var("a", 1.5));
    assert!(env.add_var("b", 2.5));
    assert!(!env.add_var("a", 3.5));
    assert_eq!(env.get_var_index("a"), Some(0));
    assert_eq!(env.get_var_index("b"), Some(1));
    assert_eq!(env.get_var_index("c"), None);
    assert_eq!(env.var_value(0), Some(&3.5));
    assert_eq!(env.var_value(1), Some(&2.5));
    assert_eq!(env.var_value(2), None);
}

#[test]
fn environment_set_only_existing() {
    let mut env: Environment<f64, u8, u8, u8> = Environment::new().with_var("x", 1.0);
    assert!(env.set_var("x", 4.0));
    assert!(!env.set_var("y", 5.0));
    assert_eq!(env.get_var_index("y"), None);
    assert_eq!(env.var_value(0), Some(&4.0));
    assert!(env.add_func1("f", 7));
    assert!(env.set_func1("f", 9));
    assert!(!env.set_func0("f", 9));
    assert_eq!(env.func1_value(env.get_func1_index("f").unwrap()), Some(&9));
    assert_eq!(env.get_func0_index("f"), None);
    assert!(env.add_func0("g", 3));
    assert!(env.set_func0("g", 4));
    assert_eq!(env.func0_value(0), Some(&4));
    assert!(env.add_func2("h", 5));
    assert!(env.set_func2("h", 6));
    assert!(!env.set_func2("g", 6));
    assert_eq!(env.func2_value(env.get_func2_index("h").unwrap()), Some(&6));
}

#[test]
fn new_symbols_are_empty() {
    let mut s = EnvSymbols::new();
    assert!(s.add_var("a") && s.add_func0("a") && s.add_func1("a") && s.add_func2("a"));
}

#[test]
fn symbols_keep_each_name_once() {
    let mut s = EnvSymbols::new();
    assert!(s.add_var("x"));
    assert!(!s.add_var("x"));
    assert!(s.add_func1("f"));
    assert!(!s.add_func1("f"));
    assert!(s.add_func2("f"));
    let tree = parse_str("x + f(x, x)").unwrap();
    let e = analyze(&tree, &s).unwrap();
    assert_eq!(format!("{:?}", e), "Add(Variable(0), Func2Call(0, Variable(0), Variable(0)))");
}

#[test]
fn ast_nodes_are_built() {
    let a = ExprAst::Minus(Box::new(ExprAst::Number(String::from("1"))));
    assert_eq!(format!("{:?}", a), r#"Minus(Number("1"))"#);
}

#[test]
fn unread_token_is_read_next() {
    let mut p = Parser::new("a+1");
    let a = p.read().unwrap();
    assert!(a.is_ident());
    p.unread(Token { kind: TokenKind::Number(String::from("7")), pos: TokenPosition { offset: 9 } });
    let seven = p.read().unwrap();
    assert_eq!(seven.pos.offset, 9);
    assert_eq!(seven.into_text(), "7");
    assert!(p.read().unwrap().is_punct('+'));
}

#[test]
fn tokens_put_back_come_out_last_first() {
    let mut p = Parser::new("x");
    let x = p.read().unwrap();
    let eof = p.read().unwrap();
    assert!(eof.is_eof());
    p.unread(eof);
    p.unread(x);
    assert!(p.read().unwrap().is_ident());
    assert!(p.read().unwrap().is_eof());
}

#[test]
fn reads_past_the_end_keep_giving_the_end() {
    let mut p = Parser::new("x");
    assert!(p.read().unwrap().is_ident());
    assert!(p.read().unwrap().is_eof());
    assert!(p.read().unwrap().is_eof());
    assert!(p.read().unwrap().is_eof());
}

#[test]
fn reads_past_a_bad_number_keep_giving_the_error() {
    let mut p = Parser::new("x 1.2.3");
    assert!(p.read().unwrap().is_ident());
    assert!(matches!(p.read(), Err(ParseError::InvalidNumber(_))));
    assert!(matches!(p.read(), Err(ParseError::InvalidNumber(_))));
}

#[test]
fn grouping_by_precedence() {
    assert_eq!(ast("a*b+c"), r#"Add(Mul(Variable("a"), Variable("b")), Variable("c"))"#);
    assert_eq!(ast("a/b/c"), r#"Div(Div(Variable("a"), Variable("b")), Variable("c"))"#);
    assert_eq!(ast("a^b*c"), r#"Mul(Pow(Variable("a"), Variable("b")), Variable("c"))"#);
    assert_eq!(ast("-a*b"), r#"Mul(Minus(Variable("a")), Variable("b"))"#);
    assert_eq!(ast("-a+b"), r#"Add(Minus(Variable("a")), Variable("b"))"#);
}

fn message_of(input: &str) -> String {
    parse_str(input).unwrap_err().message()
}

#[test]
fn error_messages() {
    assert_eq!(message_of("f(1,2,3)"), "too many function arguments");
    assert_eq!(message_of("1 2"), "expected '(' or operator, got 2'");
    assert_eq!(message_of("1 x"), "expected '(' or operator, found 'x'");
    assert_eq!(message_of("(1+2"), "unexpected end of expression");
    assert_eq!(message_of("1.2.3"), "invalid number at position 0");
    assert_eq!(message_of("x + 1.2.3"), "invalid number at position 4");
    assert_eq!(message_of("1+"), "syntax error");
    assert_eq!(message_of(""), "unexpected 'end of input'");
    assert_eq!(message_of("*2"), "unexpected '*'");
    let env = math_env();
    assert_eq!(Expr::parse("cos(x)", &env).unwrap_err().message(), "unknown function: 'cos'");
    assert_eq!(Expr::parse("y", &env).unwrap_err().message(), "unknown variable: 'y'");
    assert_eq!(ParseError::SyntaxError.message(), "syntax error");
    assert_eq!(ParseError::StackNotEmpty.message(), "syntax error (stack not empty)");
    assert_eq!(ParseError::NoFunctionOnStack.message(), "syntax error (no function on stack)");
    assert_eq!(ParseError::FunctionNotIdentifier.message(), "function must be an identifier");
    assert_eq!(
        ParseError::ExpectedCommaOrParen(Token { kind: TokenKind::Punct(';'), pos: TokenPosition { offset: 3 } }).message(),
        "expected ',' or ')', found ';'"
    );
}

#[test]
fn decimal_positions_in_messages() {
    assert_eq!(ParseError::InvalidNumber(TokenPosition { offset: 1207 }).message(), "invalid number at position 1207");
}
