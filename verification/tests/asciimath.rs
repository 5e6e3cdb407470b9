use asciimath::BuiltinFunction;
use asciimath::Computation;
use asciimath::Error;
use asciimath::Evaluate;
use asciimath::Node;
use asciimath::NumericLiteral;
use asciimath::Operator;
use asciimath::Scope;
use asciimath::Token;
use asciimath::Variable;
use asciimath::eval_operator;
use asciimath::parse;
use asciimath::resolve_fn;
use asciimath::tokenize;
use asciimath::ResolvedFunction;

fn num(s: &str) -> NumericLiteral {
    NumericLiteral::new(s.to_string()).unwrap()
}

/// Carries out the resolved arithmetic in `f64`, the one step the library
/// leaves to its caller.
fn run(c: &Computation) -> Result<f64, Error> {
    match c {
        Computation::Literal(lit) => Ok(lit.as_text().parse::<f64>().unwrap()),
        Computation::Operation(op, args) => {
            let mut vals: Vec<f64> = Vec::new();
            for a in args {
                vals.push(run(a)?);
            }
            match op {
                Operator::Add => Ok(vals.iter().sum()),
                Operator::Subtract => {
                    Ok(vals[0] - vals.iter().skip(1).sum::<f64>())
                }
                Operator::Multiply => Ok(vals.iter().product()),
                Operator::Divide => {
                    Ok(vals[0] / vals.iter().skip(1).product::<f64>())
                }
                Operator::Exponentiate => {
                    Ok(vals.iter().skip(1).fold(vals[0], |acc, v| acc.powf(*v)))
                }
                _ => unreachable!(),
            }
        }
        Computation::Call(b, args) => {
            let mut vals: Vec<f64> = Vec::new();
            for a in args {
                vals.push(run(a)?);
            }
            match b {
                BuiltinFunction::Min => Ok(vals.iter().fold(f64::NAN, |acc, x| acc.min(*x))),
                BuiltinFunction::Max => Ok(vals.iter().fold(f64::NAN, |acc, x| acc.max(*x))),
                BuiltinFunction::Abs => Ok(vals[0].abs()),
                BuiltinFunction::Sqrt => Ok(vals[0].sqrt()),
                BuiltinFunction::Cbrt => Ok(vals[0].cbrt()),
                BuiltinFunction::Sin => Ok(vals[0].to_radians().sin()),
                BuiltinFunction::Cos => Ok(vals[0].to_radians().cos()),
                BuiltinFunction::Tan => Ok(vals[0].to_radians().tan()),
            }
        }
        Computation::ScopedCall(name, _) => Err(Error::UnknownFunction(name.clone())),
    }
}

fn eval_expr(expr: &str) -> Result<f64, Error> {
    run(&parse(expr).unwrap().eval()?)
}

fn eval_expr_with(expr: &str, scope: &Scope) -> Result<f64, Error> {
    run(&parse(expr).unwrap().eval_with(scope)?)
}

#[test]
fn single_item() {
    assert_eq!(Ok(2.0), eval_expr("2"));
}

#[test]
fn order_of_operations() {
    assert_eq!(
        "3.000122",
        format!(
            "{:.6}",
            eval_expr("3 + 4 * 2 / ( 1 - 5 ) ^ 2 ^ 3").unwrap()
        )
    );
}

#[test]
fn simple_vars() {
    let mut scope = Scope::new();
    scope.set_var("x", Variable::Number(num("16")));
    assert_eq!(Ok(240.0), eval_expr_with("x^2-16", &scope));
}

#[test]
fn too_many_brackets() {
    let mut scope = Scope::new();
    scope.set_var("x", Variable::Number(num("16")));
    assert_eq!(Ok(240.0), eval_expr_with("((((((x^2))-((16))))))", &scope));
}

#[test]
fn func_max() {
    assert_eq!(Ok(2.0), eval_expr("max(1,2)"));
    assert_eq!(Ok(1.0), eval_expr("max(1)"));
    assert_eq!(Ok(25.75), eval_expr("max(1,2,3,25.75,10.5,25.7)"));
}

#[test]
fn func_min() {
    assert_eq!(Ok(1.0), eval_expr("min(1,2)"));
    assert_eq!(Ok(1.0), eval_expr("min(1)"));
    assert_eq!(Ok(1.0), eval_expr("min(1,2,3,25.75,10.5,25.7)"));
}

#[test]
fn func_trig() {
    assert_eq!(Ok(1.0), eval_expr("sin(90)"));
    assert_eq!(Ok(0.5), eval_expr("cos(0)/2"));
    assert_eq!("0.5", format!("{:.1}", eval_expr("tan(45) / 2").unwrap()));
}

#[test]
#[should_panic]
fn func_not_enough_args() {
    assert_eq!(Ok(1.0), eval_expr("max()"));
}

#[test]
fn zero_arg_call_is_an_error_not_a_crash() {
    let root = parse("max()").unwrap();
    assert_eq!(
        Err(Error::NotEnoughFunctionParams("max".to_string())),
        root.eval()
    );
}

#[test]
fn lexer_splits_implicit_tokens() {
    let tokens = tokenize("2x");
    assert_eq!(
        vec![
            Token::Number(num("2")),
            Token::Variable("x".to_string()),
        ],
        tokens
    );
    let tokens = tokenize("x16");
    assert_eq!(
        vec![
            Token::Variable("x".to_string()),
            Token::Number(num("16")),
        ],
        tokens
    );
}

#[test]
fn lexer_keeps_decimals_whole() {
    let tokens = tokenize("25.75");
    assert_eq!(vec![Token::Number(num("25.75"))], tokens);
}

#[test]
fn lexer_consumes_function_parenthesis() {
    let tokens = tokenize("max(");
    assert_eq!(vec![Token::Function("max".to_string())], tokens);
}

#[test]
fn lexer_drops_unrecognized_characters() {
    assert_eq!(Ok(7.0), eval_expr("3 + @4"));
    assert_eq!(Ok(7.0), eval_expr("  3+4  "));
}

#[test]
fn lexer_empty_input() {
    assert!(tokenize("").is_empty());
    assert_eq!(
        Err(Error::MissingOperands(String::new())),
        parse("").map(|_| ())
    );
}

#[test]
fn implicit_multiplication() {
    let mut scope = Scope::new();
    scope.set_var("x", Variable::Number(num("3")));
    assert_eq!(Ok(18.0), eval_expr_with("2x^2", &scope));
    assert_eq!(Ok(48.0), eval_expr_with("x16", &scope));
}

#[test]
fn exponent_is_right_associative() {
    assert_eq!(Ok(512.0), eval_expr("2^3^2"));
    assert_eq!(Ok(64.0), eval_expr("(2^3)^2"));
}

#[test]
fn precedence_simple() {
    assert_eq!(Ok(11.0), eval_expr("3 + 4 * 2"));
    assert_eq!(Ok(-4.0), eval_expr("1-2-3"));
}

#[test]
fn unbalanced_parentheses() {
    assert_eq!(Err(Error::UnbalancedParentheses), parse("(1").map(|_| ()));
    assert_eq!(Err(Error::UnbalancedParentheses), parse("1)").map(|_| ()));
    assert_eq!(Err(Error::UnbalancedParentheses), parse("max(1").map(|_| ()));
    assert_eq!(Err(Error::UnbalancedParentheses), parse("1,2").map(|_| ()));
}

#[test]
fn missing_operands() {
    assert_eq!(
        Err(Error::MissingOperands(String::new())),
        parse("3+").map(|_| ())
    );
    assert_eq!(
        Err(Error::MissingOperands("*".to_string())),
        parse("3 + * 2").map(|_| ())
    );
}

#[test]
fn unknown_variable() {
    assert_eq!(
        Err(Error::UnknownVariable("x".to_string())),
        parse("x").unwrap().eval()
    );
    let mut scope = Scope::new();
    scope.set_var("f", Variable::Function);
    assert_eq!(
        Err(Error::UnknownVariable("f".to_string())),
        parse("f").unwrap().eval_with(&scope)
    );
}

#[test]
fn unknown_function() {
    assert_eq!(
        Err(Error::UnknownFunction("foo".to_string())),
        parse("foo(1)").unwrap().eval()
    );
}

#[test]
fn scoped_function_resolves() {
    let mut scope = Scope::new();
    scope.set_var("g", Variable::Function);
    assert_eq!(Ok(ResolvedFunction::Scoped), resolve_fn("g", &scope));
    let computed = parse("g(2)").unwrap().eval_with(&scope).unwrap();
    assert_eq!(
        Computation::ScopedCall("g".to_string(), vec![Computation::Literal(num("2"))]),
        computed
    );
}

#[test]
fn builtin_table_resolves_every_name() {
    let scope = Scope::new();
    for (name, b) in [
        ("min", BuiltinFunction::Min),
        ("max", BuiltinFunction::Max),
        ("abs", BuiltinFunction::Abs),
        ("sqrt", BuiltinFunction::Sqrt),
        ("cbrt", BuiltinFunction::Cbrt),
        ("sin", BuiltinFunction::Sin),
        ("cos", BuiltinFunction::Cos),
        ("tan", BuiltinFunction::Tan),
    ] {
        assert_eq!(Ok(ResolvedFunction::Builtin(b)), resolve_fn(name, &scope));
    }
    assert_eq!(
        Err(Error::UnknownFunction("log".to_string())),
        resolve_fn("log", &scope)
    );
}

#[test]
fn builtin_results() {
    assert_eq!(Ok(1.0), eval_expr("abs(0-1)"));
    assert_eq!(Ok(4.0), eval_expr("sqrt(16)"));
    assert_eq!(Ok(3.0), eval_expr("cbrt(27)"));
    assert_eq!(Ok(7.0), eval_expr("max(1+2, 3*2, 7)"));
}

#[test]
fn cannot_evaluate_structural_token() {
    let node = Node { token: Token::Comma, args: None };
    assert_eq!(
        Err(Error::CannotEvaluateToken(",".to_string())),
        node.eval()
    );
}

#[test]
fn cannot_evaluate_extended_operator() {
    let left = Node { token: Token::Number(num("1")), args: None };
    let right = Node { token: Token::Number(num("2")), args: None };
    let node = Node {
        token: Token::Operator(Operator::ShiftLeft),
        args: Some(vec![left, right]),
    };
    assert_eq!(
        Err(Error::CannotEvaluateToken("<<".to_string())),
        node.eval()
    );
}

#[test]
fn eval_operator_edge_cases() {
    let scope = Scope::new();
    assert_eq!(
        Err(Error::MissingOperands("+".to_string())),
        eval_operator(&Operator::Add, &None, &scope)
    );
    assert_eq!(
        Err(Error::MissingOperands("-".to_string())),
        eval_operator(&Operator::Subtract, &Some(vec![]), &scope)
    );
    let empty_sum = eval_operator(&Operator::Add, &Some(vec![]), &scope).unwrap();
    assert_eq!(Ok(0.0), run(&empty_sum));
}

#[test]
fn operator_table() {
    assert_eq!(2, Operator::Add.get_precedence());
    assert_eq!(2, Operator::Subtract.get_precedence());
    assert_eq!(3, Operator::Multiply.get_precedence());
    assert_eq!(3, Operator::Divide.get_precedence());
    assert_eq!(4, Operator::Exponentiate.get_precedence());
    assert_eq!(5, Operator::ShiftLeft.get_precedence());
    assert_eq!(1, Operator::Not.num_operands());
    assert_eq!(2, Operator::Add.num_operands());
    assert!(Operator::Exponentiate.is_right_associative());
    assert!(!Operator::Add.is_right_associative());
}

#[test]
fn operator_compares_by_precedence() {
    assert_eq!(Operator::Add, Operator::Subtract);
    assert_eq!(Operator::Add, Operator::Not);
    assert!(Operator::Add < Operator::Multiply);
    assert!(Operator::Exponentiate > Operator::Divide);
    assert_eq!(
        Some(std::cmp::Ordering::Equal),
        Operator::Multiply.partial_cmp(&Operator::Divide)
    );
}

#[test]
fn reparse_is_stable() {
    let a = parse("3 + 4 * 2 / (1 - 5)^2^3").unwrap();
    let b = parse("3 + 4 * 2 / (1 - 5)^2^3").unwrap();
    assert_eq!(a, b);
}

#[test]
fn evaluation_is_deterministic() {
    let mut scope = Scope::new();
    scope.set_var("x", Variable::Number(num("16")));
    let root = parse("x^2-16").unwrap();
    let first = root.eval_with(&scope);
    let second = root.eval_with(&scope);
    assert_eq!(first, second);
    assert_eq!(Ok(240.0), first.and_then(|c| run(&c)));
}

#[test]
fn scope_bindings_shadow() {
    let mut scope = Scope::new();
    assert_eq!(None, scope.get_var("x"));
    scope.set_var("x", Variable::Number(num("1")));
    scope.set_var("x", Variable::Number(num("2")));
    assert_eq!(
        Some(&Variable::Number(num("2"))),
        scope.get_var("x")
    );
    assert_eq!(Ok(2.0), eval_expr_with("x", &scope));
}

#[test]
fn numeric_literal_shapes() {
    assert!(NumericLiteral::new("16".to_string()).is_some());
    assert!(NumericLiteral::new("25.75".to_string()).is_some());
    assert!(NumericLiteral::new("25.".to_string()).is_some());
    assert!(NumericLiteral::new("".to_string()).is_none());
    assert!(NumericLiteral::new("1.2.3".to_string()).is_none());
    assert!(NumericLiteral::new(".5".to_string()).is_none());
    assert!(NumericLiteral::new("x1".to_string()).is_none());
}

#[test]
fn token_text_roundtrip() {
    assert_eq!("+", Token::Operator(Operator::Add).text());
    assert_eq!("<<", Token::Operator(Operator::ShiftLeft).text());
    assert_eq!("25.75", Token::Number(num("25.75")).text());
    assert_eq!("x", Token::Variable("x".to_string()).text());
    assert_eq!(",", Token::Comma.text());
}

#[test]
fn error_descriptions() {
    assert_eq!("unbalanced parentheses", Error::UnbalancedParentheses.describe());
    assert_eq!(
        "unknown variable",
        Error::UnknownVariable("x".to_string()).describe()
    );
}
