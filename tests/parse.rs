use jsvm::parse::{
    parse, whitespace, Expr, ForLoop, ForLoopCondition, Function, FunctionBody, Identifier, Object, Statement,
    StringTemplate, Variable,
};

fn only_whitespace_left(rest: &str) {
    let (left, _) = whitespace(rest).unwrap();
    assert_eq!("", left);
}

#[test]
fn empty_body() {
    assert_eq!("", parse("{}").unwrap().0)
}

#[test]
fn function() {
    let input = "
            function square(x) { return x*x }
        ";
    let result = parse(input);
    assert!(result.is_ok());
    let (rest, body) = result.unwrap();
    only_whitespace_left(rest);
    assert_eq!(body.functions.len(), 1);
    assert_eq!(body.functions[0].identifier, Identifier("square".to_string()));
}

#[test]
fn assignment() {
    let input = "
            let player = 7
        ";
    let result = parse(input);
    assert!(result.is_ok());
    let (rest, body) = result.unwrap();
    only_whitespace_left(rest);
    assert_eq!(body.scope.len(), 1);
    assert!(matches!(body.scope[0].assign.as_deref(), Some(Expr::Value(Object::Number(7)))));
}

#[test]
fn object() {
    let input = "
            let player = {
                name: \"Steve\",
                position: {
                    x: 0,
                    y: 0
                },
                health: 100
            }
        ";
    let result = parse(input);
    assert!(result.is_ok());
    let (rest, _) = result.unwrap();
    only_whitespace_left(rest);
}

#[test]
fn body() {
    let input = "
            function main() {
                window.setTimeout(onUpdate, 1000)
            }

            let iteration = 0

            let player = {
                name: \"Steve\",
                position: {
                    x: 0,
                    y: 0
                },
                health: 100
            }

            function onUpdate() {

                iteration += 1
            }
        ";
    let result = parse(input);
    assert!(result.is_ok());
    let (rest, body) = result.unwrap();
    only_whitespace_left(rest);
    assert_eq!(body.functions.len(), 2);
    assert_eq!(body.scope.len(), 2);
}

#[test]
fn ident_1() {
    let input = " a . b . c";
    let result = Expr::ident(input);
    assert!(result.is_ok());
    assert_eq!("", result.unwrap().0);
}

#[test]
fn expression_1() {
    assert!(Expr::parse("1").is_ok());
}

#[test]
fn expression_2() {
    assert!(Expr::parse("1 + 1 || 1 == 1 ^ 1 != 1/1 - 1").is_ok());
}

#[test]
fn elvis() {
    assert!(Expr::elvis("1==1? 1+1 : 1-1").is_ok());
}

#[test]
fn elvis_toplevel() {
    assert!(Expr::parse("1==1? 1+1 : 1-1").is_ok());
}

#[test]
fn sign_1() {
    assert!(Expr::preceding_sign("-1").is_ok());
}

#[test]
fn sign_2() {
    assert!(Expr::preceding_sign("!1").is_ok());
}

#[test]
fn sign_toplevel() {
    assert!(Expr::parse("-1").is_ok());
}

#[test]
fn nested_expressions() {
    assert!(Expr::parse("(1)").is_ok());
    assert!(Expr::parse("1*(1+1)").is_ok());
}

#[test]
fn exponent() {
    assert!(Expr::exponent("1**1**1").is_ok());
}

#[test]
fn ident() {
    let result = Expr::value("x");
    assert!(result.is_ok());
}

#[test]
fn ident_toplevel() {
    let result = Expr::parse("x");
    assert!(result.is_ok());
}

#[test]
fn ident_expr_toplevel() {
    let result = Expr::parse("x*x*x");
    assert!(result.is_ok());
}

#[test]
fn c_style_condition() {
    assert!(ForLoopCondition::parse_c_style("let x = 1; 1; 1").is_ok());
}

#[test]
fn for_loop_for_loop() {
    let cases = vec!["for (let i = 1; 1; 1) { return 1 }", "for (let i = 1; 1; 1) 1"];
    for case in cases {
        assert!(ForLoop::parse(case).is_ok());
    }
}

#[test]
fn fn_body_1() {
    let input = "";
    assert!(FunctionBody::parse(input).is_ok());
}

#[test]
fn instruction_test_return() {
    let tests = vec!["return", "   return  ", "return 1"];
    for test in tests {
        assert!(Statement::parse_return(test).is_ok());
    }
}

#[test]
fn instruction_test_break_and_continue() {
    assert!(Statement::parse_break("  break").is_ok());
    assert!(Statement::parse_continue("\n  continue ").is_ok());
}

#[test]
fn test_single_statement() {
    assert!(Statement::single_statement_body("return").is_ok());
    assert!(Statement::single_statement_body("  break").is_ok());
    assert!(Statement::single_statement_body(" { return } ").is_ok());
}

#[test]
fn instruction_test_while() {
    let input = "
            while (1) break
            ";
    assert!(Statement::parse_while(input).is_ok());
}

#[test]
fn instruction_test_if() {
    let inputs = vec!["if (1) { return }", "\nif  \t( 1 )    break", "if(1){ return }"];
    for input in inputs {
        assert!(Statement::parse_if_block(input).is_ok())
    }
}

#[test]
fn parse_map() {
    let input = "{
            name: \"Steve\",
            position: {
                x: 1,
                y: 1
            }
        }";
    let result = Object::parse_map(input);
    assert_eq!("", result.unwrap().0);
}

#[test]
fn parse_int() {
    assert!(Object::parse_number("123").is_ok());
}

#[test]
fn parse_int_2() {
    assert!(Object::parse_number("0o123").is_ok());
}

#[test]
fn parse_int_3() {
    assert!(Object::parse_number("0x123").is_ok());
}

#[test]
fn parse_int_4() {
    assert!(Object::parse_number("0b101").is_ok());
}

#[test]
fn parse_float() {
    assert!(Object::parse_number("3.14151").is_ok());
}

#[test]
fn parse_empty_string() {
    assert!(Object::parse_string("\"\"").is_ok());
}

#[test]
fn parse_string() {
    assert!(Object::parse_string("\"Hello World\"").is_ok());
}

#[test]
fn parse_closure() {
    assert!(Object::parse_closure("(a, b) => return").is_ok());
}

#[test]
fn parse_empty_closure() {
    assert!(Object::parse_closure("() => return").is_ok());
}

#[test]
fn empty() {
    let input = "let x";
    assert!(Variable::parse(input).is_ok());
}

#[test]
fn assign() {
    let input = "let xyz = 1 + 1 ";
    assert!(Variable::parse(input).is_ok());
}

#[test]
fn function_one() {
    let input = "
            function one(x, y, z) {
                return 1
            }
            ";
    let result = Function::parse(input);
    assert!(result.is_ok());
}

#[test]
fn function_square() {
    let input = "
            function square(x) {
                return x*x
            }";
    let result = Function::parse(input);
    assert!(result.is_ok());
}

#[test]
fn test_whitespace() {
    assert_eq!(Ok(("hello", "")), whitespace("hello"));
    assert_eq!(Ok(("hello", "\n ")), whitespace("\n hello"));
    assert_eq!(Ok(("", "    ")), whitespace("    "));
    assert_eq!(Ok(("", "")), whitespace(""));
}

#[test]
fn number_values() {
    let value = |s: &str| match Object::parse_number(s) {
        Ok((rest, Object::Number(n))) => Some((rest.to_string(), n)),
        _ => None,
    };
    assert_eq!(value("123"), Some(("".to_string(), 123)));
    assert_eq!(value("0o17"), Some(("".to_string(), 15)));
    assert_eq!(value("0x1f"), Some(("".to_string(), 31)));
    assert_eq!(value("0b101"), Some(("".to_string(), 5)));
    assert_eq!(value("3.5"), Some((".5".to_string(), 3)));
    assert_eq!(value("99999999999999999999"), None);
    assert_eq!(value("x"), None);
}

#[test]
fn identifiers() {
    assert_eq!(Identifier::parse("abc1"), Ok(("1", Identifier("abc".to_string()))));
    assert!(Identifier::parse("let").is_err());
    assert!(Identifier::parse(" a").is_err());
    assert_eq!(Identifier::parse_ws("  a b"), Ok((" b", Identifier("a".to_string()))));
    let (rest, t) = StringTemplate::parse(" \"hi there\" !").unwrap();
    assert_eq!(rest, " !");
    assert_eq!(t.start, "hi there");
}

#[test]
fn operators_and_precedence() {
    let (rest, e) = Expr::parse("a + b * c").unwrap();
    assert_eq!(rest, "");
    assert!(matches!(e, Expr::Add(_, ref r) if matches!(**r, Expr::Mul(_, _))));
    let (rest, e) = Expr::parse("i <= 3").unwrap();
    assert_eq!(rest, "");
    assert!(matches!(e, Expr::SmallerEq(_, _)));
    let (_, e) = Expr::parse("x == 1").unwrap();
    assert!(matches!(e, Expr::Equal(_, _)));
    let (_, e) = Expr::parse("x = 1").unwrap();
    assert!(matches!(e, Expr::Mutate { .. }));
    let (_, e) = Expr::parse("f(1, 2)[0]").unwrap();
    assert!(matches!(e, Expr::Identifier { action: Some(_), .. }));
}
