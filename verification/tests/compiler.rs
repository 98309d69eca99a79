use bpptng_grapher::expr::{compile, BinOp, CompileError, CompiledExpr, ConstName, Expr, Func};
use bpptng_grapher::grapher::example_text;

fn const_value(c: &ConstName) -> f64 {
    match c {
        ConstName::Euler => std::f64::consts::E,
        ConstName::Pi => std::f64::consts::PI,
        ConstName::Tau => std::f64::consts::TAU,
    }
}

fn eval(e: &Expr, x: f64) -> Option<f64> {
    match e {
        Expr::Num(s) => s.parse::<f64>().ok(),
        Expr::Var(_) => Some(x),
        Expr::Const(c) => Some(const_value(c)),
        Expr::Neg(b) => Some(-(eval(b, x)?)),
        Expr::Apply(f, b) => {
            let v = eval(b, x)?;
            Some(match f {
                Func::Abs => v.abs(),
                Func::Signum => v.signum(),
                Func::Sin => v.sin(),
                Func::Cos => v.cos(),
                Func::Tan => v.tan(),
                Func::Asin => v.asin(),
                Func::Acos => v.acos(),
                Func::Atan => v.atan(),
                Func::Sinh => v.sinh(),
                Func::Cosh => v.cosh(),
                Func::Tanh => v.tanh(),
                Func::Floor => v.floor(),
                Func::Ceil => v.ceil(),
                Func::Trunc => v.trunc(),
                Func::Fract => v.fract(),
                Func::Exp => v.exp(),
                Func::Sqrt => v.sqrt(),
                Func::Cbrt => v.cbrt(),
                Func::Ln => v.ln(),
                Func::Log => v.ln(),
                Func::Log2 => v.log2(),
                Func::Log10 => v.log10(),
                Func::Round => v.round(),
            })
        }
        Expr::Bin(op, l, r) => {
            let a = eval(l, x)?;
            let b = eval(r, x)?;
            Some(match op {
                BinOp::Add => a + b,
                BinOp::Sub => a - b,
                BinOp::Mul => a * b,
                BinOp::Div => a / b,
                BinOp::Pow => a.powf(b),
            })
        }
    }
}

fn eval_text(text: &str, x: f64) -> f64 {
    let c = compile(text).unwrap();
    eval(c.ast(), x).unwrap()
}

fn compile_err(text: &str) -> CompileError {
    match compile(text) {
        Ok(_) => panic!("expected a compile error for {:?}", text),
        Err(e) => e,
    }
}

#[test]
fn valid_example_expressions() {
    for i in 0..20 {
        let text = example_text(i);
        let c = compile(text).unwrap();
        assert!(eval(c.ast(), 1.0).is_some());
    }
}

#[test]
fn precedence_and_grouping() {
    assert_eq!(eval_text("2+3*4", 0.0), 14.0);
    assert_eq!(eval_text("2*3+4", 0.0), 10.0);
    assert_eq!(eval_text("(2+3)*4", 0.0), 20.0);
    assert_eq!(eval_text("2^3^2", 0.0), 512.0);
    assert_eq!(eval_text("10-4-3", 0.0), 3.0);
    assert_eq!(eval_text("8/4/2", 0.0), 1.0);
    assert_eq!(eval_text("0 - 3^2", 0.0), -9.0);
    assert_eq!(eval_text(" 1 + 2 ", 0.0), 3.0);
    assert_eq!(eval_text("--4", 0.0), 4.0);
}

#[test]
fn numbers_parse_as_written() {
    assert_eq!(eval_text("2.5", 0.0), 2.5);
    assert_eq!(eval_text(".5", 0.0), 0.5);
    assert_eq!(eval_text("42", 0.0), 42.0);
    assert_eq!(eval_text("007", 0.0), 7.0);
}

#[test]
fn constants_by_name() {
    assert!((eval_text("e", 0.0) - std::f64::consts::E).abs() < 1e-12);
    assert!((eval_text("PI", 0.0) - std::f64::consts::PI).abs() < 1e-12);
    assert!((eval_text("\u{03c0}", 0.0) - std::f64::consts::PI).abs() < 1e-12);
    assert!((eval_text("TAU", 0.0) - std::f64::consts::TAU).abs() < 1e-12);
    assert!((eval_text("\u{03c4}", 0.0) - std::f64::consts::TAU).abs() < 1e-12);
}

#[test]
fn functions_apply() {
    assert_eq!(eval_text("abs(0-3)", 0.0), 3.0);
    assert_eq!(eval_text("sqrt(16)", 0.0), 4.0);
    assert_eq!(eval_text("floor(2.7) + ceil(2.2)", 0.0), 5.0);
    assert!((eval_text("sin(0)", 0.0)).abs() < 1e-12);
    assert!((eval_text("exp(ln(5))", 0.0) - 5.0).abs() < 1e-12);
    assert_eq!(eval_text("log2(8)", 0.0), 3.0);
}

#[test]
fn variables_in_first_occurrence_order() {
    let c = compile("y + x*y").unwrap();
    let vars = c.variables();
    assert_eq!(vars.len(), 2);
    assert_eq!(vars[0], "y");
    assert_eq!(vars[1], "x");
    assert_eq!(c.var_count(), 2);

    let c = compile("x^2").unwrap();
    assert_eq!(c.variables().len(), 1);
    assert_eq!(c.variables()[0], "x");

    let c = compile("1 + 2").unwrap();
    assert_eq!(c.var_count(), 0);
}

#[test]
fn each_error_variant_has_an_input() {
    assert_eq!(compile_err("$"), CompileError::UnexpectedChar);
    assert_eq!(compile_err("1.2.3"), CompileError::MalformedNumber);
    assert_eq!(compile_err("foo(x)"), CompileError::UnknownFunction);
    assert_eq!(compile_err("1+"), CompileError::ExpectedOperand);
    assert_eq!(compile_err(""), CompileError::ExpectedOperand);
    assert_eq!(compile_err("sin(x"), CompileError::UnbalancedParen);
    assert_eq!(compile_err("1)"), CompileError::TrailingInput);
    assert_eq!(compile_err("1 2"), CompileError::TrailingInput);
}

#[test]
fn error_descriptions_are_displayable() {
    let errors = [
        CompileError::UnexpectedChar,
        CompileError::MalformedNumber,
        CompileError::UnknownFunction,
        CompileError::ExpectedOperand,
        CompileError::UnbalancedParen,
        CompileError::TrailingInput,
    ];
    for e in errors {
        assert!(!e.describe().is_empty());
    }
    assert_eq!(
        compile_err("sin(x").describe(),
        "missing closing parenthesis"
    );
}

#[test]
fn recompilation_is_deterministic() {
    let c1 = compile("sin(x) * x + e^x").unwrap();
    let c2 = compile("sin(x) * x + e^x").unwrap();
    for i in -50..50 {
        let x = i as f64 / 10.0;
        assert_eq!(eval(c1.ast(), x), eval(c2.ast(), x));
    }
}

#[test]
fn duplicate_evaluates_identically() {
    let c = compile("cos(x) + x^3").unwrap();
    let d = c.duplicate();
    for i in -20..20 {
        let x = i as f64 / 4.0;
        assert_eq!(eval(c.ast(), x), eval(d.ast(), x));
    }
    assert_eq!(c.var_count(), d.var_count());
}

#[test]
fn scenario_square_constant_and_broken() {
    let c = compile("x^2").unwrap();
    assert_eq!(c.var_count(), 1);
    assert_eq!(eval(c.ast(), 2.0).unwrap(), 4.0);

    let c = compile("e").unwrap();
    assert_eq!(c.var_count(), 0);
    let y = eval(c.ast(), 123.0).unwrap();
    assert!((y - 2.71828).abs() < 1e-5);

    let e = compile("sin(x").unwrap_err();
    assert!(!e.describe().is_empty());
}
