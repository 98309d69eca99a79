use bpptng_grapher::audio::{Math, Sink, SAMPLE_RATE};
use bpptng_grapher::entry::FunctionEntry;
use bpptng_grapher::expr::{compile, BinOp, CompiledExpr, ConstName, Expr, Func};
use bpptng_grapher::plot::sample_xs;

fn const_value(c: &ConstName) -> f64 {
    match c {
        ConstName::Euler => std::f64::consts::E,
        ConstName::Pi => std::f64::consts::PI,
        ConstName::Tau => std::f64::consts::TAU,
    }
}

fn eval(e: &Expr, x: f64) -> Option<f64> {
    match e {
        Expr::Num(s) => s.parse::<f64>().ok(),
        Expr::Var(_) => Some(x),
        Expr::Const(c) => Some(const_value(c)),
        Expr::Neg(b) => Some(-(eval(b, x)?)),
        Expr::Apply(f, b) => {
            let v = eval(b, x)?;
            Some(match f {
                Func::Abs => v.abs(),
                Func::Signum => v.signum(),
                Func::Sin => v.sin(),
                Func::Cos => v.cos(),
                Func::Tan => v.tan(),
                Func::Asin => v.asin(),
                Func::Acos => v.acos(),
                Func::Atan => v.atan(),
                Func::Sinh => v.sinh(),
                Func::Cosh => v.cosh(),
                Func::Tanh => v.tanh(),
                Func::Floor => v.floor(),
                Func::Ceil => v.ceil(),
                Func::Trunc => v.trunc(),
                Func::Fract => v.fract(),
                Func::Exp => v.exp(),
                Func::Sqrt => v.sqrt(),
                Func::Cbrt => v.cbrt(),
                Func::Ln => v.ln(),
                Func::Log => v.ln(),
                Func::Log2 => v.log2(),
                Func::Log10 => v.log10(),
                Func::Round => v.round(),
            })
        }
        Expr::Bin(op, l, r) => {
            let a = eval(l, x)?;
            let b = eval(r, x)?;
            Some(match op {
                BinOp::Add => a + b,
                BinOp::Sub => a - b,
                BinOp::Mul => a * b,
                BinOp::Div => a / b,
                BinOp::Pow => a.powf(b),
            })
        }
    }
}

/// One plot sweep: evaluate the compiled expression at every grid
/// position, substituting 0 for a failed sample, as the renderer does.
fn sample_plot(c: &CompiledExpr, lo: f64, hi: f64, count: usize) -> Vec<(f64, f64)> {
    sample_xs((lo * 1e6) as i64, (hi * 1e6) as i64, count)
        .iter()
        .map(|&xi| {
            let x = xi as f64 / 1e6;
            let y = eval(c.ast(), x).filter(|v| v.is_finite()).unwrap_or(0.0);
            (x, y)
        })
        .collect()
}

#[test]
fn grid_has_exactly_count_points() {
    for count in [2usize, 10, 500, 1000] {
        let xs = sample_xs(-1_000_000, 1_000_000, count);
        assert_eq!(xs.len(), count);
        assert_eq!(xs[0], -1_000_000);
        assert_eq!(xs[count - 1], 1_000_000);
        assert!(xs.windows(2).all(|w| w[0] <= w[1]));
    }
}

#[test]
fn grid_is_evenly_spaced() {
    let xs = sample_xs(0, 10, 11);
    assert_eq!(xs, vec![0, 1, 2, 3, 4, 5, 6, 7, 8, 9, 10]);
    let xs = sample_xs(-1_000_000, 1_000_000, 3);
    assert_eq!(xs, vec![-1_000_000, 0, 1_000_000]);
}

#[test]
fn grid_is_repeatable() {
    assert_eq!(sample_xs(-3_333, 7_777, 101), sample_xs(-3_333, 7_777, 101));
}

#[test]
fn constant_expression_plots_a_horizontal_line() {
    let c = compile("e").unwrap();
    assert_eq!(c.var_count(), 0);
    let pts = sample_plot(&c, -5.0, 5.0, 50);
    assert_eq!(pts.len(), 50);
    for (_, y) in &pts {
        assert!((y - std::f64::consts::E).abs() < 1e-12);
    }

    let c = compile("7.5").unwrap();
    let pts = sample_plot(&c, -100.0, 100.0, 25);
    assert_eq!(pts.len(), 25);
    for (_, y) in &pts {
        assert_eq!(*y, 7.5);
    }
}

#[test]
fn square_curve_hits_four_at_two() {
    let c = compile("x^2").unwrap();
    assert_eq!(c.var_count(), 1);
    let pts = sample_plot(&c, 0.0, 4.0, 3);
    assert_eq!(pts[1], (2.0, 4.0));
    for (x, y) in &pts {
        assert!((y - x * x).abs() < 1e-9);
    }
}

#[test]
fn failed_samples_become_zero_without_stopping_the_sweep() {
    // 1/x at x = 0 is not finite; the sweep still yields every point.
    let c = compile("1/x").unwrap();
    let pts = sample_plot(&c, -1.0, 1.0, 5);
    assert_eq!(pts.len(), 5);
    assert_eq!(pts[0].1, -1.0);
    assert_eq!(pts[2], (0.0, 0.0));
    assert_eq!(pts[4].1, 1.0);
}

#[test]
fn sampler_counts_pulls() {
    let c = compile("sin(x)").unwrap();
    let mut m = Math::new(c);
    for k in 1..=200usize {
        assert_eq!(m.next_index(), k);
    }
}

#[test]
fn sampler_emits_the_expression_at_scaled_time() {
    let c = compile("x * 2").unwrap();
    let mut m = Math::new(c);
    let i = m.next_index();
    let t = i as f64 / SAMPLE_RATE as f64;
    let y = eval(m.expr().ast(), t).unwrap();
    assert_eq!(y, 2.0 / 48000.0);
}

#[test]
fn seeking_is_a_successful_no_op() {
    let c = compile("sin(x)").unwrap();
    let mut m = Math::new(c);
    for _ in 0..10 {
        m.next_index();
    }
    assert!(m.try_seek(123_456).is_ok());
    assert_eq!(m.next_index(), 11);
}

#[test]
fn source_shape_is_infinite_mono() {
    let c = compile("0").unwrap();
    let m = Math::new(c);
    assert_eq!(m.channels(), 1);
    assert_eq!(m.sample_rate(), 48000);
    assert!(m.current_frame_len().is_none());
    assert!(m.total_duration().is_none());
}

#[test]
fn replaced_queue_holds_the_new_expression() {
    let mut e = FunctionEntry::new("", true);
    assert!(e.update_text("x^2", true).is_none());
    let s = e.sink.as_ref().unwrap();
    assert_eq!(s.len(), 1);
    assert_eq!(eval(s.source_at(0).expr().ast(), 3.0), Some(9.0));

    assert!(e.update_text("x + 1", true).is_none());
    let s = e.sink.as_ref().unwrap();
    assert_eq!(s.len(), 1);
    assert_eq!(eval(s.source_at(0).expr().ast(), 3.0), Some(4.0));
}

#[test]
fn session_queue_and_pause_follow_the_calls() {
    let mut s = Sink::new();
    assert!(s.empty());
    assert!(!s.is_paused());

    let c = compile("sin(x)").unwrap();
    s.append(Math::new(c));
    assert_eq!(s.len(), 1);
    assert!(!s.empty());

    s.pause();
    assert!(s.is_paused());
    s.play();
    assert!(!s.is_paused());

    s.clear();
    assert!(s.empty());
    assert!(s.is_paused());
}
