use scum::eval::{eval, EvaluationError};
use scum::expression::{Atom, EnvError, Environment, Expression, Identifier};
use scum::floats::{ArithOp, FloatOps, RelOp};
use scum::Scum;
use scum::ScumError;

struct Ieee;

impl FloatOps for Ieee {
    fn float_of_int(&self, value: i64) -> u64 {
        (value as f64).to_bits()
    }

    fn float_arith(&self, op: ArithOp, a: u64, b: u64) -> u64 {
        let x = f64::from_bits(a);
        let y = f64::from_bits(b);
        let r = match op {
            ArithOp::Add => x + y,
            ArithOp::Sub => x - y,
            ArithOp::Mul => x * y,
            ArithOp::Div => x / y,
        };
        r.to_bits()
    }

    fn float_compare(&self, op: RelOp, a: u64, b: u64) -> bool {
        let x = f64::from_bits(a);
        let y = f64::from_bits(b);
        match op {
            RelOp::Eq => x == y,
            RelOp::Ne => x != y,
            RelOp::Lt => x < y,
            RelOp::Gt => x > y,
            RelOp::Le => x <= y,
            RelOp::Ge => x >= y,
        }
    }

    fn float_of_text(&self, text: &str) -> u64 {
        text.parse::<f64>().unwrap_or(f64::NAN).to_bits()
    }

    fn float_text(&self, bits: u64) -> String {
        format!("{:?}", f64::from_bits(bits))
    }
}

#[test]
fn fresh_environment_holds_the_builtins() {
    let env = Environment::default();
    for name in ["println", "list", "=", "!=", ">", "<", ">=", "<=", "+", "-", "*", "/"] {
        let bound = env.lookup(&Identifier::new(name));
        assert!(matches!(bound, Ok(Expression::Function(_))));
    }
    assert!(matches!(
        env.lookup(&Identifier::new("absent")),
        Err(EnvError::NotFound(_))
    ));
}

#[test]
fn define_binds_and_lookup_finds() {
    let mut env = Environment::default();
    env.define(Identifier::new("k"), Expression::Constant(Atom::Int(5)));
    assert!(matches!(
        env.lookup(&Identifier::new("k")),
        Ok(Expression::Constant(Atom::Int(5)))
    ));
    // Redefinition overwrites; other bindings stay.
    env.define(Identifier::new("k"), Expression::Constant(Atom::Bool(true)));
    env.define(Identifier::new("m"), Expression::Constant(Atom::Int(9)));
    assert!(matches!(
        env.lookup(&Identifier::new("k")),
        Ok(Expression::Constant(Atom::Bool(true)))
    ));
    assert!(matches!(
        env.lookup(&Identifier::new("m")),
        Ok(Expression::Constant(Atom::Int(9)))
    ));
}

#[test]
fn identifier_text_round_trips() {
    let id = Identifier::new("scale-by");
    assert_eq!(id.as_ref(), "scale-by");
    assert_eq!(id.clone().as_ref(), "scale-by");
    assert!(Identifier::new("a") == Identifier::new("a"));
    assert!(Identifier::new("a") != Identifier::new("b"));
}

#[test]
fn eval_looks_symbols_up() {
    let mut env = Environment::default();
    env.define(Identifier::new("answer"), Expression::Constant(Atom::Int(42)));
    let sym = Expression::Constant(Atom::Symbol(Identifier::new("answer")));
    let r = eval(&sym, &mut env, 64, &Ieee);
    assert!(matches!(r, Ok(Expression::Constant(Atom::Int(42)))));

    let missing = Expression::Constant(Atom::Symbol(Identifier::new("nope")));
    let r = eval(&missing, &mut env, 64, &Ieee);
    assert!(matches!(
        r,
        Err(EvaluationError::EnvError(EnvError::NotFound(_)))
    ));
}

#[test]
fn eval_of_non_symbol_constants_is_identity() {
    let mut env = Environment::default();
    for e in [
        Expression::Constant(Atom::Int(3)),
        Expression::Constant(Atom::Bool(false)),
        Expression::Constant(Atom::Str(String::from("s"))),
    ] {
        let before = format!("{:?}", e);
        let after = format!("{:?}", eval(&e, &mut env, 64, &Ieee).unwrap());
        assert_eq!(after, before);
    }
}

#[test]
fn runaway_recursion_exhausts_the_budget() {
    let mut scum = Scum::new(Ieee);
    scum.read_eval_print("(define loop-forever (lambda (f) (f f)))")
        .unwrap();
    let r = scum.read_eval_print("(loop-forever loop-forever)");
    assert!(matches!(
        r,
        Err(ScumError::EvaluationError(EvaluationError::DepthLimit))
    ));
}

#[test]
fn the_embedding_chooses_the_budget() {
    let mut tight = Scum::with_budget(Ieee, 2);
    assert!(matches!(
        tight.read_eval_print("(+ 1 (+ 2 (+ 3 4)))"),
        Err(ScumError::EvaluationError(EvaluationError::DepthLimit))
    ));
    let mut roomy = Scum::with_budget(Ieee, 64);
    assert_eq!(roomy.read_eval_print("(+ 1 (+ 2 (+ 3 4)))").unwrap(), "10");
}
