use scum::eval::EvaluationError;
use scum::expression::EnvError;
use scum::floats::{ArithOp, FloatOps, RelOp};
use scum::read::ReadingError;
use scum::Scum;
use scum::ScumError;

/// IEEE-754 binary64 operations on bit patterns, as the library expects its
/// embedding to supply them.
struct Ieee;

impl FloatOps for Ieee {
    fn float_of_int(&self, value: i64) -> u64 {
        (value as f64).to_bits()
    }

    fn float_arith(&self, op: ArithOp, a: u64, b: u64) -> u64 {
        let x = f64::from_bits(a);
        let y = f64::from_bits(b);
        let r = match op {
            ArithOp::Add => x + y,
            ArithOp::Sub => x - y,
            ArithOp::Mul => x * y,
            ArithOp::Div => x / y,
        };
        r.to_bits()
    }

    fn float_compare(&self, op: RelOp, a: u64, b: u64) -> bool {
        let x = f64::from_bits(a);
        let y = f64::from_bits(b);
        match op {
            RelOp::Eq => x == y,
            RelOp::Ne => x != y,
            RelOp::Lt => x < y,
            RelOp::Gt => x > y,
            RelOp::Le => x <= y,
            RelOp::Ge => x >= y,
        }
    }

    fn float_of_text(&self, text: &str) -> u64 {
        text.parse::<f64>().unwrap_or(f64::NAN).to_bits()
    }

    fn float_text(&self, bits: u64) -> String {
        format!("{:?}", f64::from_bits(bits))
    }
}

#[test]
fn nested_lambda() {
    let mut scum = Scum::new(Ieee);
    let one = scum.read_eval_print("(define scale-by (lambda (s) (lambda (x) (* s x))))");
    assert!(one.is_ok());
    let double = scum.read_eval_print("(define double (scale-by 2))");
    assert!(double.is_ok());
    let triple = scum.read_eval_print("(define triple (scale-by 3))");
    assert!(triple.is_ok());
    let double_result = scum.read_eval_print("(double 3)");
    assert!(double_result.is_ok());
    assert_eq!(double_result.unwrap(), "6");
    let triple_result = scum.read_eval_print("(triple 3)");
    assert!(triple_result.is_ok());
    assert_eq!(triple_result.unwrap(), "9");
}

#[test]
fn each_closure_keeps_its_own_capture() {
    let mut scum = Scum::new(Ieee);
    scum.read_eval_print("(define scale-by (lambda (s) (lambda (x) (* s x))))")
        .unwrap();
    scum.read_eval_print("(define double (scale-by 2))").unwrap();
    assert_eq!(scum.read_eval_print("(double 3)").unwrap(), "6");
    scum.read_eval_print("(define triple (scale-by 3))").unwrap();
    assert_eq!(scum.read_eval_print("(triple 3)").unwrap(), "9");
    assert_eq!(scum.read_eval_print("(double 4)").unwrap(), "8");
}

#[test]
fn self_evaluating_constants() {
    let mut scum = Scum::new(Ieee);
    assert_eq!(scum.read_eval_print("5").unwrap(), "5");
    assert_eq!(scum.read_eval_print("-17").unwrap(), "-17");
    assert_eq!(scum.read_eval_print("#t").unwrap(), "#t");
    assert_eq!(scum.read_eval_print("#f").unwrap(), "#f");
    assert_eq!(scum.read_eval_print("\"hi there\"").unwrap(), "hi there");
    assert_eq!(scum.read_eval_print("()").unwrap(), "()");
}

#[test]
fn define_then_lookup() {
    let mut scum = Scum::new(Ieee);
    assert_eq!(scum.read_eval_print("(define x 7)").unwrap(), "7");
    assert_eq!(scum.read_eval_print("x").unwrap(), "7");
    assert_eq!(scum.read_eval_print("(define other 1)").unwrap(), "1");
    assert_eq!(scum.read_eval_print("x").unwrap(), "7");
    assert_eq!(scum.read_eval_print("(define x 8)").unwrap(), "8");
    assert_eq!(scum.read_eval_print("x").unwrap(), "8");
}

#[test]
fn closure_isolation() {
    let mut scum = Scum::new(Ieee);
    scum.read_eval_print("(define x 1)").unwrap();
    scum.read_eval_print("(define get (lambda () x))").unwrap();
    scum.read_eval_print("(define x 2)").unwrap();
    assert_eq!(scum.read_eval_print("(get)").unwrap(), "1");
    assert_eq!(scum.read_eval_print("x").unwrap(), "2");
}

#[test]
fn no_leakage_from_lambda_body() {
    let mut scum = Scum::new(Ieee);
    scum.read_eval_print("(define leak (lambda () (define y 99)))")
        .unwrap();
    assert_eq!(scum.read_eval_print("(leak)").unwrap(), "99");
    let after = scum.read_eval_print("y");
    assert!(matches!(
        after,
        Err(ScumError::EvaluationError(EvaluationError::EnvError(EnvError::NotFound(_))))
    ));
}

#[test]
fn arity_enforcement() {
    let mut scum = Scum::new(Ieee);
    scum.read_eval_print("(define two (lambda (a b) a))").unwrap();
    let too_few = scum.read_eval_print("(two 1)");
    assert!(matches!(
        too_few,
        Err(ScumError::EvaluationError(EvaluationError::WrongNumberOfArgs {
            expected: 2,
            actual: 1,
        }))
    ));
    let too_many = scum.read_eval_print("(two 1 2 3)");
    assert!(matches!(
        too_many,
        Err(ScumError::EvaluationError(EvaluationError::WrongNumberOfArgs {
            expected: 2,
            actual: 3,
        }))
    ));
    assert_eq!(scum.read_eval_print("(two 1 2)").unwrap(), "1");
}

#[test]
fn numeric_coercion() {
    let mut scum = Scum::new(Ieee);
    assert_eq!(scum.read_eval_print("(+ 1 2.0)").unwrap(), "3.0");
    assert_eq!(scum.read_eval_print("(+ 1 2)").unwrap(), "3");
    assert_eq!(scum.read_eval_print("(= 1 1.0)").unwrap(), "#t");
    assert_eq!(scum.read_eval_print("(* 2.0 3)").unwrap(), "6.0");
    assert_eq!(scum.read_eval_print("(< 1.5 2)").unwrap(), "#t");
}

#[test]
fn short_circuit_conditional() {
    let mut scum = Scum::new(Ieee);
    assert_eq!(scum.read_eval_print("(if #t 1 (undefined-symbol))").unwrap(), "1");
    assert_eq!(scum.read_eval_print("(if #f (undefined-symbol) 2)").unwrap(), "2");
}

#[test]
fn relational_chains() {
    let mut scum = Scum::new(Ieee);
    assert_eq!(scum.read_eval_print("(< 1 2 3)").unwrap(), "#t");
    assert_eq!(scum.read_eval_print("(< 1 3 2)").unwrap(), "#f");
    assert_eq!(scum.read_eval_print("(= 1 1 1)").unwrap(), "#t");
    assert_eq!(scum.read_eval_print("(>= 3 3 2)").unwrap(), "#t");
    assert_eq!(scum.read_eval_print("(!= 1 2)").unwrap(), "#t");
    assert_eq!(scum.read_eval_print("(< \"ab\" \"b\")").unwrap(), "#t");
    assert_eq!(scum.read_eval_print("(= \"ab\" \"ab\")").unwrap(), "#t");
    assert_eq!(scum.read_eval_print("(< #f #t)").unwrap(), "#t");
}

#[test]
fn arithmetic_folds_from_the_first_operand() {
    let mut scum = Scum::new(Ieee);
    assert_eq!(scum.read_eval_print("(+ 1 2)").unwrap(), "3");
    assert_eq!(scum.read_eval_print("(- 10 4)").unwrap(), "6");
    assert_eq!(scum.read_eval_print("(* 2 3)").unwrap(), "6");
    assert_eq!(scum.read_eval_print("(/ 6 3)").unwrap(), "2");
    // Three or more operands keep folding left; division truncates.
    assert_eq!(scum.read_eval_print("(+ 1 2 3)").unwrap(), "6");
    assert_eq!(scum.read_eval_print("(- 10 4 1)").unwrap(), "5");
    assert_eq!(scum.read_eval_print("(* 2 3 4)").unwrap(), "24");
    assert_eq!(scum.read_eval_print("(/ 7 2)").unwrap(), "3");
    // Fewer than two operands yield the operator's identity seed.
    assert_eq!(scum.read_eval_print("(+)").unwrap(), "0");
    assert_eq!(scum.read_eval_print("(- 5)").unwrap(), "0");
    assert_eq!(scum.read_eval_print("(/ 2)").unwrap(), "1");
    assert_eq!(scum.read_eval_print("(*)").unwrap(), "1");
}

#[test]
fn builtin_list_collects_arguments() {
    let mut scum = Scum::new(Ieee);
    assert_eq!(scum.read_eval_print("(list 1 2 3)").unwrap(), "(1 2 3)");
    assert_eq!(scum.read_eval_print("(list)").unwrap(), "()");
    assert_eq!(scum.read_eval_print("(list (list 1) #t)").unwrap(), "((1) #t)");
}

#[test]
fn builtin_println_returns_its_value() {
    let mut scum = Scum::new(Ieee);
    assert_eq!(scum.read_eval_print("(println 5)").unwrap(), "5");
    assert_eq!(scum.read_eval_print("(println 1 2)").unwrap(), "(1 2)");
}

#[test]
fn opaque_printing_of_procedures() {
    let mut scum = Scum::new(Ieee);
    assert_eq!(scum.read_eval_print("+").unwrap(), "#<function>");
    assert_eq!(
        scum.read_eval_print("(lambda (x) x)").unwrap(),
        "(lambda (x) #<procedure>)"
    );
}

#[test]
fn division_by_zero_is_an_error() {
    let mut scum = Scum::new(Ieee);
    let r = scum.read_eval_print("(/ 1 0)");
    assert!(matches!(
        r,
        Err(ScumError::EvaluationError(EvaluationError::EnvError(
            EnvError::DivisionByZero(..)
        )))
    ));
}

#[test]
fn type_errors_are_attributed() {
    let mut scum = Scum::new(Ieee);
    assert!(matches!(
        scum.read_eval_print("(= 1 \"x\")"),
        Err(ScumError::EvaluationError(EvaluationError::EnvError(
            EnvError::DifferentConstantTypes(..)
        )))
    ));
    assert!(matches!(
        scum.read_eval_print("(< 1 #t)"),
        Err(ScumError::EvaluationError(EvaluationError::EnvError(
            EnvError::NonNumericArgs(..)
        )))
    ));
    assert!(matches!(
        scum.read_eval_print("(+ 1 #t)"),
        Err(ScumError::EvaluationError(EvaluationError::EnvError(
            EnvError::NonNumericArgs(..)
        )))
    ));
    assert!(matches!(
        scum.read_eval_print("(if 1 2 3)"),
        Err(ScumError::EvaluationError(EvaluationError::TypeMismatch { .. }))
    ));
    assert!(matches!(
        scum.read_eval_print("(define 5 1)"),
        Err(ScumError::EvaluationError(EvaluationError::TypeMismatch { .. }))
    ));
    assert!(matches!(
        scum.read_eval_print("((+ 1 1) 2)"),
        Err(ScumError::EvaluationError(EvaluationError::TypeMismatch { .. }))
    ));
    assert!(matches!(
        scum.read_eval_print("missing"),
        Err(ScumError::EvaluationError(EvaluationError::EnvError(EnvError::NotFound(_))))
    ));
}

#[test]
fn reading_errors_reach_the_caller() {
    let mut scum = Scum::new(Ieee);
    assert!(matches!(
        scum.read_eval_print("("),
        Err(ScumError::ReadingError(ReadingError::UnexpectedEnd))
    ));
    assert!(matches!(
        scum.read_eval_print(")"),
        Err(ScumError::ReadingError(ReadingError::UnexpectedChar { position: 0 }))
    ));
    assert!(matches!(
        scum.read_eval_print(""),
        Err(ScumError::ReadingError(ReadingError::EmptyInput))
    ));
    assert!(matches!(
        scum.read_eval_print("99999999999999999999"),
        Err(ScumError::ReadingError(ReadingError::IntegerOverflow { position: 0 }))
    ));
}

#[test]
fn environment_survives_a_failing_define() {
    let mut scum = Scum::new(Ieee);
    scum.read_eval_print("(define x 1)").unwrap();
    let failing = scum.read_eval_print("(define x missing)");
    assert!(failing.is_err());
    assert_eq!(scum.read_eval_print("x").unwrap(), "1");
}

#[test]
fn no_partial_define_survives_a_failing_expression() {
    let mut scum = Scum::new(Ieee);
    // The inner define commits before the application of its value fails;
    // the failing round must leave the session environment untouched.
    let failing = scum.read_eval_print("((define x 1))");
    assert!(matches!(
        failing,
        Err(ScumError::EvaluationError(EvaluationError::TypeMismatch { .. }))
    ));
    assert!(matches!(
        scum.read_eval_print("x"),
        Err(ScumError::EvaluationError(EvaluationError::EnvError(EnvError::NotFound(_))))
    ));
    // The same under an argument-position define with a later failing argument.
    let failing = scum.read_eval_print("(+ (define y 2) missing)");
    assert!(failing.is_err());
    assert!(matches!(
        scum.read_eval_print("y"),
        Err(ScumError::EvaluationError(EvaluationError::EnvError(EnvError::NotFound(_))))
    ));
}

#[test]
fn builtins_can_be_redefined() {
    let mut scum = Scum::new(Ieee);
    assert_eq!(scum.read_eval_print("(define + 1)").unwrap(), "1");
    assert_eq!(scum.read_eval_print("+").unwrap(), "1");
}

#[test]
fn int_extremes_evaluate() {
    let mut scum = Scum::new(Ieee);
    assert_eq!(
        scum.read_eval_print("9223372036854775807").unwrap(),
        "9223372036854775807"
    );
    assert_eq!(
        scum.read_eval_print("-9223372036854775808").unwrap(),
        "-9223372036854775808"
    );
    // Integer arithmetic wraps on overflow.
    assert_eq!(
        scum.read_eval_print("(+ 9223372036854775807 1)").unwrap(),
        "-9223372036854775808"
    );
}

#[test]
fn error_messages_render() {
    let mut scum = Scum::new(Ieee);
    let not_found = scum.read_eval_print("missing").unwrap_err();
    assert_eq!(
        not_found.message(&Ieee),
        "Evaluation error: Unknown identifier missing"
    );
    let mismatch = scum.read_eval_print("(= 1 \"x\")").unwrap_err();
    assert_eq!(
        mismatch.message(&Ieee),
        "Evaluation error: Different constant types; received 1 and x"
    );
    // The first failing arithmetic step attributes its own operand pair.
    let non_numeric = scum.read_eval_print("(+ #t 1)").unwrap_err();
    assert_eq!(
        non_numeric.message(&Ieee),
        "Evaluation error: Expected two numeric args; received #t and 1"
    );
    let later_step = scum.read_eval_print("(+ 1 2 #f)").unwrap_err();
    assert_eq!(
        later_step.message(&Ieee),
        "Evaluation error: Expected two numeric args; received 3 and #f"
    );
    let arity = {
        scum.read_eval_print("(define two (lambda (a b) a))").unwrap();
        scum.read_eval_print("(two 1)").unwrap_err()
    };
    assert_eq!(
        arity.message(&Ieee),
        "Evaluation error: Expected 2 arguments, received 1"
    );
    let ill_typed = scum.read_eval_print("(if 1 2 3)").unwrap_err();
    assert_eq!(
        ill_typed.message(&Ieee),
        "Evaluation error: Expected a bool, but evaluation of 1 led to 1"
    );
    let unread = scum.read_eval_print("(").unwrap_err();
    assert_eq!(unread.message(&Ieee), "Reading error: Unexpected end of input");
}
