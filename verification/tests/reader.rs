use scum::expression::{Atom, Expression};
use scum::floats::{ArithOp, FloatOps, RelOp};
use scum::print::print_expression;
use scum::read::{read, ReadingError};

struct Ieee;

impl FloatOps for Ieee {
    fn float_of_int(&self, value: i64) -> u64 {
        (value as f64).to_bits()
    }

    fn float_arith(&self, op: ArithOp, a: u64, b: u64) -> u64 {
        let x = f64::from_bits(a);
        let y = f64::from_bits(b);
        let r = match op {
            ArithOp::Add => x + y,
            ArithOp::Sub => x - y,
            ArithOp::Mul => x * y,
            ArithOp::Div => x / y,
        };
        r.to_bits()
    }

    fn float_compare(&self, op: RelOp, a: u64, b: u64) -> bool {
        let x = f64::from_bits(a);
        let y = f64::from_bits(b);
        match op {
            RelOp::Eq => x == y,
            RelOp::Ne => x != y,
            RelOp::Lt => x < y,
            RelOp::Gt => x > y,
            RelOp::Le => x <= y,
            RelOp::Ge => x >= y,
        }
    }

    fn float_of_text(&self, text: &str) -> u64 {
        text.parse::<f64>().unwrap_or(f64::NAN).to_bits()
    }

    fn float_text(&self, bits: u64) -> String {
        format!("{:?}", f64::from_bits(bits))
    }
}

/// Prints what was read; a round-trippable text must come back verbatim.
fn reprint(text: &str) -> String {
    let e = read(text, &Ieee).unwrap();
    print_expression(&e, &Ieee)
}

#[test]
fn round_trip_of_printed_forms() {
    for text in [
        "5",
        "-42",
        "0",
        "#t",
        "#f",
        "abc",
        "+",
        "-",
        "<=",
        "scale-by",
        "()",
        "(1 2 3)",
        "(a (b c) ())",
        "(x define)",
        "((((deep))))",
        "(list 1 #t x)",
    ] {
        assert_eq!(reprint(text), text);
    }
}

#[test]
fn whitespace_is_insignificant_between_tokens() {
    assert_eq!(reprint("  ( 1\t2\n3 )  "), "(1 2 3)");
}

#[test]
fn several_top_level_expressions_become_one_list() {
    assert_eq!(reprint("1 2"), "(1 2)");
    assert_eq!(reprint("a (b) 3"), "(a (b) 3)");
}

#[test]
fn special_forms_are_recognised() {
    let e = read("(define x 1)", &Ieee).unwrap();
    assert!(matches!(e, Expression::Define(_)));
    assert_eq!(print_expression(&e, &Ieee), "(define x 1)");

    let e = read("(if #t 1 2)", &Ieee).unwrap();
    assert!(matches!(e, Expression::If(_)));
    assert_eq!(print_expression(&e, &Ieee), "(if #t 1 2)");

    let e = read("(lambda (a b) a)", &Ieee).unwrap();
    assert!(matches!(e, Expression::Lambda(_)));
    assert_eq!(print_expression(&e, &Ieee), "(lambda (a b) #<procedure>)");
}

#[test]
fn special_forms_of_the_wrong_shape_stay_lists() {
    // Wrong arity for define; a lambda whose parameter position is no
    // parameter list.
    assert!(matches!(read("(define x 1 2)", &Ieee).unwrap(), Expression::List(_)));
    assert!(matches!(read("(lambda 1 2)", &Ieee).unwrap(), Expression::List(_)));
    assert!(matches!(read("(if 1 2)", &Ieee).unwrap(), Expression::List(_)));
}

#[test]
fn atom_classification() {
    assert!(matches!(
        read("12", &Ieee).unwrap(),
        Expression::Constant(Atom::Int(12))
    ));
    assert!(matches!(
        read("#t", &Ieee).unwrap(),
        Expression::Constant(Atom::Bool(true))
    ));
    // A non-canonical numeral is a symbol, as is anything else unclaimed.
    assert!(matches!(
        read("007", &Ieee).unwrap(),
        Expression::Constant(Atom::Symbol(_))
    ));
    assert!(matches!(
        read("#x", &Ieee).unwrap(),
        Expression::Constant(Atom::Symbol(_))
    ));
    let float = read("2.5", &Ieee).unwrap();
    match float {
        Expression::Constant(Atom::Float(bits)) => {
            assert_eq!(f64::from_bits(bits), 2.5);
        },
        other => panic!("expected a float, read {:?}", other),
    }
    assert!(matches!(
        read("1e3", &Ieee).unwrap(),
        Expression::Constant(Atom::Float(_))
    ));
    assert!(matches!(
        read("-1.25e-2", &Ieee).unwrap(),
        Expression::Constant(Atom::Float(_))
    ));
}

#[test]
fn float_text_round_trips_through_bits() {
    assert_eq!(reprint("2.5"), "2.5");
    assert_eq!(reprint("(+ 1.5 2.25)"), "(+ 1.5 2.25)");
}

#[test]
fn string_literals_keep_their_characters() {
    let e = read("\"hi there\"", &Ieee).unwrap();
    match e {
        Expression::Constant(Atom::Str(s)) => assert_eq!(s, "hi there"),
        other => panic!("expected a string, read {:?}", other),
    }
    // An escaped quote does not close the literal.
    let e = read("\"a\\\"b\"", &Ieee).unwrap();
    match e {
        Expression::Constant(Atom::Str(s)) => assert_eq!(s, "a\\\"b"),
        other => panic!("expected a string, read {:?}", other),
    }
}

#[test]
fn reading_failures() {
    assert!(matches!(read("", &Ieee), Err(ReadingError::EmptyInput)));
    assert!(matches!(read("   ", &Ieee), Err(ReadingError::EmptyInput)));
    assert!(matches!(read("(1 2", &Ieee), Err(ReadingError::UnexpectedEnd)));
    assert!(matches!(read("\"open", &Ieee), Err(ReadingError::UnexpectedEnd)));
    assert!(matches!(
        read(")", &Ieee),
        Err(ReadingError::UnexpectedChar { position: 0 })
    ));
    assert!(matches!(
        read("(a))", &Ieee),
        Err(ReadingError::UnexpectedChar { position: 3 })
    ));
    assert!(matches!(
        read("99999999999999999999", &Ieee),
        Err(ReadingError::IntegerOverflow { position: 0 })
    ));
    assert!(matches!(
        read("-99999999999999999999", &Ieee),
        Err(ReadingError::IntegerOverflow { position: 0 })
    ));
}

#[test]
fn int_boundaries_parse_exactly() {
    assert!(matches!(
        read("9223372036854775807", &Ieee).unwrap(),
        Expression::Constant(Atom::Int(9223372036854775807))
    ));
    assert!(matches!(
        read("-9223372036854775808", &Ieee).unwrap(),
        Expression::Constant(Atom::Int(-9223372036854775808))
    ));
    assert!(matches!(
        read("9223372036854775808", &Ieee),
        Err(ReadingError::IntegerOverflow { .. })
    ));
    assert!(matches!(
        read("-9223372036854775809", &Ieee),
        Err(ReadingError::IntegerOverflow { .. })
    ));
}
