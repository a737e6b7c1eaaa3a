//! The recursive evaluator.
//!
//! `spec_eval` is the mathematical semantics: a total function from an
//! expression, an environment and a recursion budget (`fuel`) to either an
//! exact outcome — the result together with the environment after the call —
//! or `FloatDependent`, which says the outcome passed through a
//! floating-point operation of the embedding and is therefore not determined
//! by this crate. The executable `eval` is proved to realise `spec_eval`
//! exactly on every evaluation that is not float-dependent.
//!
//! The fuel bounds the depth of nested evaluation; it is the verified
//! analogue of host stack exhaustion, and running out of it is the
//! `DepthLimit` error. Every recursive step consumes one unit.
use crate::expression::{
    clone_exprs, clone_idents, expr_view, exprs_view, idents_view, Atom, Builtin, EnvError,
    Environment, Expression, Lambda, SpecAtom, SpecEnv, SpecEnvError, SpecExpression,
};
use crate::floats::{ArithOp, FloatOps, RelOp};
use crate::text::{lex_lt, str_eq, str_lt};
use crate::print::print_expression;
use vstd::prelude::*;

verus! {

broadcast use crate::expression::lemma_exprs_view_len, crate::expression::lemma_exprs_view_index;

/// An error raised by the evaluator itself.
#[derive(Debug)]
pub enum EvaluationError {
    /// A special form met a value of the wrong kind; carries the offending
    /// sub-expression and what it evaluated to.
    TypeMismatch { article: String, expected_type: String, input: Expression, output: Expression },
    /// A lambda was applied to the wrong number of arguments.
    WrongNumberOfArgs { expected: usize, actual: usize },
    /// A builtin operation or a lookup failed.
    EnvError(EnvError),
    /// Evaluation nesting exceeded the recursion budget.
    DepthLimit,
}

/// The model of an [`EvaluationError`].
#[verifier::ext_equal]
pub enum SpecEvaluationError {
    TypeMismatch {
        article: Seq<char>,
        expected_type: Seq<char>,
        input: SpecExpression,
        output: SpecExpression,
    },
    WrongNumberOfArgs { expected: int, actual: int },
    EnvError(SpecEnvError),
    DepthLimit,
}

impl View for EvaluationError {
    type V = SpecEvaluationError;

    open spec fn view(&self) -> SpecEvaluationError {
        match self {
            EvaluationError::TypeMismatch { article, expected_type, input, output } => {
                SpecEvaluationError::TypeMismatch {
                    article: article@,
                    expected_type: expected_type@,
                    input: input@,
                    output: output@,
                }
            },
            EvaluationError::WrongNumberOfArgs { expected, actual } => {
                SpecEvaluationError::WrongNumberOfArgs {
                    expected: *expected as int,
                    actual: *actual as int,
                }
            },
            EvaluationError::EnvError(e) => SpecEvaluationError::EnvError(e@),
            EvaluationError::DepthLimit => SpecEvaluationError::DepthLimit,
        }
    }
}

/// An exact evaluation outcome, or the mark that a float operation decided.
pub enum Evaluation {
    Exact(Result<SpecExpression, SpecEvaluationError>, SpecEnv),
    FloatDependent,
}

/// The outcome of evaluating a run of argument expressions.
pub enum ArgsEvaluation {
    Exact(Result<Seq<SpecExpression>, SpecEvaluationError>, SpecEnv),
    FloatDependent,
}

/// The outcome of one relational pair comparison.
pub enum RelOutcome {
    Exact(Result<bool, SpecEnvError>),
    FloatDependent,
}

/// The outcome of applying a builtin to evaluated arguments.
pub enum BuiltinOutcome {
    Exact(Result<SpecExpression, SpecEnvError>),
    FloatDependent,
}

pub open spec fn spec_rel_bool(op: RelOp, a: bool, b: bool) -> bool {
    match op {
        RelOp::Eq => a == b,
        RelOp::Ne => a != b,
        RelOp::Lt => !a && b,
        RelOp::Gt => a && !b,
        RelOp::Le => !a || b,
        RelOp::Ge => a || !b,
    }
}

pub open spec fn spec_rel_int(op: RelOp, a: i64, b: i64) -> bool {
    match op {
        RelOp::Eq => a == b,
        RelOp::Ne => a != b,
        RelOp::Lt => a < b,
        RelOp::Gt => a > b,
        RelOp::Le => a <= b,
        RelOp::Ge => a >= b,
    }
}

pub open spec fn spec_rel_chars(op: RelOp, a: Seq<char>, b: Seq<char>) -> bool {
    match op {
        RelOp::Eq => a == b,
        RelOp::Ne => a != b,
        RelOp::Lt => lex_lt(a, b),
        RelOp::Gt => lex_lt(b, a),
        RelOp::Le => !lex_lt(b, a),
        RelOp::Ge => !lex_lt(a, b),
    }
}

/// Whether the operator is one of the two equality kinds; the others demand
/// numeric (or at least same-kind ordered) operands.
pub open spec fn is_equality(op: RelOp) -> bool {
    op == RelOp::Eq || op == RelOp::Ne
}

/// The comparison of one adjacent operand pair.
pub open spec fn spec_rel_pair(op: RelOp, x: SpecExpression, y: SpecExpression) -> RelOutcome {
    match (x, y) {
        (SpecExpression::Constant(a), SpecExpression::Constant(b)) => match (a, b) {
            (SpecAtom::Bool(p), SpecAtom::Bool(q)) => RelOutcome::Exact(
                Ok(spec_rel_bool(op, p, q)),
            ),
            (SpecAtom::Int(m), SpecAtom::Int(n)) => RelOutcome::Exact(Ok(spec_rel_int(op, m, n))),
            (SpecAtom::Str(s), SpecAtom::Str(t)) => RelOutcome::Exact(
                Ok(spec_rel_chars(op, s, t)),
            ),
            (SpecAtom::Symbol(s), SpecAtom::Symbol(t)) => RelOutcome::Exact(
                Ok(spec_rel_chars(op, s, t)),
            ),
            (SpecAtom::Float(_), SpecAtom::Float(_)) => RelOutcome::FloatDependent,
            (SpecAtom::Float(_), SpecAtom::Int(_)) => RelOutcome::FloatDependent,
            (SpecAtom::Int(_), SpecAtom::Float(_)) => RelOutcome::FloatDependent,
            _ => RelOutcome::Exact(Err(spec_rel_mismatch(op, x, y))),
        },
        _ => RelOutcome::Exact(Err(spec_rel_mismatch(op, x, y))),
    }
}

/// The error for an incompatible pair: `DifferentConstantTypes` under an
/// equality, `NonNumericArgs` under an ordering.
pub open spec fn spec_rel_mismatch(op: RelOp, x: SpecExpression, y: SpecExpression) -> SpecEnvError {
    if is_equality(op) {
        SpecEnvError::DifferentConstantTypes(x, y)
    } else {
        SpecEnvError::NonNumericArgs(x, y)
    }
}

/// The chained relational fold: true exactly when every adjacent pair
/// satisfies the relation; the first erring pair decides the error.
pub open spec fn spec_rel_fold(op: RelOp, vals: Seq<SpecExpression>, i: int, acc: bool) -> RelOutcome
    decreases vals.len() - i,
{
    if i + 1 >= vals.len() || i < 0 {
        RelOutcome::Exact(Ok(acc))
    } else {
        match spec_rel_pair(op, vals[i], vals[i + 1]) {
            RelOutcome::FloatDependent => RelOutcome::FloatDependent,
            RelOutcome::Exact(Err(e)) => RelOutcome::Exact(Err(e)),
            RelOutcome::Exact(Ok(b)) => spec_rel_fold(op, vals, i + 1, acc && b),
        }
    }
}

/// Truncating 64-bit division, wrapping on the one overflowing case
/// (`i64::MIN / -1`). Mirrors `i64::checked_div`.
pub open spec fn div_wrap(a: i64, b: i64) -> i64 {
    if b == 0 {
        0
    } else {
        let x = a as int;
        let d = b as int;
        let q = if x == 0 {
            0int
        } else if x > 0 && d > 0 {
            x / d
        } else if x < 0 && d < 0 {
            (x * -1) / (d * -1)
        } else if x < 0 {
            ((x * -1) / d) * -1
        } else {
            (x / (d * -1)) * -1
        };
        if q < i64::MIN || q > i64::MAX {
            i64::MIN
        } else {
            q as i64
        }
    }
}

/// One arithmetic fold step. Integer steps wrap on overflow; a zero divisor
/// is an error; any float operand makes the step float-dependent.
pub open spec fn spec_arith_step(
    op: ArithOp,
    acc: SpecExpression,
    x: SpecExpression,
) -> BuiltinOutcome {
    match (acc, x) {
        (SpecExpression::Constant(a), SpecExpression::Constant(b)) => match (a, b) {
            (SpecAtom::Int(m), SpecAtom::Int(n)) => match op {
                ArithOp::Add => BuiltinOutcome::Exact(
                    Ok(SpecExpression::Constant(SpecAtom::Int(m.wrapping_add(n)))),
                ),
                ArithOp::Sub => BuiltinOutcome::Exact(
                    Ok(SpecExpression::Constant(SpecAtom::Int(m.wrapping_sub(n)))),
                ),
                ArithOp::Mul => BuiltinOutcome::Exact(
                    Ok(SpecExpression::Constant(SpecAtom::Int(m.wrapping_mul(n)))),
                ),
                ArithOp::Div => if n == 0 {
                    BuiltinOutcome::Exact(Err(SpecEnvError::DivisionByZero(acc, x)))
                } else {
                    BuiltinOutcome::Exact(
                        Ok(SpecExpression::Constant(SpecAtom::Int(div_wrap(m, n)))),
                    )
                },
            },
            (SpecAtom::Float(_), SpecAtom::Float(_)) => BuiltinOutcome::FloatDependent,
            (SpecAtom::Float(_), SpecAtom::Int(_)) => BuiltinOutcome::FloatDependent,
            (SpecAtom::Int(_), SpecAtom::Float(_)) => BuiltinOutcome::FloatDependent,
            _ => BuiltinOutcome::Exact(Err(SpecEnvError::NonNumericArgs(acc, x))),
        },
        _ => BuiltinOutcome::Exact(Err(SpecEnvError::NonNumericArgs(acc, x))),
    }
}

/// The arithmetic fold over the arguments, left to right, the accumulator
/// starting at the first operand. The first failing step attributes its own
/// operand pair.
pub open spec fn spec_arith_fold(
    op: ArithOp,
    acc: SpecExpression,
    vals: Seq<SpecExpression>,
    i: int,
) -> BuiltinOutcome
    decreases vals.len() - i,
{
    if i >= vals.len() || i < 0 {
        BuiltinOutcome::Exact(Ok(acc))
    } else {
        match spec_arith_step(op, acc, vals[i]) {
            BuiltinOutcome::FloatDependent => BuiltinOutcome::FloatDependent,
            BuiltinOutcome::Exact(Err(e)) => BuiltinOutcome::Exact(Err(e)),
            BuiltinOutcome::Exact(Ok(acc2)) => spec_arith_fold(op, acc2, vals, i + 1),
        }
    }
}

/// The identity seed of an arithmetic operator — `0` for `+` and `-`, `1`
/// for `*` and `/` — which is also the value of an application to fewer than
/// two operands.
pub open spec fn arith_seed(op: ArithOp) -> i64 {
    match op {
        ArithOp::Add => 0,
        ArithOp::Sub => 0,
        ArithOp::Mul => 1,
        ArithOp::Div => 1,
    }
}

/// The application of a builtin to already-evaluated arguments.
pub open spec fn spec_apply_builtin(b: Builtin, vals: Seq<SpecExpression>) -> BuiltinOutcome {
    match b {
        Builtin::Rel(op) => match spec_rel_fold(op, vals, 0, true) {
            RelOutcome::FloatDependent => BuiltinOutcome::FloatDependent,
            RelOutcome::Exact(Err(e)) => BuiltinOutcome::Exact(Err(e)),
            RelOutcome::Exact(Ok(r)) => BuiltinOutcome::Exact(
                Ok(SpecExpression::Constant(SpecAtom::Bool(r))),
            ),
        },
        Builtin::Arith(op) => if vals.len() < 2 {
            BuiltinOutcome::Exact(Ok(SpecExpression::Constant(SpecAtom::Int(arith_seed(op)))))
        } else {
            spec_arith_fold(op, vals[0], vals, 1)
        },
        Builtin::ListOf => BuiltinOutcome::Exact(Ok(SpecExpression::List(vals))),
        Builtin::Println => BuiltinOutcome::Exact(
            Ok(
                if vals.len() == 1 {
                    vals[0]
                } else {
                    SpecExpression::List(vals)
                },
            ),
        ),
    }
}

/// The call-local scope of a lambda application: the captured environment
/// with each parameter bound to its argument, a later parameter winning.
pub open spec fn bind_params(
    captured: SpecEnv,
    params: Seq<Seq<char>>,
    vals: Seq<SpecExpression>,
) -> SpecEnv
    decreases params.len(),
{
    if params.len() == 0 || vals.len() == 0 {
        captured
    } else {
        bind_params(
            captured,
            params.subrange(0, params.len() - 1),
            vals.subrange(0, vals.len() - 1),
        ).insert(params[params.len() - 1], vals[vals.len() - 1])
    }
}

/// The semantics of evaluation. See the module documentation.
pub open spec fn spec_eval(e: SpecExpression, env: SpecEnv, fuel: nat) -> Evaluation
    decreases fuel, 1int, 0int,
{
    if fuel == 0 {
        Evaluation::Exact(Err(SpecEvaluationError::DepthLimit), env)
    } else {
        match e {
            SpecExpression::Constant(SpecAtom::Symbol(s)) => if env.contains_key(s) {
                Evaluation::Exact(Ok(env[s]), env)
            } else {
                Evaluation::Exact(
                    Err(SpecEvaluationError::EnvError(SpecEnvError::NotFound(s))),
                    env,
                )
            },
            SpecExpression::Constant(_) => Evaluation::Exact(Ok(e), env),
            SpecExpression::Function(_) => Evaluation::Exact(Ok(e), env),
            SpecExpression::Define { name, value } => {
                let evaluated_name = if *name matches SpecExpression::Constant(
                    SpecAtom::Symbol(_),
                ) {
                    Evaluation::Exact(Ok(*name), env)
                } else {
                    spec_eval(*name, env, (fuel - 1) as nat)
                };
                match evaluated_name {
                    Evaluation::FloatDependent => Evaluation::FloatDependent,
                    Evaluation::Exact(Err(err), env1) => Evaluation::Exact(Err(err), env1),
                    Evaluation::Exact(Ok(x), env1) => match x {
                        SpecExpression::Constant(SpecAtom::Symbol(id)) => match spec_eval(
                            *value,
                            env1,
                            (fuel - 1) as nat,
                        ) {
                            Evaluation::FloatDependent => Evaluation::FloatDependent,
                            Evaluation::Exact(Err(err), env2) => Evaluation::Exact(Err(err), env2),
                            Evaluation::Exact(Ok(y), env2) => Evaluation::Exact(
                                Ok(y),
                                env2.insert(id, y),
                            ),
                        },
                        _ => Evaluation::Exact(
                            Err(
                                SpecEvaluationError::TypeMismatch {
                                    article: "an"@,
                                    expected_type: "identifier"@,
                                    input: *name,
                                    output: x,
                                },
                            ),
                            env1,
                        ),
                    },
                }
            },
            SpecExpression::If { cond, if_true, if_false } => {
                let evaluated_cond = if *cond matches SpecExpression::Constant(SpecAtom::Bool(_)) {
                    Evaluation::Exact(Ok(*cond), env)
                } else {
                    spec_eval(*cond, env, (fuel - 1) as nat)
                };
                match evaluated_cond {
                    Evaluation::FloatDependent => Evaluation::FloatDependent,
                    Evaluation::Exact(Err(err), env1) => Evaluation::Exact(Err(err), env1),
                    Evaluation::Exact(Ok(x), env1) => match x {
                        SpecExpression::Constant(SpecAtom::Bool(b)) => if b {
                            spec_eval(*if_true, env1, (fuel - 1) as nat)
                        } else {
                            spec_eval(*if_false, env1, (fuel - 1) as nat)
                        },
                        _ => Evaluation::Exact(
                            Err(
                                SpecEvaluationError::TypeMismatch {
                                    article: "a"@,
                                    expected_type: "bool"@,
                                    input: *cond,
                                    output: x,
                                },
                            ),
                            env1,
                        ),
                    },
                }
            },
            SpecExpression::Lambda { params, env: _, body } => Evaluation::Exact(
                Ok(SpecExpression::Lambda { params, env, body }),
                env,
            ),
            SpecExpression::List(es) => if es.len() == 0 {
                Evaluation::Exact(Ok(e), env)
            } else {
                match spec_eval(es[0], env, (fuel - 1) as nat) {
                    Evaluation::FloatDependent => Evaluation::FloatDependent,
                    Evaluation::Exact(Err(err), env1) => Evaluation::Exact(Err(err), env1),
                    Evaluation::Exact(Ok(head), env1) => match head {
                        SpecExpression::Function(b) => match spec_eval_args(es, 1, env1, fuel) {
                            ArgsEvaluation::FloatDependent => Evaluation::FloatDependent,
                            ArgsEvaluation::Exact(Err(err), env2) => Evaluation::Exact(
                                Err(err),
                                env2,
                            ),
                            ArgsEvaluation::Exact(Ok(vals), env2) => match spec_apply_builtin(
                                b,
                                vals,
                            ) {
                                BuiltinOutcome::FloatDependent => Evaluation::FloatDependent,
                                BuiltinOutcome::Exact(Ok(v)) => Evaluation::Exact(Ok(v), env2),
                                BuiltinOutcome::Exact(Err(err)) => Evaluation::Exact(
                                    Err(SpecEvaluationError::EnvError(err)),
                                    env2,
                                ),
                            },
                        },
                        SpecExpression::Lambda { params, env: captured, body } => if params.len()
                            != es.len() - 1 {
                            Evaluation::Exact(
                                Err(
                                    SpecEvaluationError::WrongNumberOfArgs {
                                        expected: params.len() as int,
                                        actual: es.len() - 1,
                                    },
                                ),
                                env1,
                            )
                        } else {
                            match spec_eval_args(es, 1, env1, fuel) {
                                ArgsEvaluation::FloatDependent => Evaluation::FloatDependent,
                                ArgsEvaluation::Exact(Err(err), env2) => Evaluation::Exact(
                                    Err(err),
                                    env2,
                                ),
                                ArgsEvaluation::Exact(Ok(vals), env2) => match spec_eval(
                                    *body,
                                    bind_params(captured, params, vals),
                                    (fuel - 1) as nat,
                                ) {
                                    Evaluation::FloatDependent => Evaluation::FloatDependent,
                                    Evaluation::Exact(res, _) => Evaluation::Exact(res, env2),
                                },
                            }
                        },
                        _ => Evaluation::Exact(
                            Err(
                                SpecEvaluationError::TypeMismatch {
                                    article: "a"@,
                                    expected_type: "function or lambda"@,
                                    input: es[0],
                                    output: head,
                                },
                            ),
                            env1,
                        ),
                    },
                }
            },
        }
    }
}

/// The semantics of evaluating the argument expressions `es[i..]`, left to
/// right, in the caller's environment.
pub open spec fn spec_eval_args(
    es: Seq<SpecExpression>,
    i: int,
    env: SpecEnv,
    fuel: nat,
) -> ArgsEvaluation
    decreases fuel, 0int, es.len() - i,
{
    if i >= es.len() || i < 0 {
        ArgsEvaluation::Exact(Ok(Seq::empty()), env)
    } else if fuel == 0 {
        ArgsEvaluation::Exact(Err(SpecEvaluationError::DepthLimit), env)
    } else {
        match spec_eval(es[i], env, (fuel - 1) as nat) {
            Evaluation::FloatDependent => ArgsEvaluation::FloatDependent,
            Evaluation::Exact(Err(err), env1) => ArgsEvaluation::Exact(Err(err), env1),
            Evaluation::Exact(Ok(v), env1) => match spec_eval_args(es, i + 1, env1, fuel) {
                ArgsEvaluation::FloatDependent => ArgsEvaluation::FloatDependent,
                ArgsEvaluation::Exact(Err(err), env2) => ArgsEvaluation::Exact(Err(err), env2),
                ArgsEvaluation::Exact(Ok(vs), env2) => ArgsEvaluation::Exact(
                    Ok(vs.insert(0, v)),
                    env2,
                ),
            },
        }
    }
}

/// Whether an executable builtin result realises a spec-level one.
pub open spec fn expr_env_result_matches(
    r: Result<Expression, EnvError>,
    s: Result<SpecExpression, SpecEnvError>,
) -> bool {
    match (r, s) {
        (Ok(a), Ok(b)) => a@ == b,
        (Err(x), Err(y)) => x@ == y,
        _ => false,
    }
}

fn rel_bool(op: RelOp, a: bool, b: bool) -> (r: bool)
    ensures
        r == spec_rel_bool(op, a, b),
{
    match op {
        RelOp::Eq => a == b,
        RelOp::Ne => a != b,
        RelOp::Lt => !a && b,
        RelOp::Gt => a && !b,
        RelOp::Le => !a || b,
        RelOp::Ge => a || !b,
    }
}

fn rel_int(op: RelOp, a: i64, b: i64) -> (r: bool)
    ensures
        r == spec_rel_int(op, a, b),
{
    match op {
        RelOp::Eq => a == b,
        RelOp::Ne => a != b,
        RelOp::Lt => a < b,
        RelOp::Gt => a > b,
        RelOp::Le => a <= b,
        RelOp::Ge => a >= b,
    }
}

fn rel_chars(op: RelOp, a: &str, b: &str) -> (r: bool)
    ensures
        r == spec_rel_chars(op, a@, b@),
{
    match op {
        RelOp::Eq => str_eq(a, b),
        RelOp::Ne => !str_eq(a, b),
        RelOp::Lt => str_lt(a, b),
        RelOp::Gt => str_lt(b, a),
        RelOp::Le => !str_lt(b, a),
        RelOp::Ge => !str_lt(a, b),
    }
}

fn rel_mismatch(op: RelOp, x: &Expression, y: &Expression) -> (e: EnvError)
    ensures
        e@ == spec_rel_mismatch(op, x@, y@),
{
    if op == RelOp::Eq || op == RelOp::Ne {
        EnvError::DifferentConstantTypes(x.clone(), y.clone())
    } else {
        EnvError::NonNumericArgs(x.clone(), y.clone())
    }
}

/// One adjacent pair of a chained relational application.
fn rel_pair<F: FloatOps>(op: RelOp, x: &Expression, y: &Expression, ops: &F) -> (r: Result<
    bool,
    EnvError,
>)
    ensures
        match spec_rel_pair(op, x@, y@) {
            RelOutcome::Exact(res) => match (r, res) {
                (Ok(a), Ok(b)) => a == b,
                (Err(e1), Err(e2)) => e1@ == e2,
                _ => false,
            },
            RelOutcome::FloatDependent => r is Ok,
        },
{
    match (x, y) {
        (Expression::Constant(a), Expression::Constant(b)) => match (a, b) {
            (Atom::Bool(p), Atom::Bool(q)) => Ok(rel_bool(op, *p, *q)),
            (Atom::Int(m), Atom::Int(n)) => Ok(rel_int(op, *m, *n)),
            (Atom::Str(s), Atom::Str(t)) => Ok(rel_chars(op, s.as_str(), t.as_str())),
            (Atom::Symbol(s), Atom::Symbol(t)) => Ok(rel_chars(op, s.as_ref(), t.as_ref())),
            (Atom::Float(p), Atom::Float(q)) => Ok(ops.float_compare(op, *p, *q)),
            (Atom::Float(p), Atom::Int(n)) => Ok(
                ops.float_compare(op, *p, ops.float_of_int(*n)),
            ),
            (Atom::Int(m), Atom::Float(q)) => Ok(
                ops.float_compare(op, ops.float_of_int(*m), *q),
            ),
            _ => Err(rel_mismatch(op, x, y)),
        },
        _ => Err(rel_mismatch(op, x, y)),
    }
}

fn arith_seed_value(op: ArithOp) -> (s: i64)
    ensures
        s == arith_seed(op),
{
    match op {
        ArithOp::Add => 0,
        ArithOp::Sub => 0,
        ArithOp::Mul => 1,
        ArithOp::Div => 1,
    }
}

/// One step of an arithmetic fold.
fn arith_step<F: FloatOps>(op: ArithOp, acc: &Expression, x: &Expression, ops: &F) -> (r: Result<
    Expression,
    EnvError,
>)
    ensures
        match spec_arith_step(op, acc@, x@) {
            BuiltinOutcome::Exact(res) => expr_env_result_matches(r, res),
            BuiltinOutcome::FloatDependent => r is Ok,
        },
{
    match (acc, x) {
        (Expression::Constant(a), Expression::Constant(b)) => match (a, b) {
            (Atom::Int(m), Atom::Int(n)) => match op {
                ArithOp::Add => Ok(Expression::Constant(Atom::Int(m.wrapping_add(*n)))),
                ArithOp::Sub => Ok(Expression::Constant(Atom::Int(m.wrapping_sub(*n)))),
                ArithOp::Mul => Ok(Expression::Constant(Atom::Int(m.wrapping_mul(*n)))),
                ArithOp::Div => if *n == 0 {
                    Err(EnvError::DivisionByZero(acc.clone(), x.clone()))
                } else {
                    match m.checked_div(*n) {
                        Some(q) => Ok(Expression::Constant(Atom::Int(q))),
                        None => Ok(Expression::Constant(Atom::Int(i64::MIN))),
                    }
                },
            },
            (Atom::Float(p), Atom::Float(q)) => Ok(
                Expression::Constant(Atom::Float(ops.float_arith(op, *p, *q))),
            ),
            (Atom::Float(p), Atom::Int(n)) => Ok(
                Expression::Constant(Atom::Float(ops.float_arith(op, *p, ops.float_of_int(*n)))),
            ),
            (Atom::Int(m), Atom::Float(q)) => Ok(
                Expression::Constant(Atom::Float(ops.float_arith(op, ops.float_of_int(*m), *q))),
            ),
            _ => Err(EnvError::NonNumericArgs(acc.clone(), x.clone())),
        },
        _ => Err(EnvError::NonNumericArgs(acc.clone(), x.clone())),
    }
}

/// Applies a builtin operation to already-evaluated arguments.
pub(crate) fn apply_builtin<F: FloatOps>(b: Builtin, vals: &Vec<Expression>, ops: &F) -> (r: Result<
    Expression,
    EnvError,
>)
    ensures
        match spec_apply_builtin(b, exprs_view(vals@)) {
            BuiltinOutcome::Exact(res) => expr_env_result_matches(r, res),
            BuiltinOutcome::FloatDependent => true,
        },
{
    let ghost vs = exprs_view(vals@);
    match b {
        Builtin::Rel(op) => {
            let mut acc = true;
            let mut i: usize = 0;
            while vals.len() >= 1 && i < vals.len() - 1
                invariant
                    b == Builtin::Rel(op),
                    i <= vals.len(),
                    vs == exprs_view(vals@),
                    vs.len() == vals@.len(),
                    spec_rel_fold(op, vs, 0, true) == spec_rel_fold(op, vs, i as int, acc)
                        || spec_rel_fold(op, vs, 0, true) is FloatDependent,
                decreases vals.len() - i,
            {
                let pair_result = rel_pair(op, &vals[i], &vals[i + 1], ops);
                proof {
                    assert(vs[i as int] == vals@[i as int]@);
                    assert(vs[i as int + 1] == vals@[i as int + 1]@);
                }
                match pair_result {
                    Err(e) => {
                        proof {
                            assert(spec_rel_fold(op, vs, i as int, acc) == RelOutcome::Exact(
                                Err::<bool, SpecEnvError>(e@),
                            ));
                        }
                        return Err(e);
                    },
                    Ok(pair_holds) => {
                        acc = acc && pair_holds;
                    },
                }
                i = i + 1;
            }
            Ok(Expression::Constant(Atom::Bool(acc)))
        },
        Builtin::Arith(op) => {
            if vals.len() < 2 {
                return Ok(Expression::Constant(Atom::Int(arith_seed_value(op))));
            }
            let mut acc = vals[0].clone();
            proof {
                assert(vs[0] == vals@[0]@);
            }
            let mut i: usize = 1;
            while i < vals.len()
                invariant
                    b == Builtin::Arith(op),
                    1 <= i <= vals.len(),
                    vals.len() >= 2,
                    vs == exprs_view(vals@),
                    vs.len() == vals@.len(),
                    spec_arith_fold(op, vs[0], vs, 1) == spec_arith_fold(op, acc@, vs, i as int)
                        || spec_arith_fold(op, vs[0], vs, 1) is FloatDependent,
                decreases vals.len() - i,
            {
                let step_result = arith_step(op, &acc, &vals[i], ops);
                proof {
                    assert(vs[i as int] == vals@[i as int]@);
                }
                match step_result {
                    Err(e) => {
                        proof {
                            assert(spec_arith_fold(op, acc@, vs, i as int) == BuiltinOutcome::Exact(
                                Err::<SpecExpression, SpecEnvError>(e@),
                            ));
                        }
                        return Err(e);
                    },
                    Ok(next) => {
                        acc = next;
                    },
                }
                i = i + 1;
            }
            Ok(acc)
        },
        Builtin::ListOf => Ok(Expression::List(clone_exprs(vals))),
        Builtin::Println => {
            let value = if vals.len() == 1 {
                vals[0].clone()
            } else {
                Expression::List(clone_exprs(vals))
            };
            let text = print_expression(&value, ops);
            crate::print::print_line(text.as_str());
            Ok(value)
        },
    }
}

/// Whether an executable result realises a spec-level result, view for view.
pub open spec fn eval_result_matches(
    r: Result<Expression, EvaluationError>,
    s: Result<SpecExpression, SpecEvaluationError>,
) -> bool {
    match (r, s) {
        (Ok(a), Ok(b)) => a@ == b,
        (Err(x), Err(y)) => x@ == y,
        _ => false,
    }
}

/// Whether an executable argument run realises a spec-level one.
pub open spec fn args_result_matches(
    r: Result<Vec<Expression>, EvaluationError>,
    s: Result<Seq<SpecExpression>, SpecEvaluationError>,
) -> bool {
    match (r, s) {
        (Ok(a), Ok(b)) => exprs_view(a@) == b,
        (Err(x), Err(y)) => x@ == y,
        _ => false,
    }
}

/// Evaluates the argument expressions `xs[i..]`, left to right, in the
/// caller's environment. Realises `spec_eval_args`.
fn eval_args<F: FloatOps>(
    xs: &Vec<Expression>,
    i: usize,
    environment: &mut Environment,
    fuel: u64,
    ops: &F,
) -> (r: Result<Vec<Expression>, EvaluationError>)
    ensures
        match spec_eval_args(exprs_view(xs@), i as int, old(environment)@, fuel as nat) {
            ArgsEvaluation::Exact(res, em) => final(environment)@ == em && args_result_matches(
                r,
                res,
            ),
            ArgsEvaluation::FloatDependent => true,
        },
        match r {
            Ok(v) => v@.len() == if i <= xs@.len() {
                xs@.len() - i
            } else {
                0
            },
            Err(_) => true,
        },
    decreases fuel, 0int, xs.len() - i,
{
    if i >= xs.len() {
        return Ok(Vec::new());
    }
    if fuel == 0 {
        return Err(EvaluationError::DepthLimit);
    }
    let v = match eval(&xs[i], environment, fuel - 1, ops) {
        Ok(v) => v,
        Err(e) => {
            return Err(e);
        },
    };
    let mut rest = match eval_args(xs, i + 1, environment, fuel, ops) {
        Ok(r) => r,
        Err(e) => {
            return Err(e);
        },
    };
    rest.insert(0, v);
    proof {
        match spec_eval_args(exprs_view(xs@), i as int, old(environment)@, fuel as nat) {
            ArgsEvaluation::Exact(res, em) => {
                if res is Ok {
                    assert(exprs_view(rest@) =~= res->Ok_0);
                }
            },
            ArgsEvaluation::FloatDependent => {},
        }
    }
    Ok(rest)
}

/// Evaluates an expression against the environment. Realises `spec_eval`:
/// the result and the environment after the call are exactly those of the
/// semantics whenever the evaluation is not float-dependent.
pub fn eval<F: FloatOps>(
    expression: &Expression,
    environment: &mut Environment,
    fuel: u64,
    ops: &F,
) -> (r: Result<Expression, EvaluationError>)
    ensures
        match spec_eval(expression@, old(environment)@, fuel as nat) {
            Evaluation::Exact(res, em) => final(environment)@ == em && eval_result_matches(r, res),
            Evaluation::FloatDependent => true,
        },
    decreases fuel, 1int, 0int,
{
    if fuel == 0 {
        return Err(EvaluationError::DepthLimit);
    }
    match expression {
        Expression::Constant(a) => match a {
            Atom::Symbol(s) => match environment.lookup(s) {
                Ok(v) => Ok(v),
                Err(e) => Err(EvaluationError::EnvError(e)),
            },
            _ => Ok(expression.clone()),
        },
        Expression::Function(_) => Ok(expression.clone()),
        Expression::Define(d) => {
            let name_is_symbol = matches!(&d.name, Expression::Constant(Atom::Symbol(_)));
            let x = if name_is_symbol {
                d.name.clone()
            } else {
                match eval(&d.name, environment, fuel - 1, ops) {
                    Ok(v) => v,
                    Err(e) => {
                        return Err(e);
                    },
                }
            };
            match x {
                Expression::Constant(Atom::Symbol(id)) => {
                    match eval(&d.value, environment, fuel - 1, ops) {
                        Err(e) => Err(e),
                        Ok(y) => {
                            environment.define(id, y.clone());
                            Ok(y)
                        },
                    }
                },
                other => Err(
                    EvaluationError::TypeMismatch {
                        article: "an".to_owned(),
                        expected_type: "identifier".to_owned(),
                        input: d.name.clone(),
                        output: other,
                    },
                ),
            }
        },
        Expression::If(i) => {
            let cond_is_bool = matches!(&i.cond, Expression::Constant(Atom::Bool(_)));
            let x = if cond_is_bool {
                i.cond.clone()
            } else {
                match eval(&i.cond, environment, fuel - 1, ops) {
                    Ok(v) => v,
                    Err(e) => {
                        return Err(e);
                    },
                }
            };
            match x {
                Expression::Constant(Atom::Bool(b)) => {
                    if b {
                        eval(&i.if_true, environment, fuel - 1, ops)
                    } else {
                        eval(&i.if_false, environment, fuel - 1, ops)
                    }
                },
                other => Err(
                    EvaluationError::TypeMismatch {
                        article: "a".to_owned(),
                        expected_type: "bool".to_owned(),
                        input: i.cond.clone(),
                        output: other,
                    },
                ),
            }
        },
        Expression::Lambda(l) => Ok(
            Expression::Lambda(
                Box::new(
                    Lambda {
                        params: clone_idents(&l.params),
                        env: environment.clone(),
                        body: l.body.clone(),
                    },
                ),
            ),
        ),
        Expression::List(xs) => {
            proof {
                assert(expression@ == SpecExpression::List(exprs_view(xs@)));
                assert(exprs_view(xs@).len() == xs@.len());
                if xs@.len() > 0 {
                    assert(exprs_view(xs@)[0] == expr_view(xs@[0]));
                }
            }
            if xs.len() == 0 {
                return Ok(expression.clone());
            }
            let head = match eval(&xs[0], environment, fuel - 1, ops) {
                Ok(v) => v,
                Err(e) => {
                    return Err(e);
                },
            };
            match head {
                Expression::Function(b) => {
                    let vals = match eval_args(xs, 1, environment, fuel, ops) {
                        Ok(v) => v,
                        Err(e) => {
                            return Err(e);
                        },
                    };
                    match apply_builtin(b, &vals, ops) {
                        Ok(v) => Ok(v),
                        Err(e) => Err(EvaluationError::EnvError(e)),
                    }
                },
                Expression::Lambda(l) => {
                    if l.params.len() != xs.len() - 1 {
                        return Err(
                            EvaluationError::WrongNumberOfArgs {
                                expected: l.params.len(),
                                actual: xs.len() - 1,
                            },
                        );
                    }
                    let vals = match eval_args(xs, 1, environment, fuel, ops) {
                        Ok(v) => v,
                        Err(e) => {
                            return Err(e);
                        },
                    };
                    let ghost captured = l.env@;
                    let ghost param_names = idents_view(l.params@);
                    let ghost arg_vals = exprs_view(vals@);
                    let mut callee = l.env.clone();
                    let mut j: usize = 0;
                    while j < l.params.len()
                        invariant
                            j <= l.params.len(),
                            vals@.len() == l.params@.len(),
                            captured == l.env@,
                            param_names == idents_view(l.params@),
                            arg_vals == exprs_view(vals@),
                            arg_vals.len() == vals@.len(),
                            callee@ == bind_params(
                                captured,
                                param_names.subrange(0, j as int),
                                arg_vals.subrange(0, j as int),
                            ),
                        decreases l.params.len() - j,
                    {
                        callee.define(l.params[j].clone(), vals[j].clone());
                        proof {
                            let p1 = param_names.subrange(0, j + 1 as int);
                            let v1 = arg_vals.subrange(0, j + 1 as int);
                            assert(p1.subrange(0, p1.len() - 1) =~= param_names.subrange(
                                0,
                                j as int,
                            ));
                            assert(v1.subrange(0, v1.len() - 1) =~= arg_vals.subrange(0, j as int));
                            assert(p1[p1.len() - 1] == param_names[j as int]);
                            assert(v1[v1.len() - 1] == arg_vals[j as int]);
                        }
                        j = j + 1;
                    }
                    proof {
                        assert(param_names.subrange(0, param_names.len() as int) =~= param_names);
                        assert(arg_vals.subrange(0, arg_vals.len() as int) =~= arg_vals);
                    }
                    eval(&l.body, &mut callee, fuel - 1, ops)
                },
                other => Err(
                    EvaluationError::TypeMismatch {
                        article: "a".to_owned(),
                        expected_type: "function or lambda".to_owned(),
                        input: xs[0].clone(),
                        output: other,
                    },
                ),
            }
        },
    }
}

} // verus!
