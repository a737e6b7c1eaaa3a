//! A small interpreter for a Scheme-like expression language.
//!
//! Source text is read into a symbolic-expression tree, evaluated against a
//! mutable binding environment, and the result is rendered back to text.
//! Every step of that pipeline is specified and verified: the reader and the
//! printer against a spec-level grammar, the evaluator against a spec-level
//! evaluation function, and the environment against a map model.
//!
//! A lambda captures its environment when it is evaluated, not when it is
//! read: the closure-capture point is the evaluation of the lambda form.
//!
//! Floating-point values travel through the interpreter as IEEE-754 bit
//! patterns; the arithmetic on them is delegated to a [`floats::FloatOps`]
//! implementation supplied by the embedding, since verified code here works
//! on integers only. Every contract is exact up to that delegation: an
//! outcome that passed through a float operation is marked float-dependent
//! and left open, and everything else is pinned down.
use vstd::prelude::*;

pub mod eval;
pub mod expression;
pub mod floats;
pub mod laws;
pub mod print;
pub mod read;
pub mod text;

verus! {

/// A top-level error: reading failed, evaluation failed, or a builtin
/// operation failed (the latter reaches the caller wrapped in an
/// [`eval::EvaluationError`], but stands on its own for embeddings that call
/// the environment directly).
#[derive(Debug)]
pub enum ScumError {
    ReadingError(read::ReadingError),
    EvaluationError(eval::EvaluationError),
    EnvError(expression::EnvError),
}

/// The model of a [`ScumError`].
#[verifier::ext_equal]
pub enum SpecScumError {
    ReadingError(read::SpecReadingError),
    EvaluationError(eval::SpecEvaluationError),
    EnvError(expression::SpecEnvError),
}

impl View for ScumError {
    type V = SpecScumError;

    open spec fn view(&self) -> SpecScumError {
        match self {
            ScumError::ReadingError(e) => SpecScumError::ReadingError(e@),
            ScumError::EvaluationError(e) => SpecScumError::EvaluationError(e@),
            ScumError::EnvError(e) => SpecScumError::EnvError(e@),
        }
    }
}

/// The recursion budget a fresh session gives each evaluation; see [`eval`].
/// A session built with [`Scum::with_budget`] may choose another.
pub const EVAL_FUEL: u64 = 4096;

/// The outcome of one read-evaluate-print round: exact, or float-dependent.
pub enum SessionStep {
    Exact(Result<Seq<char>, SpecScumError>, expression::SpecEnv),
    FloatDependent,
}

/// The semantics of one read-evaluate-print round against a session
/// environment. A failing round leaves the environment exactly as it was:
/// definitions that committed inside the failing expression do not survive.
pub open spec fn spec_read_eval_print(
    s: Seq<char>,
    env: expression::SpecEnv,
    fuel: nat,
) -> SessionStep {
    match read::spec_read(s) {
        read::ReadOutcome::Failed(k) => SessionStep::Exact(
            Err(SpecScumError::ReadingError(k)),
            env,
        ),
        read::ReadOutcome::Read(v) => if !expression::no_floats(v) {
            SessionStep::FloatDependent
        } else {
            match eval::spec_eval(v, env, fuel) {
                eval::Evaluation::FloatDependent => SessionStep::FloatDependent,
                eval::Evaluation::Exact(res, em) => match res {
                    Err(err) => SessionStep::Exact(
                        Err(SpecScumError::EvaluationError(err)),
                        env,
                    ),
                    Ok(x) => if print::float_free(x) {
                        SessionStep::Exact(Ok(print::spec_print(x)), em)
                    } else {
                        SessionStep::FloatDependent
                    },
                },
            }
        },
    }
}

/// An interpreter session: a persistent top-level environment together with
/// the floating-point unit of the embedding and the recursion budget it
/// grants each evaluation.
pub struct Scum<F: floats::FloatOps> {
    env: expression::Environment,
    ops: F,
    fuel: u64,
}

impl<F: floats::FloatOps> View for Scum<F> {
    type V = expression::SpecEnv;

    closed spec fn view(&self) -> expression::SpecEnv {
        self.env@
    }
}

impl<F: floats::FloatOps> Scum<F> {
    /// The recursion budget this session grants each evaluation.
    pub closed spec fn budget(&self) -> u64 {
        self.fuel
    }

    /// A fresh session over the given floating-point unit, with exactly the
    /// builtin bindings and the default recursion budget.
    pub fn new(ops: F) -> (s: Scum<F>)
        ensures
            s@ == expression::initial_env(),
            s.budget() == EVAL_FUEL,
    {
        Scum { env: expression::Environment::default(), ops, fuel: EVAL_FUEL }
    }

    /// A fresh session with a recursion budget of the embedding's choice.
    pub fn with_budget(ops: F, fuel: u64) -> (s: Scum<F>)
        ensures
            s@ == expression::initial_env(),
            s.budget() == fuel,
    {
        Scum { env: expression::Environment::default(), ops, fuel }
    }

    /// Reads one expression from the input, evaluates it against the session
    /// environment, and returns the printed result. Definitions accumulate
    /// for later calls; a failing call leaves the session environment exactly
    /// as it was, whatever committed inside the failing expression.
    pub fn read_eval_print(&mut self, input: &str) -> (r: Result<String, ScumError>)
        ensures
            final(self).budget() == old(self).budget(),
            r is Err ==> final(self)@ == old(self)@,
            match spec_read_eval_print(input@, old(self)@, old(self).budget() as nat) {
                SessionStep::Exact(res, em) => final(self)@ == em && (match (r, res) {
                    (Ok(a), Ok(b)) => a@ == b,
                    (Err(x), Err(y)) => x@ == y,
                    _ => false,
                }),
                SessionStep::FloatDependent => true,
            },
    {
        let expr = match read::read(input, &self.ops) {
            Ok(e) => e,
            Err(e) => {
                return Err(ScumError::ReadingError(e));
            },
        };
        proof {
            match read::spec_read(input@) {
                read::ReadOutcome::Read(v) => {
                    if expression::no_floats(v) {
                        expression::lemma_eq_mod_floats_exact(expr@, v);
                    }
                },
                read::ReadOutcome::Failed(_) => {},
            }
        }
        let mut scratch = self.env.clone();
        let result = match eval::eval(&expr, &mut scratch, self.fuel, &self.ops) {
            Ok(v) => {
                self.env = scratch;
                v
            },
            Err(e) => {
                return Err(ScumError::EvaluationError(e));
            },
        };
        Ok(print::print_expression(&result, &self.ops))
    }
}

} // verus!
