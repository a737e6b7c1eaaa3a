//! Rendering expressions back to text.
//!
//! The spec-level printer `spec_print` fixes the output exactly: booleans as
//! `#t`/`#f`, integers in decimal, strings and symbols verbatim, lists as
//! space-separated elements in parentheses, and lambdas and builtins as
//! opaque tags. Floats are the one exception: their decimal rendering comes
//! from the embedding's [`crate::floats::FloatOps`], so the printer's
//! contract is exact for every float-free expression.
use crate::expression::{Atom, Expression, SpecAtom, SpecExpression};
use crate::floats::FloatOps;
use crate::text::{chars_of, int_text, push_int, string_of_chars};
use std::io::Write;
use vstd::prelude::*;

verus! {

/// Relies on std::io::stdout (via writeln): writes the text and a newline to
/// standard output. Nothing is claimed of it.
#[verifier::external_body]
pub(crate) fn print_line(text: &str) {
    let mut out = std::io::stdout();
    let _ = writeln!(out, "{}", text);
}

/// Whether no printed position of the expression holds a float. A lambda or
/// a builtin prints as an opaque tag, so what they enclose does not matter.
pub open spec fn float_free(e: SpecExpression) -> bool
    decreases e,
{
    match e {
        SpecExpression::Constant(a) => !(a is Float),
        SpecExpression::Define { name, value } => float_free(*name) && float_free(*value),
        SpecExpression::If { cond, if_true, if_false } => float_free(*cond) && float_free(*if_true)
            && float_free(*if_false),
        SpecExpression::Function(_) => true,
        SpecExpression::Lambda { .. } => true,
        SpecExpression::List(es) => items_float_free(es),
    }
}

pub open spec fn items_float_free(es: Seq<SpecExpression>) -> bool
    decreases es,
{
    if es.len() == 0 {
        true
    } else {
        items_float_free(es.drop_last()) && float_free(es.last())
    }
}

pub broadcast proof fn lemma_items_float_free_index(es: Seq<SpecExpression>, i: int)
    requires
        #[trigger] items_float_free(es),
        0 <= i < es.len(),
    ensures
        float_free(#[trigger] es[i]),
    decreases es.len(),
{
    if i < es.len() - 1 {
        lemma_items_float_free_index(es.drop_last(), i);
    }
}

/// The printed form of an atom. Floats are left unspecified; see the module
/// documentation.
pub open spec fn spec_print_atom(a: SpecAtom) -> Seq<char> {
    match a {
        SpecAtom::Bool(b) => if b {
            "#t"@
        } else {
            "#f"@
        },
        SpecAtom::Float(_) => Seq::empty(),
        SpecAtom::Int(n) => int_text(n as int),
        SpecAtom::Str(s) => s,
        SpecAtom::Symbol(s) => s,
    }
}

/// The printed form of an expression.
pub open spec fn spec_print(e: SpecExpression) -> Seq<char>
    decreases e,
{
    match e {
        SpecExpression::Constant(a) => spec_print_atom(a),
        SpecExpression::Define { name, value } => "(define "@ + spec_print(*name) + " "@
            + spec_print(*value) + ")"@,
        SpecExpression::If { cond, if_true, if_false } => "(if "@ + spec_print(*cond) + " "@
            + spec_print(*if_true) + " "@ + spec_print(*if_false) + ")"@,
        SpecExpression::Function(_) => "#<function>"@,
        SpecExpression::Lambda { params, .. } => "(lambda ("@ + spec_print_params(params)
            + ") #<procedure>)"@,
        SpecExpression::List(es) => "("@ + spec_print_items(es) + ")"@,
    }
}

/// The printed formal parameters of a lambda, space-separated.
pub open spec fn spec_print_params(params: Seq<Seq<char>>) -> Seq<char>
    decreases params.len(),
{
    if params.len() == 0 {
        Seq::empty()
    } else if params.len() == 1 {
        params[0]
    } else {
        spec_print_params(params.drop_last()) + " "@ + params.last()
    }
}

/// The printed elements of a list, space-separated.
pub open spec fn spec_print_items(es: Seq<SpecExpression>) -> Seq<char>
    decreases es,
{
    if es.len() == 0 {
        Seq::empty()
    } else if es.len() == 1 {
        spec_print(es[0])
    } else {
        spec_print_items(es.drop_last()) + " "@ + spec_print(es.last())
    }
}

/// Appends a string literal's characters to the output.
fn push_text(out: &mut Vec<char>, text: &str)
    ensures
        final(out)@ == old(out)@ + text@,
{
    let mut chars = chars_of(text);
    out.append(&mut chars);
}

/// Appends the printed form of the expression to `out`. Exact whenever the
/// expression is float-free.
pub(crate) fn print_chars<F: FloatOps>(expression: &Expression, out: &mut Vec<char>, ops: &F)
    ensures
        float_free(expression@) ==> final(out)@ == old(out)@ + spec_print(expression@),
    decreases expression,
{
    match expression {
        Expression::Constant(a) => match a {
            Atom::Bool(b) => {
                if *b {
                    push_text(out, "#t");
                } else {
                    push_text(out, "#f");
                }
            },
            Atom::Float(bits) => {
                let text = ops.float_text(*bits);
                let mut chars = chars_of(text.as_str());
                out.append(&mut chars);
            },
            Atom::Int(n) => {
                push_int(*n, out);
            },
            Atom::Str(s) => {
                push_text(out, s.as_str());
            },
            Atom::Symbol(id) => {
                push_text(out, id.as_ref());
            },
        },
        Expression::Define(d) => {
            push_text(out, "(define ");
            print_chars(&d.name, out, ops);
            push_text(out, " ");
            print_chars(&d.value, out, ops);
            push_text(out, ")");
            proof {
                if float_free(expression@) {
                    assert(out@ =~= old(out)@ + spec_print(expression@));
                }
            }
        },
        Expression::If(i) => {
            push_text(out, "(if ");
            print_chars(&i.cond, out, ops);
            push_text(out, " ");
            print_chars(&i.if_true, out, ops);
            push_text(out, " ");
            print_chars(&i.if_false, out, ops);
            push_text(out, ")");
            proof {
                if float_free(expression@) {
                    assert(out@ =~= old(out)@ + spec_print(expression@));
                }
            }
        },
        Expression::Function(_) => {
            push_text(out, "#<function>");
        },
        Expression::Lambda(l) => {
            push_text(out, "(lambda (");
            let ghost params = crate::expression::idents_view(l.params@);
            let mut j: usize = 0;
            while j < l.params.len()
                invariant
                    j <= l.params.len(),
                    params == crate::expression::idents_view(l.params@),
                    out@ == old(out)@ + "(lambda ("@ + spec_print_params(params.subrange(
                        0,
                        j as int,
                    )),
                decreases l.params.len() - j,
            {
                if j > 0 {
                    push_text(out, " ");
                }
                push_text(out, l.params[j].as_ref());
                proof {
                    let sub = params.subrange(0, j + 1 as int);
                    assert(sub.drop_last() =~= params.subrange(0, j as int));
                    assert(sub.last() == params[j as int]);
                    assert(out@ =~= old(out)@ + "(lambda ("@ + spec_print_params(sub));
                }
                j = j + 1;
            }
            push_text(out, ") #<procedure>)");
            proof {
                assert(params.subrange(0, params.len() as int) =~= params);
                assert(out@ =~= old(out)@ + spec_print(expression@));
            }
        },
        Expression::List(xs) => {
            push_text(out, "(");
            print_items_chars(xs, out, ops);
            push_text(out, ")");
            proof {
                if float_free(expression@) {
                    assert(out@ =~= old(out)@ + spec_print(expression@));
                }
            }
        },
    }
}

/// Appends the printed, space-separated elements of a list to `out`. Exact
/// whenever every element is float-free.
fn print_items_chars<F: FloatOps>(xs: &Vec<Expression>, out: &mut Vec<char>, ops: &F)
    ensures
        items_float_free(crate::expression::exprs_view(xs@)) ==> final(out)@ == old(out)@
            + spec_print_items(crate::expression::exprs_view(xs@)),
    decreases xs,
{
    let ghost items = crate::expression::exprs_view(xs@);
    proof {
        broadcast use crate::expression::lemma_exprs_view_len;

    }
    let mut j: usize = 0;
    while j < xs.len()
        invariant
            j <= xs.len(),
            items == crate::expression::exprs_view(xs@),
            items.len() == xs@.len(),
            items_float_free(items) ==> out@ == old(out)@ + spec_print_items(
                items.subrange(0, j as int),
            ),
        decreases xs.len() - j,
    {
        if j > 0 {
            push_text(out, " ");
        }
        print_chars(&xs[j], out, ops);
        proof {
            broadcast use crate::expression::lemma_exprs_view_index,
                lemma_items_float_free_index;

            if items_float_free(items) {
                let sub = items.subrange(0, j + 1 as int);
                assert(sub.drop_last() =~= items.subrange(0, j as int));
                assert(sub.last() == items[j as int]);
                assert(out@ =~= old(out)@ + spec_print_items(sub));
            }
        }
        j = j + 1;
    }
    proof {
        if items_float_free(items) {
            assert(items.subrange(0, items.len() as int) =~= items);
        }
    }
}

/// The printed form of the expression, exact whenever it is float-free.
pub fn print_expression<F: FloatOps>(expression: &Expression, ops: &F) -> (s: String)
    ensures
        float_free(expression@) ==> s@ == spec_print(expression@),
{
    let mut out: Vec<char> = Vec::new();
    print_chars(expression, &mut out, ops);
    string_of_chars(&out)
}

/// Whether the expressions an error carries are all float-free, so that its
/// message is exact.
pub open spec fn env_error_float_free(e: crate::expression::SpecEnvError) -> bool {
    match e {
        crate::expression::SpecEnvError::DifferentConstantTypes(a, b) => float_free(a)
            && float_free(b),
        crate::expression::SpecEnvError::NonNumericArgs(a, b) => float_free(a) && float_free(b),
        crate::expression::SpecEnvError::DivisionByZero(a, b) => float_free(a) && float_free(b),
        crate::expression::SpecEnvError::NotFound(_) => true,
    }
}

/// The message of an environment error.
pub open spec fn spec_env_error_message(e: crate::expression::SpecEnvError) -> Seq<char> {
    match e {
        crate::expression::SpecEnvError::DifferentConstantTypes(a, b) => {
            "Different constant types; received "@ + spec_print(a) + " and "@ + spec_print(b)
        },
        crate::expression::SpecEnvError::NonNumericArgs(a, b) => {
            "Expected two numeric args; received "@ + spec_print(a) + " and "@ + spec_print(b)
        },
        crate::expression::SpecEnvError::DivisionByZero(a, b) => {
            "Division by zero; received "@ + spec_print(a) + " and "@ + spec_print(b)
        },
        crate::expression::SpecEnvError::NotFound(id) => "Unknown identifier "@ + id,
    }
}

fn push_env_error_message<F: FloatOps>(
    error: &crate::expression::EnvError,
    out: &mut Vec<char>,
    ops: &F,
)
    ensures
        env_error_float_free(error@) ==> final(out)@ == old(out)@ + spec_env_error_message(
            error@,
        ),
{
    match error {
        crate::expression::EnvError::DifferentConstantTypes(a, b) => {
            push_text(out, "Different constant types; received ");
            print_chars(a, out, ops);
            push_text(out, " and ");
            print_chars(b, out, ops);
            proof {
                if env_error_float_free(error@) {
                    assert(out@ =~= old(out)@ + spec_env_error_message(error@));
                }
            }
        },
        crate::expression::EnvError::NonNumericArgs(a, b) => {
            push_text(out, "Expected two numeric args; received ");
            print_chars(a, out, ops);
            push_text(out, " and ");
            print_chars(b, out, ops);
            proof {
                if env_error_float_free(error@) {
                    assert(out@ =~= old(out)@ + spec_env_error_message(error@));
                }
            }
        },
        crate::expression::EnvError::DivisionByZero(a, b) => {
            push_text(out, "Division by zero; received ");
            print_chars(a, out, ops);
            push_text(out, " and ");
            print_chars(b, out, ops);
            proof {
                if env_error_float_free(error@) {
                    assert(out@ =~= old(out)@ + spec_env_error_message(error@));
                }
            }
        },
        crate::expression::EnvError::NotFound(id) => {
            push_text(out, "Unknown identifier ");
            push_text(out, id.as_ref());
        },
    }
}

impl crate::expression::EnvError {
    /// The human-readable message, exact whenever the expressions the error
    /// carries are float-free.
    pub fn message<F: FloatOps>(&self, ops: &F) -> (s: String)
        ensures
            env_error_float_free(self@) ==> s@ == spec_env_error_message(self@),
    {
        let mut out: Vec<char> = Vec::new();
        push_env_error_message(self, &mut out, ops);
        string_of_chars(&out)
    }
}

/// Whether the expressions an evaluation error carries are all float-free.
pub open spec fn evaluation_error_float_free(e: crate::eval::SpecEvaluationError) -> bool {
    match e {
        crate::eval::SpecEvaluationError::TypeMismatch { input, output, .. } => float_free(input)
            && float_free(output),
        crate::eval::SpecEvaluationError::WrongNumberOfArgs { .. } => true,
        crate::eval::SpecEvaluationError::EnvError(inner) => env_error_float_free(inner),
        crate::eval::SpecEvaluationError::DepthLimit => true,
    }
}

/// The message of an evaluation error.
pub open spec fn spec_evaluation_error_message(e: crate::eval::SpecEvaluationError) -> Seq<char> {
    match e {
        crate::eval::SpecEvaluationError::TypeMismatch {
            article,
            expected_type,
            input,
            output,
        } => {
            "Expected "@ + article + " "@ + expected_type + ", but evaluation of "@ + spec_print(
                input,
            ) + " led to "@ + spec_print(output)
        },
        crate::eval::SpecEvaluationError::WrongNumberOfArgs { expected, actual } => {
            "Expected "@ + crate::text::dec_digits(expected) + " arguments, received "@
                + crate::text::dec_digits(actual)
        },
        crate::eval::SpecEvaluationError::EnvError(inner) => spec_env_error_message(inner),
        crate::eval::SpecEvaluationError::DepthLimit => {
            "Evaluation nesting exceeded the recursion budget"@
        },
    }
}

fn push_evaluation_error_message<F: FloatOps>(
    error: &crate::eval::EvaluationError,
    out: &mut Vec<char>,
    ops: &F,
)
    ensures
        evaluation_error_float_free(error@) ==> final(out)@ == old(out)@
            + spec_evaluation_error_message(error@),
{
    match error {
        crate::eval::EvaluationError::TypeMismatch { article, expected_type, input, output } => {
            push_text(out, "Expected ");
            push_text(out, article.as_str());
            push_text(out, " ");
            push_text(out, expected_type.as_str());
            push_text(out, ", but evaluation of ");
            print_chars(input, out, ops);
            push_text(out, " led to ");
            print_chars(output, out, ops);
            proof {
                if evaluation_error_float_free(error@) {
                    assert(out@ =~= old(out)@ + spec_evaluation_error_message(error@));
                }
            }
        },
        crate::eval::EvaluationError::WrongNumberOfArgs { expected, actual } => {
            push_text(out, "Expected ");
            crate::text::push_digits(*expected as u64, out);
            push_text(out, " arguments, received ");
            crate::text::push_digits(*actual as u64, out);
            proof {
                assert(out@ =~= old(out)@ + spec_evaluation_error_message(error@));
            }
        },
        crate::eval::EvaluationError::EnvError(inner) => {
            push_env_error_message(inner, out, ops);
        },
        crate::eval::EvaluationError::DepthLimit => {
            push_text(out, "Evaluation nesting exceeded the recursion budget");
        },
    }
}

impl crate::eval::EvaluationError {
    /// The human-readable message, exact whenever the expressions the error
    /// carries are float-free.
    pub fn message<F: FloatOps>(&self, ops: &F) -> (s: String)
        ensures
            evaluation_error_float_free(self@) ==> s@ == spec_evaluation_error_message(self@),
    {
        let mut out: Vec<char> = Vec::new();
        push_evaluation_error_message(self, &mut out, ops);
        string_of_chars(&out)
    }
}

/// The message of a reading error.
pub open spec fn spec_reading_error_message(e: crate::read::SpecReadingError) -> Seq<char> {
    match e {
        crate::read::SpecReadingError::UnexpectedEnd => "Unexpected end of input"@,
        crate::read::SpecReadingError::UnexpectedChar { position } => {
            "Unexpected character at index "@ + crate::text::dec_digits(position)
        },
        crate::read::SpecReadingError::IntegerOverflow { position } => {
            "Integer literal out of range at index "@ + crate::text::dec_digits(position)
        },
        crate::read::SpecReadingError::EmptyInput => "Empty input"@,
    }
}

impl crate::read::ReadingError {
    /// The human-readable message.
    pub fn message(&self) -> (s: String)
        ensures
            s@ == spec_reading_error_message(self@),
    {
        let mut out: Vec<char> = Vec::new();
        match self {
            crate::read::ReadingError::UnexpectedEnd => {
                push_text(&mut out, "Unexpected end of input");
            },
            crate::read::ReadingError::UnexpectedChar { position } => {
                push_text(&mut out, "Unexpected character at index ");
                crate::text::push_digits(*position as u64, &mut out);
            },
            crate::read::ReadingError::IntegerOverflow { position } => {
                push_text(&mut out, "Integer literal out of range at index ");
                crate::text::push_digits(*position as u64, &mut out);
            },
            crate::read::ReadingError::EmptyInput => {
                push_text(&mut out, "Empty input");
            },
        }
        string_of_chars(&out)
    }
}

/// Whether the expressions a top-level error carries are all float-free.
pub open spec fn scum_error_float_free(e: crate::SpecScumError) -> bool {
    match e {
        crate::SpecScumError::ReadingError(_) => true,
        crate::SpecScumError::EvaluationError(inner) => evaluation_error_float_free(inner),
        crate::SpecScumError::EnvError(inner) => env_error_float_free(inner),
    }
}

/// The message of a top-level error, tagged with its kind.
pub open spec fn spec_scum_error_message(e: crate::SpecScumError) -> Seq<char> {
    match e {
        crate::SpecScumError::ReadingError(inner) => "Reading error: "@
            + spec_reading_error_message(inner),
        crate::SpecScumError::EvaluationError(inner) => "Evaluation error: "@
            + spec_evaluation_error_message(inner),
        crate::SpecScumError::EnvError(inner) => "Env error: "@ + spec_env_error_message(inner),
    }
}

impl crate::ScumError {
    /// The human-readable message, exact whenever the expressions the error
    /// carries are float-free.
    pub fn message<F: FloatOps>(&self, ops: &F) -> (s: String)
        ensures
            scum_error_float_free(self@) ==> s@ == spec_scum_error_message(self@),
    {
        let mut out: Vec<char> = Vec::new();
        match self {
            crate::ScumError::ReadingError(inner) => {
                push_text(&mut out, "Reading error: ");
                let tail = inner.message();
                push_text(&mut out, tail.as_str());
            },
            crate::ScumError::EvaluationError(inner) => {
                push_text(&mut out, "Evaluation error: ");
                push_evaluation_error_message(inner, &mut out, ops);
            },
            crate::ScumError::EnvError(inner) => {
                push_text(&mut out, "Env error: ");
                push_env_error_message(inner, &mut out, ops);
            },
        }
        string_of_chars(&out)
    }
}

} // verus!
