//! The laws of the interpreter, stated once and proved against the
//! spec-level semantics that every executable function realises.
use crate::eval::{
    bind_params, spec_eval, spec_eval_args, ArgsEvaluation, Evaluation, SpecEvaluationError,
};
use crate::expression::{SpecAtom, SpecEnv, SpecExpression};
use crate::print::{spec_print, spec_print_items};
use crate::read::{
    classify_list, is_bool_text, is_float_text, is_int_text, is_token_char, is_ws, int_of_text,
    scan_token, spec_parse_expr, spec_parse_items, spec_read, ItemsStep, ParseStep, ReadOutcome,
};
use crate::text::{all_digits, dec_digits, dec_value, int_text, is_digit};
use vstd::prelude::*;

verus! {

/// Self-evaluation: a non-symbol constant evaluates to itself, in any
/// environment, and leaves that environment untouched.
pub proof fn lemma_self_evaluation(a: SpecAtom, env: SpecEnv, fuel: nat)
    requires
        !(a is Symbol),
        fuel >= 1,
    ensures
        spec_eval(SpecExpression::Constant(a), env, fuel) == Evaluation::Exact(
            Ok::<SpecExpression, SpecEvaluationError>(SpecExpression::Constant(a)),
            env,
        ),
{
}

/// Short-circuit: a conditional whose condition is a bare boolean literal
/// evaluates exactly one branch — the equation holds for every expression in
/// the untaken position, evaluated or not.
pub proof fn lemma_if_short_circuit(
    chosen: bool,
    if_true: SpecExpression,
    if_false: SpecExpression,
    env: SpecEnv,
    fuel: nat,
)
    requires
        fuel >= 1,
    ensures
        spec_eval(
            SpecExpression::If {
                cond: Box::new(SpecExpression::Constant(SpecAtom::Bool(chosen))),
                if_true: Box::new(if_true),
                if_false: Box::new(if_false),
            },
            env,
            fuel,
        ) == spec_eval(
            if chosen {
                if_true
            } else {
                if_false
            },
            env,
            (fuel - 1) as nat,
        ),
{
}

/// Arity enforcement: applying a value that is a lambda of `params.len()`
/// parameters to any other number of arguments fails with
/// `WrongNumberOfArgs` carrying both counts, before any argument is
/// evaluated.
pub proof fn lemma_arity_enforcement(
    head: SpecExpression,
    args: Seq<SpecExpression>,
    params: Seq<Seq<char>>,
    captured: SpecEnv,
    body: SpecExpression,
    env: SpecEnv,
    env1: SpecEnv,
    fuel: nat,
)
    requires
        fuel >= 1,
        spec_eval(head, env, (fuel - 1) as nat) == Evaluation::Exact(
            Ok::<SpecExpression, SpecEvaluationError>(
                SpecExpression::Lambda { params, env: captured, body: Box::new(body) },
            ),
            env1,
        ),
        params.len() != args.len(),
    ensures
        spec_eval(SpecExpression::List(seq![head] + args), env, fuel) == Evaluation::Exact(
            Err::<SpecExpression, SpecEvaluationError>(
                SpecEvaluationError::WrongNumberOfArgs {
                    expected: params.len() as int,
                    actual: args.len() as int,
                },
            ),
            env1,
        ),
{
    let es = seq![head] + args;
    assert(es.len() == 1 + args.len());
    assert(es[0] == head);
}

/// No leakage: applying a lambda leaves the caller's environment exactly as
/// argument evaluation left it. Whatever the body defines — a fresh `y`, a
/// rebinding of anything — stays in the call-local scope `benv` and never
/// reaches `env_after_args`.
pub proof fn lemma_no_leakage(
    es: Seq<SpecExpression>,
    env: SpecEnv,
    env1: SpecEnv,
    env_after_args: SpecEnv,
    params: Seq<Seq<char>>,
    captured: SpecEnv,
    body: SpecExpression,
    vals: Seq<SpecExpression>,
    res: Result<SpecExpression, SpecEvaluationError>,
    benv: SpecEnv,
    fuel: nat,
)
    requires
        fuel >= 1,
        es.len() >= 1,
        spec_eval(es[0], env, (fuel - 1) as nat) == Evaluation::Exact(
            Ok::<SpecExpression, SpecEvaluationError>(
                SpecExpression::Lambda { params, env: captured, body: Box::new(body) },
            ),
            env1,
        ),
        params.len() == es.len() - 1,
        spec_eval_args(es, 1, env1, fuel) == ArgsEvaluation::Exact(
            Ok::<Seq<SpecExpression>, SpecEvaluationError>(vals),
            env_after_args,
        ),
        spec_eval(body, bind_params(captured, params, vals), (fuel - 1) as nat)
            == Evaluation::Exact(res, benv),
    ensures
        spec_eval(SpecExpression::List(es), env, fuel) == Evaluation::Exact(res, env_after_args),
{
}

/// Closure isolation: a closure sees the environment captured when its
/// lambda form was evaluated. With `x` bound to 1, evaluating a lambda whose
/// body is `x` captures that binding; rebinding `x` to 2 in the caller's
/// environment and then applying the closure still yields 1.
pub proof fn lemma_closure_isolation(env: SpecEnv, x: Seq<char>, f: Seq<char>, fuel: nat)
    requires
        fuel >= 2,
        env.contains_key(x),
        env[x] == SpecExpression::Constant(SpecAtom::Int(1)),
        f != x,
    ensures
        ({
            let lam = SpecExpression::Lambda {
                params: Seq::empty(),
                env: Map::empty(),
                body: Box::new(SpecExpression::Constant(SpecAtom::Symbol(x))),
            };
            let clos = SpecExpression::Lambda {
                params: Seq::empty(),
                env: env,
                body: Box::new(SpecExpression::Constant(SpecAtom::Symbol(x))),
            };
            &&& spec_eval(lam, env, fuel) == Evaluation::Exact(
                Ok::<SpecExpression, SpecEvaluationError>(clos),
                env,
            )
            &&& ({
                let caller = env.insert(x, SpecExpression::Constant(SpecAtom::Int(2))).insert(
                    f,
                    clos,
                );
                spec_eval(
                    SpecExpression::List(seq![SpecExpression::Constant(SpecAtom::Symbol(f))]),
                    caller,
                    fuel,
                ) == Evaluation::Exact(
                    Ok::<SpecExpression, SpecEvaluationError>(
                        SpecExpression::Constant(SpecAtom::Int(1)),
                    ),
                    caller,
                )
            })
        }),
{
    let body = SpecExpression::Constant(SpecAtom::Symbol(x));
    let clos = SpecExpression::Lambda { params: Seq::empty(), env: env, body: Box::new(body) };
    let caller = env.insert(x, SpecExpression::Constant(SpecAtom::Int(2))).insert(f, clos);
    let es = seq![SpecExpression::Constant(SpecAtom::Symbol(f))];
    assert(es[0] == SpecExpression::Constant(SpecAtom::Symbol(f)));
    assert(caller[f] == clos);
    assert(spec_eval(es[0], caller, (fuel - 1) as nat) == Evaluation::Exact(
        Ok::<SpecExpression, SpecEvaluationError>(clos),
        caller,
    ));
    assert(spec_eval_args(es, 1, caller, fuel) == ArgsEvaluation::Exact(
        Ok::<Seq<SpecExpression>, SpecEvaluationError>(Seq::empty()),
        caller,
    ));
    assert(bind_params(env, Seq::empty(), Seq::empty()) == env);
    assert(spec_eval(body, env, (fuel - 1) as nat) == Evaluation::Exact(
        Ok::<SpecExpression, SpecEvaluationError>(
            SpecExpression::Constant(SpecAtom::Int(1)),
        ),
        env,
    ));
}

/// A symbol whose printed form reads back as the same symbol: one token of
/// token characters that no other atom kind claims.
pub open spec fn symbol_trippable(t: Seq<char>) -> bool {
    &&& t.len() > 0
    &&& (forall|k: int| 0 <= k < t.len() ==> is_token_char(t[k]))
    &&& !is_bool_text(t)
    &&& !is_int_text(t)
    &&& !is_float_text(t)
}

/// An expression whose printed form reads back as itself: built from
/// constants and lists alone, with boolean, integer and trippable-symbol
/// atoms, and no list that the reader would take for a special form.
/// Floats are excluded because their text is the embedding's; strings
/// because their display form carries no quotes.
pub open spec fn round_trippable(e: SpecExpression) -> bool
    decreases e,
{
    match e {
        SpecExpression::Constant(a) => match a {
            SpecAtom::Bool(_) => true,
            SpecAtom::Int(_) => true,
            SpecAtom::Symbol(t) => symbol_trippable(t),
            SpecAtom::Float(_) => false,
            SpecAtom::Str(_) => false,
        },
        SpecExpression::List(es) => items_trippable(es) && classify_list(es)
            == SpecExpression::List(es),
        _ => false,
    }
}

pub open spec fn items_trippable(es: Seq<SpecExpression>) -> bool
    decreases es,
{
    if es.len() == 0 {
        true
    } else {
        round_trippable(es[0]) && items_trippable(es.subrange(1, es.len() as int))
    }
}

/// Whether position `j` ends a token: the input's end, or a character no
/// token may contain.
pub open spec fn token_boundary(s: Seq<char>, j: int) -> bool {
    j >= s.len() || !is_token_char(s[j])
}

proof fn lemma_scan_token_run(s: Seq<char>, i: int, j: int)
    requires
        0 <= i <= j <= s.len(),
        forall|k: int| i <= k < j ==> is_token_char(s[k]),
        token_boundary(s, j),
    ensures
        scan_token(s, i) == j,
    decreases j - i,
{
    if i < j {
        lemma_scan_token_run(s, i + 1, j);
    }
}

/// The printed form of an integer: one canonical token denoting the integer.
proof fn lemma_int_text_token(n: i64)
    ensures
        int_text(n as int).len() >= 1,
        forall|k: int|
            0 <= k < int_text(n as int).len() ==> is_token_char(#[trigger] int_text(n as int)[k]),
        is_int_text(int_text(n as int)),
        int_of_text(int_text(n as int)) == n as int,
        int_text(n as int)[0] != '#',
{
    let t = int_text(n as int);
    if n < 0 {
        crate::text::lemma_dec_digits_shape(-(n as int));
        crate::text::lemma_dec_value_of_digits(-(n as int));
        assert(t == seq!['-'] + dec_digits(-(n as int)));
        assert(t[0] == '-');
        let u = t.subrange(1, t.len() as int);
        assert(u =~= dec_digits(-(n as int)));
        assert forall|k: int| 0 <= k < t.len() implies is_token_char(#[trigger] t[k]) by {
            if k >= 1 {
                assert(is_digit(t[k]));
            }
        }
        assert(is_int_text(t));
        assert(int_of_text(t) == -dec_value(u));
    } else {
        crate::text::lemma_dec_digits_shape(n as int);
        crate::text::lemma_dec_value_of_digits(n as int);
        assert(t == dec_digits(n as int));
        assert(all_digits(t));
        assert(is_digit(t[0]));
        assert forall|k: int| 0 <= k < t.len() implies is_token_char(#[trigger] t[k]) by {
            assert(is_digit(t[k]));
        }
        assert(t[0] != '-');
        assert(int_of_text(t) == dec_value(t));
    }
}

/// The first printed character of a round-trippable expression starts an
/// expression: it is neither whitespace nor a closing parenthesis.
proof fn lemma_print_first_char(e: SpecExpression)
    requires
        round_trippable(e),
    ensures
        spec_print(e).len() >= 1,
        !is_ws(spec_print(e)[0]),
        spec_print(e)[0] != ')',
{
    match e {
        SpecExpression::Constant(a) => match a {
            SpecAtom::Bool(b) => {
                reveal_strlit("#t");
                reveal_strlit("#f");
            },
            SpecAtom::Int(n) => {
                lemma_int_text_token(n);
                assert(is_token_char(spec_print(e)[0]));
            },
            SpecAtom::Symbol(t) => {
                assert(is_token_char(t[0]));
            },
            _ => {},
        },
        SpecExpression::List(es) => {
            reveal_strlit("(");
            reveal_strlit(")");
            assert(spec_print(e) == "("@ + spec_print_items(es) + ")"@);
            assert(spec_print(e)[0] == '(');
        },
        _ => {},
    }
}

/// Reading back a printed round-trippable expression: parsing at the start
/// of its printed image, with a token boundary right after it, yields
/// exactly the expression and stops exactly past it.
proof fn lemma_parse_print(e: SpecExpression, s: Seq<char>, i: int)
    requires
        round_trippable(e),
        0 <= i,
        i + spec_print(e).len() <= s.len(),
        s.subrange(i, i + spec_print(e).len()) == spec_print(e),
        token_boundary(s, i + spec_print(e).len()),
    ensures
        spec_parse_expr(s, i) == ParseStep::Parsed(e, i + spec_print(e).len()),
    decreases e,
{
    let p = spec_print(e);
    let endp = i + p.len();
    lemma_print_first_char(e);
    assert(s[i] == p[0]);
    match e {
        SpecExpression::Constant(a) => {
            match a {
                SpecAtom::Bool(b) => {
                    reveal_strlit("#t");
                    reveal_strlit("#f");
                    assert(p.len() == 2);
                    assert(s[i + 1] == p[1]);
                    assert(s[i] == '#' && (s[i + 1] == 't' || s[i + 1] == 'f'));
                    lemma_scan_token_run(s, i, endp);
                    assert(s.subrange(i, endp) == p);
                    if b {
                        assert(s.subrange(i, endp) == "#t"@);
                    } else {
                        assert(s.subrange(i, endp) == "#f"@);
                        assert("#f"@ != "#t"@);
                    }
                },
                SpecAtom::Int(n) => {
                    lemma_int_text_token(n);
                    assert(forall|k: int| i <= k < endp ==> is_token_char(s[k])) by {
                        assert forall|k: int| i <= k < endp implies is_token_char(s[k]) by {
                            assert(s[k] == p[k - i]);
                        }
                    }
                    lemma_scan_token_run(s, i, endp);
                    assert(s.subrange(i, endp) == p);
                    reveal_strlit("#t");
                    reveal_strlit("#f");
                    assert(p[0] != '#');
                    assert(p != "#t"@ && p != "#f"@);
                    assert(i64::MIN <= int_of_text(p) <= i64::MAX);
                },
                SpecAtom::Symbol(t) => {
                    assert(forall|k: int| i <= k < endp ==> is_token_char(s[k])) by {
                        assert forall|k: int| i <= k < endp implies is_token_char(s[k]) by {
                            assert(s[k] == p[k - i]);
                        }
                    }
                    lemma_scan_token_run(s, i, endp);
                    assert(s.subrange(i, endp) == t);
                },
                _ => {},
            }
        },
        SpecExpression::List(es) => {
            reveal_strlit("(");
            reveal_strlit(")");
            let inner = spec_print_items(es);
            assert(p == "("@ + inner + ")"@);
            assert(p.len() == inner.len() + 2);
            assert(s[i] == '(');
            assert(s.subrange(i + 1, i + 1 + inner.len()) =~= inner) by {
                assert forall|k: int| 0 <= k < inner.len() implies s.subrange(
                    i + 1,
                    i + 1 + inner.len(),
                )[k] == inner[k] by {
                    assert(s.subrange(i + 1, i + 1 + inner.len())[k] == s[i + 1 + k]);
                    assert(s[i + 1 + k] == p[k + 1]);
                    assert(p[k + 1] == inner[k]);
                }
            }
            assert(s[i + 1 + inner.len()] == p[p.len() - 1]);
            assert(p[p.len() - 1] == ')');
            lemma_parse_print_items(es, s, i + 1);
            assert(classify_list(es) == e);
        },
        _ => {},
    }
}

/// Reading back a printed run of list elements, up to the closing
/// parenthesis that follows them.
proof fn lemma_parse_print_items(es: Seq<SpecExpression>, s: Seq<char>, i: int)
    requires
        items_trippable(es),
        0 <= i,
        i + spec_print_items(es).len() < s.len(),
        s.subrange(i, i + spec_print_items(es).len()) == spec_print_items(es),
        s[i + spec_print_items(es).len()] == ')',
    ensures
        spec_parse_items(s, i, false) == ItemsStep::ParsedItems(
            es,
            i + spec_print_items(es).len() + 1,
        ),
    decreases es,
{
    let inner = spec_print_items(es);
    let close = i + inner.len();
    if es.len() == 0 {
        assert(inner.len() == 0);
        assert(s[i] == ')');
        assert(!is_ws(')'));
        assert(es =~= Seq::<SpecExpression>::empty());
    } else {
        let head = es[0];
        let tail = es.subrange(1, es.len() as int);
        lemma_print_items_front(es);
        let p0 = spec_print(head);
        lemma_print_first_char(head);
        assert(s.subrange(i, i + p0.len()) =~= p0) by {
            assert forall|k: int| 0 <= k < p0.len() implies s.subrange(i, i + p0.len())[k]
                == p0[k] by {
                assert(s.subrange(i, i + p0.len())[k] == s[i + k]);
                assert(s[i + k] == inner[k]);
            }
        }
        let j = i + p0.len();
        assert(!is_ws(s[i]) && s[i] != ')') by {
            assert(s[i] == p0[0]);
        }
        if es.len() == 1 {
            assert(inner == p0);
            assert(s[j] == ')');
            assert(token_boundary(s, j));
            assert(i < j <= s.len());
            lemma_parse_print(head, s, i);
            assert(spec_parse_items(s, j, false) == ItemsStep::ParsedItems(
                Seq::<SpecExpression>::empty(),
                j + 1,
            ));
            assert(Seq::<SpecExpression>::empty().insert(0, head) =~= es);
            assert(spec_parse_items(s, i, false) == ItemsStep::ParsedItems(
                Seq::<SpecExpression>::empty().insert(0, head),
                j + 1,
            ));
        } else {
            reveal_strlit(" ");
            let rest = spec_print_items(tail);
            assert(inner == p0 + " "@ + rest);
            assert(" "@.len() == 1 && " "@[0] == ' ');
            assert(s[j] == inner[p0.len() as int]);
            assert(inner[p0.len() as int] == ' ');
            assert(is_ws(' '));
            assert(token_boundary(s, j));
            lemma_parse_print(head, s, i);
            assert(s.subrange(j + 1, j + 1 + rest.len()) =~= rest) by {
                assert forall|k: int| 0 <= k < rest.len() implies s.subrange(
                    j + 1,
                    j + 1 + rest.len(),
                )[k] == rest[k] by {
                    assert(s.subrange(j + 1, j + 1 + rest.len())[k] == s[j + 1 + k]);
                    assert(s[j + 1 + k] == inner[p0.len() + 1 + k]);
                    assert(inner[p0.len() + 1 + k] == rest[k]);
                }
            }
            assert(j + 1 + rest.len() == close);
            assert(i < j <= s.len());
            lemma_parse_print_items(tail, s, j + 1);
            assert(spec_parse_items(s, j, false) == spec_parse_items(s, j + 1, false));
            assert(tail.insert(0, head) =~= es);
            assert(spec_parse_items(s, i, false) == ItemsStep::ParsedItems(
                tail.insert(0, head),
                close + 1,
            ));
        }
    }
}

/// The front decomposition of a printed element run: the first element, then
/// (for two or more elements) a space and the rest.
proof fn lemma_print_items_front(es: Seq<SpecExpression>)
    requires
        es.len() >= 1,
    ensures
        es.len() == 1 ==> spec_print_items(es) == spec_print(es[0]),
        es.len() > 1 ==> spec_print_items(es) == spec_print(es[0]) + " "@ + spec_print_items(
            es.subrange(1, es.len() as int),
        ),
    decreases es.len(),
{
    if es.len() > 1 {
        let front = es.drop_last();
        lemma_print_items_front(front);
        let tail = es.subrange(1, es.len() as int);
        if es.len() == 2 {
            assert(front =~= seq![es[0]]);
            assert(front[0] == es[0]);
            assert(tail =~= seq![es[1]]);
            assert(spec_print_items(tail) == spec_print(es[1]));
            assert(spec_print_items(es) == spec_print_items(front) + " "@ + spec_print(es.last()));
        } else {
            assert(front.len() > 1);
            assert(front[0] == es[0]);
            let front_tail = front.subrange(1, front.len() as int);
            assert(spec_print_items(es) == spec_print_items(front) + " "@ + spec_print(es.last()));
            assert(spec_print_items(front) == spec_print(es[0]) + " "@ + spec_print_items(
                front_tail,
            ));
            assert(front_tail =~= tail.drop_last());
            assert(tail.len() > 1 ==> spec_print_items(tail) == spec_print_items(tail.drop_last())
                + " "@ + spec_print(tail.last()));
            assert(tail.last() == es.last());
            assert(spec_print_items(es) =~= spec_print(es[0]) + " "@ + spec_print_items(tail));
        }
    }
}

/// Round-trip: reading the printed form of a round-trippable expression
/// yields exactly that expression.
pub proof fn lemma_round_trip(e: SpecExpression)
    requires
        round_trippable(e),
    ensures
        spec_read(spec_print(e)) == ReadOutcome::Read(e),
{
    let s = spec_print(e);
    lemma_print_first_char(e);
    assert(s.subrange(0, s.len() as int) =~= s);
    lemma_parse_print(e, s, 0);
    assert(spec_parse_items(s, s.len() as int, true) == ItemsStep::ParsedItems(
        Seq::<SpecExpression>::empty(),
        s.len() as int,
    ));
    assert(Seq::<SpecExpression>::empty().insert(0, e) =~= seq![e]);
    assert(spec_parse_items(s, 0, true) == ItemsStep::ParsedItems(seq![e], s.len() as int));
    assert(seq![e][0] == e);
}

} // verus!
