//! Reading source text into an expression tree.
//!
//! The grammar is token-based: parentheses group lists, `"` delimits a string
//! (a backslash keeps the next character), and any other maximal run of
//! non-delimiter characters is one atom token, classified as a boolean
//! (`#t`/`#f`), a canonical signed decimal integer, a float literal (digits
//! with a decimal point or an exponent), or else a symbol. A list of the
//! shape `(define name value)`, `(if c t f)` or `(lambda (params) body)`
//! becomes the corresponding special form; a lambda read this way carries an
//! empty environment until evaluation captures the current one. Several
//! top-level expressions are wrapped into a single list.
//!
//! `spec_read` fixes the result's whole shape; the one thing it leaves open
//! is the bit pattern inside a float atom, which the embedding's
//! [`crate::floats::FloatOps`] produces from the literal's text. The
//! executable reader is exact up to those bits (`eq_mod_floats`), hence
//! exact outright on any input without a float literal.
use crate::expression::{
    eq_mod_floats, eq_mod_floats_items, exprs_view, idents_view, Atom, Define, Environment,
    Expression, Identifier, If, Lambda, SpecAtom, SpecExpression,
};
use crate::floats::FloatOps;
use crate::text::{
    all_digits, chars_of, dec_value, digit_val, is_digit, str_eq, string_of_chars,
};
use vstd::prelude::*;

verus! {

broadcast use crate::expression::lemma_exprs_view_len, crate::expression::lemma_exprs_view_index;

/// An error of the reader, with the character index where it was noticed.
#[derive(Debug)]
pub enum ReadingError {
    /// The input ended inside a list or a string.
    UnexpectedEnd,
    /// A character that cannot start an expression, at this index.
    UnexpectedChar { position: usize },
    /// An integer literal that does not fit in 64 bits, starting here.
    IntegerOverflow { position: usize },
    /// The input holds no expression at all.
    EmptyInput,
}

/// The model of a [`ReadingError`].
#[verifier::ext_equal]
pub enum SpecReadingError {
    UnexpectedEnd,
    UnexpectedChar { position: int },
    IntegerOverflow { position: int },
    EmptyInput,
}

impl View for ReadingError {
    type V = SpecReadingError;

    open spec fn view(&self) -> SpecReadingError {
        match self {
            ReadingError::UnexpectedEnd => SpecReadingError::UnexpectedEnd,
            ReadingError::UnexpectedChar { position } => SpecReadingError::UnexpectedChar {
                position: *position as int,
            },
            ReadingError::IntegerOverflow { position } => SpecReadingError::IntegerOverflow {
                position: *position as int,
            },
            ReadingError::EmptyInput => SpecReadingError::EmptyInput,
        }
    }
}

/// Whitespace between tokens.
pub open spec fn is_ws(c: char) -> bool {
    c == ' ' || c == '\t' || c == '\r' || c == '\n'
}

/// A character that can stand inside an atom token.
pub open spec fn is_token_char(c: char) -> bool {
    !is_ws(c) && c != '(' && c != ')' && c != '"'
}

/// The end of the token starting at `i`: the first index at or after `i`
/// holding no token character.
pub open spec fn scan_token(s: Seq<char>, i: int) -> int
    decreases s.len() - i,
{
    if i < 0 || i >= s.len() || !is_token_char(s[i]) {
        i
    } else {
        scan_token(s, i + 1)
    }
}

pub proof fn lemma_scan_token_bounds(s: Seq<char>, i: int)
    requires
        0 <= i <= s.len(),
    ensures
        i <= scan_token(s, i) <= s.len(),
    decreases s.len() - i,
{
    if i < s.len() && is_token_char(s[i]) {
        lemma_scan_token_bounds(s, i + 1);
    }
}

/// The index just after the closing quote of a string literal whose body
/// starts at `i`, or `None` if the input ends first. A backslash carries the
/// next character.
pub open spec fn scan_string(s: Seq<char>, i: int) -> Option<int>
    decreases s.len() - i,
{
    if i < 0 || i >= s.len() {
        None
    } else if s[i] == '"' {
        Some(i + 1)
    } else if s[i] == '\\' {
        if i + 1 >= s.len() {
            None
        } else {
            scan_string(s, i + 2)
        }
    } else {
        scan_string(s, i + 1)
    }
}

/// A boolean token.
pub open spec fn is_bool_text(t: Seq<char>) -> bool {
    t == "#t"@ || t == "#f"@
}

/// A canonical signed decimal integer token: an optional minus sign, then
/// either a single `0` or digits without a leading zero.
pub open spec fn is_int_text(t: Seq<char>) -> bool {
    t.len() > 0 && {
        let u = if t[0] == '-' {
            t.subrange(1, t.len() as int)
        } else {
            t
        };
        u.len() > 0 && all_digits(u) && (u.len() == 1 || u[0] != '0')
    }
}

/// The value of a signed decimal integer token.
pub open spec fn int_of_text(t: Seq<char>) -> int {
    if t.len() > 0 && t[0] == '-' {
        -dec_value(t.subrange(1, t.len() as int))
    } else {
        dec_value(t)
    }
}

/// The end of the leading digit run of `t` starting at `i`.
pub open spec fn digits_end(t: Seq<char>, i: int) -> int
    decreases t.len() - i,
{
    if i < 0 || i >= t.len() || !is_digit(t[i]) {
        i
    } else {
        digits_end(t, i + 1)
    }
}

/// An exponent part: `e`, an optional sign, then one or more digits.
pub open spec fn is_exponent(t: Seq<char>) -> bool {
    t.len() >= 2 && t[0] == 'e' && {
        let d = if t[1] == '+' || t[1] == '-' {
            t.subrange(2, t.len() as int)
        } else {
            t.subrange(1, t.len() as int)
        };
        d.len() > 0 && all_digits(d)
    }
}

/// A float literal token: an optional minus sign, one or more digits, then
/// either a decimal point (with optional fraction digits and exponent) or an
/// exponent directly.
pub open spec fn is_float_text(t: Seq<char>) -> bool {
    t.len() > 0 && {
        let u = if t[0] == '-' {
            t.subrange(1, t.len() as int)
        } else {
            t
        };
        let k = digits_end(u, 0);
        k >= 1 && k < u.len() && if u[k] == '.' {
            let m = digits_end(u, k + 1);
            m == u.len() || is_exponent(u.subrange(m, u.len() as int))
        } else {
            is_exponent(u.subrange(k, u.len() as int))
        }
    }
}

/// A parse outcome: an expression with the index just past it, or a failure.
/// A float literal parses to a `Float` atom whose bits the spec leaves at
/// zero; the executable reader is held to the result up to those bits.
pub enum ParseStep {
    Parsed(SpecExpression, int),
    Fail(SpecReadingError),
}

/// The outcome of parsing a run of expressions.
pub enum ItemsStep {
    ParsedItems(Seq<SpecExpression>, int),
    Fail(SpecReadingError),
}

/// The text of a symbol expression (or nothing).
pub open spec fn symbol_text(e: SpecExpression) -> Seq<char> {
    match e {
        SpecExpression::Constant(SpecAtom::Symbol(t)) => t,
        _ => Seq::empty(),
    }
}

/// Whether the expression is a list of bare symbols, as a lambda's formal
/// parameter list must be.
pub open spec fn is_param_list(e: SpecExpression) -> bool {
    match e {
        SpecExpression::List(ps) => forall|k: int|
            0 <= k < ps.len() ==> #[trigger] ps[k] matches SpecExpression::Constant(
                SpecAtom::Symbol(_),
            ),
        _ => false,
    }
}

/// The parameter names of a parameter list.
pub open spec fn params_of(e: SpecExpression) -> Seq<Seq<char>> {
    match e {
        SpecExpression::List(ps) => Seq::new(ps.len(), |k: int| symbol_text(ps[k])),
        _ => Seq::empty(),
    }
}

/// The special-form reading of a freshly parsed list: `define`, `if` and
/// `lambda` of the right shape become their forms; anything else stays a
/// plain list. A lambda read this way carries an empty environment.
pub open spec fn classify_list(items: Seq<SpecExpression>) -> SpecExpression {
    if items.len() == 3 && items[0] == SpecExpression::Constant(SpecAtom::Symbol("define"@)) {
        SpecExpression::Define { name: Box::new(items[1]), value: Box::new(items[2]) }
    } else if items.len() == 4 && items[0] == SpecExpression::Constant(
        SpecAtom::Symbol("if"@),
    ) {
        SpecExpression::If {
            cond: Box::new(items[1]),
            if_true: Box::new(items[2]),
            if_false: Box::new(items[3]),
        }
    } else if items.len() == 3 && items[0] == SpecExpression::Constant(
        SpecAtom::Symbol("lambda"@),
    ) && is_param_list(items[1]) {
        SpecExpression::Lambda {
            params: params_of(items[1]),
            env: Map::empty(),
            body: Box::new(items[2]),
        }
    } else {
        SpecExpression::List(items)
    }
}

/// The classification of one atom token.
pub open spec fn classify_token(t: Seq<char>, position: int) -> ParseStep {
    if t == "#t"@ {
        ParseStep::Parsed(SpecExpression::Constant(SpecAtom::Bool(true)), 0)
    } else if t == "#f"@ {
        ParseStep::Parsed(SpecExpression::Constant(SpecAtom::Bool(false)), 0)
    } else if is_int_text(t) {
        let v = int_of_text(t);
        if i64::MIN <= v <= i64::MAX {
            ParseStep::Parsed(SpecExpression::Constant(SpecAtom::Int(v as i64)), 0)
        } else {
            ParseStep::Fail(SpecReadingError::IntegerOverflow { position })
        }
    } else if is_float_text(t) {
        ParseStep::Parsed(SpecExpression::Constant(SpecAtom::Float(0)), 0)
    } else {
        ParseStep::Parsed(SpecExpression::Constant(SpecAtom::Symbol(t)), 0)
    }
}

/// Parses one expression at `i`, which must not point at whitespace.
pub open spec fn spec_parse_expr(s: Seq<char>, i: int) -> ParseStep
    decreases s.len() - i, 0int,
{
    if i < 0 || i >= s.len() {
        ParseStep::Fail(SpecReadingError::UnexpectedEnd)
    } else if s[i] == '(' {
        match spec_parse_items(s, i + 1, false) {
            ItemsStep::ParsedItems(items, j) => ParseStep::Parsed(classify_list(items), j),
            ItemsStep::Fail(e) => ParseStep::Fail(e),
        }
    } else if s[i] == ')' || is_ws(s[i]) {
        ParseStep::Fail(SpecReadingError::UnexpectedChar { position: i })
    } else if s[i] == '"' {
        match scan_string(s, i + 1) {
            None => ParseStep::Fail(SpecReadingError::UnexpectedEnd),
            Some(j) => ParseStep::Parsed(
                SpecExpression::Constant(SpecAtom::Str(s.subrange(i + 1, j - 1))),
                j,
            ),
        }
    } else {
        let j = scan_token(s, i);
        match classify_token(s.subrange(i, j), i) {
            ParseStep::Parsed(v, _) => ParseStep::Parsed(v, j),
            ParseStep::Fail(e) => ParseStep::Fail(e),
        }
    }
}

/// Parses expressions until a closing parenthesis (or, at top level, the end
/// of the input), skipping whitespace.
pub open spec fn spec_parse_items(s: Seq<char>, i: int, at_top: bool) -> ItemsStep
    decreases s.len() - i, 1int,
{
    if i < 0 {
        ItemsStep::Fail(SpecReadingError::UnexpectedEnd)
    } else if i >= s.len() {
        if at_top {
            ItemsStep::ParsedItems(Seq::empty(), i)
        } else {
            ItemsStep::Fail(SpecReadingError::UnexpectedEnd)
        }
    } else if is_ws(s[i]) {
        spec_parse_items(s, i + 1, at_top)
    } else if s[i] == ')' && !at_top {
        ItemsStep::ParsedItems(Seq::empty(), i + 1)
    } else {
        match spec_parse_expr(s, i) {
            ParseStep::Fail(e) => ItemsStep::Fail(e),
            ParseStep::Parsed(v, j) => if j <= i || j > s.len() {
                ItemsStep::Fail(SpecReadingError::UnexpectedEnd)
            } else {
                match spec_parse_items(s, j, at_top) {
                    ItemsStep::ParsedItems(vs, k) => ItemsStep::ParsedItems(vs.insert(0, v), k),
                    ItemsStep::Fail(e) => ItemsStep::Fail(e),
                }
            },
        }
    }
}

/// A read outcome: the expression (exact up to float bits), or a failure.
pub enum ReadOutcome {
    Read(SpecExpression),
    Failed(SpecReadingError),
}

/// The reading of a whole input: every top-level expression, a single one
/// standing for itself, several wrapped into one list, none being an error.
pub open spec fn spec_read(s: Seq<char>) -> ReadOutcome {
    match spec_parse_items(s, 0, true) {
        ItemsStep::Fail(e) => ReadOutcome::Failed(e),
        ItemsStep::ParsedItems(items, _) => if items.len() == 0 {
            ReadOutcome::Failed(SpecReadingError::EmptyInput)
        } else if items.len() == 1 {
            ReadOutcome::Read(items[0])
        } else {
            ReadOutcome::Read(SpecExpression::List(items))
        },
    }
}

fn is_ws_char(c: char) -> (r: bool)
    ensures
        r == is_ws(c),
{
    c == ' ' || c == '\t' || c == '\r' || c == '\n'
}

fn is_token_char_at(c: char) -> (r: bool)
    ensures
        r == is_token_char(c),
{
    !is_ws_char(c) && c != '(' && c != ')' && c != '"'
}

/// A copy of the characters `s[from..to]`.
fn copy_range(s: &Vec<char>, from: usize, to: usize) -> (v: Vec<char>)
    requires
        from <= to <= s@.len(),
    ensures
        v@ == s@.subrange(from as int, to as int),
{
    let mut v: Vec<char> = Vec::new();
    let mut k = from;
    while k < to
        invariant
            from <= k <= to <= s@.len(),
            v@ == s@.subrange(from as int, k as int),
        decreases to - k,
    {
        v.push(s[k]);
        proof {
            assert(v@ =~= s@.subrange(from as int, k + 1 as int));
        }
        k = k + 1;
    }
    v
}

fn is_digit_char(c: char) -> (r: bool)
    ensures
        r == is_digit(c),
{
    '0' <= c && c <= '9'
}

fn all_digits_vec(t: &Vec<char>) -> (r: bool)
    ensures
        r == all_digits(t@),
{
    let mut k: usize = 0;
    while k < t.len()
        invariant
            k <= t@.len(),
            forall|m: int| 0 <= m < k ==> is_digit(t@[m]),
        decreases t@.len() - k,
    {
        if !is_digit_char(t[k]) {
            return false;
        }
        k = k + 1;
    }
    true
}

fn digits_end_vec(t: &Vec<char>, i: usize) -> (j: usize)
    requires
        i <= t@.len(),
    ensures
        j == digits_end(t@, i as int),
        i <= j <= t@.len(),
{
    let mut k = i;
    while k < t.len() && is_digit_char(t[k])
        invariant
            i <= k <= t@.len(),
            digits_end(t@, i as int) == digits_end(t@, k as int),
        decreases t@.len() - k,
    {
        k = k + 1;
    }
    k
}

fn is_exponent_vec(t: &Vec<char>) -> (r: bool)
    ensures
        r == is_exponent(t@),
{
    if t.len() < 2 {
        return false;
    }
    if t[0] != 'e' {
        return false;
    }
    let dstart: usize = if t[1] == '+' || t[1] == '-' {
        2
    } else {
        1
    };
    let digits = copy_range(t, dstart, t.len());
    digits.len() > 0 && all_digits_vec(&digits)
}

fn is_int_token(t: &Vec<char>) -> (r: bool)
    ensures
        r == is_int_text(t@),
{
    if t.len() == 0 {
        return false;
    }
    let start: usize = if t[0] == '-' {
        1
    } else {
        0
    };
    let u = copy_range(t, start, t.len());
    proof {
        if t@[0] != '-' {
            assert(u@ =~= t@);
        }
    }
    u.len() > 0 && all_digits_vec(&u) && (u.len() == 1 || u[0] != '0')
}

fn is_float_token(t: &Vec<char>) -> (r: bool)
    ensures
        r == is_float_text(t@),
{
    if t.len() == 0 {
        return false;
    }
    let start: usize = if t[0] == '-' {
        1
    } else {
        0
    };
    let u = copy_range(t, start, t.len());
    proof {
        if t@[0] != '-' {
            assert(u@ =~= t@);
        }
    }
    let k = digits_end_vec(&u, 0);
    if k < 1 || k >= u.len() {
        return false;
    }
    if u[k] == '.' {
        let m = digits_end_vec(&u, k + 1);
        if m == u.len() {
            true
        } else {
            let rest = copy_range(&u, m, u.len());
            is_exponent_vec(&rest)
        }
    } else {
        let rest = copy_range(&u, k, u.len());
        is_exponent_vec(&rest)
    }
}

/// The 64-bit value of a canonical integer token, or the overflow error.
fn parse_int_token(t: &Vec<char>, position: usize) -> (r: Result<i64, ReadingError>)
    requires
        is_int_text(t@),
    ensures
        match r {
            Ok(n) => i64::MIN <= int_of_text(t@) <= i64::MAX && n as int == int_of_text(t@),
            Err(e) => !(i64::MIN <= int_of_text(t@) <= i64::MAX) && e@
                == (SpecReadingError::IntegerOverflow { position: position as int }),
        },
{
    let negative = t[0] == '-';
    let start: usize = if negative {
        1
    } else {
        0
    };
    let ghost u = if negative {
        t@.subrange(1, t@.len() as int)
    } else {
        t@
    };
    proof {
        if !negative {
            assert(u =~= t@.subrange(0, t@.len() as int));
        }
        crate::text::lemma_pow10_19();
        crate::text::lemma_dec_value_upper(u);
    }
    if t.len() - start > 19 {
        proof {
            crate::text::lemma_dec_value_lower(u);
            crate::text::lemma_pow10_monotone(19, (u.len() - 1) as nat);
        }
        return Err(ReadingError::IntegerOverflow { position });
    }
    let mut val: u64 = 0;
    let mut k = start;
    while k < t.len()
        invariant
            is_int_text(t@),
            start <= k <= t@.len(),
            start == if t@[0] == '-' {
                1int
            } else {
                0int
            },
            u == if t@[0] == '-' {
                t@.subrange(1, t@.len() as int)
            } else {
                t@
            },
            u.len() == t@.len() - start,
            u.len() <= 19,
            all_digits(u),
            val as int == dec_value(u.subrange(0, k - start)),
        decreases t@.len() - k,
    {
        let c = t[k];
        proof {
            assert(u[k - start] == t@[k as int]);
            assert(is_digit(t@[k as int]));
            assert('0' as int == 48 && '9' as int == 57);
        }
        let d: u64 = (c as u32 - 48) as u64;
        proof {
            let prefix = u.subrange(0, k - start + 1);
            assert(prefix.drop_last() =~= u.subrange(0, k - start));
            assert(prefix.last() == u[k - start]);
            assert(all_digits(prefix));
            assert(digit_val(c) == d as int);
            assert(dec_value(prefix) == val as int * 10 + d as int);
            crate::text::lemma_dec_value_upper(prefix);
            crate::text::lemma_pow10_monotone(prefix.len() as nat, 19);
            crate::text::lemma_pow10_19();
        }
        val = val * 10 + d;
        k = k + 1;
    }
    proof {
        assert(u.subrange(0, u.len() as int) =~= u);
        crate::text::lemma_pow10_19();
    }
    if negative {
        if val > 9223372036854775808u64 {
            proof {
                crate::text::lemma_dec_value_lower(u);
            }
            return Err(ReadingError::IntegerOverflow { position });
        }
        if val == 9223372036854775808u64 {
            Ok(i64::MIN)
        } else {
            Ok(-(val as i64))
        }
    } else {
        if val > 9223372036854775807u64 {
            return Err(ReadingError::IntegerOverflow { position });
        }
        Ok(val as i64)
    }
}

/// Whether an executable expression is exactly the symbol with this text.
fn is_symbol_named(e: &Expression, name: &str) -> (r: bool)
    ensures
        r == (e@ == SpecExpression::Constant(SpecAtom::Symbol(name@))),
{
    match e {
        Expression::Constant(a) => match a {
            Atom::Symbol(id) => str_eq(id.as_ref(), name),
            _ => false,
        },
        _ => false,
    }
}

/// The parameter names of a lambda's formal parameter list, if the
/// expression is one.
fn symbol_params(e: &Expression) -> (r: Option<Vec<Identifier>>)
    ensures
        match r {
            Some(ids) => is_param_list(e@) && idents_view(ids@) == params_of(e@),
            None => !is_param_list(e@),
        },
{
    match e {
        Expression::List(ps) => {
            let mut ids: Vec<Identifier> = Vec::new();
            let mut k: usize = 0;
            while k < ps.len()
                invariant
                    e@ == SpecExpression::List(exprs_view(ps@)),
                    k <= ps@.len(),
                    ids@.len() == k,
                    forall|m: int|
                        0 <= m < k ==> #[trigger] crate::expression::expr_view(ps@[m])
                            == SpecExpression::Constant(SpecAtom::Symbol(ids@[m]@)),
                decreases ps@.len() - k,
            {
                match &ps[k] {
                    Expression::Constant(a) => match a {
                        Atom::Symbol(id) => {
                            ids.push(id.clone());
                        },
                        _ => {
                            proof {
                                assert(exprs_view(ps@)[k as int] == crate::expression::expr_view(
                                    ps@[k as int],
                                ));
                                assert(!(exprs_view(ps@)[k as int]
                                    matches SpecExpression::Constant(SpecAtom::Symbol(_))));
                                assert(e@ == SpecExpression::List(exprs_view(ps@)));
                            }
                            return None;
                        },
                    },
                    _ => {
                        proof {
                            assert(exprs_view(ps@)[k as int] == crate::expression::expr_view(
                                ps@[k as int],
                            ));
                            assert(!(exprs_view(ps@)[k as int]
                                matches SpecExpression::Constant(SpecAtom::Symbol(_))));
                            assert(e@ == SpecExpression::List(exprs_view(ps@)));
                        }
                        return None;
                    },
                }
                k = k + 1;
            }
            proof {
                assert(e@ == SpecExpression::List(exprs_view(ps@)));
                assert forall|m: int| 0 <= m < exprs_view(ps@).len() implies #[trigger] exprs_view(
                    ps@,
                )[m] matches SpecExpression::Constant(SpecAtom::Symbol(_)) by {
                    assert(exprs_view(ps@)[m] == crate::expression::expr_view(ps@[m]));
                }
                assert(idents_view(ids@) =~= params_of(e@));
            }
            Some(ids)
        },
        _ => None,
    }
}

/// Turns a freshly parsed list into its special form, if it has one.
fn classify_items(items: Vec<Expression>) -> (e: Expression)
    ensures
        e@ == classify_list(exprs_view(items@)),
{
    let ghost vs = exprs_view(items@);
    if items.len() == 3 && is_symbol_named(&items[0], "define") {
        let mut parts = items;
        let value = parts.pop().unwrap();
        let name = parts.pop().unwrap();
        Expression::Define(Box::new(Define { name, value }))
    } else if items.len() == 4 && is_symbol_named(&items[0], "if") {
        let mut parts = items;
        let if_false = parts.pop().unwrap();
        let if_true = parts.pop().unwrap();
        let cond = parts.pop().unwrap();
        Expression::If(Box::new(If { cond, if_true, if_false }))
    } else if items.len() == 3 && is_symbol_named(&items[0], "lambda") {
        match symbol_params(&items[1]) {
            Some(params) => {
                let mut parts = items;
                let body = parts.pop().unwrap();
                Expression::Lambda(Box::new(Lambda { params, env: Environment::new(), body }))
            },
            None => Expression::List(items),
        }
    } else {
        Expression::List(items)
    }
}

/// Two related expressions of which one is a parameter list are equal:
/// symbols carry no float bits.
proof fn lemma_param_list_related_equal(u: SpecExpression, v: SpecExpression)
    requires
        eq_mod_floats(u, v),
        is_param_list(u) || is_param_list(v),
    ensures
        u == v,
{
    match (u, v) {
        (SpecExpression::List(ps), SpecExpression::List(qs)) => {
            assert(eq_mod_floats_items(ps, qs));
            assert(ps.len() == qs.len());
            assert forall|k: int| 0 <= k < ps.len() implies ps[k] == qs[k] by {
                crate::expression::lemma_eq_mod_floats_items_index(ps, qs, k);
            }
            assert(ps =~= qs);
        },
        _ => {
            assert(false);
        },
    }
}

/// Classification commutes with the up-to-float-bits relation: related item
/// runs classify to related expressions.
proof fn lemma_classify_congruent(a: Seq<SpecExpression>, b: Seq<SpecExpression>)
    requires
        eq_mod_floats_items(a, b),
    ensures
        eq_mod_floats(classify_list(a), classify_list(b)),
{
    assert(a.len() == b.len());
    assert forall|k: int| 0 <= k < a.len() implies eq_mod_floats(#[trigger] a[k], b[k]) by {
        crate::expression::lemma_eq_mod_floats_items_index(a, b, k);
    }
    if a.len() >= 1 {
        assert(eq_mod_floats(a[0], b[0]));
    }
    if a.len() == 3 && b[0] == SpecExpression::Constant(SpecAtom::Symbol("define"@)) {
        assert(a[0] == b[0]);
    } else if a.len() == 3 && a[0] == SpecExpression::Constant(SpecAtom::Symbol("define"@)) {
        assert(b[0] == a[0]);
    }
    if a.len() == 4 && b[0] == SpecExpression::Constant(SpecAtom::Symbol("if"@)) {
        assert(a[0] == b[0]);
    } else if a.len() == 4 && a[0] == SpecExpression::Constant(SpecAtom::Symbol("if"@)) {
        assert(b[0] == a[0]);
    }
    if a.len() == 3 && b[0] == SpecExpression::Constant(SpecAtom::Symbol("lambda"@)) {
        assert(a[0] == b[0]);
    } else if a.len() == 3 && a[0] == SpecExpression::Constant(SpecAtom::Symbol("lambda"@)) {
        assert(b[0] == a[0]);
    }
    if a.len() == 3 && a[0] == SpecExpression::Constant(SpecAtom::Symbol("lambda"@)) && (
    is_param_list(a[1]) || is_param_list(b[1])) {
        lemma_param_list_related_equal(a[1], b[1]);
    }
}

/// Whether an executable parse realises a spec-level step: the same failure,
/// or the same expression up to float bits at the same index.
pub open spec fn parse_matches(r: Result<(Expression, usize), ReadingError>, s: ParseStep) -> bool {
    match s {
        ParseStep::Parsed(v, j) => match r {
            Ok(p) => eq_mod_floats(p.0@, v) && p.1 as int == j,
            Err(_) => false,
        },
        ParseStep::Fail(k) => match r {
            Ok(_) => false,
            Err(e) => e@ == k,
        },
    }
}

/// Whether an executable items parse realises a spec-level step.
pub open spec fn items_matches(
    r: Result<(Vec<Expression>, usize), ReadingError>,
    s: ItemsStep,
) -> bool {
    match s {
        ItemsStep::ParsedItems(vs, k) => match r {
            Ok(p) => eq_mod_floats_items(exprs_view(p.0@), vs) && p.1 as int == k,
            Err(_) => false,
        },
        ItemsStep::Fail(e2) => match r {
            Ok(_) => false,
            Err(e) => e@ == e2,
        },
    }
}

/// Parses one expression at `i`. Realises `spec_parse_expr`.
fn parse_expr<F: FloatOps>(s: &Vec<char>, i: usize, ops: &F) -> (r: Result<
    (Expression, usize),
    ReadingError,
>)
    ensures
        parse_matches(r, spec_parse_expr(s@, i as int)),
        match r {
            Ok(p) => i < p.1 <= s@.len(),
            Err(_) => true,
        },
    decreases s@.len() - i, 0int,
{
    if i >= s.len() {
        return Err(ReadingError::UnexpectedEnd);
    }
    let c = s[i];
    if c == '(' {
        match parse_items(s, i + 1, false, ops) {
            Err(e) => Err(e),
            Ok((items, j)) => {
                let e = classify_items(items);
                proof {
                    match spec_parse_items(s@, i + 1 as int, false) {
                        ItemsStep::ParsedItems(vs, _) => {
                            lemma_classify_congruent(exprs_view(items@), vs);
                        },
                        ItemsStep::Fail(_) => {
                            assert(false);
                        },
                    }
                }
                Ok((e, j))
            },
        }
    } else if c == ')' || is_ws_char(c) {
        Err(ReadingError::UnexpectedChar { position: i })
    } else if c == '"' {
        let mut j = i + 1;
        loop
            invariant
                i < s@.len(),
                s@[i as int] == '"',
                i + 1 <= j <= s@.len(),
                scan_string(s@, i + 1 as int) == scan_string(s@, j as int),
            decreases s@.len() - j,
        {
            if j >= s.len() {
                return Err(ReadingError::UnexpectedEnd);
            }
            let cj = s[j];
            if cj == '"' {
                let content = copy_range(s, i + 1, j);
                let text = string_of_chars(&content);
                return Ok((Expression::Constant(Atom::Str(text)), j + 1));
            }
            if cj == '\\' {
                if j + 1 >= s.len() {
                    return Err(ReadingError::UnexpectedEnd);
                }
                j = j + 2;
            } else {
                j = j + 1;
            }
        }
    } else {
        let mut j = i;
        while j < s.len() && is_token_char_at(s[j])
            invariant
                i <= j <= s@.len(),
                scan_token(s@, i as int) == scan_token(s@, j as int),
            decreases s@.len() - j,
        {
            j = j + 1;
        }
        proof {
            assert(scan_token(s@, j as int) == j);
            lemma_scan_token_bounds(s@, i + 1);
            assert(is_token_char(s@[i as int]));
        }
        let token = copy_range(s, i, j);
        let ghost t = s@.subrange(i as int, j as int);
        if token.len() == 2 && token[0] == '#' && (token[1] == 't' || token[1] == 'f') {
            proof {
                reveal_strlit("#t");
                reveal_strlit("#f");
                if t[1] == 't' {
                    assert(t =~= "#t"@);
                } else {
                    assert(t =~= "#f"@);
                }
            }
            let b = token[1] == 't';
            Ok((Expression::Constant(Atom::Bool(b)), j))
        } else {
            proof {
                reveal_strlit("#t");
                reveal_strlit("#f");
                assert(t != "#t"@ && t != "#f"@);
            }
            if is_int_token(&token) {
                match parse_int_token(&token, i) {
                    Ok(n) => Ok((Expression::Constant(Atom::Int(n)), j)),
                    Err(e) => Err(e),
                }
            } else if is_float_token(&token) {
                let text = string_of_chars(&token);
                let bits = ops.float_of_text(text.as_str());
                Ok((Expression::Constant(Atom::Float(bits)), j))
            } else {
                let text = string_of_chars(&token);
                Ok((Expression::Constant(Atom::Symbol(Identifier(text))), j))
            }
        }
    }
}

/// Parses expressions up to a closing parenthesis (or, at top level, the end
/// of the input). Realises `spec_parse_items`.
fn parse_items<F: FloatOps>(s: &Vec<char>, i: usize, at_top: bool, ops: &F) -> (r: Result<
    (Vec<Expression>, usize),
    ReadingError,
>)
    requires
        i <= s@.len(),
    ensures
        items_matches(r, spec_parse_items(s@, i as int, at_top)),
        match r {
            Ok(p) => i <= p.1 <= s@.len(),
            Err(_) => true,
        },
    decreases s@.len() - i, 1int,
{
    let mut acc: Vec<Expression> = Vec::new();
    let ghost mut done: Seq<SpecExpression> = Seq::empty();
    let mut cur = i;
    proof {
        assert(exprs_view(acc@) =~= Seq::<SpecExpression>::empty());
        match spec_parse_items(s@, i as int, at_top) {
            ItemsStep::ParsedItems(vs, _) => {
                assert(done + vs =~= vs);
            },
            ItemsStep::Fail(_) => {},
        }
    }
    loop
        invariant
            i <= cur <= s@.len(),
            eq_mod_floats_items(exprs_view(acc@), done),
            match spec_parse_items(s@, cur as int, at_top) {
                ItemsStep::ParsedItems(vs, k) => spec_parse_items(s@, i as int, at_top)
                    == ItemsStep::ParsedItems(done + vs, k),
                ItemsStep::Fail(e) => spec_parse_items(s@, i as int, at_top) == ItemsStep::Fail(e),
            },
        decreases s@.len() - cur,
    {
        if cur >= s.len() {
            if at_top {
                proof {
                    assert(done + Seq::<SpecExpression>::empty() =~= done);
                }
                return Ok((acc, cur));
            } else {
                return Err(ReadingError::UnexpectedEnd);
            }
        }
        let c = s[cur];
        if is_ws_char(c) {
            cur = cur + 1;
        } else if !at_top && c == ')' {
            proof {
                assert(done + Seq::<SpecExpression>::empty() =~= done);
            }
            return Ok((acc, cur + 1));
        } else {
            match parse_expr(s, cur, ops) {
                Err(e) => {
                    return Err(e);
                },
                Ok((e, j)) => {
                    let ghost v = spec_parse_expr(s@, cur as int)->Parsed_0;
                    proof {
                        match spec_parse_expr(s@, cur as int) {
                            ParseStep::Parsed(_, jj) => {
                                match spec_parse_items(s@, j as int, at_top) {
                                    ItemsStep::ParsedItems(vs2, k) => {
                                        assert(spec_parse_items(s@, cur as int, at_top)
                                            == ItemsStep::ParsedItems(vs2.insert(0, v), k));
                                        assert(done + vs2.insert(0, v) =~= done.push(v) + vs2);
                                    },
                                    ItemsStep::Fail(_) => {},
                                }
                                let na = exprs_view(acc@.push(e));
                                let nd = done.push(v);
                                broadcast use crate::expression::lemma_exprs_view_len,
                                    crate::expression::lemma_exprs_view_index;

                                assert forall|m: int| 0 <= m < na.len() implies eq_mod_floats(
                                    na[m],
                                    nd[m],
                                ) by {
                                    if m < acc@.len() {
                                        crate::expression::lemma_eq_mod_floats_items_index(
                                            exprs_view(acc@),
                                            done,
                                            m,
                                        );
                                        assert(na[m] == exprs_view(acc@)[m]);
                                    } else {
                                        assert(na[m] == e@ && nd[m] == v);
                                    }
                                }
                                crate::expression::lemma_eq_mod_floats_items_pointwise(na, nd);
                            },
                            ParseStep::Fail(_) => {
                                assert(false);
                            },
                        }
                    }
                    acc.push(e);
                    proof {
                        done = done.push(v);
                    }
                    cur = j;
                },
            }
        }
    }
}

/// Reads one expression from the input (several top-level expressions are
/// wrapped into a single list). Realises `spec_read`: the result is exact
/// for every input without a float literal.
pub fn read<F: FloatOps>(input: &str, ops: &F) -> (r: Result<Expression, ReadingError>)
    ensures
        match spec_read(input@) {
            ReadOutcome::Read(v) => match r {
                Ok(e) => eq_mod_floats(e@, v),
                Err(_) => false,
            },
            ReadOutcome::Failed(k) => match r {
                Ok(_) => false,
                Err(e) => e@ == k,
            },
        },
{
    let s = chars_of(input);
    match parse_items(&s, 0, true, ops) {
        Err(e) => Err(e),
        Ok((items, _)) => {
            proof {
                broadcast use crate::expression::lemma_exprs_view_len,
                    crate::expression::lemma_exprs_view_index;

                match spec_parse_items(s@, 0, true) {
                    ItemsStep::ParsedItems(vs, _) => {
                        if vs.len() == 1 {
                            crate::expression::lemma_eq_mod_floats_items_index(
                                exprs_view(items@),
                                vs,
                                0,
                            );
                        }
                    },
                    ItemsStep::Fail(_) => {},
                }
            }
            if items.len() == 0 {
                Err(ReadingError::EmptyInput)
            } else if items.len() == 1 {
                let mut parts = items;
                let single = parts.pop().unwrap();
                Ok(single)
            } else {
                Ok(Expression::List(items))
            }
        },
    }
}

} // verus!
