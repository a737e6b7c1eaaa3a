//! The expression data model and the binding environment.
//!
//! `Expression` is both the syntax tree the reader produces and the value the
//! evaluator returns. Its mathematical model is `SpecExpression`, in which
//! text is a `Seq<char>`, lists are `Seq`s, and an environment is a
//! `Map<Seq<char>, SpecExpression>`; every contract in the crate speaks of
//! expressions through these views.
use crate::floats::{ArithOp, RelOp};
use vstd::prelude::*;

verus! {

/// An identifier names a binding in an environment. Equality is by text.
#[derive(Debug)]
pub struct Identifier(pub String);

impl View for Identifier {
    type V = Seq<char>;

    open spec fn view(&self) -> Seq<char> {
        self.0@
    }
}

impl Identifier {
    /// The identifier with the given text.
    pub fn new(text: &str) -> (r: Identifier)
        ensures
            r@ == text@,
    {
        Identifier(text.to_owned())
    }

    /// The text of the identifier.
    pub fn as_ref(&self) -> (r: &str)
        ensures
            r@ == self@,
    {
        self.0.as_str()
    }
}

impl Clone for Identifier {
    fn clone(&self) -> (r: Self)
        ensures
            r == *self,
    {
        Identifier(self.0.clone())
    }
}

impl PartialEq for Identifier {
    fn eq(&self, other: &Identifier) -> bool {
        self.0 == other.0
    }
}

impl Eq for Identifier {}

impl vstd::std_specs::cmp::PartialEqSpecImpl for Identifier {
    open spec fn obeys_eq_spec() -> bool {
        true
    }

    open spec fn eq_spec(&self, other: &Identifier) -> bool {
        self@ == other@
    }
}

/// A native operation pre-installed in a fresh environment.
///
/// Builtins are plain opcodes; the evaluator dispatches on them. Two
/// `Function` expressions are the same value exactly when they hold the same
/// opcode.
#[derive(Debug, Clone, Copy, PartialEq, Eq, Structural)]
pub enum Builtin {
    /// A chained relational operator: true exactly when every adjacent pair
    /// of operands satisfies the relation, so trivially true of fewer than
    /// two operands.
    Rel(RelOp),
    /// An arithmetic operator, left-folded through the operands from the
    /// first one; fewer than two operands yield its identity seed.
    Arith(ArithOp),
    /// Collects its arguments into a list.
    ListOf,
    /// Prints its argument (or the list of them) and returns it.
    Println,
}

/// A leaf value. `Float` holds the IEEE-754 binary64 bit pattern of the
/// value; see [`crate::floats`].
#[derive(Debug)]
pub enum Atom {
    Bool(bool),
    Float(u64),
    Int(i64),
    Str(String),
    Symbol(Identifier),
}

/// The binding form `(define name value)`.
#[derive(Debug)]
pub struct Define {
    pub name: Expression,
    pub value: Expression,
}

/// The conditional form `(if cond if_true if_false)`.
#[derive(Debug)]
pub struct If {
    pub cond: Expression,
    pub if_true: Expression,
    pub if_false: Expression,
}

/// A lambda form or closure: formal parameters, the environment captured
/// when the lambda was evaluated, and an unevaluated body.
#[derive(Debug)]
pub struct Lambda {
    pub params: Vec<Identifier>,
    pub env: Environment,
    pub body: Expression,
}

/// The recursive expression type: both source syntax and runtime value.
#[derive(Debug)]
pub enum Expression {
    /// A self-evaluating literal, except `Symbol`, which evaluates by lookup.
    Constant(Atom),
    Define(Box<Define>),
    If(Box<If>),
    /// An opaque builtin operation; a value.
    Function(Builtin),
    Lambda(Box<Lambda>),
    /// The generic aggregate; a nonempty list is also the call form.
    List(Vec<Expression>),
}

/// A mapping from identifier to bound expression: the crate's own flat
/// binding list, copied whole on capture — one of the two sharing designs
/// that give closures their isolation — and modeled as a `Map`.
#[derive(Debug)]
pub struct Environment {
    bindings: Vec<(Identifier, Expression)>,
}

/// The model of an environment.
pub type SpecEnv = Map<Seq<char>, SpecExpression>;

/// The model of an atom.
#[verifier::ext_equal]
pub enum SpecAtom {
    Bool(bool),
    Float(u64),
    Int(i64),
    Str(Seq<char>),
    Symbol(Seq<char>),
}

/// The model of an expression.
#[verifier::ext_equal]
pub enum SpecExpression {
    Constant(SpecAtom),
    Define { name: Box<SpecExpression>, value: Box<SpecExpression> },
    If { cond: Box<SpecExpression>, if_true: Box<SpecExpression>, if_false: Box<SpecExpression> },
    Function(Builtin),
    Lambda { params: Seq<Seq<char>>, env: SpecEnv, body: Box<SpecExpression> },
    List(Seq<SpecExpression>),
}

pub open spec fn atom_view(a: Atom) -> SpecAtom {
    match a {
        Atom::Bool(b) => SpecAtom::Bool(b),
        Atom::Float(bits) => SpecAtom::Float(bits),
        Atom::Int(n) => SpecAtom::Int(n),
        Atom::Str(s) => SpecAtom::Str(s@),
        Atom::Symbol(id) => SpecAtom::Symbol(id@),
    }
}

pub open spec fn idents_view(s: Seq<Identifier>) -> Seq<Seq<char>> {
    Seq::new(s.len(), |i: int| s[i]@)
}

pub open spec fn expr_view(e: Expression) -> SpecExpression
    decreases e,
{
    match e {
        Expression::Constant(a) => SpecExpression::Constant(atom_view(a)),
        Expression::Define(d) => SpecExpression::Define {
            name: Box::new(expr_view(d.name)),
            value: Box::new(expr_view(d.value)),
        },
        Expression::If(i) => SpecExpression::If {
            cond: Box::new(expr_view(i.cond)),
            if_true: Box::new(expr_view(i.if_true)),
            if_false: Box::new(expr_view(i.if_false)),
        },
        Expression::Function(b) => SpecExpression::Function(b),
        Expression::Lambda(l) => SpecExpression::Lambda {
            params: idents_view(l.params@),
            env: env_view(l.env),
            body: Box::new(expr_view(l.body)),
        },
        Expression::List(xs) => SpecExpression::List(exprs_view(xs@)),
    }
}

pub open spec fn exprs_view(s: Seq<Expression>) -> Seq<SpecExpression>
    decreases s,
{
    if s.len() == 0 {
        Seq::empty()
    } else {
        exprs_view(s.subrange(0, s.len() - 1)).push(expr_view(s[s.len() - 1]))
    }
}

pub broadcast proof fn lemma_exprs_view_len(s: Seq<Expression>)
    ensures
        #[trigger] exprs_view(s).len() == s.len(),
    decreases s.len(),
{
    if s.len() > 0 {
        lemma_exprs_view_len(s.subrange(0, s.len() - 1));
    }
}

pub broadcast proof fn lemma_exprs_view_index(s: Seq<Expression>, i: int)
    requires
        0 <= i < s.len(),
    ensures
        #[trigger] exprs_view(s)[i] == expr_view(s[i]),
    decreases s.len(),
{
    lemma_exprs_view_len(s);
    if i < s.len() - 1 {
        lemma_exprs_view_index(s.subrange(0, s.len() - 1), i);
    }
}

/// The map a sequence of bindings denotes: a later pair shadows an earlier
/// one with the same key.
pub closed spec fn bindings_map(s: Seq<(Identifier, Expression)>) -> SpecEnv
    decreases s,
{
    if s.len() == 0 {
        Map::empty()
    } else {
        bindings_map(s.subrange(0, s.len() - 1)).insert(
            s[s.len() - 1].0@,
            expr_view(s[s.len() - 1].1),
        )
    }
}

pub closed spec fn env_view(env: Environment) -> SpecEnv
    decreases env,
{
    bindings_map(env.bindings@)
}

impl View for Atom {
    type V = SpecAtom;

    open spec fn view(&self) -> SpecAtom {
        atom_view(*self)
    }
}

impl View for Expression {
    type V = SpecExpression;

    open spec fn view(&self) -> SpecExpression {
        expr_view(*self)
    }
}

impl View for Environment {
    type V = SpecEnv;

    open spec fn view(&self) -> SpecEnv {
        env_view(*self)
    }
}

/// Structural equality up to float bit patterns: two expressions are
/// related exactly when they differ at most in the bits of `Float` atoms
/// standing at the same positions. The reader's contract speaks through
/// this relation, since a float literal's bits come from the embedding.
pub open spec fn eq_mod_floats(a: SpecExpression, b: SpecExpression) -> bool
    decreases a,
{
    match (a, b) {
        (SpecExpression::Constant(x), SpecExpression::Constant(y)) => match (x, y) {
            (SpecAtom::Float(_), SpecAtom::Float(_)) => true,
            _ => x == y,
        },
        (
            SpecExpression::Define { name: n1, value: v1 },
            SpecExpression::Define { name: n2, value: v2 },
        ) => eq_mod_floats(*n1, *n2) && eq_mod_floats(*v1, *v2),
        (
            SpecExpression::If { cond: c1, if_true: t1, if_false: f1 },
            SpecExpression::If { cond: c2, if_true: t2, if_false: f2 },
        ) => eq_mod_floats(*c1, *c2) && eq_mod_floats(*t1, *t2) && eq_mod_floats(*f1, *f2),
        (SpecExpression::Function(b1), SpecExpression::Function(b2)) => b1 == b2,
        (
            SpecExpression::Lambda { params: p1, env: e1, body: b1 },
            SpecExpression::Lambda { params: p2, env: e2, body: b2 },
        ) => p1 == p2 && e1 == e2 && eq_mod_floats(*b1, *b2),
        (SpecExpression::List(x), SpecExpression::List(y)) => eq_mod_floats_items(x, y),
        _ => false,
    }
}

pub open spec fn eq_mod_floats_items(a: Seq<SpecExpression>, b: Seq<SpecExpression>) -> bool
    decreases a,
{
    if a.len() != b.len() {
        false
    } else if a.len() == 0 {
        true
    } else {
        eq_mod_floats(a[0], b[0]) && eq_mod_floats_items(
            a.subrange(1, a.len() as int),
            b.subrange(1, b.len() as int),
        )
    }
}

/// Whether the expression holds no float atom anywhere, lambda bodies
/// included. On such expressions `eq_mod_floats` is plain equality.
pub open spec fn no_floats(e: SpecExpression) -> bool
    decreases e,
{
    match e {
        SpecExpression::Constant(a) => !(a is Float),
        SpecExpression::Define { name, value } => no_floats(*name) && no_floats(*value),
        SpecExpression::If { cond, if_true, if_false } => no_floats(*cond) && no_floats(*if_true)
            && no_floats(*if_false),
        SpecExpression::Function(_) => true,
        SpecExpression::Lambda { body, .. } => no_floats(*body),
        SpecExpression::List(es) => no_floats_items(es),
    }
}

pub open spec fn no_floats_items(es: Seq<SpecExpression>) -> bool
    decreases es,
{
    if es.len() == 0 {
        true
    } else {
        no_floats(es[0]) && no_floats_items(es.subrange(1, es.len() as int))
    }
}

/// The relation is reflexive.
pub proof fn lemma_eq_mod_floats_reflexive(a: SpecExpression)
    ensures
        eq_mod_floats(a, a),
    decreases a,
{
    match a {
        SpecExpression::Constant(_) => {},
        SpecExpression::Define { name, value } => {
            lemma_eq_mod_floats_reflexive(*name);
            lemma_eq_mod_floats_reflexive(*value);
        },
        SpecExpression::If { cond, if_true, if_false } => {
            lemma_eq_mod_floats_reflexive(*cond);
            lemma_eq_mod_floats_reflexive(*if_true);
            lemma_eq_mod_floats_reflexive(*if_false);
        },
        SpecExpression::Function(_) => {},
        SpecExpression::Lambda { body, .. } => {
            lemma_eq_mod_floats_reflexive(*body);
        },
        SpecExpression::List(es) => {
            lemma_eq_mod_floats_items_reflexive(es);
        },
    }
}

pub proof fn lemma_eq_mod_floats_items_reflexive(es: Seq<SpecExpression>)
    ensures
        eq_mod_floats_items(es, es),
    decreases es,
{
    if es.len() > 0 {
        lemma_eq_mod_floats_reflexive(es[0]);
        lemma_eq_mod_floats_items_reflexive(es.subrange(1, es.len() as int));
    }
}

pub proof fn lemma_eq_mod_floats_items_index(a: Seq<SpecExpression>, b: Seq<SpecExpression>, i: int)
    requires
        eq_mod_floats_items(a, b),
        0 <= i < a.len(),
    ensures
        a.len() == b.len(),
        eq_mod_floats(a[i], b[i]),
    decreases a,
{
    if i > 0 {
        lemma_eq_mod_floats_items_index(
            a.subrange(1, a.len() as int),
            b.subrange(1, b.len() as int),
            i - 1,
        );
        assert(a.subrange(1, a.len() as int)[i - 1] == a[i]);
        assert(b.subrange(1, b.len() as int)[i - 1] == b[i]);
    }
}

pub proof fn lemma_eq_mod_floats_items_pointwise(a: Seq<SpecExpression>, b: Seq<SpecExpression>)
    requires
        a.len() == b.len(),
        forall|i: int| 0 <= i < a.len() ==> eq_mod_floats(#[trigger] a[i], b[i]),
    ensures
        eq_mod_floats_items(a, b),
    decreases a,
{
    if a.len() > 0 {
        let a1 = a.subrange(1, a.len() as int);
        let b1 = b.subrange(1, b.len() as int);
        assert forall|i: int| 0 <= i < a1.len() implies eq_mod_floats(#[trigger] a1[i], b1[i]) by {
            assert(a1[i] == a[i + 1]);
            assert(b1[i] == b[i + 1]);
        }
        lemma_eq_mod_floats_items_pointwise(a1, b1);
    }
}

/// On a float-free right-hand side the relation is plain equality.
pub proof fn lemma_eq_mod_floats_exact(a: SpecExpression, b: SpecExpression)
    requires
        eq_mod_floats(a, b),
        no_floats(b),
    ensures
        a == b,
    decreases a,
{
    match (a, b) {
        (SpecExpression::Constant(_), SpecExpression::Constant(_)) => {},
        (
            SpecExpression::Define { name: n1, value: v1 },
            SpecExpression::Define { name: n2, value: v2 },
        ) => {
            lemma_eq_mod_floats_exact(*n1, *n2);
            lemma_eq_mod_floats_exact(*v1, *v2);
            assert(a =~= b);
        },
        (
            SpecExpression::If { cond: c1, if_true: t1, if_false: f1 },
            SpecExpression::If { cond: c2, if_true: t2, if_false: f2 },
        ) => {
            lemma_eq_mod_floats_exact(*c1, *c2);
            lemma_eq_mod_floats_exact(*t1, *t2);
            lemma_eq_mod_floats_exact(*f1, *f2);
            assert(a =~= b);
        },
        (SpecExpression::Function(_), SpecExpression::Function(_)) => {},
        (
            SpecExpression::Lambda { params: p1, env: e1, body: b1 },
            SpecExpression::Lambda { params: p2, env: e2, body: b2 },
        ) => {
            lemma_eq_mod_floats_exact(*b1, *b2);
            assert(a =~= b);
        },
        (SpecExpression::List(x), SpecExpression::List(y)) => {
            lemma_eq_mod_floats_items_exact(x, y);
            assert(a =~= b);
        },
        _ => {},
    }
}

pub proof fn lemma_eq_mod_floats_items_exact(a: Seq<SpecExpression>, b: Seq<SpecExpression>)
    requires
        eq_mod_floats_items(a, b),
        no_floats_items(b),
    ensures
        a == b,
    decreases a,
{
    if a.len() > 0 {
        lemma_eq_mod_floats_exact(a[0], b[0]);
        lemma_eq_mod_floats_items_exact(
            a.subrange(1, a.len() as int),
            b.subrange(1, b.len() as int),
        );
        assert forall|i: int| 0 <= i < a.len() implies a[i] == b[i] by {
            if i >= 1 {
                assert(a.subrange(1, a.len() as int)[i - 1] == a[i]);
                assert(b.subrange(1, b.len() as int)[i - 1] == b[i]);
            }
        }
        assert(a =~= b);
    } else {
        assert(a =~= b);
    }
}

/// An error raised by a builtin operation or by an environment lookup.
#[derive(Debug)]
pub enum EnvError {
    /// Two operands of incompatible kinds were compared for equality.
    DifferentConstantTypes(Expression, Expression),
    /// An ordering or arithmetic step met a non-numeric operand.
    NonNumericArgs(Expression, Expression),
    /// An integer division step had a zero divisor.
    DivisionByZero(Expression, Expression),
    /// The identifier has no binding.
    NotFound(Identifier),
}

/// The model of an [`EnvError`].
#[verifier::ext_equal]
pub enum SpecEnvError {
    DifferentConstantTypes(SpecExpression, SpecExpression),
    NonNumericArgs(SpecExpression, SpecExpression),
    DivisionByZero(SpecExpression, SpecExpression),
    NotFound(Seq<char>),
}

impl View for EnvError {
    type V = SpecEnvError;

    open spec fn view(&self) -> SpecEnvError {
        match self {
            EnvError::DifferentConstantTypes(a, b) => SpecEnvError::DifferentConstantTypes(
                expr_view(*a),
                expr_view(*b),
            ),
            EnvError::NonNumericArgs(a, b) => SpecEnvError::NonNumericArgs(
                expr_view(*a),
                expr_view(*b),
            ),
            EnvError::DivisionByZero(a, b) => SpecEnvError::DivisionByZero(
                expr_view(*a),
                expr_view(*b),
            ),
            EnvError::NotFound(id) => SpecEnvError::NotFound(id@),
        }
    }
}

impl Clone for Atom {
    fn clone(&self) -> (r: Self)
        ensures
            r@ == self@,
    {
        match self {
            Atom::Bool(b) => Atom::Bool(*b),
            Atom::Float(bits) => Atom::Float(*bits),
            Atom::Int(n) => Atom::Int(*n),
            Atom::Str(s) => Atom::Str(s.clone()),
            Atom::Symbol(id) => Atom::Symbol(id.clone()),
        }
    }
}

/// A copy of a vector of identifiers, element for element.
pub(crate) fn clone_idents(v: &Vec<Identifier>) -> (r: Vec<Identifier>)
    ensures
        r@ == v@,
{
    let mut r: Vec<Identifier> = Vec::new();
    let mut i: usize = 0;
    while i < v.len()
        invariant
            i <= v.len(),
            r@ == v@.subrange(0, i as int),
        decreases v.len() - i,
    {
        r.push(v[i].clone());
        proof {
            assert(r@ =~= v@.subrange(0, i + 1 as int));
        }
        i = i + 1;
    }
    proof {
        assert(v@.subrange(0, v@.len() as int) =~= v@);
    }
    r
}

/// A copy of a vector of expressions, element views preserved.
pub(crate) fn clone_exprs(v: &Vec<Expression>) -> (r: Vec<Expression>)
    ensures
        exprs_view(r@) == exprs_view(v@),
    decreases v,
{
    let mut r: Vec<Expression> = Vec::new();
    let mut i: usize = 0;
    while i < v.len()
        invariant
            i <= v.len(),
            r@.len() == i,
            forall|j: int| 0 <= j < i ==> expr_view(r@[j]) == expr_view(v@[j]),
        decreases v.len() - i,
    {
        r.push(v[i].clone());
        i = i + 1;
    }
    proof {
        broadcast use lemma_exprs_view_len, lemma_exprs_view_index;

        assert(exprs_view(r@) =~= exprs_view(v@));
    }
    r
}

impl Clone for Expression {
    fn clone(&self) -> (r: Self)
        ensures
            r@ == self@,
        decreases self,
    {
        match self {
            Expression::Constant(a) => Expression::Constant(a.clone()),
            Expression::Define(d) => Expression::Define(
                Box::new(Define { name: d.name.clone(), value: d.value.clone() }),
            ),
            Expression::If(i) => Expression::If(
                Box::new(
                    If {
                        cond: i.cond.clone(),
                        if_true: i.if_true.clone(),
                        if_false: i.if_false.clone(),
                    },
                ),
            ),
            Expression::Function(b) => Expression::Function(*b),
            Expression::Lambda(l) => Expression::Lambda(
                Box::new(
                    Lambda {
                        params: clone_idents(&l.params),
                        env: l.env.clone(),
                        body: l.body.clone(),
                    },
                ),
            ),
            Expression::List(xs) => Expression::List(clone_exprs(xs)),
        }
    }
}

proof fn lemma_bindings_map_congruent(
    a: Seq<(Identifier, Expression)>,
    b: Seq<(Identifier, Expression)>,
)
    requires
        a.len() == b.len(),
        forall|j: int|
            0 <= j < a.len() ==> a[j].0@ == b[j].0@ && expr_view(a[j].1) == expr_view(b[j].1),
    ensures
        bindings_map(a) == bindings_map(b),
    decreases a.len(),
{
    if a.len() > 0 {
        lemma_bindings_map_congruent(a.subrange(0, a.len() - 1), b.subrange(0, b.len() - 1));
    }
}

impl Clone for Environment {
    fn clone(&self) -> (r: Self)
        ensures
            r@ == self@,
        decreases self,
    {
        let mut bindings: Vec<(Identifier, Expression)> = Vec::new();
        let mut i: usize = 0;
        while i < self.bindings.len()
            invariant
                i <= self.bindings.len(),
                bindings@.len() == i,
                forall|j: int|
                    0 <= j < i ==> bindings@[j].0@ == self.bindings@[j].0@ && expr_view(
                        bindings@[j].1,
                    ) == expr_view(self.bindings@[j].1),
            decreases self.bindings.len() - i,
        {
            let pair = &self.bindings[i];
            bindings.push((pair.0.clone(), pair.1.clone()));
            i = i + 1;
        }
        proof {
            lemma_bindings_map_congruent(bindings@, self.bindings@);
        }
        Environment { bindings }
    }
}

/// The value bound to `key` by a binding sequence, the latest pair winning.
pub closed spec fn bindings_lookup(s: Seq<(Identifier, Expression)>, key: Seq<char>) -> Option<
    SpecExpression,
>
    decreases s,
{
    if s.len() == 0 {
        None
    } else if s[s.len() - 1].0@ == key {
        Some(expr_view(s[s.len() - 1].1))
    } else {
        bindings_lookup(s.subrange(0, s.len() - 1), key)
    }
}

proof fn lemma_bindings_lookup_is_map(s: Seq<(Identifier, Expression)>, key: Seq<char>)
    ensures
        bindings_map(s).contains_key(key) <==> bindings_lookup(s, key) is Some,
        bindings_map(s).contains_key(key) ==> bindings_lookup(s, key) == Some(
            bindings_map(s)[key],
        ),
    decreases s,
{
    if s.len() > 0 {
        lemma_bindings_lookup_is_map(s.subrange(0, s.len() - 1), key);
    }
}

/// The bindings of a fresh environment: the builtin operations, nothing else.
pub open spec fn initial_env() -> SpecEnv {
    Map::empty().insert("println"@, SpecExpression::Function(Builtin::Println)).insert(
        "list"@,
        SpecExpression::Function(Builtin::ListOf),
    ).insert("="@, SpecExpression::Function(Builtin::Rel(RelOp::Eq))).insert(
        "!="@,
        SpecExpression::Function(Builtin::Rel(RelOp::Ne)),
    ).insert(">"@, SpecExpression::Function(Builtin::Rel(RelOp::Gt))).insert(
        "<"@,
        SpecExpression::Function(Builtin::Rel(RelOp::Lt)),
    ).insert(">="@, SpecExpression::Function(Builtin::Rel(RelOp::Ge))).insert(
        "<="@,
        SpecExpression::Function(Builtin::Rel(RelOp::Le)),
    ).insert("+"@, SpecExpression::Function(Builtin::Arith(ArithOp::Add))).insert(
        "-"@,
        SpecExpression::Function(Builtin::Arith(ArithOp::Sub)),
    ).insert("*"@, SpecExpression::Function(Builtin::Arith(ArithOp::Mul))).insert(
        "/"@,
        SpecExpression::Function(Builtin::Arith(ArithOp::Div)),
    )
}

impl Default for Environment {
    /// A fresh environment, holding exactly the builtin bindings.
    fn default() -> (env: Environment)
        ensures
            env@ == initial_env(),
    {
        let mut env = Environment { bindings: Vec::new() };
        env.define(Identifier::new("println"), Expression::Function(Builtin::Println));
        env.define(Identifier::new("list"), Expression::Function(Builtin::ListOf));
        env.define(Identifier::new("="), Expression::Function(Builtin::Rel(RelOp::Eq)));
        env.define(Identifier::new("!="), Expression::Function(Builtin::Rel(RelOp::Ne)));
        env.define(Identifier::new(">"), Expression::Function(Builtin::Rel(RelOp::Gt)));
        env.define(Identifier::new("<"), Expression::Function(Builtin::Rel(RelOp::Lt)));
        env.define(Identifier::new(">="), Expression::Function(Builtin::Rel(RelOp::Ge)));
        env.define(Identifier::new("<="), Expression::Function(Builtin::Rel(RelOp::Le)));
        env.define(Identifier::new("+"), Expression::Function(Builtin::Arith(ArithOp::Add)));
        env.define(Identifier::new("-"), Expression::Function(Builtin::Arith(ArithOp::Sub)));
        env.define(Identifier::new("*"), Expression::Function(Builtin::Arith(ArithOp::Mul)));
        env.define(Identifier::new("/"), Expression::Function(Builtin::Arith(ArithOp::Div)));
        env
    }
}

impl Environment {
    /// An environment with no bindings at all (the placeholder a freshly read
    /// lambda carries until evaluation captures the current environment).
    pub fn new() -> (env: Environment)
        ensures
            env@ == Map::<Seq<char>, SpecExpression>::empty(),
    {
        Environment { bindings: Vec::new() }
    }

    /// The value bound to the identifier, or `NotFound`.
    pub fn lookup(&self, identifier: &Identifier) -> (r: Result<Expression, EnvError>)
        ensures
            match r {
                Ok(e) => self@.contains_key(identifier@) && e@ == self@[identifier@],
                Err(err) => !self@.contains_key(identifier@) && err@ == SpecEnvError::NotFound(
                    identifier@,
                ),
            },
    {
        proof {
            lemma_bindings_lookup_is_map(self.bindings@, identifier@);
        }
        let mut i: usize = self.bindings.len();
        proof {
            assert(self.bindings@.subrange(0, i as int) =~= self.bindings@);
        }
        while i > 0
            invariant
                i <= self.bindings.len(),
                bindings_lookup(self.bindings@, identifier@) == bindings_lookup(
                    self.bindings@.subrange(0, i as int),
                    identifier@,
                ),
            decreases i,
        {
            i = i - 1;
            let pair = &self.bindings[i];
            if pair.0 == *identifier {
                let value = pair.1.clone();
                proof {
                    let s = self.bindings@;
                    let sub = s.subrange(0, i + 1 as int);
                    assert(sub[i as int] == s[i as int]);
                    assert(bindings_lookup(sub, identifier@) == Some(expr_view(s[i as int].1)));
                    lemma_bindings_lookup_is_map(s, identifier@);
                }
                return Ok(value);
            }
            proof {
                assert(self.bindings@.subrange(0, i + 1 as int).subrange(0, i as int)
                    =~= self.bindings@.subrange(0, i as int));
                assert(self.bindings@.subrange(0, i + 1 as int)[i as int] == self.bindings@[
                    i as int
                ]);
            }
        }
        Err(EnvError::NotFound(identifier.clone()))
    }

    /// Binds the identifier to the expression, shadowing any earlier binding.
    pub fn define(&mut self, identifier: Identifier, expression: Expression)
        ensures
            final(self)@ == old(self)@.insert(identifier@, expression@),
    {
        let ghost old_pairs = self.bindings@;
        self.bindings.push((identifier, expression));
        proof {
            assert(self.bindings@.subrange(0, self.bindings@.len() - 1) =~= old_pairs);
        }
    }
}

/// Lookup determinism: after a definition the identifier resolves to exactly
/// the defined value, and every other binding is as it was before.
pub proof fn lemma_define_then_lookup(
    env: SpecEnv,
    id: Seq<char>,
    value: SpecExpression,
    other: Seq<char>,
)
    ensures
        env.insert(id, value).contains_key(id),
        env.insert(id, value)[id] == value,
        other != id ==> env.insert(id, value).contains_key(other) == env.contains_key(other),
        other != id && env.contains_key(other) ==> env.insert(id, value)[other] == env[other],
{
}

} // verus!
