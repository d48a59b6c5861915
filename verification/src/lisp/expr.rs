//! Expressions, functions and the environment they are evaluated in.
//!
//! Every contract here is stated over the model: an expression is seen as a
//! [`Term`], an environment as a map from names to values, and [`eval_term`]
//! says what evaluating a term yields and how it leaves the environment.

use vstd::prelude::*;
use vstd::hash_map::StringHashMap;
use vstd::string::StringExecFns;
use crate::lisp::semantics::{
    Bindings, Outcome, Term, all_arity_ok, arity_ok, call_arity_ok, eval_call, eval_sum,
    eval_term, lemma_sum_stops_at_failure, lookup, lvalue_of, store,
};
use crate::lisp::text::{decimal_text, describe_list, func_text, push_decimal, push_func, push_list};

verus! {

/// The function that sums its arguments.
#[derive(Debug)]
pub struct Add;

/// The function that chooses between two branches.
#[derive(Debug)]
pub struct If;

/// The function that binds a name to a value.
#[derive(Debug)]
pub struct Assign;

/// The closed set of functions that a call can name.
#[derive(Debug)]
pub enum Func {
    Add(Add),
    If(If),
    Assign(Assign),
}

/// A fixed integer.
#[derive(Debug)]
pub struct Literal {
    pub val: i64,
}

/// A name, resolved against the environment when it is evaluated.
#[derive(Debug)]
pub struct Reference {
    pub name: String,
}

/// A function applied to argument expressions, which it evaluates itself.
#[derive(Debug)]
pub struct Call {
    pub function: Func,
    pub args: Vec<Expr>,
}

/// The closed set of expressions: a strict tree that owns its parts.
#[derive(Debug)]
pub enum Expr {
    Literal(Literal),
    Reference(Reference),
    Call(Call),
}

/// The model of each expression in a list of arguments, in order.
pub open spec fn terms_of(args: Seq<Expr>) -> Seq<Term>
    decreases args, 0nat,
{
    Seq::new(args.len(), |i: int| if 0 <= i < args.len() { term_of(args[i]) } else { Term::Literal(0) })
}

/// The model of an expression.
pub open spec fn term_of(e: Expr) -> Term
    decreases e, 0nat,
{
    match e {
        Expr::Literal(l) => Term::Literal(l.val),
        Expr::Reference(r) => Term::Reference(r.name@),
        Expr::Call(c) => Term::Call(c.function, terms_of(c.args@)),
    }
}

impl View for Expr {
    type V = Term;

    open spec fn view(&self) -> Term {
        term_of(*self)
    }
}

/// The one way in which an evaluation fails.
#[derive(Debug)]
pub enum EvalError {
    /// The name was looked up, or assigned to, and is not one.
    UndefinedName(String),
}

impl EvalError {
    /// The name that the error carries.
    pub open spec fn name(&self) -> Seq<char> {
        match self {
            EvalError::UndefinedName(name) => name@,
        }
    }

    /// The error as a line of text for the user.
    pub fn message(&self) -> (text: String)
        ensures
            text@ == "No such name in environment: "@ + self.name(),
    {
        let mut text = String::from_str("No such name in environment: ");
        match self {
            EvalError::UndefinedName(name) => text.append(name.as_str()),
        }
        text
    }
}

/// The outcome that an executable result and the environment after it stand for.
pub open spec fn outcome_of(r: Result<i64, EvalError>, env: Bindings) -> Outcome {
    Outcome {
        result: match r {
            Ok(v) => Ok(v),
            Err(e) => Err(e.name()),
        },
        env,
    }
}

/// The name, or the error's text, that the result of `lvalue` stands for.
pub open spec fn target_of(r: Result<&str, EvalError>) -> Result<Seq<char>, Seq<char>> {
    match r {
        Ok(name) => Ok(name@),
        Err(e) => Err(e.name()),
    }
}

/// A mutable store from names to values. It only grows: nothing is removed.
pub struct Environment {
    vars: StringHashMap<i64>,
}

impl View for Environment {
    type V = Bindings;

    closed spec fn view(&self) -> Bindings {
        self.vars@
    }
}

impl Environment {
    /// An environment in which no name is set.
    pub fn new() -> (env: Environment)
        ensures
            env@ == Map::<Seq<char>, i64>::empty(),
    {
        Environment { vars: StringHashMap::new() }
    }

    /// The value of `name`, or `UndefinedName` with that name where it was
    /// never set.
    pub fn get(&self, name: &str) -> (r: Result<i64, EvalError>)
        ensures
            outcome_of(r, self@).result == lookup(self@, name@),
    {
        match self.vars.get(name) {
            Some(v) => Ok(*v),
            None => Err(EvalError::UndefinedName(String::from_str(name))),
        }
    }

    /// Binds `name` to `val`, whether or not it was set before, and returns `val`.
    pub fn set(&mut self, name: &str, val: i64) -> (r: i64)
        ensures
            r == val,
            final(self)@ == store(old(self)@, name@, val),
    {
        self.vars.insert(String::from_str(name), val);
        val
    }
}

/// What every kind of expression can do.
pub trait Expression {
    /// The expression as a term of the model.
    spec fn term(&self) -> Term;

    /// Evaluates the expression in `env`, which keeps every assignment made
    /// on the way, also where the evaluation fails.
    fn eval(&self, env: &mut Environment) -> (r: Result<i64, EvalError>)
        requires
            arity_ok(self.term()),
        ensures
            outcome_of(r, final(env)@) == eval_term(self.term(), old(env)@),
    ;

    /// The name to assign to where the expression stands as a target. The
    /// environment is left as it was.
    fn lvalue(&self, env: &mut Environment) -> (r: Result<&str, EvalError>)
        ensures
            target_of(r) == lvalue_of(self.term()),
            final(env)@ == old(env)@,
    ;
}

/// What every function can do.
pub trait Function {
    /// Which of the built-in functions this is.
    spec fn func(&self) -> Func;

    /// Calls the function on unevaluated arguments.
    fn call(&self, args: &Vec<Expr>, env: &mut Environment) -> (r: Result<i64, EvalError>)
        requires
            call_arity_ok(self.func(), terms_of(args@)),
            all_arity_ok(terms_of(args@)),
        ensures
            outcome_of(r, final(env)@) == eval_call(self.func(), terms_of(args@), old(env)@),
    ;
}

/// Evaluates an expression tree.
pub fn eval_expr(e: &Expr, env: &mut Environment) -> (r: Result<i64, EvalError>)
    requires
        arity_ok(e@),
    ensures
        outcome_of(r, final(env)@) == eval_term(e@, old(env)@),
    decreases *e, 0nat,
{
    match e {
        Expr::Literal(l) => Ok(l.val),
        Expr::Reference(r) => env.get(r.name.as_str()),
        Expr::Call(c) => call_func(&c.function, &c.args, env),
    }
}

/// The name that an expression tree stands for as a target of assignment.
pub fn lvalue_expr(e: &Expr) -> (r: Result<&str, EvalError>)
    ensures
        target_of(r) == lvalue_of(e@),
{
    match e {
        Expr::Reference(r) => Ok(r.name.as_str()),
        Expr::Literal(l) => Err(EvalError::UndefinedName(literal_text(l.val))),
        Expr::Call(c) => Err(EvalError::UndefinedName(call_text(&c.function, &c.args))),
    }
}

/// The text that `lvalue` gives for a literal.
fn literal_text(val: i64) -> (text: String)
    ensures
        Err::<Seq<char>, Seq<char>>(text@) == lvalue_of(Term::Literal(val)),
{
    let mut text = String::new();
    push_decimal(&mut text, val);
    assert(text@ =~= decimal_text(val as int));
    text
}

/// The text that `lvalue` gives for a call.
fn call_text(f: &Func, args: &Vec<Expr>) -> (text: String)
    ensures
        Err::<Seq<char>, Seq<char>>(text@) == lvalue_of(Term::Call(*f, terms_of(args@))),
{
    let mut text = String::from_str("(");
    push_func(&mut text, f);
    text.append(" ");
    push_list(&mut text, args);
    text.append(")");
    assert(text@ =~= "("@ + func_text(*f) + " "@ + describe_list(terms_of(args@)) + ")"@);
    text
}

/// Calls one of the built-in functions on unevaluated arguments.
pub fn call_func(f: &Func, args: &Vec<Expr>, env: &mut Environment) -> (r: Result<i64, EvalError>)
    requires
        call_arity_ok(*f, terms_of(args@)),
        all_arity_ok(terms_of(args@)),
    ensures
        outcome_of(r, final(env)@) == eval_call(*f, terms_of(args@), old(env)@),
    decreases *args, 3nat,
{
    match f {
        Func::Add(_) => call_add(args, env),
        Func::If(_) => call_if(args, env),
        Func::Assign(_) => call_assign(args, env),
    }
}

fn call_add(args: &Vec<Expr>, env: &mut Environment) -> (r: Result<i64, EvalError>)
    requires
        all_arity_ok(terms_of(args@)),
    ensures
        outcome_of(r, final(env)@) == eval_sum(terms_of(args@), args@.len(), old(env)@),
    decreases *args, 2nat,
{
    let ghost terms = terms_of(args@);
    let ghost start = env@;
    let mut acc: i64 = 0;
    let mut i: usize = 0;
    while i < args.len()
        invariant
            i <= args.len(),
            terms == terms_of(args@),
            start == old(env)@,
            all_arity_ok(terms),
            eval_sum(terms, i as nat, start) == (Outcome { result: Ok(acc), env: env@ }),
        decreases args.len() - i,
    {
        assert(arity_ok(terms[i as int]));
        match eval_expr(&args[i], env) {
            Ok(v) => {
                acc = acc.wrapping_add(v);
            },
            Err(e) => {
                proof {
                    lemma_sum_stops_at_failure(terms, (i + 1) as nat, args.len() as nat, start);
                }
                return Err(e);
            },
        }
        i += 1;
    }
    Ok(acc)
}

fn call_if(args: &Vec<Expr>, env: &mut Environment) -> (r: Result<i64, EvalError>)
    requires
        args.len() >= 3,
        all_arity_ok(terms_of(args@)),
    ensures
        outcome_of(r, final(env)@) == eval_call(Func::If(If), terms_of(args@), old(env)@),
    decreases *args, 2nat,
{
    let ghost terms = terms_of(args@);
    assert(arity_ok(terms[0]) && arity_ok(terms[1]) && arity_ok(terms[2]));
    match eval_expr(&args[0], env) {
        Err(e) => Err(e),
        Ok(c) => if c != 0 {
            eval_expr(&args[1], env)
        } else {
            eval_expr(&args[2], env)
        },
    }
}

fn call_assign(args: &Vec<Expr>, env: &mut Environment) -> (r: Result<i64, EvalError>)
    requires
        args.len() >= 2,
        all_arity_ok(terms_of(args@)),
    ensures
        outcome_of(r, final(env)@) == eval_call(Func::Assign(Assign), terms_of(args@), old(env)@),
    decreases *args, 2nat,
{
    let ghost terms = terms_of(args@);
    assert(arity_ok(terms[0]) && arity_ok(terms[1]));
    match lvalue_expr(&args[0]) {
        Err(e) => Err(e),
        Ok(name) => match eval_expr(&args[1], env) {
            Err(e) => Err(e),
            Ok(v) => Ok(env.set(name, v)),
        },
    }
}

impl Add {
    pub fn new() -> (f: Add)
        ensures
            f.func() == Func::Add(Add),
    {
        Add
    }
}

impl If {
    pub fn new() -> (f: If)
        ensures
            f.func() == Func::If(If),
    {
        If
    }
}

impl Assign {
    pub fn new() -> (f: Assign)
        ensures
            f.func() == Func::Assign(Assign),
    {
        Assign
    }
}

impl Function for Add {
    open spec fn func(&self) -> Func {
        Func::Add(Add)
    }

    fn call(&self, args: &Vec<Expr>, env: &mut Environment) -> (r: Result<i64, EvalError>) {
        call_add(args, env)
    }
}

impl Function for If {
    open spec fn func(&self) -> Func {
        Func::If(If)
    }

    fn call(&self, args: &Vec<Expr>, env: &mut Environment) -> (r: Result<i64, EvalError>) {
        call_if(args, env)
    }
}

impl Function for Assign {
    open spec fn func(&self) -> Func {
        Func::Assign(Assign)
    }

    fn call(&self, args: &Vec<Expr>, env: &mut Environment) -> (r: Result<i64, EvalError>) {
        call_assign(args, env)
    }
}

impl Function for Func {
    open spec fn func(&self) -> Func {
        *self
    }

    fn call(&self, args: &Vec<Expr>, env: &mut Environment) -> (r: Result<i64, EvalError>) {
        call_func(self, args, env)
    }
}

impl Literal {
    pub fn new(val: i64) -> (l: Literal)
        ensures
            l.val == val,
    {
        Literal { val }
    }
}

impl Reference {
    pub fn new(name: &str) -> (r: Reference)
        ensures
            r.name@ == name@,
    {
        Reference { name: String::from_str(name) }
    }
}

impl Call {
    pub fn new(function: Func, args: Vec<Expr>) -> (c: Call)
        ensures
            c.function == function,
            c.args == args,
    {
        Call { function, args }
    }
}

impl Expression for Literal {
    open spec fn term(&self) -> Term {
        Term::Literal(self.val)
    }

    fn eval(&self, env: &mut Environment) -> (r: Result<i64, EvalError>) {
        Ok(self.val)
    }

    fn lvalue(&self, env: &mut Environment) -> (r: Result<&str, EvalError>) {
        Err(EvalError::UndefinedName(literal_text(self.val)))
    }
}

impl Expression for Reference {
    open spec fn term(&self) -> Term {
        Term::Reference(self.name@)
    }

    fn eval(&self, env: &mut Environment) -> (r: Result<i64, EvalError>) {
        env.get(self.name.as_str())
    }

    fn lvalue(&self, env: &mut Environment) -> (r: Result<&str, EvalError>) {
        Ok(self.name.as_str())
    }
}

impl Expression for Call {
    open spec fn term(&self) -> Term {
        Term::Call(self.function, terms_of(self.args@))
    }

    fn eval(&self, env: &mut Environment) -> (r: Result<i64, EvalError>) {
        call_func(&self.function, &self.args, env)
    }

    fn lvalue(&self, env: &mut Environment) -> (r: Result<&str, EvalError>) {
        Err(EvalError::UndefinedName(call_text(&self.function, &self.args)))
    }
}

impl Expression for Expr {
    open spec fn term(&self) -> Term {
        self@
    }

    fn eval(&self, env: &mut Environment) -> (r: Result<i64, EvalError>) {
        eval_expr(self, env)
    }

    fn lvalue(&self, env: &mut Environment) -> (r: Result<&str, EvalError>) {
        lvalue_expr(self)
    }
}

/// Whether every call in the tree has the arguments that its function reads.
pub fn has_arity(e: &Expr) -> (ok: bool)
    ensures
        ok == arity_ok(e@),
    decreases *e, 0nat,
{
    match e {
        Expr::Literal(_) => true,
        Expr::Reference(_) => true,
        Expr::Call(c) => {
            let enough = match c.function {
                Func::Add(_) => true,
                Func::If(_) => c.args.len() >= 3,
                Func::Assign(_) => c.args.len() >= 2,
            };
            enough && all_have_arity(&c.args)
        },
    }
}

/// Whether every expression of `args` has the arguments that its calls read.
pub fn all_have_arity(args: &Vec<Expr>) -> (ok: bool)
    ensures
        ok == all_arity_ok(terms_of(args@)),
    decreases *args, 1nat,
{
    let ghost terms = terms_of(args@);
    let mut i: usize = 0;
    while i < args.len()
        invariant
            i <= args.len(),
            terms == terms_of(args@),
            forall|j: int| 0 <= j < i ==> arity_ok(#[trigger] terms[j]),
        decreases args.len() - i,
    {
        if !has_arity(&args[i]) {
            assert(!arity_ok(terms[i as int]));
            return false;
        }
        i += 1;
    }
    true
}

} // verus!
