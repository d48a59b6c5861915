//! What expressions mean: the model of an expression, of an environment and
//! of an evaluation, and what holds of them.

use vstd::prelude::*;
use crate::lisp::expr::{Add, Assign, Func, If};
use crate::lisp::text::{decimal_text, describe_list, func_text};

verus! {

/// The model of an environment: the value bound to each name that is set.
pub type Bindings = Map<Seq<char>, i64>;

/// The model of an expression: the same tree over sequences.
pub enum Term {
    Literal(i64),
    Reference(Seq<char>),
    Call(Func, Seq<Term>),
}

/// What an evaluation leaves behind: its value, or the name that was not
/// defined, and the environment after it. An evaluation that fails keeps the
/// assignments made before the failure.
pub struct Outcome {
    pub result: Result<i64, Seq<char>>,
    pub env: Bindings,
}

/// The value bound to `name`, or `name` itself as the error where none is.
pub open spec fn lookup(env: Bindings, name: Seq<char>) -> Result<i64, Seq<char>> {
    if env.contains_key(name) {
        Ok(env[name])
    } else {
        Err(name)
    }
}

/// The environment after `name` is bound to `val`: an earlier binding of the
/// same name is replaced, every other binding stays.
pub open spec fn store(env: Bindings, name: Seq<char>, val: i64) -> Bindings {
    env.insert(name, val)
}

/// Whether a function can be called with these arguments: `If` reads three
/// of them and `Assign` two, `Add` takes any number.
pub open spec fn call_arity_ok(f: Func, args: Seq<Term>) -> bool {
    match f {
        Func::Add(_) => true,
        Func::If(_) => args.len() >= 3,
        Func::Assign(_) => args.len() >= 2,
    }
}

/// Whether every argument in the list is well formed.
pub open spec fn all_arity_ok(args: Seq<Term>) -> bool
    decreases args, 0nat,
{
    forall|i: int| 0 <= i < args.len() ==> arity_ok(#[trigger] args[i])
}

/// Whether every call in the tree has the arguments that its function reads.
pub open spec fn arity_ok(t: Term) -> bool
    decreases t, 0nat,
{
    match t {
        Term::Literal(_) => true,
        Term::Reference(_) => true,
        Term::Call(f, args) => call_arity_ok(f, args) && all_arity_ok(args),
    }
}

/// The name that an expression stands for where it is assigned to. Only a
/// reference has one; for any other expression the error carries its
/// description.
pub open spec fn lvalue_of(t: Term) -> Result<Seq<char>, Seq<char>> {
    match t {
        Term::Reference(name) => Ok(name),
        Term::Literal(val) => Err(decimal_text(val as int)),
        Term::Call(f, args) => Err("("@ + func_text(f) + " "@ + describe_list(args) + ")"@),
    }
}

/// What evaluating `t` in `env` yields.
pub open spec fn eval_term(t: Term, env: Bindings) -> Outcome
    decreases t, 0nat, 0nat,
{
    match t {
        Term::Literal(val) => Outcome { result: Ok(val), env },
        Term::Reference(name) => Outcome { result: lookup(env, name), env },
        Term::Call(f, args) => eval_call(f, args, env),
    }
}

/// What calling `f` on the unevaluated arguments `args` yields.
///
/// `Add` sums its arguments from left to right, starting at 0 and wrapping
/// round on overflow. `If` evaluates its first argument, then the second where
/// that value is not 0 and the third where it is, never both. `Assign` takes
/// the name of its first argument, evaluates the second and binds the name to
/// the value, which is also the result. The first failure ends the call.
/// Of `If` with fewer than three arguments and of `Assign` with fewer than
/// two nothing is said.
pub open spec fn eval_call(f: Func, args: Seq<Term>, env: Bindings) -> Outcome
    decreases args, 2nat, 0nat,
{
    match f {
        Func::Add(_) => eval_sum(args, args.len(), env),
        Func::If(_) => if args.len() >= 3 {
            let cond = eval_term(args[0], env);
            match cond.result {
                Err(_) => cond,
                Ok(c) => if c != 0 {
                    eval_term(args[1], cond.env)
                } else {
                    eval_term(args[2], cond.env)
                },
            }
        } else {
            arbitrary()
        },
        Func::Assign(_) => if args.len() >= 2 {
            match lvalue_of(args[0]) {
                Err(text) => Outcome { result: Err(text), env },
                Ok(name) => {
                    let value = eval_term(args[1], env);
                    match value.result {
                        Err(_) => value,
                        Ok(v) => Outcome { result: Ok(v), env: store(value.env, name, v) },
                    }
                },
            }
        } else {
            arbitrary()
        },
    }
}

/// What summing the first `n` of `args` yields: each is evaluated in the
/// environment that the one before it left, and none after the first failure.
pub open spec fn eval_sum(args: Seq<Term>, n: nat, env: Bindings) -> Outcome
    decreases args, 1nat, n,
{
    if n == 0 || n > args.len() {
        Outcome { result: Ok(0), env }
    } else {
        let before = eval_sum(args, (n - 1) as nat, env);
        match before.result {
            Err(_) => before,
            Ok(acc) => {
                let here = eval_term(args[n - 1], before.env);
                match here.result {
                    Err(_) => here,
                    Ok(v) => Outcome { result: Ok(acc.wrapping_add(v)), env: here.env },
                }
            },
        }
    }
}

/// A sum that has failed after `k` arguments is the same failure after any
/// greater number of them: no later argument is evaluated.
pub proof fn lemma_sum_stops_at_failure(args: Seq<Term>, k: nat, n: nat, env: Bindings)
    requires
        k <= n <= args.len(),
        eval_sum(args, k, env).result is Err,
    ensures
        eval_sum(args, n, env) == eval_sum(args, k, env),
    decreases n,
{
    if k < n {
        lemma_sum_stops_at_failure(args, k, (n - 1) as nat, env);
    }
}

/// A literal evaluates to its own value, in every environment, and leaves
/// the environment as it was.
pub proof fn lemma_literal_evaluates_to_itself(n: i64, env: Bindings)
    ensures
        eval_term(Term::Literal(n), env) == (Outcome { result: Ok(n), env }),
{
}

/// `Add` of no arguments is 0 and leaves the environment as it was.
pub proof fn lemma_add_of_nothing(env: Bindings)
    ensures
        eval_call(Func::Add(Add), Seq::empty(), env) == (Outcome { result: Ok(0), env }),
{
}

/// The sum of the first `n` arguments depends on those arguments alone.
pub proof fn lemma_sum_reads_its_prefix(a: Seq<Term>, b: Seq<Term>, n: nat, env: Bindings)
    requires
        n <= a.len(),
        n <= b.len(),
        forall|i: int| 0 <= i < n ==> a[i] == b[i],
    ensures
        eval_sum(a, n, env) == eval_sum(b, n, env),
    decreases n,
{
    if n > 0 {
        lemma_sum_reads_its_prefix(a, b, (n - 1) as nat, env);
    }
}

/// `Add` works from left to right: with one more argument at the end, the
/// arguments before it are summed first, as without it; where that fails the
/// new argument is not evaluated, and otherwise it is evaluated in the
/// environment that they left and its value is added last.
pub proof fn lemma_add_is_left_to_right(args: Seq<Term>, last: Term, env: Bindings)
    ensures
        eval_call(Func::Add(Add), args.push(last), env) == ({
            let before = eval_call(Func::Add(Add), args, env);
            match before.result {
                Err(_) => before,
                Ok(acc) => {
                    let here = eval_term(last, before.env);
                    match here.result {
                        Err(_) => here,
                        Ok(v) => Outcome { result: Ok(acc.wrapping_add(v)), env: here.env },
                    }
                },
            }
        }),
{
    let longer = args.push(last);
    lemma_sum_reads_its_prefix(longer, args, args.len(), env);
    assert(longer[args.len() as int] == last);
    assert(eval_sum(longer, longer.len(), env) == eval_call(Func::Add(Add), longer, env));
}

/// `If` evaluates one branch only: where the condition is not 0 the result is
/// that of the second argument, evaluated after the condition, whatever the
/// third is; where it is 0, that of the third, whatever the second is.
pub proof fn lemma_if_takes_one_branch(cond: Term, taken: Term, skipped: Term, env: Bindings)
    requires
        eval_term(cond, env).result is Ok,
    ensures
        eval_term(cond, env).result != Ok::<i64, Seq<char>>(0) ==> eval_call(
            Func::If(If),
            seq![cond, taken, skipped],
            env,
        ) == eval_term(taken, eval_term(cond, env).env),
        eval_term(cond, env).result == Ok::<i64, Seq<char>>(0) ==> eval_call(
            Func::If(If),
            seq![cond, skipped, taken],
            env,
        ) == eval_term(taken, eval_term(cond, env).env),
{
}

/// A name that was never set is not found, and the error is that name.
pub proof fn lemma_unset_name_is_undefined(env: Bindings, name: Seq<char>)
    requires
        !env.contains_key(name),
    ensures
        lookup(env, name) == Err::<i64, Seq<char>>(name),
        eval_term(Term::Reference(name), env) == (Outcome { result: Err(name), env }),
{
}

/// After a name is set it is found with the value it was set to, and every
/// other name is found as before.
pub proof fn lemma_get_after_set(env: Bindings, name: Seq<char>, val: i64, other: Seq<char>)
    ensures
        lookup(store(env, name, val), name) == Ok::<i64, Seq<char>>(val),
        other != name ==> lookup(store(env, name, val), other) == lookup(env, other),
{
}

/// An assignment evaluates to the assigned value, and a read of the name
/// after it yields that value, whether or not the name was set before.
pub proof fn lemma_assign_then_read(name: Seq<char>, value: Term, env: Bindings)
    requires
        eval_term(value, env).result is Ok,
    ensures
        ({
            let assigned = eval_call(Func::Assign(Assign), seq![Term::Reference(name), value], env);
            &&& assigned.result == eval_term(value, env).result
            &&& eval_term(Term::Reference(name), assigned.env).result == assigned.result
            &&& eval_term(Term::Reference(name), assigned.env).env == assigned.env
        }),
{
}

/// Where the arguments of `Add` before the one at `i` evaluate without
/// failure and leave `name` unset, and the argument at `i` is a reference to
/// `name`, the call fails with that very name.
pub proof fn lemma_unset_reference_argument(args: Seq<Term>, i: nat, name: Seq<char>, env: Bindings)
    requires
        i < args.len(),
        args[i as int] == Term::Reference(name),
        eval_sum(args, i, env).result is Ok,
        !eval_sum(args, i, env).env.contains_key(name),
    ensures
        eval_call(Func::Add(Add), args, env) == (Outcome {
            result: Err(name),
            env: eval_sum(args, i, env).env,
        }),
{
    let k = (i + 1) as nat;
    assert((k - 1) as nat == i);
    assert(eval_term(args[k - 1], eval_sum(args, i, env).env).result == Err::<i64, Seq<char>>(name));
    assert(eval_sum(args, k, env).result == Err::<i64, Seq<char>>(name));
    lemma_sum_stops_at_failure(args, k, args.len(), env);
}

/// An environment only grows: a name that is set before an evaluation is
/// set after it, whether the evaluation fails or not.
pub proof fn lemma_eval_keeps_names(t: Term, env: Bindings, name: Seq<char>)
    requires
        arity_ok(t),
        env.contains_key(name),
    ensures
        eval_term(t, env).env.contains_key(name),
    decreases t, 0nat, 0nat,
{
    match t {
        Term::Call(f, args) => lemma_call_keeps_names(f, args, env, name),
        _ => {},
    }
}

/// A name that is set before a call is set after it.
pub proof fn lemma_call_keeps_names(f: Func, args: Seq<Term>, env: Bindings, name: Seq<char>)
    requires
        call_arity_ok(f, args),
        all_arity_ok(args),
        env.contains_key(name),
    ensures
        eval_call(f, args, env).env.contains_key(name),
    decreases args, 2nat, 0nat,
{
    match f {
        Func::Add(_) => lemma_sum_keeps_names(args, args.len(), env, name),
        Func::If(_) => {
            lemma_eval_keeps_names(args[0], env, name);
            let cond = eval_term(args[0], env);
            if cond.result is Ok {
                lemma_eval_keeps_names(args[1], cond.env, name);
                lemma_eval_keeps_names(args[2], cond.env, name);
            }
        },
        Func::Assign(_) => {
            lemma_eval_keeps_names(args[1], env, name);
        },
    }
}

/// A name that is set before a sum is set after it.
pub proof fn lemma_sum_keeps_names(args: Seq<Term>, n: nat, env: Bindings, name: Seq<char>)
    requires
        all_arity_ok(args),
        n <= args.len(),
        env.contains_key(name),
    ensures
        eval_sum(args, n, env).env.contains_key(name),
    decreases args, 1nat, n,
{
    if n > 0 {
        lemma_sum_keeps_names(args, (n - 1) as nat, env, name);
        let before = eval_sum(args, (n - 1) as nat, env);
        if before.result is Ok {
            lemma_eval_keeps_names(args[n - 1], before.env, name);
        }
    }
}

} // verus!
