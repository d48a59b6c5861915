use lust::lisp::text::push_reference;
use lust::lisp::expr::{
    all_have_arity, call_func, eval_expr, has_arity, lvalue_expr, Add, Assign, Call, Environment,
    EvalError, Expr, Expression, Func, Function, If, Literal, Reference,
};

fn lit(val: i64) -> Expr {
    Expr::Literal(Literal { val: val })
}

fn add_call(args: Vec<Expr>) -> Expr {
    Expr::Call(Call { function: Func::Add(Add), args: args })
}

#[test]
fn test_add_two_and_two() {
    let mut env = Environment::new();
    let add = Add;
    let result = add.call(&vec![lit(2), lit(2)], &mut env);
    assert_eq!(4, result.unwrap());
}

#[test]
fn test_add_three_values() {
    let mut env = Environment::new();
    let add = Add;
    assert_eq!(6, add.call(&vec![lit(1), lit(2), lit(3)], &mut env).unwrap());
}

#[test]
fn test_eval_call() {
    let mut env = Environment::new();
    let add = Add;
    let one = lit(1);
    let two = lit(2);
    let three = lit(3);
    let expr = Call { function: Func::Add(add), args: vec![one, two, three] };
    assert_eq!(6, expr.eval(&mut env).unwrap());
}

#[test]
fn test_eval_recursive() {
    let mut env = Environment::new();
    let expr = Call {
        function: Func::Add(Add),
        args: vec![lit(1), add_call(vec![lit(2), lit(3)])],
    };
    assert_eq!(6, expr.eval(&mut env).unwrap());
}

#[test]
fn test_if_nonzero() {
    let mut env = Environment::new();
    assert_eq!(
        4,
        If.call(&vec![lit(1), add_call(vec![lit(1), lit(3)]), lit(2)], &mut env).unwrap()
    );
}

#[test]
fn test_if_zero() {
    let mut env = Environment::new();
    assert_eq!(
        2,
        If.call(&vec![lit(0), add_call(vec![lit(1), lit(3)]), lit(2)], &mut env).unwrap()
    );
}

#[test]
fn test_missing_variable() {
    let mut env = Environment::new();
    Reference::new("foo").eval(&mut env).unwrap_err();
}

#[test]
fn test_variable() {
    let mut env = Environment::new();
    env.set("foo", 3);
    assert_eq!(3, Reference::new("foo").eval(&mut env).unwrap());
}

#[test]
fn test_variable_argument() {
    let mut env = Environment::new();
    env.set("foo", 123);
    let add = Add;
    let one = Expr::Reference(Reference::new("foo"));
    let two = lit(2);
    let three = lit(3);
    let expr = Call { function: Func::Add(add), args: vec![one, two, three] };
    assert_eq!(128, expr.eval(&mut env).unwrap());
}

#[test]
fn test_assign_value() {
    let mut env = Environment::new();
    let expr = Call {
        function: Func::Assign(Assign::new()),
        args: vec![Expr::Reference(Reference::new("bar")), Expr::Literal(Literal::new(3))],
    };
    assert_eq!(3, expr.eval(&mut env).unwrap());
    let read = Reference::new("bar");
    assert_eq!(3, read.eval(&mut env).unwrap());
}

#[test]
fn test_reassign_value() {
    let mut env = Environment::new();
    env.set("bar", 3);
    let expr = Call {
        function: Func::Assign(Assign::new()),
        args: vec![Expr::Reference(Reference::new("bar")), Expr::Literal(Literal::new(17))],
    };
    assert_eq!(17, expr.eval(&mut env).unwrap());
    let read = Reference::new("bar");
    assert_eq!(17, read.eval(&mut env).unwrap());
}

#[test]
fn test_literal_evaluates_to_itself() {
    let mut env = Environment::new();
    for n in [0i64, 1, -1, 42, i64::MAX, i64::MIN] {
        assert_eq!(n, Literal::new(n).eval(&mut env).unwrap());
        assert_eq!(n, lit(n).eval(&mut env).unwrap());
    }
}

#[test]
fn test_add_of_nothing_is_zero() {
    let mut env = Environment::new();
    assert_eq!(0, Add::new().call(&vec![], &mut env).unwrap());
    assert_eq!(0, add_call(vec![]).eval(&mut env).unwrap());
}

#[test]
fn test_add_wraps_round() {
    let mut env = Environment::new();
    assert_eq!(i64::MIN, Add.call(&vec![lit(i64::MAX), lit(1)], &mut env).unwrap());
    assert_eq!(i64::MAX, Add.call(&vec![lit(i64::MIN), lit(-1)], &mut env).unwrap());
}

#[test]
fn test_add_evaluates_left_to_right() {
    let mut env = Environment::new();
    let assign = Expr::Call(Call::new(
        Func::Assign(Assign),
        vec![Expr::Reference(Reference::new("x")), lit(5)],
    ));
    let expr = add_call(vec![assign, Expr::Reference(Reference::new("x"))]);
    assert_eq!(10, expr.eval(&mut env).unwrap());

    let mut fresh = Environment::new();
    let assign = Expr::Call(Call::new(
        Func::Assign(Assign),
        vec![Expr::Reference(Reference::new("x")), lit(5)],
    ));
    let expr = add_call(vec![Expr::Reference(Reference::new("x")), assign]);
    match expr.eval(&mut fresh) {
        Err(EvalError::UndefinedName(name)) => assert_eq!("x", name),
        Ok(_) => panic!("x was read before it was set"),
    }
    assert!(fresh.get("x").is_err());
}

#[test]
fn test_add_keeps_assignments_made_before_a_failure() {
    let mut env = Environment::new();
    let assign = Expr::Call(Call::new(
        Func::Assign(Assign),
        vec![Expr::Reference(Reference::new("x")), lit(5)],
    ));
    let expr = add_call(vec![assign, Expr::Reference(Reference::new("y")), lit(1)]);
    match expr.eval(&mut env) {
        Err(EvalError::UndefinedName(name)) => assert_eq!("y", name),
        Ok(_) => panic!("y is not set"),
    }
    assert_eq!(5, env.get("x").unwrap());
}

#[test]
fn test_if_skips_the_branch_not_taken() {
    let mut env = Environment::new();
    let missing = Expr::Reference(Reference::new("nowhere"));
    assert_eq!(7, If.call(&vec![lit(1), lit(7), missing], &mut env).unwrap());
    let missing = Expr::Reference(Reference::new("nowhere"));
    assert_eq!(8, If.call(&vec![lit(0), missing, lit(8)], &mut env).unwrap());

    let set_a = Expr::Call(Call::new(
        Func::Assign(Assign),
        vec![Expr::Reference(Reference::new("a")), lit(1)],
    ));
    let set_b = Expr::Call(Call::new(
        Func::Assign(Assign),
        vec![Expr::Reference(Reference::new("b")), lit(2)],
    ));
    assert_eq!(2, If.call(&vec![lit(0), set_a, set_b], &mut env).unwrap());
    assert!(env.get("a").is_err());
    assert_eq!(2, env.get("b").unwrap());
}

#[test]
fn test_if_condition_failure_is_returned() {
    let mut env = Environment::new();
    let missing = Expr::Reference(Reference::new("cond"));
    match If.call(&vec![missing, lit(1), lit(2)], &mut env) {
        Err(EvalError::UndefinedName(name)) => assert_eq!("cond", name),
        Ok(_) => panic!("the condition is not set"),
    }
}

#[test]
fn test_get_unset_name_fails_with_that_name() {
    let env = Environment::new();
    match env.get("ghost") {
        Err(EvalError::UndefinedName(name)) => assert_eq!("ghost", name),
        Ok(_) => panic!("nothing was set"),
    }
}

#[test]
fn test_set_returns_value_and_get_finds_it() {
    let mut env = Environment::new();
    assert_eq!(9, env.set("a", 9));
    assert_eq!(9, env.get("a").unwrap());
    assert_eq!(-4, env.set("a", -4));
    assert_eq!(-4, env.get("a").unwrap());
    env.set("b", 1);
    assert_eq!(-4, env.get("a").unwrap());
    assert_eq!(1, env.get("b").unwrap());
}

#[test]
fn test_unset_reference_as_argument() {
    let mut env = Environment::new();
    let expr = add_call(vec![lit(1), Expr::Reference(Reference::new("apa")), lit(2)]);
    match expr.eval(&mut env) {
        Err(EvalError::UndefinedName(name)) => assert_eq!("apa", name),
        Ok(_) => panic!("apa is not set"),
    }
}

#[test]
fn test_lvalue_of_reference_is_its_name() {
    let mut env = Environment::new();
    let reference = Reference::new("target");
    assert_eq!("target", reference.lvalue(&mut env).unwrap());
    let expr = Expr::Reference(Reference::new("other"));
    assert_eq!("other", expr.lvalue(&mut env).unwrap());
}

#[test]
fn test_eval_error_message() {
    let e = EvalError::UndefinedName(String::from("foo"));
    assert_eq!("No such name in environment: foo", e.message());
}

#[test]
fn test_lvalue_of_literal_fails_with_its_text() {
    let mut env = Environment::new();
    match Literal::new(-14).lvalue(&mut env) {
        Err(EvalError::UndefinedName(name)) => assert_eq!("-14", name),
        Ok(_) => panic!("a literal is no target"),
    }
    match lit(0).lvalue(&mut env) {
        Err(EvalError::UndefinedName(name)) => assert_eq!("0", name),
        Ok(_) => panic!("a literal is no target"),
    }
    match lit(i64::MIN).lvalue(&mut env) {
        Err(EvalError::UndefinedName(name)) => assert_eq!("-9223372036854775808", name),
        Ok(_) => panic!("a literal is no target"),
    }
    match lit(i64::MAX).lvalue(&mut env) {
        Err(EvalError::UndefinedName(name)) => assert_eq!("9223372036854775807", name),
        Ok(_) => panic!("a literal is no target"),
    }
}

#[test]
fn test_lvalue_of_call_fails_with_its_description() {
    let mut env = Environment::new();
    let call = Call::new(
        Func::Add(Add),
        vec![
            lit(1),
            Expr::Reference(Reference::new("foo")),
            Expr::Call(Call::new(Func::If(If), vec![lit(0), lit(10), lit(-2)])),
        ],
    );
    match call.lvalue(&mut env) {
        Err(EvalError::UndefinedName(name)) => assert_eq!(
            "(Add [Literal { val: 1 }, Reference { name: \"foo\" }, \
             Call { function: If, args: [Literal { val: 0 }, Literal { val: 10 }, Literal { val: -2 }] }])",
            name
        ),
        Ok(_) => panic!("a call is no target"),
    }
    let empty = Call::new(Func::Assign(Assign), vec![]);
    match empty.lvalue(&mut env) {
        Err(EvalError::UndefinedName(name)) => assert_eq!("(Set [])", name),
        Ok(_) => panic!("a call is no target"),
    }
    let quoted = Call::new(Func::Add(Add), vec![Expr::Reference(Reference::new("a\"b"))]);
    match quoted.lvalue(&mut env) {
        Err(EvalError::UndefinedName(name)) => {
            assert_eq!("(Add [Reference { name: \"a\\\"b\" }])", name)
        }
        Ok(_) => panic!("a call is no target"),
    }
}

#[test]
fn test_assign_to_what_is_no_reference_fails() {
    let mut env = Environment::new();
    let missing = Expr::Reference(Reference::new("never"));
    match Assign.call(&vec![lit(4), missing], &mut env) {
        Err(EvalError::UndefinedName(name)) => assert_eq!("4", name),
        Ok(_) => panic!("a literal is no target"),
    }
    let target = add_call(vec![lit(1)]);
    match Assign.call(&vec![target, lit(2)], &mut env) {
        Err(EvalError::UndefinedName(name)) => assert_eq!("(Add [Literal { val: 1 }])", name),
        Ok(_) => panic!("a call is no target"),
    }
}

#[test]
fn test_assign_with_failing_value_sets_nothing() {
    let mut env = Environment::new();
    let target = Expr::Reference(Reference::new("x"));
    let missing = Expr::Reference(Reference::new("y"));
    match Assign.call(&vec![target, missing], &mut env) {
        Err(EvalError::UndefinedName(name)) => assert_eq!("y", name),
        Ok(_) => panic!("y is not set"),
    }
    assert!(env.get("x").is_err());
}

#[test]
fn test_has_arity() {
    assert!(has_arity(&lit(1)));
    assert!(has_arity(&Expr::Reference(Reference::new("a"))));
    assert!(has_arity(&add_call(vec![])));
    let short_if = Expr::Call(Call::new(Func::If(If), vec![lit(1), lit(2)]));
    assert!(!has_arity(&short_if));
    let full_if = Expr::Call(Call::new(Func::If(If), vec![lit(1), lit(2), lit(3)]));
    assert!(has_arity(&full_if));
    let short_set = Expr::Call(Call::new(Func::Assign(Assign), vec![lit(1)]));
    assert!(!has_arity(&short_set));
    let nested = add_call(vec![lit(1), Expr::Call(Call::new(Func::If(If), vec![]))]);
    assert!(!has_arity(&nested));
    assert!(all_have_arity(&vec![lit(1), add_call(vec![lit(2)])]));
    assert!(!all_have_arity(&vec![lit(1), Expr::Call(Call::new(Func::Assign(Assign), vec![]))]));
}

#[test]
fn test_func_dispatches() {
    let mut env = Environment::new();
    assert_eq!(3, Func::Add(Add).call(&vec![lit(1), lit(2)], &mut env).unwrap());
    assert_eq!(2, Func::If(If).call(&vec![lit(0), lit(1), lit(2)], &mut env).unwrap());
    let target = Expr::Reference(Reference::new("z"));
    assert_eq!(5, Func::Assign(Assign).call(&vec![target, lit(5)], &mut env).unwrap());
    assert_eq!(5, env.get("z").unwrap());
    assert_eq!(5, eval_expr(&Expr::Reference(Reference::new("z")), &mut env).unwrap());
    assert_eq!(7, call_func(&Func::Add(Add), &vec![lit(3), lit(4)], &mut env).unwrap());
    assert_eq!("z", lvalue_expr(&Expr::Reference(Reference::new("z"))).unwrap());
}

#[test]
fn test_push_reference_wraps_the_quoted_name() {
    let mut text = String::from("x = ");
    push_reference(&mut text, "\"foo\"");
    assert_eq!("x = Reference { name: \"foo\" }", text);
}

#[test]
fn test_environment_only_grows() {
    let mut env = Environment::new();
    env.set("kept", 1);
    let failing = add_call(vec![
        Expr::Call(Call::new(
            Func::Assign(Assign),
            vec![Expr::Reference(Reference::new("new")), lit(2)],
        )),
        Expr::Reference(Reference::new("missing")),
    ]);
    assert!(failing.eval(&mut env).is_err());
    assert_eq!(1, env.get("kept").unwrap());
    assert_eq!(2, env.get("new").unwrap());
    let passing = Expr::Call(Call::new(
        Func::If(If),
        vec![lit(0), lit(1), Expr::Reference(Reference::new("kept"))],
    ));
    assert_eq!(1, passing.eval(&mut env).unwrap());
    assert_eq!(1, env.get("kept").unwrap());
    assert_eq!(2, env.get("new").unwrap());
}
