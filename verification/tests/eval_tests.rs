use eldiro::ast::BindingDef;
use eldiro::ast::BindingUsage;
use eldiro::ast::Block;
use eldiro::ast::Expr;
use eldiro::ast::FuncCall;
use eldiro::ast::Number;
use eldiro::ast::Op;
use eldiro::ast::Stmt;
use eldiro::env::Env;
use eldiro::val::Val;

#[test]
fn eval_existing_binding_usage() {
    let mut env = Env::default();
    env.store_binding("foo".to_string(), Val::Number(10));

    assert_eq!(
        BindingUsage { name: "foo".to_string() }.eval(&env),
        Ok(Val::Number(10)),
    );
}

#[test]
fn eval_non_existent_binding_usage() {
    let empty_env = Env::default();

    assert_eq!(
        BindingUsage { name: "i_dont_exist".to_string() }.eval(&empty_env),
        Err("Binding with name `i_dont_exist` does not exist".to_string()),
    );
}

#[test]
fn eval_func_call() {
    let mut env = Env::default();
    env.store_func(
        "id".to_string(),
        vec!["x".to_string()],
        Stmt::Expr(Expr::BindingUsage(BindingUsage { name: "x".to_string() })),
    );

    assert_eq!(
        FuncCall { callee: "id".to_string(), params: vec![Expr::Number(Number(3))] }.eval(&env),
        Ok(Val::Number(3)),
    );
}

#[test]
fn eval_non_existing_func_call() {
    let env = Env::default();

    assert_eq!(
        FuncCall { callee: "i_dont_exist".to_string(), params: vec![Expr::Number(Number(1))] }
            .eval(&env),
        Err("Function with name `i_dont_exist` does not exist".to_string()),
    );
}

#[test]
fn eval_func_call_with_too_few_params() {
    let mut env = Env::default();
    env.store_func(
        "mul".to_string(),
        vec!["a".to_string(), "b".to_string()],
        Stmt::Expr(Expr::Operation {
            lhs: Box::new(Expr::BindingUsage(BindingUsage { name: "a".to_string() })),
            rhs: Box::new(Expr::BindingUsage(BindingUsage { name: "b".to_string() })),
            op: Op::Mul,
        }),
    );

    assert_eq!(
        FuncCall { callee: "mul".to_string(), params: vec![Expr::Number(Number(2))] }.eval(&env),
        Err("Expected 2 parameters, got 1".to_string()),
    );
}

#[test]
fn eval_func_call_with_too_many_params() {
    let mut env = Env::default();
    env.store_func(
        "square".to_string(),
        vec!["n".to_string()],
        Stmt::Expr(Expr::Operation {
            lhs: Box::new(Expr::BindingUsage(BindingUsage { name: "n".to_string() })),
            rhs: Box::new(Expr::BindingUsage(BindingUsage { name: "n".to_string() })),
            op: Op::Mul,
        }),
    );
    assert_eq!(
        FuncCall {
            callee: "square".to_string(),
            params: vec![Expr::Number(Number(4)), Expr::Number(Number(4))],
        }
            .eval(&env),
        Err("Expected 1 parameters, got 2".to_string()),
    );
}

#[test]
fn eval_empty_block() {
    assert_eq!(Block { stmts: Vec::new() }.eval(&Env::default()), Ok(Val::Unit));
}

#[test]
fn eval_block_with_one_expr() {
    assert_eq!(
        Block { stmts: vec![Stmt::Expr(Expr::Number(Number(25)))] }.eval(&Env::default()),
        Ok(Val::Number(25)),
    );
}

#[test]
fn eval_block_with_binding_def_and_usage() {
    assert_eq!(
        Block {
            stmts: vec![
                Stmt::BindingDef(BindingDef {
                    name: "one".to_string(),
                    val: Expr::Number(Number(1)),
                }),
                Stmt::Expr(Expr::BindingUsage(BindingUsage { name: "one".to_string() })),
            ],
        }
            .eval(&Env::default()),
        Ok(Val::Number(1)),
    );
}

#[test]
fn eval_block_with_multiple_binding_defs() {
    assert_eq!(
        Block {
            stmts: vec![
                Stmt::BindingDef(BindingDef {
                    name: "foo".to_string(),
                    val: Expr::Number(Number(1)),
                }),
                Stmt::BindingDef(BindingDef {
                    name: "bar".to_string(),
                    val: Expr::Number(Number(2)),
                }),
                Stmt::BindingDef(BindingDef {
                    name: "baz".to_string(),
                    val: Expr::Number(Number(3)),
                }),
            ],
        }
            .eval(&Env::default()),
        Ok(Val::Unit),
    );
}

#[test]
fn eval_block_with_multiple_exprs() {
    assert_eq!(
        Block {
            stmts: vec![
                Stmt::Expr(Expr::Number(Number(1))),
                Stmt::Expr(Expr::Number(Number(2))),
                Stmt::Expr(Expr::Operation {
                    lhs: Box::new(Expr::Number(Number(10))),
                    rhs: Box::new(Expr::Number(Number(7))),
                    op: Op::Sub,
                }),
            ],
        }
            .eval(&Env::default()),
        Ok(Val::Number(3)),
    );
}

#[test]
fn eval_block_using_bindings_from_parent_env() {
    let mut env = Env::default();
    env.store_binding("foo".to_string(), Val::Number(10));

    assert_eq!(
        Block {
            stmts: vec![
                Stmt::BindingDef(BindingDef {
                    name: "baz".to_string(),
                    val: Expr::BindingUsage(BindingUsage { name: "foo".to_string() }),
                }),
                Stmt::Expr(Expr::BindingUsage(BindingUsage { name: "baz".to_string() })),
            ],
        }
            .eval(&env),
        Ok(Val::Number(10)),
    );
}

#[test]
fn inner_binding_shadows_outer_and_outer_survives() {
    let mut env = Env::default();
    env.store_binding("x".to_string(), Val::Number(1));

    let (rest, block) = Block::new("{ let x = 2 x }").unwrap();
    assert_eq!(rest, "");
    assert_eq!(block.eval(&env), Ok(Val::Number(2)));
    assert_eq!(env.get_binding(&"x".to_string()), Ok(Val::Number(1)));
}

#[test]
fn block_yields_value_bound_at_final_statement() {
    let env = Env::default();
    let (rest, block) = Block::new("{ let a = 1 let b = 2 a }").unwrap();
    assert_eq!(rest, "");
    assert_eq!(block.eval(&env), Ok(Val::Number(1)));
    assert_eq!(
        env.get_binding(&"a".to_string()),
        Err("Binding with name `a` does not exist".to_string()),
    );
    assert_eq!(
        env.get_binding(&"b".to_string()),
        Err("Binding with name `b` does not exist".to_string()),
    );
}

#[test]
fn call_square_four_evaluates_to_sixteen() {
    let mut env = Env::default();
    env.store_func(
        "square".to_string(),
        vec!["n".to_string()],
        Stmt::Expr(Expr::Operation {
            lhs: Box::new(Expr::BindingUsage(BindingUsage { name: "n".to_string() })),
            rhs: Box::new(Expr::BindingUsage(BindingUsage { name: "n".to_string() })),
            op: Op::Mul,
        }),
    );

    let (rest, call) = Expr::new("square 4").unwrap();
    assert_eq!(rest, "");
    assert_eq!(call.eval(&env), Ok(Val::Number(16)));
}

#[test]
fn call_of_undefined_function_names_it() {
    let (rest, call) = Expr::new("foo 1").unwrap();
    assert_eq!(rest, "");
    assert_eq!(
        call.eval(&Env::default()),
        Err("Function with name `foo` does not exist".to_string()),
    );
}

#[test]
fn bare_identifier_falls_back_to_niladic_function() {
    let mut env = Env::default();
    env.store_func("seven".to_string(), Vec::new(), Stmt::Expr(Expr::Number(Number(7))));

    assert_eq!(
        BindingUsage { name: "seven".to_string() }.eval(&env),
        Ok(Val::Number(7)),
    );
}

#[test]
fn bare_identifier_naming_unary_function_reports_arity() {
    let mut env = Env::default();
    env.store_func(
        "id".to_string(),
        vec!["x".to_string()],
        Stmt::Expr(Expr::BindingUsage(BindingUsage { name: "x".to_string() })),
    );

    assert_eq!(
        BindingUsage { name: "id".to_string() }.eval(&env),
        Err("Expected 1 parameters, got 0".to_string()),
    );
}

#[test]
fn division_by_zero_is_an_error() {
    assert_eq!(
        Expr::Operation {
            lhs: Box::new(Expr::Number(Number(1))),
            rhs: Box::new(Expr::Number(Number(0))),
            op: Op::Div,
        }
            .eval(&Env::default()),
        Err("division by zero".to_string()),
    );
}

#[test]
fn addition_overflow_is_an_error() {
    assert_eq!(
        Expr::Operation {
            lhs: Box::new(Expr::Number(Number(2147483647))),
            rhs: Box::new(Expr::Number(Number(1))),
            op: Op::Add,
        }
            .eval(&Env::default()),
        Err("numeric overflow".to_string()),
    );
}

#[test]
fn operating_on_unit_is_a_type_error() {
    assert_eq!(
        Expr::Operation {
            lhs: Box::new(Expr::Block(Block { stmts: Vec::new() })),
            rhs: Box::new(Expr::Number(Number(1))),
            op: Op::Add,
        }
            .eval(&Env::default()),
        Err("operands must be numbers".to_string()),
    );
}

#[test]
fn later_argument_may_use_earlier_parameter() {
    let mut env = Env::default();
    env.store_func(
        "second".to_string(),
        vec!["a".to_string(), "b".to_string()],
        Stmt::Expr(Expr::BindingUsage(BindingUsage { name: "b".to_string() })),
    );

    assert_eq!(
        FuncCall {
            callee: "second".to_string(),
            params: vec![
                Expr::Number(Number(5)),
                Expr::BindingUsage(BindingUsage { name: "a".to_string() }),
            ],
        }
            .eval(&env),
        Ok(Val::Number(5)),
    );
}

#[test]
fn integer_division_truncates() {
    assert_eq!(
        Expr::Operation {
            lhs: Box::new(Expr::Number(Number(7))),
            rhs: Box::new(Expr::Number(Number(2))),
            op: Op::Div,
        }
            .eval(&Env::default()),
        Ok(Val::Number(3)),
    );
}
