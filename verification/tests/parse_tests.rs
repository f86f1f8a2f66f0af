use eldiro::ast::BindingDef;
use eldiro::ast::BindingUsage;
use eldiro::ast::Block;
use eldiro::ast::Expr;
use eldiro::ast::FuncCall;
use eldiro::ast::Number;
use eldiro::ast::Op;
use eldiro::ast::Stmt;
use eldiro::env::Env;
use eldiro::parse::parse;
use eldiro::val::Val;

#[test]
fn parse_binding_usage() {
    assert_eq!(
        BindingUsage::new("abc"),
        Ok(("", BindingUsage { name: "abc".to_string() })),
    );
}

#[test]
fn parse_func_call_with_one_params() {
    assert_eq!(
        FuncCall::new("fac 10"),
        Ok((
            "",
            FuncCall { callee: "fac".to_string(), params: vec![Expr::Number(Number(10))] },
        )),
    );
}

#[test]
fn parse_empty_block() {
    assert_eq!(Block::new("{}"), Ok(("", Block { stmts: Vec::new() })));
}

#[test]
fn parse_empty_block_with_whitespace() {
    assert_eq!(Block::new("{ }"), Ok(("", Block { stmts: Vec::new() })));
}

#[test]
fn parse_block_with_one_stmt() {
    assert_eq!(
        Block::new("{ 5 }"),
        Ok(("", Block { stmts: vec![Stmt::Expr(Expr::Number(Number(5)))] })),
    );
}

#[test]
fn parse_block_with_multiple_stmts() {
    assert_eq!(
        Block::new(
            "{
                let a = 20
                let b = a
                b
            }",
        ),
        Ok((
            "",
            Block {
                stmts: vec![
                    Stmt::BindingDef(BindingDef {
                        name: "a".to_string(),
                        val: Expr::Number(Number(20)),
                    }),
                    Stmt::BindingDef(BindingDef {
                        name: "b".to_string(),
                        val: Expr::BindingUsage(BindingUsage { name: "a".to_string() }),
                    }),
                    Stmt::Expr(Expr::BindingUsage(BindingUsage { name: "b".to_string() })),
                ],
            },
        )),
    );
}

#[test]
fn parse_number_is_prefix_only() {
    assert_eq!(Number::new("5 extra"), Ok((" extra", Number(5))));
}

#[test]
fn parse_number_then_render_yields_consumed_prefix() {
    let (rest, n) = Number::new("507 rest").unwrap();
    assert_eq!(rest, " rest");
    assert_eq!(n, Number(507));
    assert_eq!(n.0.to_string(), "507");
}

#[test]
fn parse_number_too_large_is_an_error() {
    assert_eq!(Number::new("99999999999"), Err("number too large".to_string()));
}

#[test]
fn parse_operation() {
    assert_eq!(
        Expr::new("1+2"),
        Ok((
            "",
            Expr::Operation {
                lhs: Box::new(Expr::Number(Number(1))),
                rhs: Box::new(Expr::Number(Number(2))),
                op: Op::Add,
            },
        )),
    );
}

#[test]
fn parse_binding_def() {
    assert_eq!(
        BindingDef::new("let a = 10 / 2"),
        Ok((
            "",
            BindingDef {
                name: "a".to_string(),
                val: Expr::Operation {
                    lhs: Box::new(Expr::Number(Number(10))),
                    rhs: Box::new(Expr::Number(Number(2))),
                    op: Op::Div,
                },
            },
        )),
    );
}

#[test]
fn parse_and_eval_whole_program() {
    let (remainder, root) = parse("let x = 5\nlet y = 3\nx + y");
    assert_eq!(remainder, "");
    assert_eq!(
        root,
        Block {
            stmts: vec![
                Stmt::BindingDef(BindingDef {
                    name: "x".to_string(),
                    val: Expr::Number(Number(5)),
                }),
                Stmt::BindingDef(BindingDef {
                    name: "y".to_string(),
                    val: Expr::Number(Number(3)),
                }),
                Stmt::Expr(Expr::Operation {
                    lhs: Box::new(Expr::BindingUsage(BindingUsage { name: "x".to_string() })),
                    rhs: Box::new(Expr::BindingUsage(BindingUsage { name: "y".to_string() })),
                    op: Op::Add,
                }),
            ],
        },
    );
    assert_eq!(root.eval(&Env::default()), Ok(Val::Number(8)));
}
