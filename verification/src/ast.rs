use vstd::prelude::*;

verus! {

broadcast use vstd::std_specs::vec::group_vec_axioms;

/// A binary arithmetic operator, parsed from a single-character token.
#[derive(Debug, PartialEq, Eq, Structural, Clone, Copy)]
pub enum Op {
    Add,
    Sub,
    Mul,
    Div,
}

/// An integer literal.
#[derive(Debug, PartialEq, Eq, Structural, Clone, Copy)]
pub struct Number(pub i32);

/// An expression of the language.
#[derive(Debug, PartialEq)]
pub enum Expr {
    Number(Number),
    BindingUsage(BindingUsage),
    Operation { lhs: Box<Expr>, rhs: Box<Expr>, op: Op },
    FuncCall(FuncCall),
    Block(Block),
}

/// A use of a binding by name.
#[derive(Debug, PartialEq)]
pub struct BindingUsage {
    pub name: String,
}

/// A call of a named function on a list of argument expressions.
#[derive(Debug, PartialEq)]
pub struct FuncCall {
    pub callee: String,
    pub params: Vec<Expr>,
}

/// A brace-delimited sequence of statements.
#[derive(Debug, PartialEq)]
pub struct Block {
    pub stmts: Vec<Stmt>,
}

/// A statement: a binding definition or a bare expression.
#[derive(Debug, PartialEq)]
pub enum Stmt {
    BindingDef(BindingDef),
    Expr(Expr),
}

/// `let name = val`.
#[derive(Debug, PartialEq)]
pub struct BindingDef {
    pub name: String,
    pub val: Expr,
}

/// The mathematical form of an expression: names as character sequences,
/// numbers as unbounded integers.
pub ghost enum ExprV {
    Number { n: int },
    BindingUsage { name: Seq<char> },
    Operation { lhs: Box<ExprV>, rhs: Box<ExprV>, op: Op },
    FuncCall { callee: Seq<char>, args: Seq<ExprV> },
    Block { stmts: Seq<StmtV> },
}

/// The mathematical form of a statement.
pub ghost enum StmtV {
    BindingDef { name: Seq<char>, val: ExprV },
    Expr { expr: ExprV },
}

pub open spec fn view_expr(e: Expr) -> ExprV
    decreases e,
{
    match e {
        Expr::Number(m) => ExprV::Number { n: m.0 as int },
        Expr::BindingUsage(b) => ExprV::BindingUsage { name: b.name@ },
        Expr::Operation { lhs, rhs, op } => ExprV::Operation {
            lhs: Box::new(view_expr(*lhs)),
            rhs: Box::new(view_expr(*rhs)),
            op,
        },
        Expr::FuncCall(fc) => ExprV::FuncCall {
            callee: fc.callee@,
            args: Seq::new(
                fc.params@.len(),
                |i: int|
                    if 0 <= i < fc.params@.len() {
                        view_expr(fc.params@[i])
                    } else {
                        ExprV::Number { n: 0 }
                    },
            ),
        },
        Expr::Block(b) => ExprV::Block {
            stmts: Seq::new(
                b.stmts@.len(),
                |i: int|
                    if 0 <= i < b.stmts@.len() {
                        view_stmt(b.stmts@[i])
                    } else {
                        StmtV::Expr { expr: ExprV::Number { n: 0 } }
                    },
            ),
        },
    }
}

pub open spec fn view_stmt(st: Stmt) -> StmtV
    decreases st,
{
    match st {
        Stmt::BindingDef(bd) => StmtV::BindingDef { name: bd.name@, val: view_expr(bd.val) },
        Stmt::Expr(e) => StmtV::Expr { expr: view_expr(e) },
    }
}

pub proof fn lemma_view_block(b: Block)
    ensures
        view_expr(Expr::Block(b)) == (ExprV::Block { stmts: b@ }),
{
    if let ExprV::Block { stmts } = view_expr(Expr::Block(b)) {
        assert(stmts =~= b@);
    }
}

pub proof fn lemma_view_func_call(fc: FuncCall)
    ensures
        view_expr(Expr::FuncCall(fc)) == fc@,
{
    if let ExprV::FuncCall { callee, args } = view_expr(Expr::FuncCall(fc)) {
        if let ExprV::FuncCall { callee: c2, args: a2 } = fc@ {
            assert(args =~= a2);
        }
    }
}

impl View for Expr {
    type V = ExprV;

    open spec fn view(&self) -> ExprV {
        view_expr(*self)
    }
}

impl DeepView for Expr {
    type V = ExprV;

    open spec fn deep_view(&self) -> ExprV {
        view_expr(*self)
    }
}

impl View for Stmt {
    type V = StmtV;

    open spec fn view(&self) -> StmtV {
        view_stmt(*self)
    }
}

impl DeepView for Stmt {
    type V = StmtV;

    open spec fn deep_view(&self) -> StmtV {
        view_stmt(*self)
    }
}

impl View for Number {
    type V = int;

    open spec fn view(&self) -> int {
        self.0 as int
    }
}

impl View for BindingUsage {
    type V = Seq<char>;

    open spec fn view(&self) -> Seq<char> {
        self.name@
    }
}

impl View for FuncCall {
    type V = ExprV;

    open spec fn view(&self) -> ExprV {
        ExprV::FuncCall {
            callee: self.callee@,
            args: Seq::new(
                self.params@.len(),
                |i: int|
                    if 0 <= i < self.params@.len() {
                        view_expr(self.params@[i])
                    } else {
                        ExprV::Number { n: 0 }
                    },
            ),
        }
    }
}

impl View for Block {
    type V = Seq<StmtV>;

    open spec fn view(&self) -> Seq<StmtV> {
        Seq::new(
            self.stmts@.len(),
            |i: int|
                if 0 <= i < self.stmts@.len() {
                    view_stmt(self.stmts@[i])
                } else {
                    StmtV::Expr { expr: ExprV::Number { n: 0 } }
                },
        )
    }
}

impl View for BindingDef {
    type V = StmtV;

    open spec fn view(&self) -> StmtV {
        view_stmt(Stmt::BindingDef(*self))
    }
}

} // verus!
