use vstd::prelude::*;

use crate::ast::BindingDef;
use crate::ast::BindingUsage;
use crate::ast::Block;
use crate::ast::Expr;
use crate::ast::ExprV;
use crate::ast::FuncCall;
use crate::ast::Op;
use crate::ast::Stmt;
use crate::ast::StmtV;
use crate::ast::lemma_view_block;
use crate::ast::lemma_view_func_call;
use crate::env::Env;
use crate::env::EnvV;
use crate::env::binding_err;
use crate::env::child_of;
use crate::env::func_err;
use crate::env::lookup_binding;
use crate::env::lookup_func;
use crate::val::Val;

verus! {

broadcast use vstd::std_specs::vec::group_vec_axioms;

/// The decimal digit `d` as a character.
pub open spec fn dec_digit(d: int) -> char {
    if d == 0 {
        '0'
    } else if d == 1 {
        '1'
    } else if d == 2 {
        '2'
    } else if d == 3 {
        '3'
    } else if d == 4 {
        '4'
    } else if d == 5 {
        '5'
    } else if d == 6 {
        '6'
    } else if d == 7 {
        '7'
    } else if d == 8 {
        '8'
    } else {
        '9'
    }
}

/// The decimal rendering of `n`, most significant digit first.
pub open spec fn dec_of(n: nat) -> Seq<char>
    decreases n,
{
    if n < 10 {
        seq![dec_digit(n as int)]
    } else {
        dec_of(n / 10).push(dec_digit((n % 10) as int))
    }
}

/// The message reported when a call passes the wrong number of arguments.
pub open spec fn arity_err(expected: nat, got: nat) -> Seq<char> {
    "Expected "@ + dec_of(expected) + " parameters, got "@ + dec_of(got)
}

pub open spec fn type_err() -> Seq<char> {
    "operands must be numbers"@
}

pub open spec fn div_err() -> Seq<char> {
    "division by zero"@
}

pub open spec fn overflow_err() -> Seq<char> {
    "numeric overflow"@
}

pub open spec fn depth_err() -> Seq<char> {
    "evaluation depth limit exceeded"@
}

/// What a binary operation yields on two numbers: checked arithmetic, with
/// division by zero and overflow reported as evaluation errors.
pub open spec fn apply_op(a: i32, b: i32, op: Op) -> Result<Val, Seq<char>> {
    match op {
        Op::Add => match a.checked_add(b) {
            Some(v) => Ok(Val::Number(v)),
            None => Err(overflow_err()),
        },
        Op::Sub => match a.checked_sub(b) {
            Some(v) => Ok(Val::Number(v)),
            None => Err(overflow_err()),
        },
        Op::Mul => match a.checked_mul(b) {
            Some(v) => Ok(Val::Number(v)),
            None => Err(overflow_err()),
        },
        Op::Div => if b == 0 {
            Err(div_err())
        } else {
            match a.checked_div(b) {
                Some(v) => Ok(Val::Number(v)),
                None => Err(overflow_err()),
            }
        },
    }
}

/// What evaluating an expression yields: a value, or an error message.
/// `fuel` bounds the depth of function-body evaluation; every call level
/// spends one unit.
pub open spec fn ev_expr(e: ExprV, env: EnvV, fuel: nat) -> Result<Val, Seq<char>>
    decreases fuel, e,
{
    match e {
        ExprV::Number { n } => if i32::MIN <= n <= i32::MAX {
            Ok(Val::Number(n as i32))
        } else {
            Err(overflow_err())
        },
        ExprV::BindingUsage { name } => match lookup_binding(env, name) {
            Some(v) => Ok(v),
            None => match lookup_func(env, name) {
                Some(fd) => if fd.params.len() != 0 {
                    Err(arity_err(fd.params.len(), 0))
                } else if fuel == 0 {
                    Err(depth_err())
                } else {
                    match ev_stmt(fd.body, child_of(env), (fuel - 1) as nat) {
                        Ok(t) => Ok(t.0),
                        Err(m) => Err(m),
                    }
                },
                None => Err(binding_err(name)),
            },
        },
        ExprV::Operation { lhs, rhs, op } => match ev_expr(*lhs, env, fuel) {
            Err(m) => Err(m),
            Ok(v1) => match ev_expr(*rhs, env, fuel) {
                Err(m) => Err(m),
                Ok(v2) => match (v1, v2) {
                    (Val::Number(a), Val::Number(b)) => apply_op(a, b, op),
                    _ => Err(type_err()),
                },
            },
        },
        ExprV::FuncCall { callee, args } => match lookup_func(env, callee) {
            None => Err(func_err(callee)),
            Some(fd) => if args.len() != fd.params.len() {
                Err(arity_err(fd.params.len(), args.len()))
            } else {
                match ev_args(args, fd.params, child_of(env), fuel) {
                    Err(m) => Err(m),
                    Ok(env2) => if fuel == 0 {
                        Err(depth_err())
                    } else {
                        match ev_stmt(fd.body, env2, (fuel - 1) as nat) {
                            Ok(t) => Ok(t.0),
                            Err(m) => Err(m),
                        }
                    },
                }
            },
        },
        ExprV::Block { stmts } => if stmts.len() == 0 {
            Ok(Val::Unit)
        } else {
            ev_stmts(stmts, child_of(env), fuel)
        },
    }
}

/// Evaluates each argument in the (same) child scope and binds it there
/// under the matching parameter name, left to right.
pub open spec fn ev_args(args: Seq<ExprV>, names: Seq<Seq<char>>, env: EnvV, fuel: nat) -> Result<
    EnvV,
    Seq<char>,
>
    decreases fuel, args,
{
    if args.len() == 0 {
        Ok(env)
    } else {
        match ev_expr(args[0], env, fuel) {
            Err(m) => Err(m),
            Ok(v) => ev_args(
                args.drop_first(),
                names.drop_first(),
                EnvV { bindings: env.bindings.insert(names[0], v), funcs: env.funcs, parent: env.parent },
                fuel,
            ),
        }
    }
}

/// Evaluates statements in order, short-circuiting on the first error;
/// yields the value of the last statement.
pub open spec fn ev_stmts(ss: Seq<StmtV>, env: EnvV, fuel: nat) -> Result<Val, Seq<char>>
    decreases fuel, ss,
{
    if ss.len() == 0 {
        Ok(Val::Unit)
    } else if ss.len() == 1 {
        match ev_stmt(ss[0], env, fuel) {
            Ok(t) => Ok(t.0),
            Err(m) => Err(m),
        }
    } else {
        match ev_stmt(ss[0], env, fuel) {
            Ok(t) => ev_stmts(ss.drop_first(), t.1, fuel),
            Err(m) => Err(m),
        }
    }
}

/// What evaluating a statement yields: a value and the updated scope.
/// A binding definition evaluates its expression in the current scope,
/// stores the result there, and yields the unit value.
pub open spec fn ev_stmt(st: StmtV, env: EnvV, fuel: nat) -> Result<(Val, EnvV), Seq<char>>
    decreases fuel, st,
{
    match st {
        StmtV::BindingDef { name, val } => match ev_expr(val, env, fuel) {
            Err(m) => Err(m),
            Ok(v) => Ok(
                (
                    Val::Unit,
                    EnvV { bindings: env.bindings.insert(name, v), funcs: env.funcs, parent: env.parent },
                ),
            ),
        },
        StmtV::Expr { expr } => match ev_expr(expr, env, fuel) {
            Err(m) => Err(m),
            Ok(v) => Ok((v, env)),
        },
    }
}

/// What evaluating a block yields: the unit value for an empty block, else
/// the value of its statement sequence run in a fresh child scope.
pub open spec fn ev_block(stmts: Seq<StmtV>, env: EnvV, fuel: nat) -> Result<Val, Seq<char>> {
    if stmts.len() == 0 {
        Ok(Val::Unit)
    } else {
        ev_stmts(stmts, child_of(env), fuel)
    }
}

/// The call depth allowed to the executable evaluator.
pub open spec fn default_fuel() -> nat {
    u64::MAX as nat
}


/// Structural size of an expression view, for termination measures.
pub open spec fn size_e(e: ExprV) -> nat
    decreases e,
{
    match e {
        ExprV::Number { n } => 1,
        ExprV::BindingUsage { name } => 1,
        ExprV::Operation { lhs, rhs, op } => 1 + size_e(*lhs) + size_e(*rhs),
        ExprV::FuncCall { callee, args } => 1 + size_args(args),
        ExprV::Block { stmts } => 1 + size_ss(stmts),
    }
}

pub open spec fn size_args(s: Seq<ExprV>) -> nat
    decreases s,
{
    if s.len() == 0 {
        0
    } else {
        size_e(s[0]) + size_args(s.drop_first())
    }
}

pub open spec fn size_st(st: StmtV) -> nat
    decreases st,
{
    match st {
        StmtV::BindingDef { name, val } => 1 + size_e(val),
        StmtV::Expr { expr } => 1 + size_e(expr),
    }
}

pub open spec fn size_ss(s: Seq<StmtV>) -> nat
    decreases s,
{
    if s.len() == 0 {
        0
    } else {
        size_st(s[0]) + size_ss(s.drop_first())
    }
}

proof fn lemma_size_args_elem(s: Seq<ExprV>, i: int)
    requires
        0 <= i < s.len(),
    ensures
        size_e(s[i]) <= size_args(s),
    decreases s.len(),
{
    if i > 0 {
        lemma_size_args_elem(s.drop_first(), i - 1);
        assert(s.drop_first()[i - 1] == s[i]);
    }
}

proof fn lemma_size_ss_elem(s: Seq<StmtV>, i: int)
    requires
        0 <= i < s.len(),
    ensures
        size_st(s[i]) <= size_ss(s),
    decreases s.len(),
{
    if i > 0 {
        lemma_size_ss_elem(s.drop_first(), i - 1);
        assert(s.drop_first()[i - 1] == s[i]);
    }
}

/// The executable result `r` is the one the spec evaluator describes.
pub open spec fn res_matches(r: Result<Val, String>, s: Result<Val, Seq<char>>) -> bool {
    match s {
        Ok(v) => r == Ok::<Val, String>(v),
        Err(m) => r matches Err(e) && e@ == m,
    }
}

fn digit_str(d: usize) -> (r: &'static str)
    requires
        d < 10,
    ensures
        r@ == seq![dec_digit(d as int)],
{
    proof {
        reveal_strlit("0");
        reveal_strlit("1");
        reveal_strlit("2");
        reveal_strlit("3");
        reveal_strlit("4");
        reveal_strlit("5");
        reveal_strlit("6");
        reveal_strlit("7");
        reveal_strlit("8");
        reveal_strlit("9");
    }
    let r = if d == 0 {
        "0"
    } else if d == 1 {
        "1"
    } else if d == 2 {
        "2"
    } else if d == 3 {
        "3"
    } else if d == 4 {
        "4"
    } else if d == 5 {
        "5"
    } else if d == 6 {
        "6"
    } else if d == 7 {
        "7"
    } else if d == 8 {
        "8"
    } else {
        "9"
    };
    proof {
        assert(r@ =~= seq![dec_digit(d as int)]);
    }
    r
}

/// Renders a count in decimal, for the arity-mismatch message.
fn render_usize(n: usize) -> (r: String)
    ensures
        r@ == dec_of(n as nat),
    decreases n,
{
    if n < 10 {
        digit_str(n).to_owned()
    } else {
        let mut s = render_usize(n / 10);
        s.append(digit_str(n % 10));
        proof {
            assert(s@ =~= dec_of((n / 10) as nat).push(dec_digit((n % 10) as int)));
        }
        s
    }
}

fn arity_err_msg(expected: usize, got: usize) -> (m: String)
    ensures
        m@ == arity_err(expected as nat, got as nat),
{
    let mut m = "Expected ".to_owned();
    let e_str = render_usize(expected);
    m.append(e_str.as_str());
    m.append(" parameters, got ");
    let g_str = render_usize(got);
    m.append(g_str.as_str());
    m
}

/// Applies an operator to two numbers with checked arithmetic.
fn apply_op_exec(a: i32, b: i32, op: Op) -> (r: Result<Val, String>)
    ensures
        res_matches(r, apply_op(a, b, op)),
{
    let checked = match op {
        Op::Add => a.checked_add(b),
        Op::Sub => a.checked_sub(b),
        Op::Mul => a.checked_mul(b),
        Op::Div => {
            if b == 0 {
                return Err("division by zero".to_owned());
            }
            a.checked_div(b)
        },
    };
    match checked {
        Some(v) => Ok(Val::Number(v)),
        None => Err("numeric overflow".to_owned()),
    }
}

impl Expr {
    fn eval_fuel(&self, env: &Env, fuel: u64) -> (r: Result<Val, String>)
        ensures
            res_matches(r, ev_expr(self@, env@, fuel as nat)),
        decreases fuel, size_e(self@), 1int,
    {
        match self {
            Expr::Number(m) => Ok(Val::Number(m.0)),
            Expr::BindingUsage(bu) => bu.eval_fuel(env, fuel),
            Expr::Operation { lhs, rhs, op } => {
                let v1 = match lhs.eval_fuel(env, fuel) {
                    Ok(v) => v,
                    Err(e) => return Err(e),
                };
                let v2 = match rhs.eval_fuel(env, fuel) {
                    Ok(v) => v,
                    Err(e) => return Err(e),
                };
                match (v1, v2) {
                    (Val::Number(a), Val::Number(b)) => apply_op_exec(a, b, *op),
                    _ => Err("operands must be numbers".to_owned()),
                }
            },
            Expr::FuncCall(fc) => {
                proof {
                    lemma_view_func_call(*fc);
                }
                fc.eval_fuel(env, fuel)
            },
            Expr::Block(b) => {
                proof {
                    lemma_view_block(*b);
                }
                b.eval_fuel(env, fuel)
            },
        }
    }

    /// Evaluates the expression against `env`; the environment itself is
    /// never changed.
    pub fn eval(&self, env: &Env) -> (r: Result<Val, String>)
        ensures
            res_matches(r, ev_expr(self@, env@, default_fuel())),
    {
        self.eval_fuel(env, u64::MAX)
    }
}

impl BindingUsage {
    fn eval_fuel(&self, env: &Env, fuel: u64) -> (r: Result<Val, String>)
        ensures
            res_matches(r, ev_expr(ExprV::BindingUsage { name: self.name@ }, env@, fuel as nat)),
        decreases fuel, size_e(ExprV::BindingUsage { name: self.name@ }), 0int,
    {
        match env.get_binding(&self.name) {
            Ok(v) => Ok(v),
            Err(e) => {
                match env.get_func(&self.name) {
                    Ok((param_names, body)) => {
                        proof {
                            assert(param_names.deep_view().len() == param_names@.len());
                        }
                        if param_names.len() != 0 {
                            Err(arity_err_msg(param_names.len(), 0))
                        } else if fuel == 0 {
                            Err("evaluation depth limit exceeded".to_owned())
                        } else {
                            let mut child = env.create_child();
                            match body.eval_fuel(&mut child, fuel - 1) {
                                Ok(v) => Ok(v),
                                Err(e2) => Err(e2),
                            }
                        }
                    },
                    Err(_) => Err(e),
                }
            },
        }
    }

    /// Looks the name up as a binding; a name that is no binding but names
    /// a function is treated as a call of that function with no arguments.
    pub fn eval(&self, env: &Env) -> (r: Result<Val, String>)
        ensures
            res_matches(r, ev_expr(ExprV::BindingUsage { name: self.name@ }, env@, default_fuel())),
    {
        self.eval_fuel(env, u64::MAX)
    }
}

impl FuncCall {
    fn eval_fuel(&self, env: &Env, fuel: u64) -> (r: Result<Val, String>)
        ensures
            res_matches(r, ev_expr(self@, env@, fuel as nat)),
        decreases fuel, size_e(self@), 0int,
    {
        let (param_names, body) = match env.get_func(&self.callee) {
            Ok(t) => t,
            Err(e) => return Err(e),
        };
        proof {
            assert(param_names.deep_view().len() == param_names@.len());
        }
        let num_expected_params = param_names.len();
        let num_actual_params = self.params.len();
        let ghost args_v = (self@)->FuncCall_args;
        proof {
            assert(args_v.len() == self.params@.len());
        }
        if num_expected_params != num_actual_params {
            return Err(arity_err_msg(num_expected_params, num_actual_params));
        }
        let mut child = env.create_child();
        let ghost names_v = param_names.deep_view();
        let ghost fuel_n = fuel as nat;
        proof {
            assert(args_v.skip(0) =~= args_v);
            assert(names_v.skip(0) =~= names_v);
        }
        let mut i: usize = 0;
        while i < num_actual_params
            invariant
                i <= num_actual_params,
                num_actual_params == self.params.len(),
                num_actual_params == names_v.len(),
                num_actual_params == param_names@.len(),
                names_v == param_names.deep_view(),
                fuel_n == fuel as nat,
                args_v == (self@)->FuncCall_args,
                (lookup_func(env@, self.callee@) matches Some(fd2) && fd2.params == names_v),
                args_v.len() == self.params@.len(),
                ev_args(args_v, names_v, child_of(env@), fuel_n) == ev_args(
                    args_v.skip(i as int),
                    names_v.skip(i as int),
                    child@,
                    fuel_n,
                ),
            decreases num_actual_params - i,
        {
            let ghost prev_child = child@;
            proof {
                lemma_size_args_elem(args_v, i as int);
                assert(args_v.skip(i as int)[0] == args_v[i as int]);
                assert(args_v[i as int] == self.params@[i as int]@);
                assert(names_v.skip(i as int)[0] == names_v[i as int]);
                assert(names_v[i as int] == param_names@[i as int]@);
            }
            let param_val = match self.params[i].eval_fuel(&child, fuel) {
                Ok(v) => v,
                Err(e) => {
                    return Err(e);
                },
            };
            child.store_binding(param_names[i].clone(), param_val);
            proof {
                let sk = args_v.skip(i as int);
                let nk = names_v.skip(i as int);
                assert(sk.drop_first() =~= args_v.skip(i + 1));
                assert(nk.drop_first() =~= names_v.skip(i + 1));
                assert(ev_expr(sk[0], prev_child, fuel_n) == Ok::<Val, Seq<char>>(param_val));
                let env2 = EnvV {
                    bindings: prev_child.bindings.insert(nk[0], param_val),
                    funcs: prev_child.funcs,
                    parent: prev_child.parent,
                };
                assert(child@ == env2);
                assert(ev_args(sk, nk, prev_child, fuel_n) == ev_args(
                    sk.drop_first(),
                    nk.drop_first(),
                    env2,
                    fuel_n,
                ));
            }
            i += 1;
        }
        proof {
            assert(args_v.skip(i as int) =~= Seq::<ExprV>::empty());
        }
        if fuel == 0 {
            return Err("evaluation depth limit exceeded".to_owned());
        }
        match body.eval_fuel(&mut child, fuel - 1) {
            Ok(v) => Ok(v),
            Err(e) => Err(e),
        }
    }

    /// Calls the named function: looks it up, checks the argument count
    /// against its parameter list, binds the arguments in a fresh child
    /// scope (each argument evaluated in that same scope), and evaluates
    /// the body there.
    pub fn eval(&self, env: &Env) -> (r: Result<Val, String>)
        ensures
            res_matches(r, ev_expr(self@, env@, default_fuel())),
    {
        self.eval_fuel(env, u64::MAX)
    }
}

impl Block {
    fn eval_fuel(&self, env: &Env, fuel: u64) -> (r: Result<Val, String>)
        ensures
            res_matches(r, ev_block(self@, env@, fuel as nat)),
        decreases fuel, size_e(ExprV::Block { stmts: self@ }), 0int,
    {
        let n = self.stmts.len();
        if n == 0 {
            return Ok(Val::Unit);
        }
        let mut child = env.create_child();
        let ghost stmts_v = self@;
        let ghost fuel_n = fuel as nat;
        proof {
            assert(stmts_v.len() == self.stmts@.len());
            assert(stmts_v.skip(0) =~= stmts_v);
        }
        let mut i: usize = 0;
        while i < n - 1
            invariant
                n == self.stmts.len(),
                1 <= n,
                i < n,
                stmts_v == self@,
                stmts_v.len() == n,
                fuel_n == fuel as nat,
                ev_stmts(stmts_v, child_of(env@), fuel_n) == ev_stmts(
                    stmts_v.skip(i as int),
                    child@,
                    fuel_n,
                ),
            decreases n - 1 - i,
        {
            proof {
                lemma_size_ss_elem(stmts_v, i as int);
                assert(stmts_v.skip(i as int)[0] == stmts_v[i as int]);
                assert(stmts_v[i as int] == self.stmts@[i as int]@);
            }
            let ghost prev_child = child@;
            match self.stmts[i].eval_fuel(&mut child, fuel) {
                Ok(_) => {},
                Err(e) => {
                    return Err(e);
                },
            }
            proof {
                let sk = stmts_v.skip(i as int);
                assert(sk.drop_first() =~= stmts_v.skip(i + 1));
                assert(ev_stmt(sk[0], prev_child, fuel_n) matches Ok(t) && t.1 == child@);
                assert(sk.len() >= 2);
                assert(ev_stmts(sk, prev_child, fuel_n) == ev_stmts(
                    sk.drop_first(),
                    child@,
                    fuel_n,
                ));
            }
            i += 1;
        }
        proof {
            lemma_size_ss_elem(stmts_v, i as int);
            assert(stmts_v.skip(i as int)[0] == stmts_v[i as int]);
            assert(stmts_v[i as int] == self.stmts@[i as int]@);
            assert(stmts_v.skip(i as int).len() == 1);
        }
        self.stmts[n - 1].eval_fuel(&mut child, fuel)
    }

    /// Evaluates the block: an empty block yields the unit value; any
    /// other runs its statements in a fresh child scope and yields the
    /// last statement's value.  Bindings made inside stay inside.
    pub fn eval(&self, env: &Env) -> (r: Result<Val, String>)
        ensures
            res_matches(r, ev_block(self@, env@, default_fuel())),
    {
        self.eval_fuel(env, u64::MAX)
    }
}

impl BindingDef {
    fn eval_fuel(&self, env: &mut Env, fuel: u64) -> (r: Result<Val, String>)
        ensures
            ev_stmt(self@, old(env)@, fuel as nat) matches Ok(t) ==> (r == Ok::<Val, String>(t.0)
                && final(env)@ == t.1),
            ev_stmt(self@, old(env)@, fuel as nat) matches Err(m) ==> (r matches Err(e) && e@ == m
                && final(env)@ == old(env)@),
        decreases fuel, size_st(self@), 0int,
    {
        let v = match self.val.eval_fuel(env, fuel) {
            Ok(v) => v,
            Err(e) => return Err(e),
        };
        env.store_binding(self.name.clone(), v);
        Ok(Val::Unit)
    }

    /// Evaluates the expression in the current scope, then stores the
    /// result there under the bound name; yields the unit value.
    pub fn eval(&self, env: &mut Env) -> (r: Result<Val, String>)
        ensures
            ev_stmt(self@, old(env)@, default_fuel()) matches Ok(t) ==> (r == Ok::<Val, String>(
                t.0,
            ) && final(env)@ == t.1),
            ev_stmt(self@, old(env)@, default_fuel()) matches Err(m) ==> (r matches Err(e) && e@
                == m && final(env)@ == old(env)@),
    {
        self.eval_fuel(env, u64::MAX)
    }
}

impl Stmt {
    fn eval_fuel(&self, env: &mut Env, fuel: u64) -> (r: Result<Val, String>)
        ensures
            ev_stmt(self@, old(env)@, fuel as nat) matches Ok(t) ==> (r == Ok::<Val, String>(t.0)
                && final(env)@ == t.1),
            ev_stmt(self@, old(env)@, fuel as nat) matches Err(m) ==> (r matches Err(e) && e@ == m
                && final(env)@ == old(env)@),
        decreases fuel, size_st(self@), 1int,
    {
        match self {
            Stmt::BindingDef(bd) => bd.eval_fuel(env, fuel),
            Stmt::Expr(e) => e.eval_fuel(env, fuel),
        }
    }

    /// Evaluates the statement against `env`: a binding definition stores
    /// its result there; a bare expression leaves it unchanged.
    pub fn eval(&self, env: &mut Env) -> (r: Result<Val, String>)
        ensures
            ev_stmt(self@, old(env)@, default_fuel()) matches Ok(t) ==> (r == Ok::<Val, String>(
                t.0,
            ) && final(env)@ == t.1),
            ev_stmt(self@, old(env)@, default_fuel()) matches Err(m) ==> (r matches Err(e) && e@
                == m && final(env)@ == old(env)@),
    {
        self.eval_fuel(env, u64::MAX)
    }
}

} // verus!
