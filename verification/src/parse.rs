use vstd::prelude::*;

use crate::ast::BindingDef;
use crate::ast::BindingUsage;
use crate::ast::Block;
use crate::ast::Expr;
use crate::ast::ExprV;
use crate::ast::FuncCall;
use crate::ast::Number;
use crate::ast::Op;
use crate::ast::Stmt;
use crate::ast::StmtV;
use crate::ast::view_expr;
use crate::ast::lemma_view_block;
use crate::ast::lemma_view_func_call;
use crate::utils::extract_op;
use crate::utils::extract_spaces;
use crate::utils::extract_whitespace;
use crate::utils::extract_whitespace_req;
use crate::utils::tag;
use crate::utils::models_step;
use crate::utils::seq_parse;
use crate::utils::sequence;
use crate::utils::alphanumeric_p;
use crate::utils::digit_p;
use crate::utils::extract_digits;
use crate::utils::extract_ident;
use crate::utils::is_alphabetic;
use crate::utils::is_digit;
use crate::utils::is_op_char;
use crate::utils::is_prefix_of;
use crate::utils::lemma_take_len_bounds;
use crate::utils::lemma_take_len_is_split;
use crate::utils::space_p;
use crate::utils::take_len;
use crate::utils::whitespace_p;

verus! {

/// The integer denoted by a sequence of decimal digits.
pub open spec fn num_of(s: Seq<char>) -> int
    decreases s.len(),
{
    if s.len() == 0 {
        0
    } else {
        num_of(s.drop_last()) * 10 + digit_val(s.last())
    }
}

pub open spec fn digit_val(c: char) -> int {
    c as int - '0' as int
}

/// The remainder of `s` after its longest whitespace prefix.
pub open spec fn sp_ws(s: Seq<char>) -> Seq<char> {
    s.skip(take_len(whitespace_p(), s))
}

/// The remainder of `s` after its longest prefix of spaces.
pub open spec fn sp_spaces(s: Seq<char>) -> Seq<char> {
    s.skip(take_len(space_p(), s))
}

/// Parses a number literal: the longest (non-empty) digit prefix, which
/// must denote a value that fits the value type.
pub open spec fn sp_number(s: Seq<char>) -> Result<(Seq<char>, ExprV), Seq<char>> {
    let n = take_len(digit_p(), s);
    if n == 0 {
        Err("Expected digits"@)
    } else if num_of(s.take(n)) > i32::MAX as int {
        Err("number too large"@)
    } else {
        Ok((s.skip(n), ExprV::Number { n: num_of(s.take(n)) }))
    }
}

/// Parses an identifier: a leading alphabetic character followed by the
/// longest alphanumeric prefix.
pub open spec fn sp_ident(s: Seq<char>) -> Result<(Seq<char>, Seq<char>), Seq<char>> {
    if s.len() > 0 && is_alphabetic(s[0]) {
        Ok((s.skip(take_len(alphanumeric_p(), s)), s.take(take_len(alphanumeric_p(), s))))
    } else {
        Err("Expected identifier"@)
    }
}

pub open spec fn sp_binding_usage(s: Seq<char>) -> Result<(Seq<char>, ExprV), Seq<char>> {
    match sp_ident(s) {
        Ok((s1, name)) => Ok((s1, ExprV::BindingUsage { name })),
        Err(e) => Err(e),
    }
}

/// Strips the literal `t` off the front of `s`.
pub open spec fn sp_tag(t: Seq<char>, s: Seq<char>) -> Result<Seq<char>, Seq<char>> {
    if is_prefix_of(t, s) {
        Ok(s.skip(t.len() as int))
    } else {
        Err("Expected "@ + t)
    }
}

pub open spec fn op_of(c: char) -> Op {
    if c == '+' {
        Op::Add
    } else if c == '-' {
        Op::Sub
    } else if c == '*' {
        Op::Mul
    } else {
        Op::Div
    }
}

/// Parses a single operator character.
pub open spec fn sp_op(s: Seq<char>) -> Result<(Seq<char>, Op), Seq<char>> {
    if s.len() > 0 && is_op_char(s[0]) {
        Ok((s.skip(1), op_of(s[0])))
    } else {
        Err("Unknown operator"@)
    }
}

/// A function call: an identifier, spaces, then a non-empty sequence of
/// argument expressions separated by spaces.
pub open spec fn sp_func_call(s: Seq<char>) -> Result<(Seq<char>, ExprV), Seq<char>>
    decreases s.len(), 1int,
{
    match sp_ident(s) {
        Err(e) => Err(e),
        Ok((s1, name)) => {
            let s2 = sp_spaces(s1);
            if s2.len() < s.len() {
                let (rem, args) = sp_expr_list(s2);
                if args.len() == 0 {
                    Err("Expected a sequence with atleast one item"@)
                } else {
                    Ok((rem, ExprV::FuncCall { callee: name, args }))
                }
            } else {
                Err("Expected a sequence with atleast one item"@)
            }
        },
    }
}

/// A block: `{`, optional whitespace, statements until the first failure,
/// optional whitespace, `}`.
pub open spec fn sp_block(s: Seq<char>) -> Result<(Seq<char>, ExprV), Seq<char>>
    decreases s.len(), 1int,
{
    match sp_tag(seq!['{'], s) {
        Err(e) => Err(e),
        Ok(s1) => {
            let s2 = sp_ws(s1);
            if s2.len() < s.len() {
                let (s3, stmts) = sp_stmt_list(s2);
                let s4 = sp_ws(s3);
                match sp_tag(seq!['}'], s4) {
                    Err(e) => Err(e),
                    Ok(s5) => Ok((s5, ExprV::Block { stmts })),
                }
            } else {
                Err("Expected "@ + seq!['}'])
            }
        },
    }
}

/// An operand of a binary operation: any expression form but an operation.
pub open spec fn sp_operand(s: Seq<char>) -> Result<(Seq<char>, ExprV), Seq<char>>
    decreases s.len(), 2int,
{
    match sp_block(s) {
        Ok(r) => Ok(r),
        Err(_) => match sp_func_call(s) {
            Ok(r) => Ok(r),
            Err(_) => match sp_binding_usage(s) {
                Ok(r) => Ok(r),
                Err(_) => sp_number(s),
            },
        },
    }
}

/// A binary operation: exactly `operand op operand`, whitespace allowed
/// around the operator.
pub open spec fn sp_operation(s: Seq<char>) -> Result<(Seq<char>, ExprV), Seq<char>>
    decreases s.len(), 3int,
{
    match sp_operand(s) {
        Err(e) => Err(e),
        Ok((s1, lhs)) => {
            let s2 = sp_ws(s1);
            match sp_op(s2) {
                Err(e) => Err(e),
                Ok((s3, op)) => {
                    let s4 = sp_ws(s3);
                    if s4.len() < s.len() {
                        match sp_operand(s4) {
                            Err(e) => Err(e),
                            Ok((s5, rhs)) => Ok(
                                (
                                    s5,
                                    ExprV::Operation {
                                        lhs: Box::new(lhs),
                                        rhs: Box::new(rhs),
                                        op,
                                    },
                                ),
                            ),
                        }
                    } else {
                        Err("Unknown operator"@)
                    }
                },
            }
        },
    }
}

/// An expression, by ordered choice: block, else function call, else
/// operation, else binding usage, else number literal.
pub open spec fn sp_expr(s: Seq<char>) -> Result<(Seq<char>, ExprV), Seq<char>>
    decreases s.len(), 4int,
{
    match sp_block(s) {
        Ok(r) => Ok(r),
        Err(_) => match sp_func_call(s) {
            Ok(r) => Ok(r),
            Err(_) => match sp_operation(s) {
                Ok(r) => Ok(r),
                Err(_) => match sp_binding_usage(s) {
                    Ok(r) => Ok(r),
                    Err(_) => sp_number(s),
                },
            },
        },
    }
}

/// Expressions separated by spaces, until the first failure.
pub open spec fn sp_expr_list(s: Seq<char>) -> (Seq<char>, Seq<ExprV>)
    decreases s.len(), 5int,
{
    match sp_expr(s) {
        Err(_) => (s, Seq::empty()),
        Ok((s1, item)) => {
            if s1.len() < s.len() && sp_spaces(s1).len() <= s1.len() {
                let rec = sp_expr_list(sp_spaces(s1));
                (rec.0, seq![item] + rec.1)
            } else {
                (s1, seq![item])
            }
        },
    }
}

/// A binding definition: `let`, whitespace, a name, `=`, an expression.
pub open spec fn sp_binding_def(s: Seq<char>) -> Result<(Seq<char>, StmtV), Seq<char>>
    decreases s.len(), 2int,
{
    match sp_tag(seq!['l', 'e', 't'], s) {
        Err(e) => Err(e),
        Ok(s1) => {
            if take_len(whitespace_p(), s1) == 0 {
                Err("Expected whitespace"@)
            } else {
                let s2 = sp_ws(s1);
                match sp_ident(s2) {
                    Err(e) => Err(e),
                    Ok((s3, name)) => {
                        let s4 = sp_ws(s3);
                        match sp_tag(seq!['='], s4) {
                            Err(e) => Err(e),
                            Ok(s5) => {
                                let s6 = sp_ws(s5);
                                if s6.len() < s.len() {
                                    match sp_expr(s6) {
                                        Err(e) => Err(e),
                                        Ok((s7, val)) => Ok((s7, StmtV::BindingDef { name, val })),
                                    }
                                } else {
                                    Err("Expected identifier"@)
                                }
                            },
                        }
                    },
                }
            }
        },
    }
}

/// A statement: a binding definition, else an expression.
pub open spec fn sp_stmt(s: Seq<char>) -> Result<(Seq<char>, StmtV), Seq<char>>
    decreases s.len(), 5int,
{
    match sp_binding_def(s) {
        Ok(r) => Ok(r),
        Err(_) => match sp_expr(s) {
            Ok((s1, e)) => Ok((s1, StmtV::Expr { expr: e })),
            Err(e) => Err(e),
        },
    }
}

/// Statements separated by whitespace, until the first failure.
pub open spec fn sp_stmt_list(s: Seq<char>) -> (Seq<char>, Seq<StmtV>)
    decreases s.len(), 6int,
{
    match sp_stmt(s) {
        Err(_) => (s, Seq::empty()),
        Ok((s1, item)) => {
            if s1.len() < s.len() && sp_ws(s1).len() <= s1.len() {
                let rec = sp_stmt_list(sp_ws(s1));
                (rec.0, seq![item] + rec.1)
            } else {
                (s1, seq![item])
            }
        },
    }
}

/// A whole source text: optional leading whitespace, then statements
/// until the first failure.
pub open spec fn sp_program(s: Seq<char>) -> (Seq<char>, Seq<StmtV>) {
    sp_stmt_list(sp_ws(s))
}

fn char_digit_val(c: char) -> (d: i64)
    requires
        is_digit(c),
    ensures
        0 <= d <= 9,
        d as int == digit_val(c),
{
    (c as u32 - 48) as i64
}

/// Converts a non-empty string of decimal digits to a number, signalling
/// an error when the value does not fit.
fn to_number(digits: &str) -> (r: Result<i32, String>)
    requires
        digits@.len() > 0,
        forall|i: int| 0 <= i < digits@.len() ==> is_digit(#[trigger] digits@[i]),
    ensures
        num_of(digits@) <= i32::MAX as int ==> (r matches Ok(v) && v as int == num_of(digits@)),
        num_of(digits@) > i32::MAX as int ==> (r matches Err(e) && e@ == "number too large"@),
{
    let len = digits.unicode_len();
    let mut i: usize = 0;
    let mut acc: i64 = 0;
    let mut over = false;
    while i < len
        invariant
            len == digits@.len(),
            i <= len,
            forall|k: int| 0 <= k < digits@.len() ==> is_digit(#[trigger] digits@[k]),
            !over ==> acc as int == num_of(digits@.take(i as int)) && 0 <= acc <= i32::MAX as i64,
            over ==> num_of(digits@.take(i as int)) > i32::MAX as int,
        decreases len - i,
    {
        let c = digits.get_char(i);
        let d = char_digit_val(c);
        proof {
            assert(digits@.take(i + 1 as int).drop_last() =~= digits@.take(i as int));
            assert(digits@.take(i + 1 as int).last() == digits@[i as int]);
        }
        if !over {
            acc = acc * 10 + d;
            if acc > 2147483647i64 {
                over = true;
            }
        }
        i += 1;
    }
    proof {
        assert(digits@.take(len as int) =~= digits@);
    }
    if over {
        Err("number too large".to_owned())
    } else {
        Ok(acc as i32)
    }
}

impl Number {
    /// Parses a number literal off the front of `s`.
    pub fn new(s: &str) -> (r: Result<(&str, Number), String>)
        ensures
            sp_number(s@) matches Ok(t) ==> (r matches Ok(q) && q.0@ == t.0 && ExprV::Number {
                n: q.1@,
            } == t.1 && q.0@.len() < s@.len()),
            sp_number(s@) matches Err(m) ==> (r matches Err(e) && e@ == m),
    {
        proof {
            lemma_take_len_bounds(digit_p(), s@);
            lemma_take_len_is_split(digit_p(), s@);
        }
        let (rest, digits) = match extract_digits(s) {
            Ok(t) => t,
            Err(e) => return Err(e),
        };
        let n = match to_number(digits) {
            Ok(v) => v,
            Err(e) => return Err(e),
        };
        Ok((rest, Number(n)))
    }
}

impl BindingUsage {
    /// Parses a bare identifier as a binding usage.
    pub fn new(s: &str) -> (r: Result<(&str, BindingUsage), String>)
        ensures
            sp_binding_usage(s@) matches Ok(t) ==> (r matches Ok(q) && q.0@ == t.0
                && ExprV::BindingUsage { name: q.1@ } == t.1 && q.0@.len() < s@.len()),
            sp_binding_usage(s@) matches Err(m) ==> (r matches Err(e) && e@ == m),
    {
        match extract_ident(s) {
            Ok(t) => Ok((t.0, BindingUsage { name: t.1.to_owned() })),
            Err(e) => Err(e),
        }
    }
}

fn char_to_op(c: char) -> (op: Op)
    requires
        is_op_char(c),
    ensures
        op == op_of(c),
{
    if c == '+' {
        Op::Add
    } else if c == '-' {
        Op::Sub
    } else if c == '*' {
        Op::Mul
    } else {
        Op::Div
    }
}

impl FuncCall {
    /// Parses a function call: an identifier, then one or more argument
    /// expressions separated by spaces.
    pub fn new(s: &str) -> (r: Result<(&str, FuncCall), String>)
        ensures
            sp_func_call(s@) matches Ok(t) ==> (r matches Ok(q) && q.0@ == t.0 && q.1@ == t.1
                && q.0@.len() < s@.len()),
            sp_func_call(s@) matches Err(m) ==> (r matches Err(e) && e@ == m),
        decreases s@.len(), 1int,
    {
        let (s1, callee_txt) = match extract_ident(s) {
            Ok(t) => t,
            Err(e) => return Err(e),
        };
        let (s2, _) = extract_spaces(s1);
        proof {
            lemma_take_len_bounds(space_p(), s1@);
            assert(s2@.len() < s@.len());
        }
        let (rem, params) = expr_list(s2);
        if params.len() == 0 {
            return Err("Expected a sequence with atleast one item".to_owned());
        }
        let fc = FuncCall { callee: callee_txt.to_owned(), params };
        proof {
            let a2 = Seq::new(
                fc.params@.len(),
                |i: int|
                    if 0 <= i < fc.params@.len() {
                        view_expr(fc.params@[i])
                    } else {
                        ExprV::Number { n: 0 }
                    },
            );
            assert(a2 =~= fc.params.deep_view());
            assert(fc@ == ExprV::FuncCall { callee: fc.callee@, args: a2 });
        }
        Ok((rem, fc))
    }
}

/// Parses expressions separated by spaces, until the first expression
/// failure; never fails itself.
fn expr_list(s: &str) -> (r: (&str, Vec<Expr>))
    ensures
        r.0@ == sp_expr_list(s@).0,
        r.1.deep_view() == sp_expr_list(s@).1,
        r.0@.len() <= s@.len(),
    decreases s@.len(), 7int,
{
    let ghost full = sp_expr_list(s@);
    let mut cur: &str = s;
    let mut items: Vec<Expr> = Vec::new();
    loop
        invariant
            full == sp_expr_list(s@),
            full.0 == sp_expr_list(cur@).0,
            full.1 == items.deep_view() + sp_expr_list(cur@).1,
            cur@.len() <= s@.len(),
        ensures
            sp_expr(cur@) is Err,
            full.0 == sp_expr_list(cur@).0,
            full.1 == items.deep_view() + sp_expr_list(cur@).1,
            cur@.len() <= s@.len(),
        decreases cur@.len(),
    {
        let ghost prev = cur@;
        let ghost items_dv = items.deep_view();
        match Expr::new(cur) {
            Err(_) => {
                break ;
            },
            Ok(pr) => {
                items.push(pr.1);
                let (c2, _) = extract_spaces(pr.0);
                cur = c2;
                proof {
                    lemma_take_len_bounds(space_p(), pr.0@);
                    assert(items.deep_view() =~= items_dv.push(sp_expr_list(prev).1[0]));
                    assert(full.1 =~= items.deep_view() + sp_expr_list(cur@).1);
                }
            },
        }
    }
    proof {
        assert(full.1 =~= items.deep_view());
    }
    (cur, items)
}

/// Parses statements separated by whitespace, until the first statement
/// failure; never fails itself.
fn stmt_list(s: &str) -> (r: (&str, Vec<Stmt>))
    ensures
        r.0@ == sp_stmt_list(s@).0,
        r.1.deep_view() == sp_stmt_list(s@).1,
        r.0@.len() <= s@.len(),
    decreases s@.len(), 7int,
{
    let ghost full = sp_stmt_list(s@);
    let mut cur: &str = s;
    let mut stmts: Vec<Stmt> = Vec::new();
    loop
        invariant
            full == sp_stmt_list(s@),
            full.0 == sp_stmt_list(cur@).0,
            full.1 == stmts.deep_view() + sp_stmt_list(cur@).1,
            cur@.len() <= s@.len(),
        ensures
            sp_stmt(cur@) is Err,
            full.0 == sp_stmt_list(cur@).0,
            full.1 == stmts.deep_view() + sp_stmt_list(cur@).1,
            cur@.len() <= s@.len(),
        decreases cur@.len(),
    {
        let ghost prev = cur@;
        let ghost stmts_dv = stmts.deep_view();
        match Stmt::new(cur) {
            Err(_) => {
                break ;
            },
            Ok(pr) => {
                stmts.push(pr.1);
                let (c2, _) = extract_whitespace(pr.0);
                cur = c2;
                proof {
                    assert(stmts.deep_view() =~= stmts_dv.push(sp_stmt_list(prev).1[0]));
                    assert(full.1 =~= stmts.deep_view() + sp_stmt_list(cur@).1);
                }
            },
        }
    }
    proof {
        assert(full.1 =~= stmts.deep_view());
    }
    (cur, stmts)
}

impl Block {
    /// Parses a brace-delimited block of statements.
    pub fn new(s: &str) -> (r: Result<(&str, Block), String>)
        ensures
            sp_block(s@) matches Ok(t) ==> (r matches Ok(q) && q.0@ == t.0 && ExprV::Block {
                stmts: q.1@,
            } == t.1 && q.0@.len() < s@.len()),
            sp_block(s@) matches Err(m) ==> (r matches Err(e) && e@ == m),
        decreases s@.len(), 1int,
    {
        proof {
            reveal_strlit("{");
            reveal_strlit("}");
            assert("{"@ =~= seq!['{']);
            assert("}"@ =~= seq!['}']);
        }
        let s1 = match tag("{", s) {
            Ok(t) => t,
            Err(e) => return Err(e),
        };
        let (s2, _) = extract_whitespace(s1);
        proof {
            lemma_take_len_bounds(whitespace_p(), s1@);
        }
        let (s3, stmts) = stmt_list(s2);
        let (s4, _) = extract_whitespace(s3);
        proof {
            lemma_take_len_bounds(whitespace_p(), s3@);
        }
        let s5 = match tag("}", s4) {
            Ok(t) => t,
            Err(e) => return Err(e),
        };
        let b = Block { stmts };
        proof {
            assert(b@ =~= sp_stmt_list(s2@).1);
        }
        Ok((s5, b))
    }
}

impl BindingDef {
    /// Parses `let name = expression`.
    pub fn new(s: &str) -> (r: Result<(&str, BindingDef), String>)
        ensures
            sp_binding_def(s@) matches Ok(t) ==> (r matches Ok(q) && q.0@ == t.0 && q.1@ == t.1
                && q.0@.len() < s@.len()),
            sp_binding_def(s@) matches Err(m) ==> (r matches Err(e) && e@ == m),
        decreases s@.len(), 5int,
    {
        proof {
            reveal_strlit("let");
            reveal_strlit("=");
            assert("let"@ =~= seq!['l', 'e', 't']);
            assert("="@ =~= seq!['=']);
        }
        let s1 = match tag("let", s) {
            Ok(t) => t,
            Err(e) => return Err(e),
        };
        proof {
            lemma_take_len_bounds(whitespace_p(), s1@);
        }
        let (s2, _) = match extract_whitespace_req(s1) {
            Ok(t) => t,
            Err(e) => return Err(e),
        };
        let (s3, name_txt) = match extract_ident(s2) {
            Ok(t) => t,
            Err(e) => return Err(e),
        };
        let (s4, _) = extract_whitespace(s3);
        proof {
            lemma_take_len_bounds(whitespace_p(), s3@);
        }
        let s5 = match tag("=", s4) {
            Ok(t) => t,
            Err(e) => return Err(e),
        };
        let (s6, _) = extract_whitespace(s5);
        proof {
            lemma_take_len_bounds(whitespace_p(), s5@);
            assert(s6@.len() < s@.len());
        }
        let (s7, val) = match Expr::new(s6) {
            Ok(t) => t,
            Err(e) => return Err(e),
        };
        Ok((s7, BindingDef { name: name_txt.to_owned(), val }))
    }
}

impl Stmt {
    /// Parses a statement: a binding definition, else an expression.
    pub fn new(s: &str) -> (r: Result<(&str, Stmt), String>)
        ensures
            sp_stmt(s@) matches Ok(t) ==> (r matches Ok(q) && q.0@ == t.0 && q.1@ == t.1
                && q.0@.len() < s@.len()),
            sp_stmt(s@) matches Err(m) ==> (r matches Err(e) && e@ == m),
        decreases s@.len(), 6int,
    {
        match BindingDef::new(s) {
            Ok(t) => return Ok((t.0, Stmt::BindingDef(t.1))),
            Err(_) => {},
        }
        match Expr::new(s) {
            Ok(t) => Ok((t.0, Stmt::Expr(t.1))),
            Err(e) => Err(e),
        }
    }
}

impl Expr {
    /// Parses any expression form but an operation.
    fn new_operand(s: &str) -> (r: Result<(&str, Expr), String>)
        ensures
            sp_operand(s@) matches Ok(t) ==> (r matches Ok(q) && q.0@ == t.0 && q.1@ == t.1
                && q.0@.len() < s@.len()),
            sp_operand(s@) matches Err(m) ==> (r matches Err(e) && e@ == m),
        decreases s@.len(), 2int,
    {
        match Block::new(s) {
            Ok(t) => {
                proof {
                    lemma_view_block(t.1);
                }
                return Ok((t.0, Expr::Block(t.1)));
            },
            Err(_) => {},
        }
        match FuncCall::new(s) {
            Ok(t) => {
                proof {
                    lemma_view_func_call(t.1);
                }
                return Ok((t.0, Expr::FuncCall(t.1)));
            },
            Err(_) => {},
        }
        match BindingUsage::new(s) {
            Ok(t) => return Ok((t.0, Expr::BindingUsage(t.1))),
            Err(_) => {},
        }
        match Number::new(s) {
            Ok(t) => Ok((t.0, Expr::Number(t.1))),
            Err(e) => Err(e),
        }
    }

    /// Parses exactly `operand operator operand`.
    fn new_operation(s: &str) -> (r: Result<(&str, Expr), String>)
        ensures
            sp_operation(s@) matches Ok(t) ==> (r matches Ok(q) && q.0@ == t.0 && q.1@ == t.1
                && q.0@.len() < s@.len()),
            sp_operation(s@) matches Err(m) ==> (r matches Err(e) && e@ == m),
        decreases s@.len(), 3int,
    {
        let (s1, lhs) = match Self::new_operand(s) {
            Ok(t) => t,
            Err(e) => return Err(e),
        };
        let (s2, _) = extract_whitespace(s1);
        proof {
            lemma_take_len_bounds(whitespace_p(), s1@);
        }
        let (s3, op_txt) = match extract_op(s2) {
            Ok(t) => t,
            Err(e) => return Err(e),
        };
        let op = char_to_op(op_txt.get_char(0));
        let (s4, _) = extract_whitespace(s3);
        proof {
            lemma_take_len_bounds(whitespace_p(), s3@);
            assert(s4@.len() < s@.len());
        }
        let (s5, rhs) = match Self::new_operand(s4) {
            Ok(t) => t,
            Err(e) => return Err(e),
        };
        Ok((s5, Expr::Operation { lhs: Box::new(lhs), rhs: Box::new(rhs), op }))
    }

    /// Parses an expression, by ordered choice: block, else function call,
    /// else operation, else binding usage, else number literal.
    pub fn new(s: &str) -> (r: Result<(&str, Expr), String>)
        ensures
            sp_expr(s@) matches Ok(t) ==> (r matches Ok(q) && q.0@ == t.0 && q.1@ == t.1
                && q.0@.len() < s@.len()),
            sp_expr(s@) matches Err(m) ==> (r matches Err(e) && e@ == m),
        decreases s@.len(), 4int,
    {
        match Block::new(s) {
            Ok(t) => {
                proof {
                    lemma_view_block(t.1);
                }
                return Ok((t.0, Expr::Block(t.1)));
            },
            Err(_) => {},
        }
        match FuncCall::new(s) {
            Ok(t) => {
                proof {
                    lemma_view_func_call(t.1);
                }
                return Ok((t.0, Expr::FuncCall(t.1)));
            },
            Err(_) => {},
        }
        match Self::new_operation(s) {
            Ok(t) => return Ok((t.0, t.1)),
            Err(_) => {},
        }
        match BindingUsage::new(s) {
            Ok(t) => return Ok((t.0, Expr::BindingUsage(t.1))),
            Err(_) => {},
        }
        match Number::new(s) {
            Ok(t) => Ok((t.0, Expr::Number(t.1))),
            Err(e) => Err(e),
        }
    }
}

/// The statement grammar as a parser value, for use with `seq_parse`.
pub open spec fn stmt_parser() -> spec_fn(Seq<char>) -> Result<(Seq<char>, StmtV), Seq<char>> {
    |s: Seq<char>| sp_stmt(s)
}

/// The whitespace separator as a separator value, for use with `seq_parse`.
pub open spec fn ws_sep() -> spec_fn(Seq<char>) -> Seq<char> {
    |s: Seq<char>| sp_ws(s)
}

proof fn lemma_stmt_list_is_seq_parse(s: Seq<char>)
    ensures
        seq_parse(stmt_parser(), ws_sep(), s) == sp_stmt_list(s),
    decreases s.len(),
{
    match sp_stmt(s) {
        Err(_) => {},
        Ok((s1, item)) => {
            if s1.len() < s.len() && sp_ws(s1).len() <= s1.len() {
                lemma_stmt_list_is_seq_parse(sp_ws(s1));
            }
        },
    }
}

/// Parses a whole source text as a top-level sequence of statements,
/// returning the unconsumed remainder beside the root block.  The caller
/// decides whether a non-empty remainder is an error.
pub fn parse(s: &str) -> (r: (&str, Block))
    ensures
        r.0@ == sp_program(s@).0,
        r.1@ == sp_program(s@).1,
{
    let (s1, _) = extract_whitespace(s);
    proof {
        lemma_take_len_bounds(whitespace_p(), s@);
        lemma_stmt_list_is_seq_parse(s1@);
        assert forall|sx: &str| #[trigger] call_requires(Stmt::new, (sx,)) by {}
        assert forall|sx: &str, rx: Result<(&str, Stmt), String>|
            #[trigger] call_ensures(Stmt::new, (sx,), rx) implies models_step::<Stmt>(
            stmt_parser(),
            sx@,
            rx,
        ) by {
            match rx {
                Ok(q) => {
                    assert(sp_stmt(sx@) matches Ok(t) && t.0 == q.0@ && t.1 == q.1@ && q.0@.len()
                        < sx@.len());
                },
                Err(_) => {},
            }
        }
        assert forall|sx: &str| #[trigger] call_requires(extract_whitespace, (sx,)) by {}
        assert forall|sx: &str, rx: (&str, &str)|
            #[trigger] call_ensures(extract_whitespace, (sx,), rx) implies rx.0@ == ws_sep()(sx@)
            && ws_sep()(sx@).len() <= sx@.len() by {}
    }
    let pr = match sequence(Stmt::new, extract_whitespace, s1, Ghost(stmt_parser()), Ghost(ws_sep())) {
        Ok(t) => t,
        Err(e) => {
            proof {
                assert(false);
            }
            (s1, Vec::new())
        },
    };
    let b = Block { stmts: pr.1 };
    proof {
        assert(b@ =~= pr.1.deep_view());
    }
    (pr.0, b)
}

} // verus!
