use vstd::prelude::*;

use crate::ast::ExprV;
use crate::ast::StmtV;
use crate::env::EnvV;
use crate::env::child_of;
use crate::env::func_err;
use crate::env::lookup_binding;
use crate::env::lookup_func;
use crate::eval::arity_err;
use crate::eval::dec_digit;
use crate::eval::dec_of;
use crate::eval::ev_expr;
use crate::eval::ev_stmt;
use crate::eval::ev_stmts;
use crate::parse::digit_val;
use crate::parse::num_of;
use crate::parse::sp_number;
use crate::utils::digit_p;
use crate::utils::is_digit;
use crate::utils::lemma_take_len_bounds;
use crate::utils::take_len;
use crate::val::Val;

verus! {

/// A numeric literal in canonical form: at least one digit, and no
/// leading zero unless the literal is `0` itself.
pub open spec fn is_canonical_literal(t: Seq<char>) -> bool {
    &&& t.len() > 0
    &&& (forall|i: int| 0 <= i < t.len() ==> is_digit(#[trigger] t[i]))
    &&& (t[0] != '0' || t.len() == 1)
}

proof fn lemma_dec_digit_inverse(c: char)
    requires
        is_digit(c),
    ensures
        dec_digit(digit_val(c)) == c,
        0 <= digit_val(c) <= 9,
{
}

proof fn lemma_num_of_pos(t: Seq<char>)
    requires
        t.len() > 0,
        forall|i: int| 0 <= i < t.len() ==> is_digit(#[trigger] t[i]),
        t[0] != '0',
    ensures
        num_of(t) >= 1,
    decreases t.len(),
{
    if t.len() == 1 {
        assert(t.drop_last().len() == 0);
        assert(num_of(t.drop_last()) == 0);
        assert(t.last() == t[0]);
    } else {
        lemma_num_of_pos(t.drop_last());
        lemma_dec_digit_inverse(t.last());
    }
}

/// Rendering the value of a canonical numeric literal in decimal yields
/// back exactly that literal: parsing loses or invents no character.
pub proof fn lemma_number_render_roundtrip(t: Seq<char>)
    requires
        is_canonical_literal(t),
    ensures
        num_of(t) >= 0,
        dec_of(num_of(t) as nat) == t,
    decreases t.len(),
{
    if t.len() == 1 {
        lemma_dec_digit_inverse(t[0]);
        assert(t.drop_last().len() == 0);
        assert(num_of(t.drop_last()) == 0);
        assert(t.last() == t[0]);
        assert(num_of(t) == digit_val(t[0]));
        assert(dec_of(num_of(t) as nat) =~= t);
    } else {
        let front = t.drop_last();
        let d = digit_val(t.last());
        lemma_dec_digit_inverse(t.last());
        assert(front[0] == t[0]);
        lemma_num_of_pos(front);
        lemma_number_render_roundtrip(front);
        let n = num_of(t);
        assert(n == num_of(front) * 10 + d);
        assert(n / 10 == num_of(front) && n % 10 == d) by (nonlinear_arith)
            requires
                n == num_of(front) * 10 + d,
                0 <= d <= 9,
                num_of(front) >= 1,
        ;
        assert(dec_of(n as nat) == dec_of(num_of(front) as nat).push(dec_digit(d)));
        assert(dec_of(n as nat) =~= t);
    }
}

/// The number parser, applied to input whose digit prefix is a canonical
/// literal that fits the value type, succeeds, and rendering the parsed
/// value yields back exactly the consumed prefix.
pub proof fn lemma_parse_number_roundtrip(s: Seq<char>)
    requires
        is_canonical_literal(s.take(take_len(digit_p(), s))),
        num_of(s.take(take_len(digit_p(), s))) <= i32::MAX as int,
    ensures
        sp_number(s) is Ok,
        dec_of(num_of(s.take(take_len(digit_p(), s))) as nat) == s.take(take_len(digit_p(), s)),
{
    lemma_take_len_bounds(digit_p(), s);
    lemma_number_render_roundtrip(s.take(take_len(digit_p(), s)));
}

/// Number parsing is prefix-only: on success the input splits exactly
/// into the consumed digit prefix and the untouched remainder.
pub proof fn lemma_number_parse_prefix_only(s: Seq<char>)
    ensures
        sp_number(s) matches Ok(t) ==> s == s.take(take_len(digit_p(), s)) + t.0,
{
    lemma_take_len_bounds(digit_p(), s);
    assert(s =~= s.take(take_len(digit_p(), s)) + s.skip(take_len(digit_p(), s)));
}

/// Shadowing: a child scope that binds `name` itself hides, but does not
/// destroy, the binding of an ancestor scope.  Looking `name` up in the
/// child yields the inner value; the outer scope still holds the outer
/// value, so discarding the child restores the outer view.
pub proof fn lemma_shadowing(env: EnvV, name: Seq<char>, outer: Val, inner: Val)
    requires
        lookup_binding(env, name) == Some(outer),
    ensures
        lookup_binding(
            EnvV {
                bindings: child_of(env).bindings.insert(name, inner),
                funcs: child_of(env).funcs,
                parent: child_of(env).parent,
            },
            name,
        ) == Some(inner),
        lookup_binding(env, name) == Some(outer),
{
}

/// A child scope that does not bind `name` itself reads the ancestor's
/// binding through the parent link.
pub proof fn lemma_child_reads_parent(env: EnvV, name: Seq<char>)
    requires
        child_of(env).bindings.contains_key(name) == false,
    ensures
        lookup_binding(child_of(env), name) == lookup_binding(env, name),
{
}

/// The scope left behind by evaluating a sequence of statements in order,
/// short-circuiting on the first error.
pub open spec fn run_stmts(ss: Seq<StmtV>, env: EnvV, fuel: nat) -> Result<EnvV, Seq<char>>
    decreases ss.len(),
{
    if ss.len() == 0 {
        Ok(env)
    } else {
        match ev_stmt(ss[0], env, fuel) {
            Ok(t) => run_stmts(ss.drop_first(), t.1, fuel),
            Err(m) => Err(m),
        }
    }
}

/// Block value semantics: a non-empty statement sequence evaluates every
/// statement but the last for effect only (each feeding the scope it
/// leaves to the next, errors short-circuiting), and yields exactly the
/// value of the last statement, run in the scope the others produced.
pub proof fn lemma_block_value_is_last_stmt(ss: Seq<StmtV>, env: EnvV, fuel: nat)
    requires
        ss.len() >= 1,
    ensures
        ev_stmts(ss, env, fuel) == (match run_stmts(ss.drop_last(), env, fuel) {
            Ok(env2) => match ev_stmt(ss.last(), env2, fuel) {
                Ok(t) => Ok::<Val, Seq<char>>(t.0),
                Err(m) => Err(m),
            },
            Err(m) => Err(m),
        }),
    decreases ss.len(),
{
    if ss.len() == 1 {
        assert(ss.drop_last().len() == 0);
        assert(ss.last() == ss[0]);
    } else {
        assert(ss.drop_last()[0] == ss[0]);
        match ev_stmt(ss[0], env, fuel) {
            Ok(t) => {
                lemma_block_value_is_last_stmt(ss.drop_first(), t.1, fuel);
                assert(ss.drop_first().drop_last() =~= ss.drop_last().drop_first());
                assert(ss.drop_first().last() == ss.last());
            },
            Err(_) => {},
        }
    }
}

/// Arity: a call of a known function with the wrong number of arguments
/// fails with the message naming both counts, never silently truncating
/// or padding the argument list.
pub proof fn lemma_call_arity(callee: Seq<char>, args: Seq<ExprV>, env: EnvV, fuel: nat)
    requires
        lookup_func(env, callee) matches Some(fd) && args.len() != fd.params.len(),
    ensures
        ev_expr(ExprV::FuncCall { callee, args }, env, fuel) == Err::<Val, Seq<char>>(
            arity_err(lookup_func(env, callee).unwrap().params.len(), args.len()),
        ),
{
}

/// A call of an undefined function fails with the message naming it.
pub proof fn lemma_call_unknown_func(callee: Seq<char>, args: Seq<ExprV>, env: EnvV, fuel: nat)
    requires
        lookup_func(env, callee) is None,
    ensures
        ev_expr(ExprV::FuncCall { callee, args }, env, fuel) == Err::<Val, Seq<char>>(
            func_err(callee),
        ),
{
}

} // verus!
