//! How generated code reads a sequence.
use vstd::prelude::*;

use crate::code::{SpecExpr, SpecPath};
use crate::meaning::{
    eval, eval_args, eval_block, eval_stmt, eval_stmts, is_prelude_fn, last_index, method_effect,
    start, Context, Env, Fault, Flow, Input, Request, State, Trace, Val,
};
use crate::names::{field_ident, law_field_idents_distinct};
use crate::outcome::{seq_fault, seq_result, seq_values};
use crate::requests::{asked, seq_trace, visits};
use crate::shape::{end_stmt, field_vars, seq_arms, seq_expr, seq_let, seq_lets};
use crate::steps::{
    lemma_block_flow, lemma_call0, lemma_call1, lemma_calls, lemma_ctor, lemma_end,
    lemma_last_index, lemma_method0, lemma_no_decls, lemma_ops, lemma_option_arms, lemma_parties,
    lemma_plain_flow, lemma_semi_block, lemma_stmts1, lemma_stmts_append, option_arms,
};
use crate::tree::{
    block, call0, err_expr, ident_path, match_expr, method0, ok_expr, serde_error_path, try_expr,
    var,
};

verus! {

/// The variables of the first `n` values of a sequence.
pub open spec fn seq_env(items: Seq<Result<int, int>>, n: nat) -> Env {
    Seq::new(n, |i: int| (field_ident(i as nat), seq_values(items, n)[i]))
}

/// `{ return Err(::serde::de::Error::end_of_stream_error()); }`
proof fn lemma_end_of_stream(depth: nat, c: Context, s: State)
    ensures
        eval(depth, c, seq_arms()[1].body, s) == (
            Flow::Return(Val::Failure(Fault::EndOfStream)),
            s,
        ),
{
    let failure = call0(serde_error_path("end_of_stream_error"@));
    let v = Val::Fault(Fault::EndOfStream);
    lemma_calls(Val::Unit, Fault::EndOfStream, seq![]);
    lemma_call0(depth, c, serde_error_path("end_of_stream_error"@), s);
    lemma_call1(depth, c, ident_path("Err"@), failure, s, v);
    let ret = SpecExpr::Return(Box::new(err_expr(failure)));
    assert(eval(depth, c, ret, s) == (Flow::Return(Val::Failure(Fault::EndOfStream)), s));
    lemma_semi_block(depth, c, ret, s);
}

/// `try!(visitor.visit())`
proof fn lemma_visit(
    depth: nat,
    c: Context,
    items: Seq<Result<int, int>>,
    end: Result<(), int>,
    s: State,
)
    requires
        depth > 0,
        c.input == (Input::List { items, end }),
    ensures
        eval(depth, c, try_expr(method0("visitor"@, "visit"@)), s).0 == (
        if s.pos >= items.len() {
            Flow::Done(Val::Absent)
        } else {
            match items[s.pos as int] {
                Ok(v) => Flow::Done(Val::Present(Box::new(Val::Leaf(v)))),
                Err(e) => Flow::Return(Val::Failure(Fault::Source(e))),
            }
        }),
        eval(depth, c, try_expr(method0("visitor"@, "visit"@)), s).1 == (
        if s.pos >= items.len() {
            State { trace: s.trace.push(asked("visit"@)), ..s }
        } else {
            State { pos: s.pos + 1, trace: s.trace.push(asked("visit"@)), ..s }
        }),
{
    lemma_ops();
    lemma_parties();
    lemma_method0(depth, c, "visitor"@, "visit"@, s);
}

/// `let __fieldk = ..;`
pub proof fn lemma_seq_let(
    depth: nat,
    c: Context,
    items: Seq<Result<int, int>>,
    end: Result<(), int>,
    k: nat,
    s: State,
)
    requires
        depth > 0,
        c.input == (Input::List { items, end }),
        s.pos == k,
    ensures
        k >= items.len() ==> eval_stmt(depth, c, seq_let(k), s).0 == Flow::Return(
            Val::Failure(Fault::EndOfStream),
        ),
        k < items.len() ==> match items[k as int] {
            Err(e) => eval_stmt(depth, c, seq_let(k), s).0 == Flow::Return(
                Val::Failure(Fault::Source(e)),
            ),
            Ok(v) => eval_stmt(depth, c, seq_let(k), s) == (
                Flow::Done(Val::Unit),
                State {
                    env: s.env.push((field_ident(k), Val::Leaf(v))),
                    pos: k + 1,
                    trace: s.trace.push(asked("visit"@)),
                },
            ),
        },
        eval_stmt(depth, c, seq_let(k), s).1.trace == s.trace.push(asked("visit"@)),
{
    let none = seq_arms()[1].body;
    let init = match_expr(try_expr(method0("visitor"@, "visit"@)), seq_arms());
    assert(seq_arms() =~= option_arms("value"@, none));
    let s0 = State { trace: s.trace.push(asked("visit"@)), ..s };
    lemma_end_of_stream(depth, c, s0);
    lemma_visit(depth, c, items, end, s);
    if k >= items.len() {
        lemma_option_arms(depth, c, Val::Absent, "value"@, none, s0);
        assert(eval(depth, c, init, s) == (
            Flow::Return(Val::Failure(Fault::EndOfStream)),
            s0,
        ));
    } else {
        match items[k as int] {
            Err(e) => {
                assert(eval(depth, c, init, s).0 == Flow::Return(Val::Failure(Fault::Source(e))));
            },
            Ok(v) => {
                let w = Val::Present(Box::new(Val::Leaf(v)));
                let s1 = State { pos: k + 1, ..s0 };
                lemma_option_arms(depth, c, w, "value"@, none, s1);
                assert(eval(depth, c, init, s) == (Flow::Done(Val::Leaf(v)), s1));
            },
        }
    }
}

/// All of the `let`s from index `k` on.
pub proof fn lemma_seq_lets(
    depth: nat,
    c: Context,
    items: Seq<Result<int, int>>,
    end: Result<(), int>,
    n: nat,
    k: nat,
    trace: Trace,
)
    requires
        depth > 0,
        c.input == (Input::List { items, end }),
        k <= n,
        k <= items.len(),
    ensures
        ({
            let s = State { env: seq_env(items, k), pos: k, trace };
            let r = eval_stmts(depth, c, seq_lets(n).skip(k as int), s);
            &&& r.1.trace == trace + visits(items, n, k)
            &&& match seq_fault(items, n, k) {
                None => r.0 == Flow::Done(Val::Unit) && r.1.env == seq_env(items, n) && r.1.pos
                    == n,
                Some(f) => r.0 == Flow::Return(Val::Failure(f)),
            }
        }),
    decreases n - k,
{
    let stmts = seq_lets(n).skip(k as int);
    let s = State { env: seq_env(items, k), pos: k, trace };
    if k == n {
        assert(stmts =~= seq![]);
        assert(trace + visits(items, n, k) =~= trace);
    } else {
        let more = trace.push(asked("visit"@));
        assert(stmts[0] == seq_let(k));
        assert(stmts.drop_first() =~= seq_lets(n).skip(k as int + 1));
        lemma_seq_let(depth, c, items, end, k, s);
        if k < items.len() && items[k as int] is Ok {
            assert(s.env.push((field_ident(k), Val::Leaf(items[k as int]->Ok_0)))
                =~= seq_env(items, k + 1));
            lemma_seq_lets(depth, c, items, end, n, k + 1, more);
            assert(more + visits(items, n, k + 1) =~= trace + visits(items, n, k));
        } else {
            assert(more =~= trace + visits(items, n, k));
        }
    }
}

/// The variables of values, as arguments.
pub proof fn lemma_field_vars(depth: nat, c: Context, vs: Seq<Val>, n: nat, k: nat, s: State)
    requires
        k <= n,
        vs.len() == n,
        forall|i: int|
            0 <= i < n ==> last_index(s.env, #[trigger] field_ident(i as nat)) >= 0
                && s.env[last_index(s.env, field_ident(i as nat))].1 == vs[i],
    ensures
        eval_args(depth, c, field_vars(n).skip(k as int), s) == (
            Ok::<Seq<Val>, Flow>(vs.skip(k as int)),
            s,
        ),
    decreases n - k,
{
    let args = field_vars(n).skip(k as int);
    if k == n {
        assert(args =~= seq![]);
        assert(vs.skip(k as int) =~= seq![]);
    } else {
        let x = field_ident(k);
        assert(args[0] == var(x));
        assert(args.drop_first() =~= field_vars(n).skip(k as int + 1));
        assert(ident_path(x).segments[0] == x);
        assert(last_index(s.env, field_ident(k as int as nat)) >= 0);
        assert(eval(depth, c, var(x), s) == (Flow::Done(vs[k as int]), s));
        lemma_field_vars(depth, c, vs, n, k + 1, s);
        assert(seq![vs[k as int]] + vs.skip(k as int + 1) =~= vs.skip(k as int));
    }
}

/// Each variable of the first `n` values has its value.
pub proof fn lemma_seq_env(items: Seq<Result<int, int>>, n: nat)
    ensures
        forall|i: int|
            0 <= i < n ==> last_index(seq_env(items, n), #[trigger] field_ident(i as nat)) >= 0
                && seq_env(items, n)[last_index(seq_env(items, n), field_ident(i as nat))].1
                == seq_values(items, n)[i],
{
    let env = seq_env(items, n);
    assert forall|i: int| 0 <= i < n implies last_index(env, #[trigger] field_ident(i as nat)) >= 0
        && env[last_index(env, field_ident(i as nat))].1 == seq_values(items, n)[i] by {
        assert forall|j: int| i < j < env.len() implies (#[trigger] env[j]).0 != field_ident(
            i as nat,
        ) by {
            law_field_idents_distinct(i as nat, j as nat);
        }
        lemma_last_index(env, field_ident(i as nat), i);
    }
}

/// `Ok(path(__field0, ..))`
pub proof fn lemma_seq_tail(
    depth: nat,
    c: Context,
    path: SpecPath,
    n: nat,
    items: Seq<Result<int, int>>,
    s: State,
)
    requires
        !path.global,
        !is_prelude_fn(path),
        s.env == seq_env(items, n),
    ensures
        eval(depth, c, ok_expr(SpecExpr::Call { path, args: field_vars(n) }), s) == (
            Flow::Done(
                Val::Success(
                    Box::new(Val::Tuple { path: path.segments, args: seq_values(items, n) }),
                ),
            ),
            s,
        ),
{
    let vs = seq_values(items, n);
    lemma_seq_env(items, n);
    lemma_field_vars(depth, c, vs, n, 0, s);
    assert(field_vars(n).skip(0) =~= field_vars(n));
    assert(vs.skip(0) =~= vs);
    lemma_ctor(path, vs);
    let call = SpecExpr::Call { path, args: field_vars(n) };
    let v = Val::Tuple { path: path.segments, args: vs };
    assert(eval(depth, c, call, s) == (Flow::Done(v), s));
    lemma_call1(depth, c, ident_path("Ok"@), call, s, v);
    lemma_calls(v, Fault::EndOfStream, seq![]);
}

/// The code that reads a sequence.
pub proof fn lemma_seq_expr(
    depth: nat,
    c: Context,
    path: SpecPath,
    n: nat,
    items: Seq<Result<int, int>>,
    end: Result<(), int>,
)
    requires
        depth > 0,
        c.input == (Input::List { items, end }),
        !path.global,
        !is_prelude_fn(path),
    ensures
        method_effect(
            eval_block(depth, c, block(seq![], seq_expr(path, n)), start(seq![])),
        ) == (
            Flow::Done(seq_result(path.segments, n, items, end)),
            seq_trace(items, n),
        ),
{
    let s0 = start(seq![]);
    let lets = seq_lets(n);
    let stmts = lets.push(end_stmt());
    let tail = ok_expr(SpecExpr::Call { path, args: field_vars(n) });
    lemma_plain_flow(depth, c, seq_expr(path, n), s0);
    lemma_no_decls(stmts);
    lemma_block_flow(depth, c, stmts, tail, s0);
    assert(s0.env =~= seq_env(items, 0));
    assert(lets.skip(0) =~= lets);
    lemma_seq_lets(depth, c, items, end, n, 0, seq![]);
    assert(stmts =~= lets + seq![end_stmt()]);
    lemma_stmts_append(depth, c, lets, seq![end_stmt()], s0);
    let read = visits(items, n, 0);
    assert(Seq::<Request>::empty() + read =~= read);
    if seq_fault(items, n, 0) is None {
        let s1 = State { env: seq_env(items, n), pos: n, trace: read };
        let s2 = State { trace: read.push(asked("end"@)), ..s1 };
        lemma_stmts1(depth, c, end_stmt(), s1);
        lemma_end(depth, c, end, s1);
        lemma_seq_tail(depth, c, path, n, items, s2);
        assert(s2.trace =~= seq_trace(items, n));
    } else {
        assert(read =~= seq_trace(items, n));
    }
}

} // verus!
