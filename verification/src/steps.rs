//! How single constructs of generated code are evaluated.
use vstd::prelude::*;

use crate::code::{SpecArm, SpecBlock, SpecDecl, SpecExpr, SpecPat, SpecPath, SpecStmt};
use crate::meaning::{
    block_decls, call_value, effect, eval, eval_args, eval_arms, eval_block, eval_stmt, eval_stmts,
    is_prelude_fn, last_index, leave, method_call, op, party, pat_match, Context, Env, Fault, Flow,
    Input, Op, Party, State, Val,
};
use crate::requests::asked;
use crate::shape::end_stmt;
use crate::tree::{
    bind_pat, block, block_expr, call0, call1, default_path, ident_path, method0, method1, method2,
    semi_block_expr, serde_error_path, var,
};

verus! {

// Names
// -----

pub proof fn lemma_ident_path_inj(a: Seq<char>, b: Seq<char>)
    requires
        ident_path(a) == ident_path(b),
    ensures
        a == b,
{
    assert(ident_path(a).segments[0] == a);
    assert(ident_path(b).segments[0] == b);
}

pub proof fn lemma_ops()
    ensures
        op("visit"@) == Op::Visit,
        op("visit_key"@) == Op::VisitKey,
        op("visit_value"@) == Op::VisitValue,
        op("missing_field"@) == Op::MissingField,
        op("end"@) == Op::End,
        op("visit_variant"@) == Op::VisitVariant,
        op("visit_unit"@) == Op::VisitUnit,
        op("visit_seq"@) == Op::VisitSeq,
        op("visit_map"@) == Op::VisitMap,
{
    reveal_strlit("visit");
    assert("visit"@.len() == 5);
    reveal_strlit("visit_key");
    assert("visit_key"@.len() == 9);
    reveal_strlit("visit_value");
    assert("visit_value"@.len() == 11);
    reveal_strlit("missing_field");
    assert("missing_field"@.len() == 13);
    reveal_strlit("end");
    assert("end"@.len() == 3);
    reveal_strlit("visit_variant");
    assert("visit_variant"@.len() == 13);
    reveal_strlit("visit_unit");
    assert("visit_unit"@.len() == 10);
    reveal_strlit("visit_seq");
    assert("visit_seq"@.len() == 9);
    reveal_strlit("visit_map");
    assert("visit_map"@.len() == 9);
    assert("visit_seq"@[6] == 's');
    assert("visit_map"@[6] == 'm');
    assert("visit_key"@[6] == 'k');
    assert("visit_variant"@[0] == 'v');
    assert("missing_field"@[0] == 'm');
}

pub proof fn lemma_parties()
    ensures
        party(var("visitor"@)) == Party::Visitor,
        party(var("deserializer"@)) == Party::Deserializer,
        party(var("self"@)) == Party::This,
{
    reveal_strlit("visitor");
    assert("visitor"@.len() == 7);
    reveal_strlit("deserializer");
    assert("deserializer"@.len() == 12);
    reveal_strlit("self");
    assert("self"@.len() == 4);
    if ident_path("deserializer"@) == ident_path("visitor"@) {
        lemma_ident_path_inj("deserializer"@, "visitor"@);
    }
    if ident_path("self"@) == ident_path("visitor"@) {
        lemma_ident_path_inj("self"@, "visitor"@);
    }
    if ident_path("self"@) == ident_path("deserializer"@) {
        lemma_ident_path_inj("self"@, "deserializer"@);
    }
}

pub proof fn lemma_calls(v: Val, f: Fault, name: Seq<char>)
    ensures
        call_value(ident_path("Ok"@), seq![v]) == Flow::Done(Val::Success(Box::new(v))),
        call_value(ident_path("Some"@), seq![v]) == Flow::Done(Val::Present(Box::new(v))),
        call_value(ident_path("Err"@), seq![Val::Fault(f)]) == Flow::Done(Val::Failure(f)),
        call_value(default_path(), seq![]) == Flow::Done(Val::Default),
        call_value(serde_error_path("end_of_stream_error"@), seq![]) == Flow::Done(
            Val::Fault(Fault::EndOfStream),
        ),
        call_value(serde_error_path("unknown_field_error"@), seq![Val::Str(name)])
            == Flow::Done(Val::Fault(Fault::UnknownField(name))),
{
    reveal_strlit("Ok");
    assert("Ok"@.len() == 2);
    reveal_strlit("Err");
    assert("Err"@.len() == 3);
    reveal_strlit("Some");
    assert("Some"@.len() == 4);
    reveal_strlit("std");
    assert("std"@.len() == 3);
    reveal_strlit("serde");
    assert("serde"@.len() == 5);
    reveal_strlit("end_of_stream_error");
    assert("end_of_stream_error"@.len() == 19);
    reveal_strlit("unknown_field_error");
    assert("unknown_field_error"@.len() == 19);
    if ident_path("Some"@) == ident_path("Ok"@) {
        lemma_ident_path_inj("Some"@, "Ok"@);
    }
    if ident_path("Some"@) == ident_path("Err"@) {
        lemma_ident_path_inj("Some"@, "Err"@);
    }
    if ident_path("Err"@) == ident_path("Ok"@) {
        lemma_ident_path_inj("Err"@, "Ok"@);
    }
    assert(default_path().segments[0] == "std"@);
    assert(serde_error_path("end_of_stream_error"@).segments[0] == "serde"@);
    assert(serde_error_path("unknown_field_error"@).segments[0] == "serde"@);
    assert(serde_error_path("end_of_stream_error"@).segments[3] == "end_of_stream_error"@);
    assert(serde_error_path("unknown_field_error"@).segments[3] == "unknown_field_error"@);
    assert("end_of_stream_error"@[0] == 'e');
    assert("unknown_field_error"@[0] == 'u');
}

pub proof fn lemma_ctor(p: SpecPath, args: Seq<Val>)
    requires
        !p.global,
        !is_prelude_fn(p),
    ensures
        call_value(p, args) == Flow::Done(Val::Tuple { path: p.segments, args }),
{
}

// Expressions
// -----------

pub proof fn lemma_args0(depth: nat, c: Context, s: State)
    ensures
        eval_args(depth, c, seq![], s) == (Ok::<Seq<Val>, Flow>(seq![]), s),
{
}

pub proof fn lemma_args1(depth: nat, c: Context, e: SpecExpr, s: State)
    ensures
        eval_args(depth, c, seq![e], s) == (match eval(depth, c, e, s).0 {
            Flow::Done(v) => Ok::<Seq<Val>, Flow>(seq![v]),
            f => Err(f),
        }, eval(depth, c, e, s).1),
{
    let (f, s1) = eval(depth, c, e, s);
    assert(seq![e][0] == e);
    assert(seq![e].drop_first() =~= seq![]);
    lemma_args0(depth, c, s1);
    if let Flow::Done(v) = f {
        assert(seq![v] + Seq::<Val>::empty() =~= seq![v]);
    }
}

pub proof fn lemma_args2(
    depth: nat,
    c: Context,
    a: SpecExpr,
    b: SpecExpr,
    s: State,
    v: Val,
    w: Val,
)
    requires
        eval(depth, c, a, s) == (Flow::Done(v), s),
        eval(depth, c, b, s) == (Flow::Done(w), s),
    ensures
        eval_args(depth, c, seq![a, b], s) == (Ok::<Seq<Val>, Flow>(seq![v, w]), s),
{
    assert(seq![a, b][0] == a);
    assert(seq![a, b].drop_first() =~= seq![b]);
    lemma_args1(depth, c, b, s);
    assert(seq![v] + seq![w] =~= seq![v, w]);
}

/// `path(e)`, where `e` has a value
pub proof fn lemma_call1(depth: nat, c: Context, p: SpecPath, e: SpecExpr, s: State, v: Val)
    requires
        eval(depth, c, e, s).0 == Flow::Done(v),
    ensures
        eval(depth, c, call1(p, e), s) == (call_value(p, seq![v]), eval(depth, c, e, s).1),
{
    lemma_args1(depth, c, e, s);
}

/// `path(e)`, where `e` has none
pub proof fn lemma_call1_none(depth: nat, c: Context, p: SpecPath, e: SpecExpr, s: State)
    requires
        !(eval(depth, c, e, s).0 is Done),
    ensures
        eval(depth, c, call1(p, e), s) == eval(depth, c, e, s),
{
    lemma_args1(depth, c, e, s);
}

pub proof fn lemma_call0(depth: nat, c: Context, p: SpecPath, s: State)
    ensures
        eval(depth, c, call0(p), s) == (call_value(p, seq![]), s),
{
    lemma_args0(depth, c, s);
}

pub proof fn lemma_method0(
    depth: nat,
    c: Context,
    receiver: Seq<char>,
    ident: Seq<char>,
    s: State,
)
    requires
        depth > 0,
    ensures
        eval(depth, c, method0(receiver, ident), s) == method_call(
            (depth - 1) as nat,
            c,
            party(var(receiver)),
            ident,
            seq![],
            s,
        ),
{
    lemma_args0(depth, c, s);
}

pub proof fn lemma_method1(
    depth: nat,
    c: Context,
    receiver: Seq<char>,
    ident: Seq<char>,
    e: SpecExpr,
    s: State,
    v: Val,
)
    requires
        depth > 0,
        eval(depth, c, e, s) == (Flow::Done(v), s),
    ensures
        eval(depth, c, method1(receiver, ident, e), s) == method_call(
            (depth - 1) as nat,
            c,
            party(var(receiver)),
            ident,
            seq![v],
            s,
        ),
{
    lemma_args1(depth, c, e, s);
}

pub proof fn lemma_method2(
    depth: nat,
    c: Context,
    receiver: Seq<char>,
    ident: Seq<char>,
    a: SpecExpr,
    b: SpecExpr,
    s: State,
    v: Val,
    w: Val,
)
    requires
        depth > 0,
        eval(depth, c, a, s) == (Flow::Done(v), s),
        eval(depth, c, b, s) == (Flow::Done(w), s),
    ensures
        eval(depth, c, method2(receiver, ident, a, b), s) == method_call(
            (depth - 1) as nat,
            c,
            party(var(receiver)),
            ident,
            seq![v, w],
            s,
        ),
{
    lemma_args2(depth, c, a, b, s, v, w);
}

/// `{ expr; }`
pub proof fn lemma_semi_block(depth: nat, c: Context, e: SpecExpr, s: State)
    requires
        eval(depth, c, e, s).1.env.len() == s.env.len(),
    ensures
        eval(depth, c, semi_block_expr(e), s) == (match eval(depth, c, e, s).0 {
            Flow::Done(_) => Flow::Done(Val::Unit),
            f => f,
        }, eval(depth, c, e, s).1),
{
    let stmts = seq![SpecStmt::Semi(e)];
    let b = SpecBlock { stmts, expr: None };
    let (f, s1) = eval(depth, c, e, s);
    reveal_with_fuel(block_decls, 2);
    assert(stmts.last() == SpecStmt::Semi(e));
    assert(stmts.drop_last() =~= seq![]);
    assert(block_decls(stmts) =~= seq![]);
    let inner = Context { scope: c.scope + block_decls(stmts), ..c };
    assert(inner.scope =~= c.scope);
    assert(inner == c);
    assert(stmts[0] == SpecStmt::Semi(e));
    assert(stmts.drop_first() =~= seq![]);
    assert(eval_stmt(depth, c, stmts[0], s) == (f, s1));
    assert(eval_stmts(depth, c, seq![], s1) == (Flow::Done(Val::Unit), s1));
    assert(s1.env.take(s.env.len() as int) =~= s1.env);
    assert(leave(s1, s.env.len()) == s1);
    assert(eval_block(depth, c, b, s) == eval(depth, c, semi_block_expr(e), s));
}

/// `{ expr }`
pub proof fn lemma_plain_block(depth: nat, c: Context, e: SpecExpr, s: State)
    requires
        eval(depth, c, e, s).1.env.len() == s.env.len(),
    ensures
        eval_block(depth, c, block(seq![], e), s) == eval(depth, c, e, s),
        eval(depth, c, block_expr(seq![], e), s) == eval(depth, c, e, s),
{
    let s1 = eval(depth, c, e, s).1;
    let stmts = Seq::<SpecStmt>::empty();
    assert(block_decls(stmts) =~= seq![]);
    let inner = Context { scope: c.scope + block_decls(stmts), ..c };
    assert(inner.scope =~= c.scope);
    assert(inner == c);
    assert(eval_stmts(depth, c, stmts, s) == (Flow::Done(Val::Unit), s));
    assert(s1.env.take(s.env.len() as int) =~= s1.env);
    assert(leave(s1, s.env.len()) == s1);
    assert(eval_block(depth, c, block(stmts, e), s) == eval(depth, c, e, s));
}

/// `{ expr }`, whatever it does to the variables
pub proof fn lemma_plain_flow(depth: nat, c: Context, e: SpecExpr, s: State)
    ensures
        effect(eval_block(depth, c, block(seq![], e), s)) == effect(eval(depth, c, e, s)),
        effect(eval(depth, c, block_expr(seq![], e), s)) == effect(eval(depth, c, e, s)),
{
    let stmts = Seq::<SpecStmt>::empty();
    assert(block_decls(stmts) =~= seq![]);
    let inner = Context { scope: c.scope + block_decls(stmts), ..c };
    assert(inner.scope =~= c.scope);
    assert(inner == c);
    assert(eval_stmts(depth, c, stmts, s) == (Flow::Done(Val::Unit), s));
    assert(effect(eval_block(depth, c, block(stmts, e), s)) == effect(eval(depth, c, e, s)));
}

/// `{ stmts expr }`, where the statements declare no items
pub proof fn lemma_block_flow(
    depth: nat,
    c: Context,
    stmts: Seq<SpecStmt>,
    e: SpecExpr,
    s: State,
)
    requires
        block_decls(stmts) == Seq::<SpecDecl>::empty(),
    ensures
        effect(eval(depth, c, block_expr(stmts, e), s)) == (match eval_stmts(
            depth,
            c,
            stmts,
            s,
        ).0 {
            Flow::Done(_) => effect(eval(depth, c, e, eval_stmts(depth, c, stmts, s).1)),
            _ => effect(eval_stmts(depth, c, stmts, s)),
        }),
{
    let inner = Context { scope: c.scope + block_decls(stmts), ..c };
    assert(inner.scope =~= c.scope);
    assert(inner == c);
    assert(eval_block(depth, c, block(stmts, e), s) == eval(depth, c, block_expr(stmts, e), s));
}

/// Statements are evaluated up to the first that does not end with a value.
pub proof fn lemma_stmts_append(
    depth: nat,
    c: Context,
    a: Seq<SpecStmt>,
    b: Seq<SpecStmt>,
    s: State,
)
    ensures
        eval_stmts(depth, c, a + b, s) == (match eval_stmts(depth, c, a, s).0 {
            Flow::Done(_) => eval_stmts(depth, c, b, eval_stmts(depth, c, a, s).1),
            _ => eval_stmts(depth, c, a, s),
        }),
    decreases a.len(),
{
    if a.len() == 0 {
        assert(a + b =~= b);
    } else {
        assert((a + b)[0] == a[0]);
        assert((a + b).drop_first() =~= a.drop_first() + b);
        let (f, s1) = eval_stmt(depth, c, a[0], s);
        lemma_stmts_append(depth, c, a.drop_first(), b, s1);
    }
}

pub proof fn lemma_stmts1(depth: nat, c: Context, a: SpecStmt, s: State)
    ensures
        eval_stmts(depth, c, seq![a], s) == (match eval_stmt(depth, c, a, s).0 {
            Flow::Done(_) => Flow::Done(Val::Unit),
            f => f,
        }, eval_stmt(depth, c, a, s).1),
{
    assert(seq![a][0] == a);
    assert(seq![a].drop_first() =~= seq![]);
    let (f, s1) = eval_stmt(depth, c, a, s);
    assert(eval_stmts(depth, c, seq![], s1) == (Flow::Done(Val::Unit), s1));
}

/// The index of a variable that no inner one hides.
pub proof fn lemma_last_index(env: Env, x: Seq<char>, k: int)
    requires
        0 <= k < env.len(),
        env[k].0 == x,
        forall|j: int| k < j < env.len() ==> (#[trigger] env[j]).0 != x,
    ensures
        last_index(env, x) == k,
    decreases env.len(),
{
    if k < env.len() - 1 {
        assert(env[env.len() - 1].0 != x);
        let shorter = env.drop_last();
        assert forall|j: int| k < j < shorter.len() implies (#[trigger] shorter[j]).0 != x by {
            assert(env[j].0 != x);
        }
        lemma_last_index(shorter, x, k);
    }
}

/// A name that no variable has.
pub proof fn lemma_no_index(env: Env, x: Seq<char>)
    requires
        forall|j: int| 0 <= j < env.len() ==> (#[trigger] env[j]).0 != x,
    ensures
        last_index(env, x) == -1,
    decreases env.len(),
{
    if env.len() > 0 {
        assert(env[env.len() - 1].0 != x);
        let shorter = env.drop_last();
        assert forall|j: int| 0 <= j < shorter.len() implies (#[trigger] shorter[j]).0 != x by {
            assert(env[j].0 != x);
        }
        lemma_no_index(shorter, x);
    }
}

/// The arms `Some(x) => x, None => none`.
pub open spec fn option_arms(x: Seq<char>, none: SpecExpr) -> Seq<SpecArm> {
    seq![
        SpecArm { pat: bind_pat("Some"@, x), body: var(x) },
        SpecArm { pat: SpecPat::Path(ident_path("None"@)), body: none },
    ]
}

/// `match v { Some(x) => x, None => none }`
pub proof fn lemma_option_arms(
    depth: nat,
    c: Context,
    v: Val,
    x: Seq<char>,
    none: SpecExpr,
    s: State,
)
    requires
        v is Present || v == Val::Absent,
        v == Val::Absent ==> eval(depth, c, none, s).1.env.len() == s.env.len(),
    ensures
        eval_arms(depth, c, v, option_arms(x, none), s) == (match v {
            Val::Present(w) => (Flow::Done(*w), s),
            _ => eval(depth, c, none, s),
        }),
{
    let arms = option_arms(x, none);
    assert(arms[0].pat == bind_pat("Some"@, x));
    match v {
        Val::Present(w) => {
            let s1 = State { env: s.env + seq![(x, *w)], ..s };
            assert(s1.env[s.env.len() as int] == (x, *w));
            lemma_last_index(s1.env, x, s.env.len() as int);
            assert(ident_path(x).segments[0] == x);
            assert(eval(depth, c, var(x), s1) == (Flow::Done(*w), s1));
            assert(s1.env.take(s.env.len() as int) =~= s.env);
            assert(leave(s1, s.env.len()) == s);
        },
        _ => {
            let rest = arms.drop_first();
            assert(rest[0] == arms[1]);
            assert(pat_match(rest[0].pat, v) == Some(Seq::<(Seq<char>, Val)>::empty()));
            let s0 = State { env: s.env + seq![], ..s };
            assert(s0.env =~= s.env);
            assert(s0 == s);
            let s1 = eval(depth, c, none, s).1;
            assert(s1.env.take(s.env.len() as int) =~= s1.env);
            assert(leave(s1, s.env.len()) == s1);
            assert(eval_arms(depth, c, v, rest, s) == eval(depth, c, none, s));
        },
    }
}

/// `try!(visitor.end());`
pub proof fn lemma_end(depth: nat, c: Context, end: Result<(), int>, s: State)
    requires
        depth > 0,
        match c.input {
            Input::List { end: e, .. } => e == end,
            Input::Table { end: e, .. } => e == end,
            _ => false,
        },
    ensures
        eval_stmt(depth, c, end_stmt(), s) == (match end {
            Ok(_) => Flow::Done(Val::Unit),
            Err(e) => Flow::Return(Val::Failure(Fault::Source(e))),
        }, State { trace: s.trace.push(asked("end"@)), ..s }),
{
    lemma_ops();
    lemma_parties();
    lemma_method0(depth, c, "visitor"@, "end"@, s);
}

/// A block without items declares none.
pub proof fn lemma_no_decls(stmts: Seq<SpecStmt>)
    requires
        forall|i: int| 0 <= i < stmts.len() ==> !((#[trigger] stmts[i]) is Decl),
    ensures
        block_decls(stmts) == Seq::<SpecDecl>::empty(),
    decreases stmts.len(),
{
    if stmts.len() > 0 {
        assert(!(stmts[stmts.len() - 1] is Decl));
        let shorter = stmts.drop_last();
        assert forall|i: int| 0 <= i < shorter.len() implies !((#[trigger] shorter[i]) is Decl) by {
            assert(!(stmts[i] is Decl));
        }
        lemma_no_decls(shorter);
    }
}

} // verus!
