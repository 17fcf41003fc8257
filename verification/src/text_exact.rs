//! That an item is read back from its source text as it is, where the bounds and
//! defaults of parameters are text.
use vstd::prelude::*;

use crate::code::{
    SpecArm, SpecBlock, SpecDecl, SpecExpr, SpecFieldInit, SpecGenerics, SpecMethod, SpecStmt,
};
use crate::print::ty_text;
use crate::source::{
    flat_arm, flat_arms, flat_block, flat_decl, flat_expr, flat_exprs, flat_generics, flat_impl,
    flat_init, flat_inits, flat_method, flat_methods, flat_param, flat_stmt, flat_stmts, flat_tail,
    text_block, text_decl, text_expr, text_params, text_stmt,
};

verus! {

proof fn lemma_same_params(g: SpecGenerics)
    requires
        text_params(g),
    ensures
        flat_generics(g) == g,
{
    let flat = flat_generics(g).ty_params;
    assert forall|i: int| 0 <= i < g.ty_params.len() implies #[trigger] flat[i]
        == g.ty_params[i] by {
        let p = g.ty_params[i];
        let q = flat_param(p);
        assert forall|j: int| 0 <= j < p.bounds.len() implies #[trigger] q.bounds[j]
            == p.bounds[j] by {
            assert(p.bounds[j] is Verbatim);
            assert(ty_text(p.bounds[j]) == p.bounds[j]->Verbatim_0);
        }
        assert(q.bounds =~= p.bounds);
        if let Some(d) = p.default {
            assert(ty_text(d) == d->Verbatim_0);
        }
    }
    assert(flat =~= g.ty_params);
}

pub proof fn lemma_same_expr(e: SpecExpr)
    requires
        text_expr(e),
    ensures
        flat_expr(e) == e,
    decreases e,
{
    match e {
        SpecExpr::Path(_) => {},
        SpecExpr::Lit(_) => {},
        SpecExpr::Call { args, .. } => lemma_same_exprs(args),
        SpecExpr::MethodCall { receiver, args, .. } => {
            lemma_same_expr(*receiver);
            lemma_same_exprs(args);
        },
        SpecExpr::Try(e) => lemma_same_expr(*e),
        SpecExpr::Return(e) => lemma_same_expr(*e),
        SpecExpr::Assign { expr, .. } => lemma_same_expr(*expr),
        SpecExpr::Match { expr, arms } => {
            lemma_same_expr(*expr);
            lemma_same_arms(arms);
        },
        SpecExpr::WhileLet { expr, body, .. } => {
            lemma_same_expr(*expr);
            lemma_same_block(*body);
        },
        SpecExpr::Struct { fields, .. } => lemma_same_inits(fields),
        SpecExpr::Block(b) => lemma_same_block(*b),
    }
}

proof fn lemma_same_exprs(s: Seq<SpecExpr>)
    requires
        forall|i: int| 0 <= i < s.len() ==> text_expr(#[trigger] s[i]),
    ensures
        flat_exprs(s) == s,
    decreases s,
{
    if s.len() > 0 {
        let rest = s.drop_first();
        assert(text_expr(s[0]));
        lemma_same_expr(s[0]);
        assert forall|i: int| 0 <= i < rest.len() implies text_expr(#[trigger] rest[i]) by {
            assert(rest[i] == s[i + 1]);
        }
        lemma_same_exprs(rest);
    }
    assert(flat_exprs(s) =~= s);
}

proof fn lemma_same_arms(s: Seq<SpecArm>)
    requires
        forall|i: int| 0 <= i < s.len() ==> text_expr((#[trigger] s[i]).body),
    ensures
        flat_arms(s) == s,
    decreases s,
{
    if s.len() > 0 {
        let rest = s.drop_first();
        assert(text_expr(s[0].body));
        lemma_same_expr(s[0].body);
        assert(flat_arm(s[0]) == s[0]);
        assert forall|i: int| 0 <= i < rest.len() implies text_expr(
            (#[trigger] rest[i]).body,
        ) by {
            assert(rest[i] == s[i + 1]);
        }
        lemma_same_arms(rest);
    }
    assert(flat_arms(s) =~= s);
}

proof fn lemma_same_inits(s: Seq<SpecFieldInit>)
    requires
        forall|i: int| 0 <= i < s.len() ==> text_expr((#[trigger] s[i]).expr),
    ensures
        flat_inits(s) == s,
    decreases s,
{
    if s.len() > 0 {
        let rest = s.drop_first();
        assert(text_expr(s[0].expr));
        lemma_same_expr(s[0].expr);
        assert(flat_init(s[0]) == s[0]);
        assert forall|i: int| 0 <= i < rest.len() implies text_expr(
            (#[trigger] rest[i]).expr,
        ) by {
            assert(rest[i] == s[i + 1]);
        }
        lemma_same_inits(rest);
    }
    assert(flat_inits(s) =~= s);
}

proof fn lemma_same_block(b: SpecBlock)
    requires
        text_block(b),
    ensures
        flat_block(b) == b,
    decreases b,
{
    lemma_same_stmts(b.stmts);
    if let Some(e) = b.expr {
        lemma_same_expr(e);
    }
    assert(flat_tail(b.expr) == b.expr);
}

proof fn lemma_same_stmts(s: Seq<SpecStmt>)
    requires
        forall|i: int| 0 <= i < s.len() ==> text_stmt(#[trigger] s[i]),
    ensures
        flat_stmts(s) == s,
    decreases s,
{
    if s.len() > 0 {
        let rest = s.drop_first();
        assert(text_stmt(s[0]));
        lemma_same_stmt(s[0]);
        assert forall|i: int| 0 <= i < rest.len() implies text_stmt(#[trigger] rest[i]) by {
            assert(rest[i] == s[i + 1]);
        }
        lemma_same_stmts(rest);
    }
    assert(flat_stmts(s) =~= s);
}

proof fn lemma_same_stmt(s: SpecStmt)
    requires
        text_stmt(s),
    ensures
        flat_stmt(s) == s,
    decreases s,
{
    match s {
        SpecStmt::Let { init, .. } => lemma_same_expr(init),
        SpecStmt::Decl(d) => lemma_same_decl(d),
        SpecStmt::Semi(e) => lemma_same_expr(e),
        SpecStmt::Expr(e) => lemma_same_expr(e),
    }
}

pub proof fn lemma_same_decl(d: SpecDecl)
    requires
        text_decl(d),
    ensures
        flat_decl(d) == d,
    decreases d,
{
    match d {
        SpecDecl::Enum { .. } => {},
        SpecDecl::Struct { generics, .. } => lemma_same_params(generics),
        SpecDecl::Impl(i) => {
            lemma_same_params(i.generics);
            lemma_same_methods(i.methods);
            assert(flat_impl(i) == i);
        },
    }
}

proof fn lemma_same_methods(s: Seq<SpecMethod>)
    requires
        forall|i: int| 0 <= i < s.len() ==> text_block((#[trigger] s[i]).body),
    ensures
        flat_methods(s) == s,
    decreases s,
{
    if s.len() > 0 {
        let rest = s.drop_first();
        assert(text_block(s[0].body));
        lemma_same_block(s[0].body);
        assert(flat_method(s[0]) == s[0]);
        assert forall|i: int| 0 <= i < rest.len() implies text_block(
            (#[trigger] rest[i]).body,
        ) by {
            assert(rest[i] == s[i + 1]);
        }
        lemma_same_methods(rest);
    }
    assert(flat_methods(s) =~= s);
}

} // verus!
