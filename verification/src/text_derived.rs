//! That the source text of derived code can be read back.
use vstd::prelude::*;

use crate::ast::{
    all_named, derivable, field_key, field_keys, variant_ok, SpecField, SpecItem, SpecItemKind,
    SpecVariant, SpecVariantKind,
};
use crate::code::{
    SpecArm, SpecBlock, SpecDecl, SpecExpr, SpecFieldInit, SpecGenerics, SpecLit, SpecMethod,
    SpecPath, SpecStmt, SpecTy,
};
use crate::code_laws::law_field_ident;
use crate::names::field_ident;
use crate::parse::{keyword, word_char};
use crate::print::{join, ty_text, tys_texts};
use crate::shape::{
    applied_ty, body_expr, derived_impl, deserialize_method, end_stmt, enum_method, extract_let,
    field_body, field_enum, field_impl, field_inits, field_path, field_vars, field_visitor,
    impl_generics, item_enum_expr, item_generics, key_arm, key_arms, map_expr, map_let, map_loop,
    map_method, map_visitor, missing_expr, none_pat, seq_arms, seq_expr, seq_let, seq_lets,
    seq_method, seq_visitor, str_method, struct_expr, tuple_struct_expr, unit_impl, unit_method,
    unit_seq_method, unit_struct_expr, unit_variant_expr, unknown_key_arm, value_arm, value_arms,
    variant_arms, variant_expr, variant_keys, visit_method, visitor_decl, visitor_expr,
    visitor_impl, visitor_ty,
};
use crate::source::{
    all_lifetimes, all_names, arm_ok, arms_ok, attr_ok, before_block, block_ok, decl_ok, expr_ok,
    exprs_ok, field_ok, fields_ok, generics_ok, impl_ok, init_ok, inits_ok, is_lifetime, is_name,
    item_names_ok, lifetime_def_ok, lit_ok, method_ok, methods_ok, path_ok, run_end, run_ok,
    stmt_ok, stmts_ok, tail_ok, ty_ok, ty_param_ok, tys_ok, variant_name_ok,
};
use crate::text_names::lemma_names;
use crate::tree::{
    bind_pat, block, block_expr, call0, call1, default_path, err_expr, global_path, ident_path,
    ident_ty, match_expr, method0, method1, method2, no_generics, ok_expr, pair_path, path_ty,
    phantom_data_ty, ref_ty, result_ty, semi_block_expr, serde_error_path, serde_path, some_expr,
    try_expr, var,
};

verus! {

// Lists
// -----

proof fn lemma_exprs_ok(s: Seq<SpecExpr>)
    requires
        forall|i: int| 0 <= i < s.len() ==> expr_ok(#[trigger] s[i]),
    ensures
        exprs_ok(s),
    decreases s.len(),
{
    if s.len() > 0 {
        assert(expr_ok(s[0]));
        let rest = s.drop_first();
        assert forall|i: int| 0 <= i < rest.len() implies expr_ok(#[trigger] rest[i]) by {
            assert(rest[i] == s[i + 1]);
        }
        lemma_exprs_ok(rest);
    }
}

proof fn lemma_arms_ok(s: Seq<SpecArm>)
    requires
        forall|i: int| 0 <= i < s.len() ==> arm_ok(#[trigger] s[i]),
    ensures
        arms_ok(s),
    decreases s.len(),
{
    if s.len() > 0 {
        assert(arm_ok(s[0]));
        let rest = s.drop_first();
        assert forall|i: int| 0 <= i < rest.len() implies arm_ok(#[trigger] rest[i]) by {
            assert(rest[i] == s[i + 1]);
        }
        lemma_arms_ok(rest);
    }
}

proof fn lemma_inits_ok(s: Seq<SpecFieldInit>)
    requires
        forall|i: int| 0 <= i < s.len() ==> init_ok(#[trigger] s[i]),
    ensures
        inits_ok(s),
    decreases s.len(),
{
    if s.len() > 0 {
        assert(init_ok(s[0]));
        let rest = s.drop_first();
        assert forall|i: int| 0 <= i < rest.len() implies init_ok(#[trigger] rest[i]) by {
            assert(rest[i] == s[i + 1]);
        }
        lemma_inits_ok(rest);
    }
}

proof fn lemma_stmts_ok(s: Seq<SpecStmt>)
    requires
        forall|i: int| 0 <= i < s.len() ==> stmt_ok(#[trigger] s[i]),
    ensures
        stmts_ok(s),
    decreases s.len(),
{
    if s.len() > 0 {
        assert(stmt_ok(s[0]));
        let rest = s.drop_first();
        assert forall|i: int| 0 <= i < rest.len() implies stmt_ok(#[trigger] rest[i]) by {
            assert(rest[i] == s[i + 1]);
        }
        lemma_stmts_ok(rest);
    }
}

proof fn lemma_methods_ok(s: Seq<SpecMethod>)
    requires
        forall|i: int| 0 <= i < s.len() ==> method_ok(#[trigger] s[i]),
    ensures
        methods_ok(s),
    decreases s.len(),
{
    if s.len() > 0 {
        assert(method_ok(s[0]));
        let rest = s.drop_first();
        assert forall|i: int| 0 <= i < rest.len() implies method_ok(#[trigger] rest[i]) by {
            assert(rest[i] == s[i + 1]);
        }
        lemma_methods_ok(rest);
    }
}

proof fn lemma_tys_ok(s: Seq<SpecTy>)
    requires
        forall|i: int| 0 <= i < s.len() ==> ty_ok(#[trigger] s[i]),
    ensures
        tys_ok(s),
    decreases s.len(),
{
    if s.len() > 0 {
        assert(ty_ok(s[0]));
        let rest = s.drop_first();
        assert forall|i: int| 0 <= i < rest.len() implies ty_ok(#[trigger] rest[i]) by {
            assert(rest[i] == s[i + 1]);
        }
        lemma_tys_ok(rest);
    }
}

// Paths and types
// ---------------

proof fn lemma_field_is_name(i: nat)
    ensures
        is_name(field_ident(i)),
{
    reveal_strlit("__field");
    reveal_strlit("_");
    lemma_names();
    law_field_ident(i);
    let x = field_ident(i);
    let prefix = "__field"@;
    assert(prefix.len() == 7);
    assert(x.take(7)[0] == prefix[0]);
    assert(x.len() > 7 && x[0] == '_');
    assert forall|j: int| 0 <= j < x.len() implies word_char(#[trigger] x[j]) by {
        if j < 7 {
            assert(x[j] == x.take(7)[j]);
            assert(j == 0 || j == 1 || j == 2 || j == 3 || j == 4 || j == 5 || j == 6);
        } else {
            assert(x[j] == x.skip(7)[j - 7]);
        }
    }
    lemma_underscore_word(x);
}

/// A longer word that starts with an underscore is no keyword.
proof fn lemma_underscore_word(x: Seq<char>)
    requires
        x.len() > 1,
        x[0] == '_',
    ensures
        !keyword(x),
{
    reveal_strlit("match");
    reveal_strlit("while");
    reveal_strlit("return");
    reveal_strlit("try");
    reveal_strlit("let");
    reveal_strlit("mut");
    reveal_strlit("struct");
    reveal_strlit("enum");
    reveal_strlit("impl");
    reveal_strlit("fn");
    reveal_strlit("type");
    reveal_strlit("_");
    assert("match"@[0] == 'm');
    assert("while"@[0] == 'w');
    assert("return"@[0] == 'r');
    assert("try"@[0] == 't');
    assert("let"@[0] == 'l');
    assert("mut"@[0] == 'm');
    assert("struct"@[0] == 's');
    assert("enum"@[0] == 'e');
    assert("impl"@[0] == 'i');
    assert("fn"@[0] == 'f');
    assert("type"@[0] == 't');
    assert("_"@.len() == 1);
}

proof fn lemma_path1_ok(a: Seq<char>)
    requires
        is_name(a),
    ensures
        path_ok(ident_path(a)),
        ty_ok(ident_ty(a)),
        expr_ok(var(a)),
{
    assert(path_ok(ident_path(a)));
    assert(all_lifetimes(Seq::<Seq<char>>::empty()));
    assert(tys_ok(Seq::<SpecTy>::empty()));
}

proof fn lemma_path2_ok(a: Seq<char>, b: Seq<char>)
    requires
        is_name(a),
        is_name(b),
    ensures
        path_ok(pair_path(a, b)),
        ty_ok(path_ty(pair_path(a, b))),
{
    assert(path_ok(pair_path(a, b)));
    assert(all_lifetimes(Seq::<Seq<char>>::empty()));
    assert(tys_ok(Seq::<SpecTy>::empty()));
}

proof fn lemma_path3_ok(a: Seq<char>, b: Seq<char>, c: Seq<char>)
    requires
        is_name(a),
        is_name(b),
        is_name(c),
    ensures
        path_ok(global_path(a, b, c)),
{
}

proof fn lemma_serde_ok(a: Seq<char>)
    requires
        is_name(a),
    ensures
        path_ok(serde_path(a)),
        path_ok(serde_error_path(a)),
        path_ok(default_path()),
{
    lemma_names();
}

proof fn lemma_result_ok(a: SpecTy, b: SpecTy)
    requires
        ty_ok(a),
        ty_ok(b),
    ensures
        ty_ok(result_ty(a, b)),
{
    lemma_names();
    lemma_path3_ok("std"@, "result"@, "Result"@);
    let tys = seq![a, b];
    assert forall|i: int| 0 <= i < tys.len() implies ty_ok(#[trigger] tys[i]) by {
        assert(i == 0 || i == 1);
    }
    lemma_tys_ok(tys);
}

proof fn lemma_applied_ok(x: Seq<char>, g: SpecGenerics)
    requires
        is_name(x),
        generics_ok(g),
    ensures
        ty_ok(applied_ty(x, g)),
{
    let ty = applied_ty(x, g);
    lemma_path1_ok(x);
    assert forall|i: int| 0 <= i < ty->lifetimes.len() implies is_lifetime(
        #[trigger] ty->lifetimes[i],
    ) by {
        assert(lifetime_def_ok(g.lifetimes[i]));
    }
    assert forall|i: int| 0 <= i < ty->tys.len() implies ty_ok(#[trigger] ty->tys[i]) by {
        assert(ty_param_ok(g.ty_params[i]));
        lemma_path1_ok(g.ty_params[i].ident);
    }
    lemma_tys_ok(ty->tys);
}

// Parameters
// ----------

/// Characters that neither open nor close nor end anything.
pub open spec fn plain_text(s: Seq<char>) -> bool {
    forall|i: int| 0 <= i < s.len() ==> word_char(#[trigger] s[i]) || s[i] == ':'
}

proof fn lemma_plain_run(s: Seq<char>)
    requires
        plain_text(s),
    ensures
        run_end(s, false, 0) == Some(0nat),
    decreases s.len(),
{
    if s.len() > 0 {
        let rest = s.skip(1);
        assert(word_char(s[0]) || s[0] == ':');
        assert forall|i: int| 0 <= i < rest.len() implies word_char(#[trigger] rest[i]) || rest[i]
            == ':' by {
            assert(rest[i] == s[i + 1]);
        }
        lemma_plain_run(rest);
    }
}

proof fn lemma_plain_names(s: Seq<Seq<char>>)
    requires
        all_names(s),
    ensures
        plain_text(join(s, "::"@)),
        s.len() > 0 ==> join(s, "::"@).len() > 0,
    decreases s.len(),
{
    reveal_strlit("::");
    assert("::"@.len() == 2 && "::"@[0] == ':' && "::"@[1] == ':');
    if s.len() > 0 {
        let rest = s.drop_last();
        let x = s[s.len() - 1];
        assert(is_name(x));
        assert forall|i: int| 0 <= i < rest.len() implies is_name(#[trigger] rest[i]) by {
            assert(rest[i] == s[i]);
        }
        lemma_plain_names(rest);
        let t = join(s, "::"@);
        let r = join(rest, "::"@);
        if s.len() > 1 {
            assert(t == r + "::"@ + x);
            assert forall|i: int| 0 <= i < t.len() implies word_char(#[trigger] t[i]) || t[i]
                == ':' by {
                if i < r.len() {
                    assert(t[i] == r[i]);
                } else if i < r.len() + 2 {
                    assert(t[i] == "::"@[i - r.len()]);
                } else {
                    assert(t[i] == x[i - r.len() - 2]);
                }
            }
        } else {
            assert(t == x);
        }
    }
}

/// The bound that is added to each type parameter.
proof fn lemma_bound_ok()
    ensures
        run_ok(ty_text(path_ty(serde_path("Deserialize"@))), false),
{
    lemma_names();
    reveal_strlit("::");
    let p = serde_path("Deserialize"@);
    lemma_serde_ok("Deserialize"@);
    lemma_plain_names(p.segments);
    let names = join(p.segments, "::"@);
    let t = ty_text(path_ty(p));
    assert(Seq::<Seq<char>>::empty() + tys_texts(Seq::<SpecTy>::empty()) =~= seq![]);
    assert(t =~= "::"@ + names);
    assert("::"@.len() == 2 && "::"@[0] == ':' && "::"@[1] == ':');
    assert forall|i: int| 0 <= i < t.len() implies word_char(#[trigger] t[i]) || t[i] == ':' by {
        if i < 2 {
            assert(t[i] == "::"@[i]);
        } else {
            assert(t[i] == names[i - 2]);
        }
    }
    lemma_plain_run(t);
    assert(word_char(t[t.len() - 1]) || t[t.len() - 1] == ':');
}

proof fn lemma_impl_generics_ok(g: SpecGenerics)
    requires
        generics_ok(g),
    ensures
        generics_ok(impl_generics(g)),
{
    let h = impl_generics(g);
    lemma_bound_ok();
    assert forall|i: int| 0 <= i < h.ty_params.len() implies ty_param_ok(
        #[trigger] h.ty_params[i],
    ) by {
        let p = g.ty_params[i];
        assert(ty_param_ok(p));
        let bounds = h.ty_params[i].bounds;
        assert forall|j: int| 0 <= j < bounds.len() implies run_ok(
            ty_text(#[trigger] bounds[j]),
            false,
        ) by {
            if j < p.bounds.len() {
                assert(bounds[j] == p.bounds[j]);
            }
        }
    }
}

// Expressions
// -----------

proof fn lemma_call_ok(path: SpecPath, args: Seq<SpecExpr>)
    requires
        path_ok(path),
        forall|i: int| 0 <= i < args.len() ==> expr_ok(#[trigger] args[i]),
    ensures
        expr_ok(SpecExpr::Call { path, args }),
{
    lemma_exprs_ok(args);
}

proof fn lemma_call1_ok(x: Seq<char>, e: SpecExpr)
    requires
        is_name(x),
        expr_ok(e),
    ensures
        expr_ok(call1(ident_path(x), e)),
{
    lemma_path1_ok(x);
    lemma_call_ok(ident_path(x), seq![e]);
}

proof fn lemma_method_call_ok(x: Seq<char>, ident: Seq<char>, args: Seq<SpecExpr>)
    requires
        is_name(x),
        is_name(ident),
        forall|i: int| 0 <= i < args.len() ==> expr_ok(#[trigger] args[i]),
    ensures
        expr_ok(SpecExpr::MethodCall { receiver: Box::new(var(x)), ident, args }),
        expr_ok(
            try_expr(SpecExpr::MethodCall { receiver: Box::new(var(x)), ident, args }),
        ),
{
    lemma_path1_ok(x);
    lemma_exprs_ok(args);
    assert(expr_ok(SpecExpr::MethodCall { receiver: Box::new(var(x)), ident, args }));
}

proof fn lemma_method0_ok(x: Seq<char>, ident: Seq<char>)
    requires
        is_name(x),
        is_name(ident),
    ensures
        expr_ok(method0(x, ident)),
        expr_ok(try_expr(method0(x, ident))),
{
    lemma_method_call_ok(x, ident, seq![]);
}

proof fn lemma_block_ok(stmts: Seq<SpecStmt>, e: SpecExpr)
    requires
        forall|i: int| 0 <= i < stmts.len() ==> stmt_ok(#[trigger] stmts[i]),
        expr_ok(e),
        !(e is WhileLet),
    ensures
        block_ok(block(stmts, e)),
        expr_ok(block_expr(stmts, e)),
{
    lemma_stmts_ok(stmts);
    assert(tail_ok(Some(e)));
    assert(block_ok(block(stmts, e)));
}

proof fn lemma_semi_ok(e: SpecExpr)
    requires
        expr_ok(e),
    ensures
        expr_ok(semi_block_expr(e)),
{
    let b = semi_block_expr(e)->Block_0;
    assert(stmt_ok(SpecStmt::Semi(e)));
    lemma_stmts_ok(b.stmts);
    assert(tail_ok(None));
    assert(block_ok(*b));
}

proof fn lemma_match_ok(e: SpecExpr, arms: Seq<SpecArm>)
    requires
        before_block(e),
        expr_ok(e),
        forall|i: int| 0 <= i < arms.len() ==> arm_ok(#[trigger] arms[i]),
    ensures
        expr_ok(match_expr(e, arms)),
{
    lemma_arms_ok(arms);
}

proof fn lemma_end_ok()
    ensures
        stmt_ok(end_stmt()),
{
    lemma_names();
    lemma_method0_ok("visitor"@, "end"@);
}

// Methods and visitors
// --------------------

/// Neither attribute of a method holds a bracket.
proof fn lemma_inline_ok()
    ensures
        attr_ok(Some("inline"@)),
        attr_ok(None),
{
    reveal_strlit("inline");
    let a = "inline"@;
    assert forall|i: int| 0 <= i < a.len() implies #[trigger] a[i] != ']' by {
        assert(i == 0 || i == 1 || i == 2 || i == 3 || i == 4 || i == 5);
    }
}

proof fn lemma_derived_attr_ok()
    ensures
        attr_ok(Some("automatically_derived"@)),
{
    reveal_strlit("automatically_derived");
    let a = "automatically_derived"@;
    assert forall|i: int| 0 <= i < a.len() implies #[trigger] a[i] != ']' by {
        assert(i == 0 || i == 1 || i == 2 || i == 3 || i == 4 || i == 5 || i == 6 || i == 7 || i
            == 8 || i == 9 || i == 10 || i == 11 || i == 12 || i == 13 || i == 14 || i == 15 || i
            == 16 || i == 17 || i == 18 || i == 19 || i == 20);
    }
}

proof fn lemma_allow_attr_ok()
    ensures
        attr_ok(Some("allow(non_camel_case_types)"@)),
{
    reveal_strlit("allow(non_camel_case_types)");
    let a = "allow(non_camel_case_types)"@;
    assert forall|i: int| 0 <= i < a.len() implies #[trigger] a[i] != ']' by {
        assert(i == 0 || i == 1 || i == 2 || i == 3 || i == 4 || i == 5 || i == 6 || i == 7 || i
            == 8 || i == 9 || i == 10 || i == 11 || i == 12 || i == 13 || i == 14 || i == 15 || i
            == 16 || i == 17 || i == 18 || i == 19 || i == 20 || i == 21 || i == 22 || i == 23 || i
            == 24 || i == 25 || i == 26);
    }
}

proof fn lemma_visit_method_ok(
    attr: Option<Seq<char>>,
    ident: Seq<char>,
    p: Seq<char>,
    bound: Seq<char>,
    ty: SpecTy,
    body: SpecBlock,
)
    requires
        attr_ok(attr),
        is_name(ident),
        is_name(p),
        is_name(bound),
        ty_ok(ty),
        block_ok(body),
    ensures
        method_ok(visit_method(attr, ident, p, bound, ty, body)),
{
    lemma_names();
    lemma_serde_ok(bound);
    lemma_path1_ok(p);
    lemma_path2_ok(p, "Error"@);
    lemma_result_ok(ty, path_ty(pair_path(p, "Error"@)));
}

proof fn lemma_deserialize_method_ok(
    attr: Option<Seq<char>>,
    p: Seq<char>,
    ty: SpecTy,
    body: SpecBlock,
)
    requires
        attr_ok(attr),
        is_name(p),
        ty_ok(ty),
        block_ok(body),
    ensures
        method_ok(deserialize_method(attr, p, ty, body)),
{
    lemma_names();
    lemma_serde_ok("Deserializer"@);
    lemma_path1_ok(p);
    assert(ty_ok(ref_ty(true, ident_ty(p))));
    lemma_path2_ok(p, "Error"@);
    lemma_result_ok(ty, path_ty(pair_path(p, "Error"@)));
}

proof fn lemma_visitor_impl_ok(
    g: SpecGenerics,
    trait_ident: Seq<char>,
    self_ty: SpecTy,
    value: SpecTy,
    m: SpecMethod,
)
    requires
        generics_ok(g),
        is_name(trait_ident),
        ty_ok(self_ty),
        ty_ok(value),
        method_ok(m),
    ensures
        decl_ok(visitor_impl(g, trait_ident, self_ty, value, m)),
{
    lemma_serde_ok(trait_ident);
    lemma_methods_ok(seq![m]);
    assert(impl_ok(visitor_impl(g, trait_ident, self_ty, value, m)->Impl_0));
}

proof fn lemma_visitor_ok(g: SpecGenerics)
    requires
        generics_ok(g),
    ensures
        decl_ok(visitor_decl(g)),
        ty_ok(visitor_ty(g)),
        expr_ok(visitor_expr(g)),
{
    lemma_names();
    lemma_path1_ok("__Visitor"@);
    lemma_path3_ok("std"@, "marker"@, "PhantomData"@);
    assert(tys_ok(Seq::<SpecTy>::empty()));
    if g.ty_params.len() > 0 {
        lemma_applied_ok("__Visitor"@, g);
        let tys = visitor_decl(g)->tys;
        assert forall|i: int| 0 <= i < tys.len() implies ty_ok(#[trigger] tys[i]) by {
            assert(ty_param_ok(g.ty_params[i]));
            lemma_path1_ok(g.ty_params[i].ident);
            lemma_tys_ok(seq![ident_ty(g.ty_params[i].ident)]);
            assert(tys[i] == phantom_data_ty(g.ty_params[i].ident));
        }
        lemma_tys_ok(tys);
        let args = visitor_expr(g)->Call_args;
        assert forall|i: int| 0 <= i < args.len() implies expr_ok(#[trigger] args[i]) by {
            assert(args[i] == SpecExpr::Path(global_path("std"@, "marker"@, "PhantomData"@)));
        }
        lemma_call_ok(ident_path("__Visitor"@), args);
    }
}

// Unit structs
// ------------

proof fn lemma_unit_struct_ok(ident: Seq<char>)
    requires
        is_name(ident),
    ensures
        expr_ok(unit_struct_expr(ident)),
{
    lemma_names();
    lemma_inline_ok();
    let none = no_generics();
    lemma_visitor_ok(none);
    lemma_path1_ok(ident);
    lemma_path1_ok("E"@);
    lemma_path1_ok("__Visitor"@);
    lemma_serde_ok("Error"@);
    lemma_serde_ok("Visitor"@);
    lemma_result_ok(ident_ty(ident), ident_ty("E"@));
    lemma_call1_ok("Ok"@, var(ident));
    lemma_block_ok(seq![], ok_expr(var(ident)));
    let a = unit_method(ident);
    assert(method_ok(a));
    lemma_end_ok();
    lemma_method0_ok("self"@, "visit_unit"@);
    let body = block(seq![end_stmt()], method0("self"@, "visit_unit"@));
    lemma_block_ok(seq![end_stmt()], method0("self"@, "visit_unit"@));
    lemma_visit_method_ok(
        Some("inline"@),
        "visit_seq"@,
        "V"@,
        "SeqVisitor"@,
        ident_ty(ident),
        body,
    );
    let b = unit_seq_method(ident);
    let methods = seq![a, b];
    assert forall|i: int| 0 <= i < methods.len() implies method_ok(#[trigger] methods[i]) by {
        assert(i == 0 || i == 1);
    }
    lemma_methods_ok(methods);
    let i = unit_impl(ident)->Impl_0;
    assert(impl_ok(i));
    let stmts = unit_struct_expr(ident)->Block_0.stmts;
    assert(decl_ok(visitor_decl(none)));
    assert forall|k: int| 0 <= k < stmts.len() implies stmt_ok(#[trigger] stmts[k]) by {
        assert(k == 0 || k == 1);
        assert(decl_ok(stmts[k]->Decl_0));
    }
    let args = seq![SpecExpr::Lit(SpecLit::Str(ident)), var("__Visitor"@)];
    assert forall|k: int| 0 <= k < args.len() implies expr_ok(#[trigger] args[k]) by {
        assert(k == 0 || k == 1);
    }
    lemma_method_call_ok("deserializer"@, "visit_named_unit"@, args);
    let e = unit_struct_expr(ident)->Block_0.expr->0;
    assert(e->MethodCall_args =~= args);
    lemma_block_ok(stmts, e);
}

// Sequences
// ---------

proof fn lemma_seq_let_ok(i: nat)
    ensures
        stmt_ok(seq_let(i)),
{
    lemma_names();
    lemma_field_is_name(i);
    lemma_path1_ok("Some"@);
    lemma_path1_ok("None"@);
    lemma_path1_ok("value"@);
    lemma_serde_ok("end_of_stream_error"@);
    let error = call0(serde_error_path("end_of_stream_error"@));
    lemma_call_ok(serde_error_path("end_of_stream_error"@), seq![]);
    lemma_call1_ok("Err"@, error);
    let back = SpecExpr::Return(Box::new(err_expr(error)));
    assert(expr_ok(back));
    lemma_semi_ok(back);
    let arms = seq_arms();
    assert(arm_ok(arms[0]));
    assert(arm_ok(arms[1]));
    assert forall|k: int| 0 <= k < arms.len() implies arm_ok(#[trigger] arms[k]) by {
        assert(k == 0 || k == 1);
    }
    lemma_method0_ok("visitor"@, "visit"@);
    lemma_match_ok(try_expr(method0("visitor"@, "visit"@)), arms);
}

proof fn lemma_seq_expr_ok(path: SpecPath, n: nat)
    requires
        path_ok(path),
    ensures
        expr_ok(seq_expr(path, n)),
{
    lemma_names();
    let stmts = seq_lets(n).push(end_stmt());
    assert forall|k: int| 0 <= k < stmts.len() implies stmt_ok(#[trigger] stmts[k]) by {
        if k < n {
            assert(stmts[k] == seq_let(k as nat));
            lemma_seq_let_ok(k as nat);
        } else {
            lemma_end_ok();
        }
    }
    let args = field_vars(n);
    assert forall|k: int| 0 <= k < args.len() implies expr_ok(#[trigger] args[k]) by {
        lemma_field_is_name(k as nat);
        lemma_path1_ok(field_ident(k as nat));
    }
    lemma_call_ok(path, args);
    lemma_call1_ok("Ok"@, SpecExpr::Call { path, args });
    lemma_block_ok(stmts, ok_expr(SpecExpr::Call { path, args }));
}

proof fn lemma_seq_visitor_ok(g: SpecGenerics, ty: SpecTy, path: SpecPath, n: nat)
    requires
        generics_ok(g),
        ty_ok(ty),
        path_ok(path),
    ensures
        forall|k: int|
            0 <= k < 2 ==> stmt_ok(#[trigger] seq_visitor(g, ty, path, n)[k]),
{
    lemma_names();
    lemma_visitor_ok(g);
    lemma_inline_ok();
    lemma_seq_expr_ok(path, n);
    lemma_block_ok(seq![], seq_expr(path, n));
    let body = block(seq![], seq_expr(path, n));
    lemma_visit_method_ok(None, "visit_seq"@, "__V"@, "SeqVisitor"@, ty, body);
    let m = seq_method(ty, path, n);
    lemma_visitor_impl_ok(g, "Visitor"@, visitor_ty(g), ty, m);
    let stmts = seq_visitor(g, ty, path, n);
    assert forall|k: int| 0 <= k < 2 implies stmt_ok(#[trigger] stmts[k]) by {
        assert(k == 0 || k == 1);
        assert(decl_ok(stmts[k]->Decl_0));
    }
}

/// Handing over the visitor to the deserializer.
proof fn lemma_request_ok(request: Seq<char>, ident: Seq<char>, g: SpecGenerics)
    requires
        is_name(request),
        generics_ok(g),
    ensures
        expr_ok(
            method2(
                "deserializer"@,
                request,
                SpecExpr::Lit(SpecLit::Str(ident)),
                visitor_expr(g),
            ),
        ),
{
    lemma_names();
    lemma_visitor_ok(g);
    let args = seq![SpecExpr::Lit(SpecLit::Str(ident)), visitor_expr(g)];
    assert forall|k: int| 0 <= k < args.len() implies expr_ok(#[trigger] args[k]) by {
        assert(k == 0 || k == 1);
    }
    lemma_method_call_ok("deserializer"@, request, args);
    assert(method2(
        "deserializer"@,
        request,
        SpecExpr::Lit(SpecLit::Str(ident)),
        visitor_expr(g),
    )->MethodCall_args =~= args);
}

// Keys
// ----

/// Literals that can be read back.
pub open spec fn all_lits(keys: Seq<SpecLit>) -> bool {
    forall|i: int| 0 <= i < keys.len() ==> lit_ok(#[trigger] keys[i])
}

proof fn lemma_key_arms_ok(keys: Seq<SpecLit>)
    requires
        all_lits(keys),
    ensures
        forall|k: int| 0 <= k < key_arms(keys).len() ==> arm_ok(#[trigger] key_arms(keys)[k]),
{
    lemma_names();
    let arms = key_arms(keys);
    assert forall|k: int| 0 <= k < arms.len() implies arm_ok(#[trigger] arms[k]) by {
        if k < keys.len() {
            assert(arms[k] == key_arm(keys[k], k as nat));
            lemma_field_is_name(k as nat);
            lemma_path2_ok("__Field"@, field_ident(k as nat));
            let e = SpecExpr::Path(field_path(k as nat));
            assert(expr_ok(e));
            lemma_call1_ok("Ok"@, e);
            lemma_block_ok(seq![], ok_expr(e));
            assert(lit_ok(keys[k]));
        } else {
            assert(arms[k] == unknown_key_arm());
            lemma_path1_ok("value"@);
            lemma_serde_ok("unknown_field_error"@);
            let args = seq![var("value"@)];
            lemma_call_ok(serde_error_path("unknown_field_error"@), args);
            lemma_call1_ok(
                "Err"@,
                SpecExpr::Call { path: serde_error_path("unknown_field_error"@), args },
            );
        }
    }
}

proof fn lemma_field_body_ok(keys: Seq<SpecLit>)
    requires
        all_lits(keys),
    ensures
        block_ok(field_body(keys)),
{
    lemma_names();
    lemma_inline_ok();
    let none = no_generics();
    lemma_key_arms_ok(keys);
    lemma_path1_ok("value"@);
    lemma_path1_ok("str"@);
    lemma_path1_ok("E"@);
    lemma_path1_ok("__Field"@);
    lemma_path1_ok("__FieldVisitor"@);
    lemma_serde_ok("Error"@);
    lemma_result_ok(ident_ty("__Field"@), ident_ty("E"@));
    lemma_match_ok(var("value"@), key_arms(keys));
    let e = match_expr(var("value"@), key_arms(keys));
    lemma_block_ok(seq![], e);
    assert(ty_ok(ref_ty(false, ident_ty("str"@))));
    let m = str_method(keys);
    assert(method_ok(m));
    lemma_visitor_impl_ok(
        none,
        "Visitor"@,
        ident_ty("__FieldVisitor"@),
        ident_ty("__Field"@),
        m,
    );
    let stmts = field_body(keys).stmts;
    assert(tys_ok(Seq::<SpecTy>::empty()));
    assert forall|k: int| 0 <= k < stmts.len() implies stmt_ok(#[trigger] stmts[k]) by {
        assert(k == 0 || k == 1);
        assert(decl_ok(stmts[k]->Decl_0));
    }
    lemma_method_call_ok("deserializer"@, "visit"@, seq![var("__FieldVisitor"@)]);
    lemma_block_ok(stmts, method1("deserializer"@, "visit"@, var("__FieldVisitor"@)));
}

proof fn lemma_field_visitor_ok(keys: Seq<SpecLit>)
    requires
        all_lits(keys),
    ensures
        forall|k: int| 0 <= k < 2 ==> stmt_ok(#[trigger] field_visitor(keys)[k]),
{
    lemma_names();
    lemma_inline_ok();
    lemma_allow_attr_ok();
    lemma_field_body_ok(keys);
    lemma_path1_ok("__Field"@);
    lemma_serde_ok("Deserialize"@);
    lemma_deserialize_method_ok(
        Some("inline"@),
        "D"@,
        ident_ty("__Field"@),
        field_body(keys),
    );
    let i = field_impl(keys)->Impl_0;
    lemma_methods_ok(i.methods);
    assert(impl_ok(i));
    let variants = field_enum(keys.len())->variants;
    assert forall|k: int| 0 <= k < variants.len() implies is_name(#[trigger] variants[k]) by {
        lemma_field_is_name(k as nat);
    }
    let stmts = field_visitor(keys);
    assert forall|k: int| 0 <= k < 2 implies stmt_ok(#[trigger] stmts[k]) by {
        assert(k == 0 || k == 1);
        assert(decl_ok(stmts[k]->Decl_0));
    }
}

// Maps
// ----

proof fn lemma_map_loop_ok(n: nat)
    ensures
        stmt_ok(SpecStmt::Expr(map_loop(n))),
{
    lemma_names();
    let arms = value_arms(n);
    assert forall|k: int| 0 <= k < arms.len() implies arm_ok(#[trigger] arms[k]) by {
        let i = k as nat;
        assert(arms[k] == value_arm(i));
        lemma_field_is_name(i);
        lemma_path2_ok("__Field"@, field_ident(i));
        lemma_method0_ok("visitor"@, "visit_value"@);
        let e = try_expr(method0("visitor"@, "visit_value"@));
        lemma_call1_ok("Some"@, e);
        let assign = SpecExpr::Assign { ident: field_ident(i), expr: Box::new(some_expr(e)) };
        assert(expr_ok(assign));
        lemma_semi_ok(assign);
    }
    lemma_path1_ok("key"@);
    lemma_path1_ok("Some"@);
    lemma_match_ok(var("key"@), arms);
    lemma_block_ok(seq![], match_expr(var("key"@), arms));
    lemma_method0_ok("visitor"@, "visit_key"@);
    assert(expr_ok(map_loop(n)));
}

proof fn lemma_extract_ok(field: SpecField, i: nat)
    requires
        lit_ok(field_key(field)),
    ensures
        stmt_ok(extract_let(field, i)),
{
    lemma_names();
    lemma_field_is_name(i);
    let x = field_ident(i);
    lemma_path1_ok(x);
    lemma_path1_ok("Some"@);
    lemma_path1_ok("None"@);
    if field.default {
        lemma_serde_ok("Error"@);
        lemma_call_ok(default_path(), seq![]);
    } else {
        let key = SpecExpr::Lit(field_key(field));
        assert(expr_ok(key));
        lemma_method_call_ok("visitor"@, "missing_field"@, seq![key]);
    }
    let arms = seq![
        SpecArm { pat: bind_pat("Some"@, x), body: var(x) },
        SpecArm { pat: none_pat(), body: missing_expr(field) },
    ];
    assert(arm_ok(arms[0]));
    assert(arm_ok(arms[1]));
    assert forall|k: int| 0 <= k < arms.len() implies arm_ok(#[trigger] arms[k]) by {
        assert(k == 0 || k == 1);
    }
    lemma_match_ok(var(x), arms);
}

proof fn lemma_map_expr_ok(path: SpecPath, fields: Seq<SpecField>)
    requires
        path_ok(path),
        fields_ok(fields),
        all_named(fields),
    ensures
        expr_ok(map_expr(path, fields)),
{
    lemma_names();
    let n = fields.len();
    let stmts = map_expr(path, fields)->Block_0.stmts;
    assert forall|k: int| 0 <= k < stmts.len() implies stmt_ok(#[trigger] stmts[k]) by {
        if k < n {
            assert(stmts[k] == map_let(k as nat));
            lemma_field_is_name(k as nat);
            lemma_path1_ok("None"@);
        } else if k == n {
            lemma_map_loop_ok(n);
        } else if k <= n + n {
            let i = k - n - 1;
            assert(stmts[k] == extract_let(fields[i], i as nat));
            assert(field_ok(fields[i]));
            assert(fields[i].name is Some);
            lemma_extract_ok(fields[i], i as nat);
        } else {
            lemma_end_ok();
        }
    }
    let inits = field_inits(fields);
    assert forall|k: int| 0 <= k < inits.len() implies init_ok(#[trigger] inits[k]) by {
        assert(field_ok(fields[k]));
        assert(fields[k].name is Some);
        lemma_field_is_name(k as nat);
        lemma_path1_ok(field_ident(k as nat));
    }
    lemma_inits_ok(inits);
    let made = SpecExpr::Struct { path, fields: inits };
    assert(expr_ok(made));
    lemma_call1_ok("Ok"@, made);
    lemma_block_ok(stmts, ok_expr(made));
}

proof fn lemma_map_visitor_ok(
    attr: Option<Seq<char>>,
    g: SpecGenerics,
    ty: SpecTy,
    path: SpecPath,
    fields: Seq<SpecField>,
)
    requires
        attr_ok(attr),
        generics_ok(g),
        ty_ok(ty),
        path_ok(path),
        fields_ok(fields),
        all_named(fields),
    ensures
        ({
            let stmts = map_visitor(attr, g, ty, path, fields);
            forall|k: int| 0 <= k < stmts.len() ==> stmt_ok(#[trigger] stmts[k])
        }),
{
    lemma_names();
    let keys = field_keys(fields);
    assert forall|k: int| 0 <= k < keys.len() implies lit_ok(#[trigger] keys[k]) by {
        assert(field_ok(fields[k]));
        assert(fields[k].name is Some);
    }
    lemma_field_visitor_ok(keys);
    lemma_visitor_ok(g);
    lemma_map_expr_ok(path, fields);
    lemma_block_ok(seq![], map_expr(path, fields));
    let body = block(seq![], map_expr(path, fields));
    lemma_visit_method_ok(attr, "visit_map"@, "__V"@, "MapVisitor"@, ty, body);
    let m = map_method(attr, ty, path, fields);
    lemma_visitor_impl_ok(g, "Visitor"@, visitor_ty(g), ty, m);
    let stmts = map_visitor(attr, g, ty, path, fields);
    assert forall|k: int| 0 <= k < stmts.len() implies stmt_ok(#[trigger] stmts[k]) by {
        if k < 2 {
            assert(stmts[k] == field_visitor(keys)[k]);
        } else {
            assert(k == 2 || k == 3);
            assert(decl_ok(stmts[k]->Decl_0));
        }
    }
}

// Enums
// -----

proof fn lemma_variant_ok(ident: Seq<char>, g: SpecGenerics, ty: SpecTy, variant: SpecVariant)
    requires
        is_name(ident),
        generics_ok(g),
        ty_ok(ty),
        variant_name_ok(variant),
        variant_ok(variant),
    ensures
        expr_ok(variant_expr(ident, g, ty, variant)),
        !(variant_expr(ident, g, ty, variant) is WhileLet),
{
    lemma_names();
    lemma_inline_ok();
    lemma_visitor_ok(g);
    let path = pair_path(ident, variant.name);
    lemma_path2_ok(ident, variant.name);
    match variant.kind {
        SpecVariantKind::Tuple(n) => if n == 0 {
            let stmts = unit_variant_expr(path)->Block_0.stmts;
            lemma_method0_ok("visitor"@, "visit_unit"@);
            assert(stmt_ok(stmts[0]));
            assert(expr_ok(SpecExpr::Path(path)));
            lemma_call1_ok("Ok"@, SpecExpr::Path(path));
            lemma_block_ok(stmts, ok_expr(SpecExpr::Path(path)));
        } else {
            lemma_seq_visitor_ok(g, ty, path, n);
            lemma_method_call_ok("visitor"@, "visit_seq"@, seq![visitor_expr(g)]);
            lemma_block_ok(
                seq_visitor(g, ty, path, n),
                method1("visitor"@, "visit_seq"@, visitor_expr(g)),
            );
        },
        SpecVariantKind::Struct(fields) => {
            lemma_map_visitor_ok(None, g, ty, path, fields);
            lemma_method_call_ok("visitor"@, "visit_map"@, seq![visitor_expr(g)]);
            lemma_block_ok(
                map_visitor(None, g, ty, path, fields),
                method1("visitor"@, "visit_map"@, visitor_expr(g)),
            );
        },
    }
}

proof fn lemma_enum_expr_ok(
    ident: Seq<char>,
    g: SpecGenerics,
    ty: SpecTy,
    variants: Seq<SpecVariant>,
)
    requires
        is_name(ident),
        generics_ok(g),
        ty_ok(ty),
        forall|i: int| 0 <= i < variants.len() ==> #[trigger] variant_ok(variants[i]),
        forall|i: int| 0 <= i < variants.len() ==> #[trigger] variant_name_ok(variants[i]),
    ensures
        expr_ok(item_enum_expr(ident, g, ty, variants)),
{
    lemma_names();
    lemma_inline_ok();
    lemma_visitor_ok(g);
    let arms = variant_arms(ident, g, ty, variants);
    assert forall|k: int| 0 <= k < arms.len() implies arm_ok(#[trigger] arms[k]) by {
        assert(variant_ok(variants[k]));
        assert(variant_name_ok(variants[k]));
        lemma_variant_ok(ident, g, ty, variants[k]);
        lemma_block_ok(seq![], variant_expr(ident, g, ty, variants[k]));
        lemma_field_is_name(k as nat);
        lemma_path2_ok("__Field"@, field_ident(k as nat));
    }
    lemma_method0_ok("visitor"@, "visit_variant"@);
    let e = match_expr(try_expr(method0("visitor"@, "visit_variant"@)), arms);
    lemma_match_ok(try_expr(method0("visitor"@, "visit_variant"@)), arms);
    lemma_block_ok(seq![], e);
    lemma_visit_method_ok(None, "visit"@, "__V"@, "VariantVisitor"@, ty, block(seq![], e));
    let m = enum_method(ident, g, ty, variants);
    lemma_visitor_impl_ok(g, "EnumVisitor"@, visitor_ty(g), ty, m);
    let keys = variant_keys(variants);
    lemma_field_visitor_ok(keys);
    let stmts = item_enum_expr(ident, g, ty, variants)->Block_0.stmts;
    assert forall|k: int| 0 <= k < stmts.len() implies stmt_ok(#[trigger] stmts[k]) by {
        if k < 2 {
            assert(stmts[k] == field_visitor(keys)[k]);
        } else {
            assert(k == 2 || k == 3);
            assert(decl_ok(stmts[k]->Decl_0));
        }
    }
    lemma_request_ok("visit_enum"@, ident, g);
    lemma_block_ok(stmts, item_enum_expr(ident, g, ty, variants)->Block_0.expr->0);
}

// Items
// -----

proof fn lemma_body_ok(item: SpecItem, g: SpecGenerics, ty: SpecTy)
    requires
        derivable(item),
        item_names_ok(item),
        generics_ok(g),
        ty_ok(ty),
    ensures
        expr_ok(body_expr(item, g, ty)),
        !(body_expr(item, g, ty) is WhileLet),
{
    lemma_names();
    lemma_inline_ok();
    lemma_path1_ok(item.ident);
    let path = ident_path(item.ident);
    match item.node {
        SpecItemKind::Struct(fields, _) => if fields.len() == 0 {
            lemma_unit_struct_ok(item.ident);
        } else if fields[0].name is None {
            let n = fields.len();
            lemma_seq_visitor_ok(g, ty, path, n);
            lemma_request_ok("visit_named_seq"@, item.ident, g);
            let b = tuple_struct_expr(item.ident, g, ty, n)->Block_0;
            lemma_block_ok(b.stmts, b.expr->0);
        } else {
            assert(all_named(fields));
            lemma_map_visitor_ok(Some("inline"@), g, ty, path, fields);
            lemma_request_ok("visit_named_map"@, item.ident, g);
            let b = struct_expr(item.ident, g, ty, fields)->Block_0;
            lemma_block_ok(b.stmts, b.expr->0);
        },
        SpecItemKind::Enum(variants, _) => {
            lemma_enum_expr_ok(item.ident, g, ty, variants);
        },
        SpecItemKind::Other => {},
    }
}

pub proof fn lemma_derived_ok(item: SpecItem)
    requires
        derivable(item),
        item_names_ok(item),
    ensures
        decl_ok(SpecDecl::Impl(derived_impl(item))),
{
    lemma_names();
    lemma_inline_ok();
    lemma_derived_attr_ok();
    let i = derived_impl(item);
    let g = item_generics(item);
    lemma_impl_generics_ok(g);
    lemma_applied_ok(item.ident, i.generics);
    lemma_body_ok(item, i.generics, i.self_ty);
    let e = body_expr(item, i.generics, i.self_ty);
    lemma_block_ok(seq![], e);
    lemma_deserialize_method_ok(None, "__D"@, i.self_ty, block(seq![], e));
    lemma_methods_ok(i.methods);
    lemma_serde_ok("Deserialize"@);
    assert(impl_ok(i));
}

} // verus!
