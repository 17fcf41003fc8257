//! That derived code keeps the rules of Rust: proofs, part by part.
use vstd::prelude::*;

use crate::ast::{
    all_unnamed, derivable, field_key, field_keys, SpecField, SpecItem, SpecItemKind, SpecVariant,
    SpecVariantKind,
};
use crate::code::{
    SpecArm, SpecBlock, SpecDecl, SpecExpr, SpecGenerics, SpecLit, SpecMethod, SpecPat, SpecPath,
    SpecStmt, SpecTraitImpl, SpecTy,
};
use crate::meaning::block_decls;
use crate::names::{field_ident, law_field_idents_distinct};
use crate::rules::{
    arity, arm_known, behind, block_known, bound, callee_known, changeable, clear_names, covers,
    decl_known, declared, declares, distinct_types, expr_known, hands_over, has_lifetime,
    has_members, has_param, impl_known, impl_yields, implements_serde, in_enum, inlined,
    is_applied, is_param_ty, is_phantom_ty, is_result, is_variant_arm, item_scope, keeps_rules,
    last_enum, let_vars, makes_visitor, method_known, method_vars, names_variant, no_params,
    path_known, stmt_known, ty_known, type_decl, uses_params, Scope,
};
use crate::shape::{
    applied_ty, body_expr, derived_impl, end_stmt, enum_method, extract_let, extract_lets,
    field_body, field_enum, field_impl, field_inits, field_path, field_vars, field_visitor,
    impl_generics, item_enum_expr, item_generics, key_arm, key_arms, map_expr, map_let, map_lets,
    map_loop, map_method, map_visitor, missing_expr, none_pat, seq_arms, seq_expr, seq_let,
    seq_lets, seq_method, seq_visitor, str_method, unit_impl, unit_method, unit_seq_method,
    unit_struct_expr, unit_variant_expr, unknown_key_arm, value_arm, value_arms, variant_arms,
    variant_expr, variant_keys, visit_method, visitor_decl, visitor_expr, visitor_impl, visitor_ty,
};
use crate::tree::{
    bind_pat, block, block_expr, call0, call1, default_path, err_expr, global_path, ident_path,
    ident_ty, match_expr, method0, method1, method2, no_generics, ok_expr, pair_path, path_ty,
    phantom_data_ty, ref_ty, result_ty, semi_block_expr, serde_error_path, some_expr, try_expr,
    var,
};
use crate::visitors::all_decls;

verus! {

// Names
// -----

/// The names in derived code that must not be the same are not.
pub proof fn lemma_rule_names()
    ensures
        "__Visitor"@ != "__Field"@,
        "__Visitor"@ != "__FieldVisitor"@,
        "__Field"@ != "__FieldVisitor"@,
        "__Visitor"@ != "__V"@,
        "__Visitor"@ != "__D"@,
        "__Visitor"@ != "E"@,
        "__Visitor"@ != "V"@,
        "__Visitor"@ != "str"@,
        "__Field"@ != "str"@,
        "__FieldVisitor"@ != "str"@,
        "__Field"@ != "D"@,
        "__Field"@ != "E"@,
        "__FieldVisitor"@ != "D"@,
        "__FieldVisitor"@ != "E"@,
        "E"@ != "str"@,
        "deserialize"@ != "visit_seq"@,
        "deserialize"@ != "visit_map"@,
        "deserialize"@ != "visit"@,
        "deserialize"@ != "visit_unit"@,
        "deserialize"@ != "visit_str"@,
        "visit_seq"@ != "visit_map"@,
        "visit_seq"@ != "visit"@,
        "visit_seq"@ != "visit_unit"@,
        "visit_seq"@ != "visit_str"@,
        "visit_map"@ != "visit"@,
        "visit_map"@ != "visit_unit"@,
        "visit_map"@ != "visit_str"@,
        "visit"@ != "visit_unit"@,
        "visit"@ != "visit_str"@,
        "visit_unit"@ != "visit_str"@,
        "Deserializer"@ != "Error"@,
        "SeqVisitor"@ != "Error"@,
        "MapVisitor"@ != "Error"@,
        "VariantVisitor"@ != "Error"@,
        "Deserialize"@ != "EnumVisitor"@,
        "Deserialize"@ != "Visitor"@,
        "EnumVisitor"@ != "Visitor"@,
        "self"@ != "visitor"@,
        "visitor"@ != "key"@,
        "visitor"@.len() > 0 && "visitor"@[0] != '_',
        "key"@.len() > 0 && "key"@[0] != '_',
{
    reveal_strlit("__Visitor");
    reveal_strlit("__Field");
    reveal_strlit("__FieldVisitor");
    reveal_strlit("__V");
    reveal_strlit("__D");
    reveal_strlit("E");
    reveal_strlit("V");
    reveal_strlit("D");
    reveal_strlit("str");
    reveal_strlit("deserialize");
    reveal_strlit("visit_seq");
    reveal_strlit("visit_map");
    reveal_strlit("visit");
    reveal_strlit("visit_unit");
    reveal_strlit("visit_str");
    reveal_strlit("Deserializer");
    reveal_strlit("SeqVisitor");
    reveal_strlit("MapVisitor");
    reveal_strlit("VariantVisitor");
    reveal_strlit("Error");
    reveal_strlit("Deserialize");
    reveal_strlit("EnumVisitor");
    reveal_strlit("Visitor");
    reveal_strlit("self");
    reveal_strlit("visitor");
    reveal_strlit("key");
    assert("__Visitor"@.len() == 9);
    assert("__Field"@.len() == 7);
    assert("__FieldVisitor"@.len() == 14);
    assert("__V"@.len() == 3 && "__V"@[0] == '_');
    assert("__D"@.len() == 3);
    assert("str"@.len() == 3 && "str"@[0] == 's');
    assert("E"@.len() == 1);
    assert("V"@.len() == 1);
    assert("D"@.len() == 1);
    assert("visit_seq"@.len() == 9 && "visit_seq"@[7] == 'e');
    assert("visit_map"@.len() == 9 && "visit_map"@[6] == 'm');
    assert("visit_seq"@[6] == 's');
    assert("visit_str"@.len() == 9 && "visit_str"@[6] == 's' && "visit_str"@[7] == 't');
    assert("visit_unit"@.len() == 10);
    assert("visit"@.len() == 5);
    assert("deserialize"@.len() == 11);
    assert("Deserializer"@.len() == 12);
    assert("SeqVisitor"@.len() == 10);
    assert("MapVisitor"@.len() == 10);
    assert("VariantVisitor"@.len() == 14);
    assert("Error"@.len() == 5);
    assert("Deserialize"@.len() == 11 && "Deserialize"@[0] == 'D');
    assert("EnumVisitor"@.len() == 11 && "EnumVisitor"@[0] == 'E');
    assert("Visitor"@.len() == 7);
    assert("self"@.len() == 4);
    assert("visitor"@.len() == 7 && "visitor"@[0] == 'v');
    assert("key"@.len() == 3 && "key"@[0] == 'k');
}

/// The names of fields start with an underscore.
proof fn lemma_field_name(i: nat)
    ensures
        field_ident(i).len() > 0,
        field_ident(i)[0] == '_',
{
    reveal_strlit("__field");
    assert("__field"@.len() == 7 && "__field"@[0] == '_');
    assert(field_ident(i)[0] == "__field"@[0]);
}

// Variables
// ---------

/// No variable has this name.
pub open spec fn not_among(vars: Seq<(Seq<char>, bool)>, x: Seq<char>) -> bool {
    forall|l: int| 0 <= l < vars.len() ==> (#[trigger] vars[l]).0 != x
}

proof fn lemma_changeable(a: Seq<(Seq<char>, bool)>, b: Seq<(Seq<char>, bool)>, x: Seq<char>)
    requires
        changeable(a, x),
        not_among(b, x),
    ensures
        changeable(a + b, x),
{
    let j = choose|j: int|
        {
            &&& 0 <= j < a.len()
            &&& #[trigger] a[j] == (x, true)
            &&& forall|l: int| j < l < a.len() ==> (#[trigger] a[l]).0 != x
        };
    let vars = a + b;
    assert(vars[j] == (x, true));
    assert forall|l: int| j < l < vars.len() implies (#[trigger] vars[l]).0 != x by {
        if l < a.len() {
            assert(a[l].0 != x);
        } else {
            assert(b[l - a.len()].0 != x);
        }
    }
}

proof fn lemma_changeable_push(vars: Seq<(Seq<char>, bool)>, v: (Seq<char>, bool), x: Seq<char>)
    requires
        changeable(vars, x),
        v.0 != x,
    ensures
        changeable(vars.push(v), x),
{
    assert(vars.push(v) =~= vars + seq![v]);
    lemma_changeable(vars, seq![v], x);
}

proof fn lemma_declared(a: Seq<(Seq<char>, bool)>, b: Seq<(Seq<char>, bool)>, x: Seq<char>)
    requires
        declared(b, x),
    ensures
        declared(a + b, x),
{
    let j = choose|j: int| 0 <= j < b.len() && (#[trigger] b[j]).0 == x;
    assert((a + b)[j + a.len()].0 == x);
}

proof fn lemma_declared_push(vars: Seq<(Seq<char>, bool)>, v: (Seq<char>, bool))
    ensures
        declared(vars.push(v), v.0),
{
    assert(vars.push(v)[vars.len() as int].0 == v.0);
}

/// Items declare no variables.
proof fn lemma_no_lets(stmts: Seq<SpecStmt>)
    requires
        all_decls(stmts),
    ensures
        let_vars(stmts) == Seq::<(Seq<char>, bool)>::empty(),
    decreases stmts.len(),
{
    if stmts.len() > 0 {
        assert(stmts.last() is Decl);
        assert forall|i: int| 0 <= i < stmts.drop_last().len() implies (
        #[trigger] stmts.drop_last()[i]) is Decl by {
            assert(stmts[i] is Decl);
        }
        lemma_no_lets(stmts.drop_last());
    }
}

/// The statements declare variables with the names of fields only.
pub open spec fn lets_fields(stmts: Seq<SpecStmt>) -> bool {
    forall|i: int|
        0 <= i < stmts.len() ==> (#[trigger] stmts[i] matches SpecStmt::Let { ident, .. }
            ==> ident.len() > 0 && ident[0] == '_')
}

proof fn lemma_let_names(stmts: Seq<SpecStmt>, x: Seq<char>)
    requires
        lets_fields(stmts),
        x.len() > 0,
        x[0] != '_',
    ensures
        not_among(let_vars(stmts), x),
    decreases stmts.len(),
{
    if stmts.len() > 0 {
        let rest = stmts.drop_last();
        assert forall|i: int| 0 <= i < rest.len() implies (
        #[trigger] rest[i] matches SpecStmt::Let { ident, .. } ==> ident.len() > 0 && ident[0]
            == '_') by {
            assert(rest[i] == stmts[i]);
        }
        lemma_let_names(rest, x);
        let last = stmts[stmts.len() - 1];
        assert(last == stmts.last());
    }
}

proof fn lemma_let_declares(stmts: Seq<SpecStmt>, k: int)
    requires
        0 <= k < stmts.len(),
        stmts[k] is Let,
    ensures
        declared(let_vars(stmts), stmts[k]->ident),
    decreases stmts.len(),
{
    let rest = stmts.drop_last();
    if k == stmts.len() - 1 {
        lemma_declared_push(let_vars(rest), (stmts[k]->ident, stmts[k]->mutable));
    } else {
        assert(rest[k] == stmts[k]);
        lemma_let_declares(rest, k);
        if let SpecStmt::Let { mutable, ident, .. } = stmts.last() {
            let vars = let_vars(rest);
            let j = choose|j: int|
                0 <= j < vars.len() && (#[trigger] vars[j]).0 == stmts[k]->ident;
            assert(vars.push((ident, mutable))[j].0 == stmts[k]->ident);
        }
    }
}

// Declarations
// ------------

/// Two declarations more.
proof fn lemma_two_decls(outer: Seq<SpecDecl>, a: SpecDecl, b: SpecDecl, x: Seq<char>)
    ensures
        type_decl(outer + seq![a, b], x) == (if declares(b) == Some(x) {
            Some(b)
        } else if declares(a) == Some(x) {
            Some(a)
        } else {
            type_decl(outer, x)
        }),
        last_enum(outer + seq![a, b]) == (if b is Enum {
            Some(b)
        } else if a is Enum {
            Some(a)
        } else {
            last_enum(outer)
        }),
        block_decls(seq![SpecStmt::Decl(a), SpecStmt::Decl(b)]) == seq![a, b],
        all_decls(seq![SpecStmt::Decl(a), SpecStmt::Decl(b)]),
{
    let decls = outer + seq![a, b];
    assert(decls.drop_last() =~= outer.push(a));
    assert(outer.push(a).drop_last() =~= outer);
    assert(type_decl(decls.drop_last(), x) == type_decl(outer.push(a), x));
    assert(last_enum(decls.drop_last()) == last_enum(outer.push(a)));
    let stmts = seq![SpecStmt::Decl(a), SpecStmt::Decl(b)];
    assert(stmts.drop_last() =~= seq![SpecStmt::Decl(a)]);
    assert(seq![SpecStmt::Decl(a)].drop_last() =~= seq![]);
    assert(block_decls(Seq::<SpecStmt>::empty()) =~= seq![]);
    assert(block_decls(seq![SpecStmt::Decl(a)]) =~= seq![a]);
    assert(block_decls(stmts) =~= seq![a, b]);
}

/// Four declarations more.
proof fn lemma_four_decls(
    outer: Seq<SpecDecl>,
    a: SpecDecl,
    b: SpecDecl,
    c: SpecDecl,
    d: SpecDecl,
    x: Seq<char>,
)
    ensures
        outer + seq![a, b, c, d] == (outer + seq![a, b]) + seq![c, d],
        ({
            let stmts = seq![SpecStmt::Decl(a), SpecStmt::Decl(b)] + seq![
                SpecStmt::Decl(c),
                SpecStmt::Decl(d),
            ];
            &&& block_decls(stmts) == seq![a, b, c, d]
            &&& all_decls(stmts)
        }),
{
    assert(outer + seq![a, b, c, d] =~= (outer + seq![a, b]) + seq![c, d]);
    let two = seq![SpecStmt::Decl(a), SpecStmt::Decl(b)];
    let stmts = two + seq![SpecStmt::Decl(c), SpecStmt::Decl(d)];
    lemma_two_decls(outer, a, b, x);
    assert(stmts.drop_last() =~= two.push(SpecStmt::Decl(c)));
    assert(two.push(SpecStmt::Decl(c)).drop_last() =~= two);
    assert(block_decls(two.push(SpecStmt::Decl(c))) =~= seq![a, b, c]);
    assert(block_decls(stmts) =~= seq![a, b, c, d]);
}

// Expressions
// -----------

proof fn lemma_known_var(sc: Scope, x: Seq<char>)
    requires
        declared(sc.vars, x),
    ensures
        expr_known(sc, var(x)),
{
}

proof fn lemma_known_call1(sc: Scope, x: Seq<char>, e: SpecExpr)
    requires
        x == "Ok"@ || x == "Err"@ || x == "Some"@,
        expr_known(sc, e),
    ensures
        expr_known(sc, call1(ident_path(x), e)),
{
}

proof fn lemma_known_method0(sc: Scope, x: Seq<char>, ident: Seq<char>)
    requires
        changeable(sc.vars, x),
    ensures
        expr_known(sc, method0(x, ident)),
        expr_known(sc, try_expr(method0(x, ident))),
{
    assert(expr_known(sc, method0(x, ident)));
}

proof fn lemma_plain_block(sc: Scope, e: SpecExpr)
    requires
        expr_known(sc, e),
    ensures
        block_known(sc, block(seq![], e)),
        expr_known(sc, block_expr(seq![], e)),
{
    let b = block(seq![], e);
    let decls = block_decls(b.stmts);
    assert(sc.decls + decls =~= sc.decls);
    assert(sc.vars + let_vars(b.stmts) =~= sc.vars);
    assert(behind(sc, decls, b.stmts) == sc);
    assert(block_known(sc, b));
}

proof fn lemma_semi_block(sc: Scope, e: SpecExpr)
    requires
        expr_known(sc, e),
    ensures
        expr_known(sc, semi_block_expr(e)),
{
    let b = semi_block_expr(e)->Block_0;
    assert(b.stmts.drop_last() =~= seq![]);
    assert(block_decls(Seq::<SpecStmt>::empty()) =~= seq![]);
    let decls = block_decls(b.stmts);
    assert(decls =~= seq![]);
    assert(sc.decls + decls =~= sc.decls);
    assert(b.stmts.take(0) =~= seq![]);
    assert(sc.vars + let_vars(b.stmts.take(0)) =~= sc.vars);
    assert(behind(sc, decls, b.stmts.take(0)) == sc);
    assert(stmt_known(sc, SpecStmt::Semi(e)));
    assert(block_known(sc, *b));
}

/// A block that declares items.
proof fn lemma_known_items(sc: Scope, stmts: Seq<SpecStmt>, decls: Seq<SpecDecl>, e: SpecExpr)
    requires
        all_decls(stmts),
        decls == block_decls(stmts),
        distinct_types(decls),
        ({
            let inner = Scope { decls: sc.decls + decls, ..sc };
            &&& forall|k: int|
                0 <= k < stmts.len() ==> decl_known(inner, (#[trigger] stmts[k])->Decl_0)
            &&& expr_known(inner, e)
        }),
    ensures
        block_known(sc, block(stmts, e)),
        expr_known(sc, block_expr(stmts, e)),
{
    let b = block(stmts, e);
    let inner = Scope { decls: sc.decls + decls, ..sc };
    assert forall|k: int| 0 <= k < b.stmts.len() implies stmt_known(
        behind(sc, decls, b.stmts.take(k)),
        #[trigger] b.stmts[k],
    ) by {
        let before = stmts.take(k);
        assert forall|i: int| 0 <= i < before.len() implies (#[trigger] before[i]) is Decl by {
            assert(stmts[i] is Decl);
        }
        lemma_no_lets(before);
        assert(sc.vars + let_vars(before) =~= sc.vars);
        assert(behind(sc, decls, before) == inner);
        assert(stmts[k] is Decl);
        assert(decl_known(inner, stmts[k]->Decl_0));
    }
    lemma_no_lets(stmts);
    assert(sc.vars + let_vars(stmts) =~= sc.vars);
    assert(behind(sc, decls, stmts) == inner);
    assert(block_known(sc, b));
}

// Types
// -----

/// The item's type can be named: nothing hides it.
pub open spec fn names_item(sc: Scope) -> bool {
    &&& sc.item_ty == applied_ty(sc.item, sc.generics)
    &&& !has_param(sc.generics, sc.item)
    &&& !has_param(sc.generics, "__V"@)
    &&& !has_param(sc.generics, "__Visitor"@)
    &&& sc.item != "__Visitor"@
    &&& type_decl(sc.decls, sc.item) is None
}

proof fn lemma_applied(x: Seq<char>, g: SpecGenerics)
    ensures
        is_applied(applied_ty(x, g), x, g),
{
}

/// A declared type, applied to the parameters.
proof fn lemma_applied_known(sc: Scope, g: SpecGenerics, p: Option<Seq<char>>, x: Seq<char>)
    requires
        arity(sc, g, p, ident_path(x)) == Some((g.lifetimes.len(), g.ty_params.len())),
    ensures
        ty_known(sc, g, p, applied_ty(x, g)),
{
    let ty = applied_ty(x, g);
    let lifetimes = ty->lifetimes;
    let tys = ty->tys;
    assert forall|i: int| 0 <= i < lifetimes.len() implies has_lifetime(
        g,
        #[trigger] lifetimes[i],
    ) by {
        assert(g.lifetimes[i].name == lifetimes[i]);
    }
    assert forall|i: int| 0 <= i < tys.len() implies ty_known(sc, g, p, #[trigger] tys[i]) by {
        assert(has_param(g, g.ty_params[i].ident));
        assert(tys[i] == ident_ty(g.ty_params[i].ident));
    }
}

proof fn lemma_item_ty(sc: Scope, p: Option<Seq<char>>)
    requires
        names_item(sc),
        p != Some(sc.item),
    ensures
        ty_known(sc, sc.generics, p, sc.item_ty),
{
    lemma_applied_known(sc, sc.generics, p, sc.item);
}

/// The output of a method.
proof fn lemma_output_ty(sc: Scope, g: SpecGenerics, p: Seq<char>, ty: SpecTy)
    requires
        ty_known(sc, g, Some(p), ty),
    ensures
        ty_known(sc, g, Some(p), result_ty(ty, path_ty(pair_path(p, "Error"@)))),
        ty_known(sc, g, Some(p), result_ty(ty, ident_ty(p))),
        is_result(result_ty(ty, path_ty(pair_path(p, "Error"@))), ty, p, false),
        is_result(result_ty(ty, ident_ty(p)), ty, p, true),
        ty_known(sc, g, Some(p), ident_ty(p)),
        ty_known(sc, g, Some(p), ref_ty(true, ident_ty(p))),
{
    let error = path_ty(pair_path(p, "Error"@));
    assert(ty_known(sc, g, Some(p), error));
    assert(ty_known(sc, g, Some(p), ident_ty(p)));
    let a = result_ty(ty, error);
    assert forall|i: int| 0 <= i < a->tys.len() implies ty_known(
        sc,
        g,
        Some(p),
        #[trigger] a->tys[i],
    ) by {
        assert(i == 0 || i == 1);
    }
    let b = result_ty(ty, ident_ty(p));
    assert forall|i: int| 0 <= i < b->tys.len() implies ty_known(
        sc,
        g,
        Some(p),
        #[trigger] b->tys[i],
    ) by {
        assert(i == 0 || i == 1);
    }
    assert(a->tys[0] == ty && a->tys[1] == error);
    assert(b->tys[0] == ty && b->tys[1] == ident_ty(p));
}

/// A method that visits something.
proof fn lemma_visit_method(
    sc: Scope,
    i: SpecTraitImpl,
    attr: Option<Seq<char>>,
    ident: Seq<char>,
    p: Seq<char>,
    bound: Seq<char>,
    ty: SpecTy,
    body: SpecBlock,
)
    requires
        impl_yields(i) == ty,
        attr == (if inlined(sc, i, visit_method(attr, ident, p, bound, ty, body)) {
            Some("inline"@)
        } else {
            None
        }),
        !has_param(i.generics, p),
        ty_known(sc, i.generics, Some(p), ty),
        ident == "visit_seq"@ && bound == "SeqVisitor"@ || ident == "visit_map"@ && bound
            == "MapVisitor"@ || ident == "visit"@ && bound == "VariantVisitor"@,
        block_known(
            Scope { vars: seq![("self"@, true), ("visitor"@, true)], yields: ty, ..sc },
            body,
        ),
    ensures
        method_known(sc, i, visit_method(attr, ident, p, bound, ty, body)),
{
    let m = visit_method(attr, ident, p, bound, ty, body);
    lemma_rule_names();
    lemma_output_ty(sc, i.generics, p, ty);
    assert(method_vars(m) =~= seq![("self"@, true), ("visitor"@, true)]);
    assert(is_param_ty(ident_ty(p), p));
}

/// In a method, what is visited can be changed.
proof fn lemma_visitor_var()
    ensures
        changeable(seq![("self"@, true), ("visitor"@, true)], "visitor"@),
{
    let vars = seq![("self"@, true), ("visitor"@, true)];
    assert(vars[1] == ("visitor"@, true));
}

// Visitors
// --------

/// The visitor of the item is declared here.
pub open spec fn has_visitor(sc: Scope) -> bool {
    &&& type_decl(sc.decls, "__Visitor"@) == Some(visitor_decl(sc.generics))
    &&& exists|j: int|
        0 <= j < sc.decls.len() && makes_visitor(
            #[trigger] sc.decls[j],
            "__Visitor"@,
            sc.item_ty,
        )
}

proof fn lemma_visitor_decl(sc: Scope)
    ensures
        decl_known(sc, visitor_decl(sc.generics)),
        declares(visitor_decl(sc.generics)) == Some("__Visitor"@),
{
    let g = sc.generics;
    if g.ty_params.len() > 0 {
        let tys = visitor_decl(g)->tys;
        assert forall|i: int| 0 <= i < tys.len() implies is_phantom_ty(
            #[trigger] tys[i],
            g.ty_params[i].ident,
        ) by {
            assert(tys[i] == phantom_data_ty(g.ty_params[i].ident));
        }
    }
}

/// The value of the visitor, where it is handed over.
proof fn lemma_visitor_expr(sc: Scope)
    requires
        has_visitor(sc),
        sc.yields == sc.item_ty,
    ensures
        expr_known(sc, visitor_expr(sc.generics)),
        hands_over(sc, visitor_expr(sc.generics)),
{
    let g = sc.generics;
    if g.ty_params.len() > 0 {
        let args = visitor_expr(g)->Call_args;
        assert forall|i: int| 0 <= i < args.len() implies expr_known(
            sc,
            #[trigger] args[i],
        ) by {
            assert(args[i] == SpecExpr::Path(global_path("std"@, "marker"@, "PhantomData"@)));
        }
        assert(callee_known(sc, ident_path("__Visitor"@), args));
    }
}

/// The implementation that makes the visitor one, for the method `m`.
proof fn lemma_visitor_impl(sc: Scope, trait_ident: Seq<char>, m: SpecMethod)
    requires
        names_item(sc),
        type_decl(sc.decls, "__Visitor"@) == Some(visitor_decl(sc.generics)),
        trait_ident == "Visitor"@ && (m.ident == "visit_seq"@ || m.ident == "visit_map"@)
            || trait_ident == "EnumVisitor"@ && m.ident == "visit"@,
        ({
            let d = visitor_impl(
                sc.generics,
                trait_ident,
                visitor_ty(sc.generics),
                sc.item_ty,
                m,
            );
            method_known(sc, d->Impl_0, m)
        }),
    ensures
        ({
            let d = visitor_impl(
                sc.generics,
                trait_ident,
                visitor_ty(sc.generics),
                sc.item_ty,
                m,
            );
            decl_known(sc, d) && makes_visitor(d, "__Visitor"@, sc.item_ty)
        }),
{
    let g = sc.generics;
    let i = visitor_impl(g, trait_ident, visitor_ty(g), sc.item_ty, m)->Impl_0;
    lemma_rule_names();
    lemma_item_ty(sc, None);
    if g.ty_params.len() > 0 {
        lemma_applied("__Visitor"@, g);
        lemma_applied_known(sc, g, None, "__Visitor"@);
    }
    assert(ty_known(sc, g, None, visitor_ty(g)));
    assert(i.methods[0] == m);
    assert(has_members(i));
    assert(impl_known(sc, i));
}

// Sequences
// ---------

/// A constructor of the item.
pub open spec fn is_constructor(sc: Scope, path: SpecPath) -> bool {
    !path.global && 1 <= path.segments.len() <= 2 && path.segments[0] == sc.item
}

proof fn lemma_end_known(sc: Scope)
    requires
        changeable(sc.vars, "visitor"@),
    ensures
        stmt_known(sc, end_stmt()),
{
    lemma_known_method0(sc, "visitor"@, "end"@);
}

proof fn lemma_seq_arms_known(sc: Scope)
    ensures
        covers(sc, seq_arms()),
        forall|k: int| 0 <= k < seq_arms().len() ==> arm_known(sc, #[trigger] seq_arms()[k]),
{
    let arms = seq_arms();
    let inner = bound(sc, arms[0].pat);
    lemma_declared_push(sc.vars, ("value"@, false));
    lemma_known_var(inner, "value"@);
    assert(arm_known(sc, arms[0]));
    let error = call0(serde_error_path("end_of_stream_error"@));
    assert(expr_known(sc, error));
    lemma_known_call1(sc, "Err"@, error);
    let back = SpecExpr::Return(Box::new(err_expr(error)));
    assert(expr_known(sc, back));
    lemma_semi_block(sc, back);
    assert(arm_known(sc, arms[1]));
    assert forall|k: int| 0 <= k < arms.len() implies arm_known(sc, #[trigger] arms[k]) by {
        assert(k == 0 || k == 1);
    }
}

proof fn lemma_seq_lets(n: nat, k: int)
    requires
        0 <= k <= n,
    ensures
        lets_fields(seq_lets(n).push(end_stmt()).take(k)),
        block_decls(seq_lets(n).push(end_stmt()).take(k)) == Seq::<SpecDecl>::empty(),
    decreases k,
{
    let before = seq_lets(n).push(end_stmt()).take(k);
    assert forall|i: int| 0 <= i < before.len() implies (
    #[trigger] before[i] matches SpecStmt::Let { ident, .. } ==> ident.len() > 0 && ident[0]
        == '_') by {
        assert(before[i] == seq_let(i as nat));
        lemma_field_name(i as nat);
    }
    if k > 0 {
        lemma_seq_lets(n, k - 1);
        assert(before.drop_last() =~= seq_lets(n).push(end_stmt()).take(k - 1));
        assert(before.last() == seq_let((k - 1) as nat));
    }
}

/// The code that reads a sequence.
proof fn lemma_seq_known(sc: Scope, path: SpecPath, n: nat)
    requires
        changeable(sc.vars, "visitor"@),
        is_constructor(sc, path),
        type_decl(sc.decls, sc.item) is None,
    ensures
        expr_known(sc, seq_expr(path, n)),
{
    let stmts = seq_lets(n).push(end_stmt());
    let b = seq_expr(path, n)->Block_0;
    let none = Seq::<SpecDecl>::empty();
    lemma_rule_names();
    assert(stmts.take(n as int) =~= seq_lets(n));
    lemma_seq_lets(n, n as int);
    assert(stmts.drop_last() =~= seq_lets(n));
    assert(block_decls(stmts) == none);
    assert forall|k: int| 0 <= k < stmts.len() implies stmt_known(
        behind(sc, none, stmts.take(k)),
        #[trigger] stmts[k],
    ) by {
        let at = behind(sc, none, stmts.take(k));
        lemma_seq_lets(n, k);
        lemma_let_names(stmts.take(k), "visitor"@);
        lemma_changeable(sc.vars, let_vars(stmts.take(k)), "visitor"@);
        if k < n {
            lemma_known_method0(at, "visitor"@, "visit"@);
            lemma_seq_arms_known(at);
            let init = match_expr(try_expr(method0("visitor"@, "visit"@)), seq_arms());
            assert(expr_known(at, init));
            assert(stmts[k] == seq_let(k as nat));
        } else {
            lemma_end_known(at);
        }
    }
    let at = behind(sc, none, stmts);
    let args = field_vars(n);
    assert forall|i: int| 0 <= i < args.len() implies expr_known(at, #[trigger] args[i]) by {
        assert(stmts[i] == seq_let(i as nat));
        lemma_let_declares(stmts, i);
        lemma_declared(sc.vars, let_vars(stmts), field_ident(i as nat));
        lemma_known_var(at, field_ident(i as nat));
    }
    assert(at.decls =~= sc.decls);
    let made = SpecExpr::Call { path, args };
    assert(expr_known(at, made));
    lemma_known_call1(at, "Ok"@, made);
    assert(block_known(sc, *b));
}

/// The items around a visitor that reads a sequence.
proof fn lemma_seq_visitor_known(sc: Scope, path: SpecPath, n: nat, e: SpecExpr)
    requires
        names_item(sc),
        sc.item != "__V"@,
        is_constructor(sc, path),
        ({
            let d = seq_visitor(sc.generics, sc.item_ty, path, n);
            let inner = Scope { decls: sc.decls + seq![d[0]->Decl_0, d[1]->Decl_0], ..sc };
            has_visitor(inner) ==> expr_known(inner, e)
        }),
    ensures
        expr_known(sc, block_expr(seq_visitor(sc.generics, sc.item_ty, path, n), e)),
{
    let g = sc.generics;
    let ty = sc.item_ty;
    let stmts = seq_visitor(g, ty, path, n);
    let a = visitor_decl(g);
    let m = seq_method(ty, path, n);
    let b = visitor_impl(g, "Visitor"@, visitor_ty(g), ty, m);
    let decls = seq![a, b];
    let inner = Scope { decls: sc.decls + decls, ..sc };
    lemma_rule_names();
    lemma_two_decls(sc.decls, a, b, sc.item);
    lemma_two_decls(sc.decls, a, b, "__Visitor"@);
    lemma_visitor_decl(inner);
    lemma_visitor_var();
    let vars = seq![("self"@, true), ("visitor"@, true)];
    let at = Scope { vars, yields: ty, ..inner };
    lemma_seq_known(at, path, n);
    lemma_plain_block(at, seq_expr(path, n));
    lemma_item_ty(inner, Some("__V"@));
    lemma_visit_method(
        inner,
        b->Impl_0,
        None,
        "visit_seq"@,
        "__V"@,
        "SeqVisitor"@,
        ty,
        block(seq![], seq_expr(path, n)),
    );
    lemma_visitor_impl(inner, "Visitor"@, m);
    assert(inner.decls[inner.decls.len() - 1] == b);
    assert(has_visitor(inner));
    assert(stmts =~= seq![SpecStmt::Decl(a), SpecStmt::Decl(b)]);
    assert(stmts[0]->Decl_0 == a && stmts[1]->Decl_0 == b);
    assert forall|k: int| 0 <= k < stmts.len() implies decl_known(
        inner,
        (#[trigger] stmts[k])->Decl_0,
    ) by {
        assert(k == 0 || k == 1);
    }
    lemma_known_items(sc, stmts, decls, e);
}

// Keys
// ----

/// What the code that reads keys needs of the scope.
pub open spec fn reads_str(sc: Scope) -> bool {
    &&& sc.item_ty == applied_ty(sc.item, sc.generics)
    &&& sc.item != "__V"@
    &&& sc.item != "__Field"@
    &&& sc.item != "str"@
    &&& type_decl(sc.decls, "str"@) is None
}

/// The enum that tells fields apart.
proof fn lemma_field_enum_known(sc: Scope, n: nat)
    ensures
        decl_known(sc, field_enum(n)),
        declares(field_enum(n)) == Some("__Field"@),
{
    let variants = field_enum(n)->variants;
    assert forall|i: int, j: int| 0 <= i < j < variants.len() implies #[trigger] variants[i]
        != #[trigger] variants[j] by {
        law_field_idents_distinct(i as nat, j as nat);
    }
}

/// A path to one of its variants.
proof fn lemma_field_path(sc: Scope, n: nat, i: nat)
    requires
        type_decl(sc.decls, "__Field"@) == Some(field_enum(n)),
        i < n,
    ensures
        names_variant(sc.decls, field_path(i)),
        expr_known(sc, SpecExpr::Path(field_path(i))),
{
    let variants = field_enum(n)->variants;
    assert(variants[i as int] == field_ident(i));
    assert(variants.contains(field_ident(i)));
}

proof fn lemma_key_arms_known(sc: Scope, keys: Seq<SpecLit>)
    requires
        type_decl(sc.decls, "__Field"@) == Some(field_enum(keys.len())),
        declared(sc.vars, "value"@),
    ensures
        covers(sc, key_arms(keys)),
        forall|k: int|
            0 <= k < key_arms(keys).len() ==> arm_known(sc, #[trigger] key_arms(keys)[k]),
{
    let arms = key_arms(keys);
    assert forall|k: int| 0 <= k < arms.len() implies arm_known(sc, #[trigger] arms[k]) by {
        if k < keys.len() {
            assert(arms[k] == key_arm(keys[k], k as nat));
            let e = SpecExpr::Path(field_path(k as nat));
            lemma_field_path(sc, keys.len(), k as nat);
            lemma_known_call1(sc, "Ok"@, e);
            lemma_plain_block(sc, ok_expr(e));
        } else {
            assert(arms[k] == unknown_key_arm());
            lemma_known_var(sc, "value"@);
            let e = SpecExpr::Call {
                path: serde_error_path("unknown_field_error"@),
                args: seq![var("value"@)],
            };
            assert(expr_known(sc, e));
            lemma_known_call1(sc, "Err"@, e);
        }
    }
}

/// The visitor that reads a key.
proof fn lemma_str_known(sc: Scope, keys: Seq<SpecLit>)
    requires
        reads_str(sc),
        type_decl(sc.decls, "__Field"@) == Some(field_enum(keys.len())),
        type_decl(sc.decls, "__FieldVisitor"@) == Some(
            SpecDecl::Struct { ident: "__FieldVisitor"@, generics: no_generics(), tys: seq![] },
        ),
    ensures
        ({
            let d = visitor_impl(
                no_generics(),
                "Visitor"@,
                ident_ty("__FieldVisitor"@),
                ident_ty("__Field"@),
                str_method(keys),
            );
            decl_known(sc, d) && makes_visitor(d, "__FieldVisitor"@, ident_ty("__Field"@))
        }),
{
    lemma_rule_names();
    let g = no_generics();
    let m = str_method(keys);
    let i = visitor_impl(
        g,
        "Visitor"@,
        ident_ty("__FieldVisitor"@),
        ident_ty("__Field"@),
        m,
    )->Impl_0;
    let yields = ident_ty("__Field"@);
    assert(!has_param(g, "E"@));
    assert(!has_param(g, "__Field"@));
    assert(!has_param(g, "__FieldVisitor"@));
    assert(!has_param(g, "str"@));
    assert(ty_known(sc, g, None, ident_ty("__FieldVisitor"@)));
    assert(ty_known(sc, g, None, yields));
    assert(ty_known(sc, g, Some("E"@), yields));
    lemma_output_ty(sc, g, "E"@, yields);
    assert(ty_known(sc, g, Some("E"@), ident_ty("str"@)));
    assert(ty_known(sc, g, Some("E"@), ref_ty(false, ident_ty("str"@))));
    assert(is_param_ty(ident_ty("str"@), "str"@));
    let at = Scope { vars: method_vars(m), yields, ..sc };
    assert(at.vars =~= seq![("self"@, true)].push(("value"@, false)));
    lemma_declared_push(seq![("self"@, true)], ("value"@, false));
    lemma_known_var(at, "value"@);
    lemma_key_arms_known(at, keys);
    let e = match_expr(var("value"@), key_arms(keys));
    assert(expr_known(at, e));
    lemma_plain_block(at, e);
    assert(method_known(sc, i, m));
    assert(i.methods[0] == m);
    assert(has_members(i));
    assert(sc.item_ty->path.segments[0] == sc.item);
    assert(yields->path.segments[0] == "__Field"@);
    assert(impl_known(sc, i));
}

/// The code that reads a key.
proof fn lemma_field_body_known(sc: Scope, keys: Seq<SpecLit>)
    requires
        reads_str(sc),
        type_decl(sc.decls, "__Field"@) == Some(field_enum(keys.len())),
        sc.vars == seq![("deserializer"@, true)],
        sc.yields == ident_ty("__Field"@),
    ensures
        block_known(sc, field_body(keys)),
{
    lemma_rule_names();
    let g = no_generics();
    let a = SpecDecl::Struct { ident: "__FieldVisitor"@, generics: g, tys: seq![] };
    let b = visitor_impl(g, "Visitor"@, ident_ty("__FieldVisitor"@), sc.yields, str_method(keys));
    let decls = seq![a, b];
    let stmts = seq![SpecStmt::Decl(a), SpecStmt::Decl(b)];
    let inner = Scope { decls: sc.decls + decls, ..sc };
    lemma_two_decls(sc.decls, a, b, "__Field"@);
    lemma_two_decls(sc.decls, a, b, "__FieldVisitor"@);
    lemma_two_decls(sc.decls, a, b, "str"@);
    lemma_str_known(inner, keys);
    assert(decl_known(inner, a));
    assert(inner.decls[inner.decls.len() - 1] == b);
    let visitor = var("__FieldVisitor"@);
    assert(expr_known(inner, visitor));
    assert(hands_over(inner, visitor));
    assert(inner.vars[0] == ("deserializer"@, true));
    assert(changeable(inner.vars, "deserializer"@));
    let e = method1("deserializer"@, "visit"@, visitor);
    assert(expr_known(inner, e));
    assert forall|k: int| 0 <= k < stmts.len() implies decl_known(
        inner,
        (#[trigger] stmts[k])->Decl_0,
    ) by {
        assert(k == 0 || k == 1);
    }
    lemma_known_items(sc, stmts, decls, e);
}

/// The implementation that reads the enum that tells fields apart.
proof fn lemma_field_impl_known(sc: Scope, keys: Seq<SpecLit>)
    requires
        reads_str(sc),
        type_decl(sc.decls, "__Field"@) == Some(field_enum(keys.len())),
    ensures
        decl_known(sc, field_impl(keys)),
        declares(field_impl(keys)) is None,
{
    lemma_rule_names();
    let g = no_generics();
    let i = field_impl(keys)->Impl_0;
    let m = i.methods[0];
    let yields = ident_ty("__Field"@);
    assert(!has_param(g, "D"@));
    assert(!has_param(g, "__Field"@));
    assert(ty_known(sc, g, None, yields));
    assert(ty_known(sc, g, Some("D"@), yields));
    lemma_output_ty(sc, g, "D"@, yields);
    assert(is_param_ty(ident_ty("D"@), "D"@));
    let vars = seq![("deserializer"@, true)];
    assert(method_vars(m) =~= vars);
    let at = Scope { vars, yields, ..sc };
    lemma_field_body_known(at, keys);
    assert(m.body == field_body(keys));
    assert(method_known(sc, i, m));
    assert(sc.item_ty->path.segments[0] == sc.item);
    assert(yields->path.segments[0] == "__Field"@);
    assert(impl_known(sc, i));
}

// Maps
// ----

proof fn lemma_map_vars(n: nat)
    ensures
        let_vars(map_lets(n)) == Seq::new(n, |i: int| (field_ident(i as nat), true)),
        block_decls(map_lets(n)) == Seq::<SpecDecl>::empty(),
        lets_fields(map_lets(n)),
    decreases n,
{
    let stmts = map_lets(n);
    assert forall|i: int| 0 <= i < stmts.len() implies (
    #[trigger] stmts[i] matches SpecStmt::Let { ident, .. } ==> ident.len() > 0 && ident[0]
        == '_') by {
        assert(stmts[i] == map_let(i as nat));
        lemma_field_name(i as nat);
    }
    if n > 0 {
        let m = (n - 1) as nat;
        lemma_map_vars(m);
        assert(stmts.drop_last() =~= map_lets(m));
        assert(stmts.last() == map_let(m));
    }
    assert(let_vars(stmts) =~= Seq::new(n, |i: int| (field_ident(i as nat), true)));
}

/// The variable of a field can be changed where all are declared.
proof fn lemma_map_changeable(vars: Seq<(Seq<char>, bool)>, n: nat, i: nat)
    requires
        i < n,
    ensures
        changeable(vars + let_vars(map_lets(n)), field_ident(i)),
{
    lemma_map_vars(n);
    let all = vars + let_vars(map_lets(n));
    let j = vars.len() + i;
    assert(all[j as int] == (field_ident(i), true));
    assert forall|l: int| j < l < all.len() implies (#[trigger] all[l]).0 != field_ident(i) by {
        law_field_idents_distinct((l - vars.len()) as nat, i);
    }
}

/// The arms that store values.
proof fn lemma_value_arms_known(sc: Scope, n: nat)
    requires
        type_decl(sc.decls, "__Field"@) == Some(field_enum(n)),
        last_enum(sc.decls) == Some(field_enum(n)),
        changeable(sc.vars, "visitor"@),
        forall|i: nat| i < n ==> changeable(sc.vars, #[trigger] field_ident(i)),
    ensures
        covers(sc, value_arms(n)),
        forall|k: int| 0 <= k < n ==> arm_known(sc, #[trigger] value_arms(n)[k]),
{
    let arms = value_arms(n);
    assert forall|k: int| 0 <= k < n implies arm_known(sc, #[trigger] arms[k]) by {
        let i = k as nat;
        assert(arms[k] == value_arm(i));
        lemma_field_path(sc, n, i);
        let e = try_expr(method0("visitor"@, "visit_value"@));
        lemma_known_method0(sc, "visitor"@, "visit_value"@);
        lemma_known_call1(sc, "Some"@, e);
        let assign = SpecExpr::Assign { ident: field_ident(i), expr: Box::new(some_expr(e)) };
        assert(expr_known(sc, assign));
        lemma_semi_block(sc, assign);
    }
    lemma_field_arms_cover(sc, arms, n);
}

/// Arms for all the variants of the enum that tells fields apart.
proof fn lemma_field_arms_cover(sc: Scope, arms: Seq<SpecArm>, n: nat)
    requires
        type_decl(sc.decls, "__Field"@) == Some(field_enum(n)),
        last_enum(sc.decls) == Some(field_enum(n)),
        arms.len() == n,
        forall|k: int|
            0 <= k < n ==> (#[trigger] arms[k]).pat == SpecPat::Path(field_path(k as nat)),
    ensures
        covers(sc, arms),
{
    if n > 0 {
        let variants = field_enum(n)->variants;
        assert(arms[0].pat == SpecPat::Path(field_path(0)));
        assert(arms[n - 1].pat == SpecPat::Path(field_path((n - 1) as nat)));
        assert forall|i: int| 0 <= i < variants.len() implies exists|j: int|
            0 <= j < arms.len() && is_variant_arm(
                #[trigger] arms[j],
                "__Field"@,
                #[trigger] variants[i],
            ) by {
            assert(arms[i].pat == SpecPat::Path(field_path(i as nat)));
            assert(is_variant_arm(arms[i], "__Field"@, variants[i]));
        }
    }
}

/// The loop over the keys.
proof fn lemma_map_loop_known(sc: Scope, n: nat)
    requires
        type_decl(sc.decls, "__Field"@) == Some(field_enum(n)),
        last_enum(sc.decls) == Some(field_enum(n)),
        changeable(sc.vars, "visitor"@),
        forall|i: nat| i < n ==> changeable(sc.vars, #[trigger] field_ident(i)),
    ensures
        expr_known(sc, map_loop(n)),
{
    lemma_rule_names();
    lemma_known_method0(sc, "visitor"@, "visit_key"@);
    let pat = bind_pat("Some"@, "key"@);
    let at = bound(sc, pat);
    lemma_declared_push(sc.vars, ("key"@, false));
    lemma_changeable_push(sc.vars, ("key"@, false), "visitor"@);
    assert forall|i: nat| i < n implies changeable(at.vars, #[trigger] field_ident(i)) by {
        lemma_field_name(i);
        lemma_changeable_push(sc.vars, ("key"@, false), field_ident(i));
    }
    lemma_known_var(at, "key"@);
    lemma_value_arms_known(at, n);
    let e = match_expr(var("key"@), value_arms(n));
    assert(expr_known(at, e));
    lemma_plain_block(at, e);
}

/// Taking a value out of its variable.
proof fn lemma_extract_known(sc: Scope, field: SpecField, i: nat)
    requires
        changeable(sc.vars, "visitor"@),
        declared(sc.vars, field_ident(i)),
    ensures
        stmt_known(sc, extract_let(field, i)),
{
    let x = field_ident(i);
    let arms = seq![
        SpecArm { pat: bind_pat("Some"@, x), body: var(x) },
        SpecArm { pat: none_pat(), body: missing_expr(field) },
    ];
    let at = bound(sc, arms[0].pat);
    lemma_declared_push(sc.vars, (x, false));
    lemma_known_var(at, x);
    assert(arm_known(sc, arms[0]));
    if field.default {
        assert(expr_known(sc, call0(default_path())));
    } else {
        let key = SpecExpr::Lit(field_key(field));
        assert(expr_known(sc, key));
        let e = method1("visitor"@, "missing_field"@, key);
        assert(expr_known(sc, e));
        assert(expr_known(sc, try_expr(e)));
    }
    assert(arm_known(sc, arms[1]));
    lemma_known_var(sc, x);
    assert(covers(sc, arms));
    assert forall|k: int| 0 <= k < arms.len() implies arm_known(sc, #[trigger] arms[k]) by {
        assert(k == 0 || k == 1);
    }
    assert(expr_known(sc, match_expr(var(x), arms)));
}

/// The statements of the code that reads a map.
pub open spec fn map_stmts(fields: Seq<SpecField>) -> Seq<SpecStmt> {
    (map_lets(fields.len()).push(SpecStmt::Expr(map_loop(fields.len()))) + extract_lets(
        fields,
    )).push(end_stmt())
}

proof fn lemma_map_stmts(fields: Seq<SpecField>, k: int)
    requires
        0 <= k <= map_stmts(fields).len(),
    ensures
        lets_fields(map_stmts(fields).take(k)),
        block_decls(map_stmts(fields).take(k)) == Seq::<SpecDecl>::empty(),
    decreases k,
{
    let n = fields.len();
    let before = map_stmts(fields).take(k);
    assert forall|i: int| 0 <= i < before.len() implies (
    #[trigger] before[i] matches SpecStmt::Let { ident, .. } ==> ident.len() > 0 && ident[0]
        == '_') && !(before[i] is Decl) by {
        if i < n {
            assert(before[i] == map_let(i as nat));
            lemma_field_name(i as nat);
        } else if n < i && i <= n + n {
            assert(before[i] == extract_let(fields[i - n - 1], (i - n - 1) as nat));
            lemma_field_name((i - n - 1) as nat);
        }
    }
    if k > 0 {
        lemma_map_stmts(fields, k - 1);
        assert(before.drop_last() =~= map_stmts(fields).take(k - 1));
        assert(before.last() == before[k - 1]);
    }
}

/// The code that reads a map.
proof fn lemma_map_known(sc: Scope, path: SpecPath, fields: Seq<SpecField>)
    requires
        type_decl(sc.decls, "__Field"@) == Some(field_enum(fields.len())),
        last_enum(sc.decls) == Some(field_enum(fields.len())),
        changeable(sc.vars, "visitor"@),
        is_constructor(sc, path),
        type_decl(sc.decls, sc.item) is None,
    ensures
        expr_known(sc, map_expr(path, fields)),
{
    let n = fields.len();
    let stmts = map_stmts(fields);
    let b = map_expr(path, fields)->Block_0;
    let none = Seq::<SpecDecl>::empty();
    lemma_rule_names();
    assert(stmts.take(stmts.len() as int) =~= stmts);
    lemma_map_stmts(fields, stmts.len() as int);
    assert(sc.decls + none =~= sc.decls);
    assert forall|k: int| 0 <= k < stmts.len() implies stmt_known(
        behind(sc, none, stmts.take(k)),
        #[trigger] stmts[k],
    ) by {
        let before = stmts.take(k);
        let at = behind(sc, none, before);
        lemma_map_stmts(fields, k);
        lemma_let_names(before, "visitor"@);
        lemma_changeable(sc.vars, let_vars(before), "visitor"@);
        if k < n {
            assert(stmts[k] == map_let(k as nat));
            assert(expr_known(at, var("None"@)));
        } else if k == n {
            assert(before =~= map_lets(n));
            assert forall|i: nat| i < n implies changeable(
                at.vars,
                #[trigger] field_ident(i),
            ) by {
                lemma_map_changeable(sc.vars, n, i);
            }
            lemma_map_loop_known(at, n);
        } else if k <= n + n {
            let i = (k - n - 1) as nat;
            assert(stmts[k] == extract_let(fields[i as int], i));
            assert(before[i as int] == map_let(i));
            lemma_let_declares(before, i as int);
            lemma_declared(sc.vars, let_vars(before), field_ident(i));
            lemma_extract_known(at, fields[i as int], i);
        } else {
            lemma_end_known(at);
        }
    }
    let at = behind(sc, none, stmts);
    let inits = field_inits(fields);
    assert forall|i: int| 0 <= i < inits.len() implies expr_known(
        at,
        (#[trigger] inits[i]).expr,
    ) by {
        assert(stmts[i] == map_let(i as nat));
        lemma_let_declares(stmts, i);
        lemma_declared(sc.vars, let_vars(stmts), field_ident(i as nat));
        lemma_known_var(at, field_ident(i as nat));
    }
    let made = SpecExpr::Struct { path, fields: inits };
    assert(path_known(at, path));
    assert(expr_known(at, made));
    lemma_known_call1(at, "Ok"@, made);
    assert(b.stmts == stmts);
    assert(block_known(sc, *b));
}

/// The items around a visitor that tells fields apart: the enum, how it is read,
/// the visitor, and the method `m` of it.
pub open spec fn keyed_decls(
    sc: Scope,
    keys: Seq<SpecLit>,
    trait_ident: Seq<char>,
    m: SpecMethod,
) -> Seq<SpecDecl> {
    let g = sc.generics;
    seq![
        field_enum(keys.len()),
        field_impl(keys),
        visitor_decl(g),
        visitor_impl(g, trait_ident, visitor_ty(g), sc.item_ty, m),
    ]
}

/// The scope inside the block that declares them.
pub open spec fn keyed_scope(
    sc: Scope,
    keys: Seq<SpecLit>,
    trait_ident: Seq<char>,
    m: SpecMethod,
) -> Scope {
    Scope { decls: sc.decls + keyed_decls(sc, keys, trait_ident, m), ..sc }
}

/// What is in scope there.
proof fn lemma_keyed_scope(sc: Scope, keys: Seq<SpecLit>, trait_ident: Seq<char>, m: SpecMethod)
    requires
        names_item(sc),
        reads_str(sc),
    ensures
        ({
            let inner = keyed_scope(sc, keys, trait_ident, m);
            &&& names_item(inner)
            &&& reads_str(inner)
            &&& type_decl(inner.decls, "__Field"@) == Some(field_enum(keys.len()))
            &&& last_enum(inner.decls) == Some(field_enum(keys.len()))
            &&& type_decl(inner.decls, "__Visitor"@) == Some(visitor_decl(sc.generics))
        }),
{
    lemma_rule_names();
    let d = keyed_decls(sc, keys, trait_ident, m);
    let two = sc.decls + seq![d[0], d[1]];
    lemma_visitor_decl(sc);
    lemma_four_decls(sc.decls, d[0], d[1], d[2], d[3], sc.item);
    assert(keyed_scope(sc, keys, trait_ident, m).decls =~= two + seq![d[2], d[3]]);
    lemma_two_decls(sc.decls, d[0], d[1], sc.item);
    lemma_two_decls(two, d[2], d[3], sc.item);
    lemma_two_decls(sc.decls, d[0], d[1], "str"@);
    lemma_two_decls(two, d[2], d[3], "str"@);
    lemma_two_decls(sc.decls, d[0], d[1], "__Field"@);
    lemma_two_decls(two, d[2], d[3], "__Field"@);
    lemma_two_decls(two, d[2], d[3], "__Visitor"@);
}

/// The block that declares a visitor which tells fields apart, and hands it over.
proof fn lemma_keyed_known(
    sc: Scope,
    keys: Seq<SpecLit>,
    trait_ident: Seq<char>,
    m: SpecMethod,
    e: SpecExpr,
)
    requires
        names_item(sc),
        reads_str(sc),
        trait_ident == "Visitor"@ && m.ident == "visit_map"@ || trait_ident == "EnumVisitor"@
            && m.ident == "visit"@,
        ({
            let inner = keyed_scope(sc, keys, trait_ident, m);
            let d = visitor_impl(
                sc.generics,
                trait_ident,
                visitor_ty(sc.generics),
                sc.item_ty,
                m,
            );
            &&& method_known(inner, d->Impl_0, m)
            &&& has_visitor(inner) ==> expr_known(inner, e)
        }),
    ensures
        ({
            let g = sc.generics;
            let stmts = field_visitor(keys) + seq![
                SpecStmt::Decl(visitor_decl(g)),
                SpecStmt::Decl(visitor_impl(g, trait_ident, visitor_ty(g), sc.item_ty, m)),
            ];
            expr_known(sc, block_expr(stmts, e))
        }),
{
    lemma_rule_names();
    let g = sc.generics;
    let d = keyed_decls(sc, keys, trait_ident, m);
    let inner = keyed_scope(sc, keys, trait_ident, m);
    let stmts = field_visitor(keys) + seq![SpecStmt::Decl(d[2]), SpecStmt::Decl(d[3])];
    lemma_keyed_scope(sc, keys, trait_ident, m);
    lemma_field_enum_known(inner, keys.len());
    lemma_field_impl_known(inner, keys);
    lemma_visitor_decl(inner);
    lemma_visitor_impl(inner, trait_ident, m);
    assert(inner.decls[inner.decls.len() - 1] == d[3]);
    assert(has_visitor(inner));
    lemma_four_decls(sc.decls, d[0], d[1], d[2], d[3], sc.item);
    assert(stmts =~= seq![SpecStmt::Decl(d[0]), SpecStmt::Decl(d[1])] + seq![
        SpecStmt::Decl(d[2]),
        SpecStmt::Decl(d[3]),
    ]);
    assert(block_decls(stmts) =~= d);
    assert forall|k: int| 0 <= k < stmts.len() implies decl_known(
        inner,
        (#[trigger] stmts[k])->Decl_0,
    ) by {
        assert(stmts[k]->Decl_0 == d[k]);
        assert(k == 0 || k == 1 || k == 2 || k == 3);
    }
    assert(distinct_types(d)) by {
        assert(declares(d[0]) == Some("__Field"@));
        assert(declares(d[1]) is None);
        assert(declares(d[2]) == Some("__Visitor"@));
        assert(declares(d[3]) is None);
    }
    lemma_known_items(sc, stmts, d, e);
}

/// A visitor that reads a map belongs to an enum's where the code around does.
proof fn lemma_still_in_enum(sc: Scope, keys: Seq<SpecLit>, m: SpecMethod)
    ensures
        in_enum(keyed_scope(sc, keys, "Visitor"@, m).decls) == in_enum(sc.decls),
{
    lemma_rule_names();
    let d = keyed_decls(sc, keys, "Visitor"@, m);
    let all = sc.decls + d;
    if in_enum(sc.decls) {
        let j = choose|j: int|
            0 <= j < sc.decls.len() && (#[trigger] sc.decls[j] matches SpecDecl::Impl(i)
                && implements_serde(i, "EnumVisitor"@));
        assert(all[j] == sc.decls[j]);
    }
    if in_enum(all) {
        let j = choose|j: int|
            0 <= j < all.len() && (#[trigger] all[j] matches SpecDecl::Impl(i)
                && implements_serde(i, "EnumVisitor"@));
        if j < sc.decls.len() {
            assert(sc.decls[j] == all[j]);
        } else {
            let k = j - sc.decls.len();
            assert(all[j] == d[k]);
            assert(k == 0 || k == 1 || k == 2 || k == 3);
            assert(d[1]->Impl_0.trait_path.segments[2] == "Deserialize"@);
            assert(d[3]->Impl_0.trait_path.segments[2] == "Visitor"@);
        }
    }
}

/// The block that declares a visitor which reads a map, and hands it over.
proof fn lemma_map_visitor_known(
    sc: Scope,
    attr: Option<Seq<char>>,
    path: SpecPath,
    fields: Seq<SpecField>,
    e: SpecExpr,
)
    requires
        attr == (if in_enum(sc.decls) {
            None
        } else {
            Some("inline"@)
        }),
        names_item(sc),
        reads_str(sc),
        is_constructor(sc, path),
        ({
            let m = map_method(attr, sc.item_ty, path, fields);
            let inner = keyed_scope(sc, field_keys(fields), "Visitor"@, m);
            has_visitor(inner) ==> expr_known(inner, e)
        }),
    ensures
        expr_known(
            sc,
            block_expr(map_visitor(attr, sc.generics, sc.item_ty, path, fields), e),
        ),
{
    lemma_rule_names();
    let ty = sc.item_ty;
    let g = sc.generics;
    let keys = field_keys(fields);
    let m = map_method(attr, ty, path, fields);
    let inner = keyed_scope(sc, keys, "Visitor"@, m);
    let i = visitor_impl(g, "Visitor"@, visitor_ty(g), ty, m)->Impl_0;
    lemma_keyed_scope(sc, keys, "Visitor"@, m);
    lemma_still_in_enum(sc, keys, m);
    let vars = seq![("self"@, true), ("visitor"@, true)];
    let at = Scope { vars, yields: ty, ..inner };
    lemma_visitor_var();
    lemma_map_known(at, path, fields);
    lemma_plain_block(at, map_expr(path, fields));
    lemma_item_ty(inner, Some("__V"@));
    lemma_visit_method(
        inner,
        i,
        attr,
        "visit_map"@,
        "__V"@,
        "MapVisitor"@,
        ty,
        block(seq![], map_expr(path, fields)),
    );
    lemma_keyed_known(sc, keys, "Visitor"@, m, e);
}

// Enums
// -----

/// Handing over the visitor of the item to what is visited.
proof fn lemma_content_known(sc: Scope, ident: Seq<char>)
    requires
        has_visitor(sc),
        sc.yields == sc.item_ty,
        changeable(sc.vars, "visitor"@),
    ensures
        expr_known(sc, method1("visitor"@, ident, visitor_expr(sc.generics))),
{
    lemma_visitor_expr(sc);
    let e = method1("visitor"@, ident, visitor_expr(sc.generics));
    assert(e->MethodCall_args[0] == visitor_expr(sc.generics));
}

/// The code for a variant.
proof fn lemma_variant_known(sc: Scope, variant: SpecVariant)
    requires
        names_item(sc),
        reads_str(sc),
        in_enum(sc.decls),
        changeable(sc.vars, "visitor"@),
        sc.yields == sc.item_ty,
    ensures
        expr_known(sc, variant_expr(sc.item, sc.generics, sc.item_ty, variant)),
{
    let g = sc.generics;
    let ty = sc.item_ty;
    let path = pair_path(sc.item, variant.name);
    match variant.kind {
        SpecVariantKind::Tuple(n) => if n == 0 {
            let b = unit_variant_expr(path)->Block_0;
            assert(b.stmts.drop_last() =~= seq![]);
            assert(block_decls(Seq::<SpecStmt>::empty()) =~= seq![]);
            let decls = block_decls(b.stmts);
            assert(decls =~= seq![]);
            assert(let_vars(Seq::<SpecStmt>::empty()) =~= seq![]);
            assert(let_vars(b.stmts) =~= seq![]);
            assert(b.stmts.take(0) =~= seq![]);
            assert(sc.decls + decls =~= sc.decls);
            assert(sc.vars + let_vars(b.stmts) =~= sc.vars);
            assert(behind(sc, decls, b.stmts) == sc);
            assert(behind(sc, decls, b.stmts.take(0)) == sc);
            lemma_known_method0(sc, "visitor"@, "visit_unit"@);
            assert(stmt_known(sc, b.stmts[0]));
            assert(expr_known(sc, SpecExpr::Path(path)));
            lemma_known_call1(sc, "Ok"@, SpecExpr::Path(path));
            assert(block_known(sc, *b));
        } else {
            let d = seq_visitor(g, ty, path, n);
            let inner = Scope { decls: sc.decls + seq![d[0]->Decl_0, d[1]->Decl_0], ..sc };
            if has_visitor(inner) {
                lemma_content_known(inner, "visit_seq"@);
            }
            let e = method1("visitor"@, "visit_seq"@, visitor_expr(g));
            lemma_seq_visitor_known(sc, path, n, e);
        },
        SpecVariantKind::Struct(fields) => {
            let m = map_method(None, ty, path, fields);
            let inner = keyed_scope(sc, field_keys(fields), "Visitor"@, m);
            if has_visitor(inner) {
                lemma_content_known(inner, "visit_map"@);
            }
            let e = method1("visitor"@, "visit_map"@, visitor_expr(g));
            lemma_map_visitor_known(sc, None, path, fields, e);
        },
    }
}

/// The arms for the variants.
proof fn lemma_variant_arms_known(sc: Scope, variants: Seq<SpecVariant>)
    requires
        names_item(sc),
        reads_str(sc),
        in_enum(sc.decls),
        changeable(sc.vars, "visitor"@),
        sc.yields == sc.item_ty,
        type_decl(sc.decls, "__Field"@) == Some(field_enum(variants.len())),
        last_enum(sc.decls) == Some(field_enum(variants.len())),
    ensures
        ({
            let arms = variant_arms(sc.item, sc.generics, sc.item_ty, variants);
            &&& covers(sc, arms)
            &&& forall|k: int| 0 <= k < arms.len() ==> arm_known(sc, #[trigger] arms[k])
        }),
{
    let arms = variant_arms(sc.item, sc.generics, sc.item_ty, variants);
    assert forall|k: int| 0 <= k < arms.len() implies arm_known(sc, #[trigger] arms[k]) by {
        lemma_field_path(sc, variants.len(), k as nat);
        let e = variant_expr(sc.item, sc.generics, sc.item_ty, variants[k]);
        lemma_variant_known(sc, variants[k]);
        lemma_plain_block(sc, e);
    }
    lemma_field_arms_cover(sc, arms, variants.len());
}

/// Handing over the visitor of the item to the deserializer.
proof fn lemma_request_known(sc: Scope, ident: Seq<char>, e: SpecExpr)
    requires
        has_visitor(sc),
        sc.yields == sc.item_ty,
        sc.vars == seq![("deserializer"@, true)],
        e is Lit,
    ensures
        expr_known(sc, method2("deserializer"@, ident, e, visitor_expr(sc.generics))),
{
    lemma_visitor_expr(sc);
    assert(sc.vars[0] == ("deserializer"@, true));
    assert(changeable(sc.vars, "deserializer"@));
    let args = seq![e, visitor_expr(sc.generics)];
    assert forall|i: int| 0 <= i < args.len() implies expr_known(sc, #[trigger] args[i])
        && hands_over(sc, args[i]) by {
        assert(i == 0 || i == 1);
    }
    assert(method2("deserializer"@, ident, e, visitor_expr(sc.generics))->MethodCall_args =~= args);
}

/// The code for an enum.
proof fn lemma_enum_known(sc: Scope, variants: Seq<SpecVariant>)
    requires
        names_item(sc),
        reads_str(sc),
        sc.vars == seq![("deserializer"@, true)],
        sc.yields == sc.item_ty,
    ensures
        expr_known(sc, item_enum_expr(sc.item, sc.generics, sc.item_ty, variants)),
{
    lemma_rule_names();
    let ty = sc.item_ty;
    let g = sc.generics;
    let keys = variant_keys(variants);
    let m = enum_method(sc.item, g, ty, variants);
    let inner = keyed_scope(sc, keys, "EnumVisitor"@, m);
    let i = visitor_impl(g, "EnumVisitor"@, visitor_ty(g), ty, m)->Impl_0;
    lemma_keyed_scope(sc, keys, "EnumVisitor"@, m);
    let vars = seq![("self"@, true), ("visitor"@, true)];
    let at = Scope { vars, yields: ty, ..inner };
    lemma_visitor_var();
    assert(at.decls[at.decls.len() - 1] == visitor_impl(g, "EnumVisitor"@, visitor_ty(g), ty, m));
    lemma_variant_arms_known(at, variants);
    lemma_known_method0(at, "visitor"@, "visit_variant"@);
    let e = match_expr(
        try_expr(method0("visitor"@, "visit_variant"@)),
        variant_arms(sc.item, g, ty, variants),
    );
    assert(expr_known(at, e));
    lemma_plain_block(at, e);
    lemma_item_ty(inner, Some("__V"@));
    lemma_visit_method(
        inner,
        i,
        None,
        "visit"@,
        "__V"@,
        "VariantVisitor"@,
        ty,
        block(seq![], e),
    );
    let name = SpecExpr::Lit(SpecLit::Str(sc.item));
    if has_visitor(inner) {
        lemma_request_known(inner, "visit_enum"@, name);
    }
    let tail = method2("deserializer"@, "visit_enum"@, name, visitor_expr(g));
    lemma_keyed_known(sc, keys, "EnumVisitor"@, m, tail);
}

// Structs
// -------

/// The methods of a unit struct's visitor.
proof fn lemma_unit_methods_known(sc: Scope)
    requires
        names_item(sc),
        no_params(sc.generics),
        sc.item != "E"@,
        sc.item != "V"@,
    ensures
        ({
            let i = unit_impl(sc.item)->Impl_0;
            &&& sc.item_ty == ident_ty(sc.item)
            &&& method_known(sc, i, unit_method(sc.item))
            &&& method_known(sc, i, unit_seq_method(sc.item))
        }),
{
    lemma_rule_names();
    let i = unit_impl(sc.item)->Impl_0;
    let ty = ident_ty(sc.item);
    assert(sc.item_ty->lifetimes =~= seq![]);
    assert(sc.item_ty->tys =~= seq![]);
    assert(sc.item_ty == ty);
    let none = no_generics();
    assert(!has_param(none, sc.item));
    assert(!has_param(none, "E"@));
    assert(!has_param(none, "V"@));
    assert(ty_known(sc, none, Some("E"@), ty));
    assert(ty_known(sc, none, Some("V"@), ty));
    lemma_output_ty(sc, none, "E"@, ty);
    let m = unit_method(sc.item);
    let at = Scope { vars: method_vars(m), yields: ty, ..sc };
    assert(expr_known(at, var(sc.item)));
    lemma_known_call1(at, "Ok"@, var(sc.item));
    lemma_plain_block(at, ok_expr(var(sc.item)));
    assert(method_known(sc, i, m));
    let vars = seq![("self"@, true), ("visitor"@, true)];
    let at = Scope { vars, yields: ty, ..sc };
    let e = method0("self"@, "visit_unit"@);
    let b = block(seq![end_stmt()], e);
    assert(b.stmts.drop_last() =~= seq![]);
    assert(block_decls(Seq::<SpecStmt>::empty()) =~= seq![]);
    let decls = block_decls(b.stmts);
    assert(decls =~= seq![]);
    assert(let_vars(Seq::<SpecStmt>::empty()) =~= seq![]);
    assert(let_vars(b.stmts) =~= seq![]);
    assert(b.stmts.take(0) =~= seq![]);
    assert(at.decls + decls =~= at.decls);
    assert(at.vars + let_vars(b.stmts) =~= at.vars);
    assert(behind(at, decls, b.stmts) == at);
    assert(behind(at, decls, b.stmts.take(0)) == at);
    lemma_visitor_var();
    lemma_end_known(at);
    assert(vars[0] == ("self"@, true));
    assert(changeable(vars, "self"@));
    lemma_known_method0(at, "self"@, "visit_unit"@);
    assert(block_known(at, b));
    lemma_visit_method(sc, i, Some("inline"@), "visit_seq"@, "V"@, "SeqVisitor"@, ty, b);
}

/// The code for a unit struct.
proof fn lemma_unit_known(sc: Scope)
    requires
        names_item(sc),
        no_params(sc.generics),
        sc.item != "E"@,
        sc.item != "V"@,
        sc.vars == seq![("deserializer"@, true)],
        sc.yields == sc.item_ty,
    ensures
        expr_known(sc, unit_struct_expr(sc.item)),
{
    lemma_rule_names();
    let g = sc.generics;
    let a = visitor_decl(g);
    let b = unit_impl(sc.item);
    let i = b->Impl_0;
    let decls = seq![a, b];
    let inner = Scope { decls: sc.decls + decls, ..sc };
    let stmts = unit_struct_expr(sc.item)->Block_0.stmts;
    assert(stmts =~= seq![SpecStmt::Decl(a), SpecStmt::Decl(b)]);
    lemma_two_decls(sc.decls, a, b, sc.item);
    lemma_two_decls(sc.decls, a, b, "__Visitor"@);
    lemma_visitor_decl(inner);
    lemma_unit_methods_known(inner);
    let none = no_generics();
    assert(!has_param(none, sc.item));
    assert(!has_param(none, "__Visitor"@));
    assert(ty_known(inner, none, None, ident_ty("__Visitor"@)));
    assert(ty_known(inner, none, None, ident_ty(sc.item)));
    assert(none.lifetimes =~= g.lifetimes);
    assert(none.ty_params =~= g.ty_params);
    assert(has_members(i));
    assert forall|k: int| 0 <= k < i.methods.len() implies method_known(
        inner,
        i,
        #[trigger] i.methods[k],
    ) by {
        assert(k == 0 || k == 1);
    }
    assert(impl_known(inner, i));
    assert(inner.decls[inner.decls.len() - 1] == b);
    assert(makes_visitor(b, "__Visitor"@, sc.item_ty));
    assert(has_visitor(inner));
    let name = SpecExpr::Lit(SpecLit::Str(sc.item));
    lemma_request_known(inner, "visit_named_unit"@, name);
    assert forall|k: int| 0 <= k < stmts.len() implies decl_known(
        inner,
        (#[trigger] stmts[k])->Decl_0,
    ) by {
        assert(k == 0 || k == 1);
    }
    let e = method2("deserializer"@, "visit_named_unit"@, name, visitor_expr(g));
    lemma_known_items(sc, stmts, decls, e);
}

/// The code for an item.
proof fn lemma_body_known(sc: Scope, item: SpecItem)
    requires
        names_item(sc),
        derivable(item),
        clear_names(item),
        sc.item == item.ident,
        sc.vars == seq![("deserializer"@, true)],
        sc.yields == sc.item_ty,
        sc.decls.len() == 0,
        item.node matches SpecItemKind::Struct(fields, _) && fields.len() == 0 ==> no_params(
            sc.generics,
        ),
    ensures
        expr_known(sc, body_expr(item, sc.generics, sc.item_ty)),
{
    let g = sc.generics;
    let ty = sc.item_ty;
    let name = SpecExpr::Lit(SpecLit::Str(sc.item));
    let path = ident_path(sc.item);
    match item.node {
        SpecItemKind::Struct(fields, _) => if fields.len() == 0 {
            lemma_unit_known(sc);
        } else if fields[0].name is None {
            assert(all_unnamed(fields));
            let n = fields.len();
            let d = seq_visitor(g, ty, path, n);
            let inner = Scope { decls: sc.decls + seq![d[0]->Decl_0, d[1]->Decl_0], ..sc };
            if has_visitor(inner) {
                lemma_request_known(inner, "visit_named_seq"@, name);
            }
            let e = method2("deserializer"@, "visit_named_seq"@, name, visitor_expr(g));
            lemma_seq_visitor_known(sc, path, n, e);
        } else {
            let attr = Some("inline"@);
            assert(!in_enum(sc.decls));
            let m = map_method(attr, ty, path, fields);
            let inner = keyed_scope(sc, field_keys(fields), "Visitor"@, m);
            if has_visitor(inner) {
                lemma_request_known(inner, "visit_named_map"@, name);
            }
            let e = method2("deserializer"@, "visit_named_map"@, name, visitor_expr(g));
            lemma_map_visitor_known(sc, attr, path, fields, e);
        },
        SpecItemKind::Enum(variants, _) => {
            lemma_enum_known(sc, variants);
        },
        SpecItemKind::Other => {},
    }
}

/// The parameters of the implementation have the names of the item's.
proof fn lemma_impl_params(g: SpecGenerics, x: Seq<char>)
    requires
        forall|i: int| 0 <= i < g.ty_params.len() ==> (#[trigger] g.ty_params[i]).ident != x,
    ensures
        !has_param(impl_generics(g), x),
{
    let all = impl_generics(g);
    assert forall|j: int| 0 <= j < all.ty_params.len() implies (
    #[trigger] all.ty_params[j]).ident != x by {
        assert(all.ty_params[j].ident == g.ty_params[j].ident);
        assert(g.ty_params[j].ident != x);
    }
}

/// A type that is applied to parameters is determined by them.
pub proof fn lemma_is_applied(ty: SpecTy, x: Seq<char>, g: SpecGenerics)
    requires
        is_applied(ty, x, g),
    ensures
        ty == applied_ty(x, g),
{
    let want = applied_ty(x, g);
    assert(ty->path.segments =~= seq![x]);
    assert(ty->lifetimes =~= want->lifetimes);
    assert forall|i: int| 0 <= i < g.ty_params.len() implies #[trigger] ty->tys[i]
        == want->tys[i] by {
        let p = ty->tys[i];
        assert(is_param_ty(p, g.ty_params[i].ident));
        assert(p->path.segments =~= seq![g.ty_params[i].ident]);
        assert(p->lifetimes =~= seq![]);
        assert(p->tys =~= seq![]);
    }
    assert(ty->tys =~= want->tys);
}

/// The body of `deserialize` keeps the rules, for the parameters that the item
/// has here.
pub proof fn lemma_body_rules(item: SpecItem, g: SpecGenerics, ty: SpecTy)
    requires
        derivable(item),
        clear_names(item),
        uses_params(item),
        item.node matches SpecItemKind::Struct(_, h) ==> h == g,
        item.node matches SpecItemKind::Enum(_, h) ==> h == g,
        ty == applied_ty(item.ident, g),
    ensures
        expr_known(
            Scope {
                item: item.ident,
                generics: g,
                item_ty: ty,
                decls: seq![],
                vars: seq![("deserializer"@, true)],
                yields: ty,
            },
            body_expr(item, g, ty),
        ),
{
    let sc = Scope {
        item: item.ident,
        generics: g,
        item_ty: ty,
        decls: seq![],
        vars: seq![("deserializer"@, true)],
        yields: ty,
    };
    assert(names_item(sc));
    lemma_body_known(sc, item);
}

/// The implementation that is derived for an item keeps the rules.
pub proof fn lemma_keeps_rules(item: SpecItem)
    requires
        derivable(item),
        clear_names(item),
        uses_params(item),
    ensures
        keeps_rules(item.ident, derived_impl(item)),
{
    lemma_rule_names();
    let i = derived_impl(item);
    let g = item_generics(item);
    let sc = item_scope(item.ident, i);
    let m = i.methods[0];
    lemma_impl_params(g, item.ident);
    lemma_impl_params(g, "__V"@);
    lemma_impl_params(g, "__D"@);
    lemma_impl_params(g, "__Visitor"@);
    assert(names_item(sc));
    let at = Scope { vars: seq![("deserializer"@, true)], yields: i.self_ty, ..sc };
    assert(method_vars(m) =~= at.vars);
    lemma_body_known(at, item);
    lemma_plain_block(at, body_expr(item, i.generics, i.self_ty));
    lemma_item_ty(sc, None);
    lemma_item_ty(sc, Some("__D"@));
    lemma_output_ty(sc, i.generics, "__D"@, i.self_ty);
    assert(is_param_ty(ident_ty("__D"@), "__D"@));
    assert(method_known(sc, i, m));
    lemma_applied(item.ident, i.generics);
    assert(has_members(i));
    assert(impl_known(sc, i));
}

} // verus!
