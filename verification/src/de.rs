//! The expansion of `#[derive(Deserialize)]`.
use vstd::pervasive::unreached;
use vstd::prelude::*;

use crate::ast::{
    all_named, all_unnamed, derivable, field_keys, variant_ok, EnumDef, FieldKind, Item, ItemKind,
    StructDef, StructField, Variant, VariantKind,
};
use crate::code::{
    arms_view, decls_view, exprs_view, inits_view, lits_view, opt_string_view, stmts_view,
    strings_view, tys_view, Arm, Block, Decl, Expr, FieldInit, Generics, Lit, Method, Pat, Path,
    SpecDecl, SpecStmt, Stmt, Ty, TyParam,
};
use crate::names::{field_ident, field_idents, make_field_ident};
use crate::shape::{
    applied_ty, body_expr, derived_impl, deserialize_method, end_stmt, extract_let, extract_lets,
    field_body, field_inits, field_vars, field_visitor, impl_generics, item_enum_expr,
    item_struct_expr, key_arm, key_arms, map_expr, map_lets, map_loop, map_visitor, none_pat,
    seq_arms, seq_expr, seq_let, seq_lets, seq_visitor, str_method, struct_expr,
    struct_variant_expr, tuple_struct_expr, tuple_variant_expr, unit_method, unit_seq_method,
    unit_struct_expr, unit_variant_expr, value_arms, variant_arms, variant_expr, variant_keys,
    visit_method, visitor_decl, visitor_expr, visitor_impl, visitor_ty,
};
use crate::tree::{
    append_stmts, ident_ty, mk_arg, mk_assign, mk_bind_pat, mk_block, mk_block_expr, mk_call,
    mk_call0, mk_call1, mk_decl, mk_default_path, mk_err, mk_expr_stmt, mk_global_path,
    mk_ident_path, mk_ident_ty, mk_impl, mk_let, mk_lit, mk_match, mk_method0, mk_method1,
    mk_method2, mk_methods1, mk_methods2, mk_ok, mk_pair_path, mk_path_expr, mk_path_ty,
    mk_phantom_data_ty, mk_plain_block, mk_plain_block_expr, mk_ref_ty, mk_result_ty, mk_return,
    mk_semi, mk_semi_block_expr, mk_serde_error_path, mk_serde_path, mk_some, mk_str, mk_struct,
    mk_struct_expr, mk_try, mk_unit_struct, mk_var, mk_while_let, pair_path, path_ty, push_arm,
    push_stmt, serde_path, var,
};

verus! {

// Parameters and types
// --------------------

/// Adds `::serde::de::Deserialize` to the bounds of each type parameter.
pub fn make_impl_generics(generics: &Generics) -> (r: Generics)
    ensures
        r@ == impl_generics(generics@),
{
    let mut g = generics.dup();
    let mut ty_params: Vec<TyParam> = Vec::new();
    for i in 0..generics.ty_params.len()
        invariant
            ty_params@.len() == i,
            forall|j: int|
                0 <= j < i ==> (#[trigger] ty_params@[j])@ == impl_generics(
                    generics@,
                ).ty_params[j],
    {
        let mut param = generics.ty_params[i].dup();
        let ghost before = param.bounds@;
        param.bounds.push(mk_path_ty(mk_serde_path("Deserialize")));
        proof {
            let bound = path_ty(serde_path("Deserialize"@));
            assert(tys_view(param.bounds@) =~= tys_view(before).push(bound));
            assert(generics@.ty_params[i as int] == generics.ty_params@[i as int]@);
        }
        ty_params.push(param);
    }
    g.ty_params = ty_params;
    assert(g@.ty_params =~= impl_generics(generics@).ty_params);
    g
}

/// The type `ident`, applied to these parameters.
pub fn make_applied_ty(ident: &str, generics: &Generics) -> (r: Ty)
    ensures
        r@ == applied_ty(ident@, generics@),
{
    let mut lifetimes: Vec<String> = Vec::new();
    for i in 0..generics.lifetimes.len()
        invariant
            lifetimes@.len() == i,
            forall|j: int|
                0 <= j < i ==> (#[trigger] lifetimes@[j])@ == generics.lifetimes@[j].name@,
    {
        lifetimes.push(generics.lifetimes[i].name.clone());
    }
    let mut tys: Vec<Ty> = Vec::new();
    for i in 0..generics.ty_params.len()
        invariant
            tys@.len() == i,
            forall|j: int|
                0 <= j < i ==> (#[trigger] tys@[j])@ == ident_ty(
                    generics.ty_params@[j].ident@,
                ),
    {
        tys.push(mk_ident_ty(generics.ty_params[i].ident.as_str()));
    }
    proof {
        let ty = applied_ty(ident@, generics@);
        assert(strings_view(lifetimes@) =~= ty->lifetimes);
        assert forall|j: int| 0 <= j < tys@.len() implies tys_view(tys@)[j] == ty->tys[j] by {
            assert(tys@[j]@ == ident_ty(generics.ty_params@[j].ident@));
        }
        assert(tys_view(tys@) =~= ty->tys);
    }
    Ty::Path { path: mk_ident_path(ident), lifetimes, tys }
}

/// Builds `__Visitor<A, B, ...>(PhantomData<A>, PhantomData<B>, ...)`: the
/// declaration of the visitor, its type, and its value.
pub fn deserialize_visitor(trait_generics: &Generics) -> (r: (Decl, Ty, Expr))
    ensures
        r.0@ == visitor_decl(trait_generics@),
        r.1@ == visitor_ty(trait_generics@),
        r.2@ == visitor_expr(trait_generics@),
{
    if trait_generics.ty_params.len() == 0 {
        (mk_unit_struct("__Visitor"), mk_ident_ty("__Visitor"), mk_var("__Visitor"))
    } else {
        let mut tys: Vec<Ty> = Vec::new();
        let mut args: Vec<Expr> = Vec::new();
        let ghost g = trait_generics@;
        let ghost decl_tys = visitor_decl(g)->tys;
        let ghost expr_args = visitor_expr(g)->Call_args;
        for i in 0..trait_generics.ty_params.len()
            invariant
                g == trait_generics@,
                g.ty_params.len() > 0,
                decl_tys == visitor_decl(g)->tys,
                expr_args == visitor_expr(g)->Call_args,
                tys@.len() == i,
                args@.len() == i,
                forall|j: int| 0 <= j < i ==> (#[trigger] tys@[j])@ == decl_tys[j],
                forall|j: int| 0 <= j < i ==> (#[trigger] args@[j])@ == expr_args[j],
        {
            assert(g.ty_params[i as int] == trait_generics.ty_params@[i as int]@);
            tys.push(mk_phantom_data_ty(trait_generics.ty_params[i].ident.as_str()));
            args.push(mk_path_expr(mk_global_path("std", "marker", "PhantomData")));
        }
        proof {
            assert forall|j: int| 0 <= j < tys@.len() implies tys_view(tys@)[j]
                == decl_tys[j] by {
                assert(tys@[j]@ == decl_tys[j]);
            }
            assert(tys_view(tys@) =~= decl_tys);
            assert forall|j: int| 0 <= j < args@.len() implies exprs_view(args@)[j]
                == expr_args[j] by {
                assert(args@[j]@ == expr_args[j]);
            }
            assert(exprs_view(args@) =~= expr_args);
        }
        (
            mk_struct("__Visitor", trait_generics.dup(), tys),
            make_applied_ty("__Visitor", trait_generics),
            mk_call(mk_ident_path("__Visitor"), args),
        )
    }
}

fn make_visit_method(
    attr: Option<String>,
    ident: &str,
    p: &str,
    bound: &str,
    ty: Ty,
    body: Block,
) -> (r: Method)
    ensures
        r@ == visit_method(
            opt_string_view(attr),
            ident@,
            p@,
            bound@,
            ty@,
            body@,
        ),
{
    Method {
        attr,
        ident: ident.to_owned(),
        ty_param: p.to_owned(),
        bound: mk_serde_path(bound),
        takes_self: true,
        arg: Some(mk_arg(true, "visitor", mk_ident_ty(p))),
        output: mk_result_ty(ty, mk_path_ty(mk_pair_path(p, "Error"))),
        body,
    }
}

fn make_deserialize_method(attr: Option<String>, p: &str, ty: Ty, body: Block) -> (r: Method)
    ensures
        r@ == deserialize_method(opt_string_view(attr), p@, ty@, body@),
{
    Method {
        attr,
        ident: "deserialize".to_owned(),
        ty_param: p.to_owned(),
        bound: mk_serde_path("Deserializer"),
        takes_self: false,
        arg: Some(mk_arg(false, "deserializer", mk_ref_ty(true, mk_ident_ty(p)))),
        output: mk_result_ty(ty, mk_path_ty(mk_pair_path(p, "Error"))),
        body,
    }
}

fn make_visitor_impl(
    generics: Generics,
    trait_ident: &str,
    self_ty: Ty,
    value: Ty,
    method: Method,
) -> (r: Decl)
    ensures
        r@ == visitor_impl(generics@, trait_ident@, self_ty@, value@, method@),
{
    mk_impl(
        None,
        generics,
        mk_serde_path(trait_ident),
        self_ty,
        Some(value),
        mk_methods1(method),
    )
}

fn make_end_stmt() -> (r: Stmt)
    ensures
        r@ == end_stmt(),
{
    mk_semi(mk_try(mk_method0("visitor", "end")))
}

fn make_none_pat() -> (r: Pat)
    ensures
        r@ == none_pat(),
{
    Pat::Path(mk_ident_path("None"))
}

// Unit structs
// ------------

fn make_unit_method(type_ident: &str) -> (r: Method)
    ensures
        r@ == unit_method(type_ident@),
{
    Method {
        attr: Some("inline".to_owned()),
        ident: "visit_unit".to_owned(),
        ty_param: "E".to_owned(),
        bound: mk_serde_path("Error"),
        takes_self: true,
        arg: None,
        output: mk_result_ty(mk_ident_ty(type_ident), mk_ident_ty("E")),
        body: mk_plain_block(mk_ok(mk_var(type_ident))),
    }
}

fn make_unit_seq_method(type_ident: &str) -> (r: Method)
    ensures
        r@ == unit_seq_method(type_ident@),
{
    let mut stmts: Vec<Stmt> = Vec::new();
    push_stmt(&mut stmts, make_end_stmt());
    assert(stmts_view(stmts@) =~= seq![end_stmt()]);
    make_visit_method(
        Some("inline".to_owned()),
        "visit_seq",
        "V",
        "SeqVisitor",
        mk_ident_ty(type_ident),
        mk_block(stmts, mk_method0("self", "visit_unit")),
    )
}

/// The code for a unit struct.
pub fn deserialize_unit_struct(type_ident: &str) -> (r: Expr)
    ensures
        r@ == unit_struct_expr(type_ident@),
{
    let name = mk_str(type_ident);
    let visitor_impl = mk_impl(
        None,
        Generics::none(),
        mk_serde_path("Visitor"),
        mk_ident_ty("__Visitor"),
        Some(mk_ident_ty(type_ident)),
        mk_methods2(make_unit_method(type_ident), make_unit_seq_method(type_ident)),
    );
    let mut stmts: Vec<Stmt> = Vec::new();
    push_stmt(&mut stmts, mk_decl(mk_unit_struct("__Visitor")));
    push_stmt(&mut stmts, mk_decl(visitor_impl));
    assert(stmts_view(stmts@) =~= unit_struct_expr(type_ident@)->Block_0.stmts);
    mk_block_expr(
        stmts,
        mk_method2("deserializer", "visit_named_unit", name, mk_var("__Visitor")),
    )
}

// Sequences
// ---------

fn make_seq_let(i: usize) -> (r: Stmt)
    ensures
        r@ == seq_let(i as nat),
{
    let name = make_field_ident(i);
    let end = mk_return(mk_err(mk_call0(mk_serde_error_path("end_of_stream_error"))));
    let mut arms: Vec<Arm> = Vec::new();
    push_arm(&mut arms, mk_bind_pat("Some", "value"), mk_var("value"));
    push_arm(&mut arms, make_none_pat(), mk_semi_block_expr(end));
    assert(arms_view(arms@) =~= seq_arms());
    mk_let(
        false,
        name.as_str(),
        mk_match(mk_try(mk_method0("visitor", "visit")), arms),
    )
}

/// Reads values from a sequence and calls the constructor `struct_path` on them.
pub fn deserialize_seq(struct_path: Path, fields: usize) -> (r: Expr)
    ensures
        r@ == seq_expr(struct_path@, fields as nat),
{
    let mut stmts: Vec<Stmt> = Vec::new();
    let mut args: Vec<Expr> = Vec::new();
    assert(stmts_view(stmts@) =~= seq_lets(0));
    assert(exprs_view(args@) =~= field_vars(0));
    for i in 0..fields
        invariant
            stmts_view(stmts@) == seq_lets(i as nat),
            exprs_view(args@) == field_vars(i as nat),
    {
        push_stmt(&mut stmts, make_seq_let(i));
        assert(stmts_view(stmts@) =~= seq_lets((i + 1) as nat));
        let name = make_field_ident(i);
        let ghost before = args@;
        args.push(mk_var(name.as_str()));
        assert(exprs_view(args@) =~= exprs_view(before).push(var(field_ident(i as nat))));
        assert(exprs_view(args@) =~= field_vars((i + 1) as nat));
    }
    push_stmt(&mut stmts, make_end_stmt());
    mk_block_expr(stmts, mk_ok(mk_call(struct_path, args)))
}

/// Two statements that are added one after the other.
proof fn lemma_push2(stmts: Seq<SpecStmt>, a: SpecStmt, b: SpecStmt)
    ensures
        stmts.push(a).push(b) == stmts + seq![a, b],
{
    assert(stmts.push(a).push(b) =~= stmts + seq![a, b]);
}

/// Adds the declaration of a visitor and its implementation to a list.
fn push_visitor(stmts: &mut Vec<Stmt>, visitor_item: Decl, visitor_impl: Decl)
    ensures
        stmts_view(final(stmts)@) == stmts_view(old(stmts)@) + seq![
            SpecStmt::Decl(visitor_item@),
            SpecStmt::Decl(visitor_impl@),
        ],
{
    proof {
        lemma_push2(
            stmts_view(stmts@),
            SpecStmt::Decl(visitor_item@),
            SpecStmt::Decl(visitor_impl@),
        );
    }
    push_stmt(stmts, mk_decl(visitor_item));
    push_stmt(stmts, mk_decl(visitor_impl));
}

/// The declarations of a visitor that reads a sequence, and its value.
fn make_seq_visitor(
    generics: &Generics,
    ty: Ty,
    struct_path: Path,
    fields: usize,
) -> (r: (Vec<Stmt>, Expr))
    ensures
        stmts_view(r.0@) == seq_visitor(generics@, ty@, struct_path@, fields as nat),
        r.1@ == visitor_expr(generics@),
{
    let ghost path = struct_path@;
    let (visitor_item, visitor_ty, visitor_expr) = deserialize_visitor(generics);
    let visit_seq_expr = deserialize_seq(struct_path, fields);
    let method = make_visit_method(
        None,
        "visit_seq",
        "__V",
        "SeqVisitor",
        ty.dup(),
        mk_plain_block(visit_seq_expr),
    );
    let visitor_impl = make_visitor_impl(generics.dup(), "Visitor", visitor_ty, ty, method);
    let mut stmts: Vec<Stmt> = Vec::new();
    assert(stmts_view(stmts@) =~= seq![]);
    push_visitor(&mut stmts, visitor_item, visitor_impl);
    assert(stmts_view(stmts@) =~= seq_visitor(generics@, ty@, path, fields as nat));
    (stmts, visitor_expr)
}

/// The code for a tuple struct.
pub fn deserialize_tuple_struct(
    type_ident: &str,
    impl_generics: &Generics,
    ty: Ty,
    fields: usize,
) -> (r: Expr)
    ensures
        r@ == tuple_struct_expr(type_ident@, impl_generics@, ty@, fields as nat),
{
    let (stmts, visitor_expr) = make_seq_visitor(
        impl_generics,
        ty,
        mk_ident_path(type_ident),
        fields,
    );
    let name = mk_str(type_ident);
    mk_block_expr(stmts, mk_method2("deserializer", "visit_named_seq", name, visitor_expr))
}

// Field names
// -----------

fn make_key_arms(keys: &Vec<Lit>) -> (r: Vec<Arm>)
    ensures
        arms_view(r@) == key_arms(lits_view(keys@)),
{
    let mut arms: Vec<Arm> = Vec::new();
    let ghost all = Seq::new(keys@.len(), |i: int| key_arm(lits_view(keys@)[i], i as nat));
    assert(arms_view(arms@) =~= all.take(0));
    for i in 0..keys.len()
        invariant
            all == Seq::new(keys@.len(), |i: int| key_arm(lits_view(keys@)[i], i as nat)),
            arms_view(arms@) == all.take(i as int),
    {
        let name = make_field_ident(i);
        let path = mk_pair_path("__Field", name.as_str());
        push_arm(
            &mut arms,
            Pat::Lit(keys[i].dup()),
            mk_plain_block_expr(mk_ok(mk_path_expr(path))),
        );
        assert(arms_view(arms@) =~= all.take(i + 1));
    }
    assert(all.take(keys@.len() as int) =~= all);
    let unknown = mk_call1(mk_serde_error_path("unknown_field_error"), mk_var("value"));
    push_arm(&mut arms, Pat::Wild, mk_err(unknown));
    arms
}

fn make_str_method(keys: &Vec<Lit>) -> (r: Method)
    ensures
        r@ == str_method(lits_view(keys@)),
{
    Method {
        attr: None,
        ident: "visit_str".to_owned(),
        ty_param: "E".to_owned(),
        bound: mk_serde_path("Error"),
        takes_self: true,
        arg: Some(mk_arg(false, "value", mk_ref_ty(false, mk_ident_ty("str")))),
        output: mk_result_ty(mk_ident_ty("__Field"), mk_ident_ty("E")),
        body: mk_plain_block(mk_match(mk_var("value"), make_key_arms(keys))),
    }
}

fn make_field_body(keys: &Vec<Lit>) -> (r: Block)
    ensures
        r@ == field_body(lits_view(keys@)),
{
    let visitor_impl = make_visitor_impl(
        Generics::none(),
        "Visitor",
        mk_ident_ty("__FieldVisitor"),
        mk_ident_ty("__Field"),
        make_str_method(keys),
    );
    let mut stmts: Vec<Stmt> = Vec::new();
    push_stmt(&mut stmts, mk_decl(mk_unit_struct("__FieldVisitor")));
    push_stmt(&mut stmts, mk_decl(visitor_impl));
    assert(stmts_view(stmts@) =~= field_body(lits_view(keys@)).stmts);
    mk_block(stmts, mk_method1("deserializer", "visit", mk_var("__FieldVisitor")))
}

/// The enum that tells fields apart, and its implementation of `Deserialize`,
/// which knows each field by its key.
pub fn deserialize_field_visitor(keys: &Vec<Lit>) -> (r: Vec<Stmt>)
    ensures
        stmts_view(r@) == field_visitor(lits_view(keys@)),
{
    // Create the field names for the fields.
    let mut variants: Vec<String> = Vec::new();
    for i in 0..keys.len()
        invariant
            variants@.len() == i,
            forall|j: int| 0 <= j < i ==> (#[trigger] variants@[j])@ == field_ident(j as nat),
    {
        variants.push(make_field_ident(i));
    }
    assert(strings_view(variants@) =~= field_idents(keys@.len()));
    let field_enum = Decl::Enum {
        attr: Some("allow(non_camel_case_types)".to_owned()),
        ident: "__Field".to_owned(),
        variants,
    };
    let method = make_deserialize_method(
        Some("inline".to_owned()),
        "D",
        mk_ident_ty("__Field"),
        make_field_body(keys),
    );
    let field_impl = mk_impl(
        None,
        Generics::none(),
        mk_serde_path("Deserialize"),
        mk_ident_ty("__Field"),
        None,
        mk_methods1(method),
    );
    let mut stmts: Vec<Stmt> = Vec::new();
    push_stmt(&mut stmts, mk_decl(field_enum));
    push_stmt(&mut stmts, mk_decl(field_impl));
    assert(stmts_view(stmts@) =~= field_visitor(lits_view(keys@)));
    stmts
}

// Maps
// ----

/// The keys of all fields.
pub fn struct_field_strs(struct_def: &StructDef) -> (r: Vec<Lit>)
    requires
        all_named(struct_def@),
    ensures
        lits_view(r@) == field_keys(struct_def@),
{
    let mut keys: Vec<Lit> = Vec::new();
    for i in 0..struct_def.fields.len()
        invariant
            all_named(struct_def@),
            keys@.len() == i,
            forall|j: int|
                0 <= j < i ==> (#[trigger] keys@[j])@ == field_keys(struct_def@)[j],
    {
        assert(struct_def@[i as int].name is Some);
        keys.push(struct_def.fields[i].key());
    }
    assert(lits_view(keys@) =~= field_keys(struct_def@));
    keys
}

fn make_map_lets(n: usize) -> (r: Vec<Stmt>)
    ensures
        stmts_view(r@) == map_lets(n as nat),
{
    let mut stmts: Vec<Stmt> = Vec::new();
    assert(stmts_view(stmts@) =~= map_lets(0));
    for i in 0..n
        invariant
            stmts_view(stmts@) == map_lets(i as nat),
    {
        let name = make_field_ident(i);
        push_stmt(&mut stmts, mk_let(true, name.as_str(), mk_var("None")));
        assert(stmts_view(stmts@) =~= map_lets((i + 1) as nat));
    }
    stmts
}

fn make_map_loop(n: usize) -> (r: Expr)
    ensures
        r@ == map_loop(n as nat),
{
    let mut arms: Vec<Arm> = Vec::new();
    assert(arms_view(arms@) =~= value_arms(0));
    for i in 0..n
        invariant
            arms_view(arms@) == value_arms(i as nat),
    {
        let name = make_field_ident(i);
        let path = mk_pair_path("__Field", name.as_str());
        let value = mk_some(mk_try(mk_method0("visitor", "visit_value")));
        push_arm(
            &mut arms,
            Pat::Path(path),
            mk_semi_block_expr(mk_assign(name.as_str(), value)),
        );
        assert(arms_view(arms@) =~= value_arms((i + 1) as nat));
    }
    mk_while_let(
        mk_bind_pat("Some", "key"),
        mk_try(mk_method0("visitor", "visit_key")),
        mk_plain_block(mk_match(mk_var("key"), arms)),
    )
}

fn make_extract_let(field: &StructField, i: usize) -> (r: Stmt)
    requires
        field@.name is Some,
    ensures
        r@ == extract_let(field@, i as nat),
{
    let name = make_field_ident(i);
    let missing_expr = if field.default {
        mk_call0(mk_default_path())
    } else {
        mk_try(mk_method1("visitor", "missing_field", mk_lit(field.key())))
    };
    let mut arms: Vec<Arm> = Vec::new();
    push_arm(&mut arms, mk_bind_pat("Some", name.as_str()), mk_var(name.as_str()));
    push_arm(&mut arms, make_none_pat(), missing_expr);
    let r = mk_let(false, name.as_str(), mk_match(mk_var(name.as_str()), arms));
    assert(arms_view(arms@) =~= extract_let(field@, i as nat)->init->Match_arms);
    r
}

fn make_extract_lets(struct_def: &StructDef) -> (r: Vec<Stmt>)
    requires
        all_named(struct_def@),
    ensures
        stmts_view(r@) == extract_lets(struct_def@),
{
    let mut stmts: Vec<Stmt> = Vec::new();
    let ghost all = extract_lets(struct_def@);
    assert(stmts_view(stmts@) =~= all.take(0));
    for i in 0..struct_def.fields.len()
        invariant
            all_named(struct_def@),
            all == extract_lets(struct_def@),
            stmts_view(stmts@) == all.take(i as int),
    {
        assert(struct_def@[i as int].name is Some);
        push_stmt(&mut stmts, make_extract_let(&struct_def.fields[i], i));
        assert(stmts_view(stmts@) =~= all.take(i + 1));
    }
    assert(all.take(struct_def@.len() as int) =~= all);
    stmts
}

fn make_field_inits(struct_def: &StructDef) -> (r: Vec<FieldInit>)
    requires
        all_named(struct_def@),
    ensures
        inits_view(r@) == field_inits(struct_def@),
{
    let mut inits: Vec<FieldInit> = Vec::new();
    let ghost all = field_inits(struct_def@);
    assert(inits_view(inits@) =~= all.take(0));
    for i in 0..struct_def.fields.len()
        invariant
            all_named(struct_def@),
            all == field_inits(struct_def@),
            inits_view(inits@) == all.take(i as int),
    {
        let name = make_field_ident(i);
        let ghost before = inits@;
        assert(struct_def@[i as int].name is Some);
        let ident = match &struct_def.fields[i].kind {
            FieldKind::Named(name) => name.clone(),
            FieldKind::Unnamed => unreached(),
        };
        inits.push(FieldInit { ident, expr: mk_var(name.as_str()) });
        assert(inits_view(inits@) =~= inits_view(before).push(all[i as int]));
        assert(inits_view(inits@) =~= all.take(i + 1));
    }
    assert(all.take(struct_def@.len() as int) =~= all);
    inits
}

/// Reads fields from a map and makes the struct or variant `struct_path` of them.
pub fn deserialize_map(struct_path: Path, struct_def: &StructDef) -> (r: Expr)
    requires
        all_named(struct_def@),
    ensures
        r@ == map_expr(struct_path@, struct_def@),
{
    let n = struct_def.fields.len();

    // Declare each field.
    let mut stmts = make_map_lets(n);
    // Match arms to extract a value for a field.
    push_stmt(&mut stmts, mk_expr_stmt(make_map_loop(n)));
    append_stmts(&mut stmts, make_extract_lets(struct_def));
    push_stmt(&mut stmts, make_end_stmt());
    let result = mk_struct_expr(struct_path, make_field_inits(struct_def));
    mk_block_expr(stmts, mk_ok(result))
}

/// The declarations that tell the fields apart, and the code that reads them.
pub fn deserialize_struct_visitor(
    struct_def: &StructDef,
    struct_path: Path,
) -> (r: (Vec<Stmt>, Expr))
    requires
        all_named(struct_def@),
    ensures
        stmts_view(r.0@) == field_visitor(field_keys(struct_def@)),
        r.1@ == map_expr(struct_path@, struct_def@),
{
    let keys = struct_field_strs(struct_def);
    let field_visitor = deserialize_field_visitor(&keys);
    let visit_map_expr = deserialize_map(struct_path, struct_def);
    (field_visitor, visit_map_expr)
}

/// The declarations of a visitor that reads a map, and its value.
fn make_map_visitor(
    attr: Option<String>,
    generics: &Generics,
    ty: Ty,
    struct_path: Path,
    struct_def: &StructDef,
) -> (r: (Vec<Stmt>, Expr))
    requires
        all_named(struct_def@),
    ensures
        stmts_view(r.0@) == map_visitor(
            opt_string_view(attr),
            generics@,
            ty@,
            struct_path@,
            struct_def@,
        ),
        r.1@ == visitor_expr(generics@),
{
    let (visitor_item, visitor_ty, visitor_expr) = deserialize_visitor(generics);
    let (field_visitor, visit_map_expr) = deserialize_struct_visitor(struct_def, struct_path);
    let method = make_visit_method(
        attr,
        "visit_map",
        "__V",
        "MapVisitor",
        ty.dup(),
        mk_plain_block(visit_map_expr),
    );
    let visitor_impl = make_visitor_impl(generics.dup(), "Visitor", visitor_ty, ty, method);
    let mut stmts = field_visitor;
    push_visitor(&mut stmts, visitor_item, visitor_impl);
    (stmts, visitor_expr)
}

/// The code for a struct with named fields.
pub fn deserialize_struct(
    type_ident: &str,
    impl_generics: &Generics,
    ty: Ty,
    struct_def: &StructDef,
) -> (r: Expr)
    requires
        all_named(struct_def@),
    ensures
        r@ == struct_expr(type_ident@, impl_generics@, ty@, struct_def@),
{
    let (stmts, visitor_expr) = make_map_visitor(
        Some("inline".to_owned()),
        impl_generics,
        ty,
        mk_ident_path(type_ident),
        struct_def,
    );
    let name = mk_str(type_ident);
    mk_block_expr(stmts, mk_method2("deserializer", "visit_named_map", name, visitor_expr))
}

/// The code for a struct, by the form of its fields.
pub fn deserialize_item_struct(
    type_ident: &str,
    impl_generics: &Generics,
    ty: Ty,
    struct_def: &StructDef,
) -> (r: Expr)
    requires
        all_named(struct_def@) || all_unnamed(struct_def@),
    ensures
        r@ == item_struct_expr(type_ident@, impl_generics@, ty@, struct_def@),
{
    let mut named_fields: usize = 0;
    let mut unnamed_fields: usize = 0;
    for i in 0..struct_def.fields.len()
        invariant
            all_named(struct_def@) || all_unnamed(struct_def@),
            named_fields + unnamed_fields == i,
            all_named(struct_def@) ==> unnamed_fields == 0,
            all_unnamed(struct_def@) ==> named_fields == 0,
    {
        assert(struct_def@[i as int] == struct_def.fields@[i as int]@);
        match struct_def.fields[i].kind {
            FieldKind::Named(_) => {
                named_fields = named_fields + 1;
            },
            FieldKind::Unnamed => {
                unnamed_fields = unnamed_fields + 1;
            },
        }
    }
    proof {
        if struct_def@.len() > 0 {
            assert(struct_def@[0].name is Some || struct_def@[0].name is None);
        }
    }
    if named_fields == 0 && unnamed_fields == 0 {
        deserialize_unit_struct(type_ident)
    } else if named_fields == 0 {
        deserialize_tuple_struct(type_ident, impl_generics, ty, unnamed_fields)
    } else {
        deserialize_struct(type_ident, impl_generics, ty, struct_def)
    }
}

// Enums
// -----

/// The code for a variant with unnamed fields.
pub fn deserialize_tuple_variant(
    type_ident: &str,
    variant_ident: &str,
    generics: &Generics,
    ty: Ty,
    fields: usize,
) -> (r: Expr)
    ensures
        r@ == tuple_variant_expr(
            pair_path(type_ident@, variant_ident@),
            generics@,
            ty@,
            fields as nat,
        ),
{
    let (stmts, visitor_expr) = make_seq_visitor(
        generics,
        ty,
        mk_pair_path(type_ident, variant_ident),
        fields,
    );
    mk_block_expr(stmts, mk_method1("visitor", "visit_seq", visitor_expr))
}

/// The code for a variant with named fields.
pub fn deserialize_struct_variant(
    type_ident: &str,
    variant_ident: &str,
    generics: &Generics,
    ty: Ty,
    struct_def: &StructDef,
) -> (r: Expr)
    requires
        all_named(struct_def@),
    ensures
        r@ == struct_variant_expr(
            pair_path(type_ident@, variant_ident@),
            generics@,
            ty@,
            struct_def@,
        ),
{
    let (stmts, visitor_expr) = make_map_visitor(
        None,
        generics,
        ty,
        mk_pair_path(type_ident, variant_ident),
        struct_def,
    );
    mk_block_expr(stmts, mk_method1("visitor", "visit_map", visitor_expr))
}

/// The code for a variant, by its form.
pub fn deserialize_variant(
    type_ident: &str,
    generics: &Generics,
    ty: Ty,
    variant: &Variant,
) -> (r: Expr)
    requires
        variant_ok(variant@),
    ensures
        r@ == variant_expr(type_ident@, generics@, ty@, variant@),
{
    let variant_ident = variant.name.as_str();
    match &variant.kind {
        VariantKind::Tuple(args) if *args == 0 => {
            let mut stmts: Vec<Stmt> = Vec::new();
            push_stmt(&mut stmts, mk_semi(mk_try(mk_method0("visitor", "visit_unit"))));
            let path = mk_pair_path(type_ident, variant_ident);
            assert(stmts_view(stmts@) =~= unit_variant_expr(path@)->Block_0.stmts);
            mk_block_expr(stmts, mk_ok(mk_path_expr(path)))
        },
        VariantKind::Tuple(args) => deserialize_tuple_variant(
            type_ident,
            variant_ident,
            generics,
            ty,
            *args,
        ),
        VariantKind::Struct(struct_def) => deserialize_struct_variant(
            type_ident,
            variant_ident,
            generics,
            ty,
            struct_def,
        ),
    }
}

fn make_variant_keys(enum_def: &EnumDef) -> (r: Vec<Lit>)
    ensures
        lits_view(r@) == variant_keys(enum_def@),
{
    let mut keys: Vec<Lit> = Vec::new();
    for i in 0..enum_def.variants.len()
        invariant
            keys@.len() == i,
            forall|j: int|
                0 <= j < i ==> (#[trigger] keys@[j])@ == variant_keys(enum_def@)[j],
    {
        keys.push(Lit::Str(enum_def.variants[i].name.clone()));
    }
    assert(lits_view(keys@) =~= variant_keys(enum_def@));
    keys
}

fn make_variant_arms(
    type_ident: &str,
    generics: &Generics,
    ty: &Ty,
    enum_def: &EnumDef,
) -> (r: Vec<Arm>)
    requires
        forall|i: int| 0 <= i < enum_def@.len() ==> #[trigger] variant_ok(enum_def@[i]),
    ensures
        arms_view(r@) == variant_arms(type_ident@, generics@, ty@, enum_def@),
{
    let mut arms: Vec<Arm> = Vec::new();
    let ghost all = variant_arms(type_ident@, generics@, ty@, enum_def@);
    assert(arms_view(arms@) =~= all.take(0));
    for i in 0..enum_def.variants.len()
        invariant
            forall|i: int| 0 <= i < enum_def@.len() ==> #[trigger] variant_ok(enum_def@[i]),
            all == variant_arms(type_ident@, generics@, ty@, enum_def@),
            arms_view(arms@) == all.take(i as int),
    {
        let name = make_field_ident(i);
        let variant_name = mk_pair_path("__Field", name.as_str());
        assert(variant_ok(enum_def@[i as int]));
        let expr = deserialize_variant(type_ident, generics, ty.dup(), &enum_def.variants[i]);
        push_arm(&mut arms, Pat::Path(variant_name), mk_plain_block_expr(expr));
        assert(arms_view(arms@) =~= all.take(i + 1));
    }
    assert(all.take(enum_def@.len() as int) =~= all);
    arms
}

/// The code for an enum.
pub fn deserialize_item_enum(
    type_ident: &str,
    impl_generics: &Generics,
    ty: Ty,
    enum_def: &EnumDef,
) -> (r: Expr)
    requires
        forall|i: int| 0 <= i < enum_def@.len() ==> #[trigger] variant_ok(enum_def@[i]),
    ensures
        r@ == item_enum_expr(type_ident@, impl_generics@, ty@, enum_def@),
{
    let name = mk_str(type_ident);
    let keys = make_variant_keys(enum_def);
    let variant_visitor = deserialize_field_visitor(&keys);

    // Match arms to extract a variant from a string
    let variant_arms = make_variant_arms(type_ident, impl_generics, &ty, enum_def);
    let (visitor_item, visitor_ty, visitor_expr) = deserialize_visitor(impl_generics);
    let method = make_visit_method(
        None,
        "visit",
        "__V",
        "VariantVisitor",
        ty.dup(),
        mk_plain_block(mk_match(mk_try(mk_method0("visitor", "visit_variant")), variant_arms)),
    );
    let visitor_impl = make_visitor_impl(
        impl_generics.dup(),
        "EnumVisitor",
        visitor_ty,
        ty,
        method,
    );
    let mut stmts = variant_visitor;
    push_visitor(&mut stmts, visitor_item, visitor_impl);
    mk_block_expr(stmts, mk_method2("deserializer", "visit_enum", name, visitor_expr))
}

// The implementation
// ------------------

/// The body of `deserialize`.
pub fn deserialize_body(item: &Item, impl_generics: &Generics, ty: Ty) -> (r: Expr)
    requires
        derivable(item@),
    ensures
        r@ == body_expr(item@, impl_generics@, ty@),
{
    match &item.node {
        ItemKind::Struct(struct_def, _) => deserialize_item_struct(
            item.ident.as_str(),
            impl_generics,
            ty,
            struct_def,
        ),
        ItemKind::Enum(enum_def, _) => deserialize_item_enum(
            item.ident.as_str(),
            impl_generics,
            ty,
            enum_def,
        ),
        ItemKind::Other => unreached(),
    }
}

/// Derives the implementation of `Deserialize` for an item and adds it to `push`.
pub fn expand_derive_deserialize(item: &Item, push: &mut Vec<Decl>)
    requires
        derivable(item@),
    ensures
        decls_view(final(push)@) == decls_view(old(push)@).push(
            SpecDecl::Impl(derived_impl(item@)),
        ),
{
    let impl_generics = match &item.node {
        ItemKind::Struct(_, generics) => make_impl_generics(generics),
        ItemKind::Enum(_, generics) => make_impl_generics(generics),
        ItemKind::Other => unreached(),
    };
    let ty = make_applied_ty(item.ident.as_str(), &impl_generics);
    let body = deserialize_body(item, &impl_generics, ty.dup());
    let method = make_deserialize_method(None, "__D", ty.dup(), mk_plain_block(body));
    let impl_item = mk_impl(
        Some("automatically_derived".to_owned()),
        impl_generics,
        mk_serde_path("Deserialize"),
        ty,
        None,
        mk_methods1(method),
    );
    push.push(impl_item);
    assert(decls_view(push@) =~= decls_view(old(push)@).push(
        SpecDecl::Impl(derived_impl(item@)),
    ));
}

} // verus!
