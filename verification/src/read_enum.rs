//! How generated code reads the variants of an enum.
use vstd::prelude::*;

use crate::ast::{field_keys, SpecField, SpecVariant, SpecVariantKind};
use crate::code::{SpecDecl, SpecExpr, SpecGenerics, SpecPath, SpecStmt, SpecTy};
use crate::meaning::{
    block_decls, delivered, effect, eval, method_effect, op, run_method, start, visible,
    visitor_call, Context, Fault, Flow, Input, State, Val,
};
use crate::outcome::{
    enum_value, field_val, key_index, mismatch, record_result, record_value, string_keys,
    tuple_result, tuple_value, unit_variant_result, variant_result, variant_string_keys,
};
use crate::read_key::{lemma_field_arms, lemma_key_index_bound, lemma_run_key, reads_keys};
use crate::read_map::lemma_map_expr;
use crate::read_seq::lemma_seq_expr;
use crate::requests::{asked, enum_trace, record_trace, tuple_trace, variant_trace};
use crate::shape::{
    enum_method, map_method, map_visitor, seq_method, seq_visitor, struct_variant_expr,
    tuple_variant_expr, unit_variant_expr, variant_arms, variant_expr, variant_keys, visitor_expr,
    visitor_impl, visitor_ty,
};
use crate::steps::{
    lemma_block_flow, lemma_call1, lemma_calls, lemma_method0, lemma_method1, lemma_no_decls,
    lemma_ops, lemma_parties, lemma_plain_flow, lemma_stmts1,
};
use crate::tree::{
    block_expr, ident_path, match_expr, method0, method1, ok_expr, pair_path, try_expr,
};
use crate::visitors::{
    all_decls, lemma_decl_block, lemma_delivered, lemma_field_visitor_decls, lemma_reads_keys,
    lemma_seq_visitor_decls, lemma_single_visitor, lemma_trait_names, lemma_visitor_value,
    visitor_val,
};

verus! {

/// Where an input is read without failing, it is so for each value.
proof fn lemma_delivered_success(input: Input, a: Val, b: Val)
    ensures
        ({
            let v = delivered(input, Val::Success(Box::new(a)));
            let w = delivered(input, Val::Success(Box::new(b)));
            (v == Val::Success(Box::new(a)) && w == Val::Success(Box::new(b))) || (v is Failure && w
                == v)
        }),
    decreases input,
{
    if let Input::Spoiled { input: inner, .. } = input {
        lemma_delivered_success(*inner, a, b);
    }
}

/// Where an input does not fit, it does not.
proof fn lemma_delivered_mismatch(input: Input)
    ensures
        delivered(input, mismatch()) is Failure,
    decreases input,
{
    if let Input::Spoiled { input: inner, .. } = input {
        lemma_delivered_mismatch(*inner);
    }
}

/// A unit variant.
proof fn lemma_unit_variant(depth: nat, c: Context, path: SpecPath, s: State)
    requires
        depth > 0,
        c.input is Variant,
        path.segments.len() == 2,
        s.env.len() == 0,
    ensures
        method_effect(eval(depth, c, unit_variant_expr(path), s)) == (
            Flow::Done(unit_variant_result(path.segments, *c.input->content)),
            s.trace.push(asked("visit_unit"@)),
        ),
{
    let first = SpecStmt::Semi(try_expr(method0("visitor"@, "visit_unit"@)));
    let tail = ok_expr(SpecExpr::Path(path));
    lemma_ops();
    lemma_parties();
    lemma_no_decls(seq![first]);
    lemma_block_flow(depth, c, seq![first], tail, s);
    lemma_stmts1(depth, c, first, s);
    lemma_method0(depth, c, "visitor"@, "visit_unit"@, s);
    let v = Val::Tuple { path: path.segments, args: seq![] };
    assert(ident_path("None"@).segments.len() == 1);
    let s1 = State { trace: s.trace.push(asked("visit_unit"@)), ..s };
    assert(eval(depth, c, SpecExpr::Path(path), s1) == (Flow::Done(v), s1));
    lemma_call1(depth, c, ident_path("Ok"@), SpecExpr::Path(path), s1, v);
    lemma_calls(v, Fault::EndOfStream, seq![]);
    lemma_delivered_success(*c.input->content, Val::Unit, v);
    lemma_delivered_mismatch(*c.input->content);
}

/// A block of items that ends in a call of the visitor.
proof fn lemma_visitor_block(
    depth: nat,
    c: Context,
    stmts: Seq<SpecStmt>,
    f: Seq<char>,
    g: SpecGenerics,
    s: State,
)
    requires
        depth > 0,
        all_decls(stmts),
        s.env.len() == 0,
    ensures
        effect(
            eval(depth, c, block_expr(stmts, method1("visitor"@, f, visitor_expr(g))), s),
        ) == effect(
            visitor_call(
                (depth - 1) as nat,
                Context { scope: c.scope + block_decls(stmts), ..c },
                op(f),
                seq![visitor_val(g)],
                State { trace: s.trace.push(asked(f)), ..s },
            ),
        ),
{
    let inner = Context { scope: c.scope + block_decls(stmts), ..c };
    lemma_parties();
    lemma_decl_block(depth, c, stmts, method1("visitor"@, f, visitor_expr(g)), s);
    lemma_visitor_value(depth, inner, g, s);
    lemma_method1(depth, inner, "visitor"@, f, visitor_expr(g), s, visitor_val(g));
    assert(seq![visitor_val(g)][0] == visitor_val(g));
}

/// A variant with unnamed fields.
proof fn lemma_tuple_variant(
    depth: nat,
    c: Context,
    path: SpecPath,
    g: SpecGenerics,
    ty: SpecTy,
    n: nat,
    s: State,
)
    requires
        depth >= 2,
        c.input is Variant,
        !path.global,
        path.segments.len() == 2,
        s.env.len() == 0,
    ensures
        effect(eval(depth, c, tuple_variant_expr(path, g, ty, n), s)) == (
            Flow::Done(tuple_result(path.segments, n, *c.input->content)),
            s.trace + (seq![asked("visit_seq"@)] + tuple_trace(n, *c.input->content)),
        ),
{
    let stmts = seq_visitor(g, ty, path, n);
    let scope = c.scope + block_decls(stmts);
    lemma_ops();
    lemma_seq_visitor_decls(g, ty, path, n);
    lemma_visitor_block(depth, c, stmts, "visit_seq"@, g, s);
    assert(seq![visitor_val(g)][0] == visitor_val(g));
    let content = *c.input->content;
    let seen = visible(content);
    if let Input::List { items, end } = seen {
        let m = seq_method(ty, path, n);
        assert(scope.last() == visitor_impl(g, "Visitor"@, visitor_ty(g), ty, m));
        lemma_single_visitor((depth - 1) as nat, scope, g, ty, m, seen);
        assert(ident_path("Ok"@).segments.len() == 1);
        assert(ident_path("Err"@).segments.len() == 1);
        assert(ident_path("Some"@).segments.len() == 1);
        let inner = Context { scope, methods: seq![m], input: seen };
        lemma_seq_expr((depth - 1) as nat, inner, path, n, items, end);
        let v = tuple_value(path.segments, n, seen);
        let trace = tuple_trace(n, content);
        lemma_delivered((depth - 1) as nat, scope, visitor_val(g), content, v, trace);
    }
    let first = asked("visit_seq"@);
    let trace = tuple_trace(n, content);
    assert(s.trace.push(first) + trace =~= s.trace + (seq![first] + trace));
    if !(seen is List) {
        assert(s.trace.push(first) =~= s.trace + (seq![first] + trace));
    }
}

/// A variant with named fields.
proof fn lemma_struct_variant(
    depth: nat,
    c: Context,
    path: SpecPath,
    g: SpecGenerics,
    ty: SpecTy,
    fields: Seq<SpecField>,
    s: State,
)
    requires
        depth >= 3,
        c.input is Variant,
        s.env.len() == 0,
        string_keys(field_keys(fields)),
    ensures
        effect(eval(depth, c, struct_variant_expr(path, g, ty, fields), s)) == (
            Flow::Done(record_result(path.segments, fields, *c.input->content)),
            s.trace + (seq![asked("visit_map"@)] + record_trace(fields, *c.input->content)),
        ),
{
    let keys = field_keys(fields);
    let stmts = map_visitor(None, g, ty, path, fields);
    let scope = c.scope + block_decls(stmts);
    let m = map_method(None, ty, path, fields);
    let visitor = visitor_impl(g, "Visitor"@, visitor_ty(g), ty, m);
    lemma_ops();
    lemma_field_visitor_decls(keys, g, visitor);
    lemma_visitor_block(depth, c, stmts, "visit_map"@, g, s);
    assert(seq![visitor_val(g)][0] == visitor_val(g));
    let content = *c.input->content;
    let seen = visible(content);
    if let Input::Table { entries, missing, end } = seen {
        assert(scope.last() == visitor);
        lemma_single_visitor((depth - 1) as nat, scope, g, ty, m, seen);
        lemma_trait_names();
        lemma_reads_keys(c.scope, keys, g, visitor);
        let inner = Context { scope, methods: seq![m], input: seen };
        lemma_map_expr((depth - 1) as nat, inner, path, fields, entries, missing, end);
        let v = record_value(path.segments, fields, seen);
        let trace = record_trace(fields, content);
        lemma_delivered((depth - 1) as nat, scope, visitor_val(g), content, v, trace);
    }
    let first = asked("visit_map"@);
    let trace = record_trace(fields, content);
    assert(s.trace.push(first) + trace =~= s.trace + (seq![first] + trace));
    if !(seen is Table) {
        assert(s.trace.push(first) =~= s.trace + (seq![first] + trace));
    }
}

/// Any variant.
proof fn lemma_variant(
    depth: nat,
    c: Context,
    ident: Seq<char>,
    g: SpecGenerics,
    ty: SpecTy,
    variant: SpecVariant,
    s: State,
)
    requires
        depth >= 3,
        c.input is Variant,
        s.env.len() == 0,
        variant_string_keys(variant),
    ensures
        method_effect(eval(depth, c, variant_expr(ident, g, ty, variant), s)) == (
            Flow::Done(variant_result(ident, variant, *c.input->content)),
            s.trace + variant_trace(variant, *c.input->content),
        ),
{
    let path = pair_path(ident, variant.name);
    assert(path.segments =~= seq![ident, variant.name]);
    match variant.kind {
        SpecVariantKind::Tuple(n) => if n == 0 {
            lemma_unit_variant(depth, c, path, s);
            assert(s.trace.push(asked("visit_unit"@)) =~= s.trace + variant_trace(
                variant,
                *c.input->content,
            ));
        } else {
            lemma_tuple_variant(depth, c, path, g, ty, n, s);
        },
        SpecVariantKind::Struct(fields) => {
            lemma_struct_variant(depth, c, path, g, ty, fields, s);
        },
    }
}

/// `visit` of an enum's visitor.
pub proof fn lemma_enum_method(
    depth: nat,
    scope: Seq<SpecDecl>,
    ident: Seq<char>,
    g: SpecGenerics,
    ty: SpecTy,
    variants: Seq<SpecVariant>,
    input: Input,
)
    requires
        depth >= 3,
        input is Variant,
        reads_keys(scope, variant_keys(variants)),
        forall|i: int| 0 <= i < variants.len() ==> #[trigger] variant_string_keys(variants[i]),
    ensures
        ({
            let m = enum_method(ident, g, ty, variants);
            run_method(depth, scope, seq![m], m, seq![], input) == (
                Flow::Done(enum_value(ident, variants, input)),
                enum_trace(variants, input),
            )
        }),
{
    let keys = variant_keys(variants);
    let m = enum_method(ident, g, ty, variants);
    let c = Context { scope, methods: seq![m], input };
    let s = start(seq![]);
    let key = try_expr(method0("visitor"@, "visit_variant"@));
    let arms = variant_arms(ident, g, ty, variants);
    let e = match_expr(key, arms);
    lemma_ops();
    lemma_parties();
    lemma_plain_flow(depth, c, e, s);
    lemma_method0(depth, c, "visitor"@, "visit_variant"@, s);
    let s1 = State { trace: seq![asked("visit_variant"@)], ..s };
    assert(s.trace.push(asked("visit_variant"@)) =~= s1.trace);
    if let Ok(name) = input->name {
        lemma_run_key((depth - 1) as nat, scope, keys, name);
        if let Some(i) = key_index(keys, name, 0) {
            lemma_key_index_bound(keys, name, 0);
            assert(eval(depth, c, key, s) == (Flow::Done(field_val(i)), s1));
            assert(arms.skip(0) =~= arms);
            lemma_field_arms(depth, c, arms, i, 0, s1);
            let variant = variants[i as int];
            assert(variant_string_keys(variant));
            lemma_plain_flow(depth, c, variant_expr(ident, g, ty, variant), s1);
            lemma_variant(depth, c, ident, g, ty, variant, s1);
        }
    }
}

} // verus!
