//! How the visitors of structs and enums take an input.
use vstd::prelude::*;

use crate::ast::{field_keys, SpecField, SpecVariant};
use crate::code::{SpecDecl, SpecGenerics, SpecPath, SpecTy};
use crate::meaning::{block_decls, call_visitor, is_prelude_fn, Context, Flow, Input};
use crate::outcome::{enum_value, record_value, string_keys, tuple_value, variant_string_keys};
use crate::read_enum::lemma_enum_method;
use crate::read_map::lemma_map_expr;
use crate::read_seq::lemma_seq_expr;
use crate::requests::{enum_trace, record_trace, tuple_trace};
use crate::shape::{
    enum_method, field_enum, field_impl, item_enum_expr, map_method, map_visitor, seq_method,
    seq_visitor, variant_keys, visitor_decl, visitor_impl, visitor_ty,
};
use crate::visitors::{
    lemma_field_visitor_decls, lemma_method_names, lemma_no_visitor, lemma_reads_keys,
    lemma_seq_visitor_decls, lemma_single_visitor, lemma_trait_names, visitor_val,
};

verus! {

/// An input that does not fail before or behind what it holds.
pub open spec fn plain(input: Input) -> bool {
    !(input is Broken) && !(input is Spoiled)
}

/// The visitor of a tuple struct.
pub proof fn lemma_tuple_visitor(
    depth: nat,
    g: SpecGenerics,
    ty: SpecTy,
    path: SpecPath,
    n: nat,
    input: Input,
)
    requires
        depth >= 1,
        plain(input),
        !path.global,
        !is_prelude_fn(path),
    ensures
        call_visitor(
            depth,
            block_decls(seq_visitor(g, ty, path, n)),
            visitor_val(g),
            input,
        ) == (Flow::Done(tuple_value(path.segments, n, input)), tuple_trace(n, input)),
{
    let m = seq_method(ty, path, n);
    let scope = seq![visitor_decl(g), visitor_impl(g, "Visitor"@, visitor_ty(g), ty, m)];
    lemma_seq_visitor_decls(g, ty, path, n);
    lemma_method_names();
    if input is Variant {
        lemma_trait_names();
        lemma_no_visitor(depth, scope, g, input);
    } else {
        lemma_single_visitor(depth, scope, g, ty, m, input);
    }
    if let Input::List { items, end } = input {
        let c = Context { scope, methods: seq![m], input };
        lemma_seq_expr(depth, c, path, n, items, end);
    }
}

/// The visitor of a struct with named fields.
pub proof fn lemma_record_visitor(
    depth: nat,
    attr: Option<Seq<char>>,
    g: SpecGenerics,
    ty: SpecTy,
    path: SpecPath,
    fields: Seq<SpecField>,
    input: Input,
)
    requires
        depth >= 2,
        plain(input),
        string_keys(field_keys(fields)),
    ensures
        call_visitor(
            depth,
            block_decls(map_visitor(attr, g, ty, path, fields)),
            visitor_val(g),
            input,
        ) == (Flow::Done(record_value(path.segments, fields, input)), record_trace(fields, input)),
{
    let keys = field_keys(fields);
    let m = map_method(attr, ty, path, fields);
    let visitor = visitor_impl(g, "Visitor"@, visitor_ty(g), ty, m);
    let scope = seq![field_enum(keys.len()), field_impl(keys), visitor_decl(g), visitor];
    lemma_field_visitor_decls(keys, g, visitor);
    lemma_method_names();
    lemma_trait_names();
    if input is Variant {
        lemma_no_visitor(depth, scope, g, input);
    } else {
        lemma_single_visitor(depth, scope, g, ty, m, input);
    }
    if let Input::Table { entries, missing, end } = input {
        lemma_reads_keys(seq![], keys, g, visitor);
        assert(Seq::<SpecDecl>::empty() + scope =~= scope);
        let c = Context { scope, methods: seq![m], input };
        lemma_map_expr(depth, c, path, fields, entries, missing, end);
    }
}

/// The visitor of an enum.
pub proof fn lemma_enum_visitor(
    depth: nat,
    ident: Seq<char>,
    g: SpecGenerics,
    ty: SpecTy,
    variants: Seq<SpecVariant>,
    input: Input,
)
    requires
        depth >= 3,
        plain(input),
        forall|i: int| 0 <= i < variants.len() ==> #[trigger] variant_string_keys(variants[i]),
    ensures
        call_visitor(
            depth,
            block_decls(item_enum_expr(ident, g, ty, variants)->Block_0.stmts),
            visitor_val(g),
            input,
        ) == (Flow::Done(enum_value(ident, variants, input)), enum_trace(variants, input)),
{
    let keys = variant_keys(variants);
    let m = enum_method(ident, g, ty, variants);
    let visitor = visitor_impl(g, "EnumVisitor"@, visitor_ty(g), ty, m);
    let scope = seq![field_enum(keys.len()), field_impl(keys), visitor_decl(g), visitor];
    lemma_field_visitor_decls(keys, g, visitor);
    lemma_trait_names();
    if input is Variant {
        lemma_single_visitor(depth, scope, g, ty, m, input);
        lemma_reads_keys(seq![], keys, g, visitor);
        assert(Seq::<SpecDecl>::empty() + scope =~= scope);
        lemma_enum_method(depth, scope, ident, g, ty, variants, input);
    } else {
        lemma_no_visitor(depth, scope, g, input);
    }
}

} // verus!
