//! The laws of derived code as code: that its text says what the tree says, that
//! it keeps the rules of Rust, and what it takes over from the item.
use vstd::prelude::*;

use crate::ast::{
    all_named, all_unnamed, derivable, field_key, field_keys, item_rejection, variant_ok,
    Rejection, SpecField, SpecItem, SpecItemKind, SpecVariant, SpecVariantKind,
};
use crate::code::{
    SpecArm, SpecBlock, SpecDecl, SpecExpr, SpecFieldInit, SpecGenerics, SpecLit, SpecMethod,
    SpecPat, SpecPath, SpecStmt, SpecTraitImpl, SpecTy,
};
use crate::keeps::{lemma_body_rules, lemma_is_applied, lemma_keeps_rules};
use crate::laws::law_deserialize;
use crate::meaning::{run, Flow, Input};
use crate::names::{decimal, digit, field_ident};
use crate::outcome::{item_result, well_named};
use crate::parse::{read_expr, read_item, read_ty};
use crate::print::{decl_text, expr_text, lit_text, ty_text, tys_texts};
use crate::requests::item_trace;
use crate::rules::{
    clear_names, expr_known, is_applied, is_global, is_pair, is_param_ty, is_phantom_ty, is_single,
    keeps_rules, no_params, uses_params, Scope,
};
use crate::shape::{
    applied_ty, body_expr, derived_impl, enum_method, extract_let, field_body, field_enum,
    field_impl, field_inits, field_vars, field_visitor, impl_generics, item_generics, item_ty,
    key_arm, key_arms, map_expr, map_method, map_visitor, seq_expr, seq_method, seq_visitor,
    str_method, variant_arms, variant_keys, visitor_decl, visitor_expr, visitor_ty,
};
use crate::source::{
    decl_ok, expr_ends, expr_ok, flat_decl, item_names_ok, text_decl, text_expr, ty_ends, ty_ok,
};
use crate::text_code::{lemma_decl, lemma_expr};
use crate::text_derived::lemma_derived_ok;
use crate::text_exact::{lemma_same_decl, lemma_same_expr};
use crate::text_meaning::lemma_flat_run;
use crate::text_types::{lemma_join_one, lemma_ty};
use crate::tree::{ident_path, ident_ty, pair_path};

verus! {

// Source text
// -----------

/// The source text of an item, read by a parser, is that item. In particular the
/// arms of a match, the arguments of a call, the statements of a block and all
/// other parts stand in it each once and in their order, however many there are.
pub proof fn law_source(d: SpecDecl)
    requires
        decl_ok(d),
    ensures
        read_item(decl_text(d)) == Some(flat_decl(d)),
{
    let none = Seq::<char>::empty();
    lemma_decl(decl_text(d).len(), d, none);
    assert(decl_text(d) + none =~= decl_text(d));
}

/// Where the bounds and defaults of parameters are carried along as text, the
/// item that is read is the very same.
pub proof fn law_source_exact(d: SpecDecl)
    requires
        decl_ok(d),
        text_decl(d),
    ensures
        read_item(decl_text(d)) == Some(d),
{
    law_source(d);
    lemma_same_decl(d);
}

/// The same of an expression, wherever it stands: what follows it is left.
pub proof fn law_source_expr(e: SpecExpr, rest: Seq<char>)
    requires
        expr_ok(e),
        text_expr(e),
        expr_ends(rest, true),
    ensures
        read_expr(expr_text(e).len(), expr_text(e) + rest, true) == Some((e, rest)),
{
    lemma_expr(expr_text(e).len(), e, true, rest);
    lemma_same_expr(e);
}

/// The same of a type.
pub proof fn law_source_ty(ty: SpecTy, rest: Seq<char>)
    requires
        ty_ok(ty),
        ty_ends(rest),
    ensures
        read_ty(ty_text(ty).len(), ty_text(ty) + rest) == Some((ty, rest)),
{
    lemma_ty(ty_text(ty).len(), ty, rest);
}

/// Items with the same source text are the same item, but for how bounds and
/// defaults are taken apart.
pub proof fn law_source_tells(a: SpecDecl, b: SpecDecl)
    requires
        decl_ok(a),
        decl_ok(b),
        decl_text(a) == decl_text(b),
    ensures
        flat_decl(a) == flat_decl(b),
{
    law_source(a);
    law_source(b);
}

/// What is carried along as source text is written as it is.
pub proof fn law_verbatim(s: Seq<char>)
    ensures
        ty_text(SpecTy::Verbatim(s)) == s,
        lit_text(SpecLit::Verbatim(s)) == s,
{
}

/// An argument of a type stands in the type's text as its own text.
pub proof fn law_ty_parts(
    path: SpecPath,
    lifetimes: Seq<Seq<char>>,
    tys: Seq<SpecTy>,
    i: int,
)
    requires
        0 <= i < tys.len(),
    ensures
        ty_text(SpecTy::Path { path, lifetimes, tys }) == ty_text(
            SpecTy::Path {
                path,
                lifetimes,
                tys: tys.update(i, SpecTy::Verbatim(ty_text(tys[i]))),
            },
        ),
{
    let other = tys.update(i, SpecTy::Verbatim(ty_text(tys[i])));
    assert forall|j: int| 0 <= j < tys.len() implies #[trigger] tys_texts(tys)[j] == tys_texts(
        other,
    )[j] by {
        assert(ty_text(tys[j]) == ty_text(other[j]));
    }
    assert(tys_texts(tys) =~= tys_texts(other));
}

/// The source text of a derived implementation, read by a parser, is that
/// implementation, for every item whose names are identifiers. What holds of the
/// tree holds of the text.
pub proof fn law_derived_source(item: SpecItem)
    requires
        derivable(item),
        item_names_ok(item),
    ensures
        ({
            let d = SpecDecl::Impl(derived_impl(item));
            decl_ok(d) && read_item(decl_text(d)) == Some(flat_decl(d))
        }),
{
    lemma_derived_ok(item);
    law_source(SpecDecl::Impl(derived_impl(item)));
}

/// What is read back runs like what was written: with the same value or error,
/// and the same calls.
pub proof fn law_source_runs(depth: nat, i: SpecTraitImpl, input: Input)
    requires
        decl_ok(SpecDecl::Impl(i)),
    ensures
        read_item(decl_text(SpecDecl::Impl(i))) matches Some(SpecDecl::Impl(j)) && run(
            depth,
            j,
            input,
        ) == run(depth, i, input),
{
    law_source(SpecDecl::Impl(i));
    lemma_flat_run(depth, i, input);
}

/// The source text that is handed out for an item, read by a parser and run,
/// reads every input as what it stands for, with the calls that this takes and no
/// others.
pub proof fn law_text_deserializes(depth: nat, item: SpecItem, input: Input)
    requires
        depth >= 4,
        derivable(item),
        well_named(item),
        item_names_ok(item),
    ensures
        read_item(decl_text(SpecDecl::Impl(derived_impl(item)))) matches Some(SpecDecl::Impl(j))
            && run(depth, j, input) == (
            Flow::Done(item_result(item, input)),
            item_trace(item, input),
        ),
{
    lemma_derived_ok(item);
    law_source_runs(depth, derived_impl(item), input);
    law_deserialize(depth, item, input);
}

/// A name that is this text.
pub open spec fn as_name(text: Seq<char>) -> SpecExpr {
    SpecExpr::Path(SpecPath { global: false, segments: seq![text] })
}

/// What a method is called on, and what is matched, stand as their own text in
/// the text around, whatever they are.
pub proof fn law_expr_parts(
    e: SpecExpr,
    ident: Seq<char>,
    args: Seq<SpecExpr>,
    arms: Seq<SpecArm>,
    pat: SpecPat,
    body: SpecBlock,
)
    ensures
        expr_text(SpecExpr::MethodCall { receiver: Box::new(e), ident, args }) == expr_text(
            SpecExpr::MethodCall { receiver: Box::new(as_name(expr_text(e))), ident, args },
        ),
        expr_text(SpecExpr::Match { expr: Box::new(e), arms }) == expr_text(
            SpecExpr::Match { expr: Box::new(as_name(expr_text(e))), arms },
        ),
        expr_text(SpecExpr::WhileLet { pat, expr: Box::new(e), body: Box::new(body) })
            == expr_text(
            SpecExpr::WhileLet {
                pat,
                expr: Box::new(as_name(expr_text(e))),
                body: Box::new(body),
            },
        ),
{
    let name = as_name(expr_text(e));
    lemma_join_one(seq![expr_text(e)], "::"@);
    assert(expr_text(name) == expr_text(e));
}

// The rules of Rust
// -----------------

/// Derived code keeps the rules of Rust, for every item: each name stands for
/// something declared, each type takes the arguments that it has, each visitor
/// that yields the item has the parameters of the implementation, each variant
/// of `__Field` that is named is one of the `__Field` in scope, each match on it
/// has an arm for each of them, and each method has the head that its trait asks
/// for.
pub proof fn law_rules(item: SpecItem)
    requires
        derivable(item),
        clear_names(item),
        uses_params(item),
    ensures
        keeps_rules(item.ident, derived_impl(item)),
{
    lemma_keeps_rules(item);
}

/// The same of the body alone, whatever the parameters of the implementation
/// are: it keeps the rules where `deserializer` is there to be asked, and the
/// item's type, applied to these parameters, is what has to be returned.
pub proof fn law_body_rules(item: SpecItem, g: SpecGenerics, ty: SpecTy)
    requires
        derivable(item),
        clear_names(SpecItem { node: with_params(item.node, g), ..item }),
        uses_params(SpecItem { node: with_params(item.node, g), ..item }),
        is_applied(ty, item.ident, g),
    ensures
        expr_known(
            Scope {
                item: item.ident,
                generics: g,
                item_ty: ty,
                decls: seq![],
                vars: seq![("deserializer"@, true)],
                yields: ty,
            },
            body_expr(item, g, ty),
        ),
{
    lemma_is_applied(ty, item.ident, g);
    lemma_body_rules(SpecItem { node: with_params(item.node, g), ..item }, g, ty);
    assert(body_expr(SpecItem { node: with_params(item.node, g), ..item }, g, ty) == body_expr(
        item,
        g,
        ty,
    ));
}

/// An item with other parameters.
pub open spec fn with_params(node: SpecItemKind, g: SpecGenerics) -> SpecItemKind {
    match node {
        SpecItemKind::Struct(fields, _) => SpecItemKind::Struct(fields, g),
        SpecItemKind::Enum(variants, _) => SpecItemKind::Enum(variants, g),
        SpecItemKind::Other => SpecItemKind::Other,
    }
}

// Types and parameters
// --------------------

/// The parameters that an item declares.
pub open spec fn declares_params(item: SpecItem, g: SpecGenerics) -> bool {
    match item.node {
        SpecItemKind::Struct(_, h) => g == h,
        SpecItemKind::Enum(_, h) => g == h,
        SpecItemKind::Other => false,
    }
}

/// A type that is applied to parameters has exactly these as its arguments,
/// whatever they are bounded by.
pub proof fn law_applied_ty(x: Seq<char>, g: SpecGenerics)
    ensures
        is_applied(applied_ty(x, g), x, g),
{
}

/// The visitor is declared with the parameters, and a `PhantomData` field for
/// each type parameter, in order. Its type is applied to exactly the parameters,
/// and its value has a `PhantomData` for each field. Without type parameters it
/// is a unit struct.
pub proof fn law_visitor(g: SpecGenerics)
    ensures
        ({
            let n = g.ty_params.len();
            &&& visitor_decl(g) matches SpecDecl::Struct { ident, generics, tys }
            &&& ident == "__Visitor"@
            &&& tys.len() == n
            &&& forall|i: int|
                0 <= i < n ==> is_phantom_ty(#[trigger] tys[i], g.ty_params[i].ident)
            &&& if n == 0 {
                &&& no_params(generics) && generics.where_clause.len() == 0
                &&& is_param_ty(visitor_ty(g), "__Visitor"@)
                &&& visitor_expr(g) matches SpecExpr::Path(p)
                &&& is_single(p, "__Visitor"@)
            } else {
                &&& generics == g
                &&& is_applied(visitor_ty(g), "__Visitor"@, g)
                &&& visitor_expr(g) matches SpecExpr::Call { path, args }
                &&& is_single(path, "__Visitor"@)
                &&& args.len() == n
                &&& forall|i: int|
                    0 <= i < n ==> {
                        &&& #[trigger] args[i] matches SpecExpr::Path(p)
                        &&& is_global(p, "std"@, "marker"@, "PhantomData"@)
                    }
            }
        }),
{
}

/// The implementation is for the item's name, applied to exactly the item's
/// lifetimes and then its type parameters, each once and in order.
pub proof fn law_self_ty(item: SpecItem, g: SpecGenerics)
    requires
        declares_params(item, g),
    ensures
        is_applied(derived_impl(item).self_ty, item.ident, g),
{
    let ty = derived_impl(item).self_ty;
    assert forall|i: int| 0 <= i < g.ty_params.len() implies is_param_ty(
        #[trigger] ty->tys[i],
        g.ty_params[i].ident,
    ) by {
        assert(ty->tys[i] == ident_ty(impl_generics(g).ty_params[i].ident));
    }
}

/// The implementation has the item's lifetimes and `where` clause, and its type
/// parameters each with its name and default, and with one bound more:
/// `::serde::de::Deserialize`.
pub proof fn law_params(item: SpecItem, g: SpecGenerics)
    requires
        declares_params(item, g),
    ensures
        ({
            let h = derived_impl(item).generics;
            &&& h.lifetimes == g.lifetimes
            &&& h.where_clause == g.where_clause
            &&& h.ty_params.len() == g.ty_params.len()
            &&& forall|i: int|
                0 <= i < g.ty_params.len() ==> {
                    let p = #[trigger] h.ty_params[i];
                    let q = g.ty_params[i];
                    &&& p.ident == q.ident
                    &&& p.default == q.default
                    &&& p.bounds.len() == q.bounds.len() + 1
                    &&& forall|j: int|
                        0 <= j < q.bounds.len() ==> #[trigger] p.bounds[j] == q.bounds[j]
                    &&& p.bounds.last() matches SpecTy::Path { path, lifetimes, tys }
                    &&& is_global(path, "serde"@, "de"@, "Deserialize"@)
                    &&& lifetimes.len() == 0
                    &&& tys.len() == 0
                }
        }),
{
}

// Keys
// ----

/// The block that a method's body consists of.
pub open spec fn inner_block(m: SpecMethod) -> SpecBlock {
    match m.body.expr {
        Some(SpecExpr::Block(b)) => *b,
        _ => arbitrary(),
    }
}

/// The implementation that a statement declares.
pub open spec fn stmt_impl(s: SpecStmt) -> SpecTraitImpl {
    s->Decl_0->Impl_0
}

/// The match that a method's body consists of.
pub open spec fn method_arms(m: SpecMethod) -> Seq<SpecArm> {
    match m.body.expr {
        Some(SpecExpr::Match { arms, .. }) => arms,
        _ => arbitrary(),
    }
}

/// `{ Ok(__Field::x) }`
pub open spec fn gives_field(e: SpecExpr, x: Seq<char>) -> bool {
    &&& e matches SpecExpr::Block(b)
    &&& b.stmts.len() == 0
    &&& b.expr matches Some(SpecExpr::Call { path, args })
    &&& is_single(path, "Ok"@)
    &&& args.len() == 1
    &&& args[0] matches SpecExpr::Path(p)
    &&& is_pair(p, "__Field"@, x)
}

/// The number that digits stand for.
pub open spec fn number(digits: Seq<char>) -> nat
    decreases digits.len(),
{
    if digits.len() == 0 {
        0
    } else {
        number(digits.drop_last()) * 10 + (digits.last() as u32 - '0' as u32) as nat
    }
}

/// A number in decimal notation: digits, and no zero before others.
pub open spec fn is_decimal(digits: Seq<char>, n: nat) -> bool {
    &&& digits.len() > 0
    &&& forall|i: int| 0 <= i < digits.len() ==> '0' <= #[trigger] digits[i] <= '9'
    &&& digits.len() > 1 ==> digits[0] != '0'
    &&& number(digits) == n
}

/// The name of a field in derived code: `__field`, and its index in decimal
/// notation.
pub open spec fn names_field(x: Seq<char>, i: nat) -> bool {
    &&& x.len() > 7
    &&& x.take(7) == "__field"@
    &&& is_decimal(x.skip(7), i)
}

/// A block that tells apart what has these keys: it declares an enum `__Field`
/// with one variant for each key, and reads the variant with the index of the
/// key from the key, and from nothing else. Besides that it declares a visitor,
/// in two statements.
pub open spec fn tells_apart(b: SpecBlock, keys: Seq<SpecLit>) -> bool {
    &&& b.stmts.len() == 4
    &&& b.stmts[0] matches SpecStmt::Decl(SpecDecl::Enum { ident, variants, .. })
    &&& ident == "__Field"@
    &&& variants.len() == keys.len()
    &&& forall|i: int| 0 <= i < keys.len() ==> names_field(#[trigger] variants[i], i as nat)
    &&& ({
        let reads = stmt_impl(stmt_impl(b.stmts[1]).methods[0].body.stmts[1]);
        let arms = method_arms(reads.methods[0]);
        &&& arms.len() == keys.len() + 1
        &&& forall|i: int|
            0 <= i < keys.len() ==> (#[trigger] arms[i]).pat == SpecPat::Lit(keys[i])
                && gives_field(arms[i].body, variants[i])
        &&& arms[keys.len() as int].pat == SpecPat::Wild
    })
}

/// The keys of fields: for each its rename, or else its name.
pub open spec fn are_keys(keys: Seq<SpecLit>, fields: Seq<SpecField>) -> bool {
    &&& keys.len() == fields.len()
    &&& forall|i: int|
        0 <= i < fields.len() ==> #[trigger] keys[i] == (match fields[i].rename {
            Some(l) => l,
            None => SpecLit::Str(fields[i].name->0),
        })
}

/// The decimal notation of a number is one.
pub proof fn law_decimal(n: nat)
    ensures
        is_decimal(decimal(n), n),
    decreases n,
{
    let s = decimal(n);
    assert(number(Seq::<char>::empty()) == 0);
    if n < 10 {
        assert(s.drop_last() =~= seq![]);
        assert(s.last() == digit(n));
    } else {
        law_decimal(n / 10);
        assert(s.drop_last() =~= decimal(n / 10));
        assert(s.last() == digit(n % 10));
        assert(n == (n / 10) * 10 + n % 10);
        assert forall|i: int| 0 <= i < s.len() implies '0' <= #[trigger] s[i] <= '9' by {
            if i < s.len() - 1 {
                assert(s[i] == decimal(n / 10)[i]);
            }
        }
        assert(s[0] == decimal(n / 10)[0]);
        let d = decimal(n / 10);
        if d.len() == 1 {
            assert(d.drop_last() =~= seq![]);
            assert(number(d) == (d.last() as u32 - '0' as u32) as nat);
            assert(d.last() == d[0]);
        }
    }
}

/// The names of fields are what their indices say.
pub proof fn law_field_ident(i: nat)
    ensures
        names_field(field_ident(i), i),
{
    reveal_strlit("__field");
    let x = field_ident(i);
    law_decimal(i);
    assert("__field"@.len() == 7);
    assert(x.take(7) =~= "__field"@);
    assert(x.skip(7) =~= decimal(i));
}

/// What is declared for any keys tells them apart.
pub proof fn law_field_visitor(keys: Seq<SpecLit>, rest: Seq<SpecStmt>, expr: Option<SpecExpr>)
    requires
        rest.len() == 2,
    ensures
        tells_apart(SpecBlock { stmts: field_visitor(keys) + rest, expr }, keys),
{
    let b = SpecBlock { stmts: field_visitor(keys) + rest, expr };
    assert(b.stmts[0] == SpecStmt::Decl(field_enum(keys.len())));
    assert(b.stmts[1] == SpecStmt::Decl(field_impl(keys)));
    let variants = field_enum(keys.len())->variants;
    assert forall|i: int| 0 <= i < keys.len() implies names_field(
        #[trigger] variants[i],
        i as nat,
    ) by {
        law_field_ident(i as nat);
    }
    let reads = stmt_impl(field_body(keys).stmts[1]);
    assert(reads.methods[0] == str_method(keys));
    let arms = key_arms(keys);
    assert(method_arms(reads.methods[0]) == arms);
    assert forall|i: int| 0 <= i < keys.len() implies (#[trigger] arms[i]).pat == SpecPat::Lit(
        keys[i],
    ) && gives_field(arms[i].body, variants[i]) by {
        assert(arms[i] == key_arm(keys[i], i as nat));
    }
}

/// The code for a struct with named fields tells the fields apart by their keys.
pub proof fn law_struct_keys(item: SpecItem, fields: Seq<SpecField>, keys: Seq<SpecLit>)
    requires
        item.node matches SpecItemKind::Struct(f, _) && f == fields,
        fields.len() > 0,
        all_named(fields),
        are_keys(keys, fields),
    ensures
        tells_apart(inner_block(derived_impl(item).methods[0]), keys),
{
    assert(fields[0].name is Some);
    assert(keys =~= field_keys(fields));
    let b = inner_block(derived_impl(item).methods[0]);
    law_field_visitor(keys, b.stmts.skip(2), b.expr);
    assert(b.stmts =~= field_visitor(keys) + b.stmts.skip(2));
}

/// The code for an enum tells the variants apart by their names.
pub proof fn law_enum_keys(item: SpecItem, variants: Seq<SpecVariant>, keys: Seq<SpecLit>)
    requires
        item.node matches SpecItemKind::Enum(v, _) && v == variants,
        keys.len() == variants.len(),
        forall|i: int|
            0 <= i < variants.len() ==> #[trigger] keys[i] == SpecLit::Str(variants[i].name),
    ensures
        tells_apart(inner_block(derived_impl(item).methods[0]), keys),
{
    assert(keys =~= variant_keys(variants));
    let b = inner_block(derived_impl(item).methods[0]);
    law_field_visitor(keys, b.stmts.skip(2), b.expr);
    assert(b.stmts =~= field_visitor(keys) + b.stmts.skip(2));
}

/// The arms of an enum's visitor, one for each variant in order.
pub open spec fn enum_arms(item: SpecItem) -> Seq<SpecArm> {
    method_arms(stmt_impl(inner_block(derived_impl(item).methods[0]).stmts[3]).methods[0])
}

/// The code for a variant: the block inside the arm's own.
pub open spec fn arm_block(arm: SpecArm) -> SpecBlock {
    match arm.body {
        SpecExpr::Block(b) => match b.expr {
            Some(SpecExpr::Block(c)) => *c,
            _ => arbitrary(),
        },
        _ => arbitrary(),
    }
}

/// The visitor of an enum has one arm for each variant, for the variant of
/// `__Field` with its index, and the code for a variant with named fields tells
/// these apart by their keys. The code for another has a statement or, where it
/// declares a visitor, two.
pub proof fn law_variant_arms(
    item: SpecItem,
    variants: Seq<SpecVariant>,
    k: int,
    fields: Seq<SpecField>,
    keys: Seq<SpecLit>,
)
    requires
        item.node matches SpecItemKind::Enum(v, _) && v == variants,
        0 <= k < variants.len(),
        are_keys(keys, fields),
    ensures
        enum_arms(item).len() == variants.len(),
        enum_arms(item)[k].pat matches SpecPat::Path(p) && {
            &&& !p.global
            &&& p.segments.len() == 2
            &&& p.segments[0] == "__Field"@
            &&& names_field(p.segments[1], k as nat)
        },
        variants[k].kind == SpecVariantKind::Struct(fields) ==> tells_apart(
            arm_block(enum_arms(item)[k]),
            keys,
        ),
        variants[k].kind matches SpecVariantKind::Tuple(n) ==> arm_block(
            enum_arms(item)[k],
        ).stmts.len() == (if n == 0 {
            1int
        } else {
            2
        }),
{
    let g = impl_generics(item_generics(item));
    let ty = item_ty(item);
    let outer = inner_block(derived_impl(item).methods[0]);
    assert(stmt_impl(outer.stmts[3]).methods[0] == enum_method(item.ident, g, ty, variants));
    assert(enum_arms(item) == variant_arms(item.ident, g, ty, variants));
    law_field_ident(k as nat);
    if variants[k].kind == SpecVariantKind::Struct(fields) {
        assert(keys =~= field_keys(fields));
        let b = arm_block(enum_arms(item)[k]);
        law_field_visitor(keys, b.stmts.skip(2), b.expr);
        assert(b.stmts =~= field_visitor(keys) + b.stmts.skip(2));
    }
}

/// The code that reads a map, in a block that declares the visitor for it.
pub open spec fn map_block(b: SpecBlock) -> SpecBlock {
    inner_block(stmt_impl(b.stmts[3]).methods[0])
}

/// `let x = match y { Some(z) => w, None => missing };`
pub open spec fn takes_out(
    s: SpecStmt,
    x: Seq<char>,
    y: SpecExpr,
    some: SpecArm,
    missing: SpecExpr,
) -> bool {
    &&& s matches SpecStmt::Let { ident, init, .. }
    &&& ident == x
    &&& init matches SpecExpr::Match { expr, arms }
    &&& *expr == y
    &&& arms.len() == 2
    &&& arms[0] == some
    &&& arms[1].body == missing
}

/// Two blocks that read maps do the same, but for what they ask for where one of
/// the `n` fields is missing, which is the same too where it has a default.
pub open spec fn same_but_keys(a: SpecBlock, b: SpecBlock, fields: Seq<SpecField>) -> bool {
    let n = fields.len();
    &&& a.expr == b.expr
    &&& a.stmts.len() == b.stmts.len()
    &&& forall|j: int|
        0 <= j < a.stmts.len() && !(n < j <= n + n && !fields[j - n - 1].default)
            ==> #[trigger] a.stmts[j] == b.stmts[j]
    &&& forall|j: int|
        n < j <= n + n && j < a.stmts.len() ==> ({
            let s = #[trigger] a.stmts[j];
            let arms = s->init->arms;
            takes_out(
                b.stmts[j],
                s->ident,
                *s->init->Match_expr,
                arms[0],
                b.stmts[j]->init->arms[1].body,
            )
        })
}

/// Fields that are the same but for their renames.
pub open spec fn only_renamed(a: Seq<SpecField>, b: Seq<SpecField>) -> bool {
    &&& a.len() == b.len()
    &&& forall|i: int|
        0 <= i < a.len() ==> (#[trigger] a[i]).name == b[i].name && a[i].default == b[i].default
}

/// `try!(visitor.missing_field(key))`
pub open spec fn asks_for(e: SpecExpr, key: SpecLit) -> bool {
    &&& e matches SpecExpr::Try(inner)
    &&& *inner matches SpecExpr::MethodCall { receiver, ident, args }
    &&& *receiver matches SpecExpr::Path(p)
    &&& is_single(p, "visitor"@)
    &&& ident == "missing_field"@
    &&& args.len() == 1
    &&& args[0] == SpecExpr::Lit(key)
}

proof fn lemma_map_blocks(path: SpecPath, f: Seq<SpecField>, h: Seq<SpecField>)
    requires
        only_renamed(f, h),
    ensures
        ({
            let a = *map_expr(path, f)->Block_0;
            let b = *map_expr(path, h)->Block_0;
            &&& same_but_keys(a, b, f)
            &&& forall|i: int|
                0 <= i < f.len() && !f[i].default ==> asks_for(
                    (#[trigger] a.stmts[f.len() + 1 + i])->init->arms[1].body,
                    field_key(f[i]),
                )
        }),
{
    let n = f.len();
    let a = *map_expr(path, f)->Block_0;
    let b = *map_expr(path, h)->Block_0;
    assert forall|j: int| 0 <= j < a.stmts.len() && !(n < j <= n + n && !f[j - n - 1].default)
        implies #[trigger] a.stmts[j] == b.stmts[j] by {
        if n < j && j <= n + n {
            let i = j - n - 1;
            assert(f[i].default == h[i].default);
            assert(a.stmts[j] == extract_let(f[i], i as nat));
            assert(b.stmts[j] == extract_let(h[i], i as nat));
        }
    }
    assert forall|j: int| n < j <= n + n && j < a.stmts.len() implies ({
        let s = #[trigger] a.stmts[j];
        let arms = s->init->arms;
        takes_out(
            b.stmts[j],
            s->ident,
            *s->init->Match_expr,
            arms[0],
            b.stmts[j]->init->arms[1].body,
        )
    }) by {
        let i = j - n - 1;
        assert(a.stmts[j] == extract_let(f[i], i as nat));
        assert(b.stmts[j] == extract_let(h[i], i as nat));
    }
    assert forall|i: int| 0 <= i < n && !f[i].default implies asks_for(
        (#[trigger] a.stmts[n + 1 + i])->init->arms[1].body,
        field_key(f[i]),
    ) by {
        assert(a.stmts[n + 1 + i] == extract_let(f[i], i as nat));
    }
    assert(field_inits(f) =~= field_inits(h)) by {
        assert forall|i: int| 0 <= i < n implies field_inits(f)[i] == field_inits(h)[i] by {
            assert(f[i].name == h[i].name);
        }
    }
}

/// Whatever literal a field is renamed to, that is the key it is asked for by
/// where it is missing without a default, and a rename changes nothing else in
/// the code that reads a struct from a map.
pub proof fn law_renames(
    item: SpecItem,
    other: SpecItem,
    fields: Seq<SpecField>,
    renamed: Seq<SpecField>,
    keys: Seq<SpecLit>,
)
    requires
        item.node matches SpecItemKind::Struct(f, _) && f == fields,
        other.node matches SpecItemKind::Struct(f, _) && f == renamed,
        item.ident == other.ident,
        fields.len() > 0,
        all_named(fields),
        are_keys(keys, fields),
        only_renamed(fields, renamed),
    ensures
        ({
            let a = map_block(inner_block(derived_impl(item).methods[0]));
            let b = map_block(inner_block(derived_impl(other).methods[0]));
            &&& same_but_keys(a, b, fields)
            &&& forall|i: int|
                0 <= i < fields.len() && !fields[i].default ==> asks_for(
                    (#[trigger] a.stmts[fields.len() + 1 + i])->init->arms[1].body,
                    keys[i],
                )
        }),
{
    let path = ident_path(item.ident);
    assert(fields[0].name is Some);
    assert(renamed[0].name is Some);
    lemma_map_blocks(path, fields, renamed);
    assert(map_block(inner_block(derived_impl(item).methods[0])) == *map_expr(
        path,
        fields,
    )->Block_0);
    assert(map_block(inner_block(derived_impl(other).methods[0])) == *map_expr(
        path,
        renamed,
    )->Block_0);
    assert forall|i: int| 0 <= i < fields.len() implies field_key(fields[i])
        == #[trigger] keys[i] by {}
    let a = map_block(inner_block(derived_impl(item).methods[0]));
    assert forall|i: int| 0 <= i < fields.len() && !fields[i].default implies asks_for(
        (#[trigger] a.stmts[fields.len() + 1 + i])->init->arms[1].body,
        keys[i],
    ) by {
        assert(field_key(fields[i]) == keys[i]);
    }
}

/// The same of the variants of an enum.
pub proof fn law_variant_renames(
    item: SpecItem,
    other: SpecItem,
    k: int,
    fields: Seq<SpecField>,
    renamed: Seq<SpecField>,
    keys: Seq<SpecLit>,
)
    requires
        item.node matches SpecItemKind::Enum(v, _) && 0 <= k < v.len() && v[k].kind
            == SpecVariantKind::Struct(fields),
        other.node matches SpecItemKind::Enum(v, _) && k < v.len() && v[k].kind
            == SpecVariantKind::Struct(renamed),
        item.ident == other.ident,
        item.node->Enum_0[k].name == other.node->Enum_0[k].name,
        are_keys(keys, fields),
        only_renamed(fields, renamed),
    ensures
        ({
            let a = map_block(arm_block(enum_arms(item)[k]));
            let b = map_block(arm_block(enum_arms(other)[k]));
            &&& same_but_keys(a, b, fields)
            &&& forall|i: int|
                0 <= i < fields.len() && !fields[i].default ==> asks_for(
                    (#[trigger] a.stmts[fields.len() + 1 + i])->init->arms[1].body,
                    keys[i],
                )
        }),
{
    let path = pair_path(item.ident, item.node->Enum_0[k].name);
    lemma_map_blocks(path, fields, renamed);
    lemma_variant_block(item, k, fields);
    lemma_variant_block(other, k, renamed);
    let a = map_block(arm_block(enum_arms(item)[k]));
    assert forall|i: int| 0 <= i < fields.len() && !fields[i].default implies asks_for(
        (#[trigger] a.stmts[fields.len() + 1 + i])->init->arms[1].body,
        keys[i],
    ) by {
        assert(field_key(fields[i]) == keys[i]);
    }
}

proof fn lemma_variant_block(item: SpecItem, k: int, fields: Seq<SpecField>)
    requires
        item.node matches SpecItemKind::Enum(v, _) && 0 <= k < v.len() && v[k].kind
            == SpecVariantKind::Struct(fields),
    ensures
        map_block(arm_block(enum_arms(item)[k])) == *map_expr(
            pair_path(item.ident, item.node->Enum_0[k].name),
            fields,
        )->Block_0,
{
    let g = impl_generics(item_generics(item));
    let ty = item_ty(item);
    let variants = item.node->Enum_0;
    let outer = inner_block(derived_impl(item).methods[0]);
    assert(stmt_impl(outer.stmts[3]).methods[0] == enum_method(item.ident, g, ty, variants));
    assert(enum_arms(item) == variant_arms(item.ident, g, ty, variants));
    let path = pair_path(item.ident, variants[k].name);
    let b = arm_block(enum_arms(item)[k]);
    assert(b.stmts == map_visitor(None, g, ty, path, fields));
    assert(stmt_impl(b.stmts[3]).methods[0] == map_method(None, ty, path, fields));
}

// Constructors
// ------------

/// What a block ends in: `Ok` of this.
pub open spec fn ends_in_ok(b: SpecBlock, e: SpecExpr) -> bool {
    &&& b.expr matches Some(SpecExpr::Call { path, args })
    &&& is_single(path, "Ok"@)
    &&& args.len() == 1
    &&& args[0] == e
}

/// `try!(visitor.end());`
pub open spec fn asks_for_end(s: SpecStmt) -> bool {
    &&& s matches SpecStmt::Semi(SpecExpr::Try(e))
    &&& *e matches SpecExpr::MethodCall { receiver, ident, args }
    &&& *receiver matches SpecExpr::Path(p)
    &&& is_single(p, "visitor"@)
    &&& ident == "end"@
    &&& args.len() == 0
}

/// The code that reads a sequence has a statement for each value, and one more
/// for the end. The same code is written whatever constructor the values are
/// for, and the constructor is called once, behind it, on the values in order.
pub proof fn law_seq_block(path: SpecPath, other: SpecPath, n: nat)
    ensures
        seq_expr(path, n) matches SpecExpr::Block(a) && (seq_expr(other, n) matches SpecExpr::Block(
            b,
        ) && {
            &&& a.stmts == b.stmts
            &&& a.stmts.len() == n + 1
            &&& asks_for_end(a.stmts.last())
            &&& forall|i: int|
                0 <= i < n ==> (#[trigger] a.stmts[i] matches SpecStmt::Let { ident, .. }
                    && names_field(ident, i as nat))
            &&& exists|args: Seq<SpecExpr>| #[trigger]
                ends_in_ok(*a, SpecExpr::Call { path, args }) && ends_in_ok(
                    *b,
                    SpecExpr::Call { path: other, args },
                ) && args.len() == n && forall|i: int|
                    0 <= i < n ==> {
                        &&& #[trigger] args[i] matches SpecExpr::Path(p)
                        &&& !p.global && p.segments.len() == 1
                        &&& names_field(p.segments[0], i as nat)
                    }
        }),
{
    let a = *seq_expr(path, n)->Block_0;
    let b = *seq_expr(other, n)->Block_0;
    assert forall|i: int| 0 <= i < n implies (
    #[trigger] a.stmts[i] matches SpecStmt::Let { ident, .. } && names_field(ident, i as nat)) by {
        law_field_ident(i as nat);
    }
    let args = field_vars(n);
    assert forall|i: int| 0 <= i < n implies {
        &&& #[trigger] args[i] matches SpecExpr::Path(p)
        &&& !p.global && p.segments.len() == 1
        &&& names_field(p.segments[0], i as nat)
    } by {
        law_field_ident(i as nat);
    }
    assert(ends_in_ok(a, SpecExpr::Call { path, args }));
    assert(ends_in_ok(b, SpecExpr::Call { path: other, args }));
}

/// The code that reads a map has two statements for each field, and two more, and
/// is the same whatever struct or variant it is for, which is made once, behind
/// it: of each field, in order, with its name.
pub proof fn law_map_block(path: SpecPath, other: SpecPath, fields: Seq<SpecField>)
    ensures
        map_expr(path, fields) matches SpecExpr::Block(a) && (map_expr(
            other,
            fields,
        ) matches SpecExpr::Block(b) && {
            let n = fields.len();
            &&& a.stmts == b.stmts
            &&& a.stmts.len() == 2 * n + 2
            &&& asks_for_end(a.stmts.last())
            &&& exists|inits: Seq<SpecFieldInit>| #[trigger]
                ends_in_ok(*a, SpecExpr::Struct { path, fields: inits }) && ends_in_ok(
                    *b,
                    SpecExpr::Struct { path: other, fields: inits },
                ) && inits.len() == n && forall|i: int|
                    0 <= i < n ==> {
                        &&& (#[trigger] inits[i]).ident == fields[i].name->0
                        &&& inits[i].expr matches SpecExpr::Path(p)
                        &&& !p.global && p.segments.len() == 1
                        &&& names_field(p.segments[0], i as nat)
                    }
        }),
{
    let a = *map_expr(path, fields)->Block_0;
    let b = *map_expr(other, fields)->Block_0;
    let inits = field_inits(fields);
    assert forall|i: int| 0 <= i < fields.len() implies {
        &&& (#[trigger] inits[i]).ident == fields[i].name->0
        &&& inits[i].expr matches SpecExpr::Path(p)
        &&& !p.global && p.segments.len() == 1
        &&& names_field(p.segments[0], i as nat)
    } by {
        law_field_ident(i as nat);
    }
    assert(ends_in_ok(a, SpecExpr::Struct { path, fields: inits }));
    assert(ends_in_ok(b, SpecExpr::Struct { path: other, fields: inits }));
}

/// A struct with fields that have no names is read by a visitor that is declared
/// in two statements, and whose code has a statement for each field and one more.
pub proof fn law_tuple_blocks(item: SpecItem, fields: Seq<SpecField>)
    requires
        item.node matches SpecItemKind::Struct(f, _) && f == fields,
        fields.len() > 0,
        all_unnamed(fields),
    ensures
        ({
            let b = inner_block(derived_impl(item).methods[0]);
            &&& b.stmts.len() == 2
            &&& inner_block(stmt_impl(b.stmts[1]).methods[0]).stmts.len() == fields.len() + 1
        }),
{
    assert(fields[0].name is None);
    let n = fields.len();
    let g = impl_generics(item_generics(item));
    let ty = item_ty(item);
    let b = inner_block(derived_impl(item).methods[0]);
    assert(b.stmts == seq_visitor(g, ty, ident_path(item.ident), n));
    assert(stmt_impl(b.stmts[1]).methods[0] == seq_method(ty, ident_path(item.ident), n));
}

// What is derived for
// -------------------

/// An implementation is derived for just these items: the structs whose fields
/// all have names or all have none, and the enums whose struct variants' fields
/// all have names, however many there are.
pub proof fn law_derivable(item: SpecItem)
    ensures
        item_rejection(item) is None <==> match item.node {
            SpecItemKind::Struct(fields, _) => forall|i: int, j: int|
                0 <= i < fields.len() && 0 <= j < fields.len() ==> ((
                #[trigger] fields[i]).name is Some <==> (#[trigger] fields[j]).name is Some),
            SpecItemKind::Enum(variants, _) => forall|k: int, j: int|
                0 <= k < variants.len() && (
                #[trigger] variants[k]).kind is Struct && 0 <= j
                    < variants[k].kind->Struct_0.len() ==> (
                #[trigger] variants[k].kind->Struct_0[j]).name is Some,
            SpecItemKind::Other => false,
        },
        item_rejection(item) matches Some(r) ==> {
            &&& r == Rejection::MixedFields <==> item.node is Struct
            &&& r == Rejection::UnnamedFields <==> item.node is Enum
            &&& r == Rejection::NotStructOrEnum <==> item.node is Other
        },
{
    match item.node {
        SpecItemKind::Struct(fields, _) => {
            if derivable(item) {
                assert forall|i: int, j: int|
                    0 <= i < fields.len() && 0 <= j < fields.len() implies ((
                #[trigger] fields[i]).name is Some <==> (#[trigger] fields[j]).name is Some) by {}
            } else {
                let i = choose|i: int| 0 <= i < fields.len() && (#[trigger] fields[i]).name is None;
                let j = choose|j: int| 0 <= j < fields.len() && (#[trigger] fields[j]).name is Some;
                assert(fields[i].name is None && fields[j].name is Some);
            }
        },
        SpecItemKind::Enum(variants, _) => {
            if derivable(item) {
                assert forall|k: int, j: int|
                    0 <= k < variants.len() && (#[trigger] variants[k]).kind is Struct && 0 <= j
                        < variants[k].kind->Struct_0.len() implies (
                #[trigger] variants[k].kind->Struct_0[j]).name is Some by {
                    assert(variant_ok(variants[k]));
                }
            } else {
                let k = choose|k: int|
                    0 <= k < variants.len() && !(#[trigger] variant_ok(variants[k]));
                let fields = variants[k].kind->Struct_0;
                let j = choose|j: int| 0 <= j < fields.len() && (#[trigger] fields[j]).name is None;
                assert(variants[k].kind->Struct_0[j].name is None);
            }
        },
        SpecItemKind::Other => {},
    }
}

} // verus!
