//! Rules of Rust that derived code keeps: each name stands for something that is
//! declared, each type has the arguments that it takes, each implementation has
//! the methods of its trait, and each match covers its values.
use vstd::prelude::*;

use crate::ast::{SpecItem, SpecItemKind};
use crate::code::{
    SpecArg, SpecArm, SpecBlock, SpecDecl, SpecExpr, SpecGenerics, SpecMethod, SpecPat, SpecPath,
    SpecStmt, SpecTraitImpl, SpecTy,
};
use crate::meaning::block_decls;
use crate::outcome::{record_name, record_params, tuple_params};

verus! {

/// What can be named at a place in derived code.
pub ghost struct Scope {
    /// The name of the item that the code is derived for.
    pub item: Seq<char>,
    /// The parameters of the implementation for the item.
    pub generics: SpecGenerics,
    /// The type of the item.
    pub item_ty: SpecTy,
    /// The items declared here and around, the innermost last.
    pub decls: Seq<SpecDecl>,
    /// The variables, the innermost last, and whether each can be changed.
    pub vars: Seq<(Seq<char>, bool)>,
    /// What the method around yields, apart from errors.
    pub yields: SpecTy,
}

// Names
// -----

/// A path of one name.
pub open spec fn is_single(p: SpecPath, x: Seq<char>) -> bool {
    !p.global && p.segments.len() == 1 && p.segments[0] == x
}

/// `x::y`
pub open spec fn is_pair(p: SpecPath, x: Seq<char>, y: Seq<char>) -> bool {
    !p.global && p.segments.len() == 2 && p.segments[0] == x && p.segments[1] == y
}

/// `::x::y::z`
pub open spec fn is_global(p: SpecPath, x: Seq<char>, y: Seq<char>, z: Seq<char>) -> bool {
    &&& p.global
    &&& p.segments.len() == 3
    &&& p.segments[0] == x
    &&& p.segments[1] == y
    &&& p.segments[2] == z
}

/// A variable of this name is in scope.
pub open spec fn declared(vars: Seq<(Seq<char>, bool)>, x: Seq<char>) -> bool {
    exists|j: int| 0 <= j < vars.len() && (#[trigger] vars[j]).0 == x
}

/// The variable that this name stands for can be changed.
pub open spec fn changeable(vars: Seq<(Seq<char>, bool)>, x: Seq<char>) -> bool {
    exists|j: int|
        {
            &&& 0 <= j < vars.len()
            &&& #[trigger] vars[j] == (x, true)
            &&& forall|l: int| j < l < vars.len() ==> (#[trigger] vars[l]).0 != x
        }
}

/// The name of the type that an item declares.
pub open spec fn declares(d: SpecDecl) -> Option<Seq<char>> {
    match d {
        SpecDecl::Enum { ident, .. } => Some(ident),
        SpecDecl::Struct { ident, .. } => Some(ident),
        SpecDecl::Impl(_) => None,
    }
}

/// The innermost declaration of the type of this name.
pub open spec fn type_decl(decls: Seq<SpecDecl>, x: Seq<char>) -> Option<SpecDecl>
    decreases decls.len(),
{
    if decls.len() == 0 {
        None
    } else if declares(decls.last()) == Some(x) {
        Some(decls.last())
    } else {
        type_decl(decls.drop_last(), x)
    }
}

/// The innermost enum.
pub open spec fn last_enum(decls: Seq<SpecDecl>) -> Option<SpecDecl>
    decreases decls.len(),
{
    if decls.len() == 0 {
        None
    } else if decls.last() is Enum {
        Some(decls.last())
    } else {
        last_enum(decls.drop_last())
    }
}

/// A path `x::y` names a variant of the enum that `x` stands for here.
pub open spec fn names_variant(decls: Seq<SpecDecl>, p: SpecPath) -> bool {
    &&& !p.global
    &&& p.segments.len() == 2
    &&& type_decl(decls, p.segments[0]) matches Some(SpecDecl::Enum { variants, .. })
    &&& variants.contains(p.segments[1])
}

/// No two items of a block declare a type of the same name.
pub open spec fn distinct_types(decls: Seq<SpecDecl>) -> bool {
    forall|a: int, b: int|
        0 <= a < b < decls.len() && declares(#[trigger] decls[a]) is Some ==> declares(decls[a])
            != declares(#[trigger] decls[b])
}

// Types
// -----

/// A type parameter of this name is declared.
pub open spec fn has_param(g: SpecGenerics, x: Seq<char>) -> bool {
    exists|j: int| 0 <= j < g.ty_params.len() && (#[trigger] g.ty_params[j]).ident == x
}

/// A lifetime of this name is declared.
pub open spec fn has_lifetime(g: SpecGenerics, x: Seq<char>) -> bool {
    exists|j: int| 0 <= j < g.lifetimes.len() && (#[trigger] g.lifetimes[j]).name == x
}

/// How many lifetimes and types the type of this name takes, inside an
/// implementation with the parameters `g`, and a method of it with the type
/// parameter `p`.
pub open spec fn arity(sc: Scope, g: SpecGenerics, p: Option<Seq<char>>, path: SpecPath) -> Option<
    (nat, nat),
> {
    if path.global {
        if is_global(path, "std"@, "result"@, "Result"@) {
            Some((0, 2))
        } else if is_global(path, "std"@, "marker"@, "PhantomData"@) {
            Some((0, 1))
        } else {
            None
        }
    } else if path.segments.len() == 2 {
        if p == Some(path.segments[0]) && path.segments[1] == "Error"@ {
            Some((0, 0))
        } else {
            None
        }
    } else if path.segments.len() == 1 {
        let x = path.segments[0];
        if p == Some(x) || has_param(g, x) {
            Some((0, 0))
        } else {
            match type_decl(sc.decls, x) {
                Some(SpecDecl::Struct { generics, .. }) => Some(
                    (generics.lifetimes.len(), generics.ty_params.len()),
                ),
                Some(_) => Some((0, 0)),
                None => if x == sc.item {
                    Some((sc.generics.lifetimes.len(), sc.generics.ty_params.len()))
                } else if x == "str"@ {
                    Some((0, 0))
                } else {
                    None
                },
            }
        }
    } else {
        None
    }
}

/// All that a type names is declared, and takes the arguments that it has.
pub open spec fn ty_known(sc: Scope, g: SpecGenerics, p: Option<Seq<char>>, ty: SpecTy) -> bool
    decreases ty,
{
    match ty {
        SpecTy::Path { path, lifetimes, tys } => {
            &&& arity(sc, g, p, path) == Some((lifetimes.len(), tys.len()))
            &&& forall|i: int| 0 <= i < lifetimes.len() ==> has_lifetime(g, #[trigger] lifetimes[i])
            &&& forall|i: int| 0 <= i < tys.len() ==> ty_known(sc, g, p, #[trigger] tys[i])
        },
        SpecTy::Ref { ty, .. } => ty_known(sc, g, p, *ty),
        SpecTy::Verbatim(_) => false,
    }
}

/// The type parameter `x`, as a type.
pub open spec fn is_param_ty(ty: SpecTy, x: Seq<char>) -> bool {
    &&& ty matches SpecTy::Path { path, lifetimes, tys }
    &&& is_single(path, x)
    &&& lifetimes.len() == 0
    &&& tys.len() == 0
}

/// The type `x` applied to exactly the parameters `g`: the lifetimes, then the
/// types, each once and in order.
pub open spec fn is_applied(ty: SpecTy, x: Seq<char>, g: SpecGenerics) -> bool {
    &&& ty matches SpecTy::Path { path, lifetimes, tys }
    &&& is_single(path, x)
    &&& lifetimes.len() == g.lifetimes.len()
    &&& forall|i: int|
        0 <= i < g.lifetimes.len() ==> #[trigger] lifetimes[i] == g.lifetimes[i].name
    &&& tys.len() == g.ty_params.len()
    &&& forall|i: int|
        0 <= i < g.ty_params.len() ==> is_param_ty(#[trigger] tys[i], g.ty_params[i].ident)
}

/// `::std::marker::PhantomData<x>`
pub open spec fn is_phantom_ty(ty: SpecTy, x: Seq<char>) -> bool {
    &&& ty matches SpecTy::Path { path, lifetimes, tys }
    &&& is_global(path, "std"@, "marker"@, "PhantomData"@)
    &&& lifetimes.len() == 0
    &&& tys.len() == 1
    &&& is_param_ty(tys[0], x)
}

/// `::std::result::Result<ok, p::Error>`, or `::std::result::Result<ok, p>` where
/// `p` is the error itself.
pub open spec fn is_result(ty: SpecTy, ok: SpecTy, p: Seq<char>, is_error: bool) -> bool {
    &&& ty matches SpecTy::Path { path, lifetimes, tys }
    &&& is_global(path, "std"@, "result"@, "Result"@)
    &&& lifetimes.len() == 0
    &&& tys.len() == 2
    &&& tys[0] == ok
    &&& if is_error {
        is_param_ty(tys[1], p)
    } else {
        &&& tys[1] matches SpecTy::Path { path, lifetimes, tys }
        &&& is_pair(path, p, "Error"@)
        &&& lifetimes.len() == 0
        &&& tys.len() == 0
    }
}

// Expressions
// -----------

/// A path as an expression: a variable, a unit value or a variant.
pub open spec fn path_known(sc: Scope, p: SpecPath) -> bool {
    if p.global {
        is_global(p, "std"@, "marker"@, "PhantomData"@)
    } else if p.segments.len() == 1 {
        let x = p.segments[0];
        ||| declared(sc.vars, x)
        ||| x == "None"@
        ||| (type_decl(sc.decls, x) matches Some(SpecDecl::Struct { tys, .. }) && tys.len() == 0)
        ||| x == sc.item && type_decl(sc.decls, x) is None
    } else {
        ||| names_variant(sc.decls, p)
        ||| p.segments.len() == 2 && p.segments[0] == sc.item && type_decl(
            sc.decls,
            p.segments[0],
        ) is None
    }
}

/// What is called takes as many arguments as it gets: a variant of the prelude
/// one, and a struct that was declared here one for each of its fields, all of
/// which are `PhantomData`.
pub open spec fn callee_known(sc: Scope, p: SpecPath, args: Seq<SpecExpr>) -> bool {
    if p.global {
        true
    } else if p.segments.len() == 1 {
        let x = p.segments[0];
        ||| (x == "Ok"@ || x == "Err"@ || x == "Some"@) && args.len() == 1
        ||| x == sc.item && type_decl(sc.decls, x) is None
        ||| {
            &&& type_decl(sc.decls, x) matches Some(SpecDecl::Struct { tys, .. })
            &&& args.len() == tys.len()
            &&& args.len() > 0
            &&& forall|i: int|
                0 <= i < args.len() ==> {
                    &&& #[trigger] args[i] matches SpecExpr::Path(q)
                    &&& is_global(q, "std"@, "marker"@, "PhantomData"@)
                }
        }
    } else {
        p.segments.len() == 2 && p.segments[0] == sc.item && type_decl(sc.decls, sc.item) is None
    }
}

/// The struct that an expression is a value of, where it is one.
pub open spec fn value_of(e: SpecExpr) -> Option<Seq<char>> {
    match e {
        SpecExpr::Path(p) => if !p.global && p.segments.len() == 1 {
            Some(p.segments[0])
        } else {
            None
        },
        SpecExpr::Call { path, .. } => if !path.global && path.segments.len() == 1 {
            Some(path.segments[0])
        } else {
            None
        },
        _ => None,
    }
}

/// An item that makes `x` a visitor that yields `ty`.
pub open spec fn makes_visitor(d: SpecDecl, x: Seq<char>, ty: SpecTy) -> bool {
    &&& d matches SpecDecl::Impl(i)
    &&& is_global(i.trait_path, "serde"@, "de"@, "Visitor"@) || is_global(
        i.trait_path,
        "serde"@,
        "de"@,
        "EnumVisitor"@,
    )
    &&& i.self_ty matches SpecTy::Path { path, .. }
    &&& is_single(path, x)
    &&& i.value == Some(ty)
}

/// A visitor that is handed over yields what the method around yields.
pub open spec fn hands_over(sc: Scope, e: SpecExpr) -> bool {
    match value_of(e) {
        Some(x) => type_decl(sc.decls, x) is Some ==> exists|j: int|
            0 <= j < sc.decls.len() && makes_visitor(#[trigger] sc.decls[j], x, sc.yields),
        None => true,
    }
}

/// A pattern names what there is.
pub open spec fn pat_known(sc: Scope, pat: SpecPat) -> bool {
    match pat {
        SpecPat::Wild => true,
        SpecPat::Lit(_) => true,
        SpecPat::Path(p) => is_single(p, "None"@) || names_variant(sc.decls, p),
        SpecPat::TupleStruct { path, .. } => is_single(path, "Some"@),
    }
}

/// The scope behind a pattern.
pub open spec fn bound(sc: Scope, pat: SpecPat) -> Scope {
    match pat {
        SpecPat::TupleStruct { ident, .. } => Scope { vars: sc.vars.push((ident, false)), ..sc },
        _ => sc,
    }
}

/// An arm for this variant.
pub open spec fn is_variant_arm(arm: SpecArm, x: Seq<char>, variant: Seq<char>) -> bool {
    arm.pat matches SpecPat::Path(p) && is_pair(p, x, variant)
}

/// Every value is matched by some arm: a match without arms is on an enum without
/// variants, one on the variants of an enum has an arm for each, one on literals
/// ends in an arm for all others, and one on an option knows both cases.
pub open spec fn covers(sc: Scope, arms: Seq<SpecArm>) -> bool {
    if arms.len() == 0 {
        last_enum(sc.decls) matches Some(SpecDecl::Enum { variants, .. }) && variants.len() == 0
    } else if arms.last().pat is Wild {
        true
    } else {
        match arms[0].pat {
            SpecPat::Path(p) => {
                &&& type_decl(sc.decls, p.segments[0]) matches Some(SpecDecl::Enum { variants, .. })
                &&& forall|i: int|
                    0 <= i < variants.len() ==> exists|j: int|
                        0 <= j < arms.len() && is_variant_arm(
                            #[trigger] arms[j],
                            p.segments[0],
                            #[trigger] variants[i],
                        )
            },
            SpecPat::TupleStruct { .. } => {
                &&& arms.len() == 2
                &&& arms[1].pat matches SpecPat::Path(p)
                &&& is_single(p, "None"@)
            },
            _ => false,
        }
    }
}

pub open spec fn expr_known(sc: Scope, e: SpecExpr) -> bool
    decreases e,
{
    match e {
        SpecExpr::Path(p) => path_known(sc, p),
        SpecExpr::Lit(_) => true,
        SpecExpr::Call { path, args } => {
            &&& callee_known(sc, path, args)
            &&& forall|i: int| 0 <= i < args.len() ==> expr_known(sc, #[trigger] args[i])
        },
        SpecExpr::MethodCall { receiver, args, .. } => {
            &&& *receiver matches SpecExpr::Path(p)
            &&& !p.global && p.segments.len() == 1 && changeable(sc.vars, p.segments[0])
            &&& forall|i: int|
                0 <= i < args.len() ==> expr_known(sc, #[trigger] args[i]) && hands_over(
                    sc,
                    args[i],
                )
        },
        SpecExpr::Try(e) => expr_known(sc, *e),
        SpecExpr::Return(e) => expr_known(sc, *e),
        SpecExpr::Assign { ident, expr } => changeable(sc.vars, ident) && expr_known(sc, *expr),
        SpecExpr::Match { expr, arms } => {
            &&& expr_known(sc, *expr)
            &&& covers(sc, arms)
            &&& forall|i: int| 0 <= i < arms.len() ==> arm_known(sc, #[trigger] arms[i])
        },
        SpecExpr::WhileLet { pat, expr, body } => {
            &&& expr_known(sc, *expr)
            &&& pat_known(sc, pat)
            &&& block_known(bound(sc, pat), *body)
        },
        SpecExpr::Struct { path, fields } => {
            &&& path_known(sc, path)
            &&& forall|i: int| 0 <= i < fields.len() ==> expr_known(sc, (#[trigger] fields[i]).expr)
        },
        SpecExpr::Block(b) => block_known(sc, *b),
    }
}

pub open spec fn arm_known(sc: Scope, arm: SpecArm) -> bool
    decreases arm,
{
    pat_known(sc, arm.pat) && expr_known(bound(sc, arm.pat), arm.body)
}

// Statements
// ----------

/// The variables that statements declare.
pub open spec fn let_vars(stmts: Seq<SpecStmt>) -> Seq<(Seq<char>, bool)>
    decreases stmts.len(),
{
    if stmts.len() == 0 {
        seq![]
    } else {
        match stmts.last() {
            SpecStmt::Let { mutable, ident, .. } => let_vars(stmts.drop_last()).push(
                (ident, mutable),
            ),
            _ => let_vars(stmts.drop_last()),
        }
    }
}

/// The scope behind these statements of a block: all items of the block are in
/// scope, and the variables that were declared so far.
pub open spec fn behind(sc: Scope, decls: Seq<SpecDecl>, stmts: Seq<SpecStmt>) -> Scope {
    Scope { decls: sc.decls + decls, vars: sc.vars + let_vars(stmts), ..sc }
}

pub open spec fn block_known(sc: Scope, b: SpecBlock) -> bool
    decreases b,
{
    let decls = block_decls(b.stmts);
    &&& distinct_types(decls)
    &&& forall|k: int|
        0 <= k < b.stmts.len() ==> stmt_known(
            behind(sc, decls, b.stmts.take(k)),
            #[trigger] b.stmts[k],
        )
    &&& match b.expr {
        Some(e) => expr_known(behind(sc, decls, b.stmts), e),
        None => true,
    }
}

/// A statement. A variable that starts out empty is there to be changed, and no
/// other is.
pub open spec fn stmt_known(sc: Scope, s: SpecStmt) -> bool
    decreases s,
{
    match s {
        SpecStmt::Let { mutable, init, .. } => {
            &&& expr_known(sc, init)
            &&& mutable <==> (init matches SpecExpr::Path(p) && is_single(p, "None"@))
        },
        SpecStmt::Decl(d) => decl_known(sc, d),
        SpecStmt::Semi(e) => expr_known(sc, e),
        SpecStmt::Expr(e) => expr_known(sc, e),
    }
}

// Items
// -----

/// There are no parameters.
pub open spec fn no_params(g: SpecGenerics) -> bool {
    g.lifetimes.len() == 0 && g.ty_params.len() == 0
}

/// The parameters are those of the implementation for the item, with all bounds
/// and the `where` clause.
pub open spec fn same_params(sc: Scope, g: SpecGenerics) -> bool {
    &&& g.lifetimes == sc.generics.lifetimes
    &&& g.ty_params == sc.generics.ty_params
    &&& no_params(g) || g.where_clause == sc.generics.where_clause
}

pub open spec fn decl_known(sc: Scope, d: SpecDecl) -> bool
    decreases d,
{
    match d {
        SpecDecl::Enum { attr, variants, .. } => {
            &&& attr == Some("allow(non_camel_case_types)"@)
            &&& forall|i: int, j: int|
                0 <= i < j < variants.len() ==> #[trigger] variants[i] != #[trigger] variants[j]
        },
        SpecDecl::Struct { generics, tys, .. } => {
            &&& no_params(generics) || same_params(sc, generics)
            &&& tys.len() == generics.ty_params.len()
            &&& forall|i: int|
                0 <= i < tys.len() ==> is_phantom_ty(
                    #[trigger] tys[i],
                    generics.ty_params[i].ident,
                )
        },
        SpecDecl::Impl(i) => i.attr is None && impl_known(sc, i),
    }
}

/// What an implementation yields: its `Value`, or else its own type.
pub open spec fn impl_yields(i: SpecTraitImpl) -> SpecTy {
    match i.value {
        Some(ty) => ty,
        None => i.self_ty,
    }
}

/// The traits that are implemented, by their names under `::serde::de`.
pub open spec fn implements_serde(i: SpecTraitImpl, ident: Seq<char>) -> bool {
    is_global(i.trait_path, "serde"@, "de"@, ident)
}

/// An implementation has what its trait asks for, and nothing else.
pub open spec fn has_members(i: SpecTraitImpl) -> bool {
    if implements_serde(i, "Deserialize"@) {
        &&& i.value is None
        &&& i.methods.len() == 1
        &&& i.methods[0].ident == "deserialize"@
    } else if implements_serde(i, "EnumVisitor"@) {
        &&& i.value is Some
        &&& i.methods.len() == 1
        &&& i.methods[0].ident == "visit"@
    } else {
        &&& implements_serde(i, "Visitor"@)
        &&& i.value is Some
        &&& i.methods.len() > 0
        &&& forall|a: int|
            0 <= a < i.methods.len() ==> {
                ||| (#[trigger] i.methods[a]).ident == "visit_unit"@
                ||| i.methods[a].ident == "visit_str"@
                ||| i.methods[a].ident == "visit_seq"@
                ||| i.methods[a].ident == "visit_map"@
            }
        &&& forall|a: int, b: int|
            0 <= a < b < i.methods.len() ==> (#[trigger] i.methods[a]).ident != (
            #[trigger] i.methods[b]).ident
    }
}

/// An implementation: its types are known, it is for a type that is applied to
/// its own parameters, each of which occurs there, and it has the parameters of
/// the implementation for the item where it yields the item.
pub open spec fn impl_known(sc: Scope, i: SpecTraitImpl) -> bool
    decreases i,
{
    &&& ty_known(sc, i.generics, None, i.self_ty)
    &&& i.value matches Some(ty) ==> ty_known(sc, i.generics, None, ty)
    &&& i.self_ty matches SpecTy::Path { path, lifetimes, tys }
    &&& is_applied(i.self_ty, path.segments[0], i.generics) || (lifetimes.len() == 0 && tys.len()
        == 0 && i.generics.ty_params.len() == 0)
    &&& impl_yields(i) == sc.item_ty ==> same_params(sc, i.generics)
    &&& has_members(i)
    &&& forall|k: int| 0 <= k < i.methods.len() ==> method_known(sc, i, #[trigger] i.methods[k])
}

/// What the type parameter of a method is, by the method's name.
pub open spec fn method_bound(ident: Seq<char>) -> Seq<char> {
    if ident == "deserialize"@ {
        "Deserializer"@
    } else if ident == "visit_seq"@ {
        "SeqVisitor"@
    } else if ident == "visit_map"@ {
        "MapVisitor"@
    } else if ident == "visit"@ {
        "VariantVisitor"@
    } else {
        "Error"@
    }
}

/// Whether a method takes this argument: none, a `&str`, the deserializer by
/// reference, or else what is visited, by value and so that it can be changed.
pub open spec fn takes_arg(ident: Seq<char>, p: Seq<char>, arg: Option<SpecArg>) -> bool {
    if ident == "visit_unit"@ {
        arg is None
    } else if ident == "visit_str"@ {
        &&& arg matches Some(a)
        &&& !a.mutable
        &&& a.ty matches SpecTy::Ref { mutable, ty }
        &&& !mutable
        &&& is_param_ty(*ty, "str"@)
    } else if ident == "deserialize"@ {
        &&& arg matches Some(a)
        &&& !a.mutable
        &&& a.ty matches SpecTy::Ref { mutable, ty }
        &&& mutable
        &&& is_param_ty(*ty, p)
    } else {
        arg matches Some(a) && a.mutable && is_param_ty(a.ty, p)
    }
}

/// The variables that a method starts with.
pub open spec fn method_vars(m: SpecMethod) -> Seq<(Seq<char>, bool)> {
    let this = if m.takes_self {
        seq![("self"@, true)]
    } else {
        seq![]
    };
    match m.arg {
        Some(a) => this.push(
            (a.ident, a.mutable || (a.ty matches SpecTy::Ref { mutable, .. } && mutable)),
        ),
        None => this,
    }
}

/// The code is part of an enum's visitor.
pub open spec fn in_enum(decls: Seq<SpecDecl>) -> bool {
    exists|j: int|
        0 <= j < decls.len() && (#[trigger] decls[j] matches SpecDecl::Impl(i) && implements_serde(
            i,
            "EnumVisitor"@,
        ))
}

/// Which methods are marked to be inlined: how a key is read, the methods of a
/// unit struct's visitor, and how a struct is read from a map, but not a variant.
pub open spec fn inlined(sc: Scope, i: SpecTraitImpl, m: SpecMethod) -> bool {
    if m.ident == "deserialize"@ {
        sc.decls.len() > 0
    } else if m.ident == "visit_map"@ {
        !in_enum(sc.decls)
    } else {
        m.ident == "visit_unit"@ || i.methods.len() == 2
    }
}

/// A method has the head that the trait gives it, its types are known, and its
/// body keeps the rules.
pub open spec fn method_known(sc: Scope, i: SpecTraitImpl, m: SpecMethod) -> bool
    decreases m,
{
    let p = m.ty_param;
    let is_error = method_bound(m.ident) == "Error"@;
    &&& m.attr == (if inlined(sc, i, m) {
        Some("inline"@)
    } else {
        None
    })
    &&& !has_param(i.generics, p)
    &&& is_global(m.bound, "serde"@, "de"@, method_bound(m.ident))
    &&& m.takes_self <==> m.ident != "deserialize"@
    &&& takes_arg(m.ident, p, m.arg)
    &&& m.arg matches Some(a) ==> ty_known(sc, i.generics, Some(p), a.ty)
    &&& is_result(m.output, impl_yields(i), p, is_error)
    &&& ty_known(sc, i.generics, Some(p), m.output)
    &&& block_known(Scope { vars: method_vars(m), yields: impl_yields(i), ..sc }, m.body)
}

/// An item as it can be declared: parameters that no field uses are refused, so a
/// struct without fields has none.
pub open spec fn uses_params(item: SpecItem) -> bool {
    match item.node {
        SpecItemKind::Struct(fields, g) => fields.len() > 0 || no_params(g),
        _ => true,
    }
}

/// Names that stand for the item, and for its parameters, wherever derived code
/// writes them: nothing that it declares has the same name.
pub open spec fn clear_names(item: SpecItem) -> bool {
    match item.node {
        SpecItemKind::Struct(fields, g) => if fields.len() == 0 {
            &&& item.ident != "__D"@
            &&& item.ident != "E"@
            &&& item.ident != "V"@
            &&& item.ident != "__Visitor"@
        } else if fields[0].name is None {
            &&& item.ident != "__D"@
            &&& item.ident != "__V"@
            &&& item.ident != "__Visitor"@
            &&& tuple_params(item.ident, g)
        } else {
            record_name(item.ident) && record_params(item.ident, g)
        },
        SpecItemKind::Enum(_, g) => record_name(item.ident) && record_params(item.ident, g),
        SpecItemKind::Other => true,
    }
}

/// The scope around the implementation that is derived for an item.
pub open spec fn item_scope(ident: Seq<char>, i: SpecTraitImpl) -> Scope {
    Scope {
        item: ident,
        generics: i.generics,
        item_ty: i.self_ty,
        decls: seq![],
        vars: seq![],
        yields: i.self_ty,
    }
}

/// An implementation for the item `ident` keeps the rules.
pub open spec fn keeps_rules(ident: Seq<char>, i: SpecTraitImpl) -> bool {
    &&& i.attr == Some("automatically_derived"@)
    &&& implements_serde(i, "Deserialize"@)
    &&& is_applied(i.self_ty, ident, i.generics)
    &&& impl_known(item_scope(ident, i), i)
}

} // verus!
