//! The trees whose source text can be read back, and what is read.
use vstd::prelude::*;

use crate::ast::{SpecField, SpecItem, SpecItemKind, SpecVariant, SpecVariantKind};
use crate::code::{
    SpecArm, SpecBlock, SpecDecl, SpecExpr, SpecFieldInit, SpecGenerics, SpecLifetimeDef, SpecLit,
    SpecMethod, SpecPat, SpecPath, SpecStmt, SpecTraitImpl, SpecTy, SpecTyParam,
};
use crate::parse::{deeper, digit_char, ends_run, keyword, starts_arrow, word_char};
use crate::print::ty_text;

verus! {

// Names
// -----

/// All characters can stand in a word.
pub open spec fn all_word(s: Seq<char>) -> bool {
    forall|i: int| 0 <= i < s.len() ==> word_char(#[trigger] s[i])
}

/// An identifier.
pub open spec fn is_name(s: Seq<char>) -> bool {
    s.len() > 0 && all_word(s) && !digit_char(s[0]) && !keyword(s)
}

pub open spec fn all_names(s: Seq<Seq<char>>) -> bool {
    forall|i: int| 0 <= i < s.len() ==> is_name(#[trigger] s[i])
}

/// A lifetime with its apostrophe.
pub open spec fn is_lifetime(s: Seq<char>) -> bool {
    s.len() > 0 && s[0] == '\'' && all_word(s.skip(1))
}

pub open spec fn all_lifetimes(s: Seq<Seq<char>>) -> bool {
    forall|i: int| 0 <= i < s.len() ==> is_lifetime(#[trigger] s[i])
}

pub open spec fn path_ok(p: SpecPath) -> bool {
    p.segments.len() > 0 && all_names(p.segments)
}

/// Any string, or a literal of one word that starts with a digit.
pub open spec fn lit_ok(l: SpecLit) -> bool {
    match l {
        SpecLit::Str(_) => true,
        SpecLit::Verbatim(s) => s.len() > 0 && digit_char(s[0]) && all_word(s),
    }
}

/// An attribute without a closing bracket in it.
pub open spec fn attr_ok(attr: Option<Seq<char>>) -> bool {
    match attr {
        Some(a) => forall|i: int| 0 <= i < a.len() ==> #[trigger] a[i] != ']',
        None => true,
    }
}

// Types and parameters
// --------------------

/// A type that is made of paths and references.
pub open spec fn ty_ok(t: SpecTy) -> bool
    decreases t,
{
    match t {
        SpecTy::Path { path, lifetimes, tys } => path_ok(path) && all_lifetimes(lifetimes)
            && tys_ok(tys),
        SpecTy::Ref { ty, .. } => ty_ok(*ty),
        SpecTy::Verbatim(_) => false,
    }
}

pub open spec fn tys_ok(s: Seq<SpecTy>) -> bool
    decreases s,
{
    s.len() > 0 ==> ty_ok(s[0]) && tys_ok(s.drop_first())
}

/// How many brackets are open at the end of a text, if nothing in it ends it.
pub open spec fn run_end(s: Seq<char>, clause: bool, open: nat) -> Option<nat>
    decreases s.len(),
{
    if s.len() == 0 {
        Some(open)
    } else if open == 0 && ends_run(s[0], clause) {
        None
    } else if starts_arrow(s) {
        run_end(s.skip(2), clause, open)
    } else {
        run_end(s.skip(1), clause, deeper(s[0], open))
    }
}

/// A text that can stand as a bound, a default or a predicate: its brackets are
/// closed, and nothing outside them ends it.
pub open spec fn run_ok(s: Seq<char>, clause: bool) -> bool {
    s.len() > 0 && s.last() != ' ' && s.last() != '-' && run_end(s, clause, 0) == Some(0nat)
}

pub open spec fn bounds_ok(bounds: Seq<SpecTy>) -> bool {
    forall|i: int| 0 <= i < bounds.len() ==> run_ok(ty_text(#[trigger] bounds[i]), false)
}

pub open spec fn lifetime_def_ok(l: SpecLifetimeDef) -> bool {
    is_lifetime(l.name) && all_lifetimes(l.bounds)
}

pub open spec fn ty_param_ok(p: SpecTyParam) -> bool {
    &&& is_name(p.ident)
    &&& bounds_ok(p.bounds)
    &&& p.default matches Some(d) ==> run_ok(ty_text(d), false)
}

pub open spec fn generics_ok(g: SpecGenerics) -> bool {
    &&& forall|i: int| 0 <= i < g.lifetimes.len() ==> lifetime_def_ok(#[trigger] g.lifetimes[i])
    &&& forall|i: int| 0 <= i < g.ty_params.len() ==> ty_param_ok(#[trigger] g.ty_params[i])
    &&& forall|i: int|
        0 <= i < g.where_clause.len() ==> run_ok(#[trigger] g.where_clause[i], true)
}

// Code
// ----

pub open spec fn pat_ok(p: SpecPat) -> bool {
    match p {
        SpecPat::Wild => true,
        SpecPat::Lit(l) => lit_ok(l),
        SpecPat::Path(path) => path_ok(path),
        SpecPat::TupleStruct { path, ident } => path_ok(path) && is_name(ident),
    }
}

/// An expression that a block can follow.
pub open spec fn before_block(e: SpecExpr) -> bool {
    e is Path || e is Lit || e is Call || e is MethodCall || e is Try
}

pub open spec fn expr_ok(e: SpecExpr) -> bool
    decreases e,
{
    match e {
        SpecExpr::Path(path) => path_ok(path),
        SpecExpr::Lit(l) => lit_ok(l),
        SpecExpr::Call { path, args } => path_ok(path) && exprs_ok(args),
        SpecExpr::MethodCall { receiver, ident, args } => {
            &&& *receiver is Path
            &&& expr_ok(*receiver)
            &&& is_name(ident)
            &&& exprs_ok(args)
        },
        SpecExpr::Try(e) => expr_ok(*e),
        SpecExpr::Return(e) => expr_ok(*e),
        SpecExpr::Assign { ident, expr } => is_name(ident) && expr_ok(*expr),
        SpecExpr::Match { expr, arms } => {
            &&& before_block(*expr)
            &&& expr_ok(*expr)
            &&& arms_ok(arms)
        },
        SpecExpr::WhileLet { pat, expr, body } => {
            &&& pat_ok(pat)
            &&& before_block(*expr)
            &&& expr_ok(*expr)
            &&& block_ok(*body)
        },
        SpecExpr::Struct { path, fields } => path_ok(path) && inits_ok(fields),
        SpecExpr::Block(b) => block_ok(*b),
    }
}

pub open spec fn exprs_ok(s: Seq<SpecExpr>) -> bool
    decreases s,
{
    s.len() > 0 ==> expr_ok(s[0]) && exprs_ok(s.drop_first())
}

pub open spec fn arm_ok(a: SpecArm) -> bool
    decreases a,
{
    pat_ok(a.pat) && expr_ok(a.body)
}

pub open spec fn arms_ok(s: Seq<SpecArm>) -> bool
    decreases s,
{
    s.len() > 0 ==> arm_ok(s[0]) && arms_ok(s.drop_first())
}

pub open spec fn init_ok(f: SpecFieldInit) -> bool
    decreases f,
{
    is_name(f.ident) && expr_ok(f.expr)
}

pub open spec fn inits_ok(s: Seq<SpecFieldInit>) -> bool
    decreases s,
{
    s.len() > 0 ==> init_ok(s[0]) && inits_ok(s.drop_first())
}

/// A block. An expression that it ends in is no loop: that is a statement.
pub open spec fn block_ok(b: SpecBlock) -> bool
    decreases b,
{
    stmts_ok(b.stmts) && tail_ok(b.expr)
}

pub open spec fn tail_ok(e: Option<SpecExpr>) -> bool
    decreases e,
{
    match e {
        Some(e) => expr_ok(e) && !(e is WhileLet),
        None => true,
    }
}

pub open spec fn stmt_ok(s: SpecStmt) -> bool
    decreases s,
{
    match s {
        SpecStmt::Let { ident, init, .. } => is_name(ident) && expr_ok(init),
        SpecStmt::Decl(d) => decl_ok(d),
        SpecStmt::Semi(e) => expr_ok(e),
        SpecStmt::Expr(e) => expr_ok(e) && e is WhileLet,
    }
}

pub open spec fn stmts_ok(s: Seq<SpecStmt>) -> bool
    decreases s,
{
    s.len() > 0 ==> stmt_ok(s[0]) && stmts_ok(s.drop_first())
}

/// An item that can be read back: its names are identifiers.
pub open spec fn decl_ok(d: SpecDecl) -> bool
    decreases d,
{
    match d {
        SpecDecl::Enum { attr, ident, variants } => attr_ok(attr) && is_name(ident) && all_names(
            variants,
        ),
        SpecDecl::Struct { ident, generics, tys } => is_name(ident) && generics_ok(generics)
            && tys_ok(tys),
        SpecDecl::Impl(i) => impl_ok(i),
    }
}

pub open spec fn impl_ok(i: SpecTraitImpl) -> bool
    decreases i,
{
    &&& attr_ok(i.attr)
    &&& generics_ok(i.generics)
    &&& path_ok(i.trait_path)
    &&& ty_ok(i.self_ty)
    &&& i.value matches Some(ty) ==> ty_ok(ty)
    &&& methods_ok(i.methods)
}

pub open spec fn method_ok(m: SpecMethod) -> bool
    decreases m,
{
    &&& attr_ok(m.attr)
    &&& is_name(m.ident)
    &&& is_name(m.ty_param)
    &&& path_ok(m.bound)
    &&& m.arg matches Some(a) ==> is_name(a.ident) && ty_ok(a.ty)
    &&& ty_ok(m.output)
    &&& block_ok(m.body)
}

pub open spec fn methods_ok(s: Seq<SpecMethod>) -> bool
    decreases s,
{
    s.len() > 0 ==> method_ok(s[0]) && methods_ok(s.drop_first())
}

// Input
// -----

/// A field whose name, and the literal it is renamed to, can be written and read
/// back.
pub open spec fn field_ok(field: SpecField) -> bool {
    &&& field.name matches Some(x) ==> is_name(x)
    &&& field.rename matches Some(l) ==> lit_ok(l)
}

pub open spec fn fields_ok(fields: Seq<SpecField>) -> bool {
    forall|i: int| 0 <= i < fields.len() ==> field_ok(#[trigger] fields[i])
}

pub open spec fn variant_name_ok(variant: SpecVariant) -> bool {
    &&& is_name(variant.name)
    &&& variant.kind matches SpecVariantKind::Struct(fields) ==> fields_ok(fields)
}

/// An item all of whose names are identifiers.
pub open spec fn item_names_ok(item: SpecItem) -> bool {
    &&& is_name(item.ident)
    &&& match item.node {
        SpecItemKind::Struct(fields, g) => fields_ok(fields) && generics_ok(g),
        SpecItemKind::Enum(variants, g) => {
            &&& forall|i: int| 0 <= i < variants.len() ==> #[trigger] variant_name_ok(variants[i])
            &&& generics_ok(g)
        },
        SpecItemKind::Other => true,
    }
}

// What follows
// ------------

/// No word goes on here.
pub open spec fn word_ends(r: Seq<char>) -> bool {
    r.len() == 0 || !word_char(r[0])
}

/// No path goes on here.
pub open spec fn path_ends(r: Seq<char>) -> bool {
    word_ends(r) && (r.len() == 0 || r[0] != ':')
}

/// No type goes on here.
pub open spec fn ty_ends(r: Seq<char>) -> bool {
    path_ends(r) && (r.len() == 0 || r[0] != '<')
}

/// What follows an expression.
pub open spec fn expr_ends(r: Seq<char>, structs: bool) -> bool {
    r.len() > 0 && {
        ||| r[0] == ')'
        ||| r[0] == ','
        ||| r[0] == ';'
        ||| r[0] == ' ' && r.len() > 1 && (r[1] == '}' || (!structs && r[1] == '{'))
    }
}

// What is read
// ------------

/// Parameters, as they are read: bounds and defaults are text.
pub open spec fn flat_param(p: SpecTyParam) -> SpecTyParam {
    SpecTyParam {
        ident: p.ident,
        bounds: Seq::new(p.bounds.len(), |i: int| SpecTy::Verbatim(ty_text(p.bounds[i]))),
        default: match p.default {
            Some(d) => Some(SpecTy::Verbatim(ty_text(d))),
            None => None,
        },
    }
}

pub open spec fn flat_generics(g: SpecGenerics) -> SpecGenerics {
    SpecGenerics {
        ty_params: Seq::new(g.ty_params.len(), |i: int| flat_param(g.ty_params[i])),
        ..g
    }
}

/// An expression, as it is read: the same, but for the parameters of the items
/// in it.
pub open spec fn flat_expr(e: SpecExpr) -> SpecExpr
    decreases e,
{
    match e {
        SpecExpr::Path(_) => e,
        SpecExpr::Lit(_) => e,
        SpecExpr::Call { path, args } => SpecExpr::Call { path, args: flat_exprs(args) },
        SpecExpr::MethodCall { receiver, ident, args } => SpecExpr::MethodCall {
            receiver: Box::new(flat_expr(*receiver)),
            ident,
            args: flat_exprs(args),
        },
        SpecExpr::Try(e) => SpecExpr::Try(Box::new(flat_expr(*e))),
        SpecExpr::Return(e) => SpecExpr::Return(Box::new(flat_expr(*e))),
        SpecExpr::Assign { ident, expr } => SpecExpr::Assign {
            ident,
            expr: Box::new(flat_expr(*expr)),
        },
        SpecExpr::Match { expr, arms } => SpecExpr::Match {
            expr: Box::new(flat_expr(*expr)),
            arms: flat_arms(arms),
        },
        SpecExpr::WhileLet { pat, expr, body } => SpecExpr::WhileLet {
            pat,
            expr: Box::new(flat_expr(*expr)),
            body: Box::new(flat_block(*body)),
        },
        SpecExpr::Struct { path, fields } => SpecExpr::Struct {
            path,
            fields: flat_inits(fields),
        },
        SpecExpr::Block(b) => SpecExpr::Block(Box::new(flat_block(*b))),
    }
}

pub open spec fn flat_exprs(s: Seq<SpecExpr>) -> Seq<SpecExpr>
    decreases s,
{
    if s.len() == 0 {
        seq![]
    } else {
        seq![flat_expr(s[0])] + flat_exprs(s.drop_first())
    }
}

pub open spec fn flat_arms(s: Seq<SpecArm>) -> Seq<SpecArm>
    decreases s,
{
    if s.len() == 0 {
        seq![]
    } else {
        seq![flat_arm(s[0])] + flat_arms(s.drop_first())
    }
}

pub open spec fn flat_arm(a: SpecArm) -> SpecArm
    decreases a,
{
    SpecArm { pat: a.pat, body: flat_expr(a.body) }
}

pub open spec fn flat_init(f: SpecFieldInit) -> SpecFieldInit
    decreases f,
{
    SpecFieldInit { ident: f.ident, expr: flat_expr(f.expr) }
}

pub open spec fn flat_inits(s: Seq<SpecFieldInit>) -> Seq<SpecFieldInit>
    decreases s,
{
    if s.len() == 0 {
        seq![]
    } else {
        seq![flat_init(s[0])] + flat_inits(s.drop_first())
    }
}

pub open spec fn flat_block(b: SpecBlock) -> SpecBlock
    decreases b,
{
    SpecBlock { stmts: flat_stmts(b.stmts), expr: flat_tail(b.expr) }
}

pub open spec fn flat_tail(e: Option<SpecExpr>) -> Option<SpecExpr>
    decreases e,
{
    match e {
        Some(e) => Some(flat_expr(e)),
        None => None,
    }
}

pub open spec fn flat_stmt(s: SpecStmt) -> SpecStmt
    decreases s,
{
    match s {
        SpecStmt::Let { mutable, ident, init } => SpecStmt::Let {
            mutable,
            ident,
            init: flat_expr(init),
        },
        SpecStmt::Decl(d) => SpecStmt::Decl(flat_decl(d)),
        SpecStmt::Semi(e) => SpecStmt::Semi(flat_expr(e)),
        SpecStmt::Expr(e) => SpecStmt::Expr(flat_expr(e)),
    }
}

pub open spec fn flat_stmts(s: Seq<SpecStmt>) -> Seq<SpecStmt>
    decreases s,
{
    if s.len() == 0 {
        seq![]
    } else {
        seq![flat_stmt(s[0])] + flat_stmts(s.drop_first())
    }
}

/// An item, as it is read: the same, but that the bounds and defaults of type
/// parameters are text.
pub open spec fn flat_decl(d: SpecDecl) -> SpecDecl
    decreases d,
{
    match d {
        SpecDecl::Enum { .. } => d,
        SpecDecl::Struct { ident, generics, tys } => SpecDecl::Struct {
            ident,
            generics: flat_generics(generics),
            tys,
        },
        SpecDecl::Impl(i) => SpecDecl::Impl(flat_impl(i)),
    }
}

pub open spec fn flat_impl(i: SpecTraitImpl) -> SpecTraitImpl
    decreases i,
{
    SpecTraitImpl {
        attr: i.attr,
        generics: flat_generics(i.generics),
        trait_path: i.trait_path,
        self_ty: i.self_ty,
        value: i.value,
        methods: flat_methods(i.methods),
    }
}

pub open spec fn flat_method(m: SpecMethod) -> SpecMethod
    decreases m,
{
    SpecMethod { body: flat_block(m.body), ..m }
}

pub open spec fn flat_methods(s: Seq<SpecMethod>) -> Seq<SpecMethod>
    decreases s,
{
    if s.len() == 0 {
        seq![]
    } else {
        seq![flat_method(s[0])] + flat_methods(s.drop_first())
    }
}

// Trees that are read as they are
// -------------------------------

/// The bounds and defaults of all parameters are carried along as text.
pub open spec fn text_params(g: SpecGenerics) -> bool {
    forall|i: int|
        0 <= i < g.ty_params.len() ==> {
            &&& forall|j: int|
                0 <= j < (#[trigger] g.ty_params[i]).bounds.len()
                    ==> #[trigger] g.ty_params[i].bounds[j] is Verbatim
            &&& g.ty_params[i].default matches Some(d) ==> d is Verbatim
        }
}

/// So are they in all items inside an expression.
pub open spec fn text_expr(e: SpecExpr) -> bool
    decreases e,
{
    match e {
        SpecExpr::Path(_) => true,
        SpecExpr::Lit(_) => true,
        SpecExpr::Call { args, .. } => forall|i: int|
            0 <= i < args.len() ==> text_expr(#[trigger] args[i]),
        SpecExpr::MethodCall { receiver, args, .. } => text_expr(*receiver) && forall|i: int|
            0 <= i < args.len() ==> text_expr(#[trigger] args[i]),
        SpecExpr::Try(e) => text_expr(*e),
        SpecExpr::Return(e) => text_expr(*e),
        SpecExpr::Assign { expr, .. } => text_expr(*expr),
        SpecExpr::Match { expr, arms } => text_expr(*expr) && forall|i: int|
            0 <= i < arms.len() ==> text_expr((#[trigger] arms[i]).body),
        SpecExpr::WhileLet { expr, body, .. } => text_expr(*expr) && text_block(*body),
        SpecExpr::Struct { fields, .. } => forall|i: int|
            0 <= i < fields.len() ==> text_expr((#[trigger] fields[i]).expr),
        SpecExpr::Block(b) => text_block(*b),
    }
}

pub open spec fn text_block(b: SpecBlock) -> bool
    decreases b,
{
    &&& forall|i: int| 0 <= i < b.stmts.len() ==> text_stmt(#[trigger] b.stmts[i])
    &&& match b.expr {
        Some(e) => text_expr(e),
        None => true,
    }
}

pub open spec fn text_stmt(s: SpecStmt) -> bool
    decreases s,
{
    match s {
        SpecStmt::Let { init, .. } => text_expr(init),
        SpecStmt::Decl(d) => text_decl(d),
        SpecStmt::Semi(e) => text_expr(e),
        SpecStmt::Expr(e) => text_expr(e),
    }
}

/// An item in which the bounds and defaults of all parameters are carried along
/// as text.
pub open spec fn text_decl(d: SpecDecl) -> bool
    decreases d,
{
    match d {
        SpecDecl::Enum { .. } => true,
        SpecDecl::Struct { generics, .. } => text_params(generics),
        SpecDecl::Impl(i) => text_params(i.generics) && forall|k: int|
            0 <= k < i.methods.len() ==> text_block((#[trigger] i.methods[k]).body),
    }
}

} // verus!
