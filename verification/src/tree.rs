//! Constructors for syntax trees, each beside the tree that it makes.
use vstd::prelude::*;

use crate::code::{
    arms_view, exprs_view, impl_view, inits_view, methods_view, opt_string_view, opt_ty_view,
    stmts_view, strings_view, tys_view, Arg, Arm, Block, Decl, Expr, FieldInit, Generics,
    LifetimeDef, Lit, Method, Pat, Path, SpecArg, SpecArm, SpecBlock, SpecDecl, SpecExpr,
    SpecGenerics, SpecLit, SpecPat, SpecPath, SpecStmt, SpecTraitImpl, SpecTy, Stmt, TraitImpl, Ty,
    TyParam,
};

verus! {

// Copies
// ------

/// A copy of a list of names.
pub fn dup_strings(v: &Vec<String>) -> (r: Vec<String>)
    ensures
        strings_view(r@) == strings_view(v@),
{
    let mut r: Vec<String> = Vec::new();
    for i in 0..v.len()
        invariant
            r@.len() == i,
            forall|j: int| 0 <= j < i ==> (#[trigger] r@[j])@ == v@[j]@,
    {
        r.push(v[i].clone());
    }
    assert(strings_view(r@) =~= strings_view(v@));
    r
}

impl Lit {
    /// A copy of this literal.
    pub fn dup(&self) -> (r: Lit)
        ensures
            r@ == self@,
    {
        match self {
            Lit::Str(s) => Lit::Str(s.clone()),
            Lit::Verbatim(s) => Lit::Verbatim(s.clone()),
        }
    }
}

impl Path {
    /// A copy of this path.
    pub fn dup(&self) -> (r: Path)
        ensures
            r@ == self@,
    {
        Path { global: self.global, segments: dup_strings(&self.segments) }
    }
}

/// A copy of a list of types.
pub fn dup_tys(v: &Vec<Ty>) -> (r: Vec<Ty>)
    ensures
        tys_view(r@) == tys_view(v@),
    decreases v,
{
    let mut r: Vec<Ty> = Vec::new();
    for i in 0..v.len()
        invariant
            r@.len() == i,
            forall|j: int| 0 <= j < i ==> (#[trigger] r@[j])@ == v@[j]@,
    {
        assert(decreases_to!(*v => v@[i as int]));
        r.push(v[i].dup());
    }
    assert(tys_view(r@) =~= tys_view(v@)) by {
        assert forall|j: int| 0 <= j < v@.len() implies tys_view(r@)[j] == tys_view(v@)[j] by {
            assert(r@[j]@ == v@[j]@);
        }
    }
    r
}

impl Ty {
    /// A copy of this type.
    pub fn dup(&self) -> (r: Ty)
        ensures
            r@ == self@,
        decreases self,
    {
        match self {
            Ty::Path { path, lifetimes, tys } => Ty::Path {
                path: path.dup(),
                lifetimes: dup_strings(lifetimes),
                tys: dup_tys(tys),
            },
            Ty::Ref { mutable, ty } => Ty::Ref { mutable: *mutable, ty: Box::new(ty.dup()) },
            Ty::Verbatim(s) => Ty::Verbatim(s.clone()),
        }
    }
}

impl LifetimeDef {
    /// A copy of this lifetime parameter.
    pub fn dup(&self) -> (r: LifetimeDef)
        ensures
            r@ == self@,
    {
        LifetimeDef { name: self.name.clone(), bounds: dup_strings(&self.bounds) }
    }
}

impl TyParam {
    /// A copy of this type parameter.
    pub fn dup(&self) -> (r: TyParam)
        ensures
            r@ == self@,
    {
        TyParam {
            ident: self.ident.clone(),
            bounds: dup_tys(&self.bounds),
            default: match &self.default {
                Some(ty) => Some(ty.dup()),
                None => None,
            },
        }
    }
}

/// No parameters and no `where` clause.
pub open spec fn no_generics() -> SpecGenerics {
    SpecGenerics { lifetimes: seq![], ty_params: seq![], where_clause: seq![] }
}

impl Generics {
    /// No parameters and no `where` clause.
    pub fn none() -> (r: Generics)
        ensures
            r@ == no_generics(),
    {
        let r = Generics {
            lifetimes: Vec::new(),
            ty_params: Vec::new(),
            where_clause: Vec::new(),
        };
        assert(r@ =~= no_generics());
        r
    }

    /// A copy of these parameters.
    pub fn dup(&self) -> (r: Generics)
        ensures
            r@ == self@,
    {
        let mut lifetimes: Vec<LifetimeDef> = Vec::new();
        for i in 0..self.lifetimes.len()
            invariant
                lifetimes@.len() == i,
                forall|j: int|
                    0 <= j < i ==> (#[trigger] lifetimes@[j])@ == self.lifetimes@[j]@,
        {
            lifetimes.push(self.lifetimes[i].dup());
        }
        let mut ty_params: Vec<TyParam> = Vec::new();
        for i in 0..self.ty_params.len()
            invariant
                ty_params@.len() == i,
                forall|j: int|
                    0 <= j < i ==> (#[trigger] ty_params@[j])@ == self.ty_params@[j]@,
        {
            ty_params.push(self.ty_params[i].dup());
        }
        let r = Generics { lifetimes, ty_params, where_clause: dup_strings(&self.where_clause) };
        assert(r@.lifetimes =~= self@.lifetimes);
        assert(r@.ty_params =~= self@.ty_params);
        r
    }
}

// Paths
// -----

/// `a`
pub open spec fn ident_path(a: Seq<char>) -> SpecPath {
    SpecPath { global: false, segments: seq![a] }
}

/// `a::b`
pub open spec fn pair_path(a: Seq<char>, b: Seq<char>) -> SpecPath {
    SpecPath { global: false, segments: seq![a, b] }
}

/// `::a::b::c`
pub open spec fn global_path(a: Seq<char>, b: Seq<char>, c: Seq<char>) -> SpecPath {
    SpecPath { global: true, segments: seq![a, b, c] }
}

/// `::serde::de::a`
pub open spec fn serde_path(a: Seq<char>) -> SpecPath {
    global_path("serde"@, "de"@, a)
}

/// `::serde::de::Error::a`
pub open spec fn serde_error_path(a: Seq<char>) -> SpecPath {
    SpecPath { global: true, segments: seq!["serde"@, "de"@, "Error"@, a] }
}

/// `::std::default::Default::default`
pub open spec fn default_path() -> SpecPath {
    SpecPath { global: true, segments: seq!["std"@, "default"@, "Default"@, "default"@] }
}

pub fn mk_ident_path(a: &str) -> (r: Path)
    ensures
        r@ == ident_path(a@),
{
    let mut segments: Vec<String> = Vec::new();
    segments.push(a.to_owned());
    let r = Path { global: false, segments };
    assert(r@ =~= ident_path(a@));
    r
}

pub fn mk_pair_path(a: &str, b: &str) -> (r: Path)
    ensures
        r@ == pair_path(a@, b@),
{
    let mut segments: Vec<String> = Vec::new();
    segments.push(a.to_owned());
    segments.push(b.to_owned());
    let r = Path { global: false, segments };
    assert(r@ =~= pair_path(a@, b@));
    r
}

pub fn mk_global_path(a: &str, b: &str, c: &str) -> (r: Path)
    ensures
        r@ == global_path(a@, b@, c@),
{
    let mut segments: Vec<String> = Vec::new();
    segments.push(a.to_owned());
    segments.push(b.to_owned());
    segments.push(c.to_owned());
    let r = Path { global: true, segments };
    assert(r@ =~= global_path(a@, b@, c@));
    r
}

pub fn mk_serde_path(a: &str) -> (r: Path)
    ensures
        r@ == serde_path(a@),
{
    mk_global_path("serde", "de", a)
}

pub fn mk_serde_error_path(a: &str) -> (r: Path)
    ensures
        r@ == serde_error_path(a@),
{
    let mut segments: Vec<String> = Vec::new();
    segments.push("serde".to_owned());
    segments.push("de".to_owned());
    segments.push("Error".to_owned());
    segments.push(a.to_owned());
    let r = Path { global: true, segments };
    assert(r@ =~= serde_error_path(a@));
    r
}

pub fn mk_default_path() -> (r: Path)
    ensures
        r@ == default_path(),
{
    let mut segments: Vec<String> = Vec::new();
    segments.push("std".to_owned());
    segments.push("default".to_owned());
    segments.push("Default".to_owned());
    segments.push("default".to_owned());
    let r = Path { global: true, segments };
    assert(r@ =~= default_path());
    r
}

// Types
// -----

/// A path as a type, without arguments.
pub open spec fn path_ty(path: SpecPath) -> SpecTy {
    SpecTy::Path { path, lifetimes: seq![], tys: seq![] }
}

/// `a`
pub open spec fn ident_ty(a: Seq<char>) -> SpecTy {
    path_ty(ident_path(a))
}

/// `::std::marker::PhantomData<a>`
pub open spec fn phantom_data_ty(a: Seq<char>) -> SpecTy {
    SpecTy::Path {
        path: global_path("std"@, "marker"@, "PhantomData"@),
        lifetimes: seq![],
        tys: seq![ident_ty(a)],
    }
}

/// `::std::result::Result<ok, err>`
pub open spec fn result_ty(ok: SpecTy, err: SpecTy) -> SpecTy {
    SpecTy::Path {
        path: global_path("std"@, "result"@, "Result"@),
        lifetimes: seq![],
        tys: seq![ok, err],
    }
}

/// `&ty` or `&mut ty`
pub open spec fn ref_ty(mutable: bool, ty: SpecTy) -> SpecTy {
    SpecTy::Ref { mutable, ty: Box::new(ty) }
}

pub fn mk_path_ty(path: Path) -> (r: Ty)
    ensures
        r@ == path_ty(path@),
{
    let tys: Vec<Ty> = Vec::new();
    assert(tys_view(tys@) =~= seq![]);
    let r = Ty::Path { path, lifetimes: Vec::new(), tys };
    assert(r@ =~= path_ty(path@));
    r
}

pub fn mk_ident_ty(a: &str) -> (r: Ty)
    ensures
        r@ == ident_ty(a@),
{
    mk_path_ty(mk_ident_path(a))
}

pub fn mk_phantom_data_ty(a: &str) -> (r: Ty)
    ensures
        r@ == phantom_data_ty(a@),
{
    let mut tys: Vec<Ty> = Vec::new();
    tys.push(mk_ident_ty(a));
    assert(tys_view(tys@) =~= seq![ident_ty(a@)]);
    let r = Ty::Path {
        path: mk_global_path("std", "marker", "PhantomData"),
        lifetimes: Vec::new(),
        tys,
    };
    assert(r@ =~= phantom_data_ty(a@));
    r
}

pub fn mk_result_ty(ok: Ty, err: Ty) -> (r: Ty)
    ensures
        r@ == result_ty(ok@, err@),
{
    let mut tys: Vec<Ty> = Vec::new();
    tys.push(ok);
    tys.push(err);
    assert(tys_view(tys@) =~= seq![ok@, err@]);
    let r = Ty::Path {
        path: mk_global_path("std", "result", "Result"),
        lifetimes: Vec::new(),
        tys,
    };
    assert(r@ =~= result_ty(ok@, err@));
    r
}

pub fn mk_ref_ty(mutable: bool, ty: Ty) -> (r: Ty)
    ensures
        r@ == ref_ty(mutable, ty@),
{
    Ty::Ref { mutable, ty: Box::new(ty) }
}

// Expressions
// -----------

/// `a`
pub open spec fn var(a: Seq<char>) -> SpecExpr {
    SpecExpr::Path(ident_path(a))
}

/// `path()`
pub open spec fn call0(path: SpecPath) -> SpecExpr {
    SpecExpr::Call { path, args: seq![] }
}

/// `path(arg)`
pub open spec fn call1(path: SpecPath, arg: SpecExpr) -> SpecExpr {
    SpecExpr::Call { path, args: seq![arg] }
}

/// `Ok(arg)`
pub open spec fn ok_expr(arg: SpecExpr) -> SpecExpr {
    call1(ident_path("Ok"@), arg)
}

/// `Err(arg)`
pub open spec fn err_expr(arg: SpecExpr) -> SpecExpr {
    call1(ident_path("Err"@), arg)
}

/// `Some(arg)`
pub open spec fn some_expr(arg: SpecExpr) -> SpecExpr {
    call1(ident_path("Some"@), arg)
}

/// `receiver.ident()`
pub open spec fn method0(receiver: Seq<char>, ident: Seq<char>) -> SpecExpr {
    SpecExpr::MethodCall { receiver: Box::new(var(receiver)), ident, args: seq![] }
}

/// `receiver.ident(arg)`
pub open spec fn method1(receiver: Seq<char>, ident: Seq<char>, arg: SpecExpr) -> SpecExpr {
    SpecExpr::MethodCall { receiver: Box::new(var(receiver)), ident, args: seq![arg] }
}

/// `receiver.ident(a, b)`
pub open spec fn method2(
    receiver: Seq<char>,
    ident: Seq<char>,
    a: SpecExpr,
    b: SpecExpr,
) -> SpecExpr {
    SpecExpr::MethodCall { receiver: Box::new(var(receiver)), ident, args: seq![a, b] }
}

/// `try!(expr)`
pub open spec fn try_expr(expr: SpecExpr) -> SpecExpr {
    SpecExpr::Try(Box::new(expr))
}

/// `match expr { arms }`
pub open spec fn match_expr(expr: SpecExpr, arms: Seq<SpecArm>) -> SpecExpr {
    SpecExpr::Match { expr: Box::new(expr), arms }
}

/// `stmts expr`
pub open spec fn block(stmts: Seq<SpecStmt>, expr: SpecExpr) -> SpecBlock {
    SpecBlock { stmts, expr: Some(expr) }
}

/// `{ stmts expr }`
pub open spec fn block_expr(stmts: Seq<SpecStmt>, expr: SpecExpr) -> SpecExpr {
    SpecExpr::Block(Box::new(block(stmts, expr)))
}

/// `{ expr; }`
pub open spec fn semi_block_expr(expr: SpecExpr) -> SpecExpr {
    SpecExpr::Block(Box::new(SpecBlock { stmts: seq![SpecStmt::Semi(expr)], expr: None }))
}

/// `path(ident)` as a pattern
pub open spec fn bind_pat(path: Seq<char>, ident: Seq<char>) -> SpecPat {
    SpecPat::TupleStruct { path: ident_path(path), ident }
}

pub fn mk_var(a: &str) -> (r: Expr)
    ensures
        r@ == var(a@),
{
    Expr::Path(mk_ident_path(a))
}

pub fn mk_path_expr(path: Path) -> (r: Expr)
    ensures
        r@ == SpecExpr::Path(path@),
{
    Expr::Path(path)
}

pub fn mk_str(s: &str) -> (r: Expr)
    ensures
        r@ == SpecExpr::Lit(SpecLit::Str(s@)),
{
    Expr::Lit(Lit::Str(s.to_owned()))
}

pub fn mk_lit(lit: Lit) -> (r: Expr)
    ensures
        r@ == SpecExpr::Lit(lit@),
{
    Expr::Lit(lit)
}

pub fn mk_call(path: Path, args: Vec<Expr>) -> (r: Expr)
    ensures
        r@ == (SpecExpr::Call { path: path@, args: exprs_view(args@) }),
{
    Expr::Call { path, args }
}

pub fn mk_call0(path: Path) -> (r: Expr)
    ensures
        r@ == call0(path@),
{
    let args: Vec<Expr> = Vec::new();
    assert(exprs_view(args@) =~= seq![]);
    mk_call(path, args)
}

fn mk_args1(a: Expr) -> (r: Vec<Expr>)
    ensures
        exprs_view(r@) == seq![a@],
{
    let mut args: Vec<Expr> = Vec::new();
    args.push(a);
    assert(exprs_view(args@) =~= seq![a@]);
    args
}

fn mk_args2(a: Expr, b: Expr) -> (r: Vec<Expr>)
    ensures
        exprs_view(r@) == seq![a@, b@],
{
    let mut args: Vec<Expr> = Vec::new();
    args.push(a);
    args.push(b);
    assert(exprs_view(args@) =~= seq![a@, b@]);
    args
}

pub fn mk_call1(path: Path, arg: Expr) -> (r: Expr)
    ensures
        r@ == call1(path@, arg@),
{
    mk_call(path, mk_args1(arg))
}

pub fn mk_ok(arg: Expr) -> (r: Expr)
    ensures
        r@ == ok_expr(arg@),
{
    mk_call1(mk_ident_path("Ok"), arg)
}

pub fn mk_err(arg: Expr) -> (r: Expr)
    ensures
        r@ == err_expr(arg@),
{
    mk_call1(mk_ident_path("Err"), arg)
}

pub fn mk_some(arg: Expr) -> (r: Expr)
    ensures
        r@ == some_expr(arg@),
{
    mk_call1(mk_ident_path("Some"), arg)
}

fn mk_method(receiver: &str, ident: &str, args: Vec<Expr>) -> (r: Expr)
    ensures
        r@ == (SpecExpr::MethodCall {
            receiver: Box::new(var(receiver@)),
            ident: ident@,
            args: exprs_view(args@),
        }),
{
    Expr::MethodCall { receiver: Box::new(mk_var(receiver)), ident: ident.to_owned(), args }
}

pub fn mk_method0(receiver: &str, ident: &str) -> (r: Expr)
    ensures
        r@ == method0(receiver@, ident@),
{
    let args: Vec<Expr> = Vec::new();
    assert(exprs_view(args@) =~= seq![]);
    mk_method(receiver, ident, args)
}

pub fn mk_method1(receiver: &str, ident: &str, arg: Expr) -> (r: Expr)
    ensures
        r@ == method1(receiver@, ident@, arg@),
{
    mk_method(receiver, ident, mk_args1(arg))
}

pub fn mk_method2(receiver: &str, ident: &str, a: Expr, b: Expr) -> (r: Expr)
    ensures
        r@ == method2(receiver@, ident@, a@, b@),
{
    mk_method(receiver, ident, mk_args2(a, b))
}

pub fn mk_try(expr: Expr) -> (r: Expr)
    ensures
        r@ == try_expr(expr@),
{
    Expr::Try(Box::new(expr))
}

pub fn mk_return(expr: Expr) -> (r: Expr)
    ensures
        r@ == SpecExpr::Return(Box::new(expr@)),
{
    Expr::Return(Box::new(expr))
}

pub fn mk_assign(ident: &str, expr: Expr) -> (r: Expr)
    ensures
        r@ == (SpecExpr::Assign { ident: ident@, expr: Box::new(expr@) }),
{
    Expr::Assign { ident: ident.to_owned(), expr: Box::new(expr) }
}

pub fn mk_match(expr: Expr, arms: Vec<Arm>) -> (r: Expr)
    ensures
        r@ == match_expr(expr@, arms_view(arms@)),
{
    Expr::Match { expr: Box::new(expr), arms }
}

pub fn mk_while_let(pat: Pat, expr: Expr, body: Block) -> (r: Expr)
    ensures
        r@ == (SpecExpr::WhileLet { pat: pat@, expr: Box::new(expr@), body: Box::new(body@) }),
{
    Expr::WhileLet { pat, expr: Box::new(expr), body: Box::new(body) }
}

pub fn mk_struct_expr(path: Path, fields: Vec<FieldInit>) -> (r: Expr)
    ensures
        r@ == (SpecExpr::Struct { path: path@, fields: inits_view(fields@) }),
{
    Expr::Struct { path, fields }
}

pub fn mk_block(stmts: Vec<Stmt>, expr: Expr) -> (r: Block)
    ensures
        r@ == block(stmts_view(stmts@), expr@),
{
    Block { stmts, expr: Some(expr) }
}

/// A block that is only an expression.
pub fn mk_plain_block(expr: Expr) -> (r: Block)
    ensures
        r@ == block(seq![], expr@),
{
    let stmts: Vec<Stmt> = Vec::new();
    assert(stmts_view(stmts@) =~= seq![]);
    mk_block(stmts, expr)
}

pub fn mk_block_expr(stmts: Vec<Stmt>, expr: Expr) -> (r: Expr)
    ensures
        r@ == block_expr(stmts_view(stmts@), expr@),
{
    Expr::Block(Box::new(mk_block(stmts, expr)))
}

pub fn mk_plain_block_expr(expr: Expr) -> (r: Expr)
    ensures
        r@ == block_expr(seq![], expr@),
{
    Expr::Block(Box::new(mk_plain_block(expr)))
}

pub fn mk_semi_block_expr(expr: Expr) -> (r: Expr)
    ensures
        r@ == semi_block_expr(expr@),
{
    let mut stmts: Vec<Stmt> = Vec::new();
    stmts.push(Stmt::Semi(expr));
    let b = Block { stmts, expr: None };
    assert(stmts_view(stmts@) =~= seq![SpecStmt::Semi(expr@)]);
    assert(b@ == (SpecBlock { stmts: seq![SpecStmt::Semi(expr@)], expr: None }));
    Expr::Block(Box::new(b))
}

pub fn mk_bind_pat(path: &str, ident: &str) -> (r: Pat)
    ensures
        r@ == bind_pat(path@, ident@),
{
    Pat::TupleStruct { path: mk_ident_path(path), ident: ident.to_owned() }
}

pub fn mk_arm(pat: Pat, body: Expr) -> (r: Arm)
    ensures
        r@ == (SpecArm { pat: pat@, body: body@ }),
{
    Arm { pat, body }
}

/// Adds an arm to a list.
pub fn push_arm(arms: &mut Vec<Arm>, pat: Pat, body: Expr)
    ensures
        arms_view(final(arms)@) == arms_view(old(arms)@).push(SpecArm { pat: pat@, body: body@ }),
{
    let arm = mk_arm(pat, body);
    arms.push(arm);
    assert(arms_view(arms@) =~= arms_view(old(arms)@).push(arm@));
}

/// Adds a statement to a list.
pub fn push_stmt(stmts: &mut Vec<Stmt>, stmt: Stmt)
    ensures
        stmts_view(final(stmts)@) == stmts_view(old(stmts)@).push(stmt@),
{
    stmts.push(stmt);
    assert(stmts_view(stmts@) =~= stmts_view(old(stmts)@).push(stmt@));
}

/// Moves statements to the end of a list.
pub fn append_stmts(stmts: &mut Vec<Stmt>, more: Vec<Stmt>)
    ensures
        stmts_view(final(stmts)@) == stmts_view(old(stmts)@) + stmts_view(more@),
{
    let mut more = more;
    let ghost added = more@;
    stmts.append(&mut more);
    assert(stmts_view(stmts@) =~= stmts_view(old(stmts)@) + stmts_view(added));
}

pub fn mk_let(mutable: bool, ident: &str, init: Expr) -> (r: Stmt)
    ensures
        r@ == (SpecStmt::Let { mutable, ident: ident@, init: init@ }),
{
    Stmt::Let { mutable, ident: ident.to_owned(), init }
}

pub fn mk_semi(expr: Expr) -> (r: Stmt)
    ensures
        r@ == SpecStmt::Semi(expr@),
{
    Stmt::Semi(expr)
}

pub fn mk_expr_stmt(expr: Expr) -> (r: Stmt)
    ensures
        r@ == SpecStmt::Expr(expr@),
{
    Stmt::Expr(expr)
}

pub fn mk_decl(decl: Decl) -> (r: Stmt)
    ensures
        r@ == SpecStmt::Decl(decl@),
{
    Stmt::Decl(decl)
}

// Items
// -----

pub fn mk_arg(mutable: bool, ident: &str, ty: Ty) -> (r: Arg)
    ensures
        r@ == (SpecArg { mutable, ident: ident@, ty: ty@ }),
{
    Arg { mutable, ident: ident.to_owned(), ty }
}

pub fn mk_struct(ident: &str, generics: Generics, tys: Vec<Ty>) -> (r: Decl)
    ensures
        r@ == (SpecDecl::Struct { ident: ident@, generics: generics@, tys: tys_view(tys@) }),
{
    Decl::Struct { ident: ident.to_owned(), generics, tys }
}

pub fn mk_unit_struct(ident: &str) -> (r: Decl)
    ensures
        r@ == (SpecDecl::Struct { ident: ident@, generics: no_generics(), tys: seq![] }),
{
    let tys: Vec<Ty> = Vec::new();
    assert(tys_view(tys@) =~= seq![]);
    mk_struct(ident, Generics::none(), tys)
}

/// The list of one method.
pub fn mk_methods1(a: Method) -> (r: Vec<Method>)
    ensures
        methods_view(r@) == seq![a@],
{
    let mut r: Vec<Method> = Vec::new();
    r.push(a);
    assert(methods_view(r@) =~= seq![a@]);
    r
}

/// The list of two methods.
pub fn mk_methods2(a: Method, b: Method) -> (r: Vec<Method>)
    ensures
        methods_view(r@) == seq![a@, b@],
{
    let mut r: Vec<Method> = Vec::new();
    r.push(a);
    r.push(b);
    assert(methods_view(r@) =~= seq![a@, b@]);
    r
}

pub fn mk_impl(
    attr: Option<String>,
    generics: Generics,
    trait_path: Path,
    self_ty: Ty,
    value: Option<Ty>,
    methods: Vec<Method>,
) -> (r: Decl)
    ensures
        r@ == SpecDecl::Impl(
            SpecTraitImpl {
                attr: opt_string_view(attr),
                generics: generics@,
                trait_path: trait_path@,
                self_ty: self_ty@,
                value: opt_ty_view(value),
                methods: methods_view(methods@),
            },
        ),
{
    let i = TraitImpl { attr, generics, trait_path, self_ty, value, methods };
    assert(impl_view(i) == (SpecTraitImpl {
        attr: opt_string_view(attr),
        generics: generics@,
        trait_path: trait_path@,
        self_ty: self_ty@,
        value: opt_ty_view(value),
        methods: methods_view(methods@),
    }));
    Decl::Impl(i)
}

} // verus!
