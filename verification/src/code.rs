//! The generated program: a syntax tree for the part of Rust that a derived
//! implementation is written in, and its mathematical model.
use vstd::prelude::*;

verus! {

/// A path without type arguments, such as `::serde::de::Visitor` or `__Visitor`.
pub struct Path {
    pub global: bool,
    pub segments: Vec<String>,
}

/// A type.
pub enum Ty {
    /// A path whose last segment may take lifetimes and types: `Name<'a, T>`.
    Path { path: Path, lifetimes: Vec<String>, tys: Vec<Ty> },
    /// `&ty` or `&mut ty`.
    Ref { mutable: bool, ty: Box<Ty> },
    /// A type or bound that is carried along as its source text.
    Verbatim(String),
}

/// A lifetime parameter with its bounds. The names include the apostrophe.
pub struct LifetimeDef {
    pub name: String,
    pub bounds: Vec<String>,
}

/// A type parameter with its bounds and default.
pub struct TyParam {
    pub ident: String,
    pub bounds: Vec<Ty>,
    pub default: Option<Ty>,
}

/// Generic parameters, and the predicates of the `where` clause as source text.
pub struct Generics {
    pub lifetimes: Vec<LifetimeDef>,
    pub ty_params: Vec<TyParam>,
    pub where_clause: Vec<String>,
}

/// A literal: a string, or any other literal as its source text.
pub enum Lit {
    Str(String),
    Verbatim(String),
}

/// A pattern.
pub enum Pat {
    /// `_`
    Wild,
    Lit(Lit),
    Path(Path),
    /// `path(ident)`
    TupleStruct { path: Path, ident: String },
}

/// An expression.
pub enum Expr {
    Path(Path),
    Lit(Lit),
    /// `path(args)`
    Call { path: Path, args: Vec<Expr> },
    /// `receiver.ident(args)`
    MethodCall { receiver: Box<Expr>, ident: String, args: Vec<Expr> },
    /// `try!(expr)`
    Try(Box<Expr>),
    /// `return expr`
    Return(Box<Expr>),
    /// `ident = expr`
    Assign { ident: String, expr: Box<Expr> },
    Match { expr: Box<Expr>, arms: Vec<Arm> },
    WhileLet { pat: Pat, expr: Box<Expr>, body: Box<Block> },
    /// `path { fields }`
    Struct { path: Path, fields: Vec<FieldInit> },
    Block(Box<Block>),
}

/// An arm of a `match`.
pub struct Arm {
    pub pat: Pat,
    pub body: Expr,
}

/// `ident: expr` in a struct expression.
pub struct FieldInit {
    pub ident: String,
    pub expr: Expr,
}

/// A block: statements, and the expression it ends in, if any.
pub struct Block {
    pub stmts: Vec<Stmt>,
    pub expr: Option<Expr>,
}

/// A statement.
pub enum Stmt {
    Let { mutable: bool, ident: String, init: Expr },
    Decl(Decl),
    /// `expr;`
    Semi(Expr),
    /// An expression that ends in a block and takes no semicolon.
    Expr(Expr),
}

/// An item.
pub enum Decl {
    /// An enum of variants without fields.
    Enum { attr: Option<String>, ident: String, variants: Vec<String> },
    /// A tuple struct, or a unit struct if there are no fields.
    Struct { ident: String, generics: Generics, tys: Vec<Ty> },
    Impl(TraitImpl),
}

/// An implementation of a trait.
pub struct TraitImpl {
    pub attr: Option<String>,
    pub generics: Generics,
    pub trait_path: Path,
    pub self_ty: Ty,
    /// The associated type `Value`, where the trait has one.
    pub value: Option<Ty>,
    pub methods: Vec<Method>,
}

/// A parameter of a method.
pub struct Arg {
    pub mutable: bool,
    pub ident: String,
    pub ty: Ty,
}

/// A method with one type parameter, which is bounded in a `where` clause.
pub struct Method {
    pub attr: Option<String>,
    pub ident: String,
    pub ty_param: String,
    pub bound: Path,
    /// Whether the first parameter is `&mut self`.
    pub takes_self: bool,
    pub arg: Option<Arg>,
    pub output: Ty,
    pub body: Block,
}

/// The model of a [`Path`].
#[verifier::ext_equal]
pub ghost struct SpecPath {
    pub global: bool,
    pub segments: Seq<Seq<char>>,
}

/// The model of a [`Ty`].
#[verifier::ext_equal]
pub ghost enum SpecTy {
    Path { path: SpecPath, lifetimes: Seq<Seq<char>>, tys: Seq<SpecTy> },
    Ref { mutable: bool, ty: Box<SpecTy> },
    Verbatim(Seq<char>),
}

/// The model of a [`LifetimeDef`].
#[verifier::ext_equal]
pub ghost struct SpecLifetimeDef {
    pub name: Seq<char>,
    pub bounds: Seq<Seq<char>>,
}

/// The model of a [`TyParam`].
#[verifier::ext_equal]
pub ghost struct SpecTyParam {
    pub ident: Seq<char>,
    pub bounds: Seq<SpecTy>,
    pub default: Option<SpecTy>,
}

/// The model of [`Generics`].
#[verifier::ext_equal]
pub ghost struct SpecGenerics {
    pub lifetimes: Seq<SpecLifetimeDef>,
    pub ty_params: Seq<SpecTyParam>,
    pub where_clause: Seq<Seq<char>>,
}

/// The model of a [`Lit`].
#[verifier::ext_equal]
pub ghost enum SpecLit {
    Str(Seq<char>),
    Verbatim(Seq<char>),
}

/// The model of a [`Pat`].
#[verifier::ext_equal]
pub ghost enum SpecPat {
    Wild,
    Lit(SpecLit),
    Path(SpecPath),
    TupleStruct { path: SpecPath, ident: Seq<char> },
}

/// The model of an [`Expr`].
#[verifier::ext_equal]
pub ghost enum SpecExpr {
    Path(SpecPath),
    Lit(SpecLit),
    Call { path: SpecPath, args: Seq<SpecExpr> },
    MethodCall { receiver: Box<SpecExpr>, ident: Seq<char>, args: Seq<SpecExpr> },
    Try(Box<SpecExpr>),
    Return(Box<SpecExpr>),
    Assign { ident: Seq<char>, expr: Box<SpecExpr> },
    Match { expr: Box<SpecExpr>, arms: Seq<SpecArm> },
    WhileLet { pat: SpecPat, expr: Box<SpecExpr>, body: Box<SpecBlock> },
    Struct { path: SpecPath, fields: Seq<SpecFieldInit> },
    Block(Box<SpecBlock>),
}

/// The model of an [`Arm`].
#[verifier::ext_equal]
pub ghost struct SpecArm {
    pub pat: SpecPat,
    pub body: SpecExpr,
}

/// The model of a [`FieldInit`].
#[verifier::ext_equal]
pub ghost struct SpecFieldInit {
    pub ident: Seq<char>,
    pub expr: SpecExpr,
}

/// The model of a [`Block`].
#[verifier::ext_equal]
pub ghost struct SpecBlock {
    pub stmts: Seq<SpecStmt>,
    pub expr: Option<SpecExpr>,
}

/// The model of a [`Stmt`].
#[verifier::ext_equal]
pub ghost enum SpecStmt {
    Let { mutable: bool, ident: Seq<char>, init: SpecExpr },
    Decl(SpecDecl),
    Semi(SpecExpr),
    Expr(SpecExpr),
}

/// The model of a [`Decl`].
#[verifier::ext_equal]
pub ghost enum SpecDecl {
    Enum { attr: Option<Seq<char>>, ident: Seq<char>, variants: Seq<Seq<char>> },
    Struct { ident: Seq<char>, generics: SpecGenerics, tys: Seq<SpecTy> },
    Impl(SpecTraitImpl),
}

/// The model of an [`TraitImpl`].
#[verifier::ext_equal]
pub ghost struct SpecTraitImpl {
    pub attr: Option<Seq<char>>,
    pub generics: SpecGenerics,
    pub trait_path: SpecPath,
    pub self_ty: SpecTy,
    pub value: Option<SpecTy>,
    pub methods: Seq<SpecMethod>,
}

/// The model of an [`Arg`].
#[verifier::ext_equal]
pub ghost struct SpecArg {
    pub mutable: bool,
    pub ident: Seq<char>,
    pub ty: SpecTy,
}

/// The model of a [`Method`].
#[verifier::ext_equal]
pub ghost struct SpecMethod {
    pub attr: Option<Seq<char>>,
    pub ident: Seq<char>,
    pub ty_param: Seq<char>,
    pub bound: SpecPath,
    pub takes_self: bool,
    pub arg: Option<SpecArg>,
    pub output: SpecTy,
    pub body: SpecBlock,
}

pub open spec fn strings_view(s: Seq<String>) -> Seq<Seq<char>> {
    Seq::new(s.len(), |i: int| s[i]@)
}

pub open spec fn opt_string_view(s: Option<String>) -> Option<Seq<char>> {
    match s {
        Some(s) => Some(s@),
        None => None,
    }
}

impl View for Path {
    type V = SpecPath;

    open spec fn view(&self) -> SpecPath {
        SpecPath { global: self.global, segments: strings_view(self.segments@) }
    }
}

pub open spec fn ty_view(t: Ty) -> SpecTy
    decreases t,
{
    match t {
        Ty::Path { path, lifetimes, tys } => SpecTy::Path {
            path: path@,
            lifetimes: strings_view(lifetimes@),
            tys: tys_view(tys@),
        },
        Ty::Ref { mutable, ty } => SpecTy::Ref { mutable, ty: Box::new(ty_view(*ty)) },
        Ty::Verbatim(s) => SpecTy::Verbatim(s@),
    }
}

pub open spec fn tys_view(s: Seq<Ty>) -> Seq<SpecTy>
    decreases s,
{
    Seq::new(
        s.len(),
        |i: int|
            if 0 <= i < s.len() {
                ty_view(s[i])
            } else {
                arbitrary()
            },
    )
}

pub open spec fn opt_ty_view(t: Option<Ty>) -> Option<SpecTy> {
    match t {
        Some(t) => Some(ty_view(t)),
        None => None,
    }
}

impl View for Ty {
    type V = SpecTy;

    open spec fn view(&self) -> SpecTy {
        ty_view(*self)
    }
}

impl View for LifetimeDef {
    type V = SpecLifetimeDef;

    open spec fn view(&self) -> SpecLifetimeDef {
        SpecLifetimeDef { name: self.name@, bounds: strings_view(self.bounds@) }
    }
}

impl View for TyParam {
    type V = SpecTyParam;

    open spec fn view(&self) -> SpecTyParam {
        SpecTyParam {
            ident: self.ident@,
            bounds: tys_view(self.bounds@),
            default: opt_ty_view(self.default),
        }
    }
}

impl View for Generics {
    type V = SpecGenerics;

    open spec fn view(&self) -> SpecGenerics {
        SpecGenerics {
            lifetimes: Seq::new(self.lifetimes@.len(), |i: int| self.lifetimes@[i]@),
            ty_params: Seq::new(self.ty_params@.len(), |i: int| self.ty_params@[i]@),
            where_clause: strings_view(self.where_clause@),
        }
    }
}

impl View for Lit {
    type V = SpecLit;

    open spec fn view(&self) -> SpecLit {
        match *self {
            Lit::Str(s) => SpecLit::Str(s@),
            Lit::Verbatim(s) => SpecLit::Verbatim(s@),
        }
    }
}

pub open spec fn lits_view(s: Seq<Lit>) -> Seq<SpecLit> {
    Seq::new(s.len(), |i: int| s[i]@)
}

impl View for Pat {
    type V = SpecPat;

    open spec fn view(&self) -> SpecPat {
        match *self {
            Pat::Wild => SpecPat::Wild,
            Pat::Lit(l) => SpecPat::Lit(l@),
            Pat::Path(p) => SpecPat::Path(p@),
            Pat::TupleStruct { path, ident } => SpecPat::TupleStruct {
                path: path@,
                ident: ident@,
            },
        }
    }
}

impl View for Arg {
    type V = SpecArg;

    open spec fn view(&self) -> SpecArg {
        SpecArg { mutable: self.mutable, ident: self.ident@, ty: self.ty@ }
    }
}

pub open spec fn opt_arg_view(a: Option<Arg>) -> Option<SpecArg> {
    match a {
        Some(a) => Some(a@),
        None => None,
    }
}

pub open spec fn expr_view(e: Expr) -> SpecExpr
    decreases e,
{
    match e {
        Expr::Path(p) => SpecExpr::Path(p@),
        Expr::Lit(l) => SpecExpr::Lit(l@),
        Expr::Call { path, args } => SpecExpr::Call { path: path@, args: exprs_view(args@) },
        Expr::MethodCall { receiver, ident, args } => SpecExpr::MethodCall {
            receiver: Box::new(expr_view(*receiver)),
            ident: ident@,
            args: exprs_view(args@),
        },
        Expr::Try(e) => SpecExpr::Try(Box::new(expr_view(*e))),
        Expr::Return(e) => SpecExpr::Return(Box::new(expr_view(*e))),
        Expr::Assign { ident, expr } => SpecExpr::Assign {
            ident: ident@,
            expr: Box::new(expr_view(*expr)),
        },
        Expr::Match { expr, arms } => SpecExpr::Match {
            expr: Box::new(expr_view(*expr)),
            arms: arms_view(arms@),
        },
        Expr::WhileLet { pat, expr, body } => SpecExpr::WhileLet {
            pat: pat@,
            expr: Box::new(expr_view(*expr)),
            body: Box::new(block_view(*body)),
        },
        Expr::Struct { path, fields } => SpecExpr::Struct {
            path: path@,
            fields: inits_view(fields@),
        },
        Expr::Block(b) => SpecExpr::Block(Box::new(block_view(*b))),
    }
}

pub open spec fn exprs_view(s: Seq<Expr>) -> Seq<SpecExpr>
    decreases s,
{
    Seq::new(
        s.len(),
        |i: int|
            if 0 <= i < s.len() {
                expr_view(s[i])
            } else {
                arbitrary()
            },
    )
}

pub open spec fn opt_expr_view(e: Option<Expr>) -> Option<SpecExpr>
    decreases e,
{
    match e {
        Some(e) => Some(expr_view(e)),
        None => None,
    }
}

pub open spec fn arm_view(a: Arm) -> SpecArm
    decreases a,
{
    SpecArm { pat: a.pat@, body: expr_view(a.body) }
}

pub open spec fn arms_view(s: Seq<Arm>) -> Seq<SpecArm>
    decreases s,
{
    Seq::new(
        s.len(),
        |i: int|
            if 0 <= i < s.len() {
                arm_view(s[i])
            } else {
                arbitrary()
            },
    )
}

pub open spec fn init_view(f: FieldInit) -> SpecFieldInit
    decreases f,
{
    SpecFieldInit { ident: f.ident@, expr: expr_view(f.expr) }
}

pub open spec fn inits_view(s: Seq<FieldInit>) -> Seq<SpecFieldInit>
    decreases s,
{
    Seq::new(
        s.len(),
        |i: int|
            if 0 <= i < s.len() {
                init_view(s[i])
            } else {
                arbitrary()
            },
    )
}

pub open spec fn block_view(b: Block) -> SpecBlock
    decreases b,
{
    SpecBlock { stmts: stmts_view(b.stmts@), expr: opt_expr_view(b.expr) }
}

pub open spec fn stmt_view(s: Stmt) -> SpecStmt
    decreases s,
{
    match s {
        Stmt::Let { mutable, ident, init } => SpecStmt::Let {
            mutable,
            ident: ident@,
            init: expr_view(init),
        },
        Stmt::Decl(d) => SpecStmt::Decl(decl_view(d)),
        Stmt::Semi(e) => SpecStmt::Semi(expr_view(e)),
        Stmt::Expr(e) => SpecStmt::Expr(expr_view(e)),
    }
}

pub open spec fn stmts_view(s: Seq<Stmt>) -> Seq<SpecStmt>
    decreases s,
{
    Seq::new(
        s.len(),
        |i: int|
            if 0 <= i < s.len() {
                stmt_view(s[i])
            } else {
                arbitrary()
            },
    )
}

pub open spec fn decl_view(d: Decl) -> SpecDecl
    decreases d,
{
    match d {
        Decl::Enum { attr, ident, variants } => SpecDecl::Enum {
            attr: opt_string_view(attr),
            ident: ident@,
            variants: strings_view(variants@),
        },
        Decl::Struct { ident, generics, tys } => SpecDecl::Struct {
            ident: ident@,
            generics: generics@,
            tys: tys_view(tys@),
        },
        Decl::Impl(i) => SpecDecl::Impl(impl_view(i)),
    }
}

pub open spec fn decls_view(s: Seq<Decl>) -> Seq<SpecDecl> {
    Seq::new(s.len(), |i: int| decl_view(s[i]))
}

pub open spec fn impl_view(i: TraitImpl) -> SpecTraitImpl
    decreases i,
{
    SpecTraitImpl {
        attr: opt_string_view(i.attr),
        generics: i.generics@,
        trait_path: i.trait_path@,
        self_ty: i.self_ty@,
        value: opt_ty_view(i.value),
        methods: methods_view(i.methods@),
    }
}

pub open spec fn method_view(m: Method) -> SpecMethod
    decreases m,
{
    SpecMethod {
        attr: opt_string_view(m.attr),
        ident: m.ident@,
        ty_param: m.ty_param@,
        bound: m.bound@,
        takes_self: m.takes_self,
        arg: opt_arg_view(m.arg),
        output: m.output@,
        body: block_view(m.body),
    }
}

pub open spec fn methods_view(s: Seq<Method>) -> Seq<SpecMethod>
    decreases s,
{
    Seq::new(
        s.len(),
        |i: int|
            if 0 <= i < s.len() {
                method_view(s[i])
            } else {
                arbitrary()
            },
    )
}

impl View for Expr {
    type V = SpecExpr;

    open spec fn view(&self) -> SpecExpr {
        expr_view(*self)
    }
}

impl View for Arm {
    type V = SpecArm;

    open spec fn view(&self) -> SpecArm {
        arm_view(*self)
    }
}

impl View for Block {
    type V = SpecBlock;

    open spec fn view(&self) -> SpecBlock {
        block_view(*self)
    }
}

impl View for Stmt {
    type V = SpecStmt;

    open spec fn view(&self) -> SpecStmt {
        stmt_view(*self)
    }
}

impl View for Decl {
    type V = SpecDecl;

    open spec fn view(&self) -> SpecDecl {
        decl_view(*self)
    }
}

impl View for Method {
    type V = SpecMethod;

    open spec fn view(&self) -> SpecMethod {
        method_view(*self)
    }
}

} // verus!
