//! The source text of generated code.
use vstd::prelude::*;

use crate::code::{
    arm_view, arms_view, block_view, decl_view, expr_view, exprs_view, impl_view, init_view,
    inits_view, method_view, methods_view, opt_arg_view, opt_string_view, opt_ty_view, stmt_view,
    stmts_view, strings_view, ty_view, tys_view, Arg, Arm, Block, Decl, Expr, FieldInit, Generics,
    LifetimeDef, Lit, Method, Pat, Path, SpecArg, SpecArm, SpecBlock, SpecDecl, SpecExpr,
    SpecFieldInit, SpecGenerics, SpecLifetimeDef, SpecLit, SpecMethod, SpecPat, SpecPath, SpecStmt,
    SpecTraitImpl, SpecTy, SpecTyParam, Stmt, TraitImpl, Ty, TyParam,
};
use crate::code_laws::law_source;
use crate::parse::read_item;
use crate::source::{decl_ok, flat_decl};
use crate::tree::dup_strings;

verus! {

// Lists
// -----

/// Texts one after the other, with a separator between them.
pub open spec fn join(texts: Seq<Seq<char>>, sep: Seq<char>) -> Seq<char>
    decreases texts.len(),
{
    if texts.len() == 0 {
        seq![]
    } else if texts.len() == 1 {
        texts[0]
    } else {
        join(texts.drop_last(), sep) + sep + texts.last()
    }
}

fn join_strings(v: &Vec<String>, sep: &str) -> (r: String)
    ensures
        r@ == join(strings_view(v@), sep@),
{
    let ghost texts = strings_view(v@);
    let mut r = String::new();
    for i in 0..v.len()
        invariant
            texts == strings_view(v@),
            r@ == join(texts.take(i as int), sep@),
    {
        assert(texts.take(i + 1).drop_last() =~= texts.take(i as int));
        assert(texts.take(i + 1).last() == v@[i as int]@);
        if i == 0 {
            assert(texts.take(i + 1).len() == 1);
            assert(r@ =~= seq![]);
            r = v[i].clone();
        } else {
            r.append(sep);
            r.append(v[i].as_str());
        }
    }
    assert(texts.take(v@.len() as int) =~= texts);
    r
}

/// Names, separated by commas.
pub open spec fn comma_text(texts: Seq<Seq<char>>) -> Seq<char> {
    join(texts, ", "@)
}

/// The list itself, or nothing if it is empty, behind a prefix.
pub open spec fn prefixed(prefix: Seq<char>, texts: Seq<Seq<char>>, sep: Seq<char>) -> Seq<char> {
    if texts.len() == 0 {
        seq![]
    } else {
        prefix + join(texts, sep)
    }
}

fn prefixed_string(prefix: &str, v: &Vec<String>, sep: &str) -> (r: String)
    ensures
        r@ == prefixed(prefix@, strings_view(v@), sep@),
{
    if v.len() == 0 {
        let r = String::new();
        assert(r@ =~= seq![]);
        r
    } else {
        let mut r = prefix.to_owned();
        r.append(join_strings(v, sep).as_str());
        r
    }
}

/// The list in angle brackets, or nothing if it is empty.
pub open spec fn angles(texts: Seq<Seq<char>>) -> Seq<char> {
    if texts.len() == 0 {
        seq![]
    } else {
        "<"@ + comma_text(texts) + ">"@
    }
}

fn angles_string(v: &Vec<String>) -> (r: String)
    ensures
        r@ == angles(strings_view(v@)),
{
    if v.len() == 0 {
        let r = String::new();
        assert(r@ =~= seq![]);
        r
    } else {
        let mut r = "<".to_owned();
        r.append(join_strings(v, ", ").as_str());
        r.append(">");
        r
    }
}

/// `mut `, or nothing.
pub open spec fn mut_text(mutable: bool) -> Seq<char> {
    if mutable {
        "mut "@
    } else {
        seq![]
    }
}

fn mut_string(mutable: bool) -> (r: String)
    ensures
        r@ == mut_text(mutable),
{
    if mutable {
        "mut ".to_owned()
    } else {
        let r = String::new();
        assert(r@ =~= seq![]);
        r
    }
}

// Literals
// --------

/// How a character is written in a string literal.
pub open spec fn escape_char(c: char) -> Seq<char> {
    if c == '"' {
        seq!['\\', '"']
    } else if c == '\\' {
        seq!['\\', '\\']
    } else if c == '\n' {
        seq!['\\', 'n']
    } else if c == '\r' {
        seq!['\\', 'r']
    } else {
        seq![c]
    }
}

/// How characters are written in a string literal.
pub open spec fn escape(s: Seq<char>) -> Seq<char>
    decreases s.len(),
{
    if s.len() == 0 {
        seq![]
    } else {
        escape(s.drop_last()) + escape_char(s.last())
    }
}

fn escape_string(s: &String) -> (r: String)
    ensures
        r@ == escape(s@),
{
    let mut r = String::new();
    let t = s.as_str();
    let n = t.unicode_len();
    proof {
        reveal_strlit("\\\"");
        reveal_strlit("\\\\");
        reveal_strlit("\\n");
        reveal_strlit("\\r");
    }
    assert(r@ =~= seq![]);
    for i in 0..n
        invariant
            n == s@.len(),
            t@ == s@,
            r@ == escape(s@.take(i as int)),
            "\\\""@ =~= seq!['\\', '"'],
            "\\\\"@ =~= seq!['\\', '\\'],
            "\\n"@ =~= seq!['\\', 'n'],
            "\\r"@ =~= seq!['\\', 'r'],
    {
        let c = t.get_char(i);
        assert(s@.take(i + 1).drop_last() =~= s@.take(i as int));
        assert(s@.take(i + 1).last() == c);
        if c == '"' {
            r.append("\\\"");
        } else if c == '\\' {
            r.append("\\\\");
        } else if c == '\n' {
            r.append("\\n");
        } else if c == '\r' {
            r.append("\\r");
        } else {
            let part = t.substring_char(i, i + 1);
            assert(part@ =~= seq![c]);
            r.append(part);
        }
    }
    assert(s@.take(n as int) =~= s@);
    r
}

pub open spec fn lit_text(l: SpecLit) -> Seq<char> {
    match l {
        SpecLit::Str(s) => "\""@ + escape(s) + "\""@,
        SpecLit::Verbatim(s) => s,
    }
}

fn lit_string(l: &Lit) -> (r: String)
    ensures
        r@ == lit_text(l@),
{
    match l {
        Lit::Str(s) => {
            let mut r = "\"".to_owned();
            r.append(escape_string(s).as_str());
            r.append("\"");
            r
        },
        Lit::Verbatim(s) => s.clone(),
    }
}

// Paths and types
// ---------------

pub open spec fn path_text(p: SpecPath) -> Seq<char> {
    if p.global {
        "::"@ + join(p.segments, "::"@)
    } else {
        join(p.segments, "::"@)
    }
}

fn path_string(p: &Path) -> (r: String)
    ensures
        r@ == path_text(p@),
{
    if p.global {
        let mut r = "::".to_owned();
        r.append(join_strings(&p.segments, "::").as_str());
        r
    } else {
        join_strings(&p.segments, "::")
    }
}

pub open spec fn ty_text(t: SpecTy) -> Seq<char>
    decreases t,
{
    match t {
        SpecTy::Path { path, lifetimes, tys } => path_text(path) + angles(
            lifetimes + tys_texts(tys),
        ),
        SpecTy::Ref { mutable, ty } => "&"@ + mut_text(mutable) + ty_text(*ty),
        SpecTy::Verbatim(s) => s,
    }
}

pub open spec fn tys_texts(s: Seq<SpecTy>) -> Seq<Seq<char>>
    decreases s,
{
    Seq::new(
        s.len(),
        |i: int|
            if 0 <= i < s.len() {
                ty_text(s[i])
            } else {
                arbitrary()
            },
    )
}

fn tys_strings(v: &Vec<Ty>) -> (r: Vec<String>)
    ensures
        strings_view(r@) == tys_texts(tys_view(v@)),
    decreases v,
{
    let mut r: Vec<String> = Vec::new();
    for i in 0..v.len()
        invariant
            r@.len() == i,
            forall|j: int| 0 <= j < i ==> (#[trigger] r@[j])@ == ty_text(ty_view(v@[j])),
    {
        assert(decreases_to!(*v => v@[i as int]));
        r.push(ty_string(&v[i]));
    }
    assert(strings_view(r@) =~= tys_texts(tys_view(v@)));
    r
}

fn ty_string(t: &Ty) -> (r: String)
    ensures
        r@ == ty_text(t@),
    decreases t,
{
    match t {
        Ty::Path { path, lifetimes, tys } => {
            let mut args = dup_strings(lifetimes);
            let mut more = tys_strings(tys);
            let ghost a = args@;
            let ghost b = more@;
            args.append(&mut more);
            assert(strings_view(args@) =~= strings_view(a) + strings_view(b));
            let mut r = path_string(path);
            r.append(angles_string(&args).as_str());
            r
        },
        Ty::Ref { mutable, ty } => {
            let mut r = "&".to_owned();
            r.append(mut_string(*mutable).as_str());
            r.append(ty_string(ty).as_str());
            r
        },
        Ty::Verbatim(s) => s.clone(),
    }
}

// Parameters
// ----------

pub open spec fn lifetime_text(l: SpecLifetimeDef) -> Seq<char> {
    l.name + prefixed(": "@, l.bounds, " + "@)
}

fn lifetime_string(l: &LifetimeDef) -> (r: String)
    ensures
        r@ == lifetime_text(l@),
{
    let mut r = l.name.clone();
    r.append(prefixed_string(": ", &l.bounds, " + ").as_str());
    r
}

/// ` = ty`, where a type parameter has a default.
pub open spec fn default_text(t: Option<SpecTy>) -> Seq<char> {
    match t {
        Some(t) => " = "@ + ty_text(t),
        None => seq![],
    }
}

fn default_string(t: &Option<Ty>) -> (r: String)
    ensures
        r@ == default_text(opt_ty_view(*t)),
{
    match t {
        Some(t) => {
            let mut r = " = ".to_owned();
            r.append(ty_string(t).as_str());
            r
        },
        None => {
            let r = String::new();
            assert(r@ =~= seq![]);
            r
        },
    }
}

pub open spec fn ty_param_text(p: SpecTyParam) -> Seq<char> {
    p.ident + prefixed(": "@, tys_texts(p.bounds), " + "@) + default_text(p.default)
}

fn ty_param_string(p: &TyParam) -> (r: String)
    ensures
        r@ == ty_param_text(p@),
{
    let mut r = p.ident.clone();
    r.append(prefixed_string(": ", &tys_strings(&p.bounds), " + ").as_str());
    r.append(default_string(&p.default).as_str());
    r
}

/// Generic parameters in angle brackets, lifetimes first.
pub open spec fn generics_text(g: SpecGenerics) -> Seq<char> {
    angles(
        Seq::new(g.lifetimes.len(), |i: int| lifetime_text(g.lifetimes[i])) + Seq::new(
            g.ty_params.len(),
            |i: int| ty_param_text(g.ty_params[i]),
        ),
    )
}

fn generics_string(g: &Generics) -> (r: String)
    ensures
        r@ == generics_text(g@),
{
    let mut v: Vec<String> = Vec::new();
    for i in 0..g.lifetimes.len()
        invariant
            v@.len() == i,
            forall|j: int| 0 <= j < i ==> (#[trigger] v@[j])@ == lifetime_text(g.lifetimes@[j]@),
    {
        v.push(lifetime_string(&g.lifetimes[i]));
    }
    let ghost n = v@.len() as int;
    for i in 0..g.ty_params.len()
        invariant
            n == g.lifetimes@.len(),
            v@.len() == n + i,
            forall|j: int| 0 <= j < n ==> (#[trigger] v@[j])@ == lifetime_text(g.lifetimes@[j]@),
            forall|j: int|
                n <= j < n + i ==> (#[trigger] v@[j])@ == ty_param_text(g.ty_params@[j - n]@),
    {
        v.push(ty_param_string(&g.ty_params[i]));
    }
    assert(strings_view(v@) =~= Seq::new(
        g@.lifetimes.len(),
        |i: int| lifetime_text(g@.lifetimes[i]),
    ) + Seq::new(g@.ty_params.len(), |i: int| ty_param_text(g@.ty_params[i])));
    angles_string(&v)
}

/// The `where` clause, if there is one.
pub open spec fn where_text(g: SpecGenerics) -> Seq<char> {
    prefixed(" where "@, g.where_clause, ", "@)
}

fn where_string(g: &Generics) -> (r: String)
    ensures
        r@ == where_text(g@),
{
    prefixed_string(" where ", &g.where_clause, ", ")
}

// Patterns
// --------

pub open spec fn pat_text(p: SpecPat) -> Seq<char> {
    match p {
        SpecPat::Wild => "_"@,
        SpecPat::Lit(l) => lit_text(l),
        SpecPat::Path(p) => path_text(p),
        SpecPat::TupleStruct { path, ident } => path_text(path) + "("@ + ident + ")"@,
    }
}

fn pat_string(p: &Pat) -> (r: String)
    ensures
        r@ == pat_text(p@),
{
    match p {
        Pat::Wild => "_".to_owned(),
        Pat::Lit(l) => lit_string(l),
        Pat::Path(p) => path_string(p),
        Pat::TupleStruct { path, ident } => {
            let mut r = path_string(path);
            r.append("(");
            r.append(ident.as_str());
            r.append(")");
            r
        },
    }
}

// Expressions
// -----------

pub open spec fn expr_text(e: SpecExpr) -> Seq<char>
    decreases e,
{
    match e {
        SpecExpr::Path(p) => path_text(p),
        SpecExpr::Lit(l) => lit_text(l),
        SpecExpr::Call { path, args } => path_text(path) + "("@ + comma_text(exprs_texts(args))
            + ")"@,
        SpecExpr::MethodCall { receiver, ident, args } => expr_text(*receiver) + "."@ + ident
            + "("@ + comma_text(exprs_texts(args)) + ")"@,
        SpecExpr::Try(e) => "try!("@ + expr_text(*e) + ")"@,
        SpecExpr::Return(e) => "return "@ + expr_text(*e),
        SpecExpr::Assign { ident, expr } => ident + " = "@ + expr_text(*expr),
        SpecExpr::Match { expr, arms } => "match "@ + expr_text(*expr) + " { "@ + join(
            arms_texts(arms),
            " "@,
        ) + " }"@,
        SpecExpr::WhileLet { pat, expr, body } => "while let "@ + pat_text(pat) + " = "@
            + expr_text(*expr) + " "@ + block_text(*body),
        SpecExpr::Struct { path, fields } => path_text(path) + " { "@ + comma_text(
            inits_texts(fields),
        ) + " }"@,
        SpecExpr::Block(b) => block_text(*b),
    }
}

pub open spec fn exprs_texts(s: Seq<SpecExpr>) -> Seq<Seq<char>>
    decreases s,
{
    Seq::new(
        s.len(),
        |i: int|
            if 0 <= i < s.len() {
                expr_text(s[i])
            } else {
                arbitrary()
            },
    )
}

pub open spec fn arm_text(a: SpecArm) -> Seq<char>
    decreases a,
{
    pat_text(a.pat) + " => "@ + expr_text(a.body) + ","@
}

pub open spec fn arms_texts(s: Seq<SpecArm>) -> Seq<Seq<char>>
    decreases s,
{
    Seq::new(
        s.len(),
        |i: int|
            if 0 <= i < s.len() {
                arm_text(s[i])
            } else {
                arbitrary()
            },
    )
}

pub open spec fn init_text(f: SpecFieldInit) -> Seq<char>
    decreases f,
{
    f.ident + ": "@ + expr_text(f.expr)
}

pub open spec fn inits_texts(s: Seq<SpecFieldInit>) -> Seq<Seq<char>>
    decreases s,
{
    Seq::new(
        s.len(),
        |i: int|
            if 0 <= i < s.len() {
                init_text(s[i])
            } else {
                arbitrary()
            },
    )
}

pub open spec fn tail_texts(e: Option<SpecExpr>) -> Seq<Seq<char>>
    decreases e,
{
    match e {
        Some(e) => seq![expr_text(e)],
        None => seq![],
    }
}

pub open spec fn block_text(b: SpecBlock) -> Seq<char>
    decreases b,
{
    "{ "@ + join(stmts_texts(b.stmts) + tail_texts(b.expr), " "@) + " }"@
}

pub open spec fn stmt_text(s: SpecStmt) -> Seq<char>
    decreases s,
{
    match s {
        SpecStmt::Let { mutable, ident, init } => "let "@ + mut_text(mutable) + ident + " = "@
            + expr_text(init) + ";"@,
        SpecStmt::Decl(d) => decl_text(d),
        SpecStmt::Semi(e) => expr_text(e) + ";"@,
        SpecStmt::Expr(e) => expr_text(e),
    }
}

pub open spec fn stmts_texts(s: Seq<SpecStmt>) -> Seq<Seq<char>>
    decreases s,
{
    Seq::new(
        s.len(),
        |i: int|
            if 0 <= i < s.len() {
                stmt_text(s[i])
            } else {
                arbitrary()
            },
    )
}

// Items
// -----

/// `#[attr] `, where there is an attribute.
pub open spec fn attr_text(attr: Option<Seq<char>>) -> Seq<char> {
    match attr {
        Some(a) => "#["@ + a + "] "@,
        None => seq![],
    }
}

/// The fields of a tuple struct in brackets, or nothing if there are none.
pub open spec fn tuple_text(tys: Seq<SpecTy>) -> Seq<char> {
    if tys.len() == 0 {
        seq![]
    } else {
        "("@ + comma_text(tys_texts(tys)) + ")"@
    }
}

pub open spec fn decl_text(d: SpecDecl) -> Seq<char>
    decreases d,
{
    match d {
        SpecDecl::Enum { attr, ident, variants } => attr_text(attr) + "enum "@ + ident + " { "@
            + comma_text(variants) + " }"@,
        SpecDecl::Struct { ident, generics, tys } => "struct "@ + ident + generics_text(generics)
            + tuple_text(tys) + where_text(generics) + ";"@,
        SpecDecl::Impl(i) => impl_text(i),
    }
}

/// The associated type `Value`, where there is one.
pub open spec fn value_texts(value: Option<SpecTy>) -> Seq<Seq<char>> {
    match value {
        Some(ty) => seq!["type Value = "@ + ty_text(ty) + ";"@],
        None => seq![],
    }
}

pub open spec fn impl_text(i: SpecTraitImpl) -> Seq<char>
    decreases i,
{
    attr_text(i.attr) + "impl"@ + generics_text(i.generics) + " "@ + path_text(i.trait_path)
        + " for "@ + ty_text(i.self_ty) + where_text(i.generics) + " { "@ + join(
        value_texts(i.value) + methods_texts(i.methods),
        " "@,
    ) + " }"@
}

pub open spec fn arg_text(a: SpecArg) -> Seq<char> {
    mut_text(a.mutable) + a.ident + ": "@ + ty_text(a.ty)
}

/// The parameters of a method.
pub open spec fn params_text(takes_self: bool, arg: Option<SpecArg>) -> Seq<char> {
    match (takes_self, arg) {
        (true, Some(a)) => "&mut self, "@ + arg_text(a),
        (true, None) => "&mut self"@,
        (false, Some(a)) => arg_text(a),
        (false, None) => seq![],
    }
}

pub open spec fn method_text(m: SpecMethod) -> Seq<char>
    decreases m,
{
    attr_text(m.attr) + "fn "@ + m.ident + "<"@ + m.ty_param + ">("@ + params_text(
        m.takes_self,
        m.arg,
    ) + ") -> "@ + ty_text(m.output) + " where "@ + m.ty_param + ": "@ + path_text(m.bound) + " "@
        + block_text(m.body)
}

pub open spec fn methods_texts(s: Seq<SpecMethod>) -> Seq<Seq<char>>
    decreases s,
{
    Seq::new(
        s.len(),
        |i: int|
            if 0 <= i < s.len() {
                method_text(s[i])
            } else {
                arbitrary()
            },
    )
}

// Writing
// -------

fn exprs_strings(v: &Vec<Expr>) -> (r: Vec<String>)
    ensures
        strings_view(r@) == exprs_texts(exprs_view(v@)),
    decreases v,
{
    let mut r: Vec<String> = Vec::new();
    for i in 0..v.len()
        invariant
            r@.len() == i,
            forall|j: int| 0 <= j < i ==> (#[trigger] r@[j])@ == expr_text(expr_view(v@[j])),
    {
        assert(decreases_to!(*v => v@[i as int]));
        r.push(expr_string(&v[i]));
    }
    assert(strings_view(r@) =~= exprs_texts(exprs_view(v@)));
    r
}

fn arms_strings(v: &Vec<Arm>) -> (r: Vec<String>)
    ensures
        strings_view(r@) == arms_texts(arms_view(v@)),
    decreases v,
{
    let mut r: Vec<String> = Vec::new();
    for i in 0..v.len()
        invariant
            r@.len() == i,
            forall|j: int| 0 <= j < i ==> (#[trigger] r@[j])@ == arm_text(arm_view(v@[j])),
    {
        assert(decreases_to!(*v => v@[i as int]));
        r.push(arm_string(&v[i]));
    }
    assert(strings_view(r@) =~= arms_texts(arms_view(v@)));
    r
}

fn inits_strings(v: &Vec<FieldInit>) -> (r: Vec<String>)
    ensures
        strings_view(r@) == inits_texts(inits_view(v@)),
    decreases v,
{
    let mut r: Vec<String> = Vec::new();
    for i in 0..v.len()
        invariant
            r@.len() == i,
            forall|j: int| 0 <= j < i ==> (#[trigger] r@[j])@ == init_text(init_view(v@[j])),
    {
        assert(decreases_to!(*v => v@[i as int]));
        r.push(init_string(&v[i]));
    }
    assert(strings_view(r@) =~= inits_texts(inits_view(v@)));
    r
}

fn stmts_strings(v: &Vec<Stmt>) -> (r: Vec<String>)
    ensures
        strings_view(r@) == stmts_texts(stmts_view(v@)),
    decreases v,
{
    let mut r: Vec<String> = Vec::new();
    for i in 0..v.len()
        invariant
            r@.len() == i,
            forall|j: int| 0 <= j < i ==> (#[trigger] r@[j])@ == stmt_text(stmt_view(v@[j])),
    {
        assert(decreases_to!(*v => v@[i as int]));
        r.push(stmt_string(&v[i]));
    }
    assert(strings_view(r@) =~= stmts_texts(stmts_view(v@)));
    r
}

fn methods_strings(v: &Vec<Method>) -> (r: Vec<String>)
    ensures
        strings_view(r@) == methods_texts(methods_view(v@)),
    decreases v,
{
    let mut r: Vec<String> = Vec::new();
    for i in 0..v.len()
        invariant
            r@.len() == i,
            forall|j: int| 0 <= j < i ==> (#[trigger] r@[j])@ == method_text(method_view(v@[j])),
    {
        assert(decreases_to!(*v => v@[i as int]));
        r.push(method_string(&v[i]));
    }
    assert(strings_view(r@) =~= methods_texts(methods_view(v@)));
    r
}

fn expr_string(e: &Expr) -> (r: String)
    ensures
        r@ == expr_text(expr_view(*e)),
    decreases e,
{
    match e {
        Expr::Path(p) => path_string(p),
        Expr::Lit(l) => lit_string(l),
        Expr::Call { path, args } => {
            let mut r = path_string(path);
            r.append("(");
            r.append(join_strings(&exprs_strings(args), ", ").as_str());
            r.append(")");
            r
        },
        Expr::MethodCall { receiver, ident, args } => {
            let mut r = expr_string(receiver);
            r.append(".");
            r.append(ident.as_str());
            r.append("(");
            r.append(join_strings(&exprs_strings(args), ", ").as_str());
            r.append(")");
            r
        },
        Expr::Try(e) => {
            let mut r = "try!(".to_owned();
            r.append(expr_string(e).as_str());
            r.append(")");
            r
        },
        Expr::Return(e) => {
            let mut r = "return ".to_owned();
            r.append(expr_string(e).as_str());
            r
        },
        Expr::Assign { ident, expr } => {
            let mut r = ident.clone();
            r.append(" = ");
            r.append(expr_string(expr).as_str());
            r
        },
        Expr::Match { expr, arms } => {
            let mut r = "match ".to_owned();
            r.append(expr_string(expr).as_str());
            r.append(" { ");
            r.append(join_strings(&arms_strings(arms), " ").as_str());
            r.append(" }");
            r
        },
        Expr::WhileLet { pat, expr, body } => {
            let mut r = "while let ".to_owned();
            r.append(pat_string(pat).as_str());
            r.append(" = ");
            r.append(expr_string(expr).as_str());
            r.append(" ");
            r.append(block_string(body).as_str());
            r
        },
        Expr::Struct { path, fields } => {
            let mut r = path_string(path);
            r.append(" { ");
            r.append(join_strings(&inits_strings(fields), ", ").as_str());
            r.append(" }");
            r
        },
        Expr::Block(b) => block_string(b),
    }
}

fn arm_string(a: &Arm) -> (r: String)
    ensures
        r@ == arm_text(arm_view(*a)),
    decreases a,
{
    let mut r = pat_string(&a.pat);
    r.append(" => ");
    r.append(expr_string(&a.body).as_str());
    r.append(",");
    r
}

fn init_string(f: &FieldInit) -> (r: String)
    ensures
        r@ == init_text(init_view(*f)),
    decreases f,
{
    let mut r = f.ident.clone();
    r.append(": ");
    r.append(expr_string(&f.expr).as_str());
    r
}

fn block_string(b: &Block) -> (r: String)
    ensures
        r@ == block_text(block_view(*b)),
    decreases b,
{
    let mut parts = stmts_strings(&b.stmts);
    let ghost before = parts@;
    match &b.expr {
        Some(e) => {
            let tail = expr_string(e);
            parts.push(tail);
            assert(strings_view(parts@) =~= strings_view(before) + seq![tail@]);
        },
        None => {
            assert(strings_view(parts@) =~= strings_view(before) + seq![]);
        },
    }
    let mut r = "{ ".to_owned();
    r.append(join_strings(&parts, " ").as_str());
    r.append(" }");
    r
}

fn stmt_string(s: &Stmt) -> (r: String)
    ensures
        r@ == stmt_text(stmt_view(*s)),
    decreases s,
{
    match s {
        Stmt::Let { mutable, ident, init } => {
            let mut r = "let ".to_owned();
            r.append(mut_string(*mutable).as_str());
            r.append(ident.as_str());
            r.append(" = ");
            r.append(expr_string(init).as_str());
            r.append(";");
            r
        },
        Stmt::Decl(d) => decl_string(d),
        Stmt::Semi(e) => {
            let mut r = expr_string(e);
            r.append(";");
            r
        },
        Stmt::Expr(e) => expr_string(e),
    }
}

fn attr_string(attr: &Option<String>) -> (r: String)
    ensures
        r@ == attr_text(opt_string_view(*attr)),
{
    match attr {
        Some(a) => {
            let mut r = "#[".to_owned();
            r.append(a.as_str());
            r.append("] ");
            r
        },
        None => {
            let r = String::new();
            assert(r@ =~= seq![]);
            r
        },
    }
}

fn tuple_string(tys: &Vec<Ty>) -> (r: String)
    ensures
        r@ == tuple_text(tys_view(tys@)),
{
    if tys.len() == 0 {
        let r = String::new();
        assert(r@ =~= seq![]);
        r
    } else {
        let mut r = "(".to_owned();
        r.append(join_strings(&tys_strings(tys), ", ").as_str());
        r.append(")");
        r
    }
}

fn decl_string(d: &Decl) -> (r: String)
    ensures
        r@ == decl_text(decl_view(*d)),
    decreases d,
{
    match d {
        Decl::Enum { attr, ident, variants } => {
            let mut r = attr_string(attr);
            r.append("enum ");
            r.append(ident.as_str());
            r.append(" { ");
            r.append(join_strings(variants, ", ").as_str());
            r.append(" }");
            r
        },
        Decl::Struct { ident, generics, tys } => {
            let mut r = "struct ".to_owned();
            r.append(ident.as_str());
            r.append(generics_string(generics).as_str());
            r.append(tuple_string(tys).as_str());
            r.append(where_string(generics).as_str());
            r.append(";");
            r
        },
        Decl::Impl(i) => impl_string(i),
    }
}

fn impl_string(i: &TraitImpl) -> (r: String)
    ensures
        r@ == impl_text(impl_view(*i)),
    decreases i,
{
    let mut parts: Vec<String> = Vec::new();
    if let Some(ty) = &i.value {
        let mut value = "type Value = ".to_owned();
        value.append(ty_string(ty).as_str());
        value.append(";");
        parts.push(value);
    }
    let ghost before = parts@;
    assert(strings_view(before) =~= value_texts(opt_ty_view(i.value)));
    let mut methods = methods_strings(&i.methods);
    let ghost more = methods@;
    parts.append(&mut methods);
    assert(strings_view(parts@) =~= strings_view(before) + strings_view(more));
    let mut r = attr_string(&i.attr);
    r.append("impl");
    r.append(generics_string(&i.generics).as_str());
    r.append(" ");
    r.append(path_string(&i.trait_path).as_str());
    r.append(" for ");
    r.append(ty_string(&i.self_ty).as_str());
    r.append(where_string(&i.generics).as_str());
    r.append(" { ");
    r.append(join_strings(&parts, " ").as_str());
    r.append(" }");
    r
}

fn arg_string(a: &Arg) -> (r: String)
    ensures
        r@ == arg_text(a@),
{
    let mut r = mut_string(a.mutable);
    r.append(a.ident.as_str());
    r.append(": ");
    r.append(ty_string(&a.ty).as_str());
    r
}

fn params_string(takes_self: bool, arg: &Option<Arg>) -> (r: String)
    ensures
        r@ == params_text(takes_self, opt_arg_view(*arg)),
{
    match arg {
        Some(a) => if takes_self {
            let mut r = "&mut self, ".to_owned();
            r.append(arg_string(a).as_str());
            r
        } else {
            arg_string(a)
        },
        None => if takes_self {
            "&mut self".to_owned()
        } else {
            let r = String::new();
            assert(r@ =~= seq![]);
            r
        },
    }
}

fn method_string(m: &Method) -> (r: String)
    ensures
        r@ == method_text(method_view(*m)),
    decreases m,
{
    let mut r = attr_string(&m.attr);
    r.append("fn ");
    r.append(m.ident.as_str());
    r.append("<");
    r.append(m.ty_param.as_str());
    r.append(">(");
    r.append(params_string(m.takes_self, &m.arg).as_str());
    r.append(") -> ");
    r.append(ty_string(&m.output).as_str());
    r.append(" where ");
    r.append(m.ty_param.as_str());
    r.append(": ");
    r.append(path_string(&m.bound).as_str());
    r.append(" ");
    r.append(block_string(&m.body).as_str());
    r
}

impl Decl {
    /// The source text of this item. Where all names in it are identifiers, a
    /// parser reads the same item from it.
    pub fn to_source(&self) -> (r: String)
        ensures
            r@ == decl_text(self@),
            decl_ok(self@) ==> read_item(r@) == Some(flat_decl(self@)),
    {
        proof {
            if decl_ok(self@) {
                law_source(self@);
            }
        }
        decl_string(self)
    }
}

// Reading a literal back
// ----------------------

/// The character that an escape stands for. There are no other escapes of one
/// character.
pub open spec fn unescape_char(c: char) -> Option<char> {
    if c == 'n' {
        Some('\n')
    } else if c == 'r' {
        Some('\r')
    } else if c == 't' {
        Some('\t')
    } else if c == '0' {
        Some('\0')
    } else if c == '\\' || c == '"' || c == '\'' {
        Some(c)
    } else {
        None
    }
}

/// Reads a string literal, from behind its first quote: what it holds, and the
/// text behind it. A carriage return cannot stand in it as it is.
pub open spec fn read_str(text: Seq<char>) -> Option<(Seq<char>, Seq<char>)>
    decreases text.len(),
{
    if text.len() == 0 || text[0] == '\r' {
        None
    } else if text[0] == '"' {
        Some((seq![], text.skip(1)))
    } else if text[0] == '\\' {
        if text.len() == 1 {
            None
        } else {
            match (unescape_char(text[1]), read_str(text.skip(2))) {
                (Some(c), Some((s, rest))) => Some((seq![c] + s, rest)),
                _ => None,
            }
        }
    } else {
        match read_str(text.skip(1)) {
            Some((s, rest)) => Some((seq![text[0]] + s, rest)),
            None => None,
        }
    }
}

proof fn lemma_escape_first(s: Seq<char>)
    requires
        s.len() > 0,
    ensures
        escape(s) == escape_char(s[0]) + escape(s.drop_first()),
    decreases s.len(),
{
    if s.len() == 1 {
        assert(s.drop_last() =~= seq![]);
        assert(s.drop_first() =~= seq![]);
        assert(escape(s) =~= escape_char(s[0]) + escape(s.drop_first()));
    } else {
        lemma_escape_first(s.drop_last());
        assert(s.drop_last().drop_first() =~= s.drop_first().drop_last());
        assert(s.drop_first().last() == s.last());
        assert(escape(s) =~= escape_char(s[0]) + escape(s.drop_first()));
    }
}

proof fn lemma_read_back(s: Seq<char>, rest: Seq<char>)
    ensures
        read_str(escape(s) + seq!['"'] + rest) == Some((s, rest)),
    decreases s.len(),
{
    let text = escape(s) + seq!['"'] + rest;
    if s.len() == 0 {
        assert(text[0] == '"');
        assert(text.skip(1) =~= rest);
        assert(s =~= seq![]);
    } else {
        let first = escape_char(s[0]);
        let tail = escape(s.drop_first()) + seq!['"'] + rest;
        lemma_escape_first(s);
        lemma_read_back(s.drop_first(), rest);
        assert(text =~= first + tail);
        assert(text.skip(first.len() as int) =~= tail);
        assert(text[0] == first[0]);
        assert(seq![s[0]] + s.drop_first() =~= s);
        if first.len() == 2 {
            assert(text[1] == first[1]);
        }
    }
}

/// A string, written as a literal, is read back as it was, wherever it stands.
pub proof fn law_literal(s: Seq<char>, rest: Seq<char>)
    ensures
        (lit_text(SpecLit::Str(s)) + rest)[0] == '"',
        read_str((lit_text(SpecLit::Str(s)) + rest).skip(1)) == Some((s, rest)),
{
    reveal_strlit("\"");
    let text = lit_text(SpecLit::Str(s)) + rest;
    assert("\""@ =~= seq!['"']);
    assert(text.skip(1) =~= escape(s) + seq!['"'] + rest);
    lemma_read_back(s, rest);
}

} // verus!
