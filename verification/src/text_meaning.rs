//! That an item that is read back from its source text does the same.
use vstd::prelude::*;

use crate::code::{
    SpecArm, SpecBlock, SpecDecl, SpecExpr, SpecFieldInit, SpecMethod, SpecPath, SpecStmt,
    SpecTraitImpl,
};
use crate::meaning::{
    block_decls, call_visitor, eval, eval_args, eval_arms, eval_block, eval_inits, eval_stmt,
    eval_stmts, find_impl, find_method, leave, method_call, op, party, pat_match, record, run,
    run_key, run_method, run_visitor, start, unread, visit_env, visit_target, visitor_call,
    Context, Env, Flow, Input, Op, Party, State, Val,
};
use crate::source::{
    flat_arm, flat_arms, flat_block, flat_decl, flat_expr, flat_exprs, flat_impl, flat_init,
    flat_inits, flat_method, flat_methods, flat_stmt, flat_stmts, flat_tail,
};
use crate::tree::serde_path;

verus! {

/// Items, as they are read.
pub open spec fn flat_decls(scope: Seq<SpecDecl>) -> Seq<SpecDecl> {
    Seq::new(scope.len(), |i: int| flat_decl(scope[i]))
}

/// What code runs in, where it was read.
pub open spec fn flat_context(c: Context) -> Context {
    Context { scope: flat_decls(c.scope), methods: flat_methods(c.methods), ..c }
}

proof fn lemma_flat_stmts(s: Seq<SpecStmt>)
    ensures
        flat_stmts(s).len() == s.len(),
        forall|i: int| 0 <= i < s.len() ==> #[trigger] flat_stmts(s)[i] == flat_stmt(s[i]),
    decreases s.len(),
{
    if s.len() > 0 {
        let rest = s.drop_first();
        lemma_flat_stmts(rest);
        assert forall|i: int| 0 <= i < s.len() implies #[trigger] flat_stmts(s)[i] == flat_stmt(
            s[i],
        ) by {
            if i > 0 {
                assert(flat_stmts(s)[i] == flat_stmts(rest)[i - 1]);
            }
        }
    }
}

proof fn lemma_flat_block_decls(s: Seq<SpecStmt>)
    ensures
        block_decls(flat_stmts(s)) == flat_decls(block_decls(s)),
    decreases s.len(),
{
    lemma_flat_stmts(s);
    if s.len() > 0 {
        let rest = s.drop_last();
        lemma_flat_stmts(rest);
        assert(flat_stmts(s).drop_last() =~= flat_stmts(rest)) by {
            assert forall|i: int| 0 <= i < rest.len() implies flat_stmts(s).drop_last()[i]
                == flat_stmts(rest)[i] by {
                assert(flat_stmts(s)[i] == flat_stmt(s[i]));
                assert(flat_stmts(rest)[i] == flat_stmt(rest[i]));
            }
        }
        assert(flat_stmts(s).last() == flat_stmt(s.last()));
        lemma_flat_block_decls(rest);
    }
    assert(block_decls(flat_stmts(s)) =~= flat_decls(block_decls(s)));
}

proof fn lemma_flat_find_impl(scope: Seq<SpecDecl>, trait_path: SpecPath, ident: Seq<char>)
    ensures
        find_impl(flat_decls(scope), trait_path, ident) == (match find_impl(
            scope,
            trait_path,
            ident,
        ) {
            Some(i) => Some(flat_impl(i)),
            None => None,
        }),
    decreases scope.len(),
{
    if scope.len() > 0 {
        let flat = flat_decls(scope);
        assert(flat.last() == flat_decl(scope.last()));
        assert(flat.drop_last() =~= flat_decls(scope.drop_last()));
        lemma_flat_find_impl(scope.drop_last(), trait_path, ident);
        if let SpecDecl::Impl(i) = scope.last() {
            assert(flat.last() == SpecDecl::Impl(flat_impl(i)));
            assert(flat_impl(i).self_ty == i.self_ty);
        }
    }
}

proof fn lemma_flat_find_method(methods: Seq<SpecMethod>, ident: Seq<char>)
    ensures
        find_method(flat_methods(methods), ident) == (match find_method(methods, ident) {
            Some(m) => Some(flat_method(m)),
            None => None,
        }),
    decreases methods.len(),
{
    if methods.len() > 0 {
        let flat = flat_methods(methods);
        assert(flat[0] == flat_method(methods[0]));
        assert(flat_method(methods[0]).ident == methods[0].ident);
        assert(flat.drop_first() =~= flat_methods(methods.drop_first()));
        lemma_flat_find_method(methods.drop_first(), ident);
    }
}

pub proof fn lemma_flat_run_method(
    depth: nat,
    scope: Seq<SpecDecl>,
    methods: Seq<SpecMethod>,
    m: SpecMethod,
    env: Env,
    input: Input,
)
    ensures
        run_method(depth, flat_decls(scope), flat_methods(methods), flat_method(m), env, input)
            == run_method(depth, scope, methods, m, env, input),
    decreases depth, 1nat, m, 0nat,
{
    let c = Context { scope, methods, input };
    lemma_flat_block(depth, c, m.body, start(env));
    assert(flat_context(c) == Context {
        scope: flat_decls(scope),
        methods: flat_methods(methods),
        input,
    });
    assert(flat_method(m).body == flat_block(m.body));
}

proof fn lemma_flat_call_visitor(depth: nat, scope: Seq<SpecDecl>, visitor: Val, input: Input)
    ensures
        call_visitor(depth, flat_decls(scope), visitor, input) == call_visitor(
            depth,
            scope,
            visitor,
            input,
        ),
    decreases depth, 2nat, visitor, 0nat,
{
    if let Val::Tuple { path, .. } = visitor {
        let trait_path = serde_path(visit_target(input).0);
        lemma_flat_find_impl(scope, trait_path, path[0]);
        if let Some(i) = find_impl(scope, trait_path, path[0]) {
            assert(flat_impl(i).methods == flat_methods(i.methods));
            lemma_flat_find_method(i.methods, visit_target(input).1);
            if let Some(m) = find_method(i.methods, visit_target(input).1) {
                assert(visit_env(flat_method(m), input) == visit_env(m, input));
                lemma_flat_run_method(depth, scope, i.methods, m, visit_env(m, input), input);
            }
        }
    }
}

proof fn lemma_flat_run_visitor(depth: nat, scope: Seq<SpecDecl>, visitor: Val, input: Input)
    ensures
        run_visitor(depth, flat_decls(scope), visitor, input) == run_visitor(
            depth,
            scope,
            visitor,
            input,
        ),
    decreases depth, 3nat, input, 0nat,
{
    match input {
        Input::Broken(_) => {},
        Input::Spoiled { input, .. } => lemma_flat_run_visitor(depth, scope, visitor, *input),
        _ => lemma_flat_call_visitor(depth, scope, visitor, input),
    }
}

proof fn lemma_flat_run_key(depth: nat, scope: Seq<SpecDecl>, name: Result<Seq<char>, int>)
    ensures
        run_key(depth, flat_decls(scope), name) == run_key(depth, scope, name),
    decreases depth, 2nat, name, 0nat,
{
    if let Ok(s) = name {
        let trait_path = serde_path("Deserialize"@);
        lemma_flat_find_impl(scope, trait_path, "__Field"@);
        if let Some(i) = find_impl(scope, trait_path, "__Field"@) {
            assert(flat_impl(i).methods == flat_methods(i.methods));
            lemma_flat_find_method(i.methods, "deserialize"@);
            if let Some(m) = find_method(i.methods, "deserialize"@) {
                lemma_flat_run_method(depth, scope, i.methods, m, seq![], Input::Str(s));
            }
        }
    }
}

proof fn lemma_flat_visitor_call(depth: nat, c: Context, o: Op, args: Seq<Val>, s: State)
    ensures
        visitor_call(depth, flat_context(c), o, args, s) == visitor_call(depth, c, o, args, s),
    decreases depth, 4nat, c, 0nat,
{
    match c.input {
        Input::Table { entries, .. } => {
            if s.pos < entries.len() {
                lemma_flat_run_key(depth, c.scope, entries[s.pos as int].key);
            }
        },
        Input::Variant { name, content } => {
            lemma_flat_run_key(depth, c.scope, name);
            lemma_flat_run_visitor(depth, c.scope, args[0], *content);
        },
        _ => {},
    }
}

proof fn lemma_flat_method_call(
    depth: nat,
    c: Context,
    p: Party,
    ident: Seq<char>,
    args: Seq<Val>,
    s: State,
)
    ensures
        method_call(depth, flat_context(c), p, ident, args, s) == method_call(
            depth,
            c,
            p,
            ident,
            args,
            s,
        ),
    decreases depth, 5nat, c, 0nat,
{
    match p {
        Party::Visitor => {
            lemma_flat_visitor_call(depth, c, op(ident), args, record(s, p, ident, args));
        },
        Party::Deserializer => {
            lemma_flat_run_visitor(depth, c.scope, args.last(), c.input);
        },
        Party::This => {
            lemma_flat_find_method(c.methods, ident);
            if let Some(m) = find_method(c.methods, ident) {
                lemma_flat_run_method(depth, c.scope, c.methods, m, seq![], c.input);
            }
        },
        Party::Other => {},
    }
}

proof fn lemma_flat_eval(depth: nat, c: Context, e: SpecExpr, s: State)
    ensures
        eval(depth, flat_context(c), flat_expr(e), s) == eval(depth, c, e, s),
    decreases depth, 0nat, e, unread(c, s),
{
    let d = flat_context(c);
    match e {
        SpecExpr::Path(_) => {},
        SpecExpr::Lit(_) => {},
        SpecExpr::Call { path, args } => {
            lemma_flat_args(depth, c, args, s);
        },
        SpecExpr::MethodCall { receiver, ident, args } => {
            lemma_flat_args(depth, c, args, s);
            assert(party(flat_expr(*receiver)) == party(*receiver)) by {
                assert(flat_expr(*receiver) is Path <==> *receiver is Path);
            }
            let (r, s1) = eval_args(depth, c, args, s);
            if let Ok(vs) = r {
                if depth > 0 {
                    lemma_flat_method_call(
                        (depth - 1) as nat,
                        c,
                        party(*receiver),
                        ident,
                        vs,
                        s1,
                    );
                }
            }
        },
        SpecExpr::Try(inner) => lemma_flat_eval(depth, c, *inner, s),
        SpecExpr::Return(inner) => lemma_flat_eval(depth, c, *inner, s),
        SpecExpr::Assign { expr, .. } => lemma_flat_eval(depth, c, *expr, s),
        SpecExpr::Match { expr, arms } => {
            lemma_flat_eval(depth, c, *expr, s);
            let (f, s1) = eval(depth, c, *expr, s);
            if let Flow::Done(v) = f {
                lemma_flat_arms(depth, c, v, arms, s1);
            }
        },
        SpecExpr::WhileLet { pat, expr, body } => {
            lemma_flat_eval(depth, c, *expr, s);
            let (f, s1) = eval(depth, c, *expr, s);
            if let Flow::Done(v) = f {
                if let Some(bound) = pat_match(pat, v) {
                    let s2 = State { env: s1.env + bound, ..s1 };
                    lemma_flat_block(depth, c, *body, s2);
                    let (f2, s3) = eval_block(depth, c, *body, s2);
                    let s4 = leave(s3, s1.env.len());
                    assert(unread(d, s4) == unread(c, s4));
                    assert(unread(d, s) == unread(c, s));
                    if f2 is Done && unread(c, s4) < unread(c, s) {
                        lemma_flat_eval(depth, c, e, s4);
                    }
                }
            }
        },
        SpecExpr::Struct { path, fields } => {
            lemma_flat_inits(depth, c, fields, s);
        },
        SpecExpr::Block(b) => lemma_flat_block(depth, c, *b, s),
    }
}

proof fn lemma_flat_args(depth: nat, c: Context, args: Seq<SpecExpr>, s: State)
    ensures
        eval_args(depth, flat_context(c), flat_exprs(args), s) == eval_args(depth, c, args, s),
    decreases depth, 0nat, args, 0nat,
{
    if args.len() > 0 {
        let flat = flat_exprs(args);
        assert(flat[0] == flat_expr(args[0]));
        assert(flat.drop_first() =~= flat_exprs(args.drop_first()));
        lemma_flat_eval(depth, c, args[0], s);
        let (f, s1) = eval(depth, c, args[0], s);
        if f is Done {
            lemma_flat_args(depth, c, args.drop_first(), s1);
        }
    }
}

proof fn lemma_flat_inits(depth: nat, c: Context, fields: Seq<SpecFieldInit>, s: State)
    ensures
        eval_inits(depth, flat_context(c), flat_inits(fields), s) == eval_inits(
            depth,
            c,
            fields,
            s,
        ),
    decreases depth, 0nat, fields, 0nat,
{
    if fields.len() > 0 {
        let flat = flat_inits(fields);
        assert(flat[0] == flat_init(fields[0]));
        assert(flat_init(fields[0]).expr == flat_expr(fields[0].expr));
        assert(flat.drop_first() =~= flat_inits(fields.drop_first()));
        lemma_flat_eval(depth, c, fields[0].expr, s);
        let (f, s1) = eval(depth, c, fields[0].expr, s);
        if f is Done {
            lemma_flat_inits(depth, c, fields.drop_first(), s1);
        }
    }
}

proof fn lemma_flat_arms(depth: nat, c: Context, v: Val, arms: Seq<SpecArm>, s: State)
    ensures
        eval_arms(depth, flat_context(c), v, flat_arms(arms), s) == eval_arms(
            depth,
            c,
            v,
            arms,
            s,
        ),
    decreases depth, 0nat, arms, 0nat,
{
    if arms.len() > 0 {
        let flat = flat_arms(arms);
        assert(flat[0] == flat_arm(arms[0]));
        assert(flat_arm(arms[0]).body == flat_expr(arms[0].body));
        assert(flat.drop_first() =~= flat_arms(arms.drop_first()));
        match pat_match(arms[0].pat, v) {
            Some(bound) => {
                lemma_flat_eval(
                    depth,
                    c,
                    arms[0].body,
                    State { env: s.env + bound, ..s },
                );
            },
            None => lemma_flat_arms(depth, c, v, arms.drop_first(), s),
        }
    }
}

proof fn lemma_flat_block(depth: nat, c: Context, b: SpecBlock, s: State)
    ensures
        eval_block(depth, flat_context(c), flat_block(b), s) == eval_block(depth, c, b, s),
    decreases depth, 0nat, b, 0nat,
{
    let flat = flat_block(b);
    let inner = Context { scope: c.scope + block_decls(b.stmts), ..c };
    lemma_flat_block_decls(b.stmts);
    assert(flat_decls(inner.scope) =~= flat_decls(c.scope) + block_decls(flat.stmts));
    assert(flat_context(inner) == Context {
        scope: flat_context(c).scope + block_decls(flat.stmts),
        ..flat_context(c)
    });
    lemma_flat_eval_stmts(depth, inner, b.stmts, s);
    let (f, s1) = eval_stmts(depth, inner, b.stmts, s);
    assert(flat.expr == flat_tail(b.expr));
    if let Some(e) = b.expr {
        assert(flat_tail(b.expr) == Some(flat_expr(e)));
        if f is Done {
            lemma_flat_eval(depth, inner, e, s1);
        }
    }
}

proof fn lemma_flat_eval_stmts(depth: nat, c: Context, stmts: Seq<SpecStmt>, s: State)
    ensures
        eval_stmts(depth, flat_context(c), flat_stmts(stmts), s) == eval_stmts(
            depth,
            c,
            stmts,
            s,
        ),
    decreases depth, 0nat, stmts, 0nat,
{
    if stmts.len() > 0 {
        let flat = flat_stmts(stmts);
        assert(flat[0] == flat_stmt(stmts[0]));
        assert(flat.drop_first() =~= flat_stmts(stmts.drop_first()));
        lemma_flat_eval_stmt(depth, c, stmts[0], s);
        let (f, s1) = eval_stmt(depth, c, stmts[0], s);
        if f is Done {
            lemma_flat_eval_stmts(depth, c, stmts.drop_first(), s1);
        }
    }
}

proof fn lemma_flat_eval_stmt(depth: nat, c: Context, stmt: SpecStmt, s: State)
    ensures
        eval_stmt(depth, flat_context(c), flat_stmt(stmt), s) == eval_stmt(depth, c, stmt, s),
    decreases depth, 0nat, stmt, 0nat,
{
    match stmt {
        SpecStmt::Let { init, .. } => lemma_flat_eval(depth, c, init, s),
        SpecStmt::Decl(_) => {},
        SpecStmt::Semi(e) => lemma_flat_eval(depth, c, e, s),
        SpecStmt::Expr(e) => lemma_flat_eval(depth, c, e, s),
    }
}

pub proof fn lemma_flat_run(depth: nat, i: SpecTraitImpl, input: Input)
    ensures
        run(depth, flat_impl(i), input) == run(depth, i, input),
{
    assert(flat_impl(i).methods == flat_methods(i.methods));
    lemma_flat_find_method(i.methods, "deserialize"@);
    if let Some(m) = find_method(i.methods, "deserialize"@) {
        let none = Seq::<SpecDecl>::empty();
        lemma_flat_run_method(depth, none, i.methods, m, seq![], input);
        assert(flat_decls(none) =~= none);
    }
}

} // verus!
