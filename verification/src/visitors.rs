//! How generated code hands its visitors to a deserializer.
use vstd::prelude::*;

use crate::ast::SpecItem;
use crate::code::{
    SpecDecl, SpecExpr, SpecGenerics, SpecLit, SpecMethod, SpecPath, SpecStmt, SpecTraitImpl,
    SpecTy,
};
use crate::meaning::{
    block_decls, call_visitor, delivered, effect, eval, eval_args, eval_block, eval_stmt,
    eval_stmts, find_impl, find_method, implements, is_prelude_fn, last_index, method_effect, run,
    run_method, run_visitor, start, visible, visit_env, visit_target, Context, Fault, Flow, Input,
    Request, State, Trace, Val,
};
use crate::read_key::reads_keys;
use crate::requests::told;
use crate::shape::{
    body_expr, derived_impl, field_enum, field_impl, field_visitor, impl_generics, item_generics,
    item_ty, seq_method, seq_visitor, visitor_decl, visitor_expr, visitor_impl, visitor_ty,
};
use crate::steps::{
    lemma_ctor, lemma_ident_path_inj, lemma_method2, lemma_parties, lemma_plain_flow,
};
use crate::tree::{block, block_expr, global_path, ident_path, method2, serde_path};

verus! {

/// The value of `::std::marker::PhantomData`.
pub open spec fn phantom_val() -> Val {
    Val::Tuple { path: global_path("std"@, "marker"@, "PhantomData"@).segments, args: seq![] }
}

/// The value of the visitor.
pub open spec fn visitor_val(g: SpecGenerics) -> Val {
    Val::Tuple {
        path: seq!["__Visitor"@],
        args: Seq::new(g.ty_params.len(), |i: int| phantom_val()),
    }
}

pub proof fn lemma_phantoms(depth: nat, c: Context, n: nat, k: nat, s: State)
    requires
        k <= n,
    ensures
        ({
            let args = Seq::new(
                n,
                |i: int| SpecExpr::Path(global_path("std"@, "marker"@, "PhantomData"@)),
            );
            let vs = Seq::new(n, |i: int| phantom_val());
            eval_args(depth, c, args.skip(k as int), s) == (
                Ok::<Seq<Val>, Flow>(vs.skip(k as int)),
                s,
            )
        }),
    decreases n - k,
{
    let path = global_path("std"@, "marker"@, "PhantomData"@);
    let args = Seq::new(n, |i: int| SpecExpr::Path(path));
    let vs = Seq::new(n, |i: int| phantom_val());
    if k == n {
        assert(args.skip(k as int) =~= seq![]);
        assert(vs.skip(k as int) =~= seq![]);
    } else {
        let rest = args.skip(k as int);
        assert(rest[0] == SpecExpr::Path(path));
        assert(rest.drop_first() =~= args.skip(k as int + 1));
        assert(path.global && !ident_path("None"@).global);
        assert(eval(depth, c, rest[0], s) == (Flow::Done(phantom_val()), s));
        lemma_phantoms(depth, c, n, (k + 1) as nat, s);
        assert(seq![vs[k as int]] + vs.skip(k as int + 1) =~= vs.skip(k as int));
    }
}

/// The visitor's name has no other meaning.
pub proof fn lemma_visitor_names()
    ensures
        !is_prelude_fn(ident_path("__Visitor"@)),
        ident_path("__Visitor"@) != ident_path("None"@),
{
    reveal_strlit("__Visitor");
    reveal_strlit("Ok");
    reveal_strlit("Err");
    reveal_strlit("Some");
    reveal_strlit("None");
    assert("__Visitor"@.len() == 9);
    assert("Ok"@.len() == 2);
    assert("Err"@.len() == 3);
    assert("Some"@.len() == 4);
    assert("None"@.len() == 4);
    if ident_path("__Visitor"@) == ident_path("Ok"@) {
        lemma_ident_path_inj("__Visitor"@, "Ok"@);
    }
    if ident_path("__Visitor"@) == ident_path("Err"@) {
        lemma_ident_path_inj("__Visitor"@, "Err"@);
    }
    if ident_path("__Visitor"@) == ident_path("Some"@) {
        lemma_ident_path_inj("__Visitor"@, "Some"@);
    }
    if ident_path("__Visitor"@) == ident_path("None"@) {
        lemma_ident_path_inj("__Visitor"@, "None"@);
    }
}

pub proof fn lemma_visitor_value(depth: nat, c: Context, g: SpecGenerics, s: State)
    requires
        s.env.len() == 0,
    ensures
        eval(depth, c, visitor_expr(g), s) == (Flow::Done(visitor_val(g)), s),
{
    let path = ident_path("__Visitor"@);
    lemma_visitor_names();
    if g.ty_params.len() == 0 {
        assert(last_index(s.env, "__Visitor"@) == -1);
        assert(visitor_val(g)->Tuple_args =~= seq![]);
        assert(path.segments =~= seq!["__Visitor"@]);
    } else {
        let n = g.ty_params.len();
        let args = visitor_expr(g)->Call_args;
        lemma_phantoms(depth, c, n, 0, s);
        let vs = Seq::new(n, |i: int| phantom_val());
        assert(args.skip(0) =~= args);
        assert(args =~= Seq::new(
            n,
            |i: int| SpecExpr::Path(global_path("std"@, "marker"@, "PhantomData"@)),
        ));
        assert(vs.skip(0) =~= vs);
        lemma_ctor(path, vs);
    }
}

/// Every statement declares an item.
pub open spec fn all_decls(stmts: Seq<SpecStmt>) -> bool {
    forall|i: int| 0 <= i < stmts.len() ==> (#[trigger] stmts[i]) is Decl
}

pub proof fn lemma_decl_stmts(depth: nat, c: Context, stmts: Seq<SpecStmt>, s: State)
    requires
        all_decls(stmts),
    ensures
        eval_stmts(depth, c, stmts, s) == (Flow::Done(Val::Unit), s),
    decreases stmts.len(),
{
    if stmts.len() > 0 {
        assert(stmts[0] is Decl);
        let rest = stmts.drop_first();
        assert forall|i: int| 0 <= i < rest.len() implies (#[trigger] rest[i]) is Decl by {
            assert(stmts[i + 1] is Decl);
        }
        assert(eval_stmt(depth, c, stmts[0], s) == (Flow::Done(Val::Unit), s));
        lemma_decl_stmts(depth, c, rest, s);
    }
}

/// A block of items that ends in an expression without effect on variables.
pub proof fn lemma_decl_block(
    depth: nat,
    c: Context,
    stmts: Seq<SpecStmt>,
    e: SpecExpr,
    s: State,
)
    requires
        all_decls(stmts),
    ensures
        effect(eval(depth, c, block_expr(stmts, e), s)) == effect(
            eval(depth, Context { scope: c.scope + block_decls(stmts), ..c }, e, s),
        ),
{
    let inner = Context { scope: c.scope + block_decls(stmts), ..c };
    lemma_decl_stmts(depth, inner, stmts, s);
    assert(eval_block(depth, c, block(stmts, e), s) == eval(depth, c, block_expr(stmts, e), s));
}

/// A block of items that ends in a call of the deserializer.
pub proof fn lemma_deserializer_block(
    depth: nat,
    c: Context,
    stmts: Seq<SpecStmt>,
    f: Seq<char>,
    x: Seq<char>,
    g: SpecGenerics,
    s: State,
)
    requires
        depth > 0,
        all_decls(stmts),
        s.env.len() == 0,
    ensures
        ({
            let call = method2(
                "deserializer"@,
                f,
                SpecExpr::Lit(SpecLit::Str(x)),
                visitor_expr(g),
            );
            let scope = c.scope + block_decls(stmts);
            let (flow, trace) = run_visitor((depth - 1) as nat, scope, visitor_val(g), c.input);
            effect(eval(depth, c, block_expr(stmts, call), s)) == (
                flow,
                s.trace.push(told(f, x)) + trace,
            )
        }),
{
    let inner = Context { scope: c.scope + block_decls(stmts), ..c };
    let name = SpecExpr::Lit(SpecLit::Str(x));
    lemma_parties();
    lemma_decl_block(depth, c, stmts, method2("deserializer"@, f, name, visitor_expr(g)), s);
    lemma_visitor_value(depth, inner, g, s);
    assert(eval(depth, inner, name, s) == (Flow::Done(Val::Str(x)), s));
    lemma_method2(
        depth,
        inner,
        "deserializer"@,
        f,
        name,
        visitor_expr(g),
        s,
        Val::Str(x),
        visitor_val(g),
    );
    let args = seq![Val::Str(x), visitor_val(g)];
    assert(args.last() == visitor_val(g));
    assert(args[0] == Val::Str(x));
}

/// The implementation that was declared last is found.
pub proof fn lemma_call_visitor(
    depth: nat,
    scope: Seq<SpecDecl>,
    g: SpecGenerics,
    i: SpecTraitImpl,
    input: Input,
)
    requires
        scope.len() > 0,
        scope.last() == SpecDecl::Impl(i),
        implements(scope.last(), serde_path(visit_target(input).0), "__Visitor"@),
    ensures
        call_visitor(depth, scope, visitor_val(g), input) == (match find_method(
            i.methods,
            visit_target(input).1,
        ) {
            Some(m) => run_method(depth, scope, i.methods, m, visit_env(m, input), input),
            None => (Flow::Done(Val::Failure(Fault::Mismatch)), seq![]),
        }),
{
    assert(visitor_val(g)->Tuple_path[0] == "__Visitor"@);
}

pub proof fn lemma_find_method1(m: SpecMethod, ident: Seq<char>)
    ensures
        find_method(seq![m], ident) == (if m.ident == ident {
            Some(m)
        } else {
            None
        }),
{
    assert(seq![m][0] == m);
    assert(seq![m].drop_first() =~= seq![]);
    assert(find_method(seq![], ident) is None);
}

/// The methods of visitors have different names.
pub proof fn lemma_method_names()
    ensures
        "visit_unit"@ != "visit_seq"@,
        "visit_unit"@ != "visit_map"@,
        "visit_unit"@ != "visit_str"@,
        "visit_seq"@ != "visit_map"@,
        "visit_seq"@ != "visit_str"@,
        "visit_map"@ != "visit_str"@,
{
    reveal_strlit("visit_unit");
    reveal_strlit("visit_seq");
    reveal_strlit("visit_map");
    reveal_strlit("visit_str");
    assert("visit_unit"@[6] == 'u');
    assert("visit_seq"@[6] == 's');
    assert("visit_map"@[6] == 'm');
    assert("visit_str"@[6] == 's');
    assert("visit_seq"@[7] == 'e');
    assert("visit_str"@[7] == 't');
}

/// The body of the derived method is what runs.
pub proof fn lemma_run(depth: nat, item: SpecItem, input: Input)
    ensures
        run(depth, derived_impl(item), input) == method_effect(
            eval(
                depth,
                Context { scope: seq![], methods: derived_impl(item).methods, input },
                body_expr(item, impl_generics(item_generics(item)), item_ty(item)),
                start(seq![]),
            ),
        ),
{
    let i = derived_impl(item);
    let m = i.methods[0];
    assert(i.methods =~= seq![m]);
    lemma_find_method1(m, "deserialize"@);
    let body = body_expr(item, impl_generics(item_generics(item)), item_ty(item));
    let c = Context { scope: seq![], methods: i.methods, input };
    lemma_plain_flow(depth, c, body, start(seq![]));
}

pub proof fn lemma_seq_visitor_decls(g: SpecGenerics, ty: SpecTy, path: SpecPath, n: nat)
    ensures
        all_decls(seq_visitor(g, ty, path, n)),
        block_decls(seq_visitor(g, ty, path, n)) == seq![
            visitor_decl(g),
            visitor_impl(g, "Visitor"@, visitor_ty(g), ty, seq_method(ty, path, n)),
        ],
{
    reveal_with_fuel(block_decls, 3);
    let stmts = seq_visitor(g, ty, path, n);
    assert(stmts.drop_last() =~= seq![stmts[0]]);
    assert(seq![stmts[0]].drop_last() =~= seq![]);
    assert(block_decls(stmts) =~= seq![
        visitor_decl(g),
        visitor_impl(g, "Visitor"@, visitor_ty(g), ty, seq_method(ty, path, n)),
    ]);
}

/// The traits that generated code implements have different names.
pub proof fn lemma_trait_names()
    ensures
        serde_path("Visitor"@) != serde_path("EnumVisitor"@),
        serde_path("Visitor"@) != serde_path("Deserialize"@),
        serde_path("EnumVisitor"@) != serde_path("Deserialize"@),
{
    reveal_strlit("Visitor");
    reveal_strlit("EnumVisitor");
    reveal_strlit("Deserialize");
    assert("Visitor"@.len() == 7);
    assert("EnumVisitor"@.len() == 11);
    assert("Deserialize"@.len() == 11);
    assert("EnumVisitor"@[0] == 'E');
    assert("Deserialize"@[0] == 'D');
    assert(serde_path("Visitor"@).segments[2] == "Visitor"@);
    assert(serde_path("EnumVisitor"@).segments[2] == "EnumVisitor"@);
    assert(serde_path("Deserialize"@).segments[2] == "Deserialize"@);
}

/// The innermost implementation for `__Field` is found behind a visitor.
pub proof fn lemma_reads_keys(
    outer: Seq<SpecDecl>,
    keys: Seq<SpecLit>,
    g: SpecGenerics,
    visitor: SpecDecl,
)
    requires
        !implements(visitor, serde_path("Deserialize"@), "__Field"@),
    ensures
        reads_keys(
            outer + seq![field_enum(keys.len()), field_impl(keys), visitor_decl(g), visitor],
            keys,
        ),
{
    reveal_with_fuel(find_impl, 4);
    let decls = seq![field_enum(keys.len()), field_impl(keys), visitor_decl(g), visitor];
    let scope = outer + decls;
    assert(scope.last() == visitor);
    assert(scope.drop_last().last() == visitor_decl(g));
    assert(scope.drop_last().drop_last().last() == field_impl(keys));
}

/// Without an implementation of the trait that takes the input, it does not fit.
pub proof fn lemma_no_visitor(
    depth: nat,
    scope: Seq<SpecDecl>,
    g: SpecGenerics,
    input: Input,
)
    requires
        forall|j: int|
            0 <= j < scope.len() ==> !implements(
                #[trigger] scope[j],
                serde_path(visit_target(input).0),
                "__Visitor"@,
            ),
    ensures
        call_visitor(depth, scope, visitor_val(g), input) == (
            Flow::Done(Val::Failure(Fault::Mismatch)),
            Seq::<Request>::empty(),
        ),
{
    lemma_no_impl(scope, serde_path(visit_target(input).0), "__Visitor"@);
    assert(visitor_val(g)->Tuple_path[0] == "__Visitor"@);
}

pub proof fn lemma_no_impl(scope: Seq<SpecDecl>, trait_path: SpecPath, ident: Seq<char>)
    requires
        forall|j: int|
            0 <= j < scope.len() ==> !implements(#[trigger] scope[j], trait_path, ident),
    ensures
        find_impl(scope, trait_path, ident) is None,
    decreases scope.len(),
{
    if scope.len() > 0 {
        assert(!implements(scope[scope.len() - 1], trait_path, ident));
        let shorter = scope.drop_last();
        assert forall|j: int| 0 <= j < shorter.len() implies !implements(
            #[trigger] shorter[j],
            trait_path,
            ident,
        ) by {
            assert(!implements(scope[j], trait_path, ident));
        }
        lemma_no_impl(shorter, trait_path, ident);
    }
}

/// The items that a visitor with field names declares.
pub proof fn lemma_field_visitor_decls(keys: Seq<SpecLit>, g: SpecGenerics, visitor: SpecDecl)
    ensures
        ({
            let stmts = field_visitor(keys) + seq![
                SpecStmt::Decl(visitor_decl(g)),
                SpecStmt::Decl(visitor),
            ];
            &&& all_decls(stmts)
            &&& block_decls(stmts) == seq![
                field_enum(keys.len()),
                field_impl(keys),
                visitor_decl(g),
                visitor,
            ]
        }),
{
    reveal_with_fuel(block_decls, 5);
    let stmts = field_visitor(keys) + seq![
        SpecStmt::Decl(visitor_decl(g)),
        SpecStmt::Decl(visitor),
    ];
    let s3 = stmts.drop_last();
    let s2 = s3.drop_last();
    let s1 = s2.drop_last();
    assert(s1.drop_last() =~= seq![]);
    assert(stmts.last() == SpecStmt::Decl(visitor));
    assert(s3.last() == SpecStmt::Decl(visitor_decl(g)));
    assert(s2.last() == SpecStmt::Decl(field_impl(keys)));
    assert(s1.last() == SpecStmt::Decl(field_enum(keys.len())));
    assert(block_decls(stmts) =~= seq![
        field_enum(keys.len()),
        field_impl(keys),
        visitor_decl(g),
        visitor,
    ]);
}

/// The one method of a visitor takes one kind of input.
pub proof fn lemma_single_visitor(
    depth: nat,
    scope: Seq<SpecDecl>,
    g: SpecGenerics,
    value: SpecTy,
    m: SpecMethod,
    input: Input,
)
    requires
        scope.len() > 0,
        scope.last() == visitor_impl(g, visit_target(input).0, visitor_ty(g), value, m),
    ensures
        call_visitor(depth, scope, visitor_val(g), input) == (if m.ident == visit_target(input).1 {
            run_method(depth, scope, seq![m], m, visit_env(m, input), input)
        } else {
            (Flow::Done(Val::Failure(Fault::Mismatch)), seq![])
        }),
{
    let i = scope.last()->Impl_0;
    lemma_call_visitor(depth, scope, g, i, input);
    lemma_find_method1(m, visit_target(input).1);
}

/// The answer to a visitor, and what it asks for, are those for what it gets to
/// see of the input.
pub proof fn lemma_delivered(
    depth: nat,
    scope: Seq<SpecDecl>,
    visitor: Val,
    input: Input,
    v: Val,
    trace: Trace,
)
    requires
        visible(input) is Broken ==> trace == Seq::<Request>::empty(),
        !(visible(input) is Broken) ==> call_visitor(depth, scope, visitor, visible(input)) == (
            Flow::Done(v),
            trace,
        ),
    ensures
        run_visitor(depth, scope, visitor, input) == (Flow::Done(delivered(input, v)), trace),
    decreases input,
{
    if let Input::Spoiled { input: inner, .. } = input {
        lemma_delivered(depth, scope, visitor, *inner, v, trace);
    }
}

/// What a visitor gets to see does not fail behind it.
pub proof fn lemma_visible(input: Input)
    ensures
        !(visible(input) is Spoiled),
    decreases input,
{
    if let Input::Spoiled { input: inner, .. } = input {
        lemma_visible(*inner);
    }
}

} // verus!
