//! How generated code reads the name of a field or variant.
use vstd::prelude::*;

use crate::code::{SpecArm, SpecDecl, SpecExpr, SpecLit, SpecPat};
use crate::meaning::{
    block_decls, call_visitor, effect, eval, eval_arms, eval_block, find_impl, find_method,
    implements, last_index, leave, method_flow, pat_match, run_key, run_method, run_visitor, start,
    visit_env, visit_target, Context, Fault, Flow, Input, Request, State, Val,
};
use crate::names::{field_ident, law_field_idents_distinct};
use crate::outcome::{field_val, key_index, key_val};
use crate::requests::key_request;
use crate::shape::{
    field_body, field_impl, field_path, key_arm, key_arms, str_method, unknown_key_arm,
    visitor_impl,
};
use crate::steps::{
    lemma_call1, lemma_calls, lemma_ident_path_inj, lemma_last_index, lemma_method1, lemma_parties,
    lemma_plain_flow,
};
use crate::tree::{
    block, call1, ident_path, ident_ty, match_expr, method1, no_generics, ok_expr,
    serde_error_path, serde_path, var,
};
use crate::visitors::{
    all_decls, lemma_decl_block, lemma_find_method1, lemma_method_names, lemma_no_impl,
    lemma_trait_names,
};

verus! {

pub proof fn lemma_field_val_inj(i: nat, j: nat)
    requires
        i != j,
    ensures
        field_val(i) != field_val(j),
{
    law_field_idents_distinct(i, j);
    assert(field_path(i).segments[1] == field_ident(i));
    assert(field_path(j).segments[1] == field_ident(j));
}

/// The arms from index `k` on.
proof fn lemma_key_arms(
    depth: nat,
    c: Context,
    keys: Seq<SpecLit>,
    name: Seq<char>,
    k: nat,
    s: State,
)
    requires
        k <= keys.len(),
        s.env == seq![("value"@, Val::Str(name))],
    ensures
        effect(eval_arms(depth, c, Val::Str(name), key_arms(keys).skip(k as int), s)) == (
            Flow::Done(key_val(keys, name, k)),
            s.trace,
        ),
    decreases keys.len() - k,
{
    let arms = key_arms(keys).skip(k as int);
    let v = Val::Str(name);
    let s0 = State { env: s.env + seq![], ..s };
    assert(s0.env =~= s.env);
    assert(s0 == s);
    if k == keys.len() {
        assert(arms[0] == unknown_key_arm());
        lemma_last_index(s.env, "value"@, 0);
        assert(ident_path("value"@).segments[0] == "value"@);
        assert(eval(depth, c, var("value"@), s) == (Flow::Done(v), s));
        lemma_calls(v, Fault::UnknownField(name), name);
        let p = serde_error_path("unknown_field_error"@);
        lemma_call1(depth, c, p, var("value"@), s, v);
        let f = Val::Fault(Fault::UnknownField(name));
        lemma_call1(depth, c, ident_path("Err"@), call1(p, var("value"@)), s, f);
    } else {
        assert(arms[0] == key_arm(keys[k as int], k));
        assert(arms.drop_first() =~= key_arms(keys).skip(k as int + 1));
        if keys[k as int] == SpecLit::Str(name) {
            let e = SpecExpr::Path(field_path(k));
            assert(field_path(k).segments.len() == 2);
            assert(ident_path("None"@).segments.len() == 1);
            assert(eval(depth, c, e, s) == (Flow::Done(field_val(k)), s));
            lemma_call1(depth, c, ident_path("Ok"@), e, s, field_val(k));
            lemma_calls(field_val(k), Fault::EndOfStream, name);
            lemma_plain_flow(depth, c, ok_expr(e), s);
        } else {
            assert(pat_match(arms[0].pat, v) is None);
            lemma_key_arms(depth, c, keys, name, (k + 1) as nat, s);
        }
    }
}

proof fn lemma_field_names()
    ensures
        ident_path("__FieldVisitor"@) != ident_path("None"@),
{
    reveal_strlit("__FieldVisitor");
    reveal_strlit("None");
    assert("__FieldVisitor"@.len() == 14);
    assert("None"@.len() == 4);
    if ident_path("__FieldVisitor"@) == ident_path("None"@) {
        lemma_ident_path_inj("__FieldVisitor"@, "None"@);
    }
}

/// `visit_str`
proof fn lemma_visit_str(
    depth: nat,
    scope: Seq<SpecDecl>,
    keys: Seq<SpecLit>,
    name: Seq<char>,
)
    ensures
        ({
            let m = str_method(keys);
            let input = Input::Str(name);
            run_method(depth, scope, seq![m], m, visit_env(m, input), input) == (
                Flow::Done(key_val(keys, name, 0)),
                Seq::<Request>::empty(),
            )
        }),
{
    let m = str_method(keys);
    let c = Context { scope, methods: seq![m], input: Input::Str(name) };
    let s = start(seq![("value"@, Val::Str(name))]);
    let e = match_expr(var("value"@), key_arms(keys));
    lemma_last_index(s.env, "value"@, 0);
    assert(ident_path("value"@).segments[0] == "value"@);
    assert(eval(depth, c, var("value"@), s) == (Flow::Done(Val::Str(name)), s));
    assert(key_arms(keys).skip(0) =~= key_arms(keys));
    lemma_key_arms(depth, c, keys, name, 0, s);
    lemma_plain_flow(depth, c, e, s);
}

/// The innermost `__Field` in a scope is the one for these keys.
pub open spec fn reads_keys(scope: Seq<SpecDecl>, keys: Seq<SpecLit>) -> bool {
    find_impl(scope, serde_path("Deserialize"@), "__Field"@) == Some(field_impl(keys)->Impl_0)
}

/// The value of `__FieldVisitor`.
pub open spec fn field_visitor_val() -> Val {
    Val::Tuple { path: seq!["__FieldVisitor"@], args: seq![] }
}

/// The items that `deserialize` of `__Field` declares.
pub open spec fn field_decls(keys: Seq<SpecLit>) -> Seq<SpecDecl> {
    seq![
        SpecDecl::Struct { ident: "__FieldVisitor"@, generics: no_generics(), tys: seq![] },
        visitor_impl(
            no_generics(),
            "Visitor"@,
            ident_ty("__FieldVisitor"@),
            ident_ty("__Field"@),
            str_method(keys),
        ),
    ]
}

proof fn lemma_field_decls(keys: Seq<SpecLit>)
    ensures
        all_decls(field_body(keys).stmts),
        block_decls(field_body(keys).stmts) == field_decls(keys),
{
    reveal_with_fuel(block_decls, 3);
    let stmts = field_body(keys).stmts;
    assert(stmts.drop_last() =~= seq![stmts[0]]);
    assert(seq![stmts[0]].drop_last() =~= seq![]);
    assert(block_decls(stmts) =~= field_decls(keys));
}

/// `deserialize` of `__Field`
pub proof fn lemma_field_method(
    depth: nat,
    scope: Seq<SpecDecl>,
    keys: Seq<SpecLit>,
    input: Input,
)
    requires
        depth > 0,
    ensures
        ({
            let methods = field_impl(keys)->Impl_0.methods;
            let (flow, trace) = run_visitor(
                (depth - 1) as nat,
                scope + field_decls(keys),
                field_visitor_val(),
                input,
            );
            &&& find_method(methods, "deserialize"@) == Some(methods[0])
            &&& run_method(depth, scope, methods, methods[0], seq![], input) == (
                method_flow(flow),
                seq![key_request()] + trace,
            )
        }),
{
    let methods = field_impl(keys)->Impl_0.methods;
    let m = methods[0];
    assert(methods =~= seq![m]);
    lemma_find_method1(m, "deserialize"@);
    let c = Context { scope, methods, input };
    let s = start(seq![]);
    let e = method1("deserializer"@, "visit"@, var("__FieldVisitor"@));
    lemma_field_decls(keys);
    lemma_decl_block(depth, c, field_body(keys).stmts, e, s);
    let inner = Context { scope: scope + field_decls(keys), ..c };
    let v = field_visitor_val();
    lemma_field_names();
    assert(last_index(s.env, "__FieldVisitor"@) == -1);
    assert(ident_path("__FieldVisitor"@).segments =~= seq!["__FieldVisitor"@]);
    assert(eval(depth, inner, var("__FieldVisitor"@), s) == (Flow::Done(v), s));
    lemma_parties();
    lemma_method1(depth, inner, "deserializer"@, "visit"@, var("__FieldVisitor"@), s, v);
    assert(seq![v].last() == v);
    assert(seq![v][0] == v);
    assert(s.trace.push(key_request()) =~= seq![key_request()]);
    assert(field_body(keys) == block(field_body(keys).stmts, e));
    assert(eval(depth, c, SpecExpr::Block(Box::new(field_body(keys))), s) == eval_block(
        depth,
        c,
        field_body(keys),
        s,
    ));
}

/// The visitor of `__Field` takes strings.
pub proof fn lemma_field_visitor(
    depth: nat,
    outer: Seq<SpecDecl>,
    keys: Seq<SpecLit>,
    name: Seq<char>,
)
    ensures
        call_visitor(depth, outer + field_decls(keys), field_visitor_val(), Input::Str(name)) == (
            Flow::Done(key_val(keys, name, 0)),
            Seq::<Request>::empty(),
        ),
{
    let scope = outer + field_decls(keys);
    let visitor = field_decls(keys)[1];
    assert(scope.last() == visitor);
    assert(implements(visitor, serde_path("Visitor"@), "__FieldVisitor"@));
    assert(field_visitor_val()->Tuple_path[0] == "__FieldVisitor"@);
    lemma_find_method1(str_method(keys), "visit_str"@);
    lemma_visit_str(depth, scope, keys, name);
}

/// The visitor of `__Field` takes nothing else.
pub proof fn lemma_field_mismatch(depth: nat, keys: Seq<SpecLit>, input: Input)
    requires
        input is Unit || input is List || input is Table || input is Variant,
    ensures
        call_visitor(depth, field_decls(keys), field_visitor_val(), input) == (
            Flow::Done(Val::Failure(Fault::Mismatch)),
            Seq::<Request>::empty(),
        ),
{
    let scope = field_decls(keys);
    let visitor = scope[1];
    assert(field_visitor_val()->Tuple_path[0] == "__FieldVisitor"@);
    if input is Variant {
        lemma_trait_names();
        lemma_no_impl(scope, serde_path("EnumVisitor"@), "__FieldVisitor"@);
    } else {
        assert(scope.last() == visitor);
        assert(implements(visitor, serde_path("Visitor"@), "__FieldVisitor"@));
        lemma_method_names();
        lemma_find_method1(str_method(keys), visit_target(input).1);
    }
}

/// A key is read as the first field that has it.
pub proof fn lemma_run_key(
    depth: nat,
    scope: Seq<SpecDecl>,
    keys: Seq<SpecLit>,
    name: Seq<char>,
)
    requires
        depth > 0,
        reads_keys(scope, keys),
    ensures
        run_key(depth, scope, Ok(name)) == Flow::Done(key_val(keys, name, 0)),
{
    lemma_field_method(depth, scope, keys, Input::Str(name));
    lemma_field_visitor((depth - 1) as nat, scope, keys, name);
}

pub proof fn lemma_key_index_bound(keys: Seq<SpecLit>, name: Seq<char>, k: nat)
    ensures
        key_index(keys, name, k) matches Some(i) ==> i < keys.len(),
    decreases keys.len() - k,
{
    if k < keys.len() {
        lemma_key_index_bound(keys, name, k + 1);
    }
}

/// One arm for each field, in order.
pub open spec fn field_arms(arms: Seq<SpecArm>) -> bool {
    forall|j: int|
        0 <= j < arms.len() ==> (#[trigger] arms[j]).pat == SpecPat::Path(field_path(j as nat))
}

/// The arm of a field is taken. Those from index `k` on are looked at.
pub proof fn lemma_field_arms(
    depth: nat,
    c: Context,
    arms: Seq<SpecArm>,
    i: nat,
    k: nat,
    s: State,
)
    requires
        k <= i < arms.len(),
        field_arms(arms),
    ensures
        eval_arms(depth, c, field_val(i), arms.skip(k as int), s) == (
            eval(depth, c, arms[i as int].body, s).0,
            leave(eval(depth, c, arms[i as int].body, s).1, s.env.len()),
        ),
    decreases i - k,
{
    let rest = arms.skip(k as int);
    assert(rest[0] == arms[k as int]);
    assert(rest.drop_first() =~= arms.skip(k as int + 1));
    assert(field_path(k).segments.len() == 2);
    assert(ident_path("None"@).segments.len() == 1);
    if k == i {
        let s0 = State { env: s.env + seq![], ..s };
        assert(s0.env =~= s.env);
        assert(s0 == s);
    } else {
        lemma_field_val_inj(k, i);
        lemma_field_arms(depth, c, arms, i, (k + 1) as nat, s);
    }
}

} // verus!
