//! How generated code reads a unit struct.
use vstd::prelude::*;

use crate::ast::{SpecItem, SpecItemKind};
use crate::code::{SpecDecl, SpecMethod, SpecStmt};
use crate::meaning::{
    block_decls, eval, eval_block, find_method, last_index, method_effect, run_method, start,
    visible, visit_target, Context, Fault, Flow, Input, Request, State, Val,
};
use crate::outcome::{ended, unit_name, unit_struct_result, unit_struct_value};
use crate::requests::{asked, told, unit_struct_trace};
use crate::shape::{
    end_stmt, unit_impl, unit_method, unit_seq_method, unit_struct_expr, visitor_decl,
};
use crate::steps::{
    lemma_block_flow, lemma_call1, lemma_calls, lemma_end, lemma_ident_path_inj, lemma_method0,
    lemma_no_decls, lemma_parties, lemma_plain_flow, lemma_stmts1,
};
use crate::tree::{block, block_expr, ident_path, method0, no_generics, ok_expr, var};
use crate::visitors::{
    all_decls, lemma_call_visitor, lemma_delivered, lemma_deserializer_block, lemma_find_method1,
    lemma_method_names, lemma_no_visitor, lemma_trait_names, lemma_visible, visitor_val,
};

verus! {

/// `visit_unit`
proof fn lemma_visit_unit(depth: nat, scope: Seq<SpecDecl>, ident: Seq<char>, input: Input)
    requires
        unit_name(ident),
    ensures
        run_method(
            depth,
            scope,
            unit_impl(ident)->Impl_0.methods,
            unit_method(ident),
            seq![],
            input,
        ) == (
            Flow::Done(Val::Success(Box::new(Val::Tuple { path: seq![ident], args: seq![] }))),
            Seq::<Request>::empty(),
        ),
{
    let c = Context { scope, methods: unit_impl(ident)->Impl_0.methods, input };
    let s = start(seq![]);
    let v = Val::Tuple { path: seq![ident], args: seq![] };
    if ident_path(ident) == ident_path("None"@) {
        lemma_ident_path_inj(ident, "None"@);
    }
    assert(last_index(s.env, ident) == -1);
    assert(ident_path(ident).segments =~= seq![ident]);
    assert(eval(depth, c, var(ident), s) == (Flow::Done(v), s));
    lemma_call1(depth, c, ident_path("Ok"@), var(ident), s, v);
    lemma_calls(v, Fault::EndOfStream, seq![]);
    lemma_plain_flow(depth, c, ok_expr(var(ident)), s);
}

/// `visit_seq` of a unit struct
proof fn lemma_visit_unit_seq(
    depth: nat,
    scope: Seq<SpecDecl>,
    ident: Seq<char>,
    items: Seq<Result<int, int>>,
    end: Result<(), int>,
)
    requires
        depth > 0,
        unit_name(ident),
    ensures
        run_method(
            depth,
            scope,
            unit_impl(ident)->Impl_0.methods,
            unit_seq_method(ident),
            seq![],
            Input::List { items, end },
        ) == (
            Flow::Done(ended(end, Val::Tuple { path: seq![ident], args: seq![] })),
            seq![asked("end"@)],
        ),
{
    let input = Input::List { items, end };
    let methods = unit_impl(ident)->Impl_0.methods;
    let c = Context { scope, methods, input };
    let s = start(seq![]);
    let stmts = seq![end_stmt()];
    let tail = method0("self"@, "visit_unit"@);
    lemma_no_decls(stmts);
    lemma_block_flow(depth, c, stmts, tail, s);
    lemma_stmts1(depth, c, end_stmt(), s);
    lemma_end(depth, c, end, s);
    lemma_parties();
    let s1 = State { trace: s.trace.push(asked("end"@)), ..s };
    lemma_method0(depth, c, "self"@, "visit_unit"@, s1);
    assert(methods[0] == unit_method(ident));
    assert(find_method(methods, "visit_unit"@) == Some(unit_method(ident)));
    lemma_visit_unit((depth - 1) as nat, scope, ident, input);
    assert(s1.trace =~= seq![asked("end"@)]);
    assert(s1.trace + Seq::<Request>::empty() =~= s1.trace);
    let b = block(stmts, tail);
    assert(eval_block(depth, c, b, s) == eval(depth, c, block_expr(stmts, tail), s));
}

/// The items that the code for a unit struct declares.
proof fn lemma_unit_decls(ident: Seq<char>)
    ensures
        all_decls(unit_struct_expr(ident)->Block_0.stmts),
        block_decls(unit_struct_expr(ident)->Block_0.stmts) == seq![
            visitor_decl(no_generics()),
            unit_impl(ident),
        ],
{
    reveal_with_fuel(block_decls, 3);
    let stmts = unit_struct_expr(ident)->Block_0.stmts;
    assert(stmts.last() == SpecStmt::Decl(unit_impl(ident)));
    assert(stmts.drop_last() =~= seq![stmts[0]]);
    assert(seq![stmts[0]].drop_last() =~= seq![]);
    assert(block_decls(stmts) =~= seq![visitor_decl(no_generics()), unit_impl(ident)]);
}

/// The method of a unit struct's visitor that takes an input.
proof fn lemma_unit_methods(ident: Seq<char>, input: Input)
    requires
        input is Unit || input is Str || input is List || input is Table,
    ensures
        find_method(unit_impl(ident)->Impl_0.methods, visit_target(input).1) == (match input {
            Input::Unit => Some(unit_method(ident)),
            Input::List { .. } => Some(unit_seq_method(ident)),
            _ => None,
        }),
{
    let methods = unit_impl(ident)->Impl_0.methods;
    assert(methods[0] == unit_method(ident));
    assert(methods.drop_first() =~= seq![unit_seq_method(ident)]);
    lemma_method_names();
    lemma_find_method1(unit_seq_method(ident), visit_target(input).1);
}

/// The code for a unit struct.
pub proof fn lemma_unit_struct(
    depth: nat,
    item: SpecItem,
    methods: Seq<SpecMethod>,
    input: Input,
)
    requires
        depth >= 2,
        item.node matches SpecItemKind::Struct(f, _) && f.len() == 0,
        unit_name(item.ident),
    ensures
        method_effect(
            eval(
                depth,
                Context { scope: seq![], methods, input },
                unit_struct_expr(item.ident),
                start(seq![]),
            ),
        ) == (
            Flow::Done(unit_struct_result(item.ident, input)),
            seq![told("visit_named_unit"@, item.ident)] + unit_struct_trace(input),
        ),
{
    let c = Context { scope: seq![], methods, input };
    let s = start(seq![]);
    let stmts = unit_struct_expr(item.ident)->Block_0.stmts;
    let i = unit_impl(item.ident)->Impl_0;
    let g = no_generics();
    lemma_unit_decls(item.ident);
    lemma_deserializer_block(depth, c, stmts, "visit_named_unit"@, item.ident, g, s);
    let scope = c.scope + block_decls(stmts);
    assert(scope.last() == SpecDecl::Impl(i));
    let seen = visible(input);
    lemma_visible(input);
    if seen is Variant {
        lemma_trait_names();
        lemma_no_visitor((depth - 1) as nat, scope, g, seen);
    } else if !(seen is Broken) {
        lemma_call_visitor((depth - 1) as nat, scope, g, i, seen);
        lemma_unit_methods(item.ident, seen);
        if let Input::List { items, end } = seen {
            lemma_visit_unit_seq((depth - 1) as nat, scope, item.ident, items, end);
        } else if seen is Unit {
            lemma_visit_unit((depth - 1) as nat, scope, item.ident, seen);
        }
    }
    let v = unit_struct_value(item.ident, seen);
    let trace = unit_struct_trace(input);
    lemma_delivered((depth - 1) as nat, scope, visitor_val(g), input, v, trace);
    let first = told("visit_named_unit"@, item.ident);
    assert(Seq::<Request>::empty().push(first) =~= seq![first]);
}

} // verus!
