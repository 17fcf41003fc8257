//! The laws of derived code: what it does with every input, whatever type it
//! was derived for.
use vstd::prelude::*;

use crate::ast::{
    all_named, all_unnamed, derivable, field_keys, SpecField, SpecItem, SpecItemKind, SpecVariant,
};
use crate::code::{SpecDecl, SpecExpr, SpecGenerics, SpecLit, SpecMethod, SpecTy};
use crate::meaning::{
    block_decls, eval, method_effect, op, run, spoiled, start, visible, Context, Entry, Fault,
    Flow, Input, Op, Request, Trace, Val,
};
use crate::outcome::{
    entry_fault, entry_index, enum_result, enum_value, field_value, item_result, key_index,
    key_result, key_val, last_value, map_fault, map_values, missing_fault, record_result,
    record_value, seq_fault, seq_values, string_keys, tuple_result, tuple_value,
    unit_struct_result, variant_result, well_named,
};
use crate::read_key::{
    field_decls, field_visitor_val, lemma_field_method, lemma_field_mismatch, lemma_field_visitor,
};
use crate::read_struct::{lemma_enum_visitor, lemma_record_visitor, lemma_tuple_visitor};
use crate::read_unit::lemma_unit_struct;
use crate::requests::{
    asked, ending, entries_trace, enum_trace, item_trace, key_request, map_trace, missing_trace,
    record_trace, seq_trace, told, tuple_trace, unit_struct_trace, visits,
};
use crate::shape::{
    body_expr, derived_impl, enum_method, field_impl, impl_generics, item_enum_expr, item_generics,
    item_ty, map_method, map_visitor, seq_visitor, variant_keys, visitor_decl, visitor_expr,
    visitor_impl, visitor_ty,
};
use crate::steps::lemma_ops;
use crate::tree::{ident_path, path_ty, serde_path};
use crate::visitors::{
    lemma_delivered, lemma_deserializer_block, lemma_field_visitor_decls, lemma_run,
    lemma_seq_visitor_decls, lemma_visible, visitor_val,
};

verus! {

/// Runs the body of `deserialize` for an item, as it is written for the
/// parameters `g` and the type `ty`.
pub open spec fn run_body(
    depth: nat,
    item: SpecItem,
    g: SpecGenerics,
    ty: SpecTy,
    methods: Seq<SpecMethod>,
    input: Input,
) -> (Flow, Trace) {
    let c = Context { scope: seq![], methods, input };
    method_effect(eval(depth, c, body_expr(item, g, ty), start(seq![])))
}

// Reading
// -------

/// Derived code reads a unit struct from the unit value, and from a sequence
/// that the visitor agrees has ended.
pub proof fn law_unit_struct(depth: nat, item: SpecItem, input: Input)
    requires
        depth >= 2,
        item.node matches SpecItemKind::Struct(f, _) && f.len() == 0,
        well_named(item),
    ensures
        run(depth, derived_impl(item), input) == (
            Flow::Done(unit_struct_result(item.ident, input)),
            seq![told("visit_named_unit"@, item.ident)] + unit_struct_trace(input),
        ),
{
    lemma_run(depth, item, input);
    lemma_unit_struct(depth, item, derived_impl(item).methods, input);
}

/// Derived code reads a tuple struct of `n` fields from a sequence: it takes
/// the first `n` values, in order, and fails with the first error in them,
/// with the end of the sequence where there are fewer, or with the visitor's
/// error where more are left.
pub proof fn law_tuple_struct(
    depth: nat,
    item: SpecItem,
    fields: Seq<SpecField>,
    input: Input,
)
    requires
        depth >= 2,
        item.node matches SpecItemKind::Struct(f, _) && f == fields,
        fields.len() > 0,
        all_unnamed(fields),
        well_named(item),
    ensures
        run(depth, derived_impl(item), input) == (
            Flow::Done(tuple_result(seq![item.ident], fields.len(), input)),
            seq![told("visit_named_seq"@, item.ident)] + tuple_trace(fields.len(), input),
        ),
{
    let g = impl_generics(item_generics(item));
    let ty = item_ty(item);
    lemma_run(depth, item, input);
    lemma_tuple_body(depth, item, fields, g, ty, derived_impl(item).methods, input);
}

proof fn lemma_tuple_body(
    depth: nat,
    item: SpecItem,
    fields: Seq<SpecField>,
    g: SpecGenerics,
    ty: SpecTy,
    methods: Seq<SpecMethod>,
    input: Input,
)
    requires
        depth >= 2,
        item.node matches SpecItemKind::Struct(f, _) && f == fields,
        fields.len() > 0,
        all_unnamed(fields),
        well_named(item),
    ensures
        run_body(depth, item, g, ty, methods, input) == (
            Flow::Done(tuple_result(seq![item.ident], fields.len(), input)),
            seq![told("visit_named_seq"@, item.ident)] + tuple_trace(fields.len(), input),
        ),
{
    let c = Context { scope: seq![], methods, input };
    let s = start(seq![]);
    let seen = visible(input);
    let n = fields.len();
    let path = ident_path(item.ident);
    let stmts = seq_visitor(g, ty, path, n);
    let v = tuple_value(path.segments, n, seen);
    assert(path.segments =~= seq![item.ident]);
    assert(fields[0].name is None);
    lemma_seq_visitor_decls(g, ty, path, n);
    lemma_deserializer_block(depth, c, stmts, "visit_named_seq"@, item.ident, g, s);
    let scope = block_decls(stmts);
    assert(c.scope + scope =~= scope);
    lemma_visible(input);
    if !(seen is Broken) {
        lemma_tuple_visitor((depth - 1) as nat, g, ty, path, n, seen);
    }
    let trace = tuple_trace(fields.len(), input);
    lemma_delivered((depth - 1) as nat, scope, visitor_val(g), input, v, trace);
    let first = told("visit_named_seq"@, item.ident);
    assert(s.trace.push(first) =~= seq![first]);
}

/// Derived code reads a struct with named fields from a map. The entries may
/// come in any order. It fails with the first key that is unknown or in error,
/// or the first value that is in error. Of several entries for one field the
/// last counts. A field that is missing gets its default where it has one, and
/// else what the visitor answers for it.
pub proof fn law_struct(depth: nat, item: SpecItem, fields: Seq<SpecField>, input: Input)
    requires
        depth >= 3,
        item.node matches SpecItemKind::Struct(f, _) && f == fields,
        fields.len() > 0,
        all_named(fields),
        well_named(item),
    ensures
        run(depth, derived_impl(item), input) == (
            Flow::Done(record_result(seq![item.ident], fields, input)),
            seq![told("visit_named_map"@, item.ident)] + record_trace(fields, input),
        ),
{
    let g = impl_generics(item_generics(item));
    let ty = item_ty(item);
    lemma_run(depth, item, input);
    lemma_struct_body(depth, item, fields, g, ty, derived_impl(item).methods, input);
}

proof fn lemma_struct_body(
    depth: nat,
    item: SpecItem,
    fields: Seq<SpecField>,
    g: SpecGenerics,
    ty: SpecTy,
    methods: Seq<SpecMethod>,
    input: Input,
)
    requires
        depth >= 3,
        item.node matches SpecItemKind::Struct(f, _) && f == fields,
        fields.len() > 0,
        all_named(fields),
        well_named(item),
    ensures
        run_body(depth, item, g, ty, methods, input) == (
            Flow::Done(record_result(seq![item.ident], fields, input)),
            seq![told("visit_named_map"@, item.ident)] + record_trace(fields, input),
        ),
{
    let c = Context { scope: seq![], methods, input };
    let s = start(seq![]);
    let seen = visible(input);
    let path = ident_path(item.ident);
    let attr = Some("inline"@);
    let stmts = map_visitor(attr, g, ty, path, fields);
    let v = record_value(path.segments, fields, seen);
    assert(path.segments =~= seq![item.ident]);
    assert(fields[0].name is Some);
    let m = map_method(attr, ty, path, fields);
    let visitor = visitor_impl(g, "Visitor"@, visitor_ty(g), ty, m);
    lemma_field_visitor_decls(field_keys(fields), g, visitor);
    lemma_deserializer_block(depth, c, stmts, "visit_named_map"@, item.ident, g, s);
    let scope = block_decls(stmts);
    assert(c.scope + scope =~= scope);
    lemma_visible(input);
    if !(seen is Broken) {
        lemma_record_visitor((depth - 1) as nat, attr, g, ty, path, fields, seen);
    }
    let trace = record_trace(fields, input);
    lemma_delivered((depth - 1) as nat, scope, visitor_val(g), input, v, trace);
    let first = told("visit_named_map"@, item.ident);
    assert(s.trace.push(first) =~= seq![first]);
}

/// Derived code reads an enum from a variant: the one of that name, from the
/// content that fits its form. A name that no variant has is an unknown field.
pub proof fn law_enum(depth: nat, item: SpecItem, variants: Seq<SpecVariant>, input: Input)
    requires
        depth >= 4,
        item.node matches SpecItemKind::Enum(v, _) && v == variants,
        well_named(item),
    ensures
        run(depth, derived_impl(item), input) == (
            Flow::Done(enum_result(item.ident, variants, input)),
            seq![told("visit_enum"@, item.ident)] + enum_trace(variants, input),
        ),
{
    let g = impl_generics(item_generics(item));
    let ty = item_ty(item);
    lemma_run(depth, item, input);
    lemma_enum_body(depth, item, variants, g, ty, derived_impl(item).methods, input);
}

proof fn lemma_enum_body(
    depth: nat,
    item: SpecItem,
    variants: Seq<SpecVariant>,
    g: SpecGenerics,
    ty: SpecTy,
    methods: Seq<SpecMethod>,
    input: Input,
)
    requires
        depth >= 4,
        item.node matches SpecItemKind::Enum(v, _) && v == variants,
        well_named(item),
    ensures
        run_body(depth, item, g, ty, methods, input) == (
            Flow::Done(enum_result(item.ident, variants, input)),
            seq![told("visit_enum"@, item.ident)] + enum_trace(variants, input),
        ),
{
    let c = Context { scope: seq![], methods, input };
    let s = start(seq![]);
    let seen = visible(input);
    let stmts = item_enum_expr(item.ident, g, ty, variants)->Block_0.stmts;
    let v = enum_value(item.ident, variants, seen);
    let m = enum_method(item.ident, g, ty, variants);
    let visitor = visitor_impl(g, "EnumVisitor"@, visitor_ty(g), ty, m);
    lemma_field_visitor_decls(variant_keys(variants), g, visitor);
    lemma_deserializer_block(depth, c, stmts, "visit_enum"@, item.ident, g, s);
    let scope = block_decls(stmts);
    assert(c.scope + scope =~= scope);
    lemma_visible(input);
    if !(seen is Broken) {
        lemma_enum_visitor((depth - 1) as nat, item.ident, g, ty, variants, seen);
    }
    let trace = enum_trace(variants, input);
    lemma_delivered((depth - 1) as nat, scope, visitor_val(g), input, v, trace);
    let first = told("visit_enum"@, item.ident);
    assert(s.trace.push(first) =~= seq![first]);
}

/// The derived `__Field` is read from a string, by one call of its deserializer.
pub proof fn law_field_key(depth: nat, keys: Seq<SpecLit>, input: Input)
    requires
        depth >= 1,
    ensures
        run(depth, field_impl(keys)->Impl_0, input) == (
            Flow::Done(key_result(keys, input)),
            seq![key_request()],
        ),
{
    let seen = visible(input);
    let scope = field_decls(keys);
    let empty = Seq::<SpecDecl>::empty();
    assert(empty + scope =~= scope);
    lemma_visible(input);
    lemma_field_method(depth, empty, keys, input);
    if let Input::Str(name) = seen {
        lemma_field_visitor((depth - 1) as nat, empty, keys, name);
    } else if !(seen is Broken) {
        lemma_field_mismatch((depth - 1) as nat, keys, seen);
    }
    let v = match seen {
        Input::Str(name) => key_val(keys, name, 0),
        _ => Val::Failure(Fault::Mismatch),
    };
    lemma_delivered((depth - 1) as nat, scope, field_visitor_val(), input, v, seq![]);
    assert(seq![key_request()] + Seq::<Request>::empty() =~= seq![key_request()]);
}

/// Derived code reads every input as what it stands for, with the calls that this
/// takes and no others, and it always comes to an end with a value or an error.
pub proof fn law_deserialize(depth: nat, item: SpecItem, input: Input)
    requires
        depth >= 4,
        derivable(item),
        well_named(item),
    ensures
        run(depth, derived_impl(item), input) == (
            Flow::Done(item_result(item, input)),
            item_trace(item, input),
        ),
{
    match item.node {
        SpecItemKind::Struct(fields, _) => {
            if fields.len() == 0 {
                assert(all_unnamed(fields));
                law_unit_struct(depth, item, input);
            } else if all_unnamed(fields) {
                law_tuple_struct(depth, item, fields, input);
            } else {
                law_struct(depth, item, fields, input);
            }
        },
        SpecItemKind::Enum(variants, _) => {
            law_enum(depth, item, variants, input);
        },
        SpecItemKind::Other => {},
    }
}

/// The same code, with whatever parameters and type it is written for, and
/// whatever other methods there are, does the same.
pub proof fn law_any_params(
    depth: nat,
    item: SpecItem,
    g: SpecGenerics,
    ty: SpecTy,
    methods: Seq<SpecMethod>,
    input: Input,
)
    requires
        depth >= 4,
        derivable(item),
        well_named(item),
    ensures
        run_body(depth, item, g, ty, methods, input) == run(depth, derived_impl(item), input),
{
    law_deserialize(depth, item, input);
    match item.node {
        SpecItemKind::Struct(fields, _) => {
            if fields.len() == 0 {
                assert(all_unnamed(fields));
                lemma_unit_struct(depth, item, methods, input);
            } else if all_unnamed(fields) {
                lemma_tuple_body(depth, item, fields, g, ty, methods, input);
            } else {
                lemma_struct_body(depth, item, fields, g, ty, methods, input);
            }
        },
        SpecItemKind::Enum(variants, _) => {
            lemma_enum_body(depth, item, variants, g, ty, methods, input);
        },
        SpecItemKind::Other => {},
    }
}

// Requests
// --------

/// The part of reading that a request belongs to: the values, then what is
/// missing, then the end.
pub open spec fn phase(r: Request) -> int {
    match op(r.ident) {
        Op::MissingField => 1,
        Op::End => 2,
        _ => 0,
    }
}

/// All requests belong to one part of reading.
pub open spec fn in_phase(trace: Trace, p: int) -> bool {
    forall|i: int| 0 <= i < trace.len() ==> phase(#[trigger] trace[i]) == p
}

proof fn lemma_visits_phase(items: Seq<Result<int, int>>, n: nat, k: nat)
    ensures
        in_phase(visits(items, n, k), 0),
    decreases n - k,
{
    lemma_ops();
    if k < n {
        lemma_visits_phase(items, n, k + 1);
    }
}

proof fn lemma_entries_phase(keys: Seq<SpecLit>, entries: Seq<Entry>, k: nat)
    ensures
        in_phase(entries_trace(keys, entries, k), 0),
    decreases entries.len() - k,
{
    lemma_ops();
    if k < entries.len() {
        lemma_entries_phase(keys, entries, k + 1);
    }
}

proof fn lemma_missing_phase(
    fields: Seq<SpecField>,
    entries: Seq<Entry>,
    missing: spec_fn(Seq<char>) -> Result<int, int>,
    k: nat,
)
    ensures
        in_phase(missing_trace(fields, entries, missing, k), 1),
    decreases fields.len() - k,
{
    lemma_ops();
    if k < fields.len() {
        lemma_missing_phase(fields, entries, missing, k + 1);
    }
}

/// Of a sequence the end is asked for once and last, and just where no value was
/// in error or not there. Before, nothing but values is asked for.
pub proof fn law_seq_end(items: Seq<Result<int, int>>, n: nat)
    ensures
        ({
            let t = seq_trace(items, n);
            &&& forall|i: int| 0 <= i < t.len() - 1 ==> phase(#[trigger] t[i]) == 0
            &&& seq_fault(items, n, 0) is None <==> t.len() > 0 && t.last() == asked("end"@)
        }),
{
    lemma_ops();
    lemma_visits_phase(items, n, 0);
    let t = seq_trace(items, n);
    let read = visits(items, n, 0);
    assert forall|i: int| 0 <= i < t.len() - 1 implies phase(#[trigger] t[i]) == 0 by {
        assert(t[i] == read[i]);
    }
    if seq_fault(items, n, 0) is Some && t.len() > 0 {
        assert(t.last() == read[t.len() - 1]);
    }
}

/// Of a map, keys and values are asked for first, then the fields that are
/// missing, and then the end: once and last, and just where nothing was in error
/// before.
pub proof fn law_map_end(
    fields: Seq<SpecField>,
    entries: Seq<Entry>,
    missing: spec_fn(Seq<char>) -> Result<int, int>,
)
    ensures
        ({
            let t = map_trace(fields, entries, missing);
            &&& forall|i: int, j: int|
                0 <= i < j < t.len() ==> phase(#[trigger] t[i]) <= phase(#[trigger] t[j])
            &&& forall|i: int| 0 <= i < t.len() - 1 ==> phase(#[trigger] t[i]) < 2
            &&& map_fault(field_keys(fields), entries, 0) is None && missing_fault(
                fields,
                entries,
                missing,
                0,
            ) is None <==> t.len() > 0 && t.last() == asked("end"@)
        }),
{
    lemma_ops();
    let keys = field_keys(fields);
    let t = map_trace(fields, entries, missing);
    let a = entries_trace(keys, entries, 0);
    lemma_entries_phase(keys, entries, 0);
    if map_fault(keys, entries, 0) is Some {
        if t.len() > 0 {
            assert(phase(a[t.len() - 1]) == 0);
        }
    } else {
        let fault = missing_fault(fields, entries, missing, 0);
        let b = missing_trace(fields, entries, missing, 0);
        lemma_missing_phase(fields, entries, missing, 0);
        assert forall|i: int| 0 <= i < t.len() implies phase(#[trigger] t[i]) == (if i < a.len() {
            0int
        } else if i < a.len() + b.len() {
            1
        } else {
            2
        }) by {
            if i < a.len() {
                assert(t[i] == a[i]);
            } else if i < a.len() + b.len() {
                assert(t[i] == b[i - a.len()]);
            } else {
                assert(t[i] == ending(fault)[i - a.len() - b.len()]);
            }
        }
    }
}

// Failing inputs
// --------------

/// An error that the deserializer gives before it calls the visitor is returned
/// as it is, and nothing more is asked.
pub proof fn law_broken_input(depth: nat, item: SpecItem, e: int)
    requires
        depth >= 4,
        derivable(item),
        well_named(item),
    ensures
        run(depth, derived_impl(item), Input::Broken(e)).0 == Flow::Done(
            Val::Failure(Fault::Source(e)),
        ),
        run(depth, derived_impl(item), Input::Broken(e)).1.len() == 1,
{
    law_deserialize(depth, item, Input::Broken(e));
}

/// An error that the deserializer gives behind an input takes the place of the
/// value that was read. An error in what was read stays.
pub proof fn law_spoiled_input(depth: nat, item: SpecItem, input: Input, error: int)
    requires
        depth >= 4,
        derivable(item),
        well_named(item),
    ensures
        run(depth, derived_impl(item), Input::Spoiled { input: Box::new(input), error }) == (
            Flow::Done(spoiled(item_result(item, input), error)),
            item_trace(item, input),
        ),
{
    law_deserialize(depth, item, Input::Spoiled { input: Box::new(input), error });
}

/// The same holds of the visitor that reads the content of a variant, whether
/// it is asked for a unit, a sequence or a map.
pub proof fn law_failing_content(
    ident: Seq<char>,
    variant: SpecVariant,
    content: Input,
    error: int,
)
    ensures
        variant_result(ident, variant, Input::Broken(error)) == Val::Failure(
            Fault::Source(error),
        ),
        variant_result(ident, variant, Input::Spoiled { input: Box::new(content), error })
            == spoiled(variant_result(ident, variant, content), error),
{
}

// Consequences
// ------------

/// Each field has one entry, whose value is good, and there are no others:
/// `order[i]` is the place of the entry for field `i`.
pub open spec fn complete(
    keys: Seq<SpecLit>,
    entries: Seq<Entry>,
    values: Seq<int>,
    order: Seq<int>,
) -> bool {
    &&& values.len() == keys.len()
    &&& order.len() == keys.len()
    &&& forall|i: int|
        0 <= i < keys.len() ==> 0 <= #[trigger] order[i] < entries.len() && (entries[order[i]]
            == Entry { key: Ok(keys[i]->Str_0), value: Ok(values[i]) })
    &&& forall|p: int| 0 <= p < entries.len() ==> #[trigger] order.contains(p)
}

/// No two keys are the same.
pub open spec fn distinct_keys(keys: Seq<SpecLit>) -> bool {
    forall|i: int, j: int|
        0 <= i < j < keys.len() ==> #[trigger] keys[i] != #[trigger] keys[j]
}

/// The key of a field selects that field, where no other has the same key.
pub proof fn law_key_selects_field(keys: Seq<SpecLit>, i: nat)
    requires
        i < keys.len(),
        string_keys(keys),
        distinct_keys(keys),
    ensures
        key_index(keys, keys[i as int]->Str_0, 0) == Some(i),
{
    lemma_own_index(keys, i, 0);
}

proof fn lemma_own_index(keys: Seq<SpecLit>, i: nat, k: nat)
    requires
        k <= i < keys.len(),
        string_keys(keys),
        distinct_keys(keys),
    ensures
        key_index(keys, keys[i as int]->Str_0, k) == Some(i),
    decreases i - k,
{
    assert(keys[i as int] is Str);
    if k < i {
        assert(keys[k as int] != keys[i as int]);
        lemma_own_index(keys, i, (k + 1) as nat);
    }
}

/// The entries of a complete map are for the fields that they are meant for.
proof fn lemma_complete_entry(
    keys: Seq<SpecLit>,
    entries: Seq<Entry>,
    values: Seq<int>,
    order: Seq<int>,
    p: int,
) -> (i: nat)
    requires
        string_keys(keys),
        distinct_keys(keys),
        complete(keys, entries, values, order),
        0 <= p < entries.len(),
    ensures
        i < keys.len(),
        order[i as int] == p,
        entry_index(keys, entries[p]) == Some(i),
        entries[p].value == Ok::<int, int>(values[i as int]),
        entry_fault(keys, entries[p]) is None,
{
    assert(order.contains(p));
    let i = choose|i: int| 0 <= i < order.len() && #[trigger] order[i] == p;
    lemma_own_index(keys, i as nat, 0);
    i as nat
}

proof fn lemma_complete_fault(
    keys: Seq<SpecLit>,
    entries: Seq<Entry>,
    values: Seq<int>,
    order: Seq<int>,
    k: nat,
)
    requires
        string_keys(keys),
        distinct_keys(keys),
        complete(keys, entries, values, order),
        k <= entries.len(),
    ensures
        map_fault(keys, entries, k) is None,
    decreases entries.len() - k,
{
    if k < entries.len() {
        let i = lemma_complete_entry(keys, entries, values, order, k as int);
        lemma_complete_fault(keys, entries, values, order, (k + 1) as nat);
    }
}

proof fn lemma_complete_value(
    keys: Seq<SpecLit>,
    entries: Seq<Entry>,
    values: Seq<int>,
    order: Seq<int>,
    k: nat,
    i: nat,
)
    requires
        string_keys(keys),
        distinct_keys(keys),
        complete(keys, entries, values, order),
        i < keys.len(),
        order[i as int] < k <= entries.len(),
    ensures
        last_value(keys, entries, k, i) == Some(values[i as int]),
    decreases k,
{
    let j = lemma_complete_entry(keys, entries, values, order, k - 1);
    if j != i {
        assert(order[i as int] != k - 1) by {
            lemma_own_index(keys, i, 0);
        }
        lemma_complete_value(keys, entries, values, order, (k - 1) as nat, i);
    }
}

proof fn lemma_complete_missing(
    fields: Seq<SpecField>,
    entries: Seq<Entry>,
    missing: spec_fn(Seq<char>) -> Result<int, int>,
    k: nat,
)
    requires
        forall|i: nat|
            i < fields.len() ==> (#[trigger] field_value(fields, entries, missing, i)) is Ok,
    ensures
        missing_fault(fields, entries, missing, k) is None,
    decreases fields.len() - k,
{
    if k < fields.len() {
        lemma_complete_missing(fields, entries, missing, k + 1);
    }
}

pub proof fn lemma_good_items(items: Seq<Result<int, int>>, n: nat, k: nat)
    requires
        forall|i: int| 0 <= i < n && i < items.len() ==> (#[trigger] items[i]) is Ok,
    ensures
        seq_fault(items, n, k) == (if k < n && n > items.len() {
            Some(Fault::EndOfStream)
        } else {
            None
        }),
    decreases n - k,
{
    if k < n && k < items.len() {
        assert(items[k as int] is Ok);
        lemma_good_items(items, n, k + 1);
    }
}

/// A sequence of exactly the right length, without errors, is read as its
/// values in order.
pub proof fn law_complete_seq(path: Seq<Seq<char>>, values: Seq<int>)
    ensures
        tuple_result(
            path,
            values.len(),
            Input::List {
                items: Seq::new(values.len(), |i: int| Ok::<int, int>(values[i])),
                end: Ok(()),
            },
        ) == Val::Success(
            Box::new(
                Val::Tuple {
                    path,
                    args: Seq::new(values.len(), |i: int| Val::Leaf(values[i])),
                },
            ),
        ),
{
    let items = Seq::new(values.len(), |i: int| Ok::<int, int>(values[i]));
    lemma_good_items(items, values.len(), 0);
    assert(seq_values(items, values.len()) =~= Seq::new(
        values.len(),
        |i: int| Val::Leaf(values[i]),
    ));
}

/// A sequence that is too short, and otherwise without errors, is refused for
/// its end.
pub proof fn law_short_seq(
    path: Seq<Seq<char>>,
    n: nat,
    items: Seq<Result<int, int>>,
    end: Result<(), int>,
)
    requires
        items.len() < n,
        forall|i: int| 0 <= i < items.len() ==> (#[trigger] items[i]) is Ok,
    ensures
        tuple_result(path, n, Input::List { items, end }) == Val::Failure(Fault::EndOfStream),
{
    lemma_good_items(items, n, 0);
}

/// A map that has exactly one entry for each field, in whatever order, is read
/// as the struct with these values.
pub proof fn law_complete_map(
    path: Seq<Seq<char>>,
    fields: Seq<SpecField>,
    entries: Seq<Entry>,
    missing: spec_fn(Seq<char>) -> Result<int, int>,
    values: Seq<int>,
    order: Seq<int>,
)
    requires
        string_keys(field_keys(fields)),
        distinct_keys(field_keys(fields)),
        complete(field_keys(fields), entries, values, order),
    ensures
        record_result(path, fields, Input::Table { entries, missing, end: Ok(()) })
            == Val::Success(
            Box::new(
                Val::Record {
                    path,
                    fields: Seq::new(
                        fields.len(),
                        |i: int| (fields[i].name->0, Val::Leaf(values[i])),
                    ),
                },
            ),
        ),
{
    let keys = field_keys(fields);
    lemma_complete_fault(keys, entries, values, order, 0);
    assert forall|i: nat| i < fields.len() implies (#[trigger] field_value(
        fields,
        entries,
        missing,
        i,
    )) == Ok::<Val, int>(Val::Leaf(values[i as int])) by {
        assert(0 <= order[i as int] < entries.len());
        lemma_complete_value(keys, entries, values, order, entries.len(), i);
    }
    lemma_complete_missing(fields, entries, missing, 0);
    assert(map_values(fields, entries, missing) =~= Seq::new(
        fields.len(),
        |i: int| (fields[i].name->0, Val::Leaf(values[i])),
    ));
}

/// No two entries are for the same field.
pub open spec fn single_entries(keys: Seq<SpecLit>, entries: Seq<Entry>) -> bool {
    forall|p: int, q: int|
        0 <= p < q < entries.len() ==> entry_index(keys, #[trigger] entries[p]) != entry_index(
            keys,
            #[trigger] entries[q],
        )
}

/// No entry is in error.
pub open spec fn good_entries(keys: Seq<SpecLit>, entries: Seq<Entry>) -> bool {
    forall|p: int| 0 <= p < entries.len() ==> entry_fault(keys, #[trigger] entries[p]) is None
}

proof fn lemma_good_entries(keys: Seq<SpecLit>, entries: Seq<Entry>, k: nat)
    requires
        good_entries(keys, entries),
    ensures
        map_fault(keys, entries, k) is None,
    decreases entries.len() - k,
{
    if k < entries.len() {
        assert(entry_fault(keys, entries[k as int]) is None);
        lemma_good_entries(keys, entries, k + 1);
    }
}

/// The one entry for a field gives its value.
proof fn lemma_single_value(keys: Seq<SpecLit>, entries: Seq<Entry>, k: nat, i: nat, p: int)
    requires
        single_entries(keys, entries),
        0 <= p < k <= entries.len(),
        entry_index(keys, entries[p]) == Some(i),
    ensures
        last_value(keys, entries, k, i) == Some(entries[p].value->Ok_0),
    decreases k,
{
    if p < k - 1 {
        assert(entry_index(keys, entries[p]) != entry_index(keys, entries[k - 1]));
        lemma_single_value(keys, entries, (k - 1) as nat, i, p);
    }
}

proof fn lemma_no_value(keys: Seq<SpecLit>, entries: Seq<Entry>, k: nat, i: nat)
    requires
        k <= entries.len(),
        forall|p: int|
            0 <= p < entries.len() ==> entry_index(keys, #[trigger] entries[p]) != Some(i),
    ensures
        last_value(keys, entries, k, i) is None,
    decreases k,
{
    if k > 0 {
        assert(entry_index(keys, entries[k - 1]) != Some(i));
        lemma_no_value(keys, entries, (k - 1) as nat, i);
    }
}

/// A field has the same value in two maps of the same entries.
proof fn lemma_same_value(keys: Seq<SpecLit>, a: Seq<Entry>, b: Seq<Entry>, i: nat)
    requires
        single_entries(keys, a),
        single_entries(keys, b),
        forall|e: Entry| #[trigger] a.contains(e) <==> b.contains(e),
    ensures
        last_value(keys, a, a.len(), i) == last_value(keys, b, b.len(), i),
{
    if exists|p: int| 0 <= p < a.len() && entry_index(keys, #[trigger] a[p]) == Some(i) {
        let p = choose|p: int| 0 <= p < a.len() && entry_index(keys, #[trigger] a[p]) == Some(i);
        assert(a.contains(a[p]));
        let q = choose|q: int| 0 <= q < b.len() && #[trigger] b[q] == a[p];
        lemma_single_value(keys, a, a.len(), i, p);
        lemma_single_value(keys, b, b.len(), i, q);
    } else {
        assert forall|q: int| 0 <= q < b.len() implies entry_index(keys, #[trigger] b[q]) != Some(
            i,
        ) by {
            assert(b.contains(b[q]));
            assert(a.contains(b[q]));
            let p = choose|p: int| 0 <= p < a.len() && #[trigger] a[p] == b[q];
            assert(entry_index(keys, a[p]) != Some(i));
        }
        lemma_no_value(keys, a, a.len(), i);
        lemma_no_value(keys, b, b.len(), i);
    }
}

proof fn lemma_same_missing(
    fields: Seq<SpecField>,
    a: Seq<Entry>,
    b: Seq<Entry>,
    missing: spec_fn(Seq<char>) -> Result<int, int>,
    k: nat,
)
    requires
        forall|i: nat|
            i < fields.len() ==> #[trigger] field_value(fields, a, missing, i) == field_value(
                fields,
                b,
                missing,
                i,
            ),
    ensures
        missing_fault(fields, a, missing, k) == missing_fault(fields, b, missing, k),
    decreases fields.len() - k,
{
    if k < fields.len() {
        assert(field_value(fields, a, missing, k) == field_value(fields, b, missing, k));
        lemma_same_missing(fields, a, b, missing, k + 1);
    }
}

/// The order of the entries does not matter, complete or not, where none is in
/// error and no two are for the same field.
pub proof fn law_entry_order(
    path: Seq<Seq<char>>,
    fields: Seq<SpecField>,
    a: Seq<Entry>,
    b: Seq<Entry>,
    missing: spec_fn(Seq<char>) -> Result<int, int>,
    end: Result<(), int>,
)
    requires
        good_entries(field_keys(fields), a),
        single_entries(field_keys(fields), a),
        single_entries(field_keys(fields), b),
        forall|e: Entry| #[trigger] a.contains(e) <==> b.contains(e),
    ensures
        record_result(path, fields, Input::Table { entries: a, missing, end }) == record_result(
            path,
            fields,
            Input::Table { entries: b, missing, end },
        ),
{
    let keys = field_keys(fields);
    assert forall|q: int| 0 <= q < b.len() implies entry_fault(keys, #[trigger] b[q]) is None by {
        assert(b.contains(b[q]));
        assert(a.contains(b[q]));
        let p = choose|p: int| 0 <= p < a.len() && #[trigger] a[p] == b[q];
        assert(entry_fault(keys, a[p]) is None);
    }
    lemma_good_entries(keys, a, 0);
    lemma_good_entries(keys, b, 0);
    assert forall|i: nat| i < fields.len() implies #[trigger] field_value(fields, a, missing, i)
        == field_value(fields, b, missing, i) by {
        lemma_same_value(keys, a, b, i);
    }
    lemma_same_missing(fields, a, b, missing, 0);
    assert(map_values(fields, a, missing) =~= map_values(fields, b, missing)) by {
        assert forall|i: int| 0 <= i < fields.len() implies map_values(fields, a, missing)[i]
            == map_values(fields, b, missing)[i] by {
            assert(field_value(fields, a, missing, i as nat) == field_value(
                fields,
                b,
                missing,
                i as nat,
            ));
        }
    }
}

/// A map without entries is read as the struct of defaults, where every field
/// has one.
pub proof fn law_empty_map(
    path: Seq<Seq<char>>,
    fields: Seq<SpecField>,
    missing: spec_fn(Seq<char>) -> Result<int, int>,
)
    requires
        forall|i: int| 0 <= i < fields.len() ==> (#[trigger] fields[i]).default,
    ensures
        record_result(path, fields, Input::Table { entries: seq![], missing, end: Ok(()) })
            == Val::Success(
            Box::new(
                Val::Record {
                    path,
                    fields: Seq::new(
                        fields.len(),
                        |i: int| (fields[i].name->0, Val::Default),
                    ),
                },
            ),
        ),
{
    let entries = Seq::<Entry>::empty();
    assert forall|i: nat| i < fields.len() implies (#[trigger] field_value(
        fields,
        entries,
        missing,
        i,
    )) == Ok::<Val, int>(Val::Default) by {
        assert(fields[i as int].default);
    }
    lemma_complete_missing(fields, entries, missing, 0);
    assert(map_values(fields, entries, missing) =~= Seq::new(
        fields.len(),
        |i: int| (fields[i].name->0, Val::Default),
    ));
}

/// A key that no field has is refused, with its name, whatever else the map
/// holds behind it.
pub proof fn law_unknown_key(
    path: Seq<Seq<char>>,
    fields: Seq<SpecField>,
    entries: Seq<Entry>,
    missing: spec_fn(Seq<char>) -> Result<int, int>,
    end: Result<(), int>,
    name: Seq<char>,
)
    requires
        entries.len() > 0,
        entries[0].key == Ok::<Seq<char>, int>(name),
        !field_keys(fields).contains(SpecLit::Str(name)),
    ensures
        record_result(path, fields, Input::Table { entries, missing, end }) == Val::Failure(
            Fault::UnknownField(name),
        ),
{
    lemma_no_key(field_keys(fields), name, 0);
}

/// A variant's name that the enum does not have is refused, with the name.
pub proof fn law_unknown_variant(
    ident: Seq<char>,
    variants: Seq<SpecVariant>,
    name: Seq<char>,
    content: Input,
)
    requires
        forall|i: int| 0 <= i < variants.len() ==> (#[trigger] variants[i]).name != name,
    ensures
        enum_result(
            ident,
            variants,
            Input::Variant { name: Ok(name), content: Box::new(content) },
        ) == Val::Failure(Fault::UnknownField(name)),
{
    let keys = variant_keys(variants);
    assert forall|i: int| 0 <= i < keys.len() implies (#[trigger] keys[i]) != SpecLit::Str(
        name,
    ) by {
        assert(variants[i].name != name);
    }
    lemma_no_key(keys, name, 0);
}

pub proof fn lemma_no_key(keys: Seq<SpecLit>, name: Seq<char>, k: nat)
    requires
        !keys.contains(SpecLit::Str(name)),
    ensures
        key_index(keys, name, k) is None,
    decreases keys.len() - k,
{
    if k < keys.len() {
        assert(keys[k as int] != SpecLit::Str(name));
        lemma_no_key(keys, name, k + 1);
    }
}

// The implementation
// ------------------

/// The parameters of the implementation are those of the item: only the bounds
/// of the type parameters grow, each by `::serde::de::Deserialize`.
pub proof fn law_impl_generics(g: SpecGenerics, i: int)
    requires
        0 <= i < g.ty_params.len(),
    ensures
        impl_generics(g).lifetimes == g.lifetimes,
        impl_generics(g).where_clause == g.where_clause,
        impl_generics(g).ty_params.len() == g.ty_params.len(),
        impl_generics(g).ty_params[i].ident == g.ty_params[i].ident,
        impl_generics(g).ty_params[i].bounds.drop_last() == g.ty_params[i].bounds,
        impl_generics(g).ty_params[i].bounds.last() == path_ty(serde_path("Deserialize"@)),
{
    let p = impl_generics(g).ty_params[i];
    assert(p.bounds.drop_last() =~= g.ty_params[i].bounds);
}

/// The visitor has one field for each type parameter, and its value gives each
/// of these fields a value.
pub proof fn law_visitor_fields(g: SpecGenerics)
    ensures
        visitor_decl(g)->tys.len() == g.ty_params.len(),
        match visitor_expr(g) {
            SpecExpr::Call { args, .. } => args.len() == g.ty_params.len(),
            _ => g.ty_params.len() == 0,
        },
{
}

} // verus!
