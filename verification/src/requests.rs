//! What deserialization asks for: the calls that an input leads to, in order.
use vstd::prelude::*;

use crate::ast::{
    all_unnamed, field_keys, SpecField, SpecItem, SpecItemKind, SpecVariant, SpecVariantKind,
};
use crate::code::SpecLit;
use crate::meaning::{visible, Entry, Fault, Input, Party, Request, Trace};
use crate::outcome::{
    entry_index, field_value, key_index, last_value, map_fault, missing_fault, seq_fault,
};
use crate::shape::variant_keys;

verus! {

/// A call of a visitor's method without a string.
pub open spec fn asked(ident: Seq<char>) -> Request {
    Request { party: Party::Visitor, ident, text: None }
}

/// `missing_field`, for this key.
pub open spec fn asked_for(key: Seq<char>) -> Request {
    Request { party: Party::Visitor, ident: "missing_field"@, text: Some(key) }
}

/// A call of a deserializer's method, which is told the name of the type.
pub open spec fn told(ident: Seq<char>, name: Seq<char>) -> Request {
    Request { party: Party::Deserializer, ident, text: Some(name) }
}

/// The one thing that is asked of a key's deserializer.
pub open spec fn key_request() -> Request {
    Request { party: Party::Deserializer, ident: "visit"@, text: None }
}

/// `end`, where reading has come to it.
pub open spec fn ending(fault: Option<Fault>) -> Trace {
    if fault is None {
        seq![asked("end"@)]
    } else {
        seq![]
    }
}

// Sequences
// ---------

/// One `visit` for each value from index `k` up to index `n`, up to the first
/// that is in error or not there.
pub open spec fn visits(items: Seq<Result<int, int>>, n: nat, k: nat) -> Trace
    decreases n - k,
{
    if k >= n {
        seq![]
    } else if k >= items.len() || items[k as int] is Err {
        seq![asked("visit"@)]
    } else {
        seq![asked("visit"@)] + visits(items, n, k + 1)
    }
}

/// Reading `n` values from a sequence: `visit` for each, then `end`.
pub open spec fn seq_trace(items: Seq<Result<int, int>>, n: nat) -> Trace {
    visits(items, n, 0) + ending(seq_fault(items, n, 0))
}

// Maps
// ----

/// `visit_key` and `visit_value` in turn, for the entries from index `k` on, up
/// to the first error, or to a last `visit_key` that finds no more entries.
pub open spec fn entries_trace(keys: Seq<SpecLit>, entries: Seq<Entry>, k: nat) -> Trace
    decreases entries.len() - k,
{
    if k >= entries.len() || entry_index(keys, entries[k as int]) is None {
        seq![asked("visit_key"@)]
    } else if entries[k as int].value is Err {
        seq![asked("visit_key"@), asked("visit_value"@)]
    } else {
        seq![asked("visit_key"@), asked("visit_value"@)] + entries_trace(keys, entries, k + 1)
    }
}

/// `missing_field` for field `i`, where it has neither an entry nor a default.
pub open spec fn missing_request(
    fields: Seq<SpecField>,
    entries: Seq<Entry>,
    i: nat,
) -> Trace {
    let keys = field_keys(fields);
    if last_value(keys, entries, entries.len(), i) is None && !fields[i as int].default {
        seq![asked_for(keys[i as int]->Str_0)]
    } else {
        seq![]
    }
}

/// `missing_field` for the fields from index `k` on, in the order of their
/// declaration, up to the first that is answered by an error.
pub open spec fn missing_trace(
    fields: Seq<SpecField>,
    entries: Seq<Entry>,
    missing: spec_fn(Seq<char>) -> Result<int, int>,
    k: nat,
) -> Trace
    decreases fields.len() - k,
{
    if k >= fields.len() {
        seq![]
    } else if field_value(fields, entries, missing, k) is Err {
        missing_request(fields, entries, k)
    } else {
        missing_request(fields, entries, k) + missing_trace(fields, entries, missing, k + 1)
    }
}

/// Reading the fields from a map: its entries, then what is missing, then `end`.
pub open spec fn map_trace(
    fields: Seq<SpecField>,
    entries: Seq<Entry>,
    missing: spec_fn(Seq<char>) -> Result<int, int>,
) -> Trace {
    let keys = field_keys(fields);
    if map_fault(keys, entries, 0) is Some {
        entries_trace(keys, entries, 0)
    } else {
        entries_trace(keys, entries, 0) + (missing_trace(fields, entries, missing, 0) + ending(
            missing_fault(fields, entries, missing, 0),
        ))
    }
}

// Items
// -----

/// What the visitor of a unit struct asks for.
pub open spec fn unit_struct_trace(input: Input) -> Trace {
    match visible(input) {
        Input::List { .. } => seq![asked("end"@)],
        _ => seq![],
    }
}

/// What a visitor that reads `n` unnamed fields asks for.
pub open spec fn tuple_trace(n: nat, input: Input) -> Trace {
    match visible(input) {
        Input::List { items, .. } => seq_trace(items, n),
        _ => seq![],
    }
}

/// What a visitor that reads named fields asks for.
pub open spec fn record_trace(fields: Seq<SpecField>, input: Input) -> Trace {
    match visible(input) {
        Input::Table { entries, missing, .. } => map_trace(fields, entries, missing),
        _ => seq![],
    }
}

/// Reading the content of a variant: one call that says what form it has, and
/// what its visitor then asks for.
pub open spec fn variant_trace(variant: SpecVariant, content: Input) -> Trace {
    match variant.kind {
        SpecVariantKind::Tuple(n) => if n > 0 {
            seq![asked("visit_seq"@)] + tuple_trace(n, content)
        } else {
            seq![asked("visit_unit"@)]
        },
        SpecVariantKind::Struct(fields) => seq![asked("visit_map"@)] + record_trace(
            fields,
            content,
        ),
    }
}

/// What the visitor of an enum asks for: the variant, then its content.
pub open spec fn enum_trace(variants: Seq<SpecVariant>, input: Input) -> Trace {
    match visible(input) {
        Input::Variant { name: Err(_), .. } => seq![asked("visit_variant"@)],
        Input::Variant { name: Ok(name), content } => match key_index(
            variant_keys(variants),
            name,
            0,
        ) {
            Some(i) => seq![asked("visit_variant"@)] + variant_trace(
                variants[i as int],
                *content,
            ),
            None => seq![asked("visit_variant"@)],
        },
        _ => seq![],
    }
}

/// Reading an item: one call of the deserializer, which is told the type's form
/// and name, and what the visitor then asks for.
pub open spec fn item_trace(item: SpecItem, input: Input) -> Trace {
    match item.node {
        SpecItemKind::Struct(fields, _) => if fields.len() == 0 {
            seq![told("visit_named_unit"@, item.ident)] + unit_struct_trace(input)
        } else if all_unnamed(fields) {
            seq![told("visit_named_seq"@, item.ident)] + tuple_trace(fields.len(), input)
        } else {
            seq![told("visit_named_map"@, item.ident)] + record_trace(fields, input)
        },
        SpecItemKind::Enum(variants, _) => seq![told("visit_enum"@, item.ident)] + enum_trace(
            variants,
            input,
        ),
        SpecItemKind::Other => seq![],
    }
}

} // verus!
