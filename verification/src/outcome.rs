//! What deserialization amounts to: the value, or the error, that an input
//! stands for.
use vstd::prelude::*;

use crate::ast::{
    all_unnamed, field_keys, SpecField, SpecItem, SpecItemKind, SpecVariant, SpecVariantKind,
};
use crate::code::{SpecGenerics, SpecLit};
use crate::meaning::{delivered, is_prelude_fn, visible, Entry, Fault, Input, Val};
use crate::names::field_idents;
use crate::shape::{field_path, variant_keys};
use crate::tree::ident_path;

verus! {

// Sequences
// ---------

/// The first fault in reading the values from index `k` up to index `n`: one
/// of a value's own, or the end of the sequence.
pub open spec fn seq_fault(items: Seq<Result<int, int>>, n: nat, k: nat) -> Option<Fault>
    decreases n - k,
{
    if k >= n {
        None
    } else if k >= items.len() {
        Some(Fault::EndOfStream)
    } else {
        match items[k as int] {
            Err(e) => Some(Fault::Source(e)),
            Ok(_) => seq_fault(items, n, k + 1),
        }
    }
}

/// The first `n` values.
pub open spec fn seq_values(items: Seq<Result<int, int>>, n: nat) -> Seq<Val> {
    Seq::new(n, |i: int| Val::Leaf(items[i]->Ok_0))
}

/// A value that is complete, if the visitor agrees that the input has ended.
pub open spec fn ended(end: Result<(), int>, v: Val) -> Val {
    match end {
        Ok(_) => Val::Success(Box::new(v)),
        Err(e) => Val::Failure(Fault::Source(e)),
    }
}

/// What a sequence stands for, read as `n` values for the constructor `path`.
pub open spec fn seq_result(
    path: Seq<Seq<char>>,
    n: nat,
    items: Seq<Result<int, int>>,
    end: Result<(), int>,
) -> Val {
    match seq_fault(items, n, 0) {
        Some(f) => Val::Failure(f),
        None => ended(end, Val::Tuple { path, args: seq_values(items, n) }),
    }
}

// Names
// -----

/// The index of the first key, from index `k` on, that is this name.
pub open spec fn key_index(keys: Seq<SpecLit>, name: Seq<char>, k: nat) -> Option<nat>
    decreases keys.len() - k,
{
    if k >= keys.len() {
        None
    } else if keys[k as int] == SpecLit::Str(name) {
        Some(k)
    } else {
        key_index(keys, name, k + 1)
    }
}

/// The value of `__Field::__fieldi`.
pub open spec fn field_val(i: nat) -> Val {
    Val::Tuple { path: field_path(i).segments, args: seq![] }
}

/// What a name is read as, by the keys from index `k` on: the first field or
/// variant that it is the key of.
pub open spec fn key_val(keys: Seq<SpecLit>, name: Seq<char>, k: nat) -> Val {
    match key_index(keys, name, k) {
        Some(i) => Val::Success(Box::new(field_val(i))),
        None => Val::Failure(Fault::UnknownField(name)),
    }
}

/// Every key is a string.
pub open spec fn string_keys(keys: Seq<SpecLit>) -> bool {
    forall|i: int| 0 <= i < keys.len() ==> (#[trigger] keys[i]) is Str
}

// Maps
// ----

/// The index of the field that an entry is for.
pub open spec fn entry_index(keys: Seq<SpecLit>, entry: Entry) -> Option<nat> {
    match entry.key {
        Ok(name) => key_index(keys, name, 0),
        Err(_) => None,
    }
}

/// The fault of an entry: a key that fails or that no field has, or a value
/// that fails.
pub open spec fn entry_fault(keys: Seq<SpecLit>, entry: Entry) -> Option<Fault> {
    match (entry.key, entry.value) {
        (Err(e), _) => Some(Fault::Source(e)),
        (Ok(name), _) if key_index(keys, name, 0) is None => Some(Fault::UnknownField(name)),
        (Ok(_), Err(e)) => Some(Fault::Source(e)),
        (Ok(_), Ok(_)) => None,
    }
}

/// The first fault in the entries from index `k` on.
pub open spec fn map_fault(keys: Seq<SpecLit>, entries: Seq<Entry>, k: nat) -> Option<Fault>
    decreases entries.len() - k,
{
    if k >= entries.len() {
        None
    } else if entry_fault(keys, entries[k as int]) is Some {
        entry_fault(keys, entries[k as int])
    } else {
        map_fault(keys, entries, k + 1)
    }
}

/// The value of the last of the first `k` entries that is for field `i`.
pub open spec fn last_value(
    keys: Seq<SpecLit>,
    entries: Seq<Entry>,
    k: nat,
    i: nat,
) -> Option<int>
    decreases k,
{
    if k == 0 {
        None
    } else if entry_index(keys, entries[k - 1]) == Some(i) {
        Some(entries[k - 1].value->Ok_0)
    } else {
        last_value(keys, entries, (k - 1) as nat, i)
    }
}

/// The value of field `i`: that of the last entry for it, else its default
/// where it has one, else what the visitor replies for a missing field.
pub open spec fn field_value(
    fields: Seq<SpecField>,
    entries: Seq<Entry>,
    missing: spec_fn(Seq<char>) -> Result<int, int>,
    i: nat,
) -> Result<Val, int> {
    let keys = field_keys(fields);
    match last_value(keys, entries, entries.len(), i) {
        Some(v) => Ok(Val::Leaf(v)),
        None => if fields[i as int].default {
            Ok(Val::Default)
        } else {
            match missing(keys[i as int]->Str_0) {
                Ok(v) => Ok(Val::Leaf(v)),
                Err(e) => Err(e),
            }
        },
    }
}

/// The error for the first missing field, from index `k` on, that has none of
/// these values.
pub open spec fn missing_fault(
    fields: Seq<SpecField>,
    entries: Seq<Entry>,
    missing: spec_fn(Seq<char>) -> Result<int, int>,
    k: nat,
) -> Option<Fault>
    decreases fields.len() - k,
{
    if k >= fields.len() {
        None
    } else {
        match field_value(fields, entries, missing, k) {
            Err(e) => Some(Fault::Source(e)),
            Ok(_) => missing_fault(fields, entries, missing, k + 1),
        }
    }
}

/// The fields with their values.
pub open spec fn map_values(
    fields: Seq<SpecField>,
    entries: Seq<Entry>,
    missing: spec_fn(Seq<char>) -> Result<int, int>,
) -> Seq<(Seq<char>, Val)> {
    Seq::new(
        fields.len(),
        |i: int|
            (fields[i].name->0, field_value(fields, entries, missing, i as nat)->Ok_0),
    )
}

/// What a map stands for, read as the fields of the struct or variant `path`.
pub open spec fn map_result(
    path: Seq<Seq<char>>,
    fields: Seq<SpecField>,
    entries: Seq<Entry>,
    missing: spec_fn(Seq<char>) -> Result<int, int>,
    end: Result<(), int>,
) -> Val {
    match map_fault(field_keys(fields), entries, 0) {
        Some(f) => Val::Failure(f),
        None => match missing_fault(fields, entries, missing, 0) {
            Some(f) => Val::Failure(f),
            None => ended(
                end,
                Val::Record { path, fields: map_values(fields, entries, missing) },
            ),
        },
    }
}

// Keys
// ----

/// What an input stands for, read as the name of a field or variant.
pub open spec fn key_result(keys: Seq<SpecLit>, input: Input) -> Val {
    delivered(
        input,
        match visible(input) {
            Input::Str(name) => key_val(keys, name, 0),
            _ => Val::Failure(Fault::Mismatch),
        },
    )
}

// Items
// -----

/// The answer to an input of a kind that does not fit.
pub open spec fn mismatch() -> Val {
    Val::Failure(Fault::Mismatch)
}

/// The unit struct that an input is read as, where reading it does not fail.
pub open spec fn unit_struct_value(ident: Seq<char>, input: Input) -> Val {
    let v = Val::Tuple { path: seq![ident], args: seq![] };
    match input {
        Input::Unit => Val::Success(Box::new(v)),
        Input::List { end, .. } => ended(end, v),
        _ => mismatch(),
    }
}

/// What an input stands for, read as a unit struct.
pub open spec fn unit_struct_result(ident: Seq<char>, input: Input) -> Val {
    delivered(input, unit_struct_value(ident, visible(input)))
}

/// The `n` unnamed fields of `path` that an input is read as, where reading it
/// does not fail.
pub open spec fn tuple_value(path: Seq<Seq<char>>, n: nat, input: Input) -> Val {
    match input {
        Input::List { items, end } => seq_result(path, n, items, end),
        _ => mismatch(),
    }
}

/// What an input stands for, read as `n` unnamed fields of `path`.
pub open spec fn tuple_result(path: Seq<Seq<char>>, n: nat, input: Input) -> Val {
    delivered(input, tuple_value(path, n, visible(input)))
}

/// The named fields of `path` that an input is read as, where reading it does
/// not fail.
pub open spec fn record_value(
    path: Seq<Seq<char>>,
    fields: Seq<SpecField>,
    input: Input,
) -> Val {
    match input {
        Input::Table { entries, missing, end } => map_result(path, fields, entries, missing, end),
        _ => mismatch(),
    }
}

/// What an input stands for, read as the named fields of `path`.
pub open spec fn record_result(
    path: Seq<Seq<char>>,
    fields: Seq<SpecField>,
    input: Input,
) -> Val {
    delivered(input, record_value(path, fields, visible(input)))
}

/// What an input stands for, read as a struct.
pub open spec fn struct_result(ident: Seq<char>, fields: Seq<SpecField>, input: Input) -> Val {
    if fields.len() == 0 {
        unit_struct_result(ident, input)
    } else if all_unnamed(fields) {
        tuple_result(seq![ident], fields.len(), input)
    } else {
        record_result(seq![ident], fields, input)
    }
}

/// What the content of a unit variant stands for.
pub open spec fn unit_variant_result(path: Seq<Seq<char>>, content: Input) -> Val {
    delivered(
        content,
        match visible(content) {
            Input::Unit => Val::Success(Box::new(Val::Tuple { path, args: seq![] })),
            _ => mismatch(),
        },
    )
}

/// What the content of a variant stands for.
pub open spec fn variant_result(ident: Seq<char>, variant: SpecVariant, content: Input) -> Val {
    let path = seq![ident, variant.name];
    match variant.kind {
        SpecVariantKind::Tuple(n) => if n > 0 {
            tuple_result(path, n, content)
        } else {
            unit_variant_result(path, content)
        },
        SpecVariantKind::Struct(fields) => record_result(path, fields, content),
    }
}

/// The enum that an input is read as, where reading it does not fail: the first
/// variant of its name.
pub open spec fn enum_value(
    ident: Seq<char>,
    variants: Seq<SpecVariant>,
    input: Input,
) -> Val {
    match input {
        Input::Variant { name: Err(e), .. } => Val::Failure(Fault::Source(e)),
        Input::Variant { name: Ok(name), content } => match key_index(
            variant_keys(variants),
            name,
            0,
        ) {
            Some(i) => variant_result(ident, variants[i as int], *content),
            None => Val::Failure(Fault::UnknownField(name)),
        },
        _ => mismatch(),
    }
}

/// What an input stands for, read as an enum.
pub open spec fn enum_result(
    ident: Seq<char>,
    variants: Seq<SpecVariant>,
    input: Input,
) -> Val {
    delivered(input, enum_value(ident, variants, visible(input)))
}

/// What an input stands for, read as the type that an item declares.
pub open spec fn item_result(item: SpecItem, input: Input) -> Val {
    match item.node {
        SpecItemKind::Struct(fields, _) => struct_result(item.ident, fields, input),
        SpecItemKind::Enum(variants, _) => enum_result(item.ident, variants, input),
        SpecItemKind::Other => mismatch(),
    }
}

// What the names of an item must not be
// -------------------------------------

/// A name that a unit struct can have. All others stand for something else where
/// the derived code writes the struct's name: a type parameter, a parameter, the
/// visitor or a variant of the prelude. (`None` is left out because evaluation
/// takes it for the option's.)
pub open spec fn unit_name(ident: Seq<char>) -> bool {
    &&& ident != "__D"@
    &&& ident != "E"@
    &&& ident != "V"@
    &&& ident != "__Visitor"@
    &&& ident != "deserializer"@
    &&& ident != "visitor"@
    &&& ident != "Ok"@
    &&& ident != "None"@
}

/// A name that a struct of `n` unnamed fields can have. Besides those things,
/// the others stand for a variable, or hide a variant that the code uses.
pub open spec fn tuple_name(ident: Seq<char>, n: nat) -> bool {
    &&& ident != "__D"@
    &&& ident != "__V"@
    &&& ident != "__Visitor"@
    &&& ident != "deserializer"@
    &&& ident != "visitor"@
    &&& ident != "value"@
    &&& !field_idents(n).contains(ident)
    &&& !is_prelude_fn(ident_path(ident))
    &&& ident != "None"@
}

/// A name that a struct with named fields, or an enum, can have. It is a type's
/// name alone, so it clashes with those of types only.
pub open spec fn record_name(ident: Seq<char>) -> bool {
    &&& ident != "__D"@
    &&& ident != "__V"@
    &&& ident != "__Visitor"@
    &&& ident != "__Field"@
    &&& ident != "str"@
}

/// Type parameters that clash neither with the item's own name nor with that of
/// a type or type parameter of the derived code.
pub open spec fn tuple_params(ident: Seq<char>, g: SpecGenerics) -> bool {
    forall|i: int|
        0 <= i < g.ty_params.len() ==> {
            let p = (#[trigger] g.ty_params[i]).ident;
            p != ident && p != "__D"@ && p != "__V"@ && p != "__Visitor"@
        }
}

/// The same where the derived code also declares `__Field` and reads a `str`.
pub open spec fn record_params(ident: Seq<char>, g: SpecGenerics) -> bool {
    tuple_params(ident, g) && forall|i: int|
        0 <= i < g.ty_params.len() ==> (#[trigger] g.ty_params[i]).ident != "__Field"@
            && g.ty_params[i].ident != "str"@
}

/// The keys of all fields of a variant are strings.
pub open spec fn variant_string_keys(variant: SpecVariant) -> bool {
    variant.kind matches SpecVariantKind::Struct(fields) ==> string_keys(field_keys(fields))
}

/// An item in whose derived code every name stands for what evaluation takes it
/// for, and where each field that is renamed is so to a string. This says
/// nothing of types: that the code type-checks, which also takes fields of
/// types that can be deserialized, is supposed wherever it is evaluated.
pub open spec fn well_named(item: SpecItem) -> bool {
    match item.node {
        SpecItemKind::Struct(fields, g) => if fields.len() == 0 {
            unit_name(item.ident)
        } else if all_unnamed(fields) {
            tuple_name(item.ident, fields.len()) && tuple_params(item.ident, g)
        } else {
            record_name(item.ident) && record_params(item.ident, g) && string_keys(
                field_keys(fields),
            )
        },
        SpecItemKind::Enum(variants, g) => {
            &&& record_name(item.ident)
            &&& record_params(item.ident, g)
            &&& forall|i: int|
                0 <= i < variants.len() ==> #[trigger] variant_string_keys(variants[i])
        },
        SpecItemKind::Other => true,
    }
}

} // verus!
