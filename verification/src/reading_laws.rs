//! The laws of reading, value by value: what running derived code gives, for a
//! struct and for the content of each variant alike.
use vstd::prelude::*;

use crate::ast::{
    all_named, all_unnamed, derivable, field_keys, SpecField, SpecItem, SpecItemKind, SpecVariant,
    SpecVariantKind,
};
use crate::code::SpecLit;
use crate::laws::{law_deserialize, lemma_good_items, lemma_no_key};
use crate::meaning::{run, Entry, Fault, Flow, Input, Val};
use crate::outcome::{
    entry_fault, entry_index, field_value, key_index, last_value, map_fault, map_values,
    missing_fault, record_result, seq_fault, seq_values, tuple_result, variant_result, well_named,
};
use crate::shape::{derived_impl, variant_keys};

verus! {

// Places
// ------

/// What holds `content`, where `k` is the variant that it is the content of, or
/// the item itself is read from it.
pub open spec fn input_at(item: SpecItem, k: Option<int>, content: Input) -> Input {
    match k {
        None => content,
        Some(k) => Input::Variant {
            name: Ok(item.node->Enum_0[k].name),
            content: Box::new(content),
        },
    }
}

/// What is constructed there.
pub open spec fn path_at(item: SpecItem, k: Option<int>) -> Seq<Seq<char>> {
    match k {
        None => seq![item.ident],
        Some(k) => seq![item.ident, item.node->Enum_0[k].name],
    }
}

/// The `k`-th variant, which no other before it has the name of.
pub open spec fn is_variant(item: SpecItem, k: int) -> bool {
    &&& item.node matches SpecItemKind::Enum(variants, _)
    &&& 0 <= k < variants.len()
    &&& forall|j: int| 0 <= j < k ==> (#[trigger] variants[j]).name != variants[k].name
}

/// These named fields are read there.
pub open spec fn has_fields(item: SpecItem, k: Option<int>, fields: Seq<SpecField>) -> bool {
    match k {
        None => {
            &&& item.node matches SpecItemKind::Struct(f, _)
            &&& f == fields
            &&& fields.len() > 0
            &&& all_named(fields)
        },
        Some(k) => is_variant(item, k) && item.node->Enum_0[k].kind == SpecVariantKind::Struct(
            fields,
        ),
    }
}

/// As many values without names are read there.
pub open spec fn has_values(item: SpecItem, k: Option<int>, n: nat) -> bool {
    &&& n > 0
    &&& match k {
        None => {
            &&& item.node matches SpecItemKind::Struct(f, _)
            &&& f.len() == n
            &&& all_unnamed(f)
        },
        Some(k) => is_variant(item, k) && item.node->Enum_0[k].kind == SpecVariantKind::Tuple(n),
    }
}

/// Running derived code on such an input.
pub open spec fn reading(depth: nat, item: SpecItem, k: Option<int>, content: Input) -> Flow {
    run(depth, derived_impl(item), input_at(item, k, content)).0
}

/// A value that was read.
pub open spec fn gives(f: Flow, v: Val) -> bool {
    f == Flow::Done(Val::Success(Box::new(v)))
}

/// Reading that has failed.
pub open spec fn fails(f: Flow, fault: Fault) -> bool {
    f == Flow::Done(Val::Failure(fault))
}

proof fn lemma_variant_place(depth: nat, item: SpecItem, k: int, content: Input)
    requires
        depth >= 4,
        derivable(item),
        well_named(item),
        is_variant(item, k),
    ensures
        reading(depth, item, Some(k), content) == Flow::Done(
            variant_result(item.ident, item.node->Enum_0[k], content),
        ),
{
    let variants = item.node->Enum_0;
    law_deserialize(depth, item, input_at(item, Some(k), content));
    lemma_first_index(variants, k, 0);
}

pub proof fn lemma_first_index(variants: Seq<SpecVariant>, k: int, j: nat)
    requires
        j <= k < variants.len(),
        forall|i: int| 0 <= i < k ==> (#[trigger] variants[i]).name != variants[k].name,
    ensures
        key_index(variant_keys(variants), variants[k].name, j) == Some(k as nat),
    decreases k - j,
{
    if j < k {
        assert(variants[j as int].name != variants[k].name);
        lemma_first_index(variants, k, j + 1);
    }
}

proof fn lemma_fields_place(
    depth: nat,
    item: SpecItem,
    k: Option<int>,
    fields: Seq<SpecField>,
    content: Input,
)
    requires
        depth >= 4,
        derivable(item),
        well_named(item),
        has_fields(item, k, fields),
    ensures
        reading(depth, item, k, content) == Flow::Done(
            record_result(path_at(item, k), fields, content),
        ),
{
    match k {
        None => {
            law_deserialize(depth, item, content);
            assert(fields[0].name is Some);
        },
        Some(k) => {
            lemma_variant_place(depth, item, k, content);
        },
    }
}

proof fn lemma_values_place(depth: nat, item: SpecItem, k: Option<int>, n: nat, content: Input)
    requires
        depth >= 4,
        derivable(item),
        well_named(item),
        has_values(item, k, n),
    ensures
        reading(depth, item, k, content) == Flow::Done(
            tuple_result(path_at(item, k), n, content),
        ),
{
    match k {
        None => {
            law_deserialize(depth, item, content);
        },
        Some(k) => {
            lemma_variant_place(depth, item, k, content);
        },
    }
}

// Sequences
// ---------

/// Of a sequence that holds enough values, the first ones are taken, in order,
/// where it may end behind them.
pub proof fn law_read_seq(
    depth: nat,
    item: SpecItem,
    k: Option<int>,
    n: nat,
    items: Seq<Result<int, int>>,
    end: Result<(), int>,
)
    requires
        depth >= 4,
        derivable(item),
        well_named(item),
        has_values(item, k, n),
        items.len() >= n,
        forall|i: int| 0 <= i < n ==> (#[trigger] items[i]) is Ok,
    ensures
        ({
            let f = reading(depth, item, k, Input::List { items, end });
            match end {
                Ok(_) => gives(
                    f,
                    Val::Tuple {
                        path: path_at(item, k),
                        args: Seq::new(n, |i: int| Val::Leaf(items[i]->Ok_0)),
                    },
                ),
                Err(e) => fails(f, Fault::Source(e)),
            }
        }),
{
    lemma_values_place(depth, item, k, n, Input::List { items, end });
    lemma_good_items(items, n, 0);
    assert(seq_values(items, n) =~= Seq::new(n, |i: int| Val::Leaf(items[i]->Ok_0)));
}

/// The first value that is in error, or that is not there, is what reading fails
/// with.
pub proof fn law_read_seq_fault(
    depth: nat,
    item: SpecItem,
    k: Option<int>,
    n: nat,
    items: Seq<Result<int, int>>,
    end: Result<(), int>,
    p: nat,
)
    requires
        depth >= 4,
        derivable(item),
        well_named(item),
        has_values(item, k, n),
        p < n,
        p <= items.len(),
        forall|i: int| 0 <= i < p ==> (#[trigger] items[i]) is Ok,
    ensures
        ({
            let f = reading(depth, item, k, Input::List { items, end });
            if p == items.len() {
                fails(f, Fault::EndOfStream)
            } else {
                items[p as int] matches Err(e) ==> fails(f, Fault::Source(e))
            }
        }),
{
    lemma_values_place(depth, item, k, n, Input::List { items, end });
    if p == items.len() || items[p as int] is Err {
        lemma_seq_fault(items, n, p, 0);
    }
}

proof fn lemma_seq_fault(items: Seq<Result<int, int>>, n: nat, p: nat, j: nat)
    requires
        j <= p < n,
        p <= items.len(),
        forall|i: int| 0 <= i < p ==> (#[trigger] items[i]) is Ok,
        p == items.len() || items[p as int] is Err,
    ensures
        seq_fault(items, n, j) == Some(
            if p == items.len() {
                Fault::EndOfStream
            } else {
                Fault::Source(items[p as int]->Err_0)
            },
        ),
    decreases p - j,
{
    if j < p {
        assert(items[j as int] is Ok);
        lemma_seq_fault(items, n, p, j + 1);
    }
}

// Maps
// ----

/// The string that a field is known by: its rename, or else its name.
pub open spec fn is_key(field: SpecField, name: Seq<char>) -> bool {
    match field.rename {
        Some(l) => l == SpecLit::Str(name),
        None => field.name == Some(name),
    }
}

/// The strings that fields are known by.
pub open spec fn known_by(fields: Seq<SpecField>, names: Seq<Seq<char>>) -> bool {
    &&& names.len() == fields.len()
    &&& forall|i: int| 0 <= i < fields.len() ==> is_key(fields[i], #[trigger] names[i])
}

/// The string that leads to field `i`: the one that it is known by, unless a
/// field before it is known by the same.
pub open spec fn leads_to(names: Seq<Seq<char>>, i: int) -> Option<Seq<char>> {
    if forall|j: int| 0 <= j < i ==> #[trigger] names[j] != names[i] {
        Some(names[i])
    } else {
        None
    }
}

/// An entry with a good value for a field that there is.
pub open spec fn is_good(entry: Entry, names: Seq<Seq<char>>) -> bool {
    entry.value is Ok && (entry.key matches Ok(name) && names.contains(name))
}

/// The key of this entry is this string.
pub open spec fn is_for(entry: Entry, name: Option<Seq<char>>) -> bool {
    name matches Some(x) && entry.key == Ok::<Seq<char>, int>(x)
}

/// There is an entry for this string.
pub open spec fn has_entry(entries: Seq<Entry>, name: Option<Seq<char>>) -> bool {
    exists|p: int| 0 <= p < entries.len() && is_for(#[trigger] entries[p], name)
}

/// The last entry for this string.
pub open spec fn is_last(entries: Seq<Entry>, name: Option<Seq<char>>, p: int) -> bool {
    &&& 0 <= p < entries.len()
    &&& is_for(entries[p], name)
    &&& forall|q: int| p < q < entries.len() ==> !is_for(#[trigger] entries[q], name)
}

/// The value of field `i`: that of the last entry for it, or without one its
/// default, or else what the visitor replies for the name it is known by.
pub open spec fn is_value(
    fields: Seq<SpecField>,
    names: Seq<Seq<char>>,
    entries: Seq<Entry>,
    missing: spec_fn(Seq<char>) -> Result<int, int>,
    i: int,
    v: Val,
) -> bool {
    &&& forall|p: int| #[trigger]
        is_last(entries, leads_to(names, i), p) ==> v == Val::Leaf(entries[p].value->Ok_0)
    &&& !has_entry(entries, leads_to(names, i)) ==> v == (if fields[i].default {
        Val::Default
    } else {
        Val::Leaf(missing(names[i])->Ok_0)
    })
}

/// Field `i` is missing, and the visitor has nothing for it.
pub open spec fn lacks(
    fields: Seq<SpecField>,
    names: Seq<Seq<char>>,
    entries: Seq<Entry>,
    missing: spec_fn(Seq<char>) -> Result<int, int>,
    i: int,
) -> bool {
    !has_entry(entries, leads_to(names, i)) && !fields[i].default && missing(names[i]) is Err
}

pub proof fn lemma_known_keys(fields: Seq<SpecField>, names: Seq<Seq<char>>)
    requires
        known_by(fields, names),
    ensures
        field_keys(fields) == Seq::new(names.len(), |i: int| SpecLit::Str(names[i])),
{
    let keys = field_keys(fields);
    assert forall|i: int| 0 <= i < keys.len() implies #[trigger] keys[i] == SpecLit::Str(
        names[i],
    ) by {
        assert(is_key(fields[i], names[i]));
    }
    assert(keys =~= Seq::new(names.len(), |i: int| SpecLit::Str(names[i])));
}

/// The index that a string leads to: the first field that is known by it.
proof fn lemma_index(names: Seq<Seq<char>>, name: Seq<char>, k: nat)
    ensures
        ({
            let keys = Seq::new(names.len(), |i: int| SpecLit::Str(names[i]));
            match key_index(keys, name, k) {
                Some(i) => {
                    &&& k <= i < names.len()
                    &&& names[i as int] == name
                    &&& forall|j: int| k <= j < i ==> #[trigger] names[j] != name
                },
                None => forall|j: int| k <= j < names.len() ==> #[trigger] names[j] != name,
            }
        }),
    decreases names.len() - k,
{
    let keys = Seq::new(names.len(), |i: int| SpecLit::Str(names[i]));
    if k < names.len() && names[k as int] != name {
        lemma_index(names, name, k + 1);
    }
}

/// An entry is for the field that its key leads to.
pub proof fn lemma_entry_field(
    fields: Seq<SpecField>,
    names: Seq<Seq<char>>,
    entry: Entry,
    i: int,
)
    requires
        known_by(fields, names),
        0 <= i < names.len(),
    ensures
        is_for(entry, leads_to(names, i)) <==> entry_index(field_keys(fields), entry) == Some(
            i as nat,
        ),
{
    lemma_known_keys(fields, names);
    if let Ok(name) = entry.key {
        lemma_index(names, name, 0);
        if name == names[i] {
            if let Some(f) = key_index(field_keys(fields), name, 0) {
                if f < i {
                    assert(names[f as int] == names[i]);
                }
            }
        }
    }
}

/// The key of an entry is known or not.
pub proof fn lemma_entry_known(fields: Seq<SpecField>, names: Seq<Seq<char>>, entry: Entry)
    requires
        known_by(fields, names),
    ensures
        entry.key matches Ok(name) ==> (names.contains(name) <==> key_index(
            field_keys(fields),
            name,
            0,
        ) is Some),
{
    lemma_known_keys(fields, names);
    if let Ok(name) = entry.key {
        lemma_index(names, name, 0);
    }
}

/// Good entries have no fault.
proof fn lemma_good_entry(fields: Seq<SpecField>, names: Seq<Seq<char>>, entry: Entry)
    requires
        known_by(fields, names),
        is_good(entry, names),
    ensures
        entry_fault(field_keys(fields), entry) is None,
{
    lemma_entry_known(fields, names, entry);
}

pub proof fn lemma_map_fault(
    fields: Seq<SpecField>,
    names: Seq<Seq<char>>,
    entries: Seq<Entry>,
    p: nat,
    j: nat,
)
    requires
        known_by(fields, names),
        j <= p <= entries.len(),
        forall|i: int| 0 <= i < p ==> is_good(#[trigger] entries[i], names),
        p < entries.len() ==> entry_fault(field_keys(fields), entries[p as int]) is Some,
    ensures
        map_fault(field_keys(fields), entries, j) == (if p == entries.len() {
            None
        } else {
            entry_fault(field_keys(fields), entries[p as int])
        }),
    decreases p - j,
{
    if j < p {
        assert(is_good(entries[j as int], names));
        lemma_good_entry(fields, names, entries[j as int]);
        lemma_map_fault(fields, names, entries, p, j + 1);
    }
}

/// What the first entries hold for a field.
pub proof fn lemma_last(
    fields: Seq<SpecField>,
    names: Seq<Seq<char>>,
    entries: Seq<Entry>,
    k: nat,
    i: int,
)
    requires
        known_by(fields, names),
        0 <= i < names.len(),
        k <= entries.len(),
    ensures
        ({
            let found = last_value(field_keys(fields), entries, k, i as nat);
            let part = entries.take(k as int);
            &&& found is None <==> !has_entry(part, leads_to(names, i))
            &&& forall|p: int| #[trigger]
                is_last(part, leads_to(names, i), p) ==> found == Some(entries[p].value->Ok_0)
        }),
    decreases k,
{
    let name = leads_to(names, i);
    let part = entries.take(k as int);
    if k > 0 {
        let before = entries.take(k - 1);
        lemma_last(fields, names, entries, (k - 1) as nat, i);
        lemma_entry_field(fields, names, entries[k - 1], i);
        assert(part[k - 1] == entries[k - 1]);
        if is_for(entries[k - 1], name) {
            assert(has_entry(part, name));
            assert forall|p: int| #[trigger] is_last(part, name, p) implies p == k - 1 by {
                if p < k - 1 {
                    assert(!is_for(part[k - 1], name));
                }
            }
        } else {
            if has_entry(before, name) {
                let p = choose|p: int| 0 <= p < before.len() && is_for(#[trigger] before[p], name);
                assert(part[p] == before[p]);
                assert(has_entry(part, name));
            }
            if has_entry(part, name) {
                let p = choose|p: int| 0 <= p < part.len() && is_for(#[trigger] part[p], name);
                assert(p < k - 1);
                assert(before[p] == part[p]);
            }
            assert forall|p: int| #[trigger] is_last(part, name, p) implies is_last(
                before,
                name,
                p,
            ) by {
                assert(p < k - 1);
                assert(before[p] == part[p]);
                assert forall|q: int| p < q < before.len() implies !is_for(
                    #[trigger] before[q],
                    name,
                ) by {
                    assert(part[q] == before[q]);
                }
            }
        }
    }
}

pub proof fn lemma_field_value(
    fields: Seq<SpecField>,
    names: Seq<Seq<char>>,
    entries: Seq<Entry>,
    missing: spec_fn(Seq<char>) -> Result<int, int>,
    i: int,
)
    requires
        known_by(fields, names),
        0 <= i < names.len(),
    ensures
        ({
            let r = field_value(fields, entries, missing, i as nat);
            if lacks(fields, names, entries, missing, i) {
                r == Err::<Val, int>(missing(names[i])->Err_0)
            } else {
                r is Ok && is_value(fields, names, entries, missing, i, r->Ok_0)
            }
        }),
{
    let name = leads_to(names, i);
    lemma_known_keys(fields, names);
    lemma_last(fields, names, entries, entries.len(), i);
    assert(entries.take(entries.len() as int) =~= entries);
    assert(field_keys(fields)[i] == SpecLit::Str(names[i]));
    if has_entry(entries, name) {
        assert forall|p: int| #[trigger] is_last(entries, name, p) implies field_value(
            fields,
            entries,
            missing,
            i as nat,
        ) == Ok::<Val, int>(Val::Leaf(entries[p].value->Ok_0)) by {}
    } else {
        assert forall|p: int| !(#[trigger] is_last(entries, name, p)) by {
            if is_last(entries, name, p) {
                assert(is_for(entries[p], name));
            }
        }
    }
}

pub proof fn lemma_missing_fault(
    fields: Seq<SpecField>,
    names: Seq<Seq<char>>,
    entries: Seq<Entry>,
    missing: spec_fn(Seq<char>) -> Result<int, int>,
    p: nat,
    j: nat,
)
    requires
        known_by(fields, names),
        j <= p <= fields.len(),
        forall|i: int| 0 <= i < p ==> !(#[trigger] lacks(fields, names, entries, missing, i)),
        p < fields.len() ==> lacks(fields, names, entries, missing, p as int),
    ensures
        missing_fault(fields, entries, missing, j) == (if p == fields.len() {
            None
        } else {
            Some(Fault::Source(missing(names[p as int])->Err_0))
        }),
    decreases p - j,
{
    if j < p {
        assert(!lacks(fields, names, entries, missing, j as int));
        lemma_field_value(fields, names, entries, missing, j as int);
        lemma_missing_fault(fields, names, entries, missing, p, j + 1);
    } else if p < fields.len() {
        lemma_field_value(fields, names, entries, missing, p as int);
    }
}

/// Of a map without faulty entries, each field gets the value of the last entry
/// for it. Without an entry it gets its default where it has one, and else what
/// the visitor replies for its key. Where the visitor replies with an error, the
/// first such error is what reading fails with.
pub proof fn law_read_map(
    depth: nat,
    item: SpecItem,
    k: Option<int>,
    fields: Seq<SpecField>,
    names: Seq<Seq<char>>,
    entries: Seq<Entry>,
    missing: spec_fn(Seq<char>) -> Result<int, int>,
    end: Result<(), int>,
    p: nat,
)
    requires
        depth >= 4,
        derivable(item),
        well_named(item),
        has_fields(item, k, fields),
        known_by(fields, names),
        forall|i: int| 0 <= i < entries.len() ==> is_good(#[trigger] entries[i], names),
        p <= fields.len(),
        forall|i: int| 0 <= i < p ==> !(#[trigger] lacks(fields, names, entries, missing, i)),
        p < fields.len() ==> lacks(fields, names, entries, missing, p as int),
    ensures
        ({
            let f = reading(depth, item, k, Input::Table { entries, missing, end });
            if p < fields.len() {
                fails(f, Fault::Source(missing(names[p as int])->Err_0))
            } else {
                match end {
                    Err(e) => fails(f, Fault::Source(e)),
                    Ok(_) => {
                        &&& f matches Flow::Done(Val::Success(v))
                        &&& *v matches Val::Record { path, fields: read }
                        &&& path == path_at(item, k)
                        &&& read.len() == fields.len()
                        &&& forall|i: int|
                            0 <= i < fields.len() ==> (#[trigger] read[i]).0 == fields[i].name->0
                                && is_value(fields, names, entries, missing, i, read[i].1)
                    },
                }
            }
        }),
{
    lemma_fields_place(depth, item, k, fields, Input::Table { entries, missing, end });
    lemma_map_fault(fields, names, entries, entries.len(), 0);
    lemma_missing_fault(fields, names, entries, missing, p, 0);
    let read = map_values(fields, entries, missing);
    if p == fields.len() {
        assert forall|i: int| 0 <= i < fields.len() implies (#[trigger] read[i]).0
            == fields[i].name->0 && is_value(fields, names, entries, missing, i, read[i].1) by {
            assert(!lacks(fields, names, entries, missing, i));
            lemma_field_value(fields, names, entries, missing, i);
        }
    }
}

/// An entry that is not good has a fault: that of its key first.
pub proof fn lemma_faulty_entry(fields: Seq<SpecField>, names: Seq<Seq<char>>, entry: Entry)
    requires
        known_by(fields, names),
        !is_good(entry, names),
    ensures
        entry_fault(field_keys(fields), entry) == Some(
            match entry.key {
                Err(e) => Fault::Source(e),
                Ok(name) => if names.contains(name) {
                    Fault::Source(entry.value->Err_0)
                } else {
                    Fault::UnknownField(name)
                },
            },
        ),
{
    lemma_entry_known(fields, names, entry);
}

/// The first entry that is faulty is what reading fails with, whatever comes
/// behind it: a key that is in error, one that no field is known by, or a value
/// that is in error.
pub proof fn law_read_map_fault(
    depth: nat,
    item: SpecItem,
    k: Option<int>,
    fields: Seq<SpecField>,
    names: Seq<Seq<char>>,
    entries: Seq<Entry>,
    missing: spec_fn(Seq<char>) -> Result<int, int>,
    end: Result<(), int>,
    p: nat,
)
    requires
        depth >= 4,
        derivable(item),
        well_named(item),
        has_fields(item, k, fields),
        known_by(fields, names),
        p < entries.len(),
        forall|i: int| 0 <= i < p ==> is_good(#[trigger] entries[i], names),
        !is_good(entries[p as int], names),
    ensures
        ({
            let f = reading(depth, item, k, Input::Table { entries, missing, end });
            match entries[p as int].key {
                Err(e) => fails(f, Fault::Source(e)),
                Ok(name) => if names.contains(name) {
                    fails(f, Fault::Source(entries[p as int].value->Err_0))
                } else {
                    fails(f, Fault::UnknownField(name))
                },
            }
        }),
{
    lemma_fields_place(depth, item, k, fields, Input::Table { entries, missing, end });
    lemma_faulty_entry(fields, names, entries[p as int]);
    lemma_map_fault(fields, names, entries, p, 0);
}

// Units and variants
// ------------------

/// A unit struct is read from the unit value, and from a sequence that may end
/// at once.
pub proof fn law_read_unit(
    depth: nat,
    item: SpecItem,
    items: Seq<Result<int, int>>,
    end: Result<(), int>,
)
    requires
        depth >= 4,
        item.node matches SpecItemKind::Struct(f, _) && f.len() == 0,
        well_named(item),
    ensures
        gives(
            reading(depth, item, None, Input::Unit),
            Val::Tuple { path: seq![item.ident], args: seq![] },
        ),
        match end {
            Ok(_) => gives(
                reading(depth, item, None, Input::List { items, end }),
                Val::Tuple { path: seq![item.ident], args: seq![] },
            ),
            Err(e) => fails(
                reading(depth, item, None, Input::List { items, end }),
                Fault::Source(e),
            ),
        },
{
    assert(all_unnamed(item.node->Struct_0));
    law_deserialize(depth, item, Input::Unit);
    law_deserialize(depth, item, Input::List { items, end });
}

/// A variant without fields is read from the unit value alone.
pub proof fn law_read_unit_variant(depth: nat, item: SpecItem, k: int, content: Input)
    requires
        depth >= 4,
        derivable(item),
        well_named(item),
        is_variant(item, k),
        item.node->Enum_0[k].kind == SpecVariantKind::Tuple(0),
        !(content is Broken),
        !(content is Spoiled),
    ensures
        ({
            let f = reading(depth, item, Some(k), content);
            if content is Unit {
                gives(f, Val::Tuple { path: path_at(item, Some(k)), args: seq![] })
            } else {
                fails(f, Fault::Mismatch)
            }
        }),
{
    lemma_variant_place(depth, item, k, content);
}

/// A variant's name that is in error, or that no variant has, is what reading
/// fails with.
pub proof fn law_read_variant_fault(
    depth: nat,
    item: SpecItem,
    name: Result<Seq<char>, int>,
    content: Input,
)
    requires
        depth >= 4,
        derivable(item),
        well_named(item),
        item.node is Enum,
        name matches Ok(x) ==> forall|i: int|
            0 <= i < item.node->Enum_0.len() ==> (#[trigger] item.node->Enum_0[i]).name != x,
    ensures
        ({
            let input = Input::Variant { name, content: Box::new(content) };
            let f = run(depth, derived_impl(item), input).0;
            match name {
                Ok(x) => fails(f, Fault::UnknownField(x)),
                Err(e) => fails(f, Fault::Source(e)),
            }
        }),
{
    let input = Input::Variant { name, content: Box::new(content) };
    law_deserialize(depth, item, input);
    if let Ok(x) = name {
        let keys = variant_keys(item.node->Enum_0);
        assert forall|i: int| 0 <= i < keys.len() implies #[trigger] keys[i] != SpecLit::Str(
            x,
        ) by {
            assert(item.node->Enum_0[i].name != x);
        }
        lemma_no_key(keys, x, 0);
    }
}

/// The kinds of input that an item can be read from.
pub open spec fn fits(item: SpecItem, input: Input) -> bool {
    match item.node {
        SpecItemKind::Struct(fields, _) => if fields.len() == 0 {
            input is Unit || input is List
        } else if fields[0].name is None {
            input is List
        } else {
            input is Table
        },
        SpecItemKind::Enum(_, _) => input is Variant,
        SpecItemKind::Other => false,
    }
}

/// An input of another kind is refused.
pub proof fn law_read_mismatch(depth: nat, item: SpecItem, input: Input)
    requires
        depth >= 4,
        derivable(item),
        well_named(item),
        !fits(item, input),
        !(input is Broken),
        !(input is Spoiled),
    ensures
        fails(run(depth, derived_impl(item), input).0, Fault::Mismatch),
{
    law_deserialize(depth, item, input);
    if let SpecItemKind::Struct(fields, _) = item.node {
        if fields.len() > 0 {
            assert(all_unnamed(fields) <==> fields[0].name is None);
        }
    }
}

} // verus!
