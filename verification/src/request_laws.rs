//! The laws of requests: which calls running derived code makes, one by one, for
//! a struct and for the content of each variant alike.
use vstd::prelude::*;

use crate::ast::{derivable, field_keys, SpecField, SpecItem};
use crate::code::SpecLit;
use crate::laws::law_deserialize;
use crate::meaning::{run, Entry, Input, Party, Request, Trace};
use crate::outcome::{seq_fault, well_named};
use crate::reading_laws::{
    has_entry, has_fields, has_values, input_at, is_good, is_variant, known_by, lacks, leads_to,
    lemma_entry_known, lemma_faulty_entry, lemma_field_value, lemma_first_index, lemma_known_keys,
    lemma_last, lemma_map_fault, lemma_missing_fault,
};
use crate::requests::{
    asked, entries_trace, missing_request, missing_trace, told, variant_trace, visits,
};
use crate::shape::derived_impl;

verus! {

/// A call of a visitor's method without a string.
pub open spec fn ask(ident: Seq<char>) -> Request {
    Request { party: Party::Visitor, ident, text: None }
}

/// The calls that lead to what is read: one of the deserializer, which is told
/// the name of the type, and for a variant two of the visitor.
pub open spec fn opening(
    item: SpecItem,
    k: Option<int>,
    item_call: Seq<char>,
    variant_call: Seq<char>,
) -> Trace {
    match k {
        None => seq![
            Request { party: Party::Deserializer, ident: item_call, text: Some(item.ident) },
        ],
        Some(_) => seq![
            Request { party: Party::Deserializer, ident: "visit_enum"@, text: Some(item.ident) },
            ask("visit_variant"@),
            ask(variant_call),
        ],
    }
}

/// The calls that are made for such an input.
pub open spec fn calls(depth: nat, item: SpecItem, k: Option<int>, content: Input) -> Trace {
    run(depth, derived_impl(item), input_at(item, k, content)).1
}

proof fn lemma_variant_calls(depth: nat, item: SpecItem, k: int, content: Input)
    requires
        depth >= 4,
        derivable(item),
        well_named(item),
        is_variant(item, k),
    ensures
        calls(depth, item, Some(k), content) == seq![told("visit_enum"@, item.ident)] + (seq![
            asked("visit_variant"@),
        ] + variant_trace(item.node->Enum_0[k], content)),
{
    let variants = item.node->Enum_0;
    law_deserialize(depth, item, input_at(item, Some(k), content));
    lemma_first_index(variants, k, 0);
}

// Sequences
// ---------

proof fn lemma_visit_calls(items: Seq<Result<int, int>>, n: nat, p: nat, j: nat)
    requires
        j <= p <= n,
        p <= items.len(),
        forall|i: int| 0 <= i < p ==> (#[trigger] items[i]) is Ok,
        p < n ==> p == items.len() || items[p as int] is Err,
    ensures
        visits(items, n, j) == Seq::new(
            (if p == n {
                p - j
            } else {
                p + 1 - j
            }) as nat,
            |i: int| ask("visit"@),
        ),
        seq_fault(items, n, j) is None <==> p == n,
    decreases p - j,
{
    if j < p {
        assert(items[j as int] is Ok);
        lemma_visit_calls(items, n, p, j + 1);
    }
    assert(visits(items, n, j) =~= Seq::new(
        (if p == n {
            p - j
        } else {
            p + 1 - j
        }) as nat,
        |i: int| ask("visit"@),
    ));
}

/// Of a sequence, one value after the other is asked for, up to the first that is
/// in error or not there. Where all are there, the end is asked for, once.
pub proof fn law_seq_calls(
    depth: nat,
    item: SpecItem,
    k: Option<int>,
    n: nat,
    items: Seq<Result<int, int>>,
    end: Result<(), int>,
    p: nat,
)
    requires
        depth >= 4,
        derivable(item),
        well_named(item),
        has_values(item, k, n),
        p <= n,
        p <= items.len(),
        forall|i: int| 0 <= i < p ==> (#[trigger] items[i]) is Ok,
        p < n ==> p == items.len() || items[p as int] is Err,
    ensures
        calls(depth, item, k, Input::List { items, end }) == opening(
            item,
            k,
            "visit_named_seq"@,
            "visit_seq"@,
        ) + Seq::new(
            if p == n {
                n
            } else {
                p + 1
            },
            |i: int| ask("visit"@),
        ) + (if p == n {
            seq![ask("end"@)]
        } else {
            seq![]
        }),
{
    let content = Input::List { items, end };
    lemma_visit_calls(items, n, p, 0);
    match k {
        None => {
            law_deserialize(depth, item, content);
        },
        Some(k) => {
            lemma_variant_calls(depth, item, k, content);
        },
    }
    assert(calls(depth, item, k, content) =~= opening(
        item,
        k,
        "visit_named_seq"@,
        "visit_seq"@,
    ) + Seq::new(
        if p == n {
            n
        } else {
            p + 1
        },
        |i: int| ask("visit"@),
    ) + (if p == n {
        seq![ask("end"@)]
    } else {
        seq![]
    }));
}

// Maps
// ----

/// A key and a value in turn, so many calls in all.
pub open spec fn in_turn(n: nat) -> Trace {
    Seq::new(
        n,
        |i: int|
            if i % 2 == 0 {
                ask("visit_key"@)
            } else {
                ask("visit_value"@)
            },
    )
}

/// `missing_field` for the fields from index `j` on and below index `n`, each
/// with the name it is known by, that have neither an entry nor a default.
pub open spec fn wants(
    fields: Seq<SpecField>,
    names: Seq<Seq<char>>,
    entries: Seq<Entry>,
    j: nat,
    n: nat,
) -> Trace
    decreases n - j,
{
    if j >= n {
        seq![]
    } else if !has_entry(entries, leads_to(names, j as int)) && !fields[j as int].default {
        seq![
            Request {
                party: Party::Visitor,
                ident: "missing_field"@,
                text: Some(names[j as int]),
            },
        ] + wants(fields, names, entries, j + 1, n)
    } else {
        wants(fields, names, entries, j + 1, n)
    }
}

/// How many calls an entry that is not good takes.
pub open spec fn faulty_calls(entry: Entry, names: Seq<Seq<char>>) -> nat {
    if entry.key matches Ok(name) && names.contains(name) {
        2
    } else {
        1
    }
}

proof fn lemma_entry_calls(
    fields: Seq<SpecField>,
    names: Seq<Seq<char>>,
    entries: Seq<Entry>,
    p: nat,
    j: nat,
)
    requires
        known_by(fields, names),
        j <= p <= entries.len(),
        forall|i: int| 0 <= i < p ==> is_good(#[trigger] entries[i], names),
        p < entries.len() ==> !is_good(entries[p as int], names),
    ensures
        entries_trace(field_keys(fields), entries, j) == in_turn(
            ((p - j) * 2 + (if p == entries.len() {
                1
            } else {
                faulty_calls(entries[p as int], names)
            })) as nat,
        ),
    decreases p - j,
{
    let keys = field_keys(fields);
    let t = entries_trace(keys, entries, j);
    if j < entries.len() {
        lemma_entry_known(fields, names, entries[j as int]);
    }
    if j < p {
        assert(is_good(entries[j as int], names));
        lemma_entry_calls(fields, names, entries, p, j + 1);
        let rest = entries_trace(keys, entries, j + 1);
        assert(t == seq![asked("visit_key"@), asked("visit_value"@)] + rest);
        assert(t =~= in_turn(rest.len() + 2));
    } else {
        let n = if p == entries.len() {
            1
        } else {
            faulty_calls(entries[p as int], names)
        };
        assert(t =~= in_turn(n));
    }
}

proof fn lemma_wanted_calls(
    fields: Seq<SpecField>,
    names: Seq<Seq<char>>,
    entries: Seq<Entry>,
    missing: spec_fn(Seq<char>) -> Result<int, int>,
    p: nat,
    j: nat,
)
    requires
        known_by(fields, names),
        j <= p <= fields.len(),
        forall|i: int| 0 <= i < p ==> !(#[trigger] lacks(fields, names, entries, missing, i)),
        p < fields.len() ==> lacks(fields, names, entries, missing, p as int),
    ensures
        missing_trace(fields, entries, missing, j) == wants(
            fields,
            names,
            entries,
            j,
            if p == fields.len() {
                p
            } else {
                p + 1
            },
        ),
    decreases p - j,
{
    if j < fields.len() {
        lemma_known_keys(fields, names);
        lemma_last(fields, names, entries, entries.len(), j as int);
        assert(entries.take(entries.len() as int) =~= entries);
        assert(field_keys(fields)[j as int] == SpecLit::Str(names[j as int]));
        lemma_field_value(fields, names, entries, missing, j as int);
    }
    if j < p {
        assert(!lacks(fields, names, entries, missing, j as int));
        lemma_wanted_calls(fields, names, entries, missing, p, j + 1);
        let rest = missing_trace(fields, entries, missing, j + 1);
        assert(Seq::<Request>::empty() + rest =~= rest);
    } else if p < fields.len() {
        assert(wants(fields, names, entries, p + 1, p + 1) =~= seq![]);
        let one = missing_request(fields, entries, p);
        assert(one + Seq::<Request>::empty() =~= one);
    }
}

/// Of a map without faulty entries, keys and values are asked for in turn, up to
/// a key that is not there. Then the fields that have neither an entry nor a
/// default are asked for, each by its key and in order, up to the first that is
/// answered by an error. Where none is, the end is asked for, once.
pub proof fn law_map_calls(
    depth: nat,
    item: SpecItem,
    k: Option<int>,
    fields: Seq<SpecField>,
    names: Seq<Seq<char>>,
    entries: Seq<Entry>,
    missing: spec_fn(Seq<char>) -> Result<int, int>,
    end: Result<(), int>,
    p: nat,
)
    requires
        depth >= 4,
        derivable(item),
        well_named(item),
        has_fields(item, k, fields),
        known_by(fields, names),
        forall|i: int| 0 <= i < entries.len() ==> is_good(#[trigger] entries[i], names),
        p <= fields.len(),
        forall|i: int| 0 <= i < p ==> !(#[trigger] lacks(fields, names, entries, missing, i)),
        p < fields.len() ==> lacks(fields, names, entries, missing, p as int),
    ensures
        calls(depth, item, k, Input::Table { entries, missing, end }) == opening(
            item,
            k,
            "visit_named_map"@,
            "visit_map"@,
        ) + in_turn(entries.len() * 2 + 1) + (if p == fields.len() {
            wants(fields, names, entries, 0, p) + seq![ask("end"@)]
        } else {
            wants(fields, names, entries, 0, p + 1)
        }),
{
    let content = Input::Table { entries, missing, end };
    lemma_entry_calls(fields, names, entries, entries.len(), 0);
    lemma_map_fault(fields, names, entries, entries.len(), 0);
    lemma_missing_fault(fields, names, entries, missing, p, 0);
    lemma_wanted_calls(fields, names, entries, missing, p, 0);
    match k {
        None => {
            law_deserialize(depth, item, content);
            assert(fields[0].name is Some);
        },
        Some(k) => {
            lemma_variant_calls(depth, item, k, content);
        },
    }
    assert(calls(depth, item, k, content) =~= opening(
        item,
        k,
        "visit_named_map"@,
        "visit_map"@,
    ) + in_turn(entries.len() * 2 + 1) + (if p == fields.len() {
        wants(fields, names, entries, 0, p) + seq![ask("end"@)]
    } else {
        wants(fields, names, entries, 0, p + 1)
    }));
}

/// Behind an entry that is faulty nothing more is asked for: not its value, where
/// it is the key that is faulty.
pub proof fn law_map_fault_calls(
    depth: nat,
    item: SpecItem,
    k: Option<int>,
    fields: Seq<SpecField>,
    names: Seq<Seq<char>>,
    entries: Seq<Entry>,
    missing: spec_fn(Seq<char>) -> Result<int, int>,
    end: Result<(), int>,
    p: nat,
)
    requires
        depth >= 4,
        derivable(item),
        well_named(item),
        has_fields(item, k, fields),
        known_by(fields, names),
        p < entries.len(),
        forall|i: int| 0 <= i < p ==> is_good(#[trigger] entries[i], names),
        !is_good(entries[p as int], names),
    ensures
        calls(depth, item, k, Input::Table { entries, missing, end }) == opening(
            item,
            k,
            "visit_named_map"@,
            "visit_map"@,
        ) + in_turn(p * 2 + faulty_calls(entries[p as int], names)),
{
    let content = Input::Table { entries, missing, end };
    lemma_entry_calls(fields, names, entries, p, 0);
    lemma_faulty_entry(fields, names, entries[p as int]);
    lemma_map_fault(fields, names, entries, p, 0);
    match k {
        None => {
            law_deserialize(depth, item, content);
            assert(fields[0].name is Some);
        },
        Some(k) => {
            lemma_variant_calls(depth, item, k, content);
        },
    }
    assert(calls(depth, item, k, content) =~= opening(
        item,
        k,
        "visit_named_map"@,
        "visit_map"@,
    ) + in_turn(p * 2 + faulty_calls(entries[p as int], names)));
}

} // verus!
