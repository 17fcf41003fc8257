//! How generated code reads a map.
use vstd::prelude::*;

use crate::ast::{field_key, field_keys, SpecField};
use crate::code::{SpecExpr, SpecLit, SpecPath, SpecStmt};
use crate::meaning::{
    effect, eval, eval_block, eval_inits, eval_stmt, eval_stmts, last_index, leave, method_effect,
    start, Context, Entry, Env, Fault, Flow, Input, Request, State, Trace, Val,
};
use crate::names::{field_ident, law_field_idents_distinct};
use crate::outcome::{
    entry_index, field_val, field_value, key_index, last_value, map_fault, map_result, map_values,
    missing_fault, string_keys,
};
use crate::read_key::{lemma_field_arms, lemma_key_index_bound, lemma_run_key, reads_keys};
use crate::requests::{
    asked, asked_for, ending, entries_trace, map_trace, missing_request, missing_trace,
};
use crate::shape::{
    end_stmt, extract_let, extract_lets, field_inits, map_expr, map_let, map_lets, map_loop,
    missing_expr, value_arm, value_arms,
};
use crate::steps::{
    lemma_block_flow, lemma_call0, lemma_call1, lemma_call1_none, lemma_calls, lemma_end,
    lemma_last_index, lemma_method0, lemma_method1, lemma_no_decls, lemma_no_index, lemma_ops,
    lemma_option_arms, lemma_parties, lemma_plain_block, lemma_plain_flow, lemma_semi_block,
    lemma_stmts1, lemma_stmts_append, option_arms,
};
use crate::tree::{block, default_path, ident_path, match_expr, method0, ok_expr, try_expr, var};

verus! {

// Names
// -----

/// The name of a field's variable is none of the other names that stand where
/// it is in scope.
proof fn lemma_other_names(i: nat)
    ensures
        field_ident(i) != "None"@,
        field_ident(i) != "key"@,
{
    reveal_strlit("__field");
    reveal_strlit("None");
    reveal_strlit("key");
    assert(field_ident(i)[0] == "__field"@[0]);
    assert("__field"@[0] == '_');
    assert("None"@[0] == 'N');
    assert("key"@[0] == 'k');
}

/// An option of a field's value.
pub open spec fn slot(v: Option<int>) -> Val {
    match v {
        Some(v) => Val::Present(Box::new(Val::Leaf(v))),
        None => Val::Absent,
    }
}

/// The variables of the first `n` fields after the first `p` entries.
pub open spec fn slot_env(keys: Seq<SpecLit>, entries: Seq<Entry>, p: nat, n: nat) -> Env {
    Seq::new(n, |i: int| (field_ident(i as nat), slot(last_value(keys, entries, p, i as nat))))
}

/// The variable of a field is found behind variables of other names.
proof fn lemma_slot_index(
    keys: Seq<SpecLit>,
    entries: Seq<Entry>,
    p: nat,
    n: nat,
    inner: Env,
    i: nat,
)
    requires
        i < n,
        forall|j: int| 0 <= j < inner.len() ==> (#[trigger] inner[j]).0 != field_ident(i),
    ensures
        last_index(slot_env(keys, entries, p, n) + inner, field_ident(i)) == i,
{
    let env = slot_env(keys, entries, p, n) + inner;
    assert forall|j: int| i < j < env.len() implies (#[trigger] env[j]).0 != field_ident(i) by {
        if j < n {
            law_field_idents_distinct(i, j as nat);
        } else {
            assert(env[j] == inner[j - n]);
        }
    }
    lemma_last_index(env, field_ident(i), i as int);
}

// The variables
// -------------

/// All of the `let mut __fieldk = None;` from index `k` on.
proof fn lemma_map_lets(
    depth: nat,
    c: Context,
    keys: Seq<SpecLit>,
    entries: Seq<Entry>,
    n: nat,
    k: nat,
)
    requires
        k <= n,
    ensures
        eval_stmts(
            depth,
            c,
            map_lets(n).skip(k as int),
            start(slot_env(keys, entries, 0, k)),
        ) == (Flow::Done(Val::Unit), start(slot_env(keys, entries, 0, n))),
    decreases n - k,
{
    let stmts = map_lets(n).skip(k as int);
    let env = slot_env(keys, entries, 0, k);
    let s = start(env);
    if k == n {
        assert(stmts =~= seq![]);
    } else {
        assert(stmts[0] == map_let(k));
        assert(stmts.drop_first() =~= map_lets(n).skip(k as int + 1));
        assert forall|j: int| 0 <= j < env.len() implies (#[trigger] env[j]).0 != "None"@ by {
            lemma_other_names(j as nat);
        }
        lemma_no_index(env, "None"@);
        assert(ident_path("None"@).segments[0] == "None"@);
        assert(eval(depth, c, var("None"@), s) == (Flow::Done(Val::Absent), s));
        let s1 = start(slot_env(keys, entries, 0, k + 1));
        assert(env.push((field_ident(k), Val::Absent)) =~= s1.env);
        assert(eval_stmt(depth, c, map_let(k), s) == (Flow::Done(Val::Unit), s1));
        lemma_map_lets(depth, c, keys, entries, n, (k + 1) as nat);
    }
}

// The loop
// --------

/// The variables while an entry is read.
pub open spec fn entry_env(
    keys: Seq<SpecLit>,
    entries: Seq<Entry>,
    p: nat,
    n: nat,
    i: nat,
) -> Env {
    slot_env(keys, entries, p, n) + seq![("key"@, field_val(i))]
}

/// `__fieldi = Some(try!(visitor.visit_value()));`
proof fn lemma_store(
    depth: nat,
    c: Context,
    keys: Seq<SpecLit>,
    entries: Seq<Entry>,
    n: nat,
    i: nat,
    s: State,
)
    requires
        depth > 0,
        c.input matches Input::Table { entries: e, .. } && e == entries,
        i < n,
        s.pos < entries.len(),
        entry_index(keys, entries[s.pos as int]) == Some(i),
        s.env == entry_env(keys, entries, s.pos, n, i),
    ensures
        ({
            let r = eval(depth, c, value_arm(i).body, s);
            let trace = s.trace.push(asked("visit_value"@));
            match entries[s.pos as int].value {
                Err(e) => r == (
                    Flow::Return(Val::Failure(Fault::Source(e))),
                    State { pos: s.pos + 1, trace, ..s },
                ),
                Ok(_) => r == (
                    Flow::Done(Val::Unit),
                    State {
                        env: entry_env(keys, entries, s.pos + 1, n, i),
                        pos: s.pos + 1,
                        trace,
                    },
                ),
            }
        }),
{
    let p = s.pos;
    let get = try_expr(method0("visitor"@, "visit_value"@));
    let assign = value_arm(i).body->Block_0.stmts[0]->Semi_0;
    lemma_ops();
    lemma_parties();
    lemma_method0(depth, c, "visitor"@, "visit_value"@, s);
    let s1 = State { pos: p + 1, trace: s.trace.push(asked("visit_value"@)), ..s };
    match entries[p as int].value {
        Err(e) => {
            assert(eval(depth, c, get, s) == (Flow::Return(Val::Failure(Fault::Source(e))), s1));
            lemma_call1_none(depth, c, ident_path("Some"@), get, s);
            assert(eval(depth, c, assign, s) == (
                Flow::Return(Val::Failure(Fault::Source(e))),
                s1,
            ));
        },
        Ok(v) => {
            assert(eval(depth, c, get, s) == (Flow::Done(Val::Leaf(v)), s1));
            lemma_call1(depth, c, ident_path("Some"@), get, s, Val::Leaf(v));
            lemma_calls(Val::Leaf(v), Fault::EndOfStream, seq![]);
            lemma_other_names(i);
            let inner = seq![("key"@, field_val(i))];
            lemma_slot_index(keys, entries, p, n, inner, i);
            let env = entry_env(keys, entries, p + 1, n, i);
            let w = Val::Present(Box::new(Val::Leaf(v)));
            assert(s.env.update(i as int, (field_ident(i), w)) =~= env);
            assert(eval(depth, c, assign, s) == (
                Flow::Done(Val::Unit),
                State { env, ..s1 },
            ));
        },
    }
    lemma_semi_block(depth, c, assign, s);
}

/// The body of the loop.
proof fn lemma_loop_body(
    depth: nat,
    c: Context,
    keys: Seq<SpecLit>,
    entries: Seq<Entry>,
    n: nat,
    i: nat,
    s: State,
)
    requires
        depth > 0,
        c.input matches Input::Table { entries: e, .. } && e == entries,
        i < n,
        s.pos < entries.len(),
        entry_index(keys, entries[s.pos as int]) == Some(i),
        s.env == entry_env(keys, entries, s.pos, n, i),
    ensures
        ({
            let b = block(seq![], match_expr(var("key"@), value_arms(n)));
            let trace = s.trace.push(asked("visit_value"@));
            match entries[s.pos as int].value {
                Err(e) => effect(eval_block(depth, c, b, s)) == (
                    Flow::Return(Val::Failure(Fault::Source(e))),
                    trace,
                ),
                Ok(_) => eval_block(depth, c, b, s) == (
                    Flow::Done(Val::Unit),
                    State {
                        env: entry_env(keys, entries, s.pos + 1, n, i),
                        pos: s.pos + 1,
                        trace,
                    },
                ),
            }
        }),
{
    let e = match_expr(var("key"@), value_arms(n));
    assert(s.env[n as int] == ("key"@, field_val(i)));
    lemma_last_index(s.env, "key"@, n as int);
    assert(ident_path("key"@).segments[0] == "key"@);
    assert(eval(depth, c, var("key"@), s) == (Flow::Done(field_val(i)), s));
    assert(value_arms(n).skip(0) =~= value_arms(n));
    lemma_field_arms(depth, c, value_arms(n), i, 0, s);
    lemma_store(depth, c, keys, entries, n, i, s);
    let s1 = eval(depth, c, value_arm(i).body, s).1;
    assert(s1.env.take(s.env.len() as int) =~= s1.env);
    lemma_plain_block(depth, c, e, s);
}

/// The key of the entry at `s.pos`.
proof fn lemma_visit_key(
    depth: nat,
    c: Context,
    keys: Seq<SpecLit>,
    entries: Seq<Entry>,
    s: State,
)
    requires
        depth >= 2,
        c.input matches Input::Table { entries: e, .. } && e == entries,
        reads_keys(c.scope, keys),
    ensures
        eval(depth, c, try_expr(method0("visitor"@, "visit_key"@)), s) == (
            if s.pos >= entries.len() {
                Flow::Done(Val::Absent)
            } else {
                match entries[s.pos as int].key {
                    Err(e) => Flow::Return(Val::Failure(Fault::Source(e))),
                    Ok(name) => match key_index(keys, name, 0) {
                        Some(i) => Flow::Done(Val::Present(Box::new(field_val(i)))),
                        None => Flow::Return(Val::Failure(Fault::UnknownField(name))),
                    },
                }
            },
            State { trace: s.trace.push(asked("visit_key"@)), ..s },
        ),
{
    lemma_ops();
    lemma_parties();
    lemma_method0(depth, c, "visitor"@, "visit_key"@, s);
    if s.pos < entries.len() {
        if let Ok(name) = entries[s.pos as int].key {
            lemma_run_key((depth - 1) as nat, c.scope, keys, name);
        }
    }
}

/// The loop over the entries from index `p` on.
proof fn lemma_map_loop(
    depth: nat,
    c: Context,
    keys: Seq<SpecLit>,
    entries: Seq<Entry>,
    p: nat,
    trace: Trace,
)
    requires
        depth >= 2,
        c.input matches Input::Table { entries: e, .. } && e == entries,
        reads_keys(c.scope, keys),
        p <= entries.len(),
    ensures
        ({
            let n = keys.len();
            let s = State { env: slot_env(keys, entries, p, n), pos: p, trace };
            let r = eval(depth, c, map_loop(n), s);
            &&& r.1.trace == trace + entries_trace(keys, entries, p)
            &&& match map_fault(keys, entries, p) {
                Some(f) => r.0 == Flow::Return(Val::Failure(f)),
                None => r.0 == Flow::Done(Val::Unit) && r.1.env == slot_env(
                    keys,
                    entries,
                    entries.len(),
                    n,
                ) && r.1.pos == entries.len(),
            }
        }),
    decreases entries.len() - p,
{
    let n = keys.len();
    let s = State { env: slot_env(keys, entries, p, n), pos: p, trace };
    let asked_key = trace.push(asked("visit_key"@));
    let asked_both = asked_key.push(asked("visit_value"@));
    let all = trace + entries_trace(keys, entries, p);
    lemma_visit_key(depth, c, keys, entries, s);
    if p < entries.len() && entry_index(keys, entries[p as int]) is Some {
        let entry = entries[p as int];
        let i = entry_index(keys, entry)->0;
        lemma_key_index_bound(keys, entry.key->Ok_0, 0);
        let s2 = State {
            env: s.env + seq![("key"@, field_val(i))],
            pos: p,
            trace: asked_key,
        };
        lemma_loop_body(depth, c, keys, entries, n, i, s2);
        if entry.value is Ok {
            let env = slot_env(keys, entries, p + 1, n);
            let s3 = State {
                env: entry_env(keys, entries, p + 1, n, i),
                pos: p + 1,
                trace: asked_both,
            };
            assert(s3.env.take(n as int) =~= env);
            assert(leave(s3, n) == (State { env, pos: p + 1, trace: asked_both }));
            lemma_map_loop(depth, c, keys, entries, p + 1, asked_both);
            assert(asked_both + entries_trace(keys, entries, p + 1) =~= all);
        } else {
            assert(asked_both =~= all);
        }
    } else {
        assert(asked_key =~= all);
    }
}

// The values
// ----------

/// The variables after the values of the first `k` fields have been taken.
pub open spec fn value_env(
    fields: Seq<SpecField>,
    entries: Seq<Entry>,
    missing: spec_fn(Seq<char>) -> Result<int, int>,
    k: nat,
) -> Env {
    Seq::new(
        k,
        |i: int|
            (field_ident(i as nat), field_value(fields, entries, missing, i as nat)->Ok_0),
    )
}

/// What stands for the value of a missing field.
proof fn lemma_missing(
    depth: nat,
    c: Context,
    fields: Seq<SpecField>,
    i: nat,
    s: State,
)
    requires
        depth > 0,
        c.input is Table,
        i < fields.len(),
        string_keys(field_keys(fields)),
    ensures
        eval(depth, c, missing_expr(fields[i as int]), s) == (
            if fields[i as int].default {
                Flow::Done(Val::Default)
            } else {
                match (c.input->missing)(field_keys(fields)[i as int]->Str_0) {
                    Ok(v) => Flow::Done(Val::Leaf(v)),
                    Err(e) => Flow::Return(Val::Failure(Fault::Source(e))),
                }
            },
            if fields[i as int].default {
                s
            } else {
                State {
                    trace: s.trace.push(asked_for(field_keys(fields)[i as int]->Str_0)),
                    ..s
                }
            },
        ),
{
    let field = fields[i as int];
    let key = field_key(field);
    assert(field_keys(fields)[i as int] == key);
    if field.default {
        lemma_calls(Val::Unit, Fault::EndOfStream, seq![]);
        lemma_call0(depth, c, default_path(), s);
    } else {
        lemma_ops();
        lemma_parties();
        let v = Val::Str(key->Str_0);
        assert(key == SpecLit::Str(key->Str_0));
        assert(eval(depth, c, SpecExpr::Lit(key), s) == (Flow::Done(v), s));
        lemma_method1(depth, c, "visitor"@, "missing_field"@, SpecExpr::Lit(key), s, v);
        assert(seq![v][0] == v);
    }
}

/// `let __fieldk = match __fieldk { .. };`
proof fn lemma_extract_let(
    depth: nat,
    c: Context,
    fields: Seq<SpecField>,
    entries: Seq<Entry>,
    missing: spec_fn(Seq<char>) -> Result<int, int>,
    k: nat,
    s: State,
)
    requires
        depth > 0,
        c.input matches Input::Table { missing: m, .. } && m == missing,
        k < fields.len(),
        string_keys(field_keys(fields)),
        s.env == slot_env(field_keys(fields), entries, entries.len(), fields.len()) + value_env(
            fields,
            entries,
            missing,
            k,
        ),
    ensures
        ({
            let r = eval_stmt(depth, c, extract_let(fields[k as int], k), s);
            let trace = s.trace + missing_request(fields, entries, k);
            match field_value(fields, entries, missing, k) {
                Err(e) => effect(r) == (Flow::Return(Val::Failure(Fault::Source(e))), trace),
                Ok(v) => r == (
                    Flow::Done(Val::Unit),
                    State { env: s.env.push((field_ident(k), v)), trace, ..s },
                ),
            }
        }),
{
    let keys = field_keys(fields);
    let x = field_ident(k);
    let inner = value_env(fields, entries, missing, k);
    assert forall|j: int| 0 <= j < inner.len() implies (#[trigger] inner[j]).0 != x by {
        law_field_idents_distinct(j as nat, k);
    }
    lemma_slot_index(keys, entries, entries.len(), fields.len(), inner, k);
    let v = slot(last_value(keys, entries, entries.len(), k));
    assert(s.env[k as int] == (x, v));
    assert(ident_path(x).segments[0] == x);
    assert(eval(depth, c, var(x), s) == (Flow::Done(v), s));
    let none = missing_expr(fields[k as int]);
    let init = extract_let(fields[k as int], k)->init;
    assert(init->arms =~= option_arms(x, none));
    lemma_missing(depth, c, fields, k, s);
    lemma_option_arms(depth, c, v, x, none, s);
    let trace = s.trace + missing_request(fields, entries, k);
    if missing_request(fields, entries, k).len() == 0 {
        assert(trace =~= s.trace);
    } else {
        assert(trace =~= s.trace.push(asked_for(keys[k as int]->Str_0)));
    }
}

/// All of these `let`s from index `k` on.
proof fn lemma_extract_lets(
    depth: nat,
    c: Context,
    fields: Seq<SpecField>,
    entries: Seq<Entry>,
    missing: spec_fn(Seq<char>) -> Result<int, int>,
    k: nat,
    s: State,
)
    requires
        depth > 0,
        c.input matches Input::Table { missing: m, .. } && m == missing,
        k <= fields.len(),
        string_keys(field_keys(fields)),
        s.env == slot_env(field_keys(fields), entries, entries.len(), fields.len()) + value_env(
            fields,
            entries,
            missing,
            k,
        ),
    ensures
        ({
            let r = eval_stmts(depth, c, extract_lets(fields).skip(k as int), s);
            &&& r.1.trace == s.trace + missing_trace(fields, entries, missing, k)
            &&& match missing_fault(fields, entries, missing, k) {
                Some(f) => r.0 == Flow::Return(Val::Failure(f)),
                None => r.0 == Flow::Done(Val::Unit) && r.1.pos == s.pos && r.1.env == slot_env(
                    field_keys(fields),
                    entries,
                    entries.len(),
                    fields.len(),
                ) + value_env(fields, entries, missing, fields.len()),
            }
        }),
    decreases fields.len() - k,
{
    let stmts = extract_lets(fields).skip(k as int);
    if k == fields.len() {
        assert(stmts =~= seq![]);
        assert(s.trace + missing_trace(fields, entries, missing, k) =~= s.trace);
    } else {
        assert(stmts[0] == extract_let(fields[k as int], k));
        assert(stmts.drop_first() =~= extract_lets(fields).skip(k as int + 1));
        lemma_extract_let(depth, c, fields, entries, missing, k, s);
        if let Ok(v) = field_value(fields, entries, missing, k) {
            let slots = slot_env(field_keys(fields), entries, entries.len(), fields.len());
            let s1 = State {
                env: s.env.push((field_ident(k), v)),
                trace: s.trace + missing_request(fields, entries, k),
                ..s
            };
            assert(s1.env =~= slots + value_env(fields, entries, missing, (k + 1) as nat));
            lemma_extract_lets(depth, c, fields, entries, missing, (k + 1) as nat, s1);
            assert(s1.trace + missing_trace(fields, entries, missing, (k + 1) as nat) =~= s.trace
                + missing_trace(fields, entries, missing, k));
        }
    }
}

/// The fields of the struct expression from index `k` on.
proof fn lemma_field_inits(
    depth: nat,
    c: Context,
    fields: Seq<SpecField>,
    entries: Seq<Entry>,
    missing: spec_fn(Seq<char>) -> Result<int, int>,
    k: nat,
    s: State,
)
    requires
        k <= fields.len(),
        s.env == slot_env(field_keys(fields), entries, entries.len(), fields.len()) + value_env(
            fields,
            entries,
            missing,
            fields.len(),
        ),
    ensures
        eval_inits(depth, c, field_inits(fields).skip(k as int), s) == (
            Ok::<Seq<(Seq<char>, Val)>, Flow>(
                map_values(fields, entries, missing).skip(k as int),
            ),
            s,
        ),
    decreases fields.len() - k,
{
    let n = fields.len();
    let inits = field_inits(fields).skip(k as int);
    let vs = map_values(fields, entries, missing);
    if k == n {
        assert(inits =~= seq![]);
        assert(vs.skip(k as int) =~= seq![]);
    } else {
        let x = field_ident(k);
        assert(inits[0] == field_inits(fields)[k as int]);
        assert(inits.drop_first() =~= field_inits(fields).skip(k as int + 1));
        assert forall|j: int| n + k < j < s.env.len() implies (#[trigger] s.env[j]).0 != x by {
            law_field_idents_distinct((j - n) as nat, k);
        }
        lemma_last_index(s.env, x, (n + k) as int);
        assert(ident_path(x).segments[0] == x);
        assert(eval(depth, c, var(x), s) == (Flow::Done(vs[k as int].1), s));
        lemma_field_inits(depth, c, fields, entries, missing, (k + 1) as nat, s);
        assert(seq![vs[k as int]] + vs.skip(k as int + 1) =~= vs.skip(k as int));
    }
}

/// `Ok(path { .. })`
proof fn lemma_map_tail(
    depth: nat,
    c: Context,
    path: SpecPath,
    fields: Seq<SpecField>,
    entries: Seq<Entry>,
    missing: spec_fn(Seq<char>) -> Result<int, int>,
    s: State,
)
    requires
        s.env == slot_env(field_keys(fields), entries, entries.len(), fields.len()) + value_env(
            fields,
            entries,
            missing,
            fields.len(),
        ),
    ensures
        eval(
            depth,
            c,
            ok_expr(SpecExpr::Struct { path, fields: field_inits(fields) }),
            s,
        ) == (
            Flow::Done(
                Val::Success(
                    Box::new(
                        Val::Record {
                            path: path.segments,
                            fields: map_values(fields, entries, missing),
                        },
                    ),
                ),
            ),
            s,
        ),
{
    let vs = map_values(fields, entries, missing);
    lemma_field_inits(depth, c, fields, entries, missing, 0, s);
    assert(field_inits(fields).skip(0) =~= field_inits(fields));
    assert(vs.skip(0) =~= vs);
    let e = SpecExpr::Struct { path, fields: field_inits(fields) };
    let v = Val::Record { path: path.segments, fields: vs };
    assert(eval(depth, c, e, s) == (Flow::Done(v), s));
    lemma_call1(depth, c, ident_path("Ok"@), e, s, v);
    lemma_calls(v, Fault::EndOfStream, seq![]);
}

/// The statements up to the end of the loop.
proof fn lemma_map_entries(
    depth: nat,
    c: Context,
    keys: Seq<SpecLit>,
    entries: Seq<Entry>,
)
    requires
        depth >= 2,
        c.input matches Input::Table { entries: e, .. } && e == entries,
        reads_keys(c.scope, keys),
    ensures
        ({
            let n = keys.len();
            let stmts = map_lets(n) + seq![SpecStmt::Expr(map_loop(n))];
            let r = eval_stmts(depth, c, stmts, start(seq![]));
            &&& r.1.trace == entries_trace(keys, entries, 0)
            &&& match map_fault(keys, entries, 0) {
                Some(f) => r.0 == Flow::Return(Val::Failure(f)),
                None => r.0 == Flow::Done(Val::Unit) && r.1.env == slot_env(
                    keys,
                    entries,
                    entries.len(),
                    n,
                ) && r.1.pos == entries.len(),
            }
        }),
{
    let n = keys.len();
    let s0 = start(seq![]);
    let s1 = start(slot_env(keys, entries, 0, n));
    let last = SpecStmt::Expr(map_loop(n));
    assert(s0.env =~= slot_env(keys, entries, 0, 0));
    assert(map_lets(n).skip(0) =~= map_lets(n));
    lemma_map_lets(depth, c, keys, entries, n, 0);
    lemma_stmts_append(depth, c, map_lets(n), seq![last], s0);
    lemma_stmts1(depth, c, last, s1);
    lemma_map_loop(depth, c, keys, entries, 0, seq![]);
    assert(Seq::<Request>::empty() + entries_trace(keys, entries, 0) =~= entries_trace(
        keys,
        entries,
        0,
    ));
    assert(eval_stmt(depth, c, last, s1) == eval(depth, c, map_loop(n), s1));
}

/// The statements behind the loop.
proof fn lemma_map_values(
    depth: nat,
    c: Context,
    fields: Seq<SpecField>,
    entries: Seq<Entry>,
    missing: spec_fn(Seq<char>) -> Result<int, int>,
    end: Result<(), int>,
    s: State,
)
    requires
        depth > 0,
        c.input == (Input::Table { entries, missing, end }),
        string_keys(field_keys(fields)),
        s.env == slot_env(field_keys(fields), entries, entries.len(), fields.len()),
    ensures
        ({
            let stmts = extract_lets(fields) + seq![end_stmt()];
            let r = eval_stmts(depth, c, stmts, s);
            let fault = missing_fault(fields, entries, missing, 0);
            &&& r.1.trace == s.trace + (missing_trace(fields, entries, missing, 0) + ending(
                fault,
            ))
            &&& match (fault, end) {
                (Some(f), _) => r.0 == Flow::Return(Val::Failure(f)),
                (None, Err(e)) => r.0 == Flow::Return(Val::Failure(Fault::Source(e))),
                (None, Ok(_)) => r.0 == Flow::Done(Val::Unit) && r.1.env == s.env + value_env(
                    fields,
                    entries,
                    missing,
                    fields.len(),
                ) && r.1.pos == s.pos,
            }
        }),
{
    let lets = extract_lets(fields);
    let missed = missing_trace(fields, entries, missing, 0);
    assert(s.env =~= s.env + value_env(fields, entries, missing, 0));
    assert(lets.skip(0) =~= lets);
    lemma_extract_lets(depth, c, fields, entries, missing, 0, s);
    lemma_stmts_append(depth, c, lets, seq![end_stmt()], s);
    if missing_fault(fields, entries, missing, 0) is None {
        let s1 = State {
            env: s.env + value_env(fields, entries, missing, fields.len()),
            trace: s.trace + missed,
            ..s
        };
        lemma_stmts1(depth, c, end_stmt(), s1);
        lemma_end(depth, c, end, s1);
        assert(s1.trace.push(asked("end"@)) =~= s.trace + (missed + seq![asked("end"@)]));
    } else {
        assert(missed + Seq::<Request>::empty() =~= missed);
    }
}

/// The code that reads a map.
pub proof fn lemma_map_expr(
    depth: nat,
    c: Context,
    path: SpecPath,
    fields: Seq<SpecField>,
    entries: Seq<Entry>,
    missing: spec_fn(Seq<char>) -> Result<int, int>,
    end: Result<(), int>,
)
    requires
        depth >= 2,
        c.input == (Input::Table { entries, missing, end }),
        reads_keys(c.scope, field_keys(fields)),
        string_keys(field_keys(fields)),
    ensures
        method_effect(
            eval_block(depth, c, block(seq![], map_expr(path, fields)), start(seq![])),
        ) == (
            Flow::Done(map_result(path.segments, fields, entries, missing, end)),
            map_trace(fields, entries, missing),
        ),
{
    let s0 = start(seq![]);
    let keys = field_keys(fields);
    let n = fields.len();
    let first = map_lets(n) + seq![SpecStmt::Expr(map_loop(n))];
    let second = extract_lets(fields) + seq![end_stmt()];
    let stmts = (map_lets(n).push(SpecStmt::Expr(map_loop(n))) + extract_lets(fields)).push(
        end_stmt(),
    );
    let tail = ok_expr(SpecExpr::Struct { path, fields: field_inits(fields) });
    assert(stmts =~= first + second);
    lemma_plain_flow(depth, c, map_expr(path, fields), s0);
    lemma_no_decls(stmts);
    lemma_block_flow(depth, c, stmts, tail, s0);
    lemma_stmts_append(depth, c, first, second, s0);
    lemma_map_entries(depth, c, keys, entries);
    if map_fault(keys, entries, 0) is None {
        let s1 = State {
            env: slot_env(keys, entries, entries.len(), n),
            pos: entries.len(),
            trace: entries_trace(keys, entries, 0),
        };
        lemma_map_values(depth, c, fields, entries, missing, end, s1);
        let s2 = State {
            env: s1.env + value_env(fields, entries, missing, n),
            pos: s1.pos,
            trace: map_trace(fields, entries, missing),
        };
        lemma_map_tail(depth, c, path, fields, entries, missing, s2);
    }
}

} // verus!
