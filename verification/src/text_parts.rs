//! That source text is read back: literals, parameters, patterns and attributes.
use vstd::prelude::*;

use crate::code::{SpecGenerics, SpecLifetimeDef, SpecLit, SpecPat, SpecTy, SpecTyParam};
use crate::parse::{
    bracket_index, deeper, ends_run, read_attr, read_bounds, read_generics, read_lifetime_def,
    read_lifetimes, read_lit, read_params, read_pat, read_predicates, read_run, read_ty_param,
    read_where, read_words, run_len, starts_arrow, starts_lifetime, starts_lit, strip, word_char,
};
use crate::print::{
    attr_text, comma_text, default_text, generics_text, join, law_literal, lifetime_text, lit_text,
    pat_text, path_text, ty_param_text, ty_text, tys_texts, where_text,
};
use crate::source::{
    all_lifetimes, all_names, attr_ok, bounds_ok, flat_generics, flat_param, generics_ok,
    is_lifetime, is_name, lifetime_def_ok, lit_ok, pat_ok, run_end, run_ok, ty_param_ok, word_ends,
};
use crate::text_types::{
    behind_first, lemma_assoc, lemma_join_first, lemma_join_one, lemma_lifetime, lemma_list,
    lemma_lits, lemma_nil, lemma_no_strip, lemma_path, lemma_strip, lemma_word,
};

verus! {

pub proof fn lemma_lit(l: SpecLit, r: Seq<char>)
    requires
        lit_ok(l),
        word_ends(r),
    ensures
        read_lit(lit_text(l) + r) == Some((l, r)),
        lit_text(l).len() > 0,
        starts_lit(lit_text(l)),
{
    match l {
        SpecLit::Str(s) => {
            law_literal(s, r);
            lemma_lits();
            assert(lit_text(l)[0] == '"');
        },
        SpecLit::Verbatim(s) => {
            lemma_word(s, r);
            assert((s + r)[0] == s[0]);
        },
    }
}

// Runs of text
// ------------

proof fn lemma_run_len(s: Seq<char>, r: Seq<char>, clause: bool, open: nat)
    requires
        run_end(s, clause, open) == Some(0nat),
        s.len() > 0 ==> s.last() != '-',
    ensures
        run_len(s + r, clause, open) == s.len() + run_len(r, clause, 0),
    decreases s.len(),
{
    if s.len() == 0 {
        assert(s + r =~= r);
    } else if starts_arrow(s) {
        assert((s + r)[0] == s[0] && (s + r)[1] == s[1]);
        assert((s + r).skip(2) =~= s.skip(2) + r);
        lemma_run_len(s.skip(2), r, clause, open);
    } else {
        if s.len() > 1 {
            assert((s + r)[1] == s[1]);
        }
        assert((s + r)[0] == s[0]);
        assert((s + r).skip(1) =~= s.skip(1) + r);
        lemma_run_len(s.skip(1), r, clause, deeper(s[0], open));
    }
}

/// What ends a run stands here, perhaps behind a blank.
pub open spec fn run_ends(r: Seq<char>, clause: bool) -> bool {
    r.len() > 0 && (ends_run(r[0], clause) || (r[0] == ' ' && r.len() > 1 && ends_run(
        r[1],
        clause,
    )))
}

pub proof fn lemma_text_run(s: Seq<char>, r: Seq<char>, clause: bool)
    requires
        run_ok(s, clause),
        run_ends(r, clause),
    ensures
        read_run(s + r, clause) == (s, r),
{
    let t = s + r;
    lemma_run_len(s, r, clause, 0);
    assert(t[s.len() - 1] == s.last());
    assert(t.take(s.len() as int) =~= s);
    assert(t.skip(s.len() as int) =~= r);
    if !ends_run(r[0], clause) {
        assert(r.skip(1)[0] == r[1]);
        assert(deeper(r[0], 0) == 0);
        assert(run_len(r.skip(1), clause, 0) == 0);
        assert(run_len(r, clause, 0) == 1);
        assert(t[s.len() as int] == ' ');
    }
}

// Parameters
// ----------

/// What follows a parameter.
pub open spec fn param_ends(r: Seq<char>) -> bool {
    r.len() > 0 && (r[0] == ',' || r[0] == '>')
}

proof fn lemma_lifetimes(fuel: nat, ls: Seq<Seq<char>>, r: Seq<char>)
    requires
        ls.len() > 0,
        all_lifetimes(ls),
        param_ends(r),
        fuel >= join(ls, " + "@).len(),
    ensures
        read_lifetimes(fuel, join(ls, " + "@) + r) == (ls, r),
    decreases ls.len(),
{
    broadcast use lemma_assoc;

    lemma_lits();
    let l = ls[0];
    assert(is_lifetime(l));
    if ls.len() == 1 {
        lemma_join_one(ls, " + "@);
        lemma_lifetime(l, r);
        lemma_no_strip(r, " + "@);
        assert(ls =~= seq![l]);
    } else {
        let rest = ls.drop_first();
        let tail = join(rest, " + "@) + r;
        lemma_join_first(ls, " + "@);
        assert forall|i: int| 0 <= i < rest.len() implies is_lifetime(#[trigger] rest[i]) by {
            assert(is_lifetime(ls[i + 1]));
        }
        assert((" + "@ + tail)[0] == ' ');
        lemma_lifetime(l, " + "@ + tail);
        lemma_strip(" + "@, tail);
        lemma_lifetimes((fuel - 1) as nat, rest, r);
        assert(ls =~= seq![l] + rest);
    }
}

/// What follows the bounds of a type parameter.
pub open spec fn bounds_end(r: Seq<char>) -> bool {
    param_ends(r) || (r.len() > 1 && r[0] == ' ' && r[1] == '=')
}

proof fn lemma_bounds(fuel: nat, bounds: Seq<SpecTy>, r: Seq<char>)
    requires
        bounds.len() > 0,
        bounds_ok(bounds),
        bounds_end(r),
        fuel >= join(tys_texts(bounds), " + "@).len(),
    ensures
        read_bounds(fuel, join(tys_texts(bounds), " + "@) + r) == (
            Seq::new(bounds.len(), |i: int| SpecTy::Verbatim(ty_text(bounds[i]))),
            r,
        ),
    decreases bounds.len(),
{
    broadcast use lemma_assoc;

    lemma_lits();
    let texts = tys_texts(bounds);
    let all = Seq::new(bounds.len(), |i: int| SpecTy::Verbatim(ty_text(bounds[i])));
    let b = texts[0];
    assert(run_ok(ty_text(bounds[0]), false));
    assert(b == ty_text(bounds[0]));
    if bounds.len() == 1 {
        lemma_join_one(texts, " + "@);
        lemma_text_run(b, r, false);
        lemma_no_strip(r, " + "@);
        assert(all =~= seq![SpecTy::Verbatim(b)]);
    } else {
        let rest = bounds.drop_first();
        let tail = join(tys_texts(rest), " + "@) + r;
        lemma_join_first(texts, " + "@);
        assert(texts.drop_first() =~= tys_texts(rest));
        assert forall|i: int| 0 <= i < rest.len() implies run_ok(
            ty_text(#[trigger] rest[i]),
            false,
        ) by {
            assert(run_ok(ty_text(bounds[i + 1]), false));
        }
        assert((" + "@ + tail)[0] == ' ');
        assert((" + "@ + tail)[1] == '+');
        lemma_text_run(b, " + "@ + tail, false);
        lemma_strip(" + "@, tail);
        lemma_bounds((fuel - 1) as nat, rest, r);
        assert(all =~= seq![SpecTy::Verbatim(b)] + Seq::new(
            rest.len(),
            |i: int| SpecTy::Verbatim(ty_text(rest[i])),
        ));
    }
}

proof fn lemma_lifetime_def(l: SpecLifetimeDef, r: Seq<char>)
    requires
        lifetime_def_ok(l),
        param_ends(r),
    ensures
        read_lifetime_def(lifetime_text(l) + r) == (l, r),
        starts_lifetime(lifetime_text(l) + r),
        lifetime_text(l).len() > 0,
{
    broadcast use lemma_assoc;

    lemma_lits();
    if l.bounds.len() == 0 {
        assert(lifetime_text(l) =~= l.name);
        lemma_lifetime(l.name, r);
        lemma_no_strip(r, ": "@);
        assert(l.bounds =~= seq![]);
    } else {
        let list = join(l.bounds, " + "@) + r;
        assert(lifetime_text(l) + r == l.name + (": "@ + list));
        assert((": "@ + list)[0] == ':');
        lemma_lifetime(l.name, ": "@ + list);
        lemma_strip(": "@, list);
        lemma_lifetimes(list.len(), l.bounds, r);
    }
}

/// The default of a type parameter.
proof fn lemma_default(p: SpecTyParam, bounds: Seq<SpecTy>, r: Seq<char>)
    requires
        ty_param_ok(p),
        param_ends(r),
        bounds == flat_param(p).bounds,
    ensures
        ({
            let t = default_text(p.default) + r;
            &&& bounds_end(t)
            &&& match strip(t, " = "@) {
                Some(r3) => p.default is Some && read_run(r3, false) == (
                    ty_text(p.default->0),
                    r,
                ),
                None => p.default is None && t == r,
            }
        }),
{
    broadcast use lemma_assoc;

    lemma_lits();
    match p.default {
        Some(d) => {
            let tail = ty_text(d) + r;
            assert(default_text(p.default) + r == " = "@ + tail);
            lemma_strip(" = "@, tail);
            lemma_text_run(ty_text(d), r, false);
            assert((" = "@ + tail)[0] == ' ');
            assert((" = "@ + tail)[1] == '=');
        },
        None => {
            lemma_nil(r);
            lemma_no_strip(r, " = "@);
        },
    }
}

proof fn lemma_ty_param(p: SpecTyParam, r: Seq<char>)
    requires
        ty_param_ok(p),
        param_ends(r),
    ensures
        read_ty_param(ty_param_text(p) + r) == (flat_param(p), r),
        !starts_lifetime(ty_param_text(p) + r),
        ty_param_text(p).len() > 0,
{
    broadcast use lemma_assoc;

    lemma_lits();
    let behind = default_text(p.default) + r;
    let flat = flat_param(p);
    lemma_default(p, flat.bounds, r);
    let t = ty_param_text(p) + r;
    assert(t[0] == p.ident[0]);
    if p.bounds.len() == 0 {
        assert(tys_texts(p.bounds).len() == 0);
        lemma_nil(behind);
        assert(p.ident + Seq::<char>::empty() =~= p.ident);
        assert(t == p.ident + behind);
        lemma_word(p.ident, behind);
        lemma_no_strip(behind, ": "@);
        assert(flat.bounds =~= seq![]);
    } else {
        let list = join(tys_texts(p.bounds), " + "@) + behind;
        assert(t == p.ident + (": "@ + list));
        assert((": "@ + list)[0] == ':');
        lemma_word(p.ident, ": "@ + list);
        lemma_strip(": "@, list);
        lemma_bounds(list.len(), p.bounds, behind);
    }
}

/// The texts of parameters.
pub open spec fn params_texts(ls: Seq<SpecLifetimeDef>, ps: Seq<SpecTyParam>) -> Seq<Seq<char>> {
    Seq::new(ls.len(), |i: int| lifetime_text(ls[i])) + Seq::new(
        ps.len(),
        |i: int| ty_param_text(ps[i]),
    )
}

proof fn lemma_params(
    fuel: nat,
    ls: Seq<SpecLifetimeDef>,
    ps: Seq<SpecTyParam>,
    r: Seq<char>,
)
    requires
        ls.len() + ps.len() > 0,
        forall|i: int| 0 <= i < ls.len() ==> lifetime_def_ok(#[trigger] ls[i]),
        forall|i: int| 0 <= i < ps.len() ==> ty_param_ok(#[trigger] ps[i]),
        r.len() > 0,
        r[0] == '>',
        fuel >= comma_text(params_texts(ls, ps)).len(),
    ensures
        read_params(fuel, comma_text(params_texts(ls, ps)) + r) == Some(
            (ls, Seq::new(ps.len(), |i: int| flat_param(ps[i])), r),
        ),
    decreases ls.len() + ps.len(), 1nat,
{
    if ls.len() > 0 {
        lemma_lifetime_params(fuel, ls, ps, r);
    } else {
        assert(ls =~= seq![]);
        lemma_ty_params(fuel, ps, r);
    }
}

/// Parameters of which the first is a lifetime.
proof fn lemma_lifetime_params(
    fuel: nat,
    ls: Seq<SpecLifetimeDef>,
    ps: Seq<SpecTyParam>,
    r: Seq<char>,
)
    requires
        ls.len() > 0,
        forall|i: int| 0 <= i < ls.len() ==> lifetime_def_ok(#[trigger] ls[i]),
        forall|i: int| 0 <= i < ps.len() ==> ty_param_ok(#[trigger] ps[i]),
        r.len() > 0,
        r[0] == '>',
        fuel >= comma_text(params_texts(ls, ps)).len(),
    ensures
        read_params(fuel, comma_text(params_texts(ls, ps)) + r) == Some(
            (ls, Seq::new(ps.len(), |i: int| flat_param(ps[i])), r),
        ),
    decreases ls.len() + ps.len(), 0nat,
{
    lemma_lits();
    let texts = params_texts(ls, ps);
    let flat = Seq::new(ps.len(), |i: int| flat_param(ps[i]));
    let behind = behind_first(texts, ", "@, r);
    let l = ls[0];
    let rest = ls.drop_first();
    assert(lifetime_def_ok(l));
    assert(texts[0] == lifetime_text(l));
    assert(texts.drop_first() =~= params_texts(rest, ps));
    lemma_list(texts, ", "@, r);
    if texts.len() == 1 {
        lemma_no_strip(r, ", "@);
        lemma_lifetime_def(l, r);
        assert(ls =~= seq![l]);
        assert(flat =~= seq![]);
    } else {
        let tail = comma_text(texts.drop_first()) + r;
        lemma_strip(", "@, tail);
        assert(behind[0] == ',');
        assert forall|i: int| 0 <= i < rest.len() implies lifetime_def_ok(
            #[trigger] rest[i],
        ) by {
            assert(lifetime_def_ok(ls[i + 1]));
        }
        lemma_lifetime_def(l, behind);
        lemma_params((fuel - 1) as nat, rest, ps, r);
        assert(ls =~= seq![l] + rest);
    }
}

/// Type parameters.
proof fn lemma_ty_params(fuel: nat, ps: Seq<SpecTyParam>, r: Seq<char>)
    requires
        ps.len() > 0,
        forall|i: int| 0 <= i < ps.len() ==> ty_param_ok(#[trigger] ps[i]),
        r.len() > 0,
        r[0] == '>',
        fuel >= comma_text(params_texts(seq![], ps)).len(),
    ensures
        read_params(fuel, comma_text(params_texts(seq![], ps)) + r) == Some(
            (
                Seq::<SpecLifetimeDef>::empty(),
                Seq::new(ps.len(), |i: int| flat_param(ps[i])),
                r,
            ),
        ),
    decreases ps.len(), 0nat,
{
    lemma_lits();
    let texts = params_texts(seq![], ps);
    let flat = Seq::new(ps.len(), |i: int| flat_param(ps[i]));
    let behind = behind_first(texts, ", "@, r);
    let p = ps[0];
    let rest = ps.drop_first();
    assert(ty_param_ok(p));
    assert(texts[0] == ty_param_text(p));
    assert(texts.drop_first() =~= params_texts(seq![], rest));
    lemma_list(texts, ", "@, r);
    if texts.len() == 1 {
        lemma_no_strip(r, ", "@);
        lemma_ty_param(p, r);
        assert(flat =~= seq![flat_param(p)]);
    } else {
        let tail = comma_text(texts.drop_first()) + r;
        lemma_strip(", "@, tail);
        assert(behind[0] == ',');
        assert forall|i: int| 0 <= i < rest.len() implies ty_param_ok(#[trigger] rest[i]) by {
            assert(ty_param_ok(ps[i + 1]));
        }
        lemma_ty_param(p, behind);
        lemma_ty_params((fuel - 1) as nat, rest, r);
        assert(flat =~= seq![flat_param(p)] + Seq::new(
            rest.len(),
            |i: int| flat_param(rest[i]),
        ));
    }
}

pub proof fn lemma_generics(g: SpecGenerics, r: Seq<char>)
    requires
        generics_ok(g),
        r.len() > 0,
        r[0] != '<',
    ensures
        read_generics(generics_text(g) + r) == Some(
            (SpecGenerics { where_clause: seq![], ..flat_generics(g) }, r),
        ),
        generics_text(g).len() == 0 || generics_text(g)[0] == '<',
{
    broadcast use lemma_assoc;

    lemma_lits();
    let texts = params_texts(g.lifetimes, g.ty_params);
    assert(texts =~= Seq::new(g.lifetimes.len(), |i: int| lifetime_text(g.lifetimes[i]))
        + Seq::new(g.ty_params.len(), |i: int| ty_param_text(g.ty_params[i])));
    if texts.len() == 0 {
        lemma_nil(r);
        lemma_no_strip(r, "<"@);
        assert(flat_generics(g).lifetimes =~= seq![]);
        assert(flat_generics(g).ty_params =~= seq![]);
    } else {
        let behind = ">"@ + r;
        let list = comma_text(texts) + behind;
        assert(generics_text(g) + r == "<"@ + list);
        lemma_strip("<"@, list);
        assert(behind[0] == '>');
        lemma_params(list.len(), g.lifetimes, g.ty_params, behind);
        lemma_strip(">"@, r);
        assert(generics_text(g)[0] == '<');
    }
}

/// What follows a `where` clause.
pub open spec fn clause_ends(r: Seq<char>) -> bool {
    r.len() > 0 && (r[0] == ';' || (r.len() > 1 && r[0] == ' ' && r[1] == '{'))
}

proof fn lemma_predicates(fuel: nat, ps: Seq<Seq<char>>, r: Seq<char>)
    requires
        ps.len() > 0,
        forall|i: int| 0 <= i < ps.len() ==> run_ok(#[trigger] ps[i], true),
        clause_ends(r),
        fuel >= comma_text(ps).len(),
    ensures
        read_predicates(fuel, comma_text(ps) + r) == (ps, r),
    decreases ps.len(),
{
    broadcast use lemma_assoc;

    lemma_lits();
    let p = ps[0];
    assert(run_ok(p, true));
    if ps.len() == 1 {
        lemma_join_one(ps, ", "@);
        lemma_text_run(p, r, true);
        lemma_no_strip(r, ", "@);
        assert(ps =~= seq![p]);
    } else {
        let rest = ps.drop_first();
        let tail = comma_text(rest) + r;
        lemma_join_first(ps, ", "@);
        assert forall|i: int| 0 <= i < rest.len() implies run_ok(#[trigger] rest[i], true) by {
            assert(run_ok(ps[i + 1], true));
        }
        assert((", "@ + tail)[0] == ',');
        lemma_text_run(p, ", "@ + tail, true);
        lemma_strip(", "@, tail);
        lemma_predicates((fuel - 1) as nat, rest, r);
        assert(ps =~= seq![p] + rest);
    }
}

pub proof fn lemma_where(g: SpecGenerics, r: Seq<char>)
    requires
        generics_ok(g),
        clause_ends(r),
    ensures
        read_where(where_text(g) + r) == (g.where_clause, r),
        (where_text(g) + r)[0] == ' ' || (where_text(g) + r)[0] == ';',
{
    broadcast use lemma_assoc;

    lemma_lits();
    if g.where_clause.len() == 0 {
        lemma_nil(r);
        lemma_no_strip(r, " where "@);
        assert(g.where_clause =~= seq![]);
    } else {
        let list = comma_text(g.where_clause) + r;
        assert(where_text(g) + r == " where "@ + list);
        lemma_strip(" where "@, list);
        lemma_predicates(list.len(), g.where_clause, r);
    }
}

// Patterns, attributes and words
// ------------------------------

pub proof fn lemma_pat(p: SpecPat, r: Seq<char>)
    requires
        pat_ok(p),
        r.len() > 0,
        r[0] == ' ',
    ensures
        read_pat(pat_text(p) + r) == Some((p, r)),
        pat_text(p).len() > 0,
        pat_text(p)[0] != ' ',
        pat_text(p)[0] != '}',
{
    broadcast use lemma_assoc;

    lemma_lits();
    reveal_strlit("_");
    let t = pat_text(p) + r;
    match p {
        SpecPat::Wild => {
            assert(t[0] == '_');
            lemma_word("_"@, r);
        },
        SpecPat::Lit(l) => {
            lemma_lit(l, r);
            assert(t[0] == lit_text(l)[0]);
        },
        SpecPat::Path(path) => {
            lemma_path(path, r);
            assert(t[0] == path_text(path)[0]);
            assert(is_name(path.segments[0]));
            lemma_no_strip(r, "("@);
        },
        SpecPat::TupleStruct { path, ident } => {
            let close = ")"@ + r;
            let tail = ident + close;
            assert(t == path_text(path) + ("("@ + tail));
            assert(("("@ + tail)[0] == '(');
            lemma_path(path, "("@ + tail);
            assert(t[0] == path_text(path)[0]);
            assert(is_name(path.segments[0]));
            lemma_strip("("@, tail);
            assert(close[0] == ')');
            lemma_word(ident, close);
            lemma_strip(")"@, r);
        },
    }
}

proof fn lemma_bracket(a: Seq<char>, r: Seq<char>)
    requires
        forall|i: int| 0 <= i < a.len() ==> #[trigger] a[i] != ']',
        r.len() > 0,
        r[0] == ']',
    ensures
        bracket_index(a + r) == a.len(),
    decreases a.len(),
{
    if a.len() == 0 {
        assert(a + r =~= r);
    } else {
        assert((a + r)[0] == a[0]);
        assert((a + r).skip(1) =~= a.skip(1) + r);
        assert forall|i: int| 0 <= i < a.skip(1).len() implies #[trigger] a.skip(1)[i] != ']' by {
            assert(a[i + 1] != ']');
        }
        lemma_bracket(a.skip(1), r);
    }
}

pub proof fn lemma_attr(attr: Option<Seq<char>>, r: Seq<char>)
    requires
        attr_ok(attr),
        r.len() > 0,
        r[0] != '#',
    ensures
        read_attr(attr_text(attr) + r) == (attr, r),
        attr is Some ==> attr_text(attr).len() > 0 && attr_text(attr)[0] == '#' && strip(
            attr_text(attr) + r,
            "#["@,
        ) is Some,
        attr is None ==> attr_text(attr) + r == r && strip(r, "#["@) is None,
{
    broadcast use lemma_assoc;

    lemma_lits();
    match attr {
        Some(a) => {
            let close = "] "@ + r;
            assert(attr_text(attr) + r == "#["@ + (a + close));
            lemma_strip("#["@, a + close);
            assert(close[0] == ']');
            lemma_bracket(a, close);
            assert((a + close).take(a.len() as int) =~= a);
            assert((a + close).skip(a.len() as int + 2) =~= r);
        },
        None => {
            lemma_nil(r);
            lemma_no_strip(r, "#["@);
        },
    }
}

pub proof fn lemma_words(fuel: nat, ws: Seq<Seq<char>>, r: Seq<char>)
    requires
        ws.len() > 0,
        all_names(ws),
        r.len() > 0,
        r[0] == ' ',
        fuel >= comma_text(ws).len(),
    ensures
        read_words(fuel, comma_text(ws) + r) == (ws, r),
        comma_text(ws).len() > 0,
        word_char(comma_text(ws)[0]),
    decreases ws.len(),
{
    broadcast use lemma_assoc;

    lemma_lits();
    let w = ws[0];
    assert(is_name(w));
    if ws.len() == 1 {
        lemma_join_one(ws, ", "@);
        lemma_word(w, r);
        lemma_no_strip(r, ", "@);
        assert(ws =~= seq![w]);
    } else {
        let rest = ws.drop_first();
        let tail = comma_text(rest) + r;
        lemma_join_first(ws, ", "@);
        assert forall|i: int| 0 <= i < rest.len() implies is_name(#[trigger] rest[i]) by {
            assert(is_name(ws[i + 1]));
        }
        assert((", "@ + tail)[0] == ',');
        lemma_word(w, ", "@ + tail);
        lemma_strip(", "@, tail);
        lemma_words((fuel - 1) as nat, rest, r);
        assert(ws =~= seq![w] + rest);
    }
}

} // verus!
