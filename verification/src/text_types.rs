//! That source text is read back: words, paths, types and parameters.
use vstd::prelude::*;

use crate::code::{SpecPath, SpecTy};
use crate::parse::{
    after_word, digit_char, read_lifetime, read_path, read_segments, read_ty, read_ty_args,
    starts_lifetime, strip, word, word_char, word_len,
};
use crate::print::{angles, comma_text, join, path_text, ty_text, tys_texts};
use crate::source::{
    all_lifetimes, all_names, all_word, is_lifetime, is_name, path_ends, path_ok, ty_ends, ty_ok,
    tys_ok, word_ends,
};

verus! {

// Texts
// -----

/// Texts can be joined from either side.
pub broadcast proof fn lemma_assoc(a: Seq<char>, b: Seq<char>, c: Seq<char>)
    ensures
        #[trigger] ((a + b) + c) == a + (b + c),
{
    assert((a + b) + c =~= a + (b + c));
}

pub proof fn lemma_nil(a: Seq<char>)
    ensures
        Seq::<char>::empty() + a == a,
{
    assert(Seq::<char>::empty() + a =~= a);
}

/// How the fixed parts of source text begin.
pub proof fn lemma_lits()
    ensures
        "::"@.len() == 2,
        "::"@[0] == ':',
        "::"@[1] == ':',
        "&"@.len() == 1,
        "&"@[0] == '&',
        "mut "@.len() == 4,
        "mut "@[0] == 'm',
        "mut "@[1] == 'u',
        "<"@.len() == 1,
        "<"@[0] == '<',
        ", "@.len() == 2,
        ", "@[0] == ',',
        ", "@[1] == ' ',
        ">"@.len() == 1,
        ">"@[0] == '>',
        " + "@.len() == 3,
        " + "@[0] == ' ',
        " + "@[1] == '+',
        ": "@.len() == 2,
        ": "@[0] == ':',
        ": "@[1] == ' ',
        " = "@.len() == 3,
        " = "@[0] == ' ',
        " = "@[1] == '=',
        " where "@.len() == 7,
        " where "@[0] == ' ',
        " where "@[1] == 'w',
        "_"@.len() == 1,
        "_"@[0] == '_',
        "("@.len() == 1,
        "("@[0] == '(',
        ")"@.len() == 1,
        ")"@[0] == ')',
        "#["@.len() == 2,
        "#["@[0] == '#',
        "#["@[1] == '[',
        "] "@.len() == 2,
        "] "@[0] == ']',
        "] "@[1] == ' ',
        "match "@.len() == 6,
        "match "@[0] == 'm',
        "match "@[1] == 'a',
        " { "@.len() == 3,
        " { "@[0] == ' ',
        " { "@[1] == '{',
        " }"@.len() == 2,
        " }"@[0] == ' ',
        " }"@[1] == '}',
        "while let "@.len() == 10,
        "while let "@[0] == 'w',
        "while let "@[1] == 'h',
        " "@.len() == 1,
        " "@[0] == ' ',
        "return "@.len() == 7,
        "return "@[0] == 'r',
        "return "@[1] == 'e',
        "try!("@.len() == 5,
        "try!("@[0] == 't',
        "try!("@[1] == 'r',
        "."@.len() == 1,
        "."@[0] == '.',
        ","@.len() == 1,
        ","@[0] == ',',
        " => "@.len() == 4,
        " => "@[0] == ' ',
        " => "@[1] == '=',
        "{ "@.len() == 2,
        "{ "@[0] == '{',
        "{ "@[1] == ' ',
        "let "@.len() == 4,
        "let "@[0] == 'l',
        "let "@[1] == 'e',
        ";"@.len() == 1,
        ";"@[0] == ';',
        "enum "@.len() == 5,
        "enum "@[0] == 'e',
        "enum "@[1] == 'n',
        "struct "@.len() == 7,
        "struct "@[0] == 's',
        "struct "@[1] == 't',
        "impl"@.len() == 4,
        "impl"@[0] == 'i',
        "impl"@[1] == 'm',
        " for "@.len() == 5,
        " for "@[0] == ' ',
        " for "@[1] == 'f',
        "type Value = "@.len() == 13,
        "type Value = "@[0] == 't',
        "type Value = "@[1] == 'y',
        "&mut self"@.len() == 9,
        "&mut self"@[0] == '&',
        "&mut self"@[1] == 'm',
        "&mut self, "@.len() == 11,
        "&mut self, "@[0] == '&',
        "&mut self, "@[1] == 'm',
        "fn "@.len() == 3,
        "fn "@[0] == 'f',
        "fn "@[1] == 'n',
        ">("@.len() == 2,
        ">("@[0] == '>',
        ">("@[1] == '(',
        ") -> "@.len() == 5,
        ") -> "@[0] == ')',
        ") -> "@[1] == ' ',
        "\""@.len() == 1,
        "\""@[0] == '"',
{
    reveal_strlit("::");
    reveal_strlit("&");
    reveal_strlit("mut ");
    reveal_strlit("<");
    reveal_strlit(", ");
    reveal_strlit(">");
    reveal_strlit(" + ");
    reveal_strlit(": ");
    reveal_strlit(" = ");
    reveal_strlit(" where ");
    reveal_strlit("_");
    reveal_strlit("(");
    reveal_strlit(")");
    reveal_strlit("#[");
    reveal_strlit("] ");
    reveal_strlit("match ");
    reveal_strlit(" { ");
    reveal_strlit(" }");
    reveal_strlit("while let ");
    reveal_strlit(" ");
    reveal_strlit("return ");
    reveal_strlit("try!(");
    reveal_strlit(".");
    reveal_strlit(",");
    reveal_strlit(" => ");
    reveal_strlit("{ ");
    reveal_strlit("let ");
    reveal_strlit(";");
    reveal_strlit("enum ");
    reveal_strlit("struct ");
    reveal_strlit("impl");
    reveal_strlit(" for ");
    reveal_strlit("type Value = ");
    reveal_strlit("&mut self");
    reveal_strlit("&mut self, ");
    reveal_strlit("fn ");
    reveal_strlit(">(");
    reveal_strlit(") -> ");
    reveal_strlit("\"");
}

/// The text behind what it starts with.
pub proof fn lemma_strip(lit: Seq<char>, r: Seq<char>)
    ensures
        strip(lit + r, lit) == Some(r),
{
    assert((lit + r).take(lit.len() as int) =~= lit);
    assert((lit + r).skip(lit.len() as int) =~= r);
}

/// A text that starts otherwise.
pub proof fn lemma_no_strip(t: Seq<char>, lit: Seq<char>)
    requires
        lit.len() > 0,
        t.len() == 0 || t[0] != lit[0] || (lit.len() > 1 && t.len() > 1 && t[1] != lit[1]),
    ensures
        strip(t, lit) is None,
{
    if t.len() >= lit.len() && t.take(lit.len() as int) == lit {
        assert(t.take(lit.len() as int)[0] == t[0]);
        if lit.len() > 1 {
            assert(t.take(lit.len() as int)[1] == t[1]);
        }
    }
}

pub proof fn lemma_word(s: Seq<char>, r: Seq<char>)
    requires
        all_word(s),
        word_ends(r),
    ensures
        word_len(s + r) == s.len(),
        word(s + r) == s,
        after_word(s + r) == r,
    decreases s.len(),
{
    if s.len() == 0 {
        assert(s + r =~= r);
    } else {
        assert((s + r)[0] == s[0]);
        assert((s + r).skip(1) =~= s.skip(1) + r);
        assert forall|i: int| 0 <= i < s.skip(1).len() implies word_char(
            #[trigger] s.skip(1)[i],
        ) by {
            assert(word_char(s[i + 1]));
        }
        lemma_word(s.skip(1), r);
    }
    assert((s + r).take(s.len() as int) =~= s);
    assert((s + r).skip(s.len() as int) =~= r);
}

// Keywords
// --------

pub proof fn lemma_match_word(x: Seq<char>)
    ensures
        word("match "@ + x) == "match"@,
        ("match "@ + x).skip(6) == x,
{
    reveal_strlit("match");
    reveal_strlit("match ");
    let tail = seq![' '];
    assert("match "@ =~= "match"@ + tail);
    lemma_assoc("match"@, tail, x);
    assert((tail + x)[0] == tail[0]);
    lemma_word("match"@, tail + x);
    assert(("match "@ + x).skip(6) =~= x);
}

pub proof fn lemma_while_word(x: Seq<char>)
    ensures
        word("while let "@ + x) == "while"@,
        ("while let "@ + x).skip(10) == x,
{
    reveal_strlit("while");
    reveal_strlit("while let ");
    let tail = seq![' ', 'l', 'e', 't', ' '];
    assert("while let "@ =~= "while"@ + tail);
    lemma_assoc("while"@, tail, x);
    assert((tail + x)[0] == tail[0]);
    lemma_word("while"@, tail + x);
    assert(("while let "@ + x).skip(10) =~= x);
}

pub proof fn lemma_return_word(x: Seq<char>)
    ensures
        word("return "@ + x) == "return"@,
        ("return "@ + x).skip(7) == x,
{
    reveal_strlit("return");
    reveal_strlit("return ");
    let tail = seq![' '];
    assert("return "@ =~= "return"@ + tail);
    lemma_assoc("return"@, tail, x);
    assert((tail + x)[0] == tail[0]);
    lemma_word("return"@, tail + x);
    assert(("return "@ + x).skip(7) =~= x);
}

pub proof fn lemma_try_word(x: Seq<char>)
    ensures
        word("try!("@ + x) == "try"@,
        ("try!("@ + x).skip(5) == x,
{
    reveal_strlit("try");
    reveal_strlit("try!(");
    let tail = seq!['!', '('];
    assert("try!("@ =~= "try"@ + tail);
    lemma_assoc("try"@, tail, x);
    assert((tail + x)[0] == tail[0]);
    lemma_word("try"@, tail + x);
    assert(("try!("@ + x).skip(5) =~= x);
}

pub proof fn lemma_let_word(x: Seq<char>)
    ensures
        word("let "@ + x) == "let"@,
        ("let "@ + x).skip(4) == x,
{
    reveal_strlit("let");
    reveal_strlit("let ");
    let tail = seq![' '];
    assert("let "@ =~= "let"@ + tail);
    lemma_assoc("let"@, tail, x);
    assert((tail + x)[0] == tail[0]);
    lemma_word("let"@, tail + x);
    assert(("let "@ + x).skip(4) =~= x);
}

pub proof fn lemma_mut_word(x: Seq<char>)
    ensures
        word("mut "@ + x) == "mut"@,
        ("mut "@ + x).skip(4) == x,
{
    reveal_strlit("mut");
    reveal_strlit("mut ");
    let tail = seq![' '];
    assert("mut "@ =~= "mut"@ + tail);
    lemma_assoc("mut"@, tail, x);
    assert((tail + x)[0] == tail[0]);
    lemma_word("mut"@, tail + x);
    assert(("mut "@ + x).skip(4) =~= x);
}

pub proof fn lemma_enum_word(x: Seq<char>)
    ensures
        word("enum "@ + x) == "enum"@,
        ("enum "@ + x).skip(5) == x,
{
    reveal_strlit("enum");
    reveal_strlit("enum ");
    let tail = seq![' '];
    assert("enum "@ =~= "enum"@ + tail);
    lemma_assoc("enum"@, tail, x);
    assert((tail + x)[0] == tail[0]);
    lemma_word("enum"@, tail + x);
    assert(("enum "@ + x).skip(5) =~= x);
}

pub proof fn lemma_struct_word(x: Seq<char>)
    ensures
        word("struct "@ + x) == "struct"@,
        ("struct "@ + x).skip(7) == x,
{
    reveal_strlit("struct");
    reveal_strlit("struct ");
    let tail = seq![' '];
    assert("struct "@ =~= "struct"@ + tail);
    lemma_assoc("struct"@, tail, x);
    assert((tail + x)[0] == tail[0]);
    lemma_word("struct"@, tail + x);
    assert(("struct "@ + x).skip(7) =~= x);
}

pub proof fn lemma_impl_word(x: Seq<char>)
    requires
        word_ends(x),
    ensures
        word("impl"@ + x) == "impl"@,
        ("impl"@ + x).skip(4) == x,
{
    reveal_strlit("impl");
    lemma_word("impl"@, x);
    assert(("impl"@ + x).skip(4) =~= x);
}

/// The keywords that statements, items and expressions begin with are
/// different.
pub proof fn lemma_keywords()
    ensures
        "match"@ != "while"@,
        "match"@ != "return"@,
        "match"@ != "try"@,
        "while"@ != "return"@,
        "while"@ != "try"@,
        "return"@ != "try"@,
        "let"@ != "match"@,
        "let"@ != "while"@,
        "let"@ != "return"@,
        "let"@ != "try"@,
        "let"@ != "enum"@,
        "let"@ != "struct"@,
        "let"@ != "impl"@,
        "enum"@ != "match"@,
        "enum"@ != "while"@,
        "enum"@ != "return"@,
        "enum"@ != "try"@,
        "struct"@ != "match"@,
        "struct"@ != "while"@,
        "struct"@ != "return"@,
        "struct"@ != "try"@,
        "impl"@ != "match"@,
        "impl"@ != "while"@,
        "impl"@ != "return"@,
        "impl"@ != "try"@,
        "enum"@ != "struct"@,
        "enum"@ != "impl"@,
        "struct"@ != "impl"@,
{
    reveal_strlit("match");
    assert("match"@.len() == 5);
    assert("match"@[0] == 'm');
    reveal_strlit("while");
    assert("while"@.len() == 5);
    assert("while"@[0] == 'w');
    reveal_strlit("return");
    assert("return"@.len() == 6);
    assert("return"@[0] == 'r');
    reveal_strlit("try");
    assert("try"@.len() == 3);
    assert("try"@[0] == 't');
    reveal_strlit("let");
    assert("let"@.len() == 3);
    assert("let"@[0] == 'l');
    reveal_strlit("enum");
    assert("enum"@.len() == 4);
    assert("enum"@[0] == 'e');
    reveal_strlit("struct");
    assert("struct"@.len() == 6);
    assert("struct"@[0] == 's');
    reveal_strlit("impl");
    assert("impl"@.len() == 4);
    assert("impl"@[0] == 'i');
}

// Lists
// -----

/// A list can be taken apart from its front.
pub proof fn lemma_join_first(s: Seq<Seq<char>>, sep: Seq<char>)
    requires
        s.len() >= 2,
    ensures
        join(s, sep) == s[0] + (sep + join(s.drop_first(), sep)),
    decreases s.len(),
{
    broadcast use lemma_assoc;

    let rest = s.drop_first();
    if s.len() == 2 {
        assert(s.drop_last()[0] == s[0]);
        assert(join(s.drop_last(), sep) == s[0]);
        assert(join(rest, sep) == s.last());
    } else {
        lemma_join_first(s.drop_last(), sep);
        assert(s.drop_last().drop_first() =~= rest.drop_last());
        assert(rest.last() == s.last());
        assert(s.drop_last()[0] == s[0]);
    }
}

/// A list of one.
pub proof fn lemma_join_one(s: Seq<Seq<char>>, sep: Seq<char>)
    requires
        s.len() == 1,
    ensures
        join(s, sep) == s[0],
{
}

/// A list with a text behind it, taken apart from its front.
pub proof fn lemma_list(texts: Seq<Seq<char>>, sep: Seq<char>, end: Seq<char>)
    requires
        texts.len() > 0,
    ensures
        join(texts, sep) + end == texts[0] + behind_first(texts, sep, end),
        texts[0].len() > 0 ==> join(texts, sep).len() > 0 && join(texts, sep)[0] == texts[0][0],
        join(texts, sep).len() >= texts[0].len(),
        texts.len() > 1 ==> join(texts, sep).len() >= texts[0].len() + sep.len() + join(
            texts.drop_first(),
            sep,
        ).len(),
{
    if texts.len() == 1 {
        lemma_join_one(texts, sep);
    } else {
        let rest = join(texts.drop_first(), sep);
        lemma_join_first(texts, sep);
        lemma_assoc(texts[0], sep + rest, end);
        lemma_assoc(sep, rest, end);
    }
}

/// What stands behind the first text of a list.
pub open spec fn behind_first(texts: Seq<Seq<char>>, sep: Seq<char>, end: Seq<char>) -> Seq<char> {
    if texts.len() == 1 {
        end
    } else {
        sep + (join(texts.drop_first(), sep) + end)
    }
}

// Paths and lifetimes
// -------------------

proof fn lemma_segments(s: Seq<Seq<char>>, r: Seq<char>)
    requires
        s.len() > 0,
        all_names(s),
        path_ends(r),
    ensures
        read_segments(join(s, "::"@) + r) == Some((s, r)),
        join(s, "::"@).len() > 0,
        word_char(join(s, "::"@)[0]),
        !digit_char(join(s, "::"@)[0]),
    decreases s.len(),
{
    broadcast use lemma_assoc;

    lemma_lits();
    let t = join(s, "::"@) + r;
    assert(is_name(s[0]));
    if s.len() == 1 {
        lemma_word(s[0], r);
        lemma_no_strip(r, "::"@);
        assert(s =~= seq![s[0]]);
    } else {
        let rest = s.drop_first();
        let tail = join(rest, "::"@) + r;
        lemma_join_first(s, "::"@);
        assert forall|i: int| 0 <= i < rest.len() implies is_name(#[trigger] rest[i]) by {
            assert(is_name(s[i + 1]));
        }
        lemma_segments(rest, r);
        assert(t == s[0] + ("::"@ + tail));
        assert(("::"@ + tail)[0] == ':');
        lemma_word(s[0], "::"@ + tail);
        lemma_strip("::"@, tail);
        assert(s =~= seq![s[0]] + rest);
    }
}

/// What a path starts with.
pub open spec fn starts_path(t: Seq<char>) -> bool {
    t.len() > 0 && (t[0] == ':' || (word_char(t[0]) && !digit_char(t[0])))
}

pub proof fn lemma_path(p: SpecPath, r: Seq<char>)
    requires
        path_ok(p),
        path_ends(r),
    ensures
        read_path(path_text(p) + r) == Some((p, r)),
        starts_path(path_text(p)),
        !p.global ==> word(path_text(p) + r) == p.segments[0],
        p.global ==> word(path_text(p) + r).len() == 0,
{
    broadcast use lemma_assoc;

    lemma_lits();
    let names = join(p.segments, "::"@);
    lemma_segments(p.segments, r);
    if p.global {
        assert(path_text(p) + r == "::"@ + (names + r));
        lemma_strip("::"@, names + r);
        assert(("::"@ + (names + r))[0] == ':');
    } else {
        assert((names + r)[0] == names[0]);
        lemma_no_strip(names + r, "::"@);
        assert(is_name(p.segments[0]));
        if p.segments.len() == 1 {
            lemma_word(p.segments[0], r);
        } else {
            let tail = join(p.segments.drop_first(), "::"@) + r;
            lemma_join_first(p.segments, "::"@);
            assert(names + r == p.segments[0] + ("::"@ + tail));
            assert(("::"@ + tail)[0] == ':');
            lemma_word(p.segments[0], "::"@ + tail);
        }
    }
}

pub proof fn lemma_lifetime(l: Seq<char>, r: Seq<char>)
    requires
        is_lifetime(l),
        word_ends(r),
    ensures
        read_lifetime(l + r) == (l, r),
        starts_lifetime(l + r),
{
    assert((l + r)[0] == l[0]);
    assert((l + r).skip(1) =~= l.skip(1) + r);
    lemma_word(l.skip(1), r);
    assert((l + r).take(l.len() as int) =~= l);
    assert((l + r).skip(l.len() as int) =~= r);
}

// Types
// -----

/// What a type starts with.
pub open spec fn starts_ty(t: Seq<char>) -> bool {
    t.len() > 0 && (t[0] == '&' || starts_path(t))
}

pub proof fn lemma_ty_start(t: SpecTy)
    requires
        ty_ok(t),
    ensures
        starts_ty(ty_text(t)),
{
    lemma_lits();
    match t {
        SpecTy::Path { path, lifetimes, tys } => {
            lemma_path(path, seq![]);
            assert(ty_text(t)[0] == path_text(path)[0]);
        },
        SpecTy::Ref { .. } => {},
        SpecTy::Verbatim(_) => {},
    }
}

/// What closes a list of types.
pub open spec fn closes_tys(r: Seq<char>) -> bool {
    r.len() > 0 && (r[0] == '>' || r[0] == ')')
}

pub proof fn lemma_ty(fuel: nat, t: SpecTy, r: Seq<char>)
    requires
        ty_ok(t),
        ty_ends(r),
        fuel >= ty_text(t).len(),
    ensures
        read_ty(fuel, ty_text(t) + r) == Some((t, r)),
    decreases t, 0nat,
{
    broadcast use lemma_assoc;

    lemma_lits();
    lemma_ty_start(t);
    let text = ty_text(t) + r;
    assert(text[0] == ty_text(t)[0]);
    let less = (fuel - 1) as nat;
    match t {
        SpecTy::Path { path, lifetimes, tys } => {
            lemma_path(path, seq![]);
            assert(ty_text(t)[0] == path_text(path)[0]);
            lemma_no_strip(text, "&"@);
            let args = lifetimes + tys_texts(tys);
            if args.len() == 0 {
                assert(ty_text(t) =~= path_text(path));
                lemma_path(path, r);
                lemma_no_strip(r, "<"@);
                assert(lifetimes =~= seq![]);
                assert(tys =~= seq![]);
            } else {
                let behind = ">"@ + r;
                let list = comma_text(args) + behind;
                assert(text == path_text(path) + ("<"@ + list));
                assert(("<"@ + list)[0] == '<');
                lemma_path(path, "<"@ + list);
                lemma_strip("<"@, list);
                assert(behind[0] == '>');
                lemma_ty_args(less, lifetimes, tys, behind);
                lemma_strip(">"@, r);
            }
        },
        SpecTy::Ref { mutable, ty } => {
            let inner = ty_text(*ty) + r;
            lemma_ty_start(*ty);
            assert(inner[0] == ty_text(*ty)[0]);
            if mutable {
                assert(text == "&"@ + ("mut "@ + inner));
                lemma_strip("&"@, "mut "@ + inner);
                lemma_mut_word(inner);
            } else {
                assert("&"@ + Seq::<char>::empty() =~= "&"@);
                assert(text == "&"@ + inner);
                lemma_strip("&"@, inner);
                lemma_not_mut(*ty, r);
            }
            lemma_ty(less, *ty, r);
        },
        SpecTy::Verbatim(_) => {},
    }
}

/// A type is not `mut`.
proof fn lemma_not_mut(t: SpecTy, r: Seq<char>)
    requires
        ty_ok(t),
        ty_ends(r),
    ensures
        word(ty_text(t) + r) != "mut"@,
{
    broadcast use lemma_assoc;

    lemma_lits();
    reveal_strlit("mut");
    assert("mut"@.len() == 3);
    match t {
        SpecTy::Path { path, lifetimes, tys } => {
            let args = lifetimes + tys_texts(tys);
            let behind = angles(args) + r;
            assert(ty_text(t) + r == path_text(path) + behind);
            if args.len() == 0 {
                assert(behind =~= r);
            } else {
                assert(behind[0] == '<');
            }
            lemma_path(path, behind);
            assert(is_name(path.segments[0]));
        },
        SpecTy::Ref { .. } => {
            assert((ty_text(t) + r)[0] == '&');
            assert(word_len(ty_text(t) + r) == 0);
        },
        SpecTy::Verbatim(_) => {},
    }
}

pub proof fn lemma_ty_args(
    fuel: nat,
    lifetimes: Seq<Seq<char>>,
    tys: Seq<SpecTy>,
    r: Seq<char>,
)
    requires
        lifetimes.len() + tys.len() > 0,
        all_lifetimes(lifetimes),
        tys_ok(tys),
        closes_tys(r),
        fuel >= comma_text(lifetimes + tys_texts(tys)).len(),
    ensures
        read_ty_args(fuel, comma_text(lifetimes + tys_texts(tys)) + r) == Some(
            (lifetimes, tys, r),
        ),
    decreases tys, lifetimes.len(),
{
    broadcast use lemma_assoc;

    lemma_lits();
    let texts = lifetimes + tys_texts(tys);
    let text = comma_text(texts) + r;
    let less = (fuel - 1) as nat;
    if texts.len() == 1 {
        lemma_join_one(texts, ", "@);
    } else {
        lemma_join_first(texts, ", "@);
    }
    if lifetimes.len() > 0 {
        let l = lifetimes[0];
        assert(is_lifetime(l));
        let ls = lifetimes.drop_first();
        assert(texts[0] == l);
        assert(texts.drop_first() =~= ls + tys_texts(tys));
        if texts.len() == 1 {
            lemma_lifetime(l, r);
            lemma_no_strip(r, ", "@);
            assert(lifetimes =~= seq![l]);
            assert(tys =~= seq![]);
        } else {
            let tail = comma_text(texts.drop_first()) + r;
            assert forall|i: int| 0 <= i < ls.len() implies is_lifetime(#[trigger] ls[i]) by {
                assert(is_lifetime(lifetimes[i + 1]));
            }
            assert(text == l + (", "@ + tail));
            assert((", "@ + tail)[0] == ',');
            lemma_lifetime(l, ", "@ + tail);
            lemma_strip(", "@, tail);
            lemma_ty_args(less, ls, tys, r);
            assert(lifetimes =~= seq![l] + ls);
        }
    } else {
        let ty = tys[0];
        let rest = tys.drop_first();
        assert(lifetimes =~= seq![]);
        assert(texts[0] == ty_text(ty));
        assert(texts.drop_first() =~= lifetimes + tys_texts(rest));
        lemma_ty_start(ty);
        assert(text[0] == ty_text(ty)[0]);
        if texts.len() == 1 {
            lemma_ty(fuel, ty, r);
            lemma_no_strip(r, ", "@);
            assert(tys =~= seq![ty]);
        } else {
            let tail = comma_text(texts.drop_first()) + r;
            assert(text == ty_text(ty) + (", "@ + tail));
            assert((", "@ + tail)[0] == ',');
            lemma_ty(fuel, ty, ", "@ + tail);
            lemma_strip(", "@, tail);
            lemma_ty_args(less, lifetimes, rest, r);
            assert(tys =~= seq![ty] + rest);
        }
    }
}

} // verus!
