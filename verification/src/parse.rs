//! Reading source text: a parser, as a mathematical function, for the part of
//! Rust that generated code is written in.
//!
//! Types that stand as bounds or defaults, and the predicates of a `where`
//! clause, are not taken apart: they are read as the text that they are.
use vstd::prelude::*;

use crate::code::{
    SpecArg, SpecArm, SpecBlock, SpecDecl, SpecExpr, SpecFieldInit, SpecGenerics, SpecLifetimeDef,
    SpecLit, SpecMethod, SpecPat, SpecPath, SpecStmt, SpecTraitImpl, SpecTy, SpecTyParam,
};
use crate::print::read_str;

verus! {

// Characters and words
// --------------------

/// A character that a word can hold.
pub open spec fn word_char(c: char) -> bool {
    ||| 'a' <= c <= 'z'
    ||| 'A' <= c <= 'Z'
    ||| '0' <= c <= '9'
    ||| c == '_'
    ||| c as u32 >= 128
}

pub open spec fn digit_char(c: char) -> bool {
    '0' <= c <= '9'
}

/// How many characters of a word the text starts with.
pub open spec fn word_len(t: Seq<char>) -> nat
    decreases t.len(),
{
    if t.len() == 0 || !word_char(t[0]) {
        0
    } else {
        1 + word_len(t.skip(1))
    }
}

/// The word that the text starts with.
pub open spec fn word(t: Seq<char>) -> Seq<char> {
    t.take(word_len(t) as int)
}

/// The text behind the word that it starts with.
pub open spec fn after_word(t: Seq<char>) -> Seq<char> {
    t.skip(word_len(t) as int)
}

/// The text behind `lit`, where it starts with that.
pub open spec fn strip(t: Seq<char>, lit: Seq<char>) -> Option<Seq<char>> {
    if t.len() >= lit.len() && t.take(lit.len() as int) == lit {
        Some(t.skip(lit.len() as int))
    } else {
        None
    }
}

/// The words that begin something else than a path.
pub open spec fn keyword(w: Seq<char>) -> bool {
    ||| w == "match"@
    ||| w == "while"@
    ||| w == "return"@
    ||| w == "try"@
    ||| w == "let"@
    ||| w == "mut"@
    ||| w == "struct"@
    ||| w == "enum"@
    ||| w == "impl"@
    ||| w == "fn"@
    ||| w == "type"@
    ||| w == "_"@
}

// Paths, lifetimes and literals
// -----------------------------

pub open spec fn read_segments(t: Seq<char>) -> Option<(Seq<Seq<char>>, Seq<char>)>
    decreases t.len(),
{
    let w = word(t);
    let r = after_word(t);
    if w.len() == 0 {
        None
    } else {
        match strip(r, "::"@) {
            Some(r1) => if r1.len() < t.len() {
                match read_segments(r1) {
                    Some((ws, r2)) => Some((seq![w] + ws, r2)),
                    None => None,
                }
            } else {
                None
            },
            None => Some((seq![w], r)),
        }
    }
}

pub open spec fn read_path(t: Seq<char>) -> Option<(SpecPath, Seq<char>)> {
    match strip(t, "::"@) {
        Some(r) => match read_segments(r) {
            Some((segments, r1)) => Some((SpecPath { global: true, segments }, r1)),
            None => None,
        },
        None => match read_segments(t) {
            Some((segments, r1)) => Some((SpecPath { global: false, segments }, r1)),
            None => None,
        },
    }
}

/// A lifetime, with its apostrophe.
pub open spec fn read_lifetime(t: Seq<char>) -> (Seq<char>, Seq<char>) {
    let n = 1 + word_len(t.skip(1));
    (t.take(n as int), t.skip(n as int))
}

pub open spec fn starts_lifetime(t: Seq<char>) -> bool {
    t.len() > 0 && t[0] == '\''
}

/// A string, or a literal that is one word.
pub open spec fn read_lit(t: Seq<char>) -> Option<(SpecLit, Seq<char>)> {
    if t[0] == '"' {
        match read_str(t.skip(1)) {
            Some((s, r)) => Some((SpecLit::Str(s), r)),
            None => None,
        }
    } else {
        Some((SpecLit::Verbatim(word(t)), after_word(t)))
    }
}

pub open spec fn starts_lit(t: Seq<char>) -> bool {
    t.len() > 0 && (t[0] == '"' || digit_char(t[0]))
}

// Types
// -----

pub open spec fn read_ty(fuel: nat, t: Seq<char>) -> Option<(SpecTy, Seq<char>)>
    decreases fuel, 0nat,
{
    if fuel == 0 {
        None
    } else {
        let less = (fuel - 1) as nat;
        match strip(t, "&"@) {
            Some(r) => {
                let mutable = word(r) == "mut"@;
                let inner = if mutable {
                    r.skip(4)
                } else {
                    r
                };
                match read_ty(less, inner) {
                    Some((ty, r1)) => Some((SpecTy::Ref { mutable, ty: Box::new(ty) }, r1)),
                    None => None,
                }
            },
            None => match read_path(t) {
                Some((path, r)) => match strip(r, "<"@) {
                    Some(r1) => match read_ty_args(less, r1) {
                        Some((lifetimes, tys, r2)) => match strip(r2, ">"@) {
                            Some(r3) => Some((SpecTy::Path { path, lifetimes, tys }, r3)),
                            None => None,
                        },
                        None => None,
                    },
                    None => Some((SpecTy::Path { path, lifetimes: seq![], tys: seq![] }, r)),
                },
                None => None,
            },
        }
    }
}

/// Lifetimes, then types, separated by commas.
pub open spec fn read_ty_args(fuel: nat, t: Seq<char>) -> Option<
    (Seq<Seq<char>>, Seq<SpecTy>, Seq<char>),
>
    decreases fuel, 1nat,
{
    if fuel == 0 {
        None
    } else {
        let less = (fuel - 1) as nat;
        if starts_lifetime(t) {
            let (l, r) = read_lifetime(t);
            match strip(r, ", "@) {
                Some(r1) => match read_ty_args(less, r1) {
                    Some((ls, tys, r2)) => Some((seq![l] + ls, tys, r2)),
                    None => None,
                },
                None => Some((seq![l], seq![], r)),
            }
        } else {
            match read_ty(fuel, t) {
                Some((ty, r)) => match strip(r, ", "@) {
                    Some(r1) => match read_ty_args(less, r1) {
                        Some((ls, tys, r2)) => if ls.len() == 0 {
                            Some((seq![], seq![ty] + tys, r2))
                        } else {
                            None
                        },
                        None => None,
                    },
                    None => Some((seq![], seq![ty], r)),
                },
                None => None,
            }
        }
    }
}

// Parameters
// ----------

/// The characters that end a bound or default, or a predicate of a `where`
/// clause, outside all brackets.
pub open spec fn ends_run(c: char, clause: bool) -> bool {
    if clause {
        c == ',' || c == '{' || c == ';'
    } else {
        c == '+' || c == ',' || c == '=' || c == '>'
    }
}

pub open spec fn opens(c: char) -> bool {
    c == '(' || c == '[' || c == '<' || c == '{'
}

pub open spec fn closes(c: char) -> bool {
    c == ')' || c == ']' || c == '>' || c == '}'
}

/// How many brackets are open behind a character.
pub open spec fn deeper(c: char, open: nat) -> nat {
    if opens(c) {
        open + 1
    } else if closes(c) && open > 0 {
        (open - 1) as nat
    } else {
        open
    }
}

/// `->`, which closes nothing.
pub open spec fn starts_arrow(t: Seq<char>) -> bool {
    t.len() > 1 && t[0] == '-' && t[1] == '>'
}

/// How far a bound, default or predicate goes.
pub open spec fn run_len(t: Seq<char>, clause: bool, open: nat) -> nat
    decreases t.len(),
{
    if t.len() == 0 || (open == 0 && ends_run(t[0], clause)) {
        0
    } else if starts_arrow(t) {
        2 + run_len(t.skip(2), clause, open)
    } else {
        1 + run_len(t.skip(1), clause, deeper(t[0], open))
    }
}

/// A bound, default or predicate as text. A blank behind it is not part of it.
pub open spec fn read_run(t: Seq<char>, clause: bool) -> (Seq<char>, Seq<char>) {
    let n = run_len(t, clause, 0) as int;
    if n > 0 && t[n - 1] == ' ' {
        (t.take(n - 1), t.skip(n - 1))
    } else {
        (t.take(n), t.skip(n))
    }
}

/// Lifetimes, separated by plus signs.
pub open spec fn read_lifetimes(fuel: nat, t: Seq<char>) -> (Seq<Seq<char>>, Seq<char>)
    decreases fuel,
{
    let (l, r) = read_lifetime(t);
    match strip(r, " + "@) {
        Some(r1) => if fuel == 0 {
            (seq![l], r)
        } else {
            let (ls, r2) = read_lifetimes((fuel - 1) as nat, r1);
            (seq![l] + ls, r2)
        },
        None => (seq![l], r),
    }
}

/// Bounds, separated by plus signs.
pub open spec fn read_bounds(fuel: nat, t: Seq<char>) -> (Seq<SpecTy>, Seq<char>)
    decreases fuel,
{
    let (b, r) = read_run(t, false);
    match strip(r, " + "@) {
        Some(r1) => if fuel == 0 {
            (seq![SpecTy::Verbatim(b)], r)
        } else {
            let (bs, r2) = read_bounds((fuel - 1) as nat, r1);
            (seq![SpecTy::Verbatim(b)] + bs, r2)
        },
        None => (seq![SpecTy::Verbatim(b)], r),
    }
}

pub open spec fn read_lifetime_def(t: Seq<char>) -> (SpecLifetimeDef, Seq<char>) {
    let (name, r) = read_lifetime(t);
    match strip(r, ": "@) {
        Some(r1) => {
            let (bounds, r2) = read_lifetimes(r1.len(), r1);
            (SpecLifetimeDef { name, bounds }, r2)
        },
        None => (SpecLifetimeDef { name, bounds: seq![] }, r),
    }
}

pub open spec fn read_ty_param(t: Seq<char>) -> (SpecTyParam, Seq<char>) {
    let ident = word(t);
    let r = after_word(t);
    let (bounds, r2) = match strip(r, ": "@) {
        Some(r1) => read_bounds(r1.len(), r1),
        None => (seq![], r),
    };
    match strip(r2, " = "@) {
        Some(r3) => {
            let (d, r4) = read_run(r3, false);
            (SpecTyParam { ident, bounds, default: Some(SpecTy::Verbatim(d)) }, r4)
        },
        None => (SpecTyParam { ident, bounds, default: None }, r2),
    }
}

/// Lifetime parameters, then type parameters, separated by commas.
pub open spec fn read_params(fuel: nat, t: Seq<char>) -> Option<
    (Seq<SpecLifetimeDef>, Seq<SpecTyParam>, Seq<char>),
>
    decreases fuel,
{
    if fuel == 0 {
        None
    } else {
        let less = (fuel - 1) as nat;
        if starts_lifetime(t) {
            let (l, r) = read_lifetime_def(t);
            match strip(r, ", "@) {
                Some(r1) => match read_params(less, r1) {
                    Some((ls, ps, r2)) => Some((seq![l] + ls, ps, r2)),
                    None => None,
                },
                None => Some((seq![l], seq![], r)),
            }
        } else {
            let (p, r) = read_ty_param(t);
            match strip(r, ", "@) {
                Some(r1) => match read_params(less, r1) {
                    Some((ls, ps, r2)) => if ls.len() == 0 {
                        Some((seq![], seq![p] + ps, r2))
                    } else {
                        None
                    },
                    None => None,
                },
                None => Some((seq![], seq![p], r)),
            }
        }
    }
}

/// Generic parameters in angle brackets, where there are any. The `where`
/// clause stands elsewhere.
pub open spec fn read_generics(t: Seq<char>) -> Option<(SpecGenerics, Seq<char>)> {
    match strip(t, "<"@) {
        Some(r) => match read_params(r.len(), r) {
            Some((lifetimes, ty_params, r1)) => match strip(r1, ">"@) {
                Some(r2) => Some(
                    (SpecGenerics { lifetimes, ty_params, where_clause: seq![] }, r2),
                ),
                None => None,
            },
            None => None,
        },
        None => Some(
            (SpecGenerics { lifetimes: seq![], ty_params: seq![], where_clause: seq![] }, t),
        ),
    }
}

/// Predicates, separated by commas.
pub open spec fn read_predicates(fuel: nat, t: Seq<char>) -> (Seq<Seq<char>>, Seq<char>)
    decreases fuel,
{
    let (p, r) = read_run(t, true);
    match strip(r, ", "@) {
        Some(r1) => if fuel == 0 {
            (seq![p], r)
        } else {
            let (ps, r2) = read_predicates((fuel - 1) as nat, r1);
            (seq![p] + ps, r2)
        },
        None => (seq![p], r),
    }
}

/// The `where` clause, where there is one.
pub open spec fn read_where(t: Seq<char>) -> (Seq<Seq<char>>, Seq<char>) {
    match strip(t, " where "@) {
        Some(r) => read_predicates(r.len(), r),
        None => (seq![], t),
    }
}

// Patterns
// --------

pub open spec fn read_pat(t: Seq<char>) -> Option<(SpecPat, Seq<char>)> {
    if starts_lit(t) {
        match read_lit(t) {
            Some((l, r)) => Some((SpecPat::Lit(l), r)),
            None => None,
        }
    } else if word(t) == "_"@ {
        Some((SpecPat::Wild, after_word(t)))
    } else {
        match read_path(t) {
            Some((path, r)) => match strip(r, "("@) {
                Some(r1) => match strip(after_word(r1), ")"@) {
                    Some(r2) => Some((SpecPat::TupleStruct { path, ident: word(r1) }, r2)),
                    None => None,
                },
                None => Some((SpecPat::Path(path), r)),
            },
            None => None,
        }
    }
}

// Attributes
// ----------

/// Where the first closing bracket stands.
pub open spec fn bracket_index(t: Seq<char>) -> nat
    decreases t.len(),
{
    if t.len() == 0 || t[0] == ']' {
        0
    } else {
        1 + bracket_index(t.skip(1))
    }
}

/// An attribute, where there is one.
pub open spec fn read_attr(t: Seq<char>) -> (Option<Seq<char>>, Seq<char>) {
    match strip(t, "#["@) {
        Some(r) => {
            let n = bracket_index(r) as int;
            (Some(r.take(n)), r.skip(n + 2))
        },
        None => (None, t),
    }
}

/// Words, separated by commas.
pub open spec fn read_words(fuel: nat, t: Seq<char>) -> (Seq<Seq<char>>, Seq<char>)
    decreases fuel,
{
    let w = word(t);
    let r = after_word(t);
    match strip(r, ", "@) {
        Some(r1) => if fuel == 0 {
            (seq![w], r)
        } else {
            let (ws, r2) = read_words((fuel - 1) as nat, r1);
            (seq![w] + ws, r2)
        },
        None => (seq![w], r),
    }
}

// Expressions
// -----------

/// An expression. Where a block follows it, `structs` is false, and a path with
/// a brace behind it is no struct.
pub open spec fn read_expr(fuel: nat, t: Seq<char>, structs: bool) -> Option<
    (SpecExpr, Seq<char>),
>
    decreases fuel, 1nat,
{
    if fuel == 0 || t.len() == 0 {
        None
    } else if starts_lit(t) {
        match read_lit(t) {
            Some((l, r)) => Some((SpecExpr::Lit(l), r)),
            None => None,
        }
    } else if t[0] == '{' {
        match read_block(fuel, t) {
            Some((b, r)) => Some((SpecExpr::Block(Box::new(b)), r)),
            None => None,
        }
    } else {
        let w = word(t);
        let less = (fuel - 1) as nat;
        if w == "match"@ {
            match read_expr(less, t.skip(6), false) {
                Some((e, r)) => match strip(r, " { "@) {
                    Some(r1) => match read_arms(less, r1) {
                        Some((arms, r2)) => match strip(r2, " }"@) {
                            Some(r3) => Some((SpecExpr::Match { expr: Box::new(e), arms }, r3)),
                            None => None,
                        },
                        None => None,
                    },
                    None => None,
                },
                None => None,
            }
        } else if w == "while"@ {
            match strip(t, "while let "@) {
                Some(r) => match read_pat(r) {
                    Some((pat, r1)) => match strip(r1, " = "@) {
                        Some(r2) => match read_expr(less, r2, false) {
                            Some((e, r3)) => match strip(r3, " "@) {
                                Some(r4) => match read_block(less, r4) {
                                    Some((b, r5)) => Some(
                                        (
                                            SpecExpr::WhileLet {
                                                pat,
                                                expr: Box::new(e),
                                                body: Box::new(b),
                                            },
                                            r5,
                                        ),
                                    ),
                                    None => None,
                                },
                                None => None,
                            },
                            None => None,
                        },
                        None => None,
                    },
                    None => None,
                },
                None => None,
            }
        } else if w == "return"@ {
            match read_expr(less, t.skip(7), structs) {
                Some((e, r)) => Some((SpecExpr::Return(Box::new(e)), r)),
                None => None,
            }
        } else if w == "try"@ {
            match strip(t, "try!("@) {
                Some(r) => match read_expr(less, r, true) {
                    Some((e, r1)) => match strip(r1, ")"@) {
                        Some(r2) => Some((SpecExpr::Try(Box::new(e)), r2)),
                        None => None,
                    },
                    None => None,
                },
                None => None,
            }
        } else {
            match read_path(t) {
                Some((path, r)) => read_behind_path(fuel, path, r, structs),
                None => None,
            }
        }
    }
}

/// What a path begins: a call, a method call on it, a struct, an assignment, or
/// nothing more.
pub open spec fn read_behind_path(
    fuel: nat,
    path: SpecPath,
    r: Seq<char>,
    structs: bool,
) -> Option<(SpecExpr, Seq<char>)>
    decreases fuel, 0nat,
{
    if fuel == 0 {
        None
    } else {
        let less = (fuel - 1) as nat;
        if strip(r, "("@) is Some {
            match read_args(less, strip(r, "("@)->0) {
                Some((args, r1)) => Some((SpecExpr::Call { path, args }, r1)),
                None => None,
            }
        } else if strip(r, "."@) is Some {
            let r1 = strip(r, "."@)->0;
            match strip(after_word(r1), "("@) {
                Some(r2) => match read_args(less, r2) {
                    Some((args, r3)) => Some(
                        (
                            SpecExpr::MethodCall {
                                receiver: Box::new(SpecExpr::Path(path)),
                                ident: word(r1),
                                args,
                            },
                            r3,
                        ),
                    ),
                    None => None,
                },
                None => None,
            }
        } else if structs && strip(r, " { "@) is Some {
            match read_inits(less, strip(r, " { "@)->0) {
                Some((fields, r1)) => match strip(r1, " }"@) {
                    Some(r2) => Some((SpecExpr::Struct { path, fields }, r2)),
                    None => None,
                },
                None => None,
            }
        } else if strip(r, " = "@) is Some {
            match read_expr(less, strip(r, " = "@)->0, structs) {
                Some((e, r1)) => Some(
                    (SpecExpr::Assign { ident: path.segments[0], expr: Box::new(e) }, r1),
                ),
                None => None,
            }
        } else {
            Some((SpecExpr::Path(path), r))
        }
    }
}

/// Arguments, and the bracket that closes them.
pub open spec fn read_args(fuel: nat, t: Seq<char>) -> Option<(Seq<SpecExpr>, Seq<char>)>
    decreases fuel, 4nat,
{
    match strip(t, ")"@) {
        Some(r) => Some((seq![], r)),
        None => match read_exprs(fuel, t) {
            Some((args, r)) => match strip(r, ")"@) {
                Some(r1) => Some((args, r1)),
                None => None,
            },
            None => None,
        },
    }
}

/// Expressions, separated by commas.
pub open spec fn read_exprs(fuel: nat, t: Seq<char>) -> Option<(Seq<SpecExpr>, Seq<char>)>
    decreases fuel, 3nat,
{
    match read_expr(fuel, t, true) {
        Some((e, r)) => match strip(r, ", "@) {
            Some(r1) => if fuel == 0 {
                None
            } else {
                match read_exprs((fuel - 1) as nat, r1) {
                    Some((es, r2)) => Some((seq![e] + es, r2)),
                    None => None,
                }
            },
            None => Some((seq![e], r)),
        },
        None => None,
    }
}

/// Arms, up to the brace that closes them.
pub open spec fn read_arms(fuel: nat, t: Seq<char>) -> Option<(Seq<SpecArm>, Seq<char>)>
    decreases fuel, 3nat,
{
    if fuel == 0 || strip(t, " }"@) is Some {
        Some((seq![], t))
    } else {
        match read_pat(t) {
            Some((pat, r)) => match strip(r, " => "@) {
                Some(r1) => match read_expr(fuel, r1, true) {
                    Some((body, r2)) => match strip(r2, ","@) {
                        Some(r3) => {
                            let arm = SpecArm { pat, body };
                            if strip(r3, " }"@) is Some {
                                Some((seq![arm], r3))
                            } else {
                                match strip(r3, " "@) {
                                    Some(r4) => match read_arms((fuel - 1) as nat, r4) {
                                        Some((arms, r5)) => Some((seq![arm] + arms, r5)),
                                        None => None,
                                    },
                                    None => None,
                                }
                            }
                        },
                        None => None,
                    },
                    None => None,
                },
                None => None,
            },
            None => None,
        }
    }
}

/// The fields of a struct expression, up to the brace that closes them.
pub open spec fn read_inits(fuel: nat, t: Seq<char>) -> Option<
    (Seq<SpecFieldInit>, Seq<char>),
>
    decreases fuel, 3nat,
{
    if fuel == 0 || strip(t, " }"@) is Some {
        Some((seq![], t))
    } else {
        match strip(after_word(t), ": "@) {
            Some(r) => match read_expr(fuel, r, true) {
                Some((expr, r1)) => {
                    let init = SpecFieldInit { ident: word(t), expr };
                    match strip(r1, ", "@) {
                        Some(r2) => match read_inits((fuel - 1) as nat, r2) {
                            Some((inits, r3)) => Some((seq![init] + inits, r3)),
                            None => None,
                        },
                        None => Some((seq![init], r1)),
                    }
                },
                None => None,
            },
            None => None,
        }
    }
}

pub open spec fn read_block(fuel: nat, t: Seq<char>) -> Option<(SpecBlock, Seq<char>)>
    decreases fuel, 0nat,
{
    if fuel == 0 {
        None
    } else {
        match strip(t, "{ "@) {
            Some(r) => match read_stmts((fuel - 1) as nat, r) {
                Some((stmts, expr, r1)) => match strip(r1, " }"@) {
                    Some(r2) => Some((SpecBlock { stmts, expr }, r2)),
                    None => None,
                },
                None => None,
            },
            None => None,
        }
    }
}

/// Statements, and the expression that they end in, if any, up to the brace that
/// closes them.
pub open spec fn read_stmts(fuel: nat, t: Seq<char>) -> Option<
    (Seq<SpecStmt>, Option<SpecExpr>, Seq<char>),
>
    decreases fuel, 3nat,
{
    if fuel == 0 || strip(t, " }"@) is Some {
        Some((seq![], None, t))
    } else {
        match read_stmt(fuel, t) {
            Some((Err(e), r)) => Some((seq![], Some(e), r)),
            Some((Ok(stmt), r)) => if strip(r, " }"@) is Some {
                Some((seq![stmt], None, r))
            } else {
                match strip(r, " "@) {
                    Some(r1) => match read_stmts((fuel - 1) as nat, r1) {
                        Some((stmts, e, r2)) => Some((seq![stmt] + stmts, e, r2)),
                        None => None,
                    },
                    None => None,
                }
            },
            None => None,
        }
    }
}

/// A statement, or the expression that a block ends in. A loop is a statement.
pub open spec fn read_stmt(fuel: nat, t: Seq<char>) -> Option<
    (Result<SpecStmt, SpecExpr>, Seq<char>),
>
    decreases fuel, 2nat,
{
    let w = word(t);
    if w == "let"@ {
        let r = t.skip(4);
        let mutable = word(r) == "mut"@;
        let r1 = if mutable {
            r.skip(4)
        } else {
            r
        };
        match strip(after_word(r1), " = "@) {
            Some(r2) => match read_expr(fuel, r2, true) {
                Some((init, r3)) => match strip(r3, ";"@) {
                    Some(r4) => Some(
                        (Ok(SpecStmt::Let { mutable, ident: word(r1), init }), r4),
                    ),
                    None => None,
                },
                None => None,
            },
            None => None,
        }
    } else if strip(t, "#["@) is Some || w == "enum"@ || w == "struct"@ || w == "impl"@ {
        match read_decl(fuel, t) {
            Some((d, r)) => Some((Ok(SpecStmt::Decl(d)), r)),
            None => None,
        }
    } else {
        match read_expr(fuel, t, true) {
            Some((e, r)) => match strip(r, ";"@) {
                Some(r1) => Some((Ok(SpecStmt::Semi(e)), r1)),
                None => if e is WhileLet {
                    Some((Ok(SpecStmt::Expr(e)), r))
                } else {
                    Some((Err(e), r))
                },
            },
            None => None,
        }
    }
}

// Items
// -----

pub open spec fn read_decl(fuel: nat, t: Seq<char>) -> Option<(SpecDecl, Seq<char>)>
    decreases fuel, 1nat,
{
    if fuel == 0 {
        None
    } else {
        let (attr, r) = read_attr(t);
        let w = word(r);
        if w == "enum"@ {
            let r1 = r.skip(5);
            match strip(after_word(r1), " { "@) {
                Some(r2) => {
                    let (variants, r3) = if strip(r2, " }"@) is Some {
                        (seq![], r2)
                    } else {
                        read_words(r2.len(), r2)
                    };
                    match strip(r3, " }"@) {
                        Some(r4) => Some(
                            (SpecDecl::Enum { attr, ident: word(r1), variants }, r4),
                        ),
                        None => None,
                    }
                },
                None => None,
            }
        } else if w == "struct"@ {
            read_struct(r.skip(7))
        } else if w == "impl"@ {
            read_impl((fuel - 1) as nat, attr, r.skip(4))
        } else {
            None
        }
    }
}

/// A struct, from behind the word `struct`.
pub open spec fn read_struct(t: Seq<char>) -> Option<(SpecDecl, Seq<char>)> {
    match read_generics(after_word(t)) {
        Some((g, r)) => match read_tuple(r) {
            Some((tys, r1)) => {
                let (where_clause, r2) = read_where(r1);
                match strip(r2, ";"@) {
                    Some(r3) => Some(
                        (
                            SpecDecl::Struct {
                                ident: word(t),
                                generics: SpecGenerics { where_clause, ..g },
                                tys,
                            },
                            r3,
                        ),
                    ),
                    None => None,
                }
            },
            None => None,
        },
        None => None,
    }
}

/// The fields of a tuple struct, where it has any.
pub open spec fn read_tuple(t: Seq<char>) -> Option<(Seq<SpecTy>, Seq<char>)> {
    match strip(t, "("@) {
        Some(r) => match read_ty_args(r.len(), r) {
            Some((ls, tys, r1)) => match strip(r1, ")"@) {
                Some(r2) => if ls.len() == 0 {
                    Some((tys, r2))
                } else {
                    None
                },
                None => None,
            },
            None => None,
        },
        None => Some((seq![], t)),
    }
}

/// An implementation, from behind the word `impl`.
pub open spec fn read_impl(fuel: nat, attr: Option<Seq<char>>, t: Seq<char>) -> Option<
    (SpecDecl, Seq<char>),
>
    decreases fuel, 4nat,
{
    match read_impl_head(t) {
        Some((generics, trait_path, self_ty, r)) => match read_value(r) {
            Some((value, r1)) => match read_methods(fuel, r1) {
                Some((methods, r2)) => match strip(r2, " }"@) {
                    Some(r3) => Some(
                        (
                            SpecDecl::Impl(
                                SpecTraitImpl {
                                    attr,
                                    generics,
                                    trait_path,
                                    self_ty,
                                    value,
                                    methods,
                                },
                            ),
                            r3,
                        ),
                    ),
                    None => None,
                },
                None => None,
            },
            None => None,
        },
        None => None,
    }
}

/// The associated type `Value`, where there is one, and the blank behind it.
pub open spec fn read_value(t: Seq<char>) -> Option<(Option<SpecTy>, Seq<char>)> {
    match strip(t, "type Value = "@) {
        Some(r) => match read_ty(r.len(), r) {
            Some((ty, r1)) => match strip(r1, ";"@) {
                Some(r2) => if strip(r2, " }"@) is Some {
                    Some((Some(ty), r2))
                } else {
                    Some((Some(ty), r2.skip(1)))
                },
                None => None,
            },
            None => None,
        },
        None => Some((None, t)),
    }
}

/// The head of an implementation, with the brace behind it.
pub open spec fn read_impl_head(t: Seq<char>) -> Option<
    (SpecGenerics, SpecPath, SpecTy, Seq<char>),
> {
    match read_generics(t) {
        Some((g, r)) => match strip(r, " "@) {
            Some(r1) => match read_path(r1) {
                Some((trait_path, r2)) => match strip(r2, " for "@) {
                    Some(r3) => match read_ty(r3.len(), r3) {
                        Some((self_ty, r4)) => {
                            let (where_clause, r5) = read_where(r4);
                            match strip(r5, " { "@) {
                                Some(r6) => Some(
                                    (
                                        SpecGenerics { where_clause, ..g },
                                        trait_path,
                                        self_ty,
                                        r6,
                                    ),
                                ),
                                None => None,
                            }
                        },
                        None => None,
                    },
                    None => None,
                },
                None => None,
            },
            None => None,
        },
        None => None,
    }
}

/// Methods, up to the brace that closes the implementation.
pub open spec fn read_methods(fuel: nat, t: Seq<char>) -> Option<(Seq<SpecMethod>, Seq<char>)>
    decreases fuel, 3nat,
{
    if fuel == 0 || strip(t, " }"@) is Some {
        Some((seq![], t))
    } else {
        match read_method(fuel, t) {
            Some((m, r)) => if strip(r, " }"@) is Some {
                Some((seq![m], r))
            } else {
                match strip(r, " "@) {
                    Some(r1) => match read_methods((fuel - 1) as nat, r1) {
                        Some((ms, r2)) => Some((seq![m] + ms, r2)),
                        None => None,
                    },
                    None => None,
                }
            },
            None => None,
        }
    }
}

pub open spec fn read_arg(t: Seq<char>) -> Option<(SpecArg, Seq<char>)> {
    let mutable = word(t) == "mut"@;
    let r = if mutable {
        t.skip(4)
    } else {
        t
    };
    match strip(after_word(r), ": "@) {
        Some(r1) => match read_ty(r1.len(), r1) {
            Some((ty, r2)) => Some((SpecArg { mutable, ident: word(r), ty }, r2)),
            None => None,
        },
        None => None,
    }
}

/// The parameters of a method: whether it takes `&mut self`, and the other.
pub open spec fn read_fn_params(t: Seq<char>) -> Option<(bool, Option<SpecArg>, Seq<char>)> {
    match strip(t, "&mut self"@) {
        Some(r) => match strip(r, ", "@) {
            Some(r1) => match read_arg(r1) {
                Some((arg, r2)) => Some((true, Some(arg), r2)),
                None => None,
            },
            None => Some((true, None, r)),
        },
        None => if strip(t, ")"@) is Some {
            Some((false, None, t))
        } else {
            match read_arg(t) {
                Some((arg, r)) => Some((false, Some(arg), r)),
                None => None,
            }
        },
    }
}

/// The head of a method, up to its body. The body of what is returned is empty.
pub open spec fn read_method_head(t: Seq<char>) -> Option<(SpecMethod, Seq<char>)> {
    let (attr, r) = read_attr(t);
    match strip(r, "fn "@) {
        Some(r1) => match strip(after_word(r1), "<"@) {
            Some(r2) => match strip(after_word(r2), ">("@) {
                Some(r3) => match read_fn_params(r3) {
                    Some((takes_self, arg, r4)) => match read_output(word(r2), r4) {
                        Some((output, bound, r5)) => Some(
                            (
                                SpecMethod {
                                    attr,
                                    ident: word(r1),
                                    ty_param: word(r2),
                                    bound,
                                    takes_self,
                                    arg,
                                    output,
                                    body: SpecBlock { stmts: seq![], expr: None },
                                },
                                r5,
                            ),
                        ),
                        None => None,
                    },
                    None => None,
                },
                None => None,
            },
            None => None,
        },
        None => None,
    }
}

/// The output of a method, and the bound of its type parameter `p`.
pub open spec fn read_output(p: Seq<char>, t: Seq<char>) -> Option<
    (SpecTy, SpecPath, Seq<char>),
> {
    match strip(t, ") -> "@) {
        Some(r) => match read_ty(r.len(), r) {
            Some((output, r1)) => match strip(r1, " where "@) {
                Some(r2) => if word(r2) == p {
                    match strip(after_word(r2), ": "@) {
                        Some(r3) => match read_path(r3) {
                            Some((bound, r4)) => match strip(r4, " "@) {
                                Some(r5) => Some((output, bound, r5)),
                                None => None,
                            },
                            None => None,
                        },
                        None => None,
                    }
                } else {
                    None
                },
                None => None,
            },
            None => None,
        },
        None => None,
    }
}

pub open spec fn read_method(fuel: nat, t: Seq<char>) -> Option<(SpecMethod, Seq<char>)>
    decreases fuel, 1nat,
{
    if fuel == 0 {
        None
    } else {
        match read_method_head(t) {
            Some((m, r)) => match read_block((fuel - 1) as nat, r) {
                Some((body, r1)) => Some((SpecMethod { body, ..m }, r1)),
                None => None,
            },
            None => None,
        }
    }
}

/// Reads a text that is one item and nothing else.
pub open spec fn read_item(t: Seq<char>) -> Option<SpecDecl> {
    match read_decl(t.len(), t) {
        Some((d, r)) => if r.len() == 0 {
            Some(d)
        } else {
            None
        },
        None => None,
    }
}

} // verus!
