//! That source text is read back: expressions, statements and items.
use vstd::prelude::*;

use crate::code::{
    SpecArg, SpecArm, SpecBlock, SpecDecl, SpecExpr, SpecFieldInit, SpecGenerics, SpecLit,
    SpecMethod, SpecPath, SpecStmt, SpecTraitImpl, SpecTy,
};
use crate::parse::{
    after_word, digit_char, keyword, read_arg, read_args, read_arms, read_behind_path, read_block,
    read_decl, read_expr, read_exprs, read_fn_params, read_impl, read_impl_head, read_inits,
    read_method, read_method_head, read_methods, read_output, read_pat, read_stmt, read_stmts,
    read_struct, read_value, starts_lit, strip, word, word_char, word_len,
};
use crate::print::{
    arg_text, arm_text, arms_texts, attr_text, block_text, comma_text, decl_text, expr_text,
    exprs_texts, generics_text, impl_text, init_text, inits_texts, join, lit_text, method_text,
    methods_texts, params_text, pat_text, path_text, stmt_text, stmts_texts, tail_texts,
    tuple_text, ty_text, tys_texts, value_texts, where_text,
};
use crate::source::{
    all_names, arm_ok, arms_ok, attr_ok, before_block, block_ok, decl_ok, expr_ends, expr_ok,
    exprs_ok, flat_arm, flat_arms, flat_block, flat_decl, flat_expr, flat_exprs, flat_generics,
    flat_impl, flat_init, flat_inits, flat_method, flat_methods, flat_stmt, flat_stmts, flat_tail,
    generics_ok, impl_ok, init_ok, inits_ok, is_name, method_ok, methods_ok, path_ends, path_ok,
    stmt_ok, stmts_ok, tail_ok, ty_ok, tys_ok, word_ends,
};
use crate::text_parts::{lemma_attr, lemma_generics, lemma_lit, lemma_pat, lemma_where, lemma_words};
use crate::text_types::{
    behind_first, lemma_assoc, lemma_enum_word, lemma_impl_word, lemma_join_first, lemma_join_one,
    lemma_keywords, lemma_let_word, lemma_list, lemma_lits, lemma_match_word, lemma_mut_word,
    lemma_nil, lemma_no_strip, lemma_path, lemma_return_word, lemma_strip, lemma_struct_word,
    lemma_try_word, lemma_ty, lemma_ty_args, lemma_while_word, lemma_word,
};

verus! {

/// What an expression starts with.
pub open spec fn starts_expr(t: Seq<char>) -> bool {
    t.len() > 0 && (t[0] == '{' || t[0] == '"' || t[0] == ':' || word_char(t[0]))
}

proof fn lemma_expr_start(e: SpecExpr)
    requires
        expr_ok(e),
    ensures
        starts_expr(expr_text(e)),
    decreases e,
{
    lemma_lits();
    match e {
        SpecExpr::Path(path) => {
            lemma_path(path, seq![]);
        },
        SpecExpr::Lit(l) => {
            lemma_lit(l, seq![]);
            assert(expr_text(e)[0] == lit_text(l)[0]);
        },
        SpecExpr::Call { path, args } => {
            lemma_path(path, seq![]);
            assert(expr_text(e)[0] == path_text(path)[0]);
        },
        SpecExpr::MethodCall { receiver, ident, args } => {
            lemma_expr_start(*receiver);
            assert(expr_text(e)[0] == expr_text(*receiver)[0]);
        },
        SpecExpr::Try(_) => {},
        SpecExpr::Return(_) => {},
        SpecExpr::Assign { ident, expr } => {
            assert(expr_text(e)[0] == ident[0]);
        },
        SpecExpr::Match { .. } => {},
        SpecExpr::WhileLet { .. } => {},
        SpecExpr::Struct { path, fields } => {
            lemma_path(path, seq![]);
            assert(expr_text(e)[0] == path_text(path)[0]);
        },
        SpecExpr::Block(b) => {
            assert(block_text(*b)[0] == '{');
        },
    }
}

/// A word that an expression can start with begins no statement or item.
pub open spec fn expr_word(w: Seq<char>) -> bool {
    w != "let"@ && w != "enum"@ && w != "struct"@ && w != "impl"@
}

/// The word that an expression with this text starts with.
proof fn lemma_expr_word(e: SpecExpr, r: Seq<char>)
    requires
        expr_ok(e),
        e is WhileLet || path_ends(r),
    ensures
        expr_word(word(expr_text(e) + r)),
        strip(expr_text(e) + r, "#["@) is None,
{
    broadcast use lemma_assoc;

    lemma_lits();
    lemma_keywords();
    let t = expr_text(e) + r;
    lemma_expr_start(e);
    assert(t[0] == expr_text(e)[0]);
    lemma_no_strip(t, "#["@);
    lemma_short_words();
    match e {
        SpecExpr::Path(path) => {
            lemma_path_word(path, r);
        },
        SpecExpr::Lit(l) => {
            lemma_lit(l, r);
            assert(t[0] == lit_text(l)[0]);
            if let SpecLit::Verbatim(s) = l {
                lemma_word(s, r);
            } else {
                assert(word_len(t) == 0);
            }
        },
        SpecExpr::Call { path, args } => {
            let behind = "("@ + (comma_text(exprs_texts(args)) + (")"@ + r));
            assert(behind[0] == '(');
            lemma_path_word(path, behind);
        },
        SpecExpr::MethodCall { receiver, ident, args } => {
            let behind = "."@ + (ident + ("("@ + (comma_text(exprs_texts(args)) + (")"@ + r))));
            assert(behind[0] == '.');
            assert(expr_ok(*receiver));
            assert(expr_text(*receiver) == path_text(receiver->Path_0));
            lemma_path_word(receiver->Path_0, behind);
        },
        SpecExpr::Try(e) => {
            lemma_try_word(expr_text(*e) + (")"@ + r));
        },
        SpecExpr::Return(e) => {
            lemma_return_word(expr_text(*e) + r);
        },
        SpecExpr::Assign { ident, expr } => {
            let behind = " = "@ + (expr_text(*expr) + r);
            assert(behind[0] == ' ');
            lemma_word(ident, behind);
        },
        SpecExpr::Match { expr, arms } => {
            lemma_match_word(expr_text(*expr) + (" { "@ + (join(arms_texts(arms), " "@) + (" }"@
                + r))));
        },
        SpecExpr::WhileLet { pat, expr, body } => {
            lemma_while_word(pat_text(pat) + (" = "@ + (expr_text(*expr) + (" "@ + (block_text(
                *body,
            ) + r)))));
        },
        SpecExpr::Struct { path, fields } => {
            let behind = " { "@ + (comma_text(inits_texts(fields)) + (" }"@ + r));
            assert(behind[0] == ' ');
            lemma_path_word(path, behind);
        },
        SpecExpr::Block(b) => {
            assert(block_text(*b)[0] == '{');
            assert(word_len(t) == 0);
        },
    }
}

/// The keywords of statements and items start with letters.
proof fn lemma_short_words()
    ensures
        "let"@.len() > 0 && !digit_char("let"@[0]),
        "enum"@.len() > 0 && !digit_char("enum"@[0]),
        "struct"@.len() > 0 && !digit_char("struct"@[0]),
        "impl"@.len() > 0 && !digit_char("impl"@[0]),
        "match"@.len() > 0,
        "while"@.len() > 0,
        "return"@.len() > 0,
        "try"@.len() > 0,
{
    reveal_strlit("let");
    reveal_strlit("enum");
    reveal_strlit("struct");
    reveal_strlit("impl");
    reveal_strlit("match");
    reveal_strlit("while");
    reveal_strlit("return");
    reveal_strlit("try");
}

/// The word that a path starts with is no keyword.
proof fn lemma_path_word(p: SpecPath, r: Seq<char>)
    requires
        path_ok(p),
        path_ends(r),
    ensures
        word(path_text(p) + r).len() == 0 || !keyword(word(path_text(p) + r)),
        expr_word(word(path_text(p) + r)),
{
    lemma_path(p, r);
    lemma_short_words();
    assert(is_name(p.segments[0]));
}

/// An expression that starts with a path.
proof fn lemma_path_expr(fuel: nat, p: SpecPath, r: Seq<char>, structs: bool)
    requires
        fuel > 0,
        path_ok(p),
        path_ends(r),
    ensures
        read_expr(fuel, path_text(p) + r, structs) == read_behind_path(fuel, p, r, structs),
{
    let t = path_text(p) + r;
    lemma_path(p, r);
    lemma_path_word(p, r);
    lemma_short_words();
    assert(t[0] == path_text(p)[0]);
}

proof fn lemma_args(fuel: nat, args: Seq<SpecExpr>, r: Seq<char>)
    requires
        exprs_ok(args),
        fuel >= comma_text(exprs_texts(args)).len(),
    ensures
        read_args(fuel, comma_text(exprs_texts(args)) + (")"@ + r)) == Some(
            (flat_exprs(args), r),
        ),
    decreases args, 1nat,
{
    lemma_lits();
    let behind = ")"@ + r;
    let t = comma_text(exprs_texts(args)) + behind;
    lemma_strip(")"@, r);
    if args.len() == 0 {
        assert(comma_text(exprs_texts(args)) =~= seq![]);
        lemma_nil(behind);
    } else {
        assert(behind[0] == ')');
        lemma_exprs(fuel, args, behind);
        lemma_no_strip(t, ")"@);
    }
}

proof fn lemma_exprs(fuel: nat, args: Seq<SpecExpr>, r: Seq<char>)
    requires
        args.len() > 0,
        exprs_ok(args),
        r.len() > 0,
        r[0] == ')',
        fuel >= comma_text(exprs_texts(args)).len(),
    ensures
        read_exprs(fuel, comma_text(exprs_texts(args)) + r) == Some((flat_exprs(args), r)),
        starts_expr(comma_text(exprs_texts(args)) + r),
    decreases args, 0nat,
{
    broadcast use lemma_assoc;

    lemma_lits();
    let texts = exprs_texts(args);
    let e = args[0];
    let rest = args.drop_first();
    let t = comma_text(texts) + r;
    lemma_expr_start(e);
    assert(texts[0] == expr_text(e));
    assert(texts.drop_first() =~= exprs_texts(rest));
    if args.len() == 1 {
        lemma_join_one(texts, ", "@);
        assert(t[0] == expr_text(e)[0]);
        lemma_expr(fuel, e, true, r);
        lemma_no_strip(r, ", "@);
        assert(flat_exprs(rest) =~= seq![]);
        assert(flat_exprs(args) =~= seq![flat_expr(e)]);
    } else {
        let tail = comma_text(exprs_texts(rest)) + r;
        lemma_join_first(texts, ", "@);
        assert(t == expr_text(e) + (", "@ + tail));
        assert(t[0] == expr_text(e)[0]);
        assert((", "@ + tail)[0] == ',');
        lemma_expr(fuel, e, true, ", "@ + tail);
        lemma_strip(", "@, tail);
        lemma_exprs((fuel - 1) as nat, rest, r);
    }
}

/// What is read of an arm, with its comma.
proof fn lemma_arm(fuel: nat, a: SpecArm, r: Seq<char>)
    requires
        arm_ok(a),
        fuel >= arm_text(a).len(),
    ensures
        arm_reads(fuel, a, r),
        arm_text(a).len() > 0,
        arm_text(a)[0] != '}',
        arm_text(a)[0] != ' ',
    decreases a, 0nat,
{
    broadcast use lemma_assoc;

    lemma_lits();
    let body = expr_text(a.body) + (","@ + r);
    assert(arm_text(a) + r == pat_text(a.pat) + (" => "@ + body));
    assert((" => "@ + body)[0] == ' ');
    lemma_pat(a.pat, " => "@ + body);
    assert(arm_text(a)[0] == pat_text(a.pat)[0]);
    lemma_strip(" => "@, body);
    assert((","@ + r)[0] == ',');
    lemma_expr(fuel, a.body, true, ","@ + r);
    lemma_strip(","@, r);
}

pub open spec fn arm_reads(fuel: nat, a: SpecArm, r: Seq<char>) -> bool {
    let body = expr_text(a.body) + (","@ + r);
    &&& read_pat(arm_text(a) + r) == Some((a.pat, " => "@ + body))
    &&& strip(" => "@ + body, " => "@) == Some(body)
    &&& read_expr(fuel, body, true) == Some((flat_expr(a.body), ","@ + r))
    &&& strip(","@ + r, ","@) == Some(r)
}

proof fn lemma_arms(fuel: nat, arms: Seq<SpecArm>, r: Seq<char>)
    requires
        arms_ok(arms),
        fuel >= join(arms_texts(arms), " "@).len(),
    ensures
        read_arms(fuel, join(arms_texts(arms), " "@) + (" }"@ + r)) == Some(
            (flat_arms(arms), " }"@ + r),
        ),
        arms.len() > 0 ==> ({
            let text = join(arms_texts(arms), " "@);
            text.len() > 0 && text[0] != '}' && text[0] != ' '
        }),
    decreases arms, 0nat,
{
    lemma_lits();
    let end = " }"@ + r;
    let texts = arms_texts(arms);
    let t = join(texts, " "@) + end;
    lemma_strip(" }"@, r);
    if arms.len() == 0 {
        assert(texts =~= seq![]);
        lemma_nil(end);
    } else {
        let a = arms[0];
        let rest = arms.drop_first();
        let behind = behind_first(texts, " "@, end);
        assert(arm_ok(a));
        assert(texts[0] == arm_text(a));
        assert(texts.drop_first() =~= arms_texts(rest));
        lemma_list(texts, " "@, end);
        lemma_arm(fuel, a, behind);
        assert(t[0] == arm_text(a)[0]);
        lemma_no_strip(t, " }"@);
        assert(flat_arm(a) == SpecArm { pat: a.pat, body: flat_expr(a.body) });
        if arms.len() == 1 {
            assert(flat_arms(rest) =~= seq![]);
            assert(flat_arms(arms) =~= seq![flat_arm(a)]);
        } else {
            let more = join(arms_texts(rest), " "@) + end;
            lemma_arms((fuel - 1) as nat, rest, r);
            assert(behind[0] == ' ');
            assert(behind[1] == join(arms_texts(rest), " "@)[0]);
            lemma_no_strip(behind, " }"@);
            lemma_strip(" "@, more);
        }
    }
}

/// What is read of a field of a struct expression.
proof fn lemma_init(fuel: nat, f: SpecFieldInit, r: Seq<char>)
    requires
        init_ok(f),
        expr_ends(r, true),
        fuel >= init_text(f).len(),
    ensures
        init_reads(fuel, f, r),
        init_text(f).len() > 0,
        word_char(init_text(f)[0]),
    decreases f, 0nat,
{
    broadcast use lemma_assoc;

    lemma_lits();
    let value = expr_text(f.expr) + r;
    assert(init_text(f) + r == f.ident + (": "@ + value));
    assert(init_text(f)[0] == f.ident[0]);
    assert((": "@ + value)[0] == ':');
    lemma_word(f.ident, ": "@ + value);
    lemma_strip(": "@, value);
    lemma_expr(fuel, f.expr, true, r);
}

pub open spec fn init_reads(fuel: nat, f: SpecFieldInit, r: Seq<char>) -> bool {
    let t = init_text(f) + r;
    let value = expr_text(f.expr) + r;
    &&& word(t) == f.ident
    &&& strip(after_word(t), ": "@) == Some(value)
    &&& read_expr(fuel, value, true) == Some((flat_expr(f.expr), r))
}

proof fn lemma_inits(fuel: nat, inits: Seq<SpecFieldInit>, r: Seq<char>)
    requires
        inits_ok(inits),
        fuel >= comma_text(inits_texts(inits)).len(),
    ensures
        read_inits(fuel, comma_text(inits_texts(inits)) + (" }"@ + r)) == Some(
            (flat_inits(inits), " }"@ + r),
        ),
    decreases inits, 0nat,
{
    lemma_lits();
    let end = " }"@ + r;
    let texts = inits_texts(inits);
    let t = comma_text(texts) + end;
    lemma_strip(" }"@, r);
    if inits.len() == 0 {
        assert(texts =~= seq![]);
        lemma_nil(end);
    } else {
        let f = inits[0];
        let rest = inits.drop_first();
        let behind = behind_first(texts, ", "@, end);
        let more = comma_text(inits_texts(rest)) + end;
        assert(init_ok(f));
        assert(texts[0] == init_text(f));
        assert(texts.drop_first() =~= inits_texts(rest));
        lemma_list(texts, ", "@, end);
        if inits.len() == 1 {
            assert(behind[0] == ' ');
            assert(behind[1] == '}');
            lemma_no_strip(behind, ", "@);
        } else {
            assert(behind[0] == ',');
            lemma_strip(", "@, more);
            lemma_inits((fuel - 1) as nat, rest, r);
        }
        lemma_init(fuel, f, behind);
        assert(t[0] == init_text(f)[0]);
        lemma_no_strip(t, " }"@);
        assert(flat_init(f) == SpecFieldInit { ident: f.ident, expr: flat_expr(f.expr) });
        if inits.len() == 1 {
            assert(flat_inits(rest) =~= seq![]);
            assert(flat_inits(inits) =~= seq![flat_init(f)]);
        }
    }
}

/// Where a text starts with a letter, no literal and no block starts.
proof fn lemma_keyword_start(t: Seq<char>)
    requires
        t.len() > 0,
        'a' <= t[0] <= 'z',
    ensures
        !starts_lit(t),
        t[0] != '{',
{
}

proof fn lemma_path_only_expr(fuel: nat, e: SpecExpr, structs: bool, r: Seq<char>)
    requires
        expr_ok(e),
        e is Path,
        expr_ends(r, structs),
        fuel >= expr_text(e).len(),
    ensures
        read_expr(fuel, expr_text(e) + r, structs) == Some((flat_expr(e), r)),
    decreases e, 0nat,
{
    broadcast use lemma_assoc;

    lemma_lits();
    let t = expr_text(e) + r;
    let less = (fuel - 1) as nat;
    if let SpecExpr::Path(path) = e {
        lemma_path(path, r);
        lemma_path_expr(fuel, path, r, structs);
        lemma_no_strip(r, "("@);
        lemma_no_strip(r, "."@);
        if structs {
            lemma_no_strip(r, " { "@);
        }
        lemma_no_strip(r, " = "@);
    }
}

proof fn lemma_call_expr(fuel: nat, e: SpecExpr, structs: bool, r: Seq<char>)
    requires
        expr_ok(e),
        e is Call,
        fuel >= expr_text(e).len(),
    ensures
        read_expr(fuel, expr_text(e) + r, structs) == Some((flat_expr(e), r)),
    decreases e, 0nat,
{
    broadcast use lemma_assoc;

    lemma_lits();
    let t = expr_text(e) + r;
    let less = (fuel - 1) as nat;
    if let SpecExpr::Call { path, args } = e {
        let list = comma_text(exprs_texts(args)) + (")"@ + r);
        assert(t == path_text(path) + ("("@ + list));
        assert(("("@ + list)[0] == '(');
        lemma_path_expr(fuel, path, "("@ + list, structs);
        lemma_strip("("@, list);
        lemma_args(less, args, r);
    }
}

proof fn lemma_method_expr(fuel: nat, e: SpecExpr, structs: bool, r: Seq<char>)
    requires
        expr_ok(e),
        e is MethodCall,
        fuel >= expr_text(e).len(),
    ensures
        read_expr(fuel, expr_text(e) + r, structs) == Some((flat_expr(e), r)),
    decreases e, 0nat,
{
    broadcast use lemma_assoc;

    lemma_lits();
    let t = expr_text(e) + r;
    let less = (fuel - 1) as nat;
    if let SpecExpr::MethodCall { receiver, ident, args } = e {
        let path = receiver->Path_0;
        assert(expr_ok(*receiver));
        assert(expr_text(*receiver) == path_text(path));
        assert(flat_expr(*receiver) == *receiver);
        let list = comma_text(exprs_texts(args)) + (")"@ + r);
        let call = ident + ("("@ + list);
        assert(t == path_text(path) + ("."@ + call));
        assert(("."@ + call)[0] == '.');
        lemma_path_expr(fuel, path, "."@ + call, structs);
        lemma_no_strip("."@ + call, "("@);
        lemma_strip("."@, call);
        assert(("("@ + list)[0] == '(');
        lemma_word(ident, "("@ + list);
        lemma_strip("("@, list);
        lemma_args(less, args, r);
    }
}

proof fn lemma_try_expr(fuel: nat, e: SpecExpr, structs: bool, r: Seq<char>)
    requires
        expr_ok(e),
        e is Try,
        fuel >= expr_text(e).len(),
    ensures
        read_expr(fuel, expr_text(e) + r, structs) == Some((flat_expr(e), r)),
    decreases e, 0nat,
{
    broadcast use lemma_assoc;

    lemma_lits();
    let t = expr_text(e) + r;
    let less = (fuel - 1) as nat;
    if let SpecExpr::Try(inner) = e {
        let rest = expr_text(*inner) + (")"@ + r);
        assert(t == "try!("@ + rest);
        assert(t[0] == 't');
        lemma_keyword_start(t);
        lemma_try_word(rest);
        lemma_keywords();
        lemma_strip("try!("@, rest);
        assert((")"@ + r)[0] == ')');
        lemma_expr(less, *inner, true, ")"@ + r);
        lemma_strip(")"@, r);
    }
}

proof fn lemma_return_expr(fuel: nat, e: SpecExpr, structs: bool, r: Seq<char>)
    requires
        expr_ok(e),
        e is Return,
        expr_ends(r, structs),
        structs,
        fuel >= expr_text(e).len(),
    ensures
        read_expr(fuel, expr_text(e) + r, structs) == Some((flat_expr(e), r)),
    decreases e, 0nat,
{
    broadcast use lemma_assoc;

    lemma_lits();
    let t = expr_text(e) + r;
    let less = (fuel - 1) as nat;
    if let SpecExpr::Return(inner) = e {
        let rest = expr_text(*inner) + r;
        assert(t == "return "@ + rest);
        assert(t[0] == 'r');
        lemma_keyword_start(t);
        lemma_return_word(rest);
        lemma_keywords();
        lemma_expr(less, *inner, structs, r);
    }
}

proof fn lemma_assign_expr(fuel: nat, e: SpecExpr, structs: bool, r: Seq<char>)
    requires
        expr_ok(e),
        e is Assign,
        expr_ends(r, structs),
        structs,
        fuel >= expr_text(e).len(),
    ensures
        read_expr(fuel, expr_text(e) + r, structs) == Some((flat_expr(e), r)),
    decreases e, 0nat,
{
    broadcast use lemma_assoc;

    lemma_lits();
    let t = expr_text(e) + r;
    let less = (fuel - 1) as nat;
    if let SpecExpr::Assign { ident, expr } = e {
        let rest = expr_text(*expr) + r;
        let path = SpecPath { global: false, segments: seq![ident] };
        lemma_join_one(path.segments, "::"@);
        assert(path_text(path) == ident);
        assert(t == ident + (" = "@ + rest));
        assert((" = "@ + rest)[0] == ' ');
        assert((" = "@ + rest)[1] == '=');
        lemma_path_expr(fuel, path, " = "@ + rest, structs);
        lemma_no_strip(" = "@ + rest, "("@);
        lemma_no_strip(" = "@ + rest, "."@);
        lemma_no_strip(" = "@ + rest, " { "@);
        lemma_strip(" = "@, rest);
        lemma_expr(less, *expr, structs, r);
    }
}

proof fn lemma_match_expr(fuel: nat, e: SpecExpr, structs: bool, r: Seq<char>)
    requires
        expr_ok(e),
        e is Match,
        fuel >= expr_text(e).len(),
    ensures
        read_expr(fuel, expr_text(e) + r, structs) == Some((flat_expr(e), r)),
    decreases e, 0nat,
{
    broadcast use lemma_assoc;

    lemma_lits();
    let t = expr_text(e) + r;
    let less = (fuel - 1) as nat;
    if let SpecExpr::Match { expr, arms } = e {
        let list = join(arms_texts(arms), " "@) + (" }"@ + r);
        let rest = expr_text(*expr) + (" { "@ + list);
        assert(t == "match "@ + rest);
        assert(t[0] == 'm');
        lemma_keyword_start(t);
        lemma_match_word(rest);
        assert((" { "@ + list)[0] == ' ');
        assert((" { "@ + list)[1] == '{');
        lemma_expr(less, *expr, false, " { "@ + list);
        lemma_strip(" { "@, list);
        lemma_arms(less, arms, r);
        lemma_strip(" }"@, r);
    }
}

proof fn lemma_loop_expr(fuel: nat, e: SpecExpr, structs: bool, r: Seq<char>)
    requires
        expr_ok(e),
        e is WhileLet,
        fuel >= expr_text(e).len(),
    ensures
        read_expr(fuel, expr_text(e) + r, structs) == Some((flat_expr(e), r)),
    decreases e, 0nat,
{
    broadcast use lemma_assoc;

    lemma_lits();
    let t = expr_text(e) + r;
    let less = (fuel - 1) as nat;
    if let SpecExpr::WhileLet { pat, expr, body } = e {
        let block = block_text(*body) + r;
        let value = expr_text(*expr) + (" "@ + block);
        let rest = pat_text(pat) + (" = "@ + value);
        assert(t == "while let "@ + rest);
        assert(t[0] == 'w');
        lemma_keyword_start(t);
        lemma_while_word(rest);
        lemma_keywords();
        lemma_strip("while let "@, rest);
        assert((" = "@ + value)[0] == ' ');
        lemma_pat(pat, " = "@ + value);
        lemma_strip(" = "@, value);
        assert(block_text(*body)[0] == '{');
        assert((" "@ + block)[0] == ' ');
        assert((" "@ + block)[1] == '{');
        lemma_expr(less, *expr, false, " "@ + block);
        lemma_strip(" "@, block);
        lemma_block(less, *body, r);
    }
}

proof fn lemma_struct_expr(fuel: nat, e: SpecExpr, structs: bool, r: Seq<char>)
    requires
        expr_ok(e),
        e is Struct,
        structs,
        fuel >= expr_text(e).len(),
    ensures
        read_expr(fuel, expr_text(e) + r, structs) == Some((flat_expr(e), r)),
    decreases e, 0nat,
{
    broadcast use lemma_assoc;

    lemma_lits();
    let t = expr_text(e) + r;
    let less = (fuel - 1) as nat;
    if let SpecExpr::Struct { path, fields } = e {
        let list = comma_text(inits_texts(fields)) + (" }"@ + r);
        assert(t == path_text(path) + (" { "@ + list));
        assert((" { "@ + list)[0] == ' ');
        lemma_path_expr(fuel, path, " { "@ + list, structs);
        lemma_no_strip(" { "@ + list, "("@);
        lemma_no_strip(" { "@ + list, "."@);
        lemma_strip(" { "@, list);
        lemma_inits(less, fields, r);
        lemma_strip(" }"@, r);
    }
}

pub proof fn lemma_expr(fuel: nat, e: SpecExpr, structs: bool, r: Seq<char>)
    requires
        expr_ok(e),
        e is WhileLet || expr_ends(r, structs),
        structs || before_block(e),
        fuel >= expr_text(e).len(),
    ensures
        read_expr(fuel, expr_text(e) + r, structs) == Some((flat_expr(e), r)),
    decreases e, 1nat,
{
    match e {
        SpecExpr::Path(_) => lemma_path_only_expr(fuel, e, structs, r),
        SpecExpr::Lit(l) => {
            lemma_lit(l, r);
            lemma_expr_start(e);
            assert((expr_text(e) + r)[0] == expr_text(e)[0]);
        },
        SpecExpr::Call { .. } => lemma_call_expr(fuel, e, structs, r),
        SpecExpr::MethodCall { .. } => lemma_method_expr(fuel, e, structs, r),
        SpecExpr::Try(_) => lemma_try_expr(fuel, e, structs, r),
        SpecExpr::Return(_) => lemma_return_expr(fuel, e, structs, r),
        SpecExpr::Assign { .. } => lemma_assign_expr(fuel, e, structs, r),
        SpecExpr::Match { .. } => lemma_match_expr(fuel, e, structs, r),
        SpecExpr::WhileLet { .. } => lemma_loop_expr(fuel, e, structs, r),
        SpecExpr::Struct { .. } => lemma_struct_expr(fuel, e, structs, r),
        SpecExpr::Block(b) => {
            lemma_lits();
            lemma_block(fuel, *b, r);
            assert(block_text(*b)[0] == '{');
            assert((expr_text(e) + r)[0] == '{');
        },
    }
}

// Statements
// ----------

pub proof fn lemma_block(fuel: nat, b: SpecBlock, r: Seq<char>)
    requires
        block_ok(b),
        fuel >= block_text(b).len(),
    ensures
        read_block(fuel, block_text(b) + r) == Some((flat_block(b), r)),
    decreases b, 0nat,
{
    broadcast use lemma_assoc;

    lemma_lits();
    let end = " }"@ + r;
    let body = join(stmts_texts(b.stmts) + tail_texts(b.expr), " "@) + end;
    assert(block_text(b) + r == "{ "@ + body);
    lemma_strip("{ "@, body);
    assert(end[0] == ' ');
    assert(end[1] == '}');
    if let Some(e) = b.expr {
        assert forall|f: nat| f >= expr_text(e).len() implies #[trigger] read_expr(
            f,
            expr_text(e) + end,
            true,
        ) == Some((flat_expr(e), end)) by {
            lemma_expr(f, e, true, end);
        }
    }
    lemma_stmts((fuel - 1) as nat, b.stmts, b.expr, r);
    lemma_strip(" }"@, r);
}

/// The expression that a block ends in can be read.
pub open spec fn tail_reads(tail: Option<SpecExpr>, end: Seq<char>) -> bool {
    tail matches Some(e) ==> forall|f: nat|
        f >= expr_text(e).len() ==> #[trigger] read_expr(f, expr_text(e) + end, true) == Some(
            (flat_expr(e), end),
        )
}

/// The expression that a block ends in.
proof fn lemma_tail(fuel: nat, e: SpecExpr, r: Seq<char>)
    requires
        tail_ok(Some(e)),
        tail_reads(Some(e), " }"@ + r),
        fuel >= expr_text(e).len(),
    ensures
        read_stmts(fuel, expr_text(e) + (" }"@ + r)) == Some(
            (Seq::<SpecStmt>::empty(), Some(flat_expr(e)), " }"@ + r),
        ),
{
    lemma_lits();
    let end = " }"@ + r;
    let t = expr_text(e) + end;
    lemma_expr_start(e);
    assert(t[0] == expr_text(e)[0]);
    assert(end[0] == ' ');
    lemma_no_strip(t, " }"@);
    lemma_expr_word(e, end);
    assert(read_expr(fuel, t, true) == Some((flat_expr(e), end)));
    lemma_no_strip(end, ";"@);
    assert(!(flat_expr(e) is WhileLet));
    assert(read_stmt(fuel, t) == Some((Err::<SpecStmt, SpecExpr>(flat_expr(e)), end)));
}

proof fn lemma_stmts(fuel: nat, stmts: Seq<SpecStmt>, tail: Option<SpecExpr>, r: Seq<char>)
    requires
        stmts_ok(stmts),
        tail_ok(tail),
        tail_reads(tail, " }"@ + r),
        fuel >= join(stmts_texts(stmts) + tail_texts(tail), " "@).len(),
    ensures
        read_stmts(
            fuel,
            join(stmts_texts(stmts) + tail_texts(tail), " "@) + (" }"@ + r),
        ) == Some((flat_stmts(stmts), flat_tail(tail), " }"@ + r)),
        stmts.len() > 0 || tail is Some ==> ({
            let text = join(stmts_texts(stmts) + tail_texts(tail), " "@);
            text.len() > 0 && text[0] != '}' && text[0] != ' '
        }),
    decreases stmts, 0nat,
{
    broadcast use lemma_assoc;

    lemma_lits();
    let end = " }"@ + r;
    let texts = stmts_texts(stmts) + tail_texts(tail);
    let t = join(texts, " "@) + end;
    lemma_strip(" }"@, r);
    assert(end[0] == ' ');
    if stmts.len() == 0 {
        assert(flat_stmts(stmts) =~= seq![]);
        match tail {
            Some(e) => {
                assert(texts =~= seq![expr_text(e)]);
                lemma_join_one(texts, " "@);
                lemma_expr_start(e);
                lemma_tail(fuel, e, r);
            },
            None => {
                assert(texts =~= seq![]);
                lemma_nil(end);
            },
        }
    } else {
        let s = stmts[0];
        let rest = stmts.drop_first();
        let more_texts = stmts_texts(rest) + tail_texts(tail);
        let more = join(more_texts, " "@) + end;
        let behind = if texts.len() == 1 {
            end
        } else {
            " "@ + more
        };
        assert(texts[0] == stmt_text(s));
        assert(texts.drop_first() =~= more_texts);
        if texts.len() == 1 {
            lemma_join_one(texts, " "@);
        } else {
            lemma_join_first(texts, " "@);
            assert(behind[0] == ' ');
        }
        assert(t == stmt_text(s) + behind);
        lemma_stmt(fuel, s, behind);
        assert(t[0] == stmt_text(s)[0]);
        assert(join(texts, " "@)[0] == stmt_text(s)[0]);
        lemma_no_strip(t, " }"@);
        if texts.len() == 1 {
            assert(rest =~= seq![]);
            assert(flat_stmts(rest) =~= seq![]);
            assert(flat_stmts(stmts) =~= seq![flat_stmt(s)]);
        } else {
            lemma_stmts((fuel - 1) as nat, rest, tail, r);
            assert(behind[1] == join(more_texts, " "@)[0]);
            lemma_no_strip(behind, " }"@);
            lemma_strip(" "@, more);
        }
    }
}

/// A declaration of a variable.
proof fn lemma_let(fuel: nat, mutable: bool, ident: Seq<char>, init: SpecExpr, r: Seq<char>)
    requires
        is_name(ident),
        expr_ok(init),
        fuel >= expr_text(init).len(),
    ensures
        ({
            let s = SpecStmt::Let { mutable, ident, init };
            let flat = SpecStmt::Let { mutable, ident, init: flat_expr(init) };
            &&& read_stmt(fuel, stmt_text(s) + r) == Some((Ok::<SpecStmt, SpecExpr>(flat), r))
            &&& stmt_text(s).len() > 0
            &&& stmt_text(s)[0] == 'l'
        }),
    decreases init, 2nat,
{
    broadcast use lemma_assoc;

    lemma_lits();
    let t = stmt_text(SpecStmt::Let { mutable, ident, init }) + r;
    let end = ";"@ + r;
    let value = expr_text(init) + end;
    let named = ident + (" = "@ + value);
    assert((" = "@ + value)[0] == ' ');
    lemma_word(ident, " = "@ + value);
    if mutable {
        assert(t == "let "@ + ("mut "@ + named));
        lemma_let_word("mut "@ + named);
        lemma_mut_word(named);
    } else {
        assert("let "@ + Seq::<char>::empty() =~= "let "@);
        assert(t == "let "@ + named);
        lemma_let_word(named);
    }
    lemma_strip(" = "@, value);
    assert(end[0] == ';');
    lemma_expr(fuel, init, true, end);
    lemma_strip(";"@, r);
}

proof fn lemma_stmt(fuel: nat, s: SpecStmt, r: Seq<char>)
    requires
        stmt_ok(s),
        r.len() > 0,
        r[0] == ' ',
        fuel >= stmt_text(s).len(),
    ensures
        read_stmt(fuel, stmt_text(s) + r) == Some((Ok::<SpecStmt, SpecExpr>(flat_stmt(s)), r)),
        stmt_text(s).len() > 0,
        stmt_text(s)[0] != '}',
        stmt_text(s)[0] != ' ',
    decreases s, 0nat,
{
    match s {
        SpecStmt::Let { mutable, ident, init } => {
            lemma_let(fuel, mutable, ident, init, r);
        },
        SpecStmt::Decl(d) => {
            lemma_decl(fuel, d, r);
            lemma_decl_word(d, r);
        },
        SpecStmt::Semi(e) => {
            lemma_semi_stmt(fuel, e, r);
        },
        SpecStmt::Expr(e) => {
            lemma_lits();
            lemma_expr_start(e);
            lemma_expr(fuel, e, true, r);
            lemma_expr_word(e, r);
            lemma_no_strip(r, ";"@);
            assert(flat_expr(e) is WhileLet);
        },
    }
}

/// An expression with a semicolon.
proof fn lemma_semi_stmt(fuel: nat, e: SpecExpr, r: Seq<char>)
    requires
        expr_ok(e),
        fuel >= expr_text(e).len(),
    ensures
        read_stmt(fuel, stmt_text(SpecStmt::Semi(e)) + r) == Some(
            (Ok::<SpecStmt, SpecExpr>(SpecStmt::Semi(flat_expr(e))), r),
        ),
        stmt_text(SpecStmt::Semi(e)).len() > 0,
        stmt_text(SpecStmt::Semi(e))[0] != '}',
        stmt_text(SpecStmt::Semi(e))[0] != ' ',
    decreases e, 2nat,
{
    lemma_lits();
    let end = ";"@ + r;
    lemma_assoc(expr_text(e), ";"@, r);
    assert(end[0] == ';');
    lemma_expr_start(e);
    lemma_expr(fuel, e, true, end);
    lemma_expr_word(e, end);
    lemma_strip(";"@, r);
}

// Items
// -----

/// The word or sign that an item starts with.
pub open spec fn decl_starts(d: SpecDecl, r: Seq<char>) -> bool {
    let t = decl_text(d) + r;
    let w = word(t);
    &&& w != "let"@
    &&& strip(t, "#["@) is Some || w == "enum"@ || w == "struct"@ || w == "impl"@
    &&& decl_text(d).len() > 0
    &&& decl_text(d)[0] != '}'
    &&& decl_text(d)[0] != ' '
}

/// An item that starts with an attribute, or with `text` where there is none.
proof fn lemma_attr_start(
    d: SpecDecl,
    attr: Option<Seq<char>>,
    text: Seq<char>,
    r: Seq<char>,
)
    requires
        decl_text(d) == attr_text(attr) + text,
        text.len() > 0,
        text[0] != '#',
        text[0] != '}',
        text[0] != ' ',
        attr_ok(attr),
        word(text + r) == "enum"@ || word(text + r) == "impl"@,
    ensures
        decl_starts(d, r),
{
    lemma_lits();
    lemma_keywords();
    lemma_short_words();
    let t = decl_text(d) + r;
    lemma_assoc(attr_text(attr), text, r);
    assert((text + r)[0] == text[0]);
    lemma_attr(attr, text + r);
    match attr {
        Some(_) => {
            assert(attr_text(attr)[0] == '#');
            assert(decl_text(d)[0] == '#');
            assert(t[0] == '#');
            assert(word_len(t) == 0);
        },
        None => {
            lemma_nil(text);
            lemma_nil(text + r);
        },
    }
}

proof fn lemma_enum_start(
    attr: Option<Seq<char>>,
    ident: Seq<char>,
    variants: Seq<Seq<char>>,
    r: Seq<char>,
)
    requires
        attr_ok(attr),
    ensures
        decl_starts(SpecDecl::Enum { attr, ident, variants }, r),
{
    broadcast use lemma_assoc;

    lemma_lits();
    let d = SpecDecl::Enum { attr, ident, variants };
    let rest = ident + (" { "@ + (comma_text(variants) + " }"@));
    assert(decl_text(d) == attr_text(attr) + ("enum "@ + rest));
    lemma_enum_word(rest + r);
    assert(("enum "@ + rest)[0] == 'e');
    lemma_attr_start(d, attr, "enum "@ + rest, r);
}

proof fn lemma_impl_start(i: SpecTraitImpl, r: Seq<char>)
    requires
        impl_ok(i),
    ensures
        decl_starts(SpecDecl::Impl(i), r),
{
    lemma_lits();
    let d = SpecDecl::Impl(i);
    lemma_impl_text(i);
    lemma_impl_rest_start(i, r);
    lemma_impl_word(impl_rest(i) + r);
    lemma_assoc("impl"@, impl_rest(i), r);
    assert(("impl"@ + impl_rest(i))[0] == 'i');
    assert(decl_text(d) == impl_text(i));
    lemma_attr_start(d, i.attr, "impl"@ + impl_rest(i), r);
}

proof fn lemma_decl_word(d: SpecDecl, r: Seq<char>)
    requires
        decl_ok(d),
    ensures
        decl_starts(d, r),
{
    match d {
        SpecDecl::Enum { attr, ident, variants } => lemma_enum_start(attr, ident, variants, r),
        SpecDecl::Struct { ident, generics, tys } => {
            lemma_lits();
            lemma_keywords();
            lemma_struct_text(ident, generics, tys, r);
            let rest = ident + (generics_text(generics) + (tuple_text(tys) + (where_text(
                generics,
            ) + (";"@ + r))));
            lemma_struct_word(rest);
            assert((decl_text(d) + r)[0] == 's');
        },
        SpecDecl::Impl(i) => lemma_impl_start(i, r),
    }
}

/// The body of an implementation, without its braces.
pub open spec fn impl_body(i: SpecTraitImpl) -> Seq<char> {
    join(value_texts(i.value) + methods_texts(i.methods), " "@)
}

/// The head of an implementation behind the word `impl`.
pub open spec fn impl_head(i: SpecTraitImpl, behind: Seq<char>) -> Seq<char> {
    generics_text(i.generics) + (" "@ + (path_text(i.trait_path) + (" for "@ + (ty_text(i.self_ty)
        + (where_text(i.generics) + (" { "@ + behind))))))
}

/// An implementation behind the word `impl`.
pub open spec fn impl_rest(i: SpecTraitImpl) -> Seq<char> {
    impl_head(i, impl_body(i) + " }"@)
}

proof fn lemma_impl_text(i: SpecTraitImpl)
    ensures
        impl_text(i) == attr_text(i.attr) + ("impl"@ + impl_rest(i)),
{
    broadcast use lemma_assoc;

}

proof fn lemma_impl_rest_start(i: SpecTraitImpl, r: Seq<char>)
    requires
        generics_ok(i.generics),
    ensures
        word_ends(impl_rest(i) + r),
        impl_rest(i) + r == impl_head(i, impl_body(i) + (" }"@ + r)),
{
    broadcast use lemma_assoc;

    lemma_lits();
    let behind = " "@ + (path_text(i.trait_path) + (" for "@ + (ty_text(i.self_ty) + (where_text(
        i.generics,
    ) + (" { "@ + (impl_body(i) + (" }"@ + r)))))));
    lemma_generics(i.generics, behind);
    if generics_text(i.generics).len() == 0 {
        assert(generics_text(i.generics) =~= seq![]);
        lemma_nil(behind);
    }
}

/// The head of an implementation.
proof fn lemma_impl_head(i: SpecTraitImpl, behind: Seq<char>)
    requires
        impl_ok(i),
    ensures
        read_impl_head(impl_head(i, behind)) == Some(
            (flat_generics(i.generics), i.trait_path, i.self_ty, behind),
        ),
{
    lemma_lits();
    let open = " { "@ + behind;
    let clause = where_text(i.generics) + open;
    let ty = ty_text(i.self_ty) + clause;
    let path = path_text(i.trait_path) + (" for "@ + ty);
    assert(open[0] == ' ');
    assert(open[1] == '{');
    lemma_generics(i.generics, " "@ + path);
    lemma_strip(" "@, path);
    assert((" for "@ + ty)[0] == ' ');
    lemma_path(i.trait_path, " for "@ + ty);
    lemma_strip(" for "@, ty);
    lemma_where(i.generics, open);
    lemma_ty(ty.len(), i.self_ty, clause);
    lemma_strip(" { "@, behind);
}

/// An enum.
proof fn lemma_enum(
    fuel: nat,
    attr: Option<Seq<char>>,
    ident: Seq<char>,
    variants: Seq<Seq<char>>,
    r: Seq<char>,
)
    requires
        fuel > 0,
        attr_ok(attr),
        is_name(ident),
        all_names(variants),
    ensures
        ({
            let d = SpecDecl::Enum { attr, ident, variants };
            read_decl(fuel, decl_text(d) + r) == Some((d, r))
        }),
{
    broadcast use lemma_assoc;

    lemma_lits();
    let end = " }"@ + r;
    let list = comma_text(variants) + end;
    let rest = ident + (" { "@ + list);
    assert(decl_text(SpecDecl::Enum { attr, ident, variants }) + r == attr_text(attr) + ("enum "@
        + rest));
    assert(("enum "@ + rest)[0] == 'e');
    lemma_attr(attr, "enum "@ + rest);
    lemma_enum_word(rest);
    assert((" { "@ + list)[0] == ' ');
    lemma_word(ident, " { "@ + list);
    lemma_strip(" { "@, list);
    lemma_strip(" }"@, r);
    assert(end[0] == ' ');
    if variants.len() == 0 {
        assert(variants =~= seq![]);
        lemma_nil(end);
    } else {
        lemma_words(list.len(), variants, end);
        assert(list[0] == comma_text(variants)[0]);
        lemma_no_strip(list, " }"@);
    }
}

pub proof fn lemma_decl(fuel: nat, d: SpecDecl, r: Seq<char>)
    requires
        decl_ok(d),
        fuel >= decl_text(d).len(),
    ensures
        read_decl(fuel, decl_text(d) + r) == Some((flat_decl(d), r)),
    decreases d, 0nat,
{
    let t = decl_text(d) + r;
    lemma_decl_word(d, r);
    match d {
        SpecDecl::Enum { attr, ident, variants } => {
            lemma_enum(fuel, attr, ident, variants, r);
        },
        SpecDecl::Struct { ident, generics, tys } => {
            lemma_struct_text(ident, generics, tys, r);
            let rest = ident + (generics_text(generics) + (tuple_text(tys) + (where_text(
                generics,
            ) + (";"@ + r))));
            lemma_keywords();
            lemma_struct_word(rest);
            lemma_struct(ident, generics, tys, r);
        },
        SpecDecl::Impl(i) => {
            lemma_keywords();
            lemma_lits();
            let rest = impl_rest(i) + r;
            lemma_impl_text(i);
            lemma_assoc(attr_text(i.attr), "impl"@ + impl_rest(i), r);
            lemma_assoc("impl"@, impl_rest(i), r);
            assert(("impl"@ + rest)[0] == 'i');
            lemma_attr(i.attr, "impl"@ + rest);
            lemma_impl_rest_start(i, r);
            lemma_impl_word(rest);
            lemma_impl_len(i);
            lemma_impl((fuel - 1) as nat, i, r);
        },
    }
}

proof fn lemma_struct_text(ident: Seq<char>, g: SpecGenerics, tys: Seq<SpecTy>, r: Seq<char>)
    ensures
        ({
            let t = decl_text(SpecDecl::Struct { ident, generics: g, tys }) + r;
            &&& t == "struct "@ + (ident + (generics_text(g) + (tuple_text(tys) + (where_text(g)
                + (";"@ + r)))))
            &&& strip(t, "#["@) is None
        }),
        decl_text(SpecDecl::Struct { ident, generics: g, tys }).len() > 0,
        decl_text(SpecDecl::Struct { ident, generics: g, tys })[0] == 's',
{
    broadcast use lemma_assoc;

    lemma_lits();
    let t = decl_text(SpecDecl::Struct { ident, generics: g, tys }) + r;
    assert(t[0] == 's');
    lemma_no_strip(t, "#["@);
}

proof fn lemma_impl_len(i: SpecTraitImpl)
    ensures
        impl_text(i).len() >= impl_body(i).len() + 5,
{
    lemma_lits();
}

/// A struct behind the word `struct`.
proof fn lemma_struct(ident: Seq<char>, g: SpecGenerics, tys: Seq<SpecTy>, r: Seq<char>)
    requires
        is_name(ident),
        generics_ok(g),
        tys_ok(tys),
    ensures
        read_struct(
            ident + (generics_text(g) + (tuple_text(tys) + (where_text(g) + (";"@ + r)))),
        ) == Some((SpecDecl::Struct { ident, generics: flat_generics(g), tys }, r)),
{
    broadcast use lemma_assoc;

    lemma_lits();
    let end = ";"@ + r;
    let clause = where_text(g) + end;
    let fields = tuple_text(tys) + clause;
    let params = generics_text(g) + fields;
    assert(end[0] == ';');
    lemma_where(g, end);
    if tys.len() == 0 {
        lemma_nil(clause);
        assert(tys =~= seq![]);
        lemma_no_strip(clause, "("@);
    } else {
        let close = ")"@ + clause;
        let list = comma_text(tys_texts(tys)) + close;
        assert(fields == "("@ + list);
        lemma_strip("("@, list);
        assert(close[0] == ')');
        let none = Seq::<Seq<char>>::empty();
        assert(none + tys_texts(tys) =~= tys_texts(tys));
        lemma_ty_args(list.len(), none, tys, close);
        lemma_strip(")"@, clause);
    }
    lemma_generics(g, fields);
    if generics_text(g).len() == 0 {
        assert(generics_text(g) =~= seq![]);
        lemma_nil(fields);
    }
    lemma_word(ident, params);
    lemma_strip(";"@, r);
}

/// The associated type of an implementation.
proof fn lemma_value(value: Option<SpecTy>, texts: Seq<Seq<char>>, r: Seq<char>)
    requires
        value matches Some(ty) ==> ty_ok(ty),
        texts.len() > 0 ==> ({
            let text = join(texts, " "@);
            text.len() > 0 && (text[0] == '#' || text[0] == 'f')
        }),
    ensures
        read_value(join(value_texts(value) + texts, " "@) + (" }"@ + r)) == Some(
            (value, join(texts, " "@) + (" }"@ + r)),
        ),
        join(value_texts(value) + texts, " "@).len() >= join(texts, " "@).len(),
{
    broadcast use lemma_assoc;

    lemma_lits();
    let end = " }"@ + r;
    let all = value_texts(value) + texts;
    let list = join(texts, " "@) + end;
    let body = join(all, " "@) + end;
    lemma_strip(" }"@, r);
    assert(end[0] == ' ');
    if texts.len() == 0 {
        assert(texts =~= seq![]);
        lemma_nil(end);
    }
    match value {
        Some(ty) => {
            let behind = behind_first(all, " "@, end);
            assert(all[0] == "type Value = "@ + ty_text(ty) + ";"@);
            assert(all.drop_first() =~= texts);
            lemma_list(all, " "@, end);
            let rest = ty_text(ty) + (";"@ + behind);
            assert(body == "type Value = "@ + rest);
            lemma_strip("type Value = "@, rest);
            assert((";"@ + behind)[0] == ';');
            lemma_ty(rest.len(), ty, ";"@ + behind);
            lemma_strip(";"@, behind);
            if texts.len() > 0 {
                assert(behind == " "@ + list);
                assert(behind[0] == ' ');
                assert(behind[1] == join(texts, " "@)[0]);
                lemma_no_strip(behind, " }"@);
                assert(behind.skip(1) =~= list);
            }
        },
        None => {
            assert(all =~= texts);
            if texts.len() > 0 {
                assert(list[0] == join(texts, " "@)[0]);
            }
            lemma_no_strip(body, "type Value = "@);
        },
    }
}

/// An implementation behind the word `impl`.
proof fn lemma_impl(fuel: nat, i: SpecTraitImpl, r: Seq<char>)
    requires
        impl_ok(i),
        fuel >= impl_body(i).len(),
    ensures
        read_impl(fuel, i.attr, impl_head(i, impl_body(i) + (" }"@ + r))) == Some(
            (SpecDecl::Impl(flat_impl(i)), r),
        ),
    decreases i, 0nat,
{
    let body = impl_body(i) + (" }"@ + r);
    lemma_impl_head(i, body);
    lemma_strip(" }"@, r);
    lemma_methods_start(i.methods);
    lemma_value(i.value, methods_texts(i.methods), r);
    lemma_methods(fuel, i.methods, r);
}

proof fn lemma_methods_start(ms: Seq<SpecMethod>)
    ensures
        methods_texts(ms).len() == ms.len(),
        ms.len() > 0 ==> ({
            let text = join(methods_texts(ms), " "@);
            text.len() > 0 && (text[0] == '#' || text[0] == 'f')
        }),
{
    if ms.len() > 0 {
        let texts = methods_texts(ms);
        assert(texts[0] == method_text(ms[0]));
        lemma_method_start(ms[0]);
        lemma_list(texts, " "@, seq![]);
    }
}

proof fn lemma_methods(fuel: nat, ms: Seq<SpecMethod>, r: Seq<char>)
    requires
        methods_ok(ms),
        fuel >= join(methods_texts(ms), " "@).len(),
    ensures
        read_methods(fuel, join(methods_texts(ms), " "@) + (" }"@ + r)) == Some(
            (flat_methods(ms), " }"@ + r),
        ),
    decreases ms, 0nat,
{
    lemma_lits();
    let end = " }"@ + r;
    let texts = methods_texts(ms);
    let t = join(texts, " "@) + end;
    lemma_strip(" }"@, r);
    if ms.len() == 0 {
        assert(texts =~= seq![]);
        lemma_nil(end);
    } else {
        let m = ms[0];
        let rest = ms.drop_first();
        let behind = behind_first(texts, " "@, end);
        assert(texts[0] == method_text(m));
        assert(texts.drop_first() =~= methods_texts(rest));
        lemma_list(texts, " "@, end);
        lemma_method(fuel, m, behind);
        assert(t[0] == method_text(m)[0]);
        lemma_no_strip(t, " }"@);
        if ms.len() == 1 {
            assert(flat_methods(rest) =~= seq![]);
            assert(flat_methods(ms) =~= seq![flat_method(m)]);
        } else {
            let more = join(methods_texts(rest), " "@) + end;
            lemma_methods((fuel - 1) as nat, rest, r);
            lemma_methods_start(rest);
            assert(behind[0] == ' ');
            assert(behind[1] == join(methods_texts(rest), " "@)[0]);
            lemma_no_strip(behind, " }"@);
            lemma_strip(" "@, more);
        }
    }
}

proof fn lemma_arg(a: SpecArg, r: Seq<char>)
    requires
        is_name(a.ident),
        ty_ok(a.ty),
        r.len() > 0,
        r[0] == ')',
    ensures
        read_arg(arg_text(a) + r) == Some((a, r)),
        arg_text(a).len() > 0,
        word_char(arg_text(a)[0]),
{
    broadcast use lemma_assoc;

    lemma_lits();
    let ty = ty_text(a.ty) + r;
    let named = a.ident + (": "@ + ty);
    assert((": "@ + ty)[0] == ':');
    lemma_word(a.ident, ": "@ + ty);
    if a.mutable {
        assert(arg_text(a) + r == "mut "@ + named);
        lemma_mut_word(named);
        assert(arg_text(a)[0] == 'm');
    } else {
        lemma_nil(a.ident);
        assert(arg_text(a) + r == named);
        assert(arg_text(a)[0] == a.ident[0]);
    }
    lemma_strip(": "@, ty);
    lemma_ty(ty.len(), a.ty, r);
}

proof fn lemma_fn_params(takes_self: bool, arg: Option<SpecArg>, r: Seq<char>)
    requires
        arg matches Some(a) ==> is_name(a.ident) && ty_ok(a.ty),
        r.len() > 0,
        r[0] == ')',
    ensures
        read_fn_params(params_text(takes_self, arg) + r) == Some((takes_self, arg, r)),
{
    broadcast use lemma_assoc;

    lemma_lits();
    let t = params_text(takes_self, arg) + r;
    match arg {
        Some(a) => {
            let rest = arg_text(a) + r;
            lemma_arg(a, r);
            if takes_self {
                assert("&mut self, "@ =~= "&mut self"@ + ", "@) by {
                    reveal_strlit("&mut self, ");
                    reveal_strlit("&mut self");
                    reveal_strlit(", ");
                };
                assert(t == "&mut self"@ + (", "@ + rest));
                lemma_strip("&mut self"@, ", "@ + rest);
                lemma_strip(", "@, rest);
            } else {
                assert(t[0] == arg_text(a)[0]);
                lemma_no_strip(t, "&mut self"@);
                lemma_no_strip(t, ")"@);
            }
        },
        None => {
            if takes_self {
                lemma_strip("&mut self"@, r);
                lemma_no_strip(r, ", "@);
            } else {
                lemma_nil(r);
                lemma_no_strip(r, "&mut self"@);
                assert(r.take(1) =~= ")"@);
            }
        },
    }
}

/// The output of a method, and the bound of its type parameter.
pub open spec fn method_output(m: SpecMethod, behind: Seq<char>) -> Seq<char> {
    ") -> "@ + (ty_text(m.output) + (" where "@ + (m.ty_param + (": "@ + (path_text(m.bound) + (" "@
        + behind))))))
}

/// The text of a method up to its body.
pub open spec fn method_head(m: SpecMethod, behind: Seq<char>) -> Seq<char> {
    attr_text(m.attr) + ("fn "@ + (m.ident + ("<"@ + (m.ty_param + (">("@ + (params_text(
        m.takes_self,
        m.arg,
    ) + method_output(m, behind)))))))
}

proof fn lemma_method_text(m: SpecMethod, r: Seq<char>)
    ensures
        method_text(m) + r == method_head(m, block_text(m.body) + r),
        method_text(m).len() > block_text(m.body).len(),
{
    broadcast use lemma_assoc;

    lemma_lits();
}

proof fn lemma_output(m: SpecMethod, behind: Seq<char>)
    requires
        method_ok(m),
    ensures
        read_output(m.ty_param, method_output(m, behind)) == Some((m.output, m.bound, behind)),
        method_output(m, behind).len() > 0,
        method_output(m, behind)[0] == ')',
{
    lemma_lits();
    let r9 = " "@ + behind;
    let r8 = path_text(m.bound) + r9;
    let colon = ": "@ + r8;
    let r7 = m.ty_param + colon;
    let clause = " where "@ + r7;
    let r5 = ty_text(m.output) + clause;
    lemma_strip(") -> "@, r5);
    assert(clause[0] == ' ');
    lemma_ty(r5.len(), m.output, clause);
    lemma_strip(" where "@, r7);
    assert(colon[0] == ':');
    lemma_word(m.ty_param, colon);
    lemma_strip(": "@, r8);
    assert(r9[0] == ' ');
    lemma_path(m.bound, r9);
    lemma_strip(" "@, behind);
}

proof fn lemma_method_head(m: SpecMethod, behind: Seq<char>)
    requires
        method_ok(m),
    ensures
        read_method_head(method_head(m, behind)) == Some(
            (SpecMethod { body: SpecBlock { stmts: seq![], expr: None }, ..m }, behind),
        ),
{
    lemma_lits();
    let arrow = method_output(m, behind);
    let r3 = params_text(m.takes_self, m.arg) + arrow;
    let open = ">("@ + r3;
    let r2 = m.ty_param + open;
    let angle = "<"@ + r2;
    let r1 = m.ident + angle;
    let r = "fn "@ + r1;
    lemma_output(m, behind);
    assert(r[0] == 'f');
    lemma_attr(m.attr, r);
    lemma_strip("fn "@, r1);
    assert(angle[0] == '<');
    lemma_word(m.ident, angle);
    lemma_strip("<"@, r2);
    assert(open[0] == '>');
    lemma_word(m.ty_param, open);
    lemma_strip(">("@, r3);
    lemma_fn_params(m.takes_self, m.arg, arrow);
}

proof fn lemma_method(fuel: nat, m: SpecMethod, r: Seq<char>)
    requires
        method_ok(m),
        fuel >= method_text(m).len(),
    ensures
        read_method(fuel, method_text(m) + r) == Some((flat_method(m), r)),
        method_text(m).len() > 0,
        method_text(m)[0] == '#' || method_text(m)[0] == 'f',
    decreases m, 0nat,
{
    lemma_lits();
    lemma_method_text(m, r);
    lemma_method_head(m, block_text(m.body) + r);
    lemma_block((fuel - 1) as nat, m.body, r);
    lemma_method_start(m);
}

proof fn lemma_method_start(m: SpecMethod)
    ensures
        method_text(m).len() > 0,
        method_text(m)[0] == '#' || method_text(m)[0] == 'f',
{
    lemma_lits();
    lemma_method_text(m, seq![]);
    assert(method_text(m) + Seq::<char>::empty() =~= method_text(m));
    if m.attr is None {
        let behind = block_text(m.body) + Seq::<char>::empty();
        lemma_nil(
            "fn "@ + (m.ident + ("<"@ + (m.ty_param + (">("@ + (params_text(m.takes_self, m.arg)
                + method_output(m, behind)))))),
        );
    }
}

} // verus!
