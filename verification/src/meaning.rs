//! What generated code does when it runs: an interpreter, as a mathematical
//! function, for the trees of [`crate::code`].
//!
//! The code talks to two parties that it does not contain: a deserializer, and
//! the visitors that the deserializer hands out for sequences, maps and
//! variants. An [`Input`] fixes what these reply. The deserializer is one that
//! describes its data itself: whatever method of it is called, it calls the
//! method of the given visitor that fits the input, unless it fails before. What
//! the visitor returns it hands on, unless it fails after.
use vstd::prelude::*;

use crate::code::{
    SpecArm, SpecBlock, SpecDecl, SpecExpr, SpecFieldInit, SpecLit, SpecMethod, SpecPat, SpecPath,
    SpecStmt, SpecTraitImpl, SpecTy,
};
use crate::tree::{default_path, ident_path, serde_error_path, serde_path, var};

verus! {

/// An error that deserialization can end in.
pub ghost enum Fault {
    /// `unknown_field_error`, for this name.
    UnknownField(Seq<char>),
    /// `end_of_stream_error`
    EndOfStream,
    /// The input is of a kind that the visitor does not take.
    Mismatch,
    /// An error that the deserializer, or a field's own type, has given.
    Source(int),
}

/// A value of the running code.
pub ghost enum Val {
    Unit,
    /// A value of a field's type, as its own deserialization has made it.
    Leaf(int),
    /// The default value of a field's type.
    Default,
    Str(Seq<char>),
    /// `None`
    Absent,
    /// `Some`
    Present(Box<Val>),
    /// `Ok`
    Success(Box<Val>),
    /// `Err`
    Failure(Fault),
    /// An error that is not yet wrapped in `Err`.
    Fault(Fault),
    /// A constructor, given by its path, applied to values.
    Tuple { path: Seq<Seq<char>>, args: Seq<Val> },
    /// A struct or struct variant with its fields.
    Record { path: Seq<Seq<char>>, fields: Seq<(Seq<char>, Val)> },
}

/// An entry of a map. The key may fail to be a string, and the value may fail
/// to be one of its field's type.
pub ghost struct Entry {
    pub key: Result<Seq<char>, int>,
    pub value: Result<int, int>,
}

/// What a deserializer holds.
pub ghost enum Input {
    Unit,
    Str(Seq<char>),
    /// A sequence. `end` is what the visitor replies when asked to end.
    List { items: Seq<Result<int, int>>, end: Result<(), int> },
    /// A map. `missing` is what the visitor replies for a key that is missing.
    Table {
        entries: Seq<Entry>,
        missing: spec_fn(Seq<char>) -> Result<int, int>,
        end: Result<(), int>,
    },
    /// A variant: its name, which may fail to be a string, and what it holds.
    Variant { name: Result<Seq<char>, int>, content: Box<Input> },
    /// Nothing: reading fails with this error before a visitor is called.
    Broken(int),
    /// An input behind which reading fails: where the visitor takes what is
    /// there, the answer is this error.
    Spoiled { input: Box<Input>, error: int },
}

/// Local variables, the innermost last.
pub type Env = Seq<(Seq<char>, Val)>;

/// A call of a method of a party that the code does not contain, and the string
/// that it gets as its first argument, if there is one.
pub ghost struct Request {
    pub party: Party,
    pub ident: Seq<char>,
    pub text: Option<Seq<char>>,
}

/// Requests in the order in which they were made.
pub type Trace = Seq<Request>;

/// What changes while code runs: the local variables, how much of a sequence or
/// map has been read, and the requests made so far.
pub ghost struct State {
    pub env: Env,
    pub pos: nat,
    pub trace: Trace,
}

/// What code runs in: the items in scope, the innermost last, the methods of
/// `self`, and the input.
pub ghost struct Context {
    pub scope: Seq<SpecDecl>,
    pub methods: Seq<SpecMethod>,
    pub input: Input,
}

/// How an evaluation ends.
pub ghost enum Flow {
    /// With a value.
    Done(Val),
    /// With a value that the method returns.
    Return(Val),
    /// Without any: the code is not meant to be run like this.
    Stuck,
}

// Names
// -----

/// The methods of visitors that generated code calls.
pub ghost enum Op {
    Visit,
    VisitKey,
    VisitValue,
    MissingField,
    End,
    VisitVariant,
    VisitUnit,
    VisitSeq,
    VisitMap,
    Other,
}

pub open spec fn op(ident: Seq<char>) -> Op {
    if ident == "visit"@ {
        Op::Visit
    } else if ident == "visit_key"@ {
        Op::VisitKey
    } else if ident == "visit_value"@ {
        Op::VisitValue
    } else if ident == "missing_field"@ {
        Op::MissingField
    } else if ident == "end"@ {
        Op::End
    } else if ident == "visit_variant"@ {
        Op::VisitVariant
    } else if ident == "visit_unit"@ {
        Op::VisitUnit
    } else if ident == "visit_seq"@ {
        Op::VisitSeq
    } else if ident == "visit_map"@ {
        Op::VisitMap
    } else {
        Op::Other
    }
}

/// The parties that methods are called on.
pub ghost enum Party {
    Visitor,
    Deserializer,
    This,
    Other,
}

pub open spec fn party(receiver: SpecExpr) -> Party {
    if receiver == var("visitor"@) {
        Party::Visitor
    } else if receiver == var("deserializer"@) {
        Party::Deserializer
    } else if receiver == var("self"@) {
        Party::This
    } else {
        Party::Other
    }
}

// Variables and values
// --------------------

/// The index of the innermost variable of this name, or -1.
pub open spec fn last_index(env: Env, x: Seq<char>) -> int
    decreases env.len(),
{
    if env.len() == 0 {
        -1
    } else if env.last().0 == x {
        env.len() - 1
    } else {
        last_index(env.drop_last(), x)
    }
}

/// The value of a path: a variable, `None`, or a constructor without arguments.
pub open spec fn path_value(env: Env, p: SpecPath) -> Val {
    if p.segments.len() == 1 && last_index(env, p.segments[0]) >= 0 {
        env[last_index(env, p.segments[0])].1
    } else if p == ident_path("None"@) {
        Val::Absent
    } else {
        Val::Tuple { path: p.segments, args: seq![] }
    }
}

/// The value of a call of a function or constructor.
pub open spec fn call_value(p: SpecPath, args: Seq<Val>) -> Flow {
    if p == ident_path("Ok"@) && args.len() == 1 {
        Flow::Done(Val::Success(Box::new(args[0])))
    } else if p == ident_path("Err"@) {
        match args[0] {
            Val::Fault(f) => Flow::Done(Val::Failure(f)),
            _ => Flow::Stuck,
        }
    } else if p == ident_path("Some"@) && args.len() == 1 {
        Flow::Done(Val::Present(Box::new(args[0])))
    } else if p == default_path() {
        Flow::Done(Val::Default)
    } else if p == serde_error_path("end_of_stream_error"@) {
        Flow::Done(Val::Fault(Fault::EndOfStream))
    } else if p == serde_error_path("unknown_field_error"@) {
        match args[0] {
            Val::Str(name) => Flow::Done(Val::Fault(Fault::UnknownField(name))),
            _ => Flow::Stuck,
        }
    } else {
        Flow::Done(Val::Tuple { path: p.segments, args })
    }
}

/// `try!`: goes on with the value of an `Ok`, and returns an `Err`.
pub open spec fn try_flow(f: Flow) -> Flow {
    match f {
        Flow::Done(Val::Success(v)) => Flow::Done(*v),
        Flow::Done(Val::Failure(e)) => Flow::Return(Val::Failure(e)),
        Flow::Done(_) => Flow::Stuck,
        _ => f,
    }
}

/// `return`
pub open spec fn return_flow(f: Flow) -> Flow {
    match f {
        Flow::Done(v) => Flow::Return(v),
        _ => f,
    }
}

/// The end of a method: what it returns is its value.
pub open spec fn method_flow(f: Flow) -> Flow {
    match f {
        Flow::Return(v) => Flow::Done(v),
        _ => f,
    }
}

/// Whether a value matches a pattern, and the variables that this binds.
pub open spec fn pat_match(p: SpecPat, v: Val) -> Option<Env> {
    match p {
        SpecPat::Wild => Some(seq![]),
        SpecPat::Lit(SpecLit::Str(s)) => if v == Val::Str(s) {
            Some(seq![])
        } else {
            None
        },
        SpecPat::Lit(SpecLit::Verbatim(_)) => None,
        SpecPat::Path(path) => if path == ident_path("None"@) {
            if v == Val::Absent {
                Some(seq![])
            } else {
                None
            }
        } else if v == (Val::Tuple { path: path.segments, args: seq![] }) {
            Some(seq![])
        } else {
            None
        },
        SpecPat::TupleStruct { path, ident } => match v {
            Val::Present(w) => if path == ident_path("Some"@) {
                Some(seq![(ident, *w)])
            } else {
                None
            },
            _ => None,
        },
    }
}

/// A reply as a `Result`.
pub open spec fn reply(r: Result<int, int>) -> Val {
    match r {
        Ok(v) => Val::Success(Box::new(Val::Leaf(v))),
        Err(e) => Val::Failure(Fault::Source(e)),
    }
}

/// A reply as a `Result` of an `Option`.
pub open spec fn some_reply(r: Val) -> Val {
    match r {
        Val::Success(v) => Val::Success(Box::new(Val::Present(v))),
        _ => r,
    }
}

/// The reply to `end`.
pub open spec fn end_reply(end: Result<(), int>) -> Val {
    match end {
        Ok(_) => Val::Success(Box::new(Val::Unit)),
        Err(e) => Val::Failure(Fault::Source(e)),
    }
}

// Failing inputs
// --------------

/// What a visitor gets to see of an input, if it is called at all.
pub open spec fn visible(input: Input) -> Input
    decreases input,
{
    match input {
        Input::Spoiled { input, .. } => visible(*input),
        _ => input,
    }
}

/// The answer where reading fails with an error behind what was read.
pub open spec fn spoiled(v: Val, error: int) -> Val {
    match v {
        Val::Success(_) => Val::Failure(Fault::Source(error)),
        _ => v,
    }
}

/// The answer for an input, where `v` is that for the part that the visitor
/// gets to see.
pub open spec fn delivered(input: Input, v: Val) -> Val
    decreases input,
{
    match input {
        Input::Broken(e) => Val::Failure(Fault::Source(e)),
        Input::Spoiled { input, error } => spoiled(delivered(*input, v), error),
        _ => v,
    }
}

// Items
// -----

/// The items that a block declares.
pub open spec fn block_decls(stmts: Seq<SpecStmt>) -> Seq<SpecDecl>
    decreases stmts.len(),
{
    if stmts.len() == 0 {
        seq![]
    } else {
        match stmts.last() {
            SpecStmt::Decl(d) => block_decls(stmts.drop_last()).push(d),
            _ => block_decls(stmts.drop_last()),
        }
    }
}

/// Whether an item implements a trait for the type of this name.
pub open spec fn implements(d: SpecDecl, trait_path: SpecPath, ident: Seq<char>) -> bool {
    &&& d matches SpecDecl::Impl(i)
    &&& i.trait_path == trait_path
    &&& i.self_ty matches SpecTy::Path { path, .. }
    &&& path == ident_path(ident)
}

/// The innermost implementation of a trait for the type of this name.
pub open spec fn find_impl(
    scope: Seq<SpecDecl>,
    trait_path: SpecPath,
    ident: Seq<char>,
) -> Option<SpecTraitImpl>
    decreases scope.len(),
{
    if scope.len() == 0 {
        None
    } else if implements(scope.last(), trait_path, ident) {
        Some(scope.last()->Impl_0)
    } else {
        find_impl(scope.drop_last(), trait_path, ident)
    }
}

/// The method of this name.
pub open spec fn find_method(methods: Seq<SpecMethod>, ident: Seq<char>) -> Option<SpecMethod>
    decreases methods.len(),
{
    if methods.len() == 0 {
        None
    } else if methods[0].ident == ident {
        Some(methods[0])
    } else {
        find_method(methods.drop_first(), ident)
    }
}

/// The trait and the method of a visitor that take an input of this kind.
pub open spec fn visit_target(input: Input) -> (Seq<char>, Seq<char>) {
    match input {
        Input::Unit => ("Visitor"@, "visit_unit"@),
        Input::Str(_) => ("Visitor"@, "visit_str"@),
        Input::List { .. } => ("Visitor"@, "visit_seq"@),
        Input::Table { .. } => ("Visitor"@, "visit_map"@),
        Input::Variant { .. } => ("EnumVisitor"@, "visit"@),
        Input::Broken(_) => arbitrary(),
        Input::Spoiled { .. } => arbitrary(),
    }
}

/// The variables that a method of a visitor starts with: a string is handed
/// over as an argument, all else through the visitor that reads it.
pub open spec fn visit_env(m: SpecMethod, input: Input) -> Env {
    match (input, m.arg) {
        (Input::Str(s), Some(arg)) => seq![(arg.ident, Val::Str(s))],
        _ => seq![],
    }
}

/// The functions that every program knows by a short name.
pub open spec fn is_prelude_fn(p: SpecPath) -> bool {
    p == ident_path("Ok"@) || p == ident_path("Err"@) || p == ident_path("Some"@)
}

// Evaluation
// ----------

/// How much of a sequence or map has not been read.
pub open spec fn unread(c: Context, s: State) -> nat {
    let len = match c.input {
        Input::List { items, .. } => items.len(),
        Input::Table { entries, .. } => entries.len(),
        _ => 0,
    };
    if s.pos <= len {
        (len - s.pos) as nat
    } else {
        0
    }
}

/// The state in which a method starts.
pub open spec fn start(env: Env) -> State {
    State { env, pos: 0, trace: seq![] }
}

/// Makes a request.
pub open spec fn record(s: State, party: Party, ident: Seq<char>, args: Seq<Val>) -> State {
    let text = if args.len() > 0 {
        match args[0] {
            Val::Str(t) => Some(t),
            _ => None,
        }
    } else {
        None
    };
    State { trace: s.trace.push(Request { party, ident, text }), ..s }
}

/// How an evaluation ends, and the requests made by then.
pub open spec fn effect(r: (Flow, State)) -> (Flow, Trace) {
    (r.0, r.1.trace)
}

/// The same for a method.
pub open spec fn method_effect(r: (Flow, State)) -> (Flow, Trace) {
    (method_flow(r.0), r.1.trace)
}

/// A state, with the requests made by a method that was called.
pub open spec fn after(s: State, trace: Trace) -> State {
    State { trace: s.trace + trace, ..s }
}

/// Leaves a scope that was entered with `n` variables.
pub open spec fn leave(s: State, n: nat) -> State {
    State { env: s.env.take(n as int), ..s }
}

/// Runs a method's body. `depth` bounds how deep calls may nest.
pub open spec fn run_method(
    depth: nat,
    scope: Seq<SpecDecl>,
    methods: Seq<SpecMethod>,
    m: SpecMethod,
    env: Env,
    input: Input,
) -> (Flow, Trace)
    decreases depth, 1nat, m, 0nat,
{
    let c = Context { scope, methods, input };
    method_effect(eval_block(depth, c, m.body, start(env)))
}

/// Runs the method of a visitor that takes an input of this kind. A visitor
/// without it takes no such input.
pub open spec fn call_visitor(
    depth: nat,
    scope: Seq<SpecDecl>,
    visitor: Val,
    input: Input,
) -> (Flow, Trace)
    decreases depth, 2nat, visitor, 0nat,
{
    match visitor {
        Val::Tuple { path, .. } => match find_impl(
            scope,
            serde_path(visit_target(input).0),
            path[0],
        ) {
            Some(i) => match find_method(i.methods, visit_target(input).1) {
                Some(m) => run_method(depth, scope, i.methods, m, visit_env(m, input), input),
                None => (Flow::Done(Val::Failure(Fault::Mismatch)), seq![]),
            },
            None => (Flow::Done(Val::Failure(Fault::Mismatch)), seq![]),
        },
        _ => (Flow::Stuck, seq![]),
    }
}

/// Hands an input to a visitor.
pub open spec fn run_visitor(
    depth: nat,
    scope: Seq<SpecDecl>,
    visitor: Val,
    input: Input,
) -> (Flow, Trace)
    decreases depth, 3nat, input, 0nat,
{
    match input {
        Input::Broken(e) => (Flow::Done(Val::Failure(Fault::Source(e))), seq![]),
        Input::Spoiled { input, error } => {
            let (f, trace) = run_visitor(depth, scope, visitor, *input);
            match f {
                Flow::Done(v) => (Flow::Done(spoiled(v, error)), trace),
                _ => (f, trace),
            }
        },
        _ => call_visitor(depth, scope, visitor, input),
    }
}

/// Reads the name of a field or variant: a value of the innermost `__Field`.
/// What that asks of the name's own deserializer is not listed.
pub open spec fn run_key(depth: nat, scope: Seq<SpecDecl>, name: Result<Seq<char>, int>) -> Flow
    decreases depth, 2nat, name, 0nat,
{
    match name {
        Err(e) => Flow::Done(Val::Failure(Fault::Source(e))),
        Ok(s) => match find_impl(scope, serde_path("Deserialize"@), "__Field"@) {
            Some(i) => match find_method(i.methods, "deserialize"@) {
                Some(m) => run_method(depth, scope, i.methods, m, seq![], Input::Str(s)).0,
                None => Flow::Stuck,
            },
            None => Flow::Stuck,
        },
    }
}

/// A call of a method of the visitor that was handed out for a sequence, a map
/// or a variant.
pub open spec fn visitor_call(
    depth: nat,
    c: Context,
    o: Op,
    args: Seq<Val>,
    s: State,
) -> (Flow, State)
    decreases depth, 4nat, c, 0nat,
{
    match (o, c.input) {
        (Op::Visit, Input::List { items, .. }) => if s.pos < items.len() {
            (
                Flow::Done(some_reply(reply(items[s.pos as int]))),
                State { pos: s.pos + 1, ..s },
            )
        } else {
            (Flow::Done(Val::Success(Box::new(Val::Absent))), s)
        },
        (Op::VisitKey, Input::Table { entries, .. }) => if s.pos < entries.len() {
            match run_key(depth, c.scope, entries[s.pos as int].key) {
                Flow::Done(v) => (Flow::Done(some_reply(v)), s),
                f => (f, s),
            }
        } else {
            (Flow::Done(Val::Success(Box::new(Val::Absent))), s)
        },
        (Op::VisitValue, Input::Table { entries, .. }) => if s.pos < entries.len() {
            (
                Flow::Done(reply(entries[s.pos as int].value)),
                State { pos: s.pos + 1, ..s },
            )
        } else {
            (Flow::Stuck, s)
        },
        (Op::MissingField, Input::Table { missing, .. }) => match args[0] {
            Val::Str(key) => (Flow::Done(reply(missing(key))), s),
            _ => (Flow::Stuck, s),
        },
        (Op::End, Input::List { end, .. }) => (Flow::Done(end_reply(end)), s),
        (Op::End, Input::Table { end, .. }) => (Flow::Done(end_reply(end)), s),
        (Op::VisitVariant, Input::Variant { name, .. }) => (run_key(depth, c.scope, name), s),
        (Op::VisitUnit, Input::Variant { content, .. }) => {
            let v = match visible(*content) {
                Input::Unit => Val::Success(Box::new(Val::Unit)),
                _ => Val::Failure(Fault::Mismatch),
            };
            (Flow::Done(delivered(*content, v)), s)
        },
        (Op::VisitSeq, Input::Variant { content, .. }) => match visible(*content) {
            Input::List { .. } => {
                let (f, trace) = run_visitor(depth, c.scope, args[0], *content);
                (f, after(s, trace))
            },
            _ => (Flow::Done(delivered(*content, Val::Failure(Fault::Mismatch))), s),
        },
        (Op::VisitMap, Input::Variant { content, .. }) => match visible(*content) {
            Input::Table { .. } => {
                let (f, trace) = run_visitor(depth, c.scope, args[0], *content);
                (f, after(s, trace))
            },
            _ => (Flow::Done(delivered(*content, Val::Failure(Fault::Mismatch))), s),
        },
        _ => (Flow::Stuck, s),
    }
}

/// A call of a method.
pub open spec fn method_call(
    depth: nat,
    c: Context,
    p: Party,
    ident: Seq<char>,
    args: Seq<Val>,
    s: State,
) -> (Flow, State)
    decreases depth, 5nat, c, 0nat,
{
    match p {
        Party::Visitor => visitor_call(depth, c, op(ident), args, record(s, p, ident, args)),
        Party::Deserializer => {
            let (f, trace) = run_visitor(depth, c.scope, args.last(), c.input);
            (f, after(record(s, p, ident, args), trace))
        },
        Party::This => match find_method(c.methods, ident) {
            Some(m) => {
                let (f, trace) = run_method(depth, c.scope, c.methods, m, seq![], c.input);
                (f, after(s, trace))
            },
            None => (Flow::Stuck, s),
        },
        Party::Other => (Flow::Stuck, s),
    }
}

/// Evaluates an expression.
pub open spec fn eval(depth: nat, c: Context, e: SpecExpr, s: State) -> (Flow, State)
    decreases depth, 0nat, e, unread(c, s),
{
    match e {
        SpecExpr::Path(p) => (Flow::Done(path_value(s.env, p)), s),
        SpecExpr::Lit(SpecLit::Str(t)) => (Flow::Done(Val::Str(t)), s),
        SpecExpr::Lit(SpecLit::Verbatim(_)) => (Flow::Stuck, s),
        SpecExpr::Call { path, args } => {
            let (r, s1) = eval_args(depth, c, args, s);
            match r {
                Ok(vs) => (call_value(path, vs), s1),
                Err(f) => (f, s1),
            }
        },
        SpecExpr::MethodCall { receiver, ident, args } => {
            let (r, s1) = eval_args(depth, c, args, s);
            match r {
                Ok(vs) => if depth == 0 {
                    (Flow::Stuck, s1)
                } else {
                    method_call((depth - 1) as nat, c, party(*receiver), ident, vs, s1)
                },
                Err(f) => (f, s1),
            }
        },
        SpecExpr::Try(e) => {
            let (f, s1) = eval(depth, c, *e, s);
            (try_flow(f), s1)
        },
        SpecExpr::Return(e) => {
            let (f, s1) = eval(depth, c, *e, s);
            (return_flow(f), s1)
        },
        SpecExpr::Assign { ident, expr } => {
            let (f, s1) = eval(depth, c, *expr, s);
            match f {
                Flow::Done(v) => {
                    let k = last_index(s1.env, ident);
                    if k >= 0 {
                        (
                            Flow::Done(Val::Unit),
                            State { env: s1.env.update(k, (ident, v)), ..s1 },
                        )
                    } else {
                        (Flow::Stuck, s1)
                    }
                },
                _ => (f, s1),
            }
        },
        SpecExpr::Match { expr, arms } => {
            let (f, s1) = eval(depth, c, *expr, s);
            match f {
                Flow::Done(v) => eval_arms(depth, c, v, arms, s1),
                _ => (f, s1),
            }
        },
        SpecExpr::WhileLet { pat, expr, body } => {
            let (f, s1) = eval(depth, c, *expr, s);
            match f {
                Flow::Done(v) => match pat_match(pat, v) {
                    Some(bound) => {
                        let s2 = State { env: s1.env + bound, ..s1 };
                        let (f2, s3) = eval_block(depth, c, *body, s2);
                        let s4 = leave(s3, s1.env.len());
                        match f2 {
                            Flow::Done(_) => if unread(c, s4) < unread(c, s) {
                                eval(depth, c, e, s4)
                            } else {
                                (Flow::Stuck, s4)
                            },
                            _ => (f2, s4),
                        }
                    },
                    None => (Flow::Done(Val::Unit), s1),
                },
                _ => (f, s1),
            }
        },
        SpecExpr::Struct { path, fields } => {
            let (r, s1) = eval_inits(depth, c, fields, s);
            match r {
                Ok(vs) => (
                    Flow::Done(Val::Record { path: path.segments, fields: vs }),
                    s1,
                ),
                Err(f) => (f, s1),
            }
        },
        SpecExpr::Block(b) => eval_block(depth, c, *b, s),
    }
}

/// Evaluates arguments, from the first on, until one does not end with a value.
pub open spec fn eval_args(
    depth: nat,
    c: Context,
    args: Seq<SpecExpr>,
    s: State,
) -> (Result<Seq<Val>, Flow>, State)
    decreases depth, 0nat, args, 0nat,
{
    if args.len() == 0 {
        (Ok(seq![]), s)
    } else {
        let (f, s1) = eval(depth, c, args[0], s);
        match f {
            Flow::Done(v) => {
                let (r, s2) = eval_args(depth, c, args.drop_first(), s1);
                match r {
                    Ok(vs) => (Ok(seq![v] + vs), s2),
                    Err(f) => (Err(f), s2),
                }
            },
            _ => (Err(f), s1),
        }
    }
}

/// Evaluates the fields of a struct expression in the same way.
pub open spec fn eval_inits(
    depth: nat,
    c: Context,
    fields: Seq<SpecFieldInit>,
    s: State,
) -> (Result<Seq<(Seq<char>, Val)>, Flow>, State)
    decreases depth, 0nat, fields, 0nat,
{
    if fields.len() == 0 {
        (Ok(seq![]), s)
    } else {
        let (f, s1) = eval(depth, c, fields[0].expr, s);
        match f {
            Flow::Done(v) => {
                let (r, s2) = eval_inits(depth, c, fields.drop_first(), s1);
                match r {
                    Ok(vs) => (Ok(seq![(fields[0].ident, v)] + vs), s2),
                    Err(f) => (Err(f), s2),
                }
            },
            _ => (Err(f), s1),
        }
    }
}

/// Evaluates the first arm that a value matches.
pub open spec fn eval_arms(
    depth: nat,
    c: Context,
    v: Val,
    arms: Seq<SpecArm>,
    s: State,
) -> (Flow, State)
    decreases depth, 0nat, arms, 0nat,
{
    if arms.len() == 0 {
        (Flow::Stuck, s)
    } else {
        match pat_match(arms[0].pat, v) {
            Some(bound) => {
                let (f, s1) = eval(
                    depth,
                    c,
                    arms[0].body,
                    State { env: s.env + bound, ..s },
                );
                (f, leave(s1, s.env.len()))
            },
            None => eval_arms(depth, c, v, arms.drop_first(), s),
        }
    }
}

/// Evaluates a block, whose items are in scope in all of it.
pub open spec fn eval_block(depth: nat, c: Context, b: SpecBlock, s: State) -> (Flow, State)
    decreases depth, 0nat, b, 0nat,
{
    let inner = Context { scope: c.scope + block_decls(b.stmts), ..c };
    let (f, s1) = eval_stmts(depth, inner, b.stmts, s);
    match (f, b.expr) {
        (Flow::Done(_), Some(e)) => {
            let (f2, s2) = eval(depth, inner, e, s1);
            (f2, leave(s2, s.env.len()))
        },
        _ => (f, leave(s1, s.env.len())),
    }
}

/// Evaluates statements one after the other.
pub open spec fn eval_stmts(
    depth: nat,
    c: Context,
    stmts: Seq<SpecStmt>,
    s: State,
) -> (Flow, State)
    decreases depth, 0nat, stmts, 0nat,
{
    if stmts.len() == 0 {
        (Flow::Done(Val::Unit), s)
    } else {
        let (f, s1) = eval_stmt(depth, c, stmts[0], s);
        match f {
            Flow::Done(_) => eval_stmts(depth, c, stmts.drop_first(), s1),
            _ => (f, s1),
        }
    }
}

/// Evaluates a statement.
pub open spec fn eval_stmt(depth: nat, c: Context, stmt: SpecStmt, s: State) -> (Flow, State)
    decreases depth, 0nat, stmt, 0nat,
{
    match stmt {
        SpecStmt::Let { ident, init, .. } => {
            let (f, s1) = eval(depth, c, init, s);
            match f {
                Flow::Done(v) => (
                    Flow::Done(Val::Unit),
                    State { env: s1.env.push((ident, v)), ..s1 },
                ),
                _ => (f, s1),
            }
        },
        SpecStmt::Decl(_) => (Flow::Done(Val::Unit), s),
        SpecStmt::Semi(e) => eval(depth, c, e, s),
        SpecStmt::Expr(e) => eval(depth, c, e, s),
    }
}

/// Deserializes an input with an implementation of `Deserialize`: how that ends,
/// and what is asked of the deserializer and of the visitors that it hands out.
/// `depth` bounds how deep calls may nest.
pub open spec fn run(depth: nat, i: SpecTraitImpl, input: Input) -> (Flow, Trace) {
    match find_method(i.methods, "deserialize"@) {
        Some(m) => run_method(depth, seq![], i.methods, m, seq![], input),
        None => (Flow::Stuck, seq![]),
    }
}

} // verus!
