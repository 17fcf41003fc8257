//! What the derived code looks like: for each part of it, the tree that the
//! expansion of an item yields.
use vstd::prelude::*;

use crate::ast::{
    field_key, field_keys, SpecField, SpecItem, SpecItemKind, SpecVariant, SpecVariantKind,
};
use crate::code::{
    SpecArg, SpecArm, SpecBlock, SpecDecl, SpecExpr, SpecFieldInit, SpecGenerics, SpecLit,
    SpecMethod, SpecPat, SpecPath, SpecStmt, SpecTraitImpl, SpecTy, SpecTyParam,
};
use crate::names::{field_ident, field_idents};
use crate::tree::{
    bind_pat, block, block_expr, call0, default_path, err_expr, global_path, ident_path, ident_ty,
    match_expr, method0, method1, method2, no_generics, ok_expr, pair_path, path_ty,
    phantom_data_ty, ref_ty, result_ty, semi_block_expr, serde_error_path, serde_path, some_expr,
    try_expr, var,
};

verus! {

/// The parameters of an item, with `::serde::de::Deserialize` added to the
/// bounds of each type parameter.
pub open spec fn impl_generics(g: SpecGenerics) -> SpecGenerics {
    SpecGenerics {
        ty_params: Seq::new(
            g.ty_params.len(),
            |i: int|
                SpecTyParam {
                    bounds: g.ty_params[i].bounds.push(path_ty(serde_path("Deserialize"@))),
                    ..g.ty_params[i]
                },
        ),
        ..g
    }
}

/// The type `ident`, applied to the parameters `g`.
pub open spec fn applied_ty(ident: Seq<char>, g: SpecGenerics) -> SpecTy {
    SpecTy::Path {
        path: ident_path(ident),
        lifetimes: Seq::new(g.lifetimes.len(), |i: int| g.lifetimes[i].name),
        tys: Seq::new(g.ty_params.len(), |i: int| ident_ty(g.ty_params[i].ident)),
    }
}

/// The declaration of the visitor: one `PhantomData` for each type parameter.
pub open spec fn visitor_decl(g: SpecGenerics) -> SpecDecl {
    if g.ty_params.len() == 0 {
        SpecDecl::Struct { ident: "__Visitor"@, generics: no_generics(), tys: seq![] }
    } else {
        SpecDecl::Struct {
            ident: "__Visitor"@,
            generics: g,
            tys: Seq::new(g.ty_params.len(), |i: int| phantom_data_ty(g.ty_params[i].ident)),
        }
    }
}

/// The type of the visitor.
pub open spec fn visitor_ty(g: SpecGenerics) -> SpecTy {
    if g.ty_params.len() == 0 {
        ident_ty("__Visitor"@)
    } else {
        applied_ty("__Visitor"@, g)
    }
}

/// The value of the visitor.
pub open spec fn visitor_expr(g: SpecGenerics) -> SpecExpr {
    if g.ty_params.len() == 0 {
        var("__Visitor"@)
    } else {
        SpecExpr::Call {
            path: ident_path("__Visitor"@),
            args: Seq::new(
                g.ty_params.len(),
                |i: int| SpecExpr::Path(global_path("std"@, "marker"@, "PhantomData"@)),
            ),
        }
    }
}

/// `fn ident<p>(&mut self, mut visitor: p) -> Result<ty, p::Error> where p: bound`
pub open spec fn visit_method(
    attr: Option<Seq<char>>,
    ident: Seq<char>,
    p: Seq<char>,
    bound: Seq<char>,
    ty: SpecTy,
    body: SpecBlock,
) -> SpecMethod {
    SpecMethod {
        attr,
        ident,
        ty_param: p,
        bound: serde_path(bound),
        takes_self: true,
        arg: Some(SpecArg { mutable: true, ident: "visitor"@, ty: ident_ty(p) }),
        output: result_ty(ty, path_ty(pair_path(p, "Error"@))),
        body,
    }
}

/// `fn deserialize<p>(deserializer: &mut p) -> Result<ty, p::Error> where p: Deserializer`
pub open spec fn deserialize_method(
    attr: Option<Seq<char>>,
    p: Seq<char>,
    ty: SpecTy,
    body: SpecBlock,
) -> SpecMethod {
    SpecMethod {
        attr,
        ident: "deserialize"@,
        ty_param: p,
        bound: serde_path("Deserializer"@),
        takes_self: false,
        arg: Some(
            SpecArg {
                mutable: false,
                ident: "deserializer"@,
                ty: ref_ty(true, ident_ty(p)),
            },
        ),
        output: result_ty(ty, path_ty(pair_path(p, "Error"@))),
        body,
    }
}

/// `impl trait_ident for self_ty`, with an associated type `Value` and one method
pub open spec fn visitor_impl(
    g: SpecGenerics,
    trait_ident: Seq<char>,
    self_ty: SpecTy,
    value: SpecTy,
    method: SpecMethod,
) -> SpecDecl {
    SpecDecl::Impl(
        SpecTraitImpl {
            attr: None,
            generics: g,
            trait_path: serde_path(trait_ident),
            self_ty,
            value: Some(value),
            methods: seq![method],
        },
    )
}

/// `try!(visitor.end());`
pub open spec fn end_stmt() -> SpecStmt {
    SpecStmt::Semi(try_expr(method0("visitor"@, "end"@)))
}

/// The pattern `None`.
pub open spec fn none_pat() -> SpecPat {
    SpecPat::Path(ident_path("None"@))
}

// Unit structs
// ------------

/// `visit_unit` of a unit struct's visitor.
pub open spec fn unit_method(ident: Seq<char>) -> SpecMethod {
    SpecMethod {
        attr: Some("inline"@),
        ident: "visit_unit"@,
        ty_param: "E"@,
        bound: serde_path("Error"@),
        takes_self: true,
        arg: None,
        output: result_ty(ident_ty(ident), ident_ty("E"@)),
        body: block(seq![], ok_expr(var(ident))),
    }
}

/// `visit_seq` of a unit struct's visitor.
pub open spec fn unit_seq_method(ident: Seq<char>) -> SpecMethod {
    visit_method(
        Some("inline"@),
        "visit_seq"@,
        "V"@,
        "SeqVisitor"@,
        ident_ty(ident),
        block(seq![end_stmt()], method0("self"@, "visit_unit"@)),
    )
}

/// The implementation of `Visitor` for a unit struct.
pub open spec fn unit_impl(ident: Seq<char>) -> SpecDecl {
    SpecDecl::Impl(
        SpecTraitImpl {
            attr: None,
            generics: no_generics(),
            trait_path: serde_path("Visitor"@),
            self_ty: ident_ty("__Visitor"@),
            value: Some(ident_ty(ident)),
            methods: seq![unit_method(ident), unit_seq_method(ident)],
        },
    )
}

/// The code for a unit struct.
pub open spec fn unit_struct_expr(ident: Seq<char>) -> SpecExpr {
    block_expr(
        seq![
            SpecStmt::Decl(
                SpecDecl::Struct { ident: "__Visitor"@, generics: no_generics(), tys: seq![] },
            ),
            SpecStmt::Decl(unit_impl(ident)),
        ],
        method2(
            "deserializer"@,
            "visit_named_unit"@,
            SpecExpr::Lit(SpecLit::Str(ident)),
            var("__Visitor"@),
        ),
    )
}

// Sequences
// ---------

/// The arms that take a value from a sequence, or return an error where it ends.
pub open spec fn seq_arms() -> Seq<SpecArm> {
    seq![
        SpecArm { pat: bind_pat("Some"@, "value"@), body: var("value"@) },
        SpecArm {
            pat: none_pat(),
            body: semi_block_expr(
                SpecExpr::Return(
                    Box::new(err_expr(call0(serde_error_path("end_of_stream_error"@)))),
                ),
            ),
        },
    ]
}

/// Takes the value with index `i` from a sequence.
pub open spec fn seq_let(i: nat) -> SpecStmt {
    SpecStmt::Let {
        mutable: false,
        ident: field_ident(i),
        init: match_expr(try_expr(method0("visitor"@, "visit"@)), seq_arms()),
    }
}

/// Takes the values with the indices below `n` from a sequence.
pub open spec fn seq_lets(n: nat) -> Seq<SpecStmt> {
    Seq::new(n, |i: int| seq_let(i as nat))
}

/// The names of the values with the indices below `n`, as expressions.
pub open spec fn field_vars(n: nat) -> Seq<SpecExpr> {
    Seq::new(n, |i: int| var(field_ident(i as nat)))
}

/// Reads `n` values from a sequence and calls the constructor `path` on them.
pub open spec fn seq_expr(path: SpecPath, n: nat) -> SpecExpr {
    block_expr(
        seq_lets(n).push(end_stmt()),
        ok_expr(SpecExpr::Call { path, args: field_vars(n) }),
    )
}

/// `visit_seq`, for `n` values and the constructor `path`.
pub open spec fn seq_method(ty: SpecTy, path: SpecPath, n: nat) -> SpecMethod {
    visit_method(
        None,
        "visit_seq"@,
        "__V"@,
        "SeqVisitor"@,
        ty,
        block(seq![], seq_expr(path, n)),
    )
}

/// The declarations of a visitor that reads a sequence.
pub open spec fn seq_visitor(
    g: SpecGenerics,
    ty: SpecTy,
    path: SpecPath,
    n: nat,
) -> Seq<SpecStmt> {
    seq![
        SpecStmt::Decl(visitor_decl(g)),
        SpecStmt::Decl(
            visitor_impl(g, "Visitor"@, visitor_ty(g), ty, seq_method(ty, path, n)),
        ),
    ]
}

/// The code for a tuple struct of `n` fields.
pub open spec fn tuple_struct_expr(
    ident: Seq<char>,
    g: SpecGenerics,
    ty: SpecTy,
    n: nat,
) -> SpecExpr {
    block_expr(
        seq_visitor(g, ty, ident_path(ident), n),
        method2(
            "deserializer"@,
            "visit_named_seq"@,
            SpecExpr::Lit(SpecLit::Str(ident)),
            visitor_expr(g),
        ),
    )
}

// Field names
// -----------

/// The enum that tells fields apart.
pub open spec fn field_enum(n: nat) -> SpecDecl {
    SpecDecl::Enum {
        attr: Some("allow(non_camel_case_types)"@),
        ident: "__Field"@,
        variants: field_idents(n),
    }
}

/// `__Field::__fieldi`
pub open spec fn field_path(i: nat) -> SpecPath {
    pair_path("__Field"@, field_ident(i))
}

/// The arm that knows the key of the field with index `i`.
pub open spec fn key_arm(key: SpecLit, i: nat) -> SpecArm {
    SpecArm {
        pat: SpecPat::Lit(key),
        body: block_expr(seq![], ok_expr(SpecExpr::Path(field_path(i)))),
    }
}

/// The arm for all other keys.
pub open spec fn unknown_key_arm() -> SpecArm {
    SpecArm {
        pat: SpecPat::Wild,
        body: err_expr(
            SpecExpr::Call {
                path: serde_error_path("unknown_field_error"@),
                args: seq![var("value"@)],
            },
        ),
    }
}

/// One arm for each key, and one for all others.
pub open spec fn key_arms(keys: Seq<SpecLit>) -> Seq<SpecArm> {
    Seq::new(keys.len(), |i: int| key_arm(keys[i], i as nat)).push(unknown_key_arm())
}

/// `visit_str` of the visitor that reads a field's key.
pub open spec fn str_method(keys: Seq<SpecLit>) -> SpecMethod {
    SpecMethod {
        attr: None,
        ident: "visit_str"@,
        ty_param: "E"@,
        bound: serde_path("Error"@),
        takes_self: true,
        arg: Some(
            SpecArg { mutable: false, ident: "value"@, ty: ref_ty(false, ident_ty("str"@)) },
        ),
        output: result_ty(ident_ty("__Field"@), ident_ty("E"@)),
        body: block(seq![], match_expr(var("value"@), key_arms(keys))),
    }
}

/// The body of `deserialize` for the enum that tells fields apart.
pub open spec fn field_body(keys: Seq<SpecLit>) -> SpecBlock {
    block(
        seq![
            SpecStmt::Decl(
                SpecDecl::Struct {
                    ident: "__FieldVisitor"@,
                    generics: no_generics(),
                    tys: seq![],
                },
            ),
            SpecStmt::Decl(
                visitor_impl(
                    no_generics(),
                    "Visitor"@,
                    ident_ty("__FieldVisitor"@),
                    ident_ty("__Field"@),
                    str_method(keys),
                ),
            ),
        ],
        method1("deserializer"@, "visit"@, var("__FieldVisitor"@)),
    )
}

/// The implementation of `Deserialize` for the enum that tells fields apart.
pub open spec fn field_impl(keys: Seq<SpecLit>) -> SpecDecl {
    SpecDecl::Impl(
        SpecTraitImpl {
            attr: None,
            generics: no_generics(),
            trait_path: serde_path("Deserialize"@),
            self_ty: ident_ty("__Field"@),
            value: None,
            methods: seq![
                deserialize_method(
                    Some("inline"@),
                    "D"@,
                    ident_ty("__Field"@),
                    field_body(keys),
                ),
            ],
        },
    )
}

/// The enum that tells fields with these keys apart, and how it is read.
pub open spec fn field_visitor(keys: Seq<SpecLit>) -> Seq<SpecStmt> {
    seq![SpecStmt::Decl(field_enum(keys.len())), SpecStmt::Decl(field_impl(keys))]
}

// Maps
// ----

/// Declares the variable of the field with index `i`, without a value.
pub open spec fn map_let(i: nat) -> SpecStmt {
    SpecStmt::Let { mutable: true, ident: field_ident(i), init: var("None"@) }
}

/// Declares the variables of the fields with the indices below `n`.
pub open spec fn map_lets(n: nat) -> Seq<SpecStmt> {
    Seq::new(n, |i: int| map_let(i as nat))
}

/// The arm that stores the value of the field with index `i`.
pub open spec fn value_arm(i: nat) -> SpecArm {
    SpecArm {
        pat: SpecPat::Path(field_path(i)),
        body: semi_block_expr(
            SpecExpr::Assign {
                ident: field_ident(i),
                expr: Box::new(some_expr(try_expr(method0("visitor"@, "visit_value"@)))),
            },
        ),
    }
}

/// The arms that store the values of the fields with the indices below `n`.
pub open spec fn value_arms(n: nat) -> Seq<SpecArm> {
    Seq::new(n, |i: int| value_arm(i as nat))
}

/// The loop over the keys of a map.
pub open spec fn map_loop(n: nat) -> SpecExpr {
    SpecExpr::WhileLet {
        pat: bind_pat("Some"@, "key"@),
        expr: Box::new(try_expr(method0("visitor"@, "visit_key"@))),
        body: Box::new(block(seq![], match_expr(var("key"@), value_arms(n)))),
    }
}

/// What stands for the value of a field that is missing from a map.
pub open spec fn missing_expr(field: SpecField) -> SpecExpr {
    if field.default {
        call0(default_path())
    } else {
        try_expr(method1("visitor"@, "missing_field"@, SpecExpr::Lit(field_key(field))))
    }
}

/// Takes the value of a field, whose index is `i`, out of its variable.
pub open spec fn extract_let(field: SpecField, i: nat) -> SpecStmt {
    SpecStmt::Let {
        mutable: false,
        ident: field_ident(i),
        init: match_expr(
            var(field_ident(i)),
            seq![
                SpecArm {
                    pat: bind_pat("Some"@, field_ident(i)),
                    body: var(field_ident(i)),
                },
                SpecArm { pat: none_pat(), body: missing_expr(field) },
            ],
        ),
    }
}

/// Takes the values of all fields out of their variables.
pub open spec fn extract_lets(fields: Seq<SpecField>) -> Seq<SpecStmt> {
    Seq::new(fields.len(), |i: int| extract_let(fields[i], i as nat))
}

/// Gives each field the value of its variable.
pub open spec fn field_inits(fields: Seq<SpecField>) -> Seq<SpecFieldInit> {
    Seq::new(
        fields.len(),
        |i: int|
            SpecFieldInit { ident: fields[i].name->0, expr: var(field_ident(i as nat)) },
    )
}

/// Reads the fields from a map and makes the struct or variant `path` of them.
pub open spec fn map_expr(path: SpecPath, fields: Seq<SpecField>) -> SpecExpr {
    block_expr(
        (map_lets(fields.len()).push(SpecStmt::Expr(map_loop(fields.len()))) + extract_lets(
            fields,
        )).push(end_stmt()),
        ok_expr(SpecExpr::Struct { path, fields: field_inits(fields) }),
    )
}

/// `visit_map`, for these fields and the constructor `path`.
pub open spec fn map_method(
    attr: Option<Seq<char>>,
    ty: SpecTy,
    path: SpecPath,
    fields: Seq<SpecField>,
) -> SpecMethod {
    visit_method(
        attr,
        "visit_map"@,
        "__V"@,
        "MapVisitor"@,
        ty,
        block(seq![], map_expr(path, fields)),
    )
}

/// The declarations of a visitor that reads a map.
pub open spec fn map_visitor(
    attr: Option<Seq<char>>,
    g: SpecGenerics,
    ty: SpecTy,
    path: SpecPath,
    fields: Seq<SpecField>,
) -> Seq<SpecStmt> {
    field_visitor(field_keys(fields)) + seq![
        SpecStmt::Decl(visitor_decl(g)),
        SpecStmt::Decl(
            visitor_impl(
                g,
                "Visitor"@,
                visitor_ty(g),
                ty,
                map_method(attr, ty, path, fields),
            ),
        ),
    ]
}

/// The code for a struct with named fields.
pub open spec fn struct_expr(
    ident: Seq<char>,
    g: SpecGenerics,
    ty: SpecTy,
    fields: Seq<SpecField>,
) -> SpecExpr {
    block_expr(
        map_visitor(Some("inline"@), g, ty, ident_path(ident), fields),
        method2(
            "deserializer"@,
            "visit_named_map"@,
            SpecExpr::Lit(SpecLit::Str(ident)),
            visitor_expr(g),
        ),
    )
}

/// The code for a struct, by the form of its fields.
pub open spec fn item_struct_expr(
    ident: Seq<char>,
    g: SpecGenerics,
    ty: SpecTy,
    fields: Seq<SpecField>,
) -> SpecExpr {
    if fields.len() == 0 {
        unit_struct_expr(ident)
    } else if fields[0].name is None {
        tuple_struct_expr(ident, g, ty, fields.len())
    } else {
        struct_expr(ident, g, ty, fields)
    }
}

// Enums
// -----

/// The code for a unit variant.
pub open spec fn unit_variant_expr(path: SpecPath) -> SpecExpr {
    block_expr(
        seq![SpecStmt::Semi(try_expr(method0("visitor"@, "visit_unit"@)))],
        ok_expr(SpecExpr::Path(path)),
    )
}

/// The code for a variant with `n` unnamed fields.
pub open spec fn tuple_variant_expr(
    path: SpecPath,
    g: SpecGenerics,
    ty: SpecTy,
    n: nat,
) -> SpecExpr {
    block_expr(
        seq_visitor(g, ty, path, n),
        method1("visitor"@, "visit_seq"@, visitor_expr(g)),
    )
}

/// The code for a variant with named fields.
pub open spec fn struct_variant_expr(
    path: SpecPath,
    g: SpecGenerics,
    ty: SpecTy,
    fields: Seq<SpecField>,
) -> SpecExpr {
    block_expr(
        map_visitor(None, g, ty, path, fields),
        method1("visitor"@, "visit_map"@, visitor_expr(g)),
    )
}

/// The code for a variant, by its form.
pub open spec fn variant_expr(
    ident: Seq<char>,
    g: SpecGenerics,
    ty: SpecTy,
    variant: SpecVariant,
) -> SpecExpr {
    let path = pair_path(ident, variant.name);
    match variant.kind {
        SpecVariantKind::Tuple(n) => if n == 0 {
            unit_variant_expr(path)
        } else {
            tuple_variant_expr(path, g, ty, n)
        },
        SpecVariantKind::Struct(fields) => struct_variant_expr(path, g, ty, fields),
    }
}

/// The keys of the variants: their names.
pub open spec fn variant_keys(variants: Seq<SpecVariant>) -> Seq<SpecLit> {
    Seq::new(variants.len(), |i: int| SpecLit::Str(variants[i].name))
}

/// One arm for each variant.
pub open spec fn variant_arms(
    ident: Seq<char>,
    g: SpecGenerics,
    ty: SpecTy,
    variants: Seq<SpecVariant>,
) -> Seq<SpecArm> {
    Seq::new(
        variants.len(),
        |i: int|
            SpecArm {
                pat: SpecPat::Path(field_path(i as nat)),
                body: block_expr(seq![], variant_expr(ident, g, ty, variants[i])),
            },
    )
}

/// `visit` of an enum's visitor.
pub open spec fn enum_method(
    ident: Seq<char>,
    g: SpecGenerics,
    ty: SpecTy,
    variants: Seq<SpecVariant>,
) -> SpecMethod {
    visit_method(
        None,
        "visit"@,
        "__V"@,
        "VariantVisitor"@,
        ty,
        block(
            seq![],
            match_expr(
                try_expr(method0("visitor"@, "visit_variant"@)),
                variant_arms(ident, g, ty, variants),
            ),
        ),
    )
}

/// The code for an enum.
pub open spec fn item_enum_expr(
    ident: Seq<char>,
    g: SpecGenerics,
    ty: SpecTy,
    variants: Seq<SpecVariant>,
) -> SpecExpr {
    block_expr(
        field_visitor(variant_keys(variants)) + seq![
            SpecStmt::Decl(visitor_decl(g)),
            SpecStmt::Decl(
                visitor_impl(
                    g,
                    "EnumVisitor"@,
                    visitor_ty(g),
                    ty,
                    enum_method(ident, g, ty, variants),
                ),
            ),
        ],
        method2(
            "deserializer"@,
            "visit_enum"@,
            SpecExpr::Lit(SpecLit::Str(ident)),
            visitor_expr(g),
        ),
    )
}

// The implementation
// ------------------

/// The parameters of an item.
pub open spec fn item_generics(item: SpecItem) -> SpecGenerics {
    match item.node {
        SpecItemKind::Struct(_, g) => g,
        SpecItemKind::Enum(_, g) => g,
        SpecItemKind::Other => arbitrary(),
    }
}

/// The body of `deserialize` for an item, where `g` are the parameters of the
/// implementation and `ty` is the item's type.
pub open spec fn body_expr(item: SpecItem, g: SpecGenerics, ty: SpecTy) -> SpecExpr {
    match item.node {
        SpecItemKind::Struct(fields, _) => item_struct_expr(item.ident, g, ty, fields),
        SpecItemKind::Enum(variants, _) => item_enum_expr(item.ident, g, ty, variants),
        SpecItemKind::Other => arbitrary(),
    }
}

/// The type that an item declares, applied to its parameters.
pub open spec fn item_ty(item: SpecItem) -> SpecTy {
    applied_ty(item.ident, impl_generics(item_generics(item)))
}

/// The implementation of `Deserialize` that is derived for an item.
pub open spec fn derived_impl(item: SpecItem) -> SpecTraitImpl {
    let g = impl_generics(item_generics(item));
    let ty = item_ty(item);
    SpecTraitImpl {
        attr: Some("automatically_derived"@),
        generics: g,
        trait_path: serde_path("Deserialize"@),
        self_ty: ty,
        value: None,
        methods: seq![
            deserialize_method(None, "__D"@, ty, block(seq![], body_expr(item, g, ty))),
        ],
    }
}

} // verus!
