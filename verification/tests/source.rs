//! The source text of what is derived.

use serde_codegen::ast::{
    EnumDef, FieldKind, Item, ItemKind, Rejection, StructDef, StructField, Variant, VariantKind,
};
use serde_codegen::code::{Decl, Generics, LifetimeDef, Lit, Ty, TyParam};
use serde_codegen::de::{
    deserialize_field_visitor, deserialize_seq, deserialize_visitor, expand_derive_deserialize,
    make_applied_ty, make_impl_generics, struct_field_strs,
};
use serde_codegen::names::make_field_ident;
use serde_codegen::tree::{mk_ident_path, mk_methods1, mk_unit_struct};

fn generics(lifetimes: &[&str], ty_params: &[&str]) -> Generics {
    Generics {
        lifetimes: lifetimes
            .iter()
            .map(|name| LifetimeDef { name: name.to_string(), bounds: vec![] })
            .collect(),
        ty_params: ty_params
            .iter()
            .map(|ident| TyParam { ident: ident.to_string(), bounds: vec![], default: None })
            .collect(),
        where_clause: vec![],
    }
}

fn named(name: &str) -> StructField {
    StructField { kind: FieldKind::Named(name.to_string()), rename: None, default: false }
}

fn unnamed() -> StructField {
    StructField { kind: FieldKind::Unnamed, rename: None, default: false }
}

fn struct_item(ident: &str, fields: Vec<StructField>, generics: Generics) -> Item {
    Item { ident: ident.to_string(), node: ItemKind::Struct(StructDef { fields }, generics) }
}

fn enum_item(ident: &str, variants: Vec<Variant>, generics: Generics) -> Item {
    Item { ident: ident.to_string(), node: ItemKind::Enum(EnumDef { variants }, generics) }
}

fn variant(name: &str, kind: VariantKind) -> Variant {
    Variant { name: name.to_string(), kind }
}

fn derive(item: &Item) -> String {
    assert_eq!(item.rejection(), None);
    let mut derived: Vec<Decl> = vec![];
    expand_derive_deserialize(item, &mut derived);
    assert_eq!(derived.len(), 1);
    derived[0].to_source()
}

fn occurrences(text: &str, part: &str) -> usize {
    text.matches(part).count()
}

#[test]
fn unit_struct() {
    let expected = "#[automatically_derived] impl ::serde::de::Deserialize for Unit { \
        fn deserialize<__D>(deserializer: &mut __D) -> ::std::result::Result<Unit, __D::Error> \
        where __D: ::serde::de::Deserializer { { \
        struct __Visitor; \
        impl ::serde::de::Visitor for __Visitor { \
        type Value = Unit; \
        #[inline] fn visit_unit<E>(&mut self) -> ::std::result::Result<Unit, E> \
        where E: ::serde::de::Error { Ok(Unit) } \
        #[inline] fn visit_seq<V>(&mut self, mut visitor: V) -> \
        ::std::result::Result<Unit, V::Error> where V: ::serde::de::SeqVisitor \
        { try!(visitor.end()); self.visit_unit() } } \
        deserializer.visit_named_unit(\"Unit\", __Visitor) } } }";
    assert_eq!(derive(&struct_item("Unit", vec![], generics(&[], &[]))), expected);
}

#[test]
fn tuple_struct() {
    let expected = "#[automatically_derived] impl ::serde::de::Deserialize for Pair { \
        fn deserialize<__D>(deserializer: &mut __D) -> ::std::result::Result<Pair, __D::Error> \
        where __D: ::serde::de::Deserializer { { \
        struct __Visitor; \
        impl ::serde::de::Visitor for __Visitor { \
        type Value = Pair; \
        fn visit_seq<__V>(&mut self, mut visitor: __V) -> \
        ::std::result::Result<Pair, __V::Error> where __V: ::serde::de::SeqVisitor { { \
        let __field0 = match try!(visitor.visit()) { Some(value) => value, \
        None => { return Err(::serde::de::Error::end_of_stream_error()); }, }; \
        let __field1 = match try!(visitor.visit()) { Some(value) => value, \
        None => { return Err(::serde::de::Error::end_of_stream_error()); }, }; \
        try!(visitor.end()); \
        Ok(Pair(__field0, __field1)) } } } \
        deserializer.visit_named_seq(\"Pair\", __Visitor) } } }";
    let item = struct_item("Pair", vec![unnamed(), unnamed()], generics(&[], &[]));
    assert_eq!(derive(&item), expected);
}

#[test]
fn generic_parameters() {
    let mut g = generics(&["'a", "'b"], &["A", "B"]);
    g.lifetimes[1].bounds.push("'a".to_string());
    g.ty_params[0].bounds.push(Ty::Verbatim("'a".to_string()));
    g.ty_params[0].bounds.push(Ty::Verbatim("Clone".to_string()));
    g.ty_params[1].default = Some(Ty::Verbatim("u8".to_string()));
    g.where_clause.push("A: Copy".to_string());
    g.where_clause.push("B: 'b".to_string());
    let source = derive(&struct_item("Both", vec![unnamed()], g));
    assert!(source.starts_with(
        "#[automatically_derived] impl<'a, 'b: 'a, A: 'a + Clone + ::serde::de::Deserialize, \
         B: ::serde::de::Deserialize = u8> ::serde::de::Deserialize for Both<'a, 'b, A, B> \
         where A: Copy, B: 'b { fn deserialize<__D>(deserializer: &mut __D) -> \
         ::std::result::Result<Both<'a, 'b, A, B>, __D::Error> "
    ));
    assert!(source.contains(
        "struct __Visitor<'a, 'b: 'a, A: 'a + Clone + ::serde::de::Deserialize, \
         B: ::serde::de::Deserialize = u8>(::std::marker::PhantomData<A>, \
         ::std::marker::PhantomData<B>) where A: Copy, B: 'b; \
         impl<'a, 'b: 'a, A: 'a + Clone + ::serde::de::Deserialize, \
         B: ::serde::de::Deserialize = u8> ::serde::de::Visitor for __Visitor<'a, 'b, A, B> \
         where A: Copy, B: 'b { type Value = Both<'a, 'b, A, B>; "
    ));
    assert!(source.ends_with(
        "deserializer.visit_named_seq(\"Both\", \
         __Visitor(::std::marker::PhantomData, ::std::marker::PhantomData)) } } }"
    ));
}

#[test]
fn lifetimes_alone_leave_the_visitor_plain() {
    let source = derive(&struct_item("Slice", vec![unnamed()], generics(&["'a"], &[])));
    assert!(source.contains(
        "struct __Visitor; impl<'a> ::serde::de::Visitor for __Visitor { \
         type Value = Slice<'a>; "
    ));
    assert!(source.ends_with("deserializer.visit_named_seq(\"Slice\", __Visitor) } } }"));
}

#[test]
fn named_fields() {
    let mut renamed = named("b");
    renamed.rename = Some(Lit::Str("bee".to_string()));
    let mut defaulted = named("c");
    defaulted.default = true;
    let item = struct_item("Rec", vec![named("a"), renamed, defaulted], generics(&[], &[]));
    let expected = "#[automatically_derived] impl ::serde::de::Deserialize for Rec { \
        fn deserialize<__D>(deserializer: &mut __D) -> ::std::result::Result<Rec, __D::Error> \
        where __D: ::serde::de::Deserializer { { \
        #[allow(non_camel_case_types)] enum __Field { __field0, __field1, __field2 } \
        impl ::serde::de::Deserialize for __Field { \
        #[inline] fn deserialize<D>(deserializer: &mut D) -> \
        ::std::result::Result<__Field, D::Error> where D: ::serde::de::Deserializer { \
        struct __FieldVisitor; \
        impl ::serde::de::Visitor for __FieldVisitor { \
        type Value = __Field; \
        fn visit_str<E>(&mut self, value: &str) -> ::std::result::Result<__Field, E> \
        where E: ::serde::de::Error { match value { \
        \"a\" => { Ok(__Field::__field0) }, \
        \"bee\" => { Ok(__Field::__field1) }, \
        \"c\" => { Ok(__Field::__field2) }, \
        _ => Err(::serde::de::Error::unknown_field_error(value)), } } } \
        deserializer.visit(__FieldVisitor) } } \
        struct __Visitor; \
        impl ::serde::de::Visitor for __Visitor { \
        type Value = Rec; \
        #[inline] fn visit_map<__V>(&mut self, mut visitor: __V) -> \
        ::std::result::Result<Rec, __V::Error> where __V: ::serde::de::MapVisitor { { \
        let mut __field0 = None; let mut __field1 = None; let mut __field2 = None; \
        while let Some(key) = try!(visitor.visit_key()) { match key { \
        __Field::__field0 => { __field0 = Some(try!(visitor.visit_value())); }, \
        __Field::__field1 => { __field1 = Some(try!(visitor.visit_value())); }, \
        __Field::__field2 => { __field2 = Some(try!(visitor.visit_value())); }, } } \
        let __field0 = match __field0 { Some(__field0) => __field0, \
        None => try!(visitor.missing_field(\"a\")), }; \
        let __field1 = match __field1 { Some(__field1) => __field1, \
        None => try!(visitor.missing_field(\"bee\")), }; \
        let __field2 = match __field2 { Some(__field2) => __field2, \
        None => ::std::default::Default::default(), }; \
        try!(visitor.end()); \
        Ok(Rec { a: __field0, b: __field1, c: __field2 }) } } } \
        deserializer.visit_named_map(\"Rec\", __Visitor) } } }";
    assert_eq!(derive(&item), expected);
}

#[test]
fn enum_variants() {
    let item = enum_item(
        "Shape",
        vec![
            variant("Empty", VariantKind::Tuple(0)),
            variant("Circle", VariantKind::Tuple(1)),
            variant("Rect", VariantKind::Struct(StructDef { fields: vec![named("w")] })),
        ],
        generics(&[], &[]),
    );
    let source = derive(&item);
    assert!(source.contains("enum __Field { __field0, __field1, __field2 }"));
    assert!(source.contains(
        "match value { \"Empty\" => { Ok(__Field::__field0) }, \
         \"Circle\" => { Ok(__Field::__field1) }, \
         \"Rect\" => { Ok(__Field::__field2) }, \
         _ => Err(::serde::de::Error::unknown_field_error(value)), }"
    ));
    assert!(source.contains(
        "impl ::serde::de::EnumVisitor for __Visitor { type Value = Shape; \
         fn visit<__V>(&mut self, mut visitor: __V) -> \
         ::std::result::Result<Shape, __V::Error> where __V: ::serde::de::VariantVisitor \
         { match try!(visitor.visit_variant()) { \
         __Field::__field0 => { { try!(visitor.visit_unit()); Ok(Shape::Empty) } }, \
         __Field::__field1 => { { struct __Visitor; "
    ));
    assert!(source.contains("Ok(Shape::Circle(__field0))"));
    assert!(source.contains("visitor.visit_seq(__Visitor)"));
    assert!(source.contains("Ok(Shape::Rect { w: __field0 })"));
    assert!(source.contains("visitor.visit_map(__Visitor)"));
    assert!(source.ends_with("deserializer.visit_enum(\"Shape\", __Visitor) } } }"));
    // Only a struct's own `visit_map` is inlined, not that of a variant.
    assert_eq!(occurrences(&source, "#[inline] fn visit_map"), 0);
    assert_eq!(occurrences(&source, "fn visit_map<__V>"), 1);
}

#[test]
fn enum_without_variants() {
    let source = derive(&enum_item("Never", vec![], generics(&[], &[])));
    assert!(source.contains("#[allow(non_camel_case_types)] enum __Field {  }"));
    assert!(source.contains(
        "match value { _ => Err(::serde::de::Error::unknown_field_error(value)), }"
    ));
    assert!(source.contains("match try!(visitor.visit_variant()) {  }"));
}

#[test]
fn struct_variant_without_fields() {
    let kind = VariantKind::Struct(StructDef { fields: vec![] });
    let source = derive(&enum_item("One", vec![variant("Only", kind)], generics(&[], &[])));
    assert!(source.contains("while let Some(key) = try!(visitor.visit_key()) { match key {  } }"));
    assert!(source.contains("try!(visitor.end()); Ok(One::Only {  })"));
}

#[test]
fn every_type_parameter_gets_the_bound_once() {
    let source = derive(&enum_item(
        "Either",
        vec![
            variant("Left", VariantKind::Tuple(1)),
            variant("Right", VariantKind::Tuple(1)),
        ],
        generics(&[], &["L", "R"]),
    ));
    let params = "<L: ::serde::de::Deserialize, R: ::serde::de::Deserialize>";
    // The implementation, and a declaration and an implementation for each of
    // the three visitors.
    assert_eq!(occurrences(&source, params), 7);
    assert_eq!(occurrences(&source, "impl<L: ::serde::de::Deserialize"), 4);
    assert_eq!(occurrences(&source, "struct __Visitor<L: ::serde::de::Deserialize"), 3);
}

#[test]
fn impl_generics_keep_their_order() {
    let g = make_impl_generics(&generics(&["'a"], &["X", "Y"]));
    assert_eq!(g.lifetimes[0].name, "'a");
    assert_eq!(g.ty_params.len(), 2);
    assert_eq!(g.ty_params[0].ident, "X");
    assert_eq!(g.ty_params[1].ident, "Y");
    assert_eq!(g.ty_params[0].bounds.len(), 1);
    match make_applied_ty("T", &g) {
        Ty::Path { path, lifetimes, tys } => {
            assert!(!path.global);
            assert_eq!(path.segments, vec!["T".to_string()]);
            assert_eq!(lifetimes, vec!["'a".to_string()]);
            assert_eq!(tys.len(), 2);
        }
        _ => panic!("not a path"),
    }
}

#[test]
fn visitor_has_a_field_for_each_type_parameter() {
    let (decl, _, _) = deserialize_visitor(&generics(&[], &["T"]));
    assert_eq!(decl.to_source(), "struct __Visitor<T>(::std::marker::PhantomData<T>);");
    let (decl, _, _) = deserialize_visitor(&generics(&["'a"], &[]));
    assert_eq!(decl.to_source(), "struct __Visitor;");
}

#[test]
fn field_idents() {
    assert_eq!(make_field_ident(0), "__field0");
    assert_eq!(make_field_ident(9), "__field9");
    assert_eq!(make_field_ident(10), "__field10");
    assert_eq!(make_field_ident(120), "__field120");
    assert_eq!(make_field_ident(usize::MAX), format!("__field{}", usize::MAX));
    let names: Vec<String> = (0..200).map(make_field_ident).collect();
    for i in 0..names.len() {
        for j in 0..i {
            assert_ne!(names[i], names[j]);
        }
    }
}

#[test]
fn many_fields() {
    let fields = (0..12).map(|_| unnamed()).collect();
    let source = derive(&struct_item("Wide", fields, generics(&[], &[])));
    assert_eq!(occurrences(&source, "match try!(visitor.visit())"), 12);
    assert!(source.contains("__field8, __field9, __field10, __field11))"));
}

#[test]
fn constructor_without_values() {
    let seq = deserialize_seq(mk_ident_path("Nothing"), 0);
    let decl = method_with(seq);
    assert!(decl.to_source().contains("{ { try!(visitor.end()); Ok(Nothing()) } }"));
}

fn method_with(body: serde_codegen::code::Expr) -> Decl {
    let method = serde_codegen::code::Method {
        attr: None,
        ident: "f".to_string(),
        ty_param: "T".to_string(),
        bound: mk_ident_path("Bound"),
        takes_self: false,
        arg: None,
        output: Ty::Verbatim("T".to_string()),
        body: serde_codegen::tree::mk_plain_block(body),
    };
    Decl::Impl(serde_codegen::code::TraitImpl {
        attr: None,
        generics: generics(&[], &[]),
        trait_path: mk_ident_path("Trait"),
        self_ty: Ty::Verbatim("Nothing".to_string()),
        value: None,
        methods: mk_methods1(method),
    })
}

#[test]
fn keys_of_fields() {
    let mut renamed = named("b");
    renamed.rename = Some(Lit::Str("bee".to_string()));
    let mut odd = named("c");
    odd.rename = Some(Lit::Verbatim("7".to_string()));
    let keys = struct_field_strs(&StructDef { fields: vec![named("a"), renamed, odd] });
    assert_eq!(keys.len(), 3);
    assert!(matches!(&keys[0], Lit::Str(s) if s == "a"));
    assert!(matches!(&keys[1], Lit::Str(s) if s == "bee"));
    assert!(matches!(&keys[2], Lit::Verbatim(s) if s == "7"));
    assert_eq!(deserialize_field_visitor(&keys).len(), 2);
}

#[test]
fn literals_are_escaped() {
    let mut field = named("a");
    field.rename = Some(Lit::Str("q\"b\\n\nr\rz".to_string()));
    let source = derive(&struct_item("Odd", vec![field], generics(&[], &[])));
    let literal = "\"q\\\"b\\\\n\\nr\\rz\"";
    assert!(source.contains(&format!("match value {{ {} => ", literal)));
    assert!(source.contains(&format!("visitor.missing_field({})", literal)));
}

#[test]
fn implementations_are_added_at_the_end() {
    let mut derived = vec![mk_unit_struct("First")];
    let item = struct_item("Unit", vec![], generics(&[], &[]));
    expand_derive_deserialize(&item, &mut derived);
    expand_derive_deserialize(&item, &mut derived);
    assert_eq!(derived.len(), 3);
    assert_eq!(derived[0].to_source(), "struct First;");
    assert_eq!(derived[1].to_source(), derived[2].to_source());
}

#[test]
fn rejects_what_is_neither_struct_nor_enum() {
    let item = Item { ident: "f".to_string(), node: ItemKind::Other };
    assert_eq!(item.rejection(), Some(Rejection::NotStructOrEnum));
    assert_eq!(
        Rejection::NotStructOrEnum.message(),
        "expected ItemStruct or ItemEnum in #[derive(Deserialize)]"
    );
}

#[test]
fn rejects_named_beside_unnamed_fields() {
    let item = struct_item("Mixed", vec![named("a"), unnamed()], generics(&[], &[]));
    assert_eq!(item.rejection(), Some(Rejection::MixedFields));
    let item = struct_item("Mixed", vec![unnamed(), named("a")], generics(&[], &[]));
    assert_eq!(item.rejection(), Some(Rejection::MixedFields));
    assert_eq!(Rejection::MixedFields.message(), "struct has named and unnamed fields");
}

#[test]
fn rejects_unnamed_fields_of_struct_variants() {
    let bad = VariantKind::Struct(StructDef { fields: vec![named("a"), unnamed()] });
    let item = enum_item(
        "E",
        vec![variant("A", VariantKind::Tuple(2)), variant("B", bad)],
        generics(&[], &[]),
    );
    assert_eq!(item.rejection(), Some(Rejection::UnnamedFields));
    assert_eq!(Rejection::UnnamedFields.message(), "struct contains unnamed fields");
}
