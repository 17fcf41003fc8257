//! Derived code, read by a Rust parser.

use serde_codegen::ast::{
    EnumDef, FieldKind, Item, ItemKind, StructDef, StructField, Variant, VariantKind,
};
use serde_codegen::code::{Decl, Generics, LifetimeDef, Lit, Ty, TyParam};
use serde_codegen::de::expand_derive_deserialize;

use syntex_syntax::codemap::FilePathMapping;
use syntex_syntax::parse::{parse_item_from_source_str, ParseSess};
use syntex_syntax::print::pprust;

/// The layout that the parser's own printer gives to an item.
fn layout(source: &str) -> String {
    let sess = ParseSess::new(FilePathMapping::empty());
    let parsed = parse_item_from_source_str("item".to_string(), source.to_string(), &sess);
    match parsed {
        Ok(Some(item)) => pprust::item_to_string(&item),
        Ok(None) => panic!("no item"),
        Err(mut err) => {
            err.cancel();
            panic!("the item does not parse")
        }
    }
}

fn derive(item: &Item) -> String {
    assert_eq!(item.rejection(), None);
    let mut derived: Vec<Decl> = vec![];
    expand_derive_deserialize(item, &mut derived);
    assert_eq!(derived.len(), 1);
    derived[0].to_source()
}

fn no_generics() -> Generics {
    Generics { lifetimes: vec![], ty_params: vec![], where_clause: vec![] }
}

/// `<'a, T: Clone> where T: 'a`
fn some_generics() -> Generics {
    Generics {
        lifetimes: vec![LifetimeDef { name: "'a".to_string(), bounds: vec![] }],
        ty_params: vec![TyParam {
            ident: "T".to_string(),
            bounds: vec![Ty::Verbatim("Clone".to_string())],
            default: None,
        }],
        where_clause: vec!["T: 'a".to_string()],
    }
}

fn named(name: &str) -> StructField {
    StructField { kind: FieldKind::Named(name.to_string()), rename: None, default: false }
}

fn unnamed() -> StructField {
    StructField { kind: FieldKind::Unnamed, rename: None, default: false }
}

fn struct_item(ident: &str, fields: Vec<StructField>, generics: Generics) -> Item {
    Item { ident: ident.to_string(), node: ItemKind::Struct(StructDef { fields }, generics) }
}

#[test]
fn unit_struct_parses() {
    let expected = r#"
        #[automatically_derived]
        impl ::serde::de::Deserialize for Unit {
            fn deserialize<__D>(deserializer: &mut __D)
                -> ::std::result::Result<Unit, __D::Error>
                where __D: ::serde::de::Deserializer,
            {
                {
                    struct __Visitor;

                    impl ::serde::de::Visitor for __Visitor {
                        type Value = Unit;

                        #[inline]
                        fn visit_unit<E>(&mut self) -> ::std::result::Result<Unit, E>
                            where E: ::serde::de::Error,
                        {
                            Ok(Unit)
                        }

                        #[inline]
                        fn visit_seq<V>(&mut self, mut visitor: V)
                            -> ::std::result::Result<Unit, V::Error>
                            where V: ::serde::de::SeqVisitor,
                        {
                            try!(visitor.end());
                            self.visit_unit()
                        }
                    }

                    deserializer.visit_named_unit("Unit", __Visitor)
                }
            }
        }
    "#;
    let source = derive(&struct_item("Unit", vec![], no_generics()));
    assert_eq!(layout(&source), layout(expected));
}

#[test]
fn tuple_struct_parses() {
    let expected = r#"
        #[automatically_derived]
        impl<'a, T: Clone + ::serde::de::Deserialize> ::serde::de::Deserialize for Pair<'a, T>
            where T: 'a
        {
            fn deserialize<__D>(deserializer: &mut __D)
                -> ::std::result::Result<Pair<'a, T>, __D::Error>
                where __D: ::serde::de::Deserializer,
            {
                {
                    struct __Visitor<'a, T: Clone + ::serde::de::Deserialize>(
                        ::std::marker::PhantomData<T>
                    ) where T: 'a;

                    impl<'a, T: Clone + ::serde::de::Deserialize> ::serde::de::Visitor
                        for __Visitor<'a, T> where T: 'a
                    {
                        type Value = Pair<'a, T>;

                        fn visit_seq<__V>(&mut self, mut visitor: __V)
                            -> ::std::result::Result<Pair<'a, T>, __V::Error>
                            where __V: ::serde::de::SeqVisitor,
                        {
                            {
                                let __field0 = match try!(visitor.visit()) {
                                    Some(value) => value,
                                    None => {
                                        return Err(::serde::de::Error::end_of_stream_error());
                                    }
                                };
                                let __field1 = match try!(visitor.visit()) {
                                    Some(value) => value,
                                    None => {
                                        return Err(::serde::de::Error::end_of_stream_error());
                                    }
                                };

                                try!(visitor.end());

                                Ok(Pair(__field0, __field1))
                            }
                        }
                    }

                    deserializer.visit_named_seq(
                        "Pair",
                        __Visitor(::std::marker::PhantomData)
                    )
                }
            }
        }
    "#;
    let source = derive(&struct_item("Pair", vec![unnamed(), unnamed()], some_generics()));
    assert_eq!(layout(&source), layout(expected));
}

#[test]
fn struct_parses() {
    let mut renamed = named("b");
    renamed.rename = Some(Lit::Str("the \"b\"".to_string()));
    renamed.default = true;
    let expected = r#"
        #[automatically_derived]
        impl<'a, T: Clone + ::serde::de::Deserialize> ::serde::de::Deserialize for Rec<'a, T>
            where T: 'a
        {
            fn deserialize<__D>(deserializer: &mut __D)
                -> ::std::result::Result<Rec<'a, T>, __D::Error>
                where __D: ::serde::de::Deserializer,
            {
                {
                    #[allow(non_camel_case_types)]
                    enum __Field { __field0, __field1 }

                    impl ::serde::de::Deserialize for __Field {
                        #[inline]
                        fn deserialize<D>(deserializer: &mut D)
                            -> ::std::result::Result<__Field, D::Error>
                            where D: ::serde::de::Deserializer,
                        {
                            struct __FieldVisitor;

                            impl ::serde::de::Visitor for __FieldVisitor {
                                type Value = __Field;

                                fn visit_str<E>(&mut self, value: &str)
                                    -> ::std::result::Result<__Field, E>
                                    where E: ::serde::de::Error,
                                {
                                    match value {
                                        "a" => { Ok(__Field::__field0) }
                                        "the \"b\"" => { Ok(__Field::__field1) }
                                        _ => Err(::serde::de::Error::unknown_field_error(value)),
                                    }
                                }
                            }

                            deserializer.visit(__FieldVisitor)
                        }
                    }

                    struct __Visitor<'a, T: Clone + ::serde::de::Deserialize>(
                        ::std::marker::PhantomData<T>
                    ) where T: 'a;

                    impl<'a, T: Clone + ::serde::de::Deserialize> ::serde::de::Visitor
                        for __Visitor<'a, T> where T: 'a
                    {
                        type Value = Rec<'a, T>;

                        #[inline]
                        fn visit_map<__V>(&mut self, mut visitor: __V)
                            -> ::std::result::Result<Rec<'a, T>, __V::Error>
                            where __V: ::serde::de::MapVisitor,
                        {
                            {
                                let mut __field0 = None;
                                let mut __field1 = None;

                                while let Some(key) = try!(visitor.visit_key()) {
                                    match key {
                                        __Field::__field0 => {
                                            __field0 = Some(try!(visitor.visit_value()));
                                        }
                                        __Field::__field1 => {
                                            __field1 = Some(try!(visitor.visit_value()));
                                        }
                                    }
                                }

                                let __field0 = match __field0 {
                                    Some(__field0) => __field0,
                                    None => try!(visitor.missing_field("a")),
                                };
                                let __field1 = match __field1 {
                                    Some(__field1) => __field1,
                                    None => ::std::default::Default::default(),
                                };

                                try!(visitor.end());

                                Ok(Rec { a: __field0, b: __field1 })
                            }
                        }
                    }

                    deserializer.visit_named_map("Rec", __Visitor(::std::marker::PhantomData))
                }
            }
        }
    "#;
    let source = derive(&struct_item("Rec", vec![named("a"), renamed], some_generics()));
    assert_eq!(layout(&source), layout(expected));
}

#[test]
fn enum_parses() {
    let rect = StructDef { fields: vec![named("w")] };
    let item = Item {
        ident: "Shape".to_string(),
        node: ItemKind::Enum(
            EnumDef {
                variants: vec![
                    Variant { name: "Empty".to_string(), kind: VariantKind::Tuple(0) },
                    Variant { name: "Circle".to_string(), kind: VariantKind::Tuple(1) },
                    Variant { name: "Rect".to_string(), kind: VariantKind::Struct(rect) },
                ],
            },
            no_generics(),
        ),
    };
    let expected = r#"
        #[automatically_derived]
        impl ::serde::de::Deserialize for Shape {
            fn deserialize<__D>(deserializer: &mut __D)
                -> ::std::result::Result<Shape, __D::Error>
                where __D: ::serde::de::Deserializer,
            {
                {
                    #[allow(non_camel_case_types)]
                    enum __Field { __field0, __field1, __field2 }

                    impl ::serde::de::Deserialize for __Field {
                        #[inline]
                        fn deserialize<D>(deserializer: &mut D)
                            -> ::std::result::Result<__Field, D::Error>
                            where D: ::serde::de::Deserializer,
                        {
                            struct __FieldVisitor;

                            impl ::serde::de::Visitor for __FieldVisitor {
                                type Value = __Field;

                                fn visit_str<E>(&mut self, value: &str)
                                    -> ::std::result::Result<__Field, E>
                                    where E: ::serde::de::Error,
                                {
                                    match value {
                                        "Empty" => { Ok(__Field::__field0) }
                                        "Circle" => { Ok(__Field::__field1) }
                                        "Rect" => { Ok(__Field::__field2) }
                                        _ => Err(::serde::de::Error::unknown_field_error(value)),
                                    }
                                }
                            }

                            deserializer.visit(__FieldVisitor)
                        }
                    }

                    struct __Visitor;

                    impl ::serde::de::EnumVisitor for __Visitor {
                        type Value = Shape;

                        fn visit<__V>(&mut self, mut visitor: __V)
                            -> ::std::result::Result<Shape, __V::Error>
                            where __V: ::serde::de::VariantVisitor,
                        {
                            match try!(visitor.visit_variant()) {
                                __Field::__field0 => {
                                    {
                                        try!(visitor.visit_unit());
                                        Ok(Shape::Empty)
                                    }
                                }
                                __Field::__field1 => {
                                    {
                                        struct __Visitor;

                                        impl ::serde::de::Visitor for __Visitor {
                                            type Value = Shape;

                                            fn visit_seq<__V>(&mut self, mut visitor: __V)
                                                -> ::std::result::Result<Shape, __V::Error>
                                                where __V: ::serde::de::SeqVisitor,
                                            {
                                                {
                                                    let __field0 = match try!(visitor.visit()) {
                                                        Some(value) => value,
                                                        None => {
                                                            return Err(::serde::de::Error::end_of_stream_error());
                                                        }
                                                    };

                                                    try!(visitor.end());

                                                    Ok(Shape::Circle(__field0))
                                                }
                                            }
                                        }

                                        visitor.visit_seq(__Visitor)
                                    }
                                }
                                __Field::__field2 => {
                                    {
                                        #[allow(non_camel_case_types)]
                                        enum __Field { __field0 }

                                        impl ::serde::de::Deserialize for __Field {
                                            #[inline]
                                            fn deserialize<D>(deserializer: &mut D)
                                                -> ::std::result::Result<__Field, D::Error>
                                                where D: ::serde::de::Deserializer,
                                            {
                                                struct __FieldVisitor;

                                                impl ::serde::de::Visitor for __FieldVisitor {
                                                    type Value = __Field;

                                                    fn visit_str<E>(&mut self, value: &str)
                                                        -> ::std::result::Result<__Field, E>
                                                        where E: ::serde::de::Error,
                                                    {
                                                        match value {
                                                            "w" => { Ok(__Field::__field0) }
                                                            _ => Err(::serde::de::Error::unknown_field_error(value)),
                                                        }
                                                    }
                                                }

                                                deserializer.visit(__FieldVisitor)
                                            }
                                        }

                                        struct __Visitor;

                                        impl ::serde::de::Visitor for __Visitor {
                                            type Value = Shape;

                                            fn visit_map<__V>(&mut self, mut visitor: __V)
                                                -> ::std::result::Result<Shape, __V::Error>
                                                where __V: ::serde::de::MapVisitor,
                                            {
                                                {
                                                    let mut __field0 = None;

                                                    while let Some(key) = try!(visitor.visit_key()) {
                                                        match key {
                                                            __Field::__field0 => {
                                                                __field0 = Some(try!(visitor.visit_value()));
                                                            }
                                                        }
                                                    }

                                                    let __field0 = match __field0 {
                                                        Some(__field0) => __field0,
                                                        None => try!(visitor.missing_field("w")),
                                                    };

                                                    try!(visitor.end());

                                                    Ok(Shape::Rect { w: __field0 })
                                                }
                                            }
                                        }

                                        visitor.visit_map(__Visitor)
                                    }
                                }
                            }
                        }
                    }

                    deserializer.visit_enum("Shape", __Visitor)
                }
            }
        }
    "#;
    assert_eq!(layout(&derive(&item)), layout(expected));
}

#[test]
fn empty_forms_parse() {
    let never = Item {
        ident: "Never".to_string(),
        node: ItemKind::Enum(EnumDef { variants: vec![] }, no_generics()),
    };
    assert!(layout(&derive(&never)).contains("enum __Field { }"));
    let only = StructDef { fields: vec![] };
    let one = Item {
        ident: "One".to_string(),
        node: ItemKind::Enum(
            EnumDef {
                variants: vec![Variant {
                    name: "Only".to_string(),
                    kind: VariantKind::Struct(only),
                }],
            },
            no_generics(),
        ),
    };
    assert!(layout(&derive(&one)).contains("Ok(One::Only{})"));
}

#[test]
fn strings_are_read_back() {
    let mut field = named("a");
    field.rename = Some(Lit::Str("q\"b\\n\nr\rz".to_string()));
    let source = derive(&struct_item("Odd", vec![field], no_generics()));
    let same = r#""q\"b\\n\nr\rz""#;
    assert!(layout(&source).contains(&format!("{} =>", same)));
}
