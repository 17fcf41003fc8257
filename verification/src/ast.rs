//! The item that an implementation is derived for: what the expansion reads
//! of a struct or an enum.
use vstd::pervasive::unreached;
use vstd::prelude::*;

use crate::code::{Generics, Lit, SpecGenerics, SpecLit};

verus! {

/// How a field is declared.
pub enum FieldKind {
    /// A field with a name.
    Named(String),
    /// A field of a tuple.
    Unnamed,
}

/// A field of a struct or of a struct variant.
pub struct StructField {
    pub kind: FieldKind,
    /// The literal that an attribute puts in the place of the field's name in
    /// the serialized form.
    pub rename: Option<Lit>,
    /// Whether an attribute asks for the type's default where the field is missing.
    pub default: bool,
}

/// The fields of a struct or of a struct variant.
pub struct StructDef {
    pub fields: Vec<StructField>,
}

/// The form of an enum's variant.
pub enum VariantKind {
    /// A variant with this many unnamed fields; a unit variant has none.
    Tuple(usize),
    /// A variant with named fields.
    Struct(StructDef),
}

/// A variant of an enum.
pub struct Variant {
    pub name: String,
    pub kind: VariantKind,
}

/// The variants of an enum.
pub struct EnumDef {
    pub variants: Vec<Variant>,
}

/// What an item is.
pub enum ItemKind {
    Struct(StructDef, Generics),
    Enum(EnumDef, Generics),
    /// Any other item. Nothing can be derived for it.
    Other,
}

/// An item with a `#[derive(Deserialize)]` attribute.
pub struct Item {
    pub ident: String,
    pub node: ItemKind,
}

/// The model of a [`StructField`]. A field without a name is one of a tuple.
pub ghost struct SpecField {
    pub name: Option<Seq<char>>,
    pub rename: Option<SpecLit>,
    pub default: bool,
}

/// The model of a [`VariantKind`].
pub ghost enum SpecVariantKind {
    Tuple(nat),
    Struct(Seq<SpecField>),
}

/// The model of a [`Variant`].
pub ghost struct SpecVariant {
    pub name: Seq<char>,
    pub kind: SpecVariantKind,
}

/// The model of an [`ItemKind`].
pub ghost enum SpecItemKind {
    Struct(Seq<SpecField>, SpecGenerics),
    Enum(Seq<SpecVariant>, SpecGenerics),
    Other,
}

/// The model of an [`Item`].
pub ghost struct SpecItem {
    pub ident: Seq<char>,
    pub node: SpecItemKind,
}

impl View for StructField {
    type V = SpecField;

    open spec fn view(&self) -> SpecField {
        SpecField {
            name: match self.kind {
                FieldKind::Named(name) => Some(name@),
                FieldKind::Unnamed => None,
            },
            rename: match self.rename {
                Some(lit) => Some(lit@),
                None => None,
            },
            default: self.default,
        }
    }
}

impl View for StructDef {
    type V = Seq<SpecField>;

    open spec fn view(&self) -> Seq<SpecField> {
        Seq::new(self.fields@.len(), |i: int| self.fields@[i]@)
    }
}

impl View for Variant {
    type V = SpecVariant;

    open spec fn view(&self) -> SpecVariant {
        SpecVariant {
            name: self.name@,
            kind: match self.kind {
                VariantKind::Tuple(n) => SpecVariantKind::Tuple(n as nat),
                VariantKind::Struct(def) => SpecVariantKind::Struct(def@),
            },
        }
    }
}

impl View for EnumDef {
    type V = Seq<SpecVariant>;

    open spec fn view(&self) -> Seq<SpecVariant> {
        Seq::new(self.variants@.len(), |i: int| self.variants@[i]@)
    }
}

impl View for Item {
    type V = SpecItem;

    open spec fn view(&self) -> SpecItem {
        SpecItem {
            ident: self.ident@,
            node: match self.node {
                ItemKind::Struct(def, generics) => SpecItemKind::Struct(def@, generics@),
                ItemKind::Enum(def, generics) => SpecItemKind::Enum(def@, generics@),
                ItemKind::Other => SpecItemKind::Other,
            },
        }
    }
}

/// Every field has a name.
pub open spec fn all_named(fields: Seq<SpecField>) -> bool {
    forall|i: int| 0 <= i < fields.len() ==> (#[trigger] fields[i]).name is Some
}

/// No field has a name.
pub open spec fn all_unnamed(fields: Seq<SpecField>) -> bool {
    forall|i: int| 0 <= i < fields.len() ==> (#[trigger] fields[i]).name is None
}

/// A variant as it can be declared: the fields of a struct variant have names.
pub open spec fn variant_ok(variant: SpecVariant) -> bool {
    variant.kind matches SpecVariantKind::Struct(fields) ==> all_named(fields)
}

/// The items that an implementation can be derived for: structs whose fields
/// either all have names or all have none, and enums.
pub open spec fn derivable(item: SpecItem) -> bool {
    match item.node {
        SpecItemKind::Struct(fields, _) => all_named(fields) || all_unnamed(fields),
        SpecItemKind::Enum(variants, _) => forall|i: int|
            0 <= i < variants.len() ==> #[trigger] variant_ok(variants[i]),
        SpecItemKind::Other => false,
    }
}

/// Why nothing can be derived for an item.
#[derive(Clone, Copy, Debug, PartialEq, Eq, Structural)]
pub enum Rejection {
    /// The item is neither a struct nor an enum.
    NotStructOrEnum,
    /// Some of a struct's fields have names and some have none.
    MixedFields,
    /// A field of a struct variant has no name.
    UnnamedFields,
}

/// Why nothing can be derived for an item, where that is so.
pub open spec fn item_rejection(item: SpecItem) -> Option<Rejection> {
    if derivable(item) {
        None
    } else {
        match item.node {
            SpecItemKind::Struct(_, _) => Some(Rejection::MixedFields),
            SpecItemKind::Enum(_, _) => Some(Rejection::UnnamedFields),
            SpecItemKind::Other => Some(Rejection::NotStructOrEnum),
        }
    }
}

/// What stands for a field in the serialized form: its rename, else its name.
pub open spec fn field_key(field: SpecField) -> SpecLit {
    match field.rename {
        Some(lit) => lit,
        None => SpecLit::Str(field.name->0),
    }
}

/// The keys of all fields, in the order of their declaration.
pub open spec fn field_keys(fields: Seq<SpecField>) -> Seq<SpecLit> {
    Seq::new(fields.len(), |i: int| field_key(fields[i]))
}

impl StructField {
    /// The literal that stands for this field in the serialized form.
    pub fn key(&self) -> (r: Lit)
        requires
            self@.name is Some,
        ensures
            r@ == field_key(self@),
    {
        match &self.rename {
            Some(lit) => lit.dup(),
            None => match &self.kind {
                FieldKind::Named(name) => Lit::Str(name.clone()),
                FieldKind::Unnamed => unreached(),
            },
        }
    }
}

impl StructDef {
    /// Whether every field has a name.
    fn all_named(&self) -> (r: bool)
        ensures
            r == all_named(self@),
    {
        for i in 0..self.fields.len()
            invariant
                forall|j: int| 0 <= j < i ==> (#[trigger] self@[j]).name is Some,
        {
            assert(self@[i as int] == self.fields@[i as int]@);
            if let FieldKind::Unnamed = self.fields[i].kind {
                return false;
            }
        }
        true
    }

    /// Whether no field has a name.
    fn all_unnamed(&self) -> (r: bool)
        ensures
            r == all_unnamed(self@),
    {
        for i in 0..self.fields.len()
            invariant
                forall|j: int| 0 <= j < i ==> (#[trigger] self@[j]).name is None,
        {
            assert(self@[i as int] == self.fields@[i as int]@);
            if let FieldKind::Named(_) = self.fields[i].kind {
                return false;
            }
        }
        true
    }
}

impl Item {
    /// Why nothing can be derived for this item, where that is so.
    pub fn rejection(&self) -> (r: Option<Rejection>)
        ensures
            r == item_rejection(self@),
            r is None <==> derivable(self@),
    {
        match &self.node {
            ItemKind::Struct(def, _) => if def.all_named() || def.all_unnamed() {
                None
            } else {
                Some(Rejection::MixedFields)
            },
            ItemKind::Enum(def, _) => {
                for i in 0..def.variants.len()
                    invariant
                        self@.node is Enum,
                        self@.node->Enum_0 == def@,
                        forall|j: int| 0 <= j < i ==> #[trigger] variant_ok(def@[j]),
                {
                    assert(def@[i as int] == def.variants@[i as int]@);
                    if let VariantKind::Struct(fields) = &def.variants[i].kind {
                        if !fields.all_named() {
                            assert(!variant_ok(def@[i as int]));
                            return Some(Rejection::UnnamedFields);
                        }
                    }
                }
                None
            },
            ItemKind::Other => Some(Rejection::NotStructOrEnum),
        }
    }
}

/// The words for a rejection.
pub open spec fn rejection_text(r: Rejection) -> Seq<char> {
    match r {
        Rejection::NotStructOrEnum => "expected ItemStruct or ItemEnum in #[derive(Deserialize)]"@,
        Rejection::MixedFields => "struct has named and unnamed fields"@,
        Rejection::UnnamedFields => "struct contains unnamed fields"@,
    }
}

impl Rejection {
    /// The words for this rejection.
    pub fn message(&self) -> (r: String)
        ensures
            r@ == rejection_text(*self),
    {
        match self {
            Rejection::NotStructOrEnum => {
                "expected ItemStruct or ItemEnum in #[derive(Deserialize)]".to_owned()
            },
            Rejection::MixedFields => "struct has named and unnamed fields".to_owned(),
            Rejection::UnnamedFields => "struct contains unnamed fields".to_owned(),
        }
    }
}

} // verus!
