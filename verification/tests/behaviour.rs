//! What derived code does, on copies of it. The copies are written by hand and
//! call nothing of the library: `tests/source.rs` and `tests/syntax.rs` compare
//! what the library derives, for types of these names, token by token. Against
//! that, the copies
//! - stand in the layout of a formatter, which also drops commas behind braces,
//! - leave out `#[automatically_derived]` and `#[inline]`,
//! - write `?` for `try!`, and
//! - name the traits and `Result` without their modules.

use std::cell::RefCell;
use std::fmt::Debug;
use std::rc::Rc;

// The traits
// ----------

trait Error: Sized {
    fn end_of_stream_error() -> Self;
    fn unknown_field_error(field: &str) -> Self;
    fn mismatch_error() -> Self;
}

trait Deserialize: Sized {
    fn deserialize<D>(deserializer: &mut D) -> Result<Self, D::Error>
    where
        D: Deserializer;
}

trait Deserializer: Sized {
    type Error: Error;

    /// Notes a call.
    fn note(&mut self, call: String);

    /// Calls the method of the visitor that fits.
    fn deliver<V: Visitor>(&mut self, visitor: V) -> Result<V::Value, Self::Error>;

    fn visit<V: Visitor>(&mut self, visitor: V) -> Result<V::Value, Self::Error> {
        self.note("visit".to_string());
        self.deliver(visitor)
    }

    fn visit_named_unit<V: Visitor>(
        &mut self,
        name: &str,
        visitor: V,
    ) -> Result<V::Value, Self::Error> {
        self.note(format!("visit_named_unit {}", name));
        self.deliver(visitor)
    }

    fn visit_named_seq<V: Visitor>(
        &mut self,
        name: &str,
        visitor: V,
    ) -> Result<V::Value, Self::Error> {
        self.note(format!("visit_named_seq {}", name));
        self.deliver(visitor)
    }

    fn visit_named_map<V: Visitor>(
        &mut self,
        name: &str,
        visitor: V,
    ) -> Result<V::Value, Self::Error> {
        self.note(format!("visit_named_map {}", name));
        self.deliver(visitor)
    }

    fn visit_enum<V: EnumVisitor>(
        &mut self,
        name: &str,
        visitor: V,
    ) -> Result<V::Value, Self::Error>;
}

trait Visitor: Sized {
    type Value;

    fn visit_unit<E: Error>(&mut self) -> Result<Self::Value, E> {
        Err(E::mismatch_error())
    }

    fn visit_num<E: Error>(&mut self, _value: i64) -> Result<Self::Value, E> {
        Err(E::mismatch_error())
    }

    fn visit_str<E: Error>(&mut self, _value: &str) -> Result<Self::Value, E> {
        Err(E::mismatch_error())
    }

    fn visit_seq<V: SeqVisitor>(&mut self, _visitor: V) -> Result<Self::Value, V::Error> {
        Err(V::Error::mismatch_error())
    }

    fn visit_map<V: MapVisitor>(&mut self, _visitor: V) -> Result<Self::Value, V::Error> {
        Err(V::Error::mismatch_error())
    }
}

trait SeqVisitor {
    type Error: Error;

    fn visit<T: Deserialize>(&mut self) -> Result<Option<T>, Self::Error>;

    fn end(&mut self) -> Result<(), Self::Error>;
}

trait MapVisitor {
    type Error: Error;

    fn visit_key<K: Deserialize>(&mut self) -> Result<Option<K>, Self::Error>;

    fn visit_value<V: Deserialize>(&mut self) -> Result<V, Self::Error>;

    fn missing_field<V: Deserialize>(&mut self, field: &str) -> Result<V, Self::Error>;

    fn end(&mut self) -> Result<(), Self::Error>;
}

trait EnumVisitor: Sized {
    type Value;

    fn visit<V: VariantVisitor>(&mut self, visitor: V) -> Result<Self::Value, V::Error>;
}

trait VariantVisitor {
    type Error: Error;

    fn visit_variant<V: Deserialize>(&mut self) -> Result<V, Self::Error>;

    fn visit_unit(&mut self) -> Result<(), Self::Error>;

    fn visit_seq<V: Visitor>(&mut self, visitor: V) -> Result<V::Value, Self::Error>;

    fn visit_map<V: Visitor>(&mut self, visitor: V) -> Result<V::Value, Self::Error>;
}

// A deserializer
// --------------

#[derive(Clone, Debug, PartialEq)]
enum Fault {
    EndOfStream,
    UnknownField(String),
    Mismatch,
    Missing(String),
    Left,
    Broken,
    Spoiled,
}

impl Error for Fault {
    fn end_of_stream_error() -> Fault {
        Fault::EndOfStream
    }

    fn unknown_field_error(field: &str) -> Fault {
        Fault::UnknownField(field.to_string())
    }

    fn mismatch_error() -> Fault {
        Fault::Mismatch
    }
}

#[derive(Clone)]
enum Data {
    Unit,
    Num(i64),
    Str(&'static str),
    List(Vec<Data>),
    Table(Vec<(Data, Data)>),
    Variant(Box<Data>, Box<Data>),
    /// Reading fails before a visitor is called.
    Broken,
    /// Reading fails behind what is there.
    Spoiled(Box<Data>),
}

/// The calls made, in order.
type Log = Rc<RefCell<Vec<String>>>;

fn note(log: &Log, call: &str) {
    log.borrow_mut().push(call.to_string());
}

struct Source(Data, Log);

struct SeqSource(Vec<Data>, Log);

struct MapSource(Vec<(Data, Data)>, Log);

struct VariantSource(Data, Data, Log);

fn spoil<T>(result: Result<T, Fault>) -> Result<T, Fault> {
    result.and_then(|_| Err(Fault::Spoiled))
}

impl Source {
    fn deliver_enum<V: EnumVisitor>(&mut self, mut visitor: V) -> Result<V::Value, Fault> {
        let log = self.1.clone();
        match self.0.clone() {
            Data::Variant(name, content) => visitor.visit(VariantSource(*name, *content, log)),
            Data::Broken => Err(Fault::Broken),
            Data::Spoiled(data) => spoil(Source(*data, log).deliver_enum(visitor)),
            _ => Err(Fault::Mismatch),
        }
    }
}

impl Deserializer for Source {
    type Error = Fault;

    fn note(&mut self, call: String) {
        note(&self.1, &call);
    }

    fn deliver<V: Visitor>(&mut self, mut visitor: V) -> Result<V::Value, Fault> {
        let log = self.1.clone();
        match self.0.clone() {
            Data::Unit => visitor.visit_unit(),
            Data::Num(n) => visitor.visit_num(n),
            Data::Str(s) => visitor.visit_str(s),
            Data::List(items) => visitor.visit_seq(SeqSource(items, log)),
            Data::Table(entries) => visitor.visit_map(MapSource(entries, log)),
            Data::Variant(..) => Err(Fault::Mismatch),
            Data::Broken => Err(Fault::Broken),
            Data::Spoiled(data) => spoil(Source(*data, log).deliver(visitor)),
        }
    }

    fn visit_enum<V: EnumVisitor>(&mut self, name: &str, visitor: V) -> Result<V::Value, Fault> {
        self.note(format!("visit_enum {}", name));
        self.deliver_enum(visitor)
    }
}

impl SeqVisitor for SeqSource {
    type Error = Fault;

    fn visit<T: Deserialize>(&mut self) -> Result<Option<T>, Fault> {
        note(&self.1, "visit");
        if self.0.is_empty() {
            Ok(None)
        } else {
            read(self.0.remove(0)).map(Some)
        }
    }

    fn end(&mut self) -> Result<(), Fault> {
        note(&self.1, "end");
        if self.0.is_empty() {
            Ok(())
        } else {
            Err(Fault::Left)
        }
    }
}

impl MapVisitor for MapSource {
    type Error = Fault;

    fn visit_key<K: Deserialize>(&mut self) -> Result<Option<K>, Fault> {
        note(&self.1, "visit_key");
        match self.0.first() {
            Some((key, _)) => read(key.clone()).map(Some),
            None => Ok(None),
        }
    }

    fn visit_value<V: Deserialize>(&mut self) -> Result<V, Fault> {
        note(&self.1, "visit_value");
        let (_, value) = self.0.remove(0);
        read(value)
    }

    fn missing_field<V: Deserialize>(&mut self, field: &str) -> Result<V, Fault> {
        note(&self.1, &format!("missing_field {}", field));
        match read(Data::Unit) {
            Ok(value) => Ok(value),
            Err(_) => Err(Fault::Missing(field.to_string())),
        }
    }

    fn end(&mut self) -> Result<(), Fault> {
        note(&self.1, "end");
        Ok(())
    }
}

impl VariantSource {
    fn content(&self, data: Data) -> VariantSource {
        VariantSource(Data::Unit, data, Rc::default())
    }
}

impl VariantVisitor for VariantSource {
    type Error = Fault;

    fn visit_variant<V: Deserialize>(&mut self) -> Result<V, Fault> {
        note(&self.2, "visit_variant");
        read(self.0.clone())
    }

    fn visit_unit(&mut self) -> Result<(), Fault> {
        note(&self.2, "visit_unit");
        match self.1.clone() {
            Data::Unit => Ok(()),
            Data::Broken => Err(Fault::Broken),
            Data::Spoiled(data) => spoil(self.content(*data).visit_unit()),
            _ => Err(Fault::Mismatch),
        }
    }

    fn visit_seq<V: Visitor>(&mut self, mut visitor: V) -> Result<V::Value, Fault> {
        note(&self.2, "visit_seq");
        match self.1.clone() {
            Data::List(items) => visitor.visit_seq(SeqSource(items, self.2.clone())),
            Data::Broken => Err(Fault::Broken),
            Data::Spoiled(data) => spoil(self.content(*data).visit_seq(visitor)),
            _ => Err(Fault::Mismatch),
        }
    }

    fn visit_map<V: Visitor>(&mut self, mut visitor: V) -> Result<V::Value, Fault> {
        note(&self.2, "visit_map");
        match self.1.clone() {
            Data::Table(entries) => visitor.visit_map(MapSource(entries, self.2.clone())),
            Data::Broken => Err(Fault::Broken),
            Data::Spoiled(data) => spoil(self.content(*data).visit_map(visitor)),
            _ => Err(Fault::Mismatch),
        }
    }
}

impl Deserialize for i64 {
    fn deserialize<D: Deserializer>(deserializer: &mut D) -> Result<i64, D::Error> {
        struct NumVisitor;

        impl Visitor for NumVisitor {
            type Value = i64;

            fn visit_num<E: Error>(&mut self, value: i64) -> Result<i64, E> {
                Ok(value)
            }
        }

        deserializer.visit(NumVisitor)
    }
}

// The types
// ---------

#[derive(Debug, PartialEq)]
struct Unit;

#[derive(Debug, PartialEq)]
struct Pair(i64, i64);

/// Field `b` is renamed to `bee`, and field `c` has a default.
#[derive(Debug, PartialEq)]
struct Rec {
    a: i64,
    b: i64,
    c: i64,
}

#[derive(Debug, PartialEq)]
enum Shape {
    Empty,
    Circle(i64),
    Rect { w: i64 },
}

// The derived implementations
// ---------------------------

impl Deserialize for Unit {
    fn deserialize<__D>(deserializer: &mut __D) -> Result<Unit, __D::Error>
    where
        __D: Deserializer,
    {
        {
            struct __Visitor;
            impl Visitor for __Visitor {
                type Value = Unit;
                fn visit_unit<E>(&mut self) -> Result<Unit, E>
                where
                    E: Error,
                {
                    Ok(Unit)
                }
                fn visit_seq<V>(&mut self, mut visitor: V) -> Result<Unit, V::Error>
                where
                    V: SeqVisitor,
                {
                    visitor.end()?;
                    self.visit_unit()
                }
            }
            deserializer.visit_named_unit("Unit", __Visitor)
        }
    }
}

impl Deserialize for Pair {
    fn deserialize<__D>(deserializer: &mut __D) -> Result<Pair, __D::Error>
    where
        __D: Deserializer,
    {
        {
            struct __Visitor;
            impl Visitor for __Visitor {
                type Value = Pair;
                fn visit_seq<__V>(&mut self, mut visitor: __V) -> Result<Pair, __V::Error>
                where
                    __V: SeqVisitor,
                {
                    {
                        let __field0 = match visitor.visit()? {
                            Some(value) => value,
                            None => {
                                return Err(Error::end_of_stream_error());
                            }
                        };
                        let __field1 = match visitor.visit()? {
                            Some(value) => value,
                            None => {
                                return Err(Error::end_of_stream_error());
                            }
                        };
                        visitor.end()?;
                        Ok(Pair(__field0, __field1))
                    }
                }
            }
            deserializer.visit_named_seq("Pair", __Visitor)
        }
    }
}

impl Deserialize for Rec {
    fn deserialize<__D>(deserializer: &mut __D) -> Result<Rec, __D::Error>
    where
        __D: Deserializer,
    {
        {
            #[allow(non_camel_case_types)]
            enum __Field {
                __field0,
                __field1,
                __field2,
            }
            impl Deserialize for __Field {
                fn deserialize<D>(deserializer: &mut D) -> Result<__Field, D::Error>
                where
                    D: Deserializer,
                {
                    struct __FieldVisitor;
                    impl Visitor for __FieldVisitor {
                        type Value = __Field;
                        fn visit_str<E>(&mut self, value: &str) -> Result<__Field, E>
                        where
                            E: Error,
                        {
                            match value {
                                "a" => {
                                    Ok(__Field::__field0)
                                }
                                "bee" => {
                                    Ok(__Field::__field1)
                                }
                                "c" => {
                                    Ok(__Field::__field2)
                                }
                                _ => Err(Error::unknown_field_error(value)),
                            }
                        }
                    }
                    deserializer.visit(__FieldVisitor)
                }
            }
            struct __Visitor;
            impl Visitor for __Visitor {
                type Value = Rec;
                fn visit_map<__V>(&mut self, mut visitor: __V) -> Result<Rec, __V::Error>
                where
                    __V: MapVisitor,
                {
                    {
                        let mut __field0 = None;
                        let mut __field1 = None;
                        let mut __field2 = None;
                        while let Some(key) = visitor.visit_key()? {
                            match key {
                                __Field::__field0 => {
                                    __field0 = Some(visitor.visit_value()?);
                                }
                                __Field::__field1 => {
                                    __field1 = Some(visitor.visit_value()?);
                                }
                                __Field::__field2 => {
                                    __field2 = Some(visitor.visit_value()?);
                                }
                            }
                        }
                        let __field0 = match __field0 {
                            Some(__field0) => __field0,
                            None => visitor.missing_field("a")?,
                        };
                        let __field1 = match __field1 {
                            Some(__field1) => __field1,
                            None => visitor.missing_field("bee")?,
                        };
                        let __field2 = match __field2 {
                            Some(__field2) => __field2,
                            None => ::std::default::Default::default(),
                        };
                        visitor.end()?;
                        Ok(Rec { a: __field0, b: __field1, c: __field2 })
                    }
                }
            }
            deserializer.visit_named_map("Rec", __Visitor)
        }
    }
}

impl Deserialize for Shape {
    fn deserialize<__D>(deserializer: &mut __D) -> Result<Shape, __D::Error>
    where
        __D: Deserializer,
    {
        {
            #[allow(non_camel_case_types)]
            enum __Field {
                __field0,
                __field1,
                __field2,
            }
            impl Deserialize for __Field {
                fn deserialize<D>(deserializer: &mut D) -> Result<__Field, D::Error>
                where
                    D: Deserializer,
                {
                    struct __FieldVisitor;
                    impl Visitor for __FieldVisitor {
                        type Value = __Field;
                        fn visit_str<E>(&mut self, value: &str) -> Result<__Field, E>
                        where
                            E: Error,
                        {
                            match value {
                                "Empty" => {
                                    Ok(__Field::__field0)
                                }
                                "Circle" => {
                                    Ok(__Field::__field1)
                                }
                                "Rect" => {
                                    Ok(__Field::__field2)
                                }
                                _ => Err(Error::unknown_field_error(value)),
                            }
                        }
                    }
                    deserializer.visit(__FieldVisitor)
                }
            }
            struct __Visitor;
            impl EnumVisitor for __Visitor {
                type Value = Shape;
                fn visit<__V>(&mut self, mut visitor: __V) -> Result<Shape, __V::Error>
                where
                    __V: VariantVisitor,
                {
                    match visitor.visit_variant()? {
                        __Field::__field0 => {
                            {
                                visitor.visit_unit()?;
                                Ok(Shape::Empty)
                            }
                        }
                        __Field::__field1 => {
                            {
                                struct __Visitor;
                                impl Visitor for __Visitor {
                                    type Value = Shape;
                                    fn visit_seq<__V>(
                                        &mut self,
                                        mut visitor: __V,
                                    ) -> Result<Shape, __V::Error>
                                    where
                                        __V: SeqVisitor,
                                    {
                                        {
                                            let __field0 = match visitor.visit()? {
                                                Some(value) => value,
                                                None => {
                                                    return Err(Error::end_of_stream_error());
                                                }
                                            };
                                            visitor.end()?;
                                            Ok(Shape::Circle(__field0))
                                        }
                                    }
                                }
                                visitor.visit_seq(__Visitor)
                            }
                        }
                        __Field::__field2 => {
                            {
                                #[allow(non_camel_case_types)]
                                enum __Field {
                                    __field0,
                                }
                                impl Deserialize for __Field {
                                    fn deserialize<D>(
                                        deserializer: &mut D,
                                    ) -> Result<__Field, D::Error>
                                    where
                                        D: Deserializer,
                                    {
                                        struct __FieldVisitor;
                                        impl Visitor for __FieldVisitor {
                                            type Value = __Field;
                                            fn visit_str<E>(
                                                &mut self,
                                                value: &str,
                                            ) -> Result<__Field, E>
                                            where
                                                E: Error,
                                            {
                                                match value {
                                                    "w" => {
                                                        Ok(__Field::__field0)
                                                    }
                                                    _ => Err(Error::unknown_field_error(value)),
                                                }
                                            }
                                        }
                                        deserializer.visit(__FieldVisitor)
                                    }
                                }
                                struct __Visitor;
                                impl Visitor for __Visitor {
                                    type Value = Shape;
                                    fn visit_map<__V>(
                                        &mut self,
                                        mut visitor: __V,
                                    ) -> Result<Shape, __V::Error>
                                    where
                                        __V: MapVisitor,
                                    {
                                        {
                                            let mut __field0 = None;
                                            while let Some(key) = visitor.visit_key()? {
                                                match key {
                                                    __Field::__field0 => {
                                                        __field0 = Some(visitor.visit_value()?);
                                                    }
                                                }
                                            }
                                            let __field0 = match __field0 {
                                                Some(__field0) => __field0,
                                                None => visitor.missing_field("w")?,
                                            };
                                            visitor.end()?;
                                            Ok(Shape::Rect { w: __field0 })
                                        }
                                    }
                                }
                                visitor.visit_map(__Visitor)
                            }
                        }
                    }
                }
            }
            deserializer.visit_enum("Shape", __Visitor)
        }
    }
}

// What is read
// ------------

fn read<T: Deserialize>(data: Data) -> Result<T, Fault> {
    T::deserialize(&mut Source(data, Rc::default()))
}

/// The calls that reading takes.
fn calls<T: Deserialize>(data: Data) -> Vec<String> {
    let log = Log::default();
    let _ = T::deserialize(&mut Source(data, log.clone()));
    let made = log.borrow().clone();
    made
}

fn refuses<T: Deserialize + Debug + PartialEq>(data: Data, fault: Fault) {
    assert_eq!(read::<T>(data), Err(fault));
}

fn nums(values: &[i64]) -> Data {
    Data::List(values.iter().map(|n| Data::Num(*n)).collect())
}

fn map(entries: &[(&'static str, i64)]) -> Data {
    Data::Table(entries.iter().map(|(k, v)| (Data::Str(*k), Data::Num(*v))).collect())
}

fn variant(name: &'static str, content: Data) -> Data {
    Data::Variant(Box::new(Data::Str(name)), Box::new(content))
}

#[test]
fn reads_a_unit_struct() {
    assert_eq!(read(Data::Unit), Ok(Unit));
    assert_eq!(read(nums(&[])), Ok(Unit));
    refuses::<Unit>(nums(&[1]), Fault::Left);
    refuses::<Unit>(Data::Str("Unit"), Fault::Mismatch);
    refuses::<Unit>(map(&[]), Fault::Mismatch);
    refuses::<Unit>(variant("Unit", Data::Unit), Fault::Mismatch);
}

#[test]
fn reads_a_tuple_struct() {
    assert_eq!(read(nums(&[1, 2])), Ok(Pair(1, 2)));
    refuses::<Pair>(nums(&[]), Fault::EndOfStream);
    refuses::<Pair>(nums(&[1]), Fault::EndOfStream);
    refuses::<Pair>(nums(&[1, 2, 3]), Fault::Left);
    refuses::<Pair>(Data::List(vec![Data::Unit]), Fault::Mismatch);
    refuses::<Pair>(Data::Unit, Fault::Mismatch);
    refuses::<Pair>(map(&[]), Fault::Mismatch);
}

#[test]
fn reads_a_complete_map_in_any_order() {
    let expected = Rec { a: 1, b: 2, c: 3 };
    assert_eq!(read(map(&[("a", 1), ("bee", 2), ("c", 3)])).as_ref(), Ok(&expected));
    assert_eq!(read(map(&[("c", 3), ("a", 1), ("bee", 2)])).as_ref(), Ok(&expected));
    assert_eq!(read(map(&[("bee", 2), ("c", 3), ("a", 1)])).as_ref(), Ok(&expected));
}

#[test]
fn the_last_entry_for_a_field_counts() {
    let data = map(&[("a", 9), ("bee", 2), ("a", 8), ("c", 3), ("a", 1)]);
    assert_eq!(read(data), Ok(Rec { a: 1, b: 2, c: 3 }));
}

#[test]
fn a_missing_field_gets_its_default_or_is_asked_for() {
    assert_eq!(read(map(&[("a", 1), ("bee", 2)])), Ok(Rec { a: 1, b: 2, c: 0 }));
    refuses::<Rec>(map(&[("a", 1)]), Fault::Missing("bee".to_string()));
    refuses::<Rec>(map(&[("bee", 1)]), Fault::Missing("a".to_string()));
    refuses::<Rec>(map(&[]), Fault::Missing("a".to_string()));
}

#[test]
fn an_unknown_key_is_refused() {
    let unknown = Fault::UnknownField("b".to_string());
    refuses::<Rec>(map(&[("b", 2)]), unknown.clone());
    refuses::<Rec>(map(&[("a", 1), ("b", 2), ("bee", 2)]), unknown);
    let no_string = Data::Table(vec![(Data::Num(1), Data::Num(1))]);
    refuses::<Rec>(no_string, Fault::Mismatch);
}

#[test]
fn a_struct_is_read_from_nothing_else() {
    refuses::<Rec>(Data::Unit, Fault::Mismatch);
    refuses::<Rec>(nums(&[1, 2, 3]), Fault::Mismatch);
    refuses::<Rec>(Data::Str("a"), Fault::Mismatch);
}

#[test]
fn reads_the_variants_of_an_enum() {
    assert_eq!(read(variant("Empty", Data::Unit)), Ok(Shape::Empty));
    assert_eq!(read(variant("Circle", nums(&[4]))), Ok(Shape::Circle(4)));
    assert_eq!(read(variant("Rect", map(&[("w", 5)]))), Ok(Shape::Rect { w: 5 }));
}

#[test]
fn refuses_what_does_not_fit_a_variant() {
    refuses::<Shape>(variant("Empty", nums(&[])), Fault::Mismatch);
    refuses::<Shape>(variant("Circle", Data::Unit), Fault::Mismatch);
    refuses::<Shape>(variant("Circle", nums(&[])), Fault::EndOfStream);
    refuses::<Shape>(variant("Rect", nums(&[5])), Fault::Mismatch);
    refuses::<Shape>(variant("Rect", map(&[])), Fault::Missing("w".to_string()));
    refuses::<Shape>(Data::Unit, Fault::Mismatch);
}

#[test]
fn an_unknown_variant_is_refused() {
    let unknown = Fault::UnknownField("Oval".to_string());
    refuses::<Shape>(variant("Oval", Data::Unit), unknown);
    let name = Box::new(Data::Num(0));
    refuses::<Shape>(Data::Variant(name, Box::new(Data::Unit)), Fault::Mismatch);
}

fn spoiled(data: Data) -> Data {
    Data::Spoiled(Box::new(data))
}

#[test]
fn errors_of_the_deserializer_are_returned() {
    refuses::<Unit>(Data::Broken, Fault::Broken);
    refuses::<Pair>(Data::Broken, Fault::Broken);
    refuses::<Rec>(Data::Broken, Fault::Broken);
    refuses::<Shape>(Data::Broken, Fault::Broken);
    refuses::<Unit>(spoiled(Data::Unit), Fault::Spoiled);
    refuses::<Pair>(spoiled(nums(&[1, 2])), Fault::Spoiled);
    refuses::<Rec>(spoiled(map(&[("a", 1), ("bee", 2)])), Fault::Spoiled);
    refuses::<Shape>(spoiled(variant("Empty", Data::Unit)), Fault::Spoiled);
    // An error in what was read comes first.
    refuses::<Pair>(spoiled(nums(&[1])), Fault::EndOfStream);
    refuses::<Pair>(spoiled(Data::Broken), Fault::Broken);
}

#[test]
fn errors_in_the_content_of_a_variant_are_returned() {
    refuses::<Shape>(variant("Empty", Data::Broken), Fault::Broken);
    refuses::<Shape>(variant("Circle", Data::Broken), Fault::Broken);
    refuses::<Shape>(variant("Rect", Data::Broken), Fault::Broken);
    refuses::<Shape>(variant("Empty", spoiled(Data::Unit)), Fault::Spoiled);
    refuses::<Shape>(variant("Circle", spoiled(nums(&[4]))), Fault::Spoiled);
    refuses::<Shape>(variant("Rect", spoiled(map(&[("w", 5)]))), Fault::Spoiled);
    refuses::<Shape>(variant("Rect", spoiled(nums(&[5]))), Fault::Mismatch);
}

#[test]
fn the_order_of_entries_does_not_matter() {
    let expected = Rec { a: 1, b: 2, c: 0 };
    assert_eq!(read(map(&[("a", 1), ("bee", 2)])).as_ref(), Ok(&expected));
    assert_eq!(read(map(&[("bee", 2), ("a", 1)])).as_ref(), Ok(&expected));
    let missing = Fault::Missing("a".to_string());
    refuses::<Rec>(map(&[("bee", 2), ("c", 3)]), missing.clone());
    refuses::<Rec>(map(&[("c", 3), ("bee", 2)]), missing);
}

#[test]
fn a_unit_struct_asks_for_the_end_of_a_sequence() {
    assert_eq!(calls::<Unit>(Data::Unit), vec!["visit_named_unit Unit"]);
    assert_eq!(calls::<Unit>(nums(&[])), vec!["visit_named_unit Unit", "end"]);
    assert_eq!(calls::<Unit>(Data::Broken), vec!["visit_named_unit Unit"]);
}

#[test]
fn a_tuple_struct_asks_for_each_value_and_the_end() {
    let first = "visit_named_seq Pair";
    assert_eq!(calls::<Pair>(nums(&[1, 2])), vec![first, "visit", "visit", "end"]);
    assert_eq!(calls::<Pair>(nums(&[1, 2, 3])), vec![first, "visit", "visit", "end"]);
    assert_eq!(calls::<Pair>(nums(&[1])), vec![first, "visit", "visit"]);
    assert_eq!(calls::<Pair>(Data::List(vec![Data::Unit])), vec![first, "visit"]);
    assert_eq!(calls::<Pair>(Data::Unit), vec![first]);
}

#[test]
fn a_struct_asks_for_entries_then_missing_fields_then_the_end() {
    let first = "visit_named_map Rec";
    assert_eq!(
        calls::<Rec>(map(&[("bee", 2), ("a", 1)])),
        vec![first, "visit_key", "visit_value", "visit_key", "visit_value", "visit_key", "end"]
    );
    assert_eq!(
        calls::<Rec>(map(&[("a", 1)])),
        vec![first, "visit_key", "visit_value", "visit_key", "missing_field bee"]
    );
    assert_eq!(calls::<Rec>(map(&[])), vec![first, "visit_key", "missing_field a"]);
    assert_eq!(calls::<Rec>(map(&[("b", 1)])), vec![first, "visit_key"]);
    let bad = Data::Table(vec![(Data::Str("a"), Data::Unit)]);
    assert_eq!(calls::<Rec>(bad), vec![first, "visit_key", "visit_value"]);
}

#[test]
fn an_enum_asks_for_the_variant_and_its_content() {
    let first = "visit_enum Shape";
    assert_eq!(
        calls::<Shape>(variant("Empty", Data::Unit)),
        vec![first, "visit_variant", "visit_unit"]
    );
    assert_eq!(
        calls::<Shape>(variant("Circle", nums(&[4]))),
        vec![first, "visit_variant", "visit_seq", "visit", "end"]
    );
    assert_eq!(
        calls::<Shape>(variant("Rect", map(&[("w", 5)]))),
        vec![
            first,
            "visit_variant",
            "visit_map",
            "visit_key",
            "visit_value",
            "visit_key",
            "end"
        ]
    );
    assert_eq!(
        calls::<Shape>(variant("Rect", Data::Broken)),
        vec![first, "visit_variant", "visit_map"]
    );
    assert_eq!(calls::<Shape>(variant("Oval", Data::Unit)), vec![first, "visit_variant"]);
}
