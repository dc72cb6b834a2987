use serde_schema_derive::builder::TypeBuilder;
use serde_schema_derive::descriptor::{Record, Slot, TypeDescriptor, TypeId};
use serde_schema_derive::register::{resolve, Error};
use serde_schema_derive::shape::{Data, Kind, ShapeError, Style, TypeRef, TypeShape};
use serde_schema_derive::store::{SchemaStore, StoreError};

fn unit(name: &str) -> TypeDescriptor {
    TypeDescriptor::Record(Record { style: Style::Unit, name: name.to_string(), slots: vec![] })
}

#[test]
fn styles_admit_their_numbers_of_fields() {
    for count in [0usize, 1, 2, 17] {
        assert!(Style::Struct.allows(count));
        assert!(Style::Tuple.allows(count));
        assert_eq!(Style::Newtype.allows(count), count == 1);
        assert_eq!(Style::Unit.allows(count), count == 0);
    }
}

#[test]
fn kinds_and_styles() {
    assert_eq!(Kind::Struct.to_style(), Some(Style::Struct));
    assert_eq!(Kind::Tuple.to_style(), Some(Style::Tuple));
    assert_eq!(Kind::Newtype.to_style(), Some(Style::Newtype));
    assert_eq!(Kind::Unit.to_style(), Some(Style::Unit));
    assert_eq!(Kind::Enum.to_style(), None);
    for style in [Style::Struct, Style::Tuple, Style::Newtype, Style::Unit] {
        assert_eq!(style.to_kind().to_style(), Some(style));
    }
}

#[test]
fn store_issues_ids_in_order() {
    let mut store = SchemaStore::new();
    assert_eq!(store.len(), 0);
    assert_eq!(store.get(TypeId(0)), None);
    assert_eq!(store.register(unit("a")), Ok(TypeId(0)));
    assert_eq!(store.register(unit("b")), Ok(TypeId(1)));
    assert_eq!(store.register(unit("c")), Ok(TypeId(2)));
    assert_eq!(store.len(), 3);
    assert_eq!(store.get(TypeId(1)), Some(&unit("b")));
    assert_eq!(store.get(TypeId(3)), None);
    assert_eq!(store.get(TypeId(u64::MAX)), None);
}

#[test]
fn store_refuses_a_name_that_is_taken() {
    let mut store = SchemaStore::new();
    assert_eq!(store.register(unit("a")), Ok(TypeId(0)));
    assert_eq!(store.register(unit("b")), Ok(TypeId(1)));
    let other_b = TypeDescriptor::Enum { name: "b".to_string(), variants: vec![] };
    assert_eq!(store.register(other_b), Err(StoreError::DuplicateName(TypeId(1))));
    assert_eq!(store.register(unit("a")), Err(StoreError::DuplicateName(TypeId(0))));
    assert_eq!(store.len(), 2);
    assert_eq!(store.get(TypeId(1)), Some(&unit("b")));
}

#[test]
fn store_finds_types_by_name() {
    let mut store = SchemaStore::new();
    assert_eq!(store.lookup("a"), None);
    assert_eq!(store.register(unit("a")), Ok(TypeId(0)));
    assert_eq!(store.register(unit("ab")), Ok(TypeId(1)));
    assert_eq!(store.lookup("a"), Some(TypeId(0)));
    assert_eq!(store.lookup("ab"), Some(TypeId(1)));
    assert_eq!(store.lookup("b"), None);
    assert_eq!(store.lookup(""), None);
}

#[test]
fn descriptor_names() {
    assert_eq!(unit("a").name(), "a");
    assert_eq!(TypeDescriptor::Enum { name: "E".to_string(), variants: vec![] }.name(), "E");
}

#[test]
fn resolving_a_known_type_leaves_the_store_alone() {
    let mut store = SchemaStore::new();
    assert_eq!(resolve(&TypeRef::Known(TypeId(42)), &mut store), Ok(TypeId(42)));
    assert_eq!(store.len(), 0);
}

#[test]
fn resolving_a_shape_registers_it() {
    let mut store = SchemaStore::new();
    assert_eq!(store.register(unit("first")), Ok(TypeId(0)));
    let shape = TypeShape { name: "second".to_string(), data: Data::Struct(Style::Unit, vec![]) };
    assert_eq!(resolve(&TypeRef::Nested(Box::new(shape)), &mut store), Ok(TypeId(1)));
    assert_eq!(store.get(TypeId(1)), Some(&unit("second")));
    let again = TypeShape { name: "second".to_string(), data: Data::Struct(Style::Unit, vec![]) };
    assert_eq!(
        resolve(&TypeRef::Nested(Box::new(again)), &mut store),
        Err(Error::Store(StoreError::DuplicateName(TypeId(1))))
    );
    let bad = TypeShape { name: "third".to_string(), data: Data::Struct(Style::Newtype, vec![]) };
    assert_eq!(
        resolve(&TypeRef::Nested(Box::new(bad)), &mut store),
        Err(Error::Shape(ShapeError { style: Style::Newtype, fields: 0 }))
    );
    assert_eq!(store.len(), 2);
}

#[test]
fn builder_assembles_a_struct() {
    let descriptor = TypeBuilder::new()
        .open(Kind::Struct, "Point", 2)
        .field("x", TypeId(0))
        .field("y", TypeId(1))
        .close()
        .finish();
    assert_eq!(
        descriptor,
        TypeDescriptor::Record(Record {
            style: Style::Struct,
            name: "Point".to_string(),
            slots: vec![
                Slot { name: Some("x".to_string()), type_id: TypeId(0) },
                Slot { name: Some("y".to_string()), type_id: TypeId(1) },
            ],
        })
    );
}

#[test]
fn builder_assembles_unit_newtype_and_tuple() {
    assert_eq!(TypeBuilder::new().open(Kind::Unit, "U", 0).close().finish(), unit("U"));
    assert_eq!(
        TypeBuilder::new().open(Kind::Newtype, "N", 1).element(TypeId(5)).close().finish(),
        TypeDescriptor::Record(Record {
            style: Style::Newtype,
            name: "N".to_string(),
            slots: vec![Slot { name: None, type_id: TypeId(5) }],
        })
    );
    assert_eq!(
        TypeBuilder::new()
            .open(Kind::Tuple, "T", 2)
            .element(TypeId(5))
            .element(TypeId(6))
            .close()
            .finish(),
        TypeDescriptor::Record(Record {
            style: Style::Tuple,
            name: "T".to_string(),
            slots: vec![Slot { name: None, type_id: TypeId(5) }, Slot { name: None, type_id: TypeId(6) }],
        })
    );
}

#[test]
fn builder_assembles_an_enum() {
    let descriptor = TypeBuilder::new()
        .open(Kind::Enum, "E", 4)
        .unit_variant("A")
        .newtype_variant("B", TypeId(1))
        .struct_variant("C", 1)
        .field("c", TypeId(2))
        .close()
        .tuple_variant("D", 2)
        .element(TypeId(3))
        .element(TypeId(4))
        .close()
        .close()
        .finish();
    assert_eq!(
        descriptor,
        TypeDescriptor::Enum {
            name: "E".to_string(),
            variants: vec![
                Record { style: Style::Unit, name: "A".to_string(), slots: vec![] },
                Record {
                    style: Style::Newtype,
                    name: "B".to_string(),
                    slots: vec![Slot { name: None, type_id: TypeId(1) }],
                },
                Record {
                    style: Style::Struct,
                    name: "C".to_string(),
                    slots: vec![Slot { name: Some("c".to_string()), type_id: TypeId(2) }],
                },
                Record {
                    style: Style::Tuple,
                    name: "D".to_string(),
                    slots: vec![
                        Slot { name: None, type_id: TypeId(3) },
                        Slot { name: None, type_id: TypeId(4) },
                    ],
                },
            ],
        }
    );
}

#[test]
fn descriptor_kinds() {
    assert_eq!(unit("a").kind(), Kind::Unit);
    assert_eq!(TypeDescriptor::Enum { name: "E".to_string(), variants: vec![] }.kind(), Kind::Enum);
    let point = TypeBuilder::new().open(Kind::Struct, "P", 0).close().finish();
    assert_eq!(point.kind(), Kind::Struct);
    let pair = TypeBuilder::new().open(Kind::Tuple, "T", 0).close().finish();
    assert_eq!(pair.kind(), Kind::Tuple);
    let wrapped = TypeBuilder::new().open(Kind::Newtype, "N", 1).element(TypeId(0)).close().finish();
    assert_eq!(wrapped.kind(), Kind::Newtype);
}
