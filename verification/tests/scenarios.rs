use serde_schema_derive::descriptor::{Record, Slot, TypeDescriptor, TypeId};
use serde_schema_derive::register::{schema_register, Error};
use serde_schema_derive::shape::{Data, Field, ShapeError, Style, TypeRef, TypeShape, Variant};
use serde_schema_derive::store::{SchemaStore, StoreError};

fn builtin(name: &str) -> TypeDescriptor {
    TypeDescriptor::Record(Record { style: Style::Unit, name: name.to_string(), slots: vec![] })
}

fn known(name: &str, id: u64) -> Field<TypeRef> {
    Field { name: name.to_string(), ty: TypeRef::Known(TypeId(id)) }
}

fn nested(name: &str, shape: TypeShape<TypeRef>) -> Field<TypeRef> {
    Field { name: name.to_string(), ty: TypeRef::Nested(Box::new(shape)) }
}

fn point() -> TypeShape<TypeRef> {
    TypeShape {
        name: "Point".to_string(),
        data: Data::Struct(Style::Struct, vec![known("x", 0), known("y", 0)]),
    }
}

fn point_descriptor() -> TypeDescriptor {
    TypeDescriptor::Record(Record {
        style: Style::Struct,
        name: "Point".to_string(),
        slots: vec![
            Slot { name: Some("x".to_string()), type_id: TypeId(0) },
            Slot { name: Some("y".to_string()), type_id: TypeId(0) },
        ],
    })
}

fn store_with_builtin(name: &str) -> SchemaStore {
    let mut store = SchemaStore::new();
    assert_eq!(store.register(builtin(name)), Ok(TypeId(0)));
    store
}

#[test]
fn struct_over_a_registered_builtin() {
    let mut store = store_with_builtin("i32");
    let id = schema_register(&point(), &mut store);
    assert_eq!(id, Ok(TypeId(1)));
    assert_eq!(store.len(), 2);
    assert_eq!(store.get(TypeId(1)), Some(&point_descriptor()));
    assert_eq!(store.get(TypeId(0)), Some(&builtin("i32")));
}

#[test]
fn newtype_registers_its_payload_first() {
    let mut store = store_with_builtin("i32");
    let wrapper = TypeShape {
        name: "Wrapper".to_string(),
        data: Data::Struct(Style::Newtype, vec![nested("0", point())]),
    };
    let id = schema_register(&wrapper, &mut store);
    assert_eq!(id, Ok(TypeId(2)));
    assert_eq!(store.len(), 3);
    assert_eq!(store.get(TypeId(1)), Some(&point_descriptor()));
    assert_eq!(
        store.get(TypeId(2)),
        Some(&TypeDescriptor::Record(Record {
            style: Style::Newtype,
            name: "Wrapper".to_string(),
            slots: vec![Slot { name: None, type_id: TypeId(1) }],
        }))
    );
}

#[test]
fn enum_with_a_newtype_and_a_unit_variant() {
    let mut store = store_with_builtin("f64");
    let shape = TypeShape {
        name: "Shape".to_string(),
        data: Data::Enum(vec![
            Variant {
                name: "Circle".to_string(),
                style: Style::Newtype,
                fields: vec![known("0", 0)],
            },
            Variant { name: "Empty".to_string(), style: Style::Unit, fields: vec![] },
        ]),
    };
    let id = schema_register(&shape, &mut store);
    assert_eq!(id, Ok(TypeId(1)));
    match store.get(TypeId(1)) {
        Some(TypeDescriptor::Enum { name, variants }) => {
            assert_eq!(name, "Shape");
            assert_eq!(variants.len(), 2);
            assert_eq!(
                variants[0],
                Record {
                    style: Style::Newtype,
                    name: "Circle".to_string(),
                    slots: vec![Slot { name: None, type_id: TypeId(0) }],
                }
            );
            assert_eq!(
                variants[1],
                Record { style: Style::Unit, name: "Empty".to_string(), slots: vec![] }
            );
        }
        other => panic!("not an enum: {:?}", other),
    }
}

#[test]
fn unit_has_no_slots_in_any_store() {
    let unit = TypeShape { name: "Marker".to_string(), data: Data::Struct(Style::Unit, vec![]) };
    let expected =
        TypeDescriptor::Record(Record { style: Style::Unit, name: "Marker".to_string(), slots: vec![] });

    let mut empty = SchemaStore::new();
    assert_eq!(schema_register(&unit, &mut empty), Ok(TypeId(0)));
    assert_eq!(empty.get(TypeId(0)), Some(&expected));

    let mut filled = store_with_builtin("i32");
    assert_eq!(schema_register(&point(), &mut filled), Ok(TypeId(1)));
    assert_eq!(schema_register(&unit, &mut filled), Ok(TypeId(2)));
    assert_eq!(filled.get(TypeId(2)), Some(&expected));
    assert_eq!(filled.len(), 3);
}

#[test]
fn struct_slots_keep_declared_order_and_refer_to_their_types() {
    let mut store = store_with_builtin("bool");
    let inner_a = TypeShape { name: "A".to_string(), data: Data::Struct(Style::Unit, vec![]) };
    let inner_b = TypeShape { name: "B".to_string(), data: Data::Struct(Style::Unit, vec![]) };
    let shape = TypeShape {
        name: "Outer".to_string(),
        data: Data::Struct(
            Style::Struct,
            vec![nested("zeta", inner_b), known("flag", 0), nested("alpha", inner_a)],
        ),
    };
    assert_eq!(schema_register(&shape, &mut store), Ok(TypeId(3)));
    assert_eq!(store.lookup("B"), Some(TypeId(1)));
    assert_eq!(store.lookup("A"), Some(TypeId(2)));
    assert_eq!(
        store.get(TypeId(3)),
        Some(&TypeDescriptor::Record(Record {
            style: Style::Struct,
            name: "Outer".to_string(),
            slots: vec![
                Slot { name: Some("zeta".to_string()), type_id: TypeId(1) },
                Slot { name: Some("flag".to_string()), type_id: TypeId(0) },
                Slot { name: Some("alpha".to_string()), type_id: TypeId(2) },
            ],
        }))
    );
}

#[test]
fn tuple_has_one_unnamed_slot_per_element() {
    let mut store = store_with_builtin("u8");
    assert_eq!(store.register(builtin("u16")), Ok(TypeId(1)));
    let shape = TypeShape {
        name: "Triple".to_string(),
        data: Data::Struct(Style::Tuple, vec![known("0", 1), known("1", 0), known("2", 1)]),
    };
    assert_eq!(schema_register(&shape, &mut store), Ok(TypeId(2)));
    assert_eq!(
        store.get(TypeId(2)),
        Some(&TypeDescriptor::Record(Record {
            style: Style::Tuple,
            name: "Triple".to_string(),
            slots: vec![
                Slot { name: None, type_id: TypeId(1) },
                Slot { name: None, type_id: TypeId(0) },
                Slot { name: None, type_id: TypeId(1) },
            ],
        }))
    );
}

#[test]
fn tuple_without_elements_has_no_slots() {
    let mut store = SchemaStore::new();
    let shape = TypeShape { name: "Empty".to_string(), data: Data::Struct(Style::Tuple, vec![]) };
    assert_eq!(schema_register(&shape, &mut store), Ok(TypeId(0)));
    assert_eq!(
        store.get(TypeId(0)),
        Some(&TypeDescriptor::Record(Record {
            style: Style::Tuple,
            name: "Empty".to_string(),
            slots: vec![],
        }))
    );
}

#[test]
fn enum_variants_follow_the_rules_of_their_styles() {
    let mut store = store_with_builtin("i32");
    let payload = TypeShape { name: "Payload".to_string(), data: Data::Struct(Style::Unit, vec![]) };
    let shape = TypeShape {
        name: "Message".to_string(),
        data: Data::Enum(vec![
            Variant { name: "Quit".to_string(), style: Style::Unit, fields: vec![] },
            Variant {
                name: "Move".to_string(),
                style: Style::Struct,
                fields: vec![known("x", 0), known("y", 0)],
            },
            Variant {
                name: "Write".to_string(),
                style: Style::Newtype,
                fields: vec![nested("0", payload)],
            },
            Variant {
                name: "Color".to_string(),
                style: Style::Tuple,
                fields: vec![known("0", 0), known("1", 0), known("2", 0)],
            },
        ]),
    };
    assert_eq!(schema_register(&shape, &mut store), Ok(TypeId(2)));
    assert_eq!(store.lookup("Payload"), Some(TypeId(1)));
    assert_eq!(
        store.get(TypeId(2)),
        Some(&TypeDescriptor::Enum {
            name: "Message".to_string(),
            variants: vec![
                Record { style: Style::Unit, name: "Quit".to_string(), slots: vec![] },
                Record {
                    style: Style::Struct,
                    name: "Move".to_string(),
                    slots: vec![
                        Slot { name: Some("x".to_string()), type_id: TypeId(0) },
                        Slot { name: Some("y".to_string()), type_id: TypeId(0) },
                    ],
                },
                Record {
                    style: Style::Newtype,
                    name: "Write".to_string(),
                    slots: vec![Slot { name: None, type_id: TypeId(1) }],
                },
                Record {
                    style: Style::Tuple,
                    name: "Color".to_string(),
                    slots: vec![
                        Slot { name: None, type_id: TypeId(0) },
                        Slot { name: None, type_id: TypeId(0) },
                        Slot { name: None, type_id: TypeId(0) },
                    ],
                },
            ],
        })
    );
}

#[test]
fn enum_without_variants() {
    let mut store = SchemaStore::new();
    let shape = TypeShape { name: "Never".to_string(), data: Data::Enum(vec![]) };
    assert_eq!(schema_register(&shape, &mut store), Ok(TypeId(0)));
    assert_eq!(
        store.get(TypeId(0)),
        Some(&TypeDescriptor::Enum { name: "Never".to_string(), variants: vec![] })
    );
}

#[test]
fn registering_a_shape_twice_is_refused_the_second_time() {
    let mut store = store_with_builtin("i32");
    assert_eq!(schema_register(&point(), &mut store), Ok(TypeId(1)));
    assert_eq!(
        schema_register(&point(), &mut store),
        Err(Error::Store(StoreError::DuplicateName(TypeId(1))))
    );
    assert_eq!(store.len(), 2);
}

#[test]
fn a_type_used_twice_is_registered_twice_and_refused() {
    let mut store = store_with_builtin("i32");
    let line = TypeShape {
        name: "Line".to_string(),
        data: Data::Struct(Style::Struct, vec![nested("from", point()), nested("to", point())]),
    };
    assert_eq!(
        schema_register(&line, &mut store),
        Err(Error::Store(StoreError::DuplicateName(TypeId(1))))
    );
    assert_eq!(store.len(), 2);
    assert_eq!(store.get(TypeId(1)), Some(&point_descriptor()));
    assert_eq!(store.lookup("Line"), None);
}

#[test]
fn newtype_without_payload_is_a_shape_error() {
    let mut store = store_with_builtin("i32");
    let shape = TypeShape { name: "Bad".to_string(), data: Data::Struct(Style::Newtype, vec![]) };
    assert_eq!(
        schema_register(&shape, &mut store),
        Err(Error::Shape(ShapeError { style: Style::Newtype, fields: 0 }))
    );
    assert_eq!(store.len(), 1);
}

#[test]
fn newtype_with_two_payloads_is_a_shape_error() {
    let mut store = store_with_builtin("i32");
    let shape = TypeShape {
        name: "Bad".to_string(),
        data: Data::Struct(Style::Newtype, vec![nested("0", point()), known("1", 0)]),
    };
    assert_eq!(
        schema_register(&shape, &mut store),
        Err(Error::Shape(ShapeError { style: Style::Newtype, fields: 2 }))
    );
    assert_eq!(store.len(), 1);
}

#[test]
fn unit_with_a_field_is_a_shape_error() {
    let mut store = store_with_builtin("i32");
    let shape =
        TypeShape { name: "Bad".to_string(), data: Data::Struct(Style::Unit, vec![known("0", 0)]) };
    assert_eq!(
        schema_register(&shape, &mut store),
        Err(Error::Shape(ShapeError { style: Style::Unit, fields: 1 }))
    );
    assert_eq!(store.len(), 1);
}

#[test]
fn the_first_bad_variant_is_reported_and_nothing_is_registered() {
    let mut store = store_with_builtin("i32");
    let shape = TypeShape {
        name: "Bad".to_string(),
        data: Data::Enum(vec![
            Variant {
                name: "Fine".to_string(),
                style: Style::Newtype,
                fields: vec![nested("0", point())],
            },
            Variant { name: "Two".to_string(), style: Style::Unit, fields: vec![known("0", 0)] },
            Variant { name: "Three".to_string(), style: Style::Newtype, fields: vec![] },
        ]),
    };
    assert_eq!(
        schema_register(&shape, &mut store),
        Err(Error::Shape(ShapeError { style: Style::Unit, fields: 1 }))
    );
    assert_eq!(store.len(), 1);
}

#[test]
fn a_failure_deep_inside_leaves_what_was_registered_before() {
    let mut store = store_with_builtin("i32");
    let broken = TypeShape { name: "Broken".to_string(), data: Data::Struct(Style::Newtype, vec![]) };
    let middle = TypeShape {
        name: "Middle".to_string(),
        data: Data::Struct(Style::Tuple, vec![nested("0", point()), nested("1", broken)]),
    };
    let outer = TypeShape {
        name: "Outer".to_string(),
        data: Data::Enum(vec![
            Variant { name: "First".to_string(), style: Style::Unit, fields: vec![] },
            Variant {
                name: "Second".to_string(),
                style: Style::Struct,
                fields: vec![known("a", 0), nested("b", middle), known("c", 0)],
            },
        ]),
    };
    assert_eq!(
        schema_register(&outer, &mut store),
        Err(Error::Shape(ShapeError { style: Style::Newtype, fields: 0 }))
    );
    assert_eq!(store.len(), 2);
    assert_eq!(store.get(TypeId(1)), Some(&point_descriptor()));
    assert_eq!(store.lookup("Middle"), None);
    assert_eq!(store.lookup("Outer"), None);
}

#[test]
fn nested_types_are_registered_depth_first_in_declared_order() {
    let mut store = SchemaStore::new();
    let leaf = |name: &str| TypeShape {
        name: name.to_string(),
        data: Data::Struct(Style::Unit, vec![]),
    };
    let left = TypeShape {
        name: "Left".to_string(),
        data: Data::Struct(Style::Tuple, vec![nested("0", leaf("L0")), nested("1", leaf("L1"))]),
    };
    let right = TypeShape {
        name: "Right".to_string(),
        data: Data::Struct(Style::Newtype, vec![nested("0", leaf("R0"))]),
    };
    let root = TypeShape {
        name: "Root".to_string(),
        data: Data::Struct(Style::Struct, vec![nested("left", left), nested("right", right)]),
    };
    assert_eq!(schema_register(&root, &mut store), Ok(TypeId(5)));
    let names: Vec<String> =
        (0..6).map(|i| store.get(TypeId(i)).unwrap().name().clone()).collect();
    assert_eq!(names, vec!["L0", "L1", "Left", "R0", "Right", "Root"]);
    assert_eq!(
        store.get(TypeId(5)),
        Some(&TypeDescriptor::Record(Record {
            style: Style::Struct,
            name: "Root".to_string(),
            slots: vec![
                Slot { name: Some("left".to_string()), type_id: TypeId(2) },
                Slot { name: Some("right".to_string()), type_id: TypeId(4) },
            ],
        }))
    );
}
