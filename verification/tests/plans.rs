use serde_schema_derive::assemble::{advance, assemble};
use serde_schema_derive::builder::TypeBuilder;
use serde_schema_derive::derive_enum::{
    derive_enum, derive_newtype_variant, derive_struct_variant, derive_tuple_variant,
    derive_unit_variant,
};
use serde_schema_derive::derive_struct::{
    derive_struct, derive_struct_named_fields, derive_struct_newtype, derive_struct_tuple,
    derive_struct_unit,
};
use serde_schema_derive::descriptor::{Record, Slot, TypeDescriptor, TypeId};
use serde_schema_derive::plan::{BuildStep, Plan, Registration, TypeVar};
use serde_schema_derive::shape::{Data, Field, Kind, ShapeError, Style, TypeShape, Variant};
use serde_schema_derive::{
    derive_element, derive_field, derive_register_field_types, derive_schema_serialize,
    variant_field_type_variable,
};

fn field(name: &str, ty: &'static str) -> Field<&'static str> {
    Field { name: name.to_string(), ty }
}

fn var(variant_idx: usize, field_idx: usize) -> TypeVar {
    TypeVar { variant_idx, field_idx }
}

#[test]
fn type_variable_of_a_field() {
    assert_eq!(variant_field_type_variable(0, 0), var(0, 0));
    assert_eq!(variant_field_type_variable(3, 7), var(3, 7));
    assert_ne!(variant_field_type_variable(1, 2), variant_field_type_variable(2, 1));
}

#[test]
fn field_types_are_registered_in_declared_order() {
    let fields = vec![field("a", "u8"), field("b", "String"), field("c", "u8")];
    let row = derive_register_field_types(2, &fields);
    assert_eq!(
        row,
        vec![
            Registration { type_id: var(2, 0), ty: &"u8" },
            Registration { type_id: var(2, 1), ty: &"String" },
            Registration { type_id: var(2, 2), ty: &"u8" },
        ]
    );
    let none: Vec<Field<&str>> = vec![];
    assert_eq!(derive_register_field_types(0, &none), vec![]);
}

#[test]
fn field_and_element_steps() {
    let f = field("width", "u32");
    assert_eq!(derive_field(1, 4, &f), BuildStep::Field { name: "width", type_id: var(1, 4) });
    assert_eq!(derive_element(5, 6), BuildStep::Element { type_id: var(5, 6) });
}

#[test]
fn plan_of_a_struct_with_named_fields() {
    let fields = vec![field("x", "i32"), field("y", "i32")];
    let expected = Plan {
        registrations: vec![vec![
            Registration { type_id: var(0, 0), ty: &"i32" },
            Registration { type_id: var(0, 1), ty: &"i32" },
        ]],
        build: vec![
            BuildStep::Open { kind: Kind::Struct, name: "Point", slots: 2 },
            BuildStep::Field { name: "x", type_id: var(0, 0) },
            BuildStep::Field { name: "y", type_id: var(0, 1) },
            BuildStep::Close,
        ],
    };
    assert_eq!(derive_struct_named_fields(&fields, "Point"), expected);
    assert_eq!(derive_struct(&Style::Struct, &fields, "Point"), Ok(expected));
}

#[test]
fn plan_of_a_tuple_struct() {
    let fields = vec![field("0", "u8"), field("1", "u16"), field("2", "u32")];
    let expected = Plan {
        registrations: vec![vec![
            Registration { type_id: var(0, 0), ty: &"u8" },
            Registration { type_id: var(0, 1), ty: &"u16" },
            Registration { type_id: var(0, 2), ty: &"u32" },
        ]],
        build: vec![
            BuildStep::Open { kind: Kind::Tuple, name: "Rgb", slots: 3 },
            BuildStep::Element { type_id: var(0, 0) },
            BuildStep::Element { type_id: var(0, 1) },
            BuildStep::Element { type_id: var(0, 2) },
            BuildStep::Close,
        ],
    };
    assert_eq!(derive_struct_tuple(&fields, "Rgb"), expected);
    assert_eq!(derive_struct(&Style::Tuple, &fields, "Rgb"), Ok(expected));
}

#[test]
fn plan_of_a_newtype_struct() {
    let fields = vec![field("0", "Inner")];
    let expected = Plan {
        registrations: vec![vec![Registration { type_id: var(0, 0), ty: &"Inner" }]],
        build: vec![
            BuildStep::Open { kind: Kind::Newtype, name: "Wrapper", slots: 1 },
            BuildStep::Element { type_id: var(0, 0) },
            BuildStep::Close,
        ],
    };
    assert_eq!(derive_struct_newtype(&fields, "Wrapper"), Ok(expected));
    let fields = vec![field("0", "Inner")];
    assert!(derive_struct(&Style::Newtype, &fields, "Wrapper").is_ok());
}

#[test]
fn plan_of_a_unit_struct() {
    let expected: Plan<&str> = Plan {
        registrations: vec![vec![]],
        build: vec![BuildStep::Open { kind: Kind::Unit, name: "Marker", slots: 0 }, BuildStep::Close],
    };
    assert_eq!(derive_struct_unit::<&str>("Marker"), expected);
    let none: Vec<Field<&str>> = vec![];
    assert_eq!(derive_struct(&Style::Unit, &none, "Marker"), Ok(expected));
}

#[test]
fn struct_plans_refuse_a_wrong_number_of_fields() {
    let none: Vec<Field<&str>> = vec![];
    let one = vec![field("0", "u8")];
    let two = vec![field("0", "u8"), field("1", "u8")];
    assert_eq!(
        derive_struct_newtype(&none, "N"),
        Err(ShapeError { style: Style::Newtype, fields: 0 })
    );
    assert_eq!(
        derive_struct(&Style::Newtype, &two, "N"),
        Err(ShapeError { style: Style::Newtype, fields: 2 })
    );
    assert_eq!(derive_struct(&Style::Unit, &one, "U"), Err(ShapeError { style: Style::Unit, fields: 1 }));
    assert!(derive_struct(&Style::Struct, &none, "S").is_ok());
    assert!(derive_struct(&Style::Tuple, &one, "T").is_ok());
}

#[test]
fn variant_steps() {
    assert_eq!(derive_unit_variant("Empty"), BuildStep::UnitVariant { name: "Empty" });
    assert_eq!(
        derive_newtype_variant("Circle", 3),
        BuildStep::NewtypeVariant { name: "Circle", type_id: var(3, 0) }
    );
    let fields = vec![field("w", "f64"), field("h", "f64")];
    assert_eq!(
        derive_struct_variant("Rect", 1, &fields),
        vec![
            BuildStep::StructVariant { name: "Rect", slots: 2 },
            BuildStep::Field { name: "w", type_id: var(1, 0) },
            BuildStep::Field { name: "h", type_id: var(1, 1) },
            BuildStep::Close,
        ]
    );
    assert_eq!(
        derive_tuple_variant("Pair", 2, &fields),
        vec![
            BuildStep::TupleVariant { name: "Pair", slots: 2 },
            BuildStep::Element { type_id: var(2, 0) },
            BuildStep::Element { type_id: var(2, 1) },
            BuildStep::Close,
        ]
    );
    let none: Vec<Field<&str>> = vec![];
    assert_eq!(
        derive_struct_variant("Bare", 0, &none),
        vec![BuildStep::StructVariant { name: "Bare", slots: 0 }, BuildStep::Close]
    );
}

fn shape_variants() -> Vec<Variant<&'static str>> {
    vec![
        Variant { name: "Circle".to_string(), style: Style::Newtype, fields: vec![field("0", "f64")] },
        Variant { name: "Empty".to_string(), style: Style::Unit, fields: vec![] },
        Variant {
            name: "Rect".to_string(),
            style: Style::Struct,
            fields: vec![field("w", "f64"), field("h", "f32")],
        },
        Variant {
            name: "Pair".to_string(),
            style: Style::Tuple,
            fields: vec![field("0", "u8"), field("1", "u16")],
        },
    ]
}

#[test]
fn plan_of_an_enum() {
    let variants = shape_variants();
    let plan = derive_enum(&variants, "Shape").unwrap();
    assert_eq!(
        plan.registrations,
        vec![
            vec![Registration { type_id: var(0, 0), ty: &"f64" }],
            vec![],
            vec![
                Registration { type_id: var(2, 0), ty: &"f64" },
                Registration { type_id: var(2, 1), ty: &"f32" },
            ],
            vec![
                Registration { type_id: var(3, 0), ty: &"u8" },
                Registration { type_id: var(3, 1), ty: &"u16" },
            ],
        ]
    );
    assert_eq!(
        plan.build,
        vec![
            BuildStep::Open { kind: Kind::Enum, name: "Shape", slots: 4 },
            BuildStep::NewtypeVariant { name: "Circle", type_id: var(0, 0) },
            BuildStep::UnitVariant { name: "Empty" },
            BuildStep::StructVariant { name: "Rect", slots: 2 },
            BuildStep::Field { name: "w", type_id: var(2, 0) },
            BuildStep::Field { name: "h", type_id: var(2, 1) },
            BuildStep::Close,
            BuildStep::TupleVariant { name: "Pair", slots: 2 },
            BuildStep::Element { type_id: var(3, 0) },
            BuildStep::Element { type_id: var(3, 1) },
            BuildStep::Close,
            BuildStep::Close,
        ]
    );
}

#[test]
fn plan_of_an_enum_without_variants() {
    let variants: Vec<Variant<&str>> = vec![];
    let plan = derive_enum(&variants, "Never").unwrap();
    assert_eq!(plan.registrations, Vec::<Vec<Registration<&str>>>::new());
    assert_eq!(
        plan.build,
        vec![BuildStep::Open { kind: Kind::Enum, name: "Never", slots: 0 }, BuildStep::Close]
    );
}

#[test]
fn enum_plan_reports_the_first_bad_variant() {
    let mut variants = shape_variants();
    variants[3].style = Style::Newtype;
    variants[1].fields.push(field("0", "u8"));
    assert_eq!(
        derive_enum(&variants, "Shape"),
        Err(ShapeError { style: Style::Unit, fields: 1 })
    );
    variants[1].fields.clear();
    assert_eq!(
        derive_enum(&variants, "Shape"),
        Err(ShapeError { style: Style::Newtype, fields: 2 })
    );
}

#[test]
fn plan_of_a_shape_goes_by_its_data() {
    let as_struct = TypeShape {
        name: "Point".to_string(),
        data: Data::Struct(Style::Struct, vec![field("x", "i32")]),
    };
    let plan = derive_schema_serialize(&as_struct).unwrap();
    assert_eq!(
        plan.build,
        vec![
            BuildStep::Open { kind: Kind::Struct, name: "Point", slots: 1 },
            BuildStep::Field { name: "x", type_id: var(0, 0) },
            BuildStep::Close,
        ]
    );
    let as_enum = TypeShape { name: "Shape".to_string(), data: Data::Enum(shape_variants()) };
    let plan = derive_schema_serialize(&as_enum).unwrap();
    assert_eq!(plan.registrations.len(), 4);
    assert_eq!(plan.build.len(), 12);
    let bad = TypeShape { name: "Bad".to_string(), data: Data::Struct(Style::Unit, vec![field("0", "u8")]) };
    assert_eq!(derive_schema_serialize(&bad), Err(ShapeError { style: Style::Unit, fields: 1 }));
}

#[test]
fn assembling_the_plan_of_an_enum() {
    let variants = shape_variants();
    let plan = derive_enum(&variants, "Shape").unwrap();
    let type_ids = vec![
        vec![TypeId(10)],
        vec![],
        vec![TypeId(20), TypeId(21)],
        vec![TypeId(30), TypeId(31)],
    ];
    assert_eq!(
        assemble(&plan.build, &type_ids),
        TypeDescriptor::Enum {
            name: "Shape".to_string(),
            variants: vec![
                Record {
                    style: Style::Newtype,
                    name: "Circle".to_string(),
                    slots: vec![Slot { name: None, type_id: TypeId(10) }],
                },
                Record { style: Style::Unit, name: "Empty".to_string(), slots: vec![] },
                Record {
                    style: Style::Struct,
                    name: "Rect".to_string(),
                    slots: vec![
                        Slot { name: Some("w".to_string()), type_id: TypeId(20) },
                        Slot { name: Some("h".to_string()), type_id: TypeId(21) },
                    ],
                },
                Record {
                    style: Style::Tuple,
                    name: "Pair".to_string(),
                    slots: vec![
                        Slot { name: None, type_id: TypeId(30) },
                        Slot { name: None, type_id: TypeId(31) },
                    ],
                },
            ],
        }
    );
}

#[test]
fn assembling_the_plan_of_a_struct() {
    let fields = vec![field("x", "i32"), field("y", "i64")];
    let plan = derive_struct(&Style::Struct, &fields, "Point").unwrap();
    let type_ids = vec![vec![TypeId(4), TypeId(9)]];
    assert_eq!(
        assemble(&plan.build, &type_ids),
        TypeDescriptor::Record(Record {
            style: Style::Struct,
            name: "Point".to_string(),
            slots: vec![
                Slot { name: Some("x".to_string()), type_id: TypeId(4) },
                Slot { name: Some("y".to_string()), type_id: TypeId(9) },
            ],
        })
    );
}

#[test]
fn advancing_a_builder_step_by_step() {
    let type_ids = vec![vec![TypeId(7)]];
    let builder = TypeBuilder::new();
    let builder = advance(builder, &BuildStep::Open { kind: Kind::Newtype, name: "W", slots: 1 }, &type_ids);
    let builder = advance(builder, &BuildStep::Element { type_id: var(0, 0) }, &type_ids);
    let builder = advance(builder, &BuildStep::Close, &type_ids);
    assert_eq!(
        builder.finish(),
        TypeDescriptor::Record(Record {
            style: Style::Newtype,
            name: "W".to_string(),
            slots: vec![Slot { name: None, type_id: TypeId(7) }],
        })
    );
}
